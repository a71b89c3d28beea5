use crate::error::Error;
use crate::font::GlyphAtlas;
use crate::renderer::{Device, Renderer};
use crate::vertex::DrawList;
use vstd::prelude::*;

verus! {

/// Begin a frame: drawing happens between this and [`end_frame`].
///
/// `window_open` says whether the overlay window is still alive after its messages were
/// processed, `target_alive` whether the target window was still there to follow, and
/// `size` the overlay's client size. The renderer follows the size; a device lost in an
/// earlier frame is then rebuilt at that size and given the font atlas; the draw list is
/// emptied and the device is asked to start the frame. A failed resize or rebuild is
/// returned with the frame left closed. The device's answer to the start of the frame is
/// not waited on: the frame opens whatever it was, and a loss in it is recorded for the
/// next frame to repair.
pub fn begin_frame<D: Device>(
    in_frame: &mut bool,
    window_open: bool,
    target_alive: bool,
    size: (u32, u32),
    renderer: &mut Renderer<D>,
    atlas: &GlyphAtlas,
    list: &mut DrawList<D::Vertex>,
) -> (r: Result<(), Error>)
    requires
        old(renderer).lost() is Some ==> old(renderer).resets() < usize::MAX,
    ensures
        !window_open ==> r == Err::<(), Error>(Error::OverlayClosed) && *final(in_frame) == *old(
            in_frame,
        ) && *final(renderer) == *old(renderer) && *final(list) == *old(list),
        window_open && !target_alive ==> r == Err::<(), Error>(Error::TargetWindowLost)
            && *final(in_frame) == *old(in_frame) && *final(renderer) == *old(renderer)
            && *final(list) == *old(list),
        window_open && target_alive && old(renderer).lost() is None ==> exists|
            sized: Renderer<D>,
            a: Result<(), Error>,
        |
            #[trigger] Renderer::resized(*old(renderer), sized, size.0, size.1, a) && {
                ||| {
                    &&& a is Err
                    &&& r == a
                    &&& *final(renderer) == sized
                    &&& *final(in_frame) == *old(in_frame)
                    &&& *final(list) == *old(list)
                }
                ||| {
                    &&& a is Ok
                    &&& exists|c: Result<(), Error>|
                        #[trigger] Renderer::begun(sized, *final(renderer), c)
                    &&& r is Ok
                }
            },
        window_open && target_alive && old(renderer).lost() is Some ==> exists|
            sized: Renderer<D>,
            a: Result<(), Error>,
        |
            #[trigger] Renderer::resized(*old(renderer), sized, size.0, size.1, a) && {
                ||| {
                    &&& a is Err
                    &&& r == a
                    &&& *final(renderer) == sized
                    &&& *final(in_frame) == *old(in_frame)
                    &&& *final(list) == *old(list)
                }
                ||| {
                    &&& a is Ok
                    &&& exists|fixed: Renderer<D>, b: Result<(), Error>|
                        #[trigger] Renderer::repaired(sized, fixed, atlas, b) && {
                            ||| {
                                &&& b is Err
                                &&& r == b
                                &&& *final(renderer) == fixed
                                &&& *final(in_frame) == *old(in_frame)
                                &&& *final(list) == *old(list)
                            }
                            ||| {
                                &&& b is Ok
                                &&& exists|c: Result<(), Error>|
                                    #[trigger] Renderer::begun(fixed, *final(renderer), c)
                                &&& r is Ok
                            }
                        }
                }
            },
        r is Ok ==> {
            &&& *final(in_frame)
            &&& window_open && target_alive
            &&& final(list).vertices@.len() == 0
            &&& final(list).indices@.len() == 0
            &&& final(list).commands@.len() == 0
            &&& final(list).wf()
            &&& final(renderer).size() == size
            &&& old(renderer).lost() is Some ==> final(renderer).resets() == old(
                renderer,
            ).resets() + 1
        },
        r is Err ==> *final(in_frame) == *old(in_frame),
        (r matches Err(Error::OverlayClosed)) <==> !window_open,
        (r matches Err(Error::TargetWindowLost)) <==> window_open && !target_alive,
{
    if !window_open {
        return Err(Error::OverlayClosed);
    }
    if !target_alive {
        return Err(Error::TargetWindowLost);
    }
    let was_lost = renderer.device_lost();
    let ghost start = *renderer;
    let (width, height) = size;
    let resized = renderer.resize(width, height);
    let ghost sized = *renderer;
    assert(Renderer::resized(start, sized, size.0, size.1, resized));
    if resized.is_err() {
        return resized;
    }
    let repaired = if was_lost {
        renderer.repair(atlas)
    } else {
        Ok(())
    };
    let ghost fixed = *renderer;
    assert(was_lost ==> Renderer::repaired(sized, fixed, atlas, repaired));
    assert(!was_lost ==> fixed == sized);
    if repaired.is_err() {
        return repaired;
    }
    list.clear();
    let begun = renderer.begin_frame();
    assert(Renderer::begun(fixed, *renderer, begun));
    *in_frame = true;
    Ok(())
}

/// Finish a frame: hand the draw list to the device and present it. Outside a frame
/// nothing is drawn and the call fails with `NoActiveFrame`. A failed submit is returned
/// with the frame left open and nothing presented; a failed present is returned with the
/// frame left open.
pub fn end_frame<D: Device>(
    in_frame: &mut bool,
    renderer: &mut Renderer<D>,
    list: &DrawList<D::Vertex>,
) -> (r: Result<(), Error>)
    ensures
        !*old(in_frame) ==> r == Err::<(), Error>(Error::NoActiveFrame) && !*final(in_frame)
            && *final(renderer) == *old(renderer),
        *old(in_frame) ==> exists|sent: Renderer<D>, s: Result<(), Error>|
            #[trigger] Renderer::submitted(
                *old(renderer),
                sent,
                list.vertices@,
                list.indices@,
                list.commands@,
                s,
            ) && {
                ||| {
                    &&& s is Err
                    &&& r == s
                    &&& *final(in_frame)
                    &&& *final(renderer) == sent
                }
                ||| {
                    &&& s is Ok
                    &&& exists|p: Result<(), Error>|
                        #[trigger] Renderer::presented(sent, *final(renderer), p) && r == p
                    &&& *final(in_frame) == (r is Err)
                }
            },
        (r matches Err(Error::NoActiveFrame)) <==> !*old(in_frame),
        *old(in_frame) && r is Ok ==> !*final(in_frame),
        *old(in_frame) && r is Err ==> *final(in_frame),
        final(renderer).size() == old(renderer).size(),
        final(renderer).resets() == old(renderer).resets(),
        final(renderer).has_device() == old(renderer).has_device(),
{
    if !*in_frame {
        return Err(Error::NoActiveFrame);
    }
    let ghost start = *renderer;
    let submitted = renderer.submit(
        list.vertices.as_slice(),
        list.indices.as_slice(),
        list.commands.as_slice(),
    );
    let ghost sent = *renderer;
    assert(Renderer::submitted(start, sent, list.vertices@, list.indices@, list.commands@, submitted));
    if submitted.is_err() {
        return submitted;
    }
    let presented = renderer.end_frame();
    assert(Renderer::presented(sent, *renderer, presented));
    if presented.is_err() {
        return presented;
    }
    *in_frame = false;
    Ok(())
}

} // verus!
