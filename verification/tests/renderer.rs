use procmod_overlay::font::GlyphAtlas;
use procmod_overlay::renderer::{
    signals_device_loss, Device, DeviceError, Renderer, DXGI_ERROR_DEVICE_REMOVED,
    DXGI_ERROR_DEVICE_RESET,
};
use procmod_overlay::overlay::{begin_frame, end_frame};
use procmod_overlay::vertex::{DrawCommand, DrawList};
use procmod_overlay::Error;
use std::cell::Cell;
use std::rc::Rc;

const DXGI_ERROR_INVALID_CALL: i32 = 0x887A0001u32 as i32;

#[test]
fn device_loss_is_told_apart_from_other_failures() {
    assert!(signals_device_loss(DXGI_ERROR_DEVICE_REMOVED));
    assert!(signals_device_loss(DXGI_ERROR_DEVICE_RESET));
    assert!(!signals_device_loss(DXGI_ERROR_INVALID_CALL));
    assert!(!signals_device_loss(0));
}

#[test]
fn device_codes_are_the_dxgi_ones() {
    assert_eq!(DXGI_ERROR_DEVICE_REMOVED as u32, 0x887A0005);
    assert_eq!(DXGI_ERROR_DEVICE_RESET as u32, 0x887A0007);
}

/// Scripted device: `loss` is what the next device call reports, `builds` whether a new
/// device can be made, `other` whether calls fail for another reason, `failing` the one
/// call that fails for another reason.
#[derive(Clone)]
struct Script {
    builds: Rc<Cell<bool>>,
    loss: Rc<Cell<Option<u32>>>,
    other: Rc<Cell<bool>>,
    created: Rc<Cell<(u32, u32)>>,
    uploads: Rc<Cell<u32>>,
    submitted: Rc<Cell<usize>>,
    presented: Rc<Cell<u32>>,
    failing: Rc<Cell<Option<&'static str>>>,
}

impl Script {
    fn new() -> Self {
        Script {
            builds: Rc::new(Cell::new(true)),
            loss: Rc::new(Cell::new(None)),
            other: Rc::new(Cell::new(false)),
            created: Rc::new(Cell::new((0, 0))),
            uploads: Rc::new(Cell::new(0)),
            submitted: Rc::new(Cell::new(0)),
            presented: Rc::new(Cell::new(0)),
            failing: Rc::new(Cell::new(None)),
        }
    }
}

struct FakeDevice {
    script: Script,
}

impl Device for FakeDevice {
    type Target = Script;
    type Vertex = u8;

    fn create(target: &Script, width: u32, height: u32) -> Result<Self, DeviceError> {
        if target.builds.get() {
            target.created.set((width, height));
            Ok(FakeDevice { script: target.clone() })
        } else {
            Err(DeviceError::DeviceCreation)
        }
    }

    fn upload_font_atlas(&self, _atlas: &GlyphAtlas) -> Result<(), DeviceError> {
        if self.script.failing.get() == Some("upload") {
            return Err(DeviceError::Renderer { message: "upload failed".into() });
        }
        self.script.uploads.set(self.script.uploads.get() + 1);
        Ok(())
    }

    fn resize(&self, _width: u32, _height: u32) -> Result<(), DeviceError> {
        self.answer("resize")
    }

    fn begin_frame(&self) -> Result<(), DeviceError> {
        self.answer("begin")
    }

    fn submit(&self, vertices: &[u8], _: &[u32], _: &[DrawCommand]) -> Result<(), DeviceError> {
        let answer = self.answer("submit");
        if answer.is_ok() {
            self.script.submitted.set(vertices.len());
        }
        answer
    }

    fn end_frame(&self) -> Result<(), DeviceError> {
        let answer = self.answer("present");
        if answer.is_ok() {
            self.script.presented.set(self.script.presented.get() + 1);
        }
        answer
    }
}

impl FakeDevice {
    fn answer(&self, call: &'static str) -> Result<(), DeviceError> {
        if self.script.other.get() || self.script.failing.get() == Some(call) {
            return Err(DeviceError::Renderer { message: format!("{call} failed") });
        }
        match self.script.loss.take() {
            Some(reason) => Err(DeviceError::DeviceLost { reason }),
            None => Ok(()),
        }
    }
}

#[test]
fn a_lost_device_is_recorded_and_the_frame_dropped() {
    let script = Script::new();
    let mut renderer: Renderer<FakeDevice> = Renderer::new(script.clone(), 800, 600).unwrap();
    assert!(renderer.begin_frame().is_ok());
    assert!(!renderer.device_lost());
    script.loss.set(Some(7));
    assert!(renderer.end_frame().is_ok());
    assert!(renderer.device_lost());
    assert!(renderer.resize(1024, 768).is_ok());
    assert!(renderer.recover().is_ok());
    assert!(!renderer.device_lost());
    assert_eq!(renderer.take_resets(), 1);
    assert_eq!(renderer.take_resets(), 0);
}

#[test]
fn other_failures_pass_through() {
    let script = Script::new();
    let mut renderer: Renderer<FakeDevice> = Renderer::new(script.clone(), 1, 1).unwrap();
    assert!(matches!(
        renderer.absorb(Err(DeviceError::RenderTarget)),
        Err(Error::RenderTarget)
    ));
    assert!(renderer.absorb(Ok(())).is_ok());
    script.other.set(true);
    assert!(matches!(renderer.submit(&[1], &[0], &[]), Err(Error::Renderer { .. })));
    assert!(!renderer.device_lost());
    assert!(renderer.absorb(Err(DeviceError::DeviceLost { reason: 3 })).is_ok());
    assert!(renderer.device_lost());
}

#[test]
fn a_failed_rebuild_keeps_the_reason() {
    let script = Script::new();
    script.builds.set(false);
    assert!(matches!(
        Renderer::<FakeDevice>::new(script.clone(), 1, 1),
        Err(Error::DeviceCreation)
    ));

    script.builds.set(true);
    let mut renderer: Renderer<FakeDevice> = Renderer::new(script.clone(), 1, 1).unwrap();
    script.loss.set(Some(42));
    renderer.begin_frame().unwrap();
    script.builds.set(false);
    assert!(matches!(renderer.recover(), Err(Error::DeviceLost { reason: 42 })));
    assert!(renderer.device_lost());
    assert!(matches!(
        renderer.begin_frame(),
        Err(Error::DeviceLost { reason: 42 })
    ));
    assert!(matches!(
        renderer.end_frame(),
        Err(Error::DeviceLost { reason: 42 })
    ));
    assert_eq!(renderer.take_resets(), 0);
    script.builds.set(true);
    assert!(renderer.recover().is_ok());
    assert_eq!(renderer.take_resets(), 1);
}

#[test]
fn repair_rebuilds_only_a_lost_device() {
    let script = Script::new();
    let mut renderer: Renderer<FakeDevice> = Renderer::new(script.clone(), 4, 4).unwrap();
    let sizes: Vec<(u32, u32)> = vec![(3, 3); procmod_overlay::font::GLYPH_COUNT];
    let atlas = GlyphAtlas::new(&sizes);
    assert!(renderer.repair(&atlas).is_ok());
    assert_eq!(renderer.reset_count(), 0);
    script.loss.set(Some(5));
    assert!(renderer.submit(&[], &[], &[]).is_ok());
    assert!(renderer.device_lost());
    assert!(renderer.repair(&atlas).is_ok());
    assert!(!renderer.device_lost());
    assert_eq!(renderer.reset_count(), 1);
}

#[test]
fn devices_are_built_at_the_renderer_size() {
    let script = Script::new();
    let mut renderer: Renderer<FakeDevice> = Renderer::new(script.clone(), 640, 480).unwrap();
    assert_eq!(script.created.get(), (640, 480));
    renderer.absorb(Err(DeviceError::DeviceLost { reason: 1 })).unwrap();
    renderer.resize(800, 600).unwrap();
    renderer.recover().unwrap();
    assert_eq!(script.created.get(), (800, 600));
}

#[test]
fn repair_uploads_the_atlas_to_the_new_device() {
    let script = Script::new();
    let mut renderer: Renderer<FakeDevice> = Renderer::new(script.clone(), 4, 4).unwrap();
    let atlas = GlyphAtlas::new(&vec![(2, 2); procmod_overlay::font::GLYPH_COUNT]);
    renderer.repair(&atlas).unwrap();
    assert_eq!(script.uploads.get(), 0);
    renderer.absorb(Err(DeviceError::DeviceLost { reason: 9 })).unwrap();
    renderer.repair(&atlas).unwrap();
    assert_eq!(script.uploads.get(), 1);
}

#[test]
fn frames_are_bracketed() {
    let script = Script::new();
    let mut renderer: Renderer<FakeDevice> = Renderer::new(script.clone(), 4, 4).unwrap();
    let atlas = GlyphAtlas::new(&vec![(2, 2); procmod_overlay::font::GLYPH_COUNT]);
    let mut list: DrawList<u8> = DrawList::new();
    let mut in_frame = false;

    assert!(matches!(
        end_frame(&mut in_frame, &mut renderer, &list),
        Err(Error::NoActiveFrame)
    ));
    assert!(matches!(
        begin_frame(&mut in_frame, false, true, (4, 4), &mut renderer, &atlas, &mut list),
        Err(Error::OverlayClosed)
    ));
    assert!(matches!(
        begin_frame(&mut in_frame, true, false, (4, 4), &mut renderer, &atlas, &mut list),
        Err(Error::TargetWindowLost)
    ));
    assert!(!in_frame);

    list.add_solid_quad(1, 2, 3, 4);
    begin_frame(&mut in_frame, true, true, (8, 6), &mut renderer, &atlas, &mut list).unwrap();
    assert!(in_frame);
    assert!(list.vertices.is_empty());
    list.add_solid_triangles(&[7, 8, 9], &[0, 1, 2]);
    end_frame(&mut in_frame, &mut renderer, &list).unwrap();
    assert!(!in_frame);
    assert_eq!(script.submitted.get(), 3);

    begin_frame(&mut in_frame, true, true, (8, 6), &mut renderer, &atlas, &mut list).unwrap();
    script.loss.set(Some(4));
    end_frame(&mut in_frame, &mut renderer, &list).unwrap();
    assert!(renderer.device_lost());
    begin_frame(&mut in_frame, true, true, (10, 10), &mut renderer, &atlas, &mut list).unwrap();
    assert!(!renderer.device_lost());
    assert_eq!(script.created.get(), (10, 10));
    assert_eq!(script.uploads.get(), 1);
    assert_eq!(renderer.take_resets(), 1);

    script.other.set(true);
    assert!(end_frame(&mut in_frame, &mut renderer, &list).is_err());
    assert!(in_frame);
}

fn open_frame(script: &Script) -> (Renderer<FakeDevice>, GlyphAtlas, DrawList<u8>, bool) {
    let mut renderer: Renderer<FakeDevice> = Renderer::new(script.clone(), 4, 4).unwrap();
    let atlas = GlyphAtlas::new(&vec![(2, 2); procmod_overlay::font::GLYPH_COUNT]);
    let mut list: DrawList<u8> = DrawList::new();
    let mut in_frame = false;
    begin_frame(&mut in_frame, true, true, (4, 4), &mut renderer, &atlas, &mut list).unwrap();
    (renderer, atlas, list, in_frame)
}

#[test]
fn a_failed_submit_keeps_the_frame_open_and_presents_nothing() {
    let script = Script::new();
    let (mut renderer, _atlas, mut list, mut in_frame) = open_frame(&script);
    list.add_solid_quad(1, 2, 3, 4);
    script.failing.set(Some("submit"));
    let r = end_frame(&mut in_frame, &mut renderer, &list);
    assert!(matches!(r, Err(Error::Renderer { ref message }) if message == "submit failed"));
    assert!(in_frame);
    assert_eq!(script.presented.get(), 0);

    script.failing.set(None);
    end_frame(&mut in_frame, &mut renderer, &list).unwrap();
    assert!(!in_frame);
    assert_eq!(script.submitted.get(), 4);
    assert_eq!(script.presented.get(), 1);
    assert!(matches!(
        end_frame(&mut in_frame, &mut renderer, &list),
        Err(Error::NoActiveFrame)
    ));
}

#[test]
fn a_failed_present_keeps_the_frame_open() {
    let script = Script::new();
    let (mut renderer, _atlas, list, mut in_frame) = open_frame(&script);
    script.failing.set(Some("present"));
    let r = end_frame(&mut in_frame, &mut renderer, &list);
    assert!(matches!(r, Err(Error::Renderer { ref message }) if message == "present failed"));
    assert!(in_frame);
    assert_eq!(script.presented.get(), 0);
}

#[test]
fn a_lost_device_during_the_frame_still_closes_it() {
    let script = Script::new();
    let (mut renderer, _atlas, list, mut in_frame) = open_frame(&script);
    script.loss.set(Some(11));
    end_frame(&mut in_frame, &mut renderer, &list).unwrap();
    assert!(!in_frame);
    assert!(renderer.device_lost());
}

#[test]
fn a_failed_resize_leaves_the_frame_closed() {
    let script = Script::new();
    let mut renderer: Renderer<FakeDevice> = Renderer::new(script.clone(), 4, 4).unwrap();
    let atlas = GlyphAtlas::new(&vec![(2, 2); procmod_overlay::font::GLYPH_COUNT]);
    let mut list: DrawList<u8> = DrawList::new();
    list.add_solid_quad(1, 2, 3, 4);
    let mut in_frame = false;
    script.failing.set(Some("resize"));
    let r = begin_frame(&mut in_frame, true, true, (9, 9), &mut renderer, &atlas, &mut list);
    assert!(matches!(r, Err(Error::Renderer { ref message }) if message == "resize failed"));
    assert!(!in_frame);
    assert_eq!(list.vertices.len(), 4);
}

#[test]
fn a_failed_rebuild_leaves_the_frame_closed() {
    let script = Script::new();
    let mut renderer: Renderer<FakeDevice> = Renderer::new(script.clone(), 4, 4).unwrap();
    let atlas = GlyphAtlas::new(&vec![(2, 2); procmod_overlay::font::GLYPH_COUNT]);
    let mut list: DrawList<u8> = DrawList::new();
    let mut in_frame = false;
    renderer.absorb(Err(DeviceError::DeviceLost { reason: 6 })).unwrap();
    script.builds.set(false);
    let r = begin_frame(&mut in_frame, true, true, (5, 5), &mut renderer, &atlas, &mut list);
    assert!(matches!(r, Err(Error::DeviceLost { reason: 6 })));
    assert!(!in_frame);
    assert!(renderer.device_lost());
    assert_eq!(renderer.reset_count(), 0);
}

#[test]
fn a_failed_atlas_upload_after_a_rebuild_leaves_the_frame_closed() {
    let script = Script::new();
    let mut renderer: Renderer<FakeDevice> = Renderer::new(script.clone(), 4, 4).unwrap();
    let atlas = GlyphAtlas::new(&vec![(2, 2); procmod_overlay::font::GLYPH_COUNT]);
    let mut list: DrawList<u8> = DrawList::new();
    let mut in_frame = false;
    renderer.absorb(Err(DeviceError::DeviceLost { reason: 2 })).unwrap();
    script.failing.set(Some("upload"));
    let r = begin_frame(&mut in_frame, true, true, (5, 5), &mut renderer, &atlas, &mut list);
    assert!(matches!(r, Err(Error::Renderer { ref message }) if message == "upload failed"));
    assert!(!in_frame);
    assert!(!renderer.device_lost());
    assert_eq!(renderer.reset_count(), 1);
    assert_eq!(script.created.get(), (5, 5));
}

#[test]
fn the_frame_opens_whatever_the_device_says_to_its_start() {
    let script = Script::new();
    let mut renderer: Renderer<FakeDevice> = Renderer::new(script.clone(), 4, 4).unwrap();
    let atlas = GlyphAtlas::new(&vec![(2, 2); procmod_overlay::font::GLYPH_COUNT]);
    let mut list: DrawList<u8> = DrawList::new();
    let mut in_frame = false;
    script.failing.set(Some("begin"));
    begin_frame(&mut in_frame, true, true, (4, 4), &mut renderer, &atlas, &mut list).unwrap();
    assert!(in_frame);
    script.failing.set(None);
    end_frame(&mut in_frame, &mut renderer, &list).unwrap();
    assert!(!in_frame);
}

#[test]
fn device_errors_keep_their_name() {
    assert!(matches!(DeviceError::DeviceCreation.into_error(), Error::DeviceCreation));
    assert!(matches!(DeviceError::SwapChainCreation.into_error(), Error::SwapChainCreation));
    assert!(matches!(DeviceError::RenderTarget.into_error(), Error::RenderTarget));
    assert!(matches!(
        DeviceError::ShaderCompilation { message: "x".into() }.into_error(),
        Error::ShaderCompilation { ref message } if message == "x"
    ));
    assert!(matches!(
        DeviceError::Renderer { message: "y".into() }.into_error(),
        Error::Renderer { ref message } if message == "y"
    ));
    assert!(matches!(
        DeviceError::DeviceLost { reason: 8 }.into_error(),
        Error::DeviceLost { reason: 8 }
    ));
}

#[test]
fn a_failed_device_creation_is_passed_on_by_name() {
    let script = Script::new();
    script.builds.set(false);
    assert!(matches!(
        Renderer::<FakeDevice>::new(script.clone(), 3, 3),
        Err(Error::DeviceCreation)
    ));
}
