use crate::error::Error;
use crate::font::GlyphAtlas;
use crate::vertex::DrawCommand;
use vstd::prelude::*;

verus! {

/// `DXGI_ERROR_DEVICE_REMOVED` (0x887A0005) as a signed result code.
pub const DXGI_ERROR_DEVICE_REMOVED: i32 = -2005270523;

/// `DXGI_ERROR_DEVICE_RESET` (0x887A0007) as a signed result code.
pub const DXGI_ERROR_DEVICE_RESET: i32 = -2005270521;

/// A driver reset, a GPU hang, or an adapter change destroys every device resource the
/// overlay holds. DXGI reports it through the call that failed, not through a callback.
pub fn signals_device_loss(code: i32) -> (lost: bool)
    ensures
        lost == (code == DXGI_ERROR_DEVICE_REMOVED || code == DXGI_ERROR_DEVICE_RESET),
{
    code == DXGI_ERROR_DEVICE_REMOVED || code == DXGI_ERROR_DEVICE_RESET
}

/// What a graphics device reports when a call on it fails.
#[derive(Debug)]
pub enum DeviceError {
    DeviceCreation,
    SwapChainCreation,
    ShaderCompilation { message: String },
    RenderTarget,
    Renderer { message: String },
    /// The device was removed or reset; `reason` is the code the driver gave.
    DeviceLost { reason: u32 },
}

impl DeviceError {
    /// The overlay error a device failure is reported as: the same failure, under the
    /// same name.
    pub open spec fn as_error(self) -> Error {
        match self {
            DeviceError::DeviceCreation => Error::DeviceCreation,
            DeviceError::SwapChainCreation => Error::SwapChainCreation,
            DeviceError::ShaderCompilation { message } => Error::ShaderCompilation { message },
            DeviceError::RenderTarget => Error::RenderTarget,
            DeviceError::Renderer { message } => Error::Renderer { message },
            DeviceError::DeviceLost { reason } => Error::DeviceLost { reason },
        }
    }

    pub fn into_error(self) -> (e: Error)
        ensures
            e == self.as_error(),
    {
        match self {
            DeviceError::DeviceCreation => Error::DeviceCreation,
            DeviceError::SwapChainCreation => Error::SwapChainCreation,
            DeviceError::ShaderCompilation { message } => Error::ShaderCompilation { message },
            DeviceError::RenderTarget => Error::RenderTarget,
            DeviceError::Renderer { message } => Error::Renderer { message },
            DeviceError::DeviceLost { reason } => Error::DeviceLost { reason },
        }
    }
}

/// A graphics device bound to one window: every resource the overlay draws with.
///
/// A failed call that means the device itself is gone reports `DeviceError::DeviceLost`.
pub trait Device: Sized {
    /// What the device presents to.
    type Target;

    /// The vertex layout the device draws.
    type Vertex;

    fn create(target: &Self::Target, width: u32, height: u32) -> Result<Self, DeviceError>;

    fn upload_font_atlas(&self, atlas: &GlyphAtlas) -> Result<(), DeviceError>;

    fn resize(&self, width: u32, height: u32) -> Result<(), DeviceError>;

    fn begin_frame(&self) -> Result<(), DeviceError>;

    fn submit(
        &self,
        vertices: &[Self::Vertex],
        indices: &[u32],
        commands: &[DrawCommand],
    ) -> Result<(), DeviceError>;

    fn end_frame(&self) -> Result<(), DeviceError>;
}

/// A device's answer as the overlay reports it.
pub open spec fn passed_on(outcome: Result<(), DeviceError>) -> Result<(), Error> {
    match outcome {
        Ok(()) => Ok(()),
        Err(e) => Err(e.as_error()),
    }
}

/// The result of an operation once a device loss in it has been recorded: the loss is
/// swallowed, anything else is passed on.
pub open spec fn absorbed(outcome: Result<(), DeviceError>) -> Result<(), Error> {
    match outcome {
        Err(DeviceError::DeviceLost { .. }) => Ok(()),
        other => passed_on(other),
    }
}

/// The recorded loss after an operation: its reason when the operation lost the device,
/// the earlier record otherwise.
pub open spec fn lost_after(lost: Option<u32>, outcome: Result<(), DeviceError>) -> Option<u32> {
    match outcome {
        Err(DeviceError::DeviceLost { reason }) => Some(reason),
        _ => lost,
    }
}

/// The error reported when there is no device to run an operation on.
pub open spec fn missing_device(lost: Option<u32>) -> Error {
    Error::DeviceLost {
        reason: match lost {
            Some(reason) => reason,
            None => 0,
        },
    }
}

/// Owns the graphics device and rebuilds it when the driver takes it away.
///
/// The device is held in an `Option` so the dead one is released before a replacement is
/// requested. Building a second device for the same window while the first is still alive
/// is not reliable.
pub struct Renderer<D: Device> {
    gpu: Option<D>,
    target: D::Target,
    width: u32,
    height: u32,
    lost: Option<u32>,
    resets: usize,
}

impl<D: Device> Renderer<D> {
    pub closed spec fn has_device(&self) -> bool {
        self.gpu is Some
    }

    /// The device, while there is one.
    pub closed spec fn device(&self) -> D {
        self.gpu->0
    }

    /// What the device presents to.
    pub closed spec fn target_of(&self) -> D::Target {
        self.target
    }

    pub closed spec fn lost(&self) -> Option<u32> {
        self.lost
    }

    pub closed spec fn resets(&self) -> usize {
        self.resets
    }

    pub closed spec fn size(&self) -> (u32, u32) {
        (self.width, self.height)
    }

    /// The device could be built for this renderer's target at its size.
    pub open spec fn built_here(&self, result: Result<D, DeviceError>) -> bool {
        call_ensures(D::create, (&self.target_of(), self.size().0, self.size().1), result)
    }

    /// What holds after an operation ran against the device, whatever the device answered:
    /// without a device the operation fails with the recorded loss and nothing changes;
    /// with one, a device loss is recorded and swallowed, and any other failure is passed on
    /// with the record left alone.
    pub open spec fn absorbs(before: Self, after: Self, r: Result<(), Error>) -> bool {
        &&& after.has_device() == before.has_device()
        &&& after.resets() == before.resets()
        &&& !before.has_device() ==> r == Err::<(), Error>(missing_device(before.lost()))
            && after.lost() == before.lost()
        &&& before.has_device() ==> {
            ||| r is Ok && after.lost() == before.lost()
            ||| r is Ok && after.lost() is Some
            ||| r matches Err(e) && !(e is DeviceLost) && after.lost() == before.lost()
        }
    }

    /// What `repair(atlas)` does: a healthy renderer is left alone; a lost one either fails
    /// to build a device, answering with the recorded loss, or builds one, counts the reset
    /// and answers with what the new device said to the font atlas.
    pub open spec fn repaired(before: Self, after: Self, atlas: &GlyphAtlas, r: Result<(), Error>) -> bool {
        &&& after.size() == before.size()
        &&& after.target_of() == before.target_of()
        &&& before.lost() is None ==> {
            &&& r is Ok
            &&& after.lost() == before.lost()
            &&& after.has_device() == before.has_device()
            &&& after.device() == before.device()
            &&& after.resets() == before.resets()
        }
        &&& before.lost() is Some ==> {
            ||| {
                &&& r == Err::<(), Error>(missing_device(before.lost()))
                &&& exists|e: DeviceError| #[trigger] before.built_here(Err::<D, DeviceError>(e))
                &&& !after.has_device()
                &&& after.lost() == before.lost()
                &&& after.resets() == before.resets()
            }
            ||| {
                &&& before.built_here(Ok::<D, DeviceError>(after.device()))
                &&& exists|u: Result<(), DeviceError>|
                    #[trigger] call_ensures(D::upload_font_atlas, (&after.device(), atlas), u)
                        && r == passed_on(u)
                &&& after.has_device()
                &&& after.lost() == None::<u32>
                &&& after.resets() == before.resets() + 1
            }
        }
    }

    /// What `resize(width, height)` does: the size is noted; while the device is lost
    /// nothing else happens, otherwise the device is asked and its answer absorbed.
    pub open spec fn resized(before: Self, after: Self, width: u32, height: u32, r: Result<(), Error>) -> bool {
        &&& after.size() == (width, height)
        &&& after.target_of() == before.target_of()
        &&& before.has_device() ==> after.device() == before.device()
        &&& before.lost() is Some ==> {
            &&& r is Ok
            &&& after.lost() == before.lost()
            &&& after.has_device() == before.has_device()
            &&& after.device() == before.device()
            &&& after.resets() == before.resets()
        }
        &&& before.lost() is None ==> Self::absorbs(before, after, r)
        &&& before.lost() is None && before.has_device() ==> exists|o: Result<(), DeviceError>|
            #[trigger] call_ensures(D::resize, (&before.device(), width, height), o) && r
                == absorbed(o) && after.lost() == lost_after(before.lost(), o)
    }

    /// What `begin_frame()` does: the device starts a frame and its answer is absorbed.
    pub open spec fn begun(before: Self, after: Self, r: Result<(), Error>) -> bool {
        &&& after.size() == before.size()
        &&& after.target_of() == before.target_of()
        &&& Self::absorbs(before, after, r)
        &&& before.has_device() ==> after.device() == before.device()
        &&& before.has_device() ==> exists|o: Result<(), DeviceError>|
            #[trigger] call_ensures(D::begin_frame, (&before.device(),), o) && r == absorbed(o)
                && after.lost() == lost_after(before.lost(), o)
    }

    /// What `submit(..)` does with geometry whose contents are `vertices`, `indices` and
    /// `commands`: the device is handed exactly that and its answer absorbed.
    pub open spec fn submitted(
        before: Self,
        after: Self,
        vertices: Seq<D::Vertex>,
        indices: Seq<u32>,
        commands: Seq<DrawCommand>,
        r: Result<(), Error>,
    ) -> bool {
        &&& after.size() == before.size()
        &&& after.target_of() == before.target_of()
        &&& Self::absorbs(before, after, r)
        &&& before.has_device() ==> after.device() == before.device()
        &&& before.has_device() ==> exists|
            o: Result<(), DeviceError>,
            v: &[D::Vertex],
            i: &[u32],
            c: &[DrawCommand],
        |
            #[trigger] call_ensures(D::submit, (&before.device(), v, i, c), o) && v@ == vertices
                && i@ == indices && c@ == commands && r == absorbed(o) && after.lost()
                == lost_after(before.lost(), o)
    }

    /// What `end_frame()` does: the device presents and its answer is absorbed.
    pub open spec fn presented(before: Self, after: Self, r: Result<(), Error>) -> bool {
        &&& after.size() == before.size()
        &&& after.target_of() == before.target_of()
        &&& Self::absorbs(before, after, r)
        &&& before.has_device() ==> after.device() == before.device()
        &&& before.has_device() ==> exists|o: Result<(), DeviceError>|
            #[trigger] call_ensures(D::end_frame, (&before.device(),), o) && r == absorbed(o)
                && after.lost() == lost_after(before.lost(), o)
    }

    /// A renderer with a fresh device for `target` at the given size. Whether the device can
    /// be created is the device's answer alone; on failure its error is passed on.
    pub fn new(target: D::Target, width: u32, height: u32) -> (r: Result<Self, Error>)
        ensures
            r matches Ok(renderer) ==> {
                &&& renderer.has_device()
                &&& call_ensures(D::create, (&target, width, height), Ok::<D, DeviceError>(renderer.device()))
                &&& renderer.target_of() == target
                &&& renderer.lost() == None::<u32>
                &&& renderer.resets() == 0
                &&& renderer.size() == (width, height)
            },
            r matches Err(e) ==> exists|de: DeviceError|
                #[trigger] call_ensures(D::create, (&target, width, height), Err::<D, DeviceError>(de))
                    && e == de.as_error(),
    {
        match D::create(&target, width, height) {
            Ok(gpu) => Ok(Renderer { gpu: Some(gpu), target, width, height, lost: None, resets: 0 }),
            Err(e) => {
                let ghost failure = e;
                assert(call_ensures(D::create, (&target, width, height), Err::<D, DeviceError>(failure)));
                Err(e.into_error())
            },
        }
    }

    /// True once a device loss has been observed and before it has been repaired.
    pub fn device_lost(&self) -> (lost: bool)
        ensures
            lost == (self.lost() is Some),
    {
        self.lost.is_some()
    }

    /// Number of successful device rebuilds not yet taken.
    pub fn reset_count(&self) -> (resets: usize)
        ensures
            resets == self.resets(),
    {
        self.resets
    }

    /// Number of successful device rebuilds since the last call.
    pub fn take_resets(&mut self) -> (resets: usize)
        ensures
            resets == old(self).resets(),
            final(self).resets() == 0,
            final(self).lost() == old(self).lost(),
            final(self).has_device() == old(self).has_device(),
            final(self).device() == old(self).device(),
            final(self).target_of() == old(self).target_of(),
            final(self).size() == old(self).size(),
    {
        let resets = self.resets;
        self.resets = 0;
        resets
    }

    /// Release the dead device and build a replacement for the same target at the current
    /// size.
    ///
    /// The caller re-uploads anything the new device needs, the font atlas above all.
    pub fn recover(&mut self) -> (r: Result<(), Error>)
        requires
            old(self).resets() < usize::MAX,
        ensures
            final(self).size() == old(self).size(),
            final(self).target_of() == old(self).target_of(),
            r is Ok ==> {
                &&& final(self).has_device()
                &&& old(self).built_here(Ok::<D, DeviceError>(final(self).device()))
                &&& final(self).lost() == None::<u32>
                &&& final(self).resets() == old(self).resets() + 1
            },
            r is Err ==> {
                &&& r == Err::<(), Error>(missing_device(old(self).lost()))
                &&& exists|e: DeviceError| #[trigger] old(self).built_here(Err::<D, DeviceError>(e))
                &&& !final(self).has_device()
                &&& final(self).lost() == old(self).lost()
                &&& final(self).resets() == old(self).resets()
            },
    {
        let reason = match self.lost {
            Some(reason) => reason,
            None => 0,
        };
        self.gpu = None;
        match D::create(&self.target, self.width, self.height) {
            Ok(gpu) => {
                self.gpu = Some(gpu);
                self.lost = None;
                self.resets = self.resets + 1;
                Ok(())
            },
            Err(e) => {
                assert(old(self).built_here(Err::<D, DeviceError>(e)));
                Err(Error::DeviceLost { reason })
            },
        }
    }

    /// Repair a lost device before a frame: rebuild it for the same target at the current
    /// size and upload the font atlas to the new one. A healthy device is left alone.
    pub fn repair(&mut self, atlas: &GlyphAtlas) -> (r: Result<(), Error>)
        requires
            old(self).lost() is Some ==> old(self).resets() < usize::MAX,
        ensures
            Self::repaired(*old(self), *final(self), atlas, r),
    {
        if self.lost.is_none() {
            return Ok(());
        }
        let rebuilt = self.recover();
        if rebuilt.is_err() {
            return rebuilt;
        }
        let ghost built = self.device();
        assert(old(self).built_here(Ok::<D, DeviceError>(built)));
        self.upload_font_atlas(atlas)
    }

    /// Record a device loss that an operation reported instead of passing it on; any other
    /// answer is passed on as the overlay's error.
    ///
    /// A lost device is repaired on the next frame, so the frame that noticed the loss is
    /// simply dropped rather than failing the caller's render loop.
    pub fn absorb(&mut self, outcome: Result<(), DeviceError>) -> (r: Result<(), Error>)
        ensures
            r == absorbed(outcome),
            final(self).lost() == lost_after(old(self).lost(), outcome),
            final(self).has_device() == old(self).has_device(),
            final(self).device() == old(self).device(),
            final(self).target_of() == old(self).target_of(),
            final(self).resets() == old(self).resets(),
            final(self).size() == old(self).size(),
    {
        match outcome {
            Ok(()) => Ok(()),
            Err(DeviceError::DeviceLost { reason }) => {
                self.lost = Some(reason);
                Ok(())
            },
            Err(e) => Err(e.into_error()),
        }
    }

    /// Hand the font atlas to the device; its answer is passed on.
    pub fn upload_font_atlas(&mut self, atlas: &GlyphAtlas) -> (r: Result<(), Error>)
        ensures
            !old(self).has_device() ==> r == Err::<(), Error>(missing_device(old(self).lost())),
            old(self).has_device() ==> exists|u: Result<(), DeviceError>|
                #[trigger] call_ensures(D::upload_font_atlas, (&old(self).device(), atlas), u)
                    && r == passed_on(u),
            *final(self) == *old(self),
    {
        let reason = match self.lost {
            Some(reason) => reason,
            None => 0,
        };
        match &self.gpu {
            Some(gpu) => {
                let u = gpu.upload_font_atlas(atlas);
                assert(call_ensures(D::upload_font_atlas, (&old(self).device(), atlas), u));
                match u {
                    Ok(()) => Ok(()),
                    Err(e) => Err(e.into_error()),
                }
            },
            None => Err(Error::DeviceLost { reason }),
        }
    }

    /// Follow the window's size. While the device is lost only the size is noted; the
    /// rebuilt device is created at it.
    pub fn resize(&mut self, width: u32, height: u32) -> (r: Result<(), Error>)
        ensures
            Self::resized(*old(self), *final(self), width, height, r),
    {
        self.width = width;
        self.height = height;
        if self.lost.is_some() {
            return Ok(());
        }
        let outcome = match &self.gpu {
            Some(gpu) => {
                let o = gpu.resize(width, height);
                assert(call_ensures(D::resize, (&old(self).device(), width, height), o));
                o
            },
            None => return Err(Error::DeviceLost { reason: 0 }),
        };
        self.absorb(outcome)
    }

    /// Start a frame on the device.
    pub fn begin_frame(&mut self) -> (r: Result<(), Error>)
        ensures
            Self::begun(*old(self), *final(self), r),
    {
        let reason = match self.lost {
            Some(reason) => reason,
            None => 0,
        };
        let outcome = match &self.gpu {
            Some(gpu) => {
                let o = gpu.begin_frame();
                assert(call_ensures(D::begin_frame, (&old(self).device(),), o));
                o
            },
            None => return Err(Error::DeviceLost { reason }),
        };
        self.absorb(outcome)
    }

    /// Hand the frame's geometry to the device.
    pub fn submit(&mut self, vertices: &[D::Vertex], indices: &[u32], commands: &[DrawCommand]) -> (r:
        Result<(), Error>)
        ensures
            Self::submitted(*old(self), *final(self), vertices@, indices@, commands@, r),
    {
        let reason = match self.lost {
            Some(reason) => reason,
            None => 0,
        };
        let outcome = match &self.gpu {
            Some(gpu) => {
                let o = gpu.submit(vertices, indices, commands);
                assert(call_ensures(D::submit, (&old(self).device(), vertices, indices, commands), o));
                o
            },
            None => return Err(Error::DeviceLost { reason }),
        };
        self.absorb(outcome)
    }

    /// Present the frame.
    pub fn end_frame(&mut self) -> (r: Result<(), Error>)
        ensures
            Self::presented(*old(self), *final(self), r),
    {
        let reason = match self.lost {
            Some(reason) => reason,
            None => 0,
        };
        let outcome = match &self.gpu {
            Some(gpu) => {
                let o = gpu.end_frame();
                assert(call_ensures(D::end_frame, (&old(self).device(),), o));
                o
            },
            None => return Err(Error::DeviceLost { reason }),
        };
        self.absorb(outcome)
    }
}

} // verus!
