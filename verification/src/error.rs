use vstd::prelude::*;

verus! {

/// `std::io::Error`, carried by a failed window creation.
#[verifier::external_type_specification]
#[verifier::external_body]
pub struct ExIoError(std::io::Error);

/// Everything that can go wrong while creating or driving an overlay.
#[derive(Debug)]
pub enum Error {
    WindowNotFound,
    ProcessNotFound { pid: u32 },
    ProcessWindowNotFound { pid: u32 },
    OverlayClosed,
    TargetWindowLost,
    WindowCreation(std::io::Error),
    DeviceCreation,
    SwapChainCreation,
    ShaderCompilation { message: String },
    RenderTarget,
    Renderer { message: String },
    NoActiveFrame,
    /// The graphics device was removed or reset; `reason` is the code the driver gave.
    DeviceLost { reason: u32 },
}

pub type Result<T> = core::result::Result<T, Error>;

} // verus!
