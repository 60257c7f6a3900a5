use vstd::prelude::*;

verus! {

/// The diagnostic payload the engine attaches to a failed `message` call.
/// Callers may inspect it and retry; a failed message never invalidates
/// the slot it was sent to.
#[derive(Clone, Copy, Debug, PartialEq, Eq, Structural)]
pub enum MessageFault {
    /// The method string named no operation the engine knows.
    UnknownMethod,
    /// The instruction payload did not parse.
    MalformedPayload,
    /// The source identifier named no buffer-backed input.
    InputMissing,
    /// The destination identifier named no output buffer.
    OutputMissing,
}

/// Every failure a job operation can report.  No failure is fatal to the
/// registry: after any single operation fails, every other handle remains
/// usable.
#[derive(Clone, Copy, Debug, PartialEq, Eq, Structural)]
pub enum JobError {
    /// The handle was never issued or has already been destroyed.
    HandleNotFound,
    /// No fresh handle could be issued for a new job.
    CreationError,
    /// Tearing a job down failed; the handle is removed regardless.
    DestroyError,
    /// The caller reused an I/O identifier already registered on the slot.
    DuplicateIoId,
    /// The engine rejected an input or output registration.
    AttachError,
    /// A file path handed to the boundary was not usable.
    InvalidPath,
    /// Writing an output to a file failed at the boundary.
    IoWriteError,
    /// The identifier was never registered as an output on the slot.
    OutputNotFound,
    /// The identifier names an output no message has populated yet.
    OutputNotReady,
    /// The engine failed to process a message; the fault says why.
    MessageError(MessageFault),
}

} // verus!
