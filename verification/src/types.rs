//! The data model of the storage driver: on-media constants, per-application
//! records, the tagged owner of the physical channel, and the values that
//! cross the driver's boundary (physical operations to start, notifications
//! to deliver).

use vstd::prelude::*;

verus! {

/// Marker written at the very start of the user-accessible area; its
/// presence certifies that the header chain has been initialized.
pub const MAGIC_HEADER: u32 = 0x2FA7B3;

/// On-media width of the magic marker.
pub const MAGIC_HEADER_LEN: usize = 4;

/// On-media width of one region header: a 32-bit owner identifier followed
/// by a 64-bit region length, both little-endian.
pub const REGION_HEADER_LEN: usize = 12;

/// Owner identifier reserved for the sentinel header that terminates the
/// chain; no real application may hold it.
pub const TERMINATING_REGION_OWNER: u32 = 0;

/// Default length of the buffer used for application data transfers.
pub const BUF_LEN: usize = 512;

/// Length of the buffer used for magic-marker and region-header transfers.
pub const HEADER_BUF_LEN: usize = 12;

/// The errors the driver reports.
#[derive(Clone, Copy, Debug, PartialEq, Eq, Structural)]
pub enum ErrorCode {
    /// Offset or length outside the caller's permitted span.
    OutOfBounds,
    /// The operation needs an assigned region that does not exist yet.
    NotReady,
    /// The header-management channel is occupied; such requests never queue.
    Busy,
    /// The caller already has a pending request.
    QueueFull,
    /// The needed shared buffer is currently on loan.
    BufferUnavailable,
    /// Unknown command, or an identity kind that cannot own durable storage.
    Unsupported,
    /// Internal consistency failure, such as a corrupt header chain.
    Fail,
}

/// A per-application stable identifier. Only the fixed kind survives
/// reboots and may own a durable region.
#[derive(Clone, Copy, Debug, PartialEq, Eq, Structural)]
pub enum ShortId {
    /// Constant across reboots; never zero for a real application.
    Fixed(u32),
    /// Unique only within one boot; cannot own durable storage.
    LocallyUnique,
}

/// A region of nonvolatile memory assigned to one application. The offset
/// is the absolute byte address immediately after the region's header.
#[derive(Clone, Copy, Debug, PartialEq, Eq, Structural)]
pub struct AppRegion {
    pub offset: usize,
    pub length: usize,
}

/// A step of the header protocol that reads from the media.
#[derive(Clone, Copy, Debug, PartialEq, Eq, Structural)]
pub enum HeaderReadAction {
    /// Checking the first bytes of the user area against the magic marker.
    ReadingMagicHeader,
    /// Reading the region header that starts at the given absolute address.
    ReadingRegionHeader(usize),
}

/// A step of the header protocol that writes to the media.
#[derive(Clone, Copy, Debug, PartialEq, Eq, Structural)]
pub enum HeaderWriteAction {
    /// Writing the magic marker to the start of the user area.
    WritingMagicHeader,
    /// Writing the region header of a fresh allocation for the application
    /// with the given table index; carries the region being allocated.
    WritingRegionHeader(usize, AppRegion),
    /// Zeroing the sentinel header. The flag says whether to look for
    /// further applications waiting for an allocation afterwards.
    ZeroingRegionHeader(bool),
}

/// The header-manager sub-state recorded while it owns the channel.
#[derive(Clone, Copy, Debug, PartialEq, Eq, Structural)]
pub enum HeaderState {
    Read(HeaderReadAction),
    Write(HeaderWriteAction),
}

/// What a caller asked the driver to do.
#[derive(Clone, Copy, Debug, PartialEq, Eq, Structural)]
pub enum NonvolatileCommand {
    UserspaceRead,
    UserspaceWrite,
    HeaderRead(HeaderReadAction),
    HeaderWrite(HeaderWriteAction),
    KernelRead,
    KernelWrite,
}

/// Which caller class currently owns the single physical channel.
#[derive(Clone, Copy, Debug, PartialEq, Eq, Structural)]
pub enum NonvolatileUser {
    App { app: usize },
    HeaderManager(HeaderState),
    Kernel,
}

/// Per-application state, created lazily with `Default` when the
/// application first interacts with the driver.
#[derive(Debug)]
pub struct App {
    /// A request is parked in this application's depth-one queue slot.
    pub pending_command: bool,
    /// The parked request's command.
    pub command: NonvolatileCommand,
    /// The parked request's offset, relative to the application's region.
    pub offset: usize,
    /// The parked request's length, already clamped to the shared buffers.
    pub length: usize,
    /// The application has asked for a region at least once.
    pub has_requested_region: bool,
    /// The application's assigned region; set at most once, never cleared.
    pub region: Option<AppRegion>,
}

impl Default for App {
    /// A fresh record: nothing pending, nothing requested, no region.
    fn default() -> (a: App)
        ensures
            !a.pending_command,
            a.command == NonvolatileCommand::UserspaceRead,
            a.offset == 0,
            a.length == 0,
            !a.has_requested_region,
            a.region is None,
    {
        App {
            pending_command: false,
            command: NonvolatileCommand::UserspaceRead,
            offset: 0,
            length: 0,
            has_requested_region: false,
            region: None,
        }
    }
}

/// One slot of the application table: the application's stable identity,
/// its driver state, and its two shared transfer buffers.
#[derive(Debug)]
pub struct AppSlot {
    /// The application's stable identifier.
    pub shortid: ShortId,
    /// The driver's per-application record.
    pub app: App,
    /// Shared buffer that read results are copied into.
    pub read_allow: Vec<u8>,
    /// Shared buffer that write data is copied out of.
    pub write_allow: Vec<u8>,
}

/// The metadata written before every application's region: the owner's
/// fixed identifier and the region's byte count.
#[derive(Clone, Copy, Debug, PartialEq, Eq, Structural)]
pub struct AppRegionHeader {
    pub shortid: u32,
    pub length: usize,
}

/// The direction of a physical operation.
#[derive(Clone, Copy, Debug, PartialEq, Eq, Structural)]
pub enum PhysOp {
    Read,
    Write,
}

/// A physical operation handed to the transport: perform `op` at absolute
/// address `addr` for `length` bytes, using (and afterwards returning) the
/// carried buffer. `length` never exceeds the buffer's length.
#[derive(Debug)]
pub struct PhysRequest {
    pub op: PhysOp,
    pub addr: usize,
    pub length: usize,
    pub buffer: Vec<u8>,
}

/// An asynchronous notification owed to a client of the driver.
#[derive(Debug, PartialEq)]
pub enum Upcall {
    /// An application's read finished; the bytes are in its shared read
    /// buffer.
    ReadDone { app: usize, length: usize },
    /// An application's write finished.
    WriteDone { app: usize, length: usize },
    /// An application's initialization finished; `None` means success.
    InitDone { app: usize, status: Option<ErrorCode> },
    /// The kernel's read finished; the buffer is returned with the bytes.
    KernelReadDone { buffer: Vec<u8>, length: usize },
    /// The kernel's write finished; the buffer is returned.
    KernelWriteDone { buffer: Vec<u8>, length: usize },
}

/// The synchronous result of a numbered driver command.
#[derive(Clone, Copy, Debug, PartialEq, Eq, Structural)]
pub enum CommandResult {
    /// The command was accepted (and, for asynchronous commands, is now
    /// pending).
    Success,
    /// The command produced a value.
    SuccessU32(u32),
    /// The command was rejected.
    Failure(ErrorCode),
}

} // verus!
