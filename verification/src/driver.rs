//! The storage driver itself: the header-chain walker and allocator, the
//! single-channel request arbiter, and the completion dispatcher.
//!
//! The driver is a state machine over plain values. It never talks to the
//! physical transport directly: whenever it decides to start a physical
//! operation it returns a [`PhysRequest`] carrying the loaned buffer, and the
//! surrounding code reports the completion back through [`NonvolatileStorage::read_done`]
//! or [`NonvolatileStorage::write_done`], returning the buffer.

use crate::codec::{le_bytes_val, u32_to_u8_slice, u8_slice_to_u32, u8_slice_to_u64, usize_to_u8_slice};
use crate::types::{
    App, AppRegion, AppRegionHeader, AppSlot, CommandResult, ErrorCode, HeaderReadAction, HeaderState,
    HeaderWriteAction, NonvolatileCommand, NonvolatileUser, PhysOp, PhysRequest, ShortId, Upcall,
    HEADER_BUF_LEN, MAGIC_HEADER, MAGIC_HEADER_LEN, REGION_HEADER_LEN, TERMINATING_REGION_OWNER,
};
use vstd::prelude::*;

verus! {

/// The driver's entire state.
pub struct NonvolatileStorage {
    /// Per-application state, indexed by a table index that stands for the
    /// process identity. Iteration order is table order.
    pub apps: Vec<AppSlot>,
    /// Buffer for application data transfers; `None` while on loan to the
    /// transport.
    pub buffer: Option<Vec<u8>>,
    /// Which caller's operation currently occupies the physical channel.
    pub current_user: Option<NonvolatileUser>,
    /// First byte accessible from userspace.
    pub userspace_start_address: usize,
    /// Byte count of the userspace area.
    pub userspace_length: usize,
    /// First byte accessible from the kernel.
    pub kernel_start_address: usize,
    /// Byte count of the kernel area.
    pub kernel_length: usize,
    /// The kernel's depth-one queue slot is occupied.
    pub kernel_pending_command: bool,
    /// The queued kernel command.
    pub kernel_command: NonvolatileCommand,
    /// The kernel's buffer, held while its request waits.
    pub kernel_buffer: Option<Vec<u8>>,
    /// Length of the queued kernel transfer.
    pub kernel_readwrite_length: usize,
    /// Absolute address of the queued kernel transfer.
    pub kernel_readwrite_address: usize,
    /// Buffer for magic-marker and region-header transfers; `None` while on
    /// loan to the transport.
    pub header_buffer: Option<Vec<u8>>,
    /// How many bytes each application is allocated.
    pub app_region_size: usize,
    /// Absolute address of the sentinel header, once a traversal has found
    /// it; the next allocation overwrites it.
    pub next_unallocated_region_header_address: Option<usize>,
}

impl NonvolatileStorage {
    /// One past the last userspace-accessible address.
    pub open spec fn user_end(self) -> int {
        self.userspace_start_address + self.userspace_length
    }

    /// One past the last kernel-accessible address.
    pub open spec fn kernel_end(self) -> int {
        self.kernel_start_address + self.kernel_length
    }

    /// An application-class access is within the application's own region.
    pub open spec fn spec_app_access_ok(region: AppRegion, offset: int, length: int) -> bool {
        &&& offset < region.length
        &&& length <= region.length
        &&& offset + length <= region.length
    }

    /// A header-management access is within the userspace area.
    pub open spec fn spec_header_access_ok(self, offset: int, length: int) -> bool {
        &&& self.userspace_start_address <= offset
        &&& offset < self.user_end()
        &&& length <= self.userspace_length
        &&& offset + length < self.user_end()
    }

    /// A kernel-direct access is within the kernel area.
    pub open spec fn spec_kernel_access_ok(self, offset: int, length: int) -> bool {
        &&& self.kernel_start_address <= offset
        &&& offset < self.kernel_end()
        &&& length <= self.kernel_length
        &&& offset + length <= self.kernel_end()
    }

    /// The application has asked for a region it has not been given yet.
    pub open spec fn spec_waiting(self, i: int) -> bool {
        &&& self.apps[i].app.has_requested_region
        &&& self.apps[i].app.region is None
    }

    /// Well-formedness of one application slot.
    pub open spec fn app_slot_inv(self, slot: AppSlot) -> bool {
        &&& (slot.app.region matches Some(r) ==> r.offset + r.length <= self.user_end())
        &&& (slot.app.pending_command ==> {
            &&& slot.app.region is Some
            &&& (slot.app.command == NonvolatileCommand::UserspaceRead || slot.app.command
                == NonvolatileCommand::UserspaceWrite)
            &&& slot.app.offset + slot.app.length <= slot.app.region->Some_0.length
        })
    }

    /// Well-formedness of the payload carried by the current channel owner.
    pub open spec fn current_user_inv(self) -> bool {
        match self.current_user {
            Some(NonvolatileUser::App { app }) => app < self.apps.len(),
            Some(
                NonvolatileUser::HeaderManager(
                    HeaderState::Read(HeaderReadAction::ReadingRegionHeader(h)),
                ),
            ) => self.userspace_start_address <= h && h + REGION_HEADER_LEN <= self.user_end(),
            Some(
                NonvolatileUser::HeaderManager(
                    HeaderState::Write(HeaderWriteAction::WritingRegionHeader(a, r)),
                ),
            ) => a < self.apps.len() && r.offset + r.length <= self.user_end()
                && self.apps[a as int].app.region is None,
            _ => true,
        }
    }

    /// The driver's internal invariant: configured spans fit the address
    /// space, each buffer is on loan exactly while its class owns the
    /// channel, queued requests were validated when they were admitted, and
    /// assigned regions lie inside the userspace area.
    pub open spec fn wf(self) -> bool {
        &&& self.user_end() <= usize::MAX
        &&& self.kernel_end() <= usize::MAX
        &&& (self.buffer is None <==> (self.current_user matches Some(
            NonvolatileUser::App { .. },
        )))
        &&& (self.header_buffer is None <==> (self.current_user matches Some(
            NonvolatileUser::HeaderManager(_),
        )))
        &&& (self.header_buffer matches Some(b) ==> b.len() == HEADER_BUF_LEN)
        &&& (self.kernel_pending_command ==> self.kernel_buffer is Some)
        &&& (self.kernel_pending_command ==> (self.kernel_command == NonvolatileCommand::KernelRead
            || self.kernel_command == NonvolatileCommand::KernelWrite))
        &&& (self.kernel_pending_command ==> self.kernel_readwrite_length
            <= self.kernel_buffer->Some_0.len())
        &&& self.current_user_inv()
        &&& (forall|i: int|
            0 <= i < self.apps.len() ==> self.app_slot_inv(#[trigger] self.apps[i]))
    }

    /// Builds a driver for the given spans, per-application region size,
    /// transfer buffers, and application identities. The header buffer must
    /// have the fixed header-transfer length.
    pub fn new(
        userspace_start_address: usize,
        userspace_length: usize,
        kernel_start_address: usize,
        kernel_length: usize,
        app_region_size: usize,
        buffer: Vec<u8>,
        header_buffer: Vec<u8>,
        app_ids: Vec<ShortId>,
    ) -> (s: Self)
        requires
            userspace_start_address + userspace_length <= usize::MAX,
            kernel_start_address + kernel_length <= usize::MAX,
            header_buffer@.len() == HEADER_BUF_LEN,
        ensures
            s.wf(),
            s.userspace_start_address == userspace_start_address,
            s.userspace_length == userspace_length,
            s.kernel_start_address == kernel_start_address,
            s.kernel_length == kernel_length,
            s.app_region_size == app_region_size,
            s.buffer == Some(buffer),
            s.header_buffer == Some(header_buffer),
            s.current_user is None,
            s.kernel_buffer is None,
            !s.kernel_pending_command,
            s.next_unallocated_region_header_address is None,
            s.apps.len() == app_ids.len(),
            forall|i: int|
                0 <= i < app_ids.len() ==> {
                    &&& (#[trigger] s.apps[i]).shortid == app_ids[i]
                    &&& !s.apps[i].app.pending_command
                    &&& !s.apps[i].app.has_requested_region
                    &&& s.apps[i].app.region is None
                    &&& s.apps[i].read_allow@.len() == 0
                    &&& s.apps[i].write_allow@.len() == 0
                },
    {
        let mut apps: Vec<AppSlot> = Vec::new();
        let mut i: usize = 0;
        while i < app_ids.len()
            invariant
                i <= app_ids.len(),
                apps.len() == i,
                forall|j: int|
                    0 <= j < i ==> {
                        &&& (#[trigger] apps[j]).shortid == app_ids[j]
                        &&& !apps[j].app.pending_command
                        &&& !apps[j].app.has_requested_region
                        &&& apps[j].app.region is None
                        &&& apps[j].read_allow@.len() == 0
                        &&& apps[j].write_allow@.len() == 0
                    },
            decreases app_ids.len() - i,
        {
            apps.push(
                AppSlot {
                    shortid: app_ids[i],
                    app: Default::default(),
                    read_allow: Vec::new(),
                    write_allow: Vec::new(),
                },
            );
            i = i + 1;
        }
        NonvolatileStorage {
            apps,
            buffer: Some(buffer),
            current_user: None,
            userspace_start_address,
            userspace_length,
            kernel_start_address,
            kernel_length,
            kernel_pending_command: false,
            kernel_command: NonvolatileCommand::KernelRead,
            kernel_buffer: None,
            kernel_readwrite_length: 0,
            kernel_readwrite_address: 0,
            header_buffer: Some(header_buffer),
            app_region_size,
            next_unallocated_region_header_address: None,
        }
    }

    /// Validates an application-class access against the caller's assigned
    /// region: rejects callers without an identity or a region, and any
    /// offset/length pair that leaves the region.
    pub fn check_userspace_access(
        &self,
        offset: usize,
        length: usize,
        processid: Option<usize>,
    ) -> (r: Result<(), ErrorCode>)
        ensures
            match processid {
                None => r == Err::<(), ErrorCode>(ErrorCode::Fail),
                Some(i) => if i >= self.apps.len() {
                    r == Err::<(), ErrorCode>(ErrorCode::Fail)
                } else {
                    match self.apps[i as int].app.region {
                        None => r == Err::<(), ErrorCode>(ErrorCode::NotReady),
                        Some(region) => r == if Self::spec_app_access_ok(
                            region,
                            offset as int,
                            length as int,
                        ) {
                            Ok::<(), ErrorCode>(())
                        } else {
                            Err::<(), ErrorCode>(ErrorCode::OutOfBounds)
                        },
                    }
                },
            },
    {
        match processid {
            None => Err(ErrorCode::Fail),
            Some(i) => {
                if i >= self.apps.len() {
                    return Err(ErrorCode::Fail);
                }
                match self.apps[i].app.region {
                    Some(region) => {
                        if offset >= region.length || length > region.length || region.length
                            - offset < length {
                            Err(ErrorCode::OutOfBounds)
                        } else {
                            Ok(())
                        }
                    },
                    None => Err(ErrorCode::NotReady),
                }
            },
        }
    }

    /// Validates a header-management access against the userspace area.
    pub fn check_header_access(&self, offset: usize, length: usize) -> (r: Result<(), ErrorCode>)
        requires
            self.user_end() <= usize::MAX,
        ensures
            r == if self.spec_header_access_ok(offset as int, length as int) {
                Ok::<(), ErrorCode>(())
            } else {
                Err::<(), ErrorCode>(ErrorCode::OutOfBounds)
            },
    {
        if offset < self.userspace_start_address || length > self.userspace_length {
            return Err(ErrorCode::OutOfBounds);
        }
        let end: usize = self.userspace_start_address + self.userspace_length;
        if offset >= end || end - offset <= length {
            return Err(ErrorCode::OutOfBounds);
        }
        Ok(())
    }

    /// Validates a kernel-direct access against the kernel area.
    pub fn check_kernel_access(&self, offset: usize, length: usize) -> (r: Result<(), ErrorCode>)
        requires
            self.kernel_end() <= usize::MAX,
        ensures
            r == if self.spec_kernel_access_ok(offset as int, length as int) {
                Ok::<(), ErrorCode>(())
            } else {
                Err::<(), ErrorCode>(ErrorCode::OutOfBounds)
            },
    {
        if offset < self.kernel_start_address || length > self.kernel_length {
            return Err(ErrorCode::OutOfBounds);
        }
        let end: usize = self.kernel_start_address + self.kernel_length;
        if offset >= end || end - offset < length {
            return Err(ErrorCode::OutOfBounds);
        }
        Ok(())
    }
}

/// The smaller of two lengths.
fn min_usize(a: usize, b: usize) -> (r: usize)
    ensures
        r == if a <= b {
            a
        } else {
            b
        },
{
    if a <= b {
        a
    } else {
        b
    }
}


/// The smaller of two values.
pub open spec fn spec_min(a: int, b: int) -> int {
    if a <= b {
        a
    } else {
        b
    }
}


/// The byte sequence an application request draws from: its shared read
/// buffer for reads, its shared write buffer for writes.
pub open spec fn spec_allow_of(
    pre: NonvolatileStorage,
    command: NonvolatileCommand,
    app_index: usize,
) -> Seq<u8> {
    if command == NonvolatileCommand::UserspaceRead {
        pre.apps[app_index as int].read_allow@
    } else {
        pre.apps[app_index as int].write_allow@
    }
}

/// An application request is admissible: the caller exists, has a region,
/// and stays within it.
pub open spec fn spec_userspace_validated(
    pre: NonvolatileStorage,
    offset: usize,
    length: usize,
    app_index: usize,
) -> bool {
    (app_index < pre.apps.len() && pre.apps[app_index as int].app.region is Some
        && NonvolatileStorage::spec_app_access_ok(
        pre.apps[app_index as int].app.region->Some_0,
        offset as int,
        length as int,
    ))
}

/// The admission rule for one application read or write request: validation
/// against the caller's region, immediate start when the channel is free,
/// parking in the caller's depth-one slot when it is busy, and the exact
/// error otherwise.
pub open spec fn spec_userspace_request(
    pre: NonvolatileStorage,
    command: NonvolatileCommand,
    offset: usize,
    length: usize,
    app_index: usize,
    res: Result<(), ErrorCode>,
    req: Option<PhysRequest>,
    post: NonvolatileStorage,
) -> bool {
    &&& (!spec_userspace_validated(pre, offset, length, app_index) ==> req is None && res is Err
        && post == pre)
    &&& (app_index >= pre.apps.len() ==> res == Err::<(), ErrorCode>(ErrorCode::Fail))
    &&& (app_index < pre.apps.len() && pre.apps[app_index as int].app.region is None ==> res
        == Err::<(), ErrorCode>(ErrorCode::NotReady))
    &&& ((app_index < pre.apps.len() && (pre.apps[app_index as int].app.region matches Some(reg)
        && !NonvolatileStorage::spec_app_access_ok(reg, offset as int, length as int))) ==> res
        == Err::<(), ErrorCode>(ErrorCode::OutOfBounds))
    &&& (spec_userspace_validated(pre, offset, length, app_index) && spec_allow_of(
        pre,
        command,
        app_index,
    ).len() == 0 ==> res == Err::<(), ErrorCode>(ErrorCode::BufferUnavailable) && req is None
        && post == pre)
    &&& (spec_userspace_validated(pre, offset, length, app_index) && spec_allow_of(
        pre,
        command,
        app_index,
    ).len() > 0 && pre.current_user is None ==> {
        &&& res is Ok
        &&& req matches Some(q)
        &&& req->Some_0.addr == pre.apps[app_index as int].app.region->Some_0.offset + offset
        &&& req->Some_0.length == spec_min(
            spec_min(length as int, spec_allow_of(pre, command, app_index).len() as int),
            pre.buffer->Some_0@.len() as int,
        )
        &&& req->Some_0.op == (if command == NonvolatileCommand::UserspaceRead {
            PhysOp::Read
        } else {
            PhysOp::Write
        })
        &&& req->Some_0.buffer@.len() == pre.buffer->Some_0@.len()
        &&& (command == NonvolatileCommand::UserspaceRead ==> req->Some_0.buffer@
            == pre.buffer->Some_0@)
        &&& (command == NonvolatileCommand::UserspaceWrite ==> forall|m: int|
            0 <= m < spec_min(
                spec_min(length as int, spec_allow_of(pre, command, app_index).len() as int),
                pre.buffer->Some_0@.len() as int,
            ) ==> req->Some_0.buffer@[m] == pre.apps[app_index as int].write_allow@[m])
        &&& (command == NonvolatileCommand::UserspaceWrite ==> forall|m: int|
            spec_min(
                spec_min(length as int, spec_allow_of(pre, command, app_index).len() as int),
                pre.buffer->Some_0@.len() as int,
            ) <= m < pre.buffer->Some_0@.len() ==> req->Some_0.buffer@[m]
                == pre.buffer->Some_0@[m])
        &&& post == (NonvolatileStorage {
            buffer: None,
            current_user: Some(NonvolatileUser::App { app: app_index }),
            ..pre
        })
    })
    &&& (spec_userspace_validated(pre, offset, length, app_index) && spec_allow_of(
        pre,
        command,
        app_index,
    ).len() > 0 && pre.current_user is Some && pre.apps[app_index as int].app.pending_command
        ==> res == Err::<(), ErrorCode>(ErrorCode::QueueFull) && req is None && post == pre)
    &&& (spec_userspace_validated(pre, offset, length, app_index) && spec_allow_of(
        pre,
        command,
        app_index,
    ).len() > 0 && pre.current_user is Some && !pre.apps[app_index as int].app.pending_command
        ==> {
        &&& res is Ok
        &&& req is None
        &&& post.apps@ == pre.apps@.update(
            app_index as int,
            (AppSlot {
                app: App {
                    pending_command: true,
                    command: command,
                    offset: offset,
                    length: spec_min(
                        length as int,
                        spec_allow_of(pre, command, app_index).len() as int,
                    ) as usize,
                    ..pre.apps[app_index as int].app
                },
                ..pre.apps@[app_index as int]
            }),
        )
        &&& post == (NonvolatileStorage { apps: post.apps, ..pre })
    })
}

impl NonvolatileStorage {
    /// Takes the application buffer and builds the physical operation for an
    /// already-admitted application request at an absolute address.
    fn userspace_call_driver(
        &mut self,
        command: NonvolatileCommand,
        physical_address: usize,
        length: usize,
    ) -> (req: PhysRequest)
        requires
            old(self).buffer is Some,
            command == NonvolatileCommand::UserspaceRead || command
                == NonvolatileCommand::UserspaceWrite,
        ensures
            *final(self) == (NonvolatileStorage { buffer: None, ..*old(self) }),
            req.addr == physical_address,
            req.length == spec_min(length as int, old(self).buffer->Some_0@.len() as int),
            req.buffer == old(self).buffer->Some_0,
            req.op == (if command == NonvolatileCommand::UserspaceRead {
                PhysOp::Read
            } else {
                PhysOp::Write
            }),
            req.length <= req.buffer@.len(),
    {
        let buffer = self.buffer.take().unwrap();
        let active_len = min_usize(length, buffer.len());
        let op = if let NonvolatileCommand::UserspaceRead = command {
            PhysOp::Read
        } else {
            PhysOp::Write
        };
        PhysRequest { op, addr: physical_address, length: active_len, buffer }
    }

    /// Admits an application read or write: validates it against the
    /// caller's region, then either starts it at once (channel free), parks
    /// it in the caller's depth-one slot (channel busy), or rejects it.
    #[verifier::rlimit(60)]
    #[verifier::spinoff_prover]
    fn enqueue_userspace(
        &mut self,
        command: NonvolatileCommand,
        offset: usize,
        length: usize,
        app_index: usize,
    ) -> (r: (Result<(), ErrorCode>, Option<PhysRequest>))
        requires
            old(self).wf(),
            command == NonvolatileCommand::UserspaceRead || command
                == NonvolatileCommand::UserspaceWrite,
        ensures
            final(self).wf(),
            spec_userspace_request(
                *old(self),
                command,
                offset,
                length,
                app_index,
                r.0,
                r.1,
                *final(self),
            ),
    {
        if let Err(e) = self.check_userspace_access(offset, length, Some(app_index)) {
            return (Err(e), None);
        }
        let allow_len = if let NonvolatileCommand::UserspaceRead = command {
            self.apps[app_index].read_allow.len()
        } else {
            self.apps[app_index].write_allow.len()
        };
        if allow_len == 0 {
            return (Err(ErrorCode::BufferUnavailable), None);
        }
        let active_len = min_usize(length, allow_len);
        let region = self.apps[app_index].app.region.unwrap();
        if self.current_user.is_none() {
            self.current_user = Some(NonvolatileUser::App { app: app_index });
            if let NonvolatileCommand::UserspaceWrite = command {
                let mut buf = self.buffer.take().unwrap();
                let write_len = min_usize(active_len, buf.len());
                let ghost buf0 = buf@;
                let mut j: usize = 0;
                while j < write_len
                    invariant
                        j <= write_len,
                        write_len <= buf@.len(),
                        write_len <= self.apps@[app_index as int].write_allow@.len(),
                        app_index < self.apps.len(),
                        buf@.len() == buf0.len(),
                        forall|m: int| 0 <= m < j ==> buf@[m] == self.apps@[app_index as int].write_allow@[m],
                        forall|m: int| j <= m < buf@.len() ==> buf@[m] == buf0[m],
                    decreases write_len - j,
                {
                    let b: u8 = self.apps[app_index].write_allow[j];
                    buf[j] = b;
                    j = j + 1;
                }
                self.buffer = Some(buf);
            }
            let req = self.userspace_call_driver(command, region.offset + offset, active_len);
            (Ok(()), Some(req))
        } else {
            if self.apps[app_index].app.pending_command {
                (Err(ErrorCode::QueueFull), None)
            } else {
                self.apps[app_index].app.pending_command = true;
                self.apps[app_index].app.command = command;
                self.apps[app_index].app.offset = offset;
                self.apps[app_index].app.length = active_len;
                proof {
                    assert(self.apps@ =~~= old(self).apps@.update(
                        app_index as int,
                        (AppSlot {
                            app: App {
                                pending_command: true,
                                command: command,
                                offset: offset,
                                length: active_len,
                                ..old(self).apps[app_index as int].app
                            },
                            ..old(self).apps@[app_index as int]
                        }),
                    ));
                }
                (Ok(()), None)
            }
        }
    }
}




/// The effect of starting the next queued request, if any, on a state
/// whose channel is free: the kernel's parked request first, otherwise the
/// first application in table order with a parked request, otherwise
/// nothing.
pub open spec fn spec_drained(
    pre: NonvolatileStorage,
    r: Option<PhysRequest>,
    post: NonvolatileStorage,
) -> bool {
    &&& (pre.kernel_pending_command ==> {
        &&& r matches Some(req)
        &&& r->Some_0.addr == pre.kernel_readwrite_address
        &&& r->Some_0.length == pre.kernel_readwrite_length
        &&& r->Some_0.buffer == pre.kernel_buffer->Some_0
        &&& r->Some_0.op == (if pre.kernel_command == NonvolatileCommand::KernelRead {
            PhysOp::Read
        } else {
            PhysOp::Write
        })
        &&& post == (NonvolatileStorage {
            kernel_pending_command: false,
            kernel_buffer: None,
            current_user: Some(NonvolatileUser::Kernel),
            ..pre
        })
    })
    &&& (!pre.kernel_pending_command && (forall|i: int|
        0 <= i < pre.apps.len() ==> !(#[trigger] pre.apps[i]).app.pending_command) ==> r is None
        && post == pre)
    &&& (!pre.kernel_pending_command && (exists|i: int|
        0 <= i < pre.apps.len() && (#[trigger] pre.apps[i]).app.pending_command) ==> (exists|
        i: int,
    |
        {
            &&& 0 <= i < pre.apps.len()
            &&& (#[trigger] pre.apps[i]).app.pending_command
            &&& (forall|j: int| 0 <= j < i ==> !(#[trigger] pre.apps[j]).app.pending_command)
            &&& r matches Some(req)
            &&& r->Some_0.addr == pre.apps[i].app.region->Some_0.offset + pre.apps[i].app.offset
            &&& r->Some_0.length == spec_min(
                pre.apps[i].app.length as int,
                pre.buffer->Some_0@.len() as int,
            )
            &&& r->Some_0.op == (if pre.apps[i].app.command == NonvolatileCommand::UserspaceRead {
                PhysOp::Read
            } else {
                PhysOp::Write
            })
            &&& (pre.apps[i].app.command == NonvolatileCommand::UserspaceWrite ==> forall|m: int|
                0 <= m < spec_min(
                    r->Some_0.length as int,
                    pre.apps[i].write_allow@.len() as int,
                ) ==> r->Some_0.buffer@[m] == pre.apps[i].write_allow@[m])
            &&& r->Some_0.buffer@.len() == pre.buffer->Some_0@.len()
            &&& post.current_user == Some(NonvolatileUser::App { app: i as usize })
            &&& post.buffer is None
            &&& post.apps@ == pre.apps@.update(
                i,
                (AppSlot { app: App { pending_command: false, ..pre.apps[i].app }, ..pre.apps@[i] }),
            )
            &&& post == (NonvolatileStorage {
                apps: post.apps,
                buffer: None,
                current_user: Some(NonvolatileUser::App { app: i as usize }),
                ..pre
            })
        }))
}

impl NonvolatileStorage {
    /// The header-manager sub-state recorded for a header command.
    pub open spec fn spec_header_state_of(command: NonvolatileCommand) -> HeaderState {
        match command {
            NonvolatileCommand::HeaderRead(a) => HeaderState::Read(a),
            NonvolatileCommand::HeaderWrite(a) => HeaderState::Write(a),
            _ => HeaderState::Read(HeaderReadAction::ReadingMagicHeader),
        }
    }

    /// Admits a header-management transfer: validates it against the
    /// userspace area and starts it at once, or fails with `Busy` if the
    /// channel is occupied; header requests never queue.
    fn enqueue_header(&mut self, command: NonvolatileCommand, offset: usize, length: usize) -> (r:
        (Result<(), ErrorCode>, Option<PhysRequest>))
        requires
            old(self).wf(),
            command matches NonvolatileCommand::HeaderRead(_) || command matches
                NonvolatileCommand::HeaderWrite(_),
            command matches NonvolatileCommand::HeaderRead(HeaderReadAction::ReadingRegionHeader(h))
                ==> h == offset && REGION_HEADER_LEN <= length,
            command matches NonvolatileCommand::HeaderWrite(HeaderWriteAction::WritingRegionHeader(
                a,
                reg,
            )) ==> a < old(self).apps.len() && reg.offset + reg.length <= old(self).user_end()
                && old(self).apps[a as int].app.region is None,
        ensures
            final(self).wf(),
            !old(self).spec_header_access_ok(offset as int, length as int) ==> r.0 == Err::<
                (),
                ErrorCode,
            >(ErrorCode::OutOfBounds) && r.1 is None && *final(self) == *old(self),
            old(self).spec_header_access_ok(offset as int, length as int) && old(
                self,
            ).current_user is Some ==> r.0 == Err::<(), ErrorCode>(ErrorCode::Busy) && r.1 is None
                && *final(self) == *old(self),
            old(self).spec_header_access_ok(offset as int, length as int) && old(
                self,
            ).current_user is None ==> {
                &&& r.0 is Ok
                &&& r.1 matches Some(req)
                &&& r.1->Some_0.addr == offset
                &&& r.1->Some_0.length == spec_min(length as int, HEADER_BUF_LEN as int)
                &&& r.1->Some_0.buffer == old(self).header_buffer->Some_0
                &&& r.1->Some_0.length <= r.1->Some_0.buffer@.len()
                &&& r.1->Some_0.op == (if command matches NonvolatileCommand::HeaderRead(_) {
                    PhysOp::Read
                } else {
                    PhysOp::Write
                })
                &&& *final(self) == (NonvolatileStorage {
                    header_buffer: None,
                    current_user: Some(
                        NonvolatileUser::HeaderManager(Self::spec_header_state_of(command)),
                    ),
                    ..*old(self)
                })
            },
    {
        if let Err(e) = self.check_header_access(offset, length) {
            return (Err(e), None);
        }
        if self.current_user.is_some() {
            return (Err(ErrorCode::Busy), None);
        }
        let header_buffer = self.header_buffer.take().unwrap();
        let active_len = min_usize(length, header_buffer.len());
        let (state, op) = match command {
            NonvolatileCommand::HeaderRead(action) => (HeaderState::Read(action), PhysOp::Read),
            NonvolatileCommand::HeaderWrite(action) => (HeaderState::Write(action), PhysOp::Write),
            _ => (HeaderState::Read(HeaderReadAction::ReadingMagicHeader), PhysOp::Read),
        };
        self.current_user = Some(NonvolatileUser::HeaderManager(state));
        (Ok(()), Some(PhysRequest { op, addr: offset, length: active_len, buffer: header_buffer }))
    }

    /// Admits a kernel-direct transfer with the kernel's own buffer: starts
    /// it at once if the channel is free, parks it in the kernel's depth-one
    /// slot if not, and otherwise rejects it, handing the buffer back.
    fn enqueue_kernel(
        &mut self,
        command: NonvolatileCommand,
        buffer: Vec<u8>,
        address: usize,
        length: usize,
    ) -> (r: (Result<(), ErrorCode>, Option<PhysRequest>, Option<Vec<u8>>))
        requires
            old(self).wf(),
            command == NonvolatileCommand::KernelRead || command
                == NonvolatileCommand::KernelWrite,
        ensures
            final(self).wf(),
            !old(self).spec_kernel_access_ok(address as int, length as int) ==> r.0 == Err::<
                (),
                ErrorCode,
            >(ErrorCode::OutOfBounds) && r.1 is None && r.2 == Some(buffer) && *final(self) == *old(
                self,
            ),
            old(self).spec_kernel_access_ok(address as int, length as int) && old(
                self,
            ).current_user is None ==> {
                &&& r.0 is Ok
                &&& r.2 is None
                &&& r.1 matches Some(req)
                &&& r.1->Some_0.addr == address
                &&& r.1->Some_0.length == spec_min(length as int, buffer@.len() as int)
                &&& r.1->Some_0.buffer == buffer
                &&& r.1->Some_0.op == (if command == NonvolatileCommand::KernelRead {
                    PhysOp::Read
                } else {
                    PhysOp::Write
                })
                &&& *final(self) == (NonvolatileStorage {
                    current_user: Some(NonvolatileUser::Kernel),
                    ..*old(self)
                })
            },
            old(self).spec_kernel_access_ok(address as int, length as int) && old(
                self,
            ).current_user is Some && old(self).kernel_pending_command ==> r.0 == Err::<
                (),
                ErrorCode,
            >(ErrorCode::QueueFull) && r.1 is None && r.2 == Some(buffer) && *final(self) == *old(
                self,
            ),
            old(self).spec_kernel_access_ok(address as int, length as int) && old(
                self,
            ).current_user is Some && !old(self).kernel_pending_command ==> {
                &&& r.0 is Ok
                &&& r.1 is None
                &&& r.2 is None
                &&& *final(self) == (NonvolatileStorage {
                    kernel_pending_command: true,
                    kernel_command: command,
                    kernel_readwrite_address: address,
                    kernel_readwrite_length: spec_min(length as int, buffer@.len() as int) as usize,
                    kernel_buffer: Some(buffer),
                    ..*old(self)
                })
            },
    {
        if let Err(e) = self.check_kernel_access(address, length) {
            return (Err(e), None, Some(buffer));
        }
        let active_len = min_usize(length, buffer.len());
        if self.current_user.is_none() {
            self.current_user = Some(NonvolatileUser::Kernel);
            let op = if let NonvolatileCommand::KernelRead = command {
                PhysOp::Read
            } else {
                PhysOp::Write
            };
            (Ok(()), Some(PhysRequest { op, addr: address, length: active_len, buffer }), None)
        } else {
            if self.kernel_pending_command {
                (Err(ErrorCode::QueueFull), None, Some(buffer))
            } else {
                self.kernel_pending_command = true;
                self.kernel_command = command;
                self.kernel_readwrite_address = address;
                self.kernel_readwrite_length = active_len;
                self.kernel_buffer = Some(buffer);
                (Ok(()), None, None)
            }
        }
    }

    /// Starts a kernel read of `length` bytes at an absolute address into
    /// the given buffer, or queues it, or rejects it and hands the buffer
    /// back.
    pub fn read(&mut self, buffer: Vec<u8>, address: usize, length: usize) -> (r: (
        Result<(), ErrorCode>,
        Option<PhysRequest>,
        Option<Vec<u8>>,
    ))
        requires
            old(self).wf(),
        ensures
            final(self).wf(),
            !old(self).spec_kernel_access_ok(address as int, length as int) ==> r.0 == Err::<
                (),
                ErrorCode,
            >(ErrorCode::OutOfBounds) && r.1 is None && r.2 == Some(buffer) && *final(self) == *old(
                self,
            ),
            old(self).spec_kernel_access_ok(address as int, length as int) && old(
                self,
            ).current_user is None ==> {
                &&& r.0 is Ok
                &&& r.1 matches Some(req)
                &&& r.1->Some_0.addr == address
                &&& r.1->Some_0.length == spec_min(length as int, buffer@.len() as int)
                &&& r.1->Some_0.buffer == buffer
                &&& r.1->Some_0.op == PhysOp::Read
                &&& *final(self) == (NonvolatileStorage {
                    current_user: Some(NonvolatileUser::Kernel),
                    ..*old(self)
                })
            },
            old(self).spec_kernel_access_ok(address as int, length as int) && old(
                self,
            ).current_user is Some && old(self).kernel_pending_command ==> r.0 == Err::<
                (),
                ErrorCode,
            >(ErrorCode::QueueFull) && r.1 is None && r.2 == Some(buffer) && *final(self) == *old(
                self,
            ),
            old(self).spec_kernel_access_ok(address as int, length as int) && old(
                self,
            ).current_user is Some && !old(self).kernel_pending_command ==> {
                &&& r.0 is Ok
                &&& r.1 is None
                &&& r.2 is None
                &&& *final(self) == (NonvolatileStorage {
                    kernel_pending_command: true,
                    kernel_command: NonvolatileCommand::KernelRead,
                    kernel_readwrite_address: address,
                    kernel_readwrite_length: spec_min(length as int, buffer@.len() as int) as usize,
                    kernel_buffer: Some(buffer),
                    ..*old(self)
                })
            },
    {
        self.enqueue_kernel(NonvolatileCommand::KernelRead, buffer, address, length)
    }

    /// Starts a kernel write of `length` bytes from the given buffer to an
    /// absolute address, or queues it, or rejects it and hands the buffer
    /// back.
    pub fn write(&mut self, buffer: Vec<u8>, address: usize, length: usize) -> (r: (
        Result<(), ErrorCode>,
        Option<PhysRequest>,
        Option<Vec<u8>>,
    ))
        requires
            old(self).wf(),
        ensures
            final(self).wf(),
            !old(self).spec_kernel_access_ok(address as int, length as int) ==> r.0 == Err::<
                (),
                ErrorCode,
            >(ErrorCode::OutOfBounds) && r.1 is None && r.2 == Some(buffer) && *final(self) == *old(
                self,
            ),
            old(self).spec_kernel_access_ok(address as int, length as int) && old(
                self,
            ).current_user is None ==> {
                &&& r.0 is Ok
                &&& r.1 matches Some(req)
                &&& r.1->Some_0.addr == address
                &&& r.1->Some_0.length == spec_min(length as int, buffer@.len() as int)
                &&& r.1->Some_0.buffer == buffer
                &&& r.1->Some_0.op == PhysOp::Write
                &&& *final(self) == (NonvolatileStorage {
                    current_user: Some(NonvolatileUser::Kernel),
                    ..*old(self)
                })
            },
            old(self).spec_kernel_access_ok(address as int, length as int) && old(
                self,
            ).current_user is Some && old(self).kernel_pending_command ==> r.0 == Err::<
                (),
                ErrorCode,
            >(ErrorCode::QueueFull) && r.1 is None && r.2 == Some(buffer) && *final(self) == *old(
                self,
            ),
            old(self).spec_kernel_access_ok(address as int, length as int) && old(
                self,
            ).current_user is Some && !old(self).kernel_pending_command ==> {
                &&& r.0 is Ok
                &&& r.1 is None
                &&& r.2 is None
                &&& *final(self) == (NonvolatileStorage {
                    kernel_pending_command: true,
                    kernel_command: NonvolatileCommand::KernelWrite,
                    kernel_readwrite_address: address,
                    kernel_readwrite_length: spec_min(length as int, buffer@.len() as int) as usize,
                    kernel_buffer: Some(buffer),
                    ..*old(self)
                })
            },
    {
        self.enqueue_kernel(NonvolatileCommand::KernelWrite, buffer, address, length)
    }

    /// Starts the next queued request, if any: the kernel's first, then the
    /// first application in table order with a parked request. Must only run
    /// while the channel is free.
    fn check_queue(&mut self) -> (r: Option<PhysRequest>)
        requires
            old(self).wf(),
            old(self).current_user is None,
        ensures
            final(self).wf(),
            spec_drained(*old(self), r, *final(self)),
            final(self).apps@.len() == old(self).apps@.len(),
            forall|i: int|
                0 <= i < old(self).apps@.len() && (#[trigger] old(
                    self,
                ).apps[i]).app.region is Some ==> final(self).apps[i].app.region == old(
                    self,
                ).apps[i].app.region,
    {
        if self.kernel_pending_command {
            let kernel_buffer = self.kernel_buffer.take().unwrap();
            self.kernel_pending_command = false;
            self.current_user = Some(NonvolatileUser::Kernel);
            let op = if let NonvolatileCommand::KernelRead = self.kernel_command {
                PhysOp::Read
            } else {
                PhysOp::Write
            };
            return Some(
                PhysRequest {
                    op,
                    addr: self.kernel_readwrite_address,
                    length: self.kernel_readwrite_length,
                    buffer: kernel_buffer,
                },
            );
        }
        let mut i: usize = 0;
        while i < self.apps.len()
            invariant
                old(self).wf(),
                old(self).current_user is None,
                !old(self).kernel_pending_command,
                *self == *old(self),
                i <= self.apps.len(),
                forall|j: int| 0 <= j < i ==> !(#[trigger] old(self).apps[j]).app.pending_command,
            decreases self.apps.len() - i,
        {
            if self.apps[i].app.pending_command {
                self.apps[i].app.pending_command = false;
                self.current_user = Some(NonvolatileUser::App { app: i });
                let app_command = self.apps[i].app.command;
                let app_offset = self.apps[i].app.offset;
                let app_length = self.apps[i].app.length;
                let region = self.apps[i].app.region.unwrap();
                if let NonvolatileCommand::UserspaceWrite = app_command {
                    let mut buf = self.buffer.take().unwrap();
                    let write_len = min_usize(
                        min_usize(app_length, buf.len()),
                        self.apps[i].write_allow.len(),
                    );
                    let ghost buf0 = buf@;
                    let mut j: usize = 0;
                    while j < write_len
                        invariant
                            j <= write_len,
                            write_len <= buf@.len(),
                            i < self.apps.len(),
                            write_len <= self.apps@[i as int].write_allow@.len(),
                            buf@.len() == buf0.len(),
                            forall|m: int|
                                0 <= m < j ==> buf@[m] == self.apps@[i as int].write_allow@[m],
                            forall|m: int| j <= m < buf@.len() ==> buf@[m] == buf0[m],
                        decreases write_len - j,
                    {
                        let b: u8 = self.apps[i].write_allow[j];
                        buf[j] = b;
                        j = j + 1;
                    }
                    self.buffer = Some(buf);
                }
                let req = self.userspace_call_driver(
                    app_command,
                    region.offset + app_offset,
                    app_length,
                );
                return Some(req);
            }
            i = i + 1;
        }
        None
    }
}


impl NonvolatileStorage {
    /// Starts the read that checks the magic marker at the front of the
    /// userspace area.
    pub fn check_magic_header(&mut self) -> (r: (Result<(), ErrorCode>, Option<PhysRequest>))
        requires
            old(self).wf(),
        ensures
            final(self).wf(),
            !old(self).spec_header_access_ok(
                old(self).userspace_start_address as int,
                MAGIC_HEADER_LEN as int,
            ) ==> r.0 == Err::<(), ErrorCode>(ErrorCode::OutOfBounds) && r.1 is None && *final(self)
                == *old(self),
            old(self).spec_header_access_ok(
                old(self).userspace_start_address as int,
                MAGIC_HEADER_LEN as int,
            ) && old(self).current_user is Some ==> r.0 == Err::<(), ErrorCode>(ErrorCode::Busy)
                && r.1 is None && *final(self) == *old(self),
            old(self).spec_header_access_ok(
                old(self).userspace_start_address as int,
                MAGIC_HEADER_LEN as int,
            ) && old(self).current_user is None ==> {
                &&& r.0 is Ok
                &&& r.1 matches Some(req)
                &&& r.1->Some_0.op == PhysOp::Read
                &&& r.1->Some_0.addr == old(self).userspace_start_address
                &&& r.1->Some_0.length == MAGIC_HEADER_LEN
                &&& r.1->Some_0.buffer == old(self).header_buffer->Some_0
                &&& *final(self) == (NonvolatileStorage {
                    header_buffer: None,
                    current_user: Some(
                        NonvolatileUser::HeaderManager(
                            HeaderState::Read(HeaderReadAction::ReadingMagicHeader),
                        ),
                    ),
                    ..*old(self)
                })
            },
    {
        self.enqueue_header(
            NonvolatileCommand::HeaderRead(HeaderReadAction::ReadingMagicHeader),
            self.userspace_start_address,
            MAGIC_HEADER_LEN,
        )
    }

    /// Fills the header buffer with the magic marker and starts the write
    /// that repairs the front of the userspace area.
    fn write_magic_header(&mut self) -> (r: (Result<(), ErrorCode>, Option<PhysRequest>))
        requires
            old(self).wf(),
        ensures
            final(self).wf(),
            r.0 is Err ==> r.1 is None && *final(self) == *old(self),
            !old(self).spec_header_access_ok(
                old(self).userspace_start_address as int,
                MAGIC_HEADER_LEN as int,
            ) ==> r.0 == Err::<(), ErrorCode>(ErrorCode::OutOfBounds),
            old(self).spec_header_access_ok(
                old(self).userspace_start_address as int,
                MAGIC_HEADER_LEN as int,
            ) && old(self).current_user is Some ==> r.0 == Err::<(), ErrorCode>(ErrorCode::Busy),
            old(self).spec_header_access_ok(
                old(self).userspace_start_address as int,
                MAGIC_HEADER_LEN as int,
            ) && old(self).current_user is None ==> {
                &&& r.0 is Ok
                &&& r.1 matches Some(req)
                &&& r.1->Some_0.op == PhysOp::Write
                &&& r.1->Some_0.addr == old(self).userspace_start_address
                &&& r.1->Some_0.length == MAGIC_HEADER_LEN
                &&& r.1->Some_0.buffer@.len() == HEADER_BUF_LEN
                &&& le_bytes_val(r.1->Some_0.buffer@.subrange(0, MAGIC_HEADER_LEN as int))
                    == MAGIC_HEADER
                &&& *final(self) == (NonvolatileStorage {
                    header_buffer: None,
                    current_user: Some(
                        NonvolatileUser::HeaderManager(
                            HeaderState::Write(HeaderWriteAction::WritingMagicHeader),
                        ),
                    ),
                    ..*old(self)
                })
            },
    {
        if let Err(e) = self.check_header_access(self.userspace_start_address, MAGIC_HEADER_LEN) {
            return (Err(e), None);
        }
        if self.current_user.is_some() {
            return (Err(ErrorCode::Busy), None);
        }
        let magic_bytes = u32_to_u8_slice(MAGIC_HEADER);
        let mut hbuf = self.header_buffer.take().unwrap();
        let ghost hbuf0 = hbuf@;
        let mut m: usize = 0;
        while m < 4
            invariant
                m <= 4,
                hbuf@.len() == hbuf0.len(),
                hbuf0.len() == HEADER_BUF_LEN,
                magic_bytes@.len() == 4,
                forall|k: int| 0 <= k < m ==> hbuf@[k] == magic_bytes@[k],
            decreases 4 - m,
        {
            let b: u8 = magic_bytes[m];
            hbuf[m] = b;
            m = m + 1;
        }
        proof {
            assert(hbuf@.subrange(0, MAGIC_HEADER_LEN as int) =~= magic_bytes@);
        }
        self.header_buffer = Some(hbuf);
        self.enqueue_header(
            NonvolatileCommand::HeaderWrite(HeaderWriteAction::WritingMagicHeader),
            self.userspace_start_address,
            MAGIC_HEADER_LEN,
        )
    }

    /// Starts the read of the region header at the given absolute address;
    /// the next traversal step resumes from its completion.
    fn read_region_header(&mut self, region_header_address: usize) -> (r: (
        Result<(), ErrorCode>,
        Option<PhysRequest>,
    ))
        requires
            old(self).wf(),
        ensures
            final(self).wf(),
            !old(self).spec_header_access_ok(
                region_header_address as int,
                REGION_HEADER_LEN as int,
            ) ==> r.0 == Err::<(), ErrorCode>(ErrorCode::OutOfBounds) && r.1 is None && *final(self)
                == *old(self),
            old(self).spec_header_access_ok(region_header_address as int, REGION_HEADER_LEN as int)
                && old(self).current_user is Some ==> r.0 == Err::<(), ErrorCode>(ErrorCode::Busy)
                && r.1 is None && *final(self) == *old(self),
            old(self).spec_header_access_ok(region_header_address as int, REGION_HEADER_LEN as int)
                && old(self).current_user is None ==> {
                &&& r.0 is Ok
                &&& r.1 matches Some(req)
                &&& r.1->Some_0.op == PhysOp::Read
                &&& r.1->Some_0.addr == region_header_address
                &&& r.1->Some_0.length == REGION_HEADER_LEN
                &&& r.1->Some_0.buffer == old(self).header_buffer->Some_0
                &&& *final(self) == (NonvolatileStorage {
                    header_buffer: None,
                    current_user: Some(
                        NonvolatileUser::HeaderManager(
                            HeaderState::Read(
                                HeaderReadAction::ReadingRegionHeader(region_header_address),
                            ),
                        ),
                    ),
                    ..*old(self)
                })
            },
    {
        self.enqueue_header(
            NonvolatileCommand::HeaderRead(
                HeaderReadAction::ReadingRegionHeader(region_header_address),
            ),
            region_header_address,
            REGION_HEADER_LEN,
        )
    }

    /// Fills the header buffer with zeroes and starts the write that places
    /// the sentinel header at the given absolute address.
    fn zero_out_region_header(&mut self, region_header_address: usize, check_for_requests: bool)
        -> (r: (Result<(), ErrorCode>, Option<PhysRequest>))
        requires
            old(self).wf(),
        ensures
            final(self).wf(),
            r.0 is Err ==> r.1 is None && *final(self) == *old(self),
            !old(self).spec_header_access_ok(
                region_header_address as int,
                REGION_HEADER_LEN as int,
            ) ==> r.0 == Err::<(), ErrorCode>(ErrorCode::OutOfBounds),
            old(self).spec_header_access_ok(region_header_address as int, REGION_HEADER_LEN as int)
                && old(self).current_user is Some ==> r.0 == Err::<(), ErrorCode>(ErrorCode::Busy),
            old(self).spec_header_access_ok(region_header_address as int, REGION_HEADER_LEN as int)
                && old(self).current_user is None ==> {
                &&& r.0 is Ok
                &&& r.1 matches Some(req)
                &&& r.1->Some_0.op == PhysOp::Write
                &&& r.1->Some_0.addr == region_header_address
                &&& r.1->Some_0.length == REGION_HEADER_LEN
                &&& r.1->Some_0.buffer@.len() == HEADER_BUF_LEN
                &&& (forall|k: int|
                    0 <= k < REGION_HEADER_LEN ==> r.1->Some_0.buffer@[k] == 0u8)
                &&& *final(self) == (NonvolatileStorage {
                    header_buffer: None,
                    current_user: Some(
                        NonvolatileUser::HeaderManager(
                            HeaderState::Write(
                                HeaderWriteAction::ZeroingRegionHeader(check_for_requests),
                            ),
                        ),
                    ),
                    ..*old(self)
                })
            },
    {
        if let Err(e) = self.check_header_access(region_header_address, REGION_HEADER_LEN) {
            return (Err(e), None);
        }
        if self.current_user.is_some() {
            return (Err(ErrorCode::Busy), None);
        }
        let mut hbuf = self.header_buffer.take().unwrap();
        let ghost hbuf0 = hbuf@;
        let mut m: usize = 0;
        while m < REGION_HEADER_LEN
            invariant
                m <= REGION_HEADER_LEN,
                hbuf@.len() == hbuf0.len(),
                hbuf0.len() == HEADER_BUF_LEN,
                forall|k: int| 0 <= k < m ==> hbuf@[k] == 0u8,
            decreases REGION_HEADER_LEN - m,
        {
            hbuf[m] = 0;
            m = m + 1;
        }
        self.header_buffer = Some(hbuf);
        self.enqueue_header(
            NonvolatileCommand::HeaderWrite(
                HeaderWriteAction::ZeroingRegionHeader(check_for_requests),
            ),
            region_header_address,
            REGION_HEADER_LEN,
        )
    }

    /// Fills the header buffer with the encoded region header and starts the
    /// write that records a fresh allocation for the given application.
    fn write_region_header(
        &mut self,
        app_index: usize,
        region_header: &AppRegionHeader,
        region_header_address: usize,
    ) -> (r: (Result<(), ErrorCode>, Option<PhysRequest>))
        requires
            old(self).wf(),
            app_index < old(self).apps.len(),
            old(self).apps[app_index as int].app.region is None,
            region_header_address + REGION_HEADER_LEN + region_header.length <= old(
                self,
            ).user_end(),
        ensures
            final(self).wf(),
            r.0 is Err ==> r.1 is None && *final(self) == *old(self),
            !old(self).spec_header_access_ok(
                region_header_address as int,
                REGION_HEADER_LEN as int,
            ) ==> r.0 == Err::<(), ErrorCode>(ErrorCode::OutOfBounds),
            old(self).spec_header_access_ok(region_header_address as int, REGION_HEADER_LEN as int)
                && old(self).current_user is Some ==> r.0 == Err::<(), ErrorCode>(ErrorCode::Busy),
            old(self).spec_header_access_ok(region_header_address as int, REGION_HEADER_LEN as int)
                && old(self).current_user is None ==> {
                &&& r.0 is Ok
                &&& r.1 matches Some(req)
                &&& r.1->Some_0.op == PhysOp::Write
                &&& r.1->Some_0.addr == region_header_address
                &&& r.1->Some_0.length == REGION_HEADER_LEN
                &&& r.1->Some_0.buffer@.len() == HEADER_BUF_LEN
                &&& le_bytes_val(r.1->Some_0.buffer@.subrange(0, 4)) == region_header.shortid
                &&& le_bytes_val(r.1->Some_0.buffer@.subrange(4, REGION_HEADER_LEN as int))
                    == region_header.length
                &&& *final(self) == (NonvolatileStorage {
                    header_buffer: None,
                    current_user: Some(
                        NonvolatileUser::HeaderManager(
                            HeaderState::Write(
                                HeaderWriteAction::WritingRegionHeader(
                                    app_index,
                                    AppRegion {
                                        offset: (region_header_address + REGION_HEADER_LEN) as usize,
                                        length: region_header.length,
                                    },
                                ),
                            ),
                        ),
                    ),
                    ..*old(self)
                })
            },
    {
        if let Err(e) = self.check_header_access(region_header_address, REGION_HEADER_LEN) {
            return (Err(e), None);
        }
        if self.current_user.is_some() {
            return (Err(ErrorCode::Busy), None);
        }
        let owner_bytes = u32_to_u8_slice(region_header.shortid);
        let length_bytes = usize_to_u8_slice(region_header.length);
        let mut hbuf = self.header_buffer.take().unwrap();
        let ghost hbuf0 = hbuf@;
        let mut m: usize = 0;
        while m < 4
            invariant
                m <= 4,
                hbuf@.len() == hbuf0.len(),
                hbuf0.len() == HEADER_BUF_LEN,
                owner_bytes@.len() == 4,
                forall|k: int| 0 <= k < m ==> hbuf@[k] == owner_bytes@[k],
            decreases 4 - m,
        {
            let b: u8 = owner_bytes[m];
            hbuf[m] = b;
            m = m + 1;
        }
        let mut n: usize = 0;
        while n < 8
            invariant
                n <= 8,
                hbuf@.len() == hbuf0.len(),
                hbuf0.len() == HEADER_BUF_LEN,
                owner_bytes@.len() == 4,
                length_bytes@.len() == 8,
                forall|k: int| 0 <= k < 4 ==> hbuf@[k] == owner_bytes@[k],
                forall|k: int| 0 <= k < n ==> hbuf@[4 + k] == length_bytes@[k],
            decreases 8 - n,
        {
            let b: u8 = length_bytes[n];
            hbuf[4 + n] = b;
            n = n + 1;
        }
        proof {
            assert(hbuf@.subrange(0, 4) =~= owner_bytes@);
            assert(hbuf@.subrange(4, REGION_HEADER_LEN as int) =~= length_bytes@);
        }
        self.header_buffer = Some(hbuf);
        let region = AppRegion {
            offset: region_header_address + REGION_HEADER_LEN,
            length: region_header.length,
        };
        self.enqueue_header(
            NonvolatileCommand::HeaderWrite(
                HeaderWriteAction::WritingRegionHeader(app_index, region),
            ),
            region_header_address,
            REGION_HEADER_LEN,
        )
    }

    /// Finds the first application in table order that asked for a region
    /// and has none assigned yet.
    fn find_app_to_allocate_region(&self) -> (r: Option<usize>)
        ensures
            r is None ==> forall|i: int| 0 <= i < self.apps.len() ==> !self.spec_waiting(i),
            r matches Some(i) ==> {
                &&& i < self.apps.len()
                &&& self.spec_waiting(i as int)
                &&& forall|j: int| 0 <= j < i ==> !self.spec_waiting(j)
            },
    {
        let mut i: usize = 0;
        while i < self.apps.len()
            invariant
                i <= self.apps.len(),
                forall|j: int| 0 <= j < i ==> !self.spec_waiting(j),
            decreases self.apps.len() - i,
        {
            if self.apps[i].app.has_requested_region && self.apps[i].app.region.is_none() {
                return Some(i);
            }
            i = i + 1;
        }
        None
    }
}



/// The continuation of the header protocol after a header read, relating
/// the state before (`pre`, with the returned buffer already back in the
/// header-buffer slot and the channel free) to the state after (`post`),
/// the result `r`, and the notifications appended to `out0` giving `out1`.
pub open spec fn spec_header_read_outcome(
    pre: NonvolatileStorage,
    action: HeaderReadAction,
    r: (Result<(), ErrorCode>, Option<PhysRequest>),
    post: NonvolatileStorage,
    out0: Seq<Upcall>,
    out1: Seq<Upcall>,
) -> bool {
    &&& post.apps@.len() == pre.apps@.len()
    &&& (forall|i: int|
        0 <= i < pre.apps@.len() && (#[trigger] pre.apps[i]).app.region is Some
            ==> post.apps[i].app.region == pre.apps[i].app.region)
    &&& post == (NonvolatileStorage {
        apps: post.apps,
        header_buffer: post.header_buffer,
        current_user: post.current_user,
        next_unallocated_region_header_address: post.next_unallocated_region_header_address,
        ..pre
    })
    &&& (action == HeaderReadAction::ReadingMagicHeader ==> {
        &&& post.apps@ == pre.apps@
        &&& out1 == out0
        &&& (le_bytes_val(pre.header_buffer->Some_0@.subrange(0, 4)) == MAGIC_HEADER ==> r.0
            is Ok && r.1 is None && post == pre)
        &&& (le_bytes_val(pre.header_buffer->Some_0@.subrange(0, 4)) != MAGIC_HEADER
            && pre.spec_header_access_ok(
            pre.userspace_start_address as int,
            MAGIC_HEADER_LEN as int,
        ) ==> {
            &&& r.0 is Ok
            &&& r.1 matches Some(req)
            &&& r.1->Some_0.op == PhysOp::Write
            &&& r.1->Some_0.addr == pre.userspace_start_address
            &&& r.1->Some_0.length == MAGIC_HEADER_LEN
            &&& le_bytes_val(r.1->Some_0.buffer@.subrange(0, MAGIC_HEADER_LEN as int))
                == MAGIC_HEADER
            &&& post.current_user == Some(
                NonvolatileUser::HeaderManager(
                    HeaderState::Write(HeaderWriteAction::WritingMagicHeader),
                ),
            )
        })
        &&& (le_bytes_val(pre.header_buffer->Some_0@.subrange(0, 4)) != MAGIC_HEADER
            && !pre.spec_header_access_ok(
            pre.userspace_start_address as int,
            MAGIC_HEADER_LEN as int,
        ) ==> r.0 == Err::<(), ErrorCode>(ErrorCode::OutOfBounds) && r.1 is None && post == pre)
    })
    &&& (action matches HeaderReadAction::ReadingRegionHeader(h) ==> ((NonvolatileStorage::spec_hbuf_owner(pre.header_buffer->Some_0@)
        == TERMINATING_REGION_OWNER) ==> post.next_unallocated_region_header_address == Some(h)
        && post.apps@ == pre.apps@))
    &&& (action matches HeaderReadAction::ReadingRegionHeader(h) ==> ((NonvolatileStorage::spec_hbuf_owner(pre.header_buffer->Some_0@)
        == TERMINATING_REGION_OWNER && (forall|i: int|
        0 <= i < pre.apps.len() ==> !pre.spec_waiting(i))) ==> r.0 is Ok && r.1 is None && out1
        == out0 && post == (NonvolatileStorage {
        next_unallocated_region_header_address: Some(h),
        ..pre
    })))
    &&& (action matches HeaderReadAction::ReadingRegionHeader(h) ==> ((NonvolatileStorage::spec_hbuf_owner(pre.header_buffer->Some_0@)
        == TERMINATING_REGION_OWNER && (exists|i: int|
        0 <= i < pre.apps.len() && #[trigger] pre.spec_waiting(i))) ==> (exists|i: int|
        {
            &&& 0 <= i < pre.apps.len()
            &&& #[trigger] pre.spec_waiting(i)
            &&& (forall|j: int| 0 <= j < i ==> !pre.spec_waiting(j))
            &&& (pre.spec_alloc_issue_ok(i, h as int) ==> {
                &&& NonvolatileStorage::spec_alloc_issued(pre, i, h as int, r, post)
                &&& out1 == out0
            })
            &&& (r.0 is Err ==> r.1 is None && (exists|e: ErrorCode|
                r.0 == Err::<(), ErrorCode>(e) && out1 == out0.push(
                    Upcall::InitDone { app: i as usize, status: Some(e) },
                )))
        })))
    &&& (action matches HeaderReadAction::ReadingRegionHeader(h) ==> ((NonvolatileStorage::spec_hbuf_owner(pre.header_buffer->Some_0@)
        != TERMINATING_REGION_OWNER && NonvolatileStorage::spec_hbuf_region_len(pre.header_buffer->Some_0@) > pre.user_end() - h - REGION_HEADER_LEN) ==> r.0
        == Err::<(), ErrorCode>(ErrorCode::OutOfBounds) && r.1 is None && post == pre && out1
        == out0))
    &&& (action matches HeaderReadAction::ReadingRegionHeader(h) ==> ((NonvolatileStorage::spec_hbuf_owner(pre.header_buffer->Some_0@)
        != TERMINATING_REGION_OWNER && NonvolatileStorage::spec_hbuf_region_len(pre.header_buffer->Some_0@) <= pre.user_end() - h - REGION_HEADER_LEN) ==> {
        &&& post.next_unallocated_region_header_address
            == pre.next_unallocated_region_header_address
        &&& ((exists|j: int|
            pre.spec_first_with_shortid(j, NonvolatileStorage::spec_hbuf_owner(pre.header_buffer->Some_0@) as u32) && pre.spec_waiting(j)) ==> (exists|
            j: int,
        |
            {
                &&& pre.spec_first_with_shortid(j, NonvolatileStorage::spec_hbuf_owner(pre.header_buffer->Some_0@) as u32)
                &&& pre.spec_waiting(j)
                &&& post.apps@ == pre.apps@.update(
                    j,
                    (AppSlot {
                        app: App {
                            region: Some(
                                AppRegion {
                                    offset: (h + REGION_HEADER_LEN) as usize,
                                    length: NonvolatileStorage::spec_hbuf_region_len(pre.header_buffer->Some_0@) as usize,
                                },
                            ),
                            ..pre.apps[j].app
                        },
                        ..pre.apps@[j]
                    }),
                )
                &&& out1 == out0.push(Upcall::InitDone { app: j as usize, status: None })
            }))
        &&& (!(exists|j: int|
            pre.spec_first_with_shortid(j, NonvolatileStorage::spec_hbuf_owner(pre.header_buffer->Some_0@) as u32) && pre.spec_waiting(j)) ==> post.apps@
            == pre.apps@ && out1 == out0)
    }))
    &&& (action matches HeaderReadAction::ReadingRegionHeader(h) ==> ((NonvolatileStorage::spec_hbuf_owner(pre.header_buffer->Some_0@)
        != TERMINATING_REGION_OWNER && NonvolatileStorage::spec_hbuf_region_len(pre.header_buffer->Some_0@) <= pre.user_end() - h - REGION_HEADER_LEN) ==> {
        &&& (pre.spec_header_access_ok(
            h + REGION_HEADER_LEN + NonvolatileStorage::spec_hbuf_region_len(pre.header_buffer->Some_0@),
            REGION_HEADER_LEN as int,
        ) ==> {
            &&& r.0 is Ok
            &&& r.1 matches Some(req)
            &&& r.1->Some_0.op == PhysOp::Read
            &&& r.1->Some_0.addr == h + REGION_HEADER_LEN + NonvolatileStorage::spec_hbuf_region_len(pre.header_buffer->Some_0@)
            &&& r.1->Some_0.length == REGION_HEADER_LEN
            &&& post.header_buffer is None
            &&& post.current_user == Some(
                NonvolatileUser::HeaderManager(
                    HeaderState::Read(
                        HeaderReadAction::ReadingRegionHeader(
                            (h + REGION_HEADER_LEN + NonvolatileStorage::spec_hbuf_region_len(pre.header_buffer->Some_0@)) as usize,
                        ),
                    ),
                ),
            )
        })
        &&& (!pre.spec_header_access_ok(
            h + REGION_HEADER_LEN + NonvolatileStorage::spec_hbuf_region_len(pre.header_buffer->Some_0@),
            REGION_HEADER_LEN as int,
        ) ==> r.0 == Err::<(), ErrorCode>(ErrorCode::OutOfBounds) && r.1 is None
            && post.current_user is None && post.header_buffer == pre.header_buffer)
    }))
}

impl NonvolatileStorage {
    /// The owner identifier stored in a header transfer buffer.
    pub open spec fn spec_hbuf_owner(b: Seq<u8>) -> nat {
        le_bytes_val(b.subrange(0, 4))
    }

    /// The region length stored in a header transfer buffer.
    pub open spec fn spec_hbuf_region_len(b: Seq<u8>) -> nat {
        le_bytes_val(b.subrange(4, REGION_HEADER_LEN as int))
    }

    /// No application before `j` in table order holds the given identity.
    pub open spec fn spec_first_with_shortid(self, j: int, owner: u32) -> bool {
        &&& 0 <= j < self.apps.len()
        &&& self.apps[j].shortid == ShortId::Fixed(owner)
        &&& forall|k: int| 0 <= k < j ==> self.apps[k].shortid != ShortId::Fixed(owner)
    }

    /// A fresh region of the configured size fits between the frontier
    /// header and the end of the userspace area.
    pub open spec fn spec_candidate_fits(self, frontier: int) -> bool {
        frontier + REGION_HEADER_LEN + self.app_region_size <= self.user_end()
    }

    /// Writes a fresh region header at the frontier for the given waiting
    /// application. Every failure is also reported through an
    /// initialization-complete notification pushed onto `out`.
    pub fn allocate_app_region(&mut self, app_index: usize, out: &mut Vec<Upcall>) -> (r: (
        Result<(), ErrorCode>,
        Option<PhysRequest>,
    ))
        requires
            old(self).wf(),
            app_index < old(self).apps.len(),
            old(self).current_user is None,
        ensures
            final(self).wf(),
            r.0 is Err ==> r.1 is None && *final(self) == *old(self) && (exists|e: ErrorCode|
                r.0 == Err::<(), ErrorCode>(e) && final(out)@ == old(out)@.push(
                    Upcall::InitDone { app: app_index, status: Some(e) },
                )),
            old(self).next_unallocated_region_header_address is None ==> r.0 == Err::<
                (),
                ErrorCode,
            >(ErrorCode::Fail),
            old(self).next_unallocated_region_header_address is Some && old(
                self,
            ).apps[app_index as int].shortid is LocallyUnique ==> r.0 == Err::<(), ErrorCode>(
                ErrorCode::Unsupported,
            ),
            old(self).next_unallocated_region_header_address is Some && old(
                self,
            ).apps[app_index as int].shortid == ShortId::Fixed(TERMINATING_REGION_OWNER) ==> r.0
                == Err::<(), ErrorCode>(ErrorCode::Fail),
            (old(self).next_unallocated_region_header_address is Some && (old(
                self,
            ).apps[app_index as int].shortid matches ShortId::Fixed(id) && id
                != TERMINATING_REGION_OWNER) && !old(self).spec_waiting(app_index as int)) ==> r.0
                is Ok && r.1 is None && *final(self) == *old(self) && final(out)@ == old(out)@,
            (old(self).next_unallocated_region_header_address matches Some(f) && (old(
                self,
            ).apps[app_index as int].shortid matches ShortId::Fixed(id) && id
                != TERMINATING_REGION_OWNER) && old(self).spec_waiting(app_index as int) && old(
                self,
            ).spec_candidate_fits(f as int) && old(self).spec_header_access_ok(
                f as int,
                REGION_HEADER_LEN as int,
            )) ==> {
                let f = old(self).next_unallocated_region_header_address->Some_0;
                let id = old(self).apps[app_index as int].shortid->Fixed_0;
                &&& r.0 is Ok
                &&& r.1 matches Some(req)
                &&& r.1->Some_0.op == PhysOp::Write
                &&& r.1->Some_0.addr == f
                &&& r.1->Some_0.length == REGION_HEADER_LEN
                &&& le_bytes_val(r.1->Some_0.buffer@.subrange(0, 4)) == id
                &&& le_bytes_val(r.1->Some_0.buffer@.subrange(4, REGION_HEADER_LEN as int)) == old(
                    self,
                ).app_region_size
                &&& final(out)@ == old(out)@
                &&& *final(self) == (NonvolatileStorage {
                    header_buffer: None,
                    current_user: Some(
                        NonvolatileUser::HeaderManager(
                            HeaderState::Write(
                                HeaderWriteAction::WritingRegionHeader(
                                    app_index,
                                    AppRegion {
                                        offset: (f + REGION_HEADER_LEN) as usize,
                                        length: old(self).app_region_size,
                                    },
                                ),
                            ),
                        ),
                    ),
                    ..*old(self)
                })
            },
            (old(self).next_unallocated_region_header_address matches Some(f) && (old(
                self,
            ).apps[app_index as int].shortid matches ShortId::Fixed(id) && id
                != TERMINATING_REGION_OWNER) && old(self).spec_waiting(app_index as int) && !old(
                self,
            ).spec_candidate_fits(f as int)) ==> r.0 == Err::<(), ErrorCode>(
                ErrorCode::OutOfBounds,
            ),
            (old(self).next_unallocated_region_header_address matches Some(f) && (old(
                self,
            ).apps[app_index as int].shortid matches ShortId::Fixed(id) && id
                != TERMINATING_REGION_OWNER) && old(self).spec_waiting(app_index as int) && old(
                self,
            ).spec_candidate_fits(f as int) && !old(self).spec_header_access_ok(
                f as int,
                REGION_HEADER_LEN as int,
            )) ==> r.0 == Err::<(), ErrorCode>(ErrorCode::OutOfBounds),
    {
        let new_header_addr = match self.next_unallocated_region_header_address {
            Some(addr) => addr,
            None => {
                out.push(Upcall::InitDone { app: app_index, status: Some(ErrorCode::Fail) });
                return (Err(ErrorCode::Fail), None);
            },
        };
        let id = match self.apps[app_index].shortid {
            ShortId::LocallyUnique => {
                out.push(Upcall::InitDone { app: app_index, status: Some(ErrorCode::Unsupported) });
                return (Err(ErrorCode::Unsupported), None);
            },
            ShortId::Fixed(id) => {
                if id == TERMINATING_REGION_OWNER {
                    out.push(Upcall::InitDone { app: app_index, status: Some(ErrorCode::Fail) });
                    return (Err(ErrorCode::Fail), None);
                }
                id
            },
        };
        if !(self.apps[app_index].app.has_requested_region && self.apps[app_index].app.region.is_none()) {
            return (Ok(()), None);
        }
        let end: usize = self.userspace_start_address + self.userspace_length;
        if new_header_addr > end || end - new_header_addr < REGION_HEADER_LEN || end
            - new_header_addr - REGION_HEADER_LEN < self.app_region_size {
            out.push(Upcall::InitDone { app: app_index, status: Some(ErrorCode::OutOfBounds) });
            return (Err(ErrorCode::OutOfBounds), None);
        }
        let header = AppRegionHeader { shortid: id, length: self.app_region_size };
        match self.write_region_header(app_index, &header, new_header_addr) {
            (Ok(()), req) => (Ok(()), req),
            (Err(e), _) => {
                out.push(Upcall::InitDone { app: app_index, status: Some(e) });
                (Err(e), None)
            },
        }
    }
}


impl NonvolatileStorage {
    /// A fresh allocation for waiting application `i` can be written at
    /// frontier `f`.
    pub open spec fn spec_alloc_issue_ok(self, i: int, f: int) -> bool {
        &&& (self.apps[i].shortid matches ShortId::Fixed(id) && id != TERMINATING_REGION_OWNER)
        &&& self.spec_waiting(i)
        &&& self.spec_candidate_fits(f)
        &&& self.spec_header_access_ok(f, REGION_HEADER_LEN as int)
    }

    /// The outcome of starting a fresh allocation for application `i` at
    /// frontier `f`: a header write carrying the application's identity and
    /// the configured region size, with the channel now owned by the
    /// header manager.
    pub open spec fn spec_alloc_issued(
        pre: Self,
        i: int,
        f: int,
        r: (Result<(), ErrorCode>, Option<PhysRequest>),
        post: Self,
    ) -> bool {
        &&& r.0 is Ok
        &&& r.1 matches Some(req)
        &&& r.1->Some_0.op == PhysOp::Write
        &&& r.1->Some_0.addr == f
        &&& r.1->Some_0.length == REGION_HEADER_LEN
        &&& le_bytes_val(r.1->Some_0.buffer@.subrange(0, 4)) == pre.apps[i].shortid->Fixed_0
        &&& le_bytes_val(r.1->Some_0.buffer@.subrange(4, REGION_HEADER_LEN as int))
            == pre.app_region_size
        &&& post.header_buffer is None
        &&& post.current_user == Some(
            NonvolatileUser::HeaderManager(
                HeaderState::Write(
                    HeaderWriteAction::WritingRegionHeader(
                        i as usize,
                        AppRegion {
                            offset: (f + REGION_HEADER_LEN) as usize,
                            length: pre.app_region_size,
                        },
                    ),
                ),
            ),
        )
        &&& post.apps@ == pre.apps@
    }

    /// Continues the protocol after a header read completes: detects a
    /// missing magic marker, assigns a discovered region to the waiting
    /// application that owns it, stops at the sentinel (recording the
    /// frontier and starting an allocation if anyone waits), or follows the
    /// chain to the next header.
    #[verifier::rlimit(60)]
    #[verifier::spinoff_prover]
    pub fn header_read_done(&mut self, action: HeaderReadAction, out: &mut Vec<Upcall>) -> (r: (
        Result<(), ErrorCode>,
        Option<PhysRequest>,
    ))
        requires
            old(self).wf(),
            old(self).current_user is None,
            old(self).header_buffer is Some,
            action matches HeaderReadAction::ReadingRegionHeader(h) ==> old(
                self,
            ).userspace_start_address <= h && h + REGION_HEADER_LEN <= old(self).user_end(),
        ensures
            final(self).wf(),
            spec_header_read_outcome(
                *old(self),
                action,
                r,
                *final(self),
                old(out)@,
                final(out)@,
            ),
    {
        match action {
            HeaderReadAction::ReadingMagicHeader => {
                let magic: u32 = {
                    let hb = self.header_buffer.as_ref().unwrap();
                    let arr: [u8; 4] = [hb[0], hb[1], hb[2], hb[3]];
                    proof {
                        assert(arr@ =~= hb@.subrange(0, 4));
                    }
                    u8_slice_to_u32(arr.as_slice())
                };
                if magic != MAGIC_HEADER {
                    self.write_magic_header()
                } else {
                    (Ok(()), None)
                }
            },
            HeaderReadAction::ReadingRegionHeader(region_header_address) => {
                let owner: u32 = {
                    let hb = self.header_buffer.as_ref().unwrap();
                    let arr: [u8; 4] = [hb[0], hb[1], hb[2], hb[3]];
                    proof {
                        assert(arr@ =~= hb@.subrange(0, 4));
                    }
                    u8_slice_to_u32(arr.as_slice())
                };
                let rlen64: u64 = {
                    let hb = self.header_buffer.as_ref().unwrap();
                    let arr: [u8; 8] = [
                        hb[4],
                        hb[5],
                        hb[6],
                        hb[7],
                        hb[8],
                        hb[9],
                        hb[10],
                        hb[11],
                    ];
                    proof {
                        assert(arr@ =~= hb@.subrange(4, REGION_HEADER_LEN as int));
                    }
                    u8_slice_to_u64(arr.as_slice())
                };
                if owner == TERMINATING_REGION_OWNER {
                    self.next_unallocated_region_header_address = Some(region_header_address);
                    let ghost mid = *self;
                    proof {
                        assert(mid.apps@ == old(self).apps@);
                        assert forall|k: int| 0 <= k < mid.apps.len() implies mid.spec_waiting(k)
                            == old(self).spec_waiting(k) by {}
                    }
                    match self.find_app_to_allocate_region() {
                        Some(i) => {
                            let res = self.allocate_app_region(i, out);
                            proof {
                                let h = region_header_address as int;
                                assert((i as int) < old(self).apps.len());
                                assert(old(self).spec_waiting(i as int));
                                assert forall|jj: int| 0 <= jj < i as int implies !old(
                                    self,
                                ).spec_waiting(jj) by {
                                    assert(!mid.spec_waiting(jj));
                                }
                                assert(mid.spec_candidate_fits(h) == old(self).spec_candidate_fits(
                                    h,
                                ));
                                assert(mid.spec_header_access_ok(h, REGION_HEADER_LEN as int)
                                    == old(self).spec_header_access_ok(
                                    h,
                                    REGION_HEADER_LEN as int,
                                ));
                            }
                            res
                        },
                        None => {
                            proof {
                                assert forall|k: int| 0 <= k < old(self).apps.len() implies !old(
                                    self,
                                ).spec_waiting(k) by {
                                    assert(!mid.spec_waiting(k));
                                }
                            }
                            (Ok(()), None)
                        },
                    }
                } else {
                    let end: usize = self.userspace_start_address + self.userspace_length;
                    let avail: usize = end - region_header_address - REGION_HEADER_LEN;
                    if rlen64 > avail as u64 {
                        return (Err(ErrorCode::OutOfBounds), None);
                    }
                    let region_length: usize = rlen64 as usize;
                    let mut j: usize = 0;
                    let mut found: bool = false;
                    while j < self.apps.len() && !found
                        invariant
                            j <= self.apps.len(),
                            !found ==> forall|k: int|
                                0 <= k < j ==> self.apps[k].shortid != ShortId::Fixed(owner),
                            found ==> j < self.apps.len() && self.spec_first_with_shortid(
                                j as int,
                                owner,
                            ),
                        decreases self.apps.len() - j, (if found { 0int } else { 1int }),
                    {
                        if self.apps[j].shortid == ShortId::Fixed(owner) {
                            found = true;
                        } else {
                            j = j + 1;
                        }
                    }
                    if found {
                        if self.apps[j].app.has_requested_region && self.apps[j].app.region.is_none() {
                            self.apps[j].app.region = Some(
                                AppRegion {
                                    offset: region_header_address + REGION_HEADER_LEN,
                                    length: region_length,
                                },
                            );
                            out.push(Upcall::InitDone { app: j, status: None });
                            proof {
                                let hb0 = old(self).header_buffer->Some_0@;
                                assert(old(self).spec_first_with_shortid(
                                    j as int,
                                    Self::spec_hbuf_owner(hb0) as u32,
                                ));
                                assert(old(self).spec_waiting(j as int));
                                assert(Self::spec_hbuf_region_len(hb0) as usize == region_length);
                                assert(self.apps@ =~= old(self).apps@.update(
                                    j as int,
                                    (AppSlot {
                                        app: App {
                                            region: Some(
                                                AppRegion {
                                                    offset: (region_header_address
                                                        + REGION_HEADER_LEN) as usize,
                                                    length: Self::spec_hbuf_region_len(
                                                        hb0,
                                                    ) as usize,
                                                },
                                            ),
                                            ..old(self).apps[j as int].app
                                        },
                                        ..old(self).apps@[j as int]
                                    }),
                                ));
                            }
                        } else {
                            proof {
                                assert forall|j2: int| old(self).spec_first_with_shortid(
                                    j2,
                                    owner,
                                ) implies j2 == j as int by {
                                    if j2 < j as int {
                                        assert(old(self).apps[j2].shortid != ShortId::Fixed(owner));
                                    } else if j2 > j as int {
                                        assert(old(self).apps[j as int].shortid != ShortId::Fixed(
                                            owner,
                                        ));
                                    }
                                }
                            }
                        }
                    } else {
                        proof {
                            assert forall|j2: int| 0 <= j2 < old(self).apps.len() implies !old(
                                self,
                            ).spec_first_with_shortid(j2, owner) by {
                                assert(old(self).apps[j2].shortid != ShortId::Fixed(owner));
                            }
                        }
                    }
                    let next: usize = region_header_address + REGION_HEADER_LEN + region_length;
                    self.read_region_header(next)
                }
            },
        }
    }
}



/// The continuation of the header protocol after a header write, relating
/// the state before (`pre`, with the returned buffer already back in the
/// header-buffer slot and the channel free) to the state after (`post`),
/// the result `r`, and the notifications appended to `out0` giving `out1`.
pub open spec fn spec_header_write_outcome(
    pre: NonvolatileStorage,
    action: HeaderWriteAction,
    r: (Result<(), ErrorCode>, Option<PhysRequest>),
    post: NonvolatileStorage,
    out0: Seq<Upcall>,
    out1: Seq<Upcall>,
) -> bool {
    &&& post.apps@.len() == pre.apps@.len()
    &&& (forall|i: int|
        0 <= i < pre.apps@.len() && (#[trigger] pre.apps[i]).app.region is Some
            ==> post.apps[i].app.region == pre.apps[i].app.region)
    &&& post == (NonvolatileStorage {
        apps: post.apps,
        header_buffer: post.header_buffer,
        current_user: post.current_user,
        next_unallocated_region_header_address: post.next_unallocated_region_header_address,
        ..pre
    })
    &&& (action == HeaderWriteAction::WritingMagicHeader ==> {
        &&& post.apps@ == pre.apps@
        &&& out1 == out0
        &&& post.next_unallocated_region_header_address
            == pre.next_unallocated_region_header_address
        &&& (MAGIC_HEADER_LEN <= pre.userspace_length && pre.spec_header_access_ok(
            pre.userspace_start_address + MAGIC_HEADER_LEN,
            REGION_HEADER_LEN as int,
        ) ==> {
            &&& r.0 is Ok
            &&& r.1 matches Some(req)
            &&& r.1->Some_0.op == PhysOp::Write
            &&& r.1->Some_0.addr == pre.userspace_start_address + MAGIC_HEADER_LEN
            &&& r.1->Some_0.length == REGION_HEADER_LEN
            &&& (forall|k: int| 0 <= k < REGION_HEADER_LEN ==> r.1->Some_0.buffer@[k] == 0u8)
            &&& post.current_user == Some(
                NonvolatileUser::HeaderManager(
                    HeaderState::Write(HeaderWriteAction::ZeroingRegionHeader(false)),
                ),
            )
        })
        &&& (MAGIC_HEADER_LEN <= pre.userspace_length && !pre.spec_header_access_ok(
            pre.userspace_start_address + MAGIC_HEADER_LEN,
            REGION_HEADER_LEN as int,
        ) ==> r.0 == Err::<(), ErrorCode>(ErrorCode::OutOfBounds) && r.1 is None && post == pre)
        &&& (MAGIC_HEADER_LEN > pre.userspace_length ==> r.0 == Err::<(), ErrorCode>(
            ErrorCode::OutOfBounds,
        ) && r.1 is None && post == pre)
    })
    &&& (action matches HeaderWriteAction::WritingRegionHeader(a, reg) ==> {
        &&& post.apps@ == pre.apps@.update(
            a as int,
            (AppSlot {
                app: App { region: Some(reg), ..pre.apps[a as int].app },
                ..pre.apps@[a as int]
            }),
        )
        &&& (pre.next_unallocated_region_header_address is None ==> r.0 == Err::<(), ErrorCode>(
            ErrorCode::Fail,
        ) && r.1 is None && out1 == out0)
        &&& (pre.next_unallocated_region_header_address is Some && pre.next_unallocated_region_header_address->Some_0 + REGION_HEADER_LEN
            + pre.app_region_size <= usize::MAX ==> {
            &&& post.next_unallocated_region_header_address == Some(
                (pre.next_unallocated_region_header_address->Some_0 + REGION_HEADER_LEN + pre.app_region_size) as usize,
            )
            &&& (pre.spec_header_access_ok(
                pre.next_unallocated_region_header_address->Some_0 + REGION_HEADER_LEN + pre.app_region_size,
                REGION_HEADER_LEN as int,
            ) ==> {
                &&& r.0 is Ok
                &&& r.1 matches Some(req)
                &&& r.1->Some_0.op == PhysOp::Write
                &&& r.1->Some_0.addr == pre.next_unallocated_region_header_address->Some_0 + REGION_HEADER_LEN + pre.app_region_size
                &&& r.1->Some_0.length == REGION_HEADER_LEN
                &&& (forall|k: int| 0 <= k < REGION_HEADER_LEN ==> r.1->Some_0.buffer@[k] == 0u8)
                &&& post.current_user == Some(
                    NonvolatileUser::HeaderManager(
                        HeaderState::Write(HeaderWriteAction::ZeroingRegionHeader(true)),
                    ),
                )
                &&& out1 == out0.push(Upcall::InitDone { app: a, status: None })
            })
            &&& (!pre.spec_header_access_ok(
                pre.next_unallocated_region_header_address->Some_0 + REGION_HEADER_LEN + pre.app_region_size,
                REGION_HEADER_LEN as int,
            ) ==> r.0 == Err::<(), ErrorCode>(ErrorCode::OutOfBounds) && r.1 is None && out1
                == out0)
        })
        &&& (pre.next_unallocated_region_header_address is Some && pre.next_unallocated_region_header_address->Some_0 + REGION_HEADER_LEN
            + pre.app_region_size > usize::MAX ==> r.0 == Err::<(), ErrorCode>(
            ErrorCode::OutOfBounds,
        ) && r.1 is None && out1 == out0 && post.next_unallocated_region_header_address
            == pre.next_unallocated_region_header_address)
    })
    &&& (action == HeaderWriteAction::ZeroingRegionHeader(false) ==> r.0 is Ok && r.1 is None
        && post == pre && out1 == out0)
    &&& (action == HeaderWriteAction::ZeroingRegionHeader(true) ==> {
        &&& post.apps@ == pre.apps@
        &&& post.next_unallocated_region_header_address
            == pre.next_unallocated_region_header_address
        &&& ((forall|i: int| 0 <= i < pre.apps.len() ==> !pre.spec_waiting(i)) ==> r.0 is Ok
            && r.1 is None && out1 == out0 && post == pre)
        &&& ((pre.next_unallocated_region_header_address is Some && (exists|i: int|
            0 <= i < pre.apps.len() && #[trigger] pre.spec_waiting(i))) ==> (exists|i: int|
            {
                &&& 0 <= i < pre.apps.len()
                &&& #[trigger] pre.spec_waiting(i)
                &&& (forall|j: int| 0 <= j < i ==> !pre.spec_waiting(j))
                &&& (pre.spec_alloc_issue_ok(i, pre.next_unallocated_region_header_address->Some_0 as int) ==> {
                    &&& NonvolatileStorage::spec_alloc_issued(pre, i, pre.next_unallocated_region_header_address->Some_0 as int, r, post)
                    &&& out1 == out0
                })
                &&& (r.0 is Err ==> r.1 is None && (exists|e: ErrorCode|
                    r.0 == Err::<(), ErrorCode>(e) && out1 == out0.push(
                        Upcall::InitDone { app: i as usize, status: Some(e) },
                    )))
            }))
    })
}

impl NonvolatileStorage {
    /// Continues the protocol after a header write completes: follows a
    /// fresh magic marker with the first sentinel, records a completed
    /// allocation (assigning the region, advancing the frontier and zeroing
    /// the new sentinel), or, after a sentinel write, serves the next
    /// waiting application.
    #[verifier::rlimit(60)]
    #[verifier::spinoff_prover]
    pub fn header_write_done(&mut self, action: HeaderWriteAction, out: &mut Vec<Upcall>) -> (r: (
        Result<(), ErrorCode>,
        Option<PhysRequest>,
    ))
        requires
            old(self).wf(),
            old(self).current_user is None,
            old(self).header_buffer is Some,
            action matches HeaderWriteAction::WritingRegionHeader(a, reg) ==> a < old(
                self,
            ).apps.len() && reg.offset + reg.length <= old(self).user_end() && old(
                self,
            ).apps[a as int].app.region is None,
        ensures
            final(self).wf(),
            spec_header_write_outcome(
                *old(self),
                action,
                r,
                *final(self),
                old(out)@,
                final(out)@,
            ),
    {
        match action {
            HeaderWriteAction::WritingMagicHeader => {
                if self.userspace_length < MAGIC_HEADER_LEN {
                    return (Err(ErrorCode::OutOfBounds), None);
                }
                let first_header_address = self.userspace_start_address + MAGIC_HEADER_LEN;
                self.zero_out_region_header(first_header_address, false)
            },
            HeaderWriteAction::WritingRegionHeader(app_index, region) => {
                self.apps[app_index].app.region = Some(region);
                let next_header_addr = match self.next_unallocated_region_header_address {
                    Some(addr) => addr,
                    None => {
                        return (Err(ErrorCode::Fail), None);
                    },
                };
                if next_header_addr > usize::MAX - REGION_HEADER_LEN || self.app_region_size
                    > usize::MAX - REGION_HEADER_LEN - next_header_addr {
                    return (Err(ErrorCode::OutOfBounds), None);
                }
                let next_header_address = next_header_addr + REGION_HEADER_LEN
                    + self.app_region_size;
                self.next_unallocated_region_header_address = Some(next_header_address);
                match self.zero_out_region_header(next_header_address, true) {
                    (Ok(()), req) => {
                        out.push(Upcall::InitDone { app: app_index, status: None });
                        (Ok(()), req)
                    },
                    (Err(e), _) => (Err(e), None),
                }
            },
            HeaderWriteAction::ZeroingRegionHeader(check_for_requests) => {
                if check_for_requests {
                    match self.find_app_to_allocate_region() {
                        Some(i) => self.allocate_app_region(i, out),
                        None => (Ok(()), None),
                    }
                } else {
                    (Ok(()), None)
                }
            },
        }
    }
}


impl NonvolatileStorage {
    /// Dispatches a read completion from the physical transport, which
    /// returns the loaned buffer and the transferred byte count: routes it
    /// to the kernel client, the header protocol, or the owning
    /// application (copying the bytes into its shared read buffer), then
    /// starts the next queued request if the channel is free again.
    pub fn read_done(&mut self, buffer: Vec<u8>, length: usize) -> (r: (
        Option<PhysRequest>,
        Vec<Upcall>,
    ))
        requires
            old(self).wf(),
            length <= buffer@.len(),
            (old(self).current_user matches Some(NonvolatileUser::HeaderManager(_))) ==> buffer@.len()
                == HEADER_BUF_LEN,
        ensures
            final(self).wf(),
            final(self).apps@.len() == old(self).apps@.len(),
            forall|i: int|
                0 <= i < old(self).apps@.len() && (#[trigger] old(
                    self,
                ).apps[i]).app.region is Some ==> final(self).apps[i].app.region == old(
                    self,
                ).apps[i].app.region,
            old(self).current_user is None ==> r.1@ =~= Seq::<Upcall>::empty() && spec_drained(
                *old(self),
                r.0,
                *final(self),
            ),
            old(self).current_user == Some(NonvolatileUser::Kernel) ==> r.1@ =~= seq![
                Upcall::KernelReadDone { buffer: buffer, length: length },
            ] && spec_drained(
                (NonvolatileStorage { current_user: None, ..*old(self) }),
                r.0,
                *final(self),
            ),
            forall|app: usize| old(self).current_user == Some(NonvolatileUser::App { app }) ==> {
                let read_len = spec_min(
                    old(self).apps[app as int].read_allow@.len() as int,
                    length as int,
                );
                &&& r.1@ =~= seq![Upcall::ReadDone { app: app, length: length }]
                &&& (exists|mid: NonvolatileStorage|
                    {
                        &&& (#[trigger] mid.apps@) == old(self).apps@.update(
                            app as int,
                            (AppSlot {
                                read_allow: mid.apps@[app as int].read_allow,
                                ..old(self).apps@[app as int]
                            }),
                        )
                        &&& mid.apps@[app as int].read_allow@.len() == old(
                            self,
                        ).apps[app as int].read_allow@.len()
                        &&& (forall|m: int|
                            0 <= m < read_len ==> mid.apps@[app as int].read_allow@[m]
                                == buffer@[m])
                        &&& (forall|m: int|
                            read_len <= m < mid.apps@[app as int].read_allow@.len()
                                ==> mid.apps@[app as int].read_allow@[m] == old(
                                self,
                            ).apps[app as int].read_allow@[m])
                        &&& mid == (NonvolatileStorage {
                            apps: mid.apps,
                            buffer: Some(buffer),
                            current_user: None,
                            ..*old(self)
                        })
                        &&& spec_drained(mid, r.0, *final(self))
                    })
            },
            (old(self).current_user matches Some(
                NonvolatileUser::HeaderManager(HeaderState::Read(_)),
            )) ==> (exists|
                    res: Result<(), ErrorCode>,
                    hreq: Option<PhysRequest>,
                    hmid: NonvolatileStorage,
                    hpre: NonvolatileStorage,
                |
                    {
                        &&& hpre == (NonvolatileStorage {
                            current_user: None,
                            header_buffer: Some(buffer),
                            ..*old(self)
                        })
                        &&& #[trigger] spec_header_read_outcome(
                            hpre,
                            old(self).current_user->Some_0->HeaderManager_0->Read_0,
                            (res, hreq),
                            hmid,
                            Seq::<Upcall>::empty(),
                            r.1@,
                        )
                        &&& (hreq is Some ==> r.0 == hreq && *final(self) == hmid)
                        &&& (hreq is None && hmid.current_user is None ==> spec_drained(
                            hmid,
                            r.0,
                            *final(self),
                        ))
                    }),
            (old(self).current_user matches Some(
                NonvolatileUser::HeaderManager(HeaderState::Write(_)),
            )) ==> r.1@ =~= Seq::<Upcall>::empty() && spec_drained(
                    (NonvolatileStorage {
                        current_user: None,
                        header_buffer: Some(buffer),
                        ..*old(self)
                    }),
                    r.0,
                    *final(self),
                ),
    {
        let mut out: Vec<Upcall> = Vec::new();
        let user = self.current_user.take();
        match user {
            None => {},
            Some(NonvolatileUser::Kernel) => {
                out.push(Upcall::KernelReadDone { buffer, length });
                let req = self.check_queue();
                return (req, out);
            },
            Some(NonvolatileUser::HeaderManager(state)) => {
                self.header_buffer = Some(buffer);
                let ghost hpre = *self;
                proof {
                    assert(hpre == (NonvolatileStorage {
                        current_user: None,
                        header_buffer: Some(buffer),
                        ..*old(self)
                    }));
                }
                match state {
                    HeaderState::Read(action) => {
                        let (res, req) = self.header_read_done(action, &mut out);
                        let ghost hmid = *self;
                        if req.is_some() {
                            let result: (Option<PhysRequest>, Vec<Upcall>) = (req, out);
                            proof {
                                assert(spec_header_read_outcome(
                                    hpre,
                                    action,
                                    (res, result.0),
                                    hmid,
                                    Seq::<Upcall>::empty(),
                                    result.1@,
                                ));
                            }
                            return result;
                        }
                        let next = if self.current_user.is_none() {
                            self.check_queue()
                        } else {
                            None
                        };
                        let result: (Option<PhysRequest>, Vec<Upcall>) = (next, out);
                        proof {
                            assert(spec_header_read_outcome(
                                hpre,
                                action,
                                (res, req),
                                hmid,
                                Seq::<Upcall>::empty(),
                                result.1@,
                            ));
                        }
                        return result;
                    },
                    HeaderState::Write(_) => {
                        // a read completed while a write was recorded: an
                        // internal inconsistency; the channel is freed and
                        // the queue drained
                    },
                }
            },
            Some(NonvolatileUser::App { app }) => {
                let allow_len = self.apps[app].read_allow.len();
                let read_len = min_usize(allow_len, length);
                let ghost allow0 = self.apps@[app as int].read_allow@;
                let mut new_allow: Vec<u8> = Vec::new();
                let mut m: usize = 0;
                while m < allow_len
                    invariant
                        m <= allow_len,
                        app < self.apps.len(),
                        read_len <= buffer@.len(),
                        read_len <= allow_len,
                        allow_len == allow0.len(),
                        allow0 == self.apps@[app as int].read_allow@,
                        new_allow@.len() == m,
                        forall|k: int| 0 <= k < m && k < read_len ==> new_allow@[k] == buffer@[k],
                        forall|k: int|
                            read_len <= k < m ==> new_allow@[k] == allow0[k],
                        *self == (NonvolatileStorage {
                            apps: self.apps,
                            current_user: None,
                            ..*old(self)
                        }),
                        self.apps@ == old(self).apps@,
                    decreases allow_len - m,
                {
                    let v: u8 = if m < read_len {
                        buffer[m]
                    } else {
                        self.apps[app].read_allow[m]
                    };
                    new_allow.push(v);
                    m = m + 1;
                }
                self.apps[app].read_allow = new_allow;
                proof {
                    assert(self.apps@ =~~= old(self).apps@.update(
                        app as int,
                        (AppSlot {
                            read_allow: self.apps@[app as int].read_allow,
                            ..old(self).apps@[app as int]
                        }),
                    ));
                }
                self.buffer = Some(buffer);
                out.push(Upcall::ReadDone { app, length });
            },
        }
        if self.current_user.is_none() {
            let req = self.check_queue();
            (req, out)
        } else {
            (None, out)
        }
    }
}


impl NonvolatileStorage {
    /// Dispatches a write completion from the physical transport, which
    /// returns the loaned buffer and the transferred byte count: routes it
    /// to the kernel client, the header protocol (reporting a failed
    /// allocation to the requesting application), or the owning
    /// application, then starts the next queued request if the channel is
    /// free again.
    pub fn write_done(&mut self, buffer: Vec<u8>, length: usize) -> (r: (
        Option<PhysRequest>,
        Vec<Upcall>,
    ))
        requires
            old(self).wf(),
            length <= buffer@.len(),
            (old(self).current_user matches Some(NonvolatileUser::HeaderManager(_))) ==> buffer@.len()
                == HEADER_BUF_LEN,
        ensures
            final(self).wf(),
            final(self).apps@.len() == old(self).apps@.len(),
            forall|i: int|
                0 <= i < old(self).apps@.len() && (#[trigger] old(
                    self,
                ).apps[i]).app.region is Some ==> final(self).apps[i].app.region == old(
                    self,
                ).apps[i].app.region,
            old(self).current_user is None ==> r.1@ =~= Seq::<Upcall>::empty() && spec_drained(
                *old(self),
                r.0,
                *final(self),
            ),
            old(self).current_user == Some(NonvolatileUser::Kernel) ==> r.1@ =~= seq![
                Upcall::KernelWriteDone { buffer: buffer, length: length },
            ] && spec_drained(
                (NonvolatileStorage { current_user: None, ..*old(self) }),
                r.0,
                *final(self),
            ),
            forall|app: usize|
                old(self).current_user == Some(NonvolatileUser::App { app }) ==> r.1@ =~= seq![
                    Upcall::WriteDone { app: app, length: length },
                ] && spec_drained(
                    (NonvolatileStorage {
                        current_user: None,
                        buffer: Some(buffer),
                        ..*old(self)
                    }),
                    r.0,
                    *final(self),
                ),
            forall|a: usize, reg: AppRegion|
                old(self).current_user == Some(
                    NonvolatileUser::HeaderManager(
                        HeaderState::Write(HeaderWriteAction::WritingRegionHeader(a, reg)),
                    ),
                ) ==> final(self).apps[a as int].app.region == Some(reg),
            (old(self).current_user matches Some(
                NonvolatileUser::HeaderManager(HeaderState::Write(_)),
            )) ==> (exists|
                    res: Result<(), ErrorCode>,
                    hreq: Option<PhysRequest>,
                    hmid: NonvolatileStorage,
                    hpre: NonvolatileStorage,
                    outmid: Seq<Upcall>,
                |
                    {
                        &&& hpre == (NonvolatileStorage {
                            current_user: None,
                            header_buffer: Some(buffer),
                            ..*old(self)
                        })
                        &&& #[trigger] spec_header_write_outcome(
                            hpre,
                            old(self).current_user->Some_0->HeaderManager_0->Write_0,
                            (res, hreq),
                            hmid,
                            Seq::<Upcall>::empty(),
                            outmid,
                        )
                        &&& (res is Ok ==> r.1@ == outmid)
                        &&& (res is Err ==> (exists|e: ErrorCode|
                            {
                                &&& res == Err::<(), ErrorCode>(e)
                                &&& ((old(self).current_user->Some_0->HeaderManager_0->Write_0) matches HeaderWriteAction::WritingRegionHeader(
                                    a,
                                    _,
                                ) ==> r.1@ == outmid.push(
                                    Upcall::InitDone { app: a, status: Some(e) },
                                ))
                                &&& (!((old(self).current_user->Some_0->HeaderManager_0->Write_0) matches HeaderWriteAction::WritingRegionHeader(
                                    _,
                                    _,
                                )) ==> r.1@ == outmid)
                            }))
                        &&& (hreq is Some ==> r.0 == hreq && *final(self) == hmid)
                        &&& (hreq is None && hmid.current_user is None ==> spec_drained(
                            hmid,
                            r.0,
                            *final(self),
                        ))
                    }),
            (old(self).current_user matches Some(
                NonvolatileUser::HeaderManager(HeaderState::Read(_)),
            )) ==> r.1@ =~= Seq::<Upcall>::empty() && spec_drained(
                (NonvolatileStorage {
                    current_user: None,
                    header_buffer: Some(buffer),
                    ..*old(self)
                }),
                r.0,
                *final(self),
            ),
    {
        let mut out: Vec<Upcall> = Vec::new();
        let user = self.current_user.take();
        match user {
            None => {},
            Some(NonvolatileUser::Kernel) => {
                out.push(Upcall::KernelWriteDone { buffer, length });
                let req = self.check_queue();
                return (req, out);
            },
            Some(NonvolatileUser::HeaderManager(state)) => {
                self.header_buffer = Some(buffer);
                let ghost hpre = *self;
                proof {
                    assert(hpre == (NonvolatileStorage {
                        current_user: None,
                        header_buffer: Some(buffer),
                        ..*old(self)
                    }));
                }
                match state {
                    HeaderState::Write(action) => {
                        let (res, req) = self.header_write_done(action, &mut out);
                        let ghost hmid = *self;
                        let ghost outmid = out@;
                        if let Err(e) = res {
                            // report a failed allocation to the application
                            // that asked for it
                            if let HeaderWriteAction::WritingRegionHeader(app_index, _) = action {
                                out.push(
                                    Upcall::InitDone { app: app_index, status: Some(e) },
                                );
                            }
                        }
                        let ghost resg = res;
                        if req.is_some() {
                            let result: (Option<PhysRequest>, Vec<Upcall>) = (req, out);
                            proof {
                                assert(spec_header_write_outcome(
                                    hpre,
                                    action,
                                    (resg, result.0),
                                    hmid,
                                    Seq::<Upcall>::empty(),
                                    outmid,
                                ));
                            }
                            return result;
                        }
                        let next = if self.current_user.is_none() {
                            self.check_queue()
                        } else {
                            None
                        };
                        let result: (Option<PhysRequest>, Vec<Upcall>) = (next, out);
                        proof {
                            assert(spec_header_write_outcome(
                                hpre,
                                action,
                                (resg, None::<PhysRequest>),
                                hmid,
                                Seq::<Upcall>::empty(),
                                outmid,
                            ));
                        }
                        return result;
                    },
                    HeaderState::Read(_) => {
                        // a write completed while a read was recorded: an
                        // internal inconsistency; the channel is freed and
                        // the queue drained
                    },
                }
            },
            Some(NonvolatileUser::App { app }) => {
                self.buffer = Some(buffer);
                out.push(Upcall::WriteDone { app, length });
            },
        }
        if self.current_user.is_none() {
            let req = self.check_queue();
            (req, out)
        } else {
            (None, out)
        }
    }
}


impl NonvolatileStorage {
    /// Starts the traversal of region headers at the first header, directly
    /// after the magic marker.
    fn start_region_traversal(&mut self) -> (r: (Result<(), ErrorCode>, Option<PhysRequest>))
        requires
            old(self).wf(),
        ensures
            final(self).wf(),
            r.0 is Err ==> r.1 is None && *final(self) == *old(self),
            MAGIC_HEADER_LEN > old(self).userspace_length ==> r.0 == Err::<(), ErrorCode>(
                ErrorCode::OutOfBounds,
            ),
            MAGIC_HEADER_LEN <= old(self).userspace_length && !old(self).spec_header_access_ok(
                old(self).userspace_start_address + MAGIC_HEADER_LEN,
                REGION_HEADER_LEN as int,
            ) ==> r.0 == Err::<(), ErrorCode>(ErrorCode::OutOfBounds),
            MAGIC_HEADER_LEN <= old(self).userspace_length && old(self).spec_header_access_ok(
                old(self).userspace_start_address + MAGIC_HEADER_LEN,
                REGION_HEADER_LEN as int,
            ) && old(self).current_user is Some ==> r.0 == Err::<(), ErrorCode>(ErrorCode::Busy),
            MAGIC_HEADER_LEN <= old(self).userspace_length && old(self).spec_header_access_ok(
                old(self).userspace_start_address + MAGIC_HEADER_LEN,
                REGION_HEADER_LEN as int,
            ) && old(self).current_user is None ==> {
                &&& r.0 is Ok
                &&& r.1 matches Some(req)
                &&& r.1->Some_0.op == PhysOp::Read
                &&& r.1->Some_0.addr == old(self).userspace_start_address + MAGIC_HEADER_LEN
                &&& r.1->Some_0.length == REGION_HEADER_LEN
                &&& *final(self) == (NonvolatileStorage {
                    header_buffer: None,
                    current_user: Some(
                        NonvolatileUser::HeaderManager(
                            HeaderState::Read(
                                HeaderReadAction::ReadingRegionHeader(
                                    (old(self).userspace_start_address
                                        + MAGIC_HEADER_LEN) as usize,
                                ),
                            ),
                        ),
                    ),
                    ..*old(self)
                })
            },
    {
        if self.userspace_length < MAGIC_HEADER_LEN {
            return (Err(ErrorCode::OutOfBounds), None);
        }
        let first_header_address = self.userspace_start_address + MAGIC_HEADER_LEN;
        self.read_region_header(first_header_address)
    }

    /// Handles an application's initialization request: records that the
    /// application wants a region, then walks the header chain to discover
    /// or allocate one. Completion arrives through an
    /// initialization-complete notification.
    fn init_app(&mut self, app_index: usize) -> (r: (Result<(), ErrorCode>, Option<PhysRequest>))
        requires
            old(self).wf(),
        ensures
            final(self).wf(),
            app_index >= old(self).apps.len() ==> r.0 == Err::<(), ErrorCode>(ErrorCode::Fail)
                && r.1 is None && *final(self) == *old(self),
            app_index < old(self).apps.len() ==> {
                &&& final(self).apps@ == old(self).apps@.update(
                    app_index as int,
                    (AppSlot {
                        app: App {
                            has_requested_region: true,
                            ..old(self).apps[app_index as int].app
                        },
                        ..old(self).apps@[app_index as int]
                    }),
                )
                &&& (MAGIC_HEADER_LEN <= old(self).userspace_length && old(
                    self,
                ).spec_header_access_ok(
                    old(self).userspace_start_address + MAGIC_HEADER_LEN,
                    REGION_HEADER_LEN as int,
                ) && old(self).current_user is None ==> {
                    &&& r.0 is Ok
                    &&& r.1 matches Some(req)
                    &&& r.1->Some_0.op == PhysOp::Read
                    &&& r.1->Some_0.addr == old(self).userspace_start_address + MAGIC_HEADER_LEN
                    &&& r.1->Some_0.length == REGION_HEADER_LEN
                    &&& final(self).current_user == Some(
                        NonvolatileUser::HeaderManager(
                            HeaderState::Read(
                                HeaderReadAction::ReadingRegionHeader(
                                    (old(self).userspace_start_address
                                        + MAGIC_HEADER_LEN) as usize,
                                ),
                            ),
                        ),
                    )
                    &&& final(self).header_buffer is None
                })
                &&& (MAGIC_HEADER_LEN <= old(self).userspace_length && old(
                    self,
                ).spec_header_access_ok(
                    old(self).userspace_start_address + MAGIC_HEADER_LEN,
                    REGION_HEADER_LEN as int,
                ) && old(self).current_user is Some ==> r.0 == Err::<(), ErrorCode>(
                    ErrorCode::Busy,
                ) && r.1 is None)
                &&& (r.0 is Err ==> r.1 is None && *final(self) == (NonvolatileStorage {
                    apps: final(self).apps,
                    ..*old(self)
                }))
            },
    {
        if app_index >= self.apps.len() {
            return (Err(ErrorCode::Fail), None);
        }
        self.apps[app_index].app.has_requested_region = true;
        proof {
            assert(self.apps@ =~~= old(self).apps@.update(
                app_index as int,
                (AppSlot {
                    app: App {
                        has_requested_region: true,
                        ..old(self).apps[app_index as int].app
                    },
                    ..old(self).apps@[app_index as int]
                }),
            ));
        }
        self.start_region_traversal()
    }

    /// Driver-level initialization: starts the read that checks the magic
    /// marker; a missing marker is repaired from the read's completion.
    pub fn init(&mut self) -> (r: (Result<(), ErrorCode>, Option<PhysRequest>))
        requires
            old(self).wf(),
        ensures
            final(self).wf(),
            r.0 is Err ==> r.1 is None && *final(self) == *old(self),
            !old(self).spec_header_access_ok(
                old(self).userspace_start_address as int,
                MAGIC_HEADER_LEN as int,
            ) ==> r.0 == Err::<(), ErrorCode>(ErrorCode::OutOfBounds),
            old(self).spec_header_access_ok(
                old(self).userspace_start_address as int,
                MAGIC_HEADER_LEN as int,
            ) && old(self).current_user is Some ==> r.0 == Err::<(), ErrorCode>(ErrorCode::Busy),
            old(self).spec_header_access_ok(
                old(self).userspace_start_address as int,
                MAGIC_HEADER_LEN as int,
            ) && old(self).current_user is None ==> {
                &&& r.0 is Ok
                &&& r.1 matches Some(req)
                &&& r.1->Some_0.op == PhysOp::Read
                &&& r.1->Some_0.addr == old(self).userspace_start_address
                &&& r.1->Some_0.length == MAGIC_HEADER_LEN
                &&& *final(self) == (NonvolatileStorage {
                    header_buffer: None,
                    current_user: Some(
                        NonvolatileUser::HeaderManager(
                            HeaderState::Read(HeaderReadAction::ReadingMagicHeader),
                        ),
                    ),
                    ..*old(self)
                })
            },
    {
        self.check_magic_header()
    }

    /// The numbered command interface: presence probe, region-size query,
    /// read, write, and region initialization.
    pub fn command(&mut self, command_num: usize, offset: usize, length: usize, app_index: usize)
        -> (r: (CommandResult, Option<PhysRequest>))
        requires
            old(self).wf(),
        ensures
            final(self).wf(),
            command_num == 0 ==> r.0 == CommandResult::Success && r.1 is None && *final(self)
                == *old(self),
            command_num == 1 ==> r.1 is None && *final(self) == *old(self) && (if app_index >= old(
                self,
            ).apps.len() {
                r.0 == CommandResult::Failure(ErrorCode::Fail)
            } else {
                match old(self).apps[app_index as int].app.region {
                    None => r.0 == CommandResult::Failure(ErrorCode::NotReady),
                    Some(region) => r.0 == CommandResult::SuccessU32(region.length as u32),
                }
            }),
            command_num == 2 ==> (exists|res: Result<(), ErrorCode>|
                {
                    &&& spec_userspace_request(
                        *old(self),
                        NonvolatileCommand::UserspaceRead,
                        offset,
                        length,
                        app_index,
                        res,
                        r.1,
                        *final(self),
                    )
                    &&& r.0 == (match res {
                        Ok(()) => CommandResult::Success,
                        Err(e) => CommandResult::Failure(e),
                    })
                }),
            command_num == 3 ==> (exists|res: Result<(), ErrorCode>|
                {
                    &&& spec_userspace_request(
                        *old(self),
                        NonvolatileCommand::UserspaceWrite,
                        offset,
                        length,
                        app_index,
                        res,
                        r.1,
                        *final(self),
                    )
                    &&& r.0 == (match res {
                        Ok(()) => CommandResult::Success,
                        Err(e) => CommandResult::Failure(e),
                    })
                }),
            command_num == 4 && app_index >= old(self).apps.len() ==> r.0
                == CommandResult::Failure(ErrorCode::Fail) && r.1 is None && *final(self) == *old(
                self,
            ),
            command_num == 4 && app_index < old(self).apps.len() ==> {
                &&& final(self).apps@ == old(self).apps@.update(
                    app_index as int,
                    (AppSlot {
                        app: App {
                            has_requested_region: true,
                            ..old(self).apps[app_index as int].app
                        },
                        ..old(self).apps@[app_index as int]
                    }),
                )
                &&& (MAGIC_HEADER_LEN <= old(self).userspace_length && old(
                    self,
                ).spec_header_access_ok(
                    old(self).userspace_start_address + MAGIC_HEADER_LEN,
                    REGION_HEADER_LEN as int,
                ) && old(self).current_user is None ==> r.0 == CommandResult::Success && (
                r.1 matches Some(req)) && r.1->Some_0.op == PhysOp::Read && r.1->Some_0.addr == old(
                    self,
                ).userspace_start_address + MAGIC_HEADER_LEN && r.1->Some_0.length
                    == REGION_HEADER_LEN)
            },
            command_num > 4 ==> r.0 == CommandResult::Failure(ErrorCode::Unsupported) && r.1
                is None && *final(self) == *old(self),
    {
        match command_num {
            0 => (CommandResult::Success, None),
            1 => {
                if app_index >= self.apps.len() {
                    return (CommandResult::Failure(ErrorCode::Fail), None);
                }
                match self.apps[app_index].app.region {
                    Some(region) => {
                        (
                            CommandResult::SuccessU32(#[verifier::truncate] (region.length as u32)),
                            None,
                        )
                    },
                    None => (CommandResult::Failure(ErrorCode::NotReady), None),
                }
            },
            2 => {
                let (res, req) = self.enqueue_userspace(
                    NonvolatileCommand::UserspaceRead,
                    offset,
                    length,
                    app_index,
                );
                match res {
                    Ok(()) => (CommandResult::Success, req),
                    Err(e) => (CommandResult::Failure(e), req),
                }
            },
            3 => {
                let (res, req) = self.enqueue_userspace(
                    NonvolatileCommand::UserspaceWrite,
                    offset,
                    length,
                    app_index,
                );
                match res {
                    Ok(()) => (CommandResult::Success, req),
                    Err(e) => (CommandResult::Failure(e), req),
                }
            },
            4 => {
                let (res, req) = self.init_app(app_index);
                match res {
                    Ok(()) => (CommandResult::Success, req),
                    Err(e) => (CommandResult::Failure(e), req),
                }
            },
            _ => (CommandResult::Failure(ErrorCode::Unsupported), None),
        }
    }

    /// Shares an application's read buffer with the driver, returning the
    /// previous one.
    pub fn allow_readwrite(&mut self, app_index: usize, buffer: Vec<u8>) -> (r: Result<
        Vec<u8>,
        ErrorCode,
    >)
        requires
            old(self).wf(),
        ensures
            final(self).wf(),
            app_index >= old(self).apps.len() ==> r == Err::<Vec<u8>, ErrorCode>(ErrorCode::Fail)
                && *final(self) == *old(self),
            app_index < old(self).apps.len() ==> {
                &&& r == Ok::<Vec<u8>, ErrorCode>(old(self).apps[app_index as int].read_allow)
                &&& final(self).apps@ == old(self).apps@.update(
                    app_index as int,
                    (AppSlot { read_allow: buffer, ..old(self).apps@[app_index as int] }),
                )
                &&& *final(self) == (NonvolatileStorage { apps: final(self).apps, ..*old(self) })
            },
    {
        if app_index >= self.apps.len() {
            return Err(ErrorCode::Fail);
        }
        let mut buffer = buffer;
        core::mem::swap(&mut self.apps[app_index].read_allow, &mut buffer);
        proof {
            assert(self.apps@ =~~= old(self).apps@.update(
                app_index as int,
                (AppSlot {
                    read_allow: self.apps@[app_index as int].read_allow,
                    ..old(self).apps@[app_index as int]
                }),
            ));
        }
        Ok(buffer)
    }

    /// Shares an application's write buffer with the driver, returning the
    /// previous one.
    pub fn allow_readonly(&mut self, app_index: usize, buffer: Vec<u8>) -> (r: Result<
        Vec<u8>,
        ErrorCode,
    >)
        requires
            old(self).wf(),
        ensures
            final(self).wf(),
            app_index >= old(self).apps.len() ==> r == Err::<Vec<u8>, ErrorCode>(ErrorCode::Fail)
                && *final(self) == *old(self),
            app_index < old(self).apps.len() ==> {
                &&& r == Ok::<Vec<u8>, ErrorCode>(old(self).apps[app_index as int].write_allow)
                &&& final(self).apps@ == old(self).apps@.update(
                    app_index as int,
                    (AppSlot { write_allow: buffer, ..old(self).apps@[app_index as int] }),
                )
                &&& *final(self) == (NonvolatileStorage { apps: final(self).apps, ..*old(self) })
            },
    {
        if app_index >= self.apps.len() {
            return Err(ErrorCode::Fail);
        }
        let mut buffer = buffer;
        core::mem::swap(&mut self.apps[app_index].write_allow, &mut buffer);
        proof {
            assert(self.apps@ =~~= old(self).apps@.update(
                app_index as int,
                (AppSlot {
                    write_allow: self.apps@[app_index as int].write_allow,
                    ..old(self).apps@[app_index as int]
                }),
            ));
        }
        Ok(buffer)
    }

    /// Confirms that per-application state exists for the given identity.
    pub fn allocate_grant(&self, app_index: usize) -> (r: Result<(), ErrorCode>)
        ensures
            r == (if app_index < self.apps.len() {
                Ok::<(), ErrorCode>(())
            } else {
                Err::<(), ErrorCode>(ErrorCode::Fail)
            }),
    {
        if app_index < self.apps.len() {
            Ok(())
        } else {
            Err(ErrorCode::Fail)
        }
    }
}

} // verus!
