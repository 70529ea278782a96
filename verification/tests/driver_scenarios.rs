//! End-to-end scenarios for the storage driver, run against a simulated
//! nonvolatile medium: cold start, allocation placement, isolation,
//! idempotent discovery, bounds, round trips, contention and queue limits.

use nonvolatile_storage::driver::NonvolatileStorage;
use nonvolatile_storage::types::{
    AppRegion, CommandResult, ErrorCode, PhysOp, PhysRequest, ShortId, Upcall, BUF_LEN,
    HEADER_BUF_LEN,
};

const USER_START: usize = 100;
const USER_LEN: usize = 200;
const KERNEL_START: usize = 0;
const KERNEL_LEN: usize = 100;
const REGION_SIZE: usize = 32;

fn new_driver(app_ids: Vec<ShortId>) -> NonvolatileStorage {
    NonvolatileStorage::new(
        USER_START,
        USER_LEN,
        KERNEL_START,
        KERNEL_LEN,
        REGION_SIZE,
        vec![0u8; BUF_LEN],
        vec![0u8; HEADER_BUF_LEN],
        app_ids,
    )
}

fn new_medium() -> Vec<u8> {
    vec![0u8; USER_START + USER_LEN]
}

/// Applies one physical operation to the medium and hands the buffer back,
/// as the transport would.
fn perform(medium: &mut Vec<u8>, req: PhysRequest) -> (PhysOp, Vec<u8>, usize) {
    let PhysRequest {
        op,
        addr,
        length,
        mut buffer,
    } = req;
    match op {
        PhysOp::Read => {
            for k in 0..length {
                buffer[k] = medium[addr + k];
            }
        }
        PhysOp::Write => {
            for k in 0..length {
                medium[addr + k] = buffer[k];
            }
        }
    }
    (op, buffer, length)
}

/// Runs the callback loop until the driver stops issuing physical
/// operations, collecting every notification.
fn pump(
    drv: &mut NonvolatileStorage,
    medium: &mut Vec<u8>,
    mut req: Option<PhysRequest>,
    upcalls: &mut Vec<Upcall>,
) {
    while let Some(r) = req {
        let (op, buffer, length) = perform(medium, r);
        let (next, mut ups) = match op {
            PhysOp::Read => drv.read_done(buffer, length),
            PhysOp::Write => drv.write_done(buffer, length),
        };
        upcalls.append(&mut ups);
        req = next;
    }
}

fn le32(medium: &[u8], addr: usize) -> u32 {
    (medium[addr] as u32)
        | (medium[addr + 1] as u32) << 8
        | (medium[addr + 2] as u32) << 16
        | (medium[addr + 3] as u32) << 24
}

fn le64(medium: &[u8], addr: usize) -> u64 {
    let mut v: u64 = 0;
    for k in 0..8 {
        v |= (medium[addr + k] as u64) << (8 * k);
    }
    v
}

/// Cold start and initialization of one application's region.
fn cold_start_and_init(drv: &mut NonvolatileStorage, medium: &mut Vec<u8>) -> Vec<Upcall> {
    let mut upcalls = Vec::new();
    let (res, req) = drv.init();
    assert!(res.is_ok());
    pump(drv, medium, req, &mut upcalls);
    upcalls
}

fn init_app(drv: &mut NonvolatileStorage, medium: &mut Vec<u8>, app: usize) -> Vec<Upcall> {
    let mut upcalls = Vec::new();
    let (res, req) = drv.command(4, 0, 0, app);
    assert_eq!(res, CommandResult::Success);
    pump(drv, medium, req, &mut upcalls);
    upcalls
}

#[test]
fn cold_start_writes_magic_and_sentinel() {
    let mut drv = new_driver(vec![ShortId::Fixed(7)]);
    let mut medium = new_medium();
    let upcalls = cold_start_and_init(&mut drv, &mut medium);
    // the magic marker was absent, so the mismatch was detected and repaired
    assert_eq!(le32(&medium, USER_START), 0x2FA7B3);
    // the first header, right after the marker, is now the sentinel
    assert_eq!(le32(&medium, USER_START + 4), 0);
    assert_eq!(le64(&medium, USER_START + 8), 0);
    // nothing was assigned and nobody was notified
    assert!(upcalls.is_empty());
    assert!(drv.apps[0].app.region.is_none());
}

#[test]
fn warm_start_leaves_magic_alone() {
    let mut drv = new_driver(vec![ShortId::Fixed(7)]);
    let mut medium = new_medium();
    cold_start_and_init(&mut drv, &mut medium);
    let before = medium.clone();
    let upcalls = cold_start_and_init(&mut drv, &mut medium);
    assert!(upcalls.is_empty());
    assert_eq!(medium, before);
}

#[test]
fn first_allocation_sits_after_magic() {
    let mut drv = new_driver(vec![ShortId::Fixed(7)]);
    let mut medium = new_medium();
    cold_start_and_init(&mut drv, &mut medium);
    let upcalls = init_app(&mut drv, &mut medium, 0);
    // the first allocated region's header sits immediately after the marker
    assert_eq!(le32(&medium, USER_START + 4), 7);
    assert_eq!(le64(&medium, USER_START + 4 + 4), REGION_SIZE as u64);
    // the region starts right after its header
    assert_eq!(
        drv.apps[0].app.region,
        Some(AppRegion {
            offset: USER_START + 4 + 12,
            length: REGION_SIZE,
        })
    );
    // the new sentinel stands one header plus one region further
    let new_frontier = USER_START + 4 + 12 + REGION_SIZE;
    assert_eq!(le32(&medium, new_frontier), 0);
    assert_eq!(
        drv.next_unallocated_region_header_address,
        Some(new_frontier)
    );
    assert_eq!(
        upcalls,
        vec![Upcall::InitDone {
            app: 0,
            status: None
        }]
    );
}

#[test]
fn second_allocation_starts_at_previous_frontier() {
    let mut drv = new_driver(vec![ShortId::Fixed(7), ShortId::Fixed(9)]);
    let mut medium = new_medium();
    cold_start_and_init(&mut drv, &mut medium);
    init_app(&mut drv, &mut medium, 0);
    let frontier_before = drv.next_unallocated_region_header_address.unwrap();
    let upcalls = init_app(&mut drv, &mut medium, 1);
    // the new header stands exactly at the previous frontier
    assert_eq!(le32(&medium, frontier_before), 9);
    assert_eq!(
        drv.apps[1].app.region,
        Some(AppRegion {
            offset: frontier_before + 12,
            length: REGION_SIZE,
        })
    );
    // and the frontier advanced by one header plus one region
    assert_eq!(
        drv.next_unallocated_region_header_address,
        Some(frontier_before + 12 + REGION_SIZE)
    );
    assert_eq!(
        upcalls,
        vec![Upcall::InitDone {
            app: 1,
            status: None
        }]
    );
}

#[test]
fn assigned_regions_are_disjoint() {
    let mut drv = new_driver(vec![ShortId::Fixed(7), ShortId::Fixed(9), ShortId::Fixed(11)]);
    let mut medium = new_medium();
    cold_start_and_init(&mut drv, &mut medium);
    for app in 0..3 {
        init_app(&mut drv, &mut medium, app);
    }
    let mut regions: Vec<AppRegion> = Vec::new();
    for app in 0..3 {
        regions.push(drv.apps[app].app.region.unwrap());
    }
    for i in 0..3 {
        for j in 0..3 {
            if i != j {
                let a = regions[i];
                let b = regions[j];
                assert!(
                    a.offset + a.length <= b.offset || b.offset + b.length <= a.offset,
                    "regions of distinct applications overlap"
                );
            }
        }
    }
}

#[test]
fn initialize_twice_writes_no_second_header() {
    let mut drv = new_driver(vec![ShortId::Fixed(7)]);
    let mut medium = new_medium();
    cold_start_and_init(&mut drv, &mut medium);
    init_app(&mut drv, &mut medium, 0);
    let region_first = drv.apps[0].app.region;
    let medium_first = medium.clone();
    let frontier_first = drv.next_unallocated_region_header_address;
    // a second initialization walks the chain, finds the region assigned,
    // and writes nothing
    init_app(&mut drv, &mut medium, 0);
    assert_eq!(medium, medium_first);
    assert_eq!(drv.apps[0].app.region, region_first);
    assert_eq!(drv.next_unallocated_region_header_address, frontier_first);
}

#[test]
fn rediscovery_after_reboot_finds_same_region() {
    let mut drv = new_driver(vec![ShortId::Fixed(7)]);
    let mut medium = new_medium();
    cold_start_and_init(&mut drv, &mut medium);
    init_app(&mut drv, &mut medium, 0);
    let region = drv.apps[0].app.region.unwrap();
    let medium_before = medium.clone();
    // a fresh driver over the same medium stands for a reboot
    let mut drv2 = new_driver(vec![ShortId::Fixed(7)]);
    cold_start_and_init(&mut drv2, &mut medium);
    let upcalls = init_app(&mut drv2, &mut medium, 0);
    assert_eq!(drv2.apps[0].app.region, Some(region));
    assert_eq!(
        upcalls,
        vec![Upcall::InitDone {
            app: 0,
            status: None
        }]
    );
    // discovery reads; it does not write
    assert_eq!(medium, medium_before);
}

#[test]
fn bounds_boundary_exact_end_succeeds() {
    let mut drv = new_driver(vec![ShortId::Fixed(7)]);
    let mut medium = new_medium();
    cold_start_and_init(&mut drv, &mut medium);
    init_app(&mut drv, &mut medium, 0);
    drv.allow_readwrite(0, vec![0u8; REGION_SIZE]).unwrap();
    // offset + length == region.length is accepted
    let (res, req) = drv.command(2, 0, REGION_SIZE, 0);
    assert_eq!(res, CommandResult::Success);
    let mut upcalls = Vec::new();
    pump(&mut drv, &mut medium, req, &mut upcalls);
    assert_eq!(
        upcalls,
        vec![Upcall::ReadDone {
            app: 0,
            length: REGION_SIZE
        }]
    );
}

#[test]
fn bounds_boundary_one_past_end_fails() {
    let mut drv = new_driver(vec![ShortId::Fixed(7)]);
    let mut medium = new_medium();
    cold_start_and_init(&mut drv, &mut medium);
    init_app(&mut drv, &mut medium, 0);
    drv.allow_readwrite(0, vec![0u8; REGION_SIZE + 1]).unwrap();
    // offset + length == region.length + 1 is rejected as out of bounds
    let (res, req) = drv.command(2, 1, REGION_SIZE, 0);
    assert_eq!(res, CommandResult::Failure(ErrorCode::OutOfBounds));
    assert!(req.is_none());
}

#[test]
fn round_trip_returns_written_bytes() {
    let mut drv = new_driver(vec![ShortId::Fixed(7)]);
    let mut medium = new_medium();
    cold_start_and_init(&mut drv, &mut medium);
    init_app(&mut drv, &mut medium, 0);
    let data: Vec<u8> = vec![0xDE, 0xAD, 0xBE, 0xEF, 0x01, 0x02, 0x03, 0x04];
    let offset = 5;
    drv.allow_readonly(0, data.clone()).unwrap();
    let (res, req) = drv.command(3, offset, data.len(), 0);
    assert_eq!(res, CommandResult::Success);
    let mut upcalls = Vec::new();
    pump(&mut drv, &mut medium, req, &mut upcalls);
    assert_eq!(
        upcalls,
        vec![Upcall::WriteDone {
            app: 0,
            length: data.len()
        }]
    );
    // read the same span back
    drv.allow_readwrite(0, vec![0u8; data.len()]).unwrap();
    let (res, req) = drv.command(2, offset, data.len(), 0);
    assert_eq!(res, CommandResult::Success);
    let mut upcalls = Vec::new();
    pump(&mut drv, &mut medium, req, &mut upcalls);
    assert_eq!(
        upcalls,
        vec![Upcall::ReadDone {
            app: 0,
            length: data.len()
        }]
    );
    let read_back = drv.allow_readwrite(0, Vec::new()).unwrap();
    assert_eq!(read_back, data);
}

#[test]
fn contended_request_is_parked_then_dispatched() {
    let mut drv = new_driver(vec![ShortId::Fixed(7), ShortId::Fixed(9)]);
    let mut medium = new_medium();
    cold_start_and_init(&mut drv, &mut medium);
    init_app(&mut drv, &mut medium, 0);
    init_app(&mut drv, &mut medium, 1);
    drv.allow_readonly(1, vec![0x55; 8]).unwrap();
    drv.allow_readwrite(0, vec![0u8; 8]).unwrap();
    // application B's write occupies the channel
    let (res, write_req) = drv.command(3, 0, 8, 1);
    assert_eq!(res, CommandResult::Success);
    let write_req = write_req.unwrap();
    // application A's read is accepted as pending, not started
    let (res, read_req) = drv.command(2, 0, 8, 0);
    assert_eq!(res, CommandResult::Success);
    assert!(read_req.is_none());
    assert!(drv.apps[0].app.pending_command);
    // when B's write completes, A's read is dispatched automatically
    let (op, buffer, length) = perform(&mut medium, write_req);
    assert_eq!(op, PhysOp::Write);
    let (next, upcalls) = drv.write_done(buffer, length);
    assert_eq!(
        upcalls,
        vec![Upcall::WriteDone { app: 1, length: 8 }]
    );
    let next = next.expect("the parked read must start without further action");
    assert_eq!(next.op, PhysOp::Read);
    assert_eq!(
        next.addr,
        drv.apps[0].app.region.unwrap().offset
    );
    let mut upcalls = Vec::new();
    pump(&mut drv, &mut medium, Some(next), &mut upcalls);
    assert_eq!(
        upcalls,
        vec![Upcall::ReadDone { app: 0, length: 8 }]
    );
}

#[test]
fn second_request_while_pending_is_queue_full() {
    let mut drv = new_driver(vec![ShortId::Fixed(7), ShortId::Fixed(9)]);
    let mut medium = new_medium();
    cold_start_and_init(&mut drv, &mut medium);
    init_app(&mut drv, &mut medium, 0);
    init_app(&mut drv, &mut medium, 1);
    drv.allow_readonly(1, vec![0x55; 8]).unwrap();
    drv.allow_readwrite(0, vec![0u8; 8]).unwrap();
    let (_, write_req) = drv.command(3, 0, 8, 1);
    let write_req = write_req.unwrap();
    // first read: parked
    let (res, _) = drv.command(2, 0, 8, 0);
    assert_eq!(res, CommandResult::Success);
    let offset_before = drv.apps[0].app.offset;
    let length_before = drv.apps[0].app.length;
    // second read while the first is still pending: rejected, no state change
    let (res, req) = drv.command(2, 1, 4, 0);
    assert_eq!(res, CommandResult::Failure(ErrorCode::QueueFull));
    assert!(req.is_none());
    assert!(drv.apps[0].app.pending_command);
    assert_eq!(drv.apps[0].app.offset, offset_before);
    assert_eq!(drv.apps[0].app.length, length_before);
    // drain so the medium stays consistent
    let (op, buffer, length) = perform(&mut medium, write_req);
    assert_eq!(op, PhysOp::Write);
    let (next, _) = drv.write_done(buffer, length);
    let mut upcalls = Vec::new();
    pump(&mut drv, &mut medium, next, &mut upcalls);
}

#[test]
fn kernel_request_takes_precedence_over_applications() {
    let mut drv = new_driver(vec![ShortId::Fixed(7)]);
    let mut medium = new_medium();
    cold_start_and_init(&mut drv, &mut medium);
    init_app(&mut drv, &mut medium, 0);
    drv.allow_readwrite(0, vec![0u8; 8]).unwrap();
    // the channel is taken by an application read
    let (res, app_req) = drv.command(2, 0, 8, 0);
    assert_eq!(res, CommandResult::Success);
    let app_req = app_req.unwrap();
    // a kernel read is queued behind it
    let (res, kreq, rejected) = drv.read(vec![0u8; 16], KERNEL_START, 16);
    assert!(res.is_ok());
    assert!(kreq.is_none());
    assert!(rejected.is_none());
    // the application parks one more read behind it
    let (res, parked) = drv.command(2, 1, 4, 0);
    assert_eq!(res, CommandResult::Success);
    assert!(parked.is_none());
    // on completion, the kernel's request is started before the parked one
    let (op, buffer, length) = perform(&mut medium, app_req);
    assert_eq!(op, PhysOp::Read);
    let (next, upcalls) = drv.read_done(buffer, length);
    assert_eq!(
        upcalls,
        vec![Upcall::ReadDone { app: 0, length: 8 }]
    );
    let next = next.unwrap();
    assert_eq!(next.addr, KERNEL_START);
    assert_eq!(next.length, 16);
    let (op, buffer, length) = perform(&mut medium, next);
    assert_eq!(op, PhysOp::Read);
    let (next, upcalls) = drv.read_done(buffer, length);
    assert_eq!(
        upcalls,
        vec![Upcall::KernelReadDone {
            buffer: vec![0u8; 16],
            length: 16
        }]
    );
    // only then is the application's parked read dispatched
    let next = next.unwrap();
    assert_eq!(next.op, PhysOp::Read);
    assert_eq!(next.addr, drv.apps[0].app.region.unwrap().offset + 1);
    let mut upcalls = Vec::new();
    pump(&mut drv, &mut medium, Some(next), &mut upcalls);
    assert_eq!(upcalls, vec![Upcall::ReadDone { app: 0, length: 4 }]);
}

#[test]
fn kernel_write_out_of_span_is_rejected_with_buffer() {
    let mut drv = new_driver(vec![ShortId::Fixed(7)]);
    let buffer = vec![1u8, 2, 3, 4];
    let (res, req, rejected) = drv.write(buffer, KERNEL_START + KERNEL_LEN, 4);
    assert_eq!(res, Err(ErrorCode::OutOfBounds));
    assert!(req.is_none());
    assert_eq!(rejected, Some(vec![1u8, 2, 3, 4]));
}

#[test]
fn locally_unique_identity_cannot_own_storage() {
    let mut drv = new_driver(vec![ShortId::LocallyUnique]);
    let mut medium = new_medium();
    cold_start_and_init(&mut drv, &mut medium);
    let upcalls = init_app(&mut drv, &mut medium, 0);
    assert_eq!(
        upcalls,
        vec![Upcall::InitDone {
            app: 0,
            status: Some(ErrorCode::Unsupported)
        }]
    );
    assert!(drv.apps[0].app.region.is_none());
}

#[test]
fn read_before_init_is_not_ready() {
    let mut drv = new_driver(vec![ShortId::Fixed(7)]);
    drv.allow_readwrite(0, vec![0u8; 8]).unwrap();
    let (res, req) = drv.command(2, 0, 8, 0);
    assert_eq!(res, CommandResult::Failure(ErrorCode::NotReady));
    assert!(req.is_none());
}

#[test]
fn read_without_shared_buffer_is_rejected() {
    let mut drv = new_driver(vec![ShortId::Fixed(7)]);
    let mut medium = new_medium();
    cold_start_and_init(&mut drv, &mut medium);
    init_app(&mut drv, &mut medium, 0);
    let (res, req) = drv.command(2, 0, 8, 0);
    assert_eq!(res, CommandResult::Failure(ErrorCode::BufferUnavailable));
    assert!(req.is_none());
}

#[test]
fn init_while_channel_busy_is_busy() {
    let mut drv = new_driver(vec![ShortId::Fixed(7), ShortId::Fixed(9)]);
    let mut medium = new_medium();
    cold_start_and_init(&mut drv, &mut medium);
    init_app(&mut drv, &mut medium, 0);
    drv.allow_readwrite(0, vec![0u8; 8]).unwrap();
    let (res, app_req) = drv.command(2, 0, 8, 0);
    assert_eq!(res, CommandResult::Success);
    // header management never queues behind a busy channel
    let (res, req) = drv.command(4, 0, 0, 1);
    assert_eq!(res, CommandResult::Failure(ErrorCode::Busy));
    assert!(req.is_none());
    let mut upcalls = Vec::new();
    pump(&mut drv, &mut medium, app_req, &mut upcalls);
}

#[test]
fn unknown_command_is_unsupported() {
    let mut drv = new_driver(vec![ShortId::Fixed(7)]);
    let (res, req) = drv.command(9, 0, 0, 0);
    assert_eq!(res, CommandResult::Failure(ErrorCode::Unsupported));
    assert!(req.is_none());
}

#[test]
fn presence_probe_succeeds() {
    let mut drv = new_driver(vec![ShortId::Fixed(7)]);
    let (res, req) = drv.command(0, 0, 0, 0);
    assert_eq!(res, CommandResult::Success);
    assert!(req.is_none());
}

#[test]
fn query_reports_region_length() {
    let mut drv = new_driver(vec![ShortId::Fixed(7)]);
    let mut medium = new_medium();
    let (res, _) = drv.command(1, 0, 0, 0);
    assert_eq!(res, CommandResult::Failure(ErrorCode::NotReady));
    cold_start_and_init(&mut drv, &mut medium);
    init_app(&mut drv, &mut medium, 0);
    let (res, _) = drv.command(1, 0, 0, 0);
    assert_eq!(res, CommandResult::SuccessU32(REGION_SIZE as u32));
    // an unknown caller fails
    let (res, _) = drv.command(1, 0, 0, 5);
    assert_eq!(res, CommandResult::Failure(ErrorCode::Fail));
}

#[test]
fn allocation_beyond_user_span_fails_out_of_bounds() {
    // a user area too small for even one region
    let mut drv = NonvolatileStorage::new(
        USER_START,
        4 + 12 + 8,
        KERNEL_START,
        KERNEL_LEN,
        REGION_SIZE,
        vec![0u8; BUF_LEN],
        vec![0u8; HEADER_BUF_LEN],
        vec![ShortId::Fixed(7)],
    );
    let mut medium = new_medium();
    cold_start_and_init(&mut drv, &mut medium);
    let upcalls = init_app(&mut drv, &mut medium, 0);
    assert_eq!(
        upcalls,
        vec![Upcall::InitDone {
            app: 0,
            status: Some(ErrorCode::OutOfBounds)
        }]
    );
    assert!(drv.apps[0].app.region.is_none());
}

#[test]
fn kernel_write_then_read_round_trip() {
    let mut drv = new_driver(vec![ShortId::Fixed(7)]);
    let mut medium = new_medium();
    let data = vec![9u8, 8, 7, 6];
    let (res, req, rejected) = drv.write(data.clone(), 10, 4);
    assert!(res.is_ok());
    assert!(rejected.is_none());
    let (op, buffer, length) = perform(&mut medium, req.unwrap());
    assert_eq!(op, PhysOp::Write);
    let (next, upcalls) = drv.write_done(buffer, length);
    assert!(next.is_none());
    assert_eq!(
        upcalls,
        vec![Upcall::KernelWriteDone {
            buffer: data.clone(),
            length: 4
        }]
    );
    assert_eq!(&medium[10..14], &data[..]);
    let (res, req, rejected) = drv.read(vec![0u8; 4], 10, 4);
    assert!(res.is_ok());
    assert!(rejected.is_none());
    let (op, buffer, length) = perform(&mut medium, req.unwrap());
    assert_eq!(op, PhysOp::Read);
    let (next, upcalls) = drv.read_done(buffer, length);
    assert!(next.is_none());
    assert_eq!(
        upcalls,
        vec![Upcall::KernelReadDone {
            buffer: data,
            length: 4
        }]
    );
}

#[test]
fn zero_length_access_at_origin_is_accepted() {
    let mut drv = new_driver(vec![ShortId::Fixed(7)]);
    let mut medium = new_medium();
    cold_start_and_init(&mut drv, &mut medium);
    init_app(&mut drv, &mut medium, 0);
    drv.allow_readwrite(0, vec![0u8; 4]).unwrap();
    let (res, req) = drv.command(2, 0, 0, 0);
    assert_eq!(res, CommandResult::Success);
    let mut upcalls = Vec::new();
    pump(&mut drv, &mut medium, req, &mut upcalls);
    assert_eq!(upcalls, vec![Upcall::ReadDone { app: 0, length: 0 }]);
}
