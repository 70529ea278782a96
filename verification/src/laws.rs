//! Laws of the driver, stated over the same spec functions its contracts
//! use: bounds behavior at the region boundary, idempotence of discovery,
//! placement of fresh allocations, and the alignment of a write with a
//! later read of the same span.

use crate::driver::{spec_userspace_request, spec_userspace_validated, NonvolatileStorage};
use crate::types::{
    AppRegion, ErrorCode, HeaderState, HeaderWriteAction, NonvolatileCommand, NonvolatileUser,
    PhysOp, PhysRequest, REGION_HEADER_LEN,
};
use vstd::prelude::*;

verus! {

/// Bounds boundary: an application access that ends exactly at the region's
/// end is accepted, and any access that would end one byte past it is
/// rejected. The validator reports the rejection as an out-of-bounds error
/// (see `NonvolatileStorage::check_userspace_access`).
pub proof fn lemma_bounds_boundary(region: AppRegion, offset: int, length: int)
    ensures
        0 <= offset < region.length && 0 <= length && offset + length == region.length
            ==> NonvolatileStorage::spec_app_access_ok(region, offset, length),
        offset + length == region.length + 1 && 0 <= offset && 0 <= length
            ==> !NonvolatileStorage::spec_app_access_ok(region, offset, length),
{
}

/// Idempotent discovery: an application that already holds a region is not
/// waiting, so a repeated initialization never selects it for allocation
/// and never writes a second header for it; its region stays exactly as it
/// was (every driver transition keeps assigned regions unchanged).
pub proof fn lemma_idempotent_discovery(s: NonvolatileStorage, i: int, f: int)
    requires
        0 <= i < s.apps.len(),
        s.apps[i].app.region is Some,
    ensures
        !s.spec_waiting(i),
        !s.spec_alloc_issue_ok(i, f),
{
}

/// Allocation placement: a fresh allocation issued while the frontier
/// stands at `f` writes its header exactly at `f`, for a region of the
/// configured size that starts immediately after that header. Together
/// with the frontier rule of `header_write_done` (the new frontier is
/// `f + REGION_HEADER_LEN + app_region_size`), consecutive allocations are
/// laid out back to back.
pub proof fn lemma_allocation_placement(
    pre: NonvolatileStorage,
    i: int,
    f: int,
    r: (Result<(), ErrorCode>, Option<PhysRequest>),
    post: NonvolatileStorage,
)
    requires
        NonvolatileStorage::spec_alloc_issued(pre, i, f, r, post),
    ensures
        r.1 is Some,
        r.1->Some_0.op == PhysOp::Write,
        r.1->Some_0.addr == f,
        post.current_user == Some(
            NonvolatileUser::HeaderManager(
                HeaderState::Write(
                    HeaderWriteAction::WritingRegionHeader(
                        i as usize,
                        AppRegion {
                            offset: (f + REGION_HEADER_LEN) as usize,
                            length: pre.app_region_size,
                        },
                    ),
                ),
            ),
        ),
{
}

/// Round trip, driver side: a write and a later read of the same relative
/// span by the same application, admitted on a free channel against the
/// same region with equally sized shared and transfer buffers, are issued
/// at the same absolute address with the same transfer length, and the
/// write carries the application's bytes unchanged. A transport that hands
/// back what was stored therefore returns exactly the written bytes, which
/// `read_done` copies unchanged into the application's read buffer.
pub proof fn lemma_round_trip_alignment(
    pre_w: NonvolatileStorage,
    pre_r: NonvolatileStorage,
    offset: usize,
    length: usize,
    app: usize,
    res_w: Result<(), ErrorCode>,
    req_w: Option<PhysRequest>,
    post_w: NonvolatileStorage,
    res_r: Result<(), ErrorCode>,
    req_r: Option<PhysRequest>,
    post_r: NonvolatileStorage,
)
    requires
        spec_userspace_request(
            pre_w,
            NonvolatileCommand::UserspaceWrite,
            offset,
            length,
            app,
            res_w,
            req_w,
            post_w,
        ),
        spec_userspace_request(
            pre_r,
            NonvolatileCommand::UserspaceRead,
            offset,
            length,
            app,
            res_r,
            req_r,
            post_r,
        ),
        spec_userspace_validated(pre_w, offset, length, app),
        spec_userspace_validated(pre_r, offset, length, app),
        pre_w.current_user is None,
        pre_r.current_user is None,
        pre_w.apps[app as int].app.region == pre_r.apps[app as int].app.region,
        pre_w.apps[app as int].write_allow@.len() > 0,
        pre_r.apps[app as int].read_allow@.len() == pre_w.apps[app as int].write_allow@.len(),
        pre_w.buffer->Some_0@.len() == pre_r.buffer->Some_0@.len(),
    ensures
        req_w is Some,
        req_r is Some,
        req_w->Some_0.op == PhysOp::Write,
        req_r->Some_0.op == PhysOp::Read,
        req_w->Some_0.addr == req_r->Some_0.addr,
        req_w->Some_0.length == req_r->Some_0.length,
        forall|m: int|
            0 <= m < req_w->Some_0.length ==> req_w->Some_0.buffer@[m]
                == pre_w.apps[app as int].write_allow@[m],
{
}

} // verus!
