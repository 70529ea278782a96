//! A mathematical model of the on-media header chain: the sequence of
//! allocated-region headers that a traversal starting after the magic marker
//! reads, and the proof that the regions they describe never overlap.

use crate::codec::le_bytes_val;
use crate::driver::NonvolatileStorage;
use crate::types::REGION_HEADER_LEN;
use vstd::prelude::*;

verus! {

/// One allocated-region header as it stands on the media: its absolute
/// address, its owner identifier, and its region length.
pub struct ChainEntry {
    pub addr: int,
    pub owner: nat,
    pub length: nat,
}

/// The owner identifier of the header at `addr`.
pub open spec fn header_owner(media: Seq<u8>, addr: int) -> nat {
    le_bytes_val(media.subrange(addr, addr + 4))
}

/// The region length of the header at `addr`.
pub open spec fn header_length(media: Seq<u8>, addr: int) -> nat {
    le_bytes_val(media.subrange(addr + 4, addr + REGION_HEADER_LEN))
}

/// First byte of the region described by a header.
pub open spec fn entry_region_start(e: ChainEntry) -> int {
    e.addr + REGION_HEADER_LEN
}

/// One past the last byte of the region described by a header.
pub open spec fn entry_region_end(e: ChainEntry) -> int {
    e.addr + REGION_HEADER_LEN + e.length
}

/// The headers a traversal reads from `addr` on: each non-sentinel header
/// contributes an entry, and the walk continues immediately after the
/// region it describes. The walk stops at a sentinel header (owner zero),
/// at the end of the media, or after `fuel` steps.
pub open spec fn chain_entries(media: Seq<u8>, addr: int, fuel: nat) -> Seq<ChainEntry>
    decreases fuel,
{
    if fuel == 0 {
        Seq::empty()
    } else if !(0 <= addr && addr + REGION_HEADER_LEN <= media.len()) {
        Seq::empty()
    } else if header_owner(media, addr) == 0 {
        Seq::empty()
    } else {
        seq![
            ChainEntry {
                addr: addr,
                owner: header_owner(media, addr),
                length: header_length(media, addr),
            },
        ] + chain_entries(media, addr + REGION_HEADER_LEN + header_length(media, addr), (fuel - 1) as nat)
    }
}

/// Every header in a chain stands at or after the walk's starting address.
pub proof fn lemma_chain_addr_lower_bound(media: Seq<u8>, addr: int, fuel: nat)
    ensures
        forall|k: int|
            0 <= k < chain_entries(media, addr, fuel).len() ==> (#[trigger] chain_entries(
                media,
                addr,
                fuel,
            )[k]).addr >= addr,
    decreases fuel,
{
    if fuel > 0 && 0 <= addr && addr + REGION_HEADER_LEN <= media.len() && header_owner(
        media,
        addr,
    ) != 0 {
        let next = addr + REGION_HEADER_LEN + header_length(media, addr);
        lemma_chain_addr_lower_bound(media, next, (fuel - 1) as nat);
        assert forall|k: int|
            0 <= k < chain_entries(media, addr, fuel).len() implies (#[trigger] chain_entries(
            media,
            addr,
            fuel,
        )[k]).addr >= addr by {
            if k > 0 {
                assert(chain_entries(media, addr, fuel)[k] == chain_entries(
                    media,
                    next,
                    (fuel - 1) as nat,
                )[k - 1]);
            }
        }
    }
}

/// Later headers stand past the whole region of earlier ones.
pub proof fn lemma_chain_ordered(media: Seq<u8>, addr: int, fuel: nat, i: int, j: int)
    requires
        0 <= i < j < chain_entries(media, addr, fuel).len(),
    ensures
        entry_region_end(chain_entries(media, addr, fuel)[i]) <= entry_region_start(
            chain_entries(media, addr, fuel)[j],
        ),
    decreases fuel,
{
    let entries = chain_entries(media, addr, fuel);
    let next = addr + REGION_HEADER_LEN + header_length(media, addr);
    let tail = chain_entries(media, next, (fuel - 1) as nat);
    if i == 0 {
        lemma_chain_addr_lower_bound(media, next, (fuel - 1) as nat);
        assert(entries[j] == tail[j - 1]);
        assert(tail[j - 1].addr >= next);
    } else {
        lemma_chain_ordered(media, next, (fuel - 1) as nat, i - 1, j - 1);
        assert(entries[i] == tail[i - 1]);
        assert(entries[j] == tail[j - 1]);
    }
}

/// Isolation on the media: the regions described by two distinct headers of
/// one chain are disjoint byte ranges.
pub proof fn lemma_chain_regions_disjoint(media: Seq<u8>, addr: int, fuel: nat, i: int, j: int)
    requires
        0 <= i < chain_entries(media, addr, fuel).len(),
        0 <= j < chain_entries(media, addr, fuel).len(),
        i != j,
    ensures
        entry_region_end(chain_entries(media, addr, fuel)[i]) <= entry_region_start(
            chain_entries(media, addr, fuel)[j],
        ) || entry_region_end(chain_entries(media, addr, fuel)[j]) <= entry_region_start(
            chain_entries(media, addr, fuel)[i],
        ),
{
    if i < j {
        lemma_chain_ordered(media, addr, fuel, i, j);
    } else {
        lemma_chain_ordered(media, addr, fuel, j, i);
    }
}

/// The driver decodes exactly the chain model's fields: a header transfer
/// buffer holding the media bytes at `h` carries the owner and region
/// length that the chain at `h` describes.
pub proof fn lemma_header_buffer_matches_media(media: Seq<u8>, h: int)
    requires
        0 <= h,
        h + REGION_HEADER_LEN <= media.len(),
    ensures
        NonvolatileStorage::spec_hbuf_owner(media.subrange(h, h + REGION_HEADER_LEN))
            == header_owner(media, h),
        NonvolatileStorage::spec_hbuf_region_len(media.subrange(h, h + REGION_HEADER_LEN))
            == header_length(media, h),
{
    let b = media.subrange(h, h + REGION_HEADER_LEN);
    assert(b.subrange(0, 4) =~= media.subrange(h, h + 4));
    assert(b.subrange(4, REGION_HEADER_LEN as int) =~= media.subrange(
        h + 4,
        h + REGION_HEADER_LEN,
    ));
}

} // verus!
