//! The image scanner: strides the image at an 8-byte alignment and collects
//! every candidate record that decodes.
//!
//! The scan is specified by a recursive function over candidate offsets, and
//! the scanner is proved to return exactly the entries that function yields.
//! Two laws are proved of every scan: each yielded entry's offset points at
//! a `FILE` signature, and offsets strictly increase over the output.

use vstd::prelude::*;

use crate::model::{NtfsEntry, NtfsEntryView};
use crate::record::{parse_ntfs_record, spec_parse_record};

verus! {

/// The record size assumed by the scanner: the NTFS default.
pub const RECORD_SIZE: usize = 1024;

/// The entries yielded by scanning candidate offsets `i, i + 8, ...` up to
/// four bytes before the end of the image, appended to `acc`.
pub open spec fn spec_scan_from(image: Seq<u8>, i: int, acc: Seq<NtfsEntryView>) -> Seq<
    NtfsEntryView,
>
    decreases image.len() + 8 - i,
{
    if i < 0 || i + 4 >= image.len() {
        acc
    } else {
        match spec_parse_record(image, i, RECORD_SIZE as int) {
            Some(e) => spec_scan_from(image, i + 8, acc.push(e)),
            None => spec_scan_from(image, i + 8, acc),
        }
    }
}

/// The full scan of an image, from offset zero.
pub open spec fn spec_scan(image: Seq<u8>) -> Seq<NtfsEntryView> {
    spec_scan_from(image, 0, Seq::empty())
}

/// Scans the image and returns every record that decodes, in increasing
/// offset order.
pub fn scan_ntfs_image(disk_image_buffer: &[u8]) -> (r: Vec<NtfsEntry>)
    ensures
        r.deep_view() == spec_scan(disk_image_buffer@),
{
    let blen: usize = disk_image_buffer.len();
    let mut out: Vec<NtfsEntry> = Vec::new();
    let mut i: usize = 0;
    proof {
        assert(out.deep_view() =~= Seq::<NtfsEntryView>::empty());
    }
    loop
        invariant_except_break
            blen == disk_image_buffer@.len(),
            i <= blen,
            spec_scan(disk_image_buffer@) == spec_scan_from(
                disk_image_buffer@,
                i as int,
                out.deep_view(),
            ),
        ensures
            spec_scan(disk_image_buffer@) == out.deep_view(),
        decreases blen - i,
    {
        if blen <= 4 || i >= blen - 4 {
            break;
        }
        let ghost acc = out.deep_view();
        match parse_ntfs_record(disk_image_buffer, i, RECORD_SIZE) {
            Some(e) => {
                out.push(e);
                proof {
                    assert(out.deep_view() =~= acc.push(e@));
                }
            },
            None => {},
        }
        if blen - i <= 12 {
            // The next candidate offset would lie within four bytes of the
            // end, where no record can start: the scan is complete.
            proof {
                assert(spec_scan_from(disk_image_buffer@, i as int, acc) == spec_scan_from(
                    disk_image_buffer@,
                    i + 8,
                    out.deep_view(),
                ));
            }
            break;
        }
        i = i + 8;
    }
    out
}

/// True when four bytes at `off` lie within the image and spell `FILE`.
pub open spec fn file_signature_at(image: Seq<u8>, off: int) -> bool {
    off + 4 <= image.len() && image[off] == 0x46 && image[off + 1] == 0x49 && image[off + 2]
        == 0x4C && image[off + 3] == 0x45
}

/// The scan's invariants, carried over the accumulator: every yielded
/// offset is below the current position, points at a `FILE` signature, and
/// the offsets strictly increase.
pub proof fn lemma_scan_from_invariants(image: Seq<u8>, i: int, acc: Seq<NtfsEntryView>)
    requires
        image.len() <= u64::MAX,
        0 <= i,
        forall|k: int| 0 <= k < acc.len() ==> (#[trigger] acc[k].mft_offset) < i,
        forall|k: int| 0 <= k < acc.len() ==> file_signature_at(
            image,
            (#[trigger] acc[k].mft_offset) as int,
        ),
        forall|k1: int, k2: int| 0 <= k1 < k2 < acc.len() ==> acc[k1].mft_offset
            < acc[k2].mft_offset,
    ensures
        forall|k: int| 0 <= k < spec_scan_from(image, i, acc).len() ==> file_signature_at(
            image,
            (#[trigger] spec_scan_from(image, i, acc)[k].mft_offset) as int,
        ),
        forall|k1: int, k2: int| 0 <= k1 < k2 < spec_scan_from(image, i, acc).len() ==>
            spec_scan_from(image, i, acc)[k1].mft_offset < spec_scan_from(
                image,
                i,
                acc,
            )[k2].mft_offset,
        forall|k: int| 0 <= k < spec_scan_from(image, i, acc).len() ==> (#[trigger] spec_scan_from(
            image,
            i,
            acc,
        )[k].mft_offset) < image.len(),
    decreases image.len() + 8 - i,
{
    if i < 0 || i + 4 >= image.len() {
    } else {
        match spec_parse_record(image, i, RECORD_SIZE as int) {
            Some(e) => {
                assert(e.mft_offset == i as u64);
                assert(file_signature_at(image, i));
                let acc2 = acc.push(e);
                assert(forall|k: int| 0 <= k < acc2.len() ==> (#[trigger] acc2[k].mft_offset) < i
                    + 8);
                lemma_scan_from_invariants(image, i + 8, acc2);
            },
            None => {
                lemma_scan_from_invariants(image, i + 8, acc);
            },
        }
    }
}

/// Every yielded entry's offset points at bytes spelling `FILE`, and the
/// offsets strictly increase over the yielded sequence.
pub proof fn lemma_scan_signature_and_ordering(image: Seq<u8>)
    requires
        image.len() <= u64::MAX,
    ensures
        forall|k: int| 0 <= k < spec_scan(image).len() ==> file_signature_at(
            image,
            (#[trigger] spec_scan(image)[k].mft_offset) as int,
        ),
        forall|k1: int, k2: int| 0 <= k1 < k2 < spec_scan(image).len() ==> spec_scan(
            image,
        )[k1].mft_offset < spec_scan(image)[k2].mft_offset,
{
    lemma_scan_from_invariants(image, 0, Seq::empty());
}

} // verus!
