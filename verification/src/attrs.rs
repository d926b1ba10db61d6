//! Per-attribute decoders for the tagged attribute stream of an MFT record.
//!
//! Each decoder has a spec-level mirror giving the mathematical meaning of
//! the bytes, and the executable decoder is proved to return exactly that.
//! A decoder returns None on any bounds or validity failure (a soft failure:
//! the walk over the record continues).

use vstd::prelude::*;

use crate::bytes::{le_val, le_val_signed, read_le_int, read_le_uint, read_u16, read_u32, read_u64};
use crate::model::{DataRun, DataStream, DataStreamView, FileAttributes, FileNameAttr,
    FileNameAttrView, Timestamp, spec_file_attributes, spec_filetime_to_utc};
use crate::text::{gather_utf16_units, string_from_chars, utf16_decode, utf16_units, utf16_valid,
    utf16_to_string, utf8_to_string, hex_digit, push_hex_byte};
use crate::model::filetime_to_utc;

verus! {

/// Attribute type codes recognized by the walker.
pub const ATTR_STANDARD_INFORMATION: u32 = 0x10;

pub const ATTR_FILE_NAME: u32 = 0x30;

pub const ATTR_OBJECT_ID: u32 = 0x40;

pub const ATTR_DATA: u32 = 0x80;

pub const ATTR_REPARSE_POINT: u32 = 0xC0;

pub const ATTR_EA_INFORMATION: u32 = 0xD0;

pub const ATTR_END: u32 = 0xFFFFFFFF;

/// The view of an Option<String> as an optional character sequence.
pub open spec fn view_opt_str(s: &Option<String>) -> Option<Seq<char>> {
    match s {
        Some(x) => Some(x@),
        None => None,
    }
}

/// The view of a decoded reparse point held as executable values.
pub open spec fn view_opt_reparse(r: &Option<(u32, Option<String>)>) -> Option<
    (u32, Option<Seq<char>>),
> {
    match r {
        Some(p) => Some((p.0, view_opt_str(&p.1))),
        None => None,
    }
}

/// The decoded common attribute header: type code, total length, residency
/// flag, and optional attribute name.
pub ghost struct AttrHeaderView {
    pub ty: u32,
    pub len: int,
    pub non_resident: bool,
    pub name: Option<Seq<char>>,
}

/// The meaning of the attribute header at `off`: None when the walk must
/// stop there (end marker, zero length, or out-of-bounds).
pub open spec fn spec_parse_attr_header(buf: Seq<u8>, off: int) -> Option<AttrHeaderView> {
    if off + 16 > buf.len() {
        None
    } else {
        let ty = le_val(buf.subrange(off, off + 4));
        if ty == 0xFFFF_FFFF {
            None
        } else {
            let len = le_val(buf.subrange(off + 4, off + 8));
            if len <= 0 || off + len > buf.len() {
                None
            } else {
                let name_length = buf[off + 9] as int;
                let name_offset = le_val(buf.subrange(off + 10, off + 12));
                let name = if name_length > 0 && off + name_offset + name_length * 2
                    <= buf.len() {
                    let units = utf16_units(
                        buf.subrange(off + name_offset, off + name_offset + name_length * 2),
                    );
                    if utf16_valid(units) {
                        Some(utf16_decode(units))
                    } else {
                        None
                    }
                } else {
                    None
                };
                Some(
                    AttrHeaderView {
                        ty: ty as u32,
                        len: len,
                        non_resident: buf[off + 8] != 0,
                        name: name,
                    },
                )
            }
        }
    }
}

/// Decodes the attribute header at `off`: type code, total length, residency
/// flag, and optional UTF-16 name.
pub fn parse_attr_header(buf: &[u8], off: usize) -> (r: Option<(u32, usize, bool, Option<String>)>)
    ensures
        r is Some <==> spec_parse_attr_header(buf@, off as int) is Some,
        r matches Some(h) ==> spec_parse_attr_header(buf@, off as int) matches Some(sh)
            && h.0 == sh.ty && h.1 == sh.len && h.2 == sh.non_resident && view_opt_str(&h.3)
            == sh.name,
{
    let blen: usize = buf.len();
    if blen < 16 || off > blen - 16 {
        return None;
    }
    let attr_type = read_u32(buf, off);
    if attr_type == ATTR_END {
        return None;
    }
    let length = read_u32(buf, off + 4) as usize;
    if length == 0 || length > blen - off {
        return None;
    }
    let non_resident = buf[off + 8] != 0;
    let name_length = buf[off + 9] as usize;
    let name_offset = read_u16(buf, off + 10) as usize;
    let avail = blen - off;
    let attr_name: Option<String> = if name_length > 0 && name_offset <= avail && name_length * 2
        <= avail - name_offset {
        let units = gather_utf16_units(buf, off + name_offset, off + name_offset + name_length * 2);
        utf16_to_string(&units)
    } else {
        None
    };
    Some((attr_type, length, non_resident, attr_name))
}

/// The meaning of a FILE_NAME attribute: parent reference, sizes, namespace,
/// and the UTF-16 name; None on bounds or UTF-16 failure.
pub open spec fn spec_parse_filename(attr: Seq<u8>) -> Option<FileNameAttrView> {
    if attr.len() < 66 {
        None
    } else {
        let co = le_val(attr.subrange(20, 22));
        if co + 66 > attr.len() {
            None
        } else {
            let nl = attr[co + 64] as int;
            if co + 66 + nl * 2 > attr.len() {
                None
            } else {
                let units = utf16_units(attr.subrange(co + 66, co + 66 + nl * 2));
                if utf16_valid(units) {
                    Some(
                        FileNameAttrView {
                            name: utf16_decode(units),
                            parent_reference: le_val(attr.subrange(co, co + 8)) as u64,
                            namespace: attr[co + 65],
                            allocated_size: le_val(attr.subrange(co + 40, co + 48)) as u64,
                            real_size: le_val(attr.subrange(co + 48, co + 56)) as u64,
                        },
                    )
                } else {
                    None
                }
            }
        }
    }
}

/// Decodes a FILE_NAME attribute.
pub fn parse_filename(attr: &[u8]) -> (r: Option<FileNameAttr>)
    ensures
        r is Some <==> spec_parse_filename(attr@) is Some,
        r matches Some(f) ==> spec_parse_filename(attr@) matches Some(sf) && f@ == sf,
{
    let alen: usize = attr.len();
    if alen < 66 {
        return None;
    }
    let co = read_u16(attr, 20) as usize;
    if co + 66 > alen {
        return None;
    }
    let parent_reference = read_u64(attr, co);
    let allocated_size = read_u64(attr, co + 40);
    let real_size = read_u64(attr, co + 48);
    let name_len = attr[co + 64] as usize;
    let namespace = attr[co + 65];
    let byte_len = name_len * 2;
    if byte_len > alen - (co + 66) {
        return None;
    }
    let units = gather_utf16_units(attr, co + 66, co + 66 + byte_len);
    match utf16_to_string(&units) {
        Some(name) => Some(
            FileNameAttr { name, parent_reference, namespace, allocated_size, real_size },
        ),
        None => None,
    }
}

/// The raw content bytes of a resident attribute; None on bounds failure.
pub open spec fn spec_parse_resident_data(attr: Seq<u8>) -> Option<Seq<u8>> {
    if attr.len() < 24 {
        None
    } else {
        let cl = le_val(attr.subrange(16, 20));
        let co = le_val(attr.subrange(20, 22));
        if co + cl > attr.len() {
            None
        } else {
            Some(attr.subrange(co, co + cl))
        }
    }
}

/// Copies the content bytes of a resident attribute.
pub fn parse_resident_data(attr: &[u8]) -> (r: Option<Vec<u8>>)
    ensures
        r is Some <==> spec_parse_resident_data(attr@) is Some,
        r matches Some(d) ==> spec_parse_resident_data(attr@) matches Some(sd) && d@ == sd,
{
    let alen: usize = attr.len();
    if alen < 24 {
        return None;
    }
    let content_len = read_u32(attr, 16) as usize;
    let content_offset = read_u16(attr, 20) as usize;
    if content_offset > alen || content_len > alen - content_offset {
        return None;
    }
    Some(vstd::slice::slice_to_vec(vstd::slice::slice_subrange(attr, content_offset,
        content_offset + content_len)))
}

/// The runs decoded from `off` onward, given the cumulative cluster number
/// so far, appended to `acc`. Decoding stops at a zero header byte, an
/// invalid header, or a bounds failure.
pub open spec fn spec_data_runs_from(attr: Seq<u8>, off: int, lcn: i64, acc: Seq<DataRun>) -> Seq<
    DataRun,
>
    decreases attr.len() - off,
{
    if off >= attr.len() {
        acc
    } else {
        let header = attr[off] as int;
        if header == 0 {
            acc
        } else {
            let lb = header % 16;
            let ob = header / 16;
            if lb == 0 || lb > 8 || ob > 8 {
                acc
            } else if off + 1 + lb + ob > attr.len() {
                acc
            } else {
                let count = le_val(attr.subrange(off + 1, off + 1 + lb));
                let delta = if ob == 0 {
                    0
                } else {
                    le_val_signed(attr.subrange(off + 1 + lb, off + 1 + lb + ob))
                };
                let new_lcn = vstd::wrapping::i64_specs::wrapping_add(lcn, delta as i64);
                spec_data_runs_from(
                    attr,
                    off + 1 + lb + ob,
                    new_lcn,
                    acc.push(DataRun { cluster_offset: new_lcn, cluster_count: count as u64 }),
                )
            }
        }
    }
}

/// The data runs of a non-resident DATA attribute: None when none decode.
pub open spec fn spec_parse_data_runs(attr: Seq<u8>) -> Option<Seq<DataRun>> {
    if attr.len() < 64 {
        None
    } else {
        let dro = le_val(attr.subrange(32, 34));
        if dro >= attr.len() {
            None
        } else {
            let runs = spec_data_runs_from(attr, dro, 0, Seq::empty());
            if runs.len() == 0 {
                None
            } else {
                Some(runs)
            }
        }
    }
}

/// Decodes the run list of a non-resident DATA attribute. Each run's
/// `cluster_offset` is the cumulative (wrapping) sum of the signed deltas
/// decoded so far; a zero-width delta (a sparse run) leaves it unchanged.
pub fn parse_data_runs(attr: &[u8]) -> (r: Option<Vec<DataRun>>)
    ensures
        r is Some <==> spec_parse_data_runs(attr@) is Some,
        r matches Some(v) ==> spec_parse_data_runs(attr@) matches Some(sv) && v@ == sv,
{
    let alen: usize = attr.len();
    if alen < 64 {
        return None;
    }
    let dro = read_u16(attr, 32) as usize;
    if dro >= alen {
        return None;
    }
    let mut runs: Vec<DataRun> = Vec::new();
    let mut off: usize = dro;
    let mut lcn: i64 = 0;
    while off < alen
        invariant_except_break
            alen == attr@.len(),
            off <= alen,
            spec_data_runs_from(attr@, dro as int, 0, Seq::empty()) == spec_data_runs_from(
                attr@,
                off as int,
                lcn,
                runs@,
            ),
        ensures
            spec_data_runs_from(attr@, dro as int, 0, Seq::empty()) == runs@,
        decreases alen - off,
    {
        let header = attr[off];
        if header == 0 {
            break;
        }
        let length_bytes = (header % 16) as usize;
        let offset_bytes = (header / 16) as usize;
        if length_bytes == 0 || length_bytes > 8 || offset_bytes > 8 {
            break;
        }
        if length_bytes + offset_bytes > alen - (off + 1) {
            break;
        }
        let count = read_le_uint(attr, off + 1, length_bytes);
        let delta: i64 = if offset_bytes == 0 {
            0
        } else {
            read_le_int(attr, off + 1 + length_bytes, offset_bytes)
        };
        let new_lcn = lcn.wrapping_add(delta);
        runs.push(DataRun { cluster_offset: new_lcn, cluster_count: count });
        lcn = new_lcn;
        off = off + 1 + length_bytes + offset_bytes;
    }
    if runs.len() == 0 {
        None
    } else {
        Some(runs)
    }
}

/// The signed delta each decoded run contributes, appended to `acc`. A
/// sparse run (a header whose offset width is zero) contributes zero by
/// definition; the recursion takes exactly the branches of
/// [`spec_data_runs_from`].
pub open spec fn spec_run_deltas_from(attr: Seq<u8>, off: int, acc: Seq<i64>) -> Seq<i64>
    decreases attr.len() - off,
{
    if off >= attr.len() {
        acc
    } else {
        let header = attr[off] as int;
        if header == 0 {
            acc
        } else {
            let lb = header % 16;
            let ob = header / 16;
            if lb == 0 || lb > 8 || ob > 8 {
                acc
            } else if off + 1 + lb + ob > attr.len() {
                acc
            } else {
                let delta: i64 = if ob == 0 {
                    0
                } else {
                    le_val_signed(attr.subrange(off + 1 + lb, off + 1 + lb + ob)) as i64
                };
                spec_run_deltas_from(attr, off + 1 + lb + ob, acc.push(delta))
            }
        }
    }
}

/// The wrapping cumulative sum of the deltas, from a starting cluster.
pub open spec fn wrap_sum(start: i64, ds: Seq<i64>) -> i64
    decreases ds.len(),
{
    if ds.len() == 0 {
        start
    } else {
        wrap_sum(vstd::wrapping::i64_specs::wrapping_add(start, ds[0]), ds.skip(1))
    }
}

/// Appending one delta to a wrapping sum adds it at the end.
pub proof fn lemma_wrap_sum_push(start: i64, ds: Seq<i64>, d: i64)
    ensures
        wrap_sum(start, ds.push(d)) == vstd::wrapping::i64_specs::wrapping_add(
            wrap_sum(start, ds),
            d,
        ),
    decreases ds.len(),
{
    let p = ds.push(d);
    assert(p.len() == ds.len() + 1);
    if ds.len() == 0 {
        assert(p[0] == d);
        assert(p.skip(1) =~= Seq::<i64>::empty());
        let s2 = vstd::wrapping::i64_specs::wrapping_add(start, d);
        assert(wrap_sum(start, p) == wrap_sum(s2, p.skip(1)));
        assert(wrap_sum(s2, p.skip(1)) == s2);
        assert(wrap_sum(start, ds) == start);
    } else {
        assert(p[0] == ds[0]);
        assert(p.skip(1) =~= ds.skip(1).push(d));
        let s2 = vstd::wrapping::i64_specs::wrapping_add(start, ds[0]);
        lemma_wrap_sum_push(s2, ds.skip(1), d);
        assert(wrap_sum(start, p) == wrap_sum(s2, p.skip(1)));
        assert(wrap_sum(s2, ds.skip(1).push(d)) == vstd::wrapping::i64_specs::wrapping_add(
            wrap_sum(s2, ds.skip(1)),
            d,
        ));
        assert(wrap_sum(start, ds) == wrap_sum(s2, ds.skip(1)));
    }
}

/// The runs decoded from `off` onward parallel the deltas decoded from the
/// same position: there is one delta per run, the accumulated prefixes are
/// kept, and each run's cluster offset is the wrapping cumulative sum of
/// the deltas up to and including its own.
pub proof fn lemma_runs_cumulative_from(attr: Seq<u8>, off: int, racc: Seq<DataRun>, dacc: Seq<
    i64,
>)
    requires
        racc.len() == dacc.len(),
        forall|k: int| 0 <= k < racc.len() ==> (#[trigger] racc[k].cluster_offset) == wrap_sum(
            0,
            dacc.take(k + 1),
        ),
    ensures
        ({
            let runs = spec_data_runs_from(attr, off, wrap_sum(0, dacc), racc);
            let ds = spec_run_deltas_from(attr, off, dacc);
            &&& runs.len() == ds.len()
            &&& (forall|k: int| 0 <= k < dacc.len() ==> #[trigger] ds[k] == dacc[k])
            &&& (forall|k: int| 0 <= k < runs.len() ==> (#[trigger] runs[k].cluster_offset)
                == wrap_sum(0, ds.take(k + 1)))
        }),
    decreases attr.len() - off,
{
    let lcn = wrap_sum(0, dacc);
    let runs = spec_data_runs_from(attr, off, lcn, racc);
    let ds = spec_run_deltas_from(attr, off, dacc);
    if off >= attr.len() {
    } else {
        let header = attr[off] as int;
        let lb = header % 16;
        let ob = header / 16;
        if header == 0 || lb == 0 || lb > 8 || ob > 8 || off + 1 + lb + ob > attr.len() {
        } else {
            let count = le_val(attr.subrange(off + 1, off + 1 + lb));
            let delta: i64 = if ob == 0 {
                0
            } else {
                le_val_signed(attr.subrange(off + 1 + lb, off + 1 + lb + ob)) as i64
            };
            let new_lcn = vstd::wrapping::i64_specs::wrapping_add(lcn, delta);
            let dacc2 = dacc.push(delta);
            let racc2 = racc.push(
                DataRun { cluster_offset: new_lcn, cluster_count: count as u64 },
            );
            lemma_wrap_sum_push(0, dacc, delta);
            assert(new_lcn == wrap_sum(0, dacc2));
            assert(dacc2.take(dacc2.len() as int) =~= dacc2);
            assert forall|k: int| 0 <= k < racc2.len() implies (#[trigger] racc2[k].cluster_offset)
                == wrap_sum(0, dacc2.take(k + 1)) by {
                if k < racc.len() {
                    assert(dacc2.take(k + 1) =~= dacc.take(k + 1));
                } else {
                    assert(dacc2.take(k + 1) =~= dacc2);
                }
            }
            lemma_runs_cumulative_from(attr, off + 1 + lb + ob, racc2, dacc2);
        }
    }
}

/// Every decoded run's cluster offset equals the wrapping cumulative sum of
/// the signed deltas decoded up to and including that run; a sparse run
/// contributes a zero delta.
pub proof fn lemma_data_runs_cumulative(attr: Seq<u8>)
    requires
        spec_parse_data_runs(attr) is Some,
    ensures
        ({
            let runs = spec_parse_data_runs(attr)->Some_0;
            let ds = spec_run_deltas_from(attr, le_val(attr.subrange(32, 34)), Seq::empty());
            &&& runs.len() == ds.len()
            &&& (forall|k: int| 0 <= k < runs.len() ==> (#[trigger] runs[k].cluster_offset)
                == wrap_sum(0, ds.take(k + 1)))
        }),
{
    let dro = le_val(attr.subrange(32, 34));
    assert(wrap_sum(0, Seq::<i64>::empty()) == 0);
    lemma_runs_cumulative_from(attr, dro, Seq::empty(), Seq::empty());
}

/// A run whose delta is zero (in particular every sparse run, whose header
/// has offset width zero) leaves the cluster offset where it was: at the
/// previous run's offset, or at zero for the first run.
pub proof fn lemma_zero_delta_keeps_offset(attr: Seq<u8>, k: int)
    requires
        spec_parse_data_runs(attr) is Some,
        0 <= k < spec_parse_data_runs(attr)->Some_0.len(),
        spec_run_deltas_from(attr, le_val(attr.subrange(32, 34)), Seq::empty())[k] == 0,
    ensures
        ({
            let runs = spec_parse_data_runs(attr)->Some_0;
            runs[k].cluster_offset == if k == 0 {
                0i64
            } else {
                runs[k - 1].cluster_offset
            }
        }),
{
    let runs = spec_parse_data_runs(attr)->Some_0;
    let ds = spec_run_deltas_from(attr, le_val(attr.subrange(32, 34)), Seq::empty());
    lemma_data_runs_cumulative(attr);
    assert(ds.take(k + 1) =~= ds.take(k).push(ds[k]));
    lemma_wrap_sum_push(0, ds.take(k), ds[k]);
    assert(runs[k].cluster_offset == wrap_sum(0, ds.take(k + 1)));
    if k == 0 {
        assert(ds.take(0) =~= Seq::<i64>::empty());
    } else {
        assert(runs[k - 1].cluster_offset == wrap_sum(0, ds.take(k)));
    }
}

/// The meaning of a DATA attribute: a resident stream carrying its bytes
/// (as text when they are valid UTF-8), or a non-resident stream carrying
/// sizes and decoded runs.
pub open spec fn spec_parse_data_attribute(
    attr: Seq<u8>,
    name: Option<Seq<char>>,
    non_resident: bool,
) -> Option<DataStreamView> {
    if non_resident {
        if attr.len() < 64 {
            None
        } else {
            Some(
                DataStreamView {
                    name: name,
                    resident: false,
                    size: le_val(attr.subrange(48, 56)) as u64,
                    allocated_size: le_val(attr.subrange(56, 64)) as u64,
                    resident_data: None,
                    data_runs: spec_parse_data_runs(attr),
                },
            )
        }
    } else {
        match spec_parse_resident_data(attr) {
            None => None,
            Some(data) => Some(
                DataStreamView {
                    name: name,
                    resident: true,
                    size: data.len() as u64,
                    allocated_size: data.len() as u64,
                    resident_data: if vstd::utf8::valid_utf8(data) {
                        Some(vstd::utf8::decode_utf8(data))
                    } else {
                        None
                    },
                    data_runs: None,
                },
            ),
        }
    }
}

/// Decodes a DATA attribute into a stream description.
pub fn parse_data_attribute(attr: &[u8], attr_name: Option<String>, non_resident: bool) -> (r:
    Option<DataStream>)
    ensures
        r is Some <==> spec_parse_data_attribute(attr@, view_opt_str(&attr_name), non_resident)
            is Some,
        r matches Some(s) ==> spec_parse_data_attribute(attr@, view_opt_str(&attr_name),
            non_resident,
        ) matches Some(ss) && s@ == ss,
{
    if non_resident {
        let alen: usize = attr.len();
        if alen < 64 {
            return None;
        }
        let real_size = read_u64(attr, 48);
        let allocated_size = read_u64(attr, 56);
        let data_runs = parse_data_runs(attr);
        Some(
            DataStream {
                name: attr_name,
                resident: false,
                size: real_size,
                allocated_size,
                resident_data: None,
                data_runs,
            },
        )
    } else {
        match parse_resident_data(attr) {
            None => None,
            Some(data) => {
                let size = data.len() as u64;
                let resident_str = utf8_to_string(data);
                Some(
                    DataStream {
                        name: attr_name,
                        resident: true,
                        size,
                        allocated_size: size,
                        resident_data: resident_str,
                        data_runs: None,
                    },
                )
            },
        }
    }
}

/// The decoded content of a STANDARD_INFORMATION attribute.
#[derive(Debug, Clone, Copy, PartialEq, Eq)]
pub struct StdInfo {
    pub created: Timestamp,
    pub modified: Timestamp,
    pub mft_modified: Timestamp,
    pub accessed: Timestamp,
    pub file_attributes: FileAttributes,
    pub owner_id: Option<u32>,
    pub security_id: Option<u32>,
    pub usn: Option<u64>,
}

/// The meaning of a STANDARD_INFORMATION attribute. All four timestamps
/// must be present (non-zero), or the whole block is discarded; the
/// ownership, security and USN fields are optional extensions.
pub open spec fn spec_parse_standard_information(attr: Seq<u8>) -> Option<StdInfo> {
    if attr.len() < 22 {
        None
    } else {
        let co = le_val(attr.subrange(20, 22));
        if co + 48 > attr.len() {
            None
        } else {
            match spec_filetime_to_utc(le_val(attr.subrange(co, co + 8)) as u64) {
                None => None,
                Some(created) => match spec_filetime_to_utc(
                    le_val(attr.subrange(co + 8, co + 16)) as u64,
                ) {
                    None => None,
                    Some(modified) => match spec_filetime_to_utc(
                        le_val(attr.subrange(co + 16, co + 24)) as u64,
                    ) {
                        None => None,
                        Some(mft_modified) => match spec_filetime_to_utc(
                            le_val(attr.subrange(co + 24, co + 32)) as u64,
                        ) {
                            None => None,
                            Some(accessed) => Some(
                                StdInfo {
                                    created,
                                    modified,
                                    mft_modified,
                                    accessed,
                                    file_attributes: spec_file_attributes(
                                        le_val(attr.subrange(co + 32, co + 36)) as u32,
                                    ),
                                    owner_id: if attr.len() - co >= 56 {
                                        Some(le_val(attr.subrange(co + 48, co + 52)) as u32)
                                    } else {
                                        None
                                    },
                                    security_id: if attr.len() - co >= 56 {
                                        Some(le_val(attr.subrange(co + 52, co + 56)) as u32)
                                    } else {
                                        None
                                    },
                                    usn: if attr.len() - co >= 72 {
                                        Some(le_val(attr.subrange(co + 64, co + 72)) as u64)
                                    } else {
                                        None
                                    },
                                },
                            ),
                        },
                    },
                },
            }
        }
    }
}

/// Decodes a STANDARD_INFORMATION attribute.
pub fn parse_standard_information(attr: &[u8]) -> (r: Option<StdInfo>)
    ensures
        r == spec_parse_standard_information(attr@),
{
    let alen: usize = attr.len();
    if alen < 22 {
        return None;
    }
    let co = read_u16(attr, 20) as usize;
    if co + 48 > alen {
        return None;
    }
    let created = match filetime_to_utc(read_u64(attr, co)) {
        Some(t) => t,
        None => {
            return None;
        },
    };
    let modified = match filetime_to_utc(read_u64(attr, co + 8)) {
        Some(t) => t,
        None => {
            return None;
        },
    };
    let mft_modified = match filetime_to_utc(read_u64(attr, co + 16)) {
        Some(t) => t,
        None => {
            return None;
        },
    };
    let accessed = match filetime_to_utc(read_u64(attr, co + 24)) {
        Some(t) => t,
        None => {
            return None;
        },
    };
    let file_attributes = FileAttributes::from_flags(read_u32(attr, co + 32));
    let has_ids = alen - co >= 56;
    let owner_id = if has_ids {
        Some(read_u32(attr, co + 48))
    } else {
        None
    };
    let security_id = if has_ids {
        Some(read_u32(attr, co + 52))
    } else {
        None
    };
    let usn = if alen - co >= 72 {
        Some(read_u64(attr, co + 64))
    } else {
        None
    };
    Some(
        StdInfo {
            created,
            modified,
            mft_modified,
            accessed,
            file_attributes,
            owner_id,
            security_id,
            usn,
        },
    )
}

/// The canonical text form of the 16 GUID bytes of an OBJECT_ID attribute:
/// the first three groups are little-endian (bytes reversed), the last two
/// keep on-disk order, all in lowercase hex with dashes between groups.
pub open spec fn guid_chars(g: Seq<u8>) -> Seq<char> {
    seq![
        hex_digit(g[3] as int / 16),
        hex_digit(g[3] as int % 16),
        hex_digit(g[2] as int / 16),
        hex_digit(g[2] as int % 16),
        hex_digit(g[1] as int / 16),
        hex_digit(g[1] as int % 16),
        hex_digit(g[0] as int / 16),
        hex_digit(g[0] as int % 16),
        '-',
        hex_digit(g[5] as int / 16),
        hex_digit(g[5] as int % 16),
        hex_digit(g[4] as int / 16),
        hex_digit(g[4] as int % 16),
        '-',
        hex_digit(g[7] as int / 16),
        hex_digit(g[7] as int % 16),
        hex_digit(g[6] as int / 16),
        hex_digit(g[6] as int % 16),
        '-',
        hex_digit(g[8] as int / 16),
        hex_digit(g[8] as int % 16),
        hex_digit(g[9] as int / 16),
        hex_digit(g[9] as int % 16),
        '-',
        hex_digit(g[10] as int / 16),
        hex_digit(g[10] as int % 16),
        hex_digit(g[11] as int / 16),
        hex_digit(g[11] as int % 16),
        hex_digit(g[12] as int / 16),
        hex_digit(g[12] as int % 16),
        hex_digit(g[13] as int / 16),
        hex_digit(g[13] as int % 16),
        hex_digit(g[14] as int / 16),
        hex_digit(g[14] as int % 16),
        hex_digit(g[15] as int / 16),
        hex_digit(g[15] as int % 16),
    ]
}

/// A character that may appear in a hex group of a formatted GUID.
pub open spec fn is_hex_char(c: char) -> bool {
    (0x30 <= c as u32 && c as u32 <= 0x39) || (0x61 <= c as u32 && c as u32 <= 0x66)
}

/// A formatted GUID has 36 characters: lowercase hex digits, with dashes
/// exactly at positions 8, 13, 18 and 23.
#[verifier::rlimit(100)]
pub proof fn lemma_guid_format(g: Seq<u8>)
    requires
        g.len() == 16,
    ensures
        guid_chars(g).len() == 36,
        guid_chars(g)[8] == '-',
        guid_chars(g)[13] == '-',
        guid_chars(g)[18] == '-',
        guid_chars(g)[23] == '-',
        forall|j: int| 0 <= j < 36 && j != 8 && j != 13 && j != 18 && j != 23 ==> is_hex_char(
            #[trigger] guid_chars(g)[j],
        ),
{
    assert forall|n: int| 0 <= n < 16 implies is_hex_char(hex_digit(n)) by {
        if n < 10 {
            assert(hex_digit(n) as u32 == 0x30 + n);
        } else {
            assert(hex_digit(n) as u32 == 0x57 + n);
        }
    }
    assert forall|p: int| 0 <= p < 16 implies 0 <= #[trigger] (g[p] as int) / 16 < 16 && 0 <= (
    g[p] as int) % 16 < 16 by {}
}

/// The value of a lowercase hex digit character.
pub open spec fn nibble_of_hex(c: char) -> int {
    if c as u32 >= 0x61 {
        c as u32 - 0x57
    } else {
        c as u32 - 0x30
    }
}

/// The byte written as two hex digits, high nibble first.
pub open spec fn byte_of_hex(hi: char, lo: char) -> u8 {
    (nibble_of_hex(hi) * 16 + nibble_of_hex(lo)) as u8
}

/// The 16 GUID bytes read back from a formatted GUID, undoing the
/// byte-swap of the first three groups.
pub open spec fn guid_bytes_of(s: Seq<char>) -> Seq<u8> {
    seq![
        byte_of_hex(s[6], s[7]),
        byte_of_hex(s[4], s[5]),
        byte_of_hex(s[2], s[3]),
        byte_of_hex(s[0], s[1]),
        byte_of_hex(s[11], s[12]),
        byte_of_hex(s[9], s[10]),
        byte_of_hex(s[16], s[17]),
        byte_of_hex(s[14], s[15]),
        byte_of_hex(s[19], s[20]),
        byte_of_hex(s[21], s[22]),
        byte_of_hex(s[24], s[25]),
        byte_of_hex(s[26], s[27]),
        byte_of_hex(s[28], s[29]),
        byte_of_hex(s[30], s[31]),
        byte_of_hex(s[32], s[33]),
        byte_of_hex(s[34], s[35]),
    ]
}

/// Undoing the nibble split restores the byte.
proof fn lemma_byte_of_hex_digits(x: u8)
    ensures
        byte_of_hex(hex_digit(x as int / 16), hex_digit(x as int % 16)) == x,
{
    let hi = x as int / 16;
    let lo = x as int % 16;
    vstd::arithmetic::div_mod::lemma_fundamental_div_mod(x as int, 16);
    if hi < 10 {
        assert(hex_digit(hi) as u32 == 0x30 + hi);
    } else {
        assert(hex_digit(hi) as u32 == 0x57 + hi);
    }
    if lo < 10 {
        assert(hex_digit(lo) as u32 == 0x30 + lo);
    } else {
        assert(hex_digit(lo) as u32 == 0x57 + lo);
    }
    assert(nibble_of_hex(hex_digit(hi)) == hi);
    assert(nibble_of_hex(hex_digit(lo)) == lo);
}

/// The formatted GUID decodes back to the original 16 bytes under the
/// documented byte-swap rule.
#[verifier::rlimit(100)]
pub proof fn lemma_guid_round_trip(g: Seq<u8>)
    requires
        g.len() == 16,
    ensures
        guid_bytes_of(guid_chars(g)) =~= g,
{
    assert forall|p: int| 0 <= p < 16 implies byte_of_hex(
        hex_digit(g[p] as int / 16),
        hex_digit(g[p] as int % 16),
    ) == g[p] by {
        lemma_byte_of_hex_digits(g[p]);
    }
}

/// The meaning of an OBJECT_ID attribute: the formatted GUID of its first
/// 16 content bytes.
pub open spec fn spec_parse_object_id(attr: Seq<u8>) -> Option<Seq<char>> {
    if attr.len() < 22 {
        None
    } else {
        let co = le_val(attr.subrange(20, 22));
        if co + 16 > attr.len() {
            None
        } else {
            Some(guid_chars(attr.subrange(co, co + 16)))
        }
    }
}

/// Formats the GUID of an OBJECT_ID attribute.
#[verifier::rlimit(60)]
pub fn parse_object_id(attr: &[u8]) -> (r: Option<String>)
    ensures
        r is Some <==> spec_parse_object_id(attr@) is Some,
        r matches Some(s) ==> spec_parse_object_id(attr@) matches Some(ss) && s@ == ss,
{
    let alen: usize = attr.len();
    if alen < 22 {
        return None;
    }
    let co = read_u16(attr, 20) as usize;
    if co + 16 > alen {
        return None;
    }
    let ghost g = attr@.subrange(co as int, co + 16);
    let mut cs: Vec<char> = Vec::new();
    push_hex_byte(&mut cs, attr[co + 3]);
    push_hex_byte(&mut cs, attr[co + 2]);
    push_hex_byte(&mut cs, attr[co + 1]);
    push_hex_byte(&mut cs, attr[co]);
    cs.push('-');
    push_hex_byte(&mut cs, attr[co + 5]);
    push_hex_byte(&mut cs, attr[co + 4]);
    cs.push('-');
    push_hex_byte(&mut cs, attr[co + 7]);
    push_hex_byte(&mut cs, attr[co + 6]);
    cs.push('-');
    push_hex_byte(&mut cs, attr[co + 8]);
    push_hex_byte(&mut cs, attr[co + 9]);
    cs.push('-');
    push_hex_byte(&mut cs, attr[co + 10]);
    push_hex_byte(&mut cs, attr[co + 11]);
    push_hex_byte(&mut cs, attr[co + 12]);
    push_hex_byte(&mut cs, attr[co + 13]);
    push_hex_byte(&mut cs, attr[co + 14]);
    push_hex_byte(&mut cs, attr[co + 15]);
    proof {
        assert forall|j: int| 0 <= j < 16 implies g[j] == attr@[co + j] by {}
        assert(cs@ =~= guid_chars(g));
    }
    Some(string_from_chars(&cs))
}

/// The meaning of a REPARSE_POINT attribute: the 32-bit tag, and for
/// symlinks and junctions the substitute-name path decoded from UTF-16.
pub open spec fn spec_parse_reparse_point(attr: Seq<u8>) -> Option<(u32, Option<Seq<char>>)> {
    if attr.len() < 22 {
        None
    } else {
        let co = le_val(attr.subrange(20, 22));
        if co + 8 > attr.len() {
            None
        } else {
            let tag = le_val(attr.subrange(co, co + 4)) as u32;
            let target = if (tag == 0xA000000C || tag == 0xA0000003) && attr.len() - co >= 20 {
                let sno = le_val(attr.subrange(co + 8, co + 10));
                let snl = le_val(attr.subrange(co + 10, co + 12));
                if co + 20 + sno + snl <= attr.len() {
                    let units = utf16_units(attr.subrange(co + 20 + sno, co + 20 + sno + snl));
                    if utf16_valid(units) {
                        Some(utf16_decode(units))
                    } else {
                        None
                    }
                } else {
                    None
                }
            } else {
                None
            };
            Some((tag, target))
        }
    }
}

/// Decodes a REPARSE_POINT attribute.
pub fn parse_reparse_point(attr: &[u8]) -> (r: Option<(u32, Option<String>)>)
    ensures
        r is Some <==> spec_parse_reparse_point(attr@) is Some,
        r matches Some(p) ==> spec_parse_reparse_point(attr@) matches Some(sp) && p.0 == sp.0
            && view_opt_str(&p.1) == sp.1,
{
    let alen: usize = attr.len();
    if alen < 22 {
        return None;
    }
    let co = read_u16(attr, 20) as usize;
    if co + 8 > alen {
        return None;
    }
    let tag = read_u32(attr, co);
    let target: Option<String> = if (tag == 0xA000000C || tag == 0xA0000003) && alen - co >= 20 {
        let sno = read_u16(attr, co + 8) as usize;
        let snl = read_u16(attr, co + 10) as usize;
        if co + 20 + sno + snl <= alen {
            let start = co + 20 + sno;
            let even_len = snl - snl % 2;
            let ghost full = attr@.subrange(start as int, start + snl);
            let ghost trimmed = attr@.subrange(start as int, start + even_len);
            proof {
                assert(utf16_units(full) =~= utf16_units(trimmed));
            }
            let units = gather_utf16_units(attr, start, start + even_len);
            utf16_to_string(&units)
        } else {
            None
        }
    } else {
        None
    };
    Some((tag, target))
}

} // verus!
