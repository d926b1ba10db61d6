//! The record assembler: walks the attribute stream of one candidate MFT
//! record and merges the decoded attributes into an entry.
//!
//! The walk is specified by a recursive function over the record bytes; the
//! executable walker is proved to accumulate exactly what that function
//! collects, and the assembled entry is proved equal, field by field, to the
//! specified decoding of the record.

use vstd::prelude::*;

use crate::attrs::{ATTR_DATA, ATTR_EA_INFORMATION, ATTR_FILE_NAME, ATTR_OBJECT_ID,
    ATTR_REPARSE_POINT, ATTR_STANDARD_INFORMATION, StdInfo, parse_attr_header,
    parse_data_attribute, parse_filename, parse_object_id, parse_reparse_point,
    parse_standard_information, spec_parse_attr_header, spec_parse_data_attribute,
    spec_parse_filename, spec_parse_object_id, spec_parse_reparse_point,
    spec_parse_standard_information, view_opt_reparse, view_opt_str};
use crate::bytes::le_val;
use crate::model::{AlternateFilename, AlternateFilenameView, DataStream, DataStreamView,
    FileNameAttr, FileNameAttrView, NtfsEntry, NtfsEntryView};

verus! {

/// Everything the walker accumulates over one record's attribute stream.
#[verifier::ext_equal]
pub ghost struct CollectedView {
    pub filenames: Seq<FileNameAttrView>,
    pub streams: Seq<DataStreamView>,
    pub std_info: Option<StdInfo>,
    pub object_id: Option<Seq<char>>,
    pub reparse: Option<(u32, Option<Seq<char>>)>,
    pub has_ea: bool,
}

/// The walker's starting state: nothing collected.
pub open spec fn empty_collected() -> CollectedView {
    CollectedView {
        filenames: Seq::empty(),
        streams: Seq::empty(),
        std_info: None,
        object_id: None,
        reparse: None,
        has_ea: false,
    }
}

/// One step of the walk: how a single attribute changes the accumulated
/// state. FILE_NAME and DATA accumulate every occurrence in order; the
/// first decodable STANDARD_INFORMATION, OBJECT_ID and REPARSE_POINT are
/// retained; EA_INFORMATION sets a flag; other types are ignored.
pub open spec fn collect_step(
    acc: CollectedView,
    attr: Seq<u8>,
    ty: u32,
    non_resident: bool,
    name: Option<Seq<char>>,
) -> CollectedView {
    if ty == ATTR_FILE_NAME {
        match spec_parse_filename(attr) {
            Some(f) => CollectedView { filenames: acc.filenames.push(f), ..acc },
            None => acc,
        }
    } else if ty == ATTR_DATA {
        match spec_parse_data_attribute(attr, name, non_resident) {
            Some(s) => CollectedView { streams: acc.streams.push(s), ..acc },
            None => acc,
        }
    } else if ty == ATTR_STANDARD_INFORMATION {
        if acc.std_info is None {
            match spec_parse_standard_information(attr) {
                Some(si) => CollectedView { std_info: Some(si), ..acc },
                None => acc,
            }
        } else {
            acc
        }
    } else if ty == ATTR_OBJECT_ID {
        if acc.object_id is None {
            CollectedView { object_id: spec_parse_object_id(attr), ..acc }
        } else {
            acc
        }
    } else if ty == ATTR_REPARSE_POINT {
        if acc.reparse is None {
            match spec_parse_reparse_point(attr) {
                Some(rp) => CollectedView { reparse: Some(rp), ..acc },
                None => acc,
            }
        } else {
            acc
        }
    } else if ty == ATTR_EA_INFORMATION {
        CollectedView { has_ea: true, ..acc }
    } else {
        acc
    }
}

/// The state collected by walking the attribute stream from `off`, starting
/// from `acc`. The walk ends at the end marker, a zero length, or any
/// bounds failure.
pub open spec fn spec_collect(rec: Seq<u8>, off: int, acc: CollectedView) -> CollectedView
    decreases rec.len() - off,
{
    match spec_parse_attr_header(rec, off) {
        None => acc,
        Some(h) => spec_collect(
            rec,
            off + h.len,
            collect_step(acc, rec.subrange(off, off + h.len), h.ty, h.non_resident, h.name),
        ),
    }
}

/// The first index at or after `i` whose namespace is `a` or `b`.
pub open spec fn find_ns_from(fns: Seq<FileNameAttrView>, i: int, a: u8, b: u8) -> Option<int>
    decreases fns.len() - i,
{
    if i < 0 || i >= fns.len() {
        None
    } else if fns[i].namespace == a || fns[i].namespace == b {
        Some(i)
    } else {
        find_ns_from(fns, i + 1, a, b)
    }
}

/// The canonical-filename index: the first Win32 or Win32&DOS name, else
/// the first POSIX name, else the first name.
pub open spec fn spec_main_index(fns: Seq<FileNameAttrView>) -> int {
    match find_ns_from(fns, 0, 1, 3) {
        Some(i) => i,
        None => match find_ns_from(fns, 0, 0, 0) {
            Some(i) => i,
            None => 0,
        },
    }
}

/// A found index lies in range.
pub proof fn lemma_find_ns_in_range(fns: Seq<FileNameAttrView>, i: int, a: u8, b: u8)
    requires
        find_ns_from(fns, i, a, b) is Some,
    ensures
        i <= find_ns_from(fns, i, a, b)->Some_0 < fns.len(),
    decreases fns.len() - i,
{
    if !(i < 0 || i >= fns.len()) && !(fns[i].namespace == a || fns[i].namespace == b) {
        lemma_find_ns_in_range(fns, i + 1, a, b);
    }
}

/// The canonical index lies in range whenever any name was collected.
pub proof fn lemma_main_index_in_range(fns: Seq<FileNameAttrView>)
    requires
        fns.len() > 0,
    ensures
        0 <= spec_main_index(fns) < fns.len(),
{
    if find_ns_from(fns, 0, 1, 3) is Some {
        lemma_find_ns_in_range(fns, 0, 1, 3);
    } else if find_ns_from(fns, 0, 0, 0) is Some {
        lemma_find_ns_in_range(fns, 0, 0, 0);
    }
}

/// The view of an alternate filename kept from a FILE_NAME attribute.
pub open spec fn alt_of(f: FileNameAttrView) -> AlternateFilenameView {
    AlternateFilenameView { name: f.name, namespace: f.namespace }
}

/// The alternate filenames projected from the names left after selection.
pub open spec fn alts_of(fns: Seq<FileNameAttrView>) -> Seq<AlternateFilenameView> {
    fns.map_values(|f: FileNameAttrView| alt_of(f))
}

/// The canonical name of a decoded entry comes from exactly one collected
/// FILE_NAME attribute, selected by the namespace rule; every other
/// collected name becomes an alternate, in its original order. The 64-bit
/// parent reference of the selected name splits into its low 48 bits (the
/// parent record number) and its high 16 bits (the parent sequence).
pub proof fn lemma_entry_names_and_parent(image: Seq<u8>, idx: int, record_size: int)
    requires
        spec_parse_record(image, idx, record_size) is Some,
    ensures
        ({
            let e = spec_parse_record(image, idx, record_size)->Some_0;
            let rec = image.subrange(idx, idx + record_size);
            let c = spec_collect(rec, le_val(rec.subrange(20, 22)), empty_collected());
            let mi = spec_main_index(c.filenames);
            &&& c.filenames.len() > 0
            &&& 0 <= mi < c.filenames.len()
            &&& e.filename == c.filenames[mi].name
            &&& e.alternate_filenames.len() + 1 == c.filenames.len()
            &&& (forall|j: int| 0 <= j < e.alternate_filenames.len()
                ==> #[trigger] e.alternate_filenames[j] == alt_of(c.filenames.remove(mi)[j]))
            &&& e.parent_mft_record == c.filenames[mi].parent_reference & 0x0000_FFFF_FFFF_FFFF
            &&& e.parent_mft_record < 0x1_0000_0000_0000
            &&& e.parent_sequence == (c.filenames[mi].parent_reference >> 48) & 0xFFFF
            &&& ((forall|j: int| 0 <= j < c.filenames.len()
                ==> (#[trigger] c.filenames[j].name).len() > 0) ==> e.filename.len() > 0)
        }),
{
    let e = spec_parse_record(image, idx, record_size)->Some_0;
    let rec = image.subrange(idx, idx + record_size);
    let c = spec_collect(rec, le_val(rec.subrange(20, 22)), empty_collected());
    let mi = spec_main_index(c.filenames);
    lemma_main_index_in_range(c.filenames);
    let pr = c.filenames[mi].parent_reference;
    assert(pr & 0x0000_FFFF_FFFF_FFFF < 0x1_0000_0000_0000) by (bit_vector);
    assert((pr >> 48) & 0xFFFF <= 0xFFFF) by (bit_vector);
    assert(c.filenames.remove(mi).len() == c.filenames.len() - 1);
}

/// The meaning of the candidate record at `idx`: None unless the bytes
/// begin with `FILE`, the whole record lies within the image, and at least
/// one FILE_NAME attribute decodes; otherwise the assembled entry.
pub open spec fn spec_parse_record(image: Seq<u8>, idx: int, record_size: int) -> Option<
    NtfsEntryView,
> {
    if idx + 4 > image.len() {
        None
    } else if !(image[idx] == 0x46 && image[idx + 1] == 0x49 && image[idx + 2] == 0x4C
        && image[idx + 3] == 0x45) {
        None
    } else if idx + record_size > image.len() {
        None
    } else {
        let rec = image.subrange(idx, idx + record_size);
        let c = spec_collect(rec, le_val(rec.subrange(20, 22)), empty_collected());
        if c.filenames.len() == 0 {
            None
        } else {
            let mi = spec_main_index(c.filenames);
            let main = c.filenames[mi];
            let flags = le_val(rec.subrange(22, 24)) as u16;
            Some(
                NtfsEntryView {
                    mft_offset: idx as u64,
                    mft_record_number: le_val(rec.subrange(44, 48)) as u64,
                    sequence_number: le_val(rec.subrange(16, 18)) as u16,
                    hardlink_count: le_val(rec.subrange(18, 20)) as u16,
                    is_in_use: flags & 0x01 != 0,
                    is_directory: flags & 0x02 != 0,
                    filename: main.name,
                    parent_mft_record: main.parent_reference & 0x0000_FFFF_FFFF_FFFF,
                    parent_sequence: ((main.parent_reference >> 48) & 0xFFFF) as u16,
                    allocated_size: main.allocated_size,
                    real_size: main.real_size,
                    created: match c.std_info {
                        Some(si) => Some(si.created),
                        None => None,
                    },
                    modified: match c.std_info {
                        Some(si) => Some(si.modified),
                        None => None,
                    },
                    mft_modified: match c.std_info {
                        Some(si) => Some(si.mft_modified),
                        None => None,
                    },
                    accessed: match c.std_info {
                        Some(si) => Some(si.accessed),
                        None => None,
                    },
                    file_attributes: match c.std_info {
                        Some(si) => Some(si.file_attributes),
                        None => None,
                    },
                    owner_id: match c.std_info {
                        Some(si) => si.owner_id,
                        None => None,
                    },
                    security_id: match c.std_info {
                        Some(si) => si.security_id,
                        None => None,
                    },
                    usn: match c.std_info {
                        Some(si) => si.usn,
                        None => None,
                    },
                    object_id: c.object_id,
                    alternate_filenames: alts_of(c.filenames.remove(mi)),
                    data_streams: c.streams,
                    reparse_tag: match c.reparse {
                        Some(rp) => Some(rp.0),
                        None => None,
                    },
                    reparse_target: match c.reparse {
                        Some(rp) => rp.1,
                        None => None,
                    },
                    has_extended_attributes: c.has_ea,
                },
            )
        }
    }
}

/// The first index at or after `i` whose namespace is `a` or `b`, found by
/// a forward search.
fn position_namespace(v: &Vec<FileNameAttr>, a: u8, b: u8) -> (r: Option<usize>)
    ensures
        r is Some <==> find_ns_from(v.deep_view(), 0, a, b) is Some,
        r matches Some(i) ==> find_ns_from(v.deep_view(), 0, a, b) == Some(i as int),
{
    let ghost fns = v.deep_view();
    let n = v.len();
    proof {
        assert(fns.len() == v@.len());
    }
    let mut i: usize = 0;
    while i < n
        invariant_except_break
            i <= n == v@.len(),
            fns == v.deep_view(),
            fns.len() == v@.len(),
            find_ns_from(fns, 0, a, b) == find_ns_from(fns, i as int, a, b),
        ensures
            (find_ns_from(fns, 0, a, b) is Some <==> i < n),
            i < n ==> find_ns_from(fns, 0, a, b) == Some(i as int),
        decreases n - i,
    {
        proof {
            assert(fns[i as int] == v@[i as int].deep_view());
        }
        let ns = v[i].namespace;
        if ns == a || ns == b {
            break;
        }
        i = i + 1;
    }
    if i < n {
        Some(i)
    } else {
        None
    }
}

/// Decodes the 1024-byte (or caller-sized) candidate record at
/// `current_idx`: None on a missing `FILE` signature, a truncated record,
/// or a record without any decodable FILE_NAME attribute.
pub fn parse_ntfs_record(disk_image_buffer: &[u8], current_idx: usize, record_size: usize) -> (r:
    Option<NtfsEntry>)
    requires
        record_size >= 48,
    ensures
        r is Some <==> spec_parse_record(disk_image_buffer@, current_idx as int,
            record_size as int,
        ) is Some,
        r matches Some(e) ==> spec_parse_record(disk_image_buffer@, current_idx as int,
            record_size as int,
        ) matches Some(se) && e@ == se,
{
    let blen: usize = disk_image_buffer.len();
    if blen < 4 || current_idx > blen - 4 {
        return None;
    }
    if !(disk_image_buffer[current_idx] == 0x46 && disk_image_buffer[current_idx + 1] == 0x49
        && disk_image_buffer[current_idx + 2] == 0x4C && disk_image_buffer[current_idx + 3]
        == 0x45) {
        return None;
    }
    if record_size > blen - current_idx {
        return None;
    }
    let record = vstd::slice::slice_subrange(disk_image_buffer, current_idx, current_idx
        + record_size);
    let ghost rec = disk_image_buffer@.subrange(current_idx as int, current_idx + record_size);
    let sequence_number = crate::bytes::read_u16(record, 16);
    let hardlink_count = crate::bytes::read_u16(record, 18);
    let first_attr_offset = crate::bytes::read_u16(record, 20) as usize;
    let flags = crate::bytes::read_u16(record, 22);
    let mft_record_number = crate::bytes::read_u32(record, 44) as u64;
    let is_in_use = flags & 0x01 != 0;
    let is_directory = flags & 0x02 != 0;

    let mut all_filenames: Vec<FileNameAttr> = Vec::new();
    let mut data_streams: Vec<DataStream> = Vec::new();
    let mut std_info: Option<StdInfo> = None;
    let mut object_id: Option<String> = None;
    let mut reparse: Option<(u32, Option<String>)> = None;
    let mut has_ea = false;
    let mut offset: usize = first_attr_offset;

    proof {
        assert(all_filenames.deep_view() =~= Seq::<FileNameAttrView>::empty());
        assert(data_streams.deep_view() =~= Seq::<DataStreamView>::empty());
        assert(CollectedView {
            filenames: all_filenames.deep_view(),
            streams: data_streams.deep_view(),
            std_info: std_info,
            object_id: view_opt_str(&object_id),
            reparse: view_opt_reparse(&reparse),
            has_ea: has_ea,
        } =~= empty_collected());
    }
    loop
        invariant_except_break
            record_size >= 48,
            record@ == rec,
            rec.len() == record_size,
            spec_collect(rec, first_attr_offset as int, empty_collected()) == spec_collect(
                rec,
                offset as int,
                CollectedView {
                    filenames: all_filenames.deep_view(),
                    streams: data_streams.deep_view(),
                    std_info: std_info,
                    object_id: view_opt_str(&object_id),
                    reparse: view_opt_reparse(&reparse),
                    has_ea: has_ea,
                },
            ),
        ensures
            record@ == rec,
            spec_collect(rec, first_attr_offset as int, empty_collected()) == (CollectedView {
                filenames: all_filenames.deep_view(),
                streams: data_streams.deep_view(),
                std_info: std_info,
                object_id: view_opt_str(&object_id),
                reparse: view_opt_reparse(&reparse),
                has_ea: has_ea,
            }),
        decreases rec.len() - offset,
    {
        let ghost acc = CollectedView {
            filenames: all_filenames.deep_view(),
            streams: data_streams.deep_view(),
            std_info: std_info,
            object_id: view_opt_str(&object_id),
            reparse: view_opt_reparse(&reparse),
            has_ea: has_ea,
        };
        match parse_attr_header(record, offset) {
            None => {
                break;
            },
            Some((attr_type, len, non_resident, attr_name)) => {
                let ghost h = spec_parse_attr_header(rec, offset as int)->Some_0;
                let attr = vstd::slice::slice_subrange(record, offset, offset + len);
                let ghost attr_s = rec.subrange(offset as int, offset + len);
                let ghost name_s = view_opt_str(&attr_name);
                if attr_type == ATTR_FILE_NAME {
                    match parse_filename(attr) {
                        Some(fname) => {
                            proof {
                                assert(all_filenames.deep_view().push(fname@)
                                    =~= collect_step(acc, attr_s, h.ty, h.non_resident, h.name)
                                    .filenames);
                            }
                            all_filenames.push(fname);
                            proof {
                                assert(all_filenames.deep_view() =~= acc.filenames.push(fname@));
                            }
                        },
                        None => {},
                    }
                } else if attr_type == ATTR_DATA {
                    match parse_data_attribute(attr, attr_name, non_resident) {
                        Some(stream) => {
                            data_streams.push(stream);
                            proof {
                                assert(data_streams.deep_view() =~= acc.streams.push(
                                    spec_parse_data_attribute(attr_s, name_s, non_resident)
                                        ->Some_0,
                                ));
                            }
                        },
                        None => {},
                    }
                } else if attr_type == ATTR_STANDARD_INFORMATION {
                    if std_info.is_none() {
                        match parse_standard_information(attr) {
                            Some(si) => {
                                std_info = Some(si);
                            },
                            None => {},
                        }
                    }
                } else if attr_type == ATTR_OBJECT_ID {
                    if object_id.is_none() {
                        object_id = parse_object_id(attr);
                    }
                } else if attr_type == ATTR_REPARSE_POINT {
                    if reparse.is_none() {
                        match parse_reparse_point(attr) {
                            Some(p) => {
                                reparse = Some(p);
                            },
                            None => {},
                        }
                    }
                } else if attr_type == ATTR_EA_INFORMATION {
                    has_ea = true;
                }
                proof {
                    let acc2 = CollectedView {
                        filenames: all_filenames.deep_view(),
                        streams: data_streams.deep_view(),
                        std_info: std_info,
                        object_id: view_opt_str(&object_id),
                        reparse: view_opt_reparse(&reparse),
                        has_ea: has_ea,
                    };
                    assert(acc2 =~= collect_step(acc, attr_s, h.ty, h.non_resident, h.name));
                }
                offset = offset + len;
            },
        }
    }
    let ghost c = spec_collect(rec, first_attr_offset as int, empty_collected());

    if all_filenames.is_empty() {
        return None;
    }

    proof {
        lemma_main_index_in_range(c.filenames);
    }
    let main_idx = match position_namespace(&all_filenames, 1, 3) {
        Some(i) => i,
        None => match position_namespace(&all_filenames, 0, 0) {
            Some(i) => i,
            None => 0,
        },
    };
    proof {
        assert(main_idx as int == spec_main_index(c.filenames));
    }
    let main = all_filenames.remove(main_idx);
    let parent_mft_record = main.parent_reference & 0x0000_FFFF_FFFF_FFFF;
    let shifted = (main.parent_reference >> 48) & 0xFFFF;
    proof {
        let pr = main.parent_reference;
        assert((pr >> 48) & 0xFFFF <= 0xFFFF) by (bit_vector);
    }
    let parent_sequence = shifted as u16;

    let mut alternate_filenames: Vec<AlternateFilename> = Vec::new();
    let ghost rem = c.filenames.remove(spec_main_index(c.filenames));
    proof {
        assert(all_filenames.deep_view() =~= rem);
    }
    let alen = all_filenames.len();
    let mut i: usize = 0;
    while i < alen
        invariant
            i <= alen == all_filenames@.len(),
            all_filenames.deep_view() == rem,
            rem.len() == all_filenames@.len(),
            alternate_filenames.deep_view() == alts_of(rem.take(i as int)),
        decreases alen - i,
    {
        proof {
            assert(rem[i as int] == all_filenames@[i as int].deep_view());
        }
        let f = &all_filenames[i];
        let alt = AlternateFilename { name: f.name.clone(), namespace: f.namespace };
        alternate_filenames.push(alt);
        proof {
            let lhs = alternate_filenames.deep_view();
            let rhs = alts_of(rem.take(i + 1));
            assert(i < rem.len());
            assert(rem.take(i as int).len() == i as int);
            assert(alts_of(rem.take(i as int)).len() == i as int);
            assert(alternate_filenames@.len() == i + 1);
            assert(lhs.len() == i + 1);
            assert(rhs.len() == i + 1);
            assert forall|j: int| 0 <= j < lhs.len() implies lhs[j] == rhs[j] by {
                assert(lhs[j] == alternate_filenames@[j].deep_view());
                assert(rhs[j] == alt_of(rem.take(i + 1)[j]));
                if j < i {
                    assert(lhs[j] == alts_of(rem.take(i as int))[j]);
                    assert(alts_of(rem.take(i as int))[j] == alt_of(rem.take(i as int)[j]));
                } else {
                    assert(alternate_filenames@[j] == alt);
                }
            }
            assert(lhs =~= rhs);
        }
        i = i + 1;
    }
    proof {
        assert(rem.take(alen as int) =~= rem);
        assert(alternate_filenames.deep_view() == alts_of(rem));
    }

    let entry = NtfsEntry {
        mft_offset: current_idx as u64,
        mft_record_number,
        sequence_number,
        hardlink_count,
        is_in_use,
        is_directory,
        filename: main.name,
        parent_mft_record,
        parent_sequence,
        allocated_size: main.allocated_size,
        real_size: main.real_size,
        created: match &std_info {
            Some(si) => Some(si.created),
            None => None,
        },
        modified: match &std_info {
            Some(si) => Some(si.modified),
            None => None,
        },
        mft_modified: match &std_info {
            Some(si) => Some(si.mft_modified),
            None => None,
        },
        accessed: match &std_info {
            Some(si) => Some(si.accessed),
            None => None,
        },
        file_attributes: match &std_info {
            Some(si) => Some(si.file_attributes),
            None => None,
        },
        owner_id: match &std_info {
            Some(si) => si.owner_id,
            None => None,
        },
        security_id: match &std_info {
            Some(si) => si.security_id,
            None => None,
        },
        usn: match &std_info {
            Some(si) => si.usn,
            None => None,
        },
        object_id,
        alternate_filenames,
        data_streams,
        reparse_tag: match &reparse {
            Some(p) => Some(p.0),
            None => None,
        },
        reparse_target: match reparse {
            Some(p) => p.1,
            None => None,
        },
        has_extended_attributes: has_ea,
    };
    proof {
        let se = spec_parse_record(disk_image_buffer@, current_idx as int, record_size as int)
            ->Some_0;
        assert(entry@ =~= se);
    }
    Some(entry)
}

} // verus!
