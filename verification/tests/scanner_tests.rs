use ntfs_scan::attrs::{
    parse_attr_header, parse_data_attribute, parse_data_runs, parse_filename, parse_object_id,
    parse_reparse_point, parse_resident_data, parse_standard_information,
};
use ntfs_scan::model::{FileAttributes, Timestamp, filetime_to_utc};
use ntfs_scan::record::parse_ntfs_record;
use ntfs_scan::scan::scan_ntfs_image;

fn put_u16(buf: &mut [u8], off: usize, v: u16) {
    buf[off..off + 2].copy_from_slice(&v.to_le_bytes());
}

fn put_u32(buf: &mut [u8], off: usize, v: u32) {
    buf[off..off + 4].copy_from_slice(&v.to_le_bytes());
}

fn put_u64(buf: &mut [u8], off: usize, v: u64) {
    buf[off..off + 8].copy_from_slice(&v.to_le_bytes());
}

fn put_utf16(buf: &mut [u8], off: usize, s: &str) -> usize {
    let mut o = off;
    for u in s.encode_utf16() {
        put_u16(buf, o, u);
        o += 2;
    }
    o - off
}

/// A blank 1024-byte record with a FILE signature, first attribute at 56,
/// sequence number 5, one hard link, in-use flag set, record number 42.
fn blank_record() -> Vec<u8> {
    let mut rec = vec![0u8; 1024];
    rec[0..4].copy_from_slice(b"FILE");
    put_u16(&mut rec, 16, 5);
    put_u16(&mut rec, 18, 1);
    put_u16(&mut rec, 20, 56);
    put_u16(&mut rec, 22, 0x01);
    put_u32(&mut rec, 44, 42);
    rec
}

/// Writes a resident attribute header at `off` and returns nothing; the
/// content begins at `off + 24`.
fn write_resident_header(rec: &mut [u8], off: usize, ty: u32, attr_len: u32, content_len: u32) {
    put_u32(rec, off, ty);
    put_u32(rec, off + 4, attr_len);
    rec[off + 8] = 0;
    rec[off + 9] = 0;
    put_u16(rec, off + 10, 0);
    put_u32(rec, off + 16, content_len);
    put_u16(rec, off + 20, 24);
}

/// Writes a FILE_NAME attribute at `off`; returns the attribute length.
fn write_file_name(rec: &mut [u8], off: usize, parent: u64, namespace: u8, name: &str) -> usize {
    let n = name.encode_utf16().count();
    let content_len = 66 + 2 * n;
    let attr_len = (24 + content_len + 7) / 8 * 8;
    write_resident_header(rec, off, 0x30, attr_len as u32, content_len as u32);
    let c = off + 24;
    put_u64(rec, c, parent);
    put_u64(rec, c + 40, 4096);
    put_u64(rec, c + 48, 2016);
    rec[c + 64] = n as u8;
    rec[c + 65] = namespace;
    put_utf16(rec, c + 66, name);
    attr_len
}

/// Writes a STANDARD_INFORMATION attribute with the same FILETIME in all
/// four slots and the given flags word; returns the attribute length.
fn write_std_info(rec: &mut [u8], off: usize, ft: u64, flags: u32) -> usize {
    let attr_len = 24 + 48;
    write_resident_header(rec, off, 0x10, attr_len as u32, 48);
    let c = off + 24;
    put_u64(rec, c, ft);
    put_u64(rec, c + 8, ft);
    put_u64(rec, c + 16, ft);
    put_u64(rec, c + 24, ft);
    put_u32(rec, c + 32, flags);
    attr_len
}

/// Writes a resident DATA attribute carrying `data`; returns the length.
fn write_resident_data(rec: &mut [u8], off: usize, data: &[u8]) -> usize {
    let attr_len = (24 + data.len() + 7) / 8 * 8;
    write_resident_header(rec, off, 0x80, attr_len as u32, data.len() as u32);
    rec[off + 24..off + 24 + data.len()].copy_from_slice(data);
    attr_len
}

/// Writes a non-resident DATA attribute with the given run bytes at
/// attribute offset 64; returns the attribute length.
fn write_nonresident_data(rec: &mut [u8], off: usize, real: u64, alloc: u64, runs: &[u8]) -> usize {
    let attr_len = (64 + runs.len() + 7) / 8 * 8;
    put_u32(rec, off, 0x80);
    put_u32(rec, off + 4, attr_len as u32);
    rec[off + 8] = 1;
    put_u16(rec, off + 32, 64);
    put_u64(rec, off + 48, real);
    put_u64(rec, off + 56, alloc);
    rec[off + 64..off + 64 + runs.len()].copy_from_slice(runs);
    attr_len
}

fn write_end(rec: &mut [u8], off: usize) {
    put_u32(rec, off, 0xFFFFFFFF);
}

#[test]
fn empty_image_yields_nothing() {
    let image: Vec<u8> = Vec::new();
    let entries = scan_ntfs_image(&image);
    assert_eq!(entries.len(), 0);
}

#[test]
fn image_without_signature_yields_nothing() {
    let image = vec![0xABu8; 4096];
    let entries = scan_ntfs_image(&image);
    assert_eq!(entries.len(), 0);
}

#[test]
fn single_record_decodes() {
    let mut rec = blank_record();
    let mut off = 56;
    off += write_std_info(&mut rec, off, 131_000_000_000_000_000, 0x21);
    off += write_file_name(&mut rec, off, (7u64 << 48) | 5, 1, "readme.txt");
    off += write_resident_data(&mut rec, off, b"hello");
    write_end(&mut rec, off);

    let entries = scan_ntfs_image(&rec);
    assert_eq!(entries.len(), 1);
    let e = &entries[0];
    assert_eq!(e.mft_offset, 0);
    assert_eq!(e.mft_record_number, 42);
    assert_eq!(e.sequence_number, 5);
    assert_eq!(e.hardlink_count, 1);
    assert!(e.is_in_use);
    assert!(!e.is_directory);
    assert_eq!(e.filename, "readme.txt");
    assert_eq!(e.parent_mft_record, 5);
    assert_eq!(e.parent_sequence, 7);
    assert_eq!(e.allocated_size, 4096);
    assert_eq!(e.real_size, 2016);
    assert!(e.created.is_some());
    assert_eq!(e.created, Some(Timestamp { seconds: 1_455_526_400, nanos: 0 }));
    assert_eq!(e.modified, e.created);
    let fa = e.file_attributes.as_ref().unwrap();
    assert!(fa.readonly && fa.archive);
    assert!(!fa.hidden && !fa.encrypted);
    assert_eq!(e.data_streams.len(), 1);
    let s = &e.data_streams[0];
    assert!(s.resident);
    assert_eq!(s.size, 5);
    assert_eq!(s.allocated_size, 5);
    assert_eq!(s.resident_data.as_deref(), Some("hello"));
    assert!(s.data_runs.is_none());
    assert_eq!(e.alternate_filenames.len(), 0);
    assert!(!e.has_extended_attributes);
}

#[test]
fn dos_name_yields_to_win32_name() {
    let mut rec = blank_record();
    let mut off = 56;
    off += write_file_name(&mut rec, off, 5, 2, "README~1.TXT");
    off += write_file_name(&mut rec, off, 5, 1, "readme.txt");
    write_end(&mut rec, off);

    let entries = scan_ntfs_image(&rec);
    assert_eq!(entries.len(), 1);
    let e = &entries[0];
    assert_eq!(e.filename, "readme.txt");
    assert_eq!(e.alternate_filenames.len(), 1);
    assert_eq!(e.alternate_filenames[0].name, "README~1.TXT");
    assert_eq!(e.alternate_filenames[0].namespace, 2);
}

#[test]
fn posix_name_selected_when_no_win32() {
    let mut rec = blank_record();
    let mut off = 56;
    off += write_file_name(&mut rec, off, 5, 2, "SHORT~1.TXT");
    off += write_file_name(&mut rec, off, 5, 0, "longer-name.txt");
    write_end(&mut rec, off);

    let entries = scan_ntfs_image(&rec);
    assert_eq!(entries.len(), 1);
    assert_eq!(entries[0].filename, "longer-name.txt");
    assert_eq!(entries[0].alternate_filenames[0].name, "SHORT~1.TXT");
}

#[test]
fn first_name_selected_when_no_preference_applies() {
    let mut rec = blank_record();
    let mut off = 56;
    off += write_file_name(&mut rec, off, 5, 2, "FIRST~1.TXT");
    off += write_file_name(&mut rec, off, 5, 2, "SECOND~1.TXT");
    write_end(&mut rec, off);

    let entries = scan_ntfs_image(&rec);
    assert_eq!(entries.len(), 1);
    assert_eq!(entries[0].filename, "FIRST~1.TXT");
    assert_eq!(entries[0].alternate_filenames[0].name, "SECOND~1.TXT");
}

#[test]
fn nonresident_data_run_decodes() {
    let mut rec = blank_record();
    let mut off = 56;
    off += write_file_name(&mut rec, off, 5, 1, "big.bin");
    off += write_nonresident_data(&mut rec, off, 12288, 16384, &[0x21, 0x18, 0x34, 0x00, 0x00]);
    write_end(&mut rec, off);

    let entries = scan_ntfs_image(&rec);
    assert_eq!(entries.len(), 1);
    let s = &entries[0].data_streams[0];
    assert!(!s.resident);
    assert_eq!(s.size, 12288);
    assert_eq!(s.allocated_size, 16384);
    let runs = s.data_runs.as_ref().unwrap();
    assert_eq!(runs.len(), 1);
    assert_eq!(runs[0].cluster_offset, 52);
    assert_eq!(runs[0].cluster_count, 24);
}

#[test]
fn sparse_run_then_real_run() {
    let mut rec = blank_record();
    let mut off = 56;
    off += write_file_name(&mut rec, off, 5, 1, "sparse.bin");
    off += write_nonresident_data(&mut rec, off, 0, 0, &[0x01, 0x10, 0x11, 0x20, 0x40, 0x00]);
    write_end(&mut rec, off);

    let entries = scan_ntfs_image(&rec);
    let runs = entries[0].data_streams[0].data_runs.as_ref().unwrap();
    assert_eq!(runs.len(), 2);
    assert_eq!(runs[0].cluster_offset, 0);
    assert_eq!(runs[0].cluster_count, 16);
    assert_eq!(runs[1].cluster_offset, 64);
    assert_eq!(runs[1].cluster_count, 32);
}

#[test]
fn negative_delta_moves_cluster_backwards() {
    let mut attr = vec![0u8; 72];
    put_u16(&mut attr, 32, 64);
    attr[64..71].copy_from_slice(&[0x11, 0x10, 0x20, 0x11, 0x08, 0xF0, 0x00]);
    let runs = parse_data_runs(&attr).unwrap();
    assert_eq!(runs.len(), 2);
    assert_eq!(runs[0].cluster_offset, 32);
    assert_eq!(runs[0].cluster_count, 16);
    assert_eq!(runs[1].cluster_offset, 16);
    assert_eq!(runs[1].cluster_count, 8);
}

#[test]
fn end_marker_only_yields_no_entry() {
    let mut rec = blank_record();
    write_end(&mut rec, 56);
    let entries = scan_ntfs_image(&rec);
    assert_eq!(entries.len(), 0);
}

#[test]
fn corrupt_length_yields_no_entry() {
    let mut rec = blank_record();
    put_u32(&mut rec, 56, 0x30);
    put_u32(&mut rec, 60, 0xFFFFFFFF);
    let entries = scan_ntfs_image(&rec);
    assert_eq!(entries.len(), 0);
}

#[test]
fn corrupt_length_keeps_earlier_names() {
    let mut rec = blank_record();
    let mut off = 56;
    off += write_file_name(&mut rec, off, 5, 1, "kept.txt");
    put_u32(&mut rec, off, 0x80);
    put_u32(&mut rec, off + 4, 0xFFFFFFFF);
    let entries = scan_ntfs_image(&rec);
    assert_eq!(entries.len(), 1);
    assert_eq!(entries[0].filename, "kept.txt");
    assert_eq!(entries[0].data_streams.len(), 0);
}

#[test]
fn two_records_yield_increasing_offsets() {
    let mut image = vec![0u8; 2048];
    for base in [0usize, 1024] {
        let mut rec = blank_record();
        let mut off = 56;
        off += write_file_name(&mut rec, off, 5, 1, "a.txt");
        write_end(&mut rec, off);
        image[base..base + 1024].copy_from_slice(&rec);
    }
    let entries = scan_ntfs_image(&image);
    assert_eq!(entries.len(), 2);
    assert_eq!(entries[0].mft_offset, 0);
    assert_eq!(entries[1].mft_offset, 1024);
    assert!(entries[0].mft_offset < entries[1].mft_offset);
}

#[test]
fn truncated_record_yields_no_entry() {
    let mut image = vec![0u8; 512];
    image[0..4].copy_from_slice(b"FILE");
    let entries = scan_ntfs_image(&image);
    assert_eq!(entries.len(), 0);
}

#[test]
fn random_bytes_terminate_without_panic() {
    // A deterministic pseudo-random image: the scan must terminate and
    // yield only records that decode.
    let mut image = vec![0u8; 8192];
    let mut x: u32 = 0x12345678;
    for b in image.iter_mut() {
        x = x.wrapping_mul(1664525).wrapping_add(1013904223);
        *b = (x >> 24) as u8;
    }
    let entries = scan_ntfs_image(&image);
    assert!(entries.len() <= 8192 / 8);
}

#[test]
fn flags_decode_exactly() {
    let fa = FileAttributes::from_flags(0x4005);
    assert!(fa.readonly);
    assert!(fa.system);
    assert!(fa.encrypted);
    assert!(!fa.hidden);
    assert!(!fa.directory);
    assert!(!fa.archive);
    assert!(!fa.device);
    assert!(!fa.normal);
    assert!(!fa.temporary);
    assert!(!fa.sparse_file);
    assert!(!fa.reparse_point);
    assert!(!fa.compressed);
    assert!(!fa.offline);
    assert!(!fa.not_content_indexed);
}

#[test]
fn filetime_decodes_known_value() {
    let t = filetime_to_utc(131_000_000_000_000_000).unwrap();
    assert_eq!(t.seconds, 1_455_526_400);
    assert_eq!(t.nanos, 0);
}

#[test]
fn filetime_zero_is_absent() {
    assert!(filetime_to_utc(0).is_none());
}

#[test]
fn filetime_keeps_subsecond_ticks() {
    let t = filetime_to_utc(131_000_000_000_000_001).unwrap();
    assert_eq!(t.seconds, 1_455_526_400);
    assert_eq!(t.nanos, 100);
    // Re-encoding restores the tick count.
    let ft = (t.seconds + 11_644_473_600) as u64 * 10_000_000 + (t.nanos / 100) as u64;
    assert_eq!(ft, 131_000_000_000_000_001);
}

#[test]
fn object_id_formats_with_byte_swap() {
    let mut attr = vec![0u8; 40];
    write_resident_header(&mut attr, 0, 0x40, 40, 16);
    for i in 0..16 {
        attr[24 + i] = i as u8;
    }
    let s = parse_object_id(&attr).unwrap();
    assert_eq!(s, "03020100-0504-0706-0809-0a0b0c0d0e0f");
}

#[test]
fn object_id_matches_guid_shape() {
    let mut attr = vec![0u8; 40];
    write_resident_header(&mut attr, 0, 0x40, 40, 16);
    for i in 0..16 {
        attr[24 + i] = (0xF0 + i) as u8;
    }
    let s = parse_object_id(&attr).unwrap();
    assert_eq!(s.len(), 36);
    for (j, c) in s.chars().enumerate() {
        if j == 8 || j == 13 || j == 18 || j == 23 {
            assert_eq!(c, '-');
        } else {
            assert!(c.is_ascii_hexdigit() && !c.is_ascii_uppercase());
        }
    }
}

#[test]
fn reparse_symlink_target_decodes() {
    let mut rec = blank_record();
    let mut off = 56;
    off += write_file_name(&mut rec, off, 5, 1, "link");
    let content_len = 20 + 8;
    let attr_len = (24 + content_len + 7) / 8 * 8;
    write_resident_header(&mut rec, off, 0xC0, attr_len as u32, content_len as u32);
    let c = off + 24;
    put_u32(&mut rec, c, 0xA000000C);
    put_u16(&mut rec, c + 8, 0);
    put_u16(&mut rec, c + 10, 8);
    put_utf16(&mut rec, c + 20, "C:\\T");
    off += attr_len;
    write_end(&mut rec, off);

    let entries = scan_ntfs_image(&rec);
    let e = &entries[0];
    assert_eq!(e.reparse_tag, Some(0xA000000C));
    assert_eq!(e.reparse_target.as_deref(), Some("C:\\T"));
}

#[test]
fn reparse_other_tag_has_no_target() {
    let mut attr = vec![0u8; 56];
    write_resident_header(&mut attr, 0, 0xC0, 56, 28);
    put_u32(&mut attr, 24, 0x80000017);
    let (tag, target) = parse_reparse_point(&attr).unwrap();
    assert_eq!(tag, 0x80000017);
    assert!(target.is_none());
}

#[test]
fn ea_information_sets_flag() {
    let mut rec = blank_record();
    let mut off = 56;
    off += write_file_name(&mut rec, off, 5, 1, "ea.txt");
    write_resident_header(&mut rec, off, 0xD0, 32, 8);
    off += 32;
    write_end(&mut rec, off);
    let entries = scan_ntfs_image(&rec);
    assert!(entries[0].has_extended_attributes);
}

#[test]
fn resident_non_ascii_utf8_decodes() {
    let mut rec = blank_record();
    let mut off = 56;
    off += write_file_name(&mut rec, off, 5, 1, "e.txt");
    off += write_resident_data(&mut rec, off, &[0xC3, 0xA9]);
    write_end(&mut rec, off);
    let entries = scan_ntfs_image(&rec);
    let s = &entries[0].data_streams[0];
    assert_eq!(s.size, 2);
    assert_eq!(s.resident_data.as_deref(), Some("\u{e9}"));
}

#[test]
fn resident_invalid_utf8_keeps_stream_without_text() {
    let mut rec = blank_record();
    let mut off = 56;
    off += write_file_name(&mut rec, off, 5, 1, "bin.dat");
    off += write_resident_data(&mut rec, off, &[0xFF, 0xC0, 0x00]);
    write_end(&mut rec, off);
    let entries = scan_ntfs_image(&rec);
    let s = &entries[0].data_streams[0];
    assert_eq!(s.size, 3);
    assert!(s.resident_data.is_none());
}

#[test]
fn filename_with_surrogate_pair_decodes() {
    let mut rec = blank_record();
    let mut off = 56;
    off += write_file_name(&mut rec, off, 5, 1, "a\u{1F600}");
    write_end(&mut rec, off);
    let entries = scan_ntfs_image(&rec);
    assert_eq!(entries[0].filename, "a\u{1F600}");
}

#[test]
fn lone_surrogate_name_is_dropped() {
    let mut rec = blank_record();
    let off = 56;
    // A FILE_NAME whose single code unit is an unpaired high surrogate.
    let content_len = 66 + 2;
    let attr_len = (24 + content_len + 7) / 8 * 8;
    write_resident_header(&mut rec, off, 0x30, attr_len as u32, content_len as u32);
    let c = off + 24;
    put_u64(&mut rec, c, 5);
    rec[c + 64] = 1;
    rec[c + 65] = 1;
    put_u16(&mut rec, c + 66, 0xD800);
    write_end(&mut rec, off + attr_len);

    let entries = scan_ntfs_image(&rec);
    assert_eq!(entries.len(), 0);
}

#[test]
fn std_info_with_extended_fields() {
    let mut attr = vec![0u8; 24 + 72];
    put_u32(&mut attr, 0, 0x10);
    put_u32(&mut attr, 4, 96);
    put_u32(&mut attr, 16, 72);
    put_u16(&mut attr, 20, 24);
    let c = 24;
    for k in 0..4 {
        put_u64(&mut attr, c + 8 * k, 116_444_736_000_000_000);
    }
    put_u32(&mut attr, c + 32, 0x02);
    put_u32(&mut attr, c + 48, 1001);
    put_u32(&mut attr, c + 52, 2002);
    put_u64(&mut attr, c + 64, 777);
    let si = parse_standard_information(&attr).unwrap();
    assert_eq!(si.created.seconds, 0);
    assert_eq!(si.created.nanos, 0);
    assert!(si.file_attributes.hidden);
    assert_eq!(si.owner_id, Some(1001));
    assert_eq!(si.security_id, Some(2002));
    assert_eq!(si.usn, Some(777));
}

#[test]
fn std_info_zero_timestamp_discards_block() {
    let mut rec = blank_record();
    let mut off = 56;
    off += write_std_info(&mut rec, off, 0, 0x01);
    off += write_file_name(&mut rec, off, 5, 1, "no-times.txt");
    write_end(&mut rec, off);
    let entries = scan_ntfs_image(&rec);
    let e = &entries[0];
    assert!(e.created.is_none());
    assert!(e.file_attributes.is_none());
}

#[test]
fn attr_header_reads_name() {
    let mut attr = vec![0u8; 48];
    put_u32(&mut attr, 0, 0x80);
    put_u32(&mut attr, 4, 48);
    attr[8] = 1;
    attr[9] = 2;
    put_u16(&mut attr, 10, 24);
    put_utf16(&mut attr, 24, "AD");
    let (ty, len, non_resident, name) = parse_attr_header(&attr, 0).unwrap();
    assert_eq!(ty, 0x80);
    assert_eq!(len, 48);
    assert!(non_resident);
    assert_eq!(name.as_deref(), Some("AD"));
}

#[test]
fn attr_header_stops_on_end_marker() {
    let mut attr = vec![0u8; 32];
    put_u32(&mut attr, 0, 0xFFFFFFFF);
    assert!(parse_attr_header(&attr, 0).is_none());
}

#[test]
fn filename_decoder_reads_fields() {
    let mut attr = vec![0u8; 112];
    let _ = write_file_name(&mut attr, 0, (9u64 << 48) | 0x1234, 3, "x.y");
    let f = parse_filename(&attr).unwrap();
    assert_eq!(f.name, "x.y");
    assert_eq!(f.parent_reference, (9u64 << 48) | 0x1234);
    assert_eq!(f.namespace, 3);
    assert_eq!(f.allocated_size, 4096);
    assert_eq!(f.real_size, 2016);
}

#[test]
fn resident_data_bounds_failure_is_none() {
    let mut attr = vec![0u8; 32];
    put_u32(&mut attr, 16, 100);
    put_u16(&mut attr, 20, 24);
    assert!(parse_resident_data(&attr).is_none());
}

#[test]
fn data_attribute_resident_roundtrip() {
    let mut attr = vec![0u8; 32];
    write_resident_header(&mut attr, 0, 0x80, 32, 5);
    attr[24..29].copy_from_slice(b"bytes");
    let s = parse_data_attribute(&attr, Some(String::from("ads")), false).unwrap();
    assert_eq!(s.name.as_deref(), Some("ads"));
    assert!(s.resident);
    assert_eq!(s.size, 5);
    assert_eq!(s.resident_data.as_deref(), Some("bytes"));
}

#[test]
fn record_parser_rejects_bad_signature() {
    let mut rec = blank_record();
    rec[0] = b'B';
    assert!(parse_ntfs_record(&rec, 0, 1024).is_none());
}

#[test]
fn record_parser_rejects_short_image() {
    let rec = vec![0u8; 2];
    assert!(parse_ntfs_record(&rec, 0, 1024).is_none());
}
