//! The output model: the entry yielded per decoded MFT record, and the
//! pieces it is assembled from.
//!
//! Every type is a plain aggregate of owned values; nothing borrows from the
//! scanned image. Timestamps are UTC instants with 100-nanosecond resolution,
//! held as seconds since the Unix epoch plus a nanosecond remainder.

use vstd::prelude::*;

verus! {

/// A UTC instant: non-leap seconds since 1970-01-01, plus nanoseconds.
///
/// Windows FILETIME values decode into this with 100-nanosecond resolution.
#[derive(Debug, Clone, Copy, PartialEq, Eq, Structural)]
pub struct Timestamp {
    pub seconds: i64,
    pub nanos: u32,
}

/// The fourteen file-attribute flag bits of STANDARD_INFORMATION, decoded.
#[derive(Debug, Clone, Copy, PartialEq, Eq, Structural)]
pub struct FileAttributes {
    pub readonly: bool,
    pub hidden: bool,
    pub system: bool,
    pub directory: bool,
    pub archive: bool,
    pub device: bool,
    pub normal: bool,
    pub temporary: bool,
    pub sparse_file: bool,
    pub reparse_point: bool,
    pub compressed: bool,
    pub offline: bool,
    pub not_content_indexed: bool,
    pub encrypted: bool,
}

/// The decoded form of a file-attribute flags word.
pub open spec fn spec_file_attributes(flags: u32) -> FileAttributes {
    FileAttributes {
        readonly: flags & 0x01 != 0,
        hidden: flags & 0x02 != 0,
        system: flags & 0x04 != 0,
        directory: flags & 0x10 != 0,
        archive: flags & 0x20 != 0,
        device: flags & 0x40 != 0,
        normal: flags & 0x80 != 0,
        temporary: flags & 0x100 != 0,
        sparse_file: flags & 0x200 != 0,
        reparse_point: flags & 0x400 != 0,
        compressed: flags & 0x800 != 0,
        offline: flags & 0x1000 != 0,
        not_content_indexed: flags & 0x2000 != 0,
        encrypted: flags & 0x4000 != 0,
    }
}

impl FileAttributes {
    /// Decodes the flags word of STANDARD_INFORMATION, one boolean per bit.
    pub fn from_flags(flags: u32) -> (r: Self)
        ensures
            r == spec_file_attributes(flags),
    {
        Self {
            readonly: flags & 0x01 != 0,
            hidden: flags & 0x02 != 0,
            system: flags & 0x04 != 0,
            directory: flags & 0x10 != 0,
            archive: flags & 0x20 != 0,
            device: flags & 0x40 != 0,
            normal: flags & 0x80 != 0,
            temporary: flags & 0x100 != 0,
            sparse_file: flags & 0x200 != 0,
            reparse_point: flags & 0x400 != 0,
            compressed: flags & 0x800 != 0,
            offline: flags & 0x1000 != 0,
            not_content_indexed: flags & 0x2000 != 0,
            encrypted: flags & 0x4000 != 0,
        }
    }
}

/// A filename carried by a FILE_NAME attribute that was not selected as the
/// canonical name.
#[derive(Debug, Clone)]
pub struct AlternateFilename {
    pub name: String,
    pub namespace: u8,
}

/// The mathematical image of an [`AlternateFilename`].
#[verifier::ext_equal]
pub ghost struct AlternateFilenameView {
    pub name: Seq<char>,
    pub namespace: u8,
}

impl View for AlternateFilename {
    type V = AlternateFilenameView;

    open spec fn view(&self) -> AlternateFilenameView {
        AlternateFilenameView { name: self.name@, namespace: self.namespace }
    }
}

impl DeepView for AlternateFilename {
    type V = AlternateFilenameView;

    open spec fn deep_view(&self) -> AlternateFilenameView {
        self.view()
    }
}

/// One extent of a non-resident stream: an absolute starting cluster and a
/// cluster count.
#[derive(Debug, Clone, Copy, PartialEq, Eq, Structural)]
pub struct DataRun {
    pub cluster_offset: i64,
    pub cluster_count: u64,
}

/// One DATA attribute of a record: resident bytes, or a cluster layout.
#[derive(Debug, Clone)]
pub struct DataStream {
    pub name: Option<String>,
    pub resident: bool,
    pub size: u64,
    pub allocated_size: u64,
    pub resident_data: Option<String>,
    pub data_runs: Option<Vec<DataRun>>,
}

/// The mathematical image of a [`DataStream`].
#[verifier::ext_equal]
pub ghost struct DataStreamView {
    pub name: Option<Seq<char>>,
    pub resident: bool,
    pub size: u64,
    pub allocated_size: u64,
    pub resident_data: Option<Seq<char>>,
    pub data_runs: Option<Seq<DataRun>>,
}

impl View for DataStream {
    type V = DataStreamView;

    open spec fn view(&self) -> DataStreamView {
        DataStreamView {
            name: match self.name {
                Some(s) => Some(s@),
                None => None,
            },
            resident: self.resident,
            size: self.size,
            allocated_size: self.allocated_size,
            resident_data: match self.resident_data {
                Some(s) => Some(s@),
                None => None,
            },
            data_runs: match self.data_runs {
                Some(v) => Some(v@),
                None => None,
            },
        }
    }
}

impl DeepView for DataStream {
    type V = DataStreamView;

    open spec fn deep_view(&self) -> DataStreamView {
        self.view()
    }
}

/// One FILE_NAME attribute, before canonical-name selection.
#[derive(Debug, Clone)]
pub struct FileNameAttr {
    pub name: String,
    pub parent_reference: u64,
    pub namespace: u8,
    pub allocated_size: u64,
    pub real_size: u64,
}

/// The mathematical image of a [`FileNameAttr`].
#[verifier::ext_equal]
pub ghost struct FileNameAttrView {
    pub name: Seq<char>,
    pub parent_reference: u64,
    pub namespace: u8,
    pub allocated_size: u64,
    pub real_size: u64,
}

impl View for FileNameAttr {
    type V = FileNameAttrView;

    open spec fn view(&self) -> FileNameAttrView {
        FileNameAttrView {
            name: self.name@,
            parent_reference: self.parent_reference,
            namespace: self.namespace,
            allocated_size: self.allocated_size,
            real_size: self.real_size,
        }
    }
}

impl DeepView for FileNameAttr {
    type V = FileNameAttrView;

    open spec fn deep_view(&self) -> FileNameAttrView {
        self.view()
    }
}

/// One decoded MFT record: the scanner's unit of output.
#[derive(Debug, Clone)]
pub struct NtfsEntry {
    pub mft_offset: u64,
    pub mft_record_number: u64,
    pub sequence_number: u16,
    pub hardlink_count: u16,
    pub is_in_use: bool,
    pub is_directory: bool,
    pub filename: String,
    pub parent_mft_record: u64,
    pub parent_sequence: u16,
    pub allocated_size: u64,
    pub real_size: u64,
    pub created: Option<Timestamp>,
    pub modified: Option<Timestamp>,
    pub mft_modified: Option<Timestamp>,
    pub accessed: Option<Timestamp>,
    pub file_attributes: Option<FileAttributes>,
    pub owner_id: Option<u32>,
    pub security_id: Option<u32>,
    pub usn: Option<u64>,
    pub object_id: Option<String>,
    pub alternate_filenames: Vec<AlternateFilename>,
    pub data_streams: Vec<DataStream>,
    pub reparse_tag: Option<u32>,
    pub reparse_target: Option<String>,
    pub has_extended_attributes: bool,
}

/// The mathematical image of an [`NtfsEntry`].
#[verifier::ext_equal]
pub ghost struct NtfsEntryView {
    pub mft_offset: u64,
    pub mft_record_number: u64,
    pub sequence_number: u16,
    pub hardlink_count: u16,
    pub is_in_use: bool,
    pub is_directory: bool,
    pub filename: Seq<char>,
    pub parent_mft_record: u64,
    pub parent_sequence: u16,
    pub allocated_size: u64,
    pub real_size: u64,
    pub created: Option<Timestamp>,
    pub modified: Option<Timestamp>,
    pub mft_modified: Option<Timestamp>,
    pub accessed: Option<Timestamp>,
    pub file_attributes: Option<FileAttributes>,
    pub owner_id: Option<u32>,
    pub security_id: Option<u32>,
    pub usn: Option<u64>,
    pub object_id: Option<Seq<char>>,
    pub alternate_filenames: Seq<AlternateFilenameView>,
    pub data_streams: Seq<DataStreamView>,
    pub reparse_tag: Option<u32>,
    pub reparse_target: Option<Seq<char>>,
    pub has_extended_attributes: bool,
}

impl View for NtfsEntry {
    type V = NtfsEntryView;

    open spec fn view(&self) -> NtfsEntryView {
        NtfsEntryView {
            mft_offset: self.mft_offset,
            mft_record_number: self.mft_record_number,
            sequence_number: self.sequence_number,
            hardlink_count: self.hardlink_count,
            is_in_use: self.is_in_use,
            is_directory: self.is_directory,
            filename: self.filename@,
            parent_mft_record: self.parent_mft_record,
            parent_sequence: self.parent_sequence,
            allocated_size: self.allocated_size,
            real_size: self.real_size,
            created: self.created,
            modified: self.modified,
            mft_modified: self.mft_modified,
            accessed: self.accessed,
            file_attributes: self.file_attributes,
            owner_id: self.owner_id,
            security_id: self.security_id,
            usn: self.usn,
            object_id: match self.object_id {
                Some(s) => Some(s@),
                None => None,
            },
            alternate_filenames: self.alternate_filenames.deep_view(),
            data_streams: self.data_streams.deep_view(),
            reparse_tag: self.reparse_tag,
            reparse_target: match self.reparse_target {
                Some(s) => Some(s@),
                None => None,
            },
            has_extended_attributes: self.has_extended_attributes,
        }
    }
}

impl DeepView for NtfsEntry {
    type V = NtfsEntryView;

    open spec fn deep_view(&self) -> NtfsEntryView {
        self.view()
    }
}

/// The instant a FILETIME denotes: ticks of 100 ns since 1601-01-01 UTC,
/// with zero meaning "no timestamp".
pub open spec fn spec_filetime_to_utc(ft: u64) -> Option<Timestamp> {
    if ft == 0 {
        None
    } else {
        Some(
            Timestamp {
                seconds: (ft / 10_000_000 - 11_644_473_600) as i64,
                nanos: ((ft % 10_000_000) * 100) as u32,
            },
        )
    }
}

/// The FILETIME tick count that a decoded timestamp denotes.
pub open spec fn spec_utc_to_filetime(t: Timestamp) -> int {
    (t.seconds + 11_644_473_600) * 10_000_000 + t.nanos / 100
}

/// Decodes a Windows FILETIME; zero means "no timestamp".
pub fn filetime_to_utc(ft: u64) -> (r: Option<Timestamp>)
    ensures
        r == spec_filetime_to_utc(ft),
{
    if ft == 0 {
        return None;
    }
    let q: u64 = ft / 10_000_000;
    let rem: u64 = ft % 10_000_000;
    let seconds: i64 = (q as i64) - 11_644_473_600;
    let nanos: u32 = (rem * 100) as u32;
    Some(Timestamp { seconds, nanos })
}

/// A decoded FILETIME, re-encoded, gives back the original tick count.
pub proof fn lemma_filetime_round_trip(ft: u64)
    requires
        ft > 0,
    ensures
        spec_filetime_to_utc(ft) matches Some(t) && spec_utc_to_filetime(t) == ft,
{
    let t = spec_filetime_to_utc(ft)->Some_0;
    let q = ft as int / 10_000_000;
    let r = ft as int % 10_000_000;
    vstd::arithmetic::div_mod::lemma_fundamental_div_mod(ft as int, 10_000_000);
    assert(t.seconds == q - 11_644_473_600);
    assert(t.nanos == r * 100);
    assert((r * 100) / 100 == r) by (nonlinear_arith);
    assert((t.seconds + 11_644_473_600) * 10_000_000 == q * 10_000_000) by (nonlinear_arith)
        requires
            t.seconds == q - 11_644_473_600,
    ;
}

} // verus!
