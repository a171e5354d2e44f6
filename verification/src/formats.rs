//! The `.sqrb` container: a header, the stored sections, and a directory that
//! says where each section stands and how to check it.

use crate::bundle::Bundle;
use crate::le_bytes::{
    law_le_round_trip, le_bytes, le_value, lemma_le_bytes_len, lemma_pow256, push_le, read_le,
};
use crate::outside::{
    crc32, crc32_of, decodes_to, is_zstd_frame, zstd_decode, zstd_decoded, zstd_encode,
    ZstdFailure, ZstdSettings,
};
use crate::parts::{
    law_parts_make_the_bundle, part_items, part_of, parts_of, section_items, with_parts,
    SectionPart,
};
use crate::text::{decimal, decimal_text};
use vstd::prelude::*;
use vstd::string::*;

verus! {

/// The compression level: zstd's default.
pub const SQRB_ZSTD_LEVEL: i32 = 3;

/// The worker threads for the one section that is large enough to repay them.
pub const SQRB_ZSTD_HEAVY_WORKERS: u32 = 4;

/// The major version of the format.
pub const SQRB_MAJOR: u16 = 1;

/// The minor version of the format.
pub const SQRB_MINOR: u16 = 0;

/// The length of the header.
pub const HEADER_LEN: u64 = 32;

/// The length of a directory entry.
pub const ENTRY_LEN: u64 = 40;

/// The bit of a compressed section.
pub const COMPRESSED_FLAG: u16 = 4;

/// The first bytes of a file: `SQRB`.
pub open spec fn magic() -> Seq<u8> {
    seq![0x53u8, 0x51u8, 0x52u8, 0x42u8]
}

// ---------------------------------------------------------------------------
// Sections
// ---------------------------------------------------------------------------

/// The parts of a bundle that have a section of their own.
#[derive(Debug, Clone, Copy, PartialEq, Eq, Structural)]
pub enum SectionId {
    Manifest,
    Teams,
    Squads,
    Players,
    Vehicles,
    Helicopters,
    Deployables,
    Components,
    PlayerTracks,
    VehicleTracks,
    HelicopterTracks,
    Kills,
    Deployments,
    SeatChanges,
    ComponentStates,
    VehicleStates,
    WeaponStates,
    Properties,
    Diagnostics,
    GameState,
    CaptureZones,
    VehicleDeaths,
}

/// The number that stands for a section in the directory.
pub open spec fn section_number(id: SectionId) -> u16 {
    match id {
        SectionId::Manifest => 1,
        SectionId::Teams => 2,
        SectionId::Squads => 3,
        SectionId::Players => 4,
        SectionId::Vehicles => 5,
        SectionId::Helicopters => 6,
        SectionId::Deployables => 7,
        SectionId::Components => 8,
        SectionId::PlayerTracks => 9,
        SectionId::VehicleTracks => 10,
        SectionId::HelicopterTracks => 11,
        SectionId::Kills => 12,
        SectionId::Deployments => 13,
        SectionId::SeatChanges => 14,
        SectionId::ComponentStates => 15,
        SectionId::VehicleStates => 16,
        SectionId::WeaponStates => 17,
        SectionId::Properties => 18,
        SectionId::Diagnostics => 19,
        SectionId::GameState => 20,
        SectionId::CaptureZones => 21,
        SectionId::VehicleDeaths => 22,
    }
}

/// The section that a number stands for.
pub open spec fn numbered_section(number: u16) -> Option<SectionId> {
    if number == 1 {
        Some(SectionId::Manifest)
    } else if number == 2 {
        Some(SectionId::Teams)
    } else if number == 3 {
        Some(SectionId::Squads)
    } else if number == 4 {
        Some(SectionId::Players)
    } else if number == 5 {
        Some(SectionId::Vehicles)
    } else if number == 6 {
        Some(SectionId::Helicopters)
    } else if number == 7 {
        Some(SectionId::Deployables)
    } else if number == 8 {
        Some(SectionId::Components)
    } else if number == 9 {
        Some(SectionId::PlayerTracks)
    } else if number == 10 {
        Some(SectionId::VehicleTracks)
    } else if number == 11 {
        Some(SectionId::HelicopterTracks)
    } else if number == 12 {
        Some(SectionId::Kills)
    } else if number == 13 {
        Some(SectionId::Deployments)
    } else if number == 14 {
        Some(SectionId::SeatChanges)
    } else if number == 15 {
        Some(SectionId::ComponentStates)
    } else if number == 16 {
        Some(SectionId::VehicleStates)
    } else if number == 17 {
        Some(SectionId::WeaponStates)
    } else if number == 18 {
        Some(SectionId::Properties)
    } else if number == 19 {
        Some(SectionId::Diagnostics)
    } else if number == 20 {
        Some(SectionId::GameState)
    } else if number == 21 {
        Some(SectionId::CaptureZones)
    } else if number == 22 {
        Some(SectionId::VehicleDeaths)
    } else {
        None
    }
}

/// The sections that are compressed: those with many items.
pub open spec fn is_compressed(id: SectionId) -> bool {
    match id {
        SectionId::PlayerTracks
        | SectionId::VehicleTracks
        | SectionId::HelicopterTracks
        | SectionId::ComponentStates
        | SectionId::VehicleStates
        | SectionId::WeaponStates
        | SectionId::Properties => true,
        _ => false,
    }
}

/// The section that holds JSON; the others hold MessagePack.
pub open spec fn is_json(id: SectionId) -> bool {
    id == SectionId::Manifest
}

/// How a section is compressed: on worker threads where it is large enough to
/// repay them, and always at the same level.
pub open spec fn section_settings(id: SectionId) -> ZstdSettings {
    ZstdSettings {
        level: SQRB_ZSTD_LEVEL,
        workers: if id == SectionId::Properties {
            SQRB_ZSTD_HEAVY_WORKERS
        } else {
            0
        },
    }
}

impl SectionId {
    /// The number that stands for this section in the directory.
    pub fn number(self) -> (number: u16)
        ensures
            number == section_number(self),
    {
        match self {
            SectionId::Manifest => 1,
            SectionId::Teams => 2,
            SectionId::Squads => 3,
            SectionId::Players => 4,
            SectionId::Vehicles => 5,
            SectionId::Helicopters => 6,
            SectionId::Deployables => 7,
            SectionId::Components => 8,
            SectionId::PlayerTracks => 9,
            SectionId::VehicleTracks => 10,
            SectionId::HelicopterTracks => 11,
            SectionId::Kills => 12,
            SectionId::Deployments => 13,
            SectionId::SeatChanges => 14,
            SectionId::ComponentStates => 15,
            SectionId::VehicleStates => 16,
            SectionId::WeaponStates => 17,
            SectionId::Properties => 18,
            SectionId::Diagnostics => 19,
            SectionId::GameState => 20,
            SectionId::CaptureZones => 21,
            SectionId::VehicleDeaths => 22,
        }
    }

    /// The section that a number stands for.
    pub fn from_number(number: u16) -> (id: Option<SectionId>)
        ensures
            id == numbered_section(number),
    {
        match number {
            1 => Some(SectionId::Manifest),
            2 => Some(SectionId::Teams),
            3 => Some(SectionId::Squads),
            4 => Some(SectionId::Players),
            5 => Some(SectionId::Vehicles),
            6 => Some(SectionId::Helicopters),
            7 => Some(SectionId::Deployables),
            8 => Some(SectionId::Components),
            9 => Some(SectionId::PlayerTracks),
            10 => Some(SectionId::VehicleTracks),
            11 => Some(SectionId::HelicopterTracks),
            12 => Some(SectionId::Kills),
            13 => Some(SectionId::Deployments),
            14 => Some(SectionId::SeatChanges),
            15 => Some(SectionId::ComponentStates),
            16 => Some(SectionId::VehicleStates),
            17 => Some(SectionId::WeaponStates),
            18 => Some(SectionId::Properties),
            19 => Some(SectionId::Diagnostics),
            20 => Some(SectionId::GameState),
            21 => Some(SectionId::CaptureZones),
            22 => Some(SectionId::VehicleDeaths),
            _ => None,
        }
    }

    /// Whether this section is compressed.
    pub fn compressed(self) -> (answer: bool)
        ensures
            answer == is_compressed(self),
    {
        match self {
            SectionId::PlayerTracks
            | SectionId::VehicleTracks
            | SectionId::HelicopterTracks
            | SectionId::ComponentStates
            | SectionId::VehicleStates
            | SectionId::WeaponStates
            | SectionId::Properties => true,
            _ => false,
        }
    }

    /// Whether this section holds JSON.
    pub fn json(self) -> (answer: bool)
        ensures
            answer == is_json(self),
    {
        matches!(self, SectionId::Manifest)
    }

    /// How this section is compressed.
    pub fn settings(self) -> (settings: ZstdSettings)
        ensures
            settings == section_settings(self),
    {
        ZstdSettings {
            level: SQRB_ZSTD_LEVEL,
            workers: match self {
                SectionId::Properties => SQRB_ZSTD_HEAVY_WORKERS,
                _ => 0,
            },
        }
    }
}

/// A section's number gives the section back.
pub proof fn law_section_numbers(id: SectionId, number: u16)
    ensures
        numbered_section(section_number(id)) == Some(id),
        numbered_section(number) matches Some(found) ==> section_number(found) == number,
        numbered_section(number) is Some <==> 1 <= number <= 22,
{
}

/// All of the sections, in the order in which a file holds them.
pub open spec fn section_order() -> Seq<SectionId> {
    seq![
        SectionId::Manifest,
        SectionId::Teams,
        SectionId::Squads,
        SectionId::Players,
        SectionId::Vehicles,
        SectionId::Helicopters,
        SectionId::Deployables,
        SectionId::Components,
        SectionId::PlayerTracks,
        SectionId::VehicleTracks,
        SectionId::HelicopterTracks,
        SectionId::Kills,
        SectionId::Deployments,
        SectionId::SeatChanges,
        SectionId::ComponentStates,
        SectionId::VehicleStates,
        SectionId::WeaponStates,
        SectionId::Properties,
        SectionId::Diagnostics,
        SectionId::GameState,
        SectionId::CaptureZones,
        SectionId::VehicleDeaths,
    ]
}

/// All of the sections, in the order in which a file holds them.
pub fn sections_in_order() -> (ids: Vec<SectionId>)
    ensures
        ids@ == section_order(),
{
    let ids: Vec<SectionId> = vec![
        SectionId::Manifest,
        SectionId::Teams,
        SectionId::Squads,
        SectionId::Players,
        SectionId::Vehicles,
        SectionId::Helicopters,
        SectionId::Deployables,
        SectionId::Components,
        SectionId::PlayerTracks,
        SectionId::VehicleTracks,
        SectionId::HelicopterTracks,
        SectionId::Kills,
        SectionId::Deployments,
        SectionId::SeatChanges,
        SectionId::ComponentStates,
        SectionId::VehicleStates,
        SectionId::WeaponStates,
        SectionId::Properties,
        SectionId::Diagnostics,
        SectionId::GameState,
        SectionId::CaptureZones,
        SectionId::VehicleDeaths,
    ];
    assert(ids@ =~= section_order());
    ids
}

/// The content of a section before it is stored.
#[derive(Debug, Clone, Copy)]
pub struct SectionPayload<'a> {
    pub id: SectionId,
    pub item_count: u32,
    pub raw: &'a [u8],
}

/// The content of a section, with its bytes as a sequence.
pub struct PayloadModel {
    pub id: SectionId,
    pub item_count: u32,
    pub raw: Seq<u8>,
}

impl<'a> View for SectionPayload<'a> {
    type V = PayloadModel;

    open spec fn view(&self) -> PayloadModel {
        PayloadModel { id: self.id, item_count: self.item_count, raw: self.raw@ }
    }
}

/// The contents of sections, with their bytes as sequences.
pub open spec fn payload_models(payloads: Seq<SectionPayload>) -> Seq<PayloadModel> {
    payloads.map_values(|payload: SectionPayload| payload@)
}

/// A section as it is stored, with what the directory says of it.
#[derive(Debug, Clone)]
pub struct EncodedSection {
    pub id: SectionId,
    pub flags: u16,
    pub raw_len: u64,
    pub crc32: u32,
    pub item_count: u32,
    pub stored: Vec<u8>,
}

/// What the directory of a file says of a section.
#[derive(Debug, Clone, Copy, PartialEq, Eq, Structural)]
pub struct DirectoryEntry {
    pub id: u16,
    pub flags: u16,
    pub offset: u64,
    pub stored_len: u64,
    pub crc32: u32,
}

// ---------------------------------------------------------------------------
// Errors
// ---------------------------------------------------------------------------

/// What can be wrong with a file, or go wrong when one is made.
#[derive(Debug, Clone)]
pub enum SqrbError {
    BadMagic,
    UnexpectedEnd,
    UnsupportedMajor(u16),
    DirectoryOutOfRange { offset: u64, size: u64 },
    SectionOutOfBounds,
    CrcMismatch(u16),
    ZstdDecode(String),
    ZstdInit(String),
    ZstdWorkers(String),
    ZstdWrite(String),
    ZstdFinish(String),
}

/// An error, with its text as characters.
pub enum Fault {
    BadMagic,
    UnexpectedEnd,
    UnsupportedMajor(u16),
    DirectoryOutOfRange { offset: u64, size: u64 },
    SectionOutOfBounds,
    CrcMismatch(u16),
    ZstdDecode(Seq<char>),
    ZstdInit(Seq<char>),
    ZstdWorkers(Seq<char>),
    ZstdWrite(Seq<char>),
    ZstdFinish(Seq<char>),
}

impl View for SqrbError {
    type V = Fault;

    open spec fn view(&self) -> Fault {
        match self {
            SqrbError::BadMagic => Fault::BadMagic,
            SqrbError::UnexpectedEnd => Fault::UnexpectedEnd,
            SqrbError::UnsupportedMajor(major) => Fault::UnsupportedMajor(*major),
            SqrbError::DirectoryOutOfRange { offset, size } => Fault::DirectoryOutOfRange {
                offset: *offset,
                size: *size,
            },
            SqrbError::SectionOutOfBounds => Fault::SectionOutOfBounds,
            SqrbError::CrcMismatch(id) => Fault::CrcMismatch(*id),
            SqrbError::ZstdDecode(text) => Fault::ZstdDecode(text@),
            SqrbError::ZstdInit(text) => Fault::ZstdInit(text@),
            SqrbError::ZstdWorkers(text) => Fault::ZstdWorkers(text@),
            SqrbError::ZstdWrite(text) => Fault::ZstdWrite(text@),
            SqrbError::ZstdFinish(text) => Fault::ZstdFinish(text@),
        }
    }
}

/// What an error tells the user.
pub open spec fn fault_text(fault: Fault) -> Seq<char> {
    match fault {
        Fault::BadMagic => "bad magic"@,
        Fault::UnexpectedEnd => "unexpected end of file"@,
        Fault::UnsupportedMajor(major) => "unsupported major version "@ + decimal(major as nat),
        Fault::DirectoryOutOfRange { offset, size } => "directory offset "@ + decimal(
            offset as nat,
        ) + " is out of range (file size "@ + decimal(size as nat)
            + ") \u{2014} the bundle is likely truncated or the writer did not patch the header"@,
        Fault::SectionOutOfBounds => "section out of bounds"@,
        Fault::CrcMismatch(id) => "crc mismatch on section "@ + decimal(id as nat),
        Fault::ZstdDecode(text) => "zstd decode failed: "@ + text,
        Fault::ZstdInit(text) => "zstd encode init failed: "@ + text,
        Fault::ZstdWorkers(text) => "zstd multithread init failed: "@ + text,
        Fault::ZstdWrite(text) => "sqrb buffer flush failed: "@ + text,
        Fault::ZstdFinish(text) => "zstd encode finish failed: "@ + text,
    }
}

impl SqrbError {
    /// What this error tells the user.
    pub fn message(&self) -> (text: String)
        ensures
            text@ == fault_text(self@),
    {
        match self {
            SqrbError::BadMagic => "bad magic".to_owned(),
            SqrbError::UnexpectedEnd => "unexpected end of file".to_owned(),
            SqrbError::UnsupportedMajor(major) => "unsupported major version ".to_owned().concat(
                &decimal_text(*major as u64),
            ),
            SqrbError::DirectoryOutOfRange { offset, size } => {
                "directory offset ".to_owned().concat(&decimal_text(*offset)).concat(
                    " is out of range (file size ",
                ).concat(&decimal_text(*size)).concat(
                    ") \u{2014} the bundle is likely truncated or the writer did not patch the header",
                )
            },
            SqrbError::SectionOutOfBounds => "section out of bounds".to_owned(),
            SqrbError::CrcMismatch(id) => "crc mismatch on section ".to_owned().concat(
                &decimal_text(*id as u64),
            ),
            SqrbError::ZstdDecode(text) => "zstd decode failed: ".to_owned().concat(text),
            SqrbError::ZstdInit(text) => "zstd encode init failed: ".to_owned().concat(text),
            SqrbError::ZstdWorkers(text) => "zstd multithread init failed: ".to_owned().concat(text),
            SqrbError::ZstdWrite(text) => "sqrb buffer flush failed: ".to_owned().concat(text),
            SqrbError::ZstdFinish(text) => "zstd encode finish failed: ".to_owned().concat(text),
        }
    }
}

// ---------------------------------------------------------------------------
// What a file holds
// ---------------------------------------------------------------------------

/// The flags of a section: 1 for JSON, 2 for MessagePack, and 4 if compressed.
pub open spec fn section_flags(json: bool, compress: bool) -> u16 {
    if json {
        if compress {
            5
        } else {
            1
        }
    } else {
        if compress {
            6
        } else {
            2
        }
    }
}

/// Some bytes store a section's content: they are the content, or a frame of it
/// that the encoder of zstd can write with its settings.
pub open spec fn stores_bytes(
    stored: Seq<u8>,
    raw: Seq<u8>,
    compress: bool,
    settings: ZstdSettings,
) -> bool {
    if compress {
        is_zstd_frame(stored, raw, settings)
    } else {
        stored == raw
    }
}

/// What is wrong when the encoder of zstd fails.
pub open spec fn encoder_fault(failure: ZstdFailure) -> Fault {
    match failure {
        ZstdFailure::Init(text) => Fault::ZstdInit(text@),
        ZstdFailure::Workers(text) => Fault::ZstdWorkers(text@),
        ZstdFailure::Write(text) => Fault::ZstdWrite(text@),
        ZstdFailure::Finish(text) => Fault::ZstdFinish(text@),
    }
}

/// The error is one of the encoder of zstd.
pub open spec fn is_encoder_fault(fault: Fault) -> bool {
    fault is ZstdInit || fault is ZstdWorkers || fault is ZstdWrite || fault is ZstdFinish
}

/// What is stored is the given content, and the checksum is the content's.
pub open spec fn holds(section: EncodedSection, raw: Seq<u8>) -> bool {
    &&& section.crc32 == crc32_of(raw)
    &&& section.raw_len == raw.len()
    &&& if section.flags & COMPRESSED_FLAG != 0 {
        decodes_to(section.stored@, raw)
    } else {
        section.stored@ == raw
    }
}

/// The stored sections, one after the other.
pub open spec fn bodies(sections: Seq<EncodedSection>) -> Seq<u8>
    decreases sections.len(),
{
    if sections.len() == 0 {
        Seq::empty()
    } else {
        bodies(sections.drop_last()) + sections.last().stored@
    }
}

/// Where the section after the given ones stands in a file.
pub open spec fn offset_after(sections: Seq<EncodedSection>) -> nat {
    HEADER_LEN as nat + bodies(sections).len()
}

/// The directory entry of a section that stands at an offset.
pub open spec fn entry_bytes(section: EncodedSection, offset: nat) -> Seq<u8> {
    le_bytes(section_number(section.id) as nat, 2) + le_bytes(section.flags as nat, 2) + le_bytes(
        0,
        4,
    ) + le_bytes(offset, 8) + le_bytes(section.stored@.len(), 8) + le_bytes(
        section.raw_len as nat,
        8,
    ) + le_bytes(section.crc32 as nat, 4) + le_bytes(section.item_count as nat, 4)
}

/// The directory of the sections.
pub open spec fn directory_bytes(sections: Seq<EncodedSection>) -> Seq<u8>
    decreases sections.len(),
{
    if sections.len() == 0 {
        Seq::empty()
    } else {
        directory_bytes(sections.drop_last()) + entry_bytes(
            sections.last(),
            offset_after(sections.drop_last()),
        )
    }
}

/// The header of a file with a number of sections and a directory.
pub open spec fn header_bytes(count: nat, directory_offset: nat) -> Seq<u8> {
    magic() + le_bytes(SQRB_MAJOR as nat, 2) + le_bytes(SQRB_MINOR as nat, 2) + le_bytes(count, 4)
        + le_bytes(directory_offset, 8) + le_bytes(0, 4) + le_bytes(0, 8)
}

/// The file that holds the sections.
pub open spec fn file_bytes(sections: Seq<EncodedSection>) -> Seq<u8> {
    header_bytes(sections.len(), offset_after(sections)) + bodies(sections) + directory_bytes(
        sections,
    )
}

/// The number that some bytes of a file write.
pub open spec fn number_at(bytes: Seq<u8>, at: int, width: int) -> nat {
    le_value(bytes.subrange(at, at + width))
}

/// The directory entry that stands at an offset.
pub open spec fn entry_at(bytes: Seq<u8>, at: int) -> DirectoryEntry {
    DirectoryEntry {
        id: number_at(bytes, at, 2) as u16,
        flags: number_at(bytes, at + 2, 2) as u16,
        offset: number_at(bytes, at + 8, 8) as u64,
        stored_len: number_at(bytes, at + 16, 8) as u64,
        crc32: number_at(bytes, at + 32, 4) as u32,
    }
}

/// The directory of a file, or what is wrong with the header.
pub open spec fn directory_of(bytes: Seq<u8>) -> Result<Seq<DirectoryEntry>, Fault> {
    let count = number_at(bytes, 8, 4);
    let offset = number_at(bytes, 12, 8);
    if bytes.len() < HEADER_LEN || bytes.take(4) != magic() {
        Err(Fault::BadMagic)
    } else if number_at(bytes, 4, 2) != SQRB_MAJOR {
        Err(Fault::UnsupportedMajor(number_at(bytes, 4, 2) as u16))
    } else if offset < HEADER_LEN || offset > bytes.len() {
        Err(Fault::DirectoryOutOfRange { offset: offset as u64, size: bytes.len() as u64 })
    } else if offset + ENTRY_LEN * count > bytes.len() {
        Err(Fault::UnexpectedEnd)
    } else {
        Ok(Seq::new(count, |i: int| entry_at(bytes, offset + ENTRY_LEN * i)))
    }
}

/// The content of the section that an entry points to, checked.
pub open spec fn content_of(bytes: Seq<u8>, entry: DirectoryEntry) -> Result<Seq<u8>, Fault> {
    if entry.offset + entry.stored_len > bytes.len() {
        Err(Fault::SectionOutOfBounds)
    } else {
        let stored = bytes.subrange(entry.offset as int, entry.offset + entry.stored_len);
        let raw = if entry.flags & COMPRESSED_FLAG != 0 {
            zstd_decoded(stored)
        } else {
            Ok(stored)
        };
        match raw {
            Err(text) => Err(Fault::ZstdDecode(text)),
            Ok(content) => if crc32_of(content) != entry.crc32 {
                Err(Fault::CrcMismatch(entry.id))
            } else {
                Ok(content)
            },
        }
    }
}

/// The contents of the sections that the entries point to, each with the
/// number of its section, or the first thing that is wrong.
pub open spec fn contents_of(bytes: Seq<u8>, entries: Seq<DirectoryEntry>) -> Result<
    Seq<(u16, Seq<u8>)>,
    Fault,
>
    decreases entries.len(),
{
    if entries.len() == 0 {
        Ok(Seq::empty())
    } else {
        match contents_of(bytes, entries.drop_last()) {
            Err(fault) => Err(fault),
            Ok(before) => match content_of(bytes, entries.last()) {
                Err(fault) => Err(fault),
                Ok(raw) => Ok(before.push((entries.last().id, raw))),
            },
        }
    }
}

/// The contents of a file, or the first thing that is wrong with it.
pub open spec fn read_file(bytes: Seq<u8>) -> Result<Seq<(u16, Seq<u8>)>, Fault> {
    match directory_of(bytes) {
        Err(fault) => Err(fault),
        Ok(entries) => contents_of(bytes, entries),
    }
}

// ---------------------------------------------------------------------------
// Writing
// ---------------------------------------------------------------------------

/// A section whose content has been compressed, or not, by zstd.
pub fn compressed_section(
    id: SectionId,
    json_payload: bool,
    item_count: u32,
    raw: &[u8],
    frame: Result<Vec<u8>, ZstdFailure>,
) -> (section: Result<EncodedSection, SqrbError>)
    ensures
        match (section, frame) {
            (Ok(s), Ok(stored)) => {
                &&& s.id == id
                &&& s.flags == section_flags(json_payload, true)
                &&& s.raw_len == raw@.len()
                &&& s.crc32 == crc32_of(raw@)
                &&& s.item_count == item_count
                &&& s.stored == stored
            },
            (Err(e), Err(failure)) => e@ == encoder_fault(failure),
            _ => false,
        },
{
    match frame {
        Ok(stored) => Ok(
            EncodedSection {
                id,
                flags: if json_payload {
                    5
                } else {
                    6
                },
                raw_len: raw.len() as u64,
                crc32: crc32(raw),
                item_count,
                stored,
            },
        ),
        Err(ZstdFailure::Init(text)) => Err(SqrbError::ZstdInit(text)),
        Err(ZstdFailure::Workers(text)) => Err(SqrbError::ZstdWorkers(text)),
        Err(ZstdFailure::Write(text)) => Err(SqrbError::ZstdWrite(text)),
        Err(ZstdFailure::Finish(text)) => Err(SqrbError::ZstdFinish(text)),
    }
}

/// Stores a section's content: compresses it if asked to, and takes down its
/// length and checksum from before the compression. Only the encoder of zstd
/// can fail.
pub fn encode_section(
    id: SectionId,
    json_payload: bool,
    compress: bool,
    item_count: u32,
    settings: ZstdSettings,
    raw: &[u8],
) -> (section: Result<EncodedSection, SqrbError>)
    ensures
        match section {
            Ok(s) => {
                &&& stores_bytes(s.stored@, raw@, compress, settings)
                &&& s.id == id
                &&& s.flags == section_flags(json_payload, compress)
                &&& s.raw_len == raw@.len()
                &&& s.crc32 == crc32_of(raw@)
                &&& s.item_count == item_count
                &&& holds(s, raw@)
            },
            Err(e) => compress && is_encoder_fault(e@),
        },
{
    assert(5u16 & 4 != 0 && 6u16 & 4 != 0 && 1u16 & 4 == 0 && 2u16 & 4 == 0) by (bit_vector);
    if compress {
        let frame = zstd_encode(raw, settings);
        compressed_section(id, json_payload, item_count, raw, frame)
    } else {
        Ok(
            EncodedSection {
                id,
                flags: if json_payload {
                    1
                } else {
                    2
                },
                raw_len: raw.len() as u64,
                crc32: crc32(raw),
                item_count,
                stored: vstd::slice::slice_to_vec(raw),
            },
        )
    }
}

/// A section stores a content in the way of its section.
pub open spec fn stores(section: EncodedSection, payload: PayloadModel) -> bool {
    &&& stores_bytes(
        section.stored@,
        payload.raw,
        is_compressed(payload.id),
        section_settings(payload.id),
    )
    &&& section.id == payload.id
    &&& section.flags == section_flags(is_json(payload.id), is_compressed(payload.id))
    &&& section.item_count == payload.item_count
    &&& holds(section, payload.raw)
}

/// Two sections that store one content are the same, unless it is compressed on
/// worker threads.
pub proof fn law_stored_alike(a: EncodedSection, b: EncodedSection, payload: PayloadModel)
    requires
        stores(a, payload),
        stores(b, payload),
        is_compressed(payload.id) ==> section_settings(payload.id).workers == 0,
    ensures
        a.stored@ == b.stored@,
        a == (EncodedSection { stored: a.stored, ..b }),
{
}

/// Stores a section's content in the way of its section.
pub fn encode_payload(payload: &SectionPayload) -> (section: Result<EncodedSection, SqrbError>)
    ensures
        match section {
            Ok(s) => stores(s, payload@),
            Err(e) => is_compressed(payload.id) && is_encoder_fault(e@),
        },
{
    encode_section(
        payload.id,
        payload.id.json(),
        payload.id.compressed(),
        payload.item_count,
        payload.id.settings(),
        payload.raw,
    )
}

/// Appends bytes.
fn push_bytes(out: &mut Vec<u8>, bytes: &Vec<u8>)
    ensures
        final(out)@ == old(out)@ + bytes@,
{
    let ghost start = out@;
    let mut i: usize = 0;
    while i < bytes.len()
        invariant
            i <= bytes@.len(),
            out@ =~= start + bytes@.take(i as int),
        decreases bytes@.len() - i,
    {
        out.push(bytes[i]);
        i += 1;
    }
    assert(bytes@.take(bytes@.len() as int) =~= bytes@);
}

/// Appends the directory entry of a section that stands at an offset.
fn push_entry(out: &mut Vec<u8>, section: &EncodedSection, offset: u64)
    ensures
        final(out)@ == old(out)@ + entry_bytes(*section, offset as nat),
{
    push_le(out, section.id.number() as u64, 2);
    push_le(out, section.flags as u64, 2);
    push_le(out, 0, 4);
    push_le(out, offset, 8);
    push_le(out, section.stored.len() as u64, 8);
    push_le(out, section.raw_len, 8);
    push_le(out, section.crc32 as u64, 4);
    push_le(out, section.item_count as u64, 4);
    assert(out@ =~= old(out)@ + entry_bytes(*section, offset as nat));
}

/// Writes a number over the eight bytes from `at` on.
fn patch_u64(out: &mut Vec<u8>, at: usize, n: u64)
    requires
        at + 8 <= old(out)@.len(),
    ensures
        final(out)@ == old(out)@.take(at as int) + le_bytes(n as nat, 8) + old(out)@.skip(at + 8),
{
    let ghost start = out@;
    let mut number: Vec<u8> = Vec::new();
    push_le(&mut number, n, 8);
    proof {
        lemma_le_bytes_len(n as nat, 8);
    }
    assert(number@ =~= le_bytes(n as nat, 8));
    let mut i: usize = 0;
    while i < 8
        invariant
            i <= 8,
            number@.len() == 8,
            at + 8 <= start.len(),
            out@ =~= start.take(at as int) + number@.take(i as int) + start.skip(at + i),
        decreases 8 - i,
    {
        assert(out.len() == start.len());
        out.set(at + i, number[i]);
        i += 1;
    }
    assert(number@.take(8) =~= number@);
}

/// The file that holds the sections.
pub fn assemble_sqrb(sections: &Vec<EncodedSection>) -> (file: Vec<u8>)
    requires
        sections@.len() <= u32::MAX,
    ensures
        file@ == file_bytes(sections@),
{
    let mut file: Vec<u8> = Vec::new();
    file.push(0x53);
    file.push(0x51);
    file.push(0x52);
    file.push(0x42);
    assert(file@ =~= magic());
    push_le(&mut file, SQRB_MAJOR as u64, 2);
    push_le(&mut file, SQRB_MINOR as u64, 2);
    push_le(&mut file, sections.len() as u64, 4);
    // The offset of the directory, which is not known yet.
    push_le(&mut file, 0, 8);
    push_le(&mut file, 0, 4);
    push_le(&mut file, 0, 8);
    let ghost header = header_bytes(sections@.len(), 0);
    assert(file@ =~= header);
    proof {
        lemma_header_len(sections@.len(), 0);
    }
    let mut directory: Vec<u8> = Vec::new();
    let mut i: usize = 0;
    while i < sections.len()
        invariant
            i <= sections@.len(),
            header.len() == HEADER_LEN,
            file@ == header + bodies(sections@.take(i as int)),
            directory@ == directory_bytes(sections@.take(i as int)),
        decreases sections@.len() - i,
    {
        assert(sections@.take(i + 1).drop_last() =~= sections@.take(i as int));
        push_entry(&mut directory, &sections[i], file.len() as u64);
        push_bytes(&mut file, &sections[i].stored);
        assert(file@ =~= header + bodies(sections@.take(i + 1)));
        i += 1;
    }
    assert(sections@.take(sections@.len() as int) =~= sections@);
    let directory_offset: u64 = file.len() as u64;
    let ghost before = file@;
    push_bytes(&mut file, &directory);
    assert(file.len() >= 32);
    patch_u64(&mut file, 12, directory_offset);
    proof {
        let count = sections@.len();
        let offset = offset_after(sections@);
        lemma_header_len(count, offset);
        lemma_header_parts(count, 0);
        lemma_header_parts(count, offset);
        assert(file@ =~= file_bytes(sections@));
    }
    file
}

/// The length of the header.
proof fn lemma_header_len(count: nat, directory_offset: nat)
    ensures
        header_bytes(count, directory_offset).len() == HEADER_LEN,
{
    lemma_le_bytes_len(SQRB_MAJOR as nat, 2);
    lemma_le_bytes_len(SQRB_MINOR as nat, 2);
    lemma_le_bytes_len(count, 4);
    lemma_le_bytes_len(directory_offset, 8);
    lemma_le_bytes_len(0, 4);
    lemma_le_bytes_len(0, 8);
}

/// Headers differ in the offset of the directory alone.
proof fn lemma_header_parts(count: nat, directory_offset: nat)
    ensures
        header_bytes(count, directory_offset) == header_bytes(count, 0).take(12) + le_bytes(
            directory_offset,
            8,
        ) + header_bytes(count, 0).skip(20),
{
    lemma_header_len(count, directory_offset);
    lemma_header_len(count, 0);
    lemma_le_bytes_len(SQRB_MAJOR as nat, 2);
    lemma_le_bytes_len(SQRB_MINOR as nat, 2);
    lemma_le_bytes_len(count, 4);
    lemma_le_bytes_len(directory_offset, 8);
    lemma_le_bytes_len(0, 4);
    lemma_le_bytes_len(0, 8);
    assert(header_bytes(count, directory_offset) =~= header_bytes(count, 0).take(12) + le_bytes(
        directory_offset,
        8,
    ) + header_bytes(count, 0).skip(20));
}

// ---------------------------------------------------------------------------
// Reading
// ---------------------------------------------------------------------------

/// A result whose error is given by its view.
pub open spec fn directory_view(
    result: Result<Vec<DirectoryEntry>, SqrbError>,
) -> Result<Seq<DirectoryEntry>, Fault> {
    match result {
        Ok(entries) => Ok(entries@),
        Err(e) => Err(e@),
    }
}

/// A result whose error is given by its view.
pub open spec fn content_view(result: Result<Vec<u8>, SqrbError>) -> Result<Seq<u8>, Fault> {
    match result {
        Ok(raw) => Ok(raw@),
        Err(e) => Err(e@),
    }
}

/// The section numbers and contents.
pub open spec fn section_views(sections: Seq<(u16, Vec<u8>)>) -> Seq<(u16, Seq<u8>)> {
    sections.map_values(|s: (u16, Vec<u8>)| (s.0, s.1@))
}

/// A result whose error is given by its view.
pub open spec fn sections_view(
    result: Result<Vec<(u16, Vec<u8>)>, SqrbError>,
) -> Result<Seq<(u16, Seq<u8>)>, Fault> {
    match result {
        Ok(sections) => Ok(section_views(sections@)),
        Err(e) => Err(e@),
    }
}

/// The directory of a file.
pub fn read_directory(bytes: &[u8]) -> (directory: Result<Vec<DirectoryEntry>, SqrbError>)
    ensures
        directory_view(directory) == directory_of(bytes@),
{
    if bytes.len() < 32 {
        return Err(SqrbError::BadMagic);
    }
    let found = bytes[0] == 0x53 && bytes[1] == 0x51 && bytes[2] == 0x52 && bytes[3] == 0x42;
    proof {
        if found {
            assert(bytes@.take(4) =~= magic());
        } else {
            assert(bytes@.take(4)[0] == bytes@[0] && bytes@.take(4)[1] == bytes@[1]
                && bytes@.take(4)[2] == bytes@[2] && bytes@.take(4)[3] == bytes@[3]);
            assert(magic()[0] == 0x53 && magic()[1] == 0x51 && magic()[2] == 0x52 && magic()[3]
                == 0x42);
        }
        lemma_pow256();
    }
    if !found {
        return Err(SqrbError::BadMagic);
    }
    let major: u64 = read_le(bytes, 4, 2);
    if major != SQRB_MAJOR as u64 {
        return Err(SqrbError::UnsupportedMajor(major as u16));
    }
    let count: u64 = read_le(bytes, 8, 4);
    let offset: u64 = read_le(bytes, 12, 8);
    // Zero, or past the end, where the writer stopped before it knew the offset.
    if offset < HEADER_LEN || offset > bytes.len() as u64 {
        return Err(SqrbError::DirectoryOutOfRange { offset, size: bytes.len() as u64 });
    }
    let mut directory: Vec<DirectoryEntry> = Vec::new();
    let mut at: usize = offset as usize;
    let mut i: u64 = 0;
    while i < count
        invariant
            i <= count <= u32::MAX,
            at <= bytes.len(),
            at == offset + ENTRY_LEN * i,
            directory@.len() == i,
            forall|k: int|
                0 <= k < i ==> #[trigger] directory@[k] == entry_at(bytes@, offset + ENTRY_LEN * k),
            directory_of(bytes@) == (if offset + ENTRY_LEN * count > bytes@.len() {
                Err(Fault::UnexpectedEnd)
            } else {
                Ok(Seq::new(count as nat, |k: int| entry_at(bytes@, offset + ENTRY_LEN * k)))
            }),
        decreases count - i,
    {
        if bytes.len() - at < 40 {
            return Err(SqrbError::UnexpectedEnd);
        }
        proof {
            lemma_pow256();
        }
        let entry = DirectoryEntry {
            id: read_le(bytes, at, 2) as u16,
            flags: read_le(bytes, at + 2, 2) as u16,
            offset: read_le(bytes, at + 8, 8),
            stored_len: read_le(bytes, at + 16, 8),
            crc32: read_le(bytes, at + 32, 4) as u32,
        };
        assert(entry == entry_at(bytes@, offset + ENTRY_LEN * i));
        directory.push(entry);
        at += 40;
        i += 1;
    }
    assert(directory@ =~= Seq::new(count as nat, |k: int| entry_at(bytes@, offset + ENTRY_LEN * k)));
    Ok(directory)
}

/// The content of the section that an entry points to, checked.
pub fn read_section(bytes: &[u8], entry: &DirectoryEntry) -> (raw: Result<Vec<u8>, SqrbError>)
    ensures
        content_view(raw) == content_of(bytes@, *entry),
{
    let size: u64 = bytes.len() as u64;
    if entry.stored_len > size || entry.offset > size - entry.stored_len {
        return Err(SqrbError::SectionOutOfBounds);
    }
    let start: usize = entry.offset as usize;
    let end: usize = start + entry.stored_len as usize;
    let stored = vstd::slice::slice_subrange(bytes, start, end);
    let raw: Vec<u8> = if entry.flags & COMPRESSED_FLAG != 0 {
        match zstd_decode(stored) {
            Ok(raw) => raw,
            Err(text) => return Err(SqrbError::ZstdDecode(text)),
        }
    } else {
        vstd::slice::slice_to_vec(stored)
    };
    if crc32(raw.as_slice()) != entry.crc32 {
        return Err(SqrbError::CrcMismatch(entry.id));
    }
    Ok(raw)
}

/// The contents of a file, each with the number of its section.
pub fn read_sqrb(bytes: &[u8]) -> (sections: Result<Vec<(u16, Vec<u8>)>, SqrbError>)
    ensures
        sections_view(sections) == read_file(bytes@),
{
    let directory = match read_directory(bytes) {
        Ok(directory) => directory,
        Err(e) => return Err(e),
    };
    let ghost entries = directory@;
    let mut sections: Vec<(u16, Vec<u8>)> = Vec::new();
    let mut i: usize = 0;
    assert(section_views(sections@) =~= Seq::empty());
    while i < directory.len()
        invariant
            i <= directory@.len(),
            entries == directory@,
            read_file(bytes@) == contents_of(bytes@, entries),
            contents_of(bytes@, entries.take(i as int)) == Ok::<Seq<(u16, Seq<u8>)>, Fault>(
                section_views(sections@),
            ),
        decreases directory@.len() - i,
    {
        assert(entries.take(i + 1).drop_last() =~= entries.take(i as int));
        match read_section(bytes, &directory[i]) {
            Ok(raw) => {
                let ghost before = section_views(sections@);
                sections.push((directory[i].id, raw));
                assert(section_views(sections@) =~= before.push((entries[i as int].id, raw@)));
            },
            Err(e) => {
                proof {
                    lemma_first_fault(bytes@, entries, i + 1);
                }
                return Err(e);
            },
        }
        i += 1;
    }
    assert(entries.take(entries.len() as int) =~= entries);
    Ok(sections)
}

/// What is wrong with the first sections is what is wrong with all of them.
proof fn lemma_first_fault(bytes: Seq<u8>, entries: Seq<DirectoryEntry>, n: int)
    requires
        0 <= n <= entries.len(),
        contents_of(bytes, entries.take(n)) is Err,
    ensures
        contents_of(bytes, entries) == contents_of(bytes, entries.take(n)),
    decreases entries.len() - n,
{
    if n < entries.len() {
        assert(entries.take(n + 1).drop_last() =~= entries.take(n));
        lemma_first_fault(bytes, entries, n + 1);
    } else {
        assert(entries.take(n) =~= entries);
    }
}

// ---------------------------------------------------------------------------
// What is read is what was written
// ---------------------------------------------------------------------------

/// The directory entry of the section at an index.
pub open spec fn entry_of(sections: Seq<EncodedSection>, i: int) -> DirectoryEntry {
    DirectoryEntry {
        id: section_number(sections[i].id),
        flags: sections[i].flags,
        offset: offset_after(sections.take(i)) as u64,
        stored_len: sections[i].stored@.len() as u64,
        crc32: sections[i].crc32,
    }
}

/// The length of an entry.
proof fn lemma_entry_len(section: EncodedSection, offset: nat)
    ensures
        entry_bytes(section, offset).len() == ENTRY_LEN,
{
    lemma_le_bytes_len(section_number(section.id) as nat, 2);
    lemma_le_bytes_len(section.flags as nat, 2);
    lemma_le_bytes_len(0, 4);
    lemma_le_bytes_len(offset, 8);
    lemma_le_bytes_len(section.stored@.len(), 8);
    lemma_le_bytes_len(section.raw_len as nat, 8);
    lemma_le_bytes_len(section.crc32 as nat, 4);
    lemma_le_bytes_len(section.item_count as nat, 4);
}

/// The numbers that an entry's bytes write.
proof fn lemma_entry_fields(section: EncodedSection, offset: nat)
    requires
        offset <= u64::MAX,
        section.stored@.len() <= u64::MAX,
    ensures
        ({
            let bytes = entry_bytes(section, offset);
            &&& bytes.len() == ENTRY_LEN
            &&& le_value(bytes.subrange(0, 2)) == section_number(section.id)
            &&& le_value(bytes.subrange(2, 4)) == section.flags
            &&& le_value(bytes.subrange(8, 16)) == offset
            &&& le_value(bytes.subrange(16, 24)) == section.stored@.len()
            &&& le_value(bytes.subrange(32, 36)) == section.crc32
        }),
{
    lemma_entry_len(section, offset);
    lemma_pow256();
    let bytes = entry_bytes(section, offset);
    law_le_round_trip(section_number(section.id) as nat, 2);
    law_le_round_trip(section.flags as nat, 2);
    law_le_round_trip(0, 4);
    law_le_round_trip(offset, 8);
    law_le_round_trip(section.stored@.len(), 8);
    law_le_round_trip(section.raw_len as nat, 8);
    law_le_round_trip(section.crc32 as nat, 4);
    law_le_round_trip(section.item_count as nat, 4);
    assert(bytes.subrange(0, 2) =~= le_bytes(section_number(section.id) as nat, 2));
    assert(bytes.subrange(2, 4) =~= le_bytes(section.flags as nat, 2));
    assert(bytes.subrange(8, 16) =~= le_bytes(offset, 8));
    assert(bytes.subrange(16, 24) =~= le_bytes(section.stored@.len(), 8));
    assert(bytes.subrange(32, 36) =~= le_bytes(section.crc32 as nat, 4));
}

/// Where the entry of a section stands in the directory.
proof fn lemma_directory_part(sections: Seq<EncodedSection>, i: int)
    requires
        0 <= i < sections.len(),
    ensures
        directory_bytes(sections).len() == ENTRY_LEN * sections.len(),
        directory_bytes(sections).subrange(ENTRY_LEN * i, ENTRY_LEN * i + ENTRY_LEN)
            == entry_bytes(sections[i], offset_after(sections.take(i))),
    decreases sections.len(),
{
    let front = sections.drop_last();
    let before = directory_bytes(front);
    lemma_directory_len(front);
    lemma_entry_len(sections.last(), offset_after(front));
    let all = directory_bytes(sections);
    if i < front.len() {
        lemma_directory_part(front, i);
        assert(front.take(i) =~= sections.take(i));
        assert(all.subrange(ENTRY_LEN * i, ENTRY_LEN * i + ENTRY_LEN) =~= before.subrange(
            ENTRY_LEN * i,
            ENTRY_LEN * i + ENTRY_LEN,
        ));
    } else {
        assert(front =~= sections.take(i));
        assert(all.subrange(ENTRY_LEN * i, ENTRY_LEN * i + ENTRY_LEN) =~= entry_bytes(
            sections.last(),
            offset_after(front),
        ));
    }
}

/// The length of the directory.
proof fn lemma_directory_len(sections: Seq<EncodedSection>)
    ensures
        directory_bytes(sections).len() == ENTRY_LEN * sections.len(),
    decreases sections.len(),
{
    if sections.len() > 0 {
        lemma_directory_len(sections.drop_last());
        lemma_entry_len(sections.last(), offset_after(sections.drop_last()));
    }
}

/// Where a stored section stands among the bodies.
proof fn lemma_body_part(sections: Seq<EncodedSection>, i: int)
    requires
        0 <= i < sections.len(),
    ensures
        bodies(sections.take(i)).len() + sections[i].stored@.len() <= bodies(sections).len(),
        bodies(sections).subrange(
            bodies(sections.take(i)).len() as int,
            (bodies(sections.take(i)).len() + sections[i].stored@.len()) as int,
        ) == sections[i].stored@,
    decreases sections.len(),
{
    let front = sections.drop_last();
    let start = bodies(sections.take(i)).len() as int;
    let end = start + sections[i].stored@.len();
    if i < front.len() {
        lemma_body_part(front, i);
        assert(front.take(i) =~= sections.take(i));
        assert(bodies(sections).subrange(start, end) =~= bodies(front).subrange(start, end));
    } else {
        assert(front =~= sections.take(i));
        assert(bodies(sections).subrange(start, end) =~= sections[i].stored@);
    }
}

/// The directory of a file is that of the sections it was made from.
proof fn lemma_directory_round_trip(sections: Seq<EncodedSection>)
    requires
        sections.len() <= u32::MAX,
        file_bytes(sections).len() <= u64::MAX,
    ensures
        directory_of(file_bytes(sections)) == Ok::<Seq<DirectoryEntry>, Fault>(
            Seq::new(sections.len(), |i: int| entry_of(sections, i)),
        ),
{
    let file = file_bytes(sections);
    let count = sections.len();
    let offset = offset_after(sections);
    let header = header_bytes(count, offset);
    lemma_pow256();
    lemma_header_len(count, offset);
    lemma_directory_len(sections);
    law_le_round_trip(SQRB_MAJOR as nat, 2);
    law_le_round_trip(SQRB_MINOR as nat, 2);
    law_le_round_trip(count, 4);
    law_le_round_trip(offset, 8);
    assert(file.take(4) =~= magic());
    assert(file.subrange(4, 6) =~= le_bytes(SQRB_MAJOR as nat, 2));
    assert(file.subrange(8, 12) =~= le_bytes(count, 4));
    assert(file.subrange(12, 20) =~= le_bytes(offset, 8));
    let found = Seq::new(count, |i: int| entry_at(file, offset + ENTRY_LEN * i));
    let wanted = Seq::new(count, |i: int| entry_of(sections, i));
    assert forall|i: int| 0 <= i < count implies found[i] == wanted[i] by {
        let at = offset + ENTRY_LEN * i;
        let before = offset_after(sections.take(i));
        lemma_directory_part(sections, i);
        lemma_body_part(sections, i);
        let bytes = entry_bytes(sections[i], before);
        lemma_entry_fields(sections[i], before);
        let directory = directory_bytes(sections);
        assert forall|a: int, b: int| 0 <= a <= b <= ENTRY_LEN implies #[trigger] bytes.subrange(
            a,
            b,
        ) == file.subrange(at + a, at + b) by {
            assert(directory.subrange(ENTRY_LEN * i, ENTRY_LEN * i + ENTRY_LEN) =~= file.subrange(
                at,
                at + ENTRY_LEN,
            ));
            assert(file.subrange(at, at + ENTRY_LEN).subrange(a, b) =~= file.subrange(
                at + a,
                at + b,
            ));
        }
        assert(bytes.subrange(0, 2) == file.subrange(at, at + 2));
        assert(bytes.subrange(2, 4) == file.subrange(at + 2, at + 4));
        assert(bytes.subrange(8, 16) == file.subrange(at + 8, at + 16));
        assert(bytes.subrange(16, 24) == file.subrange(at + 16, at + 24));
        assert(bytes.subrange(32, 36) == file.subrange(at + 32, at + 36));
    }
    assert(found =~= wanted);
}

/// The section numbers and contents of sections and what they hold.
pub open spec fn written(sections: Seq<EncodedSection>, raws: Seq<Seq<u8>>) -> Seq<
    (u16, Seq<u8>),
> {
    Seq::new(sections.len(), |i: int| (section_number(sections[i].id), raws[i]))
}

/// Reading the first sections of a file gives back what they hold.
proof fn lemma_contents_round_trip(
    sections: Seq<EncodedSection>,
    raws: Seq<Seq<u8>>,
    n: int,
)
    requires
        0 <= n <= sections.len(),
        sections.len() == raws.len(),
        file_bytes(sections).len() <= u64::MAX,
        forall|i: int| 0 <= i < sections.len() ==> holds(#[trigger] sections[i], raws[i]),
    ensures
        contents_of(
            file_bytes(sections),
            Seq::new(sections.len(), |i: int| entry_of(sections, i)).take(n),
        ) == Ok::<Seq<(u16, Seq<u8>)>, Fault>(written(sections, raws).take(n)),
    decreases n,
{
    let entries = Seq::new(sections.len(), |i: int| entry_of(sections, i));
    let file = file_bytes(sections);
    if n == 0 {
        assert(written(sections, raws).take(0) =~= Seq::empty());
    } else {
        let i = n - 1;
        lemma_contents_round_trip(sections, raws, i);
        assert(entries.take(n).drop_last() =~= entries.take(i));
        assert(written(sections, raws).take(n) =~= written(sections, raws).take(i).push(
            (section_number(sections[i].id), raws[i]),
        ));
        lemma_body_part(sections, i);
        lemma_header_len(sections.len(), offset_after(sections));
        let start = offset_after(sections.take(i)) as int;
        let end = start + sections[i].stored@.len();
        assert(holds(sections[i], raws[i]));
        assert(file.subrange(start, end) =~= bodies(sections).subrange(
            start - HEADER_LEN,
            end - HEADER_LEN,
        ));
        assert(content_of(file, entries[i]) == Ok::<Seq<u8>, Fault>(raws[i]));
    }
}

/// A file that was made from sections is read as what the sections hold: the
/// same numbers and the same contents, in the same order. No file is too long
/// for that unless its length does not fit in 64 bits.
pub proof fn law_read_gives_back_what_was_written(
    sections: Seq<EncodedSection>,
    raws: Seq<Seq<u8>>,
)
    requires
        sections.len() == raws.len(),
        sections.len() <= u32::MAX,
        file_bytes(sections).len() <= u64::MAX,
        forall|i: int| 0 <= i < sections.len() ==> holds(#[trigger] sections[i], raws[i]),
    ensures
        read_file(file_bytes(sections)) == Ok::<Seq<(u16, Seq<u8>)>, Fault>(
            written(sections, raws),
        ),
{
    lemma_directory_round_trip(sections);
    lemma_contents_round_trip(sections, raws, sections.len() as int);
    let entries = Seq::new(sections.len(), |i: int| entry_of(sections, i));
    assert(entries.take(sections.len() as int) =~= entries);
    assert(written(sections, raws).take(sections.len() as int) =~= written(sections, raws));
}

/// A section whose stored bytes lie, by the directory, past the end of the file
/// is refused, and so is one whose content does not have the checksum that the
/// directory states.
pub proof fn law_damage_is_refused(bytes: Seq<u8>, entry: DirectoryEntry)
    ensures
        entry.offset + entry.stored_len > bytes.len() ==> content_of(bytes, entry) is Err,
        content_of(bytes, entry) matches Ok(raw) ==> crc32_of(raw) == entry.crc32,
{
}

/// A file whose header was never patched, so that the directory is said to
/// stand at zero, is refused.
pub proof fn law_unpatched_header_is_refused(bytes: Seq<u8>)
    requires
        bytes.len() >= HEADER_LEN,
        number_at(bytes, 12, 8) == 0,
    ensures
        read_file(bytes) is Err,
{
}

// ---------------------------------------------------------------------------
// Files of contents and of bundles
// ---------------------------------------------------------------------------

/// The contents, each with the number of its section.
pub open spec fn numbered_contents(payloads: Seq<PayloadModel>) -> Seq<(u16, Seq<u8>)> {
    payloads.map_values(|payload: PayloadModel| (section_number(payload.id), payload.raw))
}

/// The sections store the contents, one each.
pub open spec fn store_all(sections: Seq<EncodedSection>, payloads: Seq<PayloadModel>) -> bool {
    &&& sections.len() == payloads.len()
    &&& forall|i: int| 0 <= i < sections.len() ==> stores(#[trigger] sections[i], payloads[i])
}

/// The bytes are a file that holds the contents, in their order.
pub open spec fn is_file_of(bytes: Seq<u8>, payloads: Seq<PayloadModel>) -> bool {
    exists|sections: Seq<EncodedSection>|
        store_all(sections, payloads) && bytes == #[trigger] file_bytes(sections)
}

/// A file that holds contents is read as these contents, in their order.
pub proof fn law_files_are_read_as_written(bytes: Seq<u8>, payloads: Seq<PayloadModel>)
    requires
        is_file_of(bytes, payloads),
        payloads.len() <= u32::MAX,
        bytes.len() <= u64::MAX,
    ensures
        read_file(bytes) == Ok::<Seq<(u16, Seq<u8>)>, Fault>(numbered_contents(payloads)),
{
    let sections = choose|sections: Seq<EncodedSection>|
        store_all(sections, payloads) && bytes == #[trigger] file_bytes(sections);
    let raws = Seq::new(payloads.len(), |i: int| payloads[i].raw);
    assert forall|i: int| 0 <= i < sections.len() implies holds(#[trigger] sections[i], raws[i]) by {
        assert(stores(sections[i], payloads[i]));
    }
    law_read_gives_back_what_was_written(sections, raws);
    assert forall|i: int| 0 <= i < sections.len() implies (#[trigger] sections[i]).id
        == payloads[i].id by {
        assert(stores(sections[i], payloads[i]));
    }
    assert(written(sections, raws) =~= numbered_contents(payloads));
}

/// The file that holds the contents. It is made unless the encoder of zstd fails
/// on one of those that are compressed, and it is read as the contents.
pub fn write_sections(payloads: &Vec<SectionPayload>) -> (file: Result<Vec<u8>, SqrbError>)
    requires
        payloads@.len() <= u32::MAX,
    ensures
        match file {
            Ok(bytes) => {
                &&& is_file_of(bytes@, payload_models(payloads@))
                &&& read_file(bytes@) == Ok::<Seq<(u16, Seq<u8>)>, Fault>(
                    numbered_contents(payload_models(payloads@)),
                )
            },
            Err(e) => is_encoder_fault(e@) && exists|i: int|
                0 <= i < payloads@.len() && is_compressed((#[trigger] payloads@[i]).id),
        },
{
    let ghost models = payload_models(payloads@);
    let mut sections: Vec<EncodedSection> = Vec::new();
    let mut i: usize = 0;
    while i < payloads.len()
        invariant
            i <= payloads@.len(),
            sections@.len() == i,
            models == payload_models(payloads@),
            forall|j: int| 0 <= j < i ==> stores(#[trigger] sections@[j], models[j]),
        decreases payloads@.len() - i,
    {
        match encode_payload(&payloads[i]) {
            Ok(section) => {
                assert(models[i as int] == payloads@[i as int]@);
                sections.push(section);
            },
            Err(e) => {
                assert(is_compressed(payloads@[i as int].id));
                return Err(e);
            },
        }
        i += 1;
    }
    let file = assemble_sqrb(&sections);
    proof {
        assert(store_all(sections@, models));
        assert(file.len() <= u64::MAX);
        law_files_are_read_as_written(file@, models);
    }
    Ok(file)
}

/// The contents of the sections of a bundle, given the bytes of each in the
/// order of a file: every section is there, in that order, with the number of
/// items of its part of the bundle.
pub open spec fn bundle_payloads(bundle: Bundle, raws: Seq<Seq<u8>>) -> Seq<PayloadModel> {
    Seq::new(
        section_order().len(),
        |i: int|
            PayloadModel {
                id: section_order()[i],
                item_count: part_items(part_of(bundle, section_order()[i])),
                raw: raws[i],
            },
    )
}

/// Some lists of bytes as sequences.
pub open spec fn byte_seqs(raws: Seq<Vec<u8>>) -> Seq<Seq<u8>> {
    raws.map_values(|raw: Vec<u8>| raw@)
}

/// The contents of the sections of a bundle, given the bytes of each in the
/// order of a file.
pub fn section_payloads<'a>(bundle: &Bundle, raws: &'a Vec<Vec<u8>>) -> (payloads: Vec<
    SectionPayload<'a>,
>)
    requires
        raws@.len() == section_order().len(),
    ensures
        payload_models(payloads@) == bundle_payloads(*bundle, byte_seqs(raws@)),
{
    let ids = sections_in_order();
    let ghost models = bundle_payloads(*bundle, byte_seqs(raws@));
    let mut payloads: Vec<SectionPayload<'a>> = Vec::new();
    let mut i: usize = 0;
    while i < ids.len()
        invariant
            i <= ids@.len(),
            ids@ == section_order(),
            raws@.len() == ids@.len(),
            payloads@.len() == i,
            models == bundle_payloads(*bundle, byte_seqs(raws@)),
            forall|j: int| 0 <= j < i ==> (#[trigger] payloads@[j])@ == models[j],
        decreases ids@.len() - i,
    {
        let payload = SectionPayload {
            id: ids[i],
            item_count: section_items(bundle, ids[i]),
            raw: raws[i].as_slice(),
        };
        assert(payload@ == models[i as int]);
        payloads.push(payload);
        i += 1;
    }
    assert(payload_models(payloads@) =~= models);
    payloads
}

/// The file that holds a bundle, given the bytes of each of its parts in the
/// order of the sections. It holds every section, in that order. It is made
/// unless the encoder of zstd fails.
pub fn write_sqrb(bundle: &Bundle, raws: &Vec<Vec<u8>>) -> (file: Result<Vec<u8>, SqrbError>)
    requires
        raws@.len() == section_order().len(),
    ensures
        match file {
            Ok(bytes) => {
                let payloads = bundle_payloads(*bundle, byte_seqs(raws@));
                &&& is_file_of(bytes@, payloads)
                &&& read_file(bytes@) == Ok::<Seq<(u16, Seq<u8>)>, Fault>(
                    numbered_contents(payloads),
                )
            },
            Err(e) => is_encoder_fault(e@),
        },
{
    let payloads = section_payloads(bundle, raws);
    assert(payload_models(payloads@).len() == payloads@.len());
    write_sections(&payloads)
}

/// The ids of the contents of a bundle are those of all sections, in their
/// order, and no section is there twice.
pub proof fn law_files_hold_every_section(bundle: Bundle, raws: Seq<Seq<u8>>)
    ensures
        bundle_payloads(bundle, raws).map_values(|payload: PayloadModel| payload.id)
            == section_order(),
        forall|id: SectionId| #[trigger] section_order().contains(id),
        section_order().no_duplicates(),
{
    assert(bundle_payloads(bundle, raws).map_values(|payload: PayloadModel| payload.id)
        =~= section_order());
    assert forall|id: SectionId| #[trigger] section_order().contains(id) by {
        assert(section_order()[section_number(id) - 1] == id);
    }
    assert forall|i: int| 0 <= i < section_order().len() implies section_number(
        #[trigger] section_order()[i],
    ) == i + 1 by {}
}

/// The parts that the contents of a file are read as, by a way to read the
/// content of a section. A content that no section is known for is passed over;
/// there are no parts where one cannot be read.
pub open spec fn parts_read(
    contents: Seq<(u16, Seq<u8>)>,
    read: spec_fn(SectionId, Seq<u8>) -> Option<SectionPart>,
) -> Option<Seq<SectionPart>>
    decreases contents.len(),
{
    if contents.len() == 0 {
        Some(Seq::empty())
    } else {
        match (parts_read(contents.drop_last(), read), numbered_section(contents.last().0)) {
            (None, _) => None,
            (Some(before), None) => Some(before),
            (Some(before), Some(id)) => match read(id, contents.last().1) {
                Some(part) => Some(before.push(part)),
                None => None,
            },
        }
    }
}

/// A bundle that is read from a file: its parts, put into a bundle to start
/// with. There is none where the file is refused or a part cannot be read.
pub open spec fn bundle_read(
    bytes: Seq<u8>,
    start: Bundle,
    read: spec_fn(SectionId, Seq<u8>) -> Option<SectionPart>,
) -> Option<Bundle> {
    match read_file(bytes) {
        Ok(contents) => match parts_read(contents, read) {
            Some(parts) => Some(with_parts(start, parts)),
            None => None,
        },
        Err(_) => None,
    }
}

/// The parts of a bundle, if each of its contents is read as its part.
proof fn lemma_parts_read(
    bundle: Bundle,
    raws: Seq<Seq<u8>>,
    read: spec_fn(SectionId, Seq<u8>) -> Option<SectionPart>,
    n: int,
)
    requires
        0 <= n <= section_order().len(),
        forall|i: int|
            0 <= i < section_order().len() ==> read(#[trigger] section_order()[i], raws[i])
                == Some(part_of(bundle, section_order()[i])),
    ensures
        parts_read(numbered_contents(bundle_payloads(bundle, raws)).take(n), read) == Some(
            parts_of(bundle).take(n),
        ),
    decreases n,
{
    let all = numbered_contents(bundle_payloads(bundle, raws));
    if n == 0 {
        assert(parts_of(bundle).take(0) =~= Seq::empty());
    } else {
        lemma_parts_read(bundle, raws, read, n - 1);
        let id = section_order()[n - 1];
        assert(all.take(n).drop_last() =~= all.take(n - 1));
        assert(all.take(n).last() == (section_number(id), raws[n - 1]));
        law_section_numbers(id, 0);
        assert(parts_of(bundle).take(n) =~= parts_of(bundle).take(n - 1).push(part_of(bundle, id)));
    }
}

/// A bundle that was written is read back, every field of it, whatever the
/// bundle is that reading starts with, if each part is read from its own bytes.
pub proof fn law_bundle_round_trip(
    bundle: Bundle,
    raws: Seq<Seq<u8>>,
    file: Seq<u8>,
    start: Bundle,
    read: spec_fn(SectionId, Seq<u8>) -> Option<SectionPart>,
)
    requires
        is_file_of(file, bundle_payloads(bundle, raws)),
        file.len() <= u64::MAX,
        forall|i: int|
            0 <= i < section_order().len() ==> read(#[trigger] section_order()[i], raws[i])
                == Some(part_of(bundle, section_order()[i])),
    ensures
        bundle_read(file, start, read) == Some(bundle),
{
    let payloads = bundle_payloads(bundle, raws);
    let n = section_order().len() as int;
    law_files_are_read_as_written(file, payloads);
    lemma_parts_read(bundle, raws, read, n);
    assert(numbered_contents(payloads).take(n) =~= numbered_contents(payloads));
    assert(parts_of(bundle).take(n) =~= parts_of(bundle));
    law_parts_make_the_bundle(bundle, start);
}

} // verus!
