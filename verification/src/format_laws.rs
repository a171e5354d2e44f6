//! How a bundle file is laid out, byte by byte, and when one is refused.

use crate::bundle::Bundle;
use crate::formats::{
    bodies, content_of, contents_of, directory_bytes, directory_of, entry_bytes, file_bytes,
    header_bytes, number_at, offset_after, section_flags, section_number, section_order,
    DirectoryEntry, EncodedSection, Fault, SectionId,
};
use crate::le_bytes::{law_le_round_trip, le_bytes, le_value, lemma_pow256, pow256};
use crate::outside::{crc32_of, zstd_decoded};
use crate::parts::{part_items, part_of, parts_of, SectionPart};
use vstd::prelude::*;

verus! {

// ---------------------------------------------------------------------------
// Numbers
// ---------------------------------------------------------------------------

/// Numbers stand in a file with their lowest byte first.
pub proof fn law_lowest_byte_first(bytes: Seq<u8>)
    ensures
        bytes.len() == 2 ==> le_value(bytes) == bytes[0] + 0x100 * bytes[1],
        bytes.len() == 4 ==> le_value(bytes) == bytes[0] + 0x100 * bytes[1] + 0x1_0000 * bytes[2]
            + 0x100_0000 * bytes[3],
        bytes.len() == 8 ==> le_value(bytes) == bytes[0] + 0x100 * bytes[1] + 0x1_0000 * bytes[2]
            + 0x100_0000 * bytes[3] + 0x1_0000_0000 * bytes[4] + 0x100_0000_0000 * bytes[5]
            + 0x1_0000_0000_0000 * bytes[6] + 0x100_0000_0000_0000 * bytes[7],
{
    reveal_with_fuel(le_value, 9);
    if bytes.len() == 2 || bytes.len() == 4 || bytes.len() == 8 {
        assert(bytes.skip(1).skip(1) =~= bytes.skip(2));
    }
    if bytes.len() == 4 || bytes.len() == 8 {
        assert(bytes.skip(2).skip(1) =~= bytes.skip(3));
        assert(bytes.skip(3).skip(1) =~= bytes.skip(4));
    }
    if bytes.len() == 8 {
        assert(bytes.skip(4).skip(1) =~= bytes.skip(5));
        assert(bytes.skip(5).skip(1) =~= bytes.skip(6));
        assert(bytes.skip(6).skip(1) =~= bytes.skip(7));
        assert(bytes.skip(7).skip(1) =~= bytes.skip(8));
    }
}

/// A number that stands between other bytes is read at its place.
proof fn lemma_number_between(front: Seq<u8>, n: nat, width: nat, back: Seq<u8>)
    requires
        n < pow256(width),
    ensures
        number_at(front + le_bytes(n, width) + back, front.len() as int, width as int) == n,
        le_bytes(n, width).len() == width,
{
    law_le_round_trip(n, width);
    let all = front + le_bytes(n, width) + back;
    assert(all.subrange(front.len() as int, (front.len() + width) as int) =~= le_bytes(n, width));
}

// ---------------------------------------------------------------------------
// Layout
// ---------------------------------------------------------------------------

/// A file begins with a header of 32 bytes: `SQRB`, the version 1.0, the number
/// of sections, where the directory stands, and twelve bytes of zeros.
pub proof fn law_header_layout(count: nat, directory_offset: nat)
    requires
        count < 0x1_0000_0000,
        directory_offset < 0x1_0000_0000_0000_0000,
    ensures
        ({
            let header = header_bytes(count, directory_offset);
            &&& header.len() == 32
            &&& header[0] == 0x53 && header[1] == 0x51 && header[2] == 0x52 && header[3] == 0x42
            &&& number_at(header, 4, 2) == 1
            &&& number_at(header, 6, 2) == 0
            &&& number_at(header, 8, 4) == count
            &&& number_at(header, 12, 8) == directory_offset
            &&& number_at(header, 20, 4) == 0
            &&& number_at(header, 24, 8) == 0
        }),
{
    lemma_pow256();
    let header = header_bytes(count, directory_offset);
    let m = seq![0x53u8, 0x51u8, 0x52u8, 0x42u8];
    let a = le_bytes(1, 2);
    let b = le_bytes(0, 2);
    let c = le_bytes(count, 4);
    let d = le_bytes(directory_offset, 8);
    let e = le_bytes(0, 4);
    let f = le_bytes(0, 8);
    lemma_number_between(m, 1, 2, b + c + d + e + f);
    lemma_number_between(m + a, 0, 2, c + d + e + f);
    lemma_number_between(m + a + b, count, 4, d + e + f);
    lemma_number_between(m + a + b + c, directory_offset, 8, e + f);
    lemma_number_between(m + a + b + c + d, 0, 4, f);
    lemma_number_between(m + a + b + c + d + e, 0, 8, Seq::empty());
    assert(header =~= m + a + b + c + d + e + f);
    assert(header =~= m + a + (b + c + d + e + f));
    assert(header =~= (m + a) + b + (c + d + e + f));
    assert(header =~= (m + a + b) + c + (d + e + f));
    assert(header =~= (m + a + b + c) + d + (e + f));
    assert(header =~= (m + a + b + c + d) + e + f);
    assert(header =~= (m + a + b + c + d + e) + f + Seq::<u8>::empty());
}

/// An entry of the directory has 40 bytes: the number and the flags of its
/// section, four zeros, where the section stands, how long it is as it is stored
/// and as it was, its checksum, and the number of its items.
pub proof fn law_entry_layout(section: EncodedSection, offset: nat)
    requires
        offset < 0x1_0000_0000_0000_0000,
        section.stored@.len() < 0x1_0000_0000_0000_0000,
    ensures
        ({
            let entry = entry_bytes(section, offset);
            &&& entry.len() == 40
            &&& number_at(entry, 0, 2) == section_number(section.id)
            &&& number_at(entry, 2, 2) == section.flags
            &&& number_at(entry, 4, 4) == 0
            &&& number_at(entry, 8, 8) == offset
            &&& number_at(entry, 16, 8) == section.stored@.len()
            &&& number_at(entry, 24, 8) == section.raw_len
            &&& number_at(entry, 32, 4) == section.crc32
            &&& number_at(entry, 36, 4) == section.item_count
        }),
{
    lemma_pow256();
    let entry = entry_bytes(section, offset);
    let a = le_bytes(section_number(section.id) as nat, 2);
    let b = le_bytes(section.flags as nat, 2);
    let c = le_bytes(0, 4);
    let d = le_bytes(offset, 8);
    let e = le_bytes(section.stored@.len(), 8);
    let f = le_bytes(section.raw_len as nat, 8);
    let g = le_bytes(section.crc32 as nat, 4);
    let h = le_bytes(section.item_count as nat, 4);
    let none = Seq::<u8>::empty();
    lemma_number_between(none, section_number(section.id) as nat, 2, b + c + d + e + f + g + h);
    lemma_number_between(a, section.flags as nat, 2, c + d + e + f + g + h);
    lemma_number_between(a + b, 0, 4, d + e + f + g + h);
    lemma_number_between(a + b + c, offset, 8, e + f + g + h);
    lemma_number_between(a + b + c + d, section.stored@.len(), 8, f + g + h);
    lemma_number_between(a + b + c + d + e, section.raw_len as nat, 8, g + h);
    lemma_number_between(a + b + c + d + e + f, section.crc32 as nat, 4, h);
    lemma_number_between(a + b + c + d + e + f + g, section.item_count as nat, 4, none);
    assert(entry =~= a + b + c + d + e + f + g + h);
    assert(entry =~= none + a + (b + c + d + e + f + g + h));
    assert(entry =~= a + b + (c + d + e + f + g + h));
    assert(entry =~= (a + b) + c + (d + e + f + g + h));
    assert(entry =~= (a + b + c) + d + (e + f + g + h));
    assert(entry =~= (a + b + c + d) + e + (f + g + h));
    assert(entry =~= (a + b + c + d + e) + f + (g + h));
    assert(entry =~= (a + b + c + d + e + f) + g + h);
    assert(entry =~= (a + b + c + d + e + f + g) + h + none);
}

/// Behind the header stand the sections as they are stored, one after the other,
/// and behind them the directory, an entry for each that says where it stands.
pub proof fn law_file_layout(sections: Seq<EncodedSection>, section: EncodedSection)
    ensures
        ({
            let end = offset_after(sections);
            &&& file_bytes(sections) == header_bytes(sections.len(), end) + bodies(sections)
                + directory_bytes(sections)
            &&& end == 32 + bodies(sections).len()
            &&& bodies(Seq::empty()) == Seq::<u8>::empty()
            &&& directory_bytes(Seq::empty()) == Seq::<u8>::empty()
            &&& bodies(sections.push(section)) == bodies(sections) + section.stored@
            &&& directory_bytes(sections.push(section)) == directory_bytes(sections) + entry_bytes(
                section,
                end,
            )
        }),
{
    assert(sections.push(section).drop_last() =~= sections);
}

/// The flags of a section say whether it is JSON or MessagePack, and whether it
/// is compressed, each in a bit of its own.
pub proof fn law_flags(json: bool, compress: bool)
    ensures
        section_flags(json, compress) & 1 == (if json {
            1u16
        } else {
            0u16
        }),
        section_flags(json, compress) & 2 == (if json {
            0u16
        } else {
            2u16
        }),
        section_flags(json, compress) & 4 == (if compress {
            4u16
        } else {
            0u16
        }),
        section_flags(json, compress) < 8,
{
    assert(1u16 & 1 == 1 && 1u16 & 2 == 0 && 1u16 & 4 == 0) by (bit_vector);
    assert(5u16 & 1 == 1 && 5u16 & 2 == 0 && 5u16 & 4 == 4) by (bit_vector);
    assert(2u16 & 1 == 0 && 2u16 & 2 == 2 && 2u16 & 4 == 0) by (bit_vector);
    assert(6u16 & 1 == 0 && 6u16 & 2 == 2 && 6u16 & 4 == 4) by (bit_vector);
}

// ---------------------------------------------------------------------------
// What is refused
// ---------------------------------------------------------------------------

/// The first thing that is wrong with a header decides: a file of less than 32
/// bytes or without `SQRB` at its start, one of another major version than 1, one
/// whose directory stands before the end of the header or behind that of the
/// file, and one that ends within the directory. Any other has a directory.
pub proof fn law_headers_refused(bytes: Seq<u8>)
    ensures
        ({
            let named = bytes.len() >= 32 && bytes[0] == 0x53 && bytes[1] == 0x51 && bytes[2] == 0x52
                && bytes[3] == 0x42;
            let major = number_at(bytes, 4, 2);
            let count = number_at(bytes, 8, 4);
            let offset = number_at(bytes, 12, 8);
            &&& !named ==> directory_of(bytes) == Err::<Seq<DirectoryEntry>, Fault>(Fault::BadMagic)
            &&& named && major != 1 ==> directory_of(bytes) == Err::<Seq<DirectoryEntry>, Fault>(
                Fault::UnsupportedMajor(major as u16),
            )
            &&& named && major == 1 && (offset < 32 || offset > bytes.len()) ==> directory_of(bytes)
                == Err::<Seq<DirectoryEntry>, Fault>(
                Fault::DirectoryOutOfRange { offset: offset as u64, size: bytes.len() as u64 },
            )
            &&& named && major == 1 && 32 <= offset <= bytes.len() && offset + 40 * count
                > bytes.len() ==> directory_of(bytes) == Err::<Seq<DirectoryEntry>, Fault>(
                Fault::UnexpectedEnd,
            )
            &&& named && major == 1 && 32 <= offset && offset + 40 * count <= bytes.len()
                ==> match directory_of(bytes) {
                Ok(entries) => entries.len() == count && forall|i: int|
                    0 <= i < count ==> {
                        let entry = #[trigger] entries[i];
                        let at = offset + 40 * i;
                        &&& entry.id == number_at(bytes, at, 2) as u16
                        &&& entry.flags == number_at(bytes, at + 2, 2) as u16
                        &&& entry.offset == number_at(bytes, at + 8, 8) as u64
                        &&& entry.stored_len == number_at(bytes, at + 16, 8) as u64
                        &&& entry.crc32 == number_at(bytes, at + 32, 4) as u32
                    },
                Err(_) => false,
            }
        }),
{
    if bytes.len() >= 32 {
        let m = seq![0x53u8, 0x51u8, 0x52u8, 0x42u8];
        let head = bytes.take(4);
        if bytes[0] == 0x53 && bytes[1] == 0x51 && bytes[2] == 0x52 && bytes[3] == 0x42 {
            assert(head =~= m);
        } else if head == m {
            assert(bytes[0] == head[0] && bytes[1] == head[1] && bytes[2] == head[2] && bytes[3]
                == head[3]);
        }
    }
}

/// A section is read where its entry points into the file, its bytes can be
/// decompressed where they are said to be compressed, and the content has the
/// checksum of the entry. What is wrong first decides.
pub proof fn law_sections_refused(bytes: Seq<u8>, entry: DirectoryEntry)
    ensures
        ({
            let end = entry.offset + entry.stored_len;
            let stored = bytes.subrange(entry.offset as int, end);
            let compressed = entry.flags & 4 != 0;
            &&& end > bytes.len() ==> content_of(bytes, entry) == Err::<Seq<u8>, Fault>(
                Fault::SectionOutOfBounds,
            )
            &&& end <= bytes.len() && compressed ==> match zstd_decoded(stored) {
                Err(text) => content_of(bytes, entry) == Err::<Seq<u8>, Fault>(
                    Fault::ZstdDecode(text),
                ),
                Ok(raw) => content_of(bytes, entry) == (if crc32_of(raw) == entry.crc32 {
                    Ok::<Seq<u8>, Fault>(raw)
                } else {
                    Err::<Seq<u8>, Fault>(Fault::CrcMismatch(entry.id))
                }),
            }
            &&& end <= bytes.len() && !compressed ==> content_of(bytes, entry) == (if crc32_of(
                stored,
            ) == entry.crc32 {
                Ok::<Seq<u8>, Fault>(stored)
            } else {
                Err::<Seq<u8>, Fault>(Fault::CrcMismatch(entry.id))
            })
        }),
{
}

/// Sections are read in the order of the directory, each under its number, and
/// the first that cannot be read decides.
pub proof fn law_sections_one_by_one(
    bytes: Seq<u8>,
    entries: Seq<DirectoryEntry>,
    entry: DirectoryEntry,
)
    ensures
        contents_of(bytes, Seq::empty()) == Ok::<Seq<(u16, Seq<u8>)>, Fault>(Seq::empty()),
        match (contents_of(bytes, entries), content_of(bytes, entry)) {
            (Err(fault), _) => contents_of(bytes, entries.push(entry)) == Err::<
                Seq<(u16, Seq<u8>)>,
                Fault,
            >(fault),
            (Ok(_), Err(fault)) => contents_of(bytes, entries.push(entry)) == Err::<
                Seq<(u16, Seq<u8>)>,
                Fault,
            >(fault),
            (Ok(before), Ok(raw)) => contents_of(bytes, entries.push(entry)) == Ok::<
                Seq<(u16, Seq<u8>)>,
                Fault,
            >(before.push((entry.id, raw))),
        },
{
    assert(entries.push(entry).drop_last() =~= entries);
}

// ---------------------------------------------------------------------------
// Parts
// ---------------------------------------------------------------------------

/// Each section carries the field of the bundle that it is named after.
pub proof fn law_parts_of_a_bundle(b: Bundle)
    ensures
        part_of(b, SectionId::Manifest) == (SectionPart::Manifest {
            schema: b.schema,
            replay: b.replay,
        }),
        part_of(b, SectionId::Teams) == SectionPart::Teams(b.teams),
        part_of(b, SectionId::Squads) == SectionPart::Squads(b.squads),
        part_of(b, SectionId::Players) == SectionPart::Players(b.players),
        part_of(b, SectionId::Vehicles) == SectionPart::Vehicles(b.actors.vehicles),
        part_of(b, SectionId::Helicopters) == SectionPart::Helicopters(b.actors.helicopters),
        part_of(b, SectionId::Deployables) == SectionPart::Deployables(b.actors.deployables),
        part_of(b, SectionId::Components) == SectionPart::Components(b.actors.components),
        part_of(b, SectionId::PlayerTracks) == SectionPart::PlayerTracks(b.tracks.players),
        part_of(b, SectionId::VehicleTracks) == SectionPart::VehicleTracks(b.tracks.vehicles),
        part_of(b, SectionId::HelicopterTracks) == SectionPart::HelicopterTracks(
            b.tracks.helicopters,
        ),
        part_of(b, SectionId::Kills) == SectionPart::Kills(b.events.kills),
        part_of(b, SectionId::Deployments) == SectionPart::Deployments(b.events.deployments),
        part_of(b, SectionId::SeatChanges) == SectionPart::SeatChanges(b.events.seat_changes),
        part_of(b, SectionId::ComponentStates) == SectionPart::ComponentStates(
            b.events.component_states,
        ),
        part_of(b, SectionId::VehicleStates) == SectionPart::VehicleStates(b.events.vehicle_states),
        part_of(b, SectionId::WeaponStates) == SectionPart::WeaponStates(b.events.weapon_states),
        part_of(b, SectionId::Properties) == SectionPart::Properties(b.events.properties),
        part_of(b, SectionId::Diagnostics) == SectionPart::Diagnostics(b.diagnostics),
        part_of(b, SectionId::GameState) == SectionPart::GameState(b.game_state),
        part_of(b, SectionId::CaptureZones) == SectionPart::CaptureZones(b.events.capture_zones),
        part_of(b, SectionId::VehicleDeaths) == SectionPart::VehicleDeaths(b.events.vehicle_deaths),
        parts_of(b).len() == 22,
{
}

/// A section has as many items as its list has, in 32 bits, and one where it is
/// no list.
pub proof fn law_items_of_sections(b: Bundle)
    ensures
        ({
            let items = |id: SectionId| part_items(part_of(b, id)) as int;
            let bits = |n: nat| n as int % 0x1_0000_0000;
            &&& items(SectionId::Manifest) == 1
            &&& items(SectionId::Diagnostics) == 1
            &&& items(SectionId::GameState) == 1
            &&& items(SectionId::Teams) == bits(b.teams@.len())
            &&& items(SectionId::Squads) == bits(b.squads@.len())
            &&& items(SectionId::Players) == bits(b.players@.len())
            &&& items(SectionId::Vehicles) == bits(b.actors.vehicles@.len())
            &&& items(SectionId::Helicopters) == bits(b.actors.helicopters@.len())
            &&& items(SectionId::Deployables) == bits(b.actors.deployables@.len())
            &&& items(SectionId::Components) == bits(b.actors.components@.len())
            &&& items(SectionId::PlayerTracks) == bits(b.tracks.players@.len())
            &&& items(SectionId::VehicleTracks) == bits(b.tracks.vehicles@.len())
            &&& items(SectionId::HelicopterTracks) == bits(b.tracks.helicopters@.len())
            &&& items(SectionId::Kills) == bits(b.events.kills@.len())
            &&& items(SectionId::Deployments) == bits(b.events.deployments@.len())
            &&& items(SectionId::SeatChanges) == bits(b.events.seat_changes@.len())
            &&& items(SectionId::ComponentStates) == bits(b.events.component_states@.len())
            &&& items(SectionId::VehicleStates) == bits(b.events.vehicle_states@.len())
            &&& items(SectionId::WeaponStates) == bits(b.events.weapon_states@.len())
            &&& items(SectionId::Properties) == bits(b.events.properties@.len())
            &&& items(SectionId::CaptureZones) == bits(b.events.capture_zones@.len())
            &&& items(SectionId::VehicleDeaths) == bits(b.events.vehicle_deaths@.len())
        }),
{
}

/// The sections stand in a file in the order of their numbers, from 1 on.
pub proof fn law_order_of_sections(i: int)
    requires
        0 <= i < section_order().len(),
    ensures
        section_order().len() == 22,
        section_number(section_order()[i]) == i + 1,
{
}

} // verus!
