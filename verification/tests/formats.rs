use squadreplay::bundle::{
    ActorEntity, Bundle, CaptureZone, KillEvent, Player, PropertyEvent, Team, Track3,
    TrackSample3, VehicleDeathEvent,
};
use squadreplay::formats::{
    compressed_section, encode_payload, encode_section, read_directory, read_section,
    read_sqrb, section_payloads, sections_in_order, write_sections, write_sqrb, SectionId,
    SectionPayload, SqrbError, SQRB_ZSTD_LEVEL,
};
use squadreplay::outside::{ZstdFailure, ZstdSettings};
use squadreplay::parts::{bundle_parts, put_part, section_items, SectionPart};

fn payload(id: SectionId, raw: &[u8]) -> SectionPayload<'_> {
    SectionPayload { id, item_count: raw.len() as u32, raw }
}

fn sample_raws() -> Vec<Vec<u8>> {
    (0..sections_in_order().len())
        .map(|i| (0..i * 700).map(|k| (k % (i + 3)) as u8).collect())
        .collect()
}

fn sample_bundle() -> Bundle {
    let mut bundle = Bundle::default();
    bundle.schema.profile = "other".to_string();
    bundle.replay.duration_ms = 7_000;
    bundle.game_state.motd = Some("welcome".to_string());
    bundle.teams = vec![Team { id: 3, ..Team::default() }; 2];
    bundle.players = vec![Player { player_state_guid: 5, ..Player::default() }];
    bundle.actors.helicopters = vec![ActorEntity { actor_guid: 754, ..ActorEntity::default() }];
    bundle.tracks.vehicles = vec![Track3 {
        samples: vec![TrackSample3 { t_ms: 16, ..TrackSample3::default() }],
        ..Track3::default()
    }];
    bundle.events.kills = vec![KillEvent { t_ms: 9, ..KillEvent::default() }; 3];
    bundle.events.properties = vec![PropertyEvent { t_ms: 1, ..PropertyEvent::default() }; 4];
    bundle.events.capture_zones =
        vec![CaptureZone { name: Some("B7-Alma".to_string()), ..CaptureZone::default() }];
    bundle.events.vehicle_deaths = vec![VehicleDeathEvent::default(); 5];
    bundle.diagnostics.warnings = vec!["w".to_string()];
    bundle
}

fn message(bytes: &[u8]) -> String {
    match read_sqrb(bytes) {
        Ok(_) => "ok".to_string(),
        Err(e) => e.message(),
    }
}

#[test]
fn what_is_written_is_read() {
    let bundle = sample_bundle();
    let raws = sample_raws();
    let file = write_sqrb(&bundle, &raws).unwrap();
    let sections = read_sqrb(&file).unwrap();
    let ids = sections_in_order();
    assert_eq!(sections.len(), ids.len());
    let payloads = section_payloads(&bundle, &raws);
    assert_eq!(payloads.len(), ids.len());
    assert!(payloads.iter().zip(&ids).all(|(payload, id)| payload.id == *id));
    for (i, (number, raw)) in sections.iter().enumerate() {
        assert_eq!(*number, ids[i].number());
        assert_eq!(*raw, raws[i]);
    }
    for (i, entry) in read_directory(&file).unwrap().iter().enumerate() {
        let at = file.len() - (ids.len() - i) * 40 + 36;
        assert_eq!(file[at..at + 4], section_items(&bundle, ids[i]).to_le_bytes());
        assert_eq!(entry.id, ids[i].number());
    }
}

#[test]
fn bundles_are_taken_apart_and_put_together() {
    let bundle = sample_bundle();
    let parts = bundle_parts(bundle.clone());
    let ids: Vec<SectionId> = parts.iter().map(|part| part.id()).collect();
    assert_eq!(ids, sections_in_order());
    let mut made = Bundle::default();
    made.squads = vec![Default::default()];
    for part in parts {
        put_part(&mut made, part);
    }
    assert_eq!(format!("{made:?}"), format!("{bundle:?}"));
}

#[test]
fn a_part_replaces_its_field_alone() {
    let bundle = sample_bundle();
    let mut changed = bundle.clone();
    put_part(&mut changed, SectionPart::CaptureZones(vec![]));
    assert!(changed.events.capture_zones.is_empty());
    changed.events.capture_zones = bundle.events.capture_zones.clone();
    assert_eq!(format!("{changed:?}"), format!("{bundle:?}"));
    let counts: Vec<u32> =
        sections_in_order().into_iter().map(|id| section_items(&bundle, id)).collect();
    assert_eq!(
        counts,
        vec![1, 2, 0, 1, 0, 1, 0, 0, 0, 1, 0, 3, 0, 0, 0, 0, 0, 4, 1, 1, 1, 5]
    );
}

#[test]
fn sections_keep_their_numbers_and_ways() {
    let ids = sections_in_order();
    assert_eq!(ids.len(), 22);
    for (i, id) in ids.iter().enumerate() {
        assert_eq!(id.number() as usize, i + 1);
        assert_eq!(SectionId::from_number(id.number()), Some(*id));
        assert_eq!(id.json(), *id == SectionId::Manifest);
        let workers = if *id == SectionId::Properties { 4 } else { 0 };
        assert_eq!(id.settings(), ZstdSettings { level: 3, workers });
    }
    assert_eq!(SectionId::from_number(0), None);
    assert_eq!(SectionId::from_number(23), None);
    let compressed: Vec<u16> =
        ids.iter().filter(|id| id.compressed()).map(|id| id.number()).collect();
    assert_eq!(compressed, vec![9, 10, 11, 15, 16, 17, 18]);
}

#[test]
fn header_and_directory_are_laid_out_as_the_format_says() {
    let file = write_sections(&vec![payload(SectionId::Teams, b"abc")]).unwrap();
    assert_eq!(&file[0..4], b"SQRB");
    assert_eq!(file[4..12], [1, 0, 0, 0, 1, 0, 0, 0]);
    assert_eq!(file[12..20], 35u64.to_le_bytes());
    assert_eq!(file[20..32], [0u8; 12]);
    assert_eq!(&file[32..35], b"abc");
    assert_eq!(file[35..43], [2, 0, 2, 0, 0, 0, 0, 0]);
    assert_eq!(file[43..51], 32u64.to_le_bytes());
    assert_eq!(file[51..59], 3u64.to_le_bytes());
    assert_eq!(file[59..67], 3u64.to_le_bytes());
    assert_eq!(file[67..71], 0x3524_41c2u32.to_le_bytes());
    assert_eq!(file[71..75], 3u32.to_le_bytes());
    assert_eq!(file.len(), 75);
}

#[test]
fn compressed_sections_are_smaller_and_checked_before_compression() {
    let raw = vec![7u8; 100_000];
    let section = encode_payload(&payload(SectionId::Properties, &raw)).unwrap();
    assert_eq!(section.flags, 6);
    assert_eq!(section.raw_len, 100_000);
    assert!(section.stored.len() < 1000);
    let plain = encode_payload(&payload(SectionId::Kills, &raw)).unwrap();
    assert_eq!(plain.flags, 2);
    assert_eq!(plain.stored, raw);
    assert_eq!(plain.crc32, section.crc32);
    let manifest = encode_payload(&payload(SectionId::Manifest, b"{}")).unwrap();
    assert_eq!(manifest.flags, 1);
    let plain = ZstdSettings { level: SQRB_ZSTD_LEVEL, workers: 0 };
    let json = encode_section(SectionId::Manifest, true, true, 1, plain, b"{}").unwrap();
    assert_eq!(json.flags, 5);
}

#[test]
fn checksums_are_those_of_the_standard() {
    fn crc(bytes: &[u8]) -> u32 {
        let mut register = 0xffff_ffffu32;
        for byte in bytes {
            register ^= *byte as u32;
            for _ in 0..8 {
                let low = register & 1;
                register >>= 1;
                if low == 1 {
                    register ^= 0xedb8_8320;
                }
            }
        }
        register ^ 0xffff_ffff
    }
    assert_eq!(crc(b"123456789"), 0xcbf4_3926);
    for len in [0usize, 1, 2, 3, 4, 7, 8, 15, 16, 17, 63, 64, 65, 200, 1000, 70_000] {
        let raw: Vec<u8> = (0..len).map(|i| (i * 31 + (i >> 3)) as u8).collect();
        let section = encode_payload(&payload(SectionId::Kills, &raw)).unwrap();
        assert_eq!(section.crc32, crc(&raw));
    }
}

#[test]
fn sections_without_workers_are_stored_alike() {
    let raw: Vec<u8> = (0..900_000u32).map(|i| (i.wrapping_mul(i) >> 7) as u8).collect();
    let payload = payload(SectionId::PlayerTracks, &raw);
    let first = encode_payload(&payload).unwrap();
    let second = encode_payload(&payload).unwrap();
    assert_eq!(first.stored, second.stored);
    let slower = ZstdSettings { level: 19, workers: 0 };
    let other = encode_section(SectionId::PlayerTracks, false, true, 1, slower, &raw).unwrap();
    assert_ne!(first.stored, other.stored);
    assert_eq!(first.crc32, other.crc32);
}

#[test]
fn encoder_failures_are_told() {
    let cases = [
        (ZstdFailure::Init("a".to_string()), "zstd encode init failed: a"),
        (ZstdFailure::Workers("b".to_string()), "zstd multithread init failed: b"),
        (ZstdFailure::Write("c".to_string()), "sqrb buffer flush failed: c"),
        (ZstdFailure::Finish("d".to_string()), "zstd encode finish failed: d"),
    ];
    for (failure, text) in cases {
        let result = compressed_section(SectionId::Properties, false, 1, b"raw", Err(failure));
        assert_eq!(result.unwrap_err().message(), text);
    }
    let section =
        compressed_section(SectionId::Properties, false, 9, b"raw", Ok(vec![1, 2])).unwrap();
    assert_eq!(section.stored, vec![1, 2]);
    assert_eq!(section.item_count, 9);
    assert_eq!(section.raw_len, 3);
}

#[test]
fn broken_headers_are_refused() {
    let good = write_sections(&vec![payload(SectionId::Teams, b"abc")]).unwrap();
    assert_eq!(message(&good), "ok");
    assert_eq!(message(b""), "bad magic");
    assert_eq!(message(&good[..31]), "bad magic");
    let mut bad = good.clone();
    bad[0] = b'X';
    assert_eq!(message(&bad), "bad magic");
    let mut major = good.clone();
    major[4] = 2;
    assert_eq!(message(&major), "unsupported major version 2");
    let mut unpatched = good.clone();
    for i in 12..20 {
        unpatched[i] = 0;
    }
    assert_eq!(
        message(&unpatched),
        "directory offset 0 is out of range (file size 75) \u{2014} the bundle is likely truncated or the writer did not patch the header"
    );
    assert_eq!(message(&good[..74]), "unexpected end of file");
    let mut many = good.clone();
    many[8] = 2;
    assert_eq!(message(&many), "unexpected end of file");
}

#[test]
fn broken_sections_are_refused() {
    let good = write_sections(&vec![payload(SectionId::Teams, b"abc")]).unwrap();
    let mut content = good.clone();
    content[33] = b'x';
    assert_eq!(message(&content), "crc mismatch on section 2");
    let mut long = good.clone();
    long[51] = 200;
    assert_eq!(message(&long), "section out of bounds");
    let mut far = good.clone();
    for i in 43..51 {
        far[i] = 0xff;
    }
    assert_eq!(message(&far), "section out of bounds");
    let mut flagged = good.clone();
    flagged[37] = 6;
    assert!(message(&flagged).starts_with("zstd decode failed: "));
}

#[test]
fn directories_are_read_one_entry_at_a_time() {
    let file = write_sections(&vec![
        payload(SectionId::Teams, b"abc"),
        payload(SectionId::PlayerTracks, b"defg"),
    ])
    .unwrap();
    let entries = read_directory(&file).unwrap();
    assert_eq!(entries.len(), 2);
    assert_eq!(entries[0].id, 2);
    assert_eq!(entries[0].offset, 32);
    assert_eq!(entries[1].id, 9);
    assert_eq!(entries[1].flags, 6);
    assert_eq!(read_section(&file, &entries[0]).unwrap(), b"abc");
    assert_eq!(read_section(&file, &entries[1]).unwrap(), b"defg");
    assert!(matches!(read_directory(&file[..20]), Err(SqrbError::BadMagic)));
}
