//! What the operations of the library give for what they are given.

use crate::bundle::{Bundle, TrackSample3, VisibilityWindow};
use crate::calendar::Timestamp;
use crate::classify::{
    after_last, classify_deployable_event_type, component_type, contains_ignore_ascii_case,
    deployable_event_type, deployable_primary_like, extract_raas_flag_from_path, group_leaf,
    helicopter_like, infer_component_type, infer_component_type_name, infer_group_leaf,
    is_capture_zone_type, is_deployable_primary_type, is_helicopter_type, is_raas_flag_path,
    is_soldier_type, is_vehicle_type, law_flags_hold_the_answers, normalize_type, raas_flag,
    soldier_like, starts_with_ignore_ascii_case, vehicle_like, ClassifyFlags,
};
use crate::cli::{
    bundle_format, clock_text, format_duration, format_of_name, formats_of, is_format_name,
    join_lines, joined, line_views, names_in, option_text, parse_lines, render_parse_text,
    render_summary_text, render_unpack_text, render_written_outputs, summary_lines,
    unknown_format_text, written_lines, BundleFormat, BundleSummary, OutputFormat, OutputSelection,
    WrittenOutputs,
};
use crate::float_bits::Float64;
use crate::format_laws::{law_flags, law_order_of_sections};
use crate::formats::{
    assemble_sqrb, bundle_payloads, byte_seqs, content_of, content_view, directory_of,
    directory_view, encode_payload, encode_section, file_bytes, is_compressed, is_json,
    numbered_contents, payload_models, read_directory, read_file, read_section, read_sqrb,
    section_flags, section_number, section_order, sections_view, write_sections, write_sqrb,
    DirectoryEntry, EncodedSection, Fault, SectionId, SectionPayload, SqrbError,
};
use crate::game_mode::{game_mode, layer_mode, mode_in_layer, mode_of};
use crate::log_parser::{
    after_lines, all_rounds, eos_id_among, event_models, fit, held_of, line_model, line_read,
    match_models, match_score, parse_log_lines, parse_timestamp, patterns_compile,
    player_log_states, stamp_time, steam_id_among, told_of, visible_windows, windows_of_state,
    LogEvent, LogLine, LogMatch, LogPatterns, PlayerLogState,
};
use crate::name_laws::{law_classes_by_words, mentions, names_helicopter};
use crate::outside::{crc32_of, decodes_to, lowercase, uppercase, ZstdSettings};
use crate::parts::{bundle_parts, part_items, part_of, section_items, SectionPart};
use crate::string_map::StringMap;
use crate::text::{
    ascii_folded, begins_with, has_part, occurs_at, opt_text, pieces_of, trimmed,
};
use crate::ticketproof::{
    build_player_team_lookup, build_team_map, classify_vehicle, clean_vehicle_name, display_name,
    extract_mode, mode_start_tickets, normalize_team_id, proves_tickets, side_in, side_of_vehicle,
    sides_of, team_from_vehicle_name, teams_of_players, tickets_fit, try_build_ticketproof,
    vehicle_of, TicketProof, TicketProofOptions, VehicleInfo,
};
use crate::timeline::names::{
    deployable_class, extract_deployable_class, extract_vehicle_class, vehicle_class,
};
use crate::timeline::samples::{
    are_spaced, downsample_track, is_plausible, is_plausible_world_position, retain_plausible,
};
use crate::timeline::TimelinePositionSample;
use std::collections::HashMap;
use vstd::prelude::*;

verus! {

// ---------------------------------------------------------------------------
// Positions and names
// ---------------------------------------------------------------------------

/// A track is thinned to samples of it, field by field, an interval or more
/// apart.
pub proof fn law_downsample_track(
    samples: &Vec<TrackSample3>,
    interval_ms: u64,
    kept: Vec<TimelinePositionSample>,
)
    requires
        call_ensures(downsample_track, (samples, interval_ms), kept),
    ensures
        exists|at: Seq<int>| #[trigger] are_spaced(kept@, samples@, interval_ms, at),
{
}

/// A position is in the world where a coordinate is a number of a magnitude above
/// 100, and the samples that are retained are those whose position is.
pub proof fn law_retain_plausible(
    x: Float64,
    y: Float64,
    plausible: bool,
    samples: &Vec<TrackSample3>,
    kept: Vec<TrackSample3>,
)
    requires
        call_ensures(is_plausible_world_position, (x, y), plausible),
        call_ensures(retain_plausible, (samples,), kept),
    ensures
        ({
            let far = |c: Float64|
                0x4059_0000_0000_0000 < c.bits as int % 0x8000_0000_0000_0000
                    <= 0x7ff0_0000_0000_0000;
            &&& plausible <==> far(x) || far(y)
            &&& kept@ == samples@.filter(|s: TrackSample3| far(s.x) || far(s.y))
        }),
{
    let far = |c: Float64|
        0x4059_0000_0000_0000 < c.bits as int % 0x8000_0000_0000_0000 <= 0x7ff0_0000_0000_0000;
    assert((|s: TrackSample3| far(s.x) || far(s.y)) =~= (|s: TrackSample3|
        is_plausible(s.x, s.y)));
}

/// The short names are those of vehicles and of deployables.
pub proof fn law_extract_classes(name: &str, vehicle: String, deployable: String)
    requires
        call_ensures(extract_vehicle_class, (name,), vehicle),
        call_ensures(extract_deployable_class, (name,), deployable),
    ensures
        vehicle@ == vehicle_class(name@),
        deployable@ == deployable_class(name@),
{
}

// ---------------------------------------------------------------------------
// Classes
// ---------------------------------------------------------------------------

/// The questions about a class name are answered by what the class is.
pub proof fn law_class_questions(
    name: &str,
    soldier: bool,
    helicopter: bool,
    deployable: bool,
    vehicle: bool,
    zone: bool,
)
    requires
        call_ensures(is_soldier_type, (name,), soldier),
        call_ensures(is_helicopter_type, (name,), helicopter),
        call_ensures(is_deployable_primary_type, (name,), deployable),
        call_ensures(is_vehicle_type, (name,), vehicle),
        call_ensures(is_capture_zone_type, (name,), zone),
    ensures
        soldier <==> mentions(name@, "soldier"@),
        zone <==> mentions(name@, "capturezone"@),
        helicopter <==> names_helicopter(name@),
        deployable <==> deployable_primary_like(name@),
        vehicle <==> vehicle_like(name@),
        vehicle ==> !soldier && !deployable,
{
    law_classes_by_words(name@);
}

/// The flags of a class name hold the answers to the four questions.
pub proof fn law_class_flags(
    leaf: &str,
    flags: ClassifyFlags,
    soldier: bool,
    vehicle: bool,
    helicopter: bool,
    deployable: bool,
)
    requires
        call_ensures(ClassifyFlags::from_group_leaf, (leaf,), flags),
        call_ensures(ClassifyFlags::is_soldier, (flags,), soldier),
        call_ensures(ClassifyFlags::is_vehicle, (flags,), vehicle),
        call_ensures(ClassifyFlags::is_helicopter, (flags,), helicopter),
        call_ensures(ClassifyFlags::is_deployable_primary, (flags,), deployable),
    ensures
        soldier <==> mentions(leaf@, "soldier"@),
        vehicle <==> vehicle_like(leaf@),
        helicopter <==> helicopter_like(leaf@),
        deployable <==> deployable_primary_like(leaf@),
{
    law_classes_by_words(leaf@);
    law_flags_hold_the_answers(
        soldier_like(leaf@),
        vehicle_like(leaf@),
        helicopter_like(leaf@),
        deployable_primary_like(leaf@),
    );
}

/// The kinds of deployables and components, the class of a type name and the last
/// name in a path are those of what is asked about.
pub proof fn law_kinds_and_leaves<'a>(
    name: &'a str,
    hint: Option<&str>,
    deployable: &'static str,
    component: &'static str,
    owned: String,
    class: Option<String>,
    leaf: &'a str,
)
    requires
        call_ensures(classify_deployable_event_type, (name,), deployable),
        call_ensures(infer_component_type_name, (name, hint), component),
        call_ensures(infer_component_type, (name, hint), owned),
        call_ensures(normalize_type, (name,), class),
        call_ensures(infer_group_leaf, (name,), leaf),
    ensures
        deployable@ == deployable_event_type(name@),
        component@ == component_type(name@, hint),
        owned@ == component@,
        opt_text(class) == (if name@.len() == 0 {
            None
        } else {
            Some(after_last(name@, '.'))
        }),
        leaf@ == group_leaf(name@),
{
}

/// A flag is found in a path where the path names one, and it is that one.
pub proof fn law_flag_of_path(path: &str, flag: Option<(char, u8, String)>, named: bool)
    requires
        call_ensures(extract_raas_flag_from_path, (path,), flag),
        call_ensures(is_raas_flag_path, (path,), named),
    ensures
        match (flag, raas_flag(path@)) {
            (Some((lane, number, name)), Some((l, n, text))) => lane == l && number == n && name@
                == text,
            (None, None) => true,
            _ => false,
        },
        named <==> flag is Some,
{
}

/// A text has another in it, or at its start, where it has so with the ASCII
/// letters of both in lower case.
pub proof fn law_text_ignoring_case(text: &str, part: &str, within: bool, at_start: bool)
    requires
        call_ensures(contains_ignore_ascii_case, (text, part), within),
        call_ensures(starts_with_ignore_ascii_case, (text, part), at_start),
    ensures
        within <==> has_part(ascii_folded(text@), ascii_folded(part@)),
        at_start <==> begins_with(ascii_folded(text@), ascii_folded(part@)),
        at_start ==> within,
{
    if at_start {
        assert(occurs_at(ascii_folded(text@), ascii_folded(part@), 0));
    }
}

// ---------------------------------------------------------------------------
// The command line
// ---------------------------------------------------------------------------

/// What the command line says is made of the lines of what it is told.
pub proof fn law_rendered_texts<'a>(
    title: &str,
    summary: &BundleSummary<'a>,
    summarized: String,
    input: &str,
    output: &str,
    written: &WrittenOutputs,
    bundle: &Bundle,
    parsed: String,
    files: Vec<String>,
    unpacked: String,
    unknown: String,
)
    requires
        call_ensures(render_summary_text, (title, summary), summarized),
        call_ensures(render_parse_text, (input, output, written, bundle), parsed),
        call_ensures(render_written_outputs, (written,), files),
        call_ensures(render_unpack_text, (input, output), unpacked),
        call_ensures(unknown_format_text, (input,), unknown),
    ensures
        summarized@ == joined(summary_lines(title@, *summary)),
        line_views(files@) == written_lines(*written),
        parsed@ == joined(parse_lines(input@, output@, *bundle) + written_lines(*written)),
        unpacked@ == joined(
            seq!["Bundle unpacked"@, "Input: "@ + input@, "Output directory: "@ + output@],
        ),
        unknown@ == "cannot infer bundle format from `"@ + input@
            + "`; expected .sqrb or .sqrj.json"@,
{
}

/// A duration, the format of a name, the formats of a selection and lines are
/// given as they are.
pub proof fn law_small_texts<'a>(
    duration_ms: u64,
    duration: String,
    name: &'a str,
    format: Option<BundleFormat>,
    selection: &OutputSelection,
    formats: Vec<OutputFormat>,
    lines: &Vec<String>,
    text: String,
    value: Option<&'a str>,
    known: &'a str,
)
    requires
        call_ensures(format_duration, (duration_ms,), duration),
        call_ensures(bundle_format, (name,), format),
        call_ensures(OutputSelection::iter, (selection,), formats),
        call_ensures(join_lines, (lines,), text),
        call_ensures(option_text, (value,), known),
    ensures
        duration@ == clock_text(duration_ms),
        format == format_of_name(name@),
        formats@ == formats_of(*selection),
        text@ == joined(line_views(lines@)),
        value matches Some(v) ==> known@ == v@,
        value is None ==> known@ == "unknown"@,
{
}

/// A list of formats with commas is read where each of its names, without white
/// space around it and ASCII case aside, is empty or one of a format, and some is
/// one: just these formats are asked for.
pub proof fn law_format_lists(input: &str, read: Result<OutputSelection, String>)
    requires
        call_ensures(OutputSelection::parse_csv, (input,), read),
    ensures
        ({
            let names = pieces_of(input@, seq![',']).map_values(
                |piece: Seq<char>| ascii_folded(trimmed(piece)),
            );
            let fine = forall|i: int|
                0 <= i < names.len() ==> (#[trigger] names[i]).len() == 0 || names[i] == "sqrt"@
                    || names[i] == "sqrj"@ || names[i] == "sqrb"@;
            let some = names.contains("sqrt"@) || names.contains("sqrj"@) || names.contains(
                "sqrb"@,
            );
            &&& read is Ok <==> fine && some
            &&& read matches Ok(selection) ==> {
                &&& selection.sqrt == names.contains("sqrt"@)
                &&& selection.sqrj == names.contains("sqrj"@)
                &&& selection.sqrb == names.contains("sqrb"@)
            }
            &&& read matches Err(text) ==> if fine {
                text@ == "at least one format must be selected"@
            } else {
                exists|i: int|
                    {
                        &&& 0 <= i < names.len()
                        &&& !is_format_name(#[trigger] names[i])
                        &&& text@ == "unsupported format `"@ + names[i] + "`"@
                    }
            }
        }),
{
    let names = pieces_of(input@, seq![',']).map_values(
        |piece: Seq<char>| ascii_folded(trimmed(piece)),
    );
    assert(names == names_in(input@));
}

// ---------------------------------------------------------------------------
// Modes and tickets
// ---------------------------------------------------------------------------

/// The mode of a match and that in the name of a layer are as they are told.
pub proof fn law_modes(
    bundle: &Bundle,
    mode: Option<String>,
    layer: &str,
    in_layer: Option<String>,
    known: String,
    start: (i32, i32),
)
    requires
        call_ensures(game_mode, (bundle,), mode),
        call_ensures(layer_mode, (layer,), in_layer),
        call_ensures(extract_mode, (bundle,), known),
        call_ensures(mode_start_tickets, (layer,), start),
    ensures
        opt_text(mode) == mode_of(*bundle),
        opt_text(in_layer) == mode_in_layer(layer@),
        mode matches Some(m) ==> known@ == m@,
        mode is None ==> known@ == "Unknown"@,
        start == (if has_part(lowercase(layer@), "invasion"@) {
            (800i32, 200i32)
        } else {
            (250i32, 250i32)
        }),
{
}

/// A vehicle is known by its name, whatever the case: what it costs, and the team
/// that it belongs to. Its name for display is that of its class.
pub proof fn law_vehicles_by_name(
    name: &str,
    info: Option<VehicleInfo>,
    team: Option<u32>,
    clean: String,
)
    requires
        call_ensures(classify_vehicle, (name,), info),
        call_ensures(team_from_vehicle_name, (name,), team),
        call_ensures(clean_vehicle_name, (name,), clean),
    ensures
        info == Some(vehicle_of(uppercase(name@))),
        team == side_of_vehicle(uppercase(name@)),
        clean@ == display_name(name@),
{
}

/// The sides of team numbers and of players are those of the bundle.
pub proof fn law_side_lookups(
    bundle: &Bundle,
    sides: HashMap<u32, u32>,
    raw: u32,
    side: u32,
    lookup: StringMap<u32>,
)
    requires
        call_ensures(build_team_map, (&bundle.teams,), sides),
        call_ensures(normalize_team_id, (raw, &sides), side),
        call_ensures(build_player_team_lookup, (bundle,), lookup),
    ensures
        sides@ == sides_of(bundle.teams@),
        side == side_in(sides_of(bundle.teams@), raw),
        lookup@ == teams_of_players(bundle.players@, sides_of(bundle.teams@)),
{
}

/// The tickets of a match are built where they fit, and they are those of the
/// match.
pub proof fn law_tickets_are_built(
    bundle: &Bundle,
    log_match: Option<&LogMatch>,
    options: &TicketProofOptions,
    built: Option<TicketProof>,
)
    requires
        call_ensures(try_build_ticketproof, (bundle, log_match, options), built),
    ensures
        built is Some <==> tickets_fit(*bundle, *options),
        built matches Some(tickets) ==> proves_tickets(tickets, *bundle, *options),
{
}

// ---------------------------------------------------------------------------
// Logs
// ---------------------------------------------------------------------------

/// A time, a line and the IDs in one are read as what they tell.
pub proof fn law_lines_are_read(
    text: &str,
    time: Option<Timestamp>,
    patterns: &LogPatterns,
    read: Option<LogLine>,
    eos_id: Option<String>,
    steam_id: Option<String>,
)
    requires
        call_ensures(parse_timestamp, (text,), time),
        call_ensures(LogPatterns::read_line, (patterns, text), read),
        call_ensures(LogPatterns::extract_eos_id, (patterns, text), eos_id),
        call_ensures(LogPatterns::extract_steam_id, (patterns, text), steam_id),
    ensures
        time == stamp_time(text@),
        line_model(read) == line_read(text@),
        opt_text(eos_id) == eos_id_among(text@),
        opt_text(steam_id) == steam_id_among(text@),
{
}

/// The rounds of a log are those that its lines tell, the one that is on at the
/// end included as the last.
pub proof fn law_logs_are_read(lines: &Vec<String>, rounds: Option<Vec<LogMatch>>)
    requires
        call_ensures(parse_log_lines, (lines,), rounds),
    ensures
        rounds is Some <==> patterns_compile(),
        rounds matches Some(list) ==> {
            let state = after_lines(lines@.map_values(|line: String| line@));
            &&& match_models(list@).take(state.done.len() as int) == state.done
            &&& match state.current {
                Some(round) => list@.len() == state.done.len() + 1 && list@.last()@ == round,
                None => list@.len() == state.done.len(),
            }
        },
{
    if let Some(list) = rounds {
        let state = after_lines(lines@.map_values(|line: String| line@));
        let models = match_models(list@);
        assert(models == all_rounds(state));
        assert(models.len() == list@.len());
        assert(models.take(state.done.len() as int) =~= state.done);
        if state.current is Some {
            assert(models[list@.len() - 1] == list@[list@.len() - 1]@);
        }
    }
}

/// What events tell of players, their windows, and how well a round fits a
/// replay are as told.
pub proof fn law_told_states(
    events: &Vec<LogEvent>,
    states: StringMap<PlayerLogState>,
    eos_id: Seq<char>,
    state: &PlayerLogState,
    duration_ms: u64,
    windows: Vec<VisibilityWindow>,
    log_map: &str,
    replay_map: &str,
    log_ms: u64,
    count: usize,
    score: i32,
)
    requires
        call_ensures(player_log_states, (events,), states),
        call_ensures(windows_of_state, (state, duration_ms), windows),
        call_ensures(match_score, (log_map, replay_map, log_ms, duration_ms, count), score),
    ensures
        states@.contains_key(eos_id) <==> told_of(event_models(events@), eos_id) is Some,
        states@.contains_key(eos_id) ==> told_of(event_models(events@), eos_id) == Some(
            states@[eos_id]@,
        ),
        windows@ == visible_windows(state@, duration_ms),
        score == fit(log_map@, replay_map@, log_ms, duration_ms, count as nat),
{
    assert(held_of(states@, eos_id) == told_of(event_models(events@), eos_id));
}

// ---------------------------------------------------------------------------
// Files
// ---------------------------------------------------------------------------

/// A file is the bytes of its sections; its directory, each of its sections and
/// the whole of it are read as what they hold, or refused for what is wrong.
pub proof fn law_files(
    sections: &Vec<EncodedSection>,
    file: Vec<u8>,
    bytes: &[u8],
    entry: &DirectoryEntry,
    directory: Result<Vec<DirectoryEntry>, SqrbError>,
    raw: Result<Vec<u8>, SqrbError>,
    read: Result<Vec<(u16, Vec<u8>)>, SqrbError>,
)
    requires
        call_ensures(assemble_sqrb, (sections,), file),
        call_ensures(read_directory, (bytes,), directory),
        call_ensures(read_section, (bytes, entry), raw),
        call_ensures(read_sqrb, (bytes,), read),
    ensures
        file@ == file_bytes(sections@),
        directory_view(directory) == directory_of(bytes@),
        content_view(raw) == content_of(bytes@, *entry),
        sections_view(read) == read_file(bytes@),
        directory matches Err(e) ==> read matches Err(f) && e@ == f@,
{
}

/// A stored section has the number of its section, its length and checksum before
/// it is compressed, and the number of its items; what is stored is the content,
/// or what decompresses to it.
pub proof fn law_stored_sections(
    id: SectionId,
    json: bool,
    compress: bool,
    items: u32,
    settings: ZstdSettings,
    raw: &[u8],
    stored: Result<EncodedSection, SqrbError>,
)
    requires
        call_ensures(encode_section, (id, json, compress, items, settings, raw), stored),
    ensures
        !compress ==> stored is Ok,
        stored matches Ok(section) ==> {
            &&& section.id == id
            &&& section.flags == section_flags(json, compress)
            &&& section.raw_len == raw@.len()
            &&& section.crc32 == crc32_of(raw@)
            &&& section.item_count == items
            &&& !compress ==> section.stored@ == raw@
            &&& compress ==> decodes_to(section.stored@, raw@)
        },
{
    law_flags(json, compress);
}

/// A bundle that is written is read as its sections: each under its number, with
/// its own bytes, in the order of the numbers.
pub proof fn law_written_bundles(
    bundle: &Bundle,
    raws: &Vec<Vec<u8>>,
    file: Result<Vec<u8>, SqrbError>,
)
    requires
        raws@.len() == 22,
        call_ensures(write_sqrb, (bundle, raws), file),
    ensures
        file matches Ok(bytes) ==> match read_file(bytes@) {
            Ok(sections) => sections.len() == 22 && forall|i: int|
                0 <= i < 22 ==> (#[trigger] sections[i]).0 == i + 1 && sections[i].1 == raws@[i]@,
            Err(_) => false,
        },
{
    if let Ok(bytes) = file {
        let payloads = bundle_payloads(
            *bundle,
            byte_seqs(raws@),
        );
        let sections = numbered_contents(payloads);
        assert(read_file(bytes@) == Ok::<Seq<(u16, Seq<u8>)>, Fault>(sections));
        assert forall|i: int| 0 <= i < 22 implies (#[trigger] sections[i]).0 == i + 1
            && sections[i].1 == raws@[i]@ by {
            law_order_of_sections(i);
            assert(sections[i] == (
                section_number(payloads[i].id),
                payloads[i].raw,
            ));
        }
    }
}

/// The parts of a bundle are those of its sections in their order, and a section
/// has the items of its part.
pub proof fn law_bundle_parts(
    bundle: Bundle,
    parts: Vec<SectionPart>,
    whole: &Bundle,
    id: SectionId,
    items: u32,
)
    requires
        call_ensures(bundle_parts, (bundle,), parts),
        call_ensures(section_items, (whole, id), items),
    ensures
        parts@.len() == 22,
        forall|i: int|
            0 <= i < 22 ==> #[trigger] parts@[i] == part_of(
                bundle,
                section_order()[i],
            ),
        items == part_items(part_of(*whole, id)),
{
}

/// Contents that are written are read back, each under the number of its section,
/// in their order. Writing fails on none but a content that is compressed.
pub proof fn law_written_sections(
    payloads: &Vec<SectionPayload>,
    file: Result<Vec<u8>, SqrbError>,
)
    requires
        call_ensures(write_sections, (payloads,), file),
    ensures
        match file {
            Ok(bytes) => match read_file(bytes@) {
                Ok(sections) => sections.len() == payloads@.len() && forall|i: int|
                    0 <= i < payloads@.len() ==> {
                        let payload = #[trigger] payloads@[i];
                        sections[i] == (section_number(payload.id), payload.raw@)
                    },
                Err(_) => false,
            },
            Err(_) => exists|i: int|
                0 <= i < payloads@.len() && is_compressed((#[trigger] payloads@[i]).id),
        },
{
    if let Ok(bytes) = file {
        let models = payload_models(payloads@);
        let sections = numbered_contents(models);
        assert(read_file(bytes@) == Ok::<Seq<(u16, Seq<u8>)>, Fault>(sections));
        assert forall|i: int| 0 <= i < payloads@.len() implies {
            let payload = #[trigger] payloads@[i];
            sections[i] == (section_number(payload.id), payload.raw@)
        } by {
            assert(models[i] == payloads@[i]@);
        }
    }
}

/// A content is stored in the way of its section: with its items, its length and
/// its checksum, and as it is unless the section is one that is compressed.
pub proof fn law_stored_contents(
    payload: &SectionPayload,
    stored: Result<EncodedSection, SqrbError>,
)
    requires
        call_ensures(encode_payload, (payload,), stored),
    ensures
        !is_compressed(payload.id) ==> stored is Ok,
        stored matches Ok(section) ==> {
            &&& section.id == payload.id
            &&& section.flags == section_flags(is_json(payload.id), is_compressed(payload.id))
            &&& section.raw_len == payload.raw@.len()
            &&& section.crc32 == crc32_of(payload.raw@)
            &&& section.item_count == payload.item_count
            &&& !is_compressed(payload.id) ==> section.stored@ == payload.raw@
            &&& is_compressed(payload.id) ==> decodes_to(section.stored@, payload.raw@)
        },
{
    law_flags(is_json(payload.id), is_compressed(payload.id));
}

} // verus!
