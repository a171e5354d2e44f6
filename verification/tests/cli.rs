use squadreplay::bundle::{
    ActorEntity, ActorGroups, Bundle, ComponentEntity, ComponentStateEvent, DeploymentEvent,
    Diagnostics, EventGroups, KillEvent, ReplayInfoSection, SeatChangeEvent, Track3, TrackGroups,
    VehicleStateEvent, WeaponStateEvent,
};
use squadreplay::cli::{
    bundle_format, format_duration, join_lines, option_text, render_parse_text, render_summary_text,
    render_unpack_text, render_written_outputs, summarize, unknown_format_text, BundleFormat,
    OutputFormat, OutputSelection, WrittenOutputs,
};

fn sample_bundle() -> Bundle {
    Bundle {
        replay: ReplayInfoSection {
            map_name: Some("Jensen's Range".to_string()),
            squad_version: Some("8.1.0".to_string()),
            duration_ms: 2_146_000,
            ..ReplayInfoSection::default()
        },
        teams: vec![Default::default(), Default::default()],
        squads: vec![Default::default(); 6],
        players: vec![Default::default(); 72],
        actors: ActorGroups {
            vehicles: vec![ActorEntity::default(); 12],
            helicopters: vec![ActorEntity::default(); 2],
            deployables: vec![ActorEntity::default(); 18],
            components: vec![ComponentEntity::default(); 44],
        },
        tracks: TrackGroups {
            players: vec![Track3::default(); 40],
            vehicles: vec![Track3::default(); 11],
            helicopters: vec![Track3::default(); 2],
        },
        events: EventGroups {
            kills: vec![KillEvent::default(); 15],
            deployments: vec![DeploymentEvent::default(); 9],
            seat_changes: vec![SeatChangeEvent::default(); 6],
            component_states: vec![ComponentStateEvent::default(); 5],
            vehicle_states: vec![VehicleStateEvent::default(); 7],
            weapon_states: vec![WeaponStateEvent::default(); 4],
            vehicle_deaths: vec![],
            capture_zones: vec![],
            properties: vec![Default::default(); 125],
        },
        diagnostics: Diagnostics {
            frames_processed: 3_220,
            packets_processed: 8_441,
            actor_opens: 381,
            ..Diagnostics::default()
        },
        ..Bundle::default()
    }
}

#[test]
fn summary_rendering_stays_readable() {
    let bundle = sample_bundle();
    let summary = summarize("match.replay", &bundle);
    let rendered = render_summary_text("Replay summary", &summary);

    assert!(rendered.contains("Replay summary"));
    assert!(rendered.contains("Input: match.replay"));
    assert!(rendered.contains("Map: Jensen's Range"));
    assert!(rendered.contains("Duration: 35:46"));
    assert!(rendered.contains("Entities: 2 teams, 6 squads, 72 players"));
    assert!(
        rendered.contains("Events: 15 kills, 9 deployments, 6 seat changes, 125 property events")
    );
}

#[test]
fn summary_has_ten_lines() {
    let bundle = sample_bundle();
    let summary = summarize("match.replay", &bundle);
    let expected = [
        "Replay summary",
        "Input: match.replay",
        "Map: Jensen's Range",
        "Squad version: 8.1.0",
        "Duration: 35:46",
        "Entities: 2 teams, 6 squads, 72 players",
        "Actors: 12 vehicles, 2 helicopters, 18 deployables, 44 components",
        "Tracks: 40 player, 11 vehicle, 2 helicopter",
        "Events: 15 kills, 9 deployments, 6 seat changes, 125 property events",
        "Diagnostics: 3220 frames, 8441 packets, 381 actor opens",
    ]
    .join("\n");
    assert_eq!(render_summary_text("Replay summary", &summary), expected);
}

#[test]
fn durations_are_shown_as_a_clock_shows_them() {
    assert_eq!(format_duration(0), "0:00");
    assert_eq!(format_duration(999), "0:00");
    assert_eq!(format_duration(61_000), "1:01");
    assert_eq!(format_duration(3_599_999), "59:59");
    assert_eq!(format_duration(3_600_000), "1:00:00");
    assert_eq!(format_duration(36_061_000), "10:01:01");
    assert_eq!(format_duration(u64::MAX), "5124095576030:25:51");
}

#[test]
fn format_lists_are_read() {
    let all = OutputSelection::parse_csv(" SQRB, sqrt ,,sqrj,sqrt").unwrap();
    assert_eq!(all, OutputSelection { sqrt: true, sqrj: true, sqrb: true });
    assert_eq!(all.iter(), vec![OutputFormat::Sqrt, OutputFormat::Sqrj, OutputFormat::Sqrb]);
    let one = OutputSelection::parse_csv("sqrb").unwrap();
    assert_eq!(one.iter(), vec![OutputFormat::Sqrb]);
    assert_eq!(
        OutputSelection::parse_csv("sqrt, Foo ,bar"),
        Err("unsupported format `foo`".to_string())
    );
    assert_eq!(
        OutputSelection::parse_csv(" , "),
        Err("at least one format must be selected".to_string())
    );
}

#[test]
fn names_of_files_tell_their_format() {
    assert_eq!(bundle_format("match.sqrb"), Some(BundleFormat::Sqrb));
    assert_eq!(bundle_format("MATCH.SQRB"), Some(BundleFormat::Sqrb));
    assert_eq!(bundle_format("match.sqrj"), Some(BundleFormat::Sqrj));
    assert_eq!(bundle_format("match.sqrj.json"), Some(BundleFormat::Sqrj));
    assert_eq!(bundle_format("match.JSON"), Some(BundleFormat::Sqrj));
    assert_eq!(bundle_format("match.replay"), None);
    assert_eq!(bundle_format(""), None);
    assert_eq!(
        unknown_format_text("a.txt"),
        "cannot infer bundle format from `a.txt`; expected .sqrb or .sqrj.json"
    );
}

#[test]
fn converted_replays_are_reported() {
    let bundle = sample_bundle();
    let written = WrittenOutputs {
        sqrt: Some("out/match.sqrt.json".to_string()),
        sqrj: None,
        sqrb: Some("out/match.sqrb".to_string()),
        compat_json: None,
    };
    assert_eq!(
        render_written_outputs(&written),
        vec!["  - out/match.sqrt.json".to_string(), "  - out/match.sqrb".to_string()]
    );
    let expected = [
        "Replay converted",
        "Input: match.replay",
        "Output base: out/match",
        "Map: Jensen's Range",
        "Squad version: 8.1.0",
        "Duration: 35:46",
        "Entities: 2 teams, 6 squads, 72 players",
        "Events: 15 kills, 9 deployments, 6 seat changes, 125 property events",
        "Wrote:",
        "  - out/match.sqrt.json",
        "  - out/match.sqrb",
    ]
    .join("\n");
    assert_eq!(render_parse_text("match.replay", "out/match", &written, &bundle), expected);
    assert_eq!(
        render_unpack_text("a.sqrb", "out"),
        "Bundle unpacked\nInput: a.sqrb\nOutput directory: out"
    );
}

#[test]
fn missing_texts_are_unknown() {
    assert_eq!(option_text(None), "unknown");
    assert_eq!(option_text(Some("x")), "x");
    assert_eq!(join_lines(&vec![]), "");
    assert_eq!(join_lines(&vec!["a".to_string()]), "a");
}
