use squadreplay::bundle::{
    ActorEntity, Bundle, CaptureZone, CaptureZoneEvent, DecodedPropertyValue, KillEvent, Player,
    PropertyEvent, Rotator, SeatChangeEvent, Squad, Team, Track3, TrackSample3, Vec3,
    VisibilityWindow,
};
use squadreplay::calendar::Timestamp;
use squadreplay::float_bits::{Float32, Float64};
use squadreplay::log_parser::{LogEvent, LogEventType, LogMatch};
use squadreplay::timeline::deployables::{keep_changes, Reading};
use squadreplay::timeline::names::{extract_deployable_class, extract_vehicle_class};
use squadreplay::timeline::samples::{downsample_track, is_plausible_world_position};
use squadreplay::timeline::{
    build_capture_zones, build_teams, build_timeline, normalize_team_id, Timeline, TimelineOptions,
    TimelinePositionSample,
};

fn f64_bits(v: f64) -> Float64 {
    Float64 { bits: v.to_bits() }
}

fn f32_bits(v: f32) -> Float32 {
    Float32 { bits: v.to_bits() }
}

fn differs(a: Float32, b: Float32) -> bool {
    (f32::from_bits(a.bits) as f64 - f32::from_bits(b.bits) as f64).abs() > 0.01
}

fn build(bundle: &Bundle) -> Timeline {
    build_timeline(bundle, None, &TimelineOptions::default(), &differs)
}

fn sample(t_ms: u64, x: f64) -> TrackSample3 {
    TrackSample3 { t_ms, x: f64_bits(x), y: f64_bits(0.0), z: f64_bits(1.5), yaw: None }
}

fn positions(samples: &[TimelinePositionSample]) -> Vec<(u64, f64)> {
    samples.iter().map(|s| (s.t, f64::from_bits(s.x.bits))).collect()
}

fn text(s: &str) -> Option<String> {
    Some(s.to_string())
}

#[test]
fn class_names_are_shortened() {
    assert_eq!(extract_vehicle_class("BP_BTR82A_RUS_C"), "BTR82A");
    assert_eq!(extract_vehicle_class("BP_BP_T72_C_C"), "T72");
    assert_eq!(extract_vehicle_class("BP_ZTZ99_PLANMC_C"), "ZTZ99");
    assert_eq!(extract_vehicle_class("LAV_USMC_RUS"), "LAV_USMC");
    assert_eq!(extract_vehicle_class("Quad"), "Quad");
    assert_eq!(extract_deployable_class("BP_FobRadio_RUS_C"), "FOBRadio");
    assert_eq!(extract_deployable_class("BP_Hab_Sand_C"), "HAB");
    assert_eq!(extract_deployable_class("BP_RallyPoint_C"), "RallyPoint");
    assert_eq!(extract_deployable_class("BP_Ammocrate_C"), "AmmoCrate");
    assert_eq!(extract_deployable_class("BP_Sandbag_C"), "Sandbag");
}

#[test]
fn team_numbers_start_at_one() {
    assert_eq!([0, 1, 2, 3, 8276, u32::MAX].map(normalize_team_id), [1, 2, 2, 2, 2, 2]);
    let teams = build_teams(&vec![
        Team { id: 0, faction: text("USA"), ..Team::default() },
        Team { id: 1, name: text("B"), ..Team::default() },
    ]);
    assert_eq!(teams[0].id, 1);
    assert_eq!(teams[0].faction.as_deref(), Some("USA"));
    assert_eq!(teams[1].id, 2);
    assert_eq!(teams[1].name.as_deref(), Some("B"));
}

#[test]
fn samples_are_thinned_out() {
    let track: Vec<TrackSample3> =
        [0u64, 100, 333, 500, 665, 666, 2000].iter().map(|t| sample(*t, *t as f64)).collect();
    let kept = downsample_track(&track, 333);
    assert_eq!(positions(&kept), vec![(0, 0.0), (333, 333.0), (666, 666.0), (2000, 2000.0)]);
    assert_eq!(downsample_track(&track, 0).len(), 7);
    assert!(downsample_track(&vec![], 333).is_empty());
    let late = vec![sample(u64::MAX, 1.0), sample(u64::MAX, 2.0)];
    assert_eq!(downsample_track(&late, 1).len(), 1);
    assert!(is_plausible_world_position(f64_bits(0.0), f64_bits(-100.5)));
    assert!(!is_plausible_world_position(f64_bits(100.0), f64_bits(-100.0)));
    assert!(!is_plausible_world_position(f64_bits(f64::NAN), f64_bits(0.0)));
}

#[test]
fn readings_that_do_not_differ_are_dropped() {
    let readings: Vec<Reading> = [1.0f32, 1.005, 1.02, 1.03, 5.0, 5.0]
        .iter()
        .enumerate()
        .map(|(i, v)| Reading { t: i as u64, value: f32_bits(*v) })
        .collect();
    let kept: Vec<u64> = keep_changes(&readings, &differs).iter().map(|r| r.t).collect();
    assert_eq!(kept, vec![0, 2, 4]);
}

fn zone_event(t_ms: u64, event_type: &str, value_int: Option<i64>) -> CaptureZoneEvent {
    CaptureZoneEvent {
        t_ms,
        event_type: event_type.to_string(),
        value_int,
        ..CaptureZoneEvent::default()
    }
}

#[test]
fn zones_show_their_owners() {
    let zones = build_capture_zones(&vec![
        CaptureZone {
            name: text("a"),
            display_name: text("Alma"),
            x: Some(f64_bits(3.0)),
            events: vec![
                zone_event(1, "owning_team", Some(0)),
                zone_event(2, "capture_percent", Some(1)),
                zone_event(3, "owning_team", None),
                zone_event(4, "owning_team", Some(-1)),
            ],
            ..CaptureZone::default()
        },
        CaptureZone { name: text("b"), ..CaptureZone::default() },
    ]);
    assert_eq!(zones[0].name.as_deref(), Some("Alma"));
    assert_eq!(zones[0].x, Some(f64_bits(3.0)));
    let owners: Vec<(u64, Option<u32>)> =
        zones[0].events.iter().map(|e| (e.t, e.owner)).collect();
    assert_eq!(owners, vec![(1, Some(1)), (3, None), (4, Some(2))]);
    assert_eq!(zones[1].name.as_deref(), Some("b"));
}

fn player(guid: u32, name: &str, eos: Option<&str>) -> Player {
    Player {
        player_state_guid: guid,
        name: text(name),
        eos_id: eos.map(|e| e.to_string()),
        ..Player::default()
    }
}

#[test]
fn players_squads_and_kills_are_shown() {
    let mut bundle = Bundle::default();
    bundle.replay.layer_name = text("Manicouagan_Seed_v2_CL");
    bundle.game_state.server_name = text("server");
    bundle.players = vec![
        Player {
            steam_id: text("77"),
            team_id: Some(0),
            squad_id: Some(4),
            current_role_name: text("Medic"),
            deploy_role_name: text("Rifleman"),
            visibility_windows: vec![
                VisibilityWindow { start_ms: 50, end_ms: 60 },
                VisibilityWindow { start_ms: 10, end_ms: 20 },
            ],
            ..player(1, "Alpha", Some("BB"))
        },
        Player {
            deploy_role_name: text("Rifleman"),
            visibility_windows: vec![VisibilityWindow { start_ms: 10, end_ms: 30 }],
            ..player(2, "Bravo", Some("aa"))
        },
        player(3, "Nameless", None),
        Player { name: None, ..player(4, "", None) },
    ];
    bundle.squads = vec![
        Squad { id: 1, team_id: Some(1), leader_steam_id: text("77"), ..Squad::default() },
        Squad { id: 2, raw_team_id: Some(0), leader_eos_id: text("ZZ"), ..Squad::default() },
        Squad { id: 3, leader_steam_id: text("0"), ..Squad::default() },
    ];
    bundle.events.kills = vec![KillEvent {
        t_ms: 9,
        victim_name: text("Alpha"),
        killer_name: text("Stranger"),
        was_incap: Some(true),
        ..KillEvent::default()
    }];
    let timeline = build(&bundle);
    assert_eq!(timeline.version, 1);
    assert_eq!(timeline.match_info.game_mode.as_deref(), Some("Seed"));
    assert_eq!(timeline.match_info.server_name.as_deref(), Some("server"));
    assert_eq!(timeline.players.len(), 3);
    let alpha = timeline.players.get("bb").unwrap();
    assert_eq!(alpha.team_id, Some(1));
    assert_eq!(alpha.squad_id, Some(4));
    assert_eq!(alpha.visibility_windows, vec![[50, 60], [10, 20]]);
    assert!(timeline.players.get("nameless").is_some());
    assert_eq!(timeline.squads[0].leader_eos.as_deref(), Some("BB"));
    assert_eq!(timeline.squads[0].team_id, 2);
    assert_eq!(timeline.squads[1].leader_eos.as_deref(), Some("ZZ"));
    assert_eq!(timeline.squads[1].team_id, 1);
    assert_eq!(timeline.squads[2].leader_eos, None);
    assert_eq!(timeline.squads[2].team_id, 2);
    let kill = &timeline.events.kills[0];
    assert_eq!(kill.victim.as_deref(), Some("bb"));
    assert_eq!(kill.killer.as_deref(), Some("Stranger"));
    assert_eq!(kill.weapon, None);
    assert_eq!(kill.is_incap, Some(true));
    let spawns: Vec<(u64, &str, Option<&str>)> = timeline
        .events
        .spawns
        .iter()
        .map(|s| (s.t, s.player.as_str(), s.kit.as_deref()))
        .collect();
    assert_eq!(
        spawns,
        vec![
            (10, "bb", Some("Medic")),
            (10, "aa", Some("Rifleman")),
            (50, "bb", Some("Medic")),
        ]
    );
}

#[test]
fn player_tracks_have_keys() {
    let mut bundle = Bundle::default();
    bundle.players = vec![player(1, "Alpha", Some("AA")), player(2, "Bravo", Some("BB"))];
    let track = |key: &str, guid: Option<u32>, samples: Vec<TrackSample3>| Track3 {
        key: key.to_string(),
        player_state_guid: guid,
        samples,
        ..Track3::default()
    };
    bundle.tracks.players = vec![
        track("x", Some(1), vec![sample(0, 1.0)]),
        track("BRAVO", Some(9), vec![sample(0, 2.0)]),
        track("Charlie", None, vec![sample(0, 3.0)]),
        track("Charlie", None, vec![]),
        track("Empty", None, vec![]),
    ];
    let timeline = build(&bundle);
    let found: Vec<(String, f64)> = (0..timeline.tracks.players.len())
        .map(|i| {
            let list = timeline.tracks.players.value_at(i);
            (timeline.tracks.players.key_at(i).clone(), f64::from_bits(list[0].x.bits))
        })
        .collect();
    assert_eq!(
        found,
        vec![("aa".to_string(), 1.0), ("bb".to_string(), 2.0), ("charlie".to_string(), 3.0)]
    );
}

fn actor(guid: u32, class: &str) -> ActorEntity {
    ActorEntity { actor_guid: guid, class_name: text(class), ..ActorEntity::default() }
}

fn at(x: f64) -> Option<Vec3> {
    Some(Vec3 { x: f64_bits(x), y: f64_bits(0.0), z: f64_bits(9.0) })
}

fn property(t_ms: u64, guid: u32, name: &str, decoded: DecodedPropertyValue) -> PropertyEvent {
    PropertyEvent {
        t_ms,
        actor_guid: Some(guid),
        property_name: name.into(),
        decoded,
        ..PropertyEvent::default()
    }
}

fn packed(n: u32) -> DecodedPropertyValue {
    DecodedPropertyValue { int_packed: Some(n), ..DecodedPropertyValue::default() }
}

fn signed(n: i32) -> DecodedPropertyValue {
    DecodedPropertyValue { int32: Some(n), ..DecodedPropertyValue::default() }
}

fn float(v: f32) -> DecodedPropertyValue {
    DecodedPropertyValue { float32: Some(f32_bits(v)), ..DecodedPropertyValue::default() }
}

fn vehicle_track(guid: u32, class: &str, samples: Vec<TrackSample3>) -> Track3 {
    Track3 { actor_guid: Some(guid), class_name: text(class), samples, ..Track3::default() }
}

#[test]
fn vehicles_with_actors_are_shown() {
    let mut bundle = Bundle::default();
    bundle.players = vec![player(7, "Alpha", Some("EOS7"))];
    bundle.actors.vehicles = vec![
        ActorEntity { team: Some(0), ..actor(10, "BP_BTR82A_RUS_C") },
        actor(11, "BP_Truck_Logi_USA_C"),
        ActorEntity {
            initial_location: at(500.0),
            initial_rotation: Some(Rotator { yaw: f64_bits(90.0), ..Rotator::default() }),
            open_time_ms: 42,
            ..actor(12, "BP_UH60_C")
        },
        ActorEntity { initial_location: at(5.0), class_name: None, ..actor(13, "") },
    ];
    bundle.actors.helicopters = vec![actor(20, "BP_Something_C")];
    bundle.tracks.vehicles = vec![
        vehicle_track(10, "x", vec![sample(0, 1.0), sample(400, 200.0), sample(500, 300.0)]),
        vehicle_track(10, "x", vec![sample(0, 900.0)]),
        vehicle_track(11, "x", vec![sample(20_000, 700.0)]),
    ];
    bundle.tracks.helicopters = vec![vehicle_track(20, "x", vec![sample(5, 800.0)])];
    bundle.events.seat_changes = vec![
        SeatChangeEvent {
            t_ms: 3,
            actor_guid: Some(10),
            player_state_guid: Some(7),
            seat_attach_socket: text("driver"),
            attach_socket_name: text("other"),
            value: text("Alpha"),
            ..SeatChangeEvent::default()
        },
        SeatChangeEvent {
            t_ms: 4,
            actor_guid: Some(10),
            attach_socket_name: text("gunner"),
            value: text("None"),
            ..SeatChangeEvent::default()
        },
        SeatChangeEvent { t_ms: 5, actor_guid: Some(10), value: text(""), ..SeatChangeEvent::default() },
        SeatChangeEvent { t_ms: 6, actor_guid: Some(99), ..SeatChangeEvent::default() },
    ];
    let timeline = build(&bundle);
    let vehicles = &timeline.tracks.vehicles;
    assert_eq!(vehicles.len(), 5);
    let btr = vehicles.get("10").unwrap();
    assert_eq!((btr.class.as_str(), btr.kind.as_str(), btr.team_id), ("BTR82A", "ground", Some(1)));
    assert_eq!(positions(&btr.samples), vec![(400, 200.0)]);
    let seats: Vec<(u64, &str, Option<&str>, bool)> = btr
        .seat_events
        .iter()
        .map(|e| (e.t, e.seat.as_str(), e.player_eos.as_deref(), e.entering))
        .collect();
    assert_eq!(
        seats,
        vec![
            (3, "driver", Some("eos7"), true),
            (4, "gunner", None, false),
            (5, "unknown", None, false),
        ]
    );
    let logi = vehicles.get("11").unwrap();
    assert_eq!(logi.class, "Truck_Logi");
    assert_eq!(positions(&logi.samples), vec![(0, 700.0), (20_000, 700.0)]);
    let helicopter = vehicles.get("12").unwrap();
    assert_eq!(helicopter.kind, "helicopter");
    assert_eq!(positions(&helicopter.samples), vec![(42, 500.0)]);
    assert_eq!(helicopter.samples[0].yaw, Some(f64_bits(90.0)));
    let unset = vehicles.get("13").unwrap();
    assert_eq!(unset.class, "Unknown");
    assert!(unset.samples.is_empty());
    assert_eq!(vehicles.get("20").unwrap().kind, "helicopter");
}

#[test]
fn positions_are_inferred_from_players() {
    let mut bundle = Bundle::default();
    bundle.players = vec![player(7, "Alpha", Some("EOS7")), player(8, "Bravo", None)];
    bundle.tracks.players = vec![
        Track3 {
            key: "whatever".to_string(),
            player_state_guid: Some(7),
            samples: vec![sample(0, 200.0), sample(1000, 300.0), sample(5000, 400.0)],
            ..Track3::default()
        },
        Track3 {
            key: "BRAVO".to_string(),
            samples: vec![sample(1000, 1.0), sample(6000, 600.0)],
            ..Track3::default()
        },
    ];
    bundle.teams = vec![
        Team { id: 1, faction: text("USA"), ..Team::default() },
        Team { id: 2, faction: text("RGF"), ..Team::default() },
        Team { id: 8276, faction: text("usa"), ..Team::default() },
    ];
    bundle.actors.vehicles = vec![actor(30, "BP_BMP2_C")];
    bundle.events.properties = vec![
        property(0, 40, "AttachSocket", packed(30)),
        property(1, 41, "AttachSocket", packed(30)),
        property(2, 40, "AttachSocket", packed(40)),
        property(4000, 40, "PlayerState", packed(8)),
        property(500, 40, "PlayerState", signed(7)),
        property(7000, 40, "PlayerState", packed(0)),
        property(0, 40, "Team", signed(5)),
        property(1, 40, "Team", packed(8276)),
    ];
    let timeline = build(&bundle);
    let vehicle = timeline.tracks.vehicles.get("30").unwrap();
    assert_eq!(positions(&vehicle.samples), vec![(1000, 300.0), (6000, 600.0)]);
    assert_eq!(vehicle.team_id, Some(2));
}

#[test]
fn hulls_and_tracks_without_actors_are_shown() {
    let mut bundle = Bundle::default();
    bundle.actors.vehicles = vec![
        ActorEntity { owner: Some(500), ..actor(50, "BP_BTR4_Turret_C") },
        ActorEntity {
            owner: Some(500),
            open_time_ms: 3000,
            initial_location: at(900.0),
            ..actor(51, "BP_BTR4_Gun_C")
        },
        ActorEntity { owner: Some(50), ..actor(52, "BP_BTR4_Other_C") },
        ActorEntity { owner: Some(600), ..actor(53, "BP_BTR4_Nowhere_C") },
        ActorEntity { owner: Some(700), ..actor(54, "BP_BMP_Turret_C") },
    ];
    bundle.tracks.vehicles = vec![
        vehicle_track(50, "x", vec![sample(2000, 200.0), sample(1000, 100.5), sample(1500, 0.0)]),
        vehicle_track(80, "BP_Ural_RUS_C", vec![sample(0, 1.0), sample(9, 150.0)]),
        vehicle_track(80, "BP_Other_C", vec![sample(0, 999.0)]),
        vehicle_track(81, "BP_Gone_C", vec![sample(0, 1.0)]),
        Track3 { samples: vec![sample(0, 400.0)], ..Track3::default() },
    ];
    bundle.events.properties = vec![property(0, 500, "Team", packed(1))];
    let timeline = build(&bundle);
    let vehicles = &timeline.tracks.vehicles;
    let keys: Vec<String> = (0..vehicles.len()).map(|i| vehicles.key_at(i).clone()).collect();
    assert_eq!(keys, vec!["50", "500", "51", "52", "53", "54", "80"]);
    let hull = vehicles.get("500").unwrap();
    assert_eq!((hull.class.as_str(), hull.kind.as_str(), hull.team_id), ("BTR4", "ground", Some(2)));
    assert_eq!(positions(&hull.samples), vec![(1000, 100.5), (2000, 200.0), (3000, 900.0)]);
    let ural = vehicles.get("80").unwrap();
    assert_eq!(ural.class, "Ural");
    assert_eq!(positions(&ural.samples), vec![(9, 150.0)]);
    assert_eq!(ural.team_id, None);
}

#[test]
fn deployables_show_their_changes() {
    let mut bundle = Bundle::default();
    bundle.actors.deployables = vec![
        ActorEntity {
            team: Some(1),
            open_time_ms: 7,
            close_time_ms: Some(70),
            health: Some(f64_bits(12.5)),
            initial_location: at(250.0),
            ..actor(60, "BP_FOBRadio_C")
        },
        ActorEntity { class_name: None, ..actor(60, "") },
    ];
    bundle.events.properties = vec![
        property(30, 60, "Health", float(50.0)),
        property(10, 60, "Health", float(100.0)),
        property(20, 60, "Health", float(100.005)),
        property(5, 61, "Health", float(1.0)),
        property(9, 60, "Ammo", float(2.0)),
        property(9, 60, "Ammo", packed(3)),
        property(8, 60, "ConstructionPoints", float(3.0)),
    ];
    let timeline = build(&bundle);
    let radio = &timeline.deployables[0];
    assert_eq!(radio.class, "FOBRadio");
    assert_eq!(radio.team_id, Some(2));
    assert_eq!((radio.placed_at, radio.destroyed_at), (7, Some(70)));
    assert_eq!(radio.x, f64_bits(250.0));
    assert_eq!(radio.health, Some(f64_bits(12.5)));
    let health: Vec<(u64, f32)> =
        radio.health_events.iter().map(|e| (e.t, f32::from_bits(e.health.bits))).collect();
    assert_eq!(health, vec![(10, 100.0), (30, 50.0)]);
    assert_eq!(radio.ammo_events.len(), 1);
    assert_eq!(radio.ammo_events[0].ammo, f32_bits(2.0));
    assert_eq!(radio.construction_events[0].points, f32_bits(3.0));
    let twin = &timeline.deployables[1];
    assert_eq!(twin.class, "Unknown");
    assert!(twin.health_events.is_empty());
    assert_eq!(twin.x, f64_bits(0.0));
}

#[test]
fn default_options_give_three_samples_in_a_second() {
    assert_eq!(TimelineOptions::default().sample_interval_ms, 333);
}

#[test]
fn the_log_is_of_no_account() {
    let mut bundle = Bundle::default();
    bundle.teams = vec![Team { id: 8276, ..Team::default() }];
    bundle.players = vec![player(1, "Alpha", Some("ab")), player(2, "Bravo", None)];
    bundle.actors.deployables = vec![actor(60, "BP_FOBRadio_C")];
    bundle.events.properties = vec![property(10, 60, "Health", float(100.0))];
    let start_time =
        Timestamp { year: 2026, month: 5, day: 24, hour: 11, minute: 0, second: 0, milli: 0 };
    let round = LogMatch {
        map: "Alma".to_string(),
        layer: String::new(),
        start_time,
        end_time: None,
        events: vec![LogEvent { t_ms: 5, event_type: LogEventType::RoundEnd }],
    };
    let options = TimelineOptions::default();
    let with = build_timeline(&bundle, Some(&round), &options, &differs);
    let without = build_timeline(&bundle, None, &options, &differs);
    assert_eq!(format!("{with:?}"), format!("{without:?}"));
    assert_eq!(with.version, 1);
    assert_eq!(with.teams[0].id, 2);
}
