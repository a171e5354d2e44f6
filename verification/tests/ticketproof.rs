use squadreplay::bundle::{
    ActorEntity, Bundle, CaptureZone, CaptureZoneEvent, KillEvent, Player, Team, VehicleDeathEvent,
};
use squadreplay::float_bits::Float64;
use squadreplay::ticketproof::{
    build_points, build_team_map, build_ticketproof, classify_vehicle, clean_vehicle_name,
    extract_mode, mode_start_tickets, normalize_team_id, team_from_vehicle_name,
    ticketproof_fits, try_build_ticketproof, vehicle_info, vehicle_side, TicketEvent,
    TicketProofOptions,
};

#[test]
fn vehicles_are_classified() {
    let cases = [
        ("BP_T72B3_C", 15, "mbt", "Main Battle Tank"),
        ("bp_leopard2a6", 15, "mbt", "Main Battle Tank"),
        ("BP_BTR4_AFU", 10, "ifv", "Infantry Fighting Vehicle"),
        ("BP_BTR82A_RUS", 8, "apc", "Armored Personnel Carrier"),
        ("BP_Mi8", 10, "transport_helo", "Transport Helicopter"),
        ("BP_AH64", 15, "attack_helo", "Attack Helicopter"),
        ("BP_Truck_Logi", 5, "logi", "Logistics Truck"),
        ("BP_Ural_375", 3, "truck", "Transport Truck"),
        ("BP_Technical_DShK", 3, "technical", "Technical"),
        ("BP_Tigr_RWS", 5, "mrap", "Light Armored Vehicle"),
        ("BP_Quad", 3, "unknown", "Vehicle"),
    ];
    for (name, tickets, category, label) in cases {
        let info = classify_vehicle(name).unwrap();
        assert_eq!((info.tickets, info.category, info.label), (tickets, category, label), "{name}");
    }
    assert_eq!(vehicle_info("t72").category, "unknown");
    assert_eq!(vehicle_info("T72").category, "mbt");
}

#[test]
fn vehicles_tell_their_team() {
    assert_eq!(team_from_vehicle_name("BP_M1A2_usmc_C"), Some(1));
    assert_eq!(team_from_vehicle_name("BP_T72_RUS_C"), Some(2));
    assert_eq!(team_from_vehicle_name("BP_Quad"), None);
    assert_eq!(vehicle_side("usa"), None);
    assert_eq!(vehicle_side("USA_RUS"), Some(1));
}

#[test]
fn vehicle_names_are_cleaned() {
    assert_eq!(clean_vehicle_name("BP_BP_T72B3_RUS_C_2147"), "T72B3 RUS");
    assert_eq!(clean_vehicle_name("T72_C"), "T72 C");
    assert_eq!(clean_vehicle_name("_C_x"), "");
    assert_eq!(clean_vehicle_name(""), "");
}

#[test]
fn modes_set_the_starting_tickets() {
    assert_eq!(mode_start_tickets("Invasion"), (800, 200));
    assert_eq!(mode_start_tickets("RAAS"), (250, 250));
    let mut bundle = Bundle::default();
    assert_eq!(extract_mode(&bundle), "Unknown");
    bundle.replay.layer_name = Some("Narva".to_string());
    assert_eq!(extract_mode(&bundle), "Unknown");
    bundle.replay.layer_name = Some("Narva_Invasion_v1".to_string());
    assert_eq!(extract_mode(&bundle), "Invasion");
    bundle.game_state.game_mode = Some("AAS".to_string());
    assert_eq!(extract_mode(&bundle), "AAS");
}

fn team(id: u32, faction: Option<&str>) -> Team {
    Team { id, faction: faction.map(|f| f.to_string()), ..Team::default() }
}

#[test]
fn team_numbers_have_sides() {
    let teams = vec![
        team(1, Some("USA")),
        team(2, Some("RGF")),
        team(8276, Some("RGF")),
        team(8277, Some("USA")),
        team(8278, Some("INS")),
        team(0, Some("RGF")),
        team(8276, Some("USA")),
    ];
    let map = build_team_map(&teams);
    let sides: Vec<u32> = [0, 1, 2, 3, 8276, 8277, 8278]
        .iter()
        .map(|id| normalize_team_id(*id, &map))
        .collect();
    assert_eq!(sides, vec![1, 2, 2, 3, 1, 1, 8278]);
    let few = build_team_map(&vec![team(7, None)]);
    assert_eq!(few.len(), 3);
}

fn player(name: &str, team_id: u32) -> Player {
    Player { name: Some(name.to_string()), team_id: Some(team_id), ..Player::default() }
}

fn zone(name: Option<&str>, owners: &[(u64, &str, Option<i64>)]) -> CaptureZone {
    CaptureZone {
        name: name.map(|n| n.to_string()),
        events: owners
            .iter()
            .map(|(t_ms, event_type, value_int)| CaptureZoneEvent {
                t_ms: *t_ms,
                event_type: event_type.to_string(),
                value_int: *value_int,
                ..CaptureZoneEvent::default()
            })
            .collect(),
        ..CaptureZone::default()
    }
}

fn radio(team: Option<i64>, health: Option<f64>, close_time_ms: Option<u64>) -> ActorEntity {
    ActorEntity {
        class_name: Some("BP_FOBRadio_RUS_C".to_string()),
        team,
        health: health.map(|h| Float64 { bits: h.to_bits() }),
        close_time_ms,
        ..ActorEntity::default()
    }
}

fn sample() -> Bundle {
    let mut bundle = Bundle::default();
    bundle.replay.map_name = Some("Narva".to_string());
    bundle.replay.layer_name = Some("Narva_RAAS_v1".to_string());
    bundle.replay.duration_ms = 90_000;
    bundle.teams = vec![team(0, Some("USA")), team(1, Some("RGF"))];
    bundle.players = vec![player("Alpha", 0), player("BRAVO", 1), player("ghost", 7)];
    let kill = |t_ms: u64, victim: Option<&str>| KillEvent {
        t_ms,
        victim_name: victim.map(|v| v.to_string()),
        ..KillEvent::default()
    };
    bundle.events.kills = vec![
        kill(5000, Some("alpha")),
        kill(3000, Some("Bravo")),
        kill(1, Some("ghost")),
        kill(2, None),
        kill(4000, Some("ALPHA")),
    ];
    let death = |t_ms: u64, class: &str| VehicleDeathEvent {
        t_ms,
        vehicle_class: class.to_string(),
        ..VehicleDeathEvent::default()
    };
    bundle.events.vehicle_deaths = vec![
        death(2000, "BP_T72B3_RUS_C_12"),
        death(2000, "BP_Quad"),
        death(1500, "BP_T90_RUS_C_13"),
        death(8000, "BP_MATV_USA_C_1"),
    ];
    bundle.events.capture_zones = vec![
        zone(Some("00-Team1Main"), &[(1, "owning_team", Some(1))]),
        zone(
            Some("B1-Village"),
            &[
                (10, "owning_team", Some(9)),
                (6000, "owning_team", Some(0)),
                (6500, "capture_percent", Some(1)),
                (7000, "owning_team", Some(0)),
                (7500, "owning_team", Some(1)),
                (9500, "owning_team", None),
            ],
        ),
        zone(None, &[(9000, "owning_team", Some(-4_294_967_295))]),
    ];
    bundle.actors.deployables = vec![
        radio(Some(0), Some(24.0), Some(20_000)),
        radio(Some(1), Some(24.5), Some(20_000)),
        radio(Some(1), Some(-1.0), None),
        radio(Some(2), None, Some(30_000)),
        radio(Some(9), Some(1.0), Some(20_000)),
        radio(None, Some(1.0), Some(20_000)),
        ActorEntity { class_name: None, team: Some(0), ..ActorEntity::default() },
    ];
    bundle
}

#[test]
fn tickets_of_a_match_add_up() {
    let bundle = sample();
    let options = TicketProofOptions::default();
    assert!(ticketproof_fits(&bundle, &options));
    let p = build_ticketproof(&bundle, None, &options);
    assert_eq!(p.version, 1);
    assert_eq!(p.meta.map.as_deref(), Some("Narva"));
    assert_eq!(p.meta.layer.as_deref(), Some("Narva_RAAS_v1"));
    assert_eq!(p.meta.mode.as_deref(), Some("RAAS"));
    assert_eq!((p.meta.start_tickets.team1, p.meta.start_tickets.team2), (250, 250));
    assert_eq!(p.teams.iter().map(|t| t.id).collect::<Vec<_>>(), vec![1, 2]);
    let events: Vec<(u64, &str, u32, i32)> =
        p.events.iter().map(|e| (e.t_ms, e.kind.as_str(), e.team, e.delta)).collect();
    assert_eq!(
        events,
        vec![
            (1500, "vehicle_death", 2, -15),
            (2000, "vehicle_death", 2, -15),
            (3000, "infantry_death", 2, -1),
            (4000, "infantry_death", 1, -1),
            (5000, "infantry_death", 1, -1),
            (6000, "capture_first", 1, 20),
            (7500, "capture_enemy", 2, 50),
            (8000, "vehicle_death", 1, -5),
            (9000, "capture_first", 2, 20),
            (9500, "capture_enemy", 1, 50),
            (20_000, "radio_bleed", 1, -20),
        ]
    );
    assert_eq!(p.events[0].detail.as_deref(), Some("T90 RUS"));
    assert_eq!(p.events[0].category.as_deref(), Some("mbt"));
    assert_eq!(p.events[5].detail.as_deref(), Some("B1-Village"));
    assert_eq!(p.events[5].icon.as_deref(), Some("flag.svg"));
    assert_eq!(p.events[8].detail.as_deref(), Some("Unknown"));
    assert_eq!(p.events[10].icon.as_deref(), Some("deployable_fob.svg"));
    assert_eq!(p.statistics.team1.infantry_deaths, 2);
    assert_eq!(p.statistics.team2.infantry_deaths, 1);
    assert_eq!(p.statistics.team2.vehicle_deaths.get("mbt"), Some(&2));
    assert_eq!(p.statistics.team1.vehicle_deaths.get("mrap"), Some(&1));
    assert_eq!(p.statistics.team1.vehicle_deaths.len(), 1);
    assert_eq!((p.statistics.team1.captures, p.statistics.team2.captures), (2, 2));
    assert_eq!((p.statistics.team1.radios_placed, p.statistics.team2.radios_placed), (1, 3));
    assert_eq!((p.statistics.team1.radios_bled, p.statistics.team2.radios_bled), (1, 0));
    assert_eq!((p.final_tickets.team1, p.final_tickets.team2), (293, 289));
    assert_eq!(p.timeline.len(), 13);
    assert_eq!((p.timeline[0].t_ms, p.timeline[0].team1, p.timeline[0].team2), (0, 250, 250));
    assert_eq!((p.timeline[3].t_ms, p.timeline[3].team1, p.timeline[3].team2), (3000, 250, 219));
    assert_eq!((p.timeline[12].t_ms, p.timeline[12].team1, p.timeline[12].team2), (90_000, 293, 289));
}

#[test]
fn empty_matches_have_one_point() {
    let bundle = Bundle::default();
    let p = try_build_ticketproof(&bundle, None, &TicketProofOptions::default()).unwrap();
    assert_eq!(p.meta.mode.as_deref(), Some("Unknown"));
    assert_eq!(p.timeline.len(), 1);
    assert!(p.events.is_empty());
}

#[test]
fn tickets_that_do_not_fit_are_refused() {
    let bundle = sample();
    let options = TicketProofOptions { start_team1: Some(i32::MAX), start_team2: Some(i32::MIN) };
    assert!(!ticketproof_fits(&bundle, &options));
    assert!(try_build_ticketproof(&bundle, None, &options).is_none());
    let high = TicketProofOptions { start_team1: Some(i32::MAX - 67), start_team2: None };
    assert!(try_build_ticketproof(&bundle, None, &high).is_some());
}

#[test]
fn points_follow_the_events() {
    let event = |t_ms: u64, team: u32, delta: i32| TicketEvent {
        t_ms,
        kind: String::new(),
        team,
        delta,
        detail: None,
        category: None,
        icon: None,
    };
    let (points, last) =
        build_points((10, 20), &vec![event(5, 1, -3), event(6, 2, 4)], 0).unwrap();
    let found: Vec<(u64, i32, i32)> =
        points.iter().map(|p| (p.t_ms, p.team1, p.team2)).collect();
    assert_eq!(found, vec![(0, 10, 20), (5, 7, 20), (6, 7, 24)]);
    assert_eq!((last.team1, last.team2), (7, 24));
    assert!(build_points((i32::MAX, 0), &vec![event(1, 1, 1)], 0).is_none());
    assert!(build_points((0, i32::MIN), &vec![event(1, 2, -1)], 0).is_none());
}
