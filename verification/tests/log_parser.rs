use squadreplay::bundle::{Bundle, Player, VehicleDeathEvent, VisibilityWindow};
use squadreplay::calendar::Timestamp;
use squadreplay::log_parser::{
    can_compare, find_matching_log, match_score, merge_log, merge_log_into_players,
    merge_vehicle_deaths, parse_log_lines, parse_timestamp, player_log_states, windows_of_state,
    LogEvent, LogEventType, LogLine, LogMatch, LogParser, LogPatterns, SpawnEventType,
};

const EOS: &str = "0002a1b2c3d4e5f60718293a4b5c6d7e";

fn time(hour: u32, minute: u32, second: u32, milli: u32) -> Timestamp {
    Timestamp { year: 2026, month: 5, day: 24, hour, minute, second, milli }
}

fn lines(texts: &[&str]) -> Vec<String> {
    texts.iter().map(|t| t.to_string()).collect()
}

fn sample_log() -> Vec<String> {
    lines(&[
        "[2026.05.24-11.00.00:000][  0]LogWorld: Bringing World /Game/Maps/TransitionMap/Entry up for play",
        "[2026.05.24-11.46.32:407][100]LogWorld: Bringing World /Game/Maps/Manicouagan/Gameplay_Layers/Manicouagan_RAAS_v1 up for play",
        "[2026.05.24-11.46.33:407][101]LogSquad: PostLogin: NewPlayer: BP_PlayerController_C /Game/Maps/X:PersistentLevel.BP_PlayerController_C_21 (IP: 1.2.3.4 | Online IDs: EOS: 0002a1b2c3d4e5f60718293a4b5c6d7e steam: 76561198000000001)",
        "[2026.05.24-11.46.40:407][102]LogSquadTrace: [DedicatedServer]ASQPlayerController::OnPossess(): PC=Alpha (Online IDs: EOS: 0002a1b2c3d4e5f60718293a4b5c6d7e steam: 76561198000000001) Pawn=BP_Soldier_RU_Rifleman_C FullPath=x",
        "[2026.05.24-11.47.00:407][103]LogSquadTrace: [DedicatedServer]ASQPlayerController::OnUnPossess(): PC=Alpha (Online IDs: EOS: 0002a1b2c3d4e5f60718293a4b5c6d7e steam: 76561198000000001)",
        "[2026.05.24-11.47.01:407][103]LogSquadTrace: [DedicatedServer]OnPossess(): PC=Alpha (Online IDs: EOS: 0002a1b2c3d4e5f60718293a4b5c6d7e) Pawn=BP_BTR82A_RUS_C",
        "not a line of interest",
        "[2026.05.24-11.48.00:000][104]LogSquadTrace: [DedicatedServer]ASQSoldier::Wound(): Player:Bravo KillingDamage=-300.0 from BP_PlayerController_C_21 (Online IDs: EOS: 0002 | Controller ID: C21) caused by BP_AK74M_C",
        "[2026.05.24-11.48.01:000][104]LogSquadTrace: [DedicatedServer]ASQSoldier::Die(): Player:Bravo KillingDamage=100.0 from BP_PlayerController_C_21 (Online IDs: EOS: 0002 | Contoller ID: C21) caused by BP_AK74M_C",
        "[2026.05.24-11.50.32:407][105]LogNet: UChannel::Close: Sending CloseBunch. ChIndex == 0. Name: x, PC: BP_PlayerController_C_21, Owner: y, UniqueId: RedpointEOS:0002a1b2c3d4e5f60718293a4b5c6d7e",
        "[2026.05.24-12.00.00:000][106]LogGameState: Match State Changed from InProgress to WaitingPostMatch",
        "[2026.05.24-12.10.00:000][107]LogWorld: Bringing World /Game/Maps/Yehorivka/Gameplay_Layers/Yehorivka_AAS_v2 up for play",
        "[2026.05.24-12.09.00:000][108]LogNet: UChannel::Close: Sending CloseBunch. x PC: BP_PlayerController_C_9, z UniqueId: RedpointEOS:00aa",
        "[2026.13.24-12.11.00:000][109]LogGameState: Match State Changed from InProgress to WaitingPostMatch",
    ])
}

#[test]
fn timestamps_are_read() {
    assert_eq!(parse_timestamp("2026.05.24-11.46.32:407"), Some(time(11, 46, 32, 407)));
    assert_eq!(parse_timestamp("2026.05.24-11.46.32:407:9"), Some(time(11, 46, 32, 407)));
    assert_eq!(parse_timestamp("2026.05.24-11.46.59:1999"), Some(time(11, 46, 59, 1999)));
    assert_eq!(parse_timestamp("2026.05.24-11.46.58:1000"), None);
    assert_eq!(parse_timestamp("2026.05.24-11.46.32"), None);
    assert_eq!(parse_timestamp("2026.05.24-24.00.00:000"), None);
    assert_eq!(parse_timestamp("2026.02.29-00.00.00:000"), None);
    assert!(parse_timestamp("2024.02.29-00.00.00:000").is_some());
    assert!(parse_timestamp("2000.02.29-00.00.00:000").is_some());
    assert_eq!(parse_timestamp("1900.02.29-00.00.00:000"), None);
    assert_eq!(parse_timestamp("2026.04.31-00.00.00:000"), None);
    assert!(parse_timestamp("262142.12.31-00.00.00:000").is_some());
    assert_eq!(parse_timestamp("262143.01.01-00.00.00:000"), None);
    assert_eq!(parse_timestamp("2026.0x.24-11.46.32:407"), None);
    assert_eq!(parse_timestamp(""), None);
}

#[test]
fn durations_cross_days_months_and_leap_seconds() {
    fn between(start: &str, end: &str) -> u64 {
        LogMatch {
            map: String::new(),
            layer: String::new(),
            start_time: parse_timestamp(start).unwrap(),
            end_time: Some(parse_timestamp(end).unwrap()),
            events: vec![],
        }
        .duration_ms()
    }
    assert_eq!(between("2026.05.24-23.59.59:999", "2026.05.25-00.00.00:000"), 1);
    assert_eq!(between("2024.02.28-00.00.00:000", "2024.03.01-00.00.00:000"), 2 * 86_400_000);
    assert_eq!(between("2026.02.28-00.00.00:000", "2026.03.01-00.00.00:000"), 86_400_000);
    assert_eq!(between("2025.12.31-00.00.00:000", "2026.01.01-00.00.00:000"), 86_400_000);
    assert_eq!(between("0001.01.01-00.00.00:000", "2001.01.01-00.00.00:000"), 730_485 * 86_400_000);
    assert_eq!(between("2026.05.25-00.00.00:000", "2026.05.24-00.00.00:000"), 0);
    assert_eq!(between("2026.05.24-10.00.59:1500", "2026.05.24-10.01.00:000"), 500);
    assert_eq!(between("2026.05.24-10.00.59:000", "2026.05.24-10.00.59:1500"), 1500);
}

#[test]
fn matches_without_an_end_have_no_duration() {
    let m = LogMatch {
        map: String::new(),
        layer: String::new(),
        start_time: time(1, 0, 0, 0),
        end_time: None,
        events: vec![],
    };
    assert_eq!(m.duration_ms(), 0);
}

#[test]
fn logs_tell_of_their_matches() {
    let matches = parse_log_lines(&sample_log()).unwrap();
    assert_eq!(matches.len(), 2);
    let first = &matches[0];
    assert_eq!(first.map, "Manicouagan");
    assert_eq!(first.layer, "Manicouagan_RAAS_v1");
    assert_eq!(first.start_time, time(11, 46, 32, 407));
    assert_eq!(first.end_time, Some(time(12, 0, 0, 0)));
    assert_eq!(first.duration_ms(), 807_593);
    let times: Vec<u64> = first.events.iter().map(|e| e.t_ms).collect();
    assert_eq!(times, vec![1000, 8000, 28_000, 29_000, 87_593, 88_593, 240_000, 807_593]);
    match &first.events[0].event_type {
        LogEventType::PlayerConnected { controller, eos_id, steam_id } => {
            assert_eq!(controller, "BP_PlayerController_C_21");
            assert_eq!(eos_id.as_deref(), Some(EOS));
            assert_eq!(steam_id.as_deref(), Some("76561198000000001"));
        }
        other => panic!("{other:?}"),
    }
    match &first.events[1].event_type {
        LogEventType::PlayerPossess { controller, eos_id, pawn } => {
            assert_eq!(controller, "Alpha");
            assert_eq!(eos_id.as_deref(), Some(EOS));
            assert_eq!(pawn, "BP_Soldier_RU_Rifleman");
        }
        other => panic!("{other:?}"),
    }
    match &first.events[4].event_type {
        LogEventType::PlayerWounded { victim, attacker, weapon } => {
            assert_eq!(victim, "Bravo");
            assert_eq!(attacker, "BP_PlayerController_C_21");
            assert_eq!(weapon, "BP_AK74M");
        }
        other => panic!("{other:?}"),
    }
    assert!(matches!(first.events[5].event_type, LogEventType::PlayerDied { .. }));
    assert!(matches!(first.events[2].event_type, LogEventType::PlayerUnpossess { .. }));
    assert!(matches!(first.events[7].event_type, LogEventType::RoundEnd));
    match &first.events[6].event_type {
        LogEventType::PlayerDisconnected { controller, eos_id } => {
            assert_eq!(controller, "BP_PlayerController_C_21");
            assert_eq!(eos_id.as_deref(), Some(EOS));
        }
        other => panic!("{other:?}"),
    }
    let second = &matches[1];
    assert_eq!(second.map, "Yehorivka");
    assert_eq!(second.end_time, None);
    assert_eq!(second.events.len(), 1);
    assert_eq!(second.events[0].t_ms, 0);
}

#[test]
fn patterns_find_ids() {
    let patterns = LogPatterns::new().unwrap();
    assert_eq!(patterns.extract_eos_id(" EOS:   00ab steam: 12"), Some("00ab".to_string()));
    assert_eq!(patterns.extract_eos_id("steam: 12"), None);
    assert_eq!(patterns.extract_steam_id("EOS: 00ab steam: 12"), Some("12".to_string()));
    assert_eq!(patterns.extract_steam_id("EOS: 00ab"), None);
    assert!(patterns.read_line("nothing").is_none());
}

#[test]
fn a_new_match_ends_the_one_before() {
    let mut parser = LogParser::new();
    parser.take_line(LogLine::Event {
        stamp: "2026.05.24-10.00.00:000".to_string(),
        event: LogEventType::RoundEnd,
    });
    assert!(parser.current.is_none());
    let new_game = |stamp: &str, map: &str| LogLine::NewGame {
        stamp: stamp.to_string(),
        map: map.to_string(),
        layer: "L".to_string(),
    };
    parser.take_line(new_game("no time", "A"));
    assert!(parser.current.is_none());
    parser.take_line(new_game("2026.05.24-10.00.00:000", "A"));
    parser.take_line(new_game("2026.05.24-10.30.00:000", "MyTransitionMap"));
    parser.take_line(new_game("2026.05.24-11.00.00:000", "B"));
    parser.take_line(LogLine::Event {
        stamp: "2026.05.24-11.00.05:000".to_string(),
        event: LogEventType::VehicleDied {
            vehicle_class: "c".to_string(),
            vehicle_id: "i".to_string(),
            causer: "u".to_string(),
            instigator: "n".to_string(),
        },
    });
    let matches = parser.finish();
    assert_eq!(matches.len(), 2);
    assert_eq!(matches[0].end_time, Some(time(11, 0, 0, 0)));
    assert_eq!(matches[1].end_time, None);
    assert_eq!(matches[1].events[0].t_ms, 5000);
}

fn log_match(map: &str, seconds: u32, events: usize) -> LogMatch {
    LogMatch {
        map: map.to_string(),
        layer: String::new(),
        start_time: time(10, 0, 0, 0),
        end_time: Some(time(10, seconds / 60, seconds % 60, 0)),
        events: (0..events)
            .map(|i| LogEvent { t_ms: i as u64, event_type: LogEventType::RoundEnd })
            .collect(),
    }
}

#[test]
fn scores_add_up() {
    assert_eq!(match_score("narva", "narva", 1000, 1000, 0), 15);
    assert_eq!(match_score("narva_x", "narva", 1100, 1000, 99), 12);
    assert_eq!(match_score("narva", "narva_x", 1200, 1000, 100), 11);
    assert_eq!(match_score("narva", "kohat", 901, 1000, 250), 7);
    assert_eq!(match_score("narva", "kohat", 900, 1000, 10_000), 5);
    assert_eq!(match_score("narva", "kohat", 0, 0, 0), 0);
    assert_eq!(match_score("narva", "", 0, 0, 0), 10);
    assert_eq!(match_score("a", "b", 0, u64::MAX, 0), 5);
    assert_eq!(match_score("a", "b", 5, 9, 0), 0);
}

#[test]
fn the_best_match_is_found() {
    let logs = vec![
        log_match("Kohat", 1000, 0),
        log_match("NARVA", 2000, 0),
        log_match("Narva", 1000, 50),
        log_match("narva_old", 1000, 20),
    ];
    let best = find_matching_log(&logs, "Narva", 1_000_000).unwrap();
    assert_eq!(best.map, "Narva");
    assert!(find_matching_log(&logs[..0], "Narva", 1_000_000).is_none());
    let none = vec![log_match("Kohat", 10, 0)];
    assert!(find_matching_log(&none, "Narva", 1_000_000).is_none());
    assert_eq!(find_matching_log(&none, "KOHAT", 1_000_000).unwrap().map, "Kohat");
}

#[test]
fn durations_that_are_too_far_apart_are_told() {
    let logs = vec![log_match("Narva", 1, 0)];
    assert!(can_compare(&logs, 0));
    assert!(can_compare(&logs, i64::MAX as u64));
    assert!(can_compare(&logs, u64::MAX));
    assert!(can_compare(&logs, i64::MAX as u64 + 1 + 1001));
    assert!(!can_compare(&logs, i64::MAX as u64 + 1 + 1000));
    assert!(!can_compare(&logs, i64::MAX as u64 + 1));
    assert!(can_compare(&vec![], i64::MAX as u64 + 1));
}

fn event(t_ms: u64, event_type: LogEventType) -> LogEvent {
    LogEvent { t_ms, event_type }
}

fn possess(eos: &str, pawn: &str) -> LogEventType {
    LogEventType::PlayerPossess {
        controller: "Alpha".to_string(),
        eos_id: Some(eos.to_string()),
        pawn: pawn.to_string(),
    }
}

fn disconnect(eos: &str) -> LogEventType {
    LogEventType::PlayerDisconnected {
        controller: "Alpha".to_string(),
        eos_id: Some(eos.to_string()),
    }
}

#[test]
fn states_follow_the_events() {
    let events = vec![
        event(5, disconnect("a")),
        event(10, possess("a", "BP_Soldier_X")),
        event(20, possess("a", "BP_Soldier_Tank")),
        event(30, possess("a", "BP_Kamaz")),
        event(40, possess("a", "BP_Camera")),
        event(50, LogEventType::PlayerConnected {
            controller: "Named".to_string(),
            eos_id: Some("a".to_string()),
            steam_id: Some("7".to_string()),
        }),
        event(55, LogEventType::PlayerUnpossess {
            controller: "Alpha".to_string(),
            eos_id: Some("a".to_string()),
        }),
        event(60, disconnect("a")),
        event(70, disconnect("a")),
        event(80, LogEventType::PlayerConnected {
            controller: "Nobody".to_string(),
            eos_id: None,
            steam_id: None,
        }),
    ];
    let states = player_log_states(&events);
    assert_eq!(states.len(), 1);
    let state = states.get("a").unwrap();
    assert_eq!(state.eos_id, "a");
    assert_eq!(state.name.as_deref(), Some("Named"));
    assert_eq!(state.steam_id.as_deref(), Some("7"));
    assert_eq!(state.connect_time_ms, Some(50));
    assert_eq!(state.disconnect_time_ms, Some(70));
    assert!(!state.is_spawned);
    assert_eq!(state.current_pawn, None);
    let spawns: Vec<(u64, SpawnEventType)> =
        state.spawn_events.iter().map(|s| (s.t_ms, s.event_type)).collect();
    assert_eq!(
        spawns,
        vec![
            (10, SpawnEventType::Spawn),
            (20, SpawnEventType::EnterVehicle),
            (30, SpawnEventType::EnterVehicle),
            (60, SpawnEventType::Despawn),
        ]
    );
}

#[test]
fn windows_keep_the_order_of_the_events() {
    let events = vec![
        event(10, possess("a", "BP_Soldier_X")),
        event(10, possess("b", "BP_Soldier_Y")),
        event(20, disconnect("a")),
        event(20, possess("a", "BP_Soldier_X")),
        event(35, disconnect("a")),
        event(40, possess("a", "BP_Soldier_X")),
    ];
    let states = player_log_states(&events);
    let windows: Vec<(u64, u64)> = windows_of_state(states.get("a").unwrap(), 90)
        .iter()
        .map(|w| (w.start_ms, w.end_ms))
        .collect();
    assert_eq!(windows, vec![(10, 20), (20, 35), (40, 90)]);
    let windows: Vec<(u64, u64)> = windows_of_state(states.get("b").unwrap(), 90)
        .iter()
        .map(|w| (w.start_ms, w.end_ms))
        .collect();
    assert_eq!(windows, vec![(10, 90)]);
}

fn player(eos: Option<&str>) -> Player {
    Player {
        eos_id: eos.map(|e| e.to_string()),
        name: Some("Alpha".to_string()),
        visibility_windows: vec![VisibilityWindow { start_ms: 1, end_ms: 2 }],
        ..Player::default()
    }
}

#[test]
fn players_get_what_the_log_tells() {
    let m = LogMatch {
        map: String::new(),
        layer: String::new(),
        start_time: time(1, 0, 0, 0),
        end_time: None,
        events: vec![
            event(10, possess("ab", "BP_Soldier_X")),
            event(50, disconnect("ab")),
            event(60, possess("ab", "BP_Soldier_X")),
            event(10, possess("cd", "BP_Soldier_X")),
            event(90, possess("ef", "BP_Camera")),
        ],
    };
    let mut players =
        vec![player(Some("AB")), player(Some("cd")), player(Some("ef")), player(None), player(Some("zz"))];
    merge_log_into_players(&mut players, &m, 1000);
    let windows: Vec<Vec<(u64, u64)>> = players
        .iter()
        .map(|p| p.visibility_windows.iter().map(|w| (w.start_ms, w.end_ms)).collect())
        .collect();
    assert_eq!(
        windows,
        vec![
            vec![(10, 50), (60, 1000)],
            vec![(10, 1000)],
            vec![(1, 2)],
            vec![(1, 2)],
            vec![(1, 2)],
        ]
    );
    assert_eq!(players[0].disconnect_time_ms, Some(50));
    assert_eq!(players[0].connect_time_ms, None);
    assert_eq!(players[0].eos_id.as_deref(), Some("AB"));
    let once: Vec<String> = players.iter().map(|p| format!("{p:?}")).collect();
    merge_log_into_players(&mut players, &m, 1000);
    let twice: Vec<String> = players.iter().map(|p| format!("{p:?}")).collect();
    assert_eq!(once, twice);
}

#[test]
fn vehicle_deaths_are_added() {
    let mut deaths = vec![VehicleDeathEvent::default()];
    let died = LogEventType::VehicleDied {
        vehicle_class: "BP_T72_C".to_string(),
        vehicle_id: "12".to_string(),
        causer: "rocket".to_string(),
        instigator: "Alpha".to_string(),
    };
    let m = LogMatch {
        map: String::new(),
        layer: String::new(),
        start_time: time(1, 0, 0, 0),
        end_time: None,
        events: vec![
            event(1999, died.clone()),
            event(5, LogEventType::RoundEnd),
            event(4_294_967_296_000 + 3000, died),
        ],
    };
    merge_vehicle_deaths(&mut deaths, &m);
    assert_eq!(deaths.len(), 3);
    assert_eq!(deaths[1].t_ms, 1999);
    assert_eq!(deaths[1].second, 1);
    assert_eq!(deaths[1].vehicle_class, "BP_T72_C");
    assert_eq!(deaths[1].instigator, "Alpha");
    assert_eq!(deaths[2].second, 3);
}

#[test]
fn bundles_get_the_round_that_fits() {
    let died = LogEventType::VehicleDied {
        vehicle_class: "BP_T72_C".to_string(),
        vehicle_id: "12".to_string(),
        causer: "rocket".to_string(),
        instigator: "Alpha".to_string(),
    };
    let mut fitting = log_match("Narva", 1000, 0);
    fitting.events = vec![event(10, possess("ab", "BP_Soldier_X")), event(20, died)];
    let rounds = vec![log_match("Kohat", 1000, 0), fitting];
    let mut bundle = Bundle::default();
    bundle.replay.map_name = Some("narva".to_string());
    bundle.replay.duration_ms = 1_000_000;
    bundle.players = vec![player(Some("AB"))];
    assert!(merge_log(&mut bundle, &rounds));
    assert_eq!(bundle.events.vehicle_deaths.len(), 1);
    assert_eq!(bundle.players[0].visibility_windows[0].end_ms, 1_000_000);

    let mut other = Bundle::default();
    other.replay.map_name = Some("Yehorivka".to_string());
    other.players = vec![player(Some("AB"))];
    assert!(!merge_log(&mut other, &rounds));
    assert!(other.events.vehicle_deaths.is_empty());
    assert_eq!(other.players[0].visibility_windows[0].end_ms, 2);
}
