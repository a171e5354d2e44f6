//! The tickets of a match: what each team starts with, the events that take
//! tickets away or add some, and what is left.

use crate::bundle::{
    ActorEntity, Bundle, CaptureZone, CaptureZoneEvent, KillEvent, Player, Team, VehicleDeathEvent,
};
use crate::float_bits::{at_most, is_at_most};
use crate::game_mode::{game_mode, mode_of};
use crate::log_parser::LogMatch;
use crate::numbers::{low_32, low_bits};
use crate::outside::{lowercase, to_lower, to_upper, uppercase};
use crate::string_map::StringMap;
use crate::text::{
    chars_of, contains, contains_any, copy_opt, find_part, has_part, names_any, opt_text,
    part_index_from, same_text, trim_leading, without_leading,
};
use crate::time_order::{
    by_time, in_time_order, law_sorting, lemma_sorting_changed_items, sort_by_time, with_item,
    HasTime, Timed,
};
use std::collections::HashMap;
use vstd::prelude::*;
use vstd::std_specs::hash::*;

verus! {

/// The version of the format.
pub const TICKETPROOF_VERSION: u32 = 1;

// ---------------------------------------------------------------------------
// Data
// ---------------------------------------------------------------------------

/// The tickets of a match.
#[derive(Debug, Clone)]
pub struct TicketProof {
    pub version: u32,
    pub meta: TicketMeta,
    pub teams: Vec<TicketTeam>,
    pub events: Vec<TicketEvent>,
    pub statistics: TicketStatistics,
    pub timeline: Vec<TicketTimelinePoint>,
    pub final_tickets: FinalTickets,
}

/// The tickets at the end of the match.
#[derive(Debug, Clone)]
pub struct FinalTickets {
    pub team1: i32,
    pub team2: i32,
}

/// What the match was.
#[derive(Debug, Clone)]
pub struct TicketMeta {
    pub map: Option<String>,
    pub layer: Option<String>,
    pub mode: Option<String>,
    pub duration_ms: u64,
    pub start_tickets: StartTickets,
}

/// The tickets at the start of the match.
#[derive(Debug, Clone)]
pub struct StartTickets {
    pub team1: i32,
    pub team2: i32,
}

/// A team.
#[derive(Debug, Clone)]
pub struct TicketTeam {
    pub id: u32,
    pub faction: Option<String>,
    pub name: Option<String>,
}

/// An event that changes the tickets of a team.
#[derive(Debug, Clone)]
pub struct TicketEvent {
    pub t_ms: u64,
    pub kind: String,
    pub team: u32,
    pub delta: i32,
    pub detail: Option<String>,
    pub category: Option<String>,
    pub icon: Option<String>,
}

/// Counts for each team.
#[derive(Debug, Clone)]
pub struct TicketStatistics {
    pub team1: TeamStats,
    pub team2: TeamStats,
}

/// Counts for a team.
#[derive(Debug, Clone, Default)]
pub struct TeamStats {
    pub infantry_deaths: u32,
    /// By category of vehicle.
    pub vehicle_deaths: StringMap<u32>,
    pub captures: u32,
    pub radios_placed: u32,
    pub radios_bled: u32,
}

/// The tickets at a time.
#[derive(Debug, Clone, Copy)]
pub struct TicketTimelinePoint {
    pub t_ms: u64,
    pub team1: i32,
    pub team2: i32,
}

/// What the caller may choose.
#[derive(Debug, Clone, Default)]
pub struct TicketProofOptions {
    /// Starting tickets for team 1 (default: determined by mode)
    pub start_team1: Option<i32>,
    /// Starting tickets for team 2 (default: determined by mode)
    pub start_team2: Option<i32>,
}

/// An event, with its texts as characters.
pub struct TicketModel {
    pub t_ms: u64,
    pub kind: Seq<char>,
    pub team: u32,
    pub delta: int,
    pub detail: Option<Seq<char>>,
    pub category: Option<Seq<char>>,
    pub icon: Option<Seq<char>>,
}

impl View for TicketEvent {
    type V = TicketModel;

    open spec fn view(&self) -> TicketModel {
        TicketModel {
            t_ms: self.t_ms,
            kind: self.kind@,
            team: self.team,
            delta: self.delta as int,
            detail: opt_text(self.detail),
            category: opt_text(self.category),
            icon: opt_text(self.icon),
        }
    }
}

/// The events, with their texts as characters.
pub open spec fn ticket_models(events: Seq<TicketEvent>) -> Seq<TicketModel> {
    events.map_values(|event: TicketEvent| event@)
}

impl HasTime for TicketModel {
    open spec fn time(&self) -> u64 {
        self.t_ms
    }
}

impl HasTime for TicketEvent {
    open spec fn time(&self) -> u64 {
        self.t_ms
    }
}

impl Timed for TicketEvent {
    fn time_ms(&self) -> (t: u64) {
        self.t_ms
    }
}

// ---------------------------------------------------------------------------
// Vehicles
// ---------------------------------------------------------------------------

/// What the loss of a vehicle costs, and what kind of vehicle it is.
#[derive(Debug, Clone, Copy)]
pub struct VehicleInfo {
    pub tickets: i32,
    pub category: &'static str,
    pub label: &'static str,
}

/// Names of main battle tanks.
pub const TANKS: [&'static str; 10] = [
    "M1A2",
    "T72",
    "T64",
    "T90",
    "LEOPARD",
    "CHALLENGER",
    "MERKAVA",
    "M60T",
    "ZTZ99",
    "TYPE99",
];

/// Names of infantry fighting vehicles.
pub const FIGHTING_VEHICLES: [&'static str; 9] = [
    "BTR4",
    "BMP",
    "BRADLEY",
    "MARDER",
    "WARRIOR",
    "CV90",
    "LAV6",
    "LAV_6",
    "ASLAV",
];

/// Names of armored personnel carriers.
pub const CARRIERS: [&'static str; 7] = [
    "BTR80",
    "BTR82",
    "STRYKER",
    "MTLB",
    "BULLDOG",
    "TLAV",
    "M113",
];

/// Names of transport helicopters.
pub const TRANSPORT_HELICOPTERS: [&'static str; 6] = [
    "UH60",
    "MI8",
    "CH146",
    "MRH90",
    "SA330",
    "UH1Y",
];

/// Names of attack helicopters.
pub const ATTACK_HELICOPTERS: [&'static str; 4] = ["AH64", "MI24", "KA52", "AH1Z"];

/// Names of logistics trucks.
pub const LOGISTICS_TRUCKS: [&'static str; 2] = ["LOGI", "LOGISTICS"];

/// Names of transport trucks.
pub const TRANSPORT_TRUCKS: [&'static str; 6] = [
    "UTIL",
    "TRANSPORT",
    "URAL",
    "M939",
    "KAMAZ",
    "MTVR",
];

/// Names of technicals.
pub const TECHNICALS: [&'static str; 3] = ["TECHNICAL", "SIMIR", "SAFIR"];

/// Names of light armored vehicles.
pub const LIGHT_ARMOR: [&'static str; 6] = ["MRAP", "MATV", "BRDM", "TAPV", "TIGR", "FENNEK"];

/// Names of factions, and of camouflage and equipment, of team 1.
pub const TEAM_1_NAMES: [&'static str; 8] = [
    "USA",
    "USMC",
    "CAF",
    "BAF",
    "ADF",
    "WPMC",
    "WOODLAND",
    "C16",
];

/// Names of factions of team 2.
pub const TEAM_2_NAMES: [&'static str; 9] = [
    "AFU",
    "TLF",
    "RUS",
    "VDV",
    "MEA",
    "INS",
    "MIL",
    "PLA",
    "PLANMC",
];

/// What the loss of a vehicle costs by its name in upper case, and what kind
/// of vehicle it is: the first kind that has a name in it.
pub open spec fn vehicle_of(upper: Seq<char>) -> VehicleInfo {
    if names_any(upper, TANKS@) {
        VehicleInfo { tickets: 15, category: "mbt", label: "Main Battle Tank" }
    } else if names_any(upper, FIGHTING_VEHICLES@) {
        VehicleInfo { tickets: 10, category: "ifv", label: "Infantry Fighting Vehicle" }
    } else if names_any(upper, CARRIERS@) {
        VehicleInfo { tickets: 8, category: "apc", label: "Armored Personnel Carrier" }
    } else if names_any(upper, TRANSPORT_HELICOPTERS@) {
        VehicleInfo { tickets: 10, category: "transport_helo", label: "Transport Helicopter" }
    } else if names_any(upper, ATTACK_HELICOPTERS@) {
        VehicleInfo { tickets: 15, category: "attack_helo", label: "Attack Helicopter" }
    } else if names_any(upper, LOGISTICS_TRUCKS@) {
        VehicleInfo { tickets: 5, category: "logi", label: "Logistics Truck" }
    } else if names_any(upper, TRANSPORT_TRUCKS@) {
        VehicleInfo { tickets: 3, category: "truck", label: "Transport Truck" }
    } else if names_any(upper, TECHNICALS@) {
        VehicleInfo { tickets: 3, category: "technical", label: "Technical" }
    } else if names_any(upper, LIGHT_ARMOR@) {
        VehicleInfo { tickets: 5, category: "mrap", label: "Light Armored Vehicle" }
    } else {
        VehicleInfo { tickets: 3, category: "unknown", label: "Vehicle" }
    }
}

/// The team that a vehicle belongs to by its name in upper case, if that tells.
pub open spec fn side_of_vehicle(upper: Seq<char>) -> Option<u32> {
    if names_any(upper, TEAM_1_NAMES@) {
        Some(1)
    } else if names_any(upper, TEAM_2_NAMES@) {
        Some(2)
    } else {
        None
    }
}

/// What the loss of a vehicle costs by its name in upper case, and what kind
/// of vehicle it is.
pub fn vehicle_info(upper: &str) -> (info: VehicleInfo)
    ensures
        info == vehicle_of(upper@),
{
    if contains_any(upper, TANKS.as_slice()) {
        VehicleInfo { tickets: 15, category: "mbt", label: "Main Battle Tank" }
    } else if contains_any(upper, FIGHTING_VEHICLES.as_slice()) {
        VehicleInfo { tickets: 10, category: "ifv", label: "Infantry Fighting Vehicle" }
    } else if contains_any(upper, CARRIERS.as_slice()) {
        VehicleInfo { tickets: 8, category: "apc", label: "Armored Personnel Carrier" }
    } else if contains_any(upper, TRANSPORT_HELICOPTERS.as_slice()) {
        VehicleInfo { tickets: 10, category: "transport_helo", label: "Transport Helicopter" }
    } else if contains_any(upper, ATTACK_HELICOPTERS.as_slice()) {
        VehicleInfo { tickets: 15, category: "attack_helo", label: "Attack Helicopter" }
    } else if contains_any(upper, LOGISTICS_TRUCKS.as_slice()) {
        VehicleInfo { tickets: 5, category: "logi", label: "Logistics Truck" }
    } else if contains_any(upper, TRANSPORT_TRUCKS.as_slice()) {
        VehicleInfo { tickets: 3, category: "truck", label: "Transport Truck" }
    } else if contains_any(upper, TECHNICALS.as_slice()) {
        VehicleInfo { tickets: 3, category: "technical", label: "Technical" }
    } else if contains_any(upper, LIGHT_ARMOR.as_slice()) {
        VehicleInfo { tickets: 5, category: "mrap", label: "Light Armored Vehicle" }
    } else {
        VehicleInfo { tickets: 3, category: "unknown", label: "Vehicle" }
    }
}

/// What the loss of a vehicle costs by its name, and what kind of vehicle it is.
/// There is always an answer: a vehicle that no kind has a name for is of the
/// last kind.
pub fn classify_vehicle(name: &str) -> (info: Option<VehicleInfo>)
    ensures
        info == Some(vehicle_of(uppercase(name@))),
{
    Some(vehicle_info(&to_upper(name)))
}

/// The team that a vehicle belongs to by its name in upper case, if that tells.
pub fn vehicle_side(upper: &str) -> (team: Option<u32>)
    ensures
        team == side_of_vehicle(upper@),
{
    if contains_any(upper, TEAM_1_NAMES.as_slice()) {
        Some(1)
    } else if contains_any(upper, TEAM_2_NAMES.as_slice()) {
        Some(2)
    } else {
        None
    }
}

/// The team that a vehicle belongs to by its name, if that tells.
pub fn team_from_vehicle_name(name: &str) -> (team: Option<u32>)
    ensures
        team == side_of_vehicle(uppercase(name@)),
{
    vehicle_side(&to_upper(name))
}

/// A space in place of an underscore.
pub open spec fn spaced(c: char) -> char {
    if c == '_' {
        ' '
    } else {
        c
    }
}

/// The name of a vehicle for display: without the prefixes, without what
/// follows from the first class suffix on, and with spaces.
pub open spec fn display_name(name: Seq<char>) -> Seq<char> {
    let rest = without_leading(name, "BP_"@);
    let head = match part_index_from(rest, "_C_"@, 0) {
        Some(i) => rest.take(i),
        None => rest,
    };
    head.map_values(|c: char| spaced(c))
}

/// The name of a vehicle for display.
pub fn clean_vehicle_name(name: &str) -> (clean: String)
    ensures
        clean@ == display_name(name@),
{
    let rest = trim_leading(&chars_of(name), &chars_of("BP_"));
    let end: usize = match find_part(&rest, &chars_of("_C_"), 0) {
        Some(i) => i,
        None => rest.len(),
    };
    let mut clean = String::new();
    let mut i: usize = 0;
    while i < end
        invariant
            i <= end <= rest@.len(),
            clean@ == rest@.take(i as int).map_values(|c: char| spaced(c)),
        decreases end - i,
    {
        let c: char = rest[i];
        assert(rest@.take(i + 1).map_values(|c: char| spaced(c)) =~= rest@.take(
            i as int,
        ).map_values(|c: char| spaced(c)).push(spaced(c)));
        if c == '_' {
            clean.push(' ');
        } else {
            clean.push(c);
        }
        i += 1;
    }
    assert(rest@.take(rest@.len() as int) =~= rest@);
    clean
}

/// Every vehicle costs from 3 to 15 tickets, and a vehicle that no kind has a
/// name for costs as little as any.
pub proof fn law_vehicle_cost(upper: Seq<char>)
    ensures
        3 <= vehicle_of(upper).tickets <= 15,
        vehicle_of(upper).category@ == "unknown"@ ==> vehicle_of(upper).tickets == 3,
{
    reveal_strlit("mbt");
    reveal_strlit("ifv");
    reveal_strlit("apc");
    reveal_strlit("transport_helo");
    reveal_strlit("attack_helo");
    reveal_strlit("logi");
    reveal_strlit("mrap");
    reveal_strlit("unknown");
    assert("unknown"@.len() == 7);
    assert("mbt"@.len() == 3);
    assert("ifv"@.len() == 3);
    assert("apc"@.len() == 3);
    assert("transport_helo"@.len() == 14);
    assert("attack_helo"@.len() == 11);
    assert("logi"@.len() == 4);
    assert("mrap"@.len() == 4);
}

// ---------------------------------------------------------------------------
// Mode and teams
// ---------------------------------------------------------------------------

/// The mode of a match, or that it is not known.
pub open spec fn mode_text(bundle: Bundle) -> Seq<char> {
    match mode_of(bundle) {
        Some(mode) => mode,
        None => "Unknown"@,
    }
}

/// The mode of a match, or that it is not known.
pub fn extract_mode(bundle: &Bundle) -> (mode: String)
    ensures
        mode@ == mode_text(*bundle),
{
    match game_mode(bundle) {
        Some(mode) => mode,
        None => "Unknown".to_owned(),
    }
}

/// The tickets that the teams start with in a mode, given in lower case.
pub open spec fn start_of_mode(lower: Seq<char>) -> (i32, i32) {
    if has_part(lower, "invasion"@) {
        (800, 200)
    } else {
        (250, 250)
    }
}

/// The tickets that the teams start with in a mode, given in lower case.
pub fn start_tickets_of(lower: &str) -> (tickets: (i32, i32))
    ensures
        tickets == start_of_mode(lower@),
{
    if contains(lower, "invasion") {
        (800, 200)
    } else {
        (250, 250)
    }
}

/// The tickets that the teams start with in a mode.
pub fn mode_start_tickets(mode: &str) -> (tickets: (i32, i32))
    ensures
        tickets == start_of_mode(lowercase(mode@)),
{
    start_tickets_of(&to_lower(mode))
}

/// The tickets that the teams start with: those that the caller chose, or else
/// those of the mode.
pub open spec fn start_of(bundle: Bundle, options: TicketProofOptions) -> (i32, i32) {
    let by_mode = start_of_mode(lowercase(mode_text(bundle)));
    (
        match options.start_team1 {
            Some(tickets) => tickets,
            None => by_mode.0,
        },
        match options.start_team2 {
            Some(tickets) => tickets,
            None => by_mode.1,
        },
    )
}

/// The side of a team by its faction: 1 or 2 where it is that of the first or
/// of the second team.
pub open spec fn side_of_team(team: Team, teams: Seq<Team>) -> Option<u32> {
    if opt_text(team.faction) == opt_text(teams[0].faction) {
        Some(1)
    } else if opt_text(team.faction) == opt_text(teams[1].faction) {
        Some(2)
    } else {
        None
    }
}

/// The sides of team numbers by the first `n` teams: 1 for 0, 2 for 1 and 2,
/// and for a greater number the side of the last team from the third on that
/// has it and that has a side.
pub open spec fn sides_of_first(teams: Seq<Team>, n: int) -> Map<u32, u32>
    decreases n,
{
    if n <= 2 {
        Map::<u32, u32>::empty().insert(0, 1).insert(1, 2).insert(2, 2)
    } else {
        let before = sides_of_first(teams, n - 1);
        let team = teams[n - 1];
        match side_of_team(team, teams) {
            Some(side) => if team.id > 2 {
                before.insert(team.id, side)
            } else {
                before
            },
            None => before,
        }
    }
}

/// The sides of team numbers.
pub open spec fn sides_of(teams: Seq<Team>) -> Map<u32, u32> {
    sides_of_first(teams, teams.len() as int)
}

/// A team number by a map of sides: itself where it has none.
pub open spec fn side_in(sides: Map<u32, u32>, id: u32) -> u32 {
    if sides.contains_key(id) {
        sides[id]
    } else {
        id
    }
}

/// Whether two optional texts are the same.
fn same_opt(a: &Option<String>, b: &Option<String>) -> (same: bool)
    ensures
        same == (opt_text(*a) == opt_text(*b)),
{
    match (a, b) {
        (Some(x), Some(y)) => same_text(x, y),
        (None, None) => true,
        _ => false,
    }
}

/// The sides of team numbers.
pub fn build_team_map(teams: &Vec<Team>) -> (sides: HashMap<u32, u32>)
    ensures
        sides@ == sides_of(teams@),
{
    broadcast use group_hash_axioms;

    let mut sides: HashMap<u32, u32> = HashMap::new();
    sides.insert(0, 1);
    sides.insert(1, 2);
    sides.insert(2, 2);
    let mut n: usize = 2;
    while n < teams.len()
        invariant
            n >= 2,
            n <= teams@.len() || n == 2,
            sides@ == sides_of_first(teams@, n as int),
        decreases teams@.len() - n,
    {
        let team = &teams[n];
        if team.id > 2 {
            if same_opt(&team.faction, &teams[0].faction) {
                sides.insert(team.id, 1);
            } else if same_opt(&team.faction, &teams[1].faction) {
                sides.insert(team.id, 2);
            }
        }
        n += 1;
    }
    proof {
        if teams@.len() < 2 {
            assert(sides_of_first(teams@, teams@.len() as int) == sides_of_first(teams@, 2));
        }
    }
    sides
}

/// The side of a team number, or the number itself where it has none.
pub fn normalize_team_id(raw: u32, team_map: &HashMap<u32, u32>) -> (id: u32)
    ensures
        id == side_in(team_map@, raw),
{
    broadcast use group_hash_axioms;

    match team_map.get(&raw) {
        Some(side) => *side,
        None => raw,
    }
}

/// The numbers 0, 1 and 2 have the sides 1, 2 and 2, whatever the teams are,
/// and no team number has a side other than 1 and 2.
pub proof fn law_sides(teams: Seq<Team>)
    ensures
        side_in(sides_of(teams), 0) == 1,
        side_in(sides_of(teams), 1) == 2,
        side_in(sides_of(teams), 2) == 2,
        forall|id: u32| #[trigger]
            sides_of(teams).contains_key(id) ==> sides_of(teams)[id] == 1 || sides_of(teams)[id]
                == 2,
{
    lemma_sides_of_first(teams, teams.len() as int);
}

/// What holds of the sides by the first teams.
proof fn lemma_sides_of_first(teams: Seq<Team>, n: int)
    ensures
        sides_of_first(teams, n).contains_key(0) && sides_of_first(teams, n)[0] == 1,
        sides_of_first(teams, n).contains_key(1) && sides_of_first(teams, n)[1] == 2,
        sides_of_first(teams, n).contains_key(2) && sides_of_first(teams, n)[2] == 2,
        forall|id: u32| #[trigger]
            sides_of_first(teams, n).contains_key(id) ==> sides_of_first(teams, n)[id] == 1
                || sides_of_first(teams, n)[id] == 2,
    decreases n,
{
    if n > 2 {
        lemma_sides_of_first(teams, n - 1);
    }
}

/// The teams of the players by their names in lower case. Of players with one
/// name the last counts; one whose team has no side does not count.
pub open spec fn teams_of_players(players: Seq<Player>, sides: Map<u32, u32>) -> Map<Seq<char>, u32>
    decreases players.len(),
{
    if players.len() == 0 {
        Map::empty()
    } else {
        let before = teams_of_players(players.drop_last(), sides);
        let player = players.last();
        match (player.name, player.team_id) {
            (Some(name), Some(id)) => if is_side(side_in(sides, id)) {
                before.insert(lowercase(name@), side_in(sides, id))
            } else {
                before
            },
            _ => before,
        }
    }
}

/// The number of one of the two sides.
pub open spec fn is_side(team: u32) -> bool {
    team == 1 || team == 2
}

/// The teams of the players by their names in lower case.
pub fn build_player_team_lookup(bundle: &Bundle) -> (lookup: StringMap<u32>)
    ensures
        lookup.well_formed(),
        lookup@ == teams_of_players(bundle.players@, sides_of(bundle.teams@)),
{
    let team_map = build_team_map(&bundle.teams);
    let mut lookup: StringMap<u32> = StringMap::new();
    let ghost players = bundle.players@;
    let mut i: usize = 0;
    while i < bundle.players.len()
        invariant
            i <= bundle.players@.len(),
            players == bundle.players@,
            team_map@ == sides_of(bundle.teams@),
            lookup.well_formed(),
            lookup@ == teams_of_players(players.take(i as int), sides_of(bundle.teams@)),
        decreases bundle.players@.len() - i,
    {
        let player = &bundle.players[i];
        assert(players.take(i + 1).drop_last() =~= players.take(i as int));
        if let Some(name) = &player.name {
            if let Some(id) = player.team_id {
                let side: u32 = normalize_team_id(id, &team_map);
                if side == 1 || side == 2 {
                    lookup.insert(to_lower(name), side);
                }
            }
        }
        i += 1;
    }
    assert(players.take(i as int) =~= players);
    lookup
}

// ---------------------------------------------------------------------------
// Events
// ---------------------------------------------------------------------------

/// What is picked of some items, in their order.
pub open spec fn picked<A>(items: Seq<A>, pick: spec_fn(A) -> Option<TicketModel>) -> Seq<
    TicketModel,
>
    decreases items.len(),
{
    if items.len() == 0 {
        Seq::empty()
    } else {
        let before = picked(items.drop_last(), pick);
        match pick(items.last()) {
            Some(event) => before.push(event),
            None => before,
        }
    }
}

/// The death of a player: one ticket of their team, if it is known.
pub open spec fn infantry_event(kill: KillEvent, teams: Map<Seq<char>, u32>) -> Option<
    TicketModel,
> {
    match kill.victim_name {
        Some(victim) => if teams.contains_key(lowercase(victim@)) {
            Some(
                TicketModel {
                    t_ms: kill.t_ms,
                    kind: "infantry_death"@,
                    team: teams[lowercase(victim@)],
                    delta: -1,
                    detail: Some(victim@),
                    category: None,
                    icon: None,
                },
            )
        } else {
            None
        },
        None => None,
    }
}

/// The loss of a vehicle: what it costs its team, if that is known.
pub open spec fn vehicle_event(death: VehicleDeathEvent) -> Option<TicketModel> {
    let upper = uppercase(death.vehicle_class@);
    match side_of_vehicle(upper) {
        Some(team) => Some(
            TicketModel {
                t_ms: death.t_ms,
                kind: "vehicle_death"@,
                team,
                delta: -vehicle_of(upper).tickets,
                detail: Some(display_name(death.vehicle_class@)),
                category: Some(vehicle_of(upper).category@),
                icon: None,
            },
        ),
        None => None,
    }
}

/// The name of a capture zone, or that it is not known.
pub open spec fn zone_name(zone: CaptureZone) -> Seq<char> {
    match zone.name {
        Some(name) => name@,
        None => "Unknown"@,
    }
}

/// The zone is a main base.
pub open spec fn is_main_base(zone: CaptureZone) -> bool {
    has_part(lowercase(zone_name(zone)), "main"@)
}

/// The capture of a zone.
pub open spec fn capture_event(
    t_ms: u64,
    kind: Seq<char>,
    team: u32,
    delta: int,
    name: Seq<char>,
) -> TicketModel {
    TicketModel {
        t_ms,
        kind,
        team,
        delta,
        detail: Some(name),
        category: None,
        icon: Some("flag.svg"@),
    }
}

/// The side that an event of a zone gives it to, if it is about the owner.
pub open spec fn new_owner(event: CaptureZoneEvent, sides: Map<u32, u32>) -> Option<u32> {
    let value: int = match event.value_int {
        Some(v) => v as int,
        None => 0,
    };
    let owner = side_in(sides, low_bits(value));
    if event.event_type@ == "owning_team"@ && is_side(owner) {
        Some(owner)
    } else {
        None
    }
}

/// The captures of a zone, and its last owner: 20 tickets for the first side
/// that takes the zone, 50 for a side that takes it from the other.
pub open spec fn zone_captures(
    events: Seq<CaptureZoneEvent>,
    name: Seq<char>,
    sides: Map<u32, u32>,
) -> (Seq<TicketModel>, Option<u32>)
    decreases events.len(),
{
    if events.len() == 0 {
        (Seq::empty(), None)
    } else {
        let (done, owner) = zone_captures(events.drop_last(), name, sides);
        let event = events.last();
        match (new_owner(event, sides), owner) {
            (Some(side), None) => (
                done.push(capture_event(event.t_ms, "capture_first"@, side, 20, name)),
                Some(side),
            ),
            (Some(side), Some(previous)) => if side != previous {
                (
                    done.push(capture_event(event.t_ms, "capture_enemy"@, side, 50, name)),
                    Some(side),
                )
            } else {
                (done, owner)
            },
            (None, _) => (done, owner),
        }
    }
}

/// The captures of all zones but the main bases.
pub open spec fn captures_of(zones: Seq<CaptureZone>, sides: Map<u32, u32>) -> Seq<TicketModel>
    decreases zones.len(),
{
    if zones.len() == 0 {
        Seq::empty()
    } else {
        let before = captures_of(zones.drop_last(), sides);
        let zone = zones.last();
        if is_main_base(zone) {
            before
        } else {
            before + zone_captures(zone.events@, zone_name(zone), sides).0
        }
    }
}

/// The side that a radio belongs to, if the deployable is a radio of a side.
pub open spec fn side_of_radio(deployable: ActorEntity, sides: Map<u32, u32>) -> Option<u32> {
    match (deployable.class_name, deployable.team) {
        (Some(class), Some(team)) => {
            let side = side_in(sides, low_bits(team as int));
            if has_part(lowercase(class@), "radio"@) && is_side(side) {
                Some(side)
            } else {
                None
            }
        },
        _ => None,
    }
}

/// The health at or below which a radio bleeds: the pattern of 24.
pub const BLEEDING_HEALTH: u64 = 0x4038_0000_0000_0000;

/// The loss of a radio that bled: 20 tickets.
pub open spec fn radio_event(deployable: ActorEntity, sides: Map<u32, u32>) -> Option<
    TicketModel,
> {
    match (side_of_radio(deployable, sides), deployable.close_time_ms, deployable.health) {
        (Some(team), Some(t_ms), Some(health)) => if is_at_most(health, BLEEDING_HEALTH) {
            Some(
                TicketModel {
                    t_ms,
                    kind: "radio_bleed"@,
                    team,
                    delta: -20,
                    detail: Some("FOBRadio"@),
                    category: None,
                    icon: Some("deployable_fob.svg"@),
                },
            )
        } else {
            None
        },
        _ => None,
    }
}

/// The deaths of players in a match.
pub open spec fn infantry_events(bundle: Bundle) -> Seq<TicketModel> {
    let teams = teams_of_players(bundle.players@, sides_of(bundle.teams@));
    picked(bundle.events.kills@, |kill: KillEvent| infantry_event(kill, teams))
}

/// The losses of vehicles in a match.
pub open spec fn vehicle_events(bundle: Bundle) -> Seq<TicketModel> {
    picked(bundle.events.vehicle_deaths@, |death: VehicleDeathEvent| vehicle_event(death))
}

/// The captures in a match.
pub open spec fn capture_events(bundle: Bundle) -> Seq<TicketModel> {
    captures_of(bundle.events.capture_zones@, sides_of(bundle.teams@))
}

/// The losses of radios that bled in a match.
pub open spec fn radio_events(bundle: Bundle) -> Seq<TicketModel> {
    let sides = sides_of(bundle.teams@);
    picked(bundle.actors.deployables@, |deployable: ActorEntity| radio_event(deployable, sides))
}

/// All events of a match that change tickets, in the order of their kinds.
pub open spec fn unsorted_events(bundle: Bundle) -> Seq<TicketModel> {
    infantry_events(bundle) + vehicle_events(bundle) + capture_events(bundle) + radio_events(bundle)
}

/// All events of a match that change tickets, in the order of their times.
pub open spec fn ticket_events(bundle: Bundle) -> Seq<TicketModel> {
    by_time(unsorted_events(bundle))
}

/// The death of a player, whose team is looked up by the name in lower case.
pub fn infantry_ticket(kill: &KillEvent, team: Option<u32>) -> (event: Option<TicketEvent>)
    ensures
        match (event, kill.victim_name, team) {
            (Some(e), Some(victim), Some(side)) => e@ == (TicketModel {
                t_ms: kill.t_ms,
                kind: "infantry_death"@,
                team: side,
                delta: -1,
                detail: Some(victim@),
                category: None,
                icon: None,
            }),
            (Some(_), _, _) => false,
            (None, victim, side) => victim is None || side is None,
        },
{
    match (&kill.victim_name, team) {
        (Some(victim), Some(side)) => Some(
            TicketEvent {
                t_ms: kill.t_ms,
                kind: "infantry_death".to_owned(),
                team: side,
                delta: -1,
                detail: Some(victim.clone()),
                category: None,
                icon: None,
            },
        ),
        _ => None,
    }
}

/// The deaths of players.
fn collect_infantry(kills: &Vec<KillEvent>, teams: &StringMap<u32>) -> (events: Vec<TicketEvent>)
    requires
        teams.well_formed(),
    ensures
        ticket_models(events@) == picked(
            kills@,
            |kill: KillEvent| infantry_event(kill, teams@),
        ),
{
    let mut events: Vec<TicketEvent> = Vec::new();
    let ghost pick = |kill: KillEvent| infantry_event(kill, teams@);
    let mut i: usize = 0;
    assert(ticket_models(events@) =~= Seq::empty());
    while i < kills.len()
        invariant
            i <= kills@.len(),
            teams.well_formed(),
            pick == (|kill: KillEvent| infantry_event(kill, teams@)),
            ticket_models(events@) == picked(kills@.take(i as int), pick),
        decreases kills@.len() - i,
    {
        let kill = &kills[i];
        let ghost before = events@;
        assert(kills@.take(i + 1).drop_last() =~= kills@.take(i as int));
        let team: Option<u32> = match &kill.victim_name {
            Some(victim) => match teams.get(&to_lower(victim)) {
                Some(side) => Some(*side),
                None => None,
            },
            None => None,
        };
        if let Some(event) = infantry_ticket(kill, team) {
            assert(pick(*kill) == Some(event@));
            events.push(event);
            assert(ticket_models(events@) =~= ticket_models(before).push(event@));
        }
        i += 1;
    }
    assert(kills@.take(i as int) =~= kills@);
    events
}

/// The loss of a vehicle, by its name in upper case.
pub fn vehicle_ticket(death: &VehicleDeathEvent, upper: &str) -> (event: Option<TicketEvent>)
    ensures
        match event {
            Some(e) => {
                &&& side_of_vehicle(upper@) is Some
                &&& e@ == (TicketModel {
                    t_ms: death.t_ms,
                    kind: "vehicle_death"@,
                    team: side_of_vehicle(upper@)->0,
                    delta: -vehicle_of(upper@).tickets,
                    detail: Some(display_name(death.vehicle_class@)),
                    category: Some(vehicle_of(upper@).category@),
                    icon: None,
                })
            },
            None => side_of_vehicle(upper@) is None,
        },
{
    match vehicle_side(upper) {
        Some(team) => {
            let info = vehicle_info(upper);
            Some(
                TicketEvent {
                    t_ms: death.t_ms,
                    kind: "vehicle_death".to_owned(),
                    team,
                    delta: -info.tickets,
                    detail: Some(clean_vehicle_name(&death.vehicle_class)),
                    category: Some(info.category.to_owned()),
                    icon: None,
                },
            )
        },
        None => None,
    }
}

/// The losses of vehicles.
fn collect_vehicles(deaths: &Vec<VehicleDeathEvent>) -> (events: Vec<TicketEvent>)
    ensures
        ticket_models(events@) == picked(
            deaths@,
            |death: VehicleDeathEvent| vehicle_event(death),
        ),
{
    let mut events: Vec<TicketEvent> = Vec::new();
    let ghost pick = |death: VehicleDeathEvent| vehicle_event(death);
    let mut i: usize = 0;
    assert(ticket_models(events@) =~= Seq::empty());
    while i < deaths.len()
        invariant
            i <= deaths@.len(),
            pick == (|death: VehicleDeathEvent| vehicle_event(death)),
            ticket_models(events@) == picked(deaths@.take(i as int), pick),
        decreases deaths@.len() - i,
    {
        let death = &deaths[i];
        let ghost before = events@;
        assert(deaths@.take(i + 1).drop_last() =~= deaths@.take(i as int));
        if let Some(event) = vehicle_ticket(death, &to_upper(&death.vehicle_class)) {
            assert(pick(*death) == Some(event@));
            events.push(event);
            assert(ticket_models(events@) =~= ticket_models(before).push(event@));
        }
        i += 1;
    }
    assert(deaths@.take(i as int) =~= deaths@);
    events
}

/// The captures of a zone.
pub fn zone_tickets(
    zone_events: &Vec<CaptureZoneEvent>,
    name: &str,
    team_map: &HashMap<u32, u32>,
) -> (events: Vec<TicketEvent>)
    ensures
        ticket_models(events@) == zone_captures(zone_events@, name@, team_map@).0,
{
    let mut events: Vec<TicketEvent> = Vec::new();
    let mut owner: Option<u32> = None;
    let mut i: usize = 0;
    assert(ticket_models(events@) =~= Seq::empty());
    while i < zone_events.len()
        invariant
            i <= zone_events@.len(),
            (ticket_models(events@), owner) == zone_captures(
                zone_events@.take(i as int),
                name@,
                team_map@,
            ),
        decreases zone_events@.len() - i,
    {
        let event = &zone_events[i];
        let ghost before = events@;
        assert(zone_events@.take(i + 1).drop_last() =~= zone_events@.take(i as int));
        if same_text(&event.event_type, "owning_team") {
            let value: i64 = match event.value_int {
                Some(v) => v,
                None => 0,
            };
            let side: u32 = normalize_team_id(low_32(value), team_map);
            if side == 1 || side == 2 {
                assert(new_owner(*event, team_map@) == Some(side));
                let first = owner.is_none();
                let changes = match owner {
                    Some(previous) => previous != side,
                    None => true,
                };
                if changes {
                    let capture = TicketEvent {
                        t_ms: event.t_ms,
                        kind: if first {
                            "capture_first".to_owned()
                        } else {
                            "capture_enemy".to_owned()
                        },
                        team: side,
                        delta: if first {
                            20
                        } else {
                            50
                        },
                        detail: Some(name.to_owned()),
                        category: None,
                        icon: Some("flag.svg".to_owned()),
                    };
                    let ghost model = capture@;
                    events.push(capture);
                    owner = Some(side);
                    assert(ticket_models(events@) =~= ticket_models(before).push(model));
                }
            }
        }
        i += 1;
    }
    assert(zone_events@.take(i as int) =~= zone_events@);
    events
}

/// Puts events behind others.
fn append_events(events: &mut Vec<TicketEvent>, more: Vec<TicketEvent>)
    ensures
        final(events)@ == old(events)@ + more@,
        ticket_models(final(events)@) == ticket_models(old(events)@) + ticket_models(more@),
{
    let ghost before = events@;
    let ghost added = more@;
    let mut rest = more;
    events.append(&mut rest);
    assert(ticket_models(before + added) =~= ticket_models(before) + ticket_models(added));
}

/// The captures of all zones but the main bases.
fn collect_captures(zones: &Vec<CaptureZone>, team_map: &HashMap<u32, u32>) -> (events: Vec<
    TicketEvent,
>)
    ensures
        ticket_models(events@) == captures_of(zones@, team_map@),
{
    let mut events: Vec<TicketEvent> = Vec::new();
    let mut i: usize = 0;
    assert(ticket_models(events@) =~= Seq::empty());
    while i < zones.len()
        invariant
            i <= zones@.len(),
            ticket_models(events@) == captures_of(zones@.take(i as int), team_map@),
        decreases zones@.len() - i,
    {
        let zone = &zones[i];
        assert(zones@.take(i + 1).drop_last() =~= zones@.take(i as int));
        let name: String = match &zone.name {
            Some(name) => name.clone(),
            None => "Unknown".to_owned(),
        };
        if !contains(&to_lower(&name), "main") {
            append_events(&mut events, zone_tickets(&zone.events, &name, team_map));
        }
        i += 1;
    }
    assert(zones@.take(i as int) =~= zones@);
    events
}

/// The side that a radio belongs to, if the deployable is a radio of a side.
fn radio_side(deployable: &ActorEntity, team_map: &HashMap<u32, u32>) -> (side: Option<u32>)
    ensures
        side == side_of_radio(*deployable, team_map@),
{
    match (&deployable.class_name, deployable.team) {
        (Some(class), Some(team)) => {
            let side: u32 = normalize_team_id(low_32(team), team_map);
            if contains(&to_lower(class), "radio") && (side == 1 || side == 2) {
                Some(side)
            } else {
                None
            }
        },
        _ => None,
    }
}

/// The loss of a radio of a side, if it bled.
pub fn radio_ticket(deployable: &ActorEntity, side: u32) -> (event: Option<TicketEvent>)
    ensures
        match event {
            Some(e) => {
                &&& deployable.close_time_ms is Some
                &&& deployable.health matches Some(health) && is_at_most(health, BLEEDING_HEALTH)
                &&& e@ == (TicketModel {
                    t_ms: deployable.close_time_ms->0,
                    kind: "radio_bleed"@,
                    team: side,
                    delta: -20,
                    detail: Some("FOBRadio"@),
                    category: None,
                    icon: Some("deployable_fob.svg"@),
                })
            },
            None => deployable.close_time_ms is None || deployable.health is None || !is_at_most(
                deployable.health->0,
                BLEEDING_HEALTH,
            ),
        },
{
    match (deployable.close_time_ms, deployable.health) {
        (Some(t_ms), Some(health)) => if at_most(health, BLEEDING_HEALTH) {
            Some(
                TicketEvent {
                    t_ms,
                    kind: "radio_bleed".to_owned(),
                    team: side,
                    delta: -20,
                    detail: Some("FOBRadio".to_owned()),
                    category: None,
                    icon: Some("deployable_fob.svg".to_owned()),
                },
            )
        } else {
            None
        },
        _ => None,
    }
}

/// How many radios of a side are among some deployables.
pub open spec fn radios_of(deployables: Seq<ActorEntity>, sides: Map<u32, u32>, side: u32) -> nat
    decreases deployables.len(),
{
    if deployables.len() == 0 {
        0
    } else {
        radios_of(deployables.drop_last(), sides, side) + if side_of_radio(
            deployables.last(),
            sides,
        ) == Some(side) {
            1nat
        } else {
            0
        }
    }
}

/// The losses of radios that bled, and how many radios each side has placed.
fn collect_radios(deployables: &Vec<ActorEntity>, team_map: &HashMap<u32, u32>) -> (found: (
    Vec<TicketEvent>,
    usize,
    usize,
))
    ensures
        ticket_models(found.0@) == picked(
            deployables@,
            |deployable: ActorEntity| radio_event(deployable, team_map@),
        ),
        found.1 == radios_of(deployables@, team_map@, 1),
        found.2 == radios_of(deployables@, team_map@, 2),
{
    let mut events: Vec<TicketEvent> = Vec::new();
    let mut placed_1: usize = 0;
    let mut placed_2: usize = 0;
    let ghost pick = |deployable: ActorEntity| radio_event(deployable, team_map@);
    let mut i: usize = 0;
    assert(ticket_models(events@) =~= Seq::empty());
    while i < deployables.len()
        invariant
            i <= deployables@.len(),
            pick == (|deployable: ActorEntity| radio_event(deployable, team_map@)),
            ticket_models(events@) == picked(deployables@.take(i as int), pick),
            placed_1 == radios_of(deployables@.take(i as int), team_map@, 1),
            placed_2 == radios_of(deployables@.take(i as int), team_map@, 2),
            placed_1 <= i,
            placed_2 <= i,
        decreases deployables@.len() - i,
    {
        let deployable = &deployables[i];
        let ghost before = events@;
        assert(deployables@.take(i + 1).drop_last() =~= deployables@.take(i as int));
        if let Some(side) = radio_side(deployable, team_map) {
            if side == 1 {
                placed_1 += 1;
            } else {
                placed_2 += 1;
            }
            if let Some(event) = radio_ticket(deployable, side) {
                assert(pick(*deployable) == Some(event@));
                events.push(event);
                assert(ticket_models(events@) =~= ticket_models(before).push(event@));
            }
        }
        i += 1;
    }
    assert(deployables@.take(i as int) =~= deployables@);
    (events, placed_1, placed_2)
}

// ---------------------------------------------------------------------------
// Counts
// ---------------------------------------------------------------------------

/// How many of some events are of a team.
pub open spec fn count_of(events: Seq<TicketModel>, team: u32) -> nat
    decreases events.len(),
{
    if events.len() == 0 {
        0
    } else {
        count_of(events.drop_last(), team) + if events.last().team == team {
            1nat
        } else {
            0
        }
    }
}

/// How many of some events are of a team and of a category.
pub open spec fn count_in(events: Seq<TicketModel>, team: u32, category: Seq<char>) -> nat
    decreases events.len(),
{
    if events.len() == 0 {
        0
    } else {
        count_in(events.drop_last(), team, category) + if events.last().team == team
            && events.last().category == Some(category) {
            1nat
        } else {
            0
        }
    }
}

/// No category of a team has more events than fit in 32 bits.
pub open spec fn categories_fit(events: Seq<TicketModel>, team: u32) -> bool {
    forall|category: Seq<char>| #[trigger] count_in(events, team, category) <= u32::MAX
}

/// A map counts the events of a team by category.
pub open spec fn counts_categories(
    counts: Map<Seq<char>, u32>,
    events: Seq<TicketModel>,
    team: u32,
) -> bool {
    forall|category: Seq<char>|
        {
            &&& #[trigger] counts.contains_key(category) <==> count_in(events, team, category) > 0
            &&& counts.contains_key(category) ==> counts[category] == count_in(
                events,
                team,
                category,
            )
        }
}

/// How many of some events are of a team.
fn count_team(events: &Vec<TicketEvent>, team: u32) -> (count: usize)
    ensures
        count == count_of(ticket_models(events@), team),
{
    let ghost all = ticket_models(events@);
    let mut count: usize = 0;
    let mut i: usize = 0;
    while i < events.len()
        invariant
            i <= events@.len(),
            all == ticket_models(events@),
            count == count_of(all.take(i as int), team),
            count <= i,
        decreases events@.len() - i,
    {
        assert(all.take(i + 1).drop_last() =~= all.take(i as int));
        assert(all.take(i + 1).last() == events@[i as int]@);
        if events[i].team == team {
            count += 1;
        }
        i += 1;
    }
    assert(all.take(i as int) =~= all);
    count
}

/// More events do not make fewer of a category.
proof fn lemma_count_in_grows(events: Seq<TicketModel>, n: int, team: u32, category: Seq<char>)
    requires
        0 <= n <= events.len(),
    ensures
        count_in(events.take(n), team, category) <= count_in(events, team, category),
    decreases events.len() - n,
{
    if n < events.len() {
        assert(events.take(n + 1).drop_last() =~= events.take(n));
        lemma_count_in_grows(events, n + 1, team, category);
    } else {
        assert(events.take(n) =~= events);
    }
}

/// Counts the events of a team by category, unless a count does not fit.
fn count_categories(events: &Vec<TicketEvent>, team: u32) -> (counts: Option<StringMap<u32>>)
    ensures
        match counts {
            Some(map) => {
                &&& map.well_formed()
                &&& categories_fit(ticket_models(events@), team)
                &&& counts_categories(map@, ticket_models(events@), team)
            },
            None => !categories_fit(ticket_models(events@), team),
        },
{
    let ghost all = ticket_models(events@);
    let mut counts: StringMap<u32> = StringMap::new();
    let mut i: usize = 0;
    while i < events.len()
        invariant
            i <= events@.len(),
            all == ticket_models(events@),
            counts.well_formed(),
            counts_categories(counts@, all.take(i as int), team),
        decreases events@.len() - i,
    {
        let event = &events[i];
        let ghost before = counts@;
        let ghost now = all.take(i + 1);
        assert(now.drop_last() =~= all.take(i as int));
        assert(now.last() == event@);
        if event.team == team {
            if let Some(category) = &event.category {
                let count: u32 = match counts.get(category) {
                    Some(n) => *n,
                    None => 0,
                };
                assert(before.contains_key(category@) <==> count_in(
                    all.take(i as int),
                    team,
                    category@,
                ) > 0);
                assert(count == count_in(all.take(i as int), team, category@));
                if count == u32::MAX {
                    proof {
                        lemma_count_in_grows(all, i + 1, team, category@);
                        assert(count_in(all, team, category@) > u32::MAX);
                    }
                    return None;
                }
                counts.insert(category.clone(), count + 1);
            }
        }
        assert forall|category: Seq<char>|
            {
                &&& #[trigger] counts@.contains_key(category) <==> count_in(now, team, category) > 0
                &&& counts@.contains_key(category) ==> counts@[category] == count_in(
                    now,
                    team,
                    category,
                )
            } by {
            assert(before.contains_key(category) <==> count_in(all.take(i as int), team, category)
                > 0);
        }
        i += 1;
    }
    assert(all.take(i as int) =~= all);
    assert forall|category: Seq<char>| #[trigger] count_in(all, team, category) <= u32::MAX by {
        assert(counts@.contains_key(category) <==> count_in(all, team, category) > 0);
    }
    Some(counts)
}

/// The counts of a team are those of a match.
pub open spec fn stats_of(stats: TeamStats, bundle: Bundle, team: u32) -> bool {
    let sides = sides_of(bundle.teams@);
    &&& stats.infantry_deaths == count_of(infantry_events(bundle), team)
    &&& stats.vehicle_deaths.well_formed()
    &&& counts_categories(stats.vehicle_deaths@, vehicle_events(bundle), team)
    &&& stats.captures == count_of(capture_events(bundle), team)
    &&& stats.radios_placed == radios_of(bundle.actors.deployables@, sides, team)
    &&& stats.radios_bled == count_of(radio_events(bundle), team)
}

/// The counts of a team fit in 32 bits.
pub open spec fn stats_fit(bundle: Bundle, team: u32) -> bool {
    let sides = sides_of(bundle.teams@);
    &&& count_of(infantry_events(bundle), team) <= u32::MAX
    &&& categories_fit(vehicle_events(bundle), team)
    &&& count_of(capture_events(bundle), team) <= u32::MAX
    &&& radios_of(bundle.actors.deployables@, sides, team) <= u32::MAX
    &&& count_of(radio_events(bundle), team) <= u32::MAX
}

/// A count in 32 bits, if it fits.
fn narrow(count: usize) -> (narrowed: Option<u32>)
    ensures
        match narrowed {
            Some(n) => n == count,
            None => count > u32::MAX,
        },
{
    if count as u64 <= u32::MAX as u64 {
        Some(count as u32)
    } else {
        None
    }
}

/// The counts of a team, unless one does not fit.
fn team_stats(
    infantry: &Vec<TicketEvent>,
    vehicles: &Vec<TicketEvent>,
    captures: &Vec<TicketEvent>,
    radios: &Vec<TicketEvent>,
    placed: usize,
    team: u32,
) -> (stats: Option<TeamStats>)
    ensures
        match stats {
            Some(s) => {
                &&& s.infantry_deaths == count_of(ticket_models(infantry@), team)
                &&& s.vehicle_deaths.well_formed()
                &&& categories_fit(ticket_models(vehicles@), team)
                &&& counts_categories(s.vehicle_deaths@, ticket_models(vehicles@), team)
                &&& s.captures == count_of(ticket_models(captures@), team)
                &&& s.radios_placed == placed
                &&& s.radios_bled == count_of(ticket_models(radios@), team)
            },
            None => {
                ||| count_of(ticket_models(infantry@), team) > u32::MAX
                ||| !categories_fit(ticket_models(vehicles@), team)
                ||| count_of(ticket_models(captures@), team) > u32::MAX
                ||| placed > u32::MAX
                ||| count_of(ticket_models(radios@), team) > u32::MAX
            },
        },
{
    let infantry_deaths: u32 = narrow(count_team(infantry, team))?;
    let vehicle_deaths = count_categories(vehicles, team)?;
    let captures: u32 = narrow(count_team(captures, team))?;
    let radios_placed: u32 = narrow(placed)?;
    let radios_bled: u32 = narrow(count_team(radios, team))?;
    Some(TeamStats { infantry_deaths, vehicle_deaths, captures, radios_placed, radios_bled })
}

// ---------------------------------------------------------------------------
// The tickets over time
// ---------------------------------------------------------------------------

/// What a side gains by an event. All but the first team count as the second.
pub open spec fn gain(event: TicketModel, first: bool) -> int {
    if (event.team == 1) == first {
        event.delta
    } else {
        0
    }
}

/// What a side gains by some events.
pub open spec fn total_gain(events: Seq<TicketModel>, first: bool) -> int
    decreases events.len(),
{
    if events.len() == 0 {
        0
    } else {
        total_gain(events.drop_last(), first) + gain(events.last(), first)
    }
}

/// The tickets after the first `n` events.
pub open spec fn point_after(start: (i32, i32), events: Seq<TicketModel>, n: int) -> (int, int) {
    (
        start.0 + total_gain(events.take(n), true),
        start.1 + total_gain(events.take(n), false),
    )
}

/// A number fits in 32 bits with a sign.
pub open spec fn fits_i32(n: int) -> bool {
    i32::MIN <= n <= i32::MAX
}

/// The tickets fit in 32 bits with a sign, at all times.
pub open spec fn points_fit(start: (i32, i32), events: Seq<TicketModel>) -> bool {
    forall|n: int|
        0 <= n <= events.len() ==> fits_i32((#[trigger] point_after(start, events, n)).0)
            && fits_i32(point_after(start, events, n).1)
}

/// The tickets at the start, after each event, and once more at the end of a
/// match of some length.
pub open spec fn points_of(start: (i32, i32), events: Seq<TicketModel>, duration_ms: u64) -> Seq<
    TicketTimelinePoint,
> {
    let points = first_points(start, events, events.len() as int);
    let (team1, team2) = point_after(start, events, events.len() as int);
    if duration_ms > 0 {
        points.push(
            TicketTimelinePoint { t_ms: duration_ms, team1: team1 as i32, team2: team2 as i32 },
        )
    } else {
        points
    }
}

/// The tickets at the start and after each of the first `n` events.
pub open spec fn first_points(start: (i32, i32), events: Seq<TicketModel>, n: int) -> Seq<
    TicketTimelinePoint,
> {
    Seq::new(
        (n + 1) as nat,
        |i: int|
            TicketTimelinePoint {
                t_ms: if i == 0 {
                    0
                } else {
                    events[i - 1].t_ms
                },
                team1: point_after(start, events, i).0 as i32,
                team2: point_after(start, events, i).1 as i32,
            },
    )
}

/// A ticket more or less, if it fits.
fn with_delta(tickets: i32, delta: i32) -> (sum: Option<i32>)
    ensures
        match sum {
            Some(n) => n == tickets + delta,
            None => !fits_i32(tickets + delta),
        },
{
    let sum: i64 = tickets as i64 + delta as i64;
    if sum < i32::MIN as i64 || sum > i32::MAX as i64 {
        None
    } else {
        Some(sum as i32)
    }
}

/// The tickets over time and at the end, unless they do not fit.
pub fn build_points(start: (i32, i32), events: &Vec<TicketEvent>, duration_ms: u64) -> (points:
    Option<(Vec<TicketTimelinePoint>, FinalTickets)>)
    ensures
        match points {
            Some((list, last)) => {
                let all = ticket_models(events@);
                &&& points_fit(start, all)
                &&& list@ == points_of(start, all, duration_ms)
                &&& (last.team1 as int, last.team2 as int) == point_after(
                    start,
                    all,
                    all.len() as int,
                )
            },
            None => !points_fit(start, ticket_models(events@)),
        },
{
    let ghost all = ticket_models(events@);
    let mut team1: i32 = start.0;
    let mut team2: i32 = start.1;
    let mut points: Vec<TicketTimelinePoint> = Vec::new();
    points.push(TicketTimelinePoint { t_ms: 0, team1, team2 });
    let mut i: usize = 0;
    assert(all.take(0) =~= Seq::empty());
    assert(points@ =~= first_points(start, all, 0));
    while i < events.len()
        invariant
            i <= events@.len(),
            all == ticket_models(events@),
            (team1 as int, team2 as int) == point_after(start, all, i as int),
            points@ == first_points(start, all, i as int),
            forall|n: int|
                0 <= n <= i ==> fits_i32((#[trigger] point_after(start, all, n)).0) && fits_i32(
                    point_after(start, all, n).1,
                ),
        decreases events@.len() - i,
    {
        let event = &events[i];
        assert(all.take(i + 1).drop_last() =~= all.take(i as int));
        assert(all.take(i + 1).last() == event@);
        let ghost next = point_after(start, all, i + 1);
        if event.team == 1 {
            assert(next == (team1 + event.delta, team2 as int));
            match with_delta(team1, event.delta) {
                Some(sum) => {
                    team1 = sum;
                },
                None => {
                    return None;
                },
            }
        } else {
            assert(next == (team1 as int, team2 + event.delta));
            match with_delta(team2, event.delta) {
                Some(sum) => {
                    team2 = sum;
                },
                None => {
                    return None;
                },
            }
        }
        points.push(TicketTimelinePoint { t_ms: event.t_ms, team1, team2 });
        assert(points@ =~= first_points(start, all, i + 1));
        i += 1;
    }
    if duration_ms > 0 {
        points.push(TicketTimelinePoint { t_ms: duration_ms, team1, team2 });
    }
    Some((points, FinalTickets { team1, team2 }))
}

// ---------------------------------------------------------------------------
// The whole
// ---------------------------------------------------------------------------

/// The counts and the tickets of a match fit in their 32 bits.
pub open spec fn tickets_fit(bundle: Bundle, options: TicketProofOptions) -> bool {
    &&& stats_fit(bundle, 1)
    &&& stats_fit(bundle, 2)
    &&& points_fit(start_of(bundle, options), ticket_events(bundle))
}

/// A team, with its side for a number.
pub open spec fn ticket_team(team: Team, sides: Map<u32, u32>) -> TicketTeam {
    TicketTeam { id: side_in(sides, team.id), faction: team.faction, name: team.name }
}

/// These are the tickets of a match.
pub open spec fn proves_tickets(
    built: TicketProof,
    bundle: Bundle,
    options: TicketProofOptions,
) -> bool {
    let start = start_of(bundle, options);
    let events = ticket_events(bundle);
    let end = point_after(start, events, events.len() as int);
    &&& built.version == TICKETPROOF_VERSION
    &&& built.meta.map == bundle.replay.map_name
    &&& built.meta.layer == bundle.replay.layer_name
    &&& opt_text(built.meta.mode) == Some(mode_text(bundle))
    &&& built.meta.duration_ms == bundle.replay.duration_ms
    &&& (built.meta.start_tickets.team1, built.meta.start_tickets.team2) == start
    &&& built.teams@ == bundle.teams@.map_values(
        |team: Team| ticket_team(team, sides_of(bundle.teams@)),
    )
    &&& ticket_models(built.events@) == events
    &&& stats_of(built.statistics.team1, bundle, 1)
    &&& stats_of(built.statistics.team2, bundle, 2)
    &&& built.timeline@ == points_of(start, events, bundle.replay.duration_ms)
    &&& (built.final_tickets.team1 as int, built.final_tickets.team2 as int) == end
}

/// The teams, with their sides for numbers.
fn ticket_teams(teams: &Vec<Team>, team_map: &HashMap<u32, u32>) -> (list: Vec<TicketTeam>)
    ensures
        list@ == teams@.map_values(|team: Team| ticket_team(team, team_map@)),
{
    let mut list: Vec<TicketTeam> = Vec::new();
    let mut i: usize = 0;
    while i < teams.len()
        invariant
            i <= teams@.len(),
            list@ == teams@.take(i as int).map_values(|team: Team| ticket_team(team, team_map@)),
        decreases teams@.len() - i,
    {
        let team = &teams[i];
        list.push(
            TicketTeam {
                id: normalize_team_id(team.id, team_map),
                faction: copy_opt(&team.faction),
                name: copy_opt(&team.name),
            },
        );
        assert(list@ =~= teams@.take(i + 1).map_values(|team: Team| ticket_team(team, team_map@)));
        i += 1;
    }
    assert(teams@.take(i as int) =~= teams@);
    list
}

/// The tickets of a match, as far as they fit in their 32 bits.
fn assemble(bundle: &Bundle, options: &TicketProofOptions) -> (built: Option<TicketProof>)
    ensures
        match built {
            Some(p) => tickets_fit(*bundle, *options) && proves_tickets(p, *bundle, *options),
            None => !tickets_fit(*bundle, *options),
        },
{
    let mode = extract_mode(bundle);
    let (by_mode_1, by_mode_2) = mode_start_tickets(&mode);
    let start_1: i32 = match options.start_team1 {
        Some(tickets) => tickets,
        None => by_mode_1,
    };
    let start_2: i32 = match options.start_team2 {
        Some(tickets) => tickets,
        None => by_mode_2,
    };
    let team_map = build_team_map(&bundle.teams);
    let player_teams = build_player_team_lookup(bundle);

    let infantry = collect_infantry(&bundle.events.kills, &player_teams);
    let vehicles = collect_vehicles(&bundle.events.vehicle_deaths);
    let captures = collect_captures(&bundle.events.capture_zones, &team_map);
    let (radios, placed_1, placed_2) = collect_radios(&bundle.actors.deployables, &team_map);
    let team1 = team_stats(&infantry, &vehicles, &captures, &radios, placed_1, 1)?;
    let team2 = team_stats(&infantry, &vehicles, &captures, &radios, placed_2, 2)?;

    let mut events = infantry;
    append_events(&mut events, vehicles);
    append_events(&mut events, captures);
    append_events(&mut events, radios);
    assert(ticket_models(events@) == unsorted_events(*bundle));
    let ghost unsorted = events@;
    let events = sort_by_time(events);
    proof {
        lemma_sorting_changed_items(unsorted, |event: TicketEvent| event@);
        assert(ticket_models(events@) == ticket_events(*bundle));
    }
    let (timeline, final_tickets) = build_points(
        (start_1, start_2),
        &events,
        bundle.replay.duration_ms,
    )?;
    Some(
        TicketProof {
            version: TICKETPROOF_VERSION,
            meta: TicketMeta {
                map: copy_opt(&bundle.replay.map_name),
                layer: copy_opt(&bundle.replay.layer_name),
                mode: Some(mode),
                duration_ms: bundle.replay.duration_ms,
                start_tickets: StartTickets { team1: start_1, team2: start_2 },
            },
            teams: ticket_teams(&bundle.teams, &team_map),
            events,
            statistics: TicketStatistics { team1, team2 },
            timeline,
            final_tickets,
        },
    )
}

/// Whether the counts and the tickets of a match fit in their 32 bits.
pub fn ticketproof_fits(bundle: &Bundle, options: &TicketProofOptions) -> (fits: bool)
    ensures
        fits == tickets_fit(*bundle, *options),
{
    assemble(bundle, options).is_some()
}

/// The tickets of a match. What the log adds is in the bundle already.
pub fn build_ticketproof(
    bundle: &Bundle,
    _log_match: Option<&LogMatch>,
    options: &TicketProofOptions,
) -> (built: TicketProof)
    requires
        tickets_fit(*bundle, *options),
    ensures
        proves_tickets(built, *bundle, *options),
{
    match assemble(bundle, options) {
        Some(built) => built,
        None => vstd::pervasive::unreached(),
    }
}

/// The tickets of a match, unless a count or the tickets do not fit in their
/// 32 bits.
pub fn try_build_ticketproof(
    bundle: &Bundle,
    log_match: Option<&LogMatch>,
    options: &TicketProofOptions,
) -> (built: Option<TicketProof>)
    ensures
        match built {
            Some(p) => tickets_fit(*bundle, *options) && proves_tickets(p, *bundle, *options),
            None => !tickets_fit(*bundle, *options),
        },
{
    if ticketproof_fits(bundle, options) {
        Some(build_ticketproof(bundle, log_match, options))
    } else {
        None
    }
}

// ---------------------------------------------------------------------------
// Laws
// ---------------------------------------------------------------------------

/// What a side gains by one more event does not depend on where it stands.
proof fn lemma_gain_with_item(events: Seq<TicketModel>, event: TicketModel, first: bool)
    ensures
        total_gain(with_item(events, event), first) == total_gain(events, first) + gain(
            event,
            first,
        ),
    decreases events.len(),
{
    if events.len() == 0 || events.last().time() <= event.time() {
        assert(events.push(event).drop_last() =~= events);
    } else {
        let front = events.drop_last();
        lemma_gain_with_item(front, event, first);
        assert(with_item(front, event).push(events.last()).drop_last() =~= with_item(front, event));
    }
}

/// The order of events does not change what they gain a side in all.
pub proof fn law_order_keeps_gains(events: Seq<TicketModel>, first: bool)
    ensures
        total_gain(by_time(events), first) == total_gain(events, first),
    decreases events.len(),
{
    if events.len() > 0 {
        law_order_keeps_gains(events.drop_last(), first);
        lemma_gain_with_item(by_time(events.drop_last()), events.last(), first);
    }
}

/// What two runs of events gain a side is what both gain it together.
proof fn lemma_gain_of_both(a: Seq<TicketModel>, b: Seq<TicketModel>, first: bool)
    ensures
        total_gain(a + b, first) == total_gain(a, first) + total_gain(b, first),
    decreases b.len(),
{
    if b.len() == 0 {
        assert(a + b =~= a);
    } else {
        assert((a + b).drop_last() =~= a + b.drop_last());
        lemma_gain_of_both(a, b.drop_last(), first);
    }
}

/// The tickets that a side has in the end are those of the start and what each
/// kind of event gains it.
pub proof fn law_final_tickets(bundle: Bundle, options: TicketProofOptions)
    ensures
        ({
            let start = start_of(bundle, options);
            let events = ticket_events(bundle);
            let end = point_after(start, events, events.len() as int);
            &&& end.0 == start.0 + total_gain(infantry_events(bundle), true) + total_gain(
                vehicle_events(bundle),
                true,
            ) + total_gain(capture_events(bundle), true) + total_gain(radio_events(bundle), true)
            &&& end.1 == start.1 + total_gain(infantry_events(bundle), false) + total_gain(
                vehicle_events(bundle),
                false,
            ) + total_gain(capture_events(bundle), false) + total_gain(radio_events(bundle), false)
        }),
{
    let events = ticket_events(bundle);
    assert(events.take(events.len() as int) =~= events);
    let a = infantry_events(bundle);
    let b = vehicle_events(bundle);
    let c = capture_events(bundle);
    let d = radio_events(bundle);
    law_order_keeps_gains(unsorted_events(bundle), true);
    law_order_keeps_gains(unsorted_events(bundle), false);
    lemma_gain_of_both(a + b + c, d, true);
    lemma_gain_of_both(a + b + c, d, false);
    lemma_gain_of_both(a + b, c, true);
    lemma_gain_of_both(a + b, c, false);
    lemma_gain_of_both(a, b, true);
    lemma_gain_of_both(a, b, false);
}

/// All of some picked events have what every pick has.
proof fn lemma_picked<A>(
    items: Seq<A>,
    pick: spec_fn(A) -> Option<TicketModel>,
    holds: spec_fn(TicketModel) -> bool,
)
    requires
        forall|a: A| (#[trigger] pick(a)) matches Some(event) ==> holds(event),
    ensures
        forall|i: int| 0 <= i < picked(items, pick).len() ==> holds(#[trigger] picked(items, pick)[i]),
    decreases items.len(),
{
    if items.len() > 0 {
        lemma_picked(items.drop_last(), pick, holds);
        let before = picked(items.drop_last(), pick);
        assert(pick(items.last()) matches Some(event) ==> holds(event));
        assert forall|i: int| 0 <= i < picked(items, pick).len() implies holds(
            #[trigger] picked(items, pick)[i],
        ) by {
            if i < before.len() {
                assert(picked(items, pick)[i] == before[i]);
            }
        }
    }
}

/// A player whose team is known is on side 1 or 2.
proof fn lemma_teams_of_players(players: Seq<Player>, sides: Map<u32, u32>)
    ensures
        forall|name: Seq<char>| #[trigger]
            teams_of_players(players, sides).contains_key(name) ==> is_side(
                teams_of_players(players, sides)[name],
            ),
    decreases players.len(),
{
    if players.len() > 0 {
        lemma_teams_of_players(players.drop_last(), sides);
        let before = teams_of_players(players.drop_last(), sides);
        assert forall|name: Seq<char>| #[trigger]
            teams_of_players(players, sides).contains_key(name) implies is_side(
            teams_of_players(players, sides)[name],
        ) by {
            assert(before.contains_key(name) ==> is_side(before[name]));
        }
    }
}

/// The deaths of players cost their sides one ticket each.
pub proof fn law_infantry_deaths(bundle: Bundle)
    ensures
        forall|i: int|
            0 <= i < infantry_events(bundle).len() ==> is_side(
                (#[trigger] infantry_events(bundle)[i]).team,
            ) && infantry_events(bundle)[i].delta == -1,
        total_gain(infantry_events(bundle), true) == -count_of(infantry_events(bundle), 1),
        total_gain(infantry_events(bundle), false) == -count_of(infantry_events(bundle), 2),
{
    let teams = teams_of_players(bundle.players@, sides_of(bundle.teams@));
    lemma_teams_of_players(bundle.players@, sides_of(bundle.teams@));
    lemma_picked(
        bundle.events.kills@,
        |kill: KillEvent| infantry_event(kill, teams),
        |event: TicketModel| is_side(event.team) && event.delta == -1,
    );
    lemma_even_gain(infantry_events(bundle), -1);
}

/// Events that all gain a side the same gain it as often as there are some.
proof fn lemma_even_gain(events: Seq<TicketModel>, delta: int)
    requires
        forall|i: int|
            0 <= i < events.len() ==> is_side((#[trigger] events[i]).team) && events[i].delta
                == delta,
    ensures
        total_gain(events, true) == delta * count_of(events, 1),
        total_gain(events, false) == delta * count_of(events, 2),
    decreases events.len(),
{
    if events.len() > 0 {
        let front = events.drop_last();
        assert forall|i: int| 0 <= i < front.len() implies is_side((#[trigger] front[i]).team)
            && front[i].delta == delta by {
            assert(front[i] == events[i]);
        }
        lemma_even_gain(front, delta);
        assert(is_side(events[events.len() - 1].team));
        assert(delta * (count_of(front, 1) + 1) == delta * count_of(front, 1) + delta)
            by (nonlinear_arith);
        assert(delta * (count_of(front, 2) + 1) == delta * count_of(front, 2) + delta)
            by (nonlinear_arith);
    } else {
        assert(delta * 0 == 0) by (nonlinear_arith);
    }
}

/// The losses of vehicles cost the sides 1 and 2 from 3 to 15 tickets each, and
/// those of radios that bled cost them 20.
pub proof fn law_losses(bundle: Bundle)
    ensures
        forall|i: int|
            0 <= i < vehicle_events(bundle).len() ==> is_side(
                (#[trigger] vehicle_events(bundle)[i]).team,
            ) && -15 <= vehicle_events(bundle)[i].delta <= -3,
        forall|i: int|
            0 <= i < radio_events(bundle).len() ==> is_side(
                (#[trigger] radio_events(bundle)[i]).team,
            ) && radio_events(bundle)[i].delta == -20,
        total_gain(radio_events(bundle), true) == -20 * count_of(radio_events(bundle), 1),
        total_gain(radio_events(bundle), false) == -20 * count_of(radio_events(bundle), 2),
{
    let sides = sides_of(bundle.teams@);
    lemma_picked(
        bundle.events.vehicle_deaths@,
        |death: VehicleDeathEvent| vehicle_event(death),
        |event: TicketModel| is_side(event.team) && -15 <= event.delta <= -3,
    );
    lemma_picked(
        bundle.actors.deployables@,
        |deployable: ActorEntity| radio_event(deployable, sides),
        |event: TicketModel| is_side(event.team) && event.delta == -20,
    );
    lemma_even_gain(radio_events(bundle), -20);
}

/// The captures of a zone: 20 tickets for the first, 50 for each that follows;
/// they are of side 1 or 2, and no side captures the zone twice in a row.
pub proof fn law_captures_alternate(
    events: Seq<CaptureZoneEvent>,
    name: Seq<char>,
    sides: Map<u32, u32>,
)
    ensures
        ({
            let captures = zone_captures(events, name, sides).0;
            &&& forall|i: int|
                0 <= i < captures.len() ==> is_side((#[trigger] captures[i]).team)
                    && captures[i].delta == (if i == 0 {
                    20int
                } else {
                    50
                })
            &&& forall|i: int|
                0 < i < captures.len() ==> (#[trigger] captures[i]).team != captures[i - 1].team
            &&& zone_captures(events, name, sides).1 == (if captures.len() == 0 {
                None
            } else {
                Some(captures.last().team)
            })
        }),
    decreases events.len(),
{
    if events.len() > 0 {
        law_captures_alternate(events.drop_last(), name, sides);
    }
}

/// The captures in a match are of side 1 or 2 and gain it 20 or 50 tickets.
pub proof fn law_captures(bundle: Bundle)
    ensures
        forall|i: int|
            0 <= i < capture_events(bundle).len() ==> is_side(
                (#[trigger] capture_events(bundle)[i]).team,
            ) && (capture_events(bundle)[i].delta == 20 || capture_events(bundle)[i].delta == 50),
{
    lemma_captures(bundle.events.capture_zones@, sides_of(bundle.teams@));
}

/// What holds of the captures of some zones.
proof fn lemma_captures(zones: Seq<CaptureZone>, sides: Map<u32, u32>)
    ensures
        forall|i: int|
            0 <= i < captures_of(zones, sides).len() ==> is_side(
                (#[trigger] captures_of(zones, sides)[i]).team,
            ) && (captures_of(zones, sides)[i].delta == 20 || captures_of(zones, sides)[i].delta
                == 50),
    decreases zones.len(),
{
    if zones.len() > 0 {
        lemma_captures(zones.drop_last(), sides);
        let zone = zones.last();
        law_captures_alternate(zone.events@, zone_name(zone), sides);
        let before = captures_of(zones.drop_last(), sides);
        let more = zone_captures(zone.events@, zone_name(zone), sides).0;
        assert forall|i: int| 0 <= i < (before + more).len() implies is_side(
            (#[trigger] (before + more)[i]).team,
        ) && ((before + more)[i].delta == 20 || (before + more)[i].delta == 50) by {
            if i >= before.len() {
                assert((before + more)[i] == more[i - before.len()]);
            }
        }
    }
}

/// The timeline starts with the tickets of the start, ends with those of the
/// end, and has a point for each event.
pub proof fn law_timeline(start: (i32, i32), events: Seq<TicketModel>, duration_ms: u64)
    requires
        points_fit(start, events),
    ensures
        ({
            let points = points_of(start, events, duration_ms);
            let end = point_after(start, events, events.len() as int);
            &&& points.len() == events.len() + if duration_ms > 0 {
                2nat
            } else {
                1
            }
            &&& points[0] == (TicketTimelinePoint { t_ms: 0, team1: start.0, team2: start.1 })
            &&& (points.last().team1 as int, points.last().team2 as int) == end
            &&& forall|i: int|
                0 <= i < events.len() ==> (#[trigger] points[i + 1]).t_ms == events[i].t_ms
        }),
{
    assert(events.take(0) =~= Seq::empty());
    assert(fits_i32(point_after(start, events, events.len() as int).0));
}

/// The events stand in the order of their times.
pub proof fn law_events_in_order(bundle: Bundle)
    ensures
        in_time_order(ticket_events(bundle)),
        ticket_events(bundle).to_multiset() == unsorted_events(bundle).to_multiset(),
{
    law_sorting(unsorted_events(bundle));
}

} // verus!
