//! The timeline of a match for the viewer (`.sqrt.json`): players, vehicles,
//! capture zones and deployables, with their positions and events over time.
//!
//! Positions are those of the replay, as bit patterns; to round them is left to
//! whoever writes them out.

pub mod samples;
pub mod names;
pub mod lookups;
pub mod vehicles;
pub mod deployables;
pub mod people;
pub mod model;
pub mod laws;
pub mod name_laws;
pub mod track_laws;
pub mod vehicle_laws;
pub mod owner_laws;

use crate::bundle::{Bundle, CaptureZone, CaptureZoneEvent, Team};
use crate::float_bits::{Float32, Float64};
use crate::game_mode::{game_mode, mode_of};
use crate::log_parser::LogMatch;
use crate::numbers::{low_32, low_bits};
use crate::string_map::StringMap;
use crate::text::{copy_opt, opt_text, same_text};
use crate::time_order::by_time;
use crate::timeline::deployables::{build_deployables, is_deployable_of};
use crate::timeline::lookups::{
    eos_by_guid, eos_by_name, index_players_by_eos, map_guid_to_eos, map_name_to_eos, players_by_eos,
};
use crate::timeline::people::{
    are_players_of, build_kills, build_player_tracks, build_players, build_spawns, build_squads,
    is_squad_of, kill_model, players_by_key, position_lists, positions_by_key, spawn_models,
    spawns_of,
};
use crate::timeline::vehicles::{all_vehicles, build_vehicle_tracks, vehicle_models};
use vstd::prelude::*;

verus! {

/// The version of the format.
pub const TIMELINE_VERSION: u32 = 1;

/// The interval between samples if nothing else is asked for: about three
/// samples in a second.
pub const DEFAULT_SAMPLE_INTERVAL_MS: u64 = 333;

// ---------------------------------------------------------------------------
// Data
// ---------------------------------------------------------------------------

/// The timeline of a match.
#[derive(Debug, Clone)]
pub struct Timeline {
    pub version: u32,
    pub match_info: MatchInfo,
    pub teams: Vec<TimelineTeam>,
    pub squads: Vec<TimelineSquad>,
    pub players: StringMap<TimelinePlayer>,
    pub tracks: TimelineTracks,
    pub capture_zones: Vec<TimelineCaptureZone>,
    pub deployables: Vec<TimelineDeployable>,
    pub events: TimelineEvents,
}

/// What the match was.
#[derive(Debug, Clone)]
pub struct MatchInfo {
    pub map_name: Option<String>,
    pub layer_name: Option<String>,
    pub duration_ms: u64,
    pub started_at: Option<String>,
    pub server_name: Option<String>,
    pub game_mode: Option<String>,
}

/// A team.
#[derive(Debug, Clone)]
pub struct TimelineTeam {
    pub id: u32,
    pub faction: Option<String>,
    pub name: Option<String>,
}

/// A squad.
#[derive(Debug, Clone)]
pub struct TimelineSquad {
    pub id: u32,
    pub name: Option<String>,
    pub team_id: u32,
    pub leader_eos: Option<String>,
}

/// A player.
#[derive(Debug, Clone)]
pub struct TimelinePlayer {
    pub name: Option<String>,
    pub steam_id: Option<String>,
    pub team_id: Option<u32>,
    pub squad_id: Option<u32>,
    pub visibility_windows: Vec<[u64; 2]>,
}

/// All positions over time.
#[derive(Debug, Clone)]
pub struct TimelineTracks {
    /// By EOS ID, or by name in lower case where there is none.
    pub players: StringMap<Vec<TimelinePositionSample>>,
    /// By the GUID of the actor.
    pub vehicles: StringMap<TimelineVehicle>,
}

/// A position at a time.
#[derive(Debug, Clone, Copy)]
pub struct TimelinePositionSample {
    pub t: u64,
    pub x: Float64,
    pub y: Float64,
    pub z: Float64,
    pub yaw: Option<Float64>,
}

/// A vehicle.
#[derive(Debug, Clone)]
pub struct TimelineVehicle {
    pub class: String,
    /// "ground" or "helicopter"
    pub kind: String,
    pub team_id: Option<u32>,
    pub samples: Vec<TimelinePositionSample>,
    pub seat_events: Vec<TimelineSeatEvent>,
}

/// Somebody takes or leaves a seat of a vehicle.
#[derive(Debug, Clone)]
pub struct TimelineSeatEvent {
    pub t: u64,
    pub seat: String,
    pub player_eos: Option<String>,
    pub entering: bool,
}

/// A capture zone.
#[derive(Debug, Clone)]
pub struct TimelineCaptureZone {
    pub name: Option<String>,
    pub x: Option<Float64>,
    pub y: Option<Float64>,
    pub events: Vec<TimelineCaptureEvent>,
}

/// A capture zone changes its owner.
#[derive(Debug, Clone, Copy)]
pub struct TimelineCaptureEvent {
    pub t: u64,
    pub owner: Option<u32>,
}

/// The health of a deployable changes.
#[derive(Debug, Clone, Copy)]
pub struct TimelineHealthEvent {
    pub t: u64,
    pub health: Float32,
}

/// The ammo of a deployable changes.
#[derive(Debug, Clone, Copy)]
pub struct TimelineAmmoEvent {
    pub t: u64,
    pub ammo: Float32,
}

/// The construction points of a deployable change.
#[derive(Debug, Clone, Copy)]
pub struct TimelineConstructionEvent {
    pub t: u64,
    pub points: Float32,
}

/// A deployable (FOB, HAB, rally point and the like).
#[derive(Debug, Clone)]
pub struct TimelineDeployable {
    pub class: String,
    pub team_id: Option<u32>,
    pub x: Float64,
    pub y: Float64,
    pub z: Float64,
    pub placed_at: u64,
    pub destroyed_at: Option<u64>,
    pub health: Option<Float64>,
    pub health_events: Vec<TimelineHealthEvent>,
    pub ammo_events: Vec<TimelineAmmoEvent>,
    pub construction_events: Vec<TimelineConstructionEvent>,
}

/// What happens to players.
#[derive(Debug, Clone)]
pub struct TimelineEvents {
    pub kills: Vec<TimelineKillEvent>,
    pub spawns: Vec<TimelineSpawnEvent>,
}

/// A player is killed or incapacitated.
#[derive(Debug, Clone)]
pub struct TimelineKillEvent {
    pub t: u64,
    pub victim: Option<String>,
    pub killer: Option<String>,
    pub weapon: Option<String>,
    pub is_incap: Option<bool>,
}

/// A player spawns.
#[derive(Debug, Clone)]
pub struct TimelineSpawnEvent {
    pub t: u64,
    pub player: String,
    pub kit: Option<String>,
}

/// What the caller may choose.
#[derive(Debug, Clone, Copy)]
pub struct TimelineOptions {
    /// Sample interval in milliseconds (default: 333ms = 3 samples/sec)
    pub sample_interval_ms: u64,
}

impl Default for TimelineOptions {
    fn default() -> (options: Self)
        ensures
            options.sample_interval_ms == DEFAULT_SAMPLE_INTERVAL_MS,
    {
        TimelineOptions { sample_interval_ms: DEFAULT_SAMPLE_INTERVAL_MS }
    }
}

/// The number of a team in the timeline: 1 or 2. The replay counts from 0, so
/// that its first team is 1; every other number stands for the second team.
pub open spec fn team_number(id: u32) -> u32 {
    if id == 0 {
        1
    } else {
        2
    }
}

/// The number of a team in the timeline: 1 or 2.
pub fn normalize_team_id(id: u32) -> (team: u32)
    ensures
        team == team_number(id),
        team == 1 || team == 2,
{
    match id {
        0 => 1,
        _ => 2,
    }
}

/// Every team has the number 1 or 2: the first team of a replay 1, and any other
/// one 2.
pub proof fn law_team_numbers(id: u32)
    ensures
        team_number(id) == 1 || team_number(id) == 2,
        team_number(0) == 1,
        team_number(1) == 2,
        id >= 2 ==> team_number(id) == 2,
{
}

// ---------------------------------------------------------------------------
// Match, teams and zones
// ---------------------------------------------------------------------------

/// What the match was is what the bundle tells.
pub open spec fn is_match_info_of(info: MatchInfo, bundle: Bundle) -> bool {
    &&& info.map_name == bundle.replay.map_name
    &&& info.layer_name == bundle.replay.layer_name
    &&& info.duration_ms == bundle.replay.duration_ms
    &&& info.started_at == bundle.replay.started_at
    &&& info.server_name == bundle.game_state.server_name
    &&& opt_text(info.game_mode) == mode_of(bundle)
}

/// What the match was.
pub fn build_match_info(bundle: &Bundle) -> (info: MatchInfo)
    ensures
        is_match_info_of(info, *bundle),
{
    MatchInfo {
        map_name: copy_opt(&bundle.replay.map_name),
        layer_name: copy_opt(&bundle.replay.layer_name),
        duration_ms: bundle.replay.duration_ms,
        started_at: copy_opt(&bundle.replay.started_at),
        server_name: copy_opt(&bundle.game_state.server_name),
        game_mode: game_mode(bundle),
    }
}

/// A team, as the timeline has it.
pub open spec fn timeline_team(team: Team) -> TimelineTeam {
    TimelineTeam { id: team_number(team.id), faction: team.faction, name: team.name }
}

/// The teams of a match.
pub fn build_teams(teams: &Vec<Team>) -> (shown: Vec<TimelineTeam>)
    ensures
        shown@ == teams@.map_values(|team: Team| timeline_team(team)),
{
    let mut shown: Vec<TimelineTeam> = Vec::new();
    let mut i: usize = 0;
    while i < teams.len()
        invariant
            i <= teams@.len(),
            shown@ == teams@.take(i as int).map_values(|team: Team| timeline_team(team)),
        decreases teams@.len() - i,
    {
        let team = &teams[i];
        shown.push(
            TimelineTeam {
                id: normalize_team_id(team.id),
                faction: copy_opt(&team.faction),
                name: copy_opt(&team.name),
            },
        );
        assert(shown@ =~= teams@.take(i + 1).map_values(|team: Team| timeline_team(team)));
        i += 1;
    }
    assert(teams@.take(i as int) =~= teams@);
    shown
}

/// The changes of the owner of a zone, in the order of the events.
pub open spec fn owner_changes(events: Seq<CaptureZoneEvent>) -> Seq<TimelineCaptureEvent>
    decreases events.len(),
{
    if events.len() == 0 {
        Seq::empty()
    } else {
        let before = owner_changes(events.drop_last());
        let event = events.last();
        if event.event_type@ == "owning_team"@ {
            before.push(
                TimelineCaptureEvent {
                    t: event.t_ms,
                    owner: match event.value_int {
                        Some(team) => Some(team_number(low_bits(team as int))),
                        None => None,
                    },
                },
            )
        } else {
            before
        }
    }
}

/// A zone of the timeline is one of the replay.
pub open spec fn is_zone_of(shown: TimelineCaptureZone, zone: CaptureZone) -> bool {
    &&& shown.name == (match zone.display_name {
        Some(name) => Some(name),
        None => zone.name,
    })
    &&& shown.x == zone.x
    &&& shown.y == zone.y
    &&& shown.events@ == owner_changes(zone.events@)
}

/// The changes of the owner of a zone.
fn collect_owner_changes(events: &Vec<CaptureZoneEvent>) -> (changes: Vec<TimelineCaptureEvent>)
    ensures
        changes@ == owner_changes(events@),
{
    let mut changes: Vec<TimelineCaptureEvent> = Vec::new();
    let mut i: usize = 0;
    while i < events.len()
        invariant
            i <= events@.len(),
            changes@ == owner_changes(events@.take(i as int)),
        decreases events@.len() - i,
    {
        let event = &events[i];
        assert(events@.take(i + 1).drop_last() =~= events@.take(i as int));
        if same_text(&event.event_type, "owning_team") {
            let owner: Option<u32> = match event.value_int {
                Some(team) => Some(normalize_team_id(low_32(team))),
                None => None,
            };
            changes.push(TimelineCaptureEvent { t: event.t_ms, owner });
        }
        i += 1;
    }
    assert(events@.take(i as int) =~= events@);
    changes
}

/// The capture zones of a match.
pub fn build_capture_zones(zones: &Vec<CaptureZone>) -> (shown: Vec<TimelineCaptureZone>)
    ensures
        shown@.len() == zones@.len(),
        forall|i: int| 0 <= i < shown@.len() ==> is_zone_of(#[trigger] shown@[i], zones@[i]),
{
    let mut shown: Vec<TimelineCaptureZone> = Vec::new();
    let mut i: usize = 0;
    while i < zones.len()
        invariant
            i <= zones@.len(),
            shown@.len() == i,
            forall|k: int| 0 <= k < i ==> is_zone_of(#[trigger] shown@[k], zones@[k]),
        decreases zones@.len() - i,
    {
        let zone = &zones[i];
        let name: Option<String> = match &zone.display_name {
            Some(name) => Some(name.clone()),
            None => copy_opt(&zone.name),
        };
        let entry = TimelineCaptureZone {
            name,
            x: zone.x,
            y: zone.y,
            events: collect_owner_changes(&zone.events),
        };
        assert(is_zone_of(entry, *zone));
        shown.push(entry);
        i += 1;
    }
    shown
}

// ---------------------------------------------------------------------------
// The whole
// ---------------------------------------------------------------------------

/// The timeline is that of a bundle.
pub open spec fn is_timeline_of<F: Fn(Float32, Float32) -> bool>(
    timeline: Timeline,
    bundle: Bundle,
    options: TimelineOptions,
    differs: F,
) -> bool {
    let index = players_by_eos(bundle.players@);
    let interval = options.sample_interval_ms;
    &&& timeline.version == TIMELINE_VERSION
    &&& is_match_info_of(timeline.match_info, bundle)
    &&& timeline.teams@ == bundle.teams@.map_values(|team: Team| timeline_team(team))
    &&& timeline.squads@.len() == bundle.squads@.len()
    &&& forall|i: int|
        0 <= i < timeline.squads@.len() ==> is_squad_of(
            #[trigger] timeline.squads@[i],
            bundle.squads@[i],
            bundle.players@,
            index,
        )
    &&& timeline.players.well_formed()
    &&& are_players_of(timeline.players@, players_by_key(bundle.players@))
    &&& timeline.tracks.players.well_formed()
    &&& position_lists(timeline.tracks.players@) == positions_by_key(
        bundle.tracks.players@,
        eos_by_guid(bundle.players@),
        eos_by_name(bundle.players@),
        interval,
    )
    &&& timeline.tracks.vehicles.well_formed()
    &&& vehicle_models(timeline.tracks.vehicles@) == all_vehicles(
        bundle,
        eos_by_guid(bundle.players@),
        interval,
    )
    &&& timeline.capture_zones@.len() == bundle.events.capture_zones@.len()
    &&& forall|i: int|
        0 <= i < timeline.capture_zones@.len() ==> is_zone_of(
            #[trigger] timeline.capture_zones@[i],
            bundle.events.capture_zones@[i],
        )
    &&& timeline.deployables@.len() == bundle.actors.deployables@.len()
    &&& forall|i: int|
        0 <= i < timeline.deployables@.len() ==> is_deployable_of(
            #[trigger] timeline.deployables@[i],
            bundle,
            i,
            differs,
        )
    &&& timeline.events.kills@.len() == bundle.events.kills@.len()
    &&& forall|i: int|
        0 <= i < timeline.events.kills@.len() ==> (#[trigger] timeline.events.kills@[i])@
            == kill_model(bundle.events.kills@[i], bundle.players@, index)
    &&& spawn_models(timeline.events.spawns@) == by_time(spawns_of(bundle.players@))
}

/// The timeline of a match. What the log adds is in the bundle already. Whether
/// two readings of a deployable differ is for the caller to say.
pub fn build_timeline<F: Fn(Float32, Float32) -> bool>(
    bundle: &Bundle,
    _log_match: Option<&LogMatch>,
    options: &TimelineOptions,
    differs: &F,
) -> (timeline: Timeline)
    requires
        forall|a: Float32, b: Float32| call_requires(*differs, (a, b)),
    ensures
        is_timeline_of(timeline, *bundle, *options, *differs),
{
    let index = index_players_by_eos(&bundle.players);
    let guid_to_eos = map_guid_to_eos(&bundle.players);
    let name_to_eos = map_name_to_eos(&bundle.players);
    let interval: u64 = options.sample_interval_ms;
    Timeline {
        version: TIMELINE_VERSION,
        match_info: build_match_info(bundle),
        teams: build_teams(&bundle.teams),
        squads: build_squads(&bundle.squads, &bundle.players, &index),
        players: build_players(&bundle.players),
        tracks: TimelineTracks {
            players: build_player_tracks(
                &bundle.tracks.players,
                &guid_to_eos,
                &name_to_eos,
                interval,
            ),
            vehicles: build_vehicle_tracks(bundle, &guid_to_eos, interval),
        },
        capture_zones: build_capture_zones(&bundle.events.capture_zones),
        deployables: build_deployables(bundle, differs),
        events: TimelineEvents {
            kills: build_kills(&bundle.events.kills, &bundle.players, &index),
            spawns: build_spawns(&bundle.players),
        },
    }
}

} // verus!
