//! A timeline with its texts as characters, and what holds of a timeline as a
//! whole.

use crate::bundle::{ActorEntity, Bundle, CaptureZoneEvent, Track3};
use crate::float_bits::{Float32, Float64};
use crate::log_parser::LogMatch;
use crate::text::opt_text;
use crate::timeline::deployables::{
    ammo_readings, construction_readings, health_readings, is_deployable_of, keeps, readings_at,
    Reading,
};
use crate::timeline::lookups::{eos_by_guid, players_by_eos};
use crate::timeline::people::{
    is_squad_of, players_by_key, position_lists, spawn_models, KillModel, SpawnModel,
};
use crate::timeline::vehicles::{
    vehicle_models, vehicles_with_actors, with_actors, with_hulls, with_tracks, VehicleModel,
};
use crate::timeline::{
    build_timeline, is_timeline_of, is_zone_of, owner_changes, MatchInfo, Timeline,
    TimelineCaptureEvent, TimelineCaptureZone, TimelineDeployable, TimelineKillEvent,
    TimelineOptions, TimelinePlayer, TimelinePositionSample, TimelineSquad, TimelineTeam,
    TIMELINE_VERSION,
};
use vstd::prelude::*;

verus! {

/// What a match was, with its texts as characters.
pub struct InfoModel {
    pub map_name: Option<Seq<char>>,
    pub layer_name: Option<Seq<char>>,
    pub duration_ms: u64,
    pub started_at: Option<Seq<char>>,
    pub server_name: Option<Seq<char>>,
    pub game_mode: Option<Seq<char>>,
}

/// A team, with its texts as characters.
pub struct TeamModel {
    pub id: u32,
    pub faction: Option<Seq<char>>,
    pub name: Option<Seq<char>>,
}

/// A squad, with its texts as characters.
pub struct SquadModel {
    pub id: u32,
    pub name: Option<Seq<char>>,
    pub team_id: u32,
    pub leader_eos: Option<Seq<char>>,
}

/// A player, with their texts as characters.
pub struct PlayerModel {
    pub name: Option<Seq<char>>,
    pub steam_id: Option<Seq<char>>,
    pub team_id: Option<u32>,
    pub squad_id: Option<u32>,
    pub visibility_windows: Seq<Seq<u64>>,
}

/// A capture zone, with its name as characters.
pub struct ZoneModel {
    pub name: Option<Seq<char>>,
    pub x: Option<Float64>,
    pub y: Option<Float64>,
    pub events: Seq<TimelineCaptureEvent>,
}

/// A deployable, with its class as characters and its events as readings.
pub struct DeployableModel {
    pub class: Seq<char>,
    pub team_id: Option<u32>,
    pub x: Float64,
    pub y: Float64,
    pub z: Float64,
    pub placed_at: u64,
    pub destroyed_at: Option<u64>,
    pub health: Option<Float64>,
    pub health_events: Seq<Reading>,
    pub ammo_events: Seq<Reading>,
    pub construction_events: Seq<Reading>,
}

/// A timeline, with its texts as characters.
pub struct TimelineModel {
    pub version: u32,
    pub match_info: InfoModel,
    pub teams: Seq<TeamModel>,
    pub squads: Seq<SquadModel>,
    pub players: Map<Seq<char>, PlayerModel>,
    pub player_tracks: Map<Seq<char>, Seq<TimelinePositionSample>>,
    pub vehicle_tracks: Map<Seq<char>, VehicleModel>,
    pub capture_zones: Seq<ZoneModel>,
    pub deployables: Seq<DeployableModel>,
    pub kills: Seq<KillModel>,
    pub spawns: Seq<SpawnModel>,
}

impl View for MatchInfo {
    type V = InfoModel;

    open spec fn view(&self) -> InfoModel {
        InfoModel {
            map_name: opt_text(self.map_name),
            layer_name: opt_text(self.layer_name),
            duration_ms: self.duration_ms,
            started_at: opt_text(self.started_at),
            server_name: opt_text(self.server_name),
            game_mode: opt_text(self.game_mode),
        }
    }
}

impl View for TimelineTeam {
    type V = TeamModel;

    open spec fn view(&self) -> TeamModel {
        TeamModel { id: self.id, faction: opt_text(self.faction), name: opt_text(self.name) }
    }
}

impl View for TimelineSquad {
    type V = SquadModel;

    open spec fn view(&self) -> SquadModel {
        SquadModel {
            id: self.id,
            name: opt_text(self.name),
            team_id: self.team_id,
            leader_eos: opt_text(self.leader_eos),
        }
    }
}

impl View for TimelinePlayer {
    type V = PlayerModel;

    open spec fn view(&self) -> PlayerModel {
        PlayerModel {
            name: opt_text(self.name),
            steam_id: opt_text(self.steam_id),
            team_id: self.team_id,
            squad_id: self.squad_id,
            visibility_windows: self.visibility_windows@.map_values(|pair: [u64; 2]| pair@),
        }
    }
}

impl View for TimelineCaptureZone {
    type V = ZoneModel;

    open spec fn view(&self) -> ZoneModel {
        ZoneModel { name: opt_text(self.name), x: self.x, y: self.y, events: self.events@ }
    }
}

impl View for TimelineDeployable {
    type V = DeployableModel;

    open spec fn view(&self) -> DeployableModel {
        DeployableModel {
            class: self.class@,
            team_id: self.team_id,
            x: self.x,
            y: self.y,
            z: self.z,
            placed_at: self.placed_at,
            destroyed_at: self.destroyed_at,
            health: self.health,
            health_events: health_readings(self.health_events@),
            ammo_events: ammo_readings(self.ammo_events@),
            construction_events: construction_readings(self.construction_events@),
        }
    }
}

impl View for Timeline {
    type V = TimelineModel;

    open spec fn view(&self) -> TimelineModel {
        TimelineModel {
            version: self.version,
            match_info: self.match_info@,
            teams: self.teams@.map_values(|team: TimelineTeam| team@),
            squads: self.squads@.map_values(|squad: TimelineSquad| squad@),
            players: self.players@.map_values(|player: TimelinePlayer| player@),
            player_tracks: position_lists(self.tracks.players@),
            vehicle_tracks: vehicle_models(self.tracks.vehicles@),
            capture_zones: self.capture_zones@.map_values(|zone: TimelineCaptureZone| zone@),
            deployables: self.deployables@.map_values(|shown: TimelineDeployable| shown@),
            kills: self.events.kills@.map_values(|kill: TimelineKillEvent| kill@),
            spawns: spawn_models(self.events.spawns@),
        }
    }
}

// ---------------------------------------------------------------------------
// The timeline is a function of the bundle and the options
// ---------------------------------------------------------------------------

/// A comparison is a function: it has one answer for each pair of readings.
pub open spec fn is_function<F: Fn(Float32, Float32) -> bool>(differs: F) -> bool {
    forall|a: Float32, b: Float32|
        !(#[trigger] call_ensures(differs, (a, b), true) && call_ensures(differs, (a, b), false))
}

/// A comparison that is a function keeps the same of the same readings.
proof fn lemma_kept_once<F: Fn(Float32, Float32) -> bool>(
    differs: F,
    readings: Seq<Reading>,
    a: Seq<Reading>,
    b: Seq<Reading>,
)
    requires
        is_function(differs),
        keeps(differs, readings, a),
        keeps(differs, readings, b),
    ensures
        a == b,
    decreases readings.len(),
{
    if readings.len() == 0 {
        assert(a =~= b);
    } else {
        let front = readings.drop_last();
        let last = readings.last();
        let a_before = a.drop_last();
        let b_before = b.drop_last();
        let a_grows = a.last() == last && keeps(differs, front, a_before) && (a_before.len() > 0
            ==> call_ensures(differs, (a_before.last().value, last.value), true));
        let b_grows = b.last() == last && keeps(differs, front, b_before) && (b_before.len() > 0
            ==> call_ensures(differs, (b_before.last().value, last.value), true));
        if a_grows && b_grows {
            lemma_kept_once(differs, front, a_before, b_before);
            assert(a =~= a_before.push(last));
            assert(b =~= b_before.push(last));
        } else if a_grows {
            lemma_kept_once(differs, front, a_before, b);
        } else if b_grows {
            lemma_kept_once(differs, front, a, b_before);
        } else {
            lemma_kept_once(differs, front, a, b);
        }
    }
}

/// Two timelines of one deployable are the same.
proof fn lemma_same_deployable<F: Fn(Float32, Float32) -> bool>(
    a: TimelineDeployable,
    b: TimelineDeployable,
    bundle: Bundle,
    i: int,
    differs: F,
)
    requires
        is_function(differs),
        is_deployable_of(a, bundle, i, differs),
        is_deployable_of(b, bundle, i, differs),
    ensures
        a@ == b@,
{
    lemma_kept_once(
        differs,
        readings_at(bundle, "Health"@, i),
        health_readings(a.health_events@),
        health_readings(b.health_events@),
    );
    lemma_kept_once(
        differs,
        readings_at(bundle, "Ammo"@, i),
        ammo_readings(a.ammo_events@),
        ammo_readings(b.ammo_events@),
    );
    lemma_kept_once(
        differs,
        readings_at(bundle, "ConstructionPoints"@, i),
        construction_readings(a.construction_events@),
        construction_readings(b.construction_events@),
    );
}

/// The timeline depends on the bundle and the options alone: two timelines of
/// one bundle are the same, whatever round of a log either was built with. The
/// comparison of readings has to be a function.
pub proof fn law_one_timeline<F: Fn(Float32, Float32) -> bool>(
    a: Timeline,
    b: Timeline,
    bundle: Bundle,
    options: TimelineOptions,
    differs: F,
)
    requires
        is_function(differs),
        is_timeline_of(a, bundle, options, differs),
        is_timeline_of(b, bundle, options, differs),
    ensures
        a@ == b@,
        a@.version == TIMELINE_VERSION,
{
    assert(a@.teams =~= b@.teams);
    assert forall|i: int| 0 <= i < a.squads@.len() implies a@.squads[i] == b@.squads[i] by {
        assert(is_squad_of(
            a.squads@[i],
            bundle.squads@[i],
            bundle.players@,
            players_by_eos(bundle.players@),
        ));
        assert(is_squad_of(
            b.squads@[i],
            bundle.squads@[i],
            bundle.players@,
            players_by_eos(bundle.players@),
        ));
    }
    assert(a@.squads =~= b@.squads);
    assert forall|key: Seq<char>| a@.players.contains_key(key) == b@.players.contains_key(key) by {
        assert(a.players@.contains_key(key) <==> players_by_key(bundle.players@).contains_key(key));
        assert(b.players@.contains_key(key) <==> players_by_key(bundle.players@).contains_key(key));
    }
    assert forall|key: Seq<char>| a@.players.contains_key(key) implies a@.players[key]
        == b@.players[key] by {
        assert(a.players@.contains_key(key));
        assert(b.players@.contains_key(key));
        assert(a.players@[key]@.visibility_windows =~= b.players@[key]@.visibility_windows);
    }
    assert(a@.players =~= b@.players);
    assert forall|i: int| 0 <= i < a.capture_zones@.len() implies a@.capture_zones[i]
        == b@.capture_zones[i] by {
        assert(is_zone_of(a.capture_zones@[i], bundle.events.capture_zones@[i]));
        assert(is_zone_of(b.capture_zones@[i], bundle.events.capture_zones@[i]));
    }
    assert(a@.capture_zones =~= b@.capture_zones);
    assert forall|i: int| 0 <= i < a.deployables@.len() implies a@.deployables[i]
        == b@.deployables[i] by {
        assert(is_deployable_of(a.deployables@[i], bundle, i, differs));
        assert(is_deployable_of(b.deployables@[i], bundle, i, differs));
        lemma_same_deployable(a.deployables@[i], b.deployables@[i], bundle, i, differs);
    }
    assert(a@.deployables =~= b@.deployables);
    assert forall|i: int| 0 <= i < a.events.kills@.len() implies a@.kills[i] == b@.kills[i] by {
        assert(a.events.kills@[i]@ == b.events.kills@[i]@);
    }
    assert(a@.kills =~= b@.kills);
}

/// What `build_timeline` returns is the same with any round of a log as with
/// another, and as with none.
pub proof fn law_log_is_of_no_account<F: Fn(Float32, Float32) -> bool>(
    a: Timeline,
    b: Timeline,
    bundle: &Bundle,
    first: Option<&LogMatch>,
    second: Option<&LogMatch>,
    options: &TimelineOptions,
    differs: &F,
)
    requires
        is_function(*differs),
        call_ensures(build_timeline::<F>, (bundle, first, options, differs), a),
        call_ensures(build_timeline::<F>, (bundle, second, options, differs), b),
    ensures
        a@ == b@,
{
    law_one_timeline(a, b, *bundle, *options, *differs);
}

// ---------------------------------------------------------------------------
// Teams
// ---------------------------------------------------------------------------

/// A team is that of one of the two sides, where there is one.
pub open spec fn one_or_two(team: Option<u32>) -> bool {
    team matches Some(id) ==> id == 1 || id == 2
}

/// Every vehicle belongs to team 1, to team 2 or to none.
pub open spec fn sides_only(vehicles: Map<Seq<char>, VehicleModel>) -> bool {
    forall|key: Seq<char>| #[trigger]
        vehicles.contains_key(key) ==> one_or_two(vehicles[key].team_id)
}

/// Vehicles of actors belong to a side.
proof fn lemma_sides_of_actors(
    vehicles: Map<Seq<char>, VehicleModel>,
    bundle: Bundle,
    eos: Map<u32, Seq<char>>,
    actors: Seq<ActorEntity>,
    tracks: Seq<Track3>,
    helicopter: bool,
    interval_ms: u64,
)
    requires
        sides_only(vehicles),
    ensures
        sides_only(with_actors(vehicles, bundle, eos, actors, tracks, helicopter, interval_ms)),
    decreases actors.len(),
{
    if actors.len() > 0 {
        let front = actors.drop_last();
        lemma_sides_of_actors(vehicles, bundle, eos, front, tracks, helicopter, interval_ms);
        let before = with_actors(vehicles, bundle, eos, front, tracks, helicopter, interval_ms);
        let all = with_actors(vehicles, bundle, eos, actors, tracks, helicopter, interval_ms);
        assert forall|key: Seq<char>| #[trigger] all.contains_key(key) implies one_or_two(
            all[key].team_id,
        ) by {
            assert(before.contains_key(key) ==> one_or_two(before[key].team_id));
        }
    }
}

/// Hulls belong to a side.
proof fn lemma_sides_of_hulls(
    vehicles: Map<Seq<char>, VehicleModel>,
    bundle: Bundle,
    actors: Seq<ActorEntity>,
    interval_ms: u64,
)
    requires
        sides_only(vehicles),
    ensures
        sides_only(with_hulls(vehicles, bundle, actors, interval_ms)),
    decreases actors.len(),
{
    if actors.len() > 0 {
        lemma_sides_of_hulls(vehicles, bundle, actors.drop_last(), interval_ms);
        let before = with_hulls(vehicles, bundle, actors.drop_last(), interval_ms);
        let all = with_hulls(vehicles, bundle, actors, interval_ms);
        assert forall|key: Seq<char>| #[trigger] all.contains_key(key) implies one_or_two(
            all[key].team_id,
        ) by {
            assert(before.contains_key(key) ==> one_or_two(before[key].team_id));
        }
    }
}

/// Vehicles of tracks belong to a side.
proof fn lemma_sides_of_tracks(
    vehicles: Map<Seq<char>, VehicleModel>,
    bundle: Bundle,
    tracks: Seq<Track3>,
    interval_ms: u64,
)
    requires
        sides_only(vehicles),
    ensures
        sides_only(with_tracks(vehicles, bundle, tracks, interval_ms)),
    decreases tracks.len(),
{
    if tracks.len() > 0 {
        lemma_sides_of_tracks(vehicles, bundle, tracks.drop_last(), interval_ms);
        let before = with_tracks(vehicles, bundle, tracks.drop_last(), interval_ms);
        let all = with_tracks(vehicles, bundle, tracks, interval_ms);
        assert forall|key: Seq<char>| #[trigger] all.contains_key(key) implies one_or_two(
            all[key].team_id,
        ) by {
            assert(before.contains_key(key) ==> one_or_two(before[key].team_id));
        }
    }
}

/// The owners of a zone are sides.
proof fn lemma_owners_are_sides(events: Seq<CaptureZoneEvent>)
    ensures
        forall|i: int|
            0 <= i < owner_changes(events).len() ==> one_or_two(
                (#[trigger] owner_changes(events)[i]).owner,
            ),
    decreases events.len(),
{
    if events.len() > 0 {
        lemma_owners_are_sides(events.drop_last());
    }
}

/// Every team number of a timeline is 1 or 2: those of teams and squads, and
/// where there is one, those of players, vehicles, owners of zones and
/// deployables.
pub proof fn law_teams_are_one_or_two<F: Fn(Float32, Float32) -> bool>(
    timeline: Timeline,
    bundle: Bundle,
    options: TimelineOptions,
    differs: F,
)
    requires
        is_timeline_of(timeline, bundle, options, differs),
    ensures
        forall|i: int|
            0 <= i < timeline@.teams.len() ==> one_or_two(Some((#[trigger] timeline@.teams[i]).id)),
        forall|i: int|
            0 <= i < timeline@.squads.len() ==> one_or_two(
                Some((#[trigger] timeline@.squads[i]).team_id),
            ),
        forall|key: Seq<char>| #[trigger]
            timeline@.players.contains_key(key) ==> one_or_two(timeline@.players[key].team_id),
        sides_only(timeline@.vehicle_tracks),
        forall|i: int, k: int|
            0 <= i < timeline@.capture_zones.len() && 0 <= k
                < timeline@.capture_zones[i].events.len() ==> one_or_two(
                (#[trigger] timeline@.capture_zones[i].events[k]).owner,
            ),
        forall|i: int|
            0 <= i < timeline@.deployables.len() ==> one_or_two(
                (#[trigger] timeline@.deployables[i]).team_id,
            ),
{
    let interval = options.sample_interval_ms;
    let eos = eos_by_guid(bundle.players@);
    assert forall|i: int| 0 <= i < timeline@.squads.len() implies one_or_two(
        Some((#[trigger] timeline@.squads[i]).team_id),
    ) by {
        assert(is_squad_of(
            timeline.squads@[i],
            bundle.squads@[i],
            bundle.players@,
            players_by_eos(bundle.players@),
        ));
    }
    assert forall|key: Seq<char>| #[trigger] timeline@.players.contains_key(key) implies one_or_two(
        timeline@.players[key].team_id,
    ) by {
        assert(timeline.players@.contains_key(key));
    }
    let ground = with_actors(
        Map::empty(),
        bundle,
        eos,
        bundle.actors.vehicles@,
        bundle.tracks.vehicles@,
        false,
        interval,
    );
    lemma_sides_of_actors(
        Map::empty(),
        bundle,
        eos,
        bundle.actors.vehicles@,
        bundle.tracks.vehicles@,
        false,
        interval,
    );
    lemma_sides_of_actors(
        ground,
        bundle,
        eos,
        bundle.actors.helicopters@,
        bundle.tracks.helicopters@,
        true,
        interval,
    );
    let with_actor = vehicles_with_actors(bundle, eos, interval);
    lemma_sides_of_hulls(with_actor, bundle, bundle.actors.vehicles@, interval);
    lemma_sides_of_tracks(
        with_hulls(with_actor, bundle, bundle.actors.vehicles@, interval),
        bundle,
        bundle.tracks.vehicles@,
        interval,
    );
    assert forall|i: int, k: int|
        0 <= i < timeline@.capture_zones.len() && 0 <= k
            < timeline@.capture_zones[i].events.len() implies one_or_two(
        (#[trigger] timeline@.capture_zones[i].events[k]).owner,
    ) by {
        assert(is_zone_of(timeline.capture_zones@[i], bundle.events.capture_zones@[i]));
        lemma_owners_are_sides(bundle.events.capture_zones@[i].events@);
    }
    assert forall|i: int| 0 <= i < timeline@.deployables.len() implies one_or_two(
        (#[trigger] timeline@.deployables[i]).team_id,
    ) by {
        assert(is_deployable_of(timeline.deployables@[i], bundle, i, differs));
    }
}

} // verus!
