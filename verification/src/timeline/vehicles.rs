//! The vehicles of a timeline, with their positions and who sits in them.

use crate::bundle::{ActorEntity, Bundle, SeatChangeEvent, Track3, TrackSample3};
use crate::classify::{helicopter_like, is_helicopter_type};
use crate::grouped::Grouped;
use crate::numbers::{low_32, low_bits};
use crate::string_map::StringMap;
use crate::text::{chars_of, contains, decimal, decimal_text, has_part, opt_text, same_text};
use crate::time_order::{
    by_time, dedup_by_time, in_strict_time_order, law_one_per_time, law_sorting, one_per_time,
    sort_by_time,
};
use crate::timeline::lookups::{
    build_child_owner_hints, build_owner_player_state_windows, build_owner_team_hints,
    build_player_name_by_state, build_player_tracks_by_name, build_team_aliases,
    find_first_track, find_last_track, first_samples, guid_text, hint, hint_of, indexes_tracks,
    last_samples, name_by_guid, owners_of_children, team_aliases, teams_of_actors, text_of_guid,
    texts, tracks_by_name, windows_of_actor, OwnerWindow,
};
use crate::timeline::names::{extract_vehicle_class, vehicle_class};
use crate::timeline::samples::{
    downsample_track, is_plausible, is_plausible_world_position, plausible_samples, retain_plausible,
    spaced_out,
};
use crate::timeline::{
    normalize_team_id, team_number, TimelinePositionSample, TimelineSeatEvent, TimelineVehicle,
};
use std::collections::HashMap;
use vstd::prelude::*;

verus! {

// ---------------------------------------------------------------------------
// Models
// ---------------------------------------------------------------------------

/// A seat event, with its texts as characters.
pub struct SeatModel {
    pub t: u64,
    pub seat: Seq<char>,
    pub player_eos: Option<Seq<char>>,
    pub entering: bool,
}

/// A vehicle, with its texts as characters.
pub struct VehicleModel {
    pub class: Seq<char>,
    pub kind: Seq<char>,
    pub team_id: Option<u32>,
    pub samples: Seq<TimelinePositionSample>,
    pub seat_events: Seq<SeatModel>,
}

impl View for TimelineSeatEvent {
    type V = SeatModel;

    open spec fn view(&self) -> SeatModel {
        SeatModel {
            t: self.t,
            seat: self.seat@,
            player_eos: opt_text(self.player_eos),
            entering: self.entering,
        }
    }
}

/// The seat events, with their texts as characters.
pub open spec fn seat_models(events: Seq<TimelineSeatEvent>) -> Seq<SeatModel> {
    events.map_values(|event: TimelineSeatEvent| event@)
}

impl View for TimelineVehicle {
    type V = VehicleModel;

    open spec fn view(&self) -> VehicleModel {
        VehicleModel {
            class: self.class@,
            kind: self.kind@,
            team_id: self.team_id,
            samples: self.samples@,
            seat_events: seat_models(self.seat_events@),
        }
    }
}

/// The vehicles, with their texts as characters.
pub open spec fn vehicle_models(vehicles: Map<Seq<char>, TimelineVehicle>) -> Map<
    Seq<char>,
    VehicleModel,
> {
    vehicles.map_values(|vehicle: TimelineVehicle| vehicle@)
}

// ---------------------------------------------------------------------------
// Positions of a vehicle
// ---------------------------------------------------------------------------

/// The samples from a time on and before another.
pub open spec fn samples_between(samples: Seq<TrackSample3>, start: u64, end: u64) -> Seq<
    TrackSample3,
> {
    samples.filter(|s: TrackSample3| start <= s.t_ms && s.t_ms < end)
}

/// The samples of the player that an actor has in a window, which lasts until
/// the next one.
pub open spec fn window_samples(bundle: Bundle, windows: Seq<OwnerWindow>, i: int) -> Seq<
    TrackSample3,
> {
    let names = name_by_guid(bundle.players@);
    let tracks = tracks_by_name(bundle.tracks.players@, bundle.players@);
    let end = if i + 1 < windows.len() {
        windows[i + 1].t_ms
    } else {
        u64::MAX
    };
    match guid_text(names, windows[i].player_state) {
        Some(name) => if tracks.contains_key(name) {
            samples_between(
                bundle.tracks.players@[tracks[name] as int].samples@,
                windows[i].t_ms,
                end,
            )
        } else {
            Seq::empty()
        },
        None => Seq::empty(),
    }
}

/// The samples of the players that an actor has in the first `n` windows.
pub open spec fn samples_of_windows(bundle: Bundle, windows: Seq<OwnerWindow>, n: int) -> Seq<
    TrackSample3,
>
    decreases n,
{
    if n <= 0 {
        Seq::empty()
    } else {
        samples_of_windows(bundle, windows, n - 1) + window_samples(bundle, windows, n - 1)
    }
}

/// The positions of an actor as those of the players that it has.
pub open spec fn inferred_samples(bundle: Bundle, actor: u32) -> Seq<TrackSample3> {
    let windows = by_time(windows_of_actor(bundle.events.properties@, actor));
    one_per_time(by_time(samples_of_windows(bundle, windows, windows.len() as int)))
}

/// The actor that a vehicle belongs to: its owner, or else the one that it is
/// attached to.
pub open spec fn owner_of(bundle: Bundle, actor: ActorEntity) -> Option<u32> {
    match actor.owner {
        Some(owner) => Some(owner),
        None => hint(owners_of_children(bundle.events.properties@), actor.actor_guid),
    }
}

/// The sample at which an actor appears.
pub open spec fn opening_sample(actor: ActorEntity) -> TrackSample3 {
    TrackSample3 {
        t_ms: actor.open_time_ms,
        x: actor.initial_location->0.x,
        y: actor.initial_location->0.y,
        z: actor.initial_location->0.z,
        yaw: match actor.initial_rotation {
            Some(rotation) => Some(rotation.yaw),
            None => None,
        },
    }
}

/// An actor appears at a position in the world.
pub open spec fn opens_in_world(actor: ActorEntity) -> bool {
    actor.initial_location matches Some(location) && is_plausible(location.x, location.y)
}

/// The positions of a vehicle: those of its own track that are in the world. If
/// there is one at most, those of the players that its owner has, if they are
/// more. If there are none, the one at which it appears, if it is in the world.
pub open spec fn positions_of(bundle: Bundle, actor: ActorEntity, tracks: Seq<Track3>) -> Seq<
    TrackSample3,
> {
    let own = plausible_samples(first_samples(tracks, actor.actor_guid, 0));
    let moved = match owner_of(bundle, actor) {
        Some(owner) => if own.len() <= 1 && inferred_samples(bundle, owner).len() > own.len() {
            inferred_samples(bundle, owner)
        } else {
            own
        },
        None => own,
    };
    if moved.len() == 0 && opens_in_world(actor) {
        seq![opening_sample(actor)]
    } else {
        moved
    }
}

/// A logistics vehicle that is first seen late stands at that place from the
/// start on.
pub open spec fn pinned(class: Seq<char>, samples: Seq<TimelinePositionSample>) -> Seq<
    TimelinePositionSample,
> {
    if has_part(class, "Logi"@) && samples.len() > 0 && samples[0].t > 10_000 {
        samples.insert(0, TimelinePositionSample { t: 0, ..samples[0] })
    } else {
        samples
    }
}

/// A vehicle that is pinned has one more sample, at the start, and keeps the
/// others.
pub proof fn law_pinned(class: Seq<char>, samples: Seq<TimelinePositionSample>)
    ensures
        pinned(class, samples) == samples || {
            &&& pinned(class, samples).len() == samples.len() + 1
            &&& pinned(class, samples)[0].t == 0
            &&& pinned(class, samples).skip(1) == samples
        },
{
    if pinned(class, samples) != samples {
        assert(pinned(class, samples).skip(1) =~= samples);
    }
}

/// What the parts of the vehicles look up in a bundle.
struct VehicleLookups {
    teams: HashMap<u32, u32>,
    aliases: HashMap<u32, u32>,
    owners: HashMap<u32, u32>,
    windows: Grouped<OwnerWindow>,
    names: HashMap<u32, String>,
    tracks: StringMap<usize>,
}

impl VehicleLookups {
    /// The lookups are those of a bundle.
    spec fn of_bundle(&self, bundle: Bundle) -> bool {
        &&& self.teams@ == teams_of_actors(bundle.events.properties@)
        &&& self.aliases@ == team_aliases(bundle.teams@)
        &&& self.owners@ == owners_of_children(bundle.events.properties@)
        &&& forall|actor: u32| #[trigger]
            self.windows.items(actor) == windows_of_actor(bundle.events.properties@, actor)
        &&& texts(self.names@) == name_by_guid(bundle.players@)
        &&& self.tracks.well_formed()
        &&& self.tracks@ == tracks_by_name(bundle.tracks.players@, bundle.players@)
        &&& indexes_tracks(self.tracks@, bundle.tracks.players@.len() as int)
    }

    /// The lookups of a bundle.
    fn new(bundle: &Bundle) -> (lookups: Self)
        ensures
            lookups.of_bundle(*bundle),
    {
        VehicleLookups {
            teams: build_owner_team_hints(&bundle.events.properties),
            aliases: build_team_aliases(&bundle.teams),
            owners: build_child_owner_hints(&bundle.events.properties),
            windows: build_owner_player_state_windows(&bundle.events.properties),
            names: build_player_name_by_state(&bundle.players),
            tracks: build_player_tracks_by_name(&bundle.tracks.players, &bundle.players),
        }
    }
}

/// Puts the samples from a time on and before another behind those of a list.
fn push_between(list: &mut Vec<TrackSample3>, samples: &Vec<TrackSample3>, start: u64, end: u64)
    ensures
        final(list)@ == old(list)@ + samples_between(samples@, start, end),
{
    let ghost before = list@;
    let ghost inside = |s: TrackSample3| start <= s.t_ms && s.t_ms < end;
    let mut i: usize = 0;
    proof {
        reveal(Seq::filter);
        assert(before + samples@.take(0).filter(inside) =~= before);
    }
    while i < samples.len()
        invariant
            i <= samples@.len(),
            inside == (|s: TrackSample3| start <= s.t_ms && s.t_ms < end),
            list@ == before + samples@.take(i as int).filter(inside),
        decreases samples@.len() - i,
    {
        let sample = samples[i];
        proof {
            reveal(Seq::filter);
            assert(samples@.take(i + 1).drop_last() =~= samples@.take(i as int));
            assert(samples@.take(i + 1).last() == sample);
        }
        if start <= sample.t_ms && sample.t_ms < end {
            list.push(sample);
        }
        assert(list@ =~= before + samples@.take(i + 1).filter(inside));
        i += 1;
    }
    assert(samples@.take(i as int) =~= samples@);
}

/// The positions of an actor as those of the players that it has.
fn infer_vehicle_samples_from_owner_player_state(
    bundle: &Bundle,
    lookups: &VehicleLookups,
    actor: u32,
) -> (samples: Vec<TrackSample3>)
    requires
        lookups.of_bundle(*bundle),
    ensures
        samples@ == inferred_samples(*bundle, actor),
{
    let mut unsorted: Vec<OwnerWindow> = Vec::new();
    assert(lookups.windows.items(actor) == windows_of_actor(bundle.events.properties@, actor));
    if let Some(list) = lookups.windows.get(actor) {
        let mut k: usize = 0;
        while k < list.len()
            invariant
                k <= list@.len(),
                unsorted@ == list@.take(k as int),
            decreases list@.len() - k,
        {
            unsorted.push(list[k]);
            assert(unsorted@ =~= list@.take(k + 1));
            k += 1;
        }
        assert(list@.take(k as int) =~= list@);
    }
    let windows = sort_by_time(unsorted);
    let mut samples: Vec<TrackSample3> = Vec::new();
    let mut i: usize = 0;
    while i < windows.len()
        invariant
            i <= windows@.len(),
            lookups.of_bundle(*bundle),
            samples@ == samples_of_windows(*bundle, windows@, i as int),
        decreases windows@.len() - i,
    {
        let window = windows[i];
        let end: u64 = if i + 1 < windows.len() {
            windows[i + 1].t_ms
        } else {
            u64::MAX
        };
        let ghost before = samples@;
        if let Some(name) = text_of_guid(&lookups.names, window.player_state) {
            if let Some(t) = lookups.tracks.get(&name) {
                push_between(
                    &mut samples,
                    &bundle.tracks.players[*t].samples,
                    window.t_ms,
                    end,
                );
            }
        }
        assert(samples@ =~= before + window_samples(*bundle, windows@, i as int));
        i += 1;
    }
    dedup_by_time(sort_by_time(samples))
}

/// The actor that a vehicle belongs to.
fn resolve_owner(lookups: &VehicleLookups, actor: &ActorEntity, bundle: &Bundle) -> (owner: Option<
    u32,
>)
    requires
        lookups.of_bundle(*bundle),
    ensures
        owner == owner_of(*bundle, *actor),
{
    match actor.owner {
        Some(owner) => Some(owner),
        None => hint_of(&lookups.owners, actor.actor_guid),
    }
}

/// The sample at which an actor appears, if that is in the world.
fn open_position(actor: &ActorEntity) -> (sample: Option<TrackSample3>)
    ensures
        match sample {
            Some(s) => opens_in_world(*actor) && s == opening_sample(*actor),
            None => !opens_in_world(*actor),
        },
{
    match actor.initial_location {
        Some(location) => if is_plausible_world_position(location.x, location.y) {
            Some(
                TrackSample3 {
                    t_ms: actor.open_time_ms,
                    x: location.x,
                    y: location.y,
                    z: location.z,
                    yaw: match actor.initial_rotation {
                        Some(rotation) => Some(rotation.yaw),
                        None => None,
                    },
                },
            )
        } else {
            None
        },
        None => None,
    }
}

/// The positions of a vehicle.
fn collect_positions(
    bundle: &Bundle,
    lookups: &VehicleLookups,
    actor: &ActorEntity,
    tracks: &Vec<Track3>,
) -> (samples: Vec<TrackSample3>)
    requires
        lookups.of_bundle(*bundle),
    ensures
        samples@ == positions_of(*bundle, *actor, tracks@),
{
    let mut samples: Vec<TrackSample3> = match find_first_track(tracks, actor.actor_guid) {
        Some(i) => retain_plausible(&tracks[i].samples),
        None => Vec::new(),
    };
    proof {
        reveal(Seq::filter);
        assert(samples@ =~= plausible_samples(first_samples(tracks@, actor.actor_guid, 0)));
    }
    if samples.len() <= 1 {
        if let Some(owner) = resolve_owner(lookups, actor, bundle) {
            let inferred = infer_vehicle_samples_from_owner_player_state(bundle, lookups, owner);
            if inferred.len() > samples.len() {
                samples = inferred;
            }
        }
    }
    if samples.len() == 0 {
        if let Some(sample) = open_position(actor) {
            samples.push(sample);
            assert(samples@ =~= seq![opening_sample(*actor)]);
        }
    }
    samples
}

/// A logistics vehicle that is first seen late stands there from the start on.
pub fn pin_start(class: &str, samples: Vec<TimelinePositionSample>) -> (all: Vec<
    TimelinePositionSample,
>)
    ensures
        all@ == pinned(class@, samples@),
{
    let mut all = samples;
    if contains(class, "Logi") && all.len() > 0 {
        let first = all[0];
        if first.t > 10_000 {
            all.insert(
                0,
                TimelinePositionSample {
                    t: 0,
                    x: first.x,
                    y: first.y,
                    z: first.z,
                    yaw: first.yaw,
                },
            );
        }
    }
    all
}

// ---------------------------------------------------------------------------
// Team, class and seats of a vehicle
// ---------------------------------------------------------------------------

/// The team number of the timeline for one of the replay: that of the one that
/// stands for it.
pub open spec fn shown_team(bundle: Bundle, raw: Option<u32>) -> Option<u32> {
    match raw {
        Some(team) => Some(
            team_number(
                match hint(team_aliases(bundle.teams@), team) {
                    Some(alias) => alias,
                    None => team,
                },
            ),
        ),
        None => None,
    }
}

/// The team of a vehicle in the replay: its own, or else that of the actor that
/// it belongs to.
pub open spec fn team_of(bundle: Bundle, actor: ActorEntity) -> Option<u32> {
    match actor.team {
        Some(team) => Some(low_bits(team as int)),
        None => match owner_of(bundle, actor) {
            Some(owner) => hint(teams_of_actors(bundle.events.properties@), owner),
            None => None,
        },
    }
}

/// The short name of a class, or that it is not known.
pub open spec fn class_text(class_name: Option<String>) -> Seq<char> {
    match class_name {
        Some(name) => vehicle_class(name@),
        None => "Unknown"@,
    }
}

/// What a vehicle is.
pub open spec fn kind_text(helicopter: bool) -> Seq<char> {
    if helicopter {
        "helicopter"@
    } else {
        "ground"@
    }
}

/// The seat that a seat change is about.
pub open spec fn seat_text(change: SeatChangeEvent) -> Seq<char> {
    match (change.seat_attach_socket, change.attach_socket_name) {
        (Some(socket), _) => socket@,
        (None, Some(name)) => name@,
        (None, None) => "unknown"@,
    }
}

/// A seat change is one of somebody who takes the seat.
pub open spec fn takes_seat(change: SeatChangeEvent) -> bool {
    change.value matches Some(value) && value@.len() > 0 && value@ != "None"@
}

/// A seat change, as the timeline has it.
pub open spec fn seat_event(change: SeatChangeEvent, eos: Map<u32, Seq<char>>) -> SeatModel {
    SeatModel {
        t: change.t_ms,
        seat: seat_text(change),
        player_eos: guid_text(eos, change.player_state_guid),
        entering: takes_seat(change),
    }
}

/// The seat changes of an actor, in their order.
pub open spec fn seat_events_of(
    changes: Seq<SeatChangeEvent>,
    eos: Map<u32, Seq<char>>,
    actor: u32,
) -> Seq<SeatModel>
    decreases changes.len(),
{
    if changes.len() == 0 {
        Seq::empty()
    } else {
        let before = seat_events_of(changes.drop_last(), eos, actor);
        if changes.last().actor_guid == Some(actor) {
            before.push(seat_event(changes.last(), eos))
        } else {
            before
        }
    }
}

/// The team number of the timeline for one of the replay.
fn show_team(bundle: &Bundle, lookups: &VehicleLookups, raw: Option<u32>) -> (team: Option<u32>)
    requires
        lookups.of_bundle(*bundle),
    ensures
        team == shown_team(*bundle, raw),
{
    match raw {
        Some(team) => {
            let alias: u32 = match hint_of(&lookups.aliases, team) {
                Some(alias) => alias,
                None => team,
            };
            Some(normalize_team_id(alias))
        },
        None => None,
    }
}

/// The team of a vehicle in the replay.
fn resolve_team(bundle: &Bundle, lookups: &VehicleLookups, actor: &ActorEntity) -> (team: Option<
    u32,
>)
    requires
        lookups.of_bundle(*bundle),
    ensures
        team == team_of(*bundle, *actor),
{
    match actor.team {
        Some(team) => Some(low_32(team)),
        None => match resolve_owner(lookups, actor, bundle) {
            Some(owner) => hint_of(&lookups.teams, owner),
            None => None,
        },
    }
}

/// The short name of a class, or that it is not known.
fn short_class(class_name: &Option<String>) -> (class: String)
    ensures
        class@ == class_text(*class_name),
{
    match class_name {
        Some(name) => extract_vehicle_class(name),
        None => "Unknown".to_owned(),
    }
}

/// A seat change, as the timeline has it, given the EOS ID of the player.
pub fn build_seat_event(change: &SeatChangeEvent, player_eos: Option<String>) -> (event:
    TimelineSeatEvent)
    ensures
        event@ == (SeatModel {
            t: change.t_ms,
            seat: seat_text(*change),
            player_eos: opt_text(player_eos),
            entering: takes_seat(*change),
        }),
{
    let entering = match &change.value {
        Some(value) => chars_of(value).len() > 0 && !same_text(value, "None"),
        None => false,
    };
    let seat: String = match (&change.seat_attach_socket, &change.attach_socket_name) {
        (Some(socket), _) => socket.clone(),
        (None, Some(name)) => name.clone(),
        (None, None) => "unknown".to_owned(),
    };
    TimelineSeatEvent { t: change.t_ms, seat, player_eos, entering }
}

/// The seat changes of an actor.
fn collect_seat_events(
    changes: &Vec<SeatChangeEvent>,
    guid_to_eos: &HashMap<u32, String>,
    actor: u32,
) -> (events: Vec<TimelineSeatEvent>)
    ensures
        seat_models(events@) == seat_events_of(changes@, texts(guid_to_eos@), actor),
{
    let mut events: Vec<TimelineSeatEvent> = Vec::new();
    let mut i: usize = 0;
    assert(seat_models(events@) =~= Seq::empty());
    while i < changes.len()
        invariant
            i <= changes@.len(),
            seat_models(events@) == seat_events_of(
                changes@.take(i as int),
                texts(guid_to_eos@),
                actor,
            ),
        decreases changes@.len() - i,
    {
        let change = &changes[i];
        let ghost before = events@;
        assert(changes@.take(i + 1).drop_last() =~= changes@.take(i as int));
        let about = match change.actor_guid {
            Some(guid) => guid == actor,
            None => false,
        };
        if about {
            let event = build_seat_event(
                change,
                text_of_guid(guid_to_eos, change.player_state_guid),
            );
            let ghost model = event@;
            events.push(event);
            assert(seat_models(events@) =~= seat_models(before).push(model));
        }
        i += 1;
    }
    assert(changes@.take(i as int) =~= changes@);
    events
}

// ---------------------------------------------------------------------------
// Vehicles with an actor
// ---------------------------------------------------------------------------

/// A vehicle with an actor, given the EOS IDs of players by their GUIDs.
pub open spec fn actor_vehicle(
    bundle: Bundle,
    eos: Map<u32, Seq<char>>,
    actor: ActorEntity,
    tracks: Seq<Track3>,
    helicopter: bool,
    interval_ms: u64,
) -> VehicleModel {
    let class = class_text(actor.class_name);
    VehicleModel {
        class,
        kind: kind_text(helicopter || helicopter_like(class)),
        team_id: shown_team(bundle, team_of(bundle, actor)),
        samples: pinned(class, spaced_out(positions_of(bundle, actor, tracks), interval_ms)),
        seat_events: seat_events_of(
            bundle.events.seat_changes@,
            eos,
            actor.actor_guid,
        ),
    }
}

/// Vehicles, and those of some actors with their tracks. Of actors with one
/// GUID the last one counts.
pub open spec fn with_actors(
    vehicles: Map<Seq<char>, VehicleModel>,
    bundle: Bundle,
    eos: Map<u32, Seq<char>>,
    actors: Seq<ActorEntity>,
    tracks: Seq<Track3>,
    helicopter: bool,
    interval_ms: u64,
) -> Map<Seq<char>, VehicleModel>
    decreases actors.len(),
{
    if actors.len() == 0 {
        vehicles
    } else {
        let actor = actors.last();
        with_actors(
            vehicles,
            bundle,
            eos,
            actors.drop_last(),
            tracks,
            helicopter,
            interval_ms,
        ).insert(
            decimal(actor.actor_guid as nat),
            actor_vehicle(bundle, eos, actor, tracks, helicopter, interval_ms),
        )
    }
}

/// Puts a vehicle into the map.
fn put_vehicle(vehicles: &mut StringMap<TimelineVehicle>, guid: u32, vehicle: TimelineVehicle)
    requires
        old(vehicles).well_formed(),
    ensures
        final(vehicles).well_formed(),
        vehicle_models(final(vehicles)@) == vehicle_models(old(vehicles)@).insert(
            decimal(guid as nat),
            vehicle@,
        ),
{
    let ghost before = vehicles@;
    let ghost model = vehicle;
    vehicles.insert(decimal_text(guid as u64), vehicle);
    assert(vehicle_models(vehicles@) =~= vehicle_models(before).insert(
        decimal(guid as nat),
        model@,
    ));
}

/// A vehicle with an actor.
fn build_actor_vehicle(
    bundle: &Bundle,
    lookups: &VehicleLookups,
    guid_to_eos: &HashMap<u32, String>,
    actor: &ActorEntity,
    tracks: &Vec<Track3>,
    helicopter: bool,
    interval_ms: u64,
) -> (vehicle: TimelineVehicle)
    requires
        lookups.of_bundle(*bundle),
    ensures
        vehicle@ == actor_vehicle(
            *bundle,
            texts(guid_to_eos@),
            *actor,
            tracks@,
            helicopter,
            interval_ms,
        ),
{
    let class = short_class(&actor.class_name);
    let flies = helicopter || is_helicopter_type(&class);
    let kind: String = if flies {
        "helicopter".to_owned()
    } else {
        "ground".to_owned()
    };
    let positions = collect_positions(bundle, lookups, actor, tracks);
    let samples = pin_start(&class, downsample_track(&positions, interval_ms));
    let team_id: Option<u32> = show_team(bundle, lookups, resolve_team(bundle, lookups, actor));
    let seat_events = collect_seat_events(
        &bundle.events.seat_changes,
        guid_to_eos,
        actor.actor_guid,
    );
    TimelineVehicle { class, kind, team_id, samples, seat_events }
}

/// Puts the vehicles of some actors into the map.
fn put_actors(
    vehicles: &mut StringMap<TimelineVehicle>,
    bundle: &Bundle,
    lookups: &VehicleLookups,
    guid_to_eos: &HashMap<u32, String>,
    actors: &Vec<ActorEntity>,
    tracks: &Vec<Track3>,
    helicopter: bool,
    interval_ms: u64,
)
    requires
        old(vehicles).well_formed(),
        lookups.of_bundle(*bundle),
    ensures
        final(vehicles).well_formed(),
        vehicle_models(final(vehicles)@) == with_actors(
            vehicle_models(old(vehicles)@),
            *bundle,
            texts(guid_to_eos@),
            actors@,
            tracks@,
            helicopter,
            interval_ms,
        ),
{
    let ghost start = vehicle_models(vehicles@);
    let mut i: usize = 0;
    while i < actors.len()
        invariant
            i <= actors@.len(),
            vehicles.well_formed(),
            lookups.of_bundle(*bundle),
            vehicle_models(vehicles@) == with_actors(
                start,
                *bundle,
                texts(guid_to_eos@),
                actors@.take(i as int),
                tracks@,
                helicopter,
                interval_ms,
            ),
        decreases actors@.len() - i,
    {
        let actor = &actors[i];
        assert(actors@.take(i + 1).drop_last() =~= actors@.take(i as int));
        let vehicle = build_actor_vehicle(
            bundle,
            lookups,
            guid_to_eos,
            actor,
            tracks,
            helicopter,
            interval_ms,
        );
        put_vehicle(vehicles, actor.actor_guid, vehicle);
        i += 1;
    }
    assert(actors@.take(i as int) =~= actors@);
}

// ---------------------------------------------------------------------------
// Hulls without an actor
// ---------------------------------------------------------------------------

/// One of some actors has a GUID.
pub open spec fn has_actor(actors: Seq<ActorEntity>, guid: u32) -> bool {
    exists|i: int| 0 <= i < actors.len() && (#[trigger] actors[i]).actor_guid == guid
}

/// Whether one of some actors has a GUID.
fn any_actor(actors: &Vec<ActorEntity>, guid: u32) -> (found: bool)
    ensures
        found == has_actor(actors@, guid),
{
    let mut i: usize = 0;
    while i < actors.len()
        invariant
            i <= actors@.len(),
            forall|k: int| 0 <= k < i ==> (#[trigger] actors@[k]).actor_guid != guid,
        decreases actors@.len() - i,
    {
        if actors[i].actor_guid == guid {
            assert(actors@[i as int].actor_guid == guid);
            return true;
        }
        i += 1;
    }
    false
}

/// The hull that an actor is a part of, if it is a part of a BTR-4 whose hull
/// is no actor itself.
pub open spec fn hull_of(bundle: Bundle, actor: ActorEntity) -> Option<u32> {
    match (actor.class_name, actor.owner) {
        (Some(class), Some(owner)) => if has_part(class@, "BTR4"@) && !has_actor(
            bundle.actors.vehicles@,
            owner,
        ) && !has_actor(bundle.actors.helicopters@, owner) {
            Some(owner)
        } else {
            None
        },
        _ => None,
    }
}

/// The positions of a part of a hull: those of its last track, or the one at
/// which it appears.
pub open spec fn part_samples(bundle: Bundle, actor: ActorEntity) -> Seq<TrackSample3> {
    match last_samples(bundle.tracks.helicopters@, actor.actor_guid) {
        Some(samples) => samples,
        None => match last_samples(bundle.tracks.vehicles@, actor.actor_guid) {
            Some(samples) => samples,
            None => if opens_in_world(actor) {
                seq![opening_sample(actor)]
            } else {
                Seq::empty()
            },
        },
    }
}

/// The positions of the parts of a hull among some actors.
pub open spec fn samples_of_parts(bundle: Bundle, actors: Seq<ActorEntity>, hull: u32) -> Seq<
    TrackSample3,
>
    decreases actors.len(),
{
    if actors.len() == 0 {
        Seq::empty()
    } else {
        let before = samples_of_parts(bundle, actors.drop_last(), hull);
        if hull_of(bundle, actors.last()) == Some(hull) {
            before + part_samples(bundle, actors.last())
        } else {
            before
        }
    }
}

/// The positions of a hull: those of its parts that are in the world, one for
/// each time.
pub open spec fn hull_positions(bundle: Bundle, hull: u32) -> Seq<TrackSample3> {
    plausible_samples(
        one_per_time(by_time(samples_of_parts(bundle, bundle.actors.vehicles@, hull))),
    )
}

/// A hull without an actor.
pub open spec fn hull_vehicle(bundle: Bundle, hull: u32, interval_ms: u64) -> VehicleModel {
    VehicleModel {
        class: "BTR4"@,
        kind: "ground"@,
        team_id: shown_team(bundle, hint(teams_of_actors(bundle.events.properties@), hull)),
        samples: spaced_out(hull_positions(bundle, hull), interval_ms),
        seat_events: Seq::empty(),
    }
}

/// Vehicles, and the hulls without an actor that some actors are parts of, if
/// they have positions.
pub open spec fn with_hulls(
    vehicles: Map<Seq<char>, VehicleModel>,
    bundle: Bundle,
    actors: Seq<ActorEntity>,
    interval_ms: u64,
) -> Map<Seq<char>, VehicleModel>
    decreases actors.len(),
{
    if actors.len() == 0 {
        vehicles
    } else {
        let before = with_hulls(vehicles, bundle, actors.drop_last(), interval_ms);
        match hull_of(bundle, actors.last()) {
            Some(hull) => if hull_positions(bundle, hull).len() > 0 && !before.contains_key(
                decimal(hull as nat),
            ) {
                before.insert(
                    decimal(hull as nat),
                    hull_vehicle(bundle, hull, interval_ms),
                )
            } else {
                before
            },
            None => before,
        }
    }
}

/// The hull that an actor is a part of.
fn find_hull(bundle: &Bundle, actor: &ActorEntity) -> (hull: Option<u32>)
    ensures
        hull == hull_of(*bundle, *actor),
{
    match (&actor.class_name, actor.owner) {
        (Some(class), Some(owner)) => if contains(class, "BTR4") && !any_actor(
            &bundle.actors.vehicles,
            owner,
        ) && !any_actor(&bundle.actors.helicopters, owner) {
            Some(owner)
        } else {
            None
        },
        _ => None,
    }
}

/// Puts the positions of a part of a hull behind those of a list.
fn push_part(list: &mut Vec<TrackSample3>, bundle: &Bundle, actor: &ActorEntity)
    ensures
        final(list)@ == old(list)@ + part_samples(*bundle, *actor),
{
    let ghost before = list@;
    let ghost part = part_samples(*bundle, *actor);
    if let Some(i) = find_last_track(&bundle.tracks.helicopters, actor.actor_guid) {
        list.extend_from_slice(bundle.tracks.helicopters[i].samples.as_slice());
        assert(list@ =~= before + part);
    } else if let Some(i) = find_last_track(&bundle.tracks.vehicles, actor.actor_guid) {
        list.extend_from_slice(bundle.tracks.vehicles[i].samples.as_slice());
        assert(list@ =~= before + part);
    } else if let Some(sample) = open_position(actor) {
        list.push(sample);
        assert(list@ =~= before + part);
    } else {
        assert(list@ =~= before + part);
    }
}

/// The positions of a hull.
fn collect_hull_positions(bundle: &Bundle, hull: u32) -> (samples: Vec<TrackSample3>)
    ensures
        samples@ == hull_positions(*bundle, hull),
{
    let actors = &bundle.actors.vehicles;
    let mut all: Vec<TrackSample3> = Vec::new();
    let mut i: usize = 0;
    while i < actors.len()
        invariant
            i <= actors@.len(),
            actors@ == bundle.actors.vehicles@,
            all@ == samples_of_parts(*bundle, actors@.take(i as int), hull),
        decreases actors@.len() - i,
    {
        let actor = &actors[i];
        assert(actors@.take(i + 1).drop_last() =~= actors@.take(i as int));
        let is_part = match find_hull(bundle, actor) {
            Some(owner) => owner == hull,
            None => false,
        };
        if is_part {
            push_part(&mut all, bundle, actor);
        }
        i += 1;
    }
    assert(actors@.take(i as int) =~= actors@);
    retain_plausible(&dedup_by_time(sort_by_time(all)))
}

/// A vehicle that is known by its positions alone.
fn plain_vehicle(
    bundle: &Bundle,
    lookups: &VehicleLookups,
    class: String,
    guid: u32,
    positions: &Vec<TrackSample3>,
    interval_ms: u64,
) -> (vehicle: TimelineVehicle)
    requires
        lookups.of_bundle(*bundle),
    ensures
        vehicle@ == (VehicleModel {
            class: class@,
            kind: "ground"@,
            team_id: shown_team(*bundle, hint(teams_of_actors(bundle.events.properties@), guid)),
            samples: spaced_out(positions@, interval_ms),
            seat_events: Seq::empty(),
        }),
{
    let team_id: Option<u32> = show_team(bundle, lookups, hint_of(&lookups.teams, guid));
    let seat_events: Vec<TimelineSeatEvent> = Vec::new();
    assert(seat_models(seat_events@) =~= Seq::empty());
    TimelineVehicle {
        class,
        kind: "ground".to_owned(),
        team_id,
        samples: downsample_track(positions, interval_ms),
        seat_events,
    }
}

/// Whether a vehicle is in the map.
fn has_vehicle(vehicles: &StringMap<TimelineVehicle>, guid: u32) -> (found: bool)
    requires
        vehicles.well_formed(),
    ensures
        found == vehicle_models(vehicles@).contains_key(decimal(guid as nat)),
{
    vehicles.contains_key(&decimal_text(guid as u64))
}

/// Puts the hulls without an actor into the map.
fn put_hulls(
    vehicles: &mut StringMap<TimelineVehicle>,
    bundle: &Bundle,
    lookups: &VehicleLookups,
    interval_ms: u64,
)
    requires
        old(vehicles).well_formed(),
        lookups.of_bundle(*bundle),
    ensures
        final(vehicles).well_formed(),
        vehicle_models(final(vehicles)@) == with_hulls(
            vehicle_models(old(vehicles)@),
            *bundle,
            bundle.actors.vehicles@,
            interval_ms,
        ),
{
    let ghost start = vehicle_models(vehicles@);
    let actors = &bundle.actors.vehicles;
    let mut i: usize = 0;
    while i < actors.len()
        invariant
            i <= actors@.len(),
            actors@ == bundle.actors.vehicles@,
            vehicles.well_formed(),
            lookups.of_bundle(*bundle),
            vehicle_models(vehicles@) == with_hulls(
                start,
                *bundle,
                actors@.take(i as int),
                interval_ms,
            ),
        decreases actors@.len() - i,
    {
        let actor = &actors[i];
        assert(actors@.take(i + 1).drop_last() =~= actors@.take(i as int));
        if let Some(hull) = find_hull(bundle, actor) {
            if !has_vehicle(vehicles, hull) {
                let positions = collect_hull_positions(bundle, hull);
                if positions.len() > 0 {
                    let vehicle = plain_vehicle(
                        bundle,
                        lookups,
                        "BTR4".to_owned(),
                        hull,
                        &positions,
                        interval_ms,
                    );
                    put_vehicle(vehicles, hull, vehicle);
                }
            }
        }
        i += 1;
    }
    assert(actors@.take(i as int) =~= actors@);
}

// ---------------------------------------------------------------------------
// Vehicles that are known by a track alone
// ---------------------------------------------------------------------------

/// A vehicle that is known by a track alone.
pub open spec fn track_vehicle(bundle: Bundle, track: Track3, guid: u32, interval_ms: u64) ->
    VehicleModel {
    VehicleModel {
        class: class_text(track.class_name),
        kind: "ground"@,
        team_id: shown_team(bundle, hint(teams_of_actors(bundle.events.properties@), guid)),
        samples: spaced_out(plausible_samples(track.samples@), interval_ms),
        seat_events: Seq::empty(),
    }
}

/// Vehicles, and those of tracks with positions in the world whose GUID no
/// vehicle has.
pub open spec fn with_tracks(
    vehicles: Map<Seq<char>, VehicleModel>,
    bundle: Bundle,
    tracks: Seq<Track3>,
    interval_ms: u64,
) -> Map<Seq<char>, VehicleModel>
    decreases tracks.len(),
{
    if tracks.len() == 0 {
        vehicles
    } else {
        let before = with_tracks(vehicles, bundle, tracks.drop_last(), interval_ms);
        let track = tracks.last();
        match track.actor_guid {
            Some(guid) => if plausible_samples(track.samples@).len() > 0 && !before.contains_key(
                decimal(guid as nat),
            ) {
                before.insert(
                    decimal(guid as nat),
                    track_vehicle(bundle, track, guid, interval_ms),
                )
            } else {
                before
            },
            None => before,
        }
    }
}

/// Puts the vehicles that are known by a track alone into the map.
fn put_tracks(
    vehicles: &mut StringMap<TimelineVehicle>,
    bundle: &Bundle,
    lookups: &VehicleLookups,
    interval_ms: u64,
)
    requires
        old(vehicles).well_formed(),
        lookups.of_bundle(*bundle),
    ensures
        final(vehicles).well_formed(),
        vehicle_models(final(vehicles)@) == with_tracks(
            vehicle_models(old(vehicles)@),
            *bundle,
            bundle.tracks.vehicles@,
            interval_ms,
        ),
{
    let ghost start = vehicle_models(vehicles@);
    let tracks = &bundle.tracks.vehicles;
    let mut i: usize = 0;
    while i < tracks.len()
        invariant
            i <= tracks@.len(),
            tracks@ == bundle.tracks.vehicles@,
            vehicles.well_formed(),
            lookups.of_bundle(*bundle),
            vehicle_models(vehicles@) == with_tracks(
                start,
                *bundle,
                tracks@.take(i as int),
                interval_ms,
            ),
        decreases tracks@.len() - i,
    {
        let track = &tracks[i];
        assert(tracks@.take(i + 1).drop_last() =~= tracks@.take(i as int));
        if let Some(guid) = track.actor_guid {
            if !has_vehicle(vehicles, guid) {
                let positions = retain_plausible(&track.samples);
                if positions.len() > 0 {
                    let vehicle = plain_vehicle(
                        bundle,
                        lookups,
                        short_class(&track.class_name),
                        guid,
                        &positions,
                        interval_ms,
                    );
                    put_vehicle(vehicles, guid, vehicle);
                }
            }
        }
        i += 1;
    }
    assert(tracks@.take(i as int) =~= tracks@);
}

// ---------------------------------------------------------------------------
// All vehicles
// ---------------------------------------------------------------------------

/// The vehicles with an actor: the ground vehicles, then the helicopters.
pub open spec fn vehicles_with_actors(
    bundle: Bundle,
    eos: Map<u32, Seq<char>>,
    interval_ms: u64,
) -> Map<Seq<char>, VehicleModel> {
    let ground = with_actors(
        Map::empty(),
        bundle,
        eos,
        bundle.actors.vehicles@,
        bundle.tracks.vehicles@,
        false,
        interval_ms,
    );
    with_actors(
        ground,
        bundle,
        eos,
        bundle.actors.helicopters@,
        bundle.tracks.helicopters@,
        true,
        interval_ms,
    )
}

/// All vehicles by their GUIDs.
pub open spec fn all_vehicles(
    bundle: Bundle,
    eos: Map<u32, Seq<char>>,
    interval_ms: u64,
) -> Map<Seq<char>, VehicleModel> {
    with_tracks(
        with_hulls(
            vehicles_with_actors(bundle, eos, interval_ms),
            bundle,
            bundle.actors.vehicles@,
            interval_ms,
        ),
        bundle,
        bundle.tracks.vehicles@,
        interval_ms,
    )
}

/// All vehicles by their GUIDs.
pub fn build_vehicle_tracks(
    bundle: &Bundle,
    guid_to_eos: &HashMap<u32, String>,
    interval_ms: u64,
) -> (vehicles: StringMap<TimelineVehicle>)
    ensures
        vehicles.well_formed(),
        vehicle_models(vehicles@) == all_vehicles(*bundle, texts(guid_to_eos@), interval_ms),
{
    let lookups = VehicleLookups::new(bundle);
    let mut vehicles: StringMap<TimelineVehicle> = StringMap::new();
    assert(vehicle_models(vehicles@) =~= Map::empty());
    put_actors(
        &mut vehicles,
        bundle,
        &lookups,
        guid_to_eos,
        &bundle.actors.vehicles,
        &bundle.tracks.vehicles,
        false,
        interval_ms,
    );
    put_actors(
        &mut vehicles,
        bundle,
        &lookups,
        guid_to_eos,
        &bundle.actors.helicopters,
        &bundle.tracks.helicopters,
        true,
        interval_ms,
    );
    put_hulls(&mut vehicles, bundle, &lookups, interval_ms);
    put_tracks(&mut vehicles, bundle, &lookups, interval_ms);
    vehicles
}

// ---------------------------------------------------------------------------
// Laws
// ---------------------------------------------------------------------------

/// What follows the vehicles with an actor leaves them as they are.
pub proof fn law_actors_come_first(bundle: Bundle, eos: Map<u32, Seq<char>>, interval_ms: u64)
    ensures
        forall|key: Seq<char>| #[trigger]
            vehicles_with_actors(bundle, eos, interval_ms).contains_key(key) ==> all_vehicles(
                bundle,
                eos,
                interval_ms,
            ).contains_key(key) && all_vehicles(bundle, eos, interval_ms)[key]
                == vehicles_with_actors(bundle, eos, interval_ms)[key],
{
    let first = vehicles_with_actors(bundle, eos, interval_ms);
    let second = with_hulls(first, bundle, bundle.actors.vehicles@, interval_ms);
    lemma_hulls_add(first, bundle, bundle.actors.vehicles@, interval_ms);
    lemma_tracks_add(second, bundle, bundle.tracks.vehicles@, interval_ms);
    assert forall|key: Seq<char>| #[trigger] first.contains_key(key) implies all_vehicles(
        bundle,
        eos,
        interval_ms,
    ).contains_key(key) && all_vehicles(bundle, eos, interval_ms)[key] == first[key] by {
        assert(second.contains_key(key));
    }
}

/// Hulls are put beside the vehicles that are there.
proof fn lemma_hulls_add(
    vehicles: Map<Seq<char>, VehicleModel>,
    bundle: Bundle,
    actors: Seq<ActorEntity>,
    interval_ms: u64,
)
    ensures
        forall|key: Seq<char>| #[trigger]
            vehicles.contains_key(key) ==> with_hulls(
                vehicles,
                bundle,
                actors,
                interval_ms,
            ).contains_key(key) && with_hulls(vehicles, bundle, actors, interval_ms)[key]
                == vehicles[key],
    decreases actors.len(),
{
    if actors.len() > 0 {
        lemma_hulls_add(vehicles, bundle, actors.drop_last(), interval_ms);
    }
}

/// Vehicles of tracks are put beside the vehicles that are there.
proof fn lemma_tracks_add(
    vehicles: Map<Seq<char>, VehicleModel>,
    bundle: Bundle,
    tracks: Seq<Track3>,
    interval_ms: u64,
)
    ensures
        forall|key: Seq<char>| #[trigger]
            vehicles.contains_key(key) ==> with_tracks(
                vehicles,
                bundle,
                tracks,
                interval_ms,
            ).contains_key(key) && with_tracks(vehicles, bundle, tracks, interval_ms)[key]
                == vehicles[key],
    decreases tracks.len(),
{
    if tracks.len() > 0 {
        lemma_tracks_add(vehicles, bundle, tracks.drop_last(), interval_ms);
    }
}

/// Every actor has its vehicle among those with an actor.
proof fn lemma_actor_is_put(
    vehicles: Map<Seq<char>, VehicleModel>,
    bundle: Bundle,
    eos: Map<u32, Seq<char>>,
    actors: Seq<ActorEntity>,
    tracks: Seq<Track3>,
    helicopter: bool,
    interval_ms: u64,
)
    ensures
        forall|key: Seq<char>| #[trigger]
            vehicles.contains_key(key) ==> with_actors(
                vehicles,
                bundle,
                eos,
                actors,
                tracks,
                helicopter,
                interval_ms,
            ).contains_key(key),
        forall|i: int|
            0 <= i < actors.len() ==> with_actors(
                vehicles,
                bundle,
                eos,
                actors,
                tracks,
                helicopter,
                interval_ms,
            ).contains_key(decimal((#[trigger] actors[i]).actor_guid as nat)),
    decreases actors.len(),
{
    if actors.len() > 0 {
        let front = actors.drop_last();
        lemma_actor_is_put(vehicles, bundle, eos, front, tracks, helicopter, interval_ms);
        assert forall|i: int| 0 <= i < actors.len() implies with_actors(
            vehicles,
            bundle,
            eos,
            actors,
            tracks,
            helicopter,
            interval_ms,
        ).contains_key(decimal((#[trigger] actors[i]).actor_guid as nat)) by {
            if i < front.len() {
                assert(front[i] == actors[i]);
            }
        }
    }
}

/// Every vehicle and every helicopter of the replay is on the timeline, under
/// its GUID.
pub proof fn law_every_actor_is_shown(bundle: Bundle, eos: Map<u32, Seq<char>>, interval_ms: u64)
    ensures
        forall|i: int|
            0 <= i < bundle.actors.vehicles@.len() ==> all_vehicles(
                bundle,
                eos,
                interval_ms,
            ).contains_key(decimal((#[trigger] bundle.actors.vehicles@[i]).actor_guid as nat)),
        forall|i: int|
            0 <= i < bundle.actors.helicopters@.len() ==> all_vehicles(
                bundle,
                eos,
                interval_ms,
            ).contains_key(decimal((#[trigger] bundle.actors.helicopters@[i]).actor_guid as nat)),
{
    let ground = with_actors(
        Map::empty(),
        bundle,
        eos,
        bundle.actors.vehicles@,
        bundle.tracks.vehicles@,
        false,
        interval_ms,
    );
    lemma_actor_is_put(
        Map::empty(),
        bundle,
        eos,
        bundle.actors.vehicles@,
        bundle.tracks.vehicles@,
        false,
        interval_ms,
    );
    lemma_actor_is_put(
        ground,
        bundle,
        eos,
        bundle.actors.helicopters@,
        bundle.tracks.helicopters@,
        true,
        interval_ms,
    );
    law_actors_come_first(bundle, eos, interval_ms);
    let first = vehicles_with_actors(bundle, eos, interval_ms);
    assert forall|i: int| 0 <= i < bundle.actors.vehicles@.len() implies all_vehicles(
        bundle,
        eos,
        interval_ms,
    ).contains_key(decimal((#[trigger] bundle.actors.vehicles@[i]).actor_guid as nat)) by {
        let key = decimal(bundle.actors.vehicles@[i].actor_guid as nat);
        assert(ground.contains_key(key));
        assert(first.contains_key(key));
    }
    assert forall|i: int| 0 <= i < bundle.actors.helicopters@.len() implies all_vehicles(
        bundle,
        eos,
        interval_ms,
    ).contains_key(decimal((#[trigger] bundle.actors.helicopters@[i]).actor_guid as nat)) by {
        let key = decimal(bundle.actors.helicopters@[i].actor_guid as nat);
        assert(first.contains_key(key));
    }
}

/// The positions that are inferred for an actor have different times, and stand
/// in their order.
pub proof fn law_inferred_positions_in_order(bundle: Bundle, actor: u32)
    ensures
        in_strict_time_order(inferred_samples(bundle, actor)),
{
    let windows = by_time(windows_of_actor(bundle.events.properties@, actor));
    let all = samples_of_windows(bundle, windows, windows.len() as int);
    law_sorting(all);
    law_one_per_time(by_time(all));
}

} // verus!
