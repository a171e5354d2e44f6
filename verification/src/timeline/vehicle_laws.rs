//! What the vehicles of a timeline must satisfy, stated on the bundle that it is
//! made from.

use crate::bundle::{ActorEntity, Bundle, PropertyEvent, SeatChangeEvent, Track3, TrackSample3};
use crate::classify::helicopter_like;
use crate::float_bits::Float32;
use crate::log_parser::LogMatch;
use crate::text::{decimal, has_part, law_decimal_round_trip, opt_text};
use crate::timeline::laws::has_eos;
use crate::timeline::lookups::{eos_by_guid, first_samples, owners_of_children};
use crate::timeline::names::vehicle_class;
use crate::timeline::samples::{
    are_spaced, is_plausible, law_positions_are_samples, plausible_samples, spaced_out,
};
use crate::timeline::track_laws::{has_guid_and_eos, is_last_with_guid, lemma_eos_of_guid};
use crate::timeline::vehicles::{
    actor_vehicle, all_vehicles, inferred_samples, owner_of, pinned, positions_of, seat_events_of,
    seat_models, shown_team, team_of, vehicle_models, vehicles_with_actors, with_actors, with_hulls,
    with_tracks, SeatModel, VehicleModel,
};
use crate::timeline::{build_timeline, Timeline, TimelineOptions, TimelinePositionSample};
use vstd::prelude::*;

verus! {

// ---------------------------------------------------------------------------
// Seats
// ---------------------------------------------------------------------------

/// A seat event of the timeline is a seat change of the replay: with its time;
/// about the socket of the seat, or else the name of the socket; by the player
/// with the GUID of the change; and taking the seat where the change has a value
/// that is neither empty nor `None`.
pub open spec fn is_seat_event_of(
    shown: SeatModel,
    change: SeatChangeEvent,
    bundle: Bundle,
) -> bool {
    let players = bundle.players@;
    &&& shown.t == change.t_ms
    &&& match (change.seat_attach_socket, change.attach_socket_name) {
        (Some(socket), _) => shown.seat == socket@,
        (None, Some(name)) => shown.seat == name@,
        (None, None) => shown.seat == "unknown"@,
    }
    &&& match (change.player_state_guid, shown.player_eos) {
        (Some(guid), Some(eos)) => exists|p: int| #[trigger]
            is_last_with_guid(players, p, guid) && has_eos(players[p], eos),
        (Some(guid), None) => forall|p: int|
            0 <= p < players.len() ==> !has_guid_and_eos(#[trigger] players[p], guid),
        (None, eos) => eos is None,
    }
    &&& shown.entering <==> change.value is Some && change.value->0@.len() > 0 && change.value->0@
        != "None"@
}

/// The seat events of an actor are its seat changes, in their order.
proof fn lemma_seat_events_at(
    changes: Seq<SeatChangeEvent>,
    bundle: Bundle,
    actor: u32,
) -> (at: Seq<int>)
    ensures
        ({
            let shown = seat_events_of(changes, eos_by_guid(bundle.players@), actor);
            &&& at.len() == shown.len()
            &&& forall|i: int, j: int| 0 <= i < j < at.len() ==> #[trigger] at[i] < #[trigger] at[j]
            &&& forall|k: int|
                0 <= k < changes.len() && (#[trigger] changes[k]).actor_guid == Some(actor)
                    ==> at.contains(k)
            &&& forall|i: int|
                0 <= i < at.len() ==> {
                    &&& 0 <= #[trigger] at[i] < changes.len()
                    &&& changes[at[i]].actor_guid == Some(actor)
                    &&& is_seat_event_of(shown[i], changes[at[i]], bundle)
                }
        }),
    decreases changes.len(),
{
    if changes.len() == 0 {
        Seq::empty()
    } else {
        let front = changes.drop_last();
        let before = lemma_seat_events_at(front, bundle, actor);
        let last = changes.len() - 1;
        assert forall|k: int| 0 <= k < last implies #[trigger] changes[k] == front[k] by {}
        if changes[last].actor_guid == Some(actor) {
            let at = before.push(last);
            if let Some(guid) = changes[last].player_state_guid {
                lemma_eos_of_guid(bundle.players@, guid);
            }
            assert forall|k: int|
                0 <= k < changes.len() && (#[trigger] changes[k]).actor_guid == Some(
                    actor,
                ) implies at.contains(k) by {
                if k < last {
                    assert(changes[k] == front[k]);
                    let i = choose|i: int| 0 <= i < before.len() && before[i] == k;
                    assert(at[i] == k);
                } else {
                    assert(at[before.len() as int] == k);
                }
            }
            at
        } else {
            assert forall|k: int|
                0 <= k < changes.len() && (#[trigger] changes[k]).actor_guid == Some(
                    actor,
                ) implies before.contains(k) by {
                assert(changes[k] == front[k]);
            }
            before
        }
    }
}

// ---------------------------------------------------------------------------
// Vehicles of actors
// ---------------------------------------------------------------------------

/// The actors of one kind.
pub open spec fn actors_of(bundle: Bundle, helicopter: bool) -> Seq<ActorEntity> {
    if helicopter {
        bundle.actors.helicopters@
    } else {
        bundle.actors.vehicles@
    }
}

/// The tracks of one kind.
pub open spec fn tracks_of(bundle: Bundle, helicopter: bool) -> Seq<Track3> {
    if helicopter {
        bundle.tracks.helicopters@
    } else {
        bundle.tracks.vehicles@
    }
}

/// An actor counts for its GUID: no later actor of its kind has it, and for a
/// ground vehicle no helicopter has it.
pub open spec fn counts(bundle: Bundle, i: int, helicopter: bool) -> bool {
    let actors = actors_of(bundle, helicopter);
    &&& 0 <= i < actors.len()
    &&& none_after(actors, i, actors[i].actor_guid)
    &&& !helicopter ==> none_after(bundle.actors.helicopters@, -1, actors[i].actor_guid)
}

/// Two numbers are not written alike.
pub proof fn lemma_decimal_differs(a: nat, b: nat)
    ensures
        a != b ==> decimal(a) != decimal(b),
{
    law_decimal_round_trip(a);
    law_decimal_round_trip(b);
}

/// No actor after an index has a GUID.
pub open spec fn none_after(actors: Seq<ActorEntity>, i: int, guid: u32) -> bool {
    forall|k: int| i < k < actors.len() ==> (#[trigger] actors[k]).actor_guid != guid
}

/// The vehicle of the last actor with a GUID stands under the GUID.
proof fn lemma_last_actor(
    vehicles: Map<Seq<char>, VehicleModel>,
    bundle: Bundle,
    eos: Map<u32, Seq<char>>,
    actors: Seq<ActorEntity>,
    tracks: Seq<Track3>,
    helicopter: bool,
    interval_ms: u64,
    i: int,
)
    requires
        0 <= i < actors.len(),
        none_after(actors, i, actors[i].actor_guid),
    ensures
        ({
            let all = with_actors(vehicles, bundle, eos, actors, tracks, helicopter, interval_ms);
            let key = decimal(actors[i].actor_guid as nat);
            all.contains_key(key) && all[key] == actor_vehicle(
                bundle,
                eos,
                actors[i],
                tracks,
                helicopter,
                interval_ms,
            )
        }),
    decreases actors.len(),
{
    let front = actors.drop_last();
    let last = actors.len() - 1;
    if i < last {
        assert(actors[last].actor_guid != actors[i].actor_guid);
        assert(front[i] == actors[i]);
        assert(none_after(front, i, front[i].actor_guid)) by {
            assert forall|k: int| i < k < front.len() implies (#[trigger] front[k]).actor_guid
                != front[i].actor_guid by {
                assert(front[k] == actors[k]);
            }
        }
        lemma_last_actor(vehicles, bundle, eos, front, tracks, helicopter, interval_ms, i);
        lemma_decimal_differs(actors[last].actor_guid as nat, actors[i].actor_guid as nat);
    }
}

/// Actors that do not have a GUID change nothing that stands under it.
proof fn lemma_other_actors(
    vehicles: Map<Seq<char>, VehicleModel>,
    bundle: Bundle,
    eos: Map<u32, Seq<char>>,
    actors: Seq<ActorEntity>,
    tracks: Seq<Track3>,
    helicopter: bool,
    interval_ms: u64,
    guid: u32,
)
    requires
        none_after(actors, -1, guid),
    ensures
        ({
            let all = with_actors(vehicles, bundle, eos, actors, tracks, helicopter, interval_ms);
            let key = decimal(guid as nat);
            all.contains_key(key) == vehicles.contains_key(key) && all[key] == vehicles[key]
        }),
    decreases actors.len(),
{
    if actors.len() > 0 {
        let front = actors.drop_last();
        let last = actors.len() - 1;
        assert(actors[last].actor_guid != guid);
        assert(none_after(front, -1, guid)) by {
            assert forall|k: int| -1 < k < front.len() implies (#[trigger] front[k]).actor_guid
                != guid by {
                assert(front[k] == actors[k]);
            }
        }
        lemma_other_actors(vehicles, bundle, eos, front, tracks, helicopter, interval_ms, guid);
        lemma_decimal_differs(actors[last].actor_guid as nat, guid as nat);
    }
}

/// What stands under a key stays when hulls and tracks come in.
pub proof fn lemma_known_vehicles_stay(
    vehicles: Map<Seq<char>, VehicleModel>,
    bundle: Bundle,
    actors: Seq<ActorEntity>,
    tracks: Seq<Track3>,
    interval_ms: u64,
    key: Seq<char>,
)
    requires
        vehicles.contains_key(key),
    ensures
        with_hulls(vehicles, bundle, actors, interval_ms).contains_key(key),
        with_hulls(vehicles, bundle, actors, interval_ms)[key] == vehicles[key],
        with_tracks(vehicles, bundle, tracks, interval_ms).contains_key(key),
        with_tracks(vehicles, bundle, tracks, interval_ms)[key] == vehicles[key],
    decreases actors.len() + tracks.len(),
{
    if actors.len() > 0 {
        lemma_known_vehicles_stay(vehicles, bundle, actors.drop_last(), tracks, interval_ms, key);
    }
    if tracks.len() > 0 {
        lemma_known_vehicles_stay(vehicles, bundle, actors, tracks.drop_last(), interval_ms, key);
    }
}

/// The vehicle of an actor that counts for its GUID.
proof fn lemma_vehicle_of_actor(bundle: Bundle, interval_ms: u64, i: int, helicopter: bool)
    requires
        counts(bundle, i, helicopter),
    ensures
        ({
            let eos = eos_by_guid(bundle.players@);
            let actor = actors_of(bundle, helicopter)[i];
            let all = all_vehicles(bundle, eos, interval_ms);
            let key = decimal(actor.actor_guid as nat);
            all.contains_key(key) && all[key] == actor_vehicle(
                bundle,
                eos,
                actor,
                tracks_of(bundle, helicopter),
                helicopter,
                interval_ms,
            )
        }),
{
    let eos = eos_by_guid(bundle.players@);
    let actor = actors_of(bundle, helicopter)[i];
    let guid = actor.actor_guid;
    let key = decimal(guid as nat);
    let ground = with_actors(
        Map::empty(),
        bundle,
        eos,
        bundle.actors.vehicles@,
        bundle.tracks.vehicles@,
        false,
        interval_ms,
    );
    if helicopter {
        lemma_last_actor(
            ground,
            bundle,
            eos,
            bundle.actors.helicopters@,
            bundle.tracks.helicopters@,
            true,
            interval_ms,
            i,
        );
    } else {
        lemma_last_actor(
            Map::empty(),
            bundle,
            eos,
            bundle.actors.vehicles@,
            bundle.tracks.vehicles@,
            false,
            interval_ms,
            i,
        );
        lemma_other_actors(
            ground,
            bundle,
            eos,
            bundle.actors.helicopters@,
            bundle.tracks.helicopters@,
            true,
            interval_ms,
            guid,
        );
    }
    let with = vehicles_with_actors(bundle, eos, interval_ms);
    assert(with.contains_key(key));
    lemma_known_vehicles_stay(
        with,
        bundle,
        bundle.actors.vehicles@,
        Seq::empty(),
        interval_ms,
        key,
    );
    let hulls = with_hulls(with, bundle, bundle.actors.vehicles@, interval_ms);
    lemma_known_vehicles_stay(
        hulls,
        bundle,
        Seq::empty(),
        bundle.tracks.vehicles@,
        interval_ms,
        key,
    );
}

/// Positions stand for others: they are the same, but that a vehicle for
/// logistics that is first seen after ten seconds stands at that place from the
/// start on as well.
pub open spec fn are_pinned(
    shown: Seq<TimelinePositionSample>,
    class: Seq<char>,
    positions: Seq<TimelinePositionSample>,
) -> bool {
    if has_part(class, "Logi"@) && positions.len() > 0 && positions[0].t > 10_000 {
        &&& shown.len() == positions.len() + 1
        &&& shown.skip(1) == positions
        &&& shown[0].t == 0
        &&& shown[0].x == positions[0].x
        &&& shown[0].y == positions[0].y
        &&& shown[0].z == positions[0].z
        &&& shown[0].yaw == positions[0].yaw
    } else {
        shown == positions
    }
}

/// A logistics vehicle that is first seen late stands there from the start on.
pub proof fn law_pinned(class: Seq<char>, positions: Seq<TimelinePositionSample>)
    ensures
        are_pinned(pinned(class, positions), class, positions),
{
    assert(pinned(class, positions).skip(1) =~= positions || pinned(class, positions)
        == positions);
}

/// The track is the first of an actor.
pub open spec fn is_first_track(tracks: Seq<Track3>, at: int, guid: u32) -> bool {
    &&& 0 <= at < tracks.len()
    &&& tracks[at].actor_guid == Some(guid)
    &&& forall|k: int| 0 <= k < at ==> (#[trigger] tracks[k]).actor_guid != Some(guid)
}

/// The samples of the first track of an actor.
proof fn lemma_first_samples(tracks: Seq<Track3>, guid: u32, from: int)
    requires
        0 <= from <= tracks.len(),
        forall|k: int| 0 <= k < from ==> (#[trigger] tracks[k]).actor_guid != Some(guid),
    ensures
        forall|at: int| #[trigger]
            is_first_track(tracks, at, guid) ==> first_samples(tracks, guid, from)
                == tracks[at].samples@,
        (forall|k: int| 0 <= k < tracks.len() ==> (#[trigger] tracks[k]).actor_guid != Some(guid))
            ==> first_samples(tracks, guid, from).len() == 0,
    decreases tracks.len() - from,
{
    if from < tracks.len() {
        if tracks[from].actor_guid == Some(guid) {
            assert forall|at: int| #[trigger] is_first_track(tracks, at, guid) implies first_samples(
                tracks,
                guid,
                from,
            ) == tracks[at].samples@ by {
                if from < at {
                    assert(tracks[from].actor_guid != Some(guid));
                } else if at < from {
                    assert(tracks[at].actor_guid != Some(guid));
                }
            }
        } else {
            lemma_first_samples(tracks, guid, from + 1);
        }
    }
}

/// A sample is where and when an actor appears.
pub open spec fn is_appearance(sample: TrackSample3, actor: ActorEntity) -> bool {
    &&& actor.initial_location is Some
    &&& sample.t_ms == actor.open_time_ms
    &&& sample.x == actor.initial_location->0.x
    &&& sample.y == actor.initial_location->0.y
    &&& sample.z == actor.initial_location->0.z
    &&& match (actor.initial_rotation, sample.yaw) {
        (Some(rotation), Some(yaw)) => yaw == rotation.yaw,
        (None, None) => true,
        _ => false,
    }
}

/// An actor belongs to no other: it has no owner, and no event attaches it.
pub open spec fn has_no_owner(bundle: Bundle, actor: ActorEntity) -> bool {
    &&& actor.owner is None
    &&& forall|k: int|
        0 <= k < bundle.events.properties@.len() ==> !attaches(
            #[trigger] bundle.events.properties@[k],
            actor.actor_guid,
        )
}

/// An event attaches an actor to another one.
pub open spec fn attaches(event: PropertyEvent, child: u32) -> bool {
    &&& event.property_name@ == "AttachSocket"@
    &&& event.decoded.int_packed == Some(child)
    &&& event.actor_guid matches Some(owner) && owner != child
}

/// An actor is attached to the one that the first such event tells.
proof fn lemma_owner_of_child(events: Seq<PropertyEvent>, child: u32)
    ensures
        owners_of_children(events).contains_key(child) ==> exists|k: int|
            {
                &&& 0 <= k < events.len()
                &&& attaches(#[trigger] events[k], child)
                &&& events[k].actor_guid == Some(owners_of_children(events)[child])
                &&& forall|j: int| 0 <= j < k ==> !attaches(#[trigger] events[j], child)
            },
        !owners_of_children(events).contains_key(child) ==> forall|k: int|
            0 <= k < events.len() ==> !attaches(#[trigger] events[k], child),
    decreases events.len(),
{
    if events.len() > 0 {
        let front = events.drop_last();
        let last = events.len() - 1;
        lemma_owner_of_child(front, child);
        assert forall|k: int| 0 <= k < last implies #[trigger] events[k] == front[k] by {}
        if owners_of_children(front).contains_key(child) {
            let k = choose|k: int|
                {
                    &&& 0 <= k < front.len()
                    &&& attaches(#[trigger] front[k], child)
                    &&& front[k].actor_guid == Some(owners_of_children(front)[child])
                    &&& forall|j: int| 0 <= j < k ==> !attaches(#[trigger] front[j], child)
                };
            assert(events[k] == front[k]);
            assert forall|j: int| 0 <= j < k implies !attaches(#[trigger] events[j], child) by {
                assert(events[j] == front[j]);
            }
        } else if attaches(events[last], child) {
            assert forall|j: int| 0 <= j < last implies !attaches(#[trigger] events[j], child) by {
                assert(events[j] == front[j]);
            }
        }
    }
}

/// The owner of a vehicle is the one that it has, or else the one that the first
/// event attaches it to.
pub proof fn law_owners(bundle: Bundle, actor: ActorEntity)
    ensures
        actor.owner is Some ==> owner_of(bundle, actor) == actor.owner,
        actor.owner is None ==> match owner_of(bundle, actor) {
            Some(owner) => exists|k: int|
                {
                    &&& 0 <= k < bundle.events.properties@.len()
                    &&& attaches(#[trigger] bundle.events.properties@[k], actor.actor_guid)
                    &&& bundle.events.properties@[k].actor_guid == Some(owner)
                    &&& forall|j: int|
                        0 <= j < k ==> !attaches(
                            #[trigger] bundle.events.properties@[j],
                            actor.actor_guid,
                        )
                },
            None => has_no_owner(bundle, actor),
        },
{
    lemma_owner_of_child(bundle.events.properties@, actor.actor_guid);
}

/// A vehicle whose own track has two positions in the world or more is where
/// the track says. So is one that has one, or that has an owner without more
/// positions. A vehicle without any that belongs to no other is where it
/// appears, if that is in the world, and else nowhere.
pub proof fn law_positions(bundle: Bundle, actor: ActorEntity, tracks: Seq<Track3>)
    ensures
        ({
            let positions = positions_of(bundle, actor, tracks);
            let own = plausible_samples(first_samples(tracks, actor.actor_guid, 0));
            &&& forall|at: int| #[trigger]
                is_first_track(tracks, at, actor.actor_guid) ==> own == plausible_samples(
                    tracks[at].samples@,
                )
            &&& (forall|k: int|
                0 <= k < tracks.len() ==> (#[trigger] tracks[k]).actor_guid != Some(
                    actor.actor_guid,
                )) ==> own.len() == 0
            &&& own.len() >= 2 ==> positions == own
            &&& own.len() == 1 && has_no_owner(bundle, actor) ==> positions == own
            &&& positions.len() >= own.len()
            &&& own.len() == 0 && has_no_owner(bundle, actor) ==> match actor.initial_location {
                Some(place) => if is_plausible(place.x, place.y) {
                    positions.len() == 1 && is_appearance(positions[0], actor)
                } else {
                    positions.len() == 0
                },
                None => positions.len() == 0,
            }
            &&& owner_of(bundle, actor) matches Some(owner) ==> {
                let moved = inferred_samples(bundle, owner);
                &&& own.len() <= 1 && moved.len() > own.len() ==> positions == moved
                &&& own.len() == 1 && moved.len() <= 1 ==> positions == own
            }
        }),
{
    lemma_first_samples(tracks, actor.actor_guid, 0);
    lemma_owner_of_child(bundle.events.properties@, actor.actor_guid);
    reveal(Seq::filter);
}

/// The vehicle of an actor: it has the short name of its class, and is a
/// helicopter where it is among those or has the name of one. It is where
/// `positions_of` says, spaced by the interval, and has the seat changes of the
/// actor in their order.
pub proof fn law_vehicles_of_actors<F: Fn(Float32, Float32) -> bool>(
    timeline: Timeline,
    bundle: &Bundle,
    log_match: Option<&LogMatch>,
    options: &TimelineOptions,
    differs: &F,
    i: int,
    helicopter: bool,
) -> (at: Seq<int>)
    requires
        call_ensures(build_timeline::<F>, (bundle, log_match, options, differs), timeline),
        counts(*bundle, i, helicopter),
    ensures
        ({
            let actor = actors_of(*bundle, helicopter)[i];
            let key = decimal(actor.actor_guid as nat);
            let shown = timeline.tracks.vehicles@[key];
            let changes = bundle.events.seat_changes@;
            &&& timeline.tracks.vehicles@.contains_key(key)
            &&& match actor.class_name {
                Some(name) => shown.class@ == vehicle_class(name@),
                None => shown.class@ == "Unknown"@,
            }
            &&& shown.kind@ == (if helicopter || helicopter_like(shown.class@) {
                "helicopter"@
            } else {
                "ground"@
            })
            &&& exists|positions: Seq<TimelinePositionSample>, kept: Seq<int>|
                {
                    &&& #[trigger] are_pinned(shown.samples@, shown.class@, positions)
                    &&& #[trigger] are_spaced(
                        positions,
                        positions_of(*bundle, actor, tracks_of(*bundle, helicopter)),
                        options.sample_interval_ms,
                        kept,
                    )
                }
            &&& shown.team_id == shown_team(*bundle, team_of(*bundle, actor))
            &&& at.len() == shown.seat_events@.len()
            &&& forall|j: int, k: int| 0 <= j < k < at.len() ==> #[trigger] at[j] < #[trigger] at[k]
            &&& forall|k: int|
                0 <= k < changes.len() && (#[trigger] changes[k]).actor_guid == Some(
                    actor.actor_guid,
                ) ==> at.contains(k)
            &&& forall|k: int|
                0 <= k < at.len() ==> {
                    let event = shown.seat_events@[k];
                    &&& 0 <= #[trigger] at[k] < changes.len()
                    &&& changes[at[k]].actor_guid == Some(actor.actor_guid)
                    &&& is_seat_event_of(
                        (SeatModel {
                            t: event.t,
                            seat: event.seat@,
                            player_eos: opt_text(event.player_eos),
                            entering: event.entering,
                        }),
                        changes[at[k]],
                        *bundle,
                    )
                }
        }),
{
    let actor = actors_of(*bundle, helicopter)[i];
    let key = decimal(actor.actor_guid as nat);
    let interval_ms = options.sample_interval_ms;
    lemma_vehicle_of_actor(*bundle, interval_ms, i, helicopter);
    let models = vehicle_models(timeline.tracks.vehicles@);
    assert(models.contains_key(key));
    assert(timeline.tracks.vehicles@.contains_key(key));
    let shown = timeline.tracks.vehicles@[key];
    assert(models[key] == shown@);
    let samples = positions_of(*bundle, actor, tracks_of(*bundle, helicopter));
    let kept = law_positions_are_samples(samples, interval_ms);
    let positions = spaced_out(samples, interval_ms);
    law_pinned(shown.class@, positions);
    assert(are_pinned(shown.samples@, shown.class@, positions) && are_spaced(
        positions,
        samples,
        interval_ms,
        kept,
    ));
    let at = lemma_seat_events_at(bundle.events.seat_changes@, *bundle, actor.actor_guid);
    assert(shown@.seat_events == seat_models(shown.seat_events@));
    assert forall|k: int| 0 <= k < at.len() implies {
        let event = shown.seat_events@[k];
        &&& 0 <= #[trigger] at[k] < bundle.events.seat_changes@.len()
        &&& bundle.events.seat_changes@[at[k]].actor_guid == Some(actor.actor_guid)
        &&& is_seat_event_of(
            (SeatModel {
                t: event.t,
                seat: event.seat@,
                player_eos: opt_text(event.player_eos),
                entering: event.entering,
            }),
            bundle.events.seat_changes@[at[k]],
            *bundle,
        )
    } by {
        assert(seat_models(shown.seat_events@)[k] == shown.seat_events@[k]@);
    }
    at
}

} // verus!
