//! What the positions, vehicles and deployables of a timeline must satisfy,
//! stated on the bundle that it is made from.

use crate::bundle::{Bundle, Player, PropertyEvent, Track3};
use crate::float_bits::Float32;
use crate::log_parser::LogMatch;

use crate::outside::lowercase;
use crate::time_order::{by_time, law_sorting, HasTime};
use crate::timeline::deployables::{
    ammo_readings, construction_readings, health_readings, is_deployable_of,
    is_first, keeps, law_kept_readings, readings_at, readings_of, stand_at, Reading,
};
use crate::timeline::laws::{are_low_bits, has_eos, lemma_low_bits, stands_for_team};
use crate::timeline::lookups::{eos_by_guid, eos_by_name};
use crate::timeline::names::deployable_class;
use crate::timeline::people::{opt_lower, position_lists, positions_by_key, track_key};
use crate::timeline::samples::{are_spaced, law_positions_are_samples, spaced_out};
use crate::timeline::{build_timeline, Timeline, TimelineOptions};
use vstd::prelude::*;

verus! {

// ---------------------------------------------------------------------------
// Where players are
// ---------------------------------------------------------------------------

/// The player has a GUID and an EOS ID.
pub open spec fn has_guid_and_eos(player: Player, guid: u32) -> bool {
    player.player_state_guid == guid && player.eos_id is Some
}

/// The player is the last with a GUID who has an EOS ID.
pub open spec fn is_last_with_guid(players: Seq<Player>, at: int, guid: u32) -> bool {
    &&& 0 <= at < players.len()
    &&& has_guid_and_eos(players[at], guid)
    &&& forall|later: int|
        at < later < players.len() ==> !has_guid_and_eos(#[trigger] players[later], guid)
}

/// The player has a name, given in lower case, and an EOS ID.
pub open spec fn has_name_and_eos(player: Player, name: Seq<char>) -> bool {
    opt_lower(player.name) == Some(name) && player.eos_id is Some
}

/// The player is the last with a name, given in lower case, who has an EOS ID.
pub open spec fn is_last_with_name(players: Seq<Player>, at: int, name: Seq<char>) -> bool {
    &&& 0 <= at < players.len()
    &&& has_name_and_eos(players[at], name)
    &&& forall|later: int|
        at < later < players.len() ==> !has_name_and_eos(#[trigger] players[later], name)
}

/// The EOS ID of a GUID is that of the last player with both.
pub proof fn lemma_eos_of_guid(players: Seq<Player>, guid: u32)
    ensures
        eos_by_guid(players).contains_key(guid) ==> exists|p: int| #[trigger]
            is_last_with_guid(players, p, guid) && has_eos(players[p], eos_by_guid(players)[guid]),
        !eos_by_guid(players).contains_key(guid) ==> forall|p: int|
            0 <= p < players.len() ==> !has_guid_and_eos(#[trigger] players[p], guid),
    decreases players.len(),
{
    if players.len() > 0 {
        let front = players.drop_last();
        let last = players.len() - 1;
        lemma_eos_of_guid(front, guid);
        assert forall|k: int| 0 <= k < last implies #[trigger] players[k] == front[k] by {}
        if has_guid_and_eos(players[last], guid) {
            assert(is_last_with_guid(players, last, guid));
        } else if eos_by_guid(front).contains_key(guid) {
            let p = choose|p: int| #[trigger]
                is_last_with_guid(front, p, guid) && has_eos(front[p], eos_by_guid(front)[guid]);
            assert(is_last_with_guid(players, p, guid));
        }
    }
}

/// The EOS ID of a name is that of the last player with both.
proof fn lemma_eos_of_name(players: Seq<Player>, name: Seq<char>)
    ensures
        eos_by_name(players).contains_key(name) ==> exists|p: int| #[trigger]
            is_last_with_name(players, p, name) && has_eos(players[p], eos_by_name(players)[name]),
        !eos_by_name(players).contains_key(name) ==> forall|p: int|
            0 <= p < players.len() ==> !has_name_and_eos(#[trigger] players[p], name),
    decreases players.len(),
{
    if players.len() > 0 {
        let front = players.drop_last();
        let last = players.len() - 1;
        lemma_eos_of_name(front, name);
        assert forall|k: int| 0 <= k < last implies #[trigger] players[k] == front[k] by {}
        if has_name_and_eos(players[last], name) {
            assert(is_last_with_name(players, last, name));
        } else if eos_by_name(front).contains_key(name) {
            let p = choose|p: int| #[trigger]
                is_last_with_name(front, p, name) && has_eos(front[p], eos_by_name(front)[name]);
            assert(is_last_with_name(players, p, name));
        }
    }
}

/// A key is that of a track: the EOS ID in lower case of the last player with
/// its GUID; where no such player has one, that of the last player with its key
/// for a name, case aside; and else its key in lower case.
pub open spec fn is_key_of_track(players: Seq<Player>, track: Track3, key: Seq<char>) -> bool {
    let name = lowercase(track.key@);
    if track.player_state_guid is Some && exists|p: int|
        0 <= p < players.len() && has_guid_and_eos(
            #[trigger] players[p],
            track.player_state_guid->0,
        ) {
        exists|p: int| #[trigger]
            is_last_with_guid(players, p, track.player_state_guid->0) && has_eos(players[p], key)
    } else if exists|p: int| 0 <= p < players.len() && has_name_and_eos(#[trigger] players[p], name) {
        exists|p: int| #[trigger] is_last_with_name(players, p, name) && has_eos(players[p], key)
    } else {
        key == name
    }
}

/// The key that a track stands under is its key.
proof fn lemma_track_key(players: Seq<Player>, track: Track3)
    ensures
        forall|key: Seq<char>| #[trigger]
            is_key_of_track(players, track, key) <==> key == track_key(
                track,
                eos_by_guid(players),
                eos_by_name(players),
            ),
{
    let name = lowercase(track.key@);
    lemma_eos_of_name(players, name);
    if let Some(guid) = track.player_state_guid {
        lemma_eos_of_guid(players, guid);
        if eos_by_guid(players).contains_key(guid) {
            let p = choose|p: int| #[trigger]
                is_last_with_guid(players, p, guid) && has_eos(
                    players[p],
                    eos_by_guid(players)[guid],
                );
            assert(has_guid_and_eos(players[p], guid));
            assert forall|q: int| #[trigger] is_last_with_guid(players, q, guid) implies q == p by {
                if q < p {
                    assert(!has_guid_and_eos(players[p], guid));
                } else if p < q {
                    assert(!has_guid_and_eos(players[q], guid));
                }
            }
        }
    }
    if eos_by_name(players).contains_key(name) {
        let p = choose|p: int| #[trigger]
            is_last_with_name(players, p, name) && has_eos(players[p], eos_by_name(players)[name]);
        assert(has_name_and_eos(players[p], name));
        assert forall|q: int| #[trigger] is_last_with_name(players, q, name) implies q == p by {
            if q < p {
                assert(!has_name_and_eos(players[p], name));
            } else if p < q {
                assert(!has_name_and_eos(players[q], name));
            }
        }
    }
}

/// A track is the last with a key that has samples.
pub open spec fn is_last_track(
    tracks: Seq<Track3>,
    players: Seq<Player>,
    at: int,
    key: Seq<char>,
) -> bool {
    &&& 0 <= at < tracks.len()
    &&& tracks[at].samples@.len() > 0
    &&& is_key_of_track(players, tracks[at], key)
    &&& forall|later: int|
        at < later < tracks.len() && (#[trigger] tracks[later]).samples@.len() > 0
            ==> !is_key_of_track(players, tracks[later], key)
}

/// The positions of a key are those of the last track with it.
proof fn lemma_positions_by_key(
    tracks: Seq<Track3>,
    players: Seq<Player>,
    interval_ms: u64,
    key: Seq<char>,
)
    ensures
        ({
            let positions = positions_by_key(
                tracks,
                eos_by_guid(players),
                eos_by_name(players),
                interval_ms,
            );
            &&& positions.contains_key(key) ==> exists|tr: int| #[trigger]
                is_last_track(tracks, players, tr, key) && positions[key] == spaced_out(
                    tracks[tr].samples@,
                    interval_ms,
                )
            &&& !positions.contains_key(key) ==> forall|tr: int|
                0 <= tr < tracks.len() && (#[trigger] tracks[tr]).samples@.len() > 0
                    ==> !is_key_of_track(players, tracks[tr], key)
        }),
    decreases tracks.len(),
{
    if tracks.len() > 0 {
        let front = tracks.drop_last();
        let last = tracks.len() - 1;
        lemma_positions_by_key(front, players, interval_ms, key);
        assert forall|k: int| 0 <= k < last implies #[trigger] tracks[k] == front[k] by {}
        lemma_track_key(players, tracks[last]);
        let at = law_positions_are_samples(tracks[last].samples@, interval_ms);
        let before = positions_by_key(
            front,
            eos_by_guid(players),
            eos_by_name(players),
            interval_ms,
        );
        if tracks[last].samples@.len() > 0 && is_key_of_track(players, tracks[last], key) {
            assert(is_last_track(tracks, players, last, key));
        } else if before.contains_key(key) {
            let tr = choose|tr: int| #[trigger]
                is_last_track(front, players, tr, key) && before[key] == spaced_out(
                    front[tr].samples@,
                    interval_ms,
                );
            assert(is_last_track(tracks, players, tr, key));
        }
    }
}

/// The positions of a player are samples of the last track with their key that
/// has any, field by field, spaced by the interval; and every track with samples
/// has positions under its key.
pub proof fn law_player_tracks<F: Fn(Float32, Float32) -> bool>(
    timeline: Timeline,
    bundle: &Bundle,
    log_match: Option<&LogMatch>,
    options: &TimelineOptions,
    differs: &F,
    key: Seq<char>,
)
    requires
        call_ensures(build_timeline::<F>, (bundle, log_match, options, differs), timeline),
    ensures
        ({
            let tracks = bundle.tracks.players@;
            let shown = timeline.tracks.players@;
            &&& shown.contains_key(key) ==> exists|tr: int, at: Seq<int>|
                {
                    &&& #[trigger] is_last_track(tracks, bundle.players@, tr, key)
                    &&& #[trigger] are_spaced(
                        shown[key]@,
                        tracks[tr].samples@,
                        options.sample_interval_ms,
                        at,
                    )
                }
            &&& !shown.contains_key(key) ==> forall|tr: int|
                0 <= tr < tracks.len() && (#[trigger] tracks[tr]).samples@.len() > 0
                    ==> !is_key_of_track(bundle.players@, tracks[tr], key)
        }),
{
    let tracks = bundle.tracks.players@;
    let players = bundle.players@;
    let shown = timeline.tracks.players@;
    let interval_ms = options.sample_interval_ms;
    let positions = positions_by_key(
        tracks,
        eos_by_guid(players),
        eos_by_name(players),
        interval_ms,
    );
    assert(position_lists(shown) == positions);
    assert(position_lists(shown).contains_key(key) <==> shown.contains_key(key));
    lemma_positions_by_key(tracks, players, interval_ms, key);
    if shown.contains_key(key) {
        assert(position_lists(shown)[key] == shown[key]@);
        let tr = choose|tr: int| #[trigger]
            is_last_track(tracks, players, tr, key) && positions[key] == spaced_out(
                tracks[tr].samples@,
                interval_ms,
            );
        let at = law_positions_are_samples(tracks[tr].samples@, interval_ms);
        assert(is_last_track(tracks, players, tr, key) && are_spaced(
            shown[key]@,
            tracks[tr].samples@,
            interval_ms,
            at,
        ));
    }
}

// ---------------------------------------------------------------------------
// Deployables
// ---------------------------------------------------------------------------

/// An event reads a property of an actor.
pub open spec fn reads(event: PropertyEvent, property: Seq<char>, actor: u32) -> bool {
    &&& event.property_name@ == property
    &&& event.actor_guid == Some(actor)
    &&& event.decoded.float32 is Some
}

/// The readings of a property of an actor are those of the events that read it.
proof fn lemma_readings_at(events: Seq<PropertyEvent>, property: Seq<char>, actor: u32)
    ensures
        readings_of(events, property, actor).len() == events.filter(
            |event: PropertyEvent| reads(event, property, actor),
        ).len(),
        forall|i: int|
            0 <= i < readings_of(events, property, actor).len() ==> is_reading_of(
                #[trigger] readings_of(events, property, actor)[i],
                events,
                property,
                actor,
            ),
    decreases events.len(),
{
    reveal(Seq::filter);
    if events.len() > 0 {
        let front = events.drop_last();
        lemma_readings_at(front, property, actor);
        let before = readings_of(front, property, actor);
        let all = readings_of(events, property, actor);
        assert forall|i: int| 0 <= i < all.len() implies is_reading_of(
            #[trigger] all[i],
            events,
            property,
            actor,
        ) by {
            if i < before.len() {
                assert(all[i] == before[i]);
                let k = choose|k: int|
                    0 <= k < front.len() && reads(#[trigger] front[k], property, actor)
                        && front[k].t_ms == before[i].t && front[k].decoded.float32 == Some(
                        before[i].value,
                    );
                assert(events[k] == front[k]);
            } else {
                assert(reads(events[events.len() - 1], property, actor));
            }
        }
    }
}

/// A reading is what one of some events reads, at the time of the event.
pub open spec fn is_reading_of(
    reading: Reading,
    events: Seq<PropertyEvent>,
    property: Seq<char>,
    actor: u32,
) -> bool {
    exists|k: int|
        0 <= k < events.len() && reads(#[trigger] events[k], property, actor) && events[k].t_ms
            == reading.t && events[k].decoded.float32 == Some(reading.value)
}

/// Readings in the timeline are some of a property of a deployable, in the order
/// of their times; there are some where the deployable is the first with its
/// GUID and an event reads the property of it, and none where it is not the
/// first.
pub open spec fn are_readings(
    shown: Seq<Reading>,
    bundle: Bundle,
    property: Seq<char>,
    i: int,
) -> bool {
    let events = bundle.events.properties@;
    let actor = bundle.actors.deployables@[i].actor_guid;
    &&& forall|k: int|
        0 <= k < shown.len() ==> is_reading_of(#[trigger] shown[k], events, property, actor)
    &&& forall|j: int, k: int|
        0 <= j < k < shown.len() ==> (#[trigger] shown[j]).t <= (#[trigger] shown[k]).t
    &&& shown.len() > 0 <==> (forall|j: int|
        0 <= j < i ==> (#[trigger] bundle.actors.deployables@[j]).actor_guid != actor)
        && events.filter(|event: PropertyEvent| reads(event, property, actor)).len() > 0
}

/// What is kept of the readings of a deployable are readings of it.
proof fn lemma_kept_readings_of<F: Fn(Float32, Float32) -> bool>(
    bundle: Bundle,
    property: Seq<char>,
    i: int,
    differs: F,
    kept: Seq<Reading>,
)
    requires
        keeps(differs, readings_at(bundle, property, i), kept),
    ensures
        are_readings(kept, bundle, property, i),
{
    let events = bundle.events.properties@;
    let actor = bundle.actors.deployables@[i].actor_guid;
    let all = readings_at(bundle, property, i);
    assert(is_first(bundle.actors.deployables@, i) <==> forall|j: int|
        0 <= j < i ==> (#[trigger] bundle.actors.deployables@[j]).actor_guid != actor);
    law_kept_readings(differs, all, kept);
    lemma_readings_at(events, property, actor);
    let unsorted = readings_of(events, property, actor);
    law_sorting(unsorted);
    let at = choose|at: Seq<int>| #[trigger] stand_at(kept, all, at);
    assert forall|j: int, k: int| 0 <= j < k < kept.len() implies (#[trigger] kept[j]).t <= (
    #[trigger] kept[k]).t by {
        assert(at[j] < at[k]);
        assert(all[at[j]].time() <= all[at[k]].time());
    }
    assert forall|k: int| 0 <= k < kept.len() implies is_reading_of(
        #[trigger] kept[k],
        events,
        property,
        actor,
    ) by {
        broadcast use vstd::seq_lib::group_to_multiset_ensures;

        assert(kept[k] == all[at[k]]);
        let reading = all[at[k]];
        assert(all == by_time(unsorted));
        assert(all.contains(reading));
        assert(all.to_multiset().count(reading) > 0);
        assert(unsorted.to_multiset().count(reading) > 0);
        assert(unsorted.contains(reading));
        let m = choose|m: int| 0 <= m < unsorted.len() && unsorted[m] == reading;
        assert(is_reading_of(unsorted[m], events, property, actor));
    }
    if kept.len() > 0 {
        assert(0 <= at[0] < all.len());
    }
}

/// A deployable of the timeline stands where it appears in the replay, from when
/// it appears to when it goes, with its team and its health; where the replay
/// tells no place it stands at the origin. What it shows of its health, ammo and
/// construction points was read of it.
pub proof fn law_deployables<F: Fn(Float32, Float32) -> bool>(
    timeline: Timeline,
    bundle: &Bundle,
    log_match: Option<&LogMatch>,
    options: &TimelineOptions,
    differs: &F,
)
    requires
        call_ensures(build_timeline::<F>, (bundle, log_match, options, differs), timeline),
    ensures
        timeline.deployables@.len() == bundle.actors.deployables@.len(),
        forall|i: int|
            0 <= i < bundle.actors.deployables@.len() ==> {
                let actor = #[trigger] bundle.actors.deployables@[i];
                let shown = timeline.deployables@[i];
                &&& match actor.initial_location {
                    Some(at) => shown.x == at.x && shown.y == at.y && shown.z == at.z,
                    None => shown.x.bits == 0 && shown.y.bits == 0 && shown.z.bits == 0,
                }
                &&& shown.placed_at == actor.open_time_ms
                &&& shown.destroyed_at == actor.close_time_ms
                &&& shown.health == actor.health
                &&& match (actor.team, shown.team_id) {
                    (Some(raw), Some(team)) => exists|low: u32| #[trigger]
                        are_low_bits(low, raw) && stands_for_team(team, low),
                    (None, None) => true,
                    _ => false,
                }
                &&& match actor.class_name {
                    Some(name) => shown.class@ == deployable_class(name@),
                    None => shown.class@ == "Unknown"@,
                }
                &&& are_readings(health_readings(shown.health_events@), *bundle, "Health"@, i)
                &&& are_readings(ammo_readings(shown.ammo_events@), *bundle, "Ammo"@, i)
                &&& are_readings(
                    construction_readings(shown.construction_events@),
                    *bundle,
                    "ConstructionPoints"@,
                    i,
                )
            },
{
    assert forall|i: int| 0 <= i < bundle.actors.deployables@.len() implies {
        let actor = #[trigger] bundle.actors.deployables@[i];
        let shown = timeline.deployables@[i];
        &&& match actor.initial_location {
            Some(at) => shown.x == at.x && shown.y == at.y && shown.z == at.z,
            None => shown.x.bits == 0 && shown.y.bits == 0 && shown.z.bits == 0,
        }
        &&& shown.placed_at == actor.open_time_ms
        &&& shown.destroyed_at == actor.close_time_ms
        &&& shown.health == actor.health
        &&& match (actor.team, shown.team_id) {
            (Some(raw), Some(team)) => exists|low: u32| #[trigger]
                are_low_bits(low, raw) && stands_for_team(team, low),
            (None, None) => true,
            _ => false,
        }
        &&& match actor.class_name {
                    Some(name) => shown.class@ == deployable_class(name@),
                    None => shown.class@ == "Unknown"@,
                }
        &&& are_readings(health_readings(shown.health_events@), *bundle, "Health"@, i)
        &&& are_readings(ammo_readings(shown.ammo_events@), *bundle, "Ammo"@, i)
        &&& are_readings(
            construction_readings(shown.construction_events@),
            *bundle,
            "ConstructionPoints"@,
            i,
        )
    } by {
        let actor = bundle.actors.deployables@[i];
        let shown = timeline.deployables@[i];
        assert(is_deployable_of(shown, *bundle, i, *differs));
        if let Some(raw) = actor.team {
            lemma_low_bits(raw);
        }
        lemma_kept_readings_of(
            *bundle,
            "Health"@,
            i,
            *differs,
            health_readings(shown.health_events@),
        );
        lemma_kept_readings_of(*bundle, "Ammo"@, i, *differs, ammo_readings(shown.ammo_events@));
        lemma_kept_readings_of(
            *bundle,
            "ConstructionPoints"@,
            i,
            *differs,
            construction_readings(shown.construction_events@),
        );
    }
}

} // verus!
