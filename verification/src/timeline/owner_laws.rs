//! What the teams of vehicles, the positions that they have from players, and
//! the vehicles without an actor must satisfy.

use crate::bundle::{ActorEntity, Bundle, Player, PropertyEvent, Team, Track3, TrackSample3};
use crate::float_bits::Float32;
use crate::log_parser::LogMatch;
use crate::outside::lowercase;
use crate::text::{decimal, has_part};
use crate::time_order::{
    at_time, by_time, law_one_per_time, lemma_at_time_push, law_sorting, one_per_time, HasTime,
};
use crate::timeline::laws::{are_low_bits, lemma_low_bits, stands_for_team};
use crate::timeline::lookups::{
    aliases_by, eos_by_guid, faction_key, faction_teams, first_player, guid_text, hint, last_samples,
    name_by_guid, packed_number, team_alias, teams_of_actors, tracks_by_name, window_of, windows_of_actor,
    OwnerWindow,
};
use crate::timeline::people::opt_lower;
use crate::timeline::samples::{
    are_spaced, is_plausible, law_positions_are_samples, plausible_samples,
};
use crate::timeline::vehicle_laws::{
    is_appearance, lemma_decimal_differs, lemma_known_vehicles_stay,
};
use crate::timeline::vehicles::{
    all_vehicles, class_text, hull_of, hull_positions, hull_vehicle, inferred_samples, opening_sample,
    owner_of, part_samples, samples_of_parts, samples_of_windows, shown_team, team_of, track_vehicle, vehicle_models, vehicles_with_actors,
    window_samples, with_actors, with_hulls, with_tracks, VehicleModel,
};
use crate::timeline::{build_timeline, Timeline, TimelineOptions};
use vstd::prelude::*;

verus! {

// ---------------------------------------------------------------------------
// Teams
// ---------------------------------------------------------------------------

/// An event tells a number: the packed one, or else the low 32 bits of the other.
pub open spec fn tells_number(event: PropertyEvent, number: u32) -> bool {
    match (event.decoded.int_packed, event.decoded.int32) {
        (Some(packed), _) => packed == number,
        (None, Some(other)) => are_low_bits(number, other as i64),
        (None, None) => false,
    }
}

/// The number that an event carries is the one that it tells.
proof fn lemma_packed_number(event: PropertyEvent)
    ensures
        packed_number(event) matches Some(n) ==> tells_number(event, n),
        packed_number(event) is None ==> event.decoded.int_packed is None && event.decoded.int32 is None,
{
    if let Some(other) = event.decoded.int32 {
        lemma_low_bits(other as i64);
    }
}

/// An event tells the team of an actor.
pub open spec fn tells_team(event: PropertyEvent, actor: u32) -> bool {
    &&& event.property_name@ == "Team"@
    &&& event.actor_guid == Some(actor)
    &&& event.decoded.int_packed is Some || event.decoded.int32 is Some
}

/// A number is the team that the last event about an actor tells.
pub open spec fn is_told_team(events: Seq<PropertyEvent>, actor: u32, team: u32) -> bool {
    exists|k: int|
        {
            &&& 0 <= k < events.len()
            &&& tells_team(#[trigger] events[k], actor)
            &&& tells_number(events[k], team)
            &&& forall|j: int| k < j < events.len() ==> !tells_team(#[trigger] events[j], actor)
        }
}

/// No event tells the team of an actor.
pub open spec fn no_team_told(events: Seq<PropertyEvent>, actor: u32) -> bool {
    forall|k: int| 0 <= k < events.len() ==> !tells_team(#[trigger] events[k], actor)
}

/// The team of an actor is the one that the last event about it tells.
proof fn lemma_team_of_actor(events: Seq<PropertyEvent>, actor: u32)
    ensures
        match hint(teams_of_actors(events), actor) {
            Some(team) => is_told_team(events, actor, team),
            None => no_team_told(events, actor),
        },
    decreases events.len(),
{
    if events.len() > 0 {
        let front = events.drop_last();
        let last = events.len() - 1;
        lemma_team_of_actor(front, actor);
        lemma_packed_number(events[last]);
        assert forall|k: int| 0 <= k < last implies #[trigger] events[k] == front[k] by {}
        if tells_team(events[last], actor) {
            assert(is_told_team(events, actor, packed_number(events[last])->0));
        } else {
            match hint(teams_of_actors(front), actor) {
                Some(team) => {
                    let k = choose|k: int|
                        {
                            &&& 0 <= k < front.len()
                            &&& tells_team(#[trigger] front[k], actor)
                            &&& tells_number(front[k], team)
                            &&& forall|j: int|
                                k < j < front.len() ==> !tells_team(#[trigger] front[j], actor)
                        };
                    assert(events[k] == front[k]);
                    assert forall|j: int| k < j < events.len() implies !tells_team(
                        #[trigger] events[j],
                        actor,
                    ) by {
                        if j < last {
                            assert(events[j] == front[j]);
                        }
                    }
                    assert(is_told_team(events, actor, team));
                },
                None => {},
            }
        }
    }
}

/// The team of a vehicle is its own, in 32 bits, or else the one that is told of
/// the actor that it belongs to.
pub proof fn law_teams_of_vehicles(bundle: Bundle, actor: ActorEntity)
    ensures
        ({
            let events = bundle.events.properties@;
            let team = team_of(bundle, actor);
            &&& actor.team matches Some(own) ==> team is Some && are_low_bits(team->0, own)
            &&& actor.team is None ==> match owner_of(bundle, actor) {
                Some(owner) => match team {
                    Some(told) => is_told_team(events, owner, told),
                    None => no_team_told(events, owner),
                },
                None => team is None,
            }
        }),
{
    if let Some(own) = actor.team {
        lemma_low_bits(own);
    }
    if let Some(owner) = owner_of(bundle, actor) {
        lemma_team_of_actor(bundle.events.properties@, owner);
    }
}

/// Two teams have one faction, case aside, and it is not empty.
pub open spec fn same_faction(a: Team, b: Team) -> bool {
    opt_lower(a.faction) is Some && opt_lower(a.faction) == opt_lower(b.faction) && opt_lower(
        a.faction,
    )->0.len() > 0
}

/// A team is the last with a number.
pub open spec fn is_last_team(teams: Seq<Team>, at: int, id: u32) -> bool {
    &&& 0 <= at < teams.len()
    &&& teams[at].id == id
    &&& forall|later: int| at < later < teams.len() ==> (#[trigger] teams[later]).id != id
}

/// The team number of a faction is one that a team of it has, and it is 1 or 2
/// where a team of it has 1 or 2.
proof fn lemma_faction_teams(teams: Seq<Team>, faction: Seq<char>)
    ensures
        faction_teams(teams).contains_key(faction) ==> exists|k: int|
            0 <= k < teams.len() && faction_key(#[trigger] teams[k]) == Some(faction) && teams[k].id
                == faction_teams(teams)[faction],
        forall|k: int|
            0 <= k < teams.len() && faction_key(#[trigger] teams[k]) == Some(faction)
                ==> faction_teams(teams).contains_key(faction) && (teams[k].id == 1 || teams[k].id == 2
                ==> faction_teams(teams)[faction] == 1 || faction_teams(teams)[faction] == 2),
    decreases teams.len(),
{
    if teams.len() > 0 {
        let front = teams.drop_last();
        let last = teams.len() - 1;
        lemma_faction_teams(front, faction);
        assert forall|k: int| 0 <= k < last implies #[trigger] teams[k] == front[k] by {}
        if faction_teams(front).contains_key(faction) {
            let k = choose|k: int|
                0 <= k < front.len() && faction_key(#[trigger] front[k]) == Some(faction)
                    && front[k].id == faction_teams(front)[faction];
            assert(teams[k] == front[k]);
        }
        assert(faction_key(teams[last]) == Some(faction) ==> faction_teams(teams).contains_key(
            faction,
        ));
        if faction_teams(teams).contains_key(faction) && faction_teams(teams)[faction]
            == teams[last].id && faction_key(teams[last]) == Some(faction) {
            assert(faction_key(teams[last]) == Some(faction) && teams[last].id == faction_teams(
                teams,
            )[faction]);
        }
    }
}

/// The number that stands for a team number is that of the last team with it.
proof fn lemma_aliases(teams: Seq<Team>, factions: Map<Seq<char>, u32>, id: u32)
    ensures
        forall|at: int| #[trigger]
            is_last_team(teams, at, id) ==> hint(aliases_by(teams, factions), id) == Some(
                team_alias(teams[at], factions),
            ),
        (forall|k: int| 0 <= k < teams.len() ==> (#[trigger] teams[k]).id != id) ==> hint(
            aliases_by(teams, factions),
            id,
        ) is None,
    decreases teams.len(),
{
    if teams.len() > 0 {
        let front = teams.drop_last();
        let last = teams.len() - 1;
        lemma_aliases(front, factions, id);
        assert forall|k: int| 0 <= k < last implies #[trigger] teams[k] == front[k] by {}
        assert forall|at: int| #[trigger] is_last_team(teams, at, id) implies hint(
            aliases_by(teams, factions),
            id,
        ) == Some(team_alias(teams[at], factions)) by {
            if at < last {
                assert(teams[last].id != id);
                assert(is_last_team(front, at, id)) by {
                    assert forall|later: int| at < later < front.len() implies (
                    #[trigger] front[later]).id != id by {
                        assert(front[later] == teams[later]);
                    }
                }
            }
        }
        if forall|k: int| 0 <= k < teams.len() ==> (#[trigger] teams[k]).id != id {
            assert(teams[last].id != id);
            assert forall|k: int| 0 <= k < front.len() implies (#[trigger] front[k]).id != id by {
                assert(front[k] == teams[k]);
            }
        }
    }
}

/// The team that the timeline shows for a number of the replay: that of the
/// number itself where no team has it or the last team with it has no faction;
/// and else that of a team of the same faction, one with the number 1 or 2 where
/// there is one.
pub proof fn law_shown_teams(bundle: Bundle, raw: u32)
    ensures
        shown_team(bundle, None) is None,
        ({
            let teams = bundle.teams@;
            let shown = shown_team(bundle, Some(raw));
            &&& shown is Some
            &&& (forall|k: int| 0 <= k < teams.len() ==> (#[trigger] teams[k]).id != raw)
                ==> stands_for_team(shown->0, raw)
            &&& forall|at: int| #[trigger]
                is_last_team(teams, at, raw) ==> if same_faction(teams[at], teams[at]) {
                    exists|k: int|
                        {
                            &&& 0 <= k < teams.len()
                            &&& same_faction(#[trigger] teams[k], teams[at])
                            &&& stands_for_team(shown->0, teams[k].id)
                            &&& (exists|j: int|
                                0 <= j < teams.len() && same_faction(#[trigger] teams[j], teams[at])
                                    && (teams[j].id == 1 || teams[j].id == 2)) ==> teams[k].id == 1
                                || teams[k].id == 2
                        }
                } else {
                    stands_for_team(shown->0, raw)
                }
        }),
{
    let teams = bundle.teams@;
    let factions = faction_teams(teams);
    let shown = shown_team(bundle, Some(raw));
    lemma_aliases(teams, factions, raw);
    assert forall|at: int| #[trigger] is_last_team(teams, at, raw) implies if same_faction(
        teams[at],
        teams[at],
    ) {
        exists|k: int|
            {
                &&& 0 <= k < teams.len()
                &&& same_faction(#[trigger] teams[k], teams[at])
                &&& stands_for_team(shown->0, teams[k].id)
                &&& (exists|j: int|
                    0 <= j < teams.len() && same_faction(#[trigger] teams[j], teams[at]) && (
                    teams[j].id == 1 || teams[j].id == 2)) ==> teams[k].id == 1 || teams[k].id == 2
            }
    } else {
        stands_for_team(shown->0, raw)
    } by {
        if same_faction(teams[at], teams[at]) {
            let faction = faction_key(teams[at])->0;
            lemma_faction_teams(teams, faction);
            assert(faction_key(teams[at]) == Some(faction));
            let k = choose|k: int|
                0 <= k < teams.len() && faction_key(#[trigger] teams[k]) == Some(faction)
                    && teams[k].id == factions[faction];
            assert(same_faction(teams[k], teams[at]));
            assert(stands_for_team(shown->0, teams[k].id));
            if exists|j: int|
                0 <= j < teams.len() && same_faction(#[trigger] teams[j], teams[at]) && (teams[j].id
                    == 1 || teams[j].id == 2) {
                let j = choose|j: int|
                    0 <= j < teams.len() && same_faction(#[trigger] teams[j], teams[at]) && (
                    teams[j].id == 1 || teams[j].id == 2);
                assert(faction_key(teams[j]) == Some(faction));
            }
        }
    }
}

// ---------------------------------------------------------------------------
// Positions that come from players
// ---------------------------------------------------------------------------

/// An event tells which player an actor has.
pub open spec fn tells_player(event: PropertyEvent, actor: u32) -> bool {
    event.property_name@ == "PlayerState"@ && event.actor_guid == Some(actor)
}

/// The windows of an actor are those of the events that tell its player.
proof fn lemma_windows_of_actor(events: Seq<PropertyEvent>, actor: u32)
    ensures
        windows_of_actor(events, actor).len() == events.filter(
            |event: PropertyEvent| tells_player(event, actor),
        ).len(),
        forall|i: int|
            0 <= i < windows_of_actor(events, actor).len() ==> is_window_of(
                #[trigger] windows_of_actor(events, actor)[i],
                events,
                actor,
            ),
        forall|k: int|
            0 <= k < events.len() && tells_player(#[trigger] events[k], actor)
                ==> windows_of_actor(events, actor).contains(window_of(events[k])),
    decreases events.len(),
{
    reveal(Seq::filter);
    if events.len() > 0 {
        let front = events.drop_last();
        let last = events.len() - 1;
        lemma_windows_of_actor(front, actor);
        let before = windows_of_actor(front, actor);
        let all = windows_of_actor(events, actor);
        assert forall|i: int| 0 <= i < all.len() implies is_window_of(
            #[trigger] all[i],
            events,
            actor,
        ) by {
            if i < before.len() {
                assert(all[i] == before[i]);
                let k = choose|k: int|
                    0 <= k < front.len() && tells_player(#[trigger] front[k], actor) && is_told_by(
                        before[i],
                        front[k],
                    );
                assert(events[k] == front[k]);
            } else {
                lemma_packed_number(events[last]);
                assert(is_told_by(all[i], events[last]));
            }
        }
        assert forall|k: int|
            0 <= k < events.len() && tells_player(#[trigger] events[k], actor) implies all.contains(
            window_of(events[k]),
        ) by {
            if k < last {
                assert(events[k] == front[k]);
                let i = choose|i: int|
                    0 <= i < before.len() && before[i] == window_of(front[k]);
                assert(all[i] == window_of(events[k]));
            } else {
                assert(all[before.len() as int] == window_of(events[k]));
            }
        }
    }
}

/// A window is what an event tells: from the time of the event on the actor has
/// the player whose number the event tells, and none where the number is 0 or
/// there is none.
pub open spec fn is_told_by(window: OwnerWindow, event: PropertyEvent) -> bool {
    &&& window.t_ms == event.t_ms
    &&& match window.player_state {
        Some(guid) => guid > 0 && tells_number(event, guid),
        None => tells_number(event, 0) || event.decoded.int_packed is None && event.decoded.int32 is None,
    }
}

/// A window is what one of some events tells of an actor.
pub open spec fn is_window_of(
    window: OwnerWindow,
    events: Seq<PropertyEvent>,
    actor: u32,
) -> bool {
    exists|k: int|
        0 <= k < events.len() && tells_player(#[trigger] events[k], actor) && is_told_by(
            window,
            events[k],
        )
}

/// A player is the last with a GUID who has a name, and this is the name in lower
/// case.
pub open spec fn is_last_named(
    players: Seq<Player>,
    at: int,
    guid: u32,
    name: Seq<char>,
) -> bool {
    &&& 0 <= at < players.len()
    &&& players[at].player_state_guid == guid
    &&& opt_lower(players[at].name) == Some(name)
    &&& forall|later: int|
        at < later < players.len() && (#[trigger] players[later]).player_state_guid == guid
            ==> players[later].name is None
}

/// The name of a GUID is that of the last player with both.
proof fn lemma_name_of_guid(players: Seq<Player>, guid: u32)
    ensures
        name_by_guid(players).contains_key(guid) ==> exists|p: int| #[trigger]
            is_last_named(players, p, guid, name_by_guid(players)[guid]),
    decreases players.len(),
{
    if players.len() > 0 {
        let front = players.drop_last();
        let last = players.len() - 1;
        lemma_name_of_guid(front, guid);
        assert forall|k: int| 0 <= k < last implies #[trigger] players[k] == front[k] by {}
        if players[last].player_state_guid == guid && players[last].name is Some {
            assert(is_last_named(players, last, guid, name_by_guid(players)[guid]));
        } else if name_by_guid(front).contains_key(guid) {
            let p = choose|p: int| #[trigger]
                is_last_named(front, p, guid, name_by_guid(front)[guid]);
            assert(is_last_named(players, p, guid, name_by_guid(players)[guid]));
        }
    }
}

/// A track goes by a name, given in lower case: it is its key, or the name or the
/// EOS ID of the first player with its GUID.
pub open spec fn track_goes_by(track: Track3, players: Seq<Player>, name: Seq<char>) -> bool {
    ||| lowercase(track.key@) == name
    ||| track.player_state_guid is Some && exists|p: int|
        {
            &&& 0 <= p < players.len()
            &&& (#[trigger] players[p]).player_state_guid == track.player_state_guid->0
            &&& forall|q: int|
                0 <= q < p ==> (#[trigger] players[q]).player_state_guid
                    != track.player_state_guid->0
            &&& opt_lower(players[p].name) == Some(name) || opt_lower(players[p].eos_id) == Some(
                name,
            )
        }
}

/// The first player with a GUID is the first.
proof fn lemma_first_player(players: Seq<Player>, guid: u32, from: int)
    requires
        0 <= from <= players.len(),
        forall|q: int| 0 <= q < from ==> (#[trigger] players[q]).player_state_guid != guid,
    ensures
        match first_player(players, guid, from) {
            Some(p) => {
                &&& 0 <= p < players.len()
                &&& players[p].player_state_guid == guid
                &&& forall|q: int|
                    0 <= q < p ==> (#[trigger] players[q]).player_state_guid != guid
            },
            None => forall|q: int|
                0 <= q < players.len() ==> (#[trigger] players[q]).player_state_guid != guid,
        },
    decreases players.len() - from,
{
    if from < players.len() && players[from].player_state_guid != guid {
        lemma_first_player(players, guid, from + 1);
    }
}

/// The track of a name is the last that goes by it.
proof fn lemma_track_by_name(tracks: Seq<Track3>, players: Seq<Player>, name: Seq<char>)
    requires
        tracks.len() <= usize::MAX,
    ensures
        ({
            let index = tracks_by_name(tracks, players);
            &&& index.contains_key(name) ==> is_last_going_by(
                tracks,
                players,
                index[name] as int,
                name,
            )
            &&& !index.contains_key(name) ==> forall|tr: int|
                0 <= tr < tracks.len() ==> !track_goes_by(#[trigger] tracks[tr], players, name)
        }),
    decreases tracks.len(),
{
    if tracks.len() > 0 {
        let front = tracks.drop_last();
        let last = tracks.len() - 1;
        lemma_track_by_name(front, players, name);
        assert forall|k: int| 0 <= k < last implies #[trigger] tracks[k] == front[k] by {}
        let track = tracks[last];
        if let Some(guid) = track.player_state_guid {
            lemma_first_player(players, guid, 0);
        }
        let index = tracks_by_name(tracks, players);
        if track_goes_by(track, players, name) {
            assert(index.contains_key(name) && index[name] == last) by {
                if lowercase(track.key@) != name {
                    let guid = track.player_state_guid->0;
                    let p = choose|p: int|
                        {
                            &&& 0 <= p < players.len()
                            &&& (#[trigger] players[p]).player_state_guid == guid
                            &&& forall|q: int|
                                0 <= q < p ==> (#[trigger] players[q]).player_state_guid != guid
                            &&& opt_lower(players[p].name) == Some(name) || opt_lower(
                                players[p].eos_id,
                            ) == Some(name)
                        };
                    let f = first_player(players, guid, 0)->0;
                    if p < f {
                        assert(players[p].player_state_guid != guid);
                    } else if f < p {
                        assert(players[f].player_state_guid != guid);
                    }
                }
            }
            assert(is_last_going_by(tracks, players, last, name));
        } else {
            let before = tracks_by_name(front, players);
            assert(index.contains_key(name) == before.contains_key(name));
            if before.contains_key(name) {
                assert(index[name] == before[name]);
                assert(is_last_going_by(tracks, players, before[name] as int, name));
            }
        }
    }
}

/// A track is the last that goes by a name.
pub open spec fn is_last_going_by(
    tracks: Seq<Track3>,
    players: Seq<Player>,
    at: int,
    name: Seq<char>,
) -> bool {
    &&& 0 <= at < tracks.len()
    &&& track_goes_by(tracks[at], players, name)
    &&& forall|later: int|
        at < later < tracks.len() ==> !track_goes_by(#[trigger] tracks[later], players, name)
}

/// A sample is one of a player that an actor has at that time: the last event
/// that tells the player of the actor up to then tells the GUID of a player whose
/// name a track goes by, and the track has the sample.
pub open spec fn is_sample_of_player(sample: TrackSample3, bundle: Bundle, actor: u32) -> bool {
    let events = bundle.events.properties@;
    let tracks = bundle.tracks.players@;
    exists|k: int, p: int, guid: u32, name: Seq<char>, tr: int|
        {
            &&& 0 <= k < events.len()
            &&& tells_player(events[k], actor)
            &&& guid > 0
            &&& #[trigger] tells_number(events[k], guid)
            &&& events[k].t_ms <= sample.t_ms
            &&& forall|j: int|
                0 <= j < events.len() && tells_player(#[trigger] events[j], actor) ==> events[j].t_ms
                    <= events[k].t_ms || events[j].t_ms > sample.t_ms
            &&& #[trigger] is_last_named(bundle.players@, p, guid, name)
            &&& #[trigger] is_last_going_by(tracks, bundle.players@, tr, name)
            &&& tracks[tr].samples@.contains(sample)
        }
}

/// The samples of one window are those of its player.
proof fn lemma_window_samples(bundle: Bundle, actor: u32, i: int)
    requires
        0 <= i < windows_of_actor(bundle.events.properties@, actor).len(),
        bundle.tracks.players@.len() <= usize::MAX,
    ensures
        ({
            let windows = by_time(windows_of_actor(bundle.events.properties@, actor));
            let samples = window_samples(bundle, windows, i);
            forall|s: int|
                0 <= s < samples.len() ==> is_sample_of_player(#[trigger] samples[s], bundle, actor)
        }),
{
    broadcast use vstd::seq_lib::group_to_multiset_ensures;

    let events = bundle.events.properties@;
    let players = bundle.players@;
    let tracks = bundle.tracks.players@;
    let unsorted = windows_of_actor(events, actor);
    let windows = by_time(unsorted);
    law_sorting(unsorted);
    lemma_windows_of_actor(events, actor);
    let window = windows[i];
    assert(windows.contains(window));
    assert(windows.to_multiset().count(window) > 0);
    assert(unsorted.to_multiset().count(window) > 0);
    assert(unsorted.contains(window));
    let u = choose|u: int| 0 <= u < unsorted.len() && unsorted[u] == window;
    assert(is_window_of(unsorted[u], events, actor));
    let k = choose|k: int|
        0 <= k < events.len() && tells_player(#[trigger] events[k], actor) && is_told_by(
            window,
            events[k],
        );
    let samples = window_samples(bundle, windows, i);
    let names = name_by_guid(players);
    let index = tracks_by_name(tracks, players);
    if samples.len() > 0 {
        let guid = window.player_state->0;
        let name = guid_text(names, window.player_state)->0;
        lemma_name_of_guid(players, guid);
        lemma_track_by_name(tracks, players, name);
        let tr = index[name] as int;
        let p = choose|p: int| #[trigger] is_last_named(players, p, guid, name);
        let end = if i + 1 < windows.len() {
            windows[i + 1].t_ms
        } else {
            u64::MAX
        };
        let own = tracks[tr].samples@;
        let within = |s: TrackSample3| window.t_ms <= s.t_ms && s.t_ms < end;
        assert(samples == own.filter(within));
        assert forall|s: int| 0 <= s < samples.len() implies is_sample_of_player(
            #[trigger] samples[s],
            bundle,
            actor,
        ) by {
            let sample = samples[s];
            own.lemma_filter_pred(within, s);
            assert(own.filter(within).contains(sample));
            own.lemma_filter_contains_rev(within, sample);
            assert forall|j: int|
                0 <= j < events.len() && tells_player(#[trigger] events[j], actor) implies events[j].t_ms
                <= events[k].t_ms || events[j].t_ms > sample.t_ms by {
                let other = window_of(events[j]);
                assert(unsorted.contains(other));
                assert(unsorted.to_multiset().count(other) > 0);
                assert(windows.to_multiset().count(other) > 0);
                assert(windows.contains(other));
                let w = choose|w: int| 0 <= w < windows.len() && windows[w] == other;
                if w < i {
                    assert(windows[w].time() <= windows[i].time());
                } else if w > i + 1 {
                    assert(windows[i + 1].time() <= windows[w].time());
                }
            }
            assert(tells_number(events[k], guid));
            assert(is_sample_of_player(sample, bundle, actor));
        }
    }
}

/// The samples of some windows are those of their players.
proof fn lemma_samples_of_windows(bundle: Bundle, actor: u32, n: int)
    requires
        0 <= n <= windows_of_actor(bundle.events.properties@, actor).len(),
        bundle.tracks.players@.len() <= usize::MAX,
    ensures
        ({
            let windows = by_time(windows_of_actor(bundle.events.properties@, actor));
            let samples = samples_of_windows(bundle, windows, n);
            forall|s: int|
                0 <= s < samples.len() ==> is_sample_of_player(#[trigger] samples[s], bundle, actor)
        }),
    decreases n,
{
    if n > 0 {
        lemma_samples_of_windows(bundle, actor, n - 1);
        lemma_window_samples(bundle, actor, n - 1);
        let windows = by_time(windows_of_actor(bundle.events.properties@, actor));
        let before = samples_of_windows(bundle, windows, n - 1);
        let more = window_samples(bundle, windows, n - 1);
        let all = samples_of_windows(bundle, windows, n);
        assert forall|s: int| 0 <= s < all.len() implies is_sample_of_player(
            #[trigger] all[s],
            bundle,
            actor,
        ) by {
            if s < before.len() {
                assert(all[s] == before[s]);
            } else {
                assert(all[s] == more[s - before.len()]);
            }
        }
    }
}

/// The items with one for each time are some of the items.
proof fn lemma_one_per_time_contains<T: HasTime>(items: Seq<T>)
    ensures
        forall|i: int|
            0 <= i < one_per_time(items).len() ==> items.contains(#[trigger] one_per_time(items)[i]),
    decreases items.len(),
{
    if items.len() > 0 {
        let front = items.drop_last();
        lemma_one_per_time_contains(front);
        let kept = one_per_time(front);
        let all = one_per_time(items);
        assert forall|i: int| 0 <= i < all.len() implies items.contains(#[trigger] all[i]) by {
            if i < kept.len() {
                assert(all[i] == kept[i]);
                let k = choose|k: int| 0 <= k < front.len() && front[k] == kept[i];
                assert(items[k] == all[i]);
            } else {
                assert(items[items.len() - 1] == all[i]);
            }
        }
    }
}

/// The positions that an actor has from players are samples of the player that
/// it has at the time, one for each time, in their order.
pub proof fn law_positions_of_players(bundle: Bundle, actor: u32)
    ensures
        ({
            let samples = inferred_samples(bundle, actor);
            &&& forall|s: int|
                0 <= s < samples.len() ==> is_sample_of_player(#[trigger] samples[s], bundle, actor)
            &&& forall|i: int, j: int|
                0 <= i < j < samples.len() ==> (#[trigger] samples[i]).t_ms < (
                #[trigger] samples[j]).t_ms
        }),
{
    broadcast use vstd::seq_lib::group_to_multiset_ensures;

    assert(bundle.tracks.players.len() <= usize::MAX);
    let unsorted_windows = windows_of_actor(bundle.events.properties@, actor);
    law_sorting(unsorted_windows);
    let windows = by_time(unsorted_windows);
    let all = samples_of_windows(bundle, windows, windows.len() as int);
    lemma_samples_of_windows(bundle, actor, windows.len() as int);
    law_sorting(all);
    let sorted = by_time(all);
    law_one_per_time(sorted);
    lemma_one_per_time_contains(sorted);
    let samples = inferred_samples(bundle, actor);
    assert forall|s: int| 0 <= s < samples.len() implies is_sample_of_player(
        #[trigger] samples[s],
        bundle,
        actor,
    ) by {
        let sample = samples[s];
        assert(sorted.contains(sample));
        assert(sorted.to_multiset().count(sample) > 0);
        assert(all.to_multiset().count(sample) > 0);
        assert(all.contains(sample));
        let k = choose|k: int| 0 <= k < all.len() && all[k] == sample;
        assert(is_sample_of_player(all[k], bundle, actor));
    }
    assert forall|i: int, j: int| 0 <= i < j < samples.len() implies (#[trigger] samples[i]).t_ms < (
    #[trigger] samples[j]).t_ms by {
        assert(samples[i].time() < samples[j].time());
    }
}

// ---------------------------------------------------------------------------
// Vehicles without an actor
// ---------------------------------------------------------------------------

/// A vehicle or a helicopter has a GUID.
pub open spec fn is_actor(bundle: Bundle, guid: u32) -> bool {
    ||| exists|i: int|
        0 <= i < bundle.actors.vehicles@.len() && (#[trigger] bundle.actors.vehicles@[i]).actor_guid
            == guid
    ||| exists|i: int|
        0 <= i < bundle.actors.helicopters@.len() && (
        #[trigger] bundle.actors.helicopters@[i]).actor_guid == guid
}

/// A vehicle is a part of a hull: `BTR4` is in the name of its class, and its
/// owner is no actor.
pub open spec fn is_part_of(bundle: Bundle, actor: ActorEntity, hull: u32) -> bool {
    &&& actor.class_name matches Some(class) && has_part(class@, "BTR4"@)
    &&& actor.owner == Some(hull)
    &&& !is_actor(bundle, hull)
}

/// Some vehicle is a part of a hull.
pub open spec fn is_hull(bundle: Bundle, hull: u32) -> bool {
    exists|i: int|
        0 <= i < bundle.actors.vehicles@.len() && is_part_of(
            bundle,
            #[trigger] bundle.actors.vehicles@[i],
            hull,
        )
}

/// A track of a vehicle has a GUID and positions in the world.
pub open spec fn has_positions(track: Track3, guid: u32) -> bool {
    track.actor_guid == Some(guid) && plausible_samples(track.samples@).len() > 0
}

/// What is a part of what is as it is computed.
proof fn lemma_hull_of(bundle: Bundle, actor: ActorEntity, hull: u32)
    ensures
        (hull_of(bundle, actor) == Some(hull)) <==> is_part_of(bundle, actor, hull),
{
}

/// What stands under a key of vehicles with actors is an actor.
proof fn lemma_keys_of_actors(
    vehicles: Map<Seq<char>, VehicleModel>,
    bundle: Bundle,
    eos: Map<u32, Seq<char>>,
    actors: Seq<ActorEntity>,
    tracks: Seq<Track3>,
    helicopter: bool,
    interval_ms: u64,
    key: Seq<char>,
)
    requires
        !vehicles.contains_key(key),
        with_actors(vehicles, bundle, eos, actors, tracks, helicopter, interval_ms).contains_key(
            key,
        ),
    ensures
        exists|i: int|
            0 <= i < actors.len() && key == decimal((#[trigger] actors[i]).actor_guid as nat),
    decreases actors.len(),
{
    if actors.len() > 0 {
        let front = actors.drop_last();
        let last = actors.len() - 1;
        if key == decimal(actors[last].actor_guid as nat) {
        } else {
            lemma_keys_of_actors(
                vehicles,
                bundle,
                eos,
                front,
                tracks,
                helicopter,
                interval_ms,
                key,
            );
            let i = choose|i: int|
                0 <= i < front.len() && key == decimal((#[trigger] front[i]).actor_guid as nat);
            assert(actors[i] == front[i]);
        }
    }
}

/// What comes in with hulls and tracks is a hull with positions, or a track with
/// positions: the first of its GUID.
proof fn lemma_keys_of_hulls(
    vehicles: Map<Seq<char>, VehicleModel>,
    bundle: Bundle,
    actors: Seq<ActorEntity>,
    interval_ms: u64,
    key: Seq<char>,
)
    requires
        !vehicles.contains_key(key),
    ensures
        ({
            let all = with_hulls(vehicles, bundle, actors, interval_ms);
            &&& all.contains_key(key) <==> exists|i: int, hull: u32|
                {
                    &&& 0 <= i < actors.len()
                    &&& #[trigger] is_part_of(bundle, actors[i], hull)
                    &&& hull_positions(bundle, hull).len() > 0
                    &&& key == decimal(hull as nat)
                }
            &&& all.contains_key(key) ==> exists|hull: u32|
                key == decimal(hull as nat) && all[key] == #[trigger] hull_vehicle(
                    bundle,
                    hull,
                    interval_ms,
                )
        }),
    decreases actors.len(),
{
    if actors.len() > 0 {
        let front = actors.drop_last();
        let last = actors.len() - 1;
        lemma_keys_of_hulls(vehicles, bundle, front, interval_ms, key);
        let before = with_hulls(vehicles, bundle, front, interval_ms);
        let all = with_hulls(vehicles, bundle, actors, interval_ms);
        assert forall|k: int| 0 <= k < last implies #[trigger] actors[k] == front[k] by {}
        if let Some(hull) = hull_of(bundle, actors[last]) {
            lemma_hull_of(bundle, actors[last], hull);
        }
        if all.contains_key(key) {
            if before.contains_key(key) {
                let (i, hull) = choose|i: int, hull: u32|
                    {
                        &&& 0 <= i < front.len()
                        &&& #[trigger] is_part_of(bundle, front[i], hull)
                        &&& hull_positions(bundle, hull).len() > 0
                        &&& key == decimal(hull as nat)
                    };
                assert(is_part_of(bundle, actors[i], hull));
                assert(all[key] == before[key]);
            } else {
                let hull = hull_of(bundle, actors[last])->0;
                assert(is_part_of(bundle, actors[last], hull));
                assert(all[key] == hull_vehicle(bundle, hull, interval_ms));
            }
        }
        if exists|i: int, hull: u32|
            {
                &&& 0 <= i < actors.len()
                &&& #[trigger] is_part_of(bundle, actors[i], hull)
                &&& hull_positions(bundle, hull).len() > 0
                &&& key == decimal(hull as nat)
            } {
            let (i, hull) = choose|i: int, hull: u32|
                {
                    &&& 0 <= i < actors.len()
                    &&& #[trigger] is_part_of(bundle, actors[i], hull)
                    &&& hull_positions(bundle, hull).len() > 0
                    &&& key == decimal(hull as nat)
                };
            if i < last {
                assert(is_part_of(bundle, front[i], hull));
                assert(before.contains_key(key));
            } else {
                lemma_hull_of(bundle, actors[last], hull);
            }
            assert(all.contains_key(key));
        }
    }
}

/// What comes in with tracks is the first track with positions of its GUID.
proof fn lemma_keys_of_tracks(
    vehicles: Map<Seq<char>, VehicleModel>,
    bundle: Bundle,
    tracks: Seq<Track3>,
    interval_ms: u64,
    guid: u32,
)
    requires
        !vehicles.contains_key(decimal(guid as nat)),
    ensures
        ({
            let all = with_tracks(vehicles, bundle, tracks, interval_ms);
            let key = decimal(guid as nat);
            &&& all.contains_key(key) <==> exists|i: int|
                0 <= i < tracks.len() && has_positions(#[trigger] tracks[i], guid)
            &&& all.contains_key(key) ==> exists|i: int|
                {
                    &&& 0 <= i < tracks.len()
                    &&& has_positions(#[trigger] tracks[i], guid)
                    &&& forall|j: int| 0 <= j < i ==> !has_positions(#[trigger] tracks[j], guid)
                    &&& all[key] == track_vehicle(bundle, tracks[i], guid, interval_ms)
                }
        }),
    decreases tracks.len(),
{
    if tracks.len() > 0 {
        let front = tracks.drop_last();
        let last = tracks.len() - 1;
        let key = decimal(guid as nat);
        lemma_keys_of_tracks(vehicles, bundle, front, interval_ms, guid);
        let before = with_tracks(vehicles, bundle, front, interval_ms);
        let all = with_tracks(vehicles, bundle, tracks, interval_ms);
        assert forall|k: int| 0 <= k < last implies #[trigger] tracks[k] == front[k] by {}
        if let Some(other) = tracks[last].actor_guid {
            lemma_decimal_differs(other as nat, guid as nat);
        }
        if before.contains_key(key) {
            let i = choose|i: int|
                {
                    &&& 0 <= i < front.len()
                    &&& has_positions(#[trigger] front[i], guid)
                    &&& forall|j: int| 0 <= j < i ==> !has_positions(#[trigger] front[j], guid)
                    &&& before[key] == track_vehicle(bundle, front[i], guid, interval_ms)
                };
            assert(has_positions(tracks[i], guid));
            assert forall|j: int| 0 <= j < i implies !has_positions(#[trigger] tracks[j], guid) by {
                assert(tracks[j] == front[j]);
            }
            assert(all[key] == before[key]);
        } else {
            assert forall|j: int| 0 <= j < last implies !has_positions(
                #[trigger] tracks[j],
                guid,
            ) by {
                assert(tracks[j] == front[j]);
            }
        }
    }
}

/// A key of tracks is one of what was there or of a track.
proof fn lemma_key_of_some_track(
    vehicles: Map<Seq<char>, VehicleModel>,
    bundle: Bundle,
    tracks: Seq<Track3>,
    interval_ms: u64,
    key: Seq<char>,
)
    requires
        !vehicles.contains_key(key),
        with_tracks(vehicles, bundle, tracks, interval_ms).contains_key(key),
    ensures
        exists|i: int, guid: u32|
            0 <= i < tracks.len() && #[trigger] has_positions(tracks[i], guid) && key == decimal(
                guid as nat,
            ),
    decreases tracks.len(),
{
    if tracks.len() > 0 {
        let front = tracks.drop_last();
        let last = tracks.len() - 1;
        let before = with_tracks(vehicles, bundle, front, interval_ms);
        if before.contains_key(key) {
            lemma_key_of_some_track(vehicles, bundle, front, interval_ms, key);
            let (i, guid) = choose|i: int, guid: u32|
                0 <= i < front.len() && #[trigger] has_positions(front[i], guid) && key == decimal(
                    guid as nat,
                );
            assert(tracks[i] == front[i]);
            assert(has_positions(tracks[i], guid));
        } else {
            assert(has_positions(tracks[last], tracks[last].actor_guid->0));
        }
    }
}

/// A GUID is that of an actor, of a hull, or of a track with positions.
pub open spec fn is_vehicle_or_track(bundle: Bundle, guid: u32) -> bool {
    ||| is_actor(bundle, guid)
    ||| is_hull(bundle, guid)
    ||| exists|i: int|
        0 <= i < bundle.tracks.vehicles@.len() && has_positions(
            #[trigger] bundle.tracks.vehicles@[i],
            guid,
        )
}

/// The timeline has no vehicle but under the GUID of an actor, of a hull, or of a
/// track with positions.
pub proof fn law_which_vehicles<F: Fn(Float32, Float32) -> bool>(
    timeline: Timeline,
    bundle: &Bundle,
    log_match: Option<&LogMatch>,
    options: &TimelineOptions,
    differs: &F,
    key: Seq<char>,
)
    requires
        call_ensures(build_timeline::<F>, (bundle, log_match, options, differs), timeline),
        timeline.tracks.vehicles@.contains_key(key),
    ensures
        exists|guid: u32|
            key == decimal(guid as nat) && #[trigger] is_vehicle_or_track(*bundle, guid),
{
    let b = *bundle;
    let eos = eos_by_guid(b.players@);
    let interval_ms = options.sample_interval_ms;
    let all = all_vehicles(b, eos, interval_ms);
    assert(vehicle_models(timeline.tracks.vehicles@) == all);
    assert(all.contains_key(key));
    let ground = with_actors(
        Map::empty(),
        b,
        eos,
        b.actors.vehicles@,
        b.tracks.vehicles@,
        false,
        interval_ms,
    );
    let with = vehicles_with_actors(b, eos, interval_ms);
    let hulls = with_hulls(with, b, b.actors.vehicles@, interval_ms);
    if ground.contains_key(key) {
        lemma_keys_of_actors(
            Map::empty(),
            b,
            eos,
            b.actors.vehicles@,
            b.tracks.vehicles@,
            false,
            interval_ms,
            key,
        );
        let i = choose|i: int|
            0 <= i < b.actors.vehicles@.len() && key == decimal(
                (#[trigger] b.actors.vehicles@[i]).actor_guid as nat,
            );
        assert(is_vehicle_or_track(b, b.actors.vehicles@[i].actor_guid));
    } else if with.contains_key(key) {
        lemma_keys_of_actors(
            ground,
            b,
            eos,
            b.actors.helicopters@,
            b.tracks.helicopters@,
            true,
            interval_ms,
            key,
        );
        let i = choose|i: int|
            0 <= i < b.actors.helicopters@.len() && key == decimal(
                (#[trigger] b.actors.helicopters@[i]).actor_guid as nat,
            );
        assert(is_vehicle_or_track(b, b.actors.helicopters@[i].actor_guid));
    } else if hulls.contains_key(key) {
        lemma_keys_of_hulls(with, b, b.actors.vehicles@, interval_ms, key);
        let (i, hull) = choose|i: int, hull: u32|
            {
                &&& 0 <= i < b.actors.vehicles@.len()
                &&& #[trigger] is_part_of(b, b.actors.vehicles@[i], hull)
                &&& hull_positions(b, hull).len() > 0
                &&& key == decimal(hull as nat)
            };
        assert(is_hull(b, hull));
        assert(is_vehicle_or_track(b, hull));
    } else {
        lemma_key_of_some_track(hulls, b, b.tracks.vehicles@, interval_ms, key);
        let (i, guid) = choose|i: int, guid: u32|
            0 <= i < b.tracks.vehicles@.len() && #[trigger] has_positions(
                b.tracks.vehicles@[i],
                guid,
            ) && key == decimal(guid as nat);
        assert(has_positions(b.tracks.vehicles@[i], guid));
        assert(is_vehicle_or_track(b, guid));
    }
}

/// A GUID of no actor has no vehicle with an actor under it.
proof fn lemma_no_actor(bundle: Bundle, interval_ms: u64, guid: u32)
    requires
        !is_actor(bundle, guid),
    ensures
        !vehicles_with_actors(
            bundle,
            eos_by_guid(bundle.players@),
            interval_ms,
        ).contains_key(decimal(guid as nat)),
{
    let b = bundle;
    let eos = eos_by_guid(b.players@);
    let key = decimal(guid as nat);
    let ground = with_actors(
        Map::empty(),
        b,
        eos,
        b.actors.vehicles@,
        b.tracks.vehicles@,
        false,
        interval_ms,
    );
    if ground.contains_key(key) {
        lemma_keys_of_actors(
            Map::empty(),
            b,
            eos,
            b.actors.vehicles@,
            b.tracks.vehicles@,
            false,
            interval_ms,
            key,
        );
        let i = choose|i: int|
            0 <= i < b.actors.vehicles@.len() && key == decimal(
                (#[trigger] b.actors.vehicles@[i]).actor_guid as nat,
            );
        lemma_decimal_differs(b.actors.vehicles@[i].actor_guid as nat, guid as nat);
    } else if vehicles_with_actors(b, eos, interval_ms).contains_key(key) {
        lemma_keys_of_actors(
            ground,
            b,
            eos,
            b.actors.helicopters@,
            b.tracks.helicopters@,
            true,
            interval_ms,
            key,
        );
        let i = choose|i: int|
            0 <= i < b.actors.helicopters@.len() && key == decimal(
                (#[trigger] b.actors.helicopters@[i]).actor_guid as nat,
            );
        lemma_decimal_differs(b.actors.helicopters@[i].actor_guid as nat, guid as nat);
    }
}

/// A track with positions whose GUID is that of neither an actor nor a hull is a
/// ground vehicle: the first such track, with the short name of its class, the
/// team that is told of it, its positions spaced by the interval, and no seats.
pub proof fn law_vehicles_of_tracks<F: Fn(Float32, Float32) -> bool>(
    timeline: Timeline,
    bundle: &Bundle,
    log_match: Option<&LogMatch>,
    options: &TimelineOptions,
    differs: &F,
    i: int,
    guid: u32,
)
    requires
        call_ensures(build_timeline::<F>, (bundle, log_match, options, differs), timeline),
        0 <= i < bundle.tracks.vehicles@.len(),
        has_positions(bundle.tracks.vehicles@[i], guid),
        forall|j: int|
            0 <= j < i ==> !has_positions(#[trigger] bundle.tracks.vehicles@[j], guid),
        !is_actor(*bundle, guid),
        !is_hull(*bundle, guid),
    ensures
        ({
            let track = bundle.tracks.vehicles@[i];
            let key = decimal(guid as nat);
            let shown = timeline.tracks.vehicles@[key];
            let events = bundle.events.properties@;
            &&& timeline.tracks.vehicles@.contains_key(key)
            &&& shown.class@ == class_text(track.class_name)
            &&& shown.kind@ == "ground"@
            &&& shown.seat_events@.len() == 0
            &&& exists|at: Seq<int>| #[trigger]
                are_spaced(
                    shown.samples@,
                    plausible_samples(track.samples@),
                    options.sample_interval_ms,
                    at,
                )
            &&& no_team_told(events, guid) ==> shown.team_id is None
            &&& forall|team: u32| #[trigger]
                is_told_team(events, guid, team) ==> shown.team_id == shown_team(
                    *bundle,
                    Some(team),
                )
        }),
{
    let b = *bundle;
    let eos = eos_by_guid(b.players@);
    let interval_ms = options.sample_interval_ms;
    let all = all_vehicles(b, eos, interval_ms);
    let models = vehicle_models(timeline.tracks.vehicles@);
    assert(models == all);
    let key = decimal(guid as nat);
    let with = vehicles_with_actors(b, eos, interval_ms);
    lemma_no_actor(b, interval_ms, guid);
    let hulls = with_hulls(with, b, b.actors.vehicles@, interval_ms);
    lemma_keys_of_hulls(with, b, b.actors.vehicles@, interval_ms, key);
    if hulls.contains_key(key) {
        let (k, hull) = choose|k: int, hull: u32|
            {
                &&& 0 <= k < b.actors.vehicles@.len()
                &&& #[trigger] is_part_of(b, b.actors.vehicles@[k], hull)
                &&& hull_positions(b, hull).len() > 0
                &&& key == decimal(hull as nat)
            };
        lemma_decimal_differs(hull as nat, guid as nat);
        assert(is_hull(b, guid));
    }
    lemma_keys_of_tracks(hulls, b, b.tracks.vehicles@, interval_ms, guid);
    assert(all.contains_key(key));
    let first = choose|k: int|
        {
            &&& 0 <= k < b.tracks.vehicles@.len()
            &&& has_positions(#[trigger] b.tracks.vehicles@[k], guid)
            &&& forall|j: int|
                0 <= j < k ==> !has_positions(#[trigger] b.tracks.vehicles@[j], guid)
            &&& all[key] == track_vehicle(b, b.tracks.vehicles@[k], guid, interval_ms)
        };
    assert(first == i) by {
        if first < i {
            assert(!has_positions(b.tracks.vehicles@[first], guid));
        } else if i < first {
            assert(!has_positions(b.tracks.vehicles@[i], guid));
        }
    }
    assert(models.contains_key(key));
    assert(timeline.tracks.vehicles@.contains_key(key));
    let shown = timeline.tracks.vehicles@[key];
    assert(models[key] == shown@);
    assert(shown@.seat_events.len() == shown.seat_events@.len());
    let at = law_positions_are_samples(
        plausible_samples(b.tracks.vehicles@[i].samples@),
        interval_ms,
    );
    assert(are_spaced(
        shown.samples@,
        plausible_samples(b.tracks.vehicles@[i].samples@),
        interval_ms,
        at,
    ));
    lemma_team_of_actor(b.events.properties@, guid);
    lemma_one_told_team(b.events.properties@, guid);
}

/// One team is told of an actor at most.
proof fn lemma_one_told_team(events: Seq<PropertyEvent>, actor: u32)
    ensures
        no_team_told(events, actor) ==> hint(teams_of_actors(events), actor) is None,
        forall|team: u32| #[trigger]
            is_told_team(events, actor, team) ==> hint(teams_of_actors(events), actor) == Some(team),
{
    lemma_team_of_actor(events, actor);
    assert forall|team: u32| #[trigger] is_told_team(events, actor, team) implies hint(
        teams_of_actors(events),
        actor,
    ) == Some(team) by {
        let k = choose|k: int|
            {
                &&& 0 <= k < events.len()
                &&& tells_team(#[trigger] events[k], actor)
                &&& tells_number(events[k], team)
                &&& forall|j: int| k < j < events.len() ==> !tells_team(#[trigger] events[j], actor)
            };
        assert(!no_team_told(events, actor)) by {
            assert(tells_team(events[k], actor));
        }
        let told = hint(teams_of_actors(events), actor)->0;
        let m = choose|m: int|
            {
                &&& 0 <= m < events.len()
                &&& tells_team(#[trigger] events[m], actor)
                &&& tells_number(events[m], told)
                &&& forall|j: int| m < j < events.len() ==> !tells_team(#[trigger] events[j], actor)
            };
        if k < m {
            assert(!tells_team(events[m], actor));
        } else if m < k {
            assert(!tells_team(events[k], actor));
        }
        assert(told == team);
    }
    if no_team_told(events, actor) && hint(teams_of_actors(events), actor) is Some {
        let told = hint(teams_of_actors(events), actor)->0;
        assert(is_told_team(events, actor, told));
    }
}

/// A hull with positions is a ground vehicle of the class `BTR4`, with the team
/// that is told of it, its positions spaced by the interval, and no seats.
pub proof fn law_hulls<F: Fn(Float32, Float32) -> bool>(
    timeline: Timeline,
    bundle: &Bundle,
    log_match: Option<&LogMatch>,
    options: &TimelineOptions,
    differs: &F,
    hull: u32,
)
    requires
        call_ensures(build_timeline::<F>, (bundle, log_match, options, differs), timeline),
        is_hull(*bundle, hull),
        hull_positions(*bundle, hull).len() > 0,
    ensures
        ({
            let key = decimal(hull as nat);
            let shown = timeline.tracks.vehicles@[key];
            let events = bundle.events.properties@;
            &&& timeline.tracks.vehicles@.contains_key(key)
            &&& shown.class@ == "BTR4"@
            &&& shown.kind@ == "ground"@
            &&& shown.seat_events@.len() == 0
            &&& exists|at: Seq<int>| #[trigger]
                are_spaced(
                    shown.samples@,
                    hull_positions(*bundle, hull),
                    options.sample_interval_ms,
                    at,
                )
            &&& no_team_told(events, hull) ==> shown.team_id is None
            &&& forall|team: u32| #[trigger]
                is_told_team(events, hull, team) ==> shown.team_id == shown_team(
                    *bundle,
                    Some(team),
                )
        }),
{
    let b = *bundle;
    let eos = eos_by_guid(b.players@);
    let interval_ms = options.sample_interval_ms;
    let all = all_vehicles(b, eos, interval_ms);
    let models = vehicle_models(timeline.tracks.vehicles@);
    assert(models == all);
    let key = decimal(hull as nat);
    let i = choose|i: int|
        0 <= i < b.actors.vehicles@.len() && is_part_of(
            b,
            #[trigger] b.actors.vehicles@[i],
            hull,
        );
    let with = vehicles_with_actors(b, eos, interval_ms);
    assert(!is_actor(b, hull));
    lemma_no_actor(b, interval_ms, hull);
    lemma_keys_of_hulls(with, b, b.actors.vehicles@, interval_ms, key);
    let hulls = with_hulls(with, b, b.actors.vehicles@, interval_ms);
    assert(hulls.contains_key(key));
    let other = choose|other: u32|
        key == decimal(other as nat) && hulls[key] == #[trigger] hull_vehicle(
            b,
            other,
            interval_ms,
        );
    lemma_decimal_differs(other as nat, hull as nat);
    lemma_known_vehicles_stay(
        hulls,
        b,
        Seq::empty(),
        b.tracks.vehicles@,
        interval_ms,
        key,
    );
    assert(all[key] == hull_vehicle(b, hull, interval_ms));
    assert(models.contains_key(key));
    assert(timeline.tracks.vehicles@.contains_key(key));
    let shown = timeline.tracks.vehicles@[key];
    assert(models[key] == shown@);
    assert(shown@.seat_events.len() == shown.seat_events@.len());
    let at = law_positions_are_samples(hull_positions(b, hull), interval_ms);
    assert(are_spaced(shown.samples@, hull_positions(b, hull), interval_ms, at));
    lemma_team_of_actor(b.events.properties@, hull);
    lemma_one_told_team(b.events.properties@, hull);
}

/// A sample is one of a part of a hull: of its last track among those of the
/// helicopters, or where it has none there of its last track among those of the
/// vehicles, or where it has no track the place in the world where it appears.
pub open spec fn is_sample_of_part(sample: TrackSample3, bundle: Bundle, part: ActorEntity) -> bool {
    let guid = part.actor_guid;
    if has_track(bundle.tracks.helicopters@, guid) {
        is_in_last_track(bundle.tracks.helicopters@, guid, sample)
    } else if has_track(bundle.tracks.vehicles@, guid) {
        is_in_last_track(bundle.tracks.vehicles@, guid, sample)
    } else {
        is_appearance(sample, part)
    }
}

/// One of some tracks is that of an actor.
pub open spec fn has_track(tracks: Seq<Track3>, guid: u32) -> bool {
    exists|i: int| 0 <= i < tracks.len() && (#[trigger] tracks[i]).actor_guid == Some(guid)
}

/// A sample is one of the last track of an actor.
pub open spec fn is_in_last_track(tracks: Seq<Track3>, guid: u32, sample: TrackSample3) -> bool {
    exists|i: int|
        {
            &&& 0 <= i < tracks.len()
            &&& (#[trigger] tracks[i]).actor_guid == Some(guid)
            &&& tracks[i].samples@.contains(sample)
            &&& forall|later: int|
                i < later < tracks.len() ==> (#[trigger] tracks[later]).actor_guid != Some(guid)
        }
}

/// The samples of the last track of an actor.
proof fn lemma_last_samples(tracks: Seq<Track3>, guid: u32)
    ensures
        last_samples(tracks, guid) is Some <==> has_track(tracks, guid),
        last_samples(tracks, guid) matches Some(samples) ==> forall|s: int|
            0 <= s < samples.len() ==> is_in_last_track(tracks, guid, #[trigger] samples[s]),
    decreases tracks.len(),
{
    if tracks.len() > 0 {
        let front = tracks.drop_last();
        let last = tracks.len() - 1;
        lemma_last_samples(front, guid);
        assert forall|k: int| 0 <= k < last implies #[trigger] tracks[k] == front[k] by {}
        if tracks[last].actor_guid == Some(guid) {
            let samples = tracks[last].samples@;
            assert forall|s: int| 0 <= s < samples.len() implies is_in_last_track(
                tracks,
                guid,
                #[trigger] samples[s],
            ) by {
                assert(tracks[last].samples@.contains(samples[s]));
            }
        } else {
            if has_track(front, guid) {
                let i = choose|i: int|
                    0 <= i < front.len() && (#[trigger] front[i]).actor_guid == Some(guid);
                assert(tracks[i] == front[i]);
            }
            if let Some(samples) = last_samples(front, guid) {
                assert forall|s: int| 0 <= s < samples.len() implies is_in_last_track(
                    tracks,
                    guid,
                    #[trigger] samples[s],
                ) by {
                    let i = choose|i: int|
                        {
                            &&& 0 <= i < front.len()
                            &&& (#[trigger] front[i]).actor_guid == Some(guid)
                            &&& front[i].samples@.contains(samples[s])
                            &&& forall|later: int|
                                i < later < front.len() ==> (#[trigger] front[later]).actor_guid
                                    != Some(guid)
                        };
                    assert(tracks[i] == front[i]);
                }
            }
        }
    }
}

/// The samples of the parts of a hull are those of its parts.
proof fn lemma_samples_of_parts(bundle: Bundle, actors: Seq<ActorEntity>, hull: u32)
    ensures
        forall|s: int|
            0 <= s < samples_of_parts(bundle, actors, hull).len() ==> is_sample_of_one(
                #[trigger] samples_of_parts(bundle, actors, hull)[s],
                bundle,
                actors,
                hull,
            ),
    decreases actors.len(),
{
    if actors.len() > 0 {
        let front = actors.drop_last();
        let last = actors.len() - 1;
        lemma_samples_of_parts(bundle, front, hull);
        let part = actors[last];
        lemma_hull_of(bundle, part, hull);
        lemma_last_samples(bundle.tracks.helicopters@, part.actor_guid);
        lemma_last_samples(bundle.tracks.vehicles@, part.actor_guid);
        let before = samples_of_parts(bundle, front, hull);
        let all = samples_of_parts(bundle, actors, hull);
        let more = part_samples(bundle, part);
        assert forall|s: int| 0 <= s < all.len() implies is_sample_of_one(
            #[trigger] all[s],
            bundle,
            actors,
            hull,
        ) by {
            if s < before.len() {
                assert(all[s] == before[s]);
                let i = choose|i: int|
                    0 <= i < front.len() && is_part_of(bundle, #[trigger] front[i], hull)
                        && is_sample_of_part(before[s], bundle, front[i]);
                assert(actors[i] == front[i]);
            } else {
                let sample = more[s - before.len()];
                assert(all[s] == sample);
                assert(is_sample_of_part(sample, bundle, part));
                assert(is_part_of(bundle, actors[last], hull));
            }
        }
    }
}

/// A sample is one of a part of a hull among some actors.
pub open spec fn is_sample_of_one(
    sample: TrackSample3,
    bundle: Bundle,
    actors: Seq<ActorEntity>,
    hull: u32,
) -> bool {
    exists|i: int|
        0 <= i < actors.len() && is_part_of(bundle, #[trigger] actors[i], hull)
            && is_sample_of_part(sample, bundle, actors[i])
}

/// The positions of a hull are samples of its parts that are in the world, one
/// for each time, in their order.
pub proof fn law_positions_of_hulls(bundle: Bundle, hull: u32)
    ensures
        ({
            let positions = hull_positions(bundle, hull);
            &&& forall|s: int|
                0 <= s < positions.len() ==> is_plausible(
                    (#[trigger] positions[s]).x,
                    positions[s].y,
                ) && is_sample_of_one(positions[s], bundle, bundle.actors.vehicles@, hull)
        }),
{
    broadcast use vstd::seq_lib::group_to_multiset_ensures;

    let all = samples_of_parts(bundle, bundle.actors.vehicles@, hull);
    lemma_samples_of_parts(bundle, bundle.actors.vehicles@, hull);
    law_sorting(all);
    let sorted = by_time(all);
    let single = one_per_time(sorted);
    lemma_one_per_time_contains(sorted);
    let positions = hull_positions(bundle, hull);
    let in_world = |s: TrackSample3| is_plausible(s.x, s.y);
    assert(positions == single.filter(in_world));
    assert forall|s: int| 0 <= s < positions.len() implies is_plausible(
        (#[trigger] positions[s]).x,
        positions[s].y,
    ) && is_sample_of_one(positions[s], bundle, bundle.actors.vehicles@, hull) by {
        let sample = positions[s];
        single.lemma_filter_pred(in_world, s);
        assert(single.filter(in_world).contains(sample));
        single.lemma_filter_contains_rev(in_world, sample);
        let k = choose|k: int| 0 <= k < single.len() && single[k] == sample;
        assert(sorted.contains(single[k]));
        assert(sorted.to_multiset().count(sample) > 0);
        assert(all.to_multiset().count(sample) > 0);
        assert(all.contains(sample));
        let m = choose|m: int| 0 <= m < all.len() && all[m] == sample;
        assert(is_sample_of_one(all[m], bundle, bundle.actors.vehicles@, hull));
    }
}

/// An event is the one that tells the player of an actor at a time: it is not
/// later, each other such event is earlier than it or later than the time.
pub open spec fn is_told_at(events: Seq<PropertyEvent>, k: int, actor: u32, t_ms: u64) -> bool {
    &&& 0 <= k < events.len()
    &&& tells_player(events[k], actor)
    &&& events[k].t_ms <= t_ms
    &&& forall|j: int|
        0 <= j < events.len() && j != k && tells_player(#[trigger] events[j], actor)
            ==> events[j].t_ms < events[k].t_ms || events[j].t_ms > t_ms
}

/// A name that the last player with a GUID and a name has stands for the GUID.
proof fn lemma_named_guid(players: Seq<Player>, p: int, guid: u32, name: Seq<char>)
    requires
        is_last_named(players, p, guid, name),
    ensures
        name_by_guid(players).contains_key(guid),
        name_by_guid(players)[guid] == name,
    decreases players.len(),
{
    let front = players.drop_last();
    let last = players.len() - 1;
    if p < last {
        assert(front[p] == players[p]);
        assert(is_last_named(front, p, guid, name)) by {
            assert forall|later: int|
                p < later < front.len() && (#[trigger] front[later]).player_state_guid
                    == guid implies front[later].name is None by {
                assert(front[later] == players[later]);
            }
        }
        lemma_named_guid(front, p, guid, name);
        assert(players[last].player_state_guid == guid ==> players[last].name is None);
    }
}

/// Each window stands among the samples of all.
proof fn lemma_window_among_samples(
    bundle: Bundle,
    windows: Seq<OwnerWindow>,
    n: int,
    i: int,
    sample: TrackSample3,
)
    requires
        0 <= i < n,
        window_samples(bundle, windows, i).contains(sample),
    ensures
        samples_of_windows(bundle, windows, n).contains(sample),
    decreases n,
{
    let before = samples_of_windows(bundle, windows, n - 1);
    let more = window_samples(bundle, windows, n - 1);
    let all = samples_of_windows(bundle, windows, n);
    if i == n - 1 {
        let k = choose|k: int| 0 <= k < more.len() && more[k] == sample;
        assert(all[before.len() + k] == sample);
    } else {
        lemma_window_among_samples(bundle, windows, n - 1, i, sample);
        let k = choose|k: int| 0 <= k < before.len() && before[k] == sample;
        assert(all[k] == sample);
    }
}

/// Where an event tells the player of an actor at the time of a sample of the
/// track of that player, the actor has a position from players at that time.
pub proof fn law_every_position_of_players(
    bundle: Bundle,
    actor: u32,
    sample: TrackSample3,
    k: int,
    p: int,
    guid: u32,
    name: Seq<char>,
    tr: int,
)
    requires
        is_told_at(bundle.events.properties@, k, actor, sample.t_ms),
        guid > 0,
        packed_number(bundle.events.properties@[k]) == Some(guid),
        is_last_named(bundle.players@, p, guid, name),
        is_last_going_by(bundle.tracks.players@, bundle.players@, tr, name),
        bundle.tracks.players@[tr].samples@.contains(sample),
        sample.t_ms < u64::MAX,
    ensures
        exists|s: int|
            0 <= s < inferred_samples(bundle, actor).len() && (#[trigger] inferred_samples(
                bundle,
                actor,
            )[s]).t_ms == sample.t_ms,
{
    broadcast use vstd::seq_lib::group_to_multiset_ensures;

    let events = bundle.events.properties@;
    let players = bundle.players@;
    let tracks = bundle.tracks.players@;
    assert(bundle.tracks.players.len() <= usize::MAX);
    let unsorted = windows_of_actor(events, actor);
    let windows = by_time(unsorted);
    law_sorting(unsorted);
    lemma_windows_of_actor(events, actor);
    let window = window_of(events[k]);
    assert(unsorted.contains(window));
    assert(unsorted.to_multiset().count(window) > 0);
    assert(windows.to_multiset().count(window) > 0);
    assert(windows.contains(window));
    let i = lemma_last_index_of(windows, window);
    assert(window.player_state == Some(guid));
    lemma_named_guid(players, p, guid, name);
    lemma_track_by_name(tracks, players, name);
    let index = tracks_by_name(tracks, players);
    assert(index.contains_key(name));
    let found = index[name] as int;
    assert(found == tr) by {
        if found < tr {
            assert(!track_goes_by(tracks[tr], players, name));
        } else if tr < found {
            assert(!track_goes_by(tracks[found], players, name));
        }
    }
    let end = if i + 1 < windows.len() {
        windows[i + 1].t_ms
    } else {
        u64::MAX
    };
    assert(sample.t_ms < end) by {
        if i + 1 < windows.len() {
            let next = windows[i + 1];
            assert(windows.contains(next));
            assert(windows.to_multiset().count(next) > 0);
            assert(unsorted.to_multiset().count(next) > 0);
            assert(unsorted.contains(next));
            let j = lemma_event_of_window(events, actor, next);
            assert(windows[i].time() <= windows[i + 1].time());
            assert(next != window);
            assert(j != k);
        }
    }
    let own = tracks[tr].samples@;
    let within = |s: TrackSample3| window.t_ms <= s.t_ms && s.t_ms < end;
    assert(window_samples(bundle, windows, i) == own.filter(within));
    let m = choose|m: int| 0 <= m < own.len() && own[m] == sample;
    own.lemma_filter_contains(within, m);
    lemma_window_among_samples(bundle, windows, windows.len() as int, i, sample);
    let all = samples_of_windows(bundle, windows, windows.len() as int);
    law_sorting(all);
    let sorted = by_time(all);
    assert(all.to_multiset().count(sample) > 0);
    assert(sorted.to_multiset().count(sample) > 0);
    assert(sorted.contains(sample));
    law_one_per_time(sorted);
    let at = at_time(sorted, sample.t_ms);
    let q = choose|q: int| 0 <= q < sorted.len() && sorted[q] == sample;
    lemma_some_at_time(sorted, q);
    let single = one_per_time(sorted);
    assert(single.contains(at[0]));
    let s = choose|s: int| 0 <= s < single.len() && single[s] == at[0];
    assert(inferred_samples(bundle, actor)[s].t_ms == sample.t_ms);
}

/// Where an item has a time, there is a first item of that time.
proof fn lemma_some_at_time<T: HasTime>(items: Seq<T>, i: int)
    requires
        0 <= i < items.len(),
    ensures
        at_time(items, items[i].time()).len() > 0,
        at_time(items, items[i].time())[0].time() == items[i].time(),
    decreases items.len(),
{
    let t = items[i].time();
    let front = items.drop_last();
    let last = items.last();
    assert(items =~= front.push(last));
    lemma_at_time_push(front, last, t);
    if i < front.len() {
        lemma_some_at_time(front, i);
    } else {
        lemma_all_at_time(front, t);
    }
}

/// All items of a time have that time.
proof fn lemma_all_at_time<T: HasTime>(items: Seq<T>, t: u64)
    ensures
        at_time(items, t).len() > 0 ==> at_time(items, t)[0].time() == t,
    decreases items.len(),
{
    if items.len() > 0 {
        let front = items.drop_last();
        assert(items =~= front.push(items.last()));
        lemma_at_time_push(front, items.last(), t);
        lemma_all_at_time(front, t);
    } else {
        reveal(Seq::filter);
    }
}

/// The last index at which an item stands.
proof fn lemma_last_index_of(windows: Seq<OwnerWindow>, window: OwnerWindow) -> (i: int)
    requires
        windows.contains(window),
    ensures
        0 <= i < windows.len(),
        windows[i] == window,
        i + 1 < windows.len() ==> windows[i + 1] != window,
    decreases windows.len(),
{
    if windows.last() == window {
        windows.len() - 1
    } else {
        let front = windows.drop_last();
        let k = choose|k: int| 0 <= k < windows.len() && windows[k] == window;
        assert(front[k] == window);
        let i = lemma_last_index_of(front, window);
        if i + 1 < front.len() {
            assert(windows[i + 1] == front[i + 1]);
        }
        i
    }
}

/// A window is that of some event.
proof fn lemma_event_of_window(
    events: Seq<PropertyEvent>,
    actor: u32,
    window: OwnerWindow,
) -> (k: int)
    requires
        windows_of_actor(events, actor).contains(window),
    ensures
        0 <= k < events.len(),
        tells_player(events[k], actor),
        window == window_of(events[k]),
    decreases events.len(),
{
    let front = events.drop_last();
    let last = events.len() - 1;
    let all = windows_of_actor(events, actor);
    let before = windows_of_actor(front, actor);
    if before.contains(window) {
        let k = lemma_event_of_window(front, actor, window);
        assert(events[k] == front[k]);
        k
    } else {
        let i = choose|i: int| 0 <= i < all.len() && all[i] == window;
        if i < before.len() {
            assert(before[i] == window);
        }
        last
    }
}

/// A sample of the last track of an actor is among the samples of it.
proof fn lemma_in_last_samples(tracks: Seq<Track3>, guid: u32, sample: TrackSample3)
    requires
        is_in_last_track(tracks, guid, sample),
    ensures
        last_samples(tracks, guid) matches Some(samples) && samples.contains(sample),
    decreases tracks.len(),
{
    let i = choose|i: int|
        {
            &&& 0 <= i < tracks.len()
            &&& (#[trigger] tracks[i]).actor_guid == Some(guid)
            &&& tracks[i].samples@.contains(sample)
            &&& forall|later: int|
                i < later < tracks.len() ==> (#[trigger] tracks[later]).actor_guid != Some(guid)
        };
    let front = tracks.drop_last();
    let last = tracks.len() - 1;
    if i < last {
        assert(tracks[last].actor_guid != Some(guid));
        assert(front[i] == tracks[i]);
        assert(is_in_last_track(front, guid, sample)) by {
            assert forall|later: int| i < later < front.len() implies (
            #[trigger] front[later]).actor_guid != Some(guid) by {
                assert(front[later] == tracks[later]);
            }
        }
        lemma_in_last_samples(front, guid, sample);
    }
}

/// A sample of a part of a hull is among the samples of its parts.
proof fn lemma_among_parts(
    bundle: Bundle,
    actors: Seq<ActorEntity>,
    hull: u32,
    i: int,
    sample: TrackSample3,
)
    requires
        0 <= i < actors.len(),
        is_part_of(bundle, actors[i], hull),
        is_sample_of_part(sample, bundle, actors[i]),
        is_plausible(sample.x, sample.y),
    ensures
        samples_of_parts(bundle, actors, hull).contains(sample),
    decreases actors.len(),
{
    let front = actors.drop_last();
    let last = actors.len() - 1;
    let before = samples_of_parts(bundle, front, hull);
    let all = samples_of_parts(bundle, actors, hull);
    if i < last {
        assert(front[i] == actors[i]);
        lemma_among_parts(bundle, front, hull, i, sample);
        let k = choose|k: int| 0 <= k < before.len() && before[k] == sample;
        assert(all[k] == sample);
    } else {
        let part = actors[last];
        let guid = part.actor_guid;
        lemma_hull_of(bundle, part, hull);
        lemma_last_samples(bundle.tracks.helicopters@, guid);
        lemma_last_samples(bundle.tracks.vehicles@, guid);
        if has_track(bundle.tracks.helicopters@, guid) {
            lemma_in_last_samples(bundle.tracks.helicopters@, guid, sample);
        } else if has_track(bundle.tracks.vehicles@, guid) {
            lemma_in_last_samples(bundle.tracks.vehicles@, guid, sample);
        } else {
            let opening = opening_sample(part);
            assert(opening == sample);
            assert(part_samples(bundle, part)[0] == sample);
        }
        let more = part_samples(bundle, part);
        assert(more.contains(sample));
        let k = choose|k: int| 0 <= k < more.len() && more[k] == sample;
        assert(all[before.len() + k] == sample);
    }
}

/// Where a part of a hull has a sample, and all samples of its parts at that time
/// are in the world, the hull has a position at that time.
pub proof fn law_every_position_of_hulls(bundle: Bundle, hull: u32, i: int, sample: TrackSample3)
    requires
        0 <= i < bundle.actors.vehicles@.len(),
        is_part_of(bundle, bundle.actors.vehicles@[i], hull),
        is_sample_of_part(sample, bundle, bundle.actors.vehicles@[i]),
        is_plausible(sample.x, sample.y),
        forall|other: TrackSample3| #[trigger]
            is_sample_of_one(other, bundle, bundle.actors.vehicles@, hull) && other.t_ms
                == sample.t_ms ==> is_plausible(other.x, other.y),
    ensures
        exists|s: int|
            0 <= s < hull_positions(bundle, hull).len() && (#[trigger] hull_positions(
                bundle,
                hull,
            )[s]).t_ms == sample.t_ms,
{
    broadcast use vstd::seq_lib::group_to_multiset_ensures;

    let actors = bundle.actors.vehicles@;
    let all = samples_of_parts(bundle, actors, hull);
    lemma_samples_of_parts(bundle, actors, hull);
    lemma_among_parts(bundle, actors, hull, i, sample);
    law_sorting(all);
    let sorted = by_time(all);
    assert(all.to_multiset().count(sample) > 0);
    assert(sorted.to_multiset().count(sample) > 0);
    assert(sorted.contains(sample));
    let q = choose|q: int| 0 <= q < sorted.len() && sorted[q] == sample;
    lemma_some_at_time(sorted, q);
    law_one_per_time(sorted);
    let first = at_time(sorted, sample.t_ms)[0];
    let single = one_per_time(sorted);
    assert(single.contains(first));
    lemma_one_per_time_contains(sorted);
    let m = choose|m: int| 0 <= m < single.len() && single[m] == first;
    assert(sorted.contains(single[m]));
    assert(sorted.to_multiset().count(first) > 0);
    assert(all.to_multiset().count(first) > 0);
    assert(all.contains(first));
    let k = choose|k: int| 0 <= k < all.len() && all[k] == first;
    assert(is_sample_of_one(all[k], bundle, actors, hull));
    assert(first.t_ms == sample.t_ms);
    let in_world = |s: TrackSample3| is_plausible(s.x, s.y);
    single.lemma_filter_contains(in_world, m);
    let positions = hull_positions(bundle, hull);
    assert(positions == single.filter(in_world));
    let s = choose|s: int| 0 <= s < positions.len() && positions[s] == first;
    assert(positions[s].t_ms == sample.t_ms);
}

} // verus!
