//! What a timeline must satisfy, stated on the bundle that it is made from and
//! on what it holds.

use crate::bundle::{Bundle, CaptureZoneEvent, KillEvent, Player};
use crate::float_bits::Float32;
use crate::game_mode::mode_of;
use crate::log_parser::LogMatch;
use crate::numbers::low_bits;
use crate::outside::lowercase;
use crate::string_map::{lemma_before_is_strict, lemma_before_is_total, lemma_before_is_transitive};
use crate::text::{opt_text, text_before};
use crate::time_order::{by_time, law_sorting, HasTime};
use crate::timeline::lookups::{
    first_key, has_name, has_steam_id, is_first_key, players_by_eos,
};
use crate::timeline::people::{
    called, is_player_of, is_squad_of, kill_model, opt_lower, players_by_key, spawn_models, spawns_of,
    SpawnModel,
};
use crate::timeline::{build_timeline, is_zone_of, owner_changes, Timeline, TimelineOptions};
use vstd::prelude::*;

verus! {

// ---------------------------------------------------------------------------
// Players by their IDs
// ---------------------------------------------------------------------------

/// The player has an EOS ID, case aside.
pub open spec fn has_eos(player: Player, eos: Seq<char>) -> bool {
    player.eos_id matches Some(own) && lowercase(own@) == eos
}

/// The player is the last with an EOS ID, given in lower case.
pub open spec fn is_last_with_eos(players: Seq<Player>, at: int, eos: Seq<char>) -> bool {
    &&& 0 <= at < players.len()
    &&& has_eos(players[at], eos)
    &&& forall|later: int| at < later < players.len() ==> !has_eos(#[trigger] players[later], eos)
}

/// The index of a player by EOS ID is that of the last player who has it.
proof fn lemma_index_by_eos(players: Seq<Player>, eos: Seq<char>)
    requires
        players.len() <= usize::MAX,
    ensures
        players_by_eos(players).contains_key(eos) ==> is_last_with_eos(
            players,
            players_by_eos(players)[eos] as int,
            eos,
        ),
        !players_by_eos(players).contains_key(eos) ==> forall|p: int|
            0 <= p < players.len() ==> !has_eos(#[trigger] players[p], eos),
    decreases players.len(),
{
    if players.len() > 0 {
        let front = players.drop_last();
        lemma_index_by_eos(front, eos);
        assert forall|k: int| 0 <= k < front.len() implies #[trigger] players[k] == front[k] by {}
    }
}

/// The key of a player in the timeline is the last player with it.
pub open spec fn is_last_with_key(players: Seq<Player>, at: int, key: Seq<char>) -> bool {
    &&& 0 <= at < players.len()
    &&& has_key(players[at], key)
    &&& forall|later: int| at < later < players.len() ==> !has_key(#[trigger] players[later], key)
}

/// The player has a key: the EOS ID in lower case, or the name in lower case
/// where there is no EOS ID.
pub open spec fn has_key(player: Player, key: Seq<char>) -> bool {
    ||| has_eos(player, key)
    ||| player.eos_id is None && opt_lower(player.name) == Some(key)
}

/// The player of a key is the last with it.
proof fn lemma_player_by_key(players: Seq<Player>, key: Seq<char>)
    ensures
        players_by_key(players).contains_key(key) ==> exists|p: int| #[trigger]
            is_last_with_key(players, p, key) && players_by_key(players)[key] == players[p],
        !players_by_key(players).contains_key(key) ==> forall|p: int|
            0 <= p < players.len() ==> !has_key(#[trigger] players[p], key),
    decreases players.len(),
{
    if players.len() > 0 {
        let front = players.drop_last();
        let last = players.len() - 1;
        lemma_player_by_key(front, key);
        assert forall|k: int| 0 <= k < last implies #[trigger] players[k] == front[k] by {}
        if has_key(players[last], key) {
            assert(is_last_with_key(players, last, key));
        } else if players_by_key(front).contains_key(key) {
            let p = choose|p: int| #[trigger]
                is_last_with_key(front, p, key) && players_by_key(front)[key] == front[p];
            assert(is_last_with_key(players, p, key));
        }
    }
}

// ---------------------------------------------------------------------------
// Kills
// ---------------------------------------------------------------------------

/// A player goes by an EOS ID, given in lower case: they are the last with the
/// EOS ID, and they have a name.
pub open spec fn goes_by(players: Seq<Player>, at: int, name: Seq<char>, eos: Seq<char>) -> bool {
    is_last_with_eos(players, at, eos) && opt_text(players[at].name) == Some(name)
}

/// Of the first players who have a name and an EOS ID one has the first EOS ID.
proof fn lemma_least_eos(players: Seq<Player>, name: Seq<char>, n: int) -> (found: Option<
    (int, Seq<char>),
>)
    requires
        0 <= n <= players.len(),
    ensures
        match found {
            Some((at, least)) => at < n && goes_by(players, at, name, least) && forall|
                p: int,
                eos: Seq<char>,
            |
                0 <= p < n && #[trigger] goes_by(players, p, name, eos) && eos != least
                    ==> text_before(least, eos),
            None => forall|p: int, eos: Seq<char>|
                0 <= p < n ==> !(#[trigger] goes_by(players, p, name, eos)),
        },
    decreases n,
{
    if n == 0 {
        None
    } else {
        let before = lemma_least_eos(players, name, n - 1);
        let last = n - 1;
        let own = lowercase(players[last].eos_id->0@);
        if goes_by(players, last, name, own) {
            match before {
                Some((at, least)) => {
                    lemma_before_is_total(least, own);
                    if own == least || text_before(least, own) {
                        before
                    } else {
                        assert forall|p: int, eos: Seq<char>|
                            0 <= p < n && #[trigger] goes_by(players, p, name, eos) && eos
                                != own implies text_before(own, eos) by {
                            if eos != least {
                                lemma_before_is_transitive(own, least, eos);
                            }
                        }
                        Some((last, own))
                    }
                },
                None => Some((last, own)),
            }
        } else {
            before
        }
    }
}

/// The name that a kill tells is called in the timeline by the first EOS ID, in
/// lower case, of those who go by the name, and by itself where nobody does.
proof fn lemma_called(players: Seq<Player>, name: Option<String>)
    requires
        players.len() <= usize::MAX,
    ensures
        is_called(players, opt_text(name), called(name, players, players_by_eos(players))),
{
    if let Some(n) = name {
        let index = players_by_eos(players);
        let wanted = has_name(players, n@);
        let found = lemma_least_eos(players, n@, players.len() as int);
        match found {
            Some((at, least)) => {
                lemma_index_by_eos(players, least);
                let q = index[least] as int;
                assert(q == at) by {
                    assert(has_eos(players[at], least));
                    if q < at {
                        assert(!has_eos(players[at], least));
                    } else if at < q {
                        assert(!has_eos(players[q], least));
                    }
                }
                assert(is_first_key(index, wanted, least)) by {
                    assert forall|other: Seq<char>| #[trigger]
                        index.contains_key(other) && wanted(index[other]) && other
                            != least implies text_before(least, other) by {
                        lemma_index_by_eos(players, other);
                        assert(goes_by(players, index[other] as int, n@, other));
                    }
                }
                let key = first_key(index, wanted)->0;
                assert(is_first_key(index, wanted, key));
                if key != least {
                    assert(index.contains_key(key) && index.contains_key(least));
                    lemma_before_is_strict(key, least);
                }
                assert(goes_by(players, at, n@, least));
            },
            None => {
                assert forall|key: Seq<char>| !is_first_key(index, wanted, key) by {
                    if index.contains_key(key) && wanted(index[key]) {
                        lemma_index_by_eos(players, key);
                        assert(goes_by(players, index[key] as int, n@, key));
                    }
                }
            },
        }
    }
}

/// A name is called by a text: by the first EOS ID, in lower case, of the
/// players who go by the name, and by itself where nobody does.
pub open spec fn is_called(
    players: Seq<Player>,
    name: Option<Seq<char>>,
    text: Option<Seq<char>>,
) -> bool {
    match (name, text) {
        (Some(n), Some(t)) => {
            ||| {
                &&& exists|p: int| goes_by(players, p, n, t)
                &&& forall|p: int, eos: Seq<char>| #[trigger]
                    goes_by(players, p, n, eos) && eos != t ==> text_before(t, eos)
            }
            ||| t == n && forall|p: int, eos: Seq<char>| !(#[trigger] goes_by(players, p, n, eos))
        },
        (None, None) => true,
        _ => false,
    }
}

/// A kill of the timeline has the time of the kill. Its victim and its killer
/// are both named by one rule: by the EOS ID of a player who goes by the name
/// that the kill tells, or else by that name.
pub proof fn law_kills<F: Fn(Float32, Float32) -> bool>(
    timeline: Timeline,
    bundle: &Bundle,
    log_match: Option<&LogMatch>,
    options: &TimelineOptions,
    differs: &F,
)
    requires
        call_ensures(build_timeline::<F>, (bundle, log_match, options, differs), timeline),
    ensures
        timeline.events.kills@.len() == bundle.events.kills@.len(),
        forall|i: int|
            0 <= i < bundle.events.kills@.len() ==> {
                let kill = #[trigger] bundle.events.kills@[i];
                let shown = timeline.events.kills@[i];
                &&& shown.t == kill.t_ms
                &&& shown.is_incap == kill.was_incap
                &&& shown.weapon is None
                &&& is_called(bundle.players@, opt_text(kill.victim_name), opt_text(shown.victim))
                &&& is_called(bundle.players@, opt_text(kill.killer_name), opt_text(shown.killer))
            },
{
    let players = bundle.players@;
    assert(bundle.players.len() <= usize::MAX);
    assert forall|i: int| 0 <= i < bundle.events.kills@.len() implies {
        let kill = #[trigger] bundle.events.kills@[i];
        let shown = timeline.events.kills@[i];
        &&& shown.t == kill.t_ms
        &&& shown.is_incap == kill.was_incap
        &&& shown.weapon is None
        &&& is_called(players, opt_text(kill.victim_name), opt_text(shown.victim))
        &&& is_called(players, opt_text(kill.killer_name), opt_text(shown.killer))
    } by {
        let kill = bundle.events.kills@[i];
        let shown = timeline.events.kills@[i];
        assert(shown@ == kill_model(kill, players, players_by_eos(players)));
        assert(opt_text(shown.victim) == shown@.victim);
        assert(opt_text(shown.killer) == shown@.killer);
        assert(opt_text(shown.weapon) == shown@.weapon);
        lemma_called(players, kill.victim_name);
        lemma_called(players, kill.killer_name);
    }
}

/// Two kills with victim and killer exchanged have victim and killer exchanged
/// in the timeline.
pub proof fn law_kills_exchanged(
    players: Seq<Player>,
    kill: KillEvent,
    exchanged: KillEvent,
    index: Map<Seq<char>, usize>,
)
    requires
        opt_text(kill.victim_name) == opt_text(exchanged.killer_name),
        opt_text(kill.killer_name) == opt_text(exchanged.victim_name),
    ensures
        kill_model(kill, players, index).victim == kill_model(exchanged, players, index).killer,
        kill_model(kill, players, index).killer == kill_model(exchanged, players, index).victim,
{
}

/// Where the killer or the victim of a kill has the name of a player with an EOS
/// ID (of whom nobody after them takes the EOS ID), the timeline knows them: what
/// it names them by is the key of one of its players, who has that name, unless a
/// player without an EOS ID has that EOS ID for a name.
pub proof fn law_kills_name_known_players<F: Fn(Float32, Float32) -> bool>(
    timeline: Timeline,
    bundle: &Bundle,
    log_match: Option<&LogMatch>,
    options: &TimelineOptions,
    differs: &F,
    i: int,
    of_killer: bool,
    p: int,
    eos: Seq<char>,
)
    requires
        call_ensures(build_timeline::<F>, (bundle, log_match, options, differs), timeline),
        0 <= i < bundle.events.kills@.len(),
        ({
            let kill = bundle.events.kills@[i];
            let name = if of_killer {
                kill.killer_name
            } else {
                kill.victim_name
            };
            name is Some && goes_by(bundle.players@, p, name->0@, eos)
        }),
    ensures
        ({
            let kill = bundle.events.kills@[i];
            let shown = timeline.events.kills@[i];
            let name = if of_killer {
                kill.killer_name
            } else {
                kill.victim_name
            };
            let key = if of_killer {
                shown.killer
            } else {
                shown.victim
            };
            &&& key is Some
            &&& timeline.players@.contains_key(key->0@)
            &&& (forall|q: int|
                0 <= q < bundle.players@.len() && (#[trigger] bundle.players@[q]).eos_id is None
                    ==> opt_lower(bundle.players@[q].name) != Some(key->0@)) ==> opt_text(
                timeline.players@[key->0@].name,
            ) == Some(name->0@)
        }),
{
    law_kills(timeline, bundle, log_match, options, differs);
    let players = bundle.players@;
    let kill = bundle.events.kills@[i];
    let shown = timeline.events.kills@[i];
    let (name, key) = if of_killer {
        (kill.killer_name->0@, shown.killer->0@)
    } else {
        (kill.victim_name->0@, shown.victim->0@)
    };
    assert(exists|q: int| goes_by(players, q, name, key));
    let q = choose|q: int| goes_by(players, q, name, key);
    lemma_player_by_key(players, key);
    assert(has_key(players[q], key));
    let known = players_by_key(players);
    assert(known.contains_key(key));
    assert(timeline.players@.contains_key(key) <==> known.contains_key(key));
    if forall|q: int|
        0 <= q < players.len() && (#[trigger] players[q]).eos_id is None ==> opt_lower(
            players[q].name,
        ) != Some(key) {
        let r = choose|r: int| #[trigger]
            is_last_with_key(players, r, key) && known[key] == players[r];
        assert(has_eos(players[r], key));
        if r < q {
            assert(!has_key(players[q], key));
        } else if q < r {
            assert(!has_eos(players[r], key));
        }
        assert(opt_text(timeline.players@[key].name) == Some(name));
    }
}

// ---------------------------------------------------------------------------
// Match, teams and zones
// ---------------------------------------------------------------------------

/// A team number of the timeline stands for one of the replay: 1 for 0, and 2
/// for any other.
pub open spec fn stands_for_team(shown: u32, raw: u32) -> bool {
    (raw == 0 ==> shown == 1) && (raw != 0 ==> shown == 2)
}

/// The low 32 bits of a number.
pub open spec fn are_low_bits(low: u32, number: i64) -> bool {
    (number - low) % 0x1_0000_0000 == 0
}

/// The timeline tells of the match and its teams what the bundle does.
pub proof fn law_match_and_teams<F: Fn(Float32, Float32) -> bool>(
    timeline: Timeline,
    bundle: &Bundle,
    log_match: Option<&LogMatch>,
    options: &TimelineOptions,
    differs: &F,
)
    requires
        call_ensures(build_timeline::<F>, (bundle, log_match, options, differs), timeline),
    ensures
        timeline.version == 1,
        timeline.match_info.map_name == bundle.replay.map_name,
        timeline.match_info.layer_name == bundle.replay.layer_name,
        timeline.match_info.duration_ms == bundle.replay.duration_ms,
        timeline.match_info.started_at == bundle.replay.started_at,
        timeline.match_info.server_name == bundle.game_state.server_name,
        bundle.game_state.game_mode matches Some(mode) ==> opt_text(timeline.match_info.game_mode)
            == Some(mode@),
        bundle.game_state.game_mode is None && bundle.replay.layer_name is None
            ==> timeline.match_info.game_mode is None,
        timeline.teams@.len() == bundle.teams@.len(),
        forall|i: int|
            0 <= i < bundle.teams@.len() ==> {
                let team = #[trigger] bundle.teams@[i];
                let shown = timeline.teams@[i];
                &&& stands_for_team(shown.id, team.id)
                &&& shown.faction == team.faction
                &&& shown.name == team.name
            },
{
    assert(opt_text(timeline.match_info.game_mode) == mode_of(*bundle));
}

/// The events of a zone in the timeline are those that give it to an owner, in
/// their order, each with its time. Where the event has a number, the owner is
/// the team that the low 32 bits of it stand for.
pub proof fn law_zones<F: Fn(Float32, Float32) -> bool>(
    timeline: Timeline,
    bundle: &Bundle,
    log_match: Option<&LogMatch>,
    options: &TimelineOptions,
    differs: &F,
    z: int,
) -> (at: Seq<int>)
    requires
        call_ensures(build_timeline::<F>, (bundle, log_match, options, differs), timeline),
        0 <= z < bundle.events.capture_zones@.len(),
    ensures
        timeline.capture_zones@.len() == bundle.events.capture_zones@.len(),
        ({
            let zone = bundle.events.capture_zones@[z];
            let shown = timeline.capture_zones@[z];
            let events = zone.events@;
            &&& zone.display_name is Some ==> shown.name == zone.display_name
            &&& zone.display_name is None ==> shown.name == zone.name
            &&& shown.x == zone.x
            &&& shown.y == zone.y
            &&& at.len() == shown.events@.len()
            &&& forall|i: int, j: int| 0 <= i < j < at.len() ==> #[trigger] at[i] < #[trigger] at[j]
            &&& forall|k: int|
                0 <= k < events.len() && (#[trigger] events[k]).event_type@ == "owning_team"@
                    ==> at.contains(k)
            &&& forall|i: int|
                0 <= i < at.len() ==> {
                    &&& 0 <= #[trigger] at[i] < events.len()
                    &&& events[at[i]].event_type@ == "owning_team"@
                    &&& shown.events@[i].t == events[at[i]].t_ms
                    &&& match (events[at[i]].value_int, shown.events@[i].owner) {
                        (Some(value), Some(owner)) => exists|low: u32| #[trigger]
                            are_low_bits(low, value) && stands_for_team(owner, low),
                        (None, None) => true,
                        _ => false,
                    }
                }
        }),
{
    let zone = bundle.events.capture_zones@[z];
    let shown = timeline.capture_zones@[z];
    assert(is_zone_of(shown, zone));
    lemma_owner_changes_at(zone.events@)
}

/// The low 32 bits of a number, as they are computed.
pub proof fn lemma_low_bits(value: i64)
    ensures
        are_low_bits(low_bits(value as int), value),
{
    let v = value as int;
    assert(0 <= v % 0x1_0000_0000 < 0x1_0000_0000);
    assert((v - v % 0x1_0000_0000) % 0x1_0000_0000 == 0);
}

/// The indices of the events that give a zone to an owner.
proof fn lemma_owner_changes_at(events: Seq<CaptureZoneEvent>) -> (at: Seq<int>)
    ensures
        at.len() == owner_changes(events).len(),
        forall|i: int, j: int| 0 <= i < j < at.len() ==> #[trigger] at[i] < #[trigger] at[j],
        forall|k: int|
            0 <= k < events.len() && (#[trigger] events[k]).event_type@ == "owning_team"@
                ==> at.contains(k),
        forall|i: int|
            0 <= i < at.len() ==> {
                let change = owner_changes(events)[i];
                &&& 0 <= #[trigger] at[i] < events.len()
                &&& events[at[i]].event_type@ == "owning_team"@
                &&& change.t == events[at[i]].t_ms
                &&& match (events[at[i]].value_int, change.owner) {
                    (Some(value), Some(owner)) => exists|low: u32| #[trigger]
                        are_low_bits(low, value) && stands_for_team(owner, low),
                    (None, None) => true,
                    _ => false,
                }
            },
    decreases events.len(),
{
    if events.len() == 0 {
        Seq::empty()
    } else {
        let front = events.drop_last();
        let before = lemma_owner_changes_at(front);
        let last = events.len() - 1;
        assert forall|k: int| 0 <= k < last implies #[trigger] events[k] == front[k] by {}
        if events[last].event_type@ == "owning_team"@ {
            let at = before.push(last);
            if let Some(value) = events[last].value_int {
                lemma_low_bits(value);
            }
            assert forall|k: int|
                0 <= k < events.len() && (#[trigger] events[k]).event_type@
                    == "owning_team"@ implies at.contains(k) by {
                if k < last {
                    assert(events[k] == front[k]);
                    let i = choose|i: int| 0 <= i < before.len() && before[i] == k;
                    assert(at[i] == k);
                } else {
                    assert(at[before.len() as int] == k);
                }
            }
            at
        } else {
            assert forall|k: int|
                0 <= k < events.len() && (#[trigger] events[k]).event_type@
                    == "owning_team"@ implies before.contains(k) by {
                assert(events[k] == front[k]);
            }
            before
        }
    }
}

// ---------------------------------------------------------------------------
// Squads, players and spawns
// ---------------------------------------------------------------------------

/// The squads of the timeline are those of the replay. The leader of one is the
/// one that the replay tells by EOS ID; or else a player who has the Steam ID of
/// the leader, and is the last with their EOS ID: the first by EOS ID of such.
pub proof fn law_squads<F: Fn(Float32, Float32) -> bool>(
    timeline: Timeline,
    bundle: &Bundle,
    log_match: Option<&LogMatch>,
    options: &TimelineOptions,
    differs: &F,
)
    requires
        call_ensures(build_timeline::<F>, (bundle, log_match, options, differs), timeline),
    ensures
        timeline.squads@.len() == bundle.squads@.len(),
        forall|i: int|
            0 <= i < bundle.squads@.len() ==> {
                let squad = #[trigger] bundle.squads@[i];
                let shown = timeline.squads@[i];
                let players = bundle.players@;
                &&& shown.id == squad.id
                &&& shown.name == squad.name
                &&& squad.team_id matches Some(id) ==> stands_for_team(shown.team_id, id)
                &&& squad.team_id is None ==> match squad.raw_team_id {
                    Some(raw) => stands_for_team(shown.team_id, raw),
                    None => shown.team_id == 2,
                }
                &&& match (squad.leader_eos_id, squad.leader_steam_id, shown.leader_eos) {
                    (Some(eos), _, Some(leader)) => leader@ == eos@,
                    (Some(_), _, None) => false,
                    (None, Some(steam), Some(leader)) => {
                        &&& exists|p: int| #[trigger]
                            has_steam(players, p, steam@, lowercase(leader@)) && opt_text(
                                players[p].eos_id,
                            ) == Some(leader@)
                        &&& forall|p: int, eos: Seq<char>| #[trigger]
                            has_steam(players, p, steam@, eos) && eos != lowercase(leader@)
                                ==> text_before(lowercase(leader@), eos)
                    },
                    (None, Some(steam), None) => forall|p: int, eos: Seq<char>|
                        !(#[trigger] has_steam(players, p, steam@, eos)),
                    (None, None, leader) => leader is None,
                }
            },
{
    let players = bundle.players@;
    let index = players_by_eos(players);
    assert(bundle.players.len() <= usize::MAX);
    assert forall|i: int| 0 <= i < bundle.squads@.len() implies {
        let squad = #[trigger] bundle.squads@[i];
        let shown = timeline.squads@[i];
        &&& shown.id == squad.id
        &&& shown.name == squad.name
        &&& squad.team_id matches Some(id) ==> stands_for_team(shown.team_id, id)
        &&& squad.team_id is None ==> match squad.raw_team_id {
            Some(raw) => stands_for_team(shown.team_id, raw),
            None => shown.team_id == 2,
        }
        &&& match (squad.leader_eos_id, squad.leader_steam_id, shown.leader_eos) {
            (Some(eos), _, Some(leader)) => leader@ == eos@,
            (Some(_), _, None) => false,
            (None, Some(steam), Some(leader)) => {
                &&& exists|p: int| #[trigger]
                    has_steam(players, p, steam@, lowercase(leader@)) && opt_text(players[p].eos_id)
                        == Some(leader@)
                &&& forall|p: int, eos: Seq<char>| #[trigger]
                    has_steam(players, p, steam@, eos) && eos != lowercase(leader@)
                        ==> text_before(lowercase(leader@), eos)
            },
            (None, Some(steam), None) => forall|p: int, eos: Seq<char>|
                !(#[trigger] has_steam(players, p, steam@, eos)),
            (None, None, leader) => leader is None,
        }
    } by {
        let squad = bundle.squads@[i];
        let shown = timeline.squads@[i];
        assert(is_squad_of(shown, squad, players, index));
        if squad.leader_eos_id is None {
            if let Some(steam) = squad.leader_steam_id {
                lemma_found_by_steam(players, steam@);
            }
        }
    }
}

/// A player has a Steam ID and is the last with an EOS ID, given in lower case.
pub open spec fn has_steam(players: Seq<Player>, at: int, steam: Seq<char>, eos: Seq<char>) -> bool {
    is_last_with_eos(players, at, eos) && opt_text(players[at].steam_id) == Some(steam)
}

/// Of the first players who have a Steam ID and an EOS ID one has the first EOS
/// ID.
proof fn lemma_least_eos_of_steam(players: Seq<Player>, steam: Seq<char>, n: int) -> (found: Option<
    (int, Seq<char>),
>)
    requires
        0 <= n <= players.len(),
    ensures
        match found {
            Some((at, least)) => at < n && has_steam(players, at, steam, least) && forall|
                p: int,
                eos: Seq<char>,
            |
                0 <= p < n && #[trigger] has_steam(players, p, steam, eos) && eos != least
                    ==> text_before(least, eos),
            None => forall|p: int, eos: Seq<char>|
                0 <= p < n ==> !(#[trigger] has_steam(players, p, steam, eos)),
        },
    decreases n,
{
    if n == 0 {
        None
    } else {
        let before = lemma_least_eos_of_steam(players, steam, n - 1);
        let last = n - 1;
        let own = lowercase(players[last].eos_id->0@);
        if has_steam(players, last, steam, own) {
            match before {
                Some((at, least)) => {
                    lemma_before_is_total(least, own);
                    if own == least || text_before(least, own) {
                        before
                    } else {
                        assert forall|p: int, eos: Seq<char>|
                            0 <= p < n && #[trigger] has_steam(players, p, steam, eos) && eos
                                != own implies text_before(own, eos) by {
                            if eos != least {
                                lemma_before_is_transitive(own, least, eos);
                            }
                        }
                        Some((last, own))
                    }
                },
                None => Some((last, own)),
            }
        } else {
            before
        }
    }
}

/// The player that is found by a Steam ID.
proof fn lemma_found_by_steam(players: Seq<Player>, steam: Seq<char>)
    requires
        players.len() <= usize::MAX,
    ensures
        ({
            let index = players_by_eos(players);
            match first_key(index, has_steam_id(players, steam)) {
                Some(key) => {
                    &&& has_steam(players, index[key] as int, steam, key)
                    &&& forall|p: int, eos: Seq<char>| #[trigger]
                        has_steam(players, p, steam, eos) && eos != key ==> text_before(key, eos)
                },
                None => forall|p: int, eos: Seq<char>|
                    !(#[trigger] has_steam(players, p, steam, eos)),
            }
        }),
{
    let index = players_by_eos(players);
    let wanted = has_steam_id(players, steam);
    match lemma_least_eos_of_steam(players, steam, players.len() as int) {
        Some((at, least)) => {
            lemma_index_by_eos(players, least);
            let q = index[least] as int;
            assert(q == at) by {
                assert(has_eos(players[at], least));
                if q < at {
                    assert(!has_eos(players[at], least));
                } else if at < q {
                    assert(!has_eos(players[q], least));
                }
            }
            assert(is_first_key(index, wanted, least)) by {
                assert forall|other: Seq<char>| #[trigger]
                    index.contains_key(other) && wanted(index[other]) && other
                        != least implies text_before(least, other) by {
                    lemma_index_by_eos(players, other);
                    assert(has_steam(players, index[other] as int, steam, other));
                }
            }
            let key = first_key(index, wanted)->0;
            assert(is_first_key(index, wanted, key));
            if key != least {
                assert(index.contains_key(key) && index.contains_key(least));
                lemma_before_is_strict(key, least);
            }
        },
        None => {
            assert forall|key: Seq<char>| !is_first_key(index, wanted, key) by {
                if index.contains_key(key) && wanted(index[key]) {
                    lemma_index_by_eos(players, key);
                    assert(has_steam(players, index[key] as int, steam, key));
                }
            }
        },
    }
}

/// The timeline has a player for each key that a player of the replay has: the
/// EOS ID in lower case, or the name in lower case where there is none. It shows
/// the last player with the key: name, Steam ID, team, squad and windows.
pub proof fn law_players<F: Fn(Float32, Float32) -> bool>(
    timeline: Timeline,
    bundle: &Bundle,
    log_match: Option<&LogMatch>,
    options: &TimelineOptions,
    differs: &F,
    key: Seq<char>,
)
    requires
        call_ensures(build_timeline::<F>, (bundle, log_match, options, differs), timeline),
    ensures
        !timeline.players@.contains_key(key) ==> forall|p: int|
            0 <= p < bundle.players@.len() ==> !has_key(#[trigger] bundle.players@[p], key),
        timeline.players@.contains_key(key) ==> exists|p: int|
            {
                let player = bundle.players@[p];
                let shown = timeline.players@[key];
                &&& #[trigger] is_last_with_key(bundle.players@, p, key)
                &&& shown.name == player.name
                &&& shown.steam_id == player.steam_id
                &&& shown.squad_id == player.squad_id
                &&& match (player.team_id, shown.team_id) {
                    (Some(raw), Some(team)) => stands_for_team(team, raw),
                    (None, None) => true,
                    _ => false,
                }
                &&& shown.visibility_windows@.len() == player.visibility_windows@.len()
                &&& forall|w: int|
                    0 <= w < player.visibility_windows@.len() ==> {
                        let window = #[trigger] player.visibility_windows@[w];
                        &&& shown.visibility_windows@[w]@[0] == window.start_ms
                        &&& shown.visibility_windows@[w]@[1] == window.end_ms
                    }
            },
{
    let known = players_by_key(bundle.players@);
    lemma_player_by_key(bundle.players@, key);
    assert(timeline.players@.contains_key(key) <==> known.contains_key(key));
    if known.contains_key(key) {
        let p = choose|p: int| #[trigger]
            is_last_with_key(bundle.players@, p, key) && known[key] == bundle.players@[p];
        let player = bundle.players@[p];
        let shown = timeline.players@[key];
        assert(is_player_of(shown, player));
        assert forall|w: int| 0 <= w < player.visibility_windows@.len() implies {
            let window = #[trigger] player.visibility_windows@[w];
            &&& shown.visibility_windows@[w]@[0] == window.start_ms
            &&& shown.visibility_windows@[w]@[1] == window.end_ms
        } by {
            assert(shown.visibility_windows@[w]@ == seq![
                player.visibility_windows@[w].start_ms,
                player.visibility_windows@[w].end_ms,
            ]);
        }
        assert(is_last_with_key(bundle.players@, p, key));
    }
}

/// A spawn is that of a player at the start of one of their windows: under the
/// EOS ID in lower case, with the role that they have or else the one that they
/// deploy with.
pub open spec fn is_spawn_of(spawn: SpawnModel, players: Seq<Player>, p: int, w: int) -> bool {
    &&& 0 <= p < players.len()
    &&& 0 <= w < players[p].visibility_windows@.len()
    &&& has_eos(players[p], spawn.player)
    &&& spawn.t == players[p].visibility_windows@[w].start_ms
    &&& players[p].current_role_name matches Some(role) ==> spawn.kit == Some(role@)
    &&& players[p].current_role_name is None ==> spawn.kit == opt_text(players[p].deploy_role_name)
}

/// A spawn is that of some player with an EOS ID.
pub open spec fn is_spawn_of_one(spawn: SpawnModel, players: Seq<Player>) -> bool {
    exists|p: int, w: int| #[trigger] is_spawn_of(spawn, players, p, w)
}

/// How many windows the players with an EOS ID have.
pub open spec fn windows_with_eos(players: Seq<Player>) -> nat
    decreases players.len(),
{
    if players.len() == 0 {
        0
    } else {
        windows_with_eos(players.drop_last()) + if players.last().eos_id is Some {
            players.last().visibility_windows@.len()
        } else {
            0
        }
    }
}

/// The spawns of players are one for each window.
proof fn lemma_spawns(players: Seq<Player>)
    ensures
        spawns_of(players).len() == windows_with_eos(players),
        forall|i: int|
            0 <= i < spawns_of(players).len() ==> is_spawn_of_one(
                #[trigger] spawns_of(players)[i],
                players,
            ),
    decreases players.len(),
{
    if players.len() > 0 {
        let front = players.drop_last();
        let last = players.len() - 1;
        lemma_spawns(front);
        let before = spawns_of(front);
        assert forall|i: int| 0 <= i < spawns_of(players).len() implies is_spawn_of_one(
            #[trigger] spawns_of(players)[i],
            players,
        ) by {
            if i < before.len() {
                assert(spawns_of(players)[i] == before[i]);
                let (p, w) = choose|p: int, w: int| #[trigger] is_spawn_of(before[i], front, p, w);
                assert(players[p] == front[p]);
                assert(is_spawn_of(before[i], players, p, w));
            } else {
                assert(is_spawn_of(spawns_of(players)[i], players, last, i - before.len()));
            }
        }
    }
}

/// The timeline has as many spawns as the players with an EOS ID have windows,
/// in the order of their times, and each is that of a window.
pub proof fn law_spawns_of_windows<F: Fn(Float32, Float32) -> bool>(
    timeline: Timeline,
    bundle: &Bundle,
    log_match: Option<&LogMatch>,
    options: &TimelineOptions,
    differs: &F,
)
    requires
        call_ensures(build_timeline::<F>, (bundle, log_match, options, differs), timeline),
    ensures
        timeline.events.spawns@.len() == windows_with_eos(bundle.players@),
        forall|i: int, j: int|
            0 <= i < j < timeline.events.spawns@.len() ==> (#[trigger] timeline.events.spawns@[i]).t
                <= (#[trigger] timeline.events.spawns@[j]).t,
        forall|i: int|
            0 <= i < timeline.events.spawns@.len() ==> is_spawn_of_one(
                (SpawnModel {
                    t: timeline.events.spawns@[i].t,
                    player: timeline.events.spawns@[i].player@,
                    kit: opt_text((#[trigger] timeline.events.spawns@[i]).kit),
                }),
                bundle.players@,
            ),
{
    let players = bundle.players@;
    let unsorted = spawns_of(players);
    let sorted = by_time(unsorted);
    let spawns = timeline.events.spawns@;
    lemma_spawns(players);
    law_sorting(unsorted);
    assert(spawn_models(spawns) == sorted);
    assert(spawns.len() == spawn_models(spawns).len());
    assert forall|i: int, j: int| 0 <= i < j < spawns.len() implies (#[trigger] spawns[i]).t <= (
    #[trigger] spawns[j]).t by {
        assert(spawn_models(spawns)[i] == spawns[i]@);
        assert(spawn_models(spawns)[j] == spawns[j]@);
        assert(sorted[i].time() <= sorted[j].time());
    }
    assert forall|i: int| 0 <= i < spawns.len() implies is_spawn_of_one(
        (SpawnModel {
            t: spawns[i].t,
            player: spawns[i].player@,
            kit: opt_text((#[trigger] spawns[i]).kit),
        }),
        players,
    ) by {
        broadcast use vstd::seq_lib::group_to_multiset_ensures;

        let spawn = spawn_models(spawns)[i];
        assert(spawn == (SpawnModel {
            t: spawns[i].t,
            player: spawns[i].player@,
            kit: opt_text(spawns[i].kit),
        }));
        assert(sorted.contains(spawn));
        assert(sorted.to_multiset().count(spawn) > 0);
        assert(unsorted.to_multiset().count(spawn) > 0);
        assert(unsorted.contains(spawn));
        let k = choose|k: int| 0 <= k < unsorted.len() && unsorted[k] == spawn;
        assert(is_spawn_of_one(unsorted[k], players));
    }
}

} // verus!
