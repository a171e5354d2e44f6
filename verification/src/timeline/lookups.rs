//! What the parts of a timeline look up: players by their IDs and names, and
//! what the property events of a replay tell of actors.

use crate::bundle::{Player, PropertyEvent, Team, Track3, TrackSample3};
use crate::grouped::Grouped;
use crate::numbers::{low_32, low_bits};
use crate::outside::{lowercase, to_lower};
use crate::string_map::StringMap;
use crate::text::{chars_of, opt_text, same_text, text_before};
use crate::time_order::{HasTime, Timed};
use std::collections::HashMap;
use vstd::prelude::*;
use vstd::std_specs::hash::*;

verus! {

// ---------------------------------------------------------------------------
// Players
// ---------------------------------------------------------------------------

/// The texts of a map, as characters.
pub open spec fn texts<K>(map: Map<K, String>) -> Map<K, Seq<char>> {
    map.map_values(|text: String| text@)
}

/// One more text.
proof fn lemma_texts_insert<K>(map: Map<K, String>, key: K, text: String)
    ensures
        texts(map.insert(key, text)) == texts(map).insert(key, text@),
{
    assert(texts(map.insert(key, text)) =~= texts(map).insert(key, text@));
}

/// The players with an EOS ID: the index of the last one by the ID in lower
/// case.
pub open spec fn players_by_eos(players: Seq<Player>) -> Map<Seq<char>, usize>
    decreases players.len(),
{
    if players.len() == 0 {
        Map::empty()
    } else {
        let before = players_by_eos(players.drop_last());
        match players.last().eos_id {
            Some(eos) => before.insert(lowercase(eos@), (players.len() - 1) as usize),
            None => before,
        }
    }
}

/// The EOS IDs in lower case by the GUIDs of the player states. Of players with
/// one GUID the last one counts.
pub open spec fn eos_by_guid(players: Seq<Player>) -> Map<u32, Seq<char>>
    decreases players.len(),
{
    if players.len() == 0 {
        Map::empty()
    } else {
        let before = eos_by_guid(players.drop_last());
        match players.last().eos_id {
            Some(eos) => before.insert(players.last().player_state_guid, lowercase(eos@)),
            None => before,
        }
    }
}

/// The EOS IDs by the names, both in lower case. Of players with one name the
/// last one with an EOS ID counts.
pub open spec fn eos_by_name(players: Seq<Player>) -> Map<Seq<char>, Seq<char>>
    decreases players.len(),
{
    if players.len() == 0 {
        Map::empty()
    } else {
        let before = eos_by_name(players.drop_last());
        match (players.last().eos_id, players.last().name) {
            (Some(eos), Some(name)) => before.insert(lowercase(name@), lowercase(eos@)),
            _ => before,
        }
    }
}

/// The names in lower case by the GUIDs of the player states.
pub open spec fn name_by_guid(players: Seq<Player>) -> Map<u32, Seq<char>>
    decreases players.len(),
{
    if players.len() == 0 {
        Map::empty()
    } else {
        let before = name_by_guid(players.drop_last());
        match players.last().name {
            Some(name) => before.insert(players.last().player_state_guid, lowercase(name@)),
            None => before,
        }
    }
}

/// The indices in a map of players are those of players.
pub open spec fn indexes(map: Map<Seq<char>, usize>, players: Seq<Player>) -> bool {
    forall|key: Seq<char>| #[trigger] map.contains_key(key) ==> map[key] < players.len()
}

/// The indices of players by EOS ID are those of players with an EOS ID.
pub proof fn lemma_players_by_eos(players: Seq<Player>)
    ensures
        forall|key: Seq<char>| #[trigger]
            players_by_eos(players).contains_key(key) && players.len() <= usize::MAX ==> {
                &&& players_by_eos(players)[key] < players.len()
                &&& players[players_by_eos(players)[key] as int].eos_id matches Some(eos)
                    && lowercase(eos@) == key
            },
    decreases players.len(),
{
    if players.len() > 0 {
        let front = players.drop_last();
        lemma_players_by_eos(front);
        assert forall|key: Seq<char>| #[trigger]
            players_by_eos(players).contains_key(key) && players.len() <= usize::MAX implies {
            &&& players_by_eos(players)[key] < players.len()
            &&& players[players_by_eos(players)[key] as int].eos_id matches Some(eos) && lowercase(
                eos@,
            ) == key
        } by {
            if players_by_eos(front).contains_key(key) {
                let i = players_by_eos(front)[key] as int;
                assert(front[i] == players[i]);
            }
        }
    }
}

/// The players with an EOS ID.
pub fn index_players_by_eos(players: &Vec<Player>) -> (index: StringMap<usize>)
    ensures
        index.well_formed(),
        index@ == players_by_eos(players@),
        indexes(index@, players@),
{
    let mut index: StringMap<usize> = StringMap::new();
    let mut i: usize = 0;
    while i < players.len()
        invariant
            i <= players@.len(),
            index.well_formed(),
            index@ == players_by_eos(players@.take(i as int)),
        decreases players@.len() - i,
    {
        assert(players@.take(i + 1).drop_last() =~= players@.take(i as int));
        if let Some(eos) = &players[i].eos_id {
            index.insert(to_lower(eos), i);
        }
        i += 1;
    }
    proof {
        assert(players@.take(i as int) =~= players@);
        assert(players.len() <= usize::MAX);
        lemma_players_by_eos(players@);
    }
    index
}

/// The EOS IDs by the GUIDs of the player states.
pub fn map_guid_to_eos(players: &Vec<Player>) -> (map: HashMap<u32, String>)
    ensures
        texts(map@) == eos_by_guid(players@),
{
    broadcast use group_hash_axioms;

    let mut map: HashMap<u32, String> = HashMap::new();
    let mut i: usize = 0;
    assert(texts(map@) =~= Map::empty());
    while i < players.len()
        invariant
            i <= players@.len(),
            texts(map@) == eos_by_guid(players@.take(i as int)),
        decreases players@.len() - i,
    {
        let player = &players[i];
        assert(players@.take(i + 1).drop_last() =~= players@.take(i as int));
        if let Some(eos) = &player.eos_id {
            let lower = to_lower(eos);
            proof {
                lemma_texts_insert(map@, player.player_state_guid, lower);
            }
            map.insert(player.player_state_guid, lower);
        }
        i += 1;
    }
    assert(players@.take(i as int) =~= players@);
    map
}

/// The EOS IDs by the names.
pub fn map_name_to_eos(players: &Vec<Player>) -> (map: StringMap<String>)
    ensures
        map.well_formed(),
        texts(map@) == eos_by_name(players@),
{
    let mut map: StringMap<String> = StringMap::new();
    let mut i: usize = 0;
    assert(texts(map@) =~= Map::empty());
    while i < players.len()
        invariant
            i <= players@.len(),
            map.well_formed(),
            texts(map@) == eos_by_name(players@.take(i as int)),
        decreases players@.len() - i,
    {
        let player = &players[i];
        assert(players@.take(i + 1).drop_last() =~= players@.take(i as int));
        if let Some(eos) = &player.eos_id {
            if let Some(name) = &player.name {
                let lower = to_lower(eos);
                let key = to_lower(name);
                proof {
                    lemma_texts_insert(map@, key@, lower);
                }
                map.insert(key, lower);
            }
        }
        i += 1;
    }
    assert(players@.take(i as int) =~= players@);
    map
}

/// The names by the GUIDs of the player states.
pub fn build_player_name_by_state(players: &Vec<Player>) -> (map: HashMap<u32, String>)
    ensures
        texts(map@) == name_by_guid(players@),
{
    broadcast use group_hash_axioms;

    let mut map: HashMap<u32, String> = HashMap::new();
    let mut i: usize = 0;
    assert(texts(map@) =~= Map::empty());
    while i < players.len()
        invariant
            i <= players@.len(),
            texts(map@) == name_by_guid(players@.take(i as int)),
        decreases players@.len() - i,
    {
        let player = &players[i];
        assert(players@.take(i + 1).drop_last() =~= players@.take(i as int));
        if let Some(name) = &player.name {
            let lower = to_lower(name);
            proof {
                lemma_texts_insert(map@, player.player_state_guid, lower);
            }
            map.insert(player.player_state_guid, lower);
        }
        i += 1;
    }
    assert(players@.take(i as int) =~= players@);
    map
}

/// The text of a GUID in a map of texts, if it has one.
pub fn text_of_guid(map: &HashMap<u32, String>, guid: Option<u32>) -> (text: Option<String>)
    ensures
        opt_text(text) == guid_text(texts(map@), guid),
{
    broadcast use group_hash_axioms;

    match guid {
        Some(g) => match map.get(&g) {
            Some(text) => Some(text.clone()),
            None => None,
        },
        None => None,
    }
}

/// The text of a GUID in a map of texts, if there is a GUID and it has one.
pub open spec fn guid_text(map: Map<u32, Seq<char>>, guid: Option<u32>) -> Option<Seq<char>> {
    match guid {
        Some(g) => if map.contains_key(g) {
            Some(map[g])
        } else {
            None
        },
        None => None,
    }
}

// ---------------------------------------------------------------------------
// A player that has something
// ---------------------------------------------------------------------------

/// The key is the first in the order of keys whose player is wanted.
pub open spec fn is_first_key(
    map: Map<Seq<char>, usize>,
    wanted: spec_fn(usize) -> bool,
    key: Seq<char>,
) -> bool {
    &&& map.contains_key(key)
    &&& wanted(map[key])
    &&& forall|other: Seq<char>| #[trigger]
        map.contains_key(other) && wanted(map[other]) && other != key ==> text_before(key, other)
}

/// The first key in the order of keys whose player is wanted, if there is one.
pub open spec fn first_key(map: Map<Seq<char>, usize>, wanted: spec_fn(usize) -> bool) -> Option<
    Seq<char>,
> {
    if exists|key: Seq<char>| is_first_key(map, wanted, key) {
        Some(choose|key: Seq<char>| is_first_key(map, wanted, key))
    } else {
        None
    }
}

/// There is one first key at most.
proof fn lemma_one_first_key(
    map: Map<Seq<char>, usize>,
    wanted: spec_fn(usize) -> bool,
    key: Seq<char>,
)
    requires
        is_first_key(map, wanted, key),
    ensures
        first_key(map, wanted) == Some(key),
{
    let other = first_key(map, wanted)->0;
    assert(is_first_key(map, wanted, other));
    if other != key {
        assert(map.contains_key(key) && map.contains_key(other));
        crate::string_map::lemma_before_is_strict(key, other);
    }
}

/// The text is the one that is wanted.
pub open spec fn is_text(text: Option<String>, wanted: Seq<char>) -> bool {
    opt_text(text) == Some(wanted)
}

/// Whether a text is the one that is wanted.
fn has_text(text: &Option<String>, wanted: &str) -> (has: bool)
    ensures
        has == is_text(*text, wanted@),
{
    match text {
        Some(t) => same_text(t, wanted),
        None => false,
    }
}

/// A player has a Steam ID.
pub open spec fn has_steam_id(players: Seq<Player>, steam: Seq<char>) -> spec_fn(usize) -> bool {
    |i: usize| is_text(players[i as int].steam_id, steam)
}

/// A player has a name.
pub open spec fn has_name(players: Seq<Player>, name: Seq<char>) -> spec_fn(usize) -> bool {
    |i: usize| is_text(players[i as int].name, name)
}

/// What holds where none of the first keys is that of a wanted player, and the
/// next one is.
proof fn lemma_first_key_found(
    index: StringMap<usize>,
    wanted: spec_fn(usize) -> bool,
    at: int,
)
    requires
        index.well_formed(),
        0 <= at < index.keys().len(),
        wanted(index.values()[at]),
        forall|k: int| 0 <= k < at ==> !wanted(#[trigger] index.values()[k]),
    ensures
        first_key(index@, wanted) == Some(index.keys()[at]),
{
    let key = index.keys()[at];
    index.lemma_entry(at);
    assert forall|other: Seq<char>| #[trigger]
        index@.contains_key(other) && wanted(index@[other]) && other != key implies text_before(
        key,
        other,
    ) by {
        let k = index.keys().index_of(other);
        assert(index.keys().contains(other));
        index.lemma_entry(k);
        assert(at < k) by {
            if k < at {
                assert(!wanted(index.values()[k]));
            }
        }
    }
    assert(is_first_key(index@, wanted, key));
    lemma_one_first_key(index@, wanted, key);
}

/// What holds where no key is that of a wanted player.
proof fn lemma_no_first_key(index: StringMap<usize>, wanted: spec_fn(usize) -> bool)
    requires
        index.well_formed(),
        forall|k: int| 0 <= k < index.keys().len() ==> !wanted(#[trigger] index.values()[k]),
    ensures
        first_key(index@, wanted) is None,
{
    assert forall|key: Seq<char>| !is_first_key(index@, wanted, key) by {
        if index@.contains_key(key) {
            let k = index.keys().index_of(key);
            assert(index.keys().contains(key));
            index.lemma_entry(k);
        }
    }
}

/// The index of the first player, in the order of EOS IDs, with a Steam ID.
pub fn find_by_steam_id(index: &StringMap<usize>, players: &Vec<Player>, steam: &str) -> (found:
    Option<usize>)
    requires
        index.well_formed(),
        indexes(index@, players@),
    ensures
        match found {
            Some(i) => {
                &&& i < players@.len()
                &&& first_key(index@, has_steam_id(players@, steam@)) matches Some(key) && index@[key]
                    == i
            },
            None => first_key(index@, has_steam_id(players@, steam@)) is None,
        },
{
    let ghost wanted = has_steam_id(players@, steam@);
    let mut at: usize = 0;
    while at < index.len()
        invariant
            at <= index.keys().len(),
            index.well_formed(),
            indexes(index@, players@),
            wanted == has_steam_id(players@, steam@),
            forall|k: int| 0 <= k < at ==> !wanted(#[trigger] index.values()[k]),
        decreases index.keys().len() - at,
    {
        let i: usize = *index.value_at(at);
        if has_text(&players[i].steam_id, steam) {
            proof {
                lemma_first_key_found(*index, wanted, at as int);
            }
            return Some(i);
        }
        at += 1;
    }
    proof {
        lemma_no_first_key(*index, wanted);
    }
    None
}

/// The EOS ID in lower case of the first player, in the order of EOS IDs, with
/// a name.
pub fn find_by_name(index: &StringMap<usize>, players: &Vec<Player>, name: &str) -> (found: Option<
    String,
>)
    requires
        index.well_formed(),
        indexes(index@, players@),
    ensures
        opt_text(found) == first_key(index@, has_name(players@, name@)),
{
    let ghost wanted = has_name(players@, name@);
    let mut at: usize = 0;
    while at < index.len()
        invariant
            at <= index.keys().len(),
            index.well_formed(),
            indexes(index@, players@),
            wanted == has_name(players@, name@),
            forall|k: int| 0 <= k < at ==> !wanted(#[trigger] index.values()[k]),
        decreases index.keys().len() - at,
    {
        let i: usize = *index.value_at(at);
        if has_text(&players[i].name, name) {
            proof {
                lemma_first_key_found(*index, wanted, at as int);
            }
            return Some(index.key_at(at).clone());
        }
        at += 1;
    }
    proof {
        lemma_no_first_key(*index, wanted);
    }
    None
}

// ---------------------------------------------------------------------------
// What property events tell of actors
// ---------------------------------------------------------------------------

/// The number that an event carries, if it carries one.
pub open spec fn packed_number(event: PropertyEvent) -> Option<u32> {
    match (event.decoded.int_packed, event.decoded.int32) {
        (Some(packed), _) => Some(packed),
        (None, Some(n)) => Some(low_bits(n as int)),
        (None, None) => None,
    }
}

/// The number that an event carries, if it carries one.
fn carried_number(event: &PropertyEvent) -> (number: Option<u32>)
    ensures
        number == packed_number(*event),
{
    match event.decoded.int_packed {
        Some(packed) => Some(packed),
        None => match event.decoded.int32 {
            Some(n) => Some(low_32(n as i64)),
            None => None,
        },
    }
}

/// The event is about a property of an actor.
pub open spec fn is_about(event: PropertyEvent, property: Seq<char>) -> bool {
    event.property_name@ == property
}

/// The teams of actors, as the last event about each tells.
pub open spec fn teams_of_actors(events: Seq<PropertyEvent>) -> Map<u32, u32>
    decreases events.len(),
{
    if events.len() == 0 {
        Map::empty()
    } else {
        let before = teams_of_actors(events.drop_last());
        let event = events.last();
        match (event.actor_guid, packed_number(event)) {
            (Some(guid), Some(team)) => if is_about(event, "Team"@) {
                before.insert(guid, team)
            } else {
                before
            },
            _ => before,
        }
    }
}

/// The actors that others are attached to, as the first event about each tells.
pub open spec fn owners_of_children(events: Seq<PropertyEvent>) -> Map<u32, u32>
    decreases events.len(),
{
    if events.len() == 0 {
        Map::empty()
    } else {
        let before = owners_of_children(events.drop_last());
        let event = events.last();
        match (event.actor_guid, event.decoded.int_packed) {
            (Some(owner), Some(child)) => if is_about(event, "AttachSocket"@) && owner != child
                && !before.contains_key(child) {
                before.insert(child, owner)
            } else {
                before
            },
            _ => before,
        }
    }
}

/// From a time on, an actor has a player, or none.
#[derive(Debug, Clone, Copy)]
pub struct OwnerWindow {
    pub t_ms: u64,
    pub player_state: Option<u32>,
}

impl HasTime for OwnerWindow {
    open spec fn time(&self) -> u64 {
        self.t_ms
    }
}

impl Timed for OwnerWindow {
    fn time_ms(&self) -> (t: u64) {
        self.t_ms
    }
}

/// What an event tells of the player that an actor has.
pub open spec fn window_of(event: PropertyEvent) -> OwnerWindow {
    OwnerWindow {
        t_ms: event.t_ms,
        player_state: match packed_number(event) {
            Some(guid) => if guid > 0 {
                Some(guid)
            } else {
                None
            },
            None => None,
        },
    }
}

/// What the events tell of the players that an actor has, in their order.
pub open spec fn windows_of_actor(events: Seq<PropertyEvent>, actor: u32) -> Seq<OwnerWindow>
    decreases events.len(),
{
    if events.len() == 0 {
        Seq::empty()
    } else {
        let before = windows_of_actor(events.drop_last(), actor);
        let event = events.last();
        if is_about(event, "PlayerState"@) && event.actor_guid == Some(actor) {
            before.push(window_of(event))
        } else {
            before
        }
    }
}

/// The teams of actors.
pub fn build_owner_team_hints(events: &Vec<PropertyEvent>) -> (hints: HashMap<u32, u32>)
    ensures
        hints@ == teams_of_actors(events@),
{
    broadcast use group_hash_axioms;

    let mut hints: HashMap<u32, u32> = HashMap::new();
    let mut i: usize = 0;
    while i < events.len()
        invariant
            i <= events@.len(),
            hints@ == teams_of_actors(events@.take(i as int)),
        decreases events@.len() - i,
    {
        let event = &events[i];
        assert(events@.take(i + 1).drop_last() =~= events@.take(i as int));
        if same_text(&event.property_name, "Team") {
            if let Some(guid) = event.actor_guid {
                if let Some(team) = carried_number(event) {
                    hints.insert(guid, team);
                }
            }
        }
        i += 1;
    }
    assert(events@.take(i as int) =~= events@);
    hints
}

/// The actors that others are attached to.
pub fn build_child_owner_hints(events: &Vec<PropertyEvent>) -> (hints: HashMap<u32, u32>)
    ensures
        hints@ == owners_of_children(events@),
{
    broadcast use group_hash_axioms;

    let mut hints: HashMap<u32, u32> = HashMap::new();
    let mut i: usize = 0;
    while i < events.len()
        invariant
            i <= events@.len(),
            hints@ == owners_of_children(events@.take(i as int)),
        decreases events@.len() - i,
    {
        let event = &events[i];
        assert(events@.take(i + 1).drop_last() =~= events@.take(i as int));
        if same_text(&event.property_name, "AttachSocket") {
            if let Some(owner) = event.actor_guid {
                if let Some(child) = event.decoded.int_packed {
                    if owner != child && !hints.contains_key(&child) {
                        hints.insert(child, owner);
                    }
                }
            }
        }
        i += 1;
    }
    assert(events@.take(i as int) =~= events@);
    hints
}

/// The players that actors have over time.
pub fn build_owner_player_state_windows(events: &Vec<PropertyEvent>) -> (windows: Grouped<
    OwnerWindow,
>)
    ensures
        forall|actor: u32| #[trigger] windows.items(actor) == windows_of_actor(events@, actor),
{
    let mut windows: Grouped<OwnerWindow> = Grouped::new();
    let mut i: usize = 0;
    while i < events.len()
        invariant
            i <= events@.len(),
            forall|actor: u32| #[trigger]
                windows.items(actor) == windows_of_actor(events@.take(i as int), actor),
        decreases events@.len() - i,
    {
        let event = &events[i];
        assert(events@.take(i + 1).drop_last() =~= events@.take(i as int));
        if same_text(&event.property_name, "PlayerState") {
            if let Some(actor) = event.actor_guid {
                let player_state: Option<u32> = match carried_number(event) {
                    Some(guid) => if guid > 0 {
                        Some(guid)
                    } else {
                        None
                    },
                    None => None,
                };
                windows.push(actor, OwnerWindow { t_ms: event.t_ms, player_state });
            }
        }
        i += 1;
    }
    assert(events@.take(i as int) =~= events@);
    windows
}

/// The value of a GUID in a map, if it has one.
pub open spec fn hint(map: Map<u32, u32>, guid: u32) -> Option<u32> {
    if map.contains_key(guid) {
        Some(map[guid])
    } else {
        None
    }
}

/// The value of a GUID in a map, if it has one.
pub fn hint_of(map: &HashMap<u32, u32>, guid: u32) -> (value: Option<u32>)
    ensures
        value == hint(map@, guid),
{
    broadcast use group_hash_axioms;

    match map.get(&guid) {
        Some(value) => Some(*value),
        None => None,
    }
}

// ---------------------------------------------------------------------------
// Teams of one faction
// ---------------------------------------------------------------------------

/// The faction of a team in lower case, unless it has none or an empty one.
pub open spec fn faction_key(team: Team) -> Option<Seq<char>> {
    match team.faction {
        Some(faction) => if lowercase(faction@).len() > 0 {
            Some(lowercase(faction@))
        } else {
            None
        },
        None => None,
    }
}

/// The team number of each faction: the last one that is 1 or 2, or else the
/// first.
pub open spec fn faction_teams(teams: Seq<Team>) -> Map<Seq<char>, u32>
    decreases teams.len(),
{
    if teams.len() == 0 {
        Map::empty()
    } else {
        let before = faction_teams(teams.drop_last());
        let team = teams.last();
        match faction_key(team) {
            Some(faction) => if team.id == 1 || team.id == 2 || !before.contains_key(faction) {
                before.insert(faction, team.id)
            } else {
                before
            },
            None => before,
        }
    }
}

/// The team number that stands for a team: that of its faction, if it has one.
pub open spec fn team_alias(team: Team, factions: Map<Seq<char>, u32>) -> u32 {
    match faction_key(team) {
        Some(faction) => if factions.contains_key(faction) {
            factions[faction]
        } else {
            team.id
        },
        None => team.id,
    }
}

/// The team numbers that stand for team numbers, by some of the teams.
pub open spec fn aliases_by(teams: Seq<Team>, factions: Map<Seq<char>, u32>) -> Map<u32, u32>
    decreases teams.len(),
{
    if teams.len() == 0 {
        Map::empty()
    } else {
        aliases_by(teams.drop_last(), factions).insert(
            teams.last().id,
            team_alias(teams.last(), factions),
        )
    }
}

/// The team numbers that stand for team numbers: those of one faction have one.
pub open spec fn team_aliases(teams: Seq<Team>) -> Map<u32, u32> {
    aliases_by(teams, faction_teams(teams))
}

/// The faction of a team in lower case, unless it has none or an empty one.
fn lower_faction(team: &Team) -> (faction: Option<String>)
    ensures
        opt_text(faction) == faction_key(*team),
{
    match &team.faction {
        Some(faction) => {
            let lower = to_lower(faction);
            if chars_of(&lower).len() > 0 {
                Some(lower)
            } else {
                None
            }
        },
        None => None,
    }
}

/// The team numbers that stand for team numbers.
pub fn build_team_aliases(teams: &Vec<Team>) -> (aliases: HashMap<u32, u32>)
    ensures
        aliases@ == team_aliases(teams@),
{
    broadcast use group_hash_axioms;

    let mut factions: StringMap<u32> = StringMap::new();
    let mut i: usize = 0;
    while i < teams.len()
        invariant
            i <= teams@.len(),
            factions.well_formed(),
            factions@ == faction_teams(teams@.take(i as int)),
        decreases teams@.len() - i,
    {
        let team = &teams[i];
        assert(teams@.take(i + 1).drop_last() =~= teams@.take(i as int));
        if let Some(faction) = lower_faction(team) {
            if team.id == 1 || team.id == 2 || !factions.contains_key(&faction) {
                factions.insert(faction, team.id);
            }
        }
        i += 1;
    }
    assert(teams@.take(i as int) =~= teams@);
    let mut aliases: HashMap<u32, u32> = HashMap::new();
    let mut j: usize = 0;
    while j < teams.len()
        invariant
            j <= teams@.len(),
            factions.well_formed(),
            factions@ == faction_teams(teams@),
            aliases@ == aliases_by(teams@.take(j as int), factions@),
        decreases teams@.len() - j,
    {
        let team = &teams[j];
        assert(teams@.take(j + 1).drop_last() =~= teams@.take(j as int));
        let alias: u32 = match lower_faction(team) {
            Some(faction) => match factions.get(&faction) {
                Some(id) => *id,
                None => team.id,
            },
            None => team.id,
        };
        aliases.insert(team.id, alias);
        j += 1;
    }
    assert(teams@.take(j as int) =~= teams@);
    aliases
}

// ---------------------------------------------------------------------------
// Tracks
// ---------------------------------------------------------------------------

/// The index of the first player with a GUID, from an index on.
pub open spec fn first_player(players: Seq<Player>, guid: u32, from: int) -> Option<int>
    decreases players.len() - from,
{
    if from >= players.len() {
        None
    } else if players[from].player_state_guid == guid {
        Some(from)
    } else {
        first_player(players, guid, from + 1)
    }
}

/// The player of a track: the first one that has its GUID.
pub open spec fn player_of_track(track: Track3, players: Seq<Player>) -> Option<Player> {
    match track.player_state_guid {
        Some(guid) => match first_player(players, guid, 0) {
            Some(i) => Some(players[i]),
            None => None,
        },
        None => None,
    }
}

/// The tracks of players: the index of the last one by its key, and by the name
/// and the EOS ID of its player, all in lower case.
pub open spec fn tracks_by_name(tracks: Seq<Track3>, players: Seq<Player>) -> Map<Seq<char>, usize>
    decreases tracks.len(),
{
    if tracks.len() == 0 {
        Map::empty()
    } else {
        let index = (tracks.len() - 1) as usize;
        let by_key = tracks_by_name(tracks.drop_last(), players).insert(
            lowercase(tracks.last().key@),
            index,
        );
        match player_of_track(tracks.last(), players) {
            Some(player) => {
                let by_name = match player.name {
                    Some(name) => by_key.insert(lowercase(name@), index),
                    None => by_key,
                };
                match player.eos_id {
                    Some(eos) => by_name.insert(lowercase(eos@), index),
                    None => by_name,
                }
            },
            None => by_key,
        }
    }
}

/// The index of the first player with a GUID.
fn find_player(players: &Vec<Player>, guid: u32) -> (found: Option<usize>)
    ensures
        match found {
            Some(i) => i < players@.len() && first_player(players@, guid, 0) == Some(i as int),
            None => first_player(players@, guid, 0) is None,
        },
{
    let mut i: usize = 0;
    while i < players.len()
        invariant
            i <= players@.len(),
            first_player(players@, guid, 0) == first_player(players@, guid, i as int),
        decreases players@.len() - i,
    {
        if players[i].player_state_guid == guid {
            return Some(i);
        }
        i += 1;
    }
    None
}

/// All indices of a map of tracks are those of tracks.
pub open spec fn indexes_tracks(map: Map<Seq<char>, usize>, n: int) -> bool {
    forall|key: Seq<char>| #[trigger] map.contains_key(key) ==> map[key] < n
}

/// The tracks of players by name.
pub fn build_player_tracks_by_name(tracks: &Vec<Track3>, players: &Vec<Player>) -> (index:
    StringMap<usize>)
    ensures
        index.well_formed(),
        index@ == tracks_by_name(tracks@, players@),
        indexes_tracks(index@, tracks@.len() as int),
{
    let mut index: StringMap<usize> = StringMap::new();
    let mut i: usize = 0;
    while i < tracks.len()
        invariant
            i <= tracks@.len(),
            index.well_formed(),
            index@ == tracks_by_name(tracks@.take(i as int), players@),
            indexes_tracks(index@, i as int),
        decreases tracks@.len() - i,
    {
        let track = &tracks[i];
        assert(tracks@.take(i + 1).drop_last() =~= tracks@.take(i as int));
        index.insert(to_lower(&track.key), i);
        if let Some(guid) = track.player_state_guid {
            if let Some(p) = find_player(players, guid) {
                let player = &players[p];
                if let Some(name) = &player.name {
                    index.insert(to_lower(name), i);
                }
                if let Some(eos) = &player.eos_id {
                    index.insert(to_lower(eos), i);
                }
            }
        }
        i += 1;
    }
    assert(tracks@.take(i as int) =~= tracks@);
    index
}

/// The track has the GUID of an actor.
pub open spec fn is_track_of(track: Track3, guid: u32) -> bool {
    track.actor_guid == Some(guid)
}

/// The samples of the first track of an actor, from an index on: none where it
/// has no track.
pub open spec fn first_samples(tracks: Seq<Track3>, guid: u32, from: int) -> Seq<TrackSample3>
    decreases tracks.len() - from,
{
    if from >= tracks.len() {
        Seq::empty()
    } else if is_track_of(tracks[from], guid) {
        tracks[from].samples@
    } else {
        first_samples(tracks, guid, from + 1)
    }
}

/// The samples of the last track of an actor, if it has one.
pub open spec fn last_samples(tracks: Seq<Track3>, guid: u32) -> Option<Seq<TrackSample3>>
    decreases tracks.len(),
{
    if tracks.len() == 0 {
        None
    } else if is_track_of(tracks.last(), guid) {
        Some(tracks.last().samples@)
    } else {
        last_samples(tracks.drop_last(), guid)
    }
}

/// Whether a track has the GUID of an actor.
fn tracks_actor(track: &Track3, guid: u32) -> (answer: bool)
    ensures
        answer == is_track_of(*track, guid),
{
    match track.actor_guid {
        Some(g) => g == guid,
        None => false,
    }
}

/// The index of the first track of an actor.
pub fn find_first_track(tracks: &Vec<Track3>, guid: u32) -> (found: Option<usize>)
    ensures
        match found {
            Some(i) => i < tracks@.len() && first_samples(tracks@, guid, 0)
                == tracks@[i as int].samples@,
            None => first_samples(tracks@, guid, 0) == Seq::<TrackSample3>::empty(),
        },
{
    let mut i: usize = 0;
    while i < tracks.len()
        invariant
            i <= tracks@.len(),
            first_samples(tracks@, guid, 0) == first_samples(tracks@, guid, i as int),
        decreases tracks@.len() - i,
    {
        if tracks_actor(&tracks[i], guid) {
            return Some(i);
        }
        i += 1;
    }
    None
}

/// The index of the last track of an actor.
pub fn find_last_track(tracks: &Vec<Track3>, guid: u32) -> (found: Option<usize>)
    ensures
        match found {
            Some(i) => i < tracks@.len() && last_samples(tracks@, guid) == Some(
                tracks@[i as int].samples@,
            ),
            None => last_samples(tracks@, guid) is None,
        },
{
    let mut n: usize = tracks.len();
    assert(tracks@.take(n as int) =~= tracks@);
    while n > 0
        invariant
            n <= tracks@.len(),
            last_samples(tracks@, guid) == last_samples(tracks@.take(n as int), guid),
        decreases n,
    {
        assert(tracks@.take(n as int).last() == tracks@[n - 1]);
        assert(tracks@.take(n as int).drop_last() =~= tracks@.take(n - 1));
        if tracks_actor(&tracks[n - 1], guid) {
            return Some(n - 1);
        }
        n -= 1;
    }
    None
}

} // verus!
