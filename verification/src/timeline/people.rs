//! The players and squads of a timeline, where players are, and what happens to
//! them.

use crate::bundle::{KillEvent, Player, Squad, Track3, VisibilityWindow};
use crate::outside::{lowercase, to_lower};
use crate::string_map::StringMap;
use crate::text::{copy_opt, opt_text};
use crate::time_order::{
    by_time, in_time_order, law_sorting, lemma_sorting_changed_items, sort_by_time, HasTime, Timed,
};
use crate::timeline::lookups::{
    eos_by_guid, eos_by_name, find_by_name, find_by_steam_id, first_key, guid_text, has_name,
    has_steam_id, indexes, text_of_guid, texts,
};
use crate::timeline::samples::{downsample_track, spaced_out};
use crate::timeline::{
    normalize_team_id, team_number, TimelineKillEvent, TimelinePlayer, TimelinePositionSample,
    TimelineSpawnEvent, TimelineSquad,
};
use std::collections::HashMap;
use vstd::prelude::*;

verus! {

// ---------------------------------------------------------------------------
// Squads
// ---------------------------------------------------------------------------

/// The EOS ID of the leader of a squad: the one that the squad has, or else
/// that of the first player with the Steam ID of the leader.
pub open spec fn leader_of(squad: Squad, players: Seq<Player>, index: Map<Seq<char>, usize>) -> Option<
    Seq<char>,
> {
    match (squad.leader_eos_id, squad.leader_steam_id) {
        (Some(eos), _) => Some(eos@),
        (None, Some(steam)) => match first_key(index, has_steam_id(players, steam@)) {
            Some(key) => opt_text(players[index[key] as int].eos_id),
            None => None,
        },
        (None, None) => None,
    }
}

/// The team number of a squad in the replay.
pub open spec fn squad_team(squad: Squad) -> u32 {
    match (squad.team_id, squad.raw_team_id) {
        (Some(id), _) => id,
        (None, Some(raw)) => raw,
        (None, None) => 1,
    }
}

/// A squad of the timeline is one of the replay.
pub open spec fn is_squad_of(
    shown: TimelineSquad,
    squad: Squad,
    players: Seq<Player>,
    index: Map<Seq<char>, usize>,
) -> bool {
    &&& shown.id == squad.id
    &&& shown.name == squad.name
    &&& shown.team_id == team_number(squad_team(squad))
    &&& opt_text(shown.leader_eos) == leader_of(squad, players, index)
}

/// The squads of a match.
pub fn build_squads(squads: &Vec<Squad>, players: &Vec<Player>, index: &StringMap<usize>) -> (shown:
    Vec<TimelineSquad>)
    requires
        index.well_formed(),
        indexes(index@, players@),
    ensures
        shown@.len() == squads@.len(),
        forall|i: int|
            0 <= i < shown@.len() ==> is_squad_of(
                #[trigger] shown@[i],
                squads@[i],
                players@,
                index@,
            ),
{
    let mut shown: Vec<TimelineSquad> = Vec::new();
    let mut i: usize = 0;
    while i < squads.len()
        invariant
            i <= squads@.len(),
            shown@.len() == i,
            index.well_formed(),
            indexes(index@, players@),
            forall|k: int|
                0 <= k < i ==> is_squad_of(#[trigger] shown@[k], squads@[k], players@, index@),
        decreases squads@.len() - i,
    {
        let squad = &squads[i];
        let leader_eos: Option<String> = match (&squad.leader_eos_id, &squad.leader_steam_id) {
            (Some(eos), _) => Some(eos.clone()),
            (None, Some(steam)) => match find_by_steam_id(index, players, steam) {
                Some(p) => copy_opt(&players[p].eos_id),
                None => None,
            },
            (None, None) => None,
        };
        let raw: u32 = match squad.team_id {
            Some(id) => id,
            None => match squad.raw_team_id {
                Some(raw) => raw,
                None => 1,
            },
        };
        let entry = TimelineSquad {
            id: squad.id,
            name: copy_opt(&squad.name),
            team_id: normalize_team_id(raw),
            leader_eos,
        };
        assert(is_squad_of(entry, *squad, players@, index@));
        shown.push(entry);
        i += 1;
    }
    shown
}

// ---------------------------------------------------------------------------
// Players
// ---------------------------------------------------------------------------

/// The key of a player: the EOS ID, or else the name, in lower case.
pub open spec fn player_key(player: Player) -> Option<Seq<char>> {
    match (player.eos_id, player.name) {
        (Some(eos), _) => Some(lowercase(eos@)),
        (None, Some(name)) => Some(lowercase(name@)),
        (None, None) => None,
    }
}

/// The players with a key: the last one by key.
pub open spec fn players_by_key(players: Seq<Player>) -> Map<Seq<char>, Player>
    decreases players.len(),
{
    if players.len() == 0 {
        Map::empty()
    } else {
        let before = players_by_key(players.drop_last());
        match player_key(players.last()) {
            Some(key) => before.insert(key, players.last()),
            None => before,
        }
    }
}

/// A player of the timeline is one of the replay.
pub open spec fn is_player_of(shown: TimelinePlayer, player: Player) -> bool {
    &&& shown.name == player.name
    &&& shown.steam_id == player.steam_id
    &&& shown.team_id == (match player.team_id {
        Some(id) => Some(team_number(id)),
        None => None,
    })
    &&& shown.squad_id == player.squad_id
    &&& shown.visibility_windows@.len() == player.visibility_windows@.len()
    &&& forall|i: int|
        0 <= i < shown.visibility_windows@.len() ==> (#[trigger] shown.visibility_windows@[i])@
            == seq![
            player.visibility_windows@[i].start_ms,
            player.visibility_windows@[i].end_ms,
        ]
}

/// The players of the timeline are those of the replay.
pub open spec fn are_players_of(
    shown: Map<Seq<char>, TimelinePlayer>,
    players: Map<Seq<char>, Player>,
) -> bool {
    forall|key: Seq<char>|
        {
            &&& #[trigger] shown.contains_key(key) <==> players.contains_key(key)
            &&& shown.contains_key(key) ==> is_player_of(shown[key], players[key])
        }
}

/// A player, as the timeline has them.
pub fn build_player(player: &Player) -> (shown: TimelinePlayer)
    ensures
        is_player_of(shown, *player),
{
    let mut windows: Vec<[u64; 2]> = Vec::new();
    let mut i: usize = 0;
    while i < player.visibility_windows.len()
        invariant
            i <= player.visibility_windows@.len(),
            windows@.len() == i,
            forall|k: int|
                0 <= k < i ==> (#[trigger] windows@[k])@ == seq![
                    player.visibility_windows@[k].start_ms,
                    player.visibility_windows@[k].end_ms,
                ],
        decreases player.visibility_windows@.len() - i,
    {
        let window = player.visibility_windows[i];
        let pair: [u64; 2] = [window.start_ms, window.end_ms];
        assert(pair@ =~= seq![window.start_ms, window.end_ms]);
        windows.push(pair);
        i += 1;
    }
    TimelinePlayer {
        name: copy_opt(&player.name),
        steam_id: copy_opt(&player.steam_id),
        team_id: match player.team_id {
            Some(id) => Some(normalize_team_id(id)),
            None => None,
        },
        squad_id: player.squad_id,
        visibility_windows: windows,
    }
}

/// The players of a match.
pub fn build_players(players: &Vec<Player>) -> (shown: StringMap<TimelinePlayer>)
    ensures
        shown.well_formed(),
        are_players_of(shown@, players_by_key(players@)),
{
    let mut shown: StringMap<TimelinePlayer> = StringMap::new();
    let mut i: usize = 0;
    while i < players.len()
        invariant
            i <= players@.len(),
            shown.well_formed(),
            are_players_of(shown@, players_by_key(players@.take(i as int))),
        decreases players@.len() - i,
    {
        let player = &players[i];
        let ghost before = shown@;
        let ghost so_far = players_by_key(players@.take(i as int));
        let ghost now = players_by_key(players@.take(i + 1));
        assert(players@.take(i + 1).drop_last() =~= players@.take(i as int));
        let key: Option<String> = match (&player.eos_id, &player.name) {
            (Some(eos), _) => Some(to_lower(eos)),
            (None, Some(name)) => Some(to_lower(name)),
            (None, None) => None,
        };
        if let Some(k) = key {
            shown.insert(k, build_player(player));
        }
        assert forall|key: Seq<char>|
            {
                &&& #[trigger] shown@.contains_key(key) <==> now.contains_key(key)
                &&& shown@.contains_key(key) ==> is_player_of(shown@[key], now[key])
            } by {
            assert(before.contains_key(key) <==> so_far.contains_key(key));
        }
        i += 1;
    }
    assert(players@.take(i as int) =~= players@);
    shown
}

// ---------------------------------------------------------------------------
// Where players are
// ---------------------------------------------------------------------------

/// The key of a track: the EOS ID of the player by GUID, or else by name, or
/// else the key of the track in lower case.
pub open spec fn track_key(
    track: Track3,
    guids: Map<u32, Seq<char>>,
    names: Map<Seq<char>, Seq<char>>,
) -> Seq<char> {
    match guid_text(guids, track.player_state_guid) {
        Some(eos) => eos,
        None => if names.contains_key(lowercase(track.key@)) {
            names[lowercase(track.key@)]
        } else {
            lowercase(track.key@)
        },
    }
}

/// The positions of players by key. Of tracks with one key the last one with a
/// position counts.
pub open spec fn positions_by_key(
    tracks: Seq<Track3>,
    guids: Map<u32, Seq<char>>,
    names: Map<Seq<char>, Seq<char>>,
    interval_ms: u64,
) -> Map<Seq<char>, Seq<TimelinePositionSample>>
    decreases tracks.len(),
{
    if tracks.len() == 0 {
        Map::empty()
    } else {
        let before = positions_by_key(tracks.drop_last(), guids, names, interval_ms);
        let track = tracks.last();
        let samples = spaced_out(track.samples@, interval_ms);
        if samples.len() > 0 {
            before.insert(track_key(track, guids, names), samples)
        } else {
            before
        }
    }
}

/// The positions of a map.
pub open spec fn position_lists(map: Map<Seq<char>, Vec<TimelinePositionSample>>) -> Map<
    Seq<char>,
    Seq<TimelinePositionSample>,
> {
    map.map_values(|list: Vec<TimelinePositionSample>| list@)
}

/// The positions of players.
pub fn build_player_tracks(
    tracks: &Vec<Track3>,
    guid_to_eos: &HashMap<u32, String>,
    name_to_eos: &StringMap<String>,
    interval_ms: u64,
) -> (shown: StringMap<Vec<TimelinePositionSample>>)
    requires
        name_to_eos.well_formed(),
    ensures
        shown.well_formed(),
        position_lists(shown@) == positions_by_key(
            tracks@,
            texts(guid_to_eos@),
            texts(name_to_eos@),
            interval_ms,
        ),
{
    let mut shown: StringMap<Vec<TimelinePositionSample>> = StringMap::new();
    let mut i: usize = 0;
    assert(position_lists(shown@) =~= Map::empty());
    while i < tracks.len()
        invariant
            i <= tracks@.len(),
            name_to_eos.well_formed(),
            shown.well_formed(),
            position_lists(shown@) == positions_by_key(
                tracks@.take(i as int),
                texts(guid_to_eos@),
                texts(name_to_eos@),
                interval_ms,
            ),
        decreases tracks@.len() - i,
    {
        let track = &tracks[i];
        let ghost before = shown@;
        assert(tracks@.take(i + 1).drop_last() =~= tracks@.take(i as int));
        let samples = downsample_track(&track.samples, interval_ms);
        if samples.len() > 0 {
            let key: String = match text_of_guid(guid_to_eos, track.player_state_guid) {
                Some(eos) => eos,
                None => {
                    let lower = to_lower(&track.key);
                    match name_to_eos.get(&lower) {
                        Some(eos) => eos.clone(),
                        None => lower,
                    }
                },
            };
            let ghost k = key@;
            let ghost list = samples@;
            shown.insert(key, samples);
            assert(position_lists(shown@) =~= position_lists(before).insert(k, list));
        }
        i += 1;
    }
    assert(tracks@.take(i as int) =~= tracks@);
    shown
}

// ---------------------------------------------------------------------------
// Kills
// ---------------------------------------------------------------------------

/// A kill, with its texts as characters.
pub struct KillModel {
    pub t: u64,
    pub victim: Option<Seq<char>>,
    pub killer: Option<Seq<char>>,
    pub weapon: Option<Seq<char>>,
    pub is_incap: Option<bool>,
}

impl View for TimelineKillEvent {
    type V = KillModel;

    open spec fn view(&self) -> KillModel {
        KillModel {
            t: self.t,
            victim: opt_text(self.victim),
            killer: opt_text(self.killer),
            weapon: opt_text(self.weapon),
            is_incap: self.is_incap,
        }
    }
}

/// How a player is called: by the EOS ID in lower case of the first player with
/// the name, or else by the name.
pub open spec fn called(name: Option<String>, players: Seq<Player>, index: Map<Seq<char>, usize>) ->
    Option<Seq<char>> {
    match name {
        Some(n) => match first_key(index, has_name(players, n@)) {
            Some(eos) => Some(eos),
            None => Some(n@),
        },
        None => None,
    }
}

/// A kill, as the timeline has it. The replay does not tell the weapon.
pub open spec fn kill_model(kill: KillEvent, players: Seq<Player>, index: Map<Seq<char>, usize>) ->
    KillModel {
    KillModel {
        t: kill.t_ms,
        victim: called(kill.victim_name, players, index),
        killer: called(kill.killer_name, players, index),
        weapon: None,
        is_incap: kill.was_incap,
    }
}

/// How a player is called.
fn call_player(name: &Option<String>, players: &Vec<Player>, index: &StringMap<usize>) -> (text:
    Option<String>)
    requires
        index.well_formed(),
        indexes(index@, players@),
    ensures
        opt_text(text) == called(*name, players@, index@),
{
    match name {
        Some(n) => match find_by_name(index, players, n) {
            Some(eos) => Some(eos),
            None => Some(n.clone()),
        },
        None => None,
    }
}

/// The kills of a match.
pub fn build_kills(kills: &Vec<KillEvent>, players: &Vec<Player>, index: &StringMap<usize>) -> (shown:
    Vec<TimelineKillEvent>)
    requires
        index.well_formed(),
        indexes(index@, players@),
    ensures
        shown@.len() == kills@.len(),
        forall|i: int|
            0 <= i < shown@.len() ==> (#[trigger] shown@[i])@ == kill_model(
                kills@[i],
                players@,
                index@,
            ),
{
    let mut shown: Vec<TimelineKillEvent> = Vec::new();
    let mut i: usize = 0;
    while i < kills.len()
        invariant
            i <= kills@.len(),
            shown@.len() == i,
            index.well_formed(),
            indexes(index@, players@),
            forall|k: int|
                0 <= k < i ==> (#[trigger] shown@[k])@ == kill_model(kills@[k], players@, index@),
        decreases kills@.len() - i,
    {
        let kill = &kills[i];
        let event = TimelineKillEvent {
            t: kill.t_ms,
            victim: call_player(&kill.victim_name, players, index),
            killer: call_player(&kill.killer_name, players, index),
            weapon: None,
            is_incap: kill.was_incap,
        };
        assert(event@ == kill_model(*kill, players@, index@));
        shown.push(event);
        i += 1;
    }
    shown
}

// ---------------------------------------------------------------------------
// Spawns
// ---------------------------------------------------------------------------

/// A spawn, with its texts as characters.
pub struct SpawnModel {
    pub t: u64,
    pub player: Seq<char>,
    pub kit: Option<Seq<char>>,
}

impl View for TimelineSpawnEvent {
    type V = SpawnModel;

    open spec fn view(&self) -> SpawnModel {
        SpawnModel { t: self.t, player: self.player@, kit: opt_text(self.kit) }
    }
}

impl HasTime for SpawnModel {
    open spec fn time(&self) -> u64 {
        self.t
    }
}

impl HasTime for TimelineSpawnEvent {
    open spec fn time(&self) -> u64 {
        self.t
    }
}

impl Timed for TimelineSpawnEvent {
    fn time_ms(&self) -> (t: u64) {
        self.t
    }
}

/// The spawns, with their texts as characters.
pub open spec fn spawn_models(spawns: Seq<TimelineSpawnEvent>) -> Seq<SpawnModel> {
    spawns.map_values(|spawn: TimelineSpawnEvent| spawn@)
}

/// The kit of a player: the role that they have, or else the one that they
/// deploy with.
pub open spec fn kit_of(player: Player) -> Option<Seq<char>> {
    match player.current_role_name {
        Some(role) => Some(role@),
        None => opt_text(player.deploy_role_name),
    }
}

/// The spawns of a player: one at the start of each window.
pub open spec fn window_spawns(
    windows: Seq<VisibilityWindow>,
    player: Seq<char>,
    kit: Option<Seq<char>>,
) -> Seq<SpawnModel> {
    windows.map_values(
        |window: VisibilityWindow| SpawnModel { t: window.start_ms, player, kit },
    )
}

/// The spawns of players with an EOS ID, in their order.
pub open spec fn spawns_of(players: Seq<Player>) -> Seq<SpawnModel>
    decreases players.len(),
{
    if players.len() == 0 {
        Seq::empty()
    } else {
        let before = spawns_of(players.drop_last());
        let player = players.last();
        match player.eos_id {
            Some(eos) => before + window_spawns(
                player.visibility_windows@,
                lowercase(eos@),
                kit_of(player),
            ),
            None => before,
        }
    }
}

/// Puts the spawns of a player, given their EOS ID in lower case, behind those
/// of a list.
pub fn push_spawns(list: &mut Vec<TimelineSpawnEvent>, player: &Player, eos_id: &String)
    ensures
        spawn_models(final(list)@) == spawn_models(old(list)@) + window_spawns(
            player.visibility_windows@,
            eos_id@,
            kit_of(*player),
        ),
{
    let ghost before = spawn_models(list@);
    let ghost all = window_spawns(player.visibility_windows@, eos_id@, kit_of(*player));
    let mut i: usize = 0;
    assert(before + all.take(0) =~= before);
    while i < player.visibility_windows.len()
        invariant
            i <= player.visibility_windows@.len(),
            all == window_spawns(player.visibility_windows@, eos_id@, kit_of(*player)),
            spawn_models(list@) == before + all.take(i as int),
        decreases player.visibility_windows@.len() - i,
    {
        let kit: Option<String> = match &player.current_role_name {
            Some(role) => Some(role.clone()),
            None => copy_opt(&player.deploy_role_name),
        };
        let ghost so_far = list@;
        let spawn = TimelineSpawnEvent {
            t: player.visibility_windows[i].start_ms,
            player: eos_id.clone(),
            kit,
        };
        let ghost model = spawn@;
        list.push(spawn);
        assert(model == all[i as int]);
        assert(spawn_models(list@) =~= spawn_models(so_far).push(model));
        assert(spawn_models(list@) =~= before + all.take(i + 1));
        i += 1;
    }
    assert(all.take(i as int) =~= all);
}

/// The spawns of a match, in the order of their times.
pub fn build_spawns(players: &Vec<Player>) -> (spawns: Vec<TimelineSpawnEvent>)
    ensures
        spawn_models(spawns@) == by_time(spawns_of(players@)),
{
    let mut list: Vec<TimelineSpawnEvent> = Vec::new();
    let mut i: usize = 0;
    assert(spawn_models(list@) =~= Seq::empty());
    while i < players.len()
        invariant
            i <= players@.len(),
            spawn_models(list@) == spawns_of(players@.take(i as int)),
        decreases players@.len() - i,
    {
        let player = &players[i];
        assert(players@.take(i + 1).drop_last() =~= players@.take(i as int));
        if let Some(eos) = &player.eos_id {
            push_spawns(&mut list, player, &to_lower(eos));
        }
        i += 1;
    }
    assert(players@.take(i as int) =~= players@);
    proof {
        lemma_sorting_changed_items(list@, |spawn: TimelineSpawnEvent| spawn@);
    }
    sort_by_time(list)
}

/// Every window of a player with an EOS ID makes a spawn, and the spawns stand
/// in the order of their times.
pub proof fn law_spawns(players: Seq<Player>)
    ensures
        in_time_order(by_time(spawns_of(players))),
        by_time(spawns_of(players)).to_multiset() == spawns_of(players).to_multiset(),
        forall|p: int, w: int|
            0 <= p < players.len() && 0 <= w < (#[trigger] players[p]).visibility_windows@.len()
                && players[p].eos_id is Some ==> spawns_of(players).contains(
                (SpawnModel {
                    t: (#[trigger] players[p].visibility_windows@[w]).start_ms,
                    player: lowercase(players[p].eos_id->0@),
                    kit: kit_of(players[p]),
                }),
            ),
{
    law_sorting(spawns_of(players));
    assert forall|p: int, w: int|
        0 <= p < players.len() && 0 <= w < (#[trigger] players[p]).visibility_windows@.len()
            && players[p].eos_id is Some implies spawns_of(players).contains(
        (SpawnModel {
            t: (#[trigger] players[p].visibility_windows@[w]).start_ms,
            player: lowercase(players[p].eos_id->0@),
            kit: kit_of(players[p]),
        }),
    ) by {
        lemma_spawn_of_window(players, p, w);
    }
}

/// A window of a player with an EOS ID makes a spawn.
proof fn lemma_spawn_of_window(players: Seq<Player>, p: int, w: int)
    requires
        0 <= p < players.len(),
        0 <= w < players[p].visibility_windows@.len(),
        players[p].eos_id is Some,
    ensures
        spawns_of(players).contains(
            (SpawnModel {
                t: players[p].visibility_windows@[w].start_ms,
                player: lowercase(players[p].eos_id->0@),
                kit: kit_of(players[p]),
            }),
        ),
    decreases players.len(),
{
    let front = players.drop_last();
    let before = spawns_of(front);
    let model = SpawnModel {
        t: players[p].visibility_windows@[w].start_ms,
        player: lowercase(players[p].eos_id->0@),
        kit: kit_of(players[p]),
    };
    if p < front.len() {
        lemma_spawn_of_window(front, p, w);
        let i = choose|i: int| 0 <= i < before.len() && before[i] == model;
        assert(spawns_of(players)[i] == model);
    } else {
        assert(spawns_of(players)[before.len() + w] == model);
    }
}

// ---------------------------------------------------------------------------
// Tracks and players go together
// ---------------------------------------------------------------------------

/// An EOS ID that a GUID or a name stands for is the key of a player.
proof fn lemma_eos_ids_are_keys(players: Seq<Player>)
    ensures
        forall|guid: u32| #[trigger]
            eos_by_guid(players).contains_key(guid) ==> players_by_key(players).contains_key(
                eos_by_guid(players)[guid],
            ),
        forall|name: Seq<char>| #[trigger]
            eos_by_name(players).contains_key(name) ==> players_by_key(players).contains_key(
                eos_by_name(players)[name],
            ),
    decreases players.len(),
{
    if players.len() > 0 {
        let front = players.drop_last();
        lemma_eos_ids_are_keys(front);
        let keys = players_by_key(players);
        assert forall|guid: u32| #[trigger]
            eos_by_guid(players).contains_key(guid) implies keys.contains_key(
            eos_by_guid(players)[guid],
        ) by {
            if eos_by_guid(front).contains_key(guid) {
                assert(players_by_key(front).contains_key(eos_by_guid(front)[guid]));
            }
        }
        assert forall|name: Seq<char>| #[trigger]
            eos_by_name(players).contains_key(name) implies keys.contains_key(
            eos_by_name(players)[name],
        ) by {
            if eos_by_name(front).contains_key(name) {
                assert(players_by_key(front).contains_key(eos_by_name(front)[name]));
            }
        }
    }
}

/// A player with a name is known: under the EOS ID that the name stands for, or
/// else under the name.
proof fn lemma_named_player_is_known(players: Seq<Player>, name: Seq<char>, i: int)
    requires
        0 <= i < players.len(),
        players[i].name matches Some(n) && lowercase(n@) == name,
    ensures
        eos_by_name(players).contains_key(name) || players_by_key(players).contains_key(name),
    decreases players.len(),
{
    let front = players.drop_last();
    if i < front.len() {
        lemma_named_player_is_known(front, name, i);
    }
}

/// The positions of a player stand under the key of a player, wherever the
/// track names one: by the GUID of a player with an EOS ID, or by a name.
pub proof fn law_tracks_have_players(players: Seq<Player>, track: Track3)
    requires
        guid_text(eos_by_guid(players), track.player_state_guid) is Some || exists|i: int|
            0 <= i < players.len() && opt_lower((#[trigger] players[i]).name) == Some(
                lowercase(track.key@),
            ),
    ensures
        players_by_key(players).contains_key(
            track_key(track, eos_by_guid(players), eos_by_name(players)),
        ),
{
    lemma_eos_ids_are_keys(players);
    if guid_text(eos_by_guid(players), track.player_state_guid) is None {
        let name = lowercase(track.key@);
        let i = choose|i: int|
            0 <= i < players.len() && opt_lower((#[trigger] players[i]).name) == Some(name);
        lemma_named_player_is_known(players, name, i);
    }
}

/// An optional text in lower case.
pub open spec fn opt_lower(text: Option<String>) -> Option<Seq<char>> {
    match text {
        Some(t) => Some(lowercase(t@)),
        None => None,
    }
}

} // verus!
