//! Squad game log files (SquadGame.log): the rounds that they tell of, and what
//! they add to the players of a replay.

use crate::bundle::{Bundle, EventGroups, Player, VehicleDeathEvent, VisibilityWindow};
use crate::calendar::{is_time, millis_apart, Timestamp};
use crate::outside::{
    captures, compile, group_view, lowercase, millis_between, regex_captures, regex_compiles,
    regex_pattern, time_exists, to_lower,
};
use crate::string_map::StringMap;
use crate::text::{
    chars_of, contains, contains_any, copy_opt, has_part, i32_number, names_any, opt_text, parse_i32,
    parse_u32, pieces_of, split_chars, u32_number,
};
use regex::Regex;
use vstd::prelude::*;

verus! {

// ---------------------------------------------------------------------------
// Events and matches
// ---------------------------------------------------------------------------

/// An event of a round.
#[derive(Debug, Clone)]
pub struct LogEvent {
    /// Milliseconds since the start of the round.
    pub t_ms: u64,
    pub event_type: LogEventType,
}

/// What an event of a round is.
#[derive(Debug, Clone)]
pub enum LogEventType {
    NewGame { map: String, layer: String },
    PlayerConnected { controller: String, eos_id: Option<String>, steam_id: Option<String> },
    PlayerDisconnected { controller: String, eos_id: Option<String> },
    PlayerPossess { controller: String, eos_id: Option<String>, pawn: String },
    PlayerUnpossess { controller: String, eos_id: Option<String> },
    PlayerWounded { victim: String, attacker: String, weapon: String },
    PlayerDied { victim: String, attacker: String, weapon: String },
    VehicleDied { vehicle_class: String, vehicle_id: String, causer: String, instigator: String },
    RoundEnd,
}

/// A match (round) that a log tells of.
#[derive(Debug, Clone)]
pub struct LogMatch {
    pub map: String,
    pub layer: String,
    pub start_time: Timestamp,
    pub end_time: Option<Timestamp>,
    pub events: Vec<LogEvent>,
}

/// What an event is, with its texts as characters.
pub enum EventModel {
    NewGame { map: Seq<char>, layer: Seq<char> },
    PlayerConnected {
        controller: Seq<char>,
        eos_id: Option<Seq<char>>,
        steam_id: Option<Seq<char>>,
    },
    PlayerDisconnected { controller: Seq<char>, eos_id: Option<Seq<char>> },
    PlayerPossess { controller: Seq<char>, eos_id: Option<Seq<char>>, pawn: Seq<char> },
    PlayerUnpossess { controller: Seq<char>, eos_id: Option<Seq<char>> },
    PlayerWounded { victim: Seq<char>, attacker: Seq<char>, weapon: Seq<char> },
    PlayerDied { victim: Seq<char>, attacker: Seq<char>, weapon: Seq<char> },
    VehicleDied {
        vehicle_class: Seq<char>,
        vehicle_id: Seq<char>,
        causer: Seq<char>,
        instigator: Seq<char>,
    },
    RoundEnd,
}

/// An event and its time.
pub struct TimedEvent {
    pub t_ms: u64,
    pub what: EventModel,
}

/// A round, with its texts as characters.
pub struct MatchModel {
    pub map: Seq<char>,
    pub layer: Seq<char>,
    pub start: Timestamp,
    pub end: Option<Timestamp>,
    pub events: Seq<TimedEvent>,
}

impl View for LogEventType {
    type V = EventModel;

    open spec fn view(&self) -> EventModel {
        match self {
            LogEventType::NewGame { map, layer } => EventModel::NewGame {
                map: map@,
                layer: layer@,
            },
            LogEventType::PlayerConnected { controller, eos_id, steam_id } => {
                EventModel::PlayerConnected {
                    controller: controller@,
                    eos_id: opt_text(*eos_id),
                    steam_id: opt_text(*steam_id),
                }
            },
            LogEventType::PlayerDisconnected { controller, eos_id } => {
                EventModel::PlayerDisconnected {
                    controller: controller@,
                    eos_id: opt_text(*eos_id),
                }
            },
            LogEventType::PlayerPossess { controller, eos_id, pawn } => EventModel::PlayerPossess {
                controller: controller@,
                eos_id: opt_text(*eos_id),
                pawn: pawn@,
            },
            LogEventType::PlayerUnpossess { controller, eos_id } => EventModel::PlayerUnpossess {
                controller: controller@,
                eos_id: opt_text(*eos_id),
            },
            LogEventType::PlayerWounded { victim, attacker, weapon } => EventModel::PlayerWounded {
                victim: victim@,
                attacker: attacker@,
                weapon: weapon@,
            },
            LogEventType::PlayerDied { victim, attacker, weapon } => EventModel::PlayerDied {
                victim: victim@,
                attacker: attacker@,
                weapon: weapon@,
            },
            LogEventType::VehicleDied { vehicle_class, vehicle_id, causer, instigator } => {
                EventModel::VehicleDied {
                    vehicle_class: vehicle_class@,
                    vehicle_id: vehicle_id@,
                    causer: causer@,
                    instigator: instigator@,
                }
            },
            LogEventType::RoundEnd => EventModel::RoundEnd,
        }
    }
}

impl View for LogEvent {
    type V = TimedEvent;

    open spec fn view(&self) -> TimedEvent {
        TimedEvent { t_ms: self.t_ms, what: self.event_type@ }
    }
}

/// The events, with their texts as characters.
pub open spec fn event_models(events: Seq<LogEvent>) -> Seq<TimedEvent> {
    events.map_values(|event: LogEvent| event@)
}

impl View for LogMatch {
    type V = MatchModel;

    open spec fn view(&self) -> MatchModel {
        MatchModel {
            map: self.map@,
            layer: self.layer@,
            start: self.start_time,
            end: self.end_time,
            events: event_models(self.events@),
        }
    }
}

/// The rounds, with their texts as characters.
pub open spec fn match_models(rounds: Seq<LogMatch>) -> Seq<MatchModel> {
    rounds.map_values(|m: LogMatch| m@)
}

/// The milliseconds from one time to another, or 0 where the second is not the
/// later one.
pub open spec fn millis_since(time: Timestamp, start: Timestamp) -> u64 {
    if millis_apart(time, start) > 0 {
        millis_apart(time, start) as u64
    } else {
        0
    }
}

/// How long a round took: nothing where its end is not known.
pub open spec fn round_millis(m: MatchModel) -> u64 {
    match m.end {
        Some(end) => millis_since(end, m.start),
        None => 0,
    }
}

/// The times of a round exist.
pub open spec fn times_exist(m: MatchModel) -> bool {
    is_time(m.start) && (m.end matches Some(end) ==> is_time(end))
}

/// The milliseconds from one time to another, or 0.
fn elapsed_ms(time: &Timestamp, start: &Timestamp) -> (millis: u64)
    requires
        is_time(*time),
        is_time(*start),
    ensures
        millis == millis_since(*time, *start),
        millis <= i64::MAX,
{
    let millis: i64 = millis_between(time, start);
    if millis > 0 {
        millis as u64
    } else {
        0
    }
}

impl LogMatch {
    /// The times of this round exist.
    pub open spec fn well_formed(&self) -> bool {
        times_exist(self@)
    }

    /// How long this round took: nothing where its end is not known.
    pub fn duration_ms(&self) -> (millis: u64)
        requires
            self.well_formed(),
        ensures
            millis == round_millis(self@),
            millis <= i64::MAX,
    {
        match &self.end_time {
            Some(end) => elapsed_ms(end, &self.start_time),
            None => 0,
        }
    }
}

// ---------------------------------------------------------------------------
// Times of a log
// ---------------------------------------------------------------------------

/// The characters between the numbers of a time.
pub open spec fn stamp_separators() -> Seq<char> {
    seq!['.', '-', ':']
}

/// The time that a log writes as `2026.05.24-11.46.32:407`, if it is one.
pub open spec fn stamp_time(text: Seq<char>) -> Option<Timestamp> {
    let parts = pieces_of(text, stamp_separators());
    if parts.len() < 7 {
        None
    } else {
        match (
            i32_number(parts[0]),
            u32_number(parts[1]),
            u32_number(parts[2]),
            u32_number(parts[3]),
            u32_number(parts[4]),
            u32_number(parts[5]),
            u32_number(parts[6]),
        ) {
            (
                Some(year),
                Some(month),
                Some(day),
                Some(hour),
                Some(minute),
                Some(second),
                Some(milli),
            ) => {
                let time = Timestamp {
                    year: year as i32,
                    month: month as u32,
                    day: day as u32,
                    hour: hour as u32,
                    minute: minute as u32,
                    second: second as u32,
                    milli: milli as u32,
                };
                if is_time(time) {
                    Some(time)
                } else {
                    None
                }
            },
            _ => None,
        }
    }
}

/// Reads a time of a log: `2026.05.24-11.46.32:407`.
pub fn parse_timestamp(ts: &str) -> (time: Option<Timestamp>)
    ensures
        time == stamp_time(ts@),
        time matches Some(t) ==> is_time(t),
{
    let separators: Vec<char> = vec!['.', '-', ':'];
    assert(separators@ =~= stamp_separators());
    let parts = split_chars(&chars_of(ts), &separators);
    let ghost pieces = pieces_of(ts@, stamp_separators());
    assert(pieces.len() == parts@.len());
    assert forall|i: int| 0 <= i < parts@.len() implies (#[trigger] parts@[i])@ == pieces[i] by {}
    if parts.len() < 7 {
        return None;
    }
    let year: i32 = parse_i32(&parts[0])?;
    let month: u32 = parse_u32(&parts[1])?;
    let day: u32 = parse_u32(&parts[2])?;
    let hour: u32 = parse_u32(&parts[3])?;
    let minute: u32 = parse_u32(&parts[4])?;
    let second: u32 = parse_u32(&parts[5])?;
    let milli: u32 = parse_u32(&parts[6])?;
    let time = Timestamp { year, month, day, hour, minute, second, milli };
    if time_exists(&time) {
        Some(time)
    } else {
        None
    }
}

// ---------------------------------------------------------------------------
// Lines of a log
// ---------------------------------------------------------------------------

/// A line that tells of a new round.
pub const NEW_GAME: &'static str = r"^\[([0-9.:-]+)\]\[([ 0-9]*)\]LogWorld: Bringing World /([A-Za-z0-9]+)/(?:Maps/)?([A-Za-z0-9_-]+)/(?:.+/)?([A-Za-z0-9_-]+)";

/// A line that tells of a player who connects.
pub const PLAYER_CONNECTED: &'static str = r"^\[([0-9.:-]+)\]\[([ 0-9]*)\]LogSquad: PostLogin: NewPlayer: .*?BP_PlayerController.*?\.([^\s]+) \(IP: [\d.]+ \| Online IDs:([^)]+)\)";

/// A line that tells of a player who disconnects.
pub const PLAYER_DISCONNECTED: &'static str = r"^\[([0-9.:-]+)\]\[([ 0-9]*)\]LogNet: UChannel::Close: Sending CloseBunch\..+PC: (\w+PlayerController[^,]*),.*?UniqueId: RedpointEOS:([a-f0-9]+)";

/// A line that tells of a player who takes a pawn.
pub const PLAYER_POSSESS: &'static str = r"^\[([0-9.:-]+)\]\[([ 0-9]*)\]LogSquadTrace: \[DedicatedServer\](?:ASQPlayerController::)?OnPossess\(\): PC=(.+) \(Online IDs:([^)]+)\) Pawn=([A-Za-z0-9_]+)_C";

/// A line that tells of a player who leaves a pawn.
pub const PLAYER_UNPOSSESS: &'static str = r"^\[([0-9.:-]+)\]\[([ 0-9]*)\]LogSquadTrace: \[DedicatedServer\](?:ASQPlayerController::)?OnUnPossess\(\): PC=(.+) \(Online IDs:([^)]+)\)";

/// A line that tells of a player who is wounded.
pub const PLAYER_WOUNDED: &'static str = r"^\[([0-9.:-]+)\]\[([ 0-9]*)\]LogSquadTrace: \[DedicatedServer\](?:ASQSoldier::)?Wound\(\): Player:(.+) KillingDamage=[-0-9.]+ from ([A-Za-z_0-9]+) \(Online IDs:[^)]+\| Controller ID: [\w\d]+\) caused by ([A-Za-z_0-9-]+)_C";

/// A line that tells of a player who dies. (The game writes `Contoller` here.)
pub const PLAYER_DIED: &'static str = r"^\[([0-9.:-]+)\]\[([ 0-9]*)\]LogSquadTrace: \[DedicatedServer\](?:ASQSoldier::)?Die\(\): Player:(.+) KillingDamage=[-0-9.]+ from ([A-Za-z_0-9]+) \(Online IDs:[^)]+\| Contoller ID: [\w\d]+\) caused by ([A-Za-z_0-9-]+)_C";

/// A line that tells of the end of a round.
pub const ROUND_END: &'static str = r"^\[([0-9.:-]+)\]\[([ 0-9]*)\]LogGameState: Match State Changed from InProgress to WaitingPostMatch";

/// The EOS ID among the online IDs of a player.
pub const EOS_ID: &'static str = r"EOS:\s*([a-f0-9]+)";

/// The Steam ID among the online IDs of a player.
pub const STEAM_ID: &'static str = r"steam:\s*(\d+)";

/// What a line of a log tells: a new round, or an event of the round. The time
/// is as the log writes it.
#[derive(Debug, Clone)]
pub enum LogLine {
    NewGame { stamp: String, map: String, layer: String },
    Event { stamp: String, event: LogEventType },
}

/// What a line tells, with its texts as characters.
pub enum LineModel {
    NewGame { stamp: Seq<char>, map: Seq<char>, layer: Seq<char> },
    Event { stamp: Seq<char>, event: EventModel },
}

impl View for LogLine {
    type V = LineModel;

    open spec fn view(&self) -> LineModel {
        match self {
            LogLine::NewGame { stamp, map, layer } => LineModel::NewGame {
                stamp: stamp@,
                map: map@,
                layer: layer@,
            },
            LogLine::Event { stamp, event } => LineModel::Event { stamp: stamp@, event: event@ },
        }
    }
}

/// What a line tells, if it tells anything, with its texts as characters.
pub open spec fn line_model(line: Option<LogLine>) -> Option<LineModel> {
    match line {
        Some(l) => Some(l@),
        None => None,
    }
}

/// The text of a group of a match: no text where the group has none.
pub open spec fn group_text(groups: Seq<Option<Seq<char>>>, i: int) -> Seq<char> {
    if 0 <= i < groups.len() && groups[i] is Some {
        groups[i]->0
    } else {
        Seq::empty()
    }
}

/// The EOS ID among the online IDs of a player.
pub open spec fn eos_id_among(ids: Seq<char>) -> Option<Seq<char>> {
    match regex_captures(EOS_ID@, ids) {
        Some(groups) => Some(lowercase(group_text(groups, 1))),
        None => None,
    }
}

/// The Steam ID among the online IDs of a player.
pub open spec fn steam_id_among(ids: Seq<char>) -> Option<Seq<char>> {
    match regex_captures(STEAM_ID@, ids) {
        Some(groups) => Some(group_text(groups, 1)),
        None => None,
    }
}

/// What a line tells by the first pattern that it fits.
pub open spec fn line_read(line: Seq<char>) -> Option<LineModel> {
    if regex_captures(NEW_GAME@, line) is Some {
        let groups = regex_captures(NEW_GAME@, line)->0;
        Some(
            LineModel::NewGame {
                stamp: group_text(groups, 1),
                map: group_text(groups, 4),
                layer: group_text(groups, 5),
            },
        )
    } else {
        match event_read(line) {
            Some((stamp, event)) => Some(LineModel::Event { stamp, event }),
            None => None,
        }
    }
}

/// The event that a line tells of, with its time, by the first pattern of an
/// event that it fits.
pub open spec fn event_read(line: Seq<char>) -> Option<(Seq<char>, EventModel)> {
    if regex_captures(PLAYER_CONNECTED@, line) is Some {
        let groups = regex_captures(PLAYER_CONNECTED@, line)->0;
        let event = EventModel::PlayerConnected {
            controller: group_text(groups, 3),
            eos_id: eos_id_among(group_text(groups, 4)),
            steam_id: steam_id_among(group_text(groups, 4)),
        };
        Some((group_text(groups, 1), event))
    } else if regex_captures(PLAYER_DISCONNECTED@, line) is Some {
        let groups = regex_captures(PLAYER_DISCONNECTED@, line)->0;
        let event = EventModel::PlayerDisconnected {
            controller: group_text(groups, 3),
            eos_id: Some(lowercase(group_text(groups, 4))),
        };
        Some((group_text(groups, 1), event))
    } else if regex_captures(PLAYER_POSSESS@, line) is Some {
        let groups = regex_captures(PLAYER_POSSESS@, line)->0;
        let event = EventModel::PlayerPossess {
            controller: group_text(groups, 3),
            eos_id: eos_id_among(group_text(groups, 4)),
            pawn: group_text(groups, 5),
        };
        Some((group_text(groups, 1), event))
    } else if regex_captures(PLAYER_UNPOSSESS@, line) is Some {
        let groups = regex_captures(PLAYER_UNPOSSESS@, line)->0;
        let event = EventModel::PlayerUnpossess {
            controller: group_text(groups, 3),
            eos_id: eos_id_among(group_text(groups, 4)),
        };
        Some((group_text(groups, 1), event))
    } else if regex_captures(PLAYER_WOUNDED@, line) is Some {
        let groups = regex_captures(PLAYER_WOUNDED@, line)->0;
        let event = EventModel::PlayerWounded {
            victim: group_text(groups, 3),
            attacker: group_text(groups, 4),
            weapon: group_text(groups, 5),
        };
        Some((group_text(groups, 1), event))
    } else if regex_captures(PLAYER_DIED@, line) is Some {
        let groups = regex_captures(PLAYER_DIED@, line)->0;
        let event = EventModel::PlayerDied {
            victim: group_text(groups, 3),
            attacker: group_text(groups, 4),
            weapon: group_text(groups, 5),
        };
        Some((group_text(groups, 1), event))
    } else if regex_captures(ROUND_END@, line) is Some {
        let groups = regex_captures(ROUND_END@, line)->0;
        Some((group_text(groups, 1), EventModel::RoundEnd))
    } else {
        None
    }
}

/// The patterns of the lines, ready for use.
pub struct LogPatterns {
    new_game: Regex,
    player_connected: Regex,
    player_disconnected: Regex,
    player_possess: Regex,
    player_unpossess: Regex,
    player_wounded: Regex,
    player_died: Regex,
    round_end: Regex,
    eos_id: Regex,
    steam_id: Regex,
}

/// All of the patterns are accepted.
pub open spec fn patterns_compile() -> bool {
    &&& regex_compiles(NEW_GAME@)
    &&& regex_compiles(PLAYER_CONNECTED@)
    &&& regex_compiles(PLAYER_DISCONNECTED@)
    &&& regex_compiles(PLAYER_POSSESS@)
    &&& regex_compiles(PLAYER_UNPOSSESS@)
    &&& regex_compiles(PLAYER_WOUNDED@)
    &&& regex_compiles(PLAYER_DIED@)
    &&& regex_compiles(ROUND_END@)
    &&& regex_compiles(EOS_ID@)
    &&& regex_compiles(STEAM_ID@)
}

/// A pattern ready for use, unless it is refused.
fn compiled(pattern: &str) -> (re: Option<Regex>)
    ensures
        re is Some <==> regex_compiles(pattern@),
        re matches Some(r) ==> regex_pattern(r) == pattern@,
{
    match compile(pattern) {
        Ok(re) => Some(re),
        Err(_) => None,
    }
}

/// The text of a group.
fn text_of_group(groups: &Vec<Option<String>>, i: usize) -> (text: String)
    ensures
        text@ == group_text(groups@.map_values(|g: Option<String>| group_view(g)), i as int),
{
    if i < groups.len() {
        match &groups[i] {
            Some(text) => text.clone(),
            None => String::new(),
        }
    } else {
        String::new()
    }
}

impl LogPatterns {
    /// Every pattern is the one of its line.
    pub closed spec fn well_formed(&self) -> bool {
        &&& regex_pattern(self.new_game) == NEW_GAME@
        &&& regex_pattern(self.player_connected) == PLAYER_CONNECTED@
        &&& regex_pattern(self.player_disconnected) == PLAYER_DISCONNECTED@
        &&& regex_pattern(self.player_possess) == PLAYER_POSSESS@
        &&& regex_pattern(self.player_unpossess) == PLAYER_UNPOSSESS@
        &&& regex_pattern(self.player_wounded) == PLAYER_WOUNDED@
        &&& regex_pattern(self.player_died) == PLAYER_DIED@
        &&& regex_pattern(self.round_end) == ROUND_END@
        &&& regex_pattern(self.eos_id) == EOS_ID@
        &&& regex_pattern(self.steam_id) == STEAM_ID@
    }

    /// Makes the patterns ready for use, unless one of them is refused.
    pub fn new() -> (patterns: Option<Self>)
        ensures
            patterns is Some <==> patterns_compile(),
            patterns matches Some(p) ==> p.well_formed(),
    {
        let new_game = compiled(NEW_GAME)?;
        let player_connected = compiled(PLAYER_CONNECTED)?;
        let player_disconnected = compiled(PLAYER_DISCONNECTED)?;
        let player_possess = compiled(PLAYER_POSSESS)?;
        let player_unpossess = compiled(PLAYER_UNPOSSESS)?;
        let player_wounded = compiled(PLAYER_WOUNDED)?;
        let player_died = compiled(PLAYER_DIED)?;
        let round_end = compiled(ROUND_END)?;
        let eos_id = compiled(EOS_ID)?;
        let steam_id = compiled(STEAM_ID)?;
        Some(
            LogPatterns {
                new_game,
                player_connected,
                player_disconnected,
                player_possess,
                player_unpossess,
                player_wounded,
                player_died,
                round_end,
                eos_id,
                steam_id,
            },
        )
    }

    /// The EOS ID among the online IDs of a player.
    pub fn extract_eos_id(&self, ids: &str) -> (id: Option<String>)
        requires
            self.well_formed(),
        ensures
            opt_text(id) == eos_id_among(ids@),
    {
        match captures(&self.eos_id, ids) {
            Some(groups) => Some(to_lower(&text_of_group(&groups, 1))),
            None => None,
        }
    }

    /// The Steam ID among the online IDs of a player.
    pub fn extract_steam_id(&self, ids: &str) -> (id: Option<String>)
        requires
            self.well_formed(),
        ensures
            opt_text(id) == steam_id_among(ids@),
    {
        match captures(&self.steam_id, ids) {
            Some(groups) => Some(text_of_group(&groups, 1)),
            None => None,
        }
    }

    /// What a line of a log tells, if it tells anything.
    pub fn read_line(&self, line: &str) -> (read: Option<LogLine>)
        requires
            self.well_formed(),
        ensures
            line_model(read) == line_read(line@),
    {
        if let Some(groups) = captures(&self.new_game, line) {
            return Some(
                LogLine::NewGame {
                    stamp: text_of_group(&groups, 1),
                    map: text_of_group(&groups, 4),
                    layer: text_of_group(&groups, 5),
                },
            );
        }
        match self.read_event(line) {
            Some((stamp, event)) => Some(LogLine::Event { stamp, event }),
            None => None,
        }
    }

    /// The event that a line tells of, with its time.
    fn read_event(&self, line: &str) -> (read: Option<(String, LogEventType)>)
        requires
            self.well_formed(),
        ensures
            match read {
                Some((stamp, event)) => event_read(line@) == Some((stamp@, event@)),
                None => event_read(line@) is None,
            },
    {
        if let Some(groups) = captures(&self.player_connected, line) {
            let ids = text_of_group(&groups, 4);
            let event = LogEventType::PlayerConnected {
                controller: text_of_group(&groups, 3),
                eos_id: self.extract_eos_id(&ids),
                steam_id: self.extract_steam_id(&ids),
            };
            return Some((text_of_group(&groups, 1), event));
        }
        if let Some(groups) = captures(&self.player_disconnected, line) {
            let event = LogEventType::PlayerDisconnected {
                controller: text_of_group(&groups, 3),
                eos_id: Some(to_lower(&text_of_group(&groups, 4))),
            };
            return Some((text_of_group(&groups, 1), event));
        }
        if let Some(groups) = captures(&self.player_possess, line) {
            let event = LogEventType::PlayerPossess {
                controller: text_of_group(&groups, 3),
                eos_id: self.extract_eos_id(&text_of_group(&groups, 4)),
                pawn: text_of_group(&groups, 5),
            };
            return Some((text_of_group(&groups, 1), event));
        }
        if let Some(groups) = captures(&self.player_unpossess, line) {
            let event = LogEventType::PlayerUnpossess {
                controller: text_of_group(&groups, 3),
                eos_id: self.extract_eos_id(&text_of_group(&groups, 4)),
            };
            return Some((text_of_group(&groups, 1), event));
        }
        if let Some(groups) = captures(&self.player_wounded, line) {
            let event = LogEventType::PlayerWounded {
                victim: text_of_group(&groups, 3),
                attacker: text_of_group(&groups, 4),
                weapon: text_of_group(&groups, 5),
            };
            return Some((text_of_group(&groups, 1), event));
        }
        if let Some(groups) = captures(&self.player_died, line) {
            let event = LogEventType::PlayerDied {
                victim: text_of_group(&groups, 3),
                attacker: text_of_group(&groups, 4),
                weapon: text_of_group(&groups, 5),
            };
            return Some((text_of_group(&groups, 1), event));
        }
        if let Some(groups) = captures(&self.round_end, line) {
            return Some((text_of_group(&groups, 1), LogEventType::RoundEnd));
        }
        None
    }
}

// ---------------------------------------------------------------------------
// Rounds of a log
// ---------------------------------------------------------------------------

/// The rounds that a log has told of so far, and the one it is telling of.
#[derive(Debug, Clone)]
pub struct LogParser {
    pub done: Vec<LogMatch>,
    pub current: Option<LogMatch>,
}

/// The rounds so far, with their texts as characters.
pub struct ParserModel {
    pub done: Seq<MatchModel>,
    pub current: Option<MatchModel>,
}

impl View for LogParser {
    type V = ParserModel;

    open spec fn view(&self) -> ParserModel {
        ParserModel {
            done: match_models(self.done@),
            current: match self.current {
                Some(m) => Some(m@),
                None => None,
            },
        }
    }
}

/// Before the first line.
pub open spec fn no_rounds() -> ParserModel {
    ParserModel { done: Seq::empty(), current: None }
}

/// A round that ends at a time, unless it has ended before.
pub open spec fn ended(m: MatchModel, time: Timestamp) -> MatchModel {
    MatchModel {
        end: match m.end {
            Some(end) => Some(end),
            None => Some(time),
        },
        ..m
    }
}

/// A round in which something happens at a time.
pub open spec fn with_event(m: MatchModel, time: Timestamp, event: EventModel) -> MatchModel {
    MatchModel {
        end: if event is RoundEnd {
            Some(time)
        } else {
            m.end
        },
        events: m.events.push(TimedEvent { t_ms: millis_since(time, m.start), what: event }),
        ..m
    }
}

/// The rounds after one more line. A new round ends the one before it; the
/// maps that the game shows between rounds make no round. A line without a
/// time changes nothing.
pub open spec fn after_line(state: ParserModel, line: LineModel) -> ParserModel {
    match line {
        LineModel::NewGame { stamp, map, layer } => match stamp_time(stamp) {
            Some(time) => if has_part(map, "Transition"@) {
                state
            } else {
                ParserModel {
                    done: match state.current {
                        Some(m) => state.done.push(ended(m, time)),
                        None => state.done,
                    },
                    current: Some(
                        MatchModel { map, layer, start: time, end: None, events: Seq::empty() },
                    ),
                }
            },
            None => state,
        },
        LineModel::Event { stamp, event } => match (state.current, stamp_time(stamp)) {
            (Some(m), Some(time)) => ParserModel {
                current: Some(with_event(m, time, event)),
                ..state
            },
            _ => state,
        },
    }
}

/// All rounds, the last one included.
pub open spec fn all_rounds(state: ParserModel) -> Seq<MatchModel> {
    match state.current {
        Some(m) => state.done.push(m),
        None => state.done,
    }
}

/// The rounds after some lines.
pub open spec fn after_lines(lines: Seq<Seq<char>>) -> ParserModel
    decreases lines.len(),
{
    if lines.len() == 0 {
        no_rounds()
    } else {
        let before = after_lines(lines.drop_last());
        match line_read(lines.last()) {
            Some(line) => after_line(before, line),
            None => before,
        }
    }
}

/// The times of every round exist.
pub open spec fn all_times_exist(state: ParserModel) -> bool {
    forall|i: int| 0 <= i < all_rounds(state).len() ==> times_exist(#[trigger] all_rounds(state)[i])
}

impl LogParser {
    /// The times of every round exist.
    pub open spec fn well_formed(&self) -> bool {
        all_times_exist(self@)
    }

    /// A parser that has seen no line.
    pub fn new() -> (parser: Self)
        ensures
            parser@ == no_rounds(),
            parser.well_formed(),
    {
        let parser = LogParser { done: Vec::new(), current: None };
        assert(parser@.done =~= no_rounds().done);
        parser
    }

    /// Takes note of what a line tells.
    pub fn take_line(&mut self, line: LogLine)
        requires
            old(self).well_formed(),
        ensures
            final(self)@ == after_line(old(self)@, line@),
            final(self).well_formed(),
    {
        let ghost before = *self;
        proof {
            lemma_current_times(before@);
        }
        match line {
            LogLine::NewGame { stamp, map, layer } => {
                if let Some(time) = parse_timestamp(&stamp) {
                    if !contains(&map, "Transition") {
                        if let Some(mut m) = self.current.take() {
                            if m.end_time.is_none() {
                                m.end_time = Some(time);
                            }
                            let ghost closed = m@;
                            self.done.push(m);
                            assert(match_models(self.done@) =~= match_models(
                                before.done@,
                            ).push(closed));
                        }
                        self.current = Some(
                            LogMatch {
                                map,
                                layer,
                                start_time: time,
                                end_time: None,
                                events: Vec::new(),
                            },
                        );
                        proof {
                            assert(self.current->0@.events =~= Seq::<TimedEvent>::empty());
                            lemma_times_kept(before@, line@);
                        }
                    }
                }
            },
            LogLine::Event { stamp, event } => {
                if let Some(mut m) = self.current.take() {
                    let ghost open = m@;
                    let ghost what = event@;
                    if let Some(time) = parse_timestamp(&stamp) {
                        let t_ms: u64 = elapsed_ms(&time, &m.start_time);
                        if let LogEventType::RoundEnd = event {
                            m.end_time = Some(time);
                        }
                        m.events.push(LogEvent { t_ms, event_type: event });
                        proof {
                            assert(m@.events =~= open.events.push(TimedEvent { t_ms, what }));
                            lemma_times_kept(before@, line@);
                        }
                    }
                    self.current = Some(m);
                }
            },
        }
        assert(self@ =~= after_line(before@, line@));
    }

    /// The rounds, when there are no more lines.
    pub fn finish(self) -> (rounds: Vec<LogMatch>)
        ensures
            match_models(rounds@) == all_rounds(self@),
    {
        let ghost done = self.done@;
        let mut rounds = self.done;
        if let Some(m) = self.current {
            rounds.push(m);
            assert(match_models(rounds@) =~= match_models(done).push(m@));
        }
        rounds
    }
}

/// The times of the round that a log is telling of exist.
proof fn lemma_current_times(state: ParserModel)
    requires
        all_times_exist(state),
    ensures
        state.current matches Some(m) ==> times_exist(m),
{
    if let Some(m) = state.current {
        assert(all_rounds(state)[state.done.len() as int] == m);
    }
}

/// One more line keeps it that the times of every round exist.
proof fn lemma_times_kept(state: ParserModel, line: LineModel)
    requires
        all_times_exist(state),
    ensures
        all_times_exist(after_line(state, line)),
{
    lemma_current_times(state);
    let after = after_line(state, line);
    assert forall|i: int| 0 <= i < all_rounds(after).len() implies times_exist(
        #[trigger] all_rounds(after)[i],
    ) by {
        if i < state.done.len() {
            assert(all_rounds(state)[i] == state.done[i]);
        }
    }
}

/// The rounds that the lines of a log tell of. There are none (not even an
/// empty list) where one of the patterns of the lines is refused.
pub fn parse_log_lines(lines: &Vec<String>) -> (rounds: Option<Vec<LogMatch>>)
    ensures
        match rounds {
            Some(list) => {
                &&& patterns_compile()
                &&& match_models(list@) == all_rounds(
                    after_lines(lines@.map_values(|line: String| line@)),
                )
                &&& forall|i: int| 0 <= i < list@.len() ==> (#[trigger] list@[i]).well_formed()
            },
            None => !patterns_compile(),
        },
{
    let patterns = LogPatterns::new()?;
    let mut parser = LogParser::new();
    let ghost texts = lines@.map_values(|line: String| line@);
    let mut i: usize = 0;
    assert(texts.take(0) =~= Seq::empty());
    while i < lines.len()
        invariant
            i <= lines@.len(),
            patterns.well_formed(),
            texts == lines@.map_values(|line: String| line@),
            parser@ == after_lines(texts.take(i as int)),
            parser.well_formed(),
        decreases lines@.len() - i,
    {
        assert(texts.take(i + 1).drop_last() =~= texts.take(i as int));
        assert(texts.take(i + 1).last() == lines@[i as int]@);
        if let Some(line) = patterns.read_line(&lines[i]) {
            parser.take_line(line);
        }
        i += 1;
    }
    assert(texts.take(i as int) =~= texts);
    let ghost state = parser@;
    let list = parser.finish();
    assert forall|k: int| 0 <= k < list@.len() implies (#[trigger] list@[k]).well_formed() by {
        assert(match_models(list@)[k] == list@[k]@);
        assert(times_exist(all_rounds(state)[k]));
    }
    Some(list)
}

/// Every round but the last one has an end, none is played on a map that the
/// game shows between rounds, and the times of all of them exist.
pub proof fn law_rounds_of_a_log(lines: Seq<Seq<char>>)
    ensures
        forall|i: int| 0 <= i < after_lines(lines).done.len() ==> (#[trigger] after_lines(
            lines,
        ).done[i]).end is Some,
        forall|i: int| 0 <= i < all_rounds(after_lines(lines)).len() ==> !has_part(
            (#[trigger] all_rounds(after_lines(lines))[i]).map,
            "Transition"@,
        ),
        all_times_exist(after_lines(lines)),
    decreases lines.len(),
{
    if lines.len() > 0 {
        let before = after_lines(lines.drop_last());
        law_rounds_of_a_log(lines.drop_last());
        if let Some(line) = line_read(lines.last()) {
            lemma_times_kept(before, line);
            let after = after_line(before, line);
            if let Some(m) = before.current {
                assert(all_rounds(before)[before.done.len() as int] == m);
            }
            assert forall|i: int| 0 <= i < all_rounds(after).len() implies !has_part(
                (#[trigger] all_rounds(after)[i]).map,
                "Transition"@,
            ) by {
                if i < before.done.len() {
                    assert(all_rounds(before)[i] == before.done[i]);
                }
            }
        }
    }
}

/// A line changes no round that has been told of before.
pub proof fn law_told_rounds_stay(state: ParserModel, line: LineModel)
    ensures
        after_line(state, line).done.len() >= state.done.len(),
        after_line(state, line).done.take(state.done.len() as int) == state.done,
{
    assert(after_line(state, line).done.take(state.done.len() as int) =~= state.done);
}

/// The events of a round stay when one more happens.
pub proof fn law_told_events_stay(state: ParserModel, stamp: Seq<char>, event: EventModel)
    ensures
        ({
            let after = after_line(state, LineModel::Event { stamp, event });
            match (state.current, after.current) {
                (Some(m), Some(n)) => m.events.is_prefix_of(n.events),
                (None, None) => true,
                _ => false,
            }
        }),
{
}

// ---------------------------------------------------------------------------
// The round of a replay
// ---------------------------------------------------------------------------

/// A count of 64 bits, read as one with a sign.
pub open spec fn signed(n: u64) -> int {
    if n <= i64::MAX {
        n as int
    } else {
        n - 0x1_0000_0000_0000_0000
    }
}

/// The distance between two durations.
pub open spec fn duration_gap(log_ms: u64, replay_ms: u64) -> int {
    if log_ms >= signed(replay_ms) {
        log_ms - signed(replay_ms)
    } else {
        signed(replay_ms) - log_ms
    }
}

/// How well a round fits a replay: by the names of the maps, both in lower
/// case, by the durations, and by the number of events.
pub open spec fn fit(
    log_map: Seq<char>,
    replay_map: Seq<char>,
    log_ms: u64,
    replay_ms: u64,
    events: nat,
) -> int {
    let tolerance = replay_ms / 10;
    let by_map: int = if has_part(log_map, replay_map) || has_part(replay_map, log_map) {
        10
    } else {
        0
    };
    let by_duration: int = if duration_gap(log_ms, replay_ms) < tolerance {
        5
    } else if duration_gap(log_ms, replay_ms) < tolerance * 2 {
        2
    } else {
        0
    };
    let by_events: int = if events / 100 < 3 {
        (events / 100) as int
    } else {
        3
    };
    by_map + by_duration + by_events
}

/// How well a round fits a replay on a map.
pub open spec fn round_fit(m: MatchModel, replay_map: Seq<char>, replay_ms: u64) -> int {
    fit(lowercase(m.map), lowercase(replay_map), round_millis(m), replay_ms, m.events.len())
}

/// A round is the first of those that fit a replay best, and it fits at all.
pub open spec fn is_best_round(
    rounds: Seq<LogMatch>,
    i: int,
    replay_map: Seq<char>,
    replay_ms: u64,
) -> bool {
    let score = round_fit(rounds[i]@, replay_map, replay_ms);
    &&& 0 <= i < rounds.len()
    &&& score > 0
    &&& forall|j: int|
        0 <= j < rounds.len() ==> round_fit((#[trigger] rounds[j])@, replay_map, replay_ms) <= score
    &&& forall|j: int|
        0 <= j < i ==> round_fit((#[trigger] rounds[j])@, replay_map, replay_ms) < score
}

/// No round fits a replay.
pub open spec fn no_round_fits(
    rounds: Seq<LogMatch>,
    replay_map: Seq<char>,
    replay_ms: u64,
) -> bool {
    forall|j: int|
        0 <= j < rounds.len() ==> round_fit((#[trigger] rounds[j])@, replay_map, replay_ms) == 0
}

/// The rounds can be compared with a replay: their times exist, and their
/// distances from its duration fit in 64 bits with a sign.
pub open spec fn comparable(rounds: Seq<LogMatch>, replay_ms: u64) -> bool {
    &&& forall|i: int| 0 <= i < rounds.len() ==> (#[trigger] rounds[i]).well_formed()
    &&& replay_ms > i64::MAX ==> forall|i: int|
        0 <= i < rounds.len() ==> gap_fits(round_millis((#[trigger] rounds[i])@), replay_ms)
}

/// The distance between the durations fits in 64 bits with a sign.
pub open spec fn gap_fits(log_ms: u64, replay_ms: u64) -> bool {
    log_ms - signed(replay_ms) <= i64::MAX
}

/// Whether the distances of rounds from the duration of a replay fit in 64 bits
/// with a sign, so that the rounds can be compared with it.
pub fn can_compare(rounds: &Vec<LogMatch>, replay_ms: u64) -> (answer: bool)
    requires
        forall|i: int| 0 <= i < rounds@.len() ==> (#[trigger] rounds@[i]).well_formed(),
    ensures
        answer == comparable(rounds@, replay_ms),
{
    if replay_ms <= i64::MAX as u64 {
        return true;
    }
    let mut i: usize = 0;
    while i < rounds.len()
        invariant
            i <= rounds@.len(),
            replay_ms > i64::MAX,
            forall|k: int| 0 <= k < rounds@.len() ==> (#[trigger] rounds@[k]).well_formed(),
            forall|k: int|
                0 <= k < i ==> gap_fits(round_millis((#[trigger] rounds@[k])@), replay_ms),
        decreases rounds@.len() - i,
    {
        let log_ms: u64 = rounds[i].duration_ms();
        if log_ms + (u64::MAX - replay_ms) >= i64::MAX as u64 {
            assert(!gap_fits(round_millis(rounds@[i as int]@), replay_ms));
            return false;
        }
        i += 1;
    }
    true
}

/// How well a round fits a replay, by the names of the maps in lower case.
pub fn match_score(
    log_map: &str,
    replay_map: &str,
    log_ms: u64,
    replay_ms: u64,
    events: usize,
) -> (score: i32)
    requires
        gap_fits(log_ms, replay_ms),
    ensures
        score == fit(log_map@, replay_map@, log_ms, replay_ms, events as nat),
        0 <= score <= 18,
{
    let mut score: i32 = 0;
    if contains(log_map, replay_map) || contains(replay_map, log_map) {
        score += 10;
    }
    let gap: u64 = if replay_ms > i64::MAX as u64 {
        log_ms + (u64::MAX - replay_ms) + 1
    } else if log_ms >= replay_ms {
        log_ms - replay_ms
    } else {
        replay_ms - log_ms
    };
    let tolerance: u64 = replay_ms / 10;
    if gap < tolerance {
        score += 5;
    } else if gap < tolerance * 2 {
        score += 2;
    }
    let hundreds: usize = events / 100;
    score += if hundreds < 3 {
        hundreds as i32
    } else {
        3
    };
    score
}

/// The first of the rounds that fit a replay best, if any fits at all.
pub fn find_matching_log<'a>(
    log_matches: &'a [LogMatch],
    replay_map: &str,
    replay_duration_ms: u64,
) -> (best: Option<&'a LogMatch>)
    requires
        comparable(log_matches@, replay_duration_ms),
    ensures
        match best {
            Some(m) => exists|i: int|
                #[trigger] is_best_round(log_matches@, i, replay_map@, replay_duration_ms)
                    && log_matches@[i] == *m,
            None => no_round_fits(log_matches@, replay_map@, replay_duration_ms),
        },
{
    let replay_lower = to_lower(replay_map);
    let mut best: Option<usize> = None;
    let mut best_score: i32 = 0;
    let mut i: usize = 0;
    while i < log_matches.len()
        invariant
            i <= log_matches@.len(),
            replay_lower@ == lowercase(replay_map@),
            comparable(log_matches@, replay_duration_ms),
            forall|k: int|
                0 <= k < i ==> 0 <= round_fit(
                    (#[trigger] log_matches@[k])@,
                    replay_map@,
                    replay_duration_ms,
                ) <= best_score,
            match best {
                Some(b) => {
                    &&& b < i
                    &&& best_score > 0
                    &&& round_fit(log_matches@[b as int]@, replay_map@, replay_duration_ms)
                        == best_score
                    &&& forall|k: int|
                        0 <= k < b ==> round_fit(
                            (#[trigger] log_matches@[k])@,
                            replay_map@,
                            replay_duration_ms,
                        ) < best_score
                },
                None => best_score == 0,
            },
        decreases log_matches@.len() - i,
    {
        let m = &log_matches[i];
        let log_lower = to_lower(&m.map);
        let log_ms: u64 = m.duration_ms();
        let score: i32 = match_score(
            &log_lower,
            &replay_lower,
            log_ms,
            replay_duration_ms,
            m.events.len(),
        );
        assert(score == round_fit(log_matches@[i as int]@, replay_map@, replay_duration_ms));
        if score > best_score {
            best_score = score;
            best = Some(i);
        }
        i += 1;
    }
    match best {
        Some(b) => {
            assert(is_best_round(log_matches@, b as int, replay_map@, replay_duration_ms));
            Some(&log_matches[b])
        },
        None => None,
    }
}

// ---------------------------------------------------------------------------
// What a log knows of a player
// ---------------------------------------------------------------------------

/// What a round tells of a player.
#[derive(Debug, Clone)]
pub struct PlayerLogState {
    pub eos_id: String,
    pub steam_id: Option<String>,
    pub name: Option<String>,
    pub connect_time_ms: Option<u64>,
    pub disconnect_time_ms: Option<u64>,
    pub spawn_events: Vec<SpawnEvent>,
    pub is_spawned: bool,
    pub current_pawn: Option<String>,
}

/// Something that happens to the pawn of a player.
#[derive(Debug, Clone)]
pub struct SpawnEvent {
    pub t_ms: u64,
    pub event_type: SpawnEventType,
    pub pawn: Option<String>,
}

/// What happens to a pawn.
#[derive(Debug, Clone, Copy, PartialEq, Eq, Structural)]
pub enum SpawnEventType {
    Spawn,
    Despawn,
    EnterVehicle,
    Wounded,
}

/// Something that happens to a pawn, with its name as characters.
pub struct SpawnModel {
    pub t_ms: u64,
    pub kind: SpawnEventType,
    pub pawn: Option<Seq<char>>,
}

/// What a round tells of a player, with its texts as characters.
pub struct StateModel {
    pub eos_id: Seq<char>,
    pub steam_id: Option<Seq<char>>,
    pub name: Option<Seq<char>>,
    pub connect: Option<u64>,
    pub disconnect: Option<u64>,
    pub spawns: Seq<SpawnModel>,
    pub is_spawned: bool,
    pub current_pawn: Option<Seq<char>>,
}

impl View for SpawnEvent {
    type V = SpawnModel;

    open spec fn view(&self) -> SpawnModel {
        SpawnModel { t_ms: self.t_ms, kind: self.event_type, pawn: opt_text(self.pawn) }
    }
}

/// What happens to a pawn, with the names as characters.
pub open spec fn spawn_models(spawns: Seq<SpawnEvent>) -> Seq<SpawnModel> {
    spawns.map_values(|spawn: SpawnEvent| spawn@)
}

impl View for PlayerLogState {
    type V = StateModel;

    open spec fn view(&self) -> StateModel {
        StateModel {
            eos_id: self.eos_id@,
            steam_id: opt_text(self.steam_id),
            name: opt_text(self.name),
            connect: self.connect_time_ms,
            disconnect: self.disconnect_time_ms,
            spawns: spawn_models(self.spawn_events@),
            is_spawned: self.is_spawned,
            current_pawn: opt_text(self.current_pawn),
        }
    }
}

/// Nothing is told of the player yet.
pub open spec fn nothing_told() -> StateModel {
    StateModel {
        eos_id: Seq::empty(),
        steam_id: None,
        name: None,
        connect: None,
        disconnect: None,
        spawns: Seq::empty(),
        is_spawned: false,
        current_pawn: None,
    }
}

/// Names of vehicles in the names of pawns.
pub const VEHICLE_PAWNS: [&'static str; 12] = [
    "Vehicle",
    "Kamaz",
    "BTR",
    "BMP",
    "Tank",
    "Truck",
    "Tigr",
    "LPPV",
    "FV",
    "Helicopter",
    "MI8",
    "SA330",
];

/// What is told of a player who connects.
pub open spec fn after_connect(
    state: StateModel,
    t_ms: u64,
    eos_id: Seq<char>,
    controller: Seq<char>,
    steam_id: Option<Seq<char>>,
) -> StateModel {
    StateModel { eos_id, steam_id, name: Some(controller), connect: Some(t_ms), ..state }
}

/// What is told of a player who disconnects, and whose pawn goes with them.
pub open spec fn after_disconnect(state: StateModel, t_ms: u64) -> StateModel {
    StateModel {
        disconnect: Some(t_ms),
        spawns: if state.is_spawned {
            state.spawns.push(SpawnModel { t_ms, kind: SpawnEventType::Despawn, pawn: None })
        } else {
            state.spawns
        },
        is_spawned: false,
        ..state
    }
}

/// What is told of a player who takes a pawn: a soldier spawns, unless the
/// player has one; a vehicle is entered.
pub open spec fn after_possess(
    state: StateModel,
    t_ms: u64,
    eos_id: Seq<char>,
    controller: Seq<char>,
    pawn: Seq<char>,
) -> StateModel {
    let spawns = has_part(pawn, "Soldier"@) && !state.is_spawned;
    StateModel {
        eos_id,
        name: match state.name {
            Some(name) => Some(name),
            None => Some(controller),
        },
        spawns: if spawns {
            state.spawns.push(
                SpawnModel { t_ms, kind: SpawnEventType::Spawn, pawn: Some(pawn) },
            )
        } else if names_any(pawn, VEHICLE_PAWNS@) {
            state.spawns.push(
                SpawnModel { t_ms, kind: SpawnEventType::EnterVehicle, pawn: Some(pawn) },
            )
        } else {
            state.spawns
        },
        is_spawned: state.is_spawned || spawns,
        current_pawn: Some(pawn),
        ..state
    }
}

/// What is told of a player who leaves a pawn.
pub open spec fn after_unpossess(state: StateModel) -> StateModel {
    StateModel { current_pawn: None, ..state }
}

/// What is told of the player with an EOS ID, after one more event. Only a
/// player who connects or takes a pawn becomes known.
pub open spec fn after_event(
    state: Option<StateModel>,
    event: TimedEvent,
    eos_id: Seq<char>,
) -> Option<StateModel> {
    let known = match state {
        Some(s) => s,
        None => nothing_told(),
    };
    match event.what {
        EventModel::PlayerConnected { controller, eos_id: id, steam_id } => if id == Some(eos_id) {
            Some(after_connect(known, event.t_ms, eos_id, controller, steam_id))
        } else {
            state
        },
        EventModel::PlayerDisconnected { controller: _, eos_id: id } => if id == Some(eos_id)
            && state is Some {
            Some(after_disconnect(known, event.t_ms))
        } else {
            state
        },
        EventModel::PlayerPossess { controller, eos_id: id, pawn } => if id == Some(eos_id) {
            Some(after_possess(known, event.t_ms, eos_id, controller, pawn))
        } else {
            state
        },
        EventModel::PlayerUnpossess { controller: _, eos_id: id } => if id == Some(eos_id)
            && state is Some {
            Some(after_unpossess(known))
        } else {
            state
        },
        _ => state,
    }
}

/// What some events tell of the player with an EOS ID, if anything.
pub open spec fn told_of(events: Seq<TimedEvent>, eos_id: Seq<char>) -> Option<StateModel>
    decreases events.len(),
{
    if events.len() == 0 {
        None
    } else {
        after_event(told_of(events.drop_last(), eos_id), events.last(), eos_id)
    }
}

/// What a map of states holds of the player with an EOS ID, if anything.
pub open spec fn held_of(
    states: Map<Seq<char>, PlayerLogState>,
    eos_id: Seq<char>,
) -> Option<StateModel> {
    if states.contains_key(eos_id) {
        Some(states[eos_id]@)
    } else {
        None
    }
}

impl Default for PlayerLogState {
    fn default() -> (state: Self)
        ensures
            state@ == nothing_told(),
    {
        let state = PlayerLogState {
            eos_id: String::new(),
            steam_id: None,
            name: None,
            connect_time_ms: None,
            disconnect_time_ms: None,
            spawn_events: Vec::new(),
            is_spawned: false,
            current_pawn: None,
        };
        assert(state@.eos_id =~= Seq::empty());
        assert(state@.spawns =~= Seq::empty());
        state
    }
}

impl PlayerLogState {
    /// Notes something that happens to the pawn.
    fn note_spawn(&mut self, t_ms: u64, kind: SpawnEventType, pawn: Option<String>)
        ensures
            final(self)@ == (StateModel {
                spawns: old(self)@.spawns.push(SpawnModel { t_ms, kind, pawn: opt_text(pawn) }),
                ..old(self)@
            }),
    {
        let ghost before = self@;
        self.spawn_events.push(SpawnEvent { t_ms, event_type: kind, pawn });
        assert(self@.spawns =~= before.spawns.push(
            SpawnModel { t_ms, kind, pawn: opt_text(pawn) },
        ));
    }

    /// Notes that the player connects.
    pub fn connect(
        &mut self,
        t_ms: u64,
        eos_id: &String,
        controller: &String,
        steam_id: &Option<String>,
    )
        ensures
            final(self)@ == after_connect(
                old(self)@,
                t_ms,
                eos_id@,
                controller@,
                opt_text(*steam_id),
            ),
    {
        self.eos_id = eos_id.clone();
        self.steam_id = copy_opt(steam_id);
        self.name = Some(controller.clone());
        self.connect_time_ms = Some(t_ms);
    }

    /// Notes that the player disconnects.
    pub fn disconnect(&mut self, t_ms: u64)
        ensures
            final(self)@ == after_disconnect(old(self)@, t_ms),
    {
        self.disconnect_time_ms = Some(t_ms);
        if self.is_spawned {
            self.note_spawn(t_ms, SpawnEventType::Despawn, None);
            self.is_spawned = false;
        }
    }

    /// Notes that the player takes a pawn.
    pub fn possess(&mut self, t_ms: u64, eos_id: &String, controller: &String, pawn: &String)
        ensures
            final(self)@ == after_possess(old(self)@, t_ms, eos_id@, controller@, pawn@),
    {
        self.eos_id = eos_id.clone();
        if self.name.is_none() {
            self.name = Some(controller.clone());
        }
        if contains(pawn, "Soldier") && !self.is_spawned {
            self.note_spawn(t_ms, SpawnEventType::Spawn, Some(pawn.clone()));
            self.is_spawned = true;
        } else if contains_any(pawn, VEHICLE_PAWNS.as_slice()) {
            self.note_spawn(t_ms, SpawnEventType::EnterVehicle, Some(pawn.clone()));
        }
        self.current_pawn = Some(pawn.clone());
    }

    /// Notes that the player leaves the pawn.
    pub fn unpossess(&mut self)
        ensures
            final(self)@ == after_unpossess(old(self)@),
    {
        self.current_pawn = None;
    }
}

/// The state of a player, who becomes known where nothing is told of them yet.
fn known_state<'a>(states: &'a mut StringMap<PlayerLogState>, eos_id: &String) -> (state:
    &'a mut PlayerLogState)
    requires
        old(states).well_formed(),
    ensures
        state@ == (match held_of(old(states)@, eos_id@) {
            Some(s) => s,
            None => nothing_told(),
        }),
        final(states).well_formed(),
        final(states)@ == old(states)@.insert(eos_id@, *final(state)),
{
    let ghost before = states@;
    if !states.contains_key(eos_id) {
        states.insert(eos_id.clone(), PlayerLogState::default());
    }
    let ghost with_key = states@;
    assert forall|s: PlayerLogState| with_key.insert(eos_id@, s) == #[trigger] before.insert(
        eos_id@,
        s,
    ) by {
        assert(with_key.insert(eos_id@, s) =~= before.insert(eos_id@, s));
    }
    match states.get_mut(eos_id) {
        Some(state) => state,
        None => vstd::pervasive::unreached(),
    }
}

/// Notes one more event.
fn note_event(states: &mut StringMap<PlayerLogState>, event: &LogEvent)
    requires
        old(states).well_formed(),
    ensures
        final(states).well_formed(),
        forall|eos_id: Seq<char>| #[trigger]
            held_of(final(states)@, eos_id) == after_event(
                held_of(old(states)@, eos_id),
                event@,
                eos_id,
            ),
{
    match &event.event_type {
        LogEventType::PlayerConnected { controller, eos_id, steam_id } => {
            if let Some(eos) = eos_id {
                known_state(states, eos).connect(event.t_ms, eos, controller, steam_id);
            }
        },
        LogEventType::PlayerDisconnected { controller: _, eos_id } => {
            if let Some(eos) = eos_id {
                if let Some(state) = states.get_mut(eos) {
                    state.disconnect(event.t_ms);
                }
            }
        },
        LogEventType::PlayerPossess { controller, eos_id, pawn } => {
            if let Some(eos) = eos_id {
                known_state(states, eos).possess(event.t_ms, eos, controller, pawn);
            }
        },
        LogEventType::PlayerUnpossess { controller: _, eos_id } => {
            if let Some(eos) = eos_id {
                if let Some(state) = states.get_mut(eos) {
                    state.unpossess();
                }
            }
        },
        _ => {},
    }
}

/// What the events of a round tell of the players, by EOS ID.
pub fn player_log_states(events: &Vec<LogEvent>) -> (states: StringMap<PlayerLogState>)
    ensures
        states.well_formed(),
        forall|eos_id: Seq<char>| #[trigger]
            held_of(states@, eos_id) == told_of(event_models(events@), eos_id),
{
    let mut states: StringMap<PlayerLogState> = StringMap::new();
    let ghost all = event_models(events@);
    let mut i: usize = 0;
    while i < events.len()
        invariant
            i <= events@.len(),
            all == event_models(events@),
            states.well_formed(),
            forall|eos_id: Seq<char>| #[trigger]
                held_of(states@, eos_id) == told_of(all.take(i as int), eos_id),
        decreases events@.len() - i,
    {
        let ghost before = states@;
        note_event(&mut states, &events[i]);
        assert(all.take(i + 1).drop_last() =~= all.take(i as int));
        assert(all.take(i + 1).last() == events@[i as int]@);
        assert forall|eos_id: Seq<char>| #[trigger] held_of(states@, eos_id) == told_of(
            all.take(i + 1),
            eos_id,
        ) by {
            assert(held_of(before, eos_id) == told_of(all.take(i as int), eos_id));
        }
        i += 1;
    }
    assert(all.take(i as int) =~= all);
    states
}

// ---------------------------------------------------------------------------
// What a log adds to a replay
// ---------------------------------------------------------------------------

/// The windows from a spawn to a despawn, and the spawn that no despawn has
/// followed yet. Another spawn before the despawn counts for nothing.
pub open spec fn spawn_windows(spawns: Seq<SpawnModel>) -> (Seq<VisibilityWindow>, Option<u64>)
    decreases spawns.len(),
{
    if spawns.len() == 0 {
        (Seq::empty(), None)
    } else {
        let (windows, open) = spawn_windows(spawns.drop_last());
        let spawn = spawns.last();
        match (spawn.kind, open) {
            (SpawnEventType::Spawn, None) => (windows, Some(spawn.t_ms)),
            (SpawnEventType::Despawn, Some(start)) => (
                windows.push(VisibilityWindow { start_ms: start, end_ms: spawn.t_ms }),
                None,
            ),
            _ => (windows, open),
        }
    }
}

/// When a window that is open at the end ends: when the player disconnects, or
/// with the replay where they have not disconnected since it opened.
pub open spec fn open_end(start: u64, disconnect: Option<u64>, duration_ms: u64) -> u64 {
    match disconnect {
        Some(t) => if t >= start {
            t
        } else {
            duration_ms
        },
        None => duration_ms,
    }
}

/// The windows in which a player is visible: those from a spawn to a despawn,
/// and the one that is open at the end.
pub open spec fn visible_windows(state: StateModel, duration_ms: u64) -> Seq<VisibilityWindow> {
    let (windows, open) = spawn_windows(state.spawns);
    match open {
        Some(start) => windows.push(
            VisibilityWindow {
                start_ms: start,
                end_ms: open_end(start, state.disconnect, duration_ms),
            },
        ),
        None => windows,
    }
}

/// A player, with what a round tells of them: when they connect and disconnect,
/// and their windows, unless there are none. Nothing else changes.
pub open spec fn is_merged(
    before: Player,
    after: Player,
    told: Option<StateModel>,
    duration_ms: u64,
) -> bool {
    match told {
        Some(state) => {
            &&& after.connect_time_ms == state.connect
            &&& after.disconnect_time_ms == state.disconnect
            &&& if visible_windows(state, duration_ms).len() > 0 {
                after.visibility_windows@ == visible_windows(state, duration_ms)
            } else {
                after.visibility_windows == before.visibility_windows
            }
            &&& after == (Player {
                connect_time_ms: after.connect_time_ms,
                disconnect_time_ms: after.disconnect_time_ms,
                visibility_windows: after.visibility_windows,
                ..before
            })
        },
        None => after == before,
    }
}

/// What a round tells of a player of a replay: nothing where the player has no
/// EOS ID.
pub open spec fn told_of_player(player: Player, events: Seq<TimedEvent>) -> Option<StateModel> {
    match player.eos_id {
        Some(id) => told_of(events, lowercase(id@)),
        None => None,
    }
}

/// The windows in which a player is visible.
pub fn windows_of_state(state: &PlayerLogState, duration_ms: u64) -> (windows: Vec<
    VisibilityWindow,
>)
    ensures
        windows@ == visible_windows(state@, duration_ms),
{
    let mut windows: Vec<VisibilityWindow> = Vec::new();
    let mut open: Option<u64> = None;
    let ghost all = state@.spawns;
    let mut i: usize = 0;
    while i < state.spawn_events.len()
        invariant
            i <= state.spawn_events@.len(),
            all == spawn_models(state.spawn_events@),
            (windows@, open) == spawn_windows(all.take(i as int)),
        decreases state.spawn_events@.len() - i,
    {
        let spawn = &state.spawn_events[i];
        assert(all.take(i + 1).drop_last() =~= all.take(i as int));
        assert(all.take(i + 1).last() == spawn@);
        match spawn.event_type {
            SpawnEventType::Spawn => {
                if open.is_none() {
                    open = Some(spawn.t_ms);
                }
            },
            SpawnEventType::Despawn => {
                if let Some(start) = open {
                    windows.push(VisibilityWindow { start_ms: start, end_ms: spawn.t_ms });
                    open = None;
                }
            },
            _ => {},
        }
        i += 1;
    }
    assert(all.take(i as int) =~= all);
    if let Some(start) = open {
        let end_ms: u64 = match state.disconnect_time_ms {
            Some(t) => if t >= start {
                t
            } else {
                duration_ms
            },
            None => duration_ms,
        };
        windows.push(VisibilityWindow { start_ms: start, end_ms });
    }
    windows
}

/// Gives a player what a round tells of them.
pub fn merge_player(player: &mut Player, state: &PlayerLogState, duration_ms: u64)
    ensures
        is_merged(*old(player), *final(player), Some(state@), duration_ms),
{
    player.connect_time_ms = state.connect_time_ms;
    player.disconnect_time_ms = state.disconnect_time_ms;
    let windows = windows_of_state(state, duration_ms);
    if windows.len() > 0 {
        player.visibility_windows = windows;
    }
}

/// Gives the players of a replay what a round tells of them.
pub fn merge_log_into_players(players: &mut [Player], log_match: &LogMatch, duration_ms: u64)
    ensures
        final(players)@.len() == old(players)@.len(),
        forall|i: int|
            0 <= i < old(players)@.len() ==> is_merged(
                old(players)@[i],
                #[trigger] final(players)@[i],
                told_of_player(old(players)@[i], log_match@.events),
                duration_ms,
            ),
{
    let states = player_log_states(&log_match.events);
    let ghost before = players@;
    let ghost events = log_match@.events;
    let mut i: usize = 0;
    while i < players.len()
        invariant
            players@.len() == before.len(),
            i <= players@.len(),
            states.well_formed(),
            forall|eos_id: Seq<char>| #[trigger] held_of(states@, eos_id) == told_of(events, eos_id),
            forall|k: int| i <= k < before.len() ==> players@[k] == before[k],
            forall|k: int|
                0 <= k < i ==> is_merged(
                    before[k],
                    #[trigger] players@[k],
                    told_of_player(before[k], events),
                    duration_ms,
                ),
        decreases before.len() - i,
    {
        let key: Option<String> = match &players[i].eos_id {
            Some(id) => Some(to_lower(id)),
            None => None,
        };
        let ghost at = i as int;
        let ghost so_far = players@;
        assert(players@[at] == before[at]);
        if let Some(eos_id) = key {
            assert(held_of(states@, eos_id@) == told_of(events, eos_id@));
            if let Some(state) = states.get(&eos_id) {
                merge_player(&mut players[i], state, duration_ms);
                assert(players@ =~= so_far.update(at, players@[at]));
            }
        }
        assert(is_merged(before[at], players@[at], told_of_player(before[at], events), duration_ms));
        i += 1;
    }
}

/// The destruction of a vehicle that an event tells of.
pub open spec fn death_of(event: LogEvent) -> Option<VehicleDeathEvent> {
    match event.event_type {
        LogEventType::VehicleDied { vehicle_class, vehicle_id, causer, instigator } => Some(
            VehicleDeathEvent {
                t_ms: event.t_ms,
                second: ((event.t_ms / 1000) % 0x1_0000_0000) as u32,
                vehicle_class,
                vehicle_id,
                causer,
                instigator,
            },
        ),
        _ => None,
    }
}

/// The destructions of vehicles that some events tell of.
pub open spec fn deaths_of(events: Seq<LogEvent>) -> Seq<VehicleDeathEvent>
    decreases events.len(),
{
    if events.len() == 0 {
        Seq::empty()
    } else {
        let before = deaths_of(events.drop_last());
        match death_of(events.last()) {
            Some(death) => before.push(death),
            None => before,
        }
    }
}

/// Adds the destructions of vehicles that a round tells of.
pub fn merge_vehicle_deaths(vehicle_deaths: &mut Vec<VehicleDeathEvent>, log_match: &LogMatch)
    ensures
        final(vehicle_deaths)@ == old(vehicle_deaths)@ + deaths_of(log_match.events@),
{
    let ghost before = vehicle_deaths@;
    let ghost all = log_match.events@;
    let mut i: usize = 0;
    assert(before + deaths_of(all.take(0)) =~= before);
    while i < log_match.events.len()
        invariant
            i <= log_match.events@.len(),
            all == log_match.events@,
            vehicle_deaths@ == before + deaths_of(all.take(i as int)),
        decreases log_match.events@.len() - i,
    {
        let event = &log_match.events[i];
        assert(all.take(i + 1).drop_last() =~= all.take(i as int));
        if let LogEventType::VehicleDied { vehicle_class, vehicle_id, causer, instigator } =
            &event.event_type {
            let second: u64 = (event.t_ms / 1000) % 0x1_0000_0000;
            vehicle_deaths.push(
                VehicleDeathEvent {
                    t_ms: event.t_ms,
                    second: second as u32,
                    vehicle_class: vehicle_class.clone(),
                    vehicle_id: vehicle_id.clone(),
                    causer: causer.clone(),
                    instigator: instigator.clone(),
                },
            );
        }
        assert(vehicle_deaths@ =~= before + deaths_of(all.take(i + 1)));
        i += 1;
    }
    assert(all.take(i as int) =~= all);
}

/// The map of a replay: no name where it has none.
pub open spec fn replay_map(bundle: Bundle) -> Seq<char> {
    match bundle.replay.map_name {
        Some(name) => name@,
        None => Seq::empty(),
    }
}

/// A bundle has what a round adds, and nothing else has changed.
pub open spec fn has_round(before: Bundle, after: Bundle, round: LogMatch) -> bool {
    &&& after.players@.len() == before.players@.len()
    &&& forall|i: int|
        0 <= i < before.players@.len() ==> is_merged(
            before.players@[i],
            #[trigger] after.players@[i],
            told_of_player(before.players@[i], round@.events),
            before.replay.duration_ms,
        )
    &&& after.events.vehicle_deaths@ == before.events.vehicle_deaths@ + deaths_of(round.events@)
    &&& after == (Bundle {
        players: after.players,
        events: EventGroups { vehicle_deaths: after.events.vehicle_deaths, ..before.events },
        ..before
    })
}

/// Adds what a log tells to a bundle: the round that fits the replay best, if
/// any fits.
pub fn merge_log(bundle: &mut Bundle, rounds: &Vec<LogMatch>) -> (merged: bool)
    requires
        comparable(rounds@, old(bundle).replay.duration_ms),
    ensures
        if merged {
            exists|i: int|
                #[trigger] is_best_round(
                    rounds@,
                    i,
                    replay_map(*old(bundle)),
                    old(bundle).replay.duration_ms,
                ) && has_round(*old(bundle), *final(bundle), rounds@[i])
        } else {
            &&& no_round_fits(
                rounds@,
                replay_map(*old(bundle)),
                old(bundle).replay.duration_ms,
            )
            &&& *final(bundle) == *old(bundle)
        },
{
    let map: String = match &bundle.replay.map_name {
        Some(name) => name.clone(),
        None => String::new(),
    };
    assert(map@ =~= replay_map(*bundle));
    let duration_ms: u64 = bundle.replay.duration_ms;
    match find_matching_log(rounds.as_slice(), &map, duration_ms) {
        Some(round) => {
            merge_log_into_players(bundle.players.as_mut_slice(), round, duration_ms);
            merge_vehicle_deaths(&mut bundle.events.vehicle_deaths, round);
            true
        },
        None => false,
    }
}

// ---------------------------------------------------------------------------
// Laws of merging
// ---------------------------------------------------------------------------

/// Nothing happens before what is told before it.
pub open spec fn spawns_in_order(spawns: Seq<SpawnModel>) -> bool {
    forall|i: int, j: int|
        0 <= i < j < spawns.len() ==> (#[trigger] spawns[i]).t_ms <= (#[trigger] spawns[j]).t_ms
}

/// No window ends before it starts, and none starts before the one in front of
/// it ends.
pub open spec fn windows_in_order(windows: Seq<VisibilityWindow>) -> bool {
    &&& forall|i: int|
        0 <= i < windows.len() ==> (#[trigger] windows[i]).start_ms <= windows[i].end_ms
    &&& forall|i: int, j: int|
        0 <= i < j < windows.len() ==> (#[trigger] windows[i]).end_ms <= (
        #[trigger] windows[j]).start_ms
}

/// Where what happens to a pawn is told in order, the windows from spawn to
/// despawn are in order too, and all of them end before the spawn that is still
/// open.
pub proof fn law_windows_in_order(spawns: Seq<SpawnModel>)
    requires
        spawns_in_order(spawns),
    ensures
        windows_in_order(spawn_windows(spawns).0),
        spawn_windows(spawns).1 matches Some(open) ==> open <= spawns.last().t_ms && forall|i: int|
            0 <= i < spawn_windows(spawns).0.len() ==> (#[trigger] spawn_windows(
                spawns,
            ).0[i]).end_ms <= open,
        forall|i: int|
            0 <= i < spawn_windows(spawns).0.len() ==> (#[trigger] spawn_windows(
                spawns,
            ).0[i]).end_ms <= spawns.last().t_ms,
    decreases spawns.len(),
{
    if spawns.len() > 0 {
        let front = spawns.drop_last();
        assert(spawns_in_order(front));
        law_windows_in_order(front);
        if front.len() > 0 {
            assert(spawns[front.len() - 1].t_ms <= spawns[front.len() as int].t_ms);
            assert(front.last() == spawns[front.len() - 1]);
        }
    }
}

/// Nothing happens before what is told before it.
pub open spec fn events_in_order(events: Seq<TimedEvent>) -> bool {
    forall|i: int, j: int|
        0 <= i < j < events.len() ==> (#[trigger] events[i]).t_ms <= (#[trigger] events[j]).t_ms
}

/// Where the events of a round are told in order, so is what happens to the
/// pawn of each player, and with it the windows from spawn to despawn.
pub proof fn law_order_of_events_is_kept(events: Seq<TimedEvent>, eos_id: Seq<char>)
    requires
        events_in_order(events),
    ensures
        told_of(events, eos_id) matches Some(state) ==> {
            &&& spawns_in_order(state.spawns)
            &&& windows_in_order(spawn_windows(state.spawns).0)
            &&& forall|i: int|
                0 <= i < state.spawns.len() ==> (#[trigger] state.spawns[i]).t_ms
                    <= events.last().t_ms
            &&& state.disconnect matches Some(t) ==> t <= events.last().t_ms
        },
    decreases events.len(),
{
    if events.len() > 0 {
        let front = events.drop_last();
        assert(events_in_order(front));
        law_order_of_events_is_kept(front, eos_id);
        if front.len() > 0 {
            assert(events[front.len() - 1].t_ms <= events[front.len() as int].t_ms);
            assert(front.last() == events[front.len() - 1]);
        }
        if let Some(state) = told_of(events, eos_id) {
            law_windows_in_order(state.spawns);
        }
    }
}

/// Nothing happens after the end of a replay.
pub open spec fn events_within(events: Seq<TimedEvent>, duration_ms: u64) -> bool {
    forall|i: int| 0 <= i < events.len() ==> (#[trigger] events[i]).t_ms <= duration_ms
}

/// Every window is a stretch of time within a replay.
pub open spec fn windows_within(windows: Seq<VisibilityWindow>, duration_ms: u64) -> bool {
    forall|i: int|
        0 <= i < windows.len() ==> (#[trigger] windows[i]).start_ms <= windows[i].end_ms
            <= duration_ms
}

/// Where the events of a round are told in order and lie within the replay, all
/// windows of a player are stretches of time within it, in their order, also
/// those of a player who disconnects, comes back and spawns again.
pub proof fn law_windows_are_stretches(
    events: Seq<TimedEvent>,
    eos_id: Seq<char>,
    duration_ms: u64,
)
    requires
        events_in_order(events),
        events_within(events, duration_ms),
    ensures
        told_of(events, eos_id) matches Some(state) ==> {
            &&& windows_within(visible_windows(state, duration_ms), duration_ms)
            &&& windows_in_order(visible_windows(state, duration_ms))
        },
{
    law_order_of_events_is_kept(events, eos_id);
    if let Some(state) = told_of(events, eos_id) {
        assert(events.len() > 0);
        assert(events[events.len() - 1].t_ms <= duration_ms);
        law_windows_in_order(state.spawns);
        let closed = spawn_windows(state.spawns).0;
        if state.spawns.len() > 0 {
            assert(state.spawns[state.spawns.len() - 1].t_ms <= duration_ms);
        }
        assert forall|i: int| 0 <= i < closed.len() implies (#[trigger] closed[i]).end_ms
            <= duration_ms by {}
    }
}

/// Where the events of a round are told in order and lie within the replay, and
/// the windows of a player are stretches of time, they are so after merging, and
/// those that come from the round lie within the replay.
pub proof fn law_merged_windows(
    before: Player,
    after: Player,
    events: Seq<TimedEvent>,
    duration_ms: u64,
)
    requires
        is_merged(before, after, told_of_player(before, events), duration_ms),
        events_in_order(events),
        events_within(events, duration_ms),
        forall|i: int|
            0 <= i < before.visibility_windows@.len() ==> (
            #[trigger] before.visibility_windows@[i]).start_ms
                <= before.visibility_windows@[i].end_ms,
    ensures
        forall|i: int|
            0 <= i < after.visibility_windows@.len() ==> (
            #[trigger] after.visibility_windows@[i]).start_ms <= after.visibility_windows@[i].end_ms,
        after.visibility_windows == before.visibility_windows || windows_within(
            after.visibility_windows@,
            duration_ms,
        ),
{
    if let Some(id) = before.eos_id {
        law_windows_are_stretches(events, lowercase(id@), duration_ms);
    }
}

/// To merge a round twice is to merge it once.
pub proof fn law_merging_twice(
    before: Player,
    once: Player,
    twice: Player,
    told: Option<StateModel>,
    duration_ms: u64,
)
    requires
        is_merged(before, once, told, duration_ms),
        is_merged(once, twice, told, duration_ms),
    ensures
        twice.visibility_windows@ == once.visibility_windows@,
        twice == (Player { visibility_windows: twice.visibility_windows, ..once }),
{
}

/// Merging leaves a player who has no EOS ID, and one of whom nothing is told,
/// as they are, and never changes who a player is.
pub proof fn law_merging_keeps_identity(
    before: Player,
    after: Player,
    events: Seq<TimedEvent>,
    duration_ms: u64,
)
    requires
        is_merged(before, after, told_of_player(before, events), duration_ms),
    ensures
        before.eos_id is None ==> after == before,
        told_of_player(before, events) is None ==> after == before,
        after.eos_id == before.eos_id,
        after.name == before.name,
        after.player_state_guid == before.player_state_guid,
        after.team_id == before.team_id,
        after.squad_id == before.squad_id,
{
}

} // verus!
