//! What the reading of a log must satisfy, whatever the lines are.

use crate::bundle::{Bundle, Player};
use crate::calendar::millis_apart;
use crate::log_parser::{
    after_event, after_line, after_lines, deaths_of, eos_id_among, event_models, event_read,
    find_matching_log, fit, group_text, has_round, is_best_round, is_merged, line_read, nothing_told,
    replay_map, round_fit, round_millis, spawn_windows, stamp_time, steam_id_among, told_of, told_of_player,
    visible_windows, EventModel, LineModel, LogEvent, LogEventType, LogMatch, MatchModel, ParserModel,
    PlayerLogState, SpawnEventType, StateModel, TimedEvent, EOS_ID, NEW_GAME, PLAYER_CONNECTED,
    PLAYER_DIED, PLAYER_DISCONNECTED, PLAYER_POSSESS, PLAYER_UNPOSSESS, PLAYER_WOUNDED, ROUND_END,
    STEAM_ID, VEHICLE_PAWNS,
};
use crate::outside::{lowercase, regex_captures};
use crate::text::{ends_with, has_part, opt_text};
use vstd::prelude::*;

verus! {

// ---------------------------------------------------------------------------
// Where the texts of a line stand
// ---------------------------------------------------------------------------

/// A group begins at an index of a pattern: a parenthesis that is not escaped
/// and that does not only bracket.
pub open spec fn opens_group(pattern: Seq<char>, i: int) -> bool {
    &&& pattern[i] == '('
    &&& i == 0 || pattern[i - 1] != '\\'
    &&& pattern[i + 1] != '?'
}

/// How many groups begin before an index of a pattern.
pub open spec fn groups_before(pattern: Seq<char>, i: int) -> int
    decreases i,
{
    if i <= 0 {
        0
    } else {
        groups_before(pattern, i - 1) + if opens_group(pattern, i - 1) {
            1int
        } else {
            0
        }
    }
}

/// The group with a number is the one that a pattern has right behind a mark.
/// Groups are numbered from 1 in the order in which they begin.
pub open spec fn is_group_behind(pattern: Seq<char>, mark: Seq<char>, number: int) -> bool {
    exists|i: int|
        {
            &&& 0 <= i < pattern.len()
            &&& opens_group(pattern, i)
            &&& #[trigger] groups_before(pattern, i) == number - 1
            &&& ends_with(pattern.take(i), mark)
        }
}

/// The groups of a pattern and the marks that they stand behind.
#[verifier::rlimit(100)]
proof fn lemma_marks_of_new_game()
    ensures
        is_group_behind(NEW_GAME@, r"^\["@, 1),
        is_group_behind(NEW_GAME@, "(?:Maps/)?"@, 4),
        is_group_behind(NEW_GAME@, "(?:.+/)?"@, 5),
{
    let pattern = NEW_GAME@;
    reveal_strlit(
        r"^\[([0-9.:-]+)\]\[([ 0-9]*)\]LogWorld: Bringing World /([A-Za-z0-9]+)/(?:Maps/)?([A-Za-z0-9_-]+)/(?:.+/)?([A-Za-z0-9_-]+)",
    );
    reveal_strlit("(?:.+/)?");
    reveal_strlit("(?:Maps/)?");
    reveal_strlit(r"^\[");
    assert(groups_before(pattern, 3) == 0) by {
        reveal_with_fuel(groups_before, 5);
    }
    assert(groups_before(pattern, 18) == 1) by {
        reveal_with_fuel(groups_before, 17);
    }
    assert(groups_before(pattern, 55) == 2) by {
        reveal_with_fuel(groups_before, 39);
    }
    assert(groups_before(pattern, 80) == 3) by {
        reveal_with_fuel(groups_before, 27);
    }
    assert(groups_before(pattern, 105) == 4) by {
        reveal_with_fuel(groups_before, 27);
    }
    assert(opens_group(pattern, 3) && ends_with(pattern.take(3), r"^\["@));
    assert(opens_group(pattern, 80) && ends_with(pattern.take(80), "(?:Maps/)?"@));
    assert(opens_group(pattern, 105) && ends_with(pattern.take(105), "(?:.+/)?"@));
}

/// The groups of a pattern and the marks that they stand behind.
#[verifier::rlimit(100)]
proof fn lemma_marks_of_player_connected()
    ensures
        is_group_behind(PLAYER_CONNECTED@, r"^\["@, 1),
        is_group_behind(PLAYER_CONNECTED@, r"\."@, 3),
        is_group_behind(PLAYER_CONNECTED@, "Online IDs:"@, 4),
{
    let pattern = PLAYER_CONNECTED@;
    reveal_strlit(
        r"^\[([0-9.:-]+)\]\[([ 0-9]*)\]LogSquad: PostLogin: NewPlayer: .*?BP_PlayerController.*?\.([^\s]+) \(IP: [\d.]+ \| Online IDs:([^)]+)\)",
    );
    reveal_strlit("Online IDs:");
    reveal_strlit(r"\.");
    reveal_strlit(r"^\[");
    assert(groups_before(pattern, 3) == 0) by {
        reveal_with_fuel(groups_before, 5);
    }
    assert(groups_before(pattern, 18) == 1) by {
        reveal_with_fuel(groups_before, 17);
    }
    assert(groups_before(pattern, 88) == 2) by {
        reveal_with_fuel(groups_before, 72);
    }
    assert(groups_before(pattern, 124) == 3) by {
        reveal_with_fuel(groups_before, 38);
    }
    assert(opens_group(pattern, 3) && ends_with(pattern.take(3), r"^\["@));
    assert(opens_group(pattern, 88) && ends_with(pattern.take(88), r"\."@));
    assert(opens_group(pattern, 124) && ends_with(pattern.take(124), "Online IDs:"@));
}

/// The groups of a pattern and the marks that they stand behind.
#[verifier::rlimit(100)]
proof fn lemma_marks_of_player_disconnected()
    ensures
        is_group_behind(PLAYER_DISCONNECTED@, r"^\["@, 1),
        is_group_behind(PLAYER_DISCONNECTED@, "PC: "@, 3),
        is_group_behind(PLAYER_DISCONNECTED@, "RedpointEOS:"@, 4),
{
    let pattern = PLAYER_DISCONNECTED@;
    reveal_strlit(
        r"^\[([0-9.:-]+)\]\[([ 0-9]*)\]LogNet: UChannel::Close: Sending CloseBunch\..+PC: (\w+PlayerController[^,]*),.*?UniqueId: RedpointEOS:([a-f0-9]+)",
    );
    reveal_strlit("PC: ");
    reveal_strlit("RedpointEOS:");
    reveal_strlit(r"^\[");
    assert(groups_before(pattern, 3) == 0) by {
        reveal_with_fuel(groups_before, 5);
    }
    assert(groups_before(pattern, 18) == 1) by {
        reveal_with_fuel(groups_before, 17);
    }
    assert(groups_before(pattern, 80) == 2) by {
        reveal_with_fuel(groups_before, 64);
    }
    assert(groups_before(pattern, 132) == 3) by {
        reveal_with_fuel(groups_before, 54);
    }
    assert(opens_group(pattern, 3) && ends_with(pattern.take(3), r"^\["@));
    assert(opens_group(pattern, 80) && ends_with(pattern.take(80), "PC: "@));
    assert(opens_group(pattern, 132) && ends_with(pattern.take(132), "RedpointEOS:"@));
}

/// The groups of a pattern and the marks that they stand behind.
#[verifier::rlimit(100)]
proof fn lemma_marks_of_player_possess()
    ensures
        is_group_behind(PLAYER_POSSESS@, r"^\["@, 1),
        is_group_behind(PLAYER_POSSESS@, "PC="@, 3),
        is_group_behind(PLAYER_POSSESS@, "Online IDs:"@, 4),
        is_group_behind(PLAYER_POSSESS@, "Pawn="@, 5),
{
    let pattern = PLAYER_POSSESS@;
    reveal_strlit(
        r"^\[([0-9.:-]+)\]\[([ 0-9]*)\]LogSquadTrace: \[DedicatedServer\](?:ASQPlayerController::)?OnPossess\(\): PC=(.+) \(Online IDs:([^)]+)\) Pawn=([A-Za-z0-9_]+)_C",
    );
    reveal_strlit("Online IDs:");
    reveal_strlit("PC=");
    reveal_strlit("Pawn=");
    reveal_strlit(r"^\[");
    assert(groups_before(pattern, 3) == 0) by {
        reveal_with_fuel(groups_before, 5);
    }
    assert(groups_before(pattern, 18) == 1) by {
        reveal_with_fuel(groups_before, 17);
    }
    assert(groups_before(pattern, 107) == 2) by {
        reveal_with_fuel(groups_before, 91);
    }
    assert(groups_before(pattern, 125) == 3) by {
        reveal_with_fuel(groups_before, 20);
    }
    assert(groups_before(pattern, 140) == 4) by {
        reveal_with_fuel(groups_before, 17);
    }
    assert(opens_group(pattern, 3) && ends_with(pattern.take(3), r"^\["@));
    assert(opens_group(pattern, 107) && ends_with(pattern.take(107), "PC="@));
    assert(opens_group(pattern, 125) && ends_with(pattern.take(125), "Online IDs:"@));
    assert(opens_group(pattern, 140) && ends_with(pattern.take(140), "Pawn="@));
}

/// The groups of a pattern and the marks that they stand behind.
#[verifier::rlimit(100)]
proof fn lemma_marks_of_player_unpossess()
    ensures
        is_group_behind(PLAYER_UNPOSSESS@, r"^\["@, 1),
        is_group_behind(PLAYER_UNPOSSESS@, "PC="@, 3),
        is_group_behind(PLAYER_UNPOSSESS@, "Online IDs:"@, 4),
{
    let pattern = PLAYER_UNPOSSESS@;
    reveal_strlit(
        r"^\[([0-9.:-]+)\]\[([ 0-9]*)\]LogSquadTrace: \[DedicatedServer\](?:ASQPlayerController::)?OnUnPossess\(\): PC=(.+) \(Online IDs:([^)]+)\)",
    );
    reveal_strlit("Online IDs:");
    reveal_strlit("PC=");
    reveal_strlit(r"^\[");
    assert(groups_before(pattern, 3) == 0) by {
        reveal_with_fuel(groups_before, 5);
    }
    assert(groups_before(pattern, 18) == 1) by {
        reveal_with_fuel(groups_before, 17);
    }
    assert(groups_before(pattern, 109) == 2) by {
        reveal_with_fuel(groups_before, 93);
    }
    assert(groups_before(pattern, 127) == 3) by {
        reveal_with_fuel(groups_before, 20);
    }
    assert(opens_group(pattern, 3) && ends_with(pattern.take(3), r"^\["@));
    assert(opens_group(pattern, 109) && ends_with(pattern.take(109), "PC="@));
    assert(opens_group(pattern, 127) && ends_with(pattern.take(127), "Online IDs:"@));
}

/// The groups of a pattern and the marks that they stand behind.
#[verifier::rlimit(100)]
proof fn lemma_marks_of_player_wounded()
    ensures
        is_group_behind(PLAYER_WOUNDED@, r"^\["@, 1),
        is_group_behind(PLAYER_WOUNDED@, "Player:"@, 3),
        is_group_behind(PLAYER_WOUNDED@, " from "@, 4),
        is_group_behind(PLAYER_WOUNDED@, " caused by "@, 5),
{
    let pattern = PLAYER_WOUNDED@;
    reveal_strlit(
        r"^\[([0-9.:-]+)\]\[([ 0-9]*)\]LogSquadTrace: \[DedicatedServer\](?:ASQSoldier::)?Wound\(\): Player:(.+) KillingDamage=[-0-9.]+ from ([A-Za-z_0-9]+) \(Online IDs:[^)]+\| Controller ID: [\w\d]+\) caused by ([A-Za-z_0-9-]+)_C",
    );
    reveal_strlit(" caused by ");
    reveal_strlit(" from ");
    reveal_strlit("Player:");
    reveal_strlit(r"^\[");
    assert(groups_before(pattern, 3) == 0) by {
        reveal_with_fuel(groups_before, 5);
    }
    assert(groups_before(pattern, 18) == 1) by {
        reveal_with_fuel(groups_before, 17);
    }
    assert(groups_before(pattern, 98) == 2) by {
        reveal_with_fuel(groups_before, 82);
    }
    assert(groups_before(pattern, 131) == 3) by {
        reveal_with_fuel(groups_before, 35);
    }
    assert(groups_before(pattern, 203) == 4) by {
        reveal_with_fuel(groups_before, 74);
    }
    assert(opens_group(pattern, 3) && ends_with(pattern.take(3), r"^\["@));
    assert(opens_group(pattern, 98) && ends_with(pattern.take(98), "Player:"@));
    assert(opens_group(pattern, 131) && ends_with(pattern.take(131), " from "@));
    assert(opens_group(pattern, 203) && ends_with(pattern.take(203), " caused by "@));
}

/// The groups of a pattern and the marks that they stand behind.
#[verifier::rlimit(100)]
proof fn lemma_marks_of_player_died()
    ensures
        is_group_behind(PLAYER_DIED@, r"^\["@, 1),
        is_group_behind(PLAYER_DIED@, "Player:"@, 3),
        is_group_behind(PLAYER_DIED@, " from "@, 4),
        is_group_behind(PLAYER_DIED@, " caused by "@, 5),
{
    let pattern = PLAYER_DIED@;
    reveal_strlit(
        r"^\[([0-9.:-]+)\]\[([ 0-9]*)\]LogSquadTrace: \[DedicatedServer\](?:ASQSoldier::)?Die\(\): Player:(.+) KillingDamage=[-0-9.]+ from ([A-Za-z_0-9]+) \(Online IDs:[^)]+\| Contoller ID: [\w\d]+\) caused by ([A-Za-z_0-9-]+)_C",
    );
    reveal_strlit(" caused by ");
    reveal_strlit(" from ");
    reveal_strlit("Player:");
    reveal_strlit(r"^\[");
    assert(groups_before(pattern, 3) == 0) by {
        reveal_with_fuel(groups_before, 5);
    }
    assert(groups_before(pattern, 18) == 1) by {
        reveal_with_fuel(groups_before, 17);
    }
    assert(groups_before(pattern, 96) == 2) by {
        reveal_with_fuel(groups_before, 80);
    }
    assert(groups_before(pattern, 129) == 3) by {
        reveal_with_fuel(groups_before, 35);
    }
    assert(groups_before(pattern, 200) == 4) by {
        reveal_with_fuel(groups_before, 73);
    }
    assert(opens_group(pattern, 3) && ends_with(pattern.take(3), r"^\["@));
    assert(opens_group(pattern, 96) && ends_with(pattern.take(96), "Player:"@));
    assert(opens_group(pattern, 129) && ends_with(pattern.take(129), " from "@));
    assert(opens_group(pattern, 200) && ends_with(pattern.take(200), " caused by "@));
}

/// The groups of a pattern and the marks that they stand behind.
#[verifier::rlimit(100)]
proof fn lemma_marks_of_round_end()
    ensures
        is_group_behind(ROUND_END@, r"^\["@, 1),
{
    let pattern = ROUND_END@;
    reveal_strlit(
        r"^\[([0-9.:-]+)\]\[([ 0-9]*)\]LogGameState: Match State Changed from InProgress to WaitingPostMatch",
    );
    reveal_strlit(r"^\[");
    assert(groups_before(pattern, 3) == 0) by {
        reveal_with_fuel(groups_before, 5);
    }
    assert(opens_group(pattern, 3) && ends_with(pattern.take(3), r"^\["@));
}

/// The groups of a pattern and the marks that they stand behind.
#[verifier::rlimit(100)]
proof fn lemma_marks_of_eos_id()
    ensures
        is_group_behind(EOS_ID@, r"EOS:\s*"@, 1),
{
    let pattern = EOS_ID@;
    reveal_strlit(
        r"EOS:\s*([a-f0-9]+)",
    );
    reveal_strlit(r"EOS:\s*");
    assert(groups_before(pattern, 7) == 0) by {
        reveal_with_fuel(groups_before, 9);
    }
    assert(opens_group(pattern, 7) && ends_with(pattern.take(7), r"EOS:\s*"@));
}

/// The groups of a pattern and the marks that they stand behind.
#[verifier::rlimit(100)]
proof fn lemma_marks_of_steam_id()
    ensures
        is_group_behind(STEAM_ID@, r"steam:\s*"@, 1),
{
    let pattern = STEAM_ID@;
    reveal_strlit(
        r"steam:\s*(\d+)",
    );
    reveal_strlit(r"steam:\s*");
    assert(groups_before(pattern, 9) == 0) by {
        reveal_with_fuel(groups_before, 11);
    }
    assert(opens_group(pattern, 9) && ends_with(pattern.take(9), r"steam:\s*"@));
}

/// A text is what a line has for the group that a pattern has behind a mark.
pub open spec fn is_text_behind(
    text: Seq<char>,
    line: Seq<char>,
    pattern: Seq<char>,
    mark: Seq<char>,
) -> bool {
    exists|number: int|
        #[trigger] is_group_behind(pattern, mark, number) && text == group_text(
            regex_captures(pattern, line)->0,
            number,
        )
}

/// The IDs are those among the text that a line has for the group that a
/// pattern has behind `Online IDs:`.
pub open spec fn are_ids_in(
    eos_id: Option<Seq<char>>,
    steam_id: Option<Seq<char>>,
    line: Seq<char>,
    pattern: Seq<char>,
) -> bool {
    exists|ids: Seq<char>|
        #[trigger] is_text_behind(ids, line, pattern, "Online IDs:"@) && eos_id == eos_id_among(ids)
            && steam_id == steam_id_among(ids)
}

/// The texts of an event are what the line has where the pattern of the event
/// has its marks: the time behind the bracket at the start, the victim behind
/// `Player:`, the attacker behind `from`, the weapon behind `caused by`, the
/// controller behind `PC`, the pawn behind `Pawn=`, and the IDs behind
/// `Online IDs:` or `RedpointEOS:`.
pub proof fn law_texts_stand_behind_marks(line: Seq<char>)
    ensures
        event_read(line) matches Some((stamp, event)) ==> match event {
            EventModel::PlayerConnected { controller, eos_id, steam_id } => {
                &&& is_text_behind(stamp, line, PLAYER_CONNECTED@, r"^\["@)
                &&& is_text_behind(controller, line, PLAYER_CONNECTED@, r"\."@)
                &&& are_ids_in(eos_id, steam_id, line, PLAYER_CONNECTED@)
            },
            EventModel::PlayerDisconnected { controller, eos_id } => {
                &&& is_text_behind(stamp, line, PLAYER_DISCONNECTED@, r"^\["@)
                &&& is_text_behind(controller, line, PLAYER_DISCONNECTED@, "PC: "@)
                &&& exists|id: Seq<char>|
                    #[trigger] is_text_behind(id, line, PLAYER_DISCONNECTED@, "RedpointEOS:"@)
                        && eos_id == Some(lowercase(id))
            },
            EventModel::PlayerPossess { controller, eos_id, pawn } => {
                &&& is_text_behind(stamp, line, PLAYER_POSSESS@, r"^\["@)
                &&& is_text_behind(controller, line, PLAYER_POSSESS@, "PC="@)
                &&& is_text_behind(pawn, line, PLAYER_POSSESS@, "Pawn="@)
                &&& exists|steam_id: Option<Seq<char>>|
                    #[trigger] are_ids_in(eos_id, steam_id, line, PLAYER_POSSESS@)
            },
            EventModel::PlayerUnpossess { controller, eos_id } => {
                &&& is_text_behind(stamp, line, PLAYER_UNPOSSESS@, r"^\["@)
                &&& is_text_behind(controller, line, PLAYER_UNPOSSESS@, "PC="@)
                &&& exists|steam_id: Option<Seq<char>>|
                    #[trigger] are_ids_in(eos_id, steam_id, line, PLAYER_UNPOSSESS@)
            },
            EventModel::PlayerWounded { victim, attacker, weapon } => {
                &&& is_text_behind(stamp, line, PLAYER_WOUNDED@, r"^\["@)
                &&& is_text_behind(victim, line, PLAYER_WOUNDED@, "Player:"@)
                &&& is_text_behind(attacker, line, PLAYER_WOUNDED@, " from "@)
                &&& is_text_behind(weapon, line, PLAYER_WOUNDED@, " caused by "@)
            },
            EventModel::PlayerDied { victim, attacker, weapon } => {
                &&& is_text_behind(stamp, line, PLAYER_DIED@, r"^\["@)
                &&& is_text_behind(victim, line, PLAYER_DIED@, "Player:"@)
                &&& is_text_behind(attacker, line, PLAYER_DIED@, " from "@)
                &&& is_text_behind(weapon, line, PLAYER_DIED@, " caused by "@)
            },
            EventModel::RoundEnd => is_text_behind(stamp, line, ROUND_END@, r"^\["@),
            _ => false,
        },
        line_read(line) matches Some(LineModel::NewGame { stamp, map, layer }) ==> {
            &&& is_text_behind(stamp, line, NEW_GAME@, r"^\["@)
            &&& is_text_behind(map, line, NEW_GAME@, "(?:Maps/)?"@)
            &&& is_text_behind(layer, line, NEW_GAME@, "(?:.+/)?"@)
        },
{
    lemma_marks_of_new_game();
    lemma_marks_of_player_connected();
    lemma_marks_of_player_disconnected();
    lemma_marks_of_player_possess();
    lemma_marks_of_player_unpossess();
    lemma_marks_of_player_wounded();
    lemma_marks_of_player_died();
    lemma_marks_of_round_end();
    if let Some((_, event)) = event_read(line) {
        match event {
            EventModel::PlayerConnected { .. } => {
                let ids = group_text(regex_captures(PLAYER_CONNECTED@, line)->0, 4);
                assert(is_text_behind(ids, line, PLAYER_CONNECTED@, "Online IDs:"@));
            },
            EventModel::PlayerDisconnected { .. } => {
                let id = group_text(regex_captures(PLAYER_DISCONNECTED@, line)->0, 4);
                assert(is_text_behind(id, line, PLAYER_DISCONNECTED@, "RedpointEOS:"@));
            },
            EventModel::PlayerPossess { eos_id, .. } => {
                let ids = group_text(regex_captures(PLAYER_POSSESS@, line)->0, 4);
                assert(is_text_behind(ids, line, PLAYER_POSSESS@, "Online IDs:"@));
                assert(are_ids_in(eos_id, steam_id_among(ids), line, PLAYER_POSSESS@));
            },
            EventModel::PlayerUnpossess { eos_id, .. } => {
                let ids = group_text(regex_captures(PLAYER_UNPOSSESS@, line)->0, 4);
                assert(is_text_behind(ids, line, PLAYER_UNPOSSESS@, "Online IDs:"@));
                assert(are_ids_in(eos_id, steam_id_among(ids), line, PLAYER_UNPOSSESS@));
            },
            _ => {},
        }
    }
}

/// The EOS ID among some IDs is what they have behind `EOS:`, in lower case, and
/// the Steam ID is what they have behind `steam:`. Each is there where its
/// pattern fits.
pub proof fn law_ids_stand_behind_marks(ids: Seq<char>)
    ensures
        eos_id_among(ids) is Some <==> regex_captures(EOS_ID@, ids) is Some,
        eos_id_among(ids) matches Some(eos_id) ==> exists|id: Seq<char>|
            #[trigger] is_text_behind(id, ids, EOS_ID@, r"EOS:\s*"@) && eos_id == lowercase(id),
        steam_id_among(ids) is Some <==> regex_captures(STEAM_ID@, ids) is Some,
        steam_id_among(ids) matches Some(steam_id) ==> is_text_behind(
            steam_id,
            ids,
            STEAM_ID@,
            r"steam:\s*"@,
        ),
{
    lemma_marks_of_eos_id();
    lemma_marks_of_steam_id();
    let id = group_text(regex_captures(EOS_ID@, ids)->0, 1);
    assert(is_text_behind(id, ids, EOS_ID@, r"EOS:\s*"@));
}

/// A line that fits a pattern is one of what the first such pattern is for, and
/// a line that fits none tells nothing.
pub proof fn law_lines_that_fit(line: Seq<char>)
    ensures
        ({
            let fits = |pattern: &str| regex_captures(pattern@, line) is Some;
            let read = line_read(line);
            &&& read is None <==> !fits(NEW_GAME) && !fits(PLAYER_CONNECTED) && !fits(
                PLAYER_DISCONNECTED,
            ) && !fits(PLAYER_POSSESS) && !fits(PLAYER_UNPOSSESS) && !fits(PLAYER_WOUNDED) && !fits(
                PLAYER_DIED,
            ) && !fits(ROUND_END)
            &&& fits(NEW_GAME) <==> read is Some && read->0 is NewGame
            &&& read matches Some(LineModel::Event { event, .. }) ==> {
                &&& event is PlayerConnected <==> fits(PLAYER_CONNECTED)
                &&& event is PlayerDisconnected <==> fits(PLAYER_DISCONNECTED) && !fits(
                    PLAYER_CONNECTED,
                )
                &&& event is PlayerPossess ==> fits(PLAYER_POSSESS)
                &&& event is PlayerUnpossess ==> fits(PLAYER_UNPOSSESS) && !fits(PLAYER_POSSESS)
                &&& event is PlayerWounded ==> fits(PLAYER_WOUNDED) && !fits(PLAYER_UNPOSSESS)
                &&& event is PlayerDied ==> fits(PLAYER_DIED) && !fits(PLAYER_WOUNDED)
                &&& event is RoundEnd ==> fits(ROUND_END) && !fits(PLAYER_DIED)
                &&& !(event is VehicleDied) && !(event is NewGame)
            }
        }),
{
}

/// A line of a wound and one of a death that have the same texts name the same
/// victim, attacker and weapon, at the same time.
pub proof fn law_wounds_and_deaths_are_read_alike(wound: Seq<char>, death: Seq<char>)
    requires
        event_read(wound) matches Some((_, event)) && event is PlayerWounded,
        event_read(death) matches Some((_, event)) && event is PlayerDied,
        regex_captures(PLAYER_WOUNDED@, wound) == regex_captures(PLAYER_DIED@, death),
    ensures
        match (event_read(wound), event_read(death)) {
            (
                Some((wounded_at, EventModel::PlayerWounded { victim: hurt, attacker: by, weapon })),
                Some((died_at, EventModel::PlayerDied { victim, attacker, weapon: with })),
            ) => wounded_at == died_at && hurt == victim && by == attacker && weapon == with,
            _ => false,
        },
{
}

// ---------------------------------------------------------------------------
// What events tell of a player
// ---------------------------------------------------------------------------

/// What is told of a player before an event: nothing where nothing is.
pub open spec fn told_before(state: Option<StateModel>) -> StateModel {
    match state {
        Some(told) => told,
        None => StateModel {
            eos_id: Seq::empty(),
            steam_id: None,
            name: None,
            connect: None,
            disconnect: None,
            spawns: Seq::empty(),
            is_spawned: false,
            current_pawn: None,
        },
    }
}

/// A player who is not spawned and takes a pawn whose name has `Soldier` in it
/// spawns at the time of the event, whatever else is told of them: one more
/// spawn is told, and they are spawned. When they connect and disconnect, and
/// their Steam ID, stay as they are.
pub proof fn law_soldiers_spawn(
    state: Option<StateModel>,
    t_ms: u64,
    eos_id: Seq<char>,
    controller: Seq<char>,
    pawn: Seq<char>,
)
    requires
        !told_before(state).is_spawned,
        has_part(pawn, "Soldier"@),
    ensures
        ({
            let before = told_before(state);
            let what = EventModel::PlayerPossess { controller, eos_id: Some(eos_id), pawn };
            match after_event(state, TimedEvent { t_ms, what }, eos_id) {
                Some(after) => {
                    &&& after.is_spawned
                    &&& after.spawns.len() == before.spawns.len() + 1
                    &&& after.spawns.drop_last() == before.spawns
                    &&& after.spawns.last().t_ms == t_ms
                    &&& after.spawns.last().kind == SpawnEventType::Spawn
                    &&& after.spawns.last().pawn == Some(pawn)
                    &&& after.current_pawn == Some(pawn)
                    &&& after.eos_id == eos_id
                    &&& after.name == (if before.name is Some {
                        before.name
                    } else {
                        Some(controller)
                    })
                    &&& after.connect == before.connect
                    &&& after.disconnect == before.disconnect
                    &&& after.steam_id == before.steam_id
                },
                None => false,
            }
        }),
{
    let before = told_before(state);
    let what = EventModel::PlayerPossess { controller, eos_id: Some(eos_id), pawn };
    let after = after_event(state, TimedEvent { t_ms, what }, eos_id)->0;
    assert(nothing_told().spawns =~= Seq::empty());
    assert(after.spawns.drop_last() =~= before.spawns);
}

/// A player who takes a pawn without spawning stays as spawned as they are. They
/// enter a vehicle at the time of the event where the pawn has the name of one,
/// and else nothing more is told to happen.
pub proof fn law_other_pawns(
    state: Option<StateModel>,
    t_ms: u64,
    eos_id: Seq<char>,
    controller: Seq<char>,
    pawn: Seq<char>,
)
    requires
        told_before(state).is_spawned || !has_part(pawn, "Soldier"@),
    ensures
        ({
            let before = told_before(state);
            let what = EventModel::PlayerPossess { controller, eos_id: Some(eos_id), pawn };
            match after_event(state, TimedEvent { t_ms, what }, eos_id) {
                Some(after) => {
                    &&& after.is_spawned == before.is_spawned
                    &&& if exists|i: int|
                        0 <= i < VEHICLE_PAWNS@.len() && has_part(
                            pawn,
                            #[trigger] VEHICLE_PAWNS@[i]@,
                        ) {
                        &&& after.spawns.len() == before.spawns.len() + 1
                        &&& after.spawns.drop_last() == before.spawns
                        &&& after.spawns.last().t_ms == t_ms
                        &&& after.spawns.last().kind == SpawnEventType::EnterVehicle
                        &&& after.spawns.last().pawn == Some(pawn)
                    } else {
                        after.spawns == before.spawns
                    }
                    &&& after.current_pawn == Some(pawn)
                    &&& after.eos_id == eos_id
                    &&& after.name == (if before.name is Some {
                        before.name
                    } else {
                        Some(controller)
                    })
                    &&& after.connect == before.connect
                    &&& after.disconnect == before.disconnect
                    &&& after.steam_id == before.steam_id
                },
                None => false,
            }
        }),
{
    let before = told_before(state);
    let what = EventModel::PlayerPossess { controller, eos_id: Some(eos_id), pawn };
    let after = after_event(state, TimedEvent { t_ms, what }, eos_id)->0;
    assert(nothing_told().spawns =~= Seq::empty());
    if after.spawns.len() > before.spawns.len() {
        assert(after.spawns.drop_last() =~= before.spawns);
    }
}

/// A player who connects is told to connect at the time of the event, under the
/// name of the controller and with the Steam ID of the event. What happens to
/// their pawn, and when they disconnect, stays as it is.
pub proof fn law_connecting(
    state: Option<StateModel>,
    t_ms: u64,
    eos_id: Seq<char>,
    controller: Seq<char>,
    steam_id: Option<Seq<char>>,
)
    ensures
        ({
            let before = told_before(state);
            let what = EventModel::PlayerConnected { controller, eos_id: Some(eos_id), steam_id };
            match after_event(state, TimedEvent { t_ms, what }, eos_id) {
                Some(after) => {
                    &&& after.connect == Some(t_ms)
                    &&& after.name == Some(controller)
                    &&& after.steam_id == steam_id
                    &&& after.eos_id == eos_id
                    &&& after.disconnect == before.disconnect
                    &&& after.spawns == before.spawns
                    &&& after.is_spawned == before.is_spawned
                    &&& after.current_pawn == before.current_pawn
                },
                None => false,
            }
        }),
{
    assert(nothing_told().spawns =~= Seq::empty());
}

/// A player who disconnects is told to disconnect at the time of the event, and
/// is not spawned after it: a despawn at that time is told of one who was. Of a
/// player of whom nothing is told before, nothing is told after.
pub proof fn law_disconnecting(
    state: Option<StateModel>,
    t_ms: u64,
    eos_id: Seq<char>,
    controller: Seq<char>,
)
    ensures
        ({
            let what = EventModel::PlayerDisconnected { controller, eos_id: Some(eos_id) };
            match (state, after_event(state, TimedEvent { t_ms, what }, eos_id)) {
                (Some(before), Some(after)) => {
                    &&& after.disconnect == Some(t_ms)
                    &&& !after.is_spawned
                    &&& if before.is_spawned {
                        &&& after.spawns.len() == before.spawns.len() + 1
                        &&& after.spawns.drop_last() == before.spawns
                        &&& after.spawns.last().t_ms == t_ms
                        &&& after.spawns.last().kind == SpawnEventType::Despawn
                        &&& after.spawns.last().pawn is None
                    } else {
                        after.spawns == before.spawns
                    }
                    &&& after.connect == before.connect
                    &&& after.name == before.name
                    &&& after.eos_id == before.eos_id
                    &&& after.steam_id == before.steam_id
                    &&& after.current_pawn == before.current_pawn
                },
                (None, None) => true,
                _ => false,
            }
        }),
{
    let what = EventModel::PlayerDisconnected { controller, eos_id: Some(eos_id) };
    if let Some(before) = state {
        if before.is_spawned {
            let after = after_event(state, TimedEvent { t_ms, what }, eos_id)->0;
            assert(after.spawns.drop_last() =~= before.spawns);
        }
    }
}

/// A player who leaves a pawn has none, and nothing else changes.
pub proof fn law_leaving_a_pawn(
    state: Option<StateModel>,
    t_ms: u64,
    eos_id: Seq<char>,
    controller: Seq<char>,
)
    ensures
        ({
            let what = EventModel::PlayerUnpossess { controller, eos_id: Some(eos_id) };
            match (state, after_event(state, TimedEvent { t_ms, what }, eos_id)) {
                (Some(before), Some(after)) => {
                    &&& after.current_pawn is None
                    &&& after.spawns == before.spawns
                    &&& after.is_spawned == before.is_spawned
                    &&& after.connect == before.connect
                    &&& after.disconnect == before.disconnect
                    &&& after.name == before.name
                    &&& after.eos_id == before.eos_id
                    &&& after.steam_id == before.steam_id
                },
                (None, None) => true,
                _ => false,
            }
        }),
{
}

/// The EOS ID of the player that an event is about, if it tells one.
pub open spec fn player_of_event(what: EventModel) -> Option<Seq<char>> {
    match what {
        EventModel::PlayerConnected { eos_id, .. } => eos_id,
        EventModel::PlayerDisconnected { eos_id, .. } => eos_id,
        EventModel::PlayerPossess { eos_id, .. } => eos_id,
        EventModel::PlayerUnpossess { eos_id, .. } => eos_id,
        _ => None,
    }
}

/// An event about nobody or about another player tells nothing of a player.
pub proof fn law_events_of_others(state: Option<StateModel>, event: TimedEvent, eos_id: Seq<char>)
    requires
        player_of_event(event.what) != Some(eos_id),
    ensures
        after_event(state, event, eos_id) == state,
{
}

/// A player is spawned exactly while a spawn has no despawn behind it.
proof fn lemma_spawned_is_open(events: Seq<TimedEvent>, eos_id: Seq<char>)
    ensures
        told_of(events, eos_id) matches Some(state) ==> state.is_spawned == (spawn_windows(
            state.spawns,
        ).1 is Some),
    decreases events.len(),
{
    if events.len() > 0 {
        lemma_spawned_is_open(events.drop_last(), eos_id);
        let before = told_of(events.drop_last(), eos_id);
        let after = told_of(events, eos_id);
        assert(spawn_windows(nothing_told().spawns).1 is None);
        if let Some(state) = after {
            let old_spawns = match before {
                Some(told) => told.spawns,
                None => nothing_told().spawns,
            };
            if state.spawns != old_spawns {
                assert(state.spawns.drop_last() =~= old_spawns);
            }
        }
    }
}

/// The event is none of a player who disconnects.
pub open spec fn is_no_disconnect(event: TimedEvent, eos_id: Seq<char>) -> bool {
    event.what is PlayerDisconnected ==> player_of_event(event.what) != Some(eos_id)
}

/// While a player does not disconnect, the window that is open stays the one.
proof fn lemma_open_window_stays(events: Seq<TimedEvent>, more: Seq<TimedEvent>, eos_id: Seq<char>)
    requires
        told_of(events, eos_id) matches Some(state) && state.is_spawned,
        forall|i: int| 0 <= i < more.len() ==> is_no_disconnect(#[trigger] more[i], eos_id),
    ensures
        match (told_of(events, eos_id), told_of(events + more, eos_id)) {
            (Some(before), Some(after)) => after.is_spawned && spawn_windows(after.spawns)
                == spawn_windows(before.spawns),
            _ => false,
        },
    decreases more.len(),
{
    if more.len() == 0 {
        assert(events + more =~= events);
    } else {
        let front = more.drop_last();
        assert forall|i: int| 0 <= i < front.len() implies is_no_disconnect(
            #[trigger] front[i],
            eos_id,
        ) by {
            assert(front[i] == more[i]);
        }
        lemma_open_window_stays(events, front, eos_id);
        assert((events + more).drop_last() =~= events + front);
        assert((events + more).last() == more[more.len() - 1]);
        let before = told_of(events + front, eos_id)->0;
        let after = told_of(events + more, eos_id)->0;
        lemma_spawned_is_open(events + front, eos_id);
        if after.spawns != before.spawns {
            assert(after.spawns.drop_last() =~= before.spawns);
        }
    }
}

/// A player who is not spawned, takes a soldier at one time and next disconnects
/// at another, whatever else happens in between, is visible from the one time to
/// the other, besides when they are visible before it.
pub proof fn law_windows_from_soldier_to_disconnect(
    events: Seq<TimedEvent>,
    takes: TimedEvent,
    more: Seq<TimedEvent>,
    leaves: TimedEvent,
    eos_id: Seq<char>,
    duration_ms: u64,
)
    requires
        !told_before(told_of(events, eos_id)).is_spawned,
        takes.what matches EventModel::PlayerPossess { eos_id: id, pawn, .. } && id == Some(eos_id)
            && has_part(pawn, "Soldier"@),
        forall|i: int| 0 <= i < more.len() ==> is_no_disconnect(#[trigger] more[i], eos_id),
        leaves.what matches EventModel::PlayerDisconnected { eos_id: id, .. } && id == Some(eos_id),
    ensures
        ({
            let all = events.push(takes) + more.push(leaves);
            match told_of(all, eos_id) {
                Some(after) => {
                    let windows = visible_windows(after, duration_ms);
                    &&& windows.len() > 0
                    &&& windows.last().start_ms == takes.t_ms
                    &&& windows.last().end_ms == leaves.t_ms
                    &&& windows.drop_last() == (match told_of(events, eos_id) {
                        Some(before) => visible_windows(before, duration_ms),
                        None => Seq::empty(),
                    })
                    &&& after.disconnect == Some(leaves.t_ms)
                },
                None => false,
            }
        }),
{
    let told = told_of(events, eos_id);
    let before = told_before(told);
    let taken = events.push(takes);
    let all = taken + more.push(leaves);
    lemma_spawned_is_open(events, eos_id);
    assert(nothing_told().spawns =~= Seq::empty());
    assert(spawn_windows(Seq::empty()).1 is None);
    assert(taken.drop_last() =~= events);
    let spawned = told_of(taken, eos_id)->0;
    assert(spawned.spawns.drop_last() =~= before.spawns);
    lemma_open_window_stays(taken, more, eos_id);
    assert(all.drop_last() =~= taken + more);
    assert(all.last() == leaves);
    let last = told_of(taken + more, eos_id)->0;
    let after = told_of(all, eos_id)->0;
    assert(after.spawns.drop_last() =~= last.spawns);
    let windows = visible_windows(after, duration_ms);
    assert(windows.drop_last() =~= spawn_windows(before.spawns).0);
}

/// A player who is not spawned and takes a soldier at a time, and who does not
/// disconnect after it, is visible from that time to the end of the replay,
/// unless the last time they are told to disconnect is no earlier.
pub proof fn law_windows_to_the_end(
    events: Seq<TimedEvent>,
    takes: TimedEvent,
    more: Seq<TimedEvent>,
    eos_id: Seq<char>,
    duration_ms: u64,
)
    requires
        !told_before(told_of(events, eos_id)).is_spawned,
        takes.what matches EventModel::PlayerPossess { eos_id: id, pawn, .. } && id == Some(eos_id)
            && has_part(pawn, "Soldier"@),
        forall|i: int| 0 <= i < more.len() ==> is_no_disconnect(#[trigger] more[i], eos_id),
    ensures
        match told_of(events.push(takes) + more, eos_id) {
            Some(after) => {
                let windows = visible_windows(after, duration_ms);
                &&& windows.len() > 0
                &&& windows.last().start_ms == takes.t_ms
                &&& windows.last().end_ms == (if after.disconnect is Some && after.disconnect->0
                    >= takes.t_ms {
                    after.disconnect->0
                } else {
                    duration_ms
                })
            },
            None => false,
        },
{
    let told = told_of(events, eos_id);
    let before = told_before(told);
    let taken = events.push(takes);
    lemma_spawned_is_open(events, eos_id);
    assert(nothing_told().spawns =~= Seq::empty());
    assert(spawn_windows(Seq::empty()).1 is None);
    assert(taken.drop_last() =~= events);
    let spawned = told_of(taken, eos_id)->0;
    assert(spawned.spawns.drop_last() =~= before.spawns);
    lemma_open_window_stays(taken, more, eos_id);
}

// ---------------------------------------------------------------------------
// Rounds
// ---------------------------------------------------------------------------

/// A line of a new round begins one, with its map, its layer and its time, and
/// ends the one before at that time, unless it has ended. A line without a time,
/// and one of a map that is shown between rounds, changes nothing.
pub proof fn law_new_rounds(
    state: ParserModel,
    stamp: Seq<char>,
    map: Seq<char>,
    layer: Seq<char>,
)
    ensures
        ({
            let after = after_line(state, LineModel::NewGame { stamp, map, layer });
            match stamp_time(stamp) {
                Some(time) if !has_part(map, "Transition"@) => {
                    &&& after.current matches Some(round) && {
                        &&& round.map == map
                        &&& round.layer == layer
                        &&& round.start == time
                        &&& round.end is None
                        &&& round.events.len() == 0
                    }
                    &&& match state.current {
                        Some(before) => {
                            &&& after.done.len() == state.done.len() + 1
                            &&& after.done.drop_last() == state.done
                            &&& after.done.last().map == before.map
                            &&& after.done.last().layer == before.layer
                            &&& after.done.last().start == before.start
                            &&& after.done.last().events == before.events
                            &&& before.end is Some ==> after.done.last().end == before.end
                            &&& before.end is None ==> after.done.last().end == Some(time)
                        },
                        None => after.done == state.done,
                    }
                },
                _ => after == state,
            }
        }),
{
    let after = after_line(state, LineModel::NewGame { stamp, map, layer });
    if after.done.len() > state.done.len() {
        assert(after.done.drop_last() =~= state.done);
    }
}

/// A line of an event adds it to the round that is on, at the milliseconds from
/// the start of the round to its time, or at 0 where it is earlier. One that the
/// round is over ends it at its time. Where no round is on, or the line has no
/// time, nothing changes.
pub proof fn law_events_in_rounds(state: ParserModel, stamp: Seq<char>, event: EventModel)
    ensures
        ({
            let after = after_line(state, LineModel::Event { stamp, event });
            match (state.current, stamp_time(stamp)) {
                (Some(before), Some(time)) => {
                    let apart = millis_apart(time, before.start);
                    &&& after.done == state.done
                    &&& after.current matches Some(round) && {
                        &&& round.map == before.map
                        &&& round.layer == before.layer
                        &&& round.start == before.start
                        &&& event is RoundEnd ==> round.end == Some(time)
                        &&& !(event is RoundEnd) ==> round.end == before.end
                        &&& round.events.len() == before.events.len() + 1
                        &&& round.events.drop_last() == before.events
                        &&& round.events.last().what == event
                        &&& apart <= 0 ==> round.events.last().t_ms == 0
                        &&& 0 < apart <= u64::MAX ==> round.events.last().t_ms == apart
                    }
                },
                _ => after == state,
            }
        }),
{
    let after = after_line(state, LineModel::Event { stamp, event });
    if let (Some(before), Some(_)) = (state.current, stamp_time(stamp)) {
        assert(after.current->0.events.drop_last() =~= before.events);
    }
}

/// The rounds of a log are those that its lines tell one by one: a line that is
/// read changes them as it says, and any other not at all.
pub proof fn law_lines_one_by_one(lines: Seq<Seq<char>>, line: Seq<char>)
    ensures
        after_lines(Seq::empty()).done.len() == 0,
        after_lines(Seq::empty()).current is None,
        line_read(line) matches Some(read) ==> after_lines(lines.push(line)) == after_line(
            after_lines(lines),
            read,
        ),
        line_read(line) is None ==> after_lines(lines.push(line)) == after_lines(lines),
{
    assert(lines.push(line).drop_last() =~= lines);
}

/// How long a round took is what lies between its start and its end, and nothing
/// where it has no end, or one that is not after the start.
pub proof fn law_round_durations(m: MatchModel)
    ensures
        m.end is None ==> round_millis(m) == 0,
        m.end matches Some(end) ==> {
            let apart = millis_apart(end, m.start);
            &&& apart <= 0 ==> round_millis(m) == 0
            &&& 0 < apart <= u64::MAX ==> round_millis(m) == apart
        },
{
}

// ---------------------------------------------------------------------------
// The round of a replay
// ---------------------------------------------------------------------------

/// The map counts for more than all else: a round whose map has the name of that
/// of the replay in its own, or the other way round, fits by 10 or more, and any
/// other by 8 at most. A duration that is off by less than a tenth of that of the
/// replay counts 5, one that is off by less than two tenths counts 2, and each
/// full hundred of events counts 1, up to 3.
pub proof fn law_fit(
    log_map: Seq<char>,
    replay_map: Seq<char>,
    log_ms: u64,
    replay_ms: u64,
    events: nat,
)
    requires
        replay_ms <= i64::MAX,
    ensures
        ({
            let score = fit(log_map, replay_map, log_ms, replay_ms, events);
            let named = has_part(log_map, replay_map) || has_part(replay_map, log_map);
            let off: int = if log_ms >= replay_ms {
                log_ms - replay_ms
            } else {
                replay_ms - log_ms
            };
            let by_map: int = if named {
                10
            } else {
                0
            };
            let hundreds: int = if events < 300 {
                events as int / 100
            } else {
                3
            };
            &&& named ==> score >= 10
            &&& !named ==> score <= 8
            &&& off < replay_ms / 10 ==> score == by_map + 5 + hundreds
            &&& replay_ms / 10 <= off < 2 * (replay_ms / 10) ==> score == by_map + 2 + hundreds
            &&& off >= 2 * (replay_ms / 10) ==> score == by_map + hundreds
        }),
{
}

/// A round fits a replay by its map, case aside, its duration and its events.
pub proof fn law_round_fit(m: MatchModel, replay_map: Seq<char>, replay_ms: u64)
    ensures
        ({
            let score = round_fit(m, replay_map, replay_ms);
            let named = has_part(lowercase(m.map), lowercase(replay_map)) || has_part(
                lowercase(replay_map),
                lowercase(m.map),
            );
            &&& named <==> score >= 10
            &&& 0 <= score <= 18
            &&& score == fit(
                lowercase(m.map),
                lowercase(replay_map),
                round_millis(m),
                replay_ms,
                m.events.len(),
            )
        }),
{
}

/// The round that is found for a replay is one of the rounds; none fits better,
/// those in front of it fit less, and it fits at all. Where none is found, none
/// fits.
pub proof fn law_best_round<'a>(
    rounds: &'a [LogMatch],
    replay_map: &str,
    replay_ms: u64,
    best: Option<&'a LogMatch>,
)
    requires
        call_ensures(find_matching_log, (rounds, replay_map, replay_ms), best),
    ensures
        match best {
            Some(found) => exists|i: int|
                {
                    &&& 0 <= i < rounds@.len()
                    &&& #[trigger] rounds@[i] == *found
                    &&& round_fit(found@, replay_map@, replay_ms) > 0
                    &&& forall|j: int|
                        0 <= j < rounds@.len() ==> round_fit(
                            (#[trigger] rounds@[j])@,
                            replay_map@,
                            replay_ms,
                        ) <= round_fit(found@, replay_map@, replay_ms)
                    &&& forall|j: int|
                        0 <= j < i ==> round_fit(
                            (#[trigger] rounds@[j])@,
                            replay_map@,
                            replay_ms,
                        ) < round_fit(found@, replay_map@, replay_ms)
                },
            None => forall|j: int|
                0 <= j < rounds@.len() ==> round_fit(
                    (#[trigger] rounds@[j])@,
                    replay_map@,
                    replay_ms,
                ) <= 0,
        },
{
    if let Some(found) = best {
        let i = choose|i: int|
            #[trigger] is_best_round(rounds@, i, replay_map@, replay_ms) && rounds@[i] == *found;
        assert(rounds@[i] == *found);
    }
}

// ---------------------------------------------------------------------------
// What a round adds
// ---------------------------------------------------------------------------

/// Merging gives a player of whom the round tells, by the EOS ID in lower case,
/// the times at which they connect and disconnect, and their windows where there
/// are any. Nothing else of a player changes, and nothing at all of one of whom
/// the round does not tell.
pub proof fn law_merged_player(
    before: Player,
    after: Player,
    events: Seq<TimedEvent>,
    duration_ms: u64,
)
    requires
        is_merged(before, after, told_of_player(before, events), duration_ms),
    ensures
        before.eos_id is None ==> after == before,
        before.eos_id matches Some(id) ==> match told_of(events, lowercase(id@)) {
            Some(told) => {
                let windows = visible_windows(told, duration_ms);
                &&& after.connect_time_ms == told.connect
                &&& after.disconnect_time_ms == told.disconnect
                &&& windows.len() > 0 ==> after.visibility_windows@ == windows
                &&& windows.len() == 0 ==> after.visibility_windows == before.visibility_windows
                &&& after == (Player {
                    connect_time_ms: after.connect_time_ms,
                    disconnect_time_ms: after.disconnect_time_ms,
                    visibility_windows: after.visibility_windows,
                    ..before
                })
            },
            None => after == before,
        },
{
}

/// A bundle with what a round adds has a player for each that it had, each merged
/// with what the round tells of them within the replay, and the destructions of
/// vehicles that the round tells behind its own. Nothing else has changed.
pub proof fn law_merged_bundle(before: Bundle, after: Bundle, round: LogMatch)
    requires
        has_round(before, after, round),
    ensures
        after.players@.len() == before.players@.len(),
        forall|i: int|
            0 <= i < before.players@.len() ==> is_merged(
                before.players@[i],
                #[trigger] after.players@[i],
                told_of_player(before.players@[i], event_models(round.events@)),
                before.replay.duration_ms,
            ),
        after.events.vehicle_deaths@.take(before.events.vehicle_deaths@.len() as int)
            == before.events.vehicle_deaths@,
        after.events.vehicle_deaths@.skip(before.events.vehicle_deaths@.len() as int) == deaths_of(
            round.events@,
        ),
        after.replay == before.replay,
        after.teams == before.teams,
        after.squads == before.squads,
        after.actors == before.actors,
        after.tracks == before.tracks,
        after.events.kills == before.events.kills,
        after.events.capture_zones == before.events.capture_zones,
        after.events.properties == before.events.properties,
        after.events.seat_changes == before.events.seat_changes,
        after.game_state == before.game_state,
{
    let own = before.events.vehicle_deaths@;
    let added = deaths_of(round.events@);
    assert(after.events.vehicle_deaths@ == own + added);
    assert((own + added).take(own.len() as int) =~= own);
    assert((own + added).skip(own.len() as int) =~= added);
}

/// The destructions of vehicles that some events tell of are those of all such
/// events, in their order, each with its time, the second of it in 32 bits, and
/// the texts of the event.
pub proof fn law_vehicle_deaths(events: Seq<LogEvent>) -> (at: Seq<int>)
    ensures
        ({
            let deaths = deaths_of(events);
            &&& at.len() == deaths.len()
            &&& forall|i: int, j: int| 0 <= i < j < at.len() ==> #[trigger] at[i] < #[trigger] at[j]
            &&& forall|k: int|
                0 <= k < events.len() && (#[trigger] events[k]).event_type is VehicleDied
                    ==> at.contains(k)
            &&& forall|i: int|
                0 <= i < at.len() ==> {
                    let event = events[at[i]];
                    &&& 0 <= #[trigger] at[i] < events.len()
                    &&& deaths[i].t_ms == event.t_ms
                    &&& deaths[i].second == event.t_ms as int / 1000 % 0x1_0000_0000
                    &&& match event.event_type {
                        LogEventType::VehicleDied {
                            vehicle_class,
                            vehicle_id,
                            causer,
                            instigator,
                        } => {
                            &&& deaths[i].vehicle_class == vehicle_class
                            &&& deaths[i].vehicle_id == vehicle_id
                            &&& deaths[i].causer == causer
                            &&& deaths[i].instigator == instigator
                        },
                        _ => false,
                    }
                }
        }),
    decreases events.len(),
{
    if events.len() == 0 {
        Seq::empty()
    } else {
        let front = events.drop_last();
        let before = law_vehicle_deaths(front);
        let last = events.len() - 1;
        assert forall|k: int| 0 <= k < last implies #[trigger] events[k] == front[k] by {}
        if events[last].event_type is VehicleDied {
            let at = before.push(last);
            assert forall|k: int|
                0 <= k < events.len() && (#[trigger] events[k]).event_type is VehicleDied implies at.contains(
                k,
            ) by {
                if k < last {
                    assert(events[k] == front[k]);
                    let i = choose|i: int| 0 <= i < before.len() && before[i] == k;
                    assert(at[i] == k);
                } else {
                    assert(at[before.len() as int] == k);
                }
            }
            at
        } else {
            assert forall|k: int|
                0 <= k < events.len() && (#[trigger] events[k]).event_type is VehicleDied implies before.contains(
                k,
            ) by {
                assert(events[k] == front[k]);
            }
            before
        }
    }
}

/// The model of an event has the texts of the event, each in its place.
pub proof fn law_models_of_events(event: LogEvent)
    ensures
        event@.t_ms == event.t_ms,
        match (event.event_type, event@.what) {
            (
                LogEventType::PlayerConnected { controller, eos_id, steam_id },
                EventModel::PlayerConnected { controller: c, eos_id: e, steam_id: s },
            ) => c == controller@ && e == opt_text(eos_id) && s == opt_text(steam_id),
            (
                LogEventType::PlayerDisconnected { controller, eos_id },
                EventModel::PlayerDisconnected { controller: c, eos_id: e },
            ) => c == controller@ && e == opt_text(eos_id),
            (
                LogEventType::PlayerPossess { controller, eos_id, pawn },
                EventModel::PlayerPossess { controller: c, eos_id: e, pawn: p },
            ) => c == controller@ && e == opt_text(eos_id) && p == pawn@,
            (
                LogEventType::PlayerUnpossess { controller, eos_id },
                EventModel::PlayerUnpossess { controller: c, eos_id: e },
            ) => c == controller@ && e == opt_text(eos_id),
            (
                LogEventType::PlayerWounded { victim, attacker, weapon },
                EventModel::PlayerWounded { victim: v, attacker: a, weapon: w },
            ) => v == victim@ && a == attacker@ && w == weapon@,
            (
                LogEventType::PlayerDied { victim, attacker, weapon },
                EventModel::PlayerDied { victim: v, attacker: a, weapon: w },
            ) => v == victim@ && a == attacker@ && w == weapon@,
            (LogEventType::VehicleDied { .. }, EventModel::VehicleDied { .. }) => true,
            (LogEventType::NewGame { map, layer }, EventModel::NewGame { map: m, layer: l }) => m
                == map@ && l == layer@,
            (LogEventType::RoundEnd, EventModel::RoundEnd) => true,
            _ => false,
        },
{
}

/// The model of a round, and that of what is told of a player, have what they are
/// models of, each in its place.
pub proof fn law_models_of_rounds(round: LogMatch, state: PlayerLogState)
    ensures
        round@.map == round.map@,
        round@.layer == round.layer@,
        round@.start == round.start_time,
        round@.end == round.end_time,
        round@.events.len() == round.events@.len(),
        forall|i: int| 0 <= i < round.events@.len() ==> #[trigger] round@.events[i] == round.events@[i]@,
        state@.eos_id == state.eos_id@,
        state@.steam_id == opt_text(state.steam_id),
        state@.name == opt_text(state.name),
        state@.connect == state.connect_time_ms,
        state@.disconnect == state.disconnect_time_ms,
        state@.is_spawned == state.is_spawned,
        state@.current_pawn == opt_text(state.current_pawn),
        state@.spawns.len() == state.spawn_events@.len(),
        forall|i: int|
            0 <= i < state.spawn_events@.len() ==> {
                let spawn = #[trigger] state.spawn_events@[i];
                &&& state@.spawns[i].t_ms == spawn.t_ms
                &&& state@.spawns[i].kind == spawn.event_type
                &&& state@.spawns[i].pawn == opt_text(spawn.pawn)
            },
{
    assert forall|i: int| 0 <= i < state.spawn_events@.len() implies {
        let spawn = #[trigger] state.spawn_events@[i];
        &&& state@.spawns[i].t_ms == spawn.t_ms
        &&& state@.spawns[i].kind == spawn.event_type
        &&& state@.spawns[i].pawn == opt_text(spawn.pawn)
    } by {
        assert(state@.spawns[i] == state.spawn_events@[i]@);
    }
}

/// The map of a replay is the one that the replay tells, and an empty text where
/// it tells none.
pub proof fn law_map_of_a_replay(bundle: Bundle)
    ensures
        bundle.replay.map_name matches Some(name) ==> replay_map(bundle) == name@,
        bundle.replay.map_name is None ==> replay_map(bundle).len() == 0,
{
}

} // verus!
