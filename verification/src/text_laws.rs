//! What reading and writing text must satisfy.

use crate::calendar::{is_time, Timestamp};
use crate::classify::{
    after_last, after_level, alphanumeric_run, group_leaf, is_alphanumeric, lane_flag, raas_flag,
};
use crate::cli::{
    clock_text, format_of_name, formats_of, joined, parse_lines, summarize, summary_lines,
    two_digits, written_lines, BundleFormat, BundleSummary, OutputFormat, OutputSelection,
    WrittenOutputs,
};
use crate::bundle::Bundle;
use crate::game_mode::{mode_in_layer, mode_of};
use crate::log_parser::{stamp_separators, stamp_time};
use crate::text::{
    all_digits, ascii_folded, decimal, digits_value, ends_with, i32_number,
    has_part, is_white_space, last_index_of, occurs_at, part_index_from, pieces_of, text_before,
    trimmed, trimmed_end, trimmed_start, u32_number,
};
use vstd::prelude::*;

verus! {

// ---------------------------------------------------------------------------
// Pieces
// ---------------------------------------------------------------------------

/// None of the characters of a text is a separator.
pub open spec fn is_one_piece(text: Seq<char>, separators: Seq<char>) -> bool {
    forall|i: int| 0 <= i < text.len() ==> !separators.contains(#[trigger] text[i])
}

/// A text without separators is one piece, and a separator parts the pieces of
/// what is in front of it from those of what is behind it.
pub proof fn law_pieces_at_separators(
    front: Seq<char>,
    separator: char,
    back: Seq<char>,
    separators: Seq<char>,
)
    requires
        separators.contains(separator),
    ensures
        is_one_piece(front, separators) ==> pieces_of(front, separators) == seq![front],
        pieces_of(front.push(separator) + back, separators) == pieces_of(front, separators)
            + pieces_of(back, separators),
{
    if is_one_piece(front, separators) {
        lemma_one_piece(front, separators);
    }
    lemma_pieces_behind(front, separator, back, separators);
}

/// A text without separators is one piece.
proof fn lemma_one_piece(text: Seq<char>, separators: Seq<char>)
    requires
        is_one_piece(text, separators),
    ensures
        pieces_of(text, separators) == seq![text],
    decreases text.len(),
{
    if text.len() > 0 {
        let front = text.drop_last();
        assert forall|i: int| 0 <= i < front.len() implies !separators.contains(
            #[trigger] front[i],
        ) by {
            assert(front[i] == text[i]);
        }
        lemma_one_piece(front, separators);
        assert(!separators.contains(text[text.len() - 1]));
        assert(front.push(text.last()) =~= text);
        assert(pieces_of(text, separators) =~= seq![text]);
    } else {
        assert(text =~= Seq::<char>::empty());
        assert(pieces_of(text, separators) =~= seq![text]);
    }
}

/// A text has at least one piece.
proof fn lemma_some_piece(text: Seq<char>, separators: Seq<char>)
    ensures
        pieces_of(text, separators).len() > 0,
    decreases text.len(),
{
    if text.len() > 0 {
        lemma_some_piece(text.drop_last(), separators);
    }
}

/// What is behind a separator has its own pieces.
proof fn lemma_pieces_behind(
    front: Seq<char>,
    separator: char,
    back: Seq<char>,
    separators: Seq<char>,
)
    requires
        separators.contains(separator),
    ensures
        pieces_of(front.push(separator) + back, separators) == pieces_of(front, separators)
            + pieces_of(back, separators),
    decreases back.len(),
{
    let head = front.push(separator);
    let before = pieces_of(front, separators);
    if back.len() == 0 {
        assert(head + back =~= head);
        assert(head.drop_last() =~= front);
        assert(pieces_of(head, separators) =~= before + pieces_of(back, separators));
    } else {
        let rest = back.drop_last();
        lemma_pieces_behind(front, separator, rest, separators);
        lemma_some_piece(rest, separators);
        assert((head + back).drop_last() =~= head + rest);
        assert((head + back).last() == back.last());
        let all = pieces_of(head + rest, separators);
        let own = pieces_of(rest, separators);
        assert(all.last() == own.last());
        if separators.contains(back.last()) {
            assert(all.push(Seq::<char>::empty()) =~= before + own.push(Seq::<char>::empty()));
        } else {
            let piece = own.last().push(back.last());
            assert(all.drop_last().push(piece) =~= before + own.drop_last().push(piece));
        }
    }
}

/// The mode in the name of a layer is its second part: what stands between the
/// first underscore and the second, or the end. A name without an underscore
/// tells none.
pub proof fn law_mode_in_layer(first: Seq<char>, mode: Seq<char>, rest: Seq<char>)
    requires
        is_one_piece(first, seq!['_']),
        is_one_piece(mode, seq!['_']),
    ensures
        mode_in_layer(first) is None,
        mode_in_layer(first.push('_') + mode) == Some(mode),
        mode_in_layer(first.push('_') + (mode.push('_') + rest)) == Some(mode),
{
    let marks = seq!['_'];
    assert(marks[0] == '_');
    assert(marks.contains('_'));
    lemma_one_piece(first, marks);
    lemma_one_piece(mode, marks);
    lemma_pieces_behind(first, '_', mode, marks);
    lemma_pieces_behind(mode, '_', rest, marks);
    lemma_pieces_behind(first, '_', mode.push('_') + rest, marks);
    lemma_some_piece(rest, marks);
    assert(pieces_of(first.push('_') + mode, marks)[1] == mode);
    assert(pieces_of(first.push('_') + (mode.push('_') + rest), marks)[1] == mode);
}

/// The mode of a match is the one that the game state tells, and where it tells
/// none the one in the name of the layer.
pub proof fn law_mode_of_a_match(bundle: Bundle)
    ensures
        bundle.game_state.game_mode matches Some(mode) ==> mode_of(bundle) == Some(mode@),
        bundle.game_state.game_mode is None ==> match bundle.replay.layer_name {
            Some(layer) => mode_of(bundle) == mode_in_layer(layer@),
            None => mode_of(bundle) is None,
        },
{
}

// ---------------------------------------------------------------------------
// Times
// ---------------------------------------------------------------------------

/// A text is a number without a sign of at most a limit.
pub open spec fn is_number_up_to(text: Seq<char>, limit: nat) -> bool {
    text.len() > 0 && all_digits(text) && digits_value(text) <= limit
}

/// Digits hold none of the marks of a time.
proof fn lemma_digits_are_one_piece(text: Seq<char>)
    requires
        all_digits(text),
    ensures
        is_one_piece(text, stamp_separators()),
{
    let marks = stamp_separators();
    assert forall|i: int| 0 <= i < text.len() implies !marks.contains(#[trigger] text[i]) by {
        if marks.contains(text[i]) {
            let k = choose|k: int| 0 <= k < marks.len() && marks[k] == text[i];
            assert(k == 0 || k == 1 || k == 2);
        }
    }
}

/// A time is read from the seven numbers that write it, in their order: year,
/// month, day, hour, minute, second and millisecond. It is read where there is
/// such a time, and only there.
pub proof fn law_times_are_read(
    year: Seq<char>,
    month: Seq<char>,
    day: Seq<char>,
    hour: Seq<char>,
    minute: Seq<char>,
    second: Seq<char>,
    milli: Seq<char>,
)
    requires
        is_number_up_to(year, 0x7fff_ffff),
        is_number_up_to(month, 0xffff_ffff),
        is_number_up_to(day, 0xffff_ffff),
        is_number_up_to(hour, 0xffff_ffff),
        is_number_up_to(minute, 0xffff_ffff),
        is_number_up_to(second, 0xffff_ffff),
        is_number_up_to(milli, 0xffff_ffff),
    ensures
        ({
            let text = year.push('.') + (month.push('.') + (day.push('-') + (hour.push('.') + (
            minute.push('.') + (second.push(':') + milli)))));
            let time = Timestamp {
                year: digits_value(year) as i32,
                month: digits_value(month) as u32,
                day: digits_value(day) as u32,
                hour: digits_value(hour) as u32,
                minute: digits_value(minute) as u32,
                second: digits_value(second) as u32,
                milli: digits_value(milli) as u32,
            };
            stamp_time(text) == (if is_time(time) {
                Some(time)
            } else {
                None
            })
        }),
{
    let marks = stamp_separators();
    assert(marks[0] == '.' && marks[1] == '-' && marks[2] == ':');
    assert(marks.contains('.') && marks.contains('-') && marks.contains(':'));
    lemma_digits_are_one_piece(year);
    lemma_digits_are_one_piece(month);
    lemma_digits_are_one_piece(day);
    lemma_digits_are_one_piece(hour);
    lemma_digits_are_one_piece(minute);
    lemma_digits_are_one_piece(second);
    lemma_digits_are_one_piece(milli);
    lemma_one_piece(milli, marks);
    lemma_one_piece(second, marks);
    lemma_one_piece(minute, marks);
    lemma_one_piece(hour, marks);
    lemma_one_piece(day, marks);
    lemma_one_piece(month, marks);
    lemma_one_piece(year, marks);
    let t6 = second.push(':') + milli;
    let t5 = minute.push('.') + t6;
    let t4 = hour.push('.') + t5;
    let t3 = day.push('-') + t4;
    let t2 = month.push('.') + t3;
    let text = year.push('.') + t2;
    lemma_pieces_behind(second, ':', milli, marks);
    lemma_pieces_behind(minute, '.', t6, marks);
    lemma_pieces_behind(hour, '.', t5, marks);
    lemma_pieces_behind(day, '-', t4, marks);
    lemma_pieces_behind(month, '.', t3, marks);
    lemma_pieces_behind(year, '.', t2, marks);
    let parts = pieces_of(text, marks);
    assert(parts =~= seq![year, month, day, hour, minute, second, milli]);
    assert('0' <= year[0] <= '9');
    assert('0' <= month[0] <= '9');
    assert('0' <= day[0] <= '9');
    assert('0' <= hour[0] <= '9');
    assert('0' <= minute[0] <= '9');
    assert('0' <= second[0] <= '9');
    assert('0' <= milli[0] <= '9');
}

/// A number with a sign is read as what its digits say, and a number that is too
/// large for its type is not read.
pub proof fn law_signed_numbers(digits: Seq<char>)
    requires
        digits.len() > 0,
        all_digits(digits),
    ensures
        ({
            let value = digits_value(digits) as int;
            &&& i32_number(digits) == (if value <= 0x7fff_ffff {
                Some(value)
            } else {
                None
            })
            &&& i32_number(seq!['+'] + digits) == i32_number(digits)
            &&& i32_number(seq!['-'] + digits) == (if value <= 0x8000_0000 {
                Some(-value)
            } else {
                None
            })
            &&& u32_number(digits) == (if value <= 0xffff_ffff {
                Some(value as nat)
            } else {
                None
            })
            &&& u32_number(seq!['+'] + digits) == u32_number(digits)
        }),
{
    assert((seq!['+'] + digits).skip(1) =~= digits);
    assert((seq!['-'] + digits).skip(1) =~= digits);
    assert('0' <= digits[0] <= '9');
}

// ---------------------------------------------------------------------------
// White space
// ---------------------------------------------------------------------------

/// A text is trimmed to what is left of it without the white space at its ends:
/// a stretch of it that neither begins nor ends with white space, with nothing
/// but white space in front of it and behind it.
pub proof fn law_trimmed(text: Seq<char>) -> (ends: (int, int))
    ensures
        ({
            let (start, end) = ends;
            &&& 0 <= start <= end <= text.len()
            &&& trimmed(text) == text.subrange(start, end)
            &&& start < end ==> !is_white_space(text[start]) && !is_white_space(text[end - 1])
            &&& forall|i: int| 0 <= i < start ==> is_white_space(#[trigger] text[i])
            &&& forall|i: int| end <= i < text.len() ==> is_white_space(#[trigger] text[i])
        }),
{
    let start = lemma_trimmed_start(text);
    let rest = trimmed_start(text);
    let n = lemma_trimmed_end(rest);
    assert(trimmed(text) =~= text.subrange(start, start + n));
    assert forall|i: int| start + n <= i < text.len() implies is_white_space(#[trigger] text[i]) by {
        assert(rest[i - start] == text[i]);
    }
    if n > 0 {
        assert(rest[0] == text[start]);
        assert(rest[n - 1] == text[start + n - 1]);
    }
    (start, start + n)
}

/// Where the white space at the start ends.
proof fn lemma_trimmed_start(text: Seq<char>) -> (start: int)
    ensures
        0 <= start <= text.len(),
        trimmed_start(text) == text.skip(start),
        start < text.len() ==> !is_white_space(text[start]),
        forall|i: int| 0 <= i < start ==> is_white_space(#[trigger] text[i]),
    decreases text.len(),
{
    if text.len() > 0 && is_white_space(text[0]) {
        let rest = text.skip(1);
        let start = lemma_trimmed_start(rest);
        assert(rest.skip(start) =~= text.skip(start + 1));
        assert forall|i: int| 0 <= i < start + 1 implies is_white_space(#[trigger] text[i]) by {
            if i > 0 {
                assert(rest[i - 1] == text[i]);
            }
        }
        start + 1
    } else {
        assert(text.skip(0) =~= text);
        0
    }
}

/// Where the white space at the end starts.
proof fn lemma_trimmed_end(text: Seq<char>) -> (end: int)
    ensures
        0 <= end <= text.len(),
        trimmed_end(text) == text.take(end),
        end > 0 ==> !is_white_space(text[end - 1]),
        forall|i: int| end <= i < text.len() ==> is_white_space(#[trigger] text[i]),
    decreases text.len(),
{
    if text.len() > 0 && is_white_space(text.last()) {
        let front = text.drop_last();
        let end = lemma_trimmed_end(front);
        assert(front.take(end) =~= text.take(end));
        assert forall|i: int| end <= i < text.len() implies is_white_space(#[trigger] text[i]) by {
            if i < front.len() {
                assert(front[i] == text[i]);
            }
        }
        end
    } else {
        assert(text.take(text.len() as int) =~= text);
        text.len() as int
    }
}

// ---------------------------------------------------------------------------
// What the command line says
// ---------------------------------------------------------------------------

/// A duration of some hours, minutes and seconds is shown with just these: the
/// hours where there are any, and the minutes and seconds behind another part
/// with two digits.
pub proof fn law_clock_text(duration_ms: u64, hours: nat, minutes: nat, seconds: nat)
    requires
        minutes < 60,
        seconds < 60,
        duration_ms as int / 1000 == hours * 3600 + minutes * 60 + seconds,
    ensures
        hours == 0 ==> clock_text(duration_ms) == decimal(minutes) + ":"@ + (if seconds < 10 {
            "0"@
        } else {
            Seq::empty()
        }) + decimal(seconds),
        hours > 0 ==> clock_text(duration_ms) == decimal(hours) + ":"@ + (if minutes < 10 {
            "0"@
        } else {
            Seq::empty()
        }) + decimal(minutes) + ":"@ + (if seconds < 10 {
            "0"@
        } else {
            Seq::empty()
        }) + decimal(seconds),
{
    let total = duration_ms as int / 1000;
    assert(total / 3600 == hours);
    assert((total % 3600) / 60 == minutes);
    assert(total % 60 == seconds);
    let m = two_digits(minutes);
    let s = two_digits(seconds);
    let pad_m = if minutes < 10 {
        "0"@
    } else {
        Seq::empty()
    };
    let pad_s = if seconds < 10 {
        "0"@
    } else {
        Seq::empty()
    };
    assert(m =~= pad_m + decimal(minutes));
    assert(s =~= pad_s + decimal(seconds));
    if hours > 0 {
        assert(decimal(hours) + ":"@ + m + ":"@ + s =~= decimal(hours) + ":"@ + pad_m + decimal(
            minutes,
        ) + ":"@ + pad_s + decimal(seconds));
    } else {
        assert(decimal(minutes) + ":"@ + s =~= decimal(minutes) + ":"@ + pad_s + decimal(seconds));
    }
}

/// A summary has the counts of the bundle, each in its place.
pub proof fn law_summary<'a>(input: &'a str, bundle: &'a Bundle, summary: BundleSummary<'a>)
    requires
        call_ensures(summarize, (input, bundle), summary),
    ensures
        summary.input@ == input@,
        match (summary.map_name, bundle.replay.map_name) {
            (Some(shown), Some(name)) => shown@ == name@,
            (None, None) => true,
            _ => false,
        },
        match (summary.squad_version, bundle.replay.squad_version) {
            (Some(shown), Some(version)) => shown@ == version@,
            (None, None) => true,
            _ => false,
        },
        summary.duration_ms == bundle.replay.duration_ms,
        summary.teams == bundle.teams@.len(),
        summary.squads == bundle.squads@.len(),
        summary.players == bundle.players@.len(),
        summary.vehicles == bundle.actors.vehicles@.len(),
        summary.helicopters == bundle.actors.helicopters@.len(),
        summary.deployables == bundle.actors.deployables@.len(),
        summary.components == bundle.actors.components@.len(),
        summary.player_tracks == bundle.tracks.players@.len(),
        summary.vehicle_tracks == bundle.tracks.vehicles@.len(),
        summary.helicopter_tracks == bundle.tracks.helicopters@.len(),
        summary.kills == bundle.events.kills@.len(),
        summary.deployments == bundle.events.deployments@.len(),
        summary.seat_changes == bundle.events.seat_changes@.len(),
        summary.component_states == bundle.events.component_states@.len(),
        summary.vehicle_states == bundle.events.vehicle_states@.len(),
        summary.weapon_states == bundle.events.weapon_states@.len(),
        summary.property_events == bundle.events.properties@.len(),
        summary.frames_processed == bundle.diagnostics.frames_processed,
        summary.packets_processed == bundle.diagnostics.packets_processed,
        summary.actor_opens == bundle.diagnostics.actor_opens,
{
}

/// What a summary says, line by line: each count stands with what it counts, and
/// what is not known is said to be so.
pub proof fn law_summary_text(title: Seq<char>, s: BundleSummary)
    ensures
        ({
            let lines = summary_lines(title, s);
            let known = |text: Option<&str>|
                match text {
                    Some(t) => t@,
                    None => "unknown"@,
                };
            &&& lines.len() == 10
            &&& lines[0] == title
            &&& lines[1] == "Input: "@ + s.input@
            &&& lines[2] == "Map: "@ + known(s.map_name)
            &&& lines[3] == "Squad version: "@ + known(s.squad_version)
            &&& lines[4] == "Duration: "@ + clock_text(s.duration_ms)
            &&& lines[5] == "Entities: "@ + decimal(s.teams as nat) + " teams, "@ + decimal(
                s.squads as nat,
            ) + " squads, "@ + decimal(s.players as nat) + " players"@
            &&& lines[6] == "Actors: "@ + decimal(s.vehicles as nat) + " vehicles, "@ + decimal(
                s.helicopters as nat,
            ) + " helicopters, "@ + decimal(s.deployables as nat) + " deployables, "@ + decimal(
                s.components as nat,
            ) + " components"@
            &&& lines[7] == "Tracks: "@ + decimal(s.player_tracks as nat) + " player, "@ + decimal(
                s.vehicle_tracks as nat,
            ) + " vehicle, "@ + decimal(s.helicopter_tracks as nat) + " helicopter"@
            &&& lines[8] == "Events: "@ + decimal(s.kills as nat) + " kills, "@ + decimal(
                s.deployments as nat,
            ) + " deployments, "@ + decimal(s.seat_changes as nat) + " seat changes, "@ + decimal(
                s.property_events as nat,
            ) + " property events"@
            &&& lines[9] == "Diagnostics: "@ + decimal(s.frames_processed as nat) + " frames, "@
                + decimal(s.packets_processed as nat) + " packets, "@ + decimal(
                s.actor_opens as nat,
            ) + " actor opens"@
        }),
{
}

/// What is said of a replay that was converted, line by line.
pub proof fn law_parse_text(input: Seq<char>, output_base: Seq<char>, bundle: Bundle)
    ensures
        ({
            let lines = parse_lines(input, output_base, bundle);
            let known = |text: Option<String>|
                match text {
                    Some(t) => t@,
                    None => "unknown"@,
                };
            &&& lines.len() == 9
            &&& lines[0] == "Replay converted"@
            &&& lines[1] == "Input: "@ + input
            &&& lines[2] == "Output base: "@ + output_base
            &&& lines[3] == "Map: "@ + known(bundle.replay.map_name)
            &&& lines[4] == "Squad version: "@ + known(bundle.replay.squad_version)
            &&& lines[5] == "Duration: "@ + clock_text(bundle.replay.duration_ms)
            &&& lines[6] == "Entities: "@ + decimal(bundle.teams@.len()) + " teams, "@ + decimal(
                bundle.squads@.len(),
            ) + " squads, "@ + decimal(bundle.players@.len()) + " players"@
            &&& lines[7] == "Events: "@ + decimal(bundle.events.kills@.len()) + " kills, "@
                + decimal(bundle.events.deployments@.len()) + " deployments, "@ + decimal(
                bundle.events.seat_changes@.len(),
            ) + " seat changes, "@ + decimal(bundle.events.properties@.len()) + " property events"@
            &&& lines[8] == "Wrote:"@
        }),
{
}

/// The files that were written are told in the order of their formats, each with
/// its path, and no file that was not written is told.
pub proof fn law_written_files(written: WrittenOutputs)
    ensures
        ({
            let line = |path: Option<String>|
                match path {
                    Some(p) => seq!["  - "@ + p@],
                    None => Seq::empty(),
                };
            written_lines(written) == line(written.sqrt) + line(written.sqrj) + line(written.sqrb)
                + line(written.compat_json)
        }),
{
}

/// Lines are joined by a line break between each and the next.
pub proof fn law_joined_lines(lines: Seq<Seq<char>>, line: Seq<char>)
    ensures
        joined(Seq::empty()) == Seq::<char>::empty(),
        joined(seq![line]) == line,
        lines.len() > 0 ==> joined(lines.push(line)) == joined(lines) + "\n"@ + line,
{
    assert(lines.push(line).drop_last() =~= lines);
}

/// The formats are written in one order: the timeline, the text bundle and the
/// packed bundle.
pub proof fn law_order_of_formats(selection: OutputSelection, i: int, j: int)
    requires
        0 <= i < j < formats_of(selection).len(),
    ensures
        formats_of(selection)[j] != OutputFormat::Sqrt,
        formats_of(selection)[i] != OutputFormat::Sqrb,
{
}

/// The name of a file tells its format by its ending, ASCII case aside.
pub proof fn law_formats_of_names(name: Seq<char>)
    ensures
        ({
            let folded = ascii_folded(name);
            let packed = ends_with(folded, ".sqrb"@);
            let text = ends_with(folded, ".sqrj"@) || ends_with(folded, ".json"@);
            &&& packed ==> format_of_name(name) == Some(BundleFormat::Sqrb)
            &&& !packed && text ==> format_of_name(name) == Some(BundleFormat::Sqrj)
            &&& !packed && !text ==> format_of_name(name) is None
        }),
{
    reveal_strlit(".sqrj.json");
    reveal_strlit(".json");
    let folded = ascii_folded(name);
    if ends_with(folded, ".sqrj.json"@) {
        assert forall|k: int| 0 <= k < ".json"@.len() implies folded[folded.len() - 5 + k]
            == #[trigger] ".json"@[k] by {
            assert(folded[folded.len() - 10 + (k + 5)] == ".sqrj.json"@[k + 5]);
        }
        assert(ends_with(folded, ".json"@));
    }
}

// ---------------------------------------------------------------------------
// Searching and ordering
// ---------------------------------------------------------------------------

/// A part is found at the first index, from one on, at which it stands, and not
/// at all where it stands at none.
pub proof fn law_first_part(text: Seq<char>, part: Seq<char>, from: int)
    requires
        0 <= from,
    ensures
        match part_index_from(text, part, from) {
            Some(at) => {
                &&& from <= at
                &&& occurs_at(text, part, at)
                &&& forall|k: int| from <= k < at ==> !(#[trigger] occurs_at(text, part, k))
            },
            None => forall|k: int| from <= k ==> !(#[trigger] occurs_at(text, part, k)),
        },
    decreases text.len() - from,
{
    if from + part.len() <= text.len() && !occurs_at(text, part, from) {
        law_first_part(text, part, from + 1);
    }
}

/// What follows the last of a character is the rest of the text behind it, and
/// the character stands nowhere in it; a text without the character is whole.
pub proof fn law_after_last(text: Seq<char>, c: char)
    ensures
        !text.contains(c) ==> after_last(text, c) == text,
        text.contains(c) ==> exists|i: int|
            {
                &&& 0 <= i < text.len()
                &&& #[trigger] text[i] == c
                &&& after_last(text, c) == text.skip(i + 1)
                &&& forall|j: int| i < j < text.len() ==> #[trigger] text[j] != c
            },
{
    lemma_last_of(text, c);
}

/// The last index of a character is the last.
proof fn lemma_last_of(text: Seq<char>, c: char)
    ensures
        match last_index_of(text, c) {
            Some(i) => 0 <= i < text.len() && text[i] == c && forall|j: int|
                i < j < text.len() ==> #[trigger] text[j] != c,
            None => !text.contains(c),
        },
    decreases text.len(),
{
    if text.len() > 0 && text.last() != c {
        let front = text.drop_last();
        lemma_last_of(front, c);
        if text.contains(c) {
            let i = choose|i: int| 0 <= i < text.len() && text[i] == c;
            assert(front[i] == c);
            assert(front.contains(c));
        }
        if let Some(i) = last_index_of(front, c) {
            assert(text[i] == front[i]);
            assert forall|j: int| i < j < text.len() implies #[trigger] text[j] != c by {
                if j < front.len() {
                    assert(front[j] == text[j]);
                }
            }
        }
    } else if text.len() > 0 {
        assert(text[text.len() - 1] == c);
    }
}

/// The last name in a path is what follows its last dot; in a path without dots
/// what follows its last slash; and a path with neither is its own last name.
pub proof fn law_group_leaf(path: Seq<char>)
    ensures
        path.contains('.') ==> group_leaf(path) == after_last(path, '.'),
        !path.contains('.') && path.contains('/') ==> group_leaf(path) == after_last(path, '/'),
        !path.contains('.') && !path.contains('/') ==> group_leaf(path) == path,
{
    lemma_last_of(path, '.');
    lemma_last_of(path, '/');
}

/// The character is an ASCII letter or digit.
pub open spec fn is_letter_or_digit(c: char) -> bool {
    'a' <= c <= 'z' || 'A' <= c <= 'Z' || '0' <= c <= '9'
}

/// A text begins with a flag of some length: a capital letter, a digit, a hyphen,
/// and letters and digits, of which there is at least one and none more follows.
pub open spec fn begins_with_flag(text: Seq<char>, length: int) -> bool {
    &&& 4 <= length <= text.len()
    &&& 'A' <= text[0] <= 'Z'
    &&& '0' <= text[1] <= '9'
    &&& text[2] == '-'
    &&& forall|i: int| 3 <= i < length ==> is_letter_or_digit(#[trigger] text[i])
    &&& length < text.len() ==> !is_letter_or_digit(text[length])
}

/// How many letters and digits a text begins with.
proof fn lemma_run(text: Seq<char>)
    ensures
        alphanumeric_run(text) <= text.len(),
        forall|i: int| 0 <= i < alphanumeric_run(text) ==> is_letter_or_digit(#[trigger] text[i]),
        alphanumeric_run(text) < text.len() ==> !is_letter_or_digit(
            text[alphanumeric_run(text) as int],
        ),
    decreases text.len(),
{
    if text.len() > 0 && is_alphanumeric(text[0]) {
        let rest = text.skip(1);
        lemma_run(rest);
        assert forall|i: int| 0 <= i < alphanumeric_run(text) implies is_letter_or_digit(
            #[trigger] text[i],
        ) by {
            if i > 0 {
                assert(rest[i - 1] == text[i]);
            }
        }
        if alphanumeric_run(text) < text.len() {
            assert(rest[alphanumeric_run(rest) as int] == text[alphanumeric_run(text) as int]);
        }
    }
}

/// A path of an object in the scene names a flag where one stands behind the
/// first `PersistentLevel`, or at its start where it has none: its lane is the
/// letter, its number the digit, and its name the whole flag. No other path names
/// one.
pub proof fn law_flags_in_paths(path: Seq<char>, start: int)
    requires
        ({
            ||| occurs_at(path, "PersistentLevel"@, start - "PersistentLevel"@.len()) && forall|k: int|
                0 <= k < start - "PersistentLevel"@.len() ==> !(#[trigger] occurs_at(
                    path,
                    "PersistentLevel"@,
                    k,
                ))
            ||| start == 0 && !has_part(path, "PersistentLevel"@)
        }),
    ensures
        !has_part(path, "DefaultSceneRoot"@) ==> raas_flag(path) is None,
        (forall|length: int| !(#[trigger] begins_with_flag(path.skip(start), length))) ==> raas_flag(
            path,
        ) is None,
        forall|length: int|
            has_part(path, "DefaultSceneRoot"@) && #[trigger] begins_with_flag(
                path.skip(start),
                length,
            ) ==> match raas_flag(path) {
                Some((lane, number, name)) => {
                    &&& lane == path[start]
                    &&& number == path[start + 1] as int - '0' as int
                    &&& name == path.subrange(start, start + length)
                },
                None => false,
            },
{
    let text = path.skip(start);
    law_first_part(path, "PersistentLevel"@, 0);
    let found = part_index_from(path, "PersistentLevel"@, 0);
    assert(after_level(path) =~= text) by {
        match found {
            Some(i) => {
                if !has_part(path, "PersistentLevel"@) {
                    assert(occurs_at(path, "PersistentLevel"@, i));
                }
            },
            None => {},
        }
    }
    if text.len() >= 4 {
        let tail = text.skip(3);
        let run = alphanumeric_run(tail) as int;
        lemma_run(tail);
        if lane_flag(text) is Some {
            assert(begins_with_flag(text, 3 + run)) by {
                assert forall|i: int| 3 <= i < 3 + run implies is_letter_or_digit(
                    #[trigger] text[i],
                ) by {
                    assert(tail[i - 3] == text[i]);
                }
                if 3 + run < text.len() {
                    assert(tail[run] == text[3 + run]);
                }
            }
        }
        assert forall|length: int| #[trigger] begins_with_flag(text, length) implies length == 3
            + run by {
            if length < 3 + run {
                assert(tail[length - 3] == text[length]);
            } else if length > 3 + run {
                assert(tail[run] == text[3 + run]);
            }
        }
        assert forall|length: int|
            has_part(path, "DefaultSceneRoot"@) && #[trigger] begins_with_flag(
                path.skip(start),
                length,
            ) implies match raas_flag(path) {
            Some((lane, number, name)) => {
                &&& lane == path[start]
                &&& number == path[start + 1] as int - '0' as int
                &&& name == path.subrange(start, start + length)
            },
            None => false,
        } by {
            assert(text[0] == path[start] && text[1] == path[start + 1]);
            assert(text.take(length) =~= path.subrange(start, start + length));
        }
    }
}

/// The ASCII letters in upper case become those in lower case, in their order,
/// and no other character changes.
pub proof fn law_folding(text: Seq<char>)
    ensures
        ascii_folded(text).len() == text.len(),
        forall|i: int|
            0 <= i < text.len() ==> {
                let c = #[trigger] text[i];
                let folded = ascii_folded(text)[i];
                &&& 'A' <= c <= 'Z' ==> folded as int - 'a' as int == c as int - 'A' as int
                &&& !('A' <= c <= 'Z') ==> folded == c
            },
{
}

/// Texts stand in the order of their first characters that differ, and a text
/// stands before those that begin with it and are longer.
pub proof fn law_order_of_texts(a: Seq<char>, b: Seq<char>, n: int)
    requires
        0 <= n <= a.len(),
        n <= b.len(),
        forall|i: int| 0 <= i < n ==> #[trigger] a[i] == b[i],
        n < a.len() && n < b.len() ==> a[n] != b[n],
    ensures
        text_before(a, b) <==> n < b.len() && (n == a.len() || a[n] < b[n]),
    decreases n,
{
    if n > 0 {
        assert(a[0] == b[0]);
        let x = a.skip(1);
        let y = b.skip(1);
        assert forall|i: int| 0 <= i < n - 1 implies #[trigger] x[i] == y[i] by {
            assert(a[i + 1] == b[i + 1]);
        }
        law_order_of_texts(x, y, n - 1);
    }
}

} // verus!
