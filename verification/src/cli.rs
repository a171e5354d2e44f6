//! What the command line decides and says: which outputs are asked for, which
//! format a file has, and the texts that are printed.

use crate::bundle::Bundle;
use crate::text::{
    ascii_folded, ascii_lower, chars_end_with, chars_of, decimal, decimal_text, ends_with,
    folded_chars, lower_char, opt_text, piece_views, pieces_of, same_text, split_chars, trim_chars,
    trimmed,
};
use vstd::prelude::*;
use vstd::string::*;

verus! {

// ---------------------------------------------------------------------------
// Formats
// ---------------------------------------------------------------------------

/// A format that a parsed replay can be written in.
#[derive(Debug, Clone, Copy, PartialEq, Eq, Structural)]
pub enum OutputFormat {
    Sqrt,
    Sqrj,
    Sqrb,
}

/// The formats that are asked for.
#[derive(Debug, Clone, Copy, Default, PartialEq, Eq, Structural)]
pub struct OutputSelection {
    pub sqrt: bool,
    pub sqrj: bool,
    pub sqrb: bool,
}

/// The names in a list with commas, without white space around them and in
/// lower case.
pub open spec fn names_in(input: Seq<char>) -> Seq<Seq<char>> {
    pieces_of(input, seq![',']).map_values(|piece: Seq<char>| ascii_folded(trimmed(piece)))
}

/// The name is one of a format, or no name at all.
pub open spec fn is_format_name(name: Seq<char>) -> bool {
    name.len() == 0 || name == "sqrt"@ || name == "sqrj"@ || name == "sqrb"@
}

/// The text about a name that is none of a format.
pub open spec fn unsupported_format(name: Seq<char>) -> Seq<char> {
    "unsupported format `"@ + name + "`"@
}

/// The characters with the ASCII letters in lower case.
fn fold_chars(chars: &Vec<char>) -> (folded: String)
    ensures
        folded@ == ascii_folded(chars@),
{
    let mut folded = String::new();
    let mut i: usize = 0;
    assert(folded@ =~= ascii_folded(chars@.take(0)));
    while i < chars.len()
        invariant
            i <= chars@.len(),
            folded@ == ascii_folded(chars@.take(i as int)),
        decreases chars@.len() - i,
    {
        folded.push(lower_char(chars[i]));
        assert(ascii_folded(chars@.take(i + 1)) =~= ascii_folded(chars@.take(i as int)).push(
            ascii_lower(chars@[i as int]),
        ));
        i += 1;
    }
    assert(chars@.take(i as int) =~= chars@);
    folded
}

impl OutputSelection {
    /// Reads a list of formats with commas. The first name that is none of a
    /// format is an error, and so is a list without a format.
    pub fn parse_csv(input: &str) -> (selection: Result<Self, String>)
        ensures
            match selection {
                Ok(s) => {
                    let names = names_in(input@);
                    &&& forall|i: int|
                        0 <= i < names.len() ==> is_format_name(#[trigger] names[i])
                    &&& s.sqrt == names.contains("sqrt"@)
                    &&& s.sqrj == names.contains("sqrj"@)
                    &&& s.sqrb == names.contains("sqrb"@)
                    &&& s.sqrt || s.sqrj || s.sqrb
                },
                Err(text) => {
                    let names = names_in(input@);
                    ||| exists|i: int|
                        {
                            &&& 0 <= i < names.len()
                            &&& !is_format_name(#[trigger] names[i])
                            &&& forall|j: int| 0 <= j < i ==> is_format_name(#[trigger] names[j])
                            &&& text@ == unsupported_format(names[i])
                        }
                    ||| {
                        &&& forall|i: int|
                            0 <= i < names.len() ==> is_format_name(#[trigger] names[i])
                        &&& !names.contains("sqrt"@)
                        &&& !names.contains("sqrj"@)
                        &&& !names.contains("sqrb"@)
                        &&& text@ == "at least one format must be selected"@
                    }
                },
            },
    {
        proof {
            reveal_strlit("sqrt");
            reveal_strlit("sqrj");
            reveal_strlit("sqrb");
            assert("sqrt"@[3] == 't' && "sqrj"@[3] == 'j' && "sqrb"@[3] == 'b');
        }
        let separators: Vec<char> = vec![','];
        assert(separators@ =~= seq![',']);
        let pieces = split_chars(&chars_of(input), &separators);
        let ghost names = names_in(input@);
        assert(names.len() == pieces@.len());
        let mut out = OutputSelection { sqrt: false, sqrj: false, sqrb: false };
        let mut i: usize = 0;
        while i < pieces.len()
            invariant
                i <= pieces@.len(),
                names == names_in(input@),
                names.len() == pieces@.len(),
                piece_views(pieces@) == pieces_of(input@, seq![',']),
                "sqrt"@ != "sqrj"@,
                "sqrt"@ != "sqrb"@,
                "sqrj"@ != "sqrb"@,
                "sqrt"@.len() == 4,
                "sqrj"@.len() == 4,
                "sqrb"@.len() == 4,
                forall|k: int| 0 <= k < i ==> is_format_name(#[trigger] names[k]),
                out.sqrt == names.take(i as int).contains("sqrt"@),
                out.sqrj == names.take(i as int).contains("sqrj"@),
                out.sqrb == names.take(i as int).contains("sqrb"@),
            decreases pieces@.len() - i,
        {
            let name = fold_chars(&trim_chars(&pieces[i]));
            assert(pieces_of(input@, seq![','])[i as int] == pieces@[i as int]@);
            assert(name@ == names[i as int]);
            proof {
                lemma_contains_next(names, i as int, "sqrt"@);
                lemma_contains_next(names, i as int, "sqrj"@);
                lemma_contains_next(names, i as int, "sqrb"@);
            }
            if chars_of(&name).len() == 0 {
            } else if same_text(&name, "sqrt") {
                out.sqrt = true;
            } else if same_text(&name, "sqrj") {
                out.sqrj = true;
            } else if same_text(&name, "sqrb") {
                out.sqrb = true;
            } else {
                let text = "unsupported format `".to_owned().concat(&name).concat("`");
                return Err(text);
            }
            i += 1;
        }
        assert(names.take(i as int) =~= names);
        if !out.sqrt && !out.sqrj && !out.sqrb {
            return Err("at least one format must be selected".to_owned());
        }
        Ok(out)
    }

    /// The formats that are asked for, in the order in which they are written.
    pub fn iter(&self) -> (formats: Vec<OutputFormat>)
        ensures
            formats@ == formats_of(*self),
    {
        let mut formats: Vec<OutputFormat> = Vec::new();
        if self.sqrt {
            formats.push(OutputFormat::Sqrt);
        }
        if self.sqrj {
            formats.push(OutputFormat::Sqrj);
        }
        if self.sqrb {
            formats.push(OutputFormat::Sqrb);
        }
        assert(formats@ =~= formats_of(*self));
        formats
    }
}

/// One format, if it is asked for.
pub open spec fn if_asked(asked: bool, format: OutputFormat) -> Seq<OutputFormat> {
    if asked {
        seq![format]
    } else {
        Seq::empty()
    }
}

/// The formats that are asked for.
pub open spec fn formats_of(selection: OutputSelection) -> Seq<OutputFormat> {
    if_asked(selection.sqrt, OutputFormat::Sqrt) + if_asked(selection.sqrj, OutputFormat::Sqrj)
        + if_asked(selection.sqrb, OutputFormat::Sqrb)
}

/// Every format that is asked for is written once, and no other.
pub proof fn law_formats_once(selection: OutputSelection)
    ensures
        formats_of(selection).no_duplicates(),
        formats_of(selection).contains(OutputFormat::Sqrt) == selection.sqrt,
        formats_of(selection).contains(OutputFormat::Sqrj) == selection.sqrj,
        formats_of(selection).contains(OutputFormat::Sqrb) == selection.sqrb,
{
    let sqrt = if_asked(selection.sqrt, OutputFormat::Sqrt);
    let sqrj = if_asked(selection.sqrj, OutputFormat::Sqrj);
    let formats = formats_of(selection);
    if selection.sqrt {
        assert(formats[0] == OutputFormat::Sqrt);
    }
    if selection.sqrj {
        assert(formats[sqrt.len() as int] == OutputFormat::Sqrj);
    }
    if selection.sqrb {
        assert(formats[(sqrt.len() + sqrj.len()) as int] == OutputFormat::Sqrb);
    }
}

/// Whether a name is among the first ones and the next.
proof fn lemma_contains_next(names: Seq<Seq<char>>, i: int, name: Seq<char>)
    requires
        0 <= i < names.len(),
    ensures
        names.take(i + 1).contains(name) == (names.take(i).contains(name) || names[i] == name),
{
    if names.take(i).contains(name) {
        let k = choose|k: int| 0 <= k < i && names.take(i)[k] == name;
        assert(names.take(i + 1)[k] == name);
    }
    if names[i] == name {
        assert(names.take(i + 1)[i] == name);
    }
    if names.take(i + 1).contains(name) {
        let next = names.take(i + 1);
        let k = choose|k: int| 0 <= k < next.len() && next[k] == name;
        if k < i {
            assert(names.take(i)[k] == name);
        }
    }
}

/// The format of a bundle file.
#[derive(Debug, Clone, Copy, PartialEq, Eq, Structural)]
pub enum BundleFormat {
    Sqrj,
    Sqrb,
}

/// The format that the name of a file tells, ASCII case aside.
pub open spec fn format_of_name(name: Seq<char>) -> Option<BundleFormat> {
    let folded = ascii_folded(name);
    if ends_with(folded, ".sqrb"@) {
        Some(BundleFormat::Sqrb)
    } else if ends_with(folded, ".sqrj"@) || ends_with(folded, ".sqrj.json"@) || ends_with(
        folded,
        ".json"@,
    ) {
        Some(BundleFormat::Sqrj)
    } else {
        None
    }
}

/// The format that the name of a file tells, if it tells one.
pub fn bundle_format(name: &str) -> (format: Option<BundleFormat>)
    ensures
        format == format_of_name(name@),
{
    let folded = folded_chars(name);
    if chars_end_with(&folded, &chars_of(".sqrb")) {
        Some(BundleFormat::Sqrb)
    } else if chars_end_with(&folded, &chars_of(".sqrj")) || chars_end_with(
        &folded,
        &chars_of(".sqrj.json"),
    ) || chars_end_with(&folded, &chars_of(".json")) {
        Some(BundleFormat::Sqrj)
    } else {
        None
    }
}

// ---------------------------------------------------------------------------
// The summary of a bundle
// ---------------------------------------------------------------------------

/// The counts of a bundle.
#[derive(Debug, Clone)]
pub struct BundleSummary<'a> {
    pub input: &'a str,
    pub map_name: Option<&'a str>,
    pub squad_version: Option<&'a str>,
    pub duration_ms: u64,
    pub teams: usize,
    pub squads: usize,
    pub players: usize,
    pub vehicles: usize,
    pub helicopters: usize,
    pub deployables: usize,
    pub components: usize,
    pub player_tracks: usize,
    pub vehicle_tracks: usize,
    pub helicopter_tracks: usize,
    pub kills: usize,
    pub deployments: usize,
    pub seat_changes: usize,
    pub component_states: usize,
    pub vehicle_states: usize,
    pub weapon_states: usize,
    pub property_events: usize,
    pub frames_processed: u64,
    pub packets_processed: u64,
    pub actor_opens: u64,
}

/// The characters of an optional text.
pub open spec fn str_text(text: Option<&str>) -> Option<Seq<char>> {
    match text {
        Some(t) => Some(t@),
        None => None,
    }
}

/// The counts are those of a bundle.
pub open spec fn summarizes(summary: BundleSummary, input: Seq<char>, bundle: Bundle) -> bool {
    &&& summary.input@ == input
    &&& str_text(summary.map_name) == opt_text(bundle.replay.map_name)
    &&& str_text(summary.squad_version) == opt_text(bundle.replay.squad_version)
    &&& summary.duration_ms == bundle.replay.duration_ms
    &&& summary.teams == bundle.teams@.len()
    &&& summary.squads == bundle.squads@.len()
    &&& summary.players == bundle.players@.len()
    &&& summary.vehicles == bundle.actors.vehicles@.len()
    &&& summary.helicopters == bundle.actors.helicopters@.len()
    &&& summary.deployables == bundle.actors.deployables@.len()
    &&& summary.components == bundle.actors.components@.len()
    &&& summary.player_tracks == bundle.tracks.players@.len()
    &&& summary.vehicle_tracks == bundle.tracks.vehicles@.len()
    &&& summary.helicopter_tracks == bundle.tracks.helicopters@.len()
    &&& summary.kills == bundle.events.kills@.len()
    &&& summary.deployments == bundle.events.deployments@.len()
    &&& summary.seat_changes == bundle.events.seat_changes@.len()
    &&& summary.component_states == bundle.events.component_states@.len()
    &&& summary.vehicle_states == bundle.events.vehicle_states@.len()
    &&& summary.weapon_states == bundle.events.weapon_states@.len()
    &&& summary.property_events == bundle.events.properties@.len()
    &&& summary.frames_processed == bundle.diagnostics.frames_processed
    &&& summary.packets_processed == bundle.diagnostics.packets_processed
    &&& summary.actor_opens == bundle.diagnostics.actor_opens
}

/// An optional text, borrowed.
fn borrowed<'a>(text: &'a Option<String>) -> (borrow: Option<&'a str>)
    ensures
        str_text(borrow) == opt_text(*text),
{
    match text {
        Some(t) => Some(t.as_str()),
        None => None,
    }
}

/// The counts of a bundle that was read from some input.
pub fn summarize<'a>(input: &'a str, bundle: &'a Bundle) -> (summary: BundleSummary<'a>)
    ensures
        summarizes(summary, input@, *bundle),
{
    BundleSummary {
        input,
        map_name: borrowed(&bundle.replay.map_name),
        squad_version: borrowed(&bundle.replay.squad_version),
        duration_ms: bundle.replay.duration_ms,
        teams: bundle.teams.len(),
        squads: bundle.squads.len(),
        players: bundle.players.len(),
        vehicles: bundle.actors.vehicles.len(),
        helicopters: bundle.actors.helicopters.len(),
        deployables: bundle.actors.deployables.len(),
        components: bundle.actors.components.len(),
        player_tracks: bundle.tracks.players.len(),
        vehicle_tracks: bundle.tracks.vehicles.len(),
        helicopter_tracks: bundle.tracks.helicopters.len(),
        kills: bundle.events.kills.len(),
        deployments: bundle.events.deployments.len(),
        seat_changes: bundle.events.seat_changes.len(),
        component_states: bundle.events.component_states.len(),
        vehicle_states: bundle.events.vehicle_states.len(),
        weapon_states: bundle.events.weapon_states.len(),
        property_events: bundle.events.properties.len(),
        frames_processed: bundle.diagnostics.frames_processed,
        packets_processed: bundle.diagnostics.packets_processed,
        actor_opens: bundle.diagnostics.actor_opens,
    }
}

// ---------------------------------------------------------------------------
// Texts
// ---------------------------------------------------------------------------

/// A text, or that it is not known.
pub open spec fn known_text(text: Option<Seq<char>>) -> Seq<char> {
    match text {
        Some(t) => t,
        None => "unknown"@,
    }
}

/// A number of less than a hundred with two digits.
pub open spec fn two_digits(n: nat) -> Seq<char> {
    if n < 10 {
        "0"@ + decimal(n)
    } else {
        decimal(n)
    }
}

/// A duration as a clock shows it: hours, if there are any, minutes and
/// seconds.
pub open spec fn clock_text(duration_ms: u64) -> Seq<char> {
    let total = (duration_ms / 1000) as nat;
    let hours = total / 3600;
    let minutes = (total % 3600) / 60;
    let seconds = total % 60;
    if hours > 0 {
        decimal(hours) + ":"@ + two_digits(minutes) + ":"@ + two_digits(seconds)
    } else {
        decimal(minutes) + ":"@ + two_digits(seconds)
    }
}

/// A text, or that it is not known.
pub fn option_text<'a>(value: Option<&'a str>) -> (text: &'a str)
    ensures
        text@ == known_text(str_text(value)),
{
    match value {
        Some(text) => text,
        None => "unknown",
    }
}

/// A number of less than a hundred with two digits.
fn pad_two(n: u64) -> (text: String)
    ensures
        text@ == two_digits(n as nat),
{
    if n < 10 {
        "0".to_owned().concat(&decimal_text(n))
    } else {
        decimal_text(n)
    }
}

/// A duration as a clock shows it.
pub fn format_duration(duration_ms: u64) -> (text: String)
    ensures
        text@ == clock_text(duration_ms),
{
    let total: u64 = duration_ms / 1000;
    let hours: u64 = total / 3600;
    let minutes: u64 = (total % 3600) / 60;
    let seconds: u64 = total % 60;
    if hours > 0 {
        decimal_text(hours).concat(":").concat(&pad_two(minutes)).concat(":").concat(
            &pad_two(seconds),
        )
    } else {
        decimal_text(minutes).concat(":").concat(&pad_two(seconds))
    }
}

/// Lines with a line break between them.
pub open spec fn joined(lines: Seq<Seq<char>>) -> Seq<char>
    decreases lines.len(),
{
    if lines.len() == 0 {
        Seq::empty()
    } else if lines.len() == 1 {
        lines[0]
    } else {
        joined(lines.drop_last()) + "\n"@ + lines.last()
    }
}

/// The texts of a list.
pub open spec fn line_views(lines: Seq<String>) -> Seq<Seq<char>> {
    lines.map_values(|line: String| line@)
}

/// Joins lines with a line break between them.
pub fn join_lines(lines: &Vec<String>) -> (text: String)
    ensures
        text@ == joined(line_views(lines@)),
{
    let ghost all = line_views(lines@);
    if lines.len() == 0 {
        let text = String::new();
        assert(text@ =~= joined(all));
        return text;
    }
    let mut text: String = lines[0].clone();
    let mut i: usize = 1;
    assert(all.take(1)[0] == text@);
    while i < lines.len()
        invariant
            1 <= i <= lines@.len(),
            all == line_views(lines@),
            text@ == joined(all.take(i as int)),
        decreases lines@.len() - i,
    {
        assert(all.take(i + 1).drop_last() =~= all.take(i as int));
        assert(all.take(i + 1).last() == lines@[i as int]@);
        text = text.concat("\n").concat(&lines[i]);
        i += 1;
    }
    assert(all.take(i as int) =~= all);
    text
}

/// The line about the map.
pub open spec fn map_line(map_name: Option<Seq<char>>) -> Seq<char> {
    "Map: "@ + known_text(map_name)
}

/// The line about the version.
pub open spec fn version_line(version: Option<Seq<char>>) -> Seq<char> {
    "Squad version: "@ + known_text(version)
}

/// The line about the duration.
pub open spec fn duration_line(duration_ms: u64) -> Seq<char> {
    "Duration: "@ + clock_text(duration_ms)
}

/// The line about teams, squads and players.
pub open spec fn entities_line(teams: nat, squads: nat, players: nat) -> Seq<char> {
    "Entities: "@ + decimal(teams) + " teams, "@ + decimal(squads) + " squads, "@ + decimal(players)
        + " players"@
}

/// The line about actors.
pub open spec fn actors_line(
    vehicles: nat,
    helicopters: nat,
    deployables: nat,
    components: nat,
) -> Seq<char> {
    "Actors: "@ + decimal(vehicles) + " vehicles, "@ + decimal(helicopters) + " helicopters, "@
        + decimal(deployables) + " deployables, "@ + decimal(components) + " components"@
}

/// The line about tracks.
pub open spec fn tracks_line(players: nat, vehicles: nat, helicopters: nat) -> Seq<char> {
    "Tracks: "@ + decimal(players) + " player, "@ + decimal(vehicles) + " vehicle, "@ + decimal(
        helicopters,
    ) + " helicopter"@
}

/// The line about events.
pub open spec fn events_line(
    kills: nat,
    deployments: nat,
    seat_changes: nat,
    properties: nat,
) -> Seq<char> {
    "Events: "@ + decimal(kills) + " kills, "@ + decimal(deployments) + " deployments, "@ + decimal(
        seat_changes,
    ) + " seat changes, "@ + decimal(properties) + " property events"@
}

/// The line about what was processed.
pub open spec fn diagnostics_line(frames: nat, packets: nat, opens: nat) -> Seq<char> {
    "Diagnostics: "@ + decimal(frames) + " frames, "@ + decimal(packets) + " packets, "@ + decimal(
        opens,
    ) + " actor opens"@
}

/// The lines of a summary.
pub open spec fn summary_lines(title: Seq<char>, summary: BundleSummary) -> Seq<Seq<char>> {
    seq![
        title,
        "Input: "@ + summary.input@,
        map_line(str_text(summary.map_name)),
        version_line(str_text(summary.squad_version)),
        duration_line(summary.duration_ms),
        entities_line(summary.teams as nat, summary.squads as nat, summary.players as nat),
        actors_line(
            summary.vehicles as nat,
            summary.helicopters as nat,
            summary.deployables as nat,
            summary.components as nat,
        ),
        tracks_line(
            summary.player_tracks as nat,
            summary.vehicle_tracks as nat,
            summary.helicopter_tracks as nat,
        ),
        events_line(
            summary.kills as nat,
            summary.deployments as nat,
            summary.seat_changes as nat,
            summary.property_events as nat,
        ),
        diagnostics_line(
            summary.frames_processed as nat,
            summary.packets_processed as nat,
            summary.actor_opens as nat,
        ),
    ]
}

/// A label and a text.
fn labelled(label: &str, text: &str) -> (line: String)
    ensures
        line@ == label@ + text@,
{
    label.to_owned().concat(text)
}

/// The line about teams, squads and players.
fn entities_text(summary: &BundleSummary) -> (line: String)
    ensures
        line@ == entities_line(summary.teams as nat, summary.squads as nat, summary.players as nat),
{
    "Entities: ".to_owned().concat(&decimal_text(summary.teams as u64)).concat(" teams, ").concat(
        &decimal_text(summary.squads as u64),
    ).concat(" squads, ").concat(&decimal_text(summary.players as u64)).concat(" players")
}

/// The line about events.
fn events_text(summary: &BundleSummary) -> (line: String)
    ensures
        line@ == events_line(
            summary.kills as nat,
            summary.deployments as nat,
            summary.seat_changes as nat,
            summary.property_events as nat,
        ),
{
    "Events: ".to_owned().concat(&decimal_text(summary.kills as u64)).concat(" kills, ").concat(
        &decimal_text(summary.deployments as u64),
    ).concat(" deployments, ").concat(&decimal_text(summary.seat_changes as u64)).concat(
        " seat changes, ",
    ).concat(&decimal_text(summary.property_events as u64)).concat(" property events")
}

/// The summary of a bundle as text.
pub fn render_summary_text(title: &str, summary: &BundleSummary) -> (text: String)
    ensures
        text@ == joined(summary_lines(title@, *summary)),
{
    let actors = "Actors: ".to_owned().concat(&decimal_text(summary.vehicles as u64)).concat(
        " vehicles, ",
    ).concat(&decimal_text(summary.helicopters as u64)).concat(" helicopters, ").concat(
        &decimal_text(summary.deployables as u64),
    ).concat(" deployables, ").concat(&decimal_text(summary.components as u64)).concat(
        " components",
    );
    let tracks = "Tracks: ".to_owned().concat(&decimal_text(summary.player_tracks as u64)).concat(
        " player, ",
    ).concat(&decimal_text(summary.vehicle_tracks as u64)).concat(" vehicle, ").concat(
        &decimal_text(summary.helicopter_tracks as u64),
    ).concat(" helicopter");
    let diagnostics = "Diagnostics: ".to_owned().concat(
        &decimal_text(summary.frames_processed),
    ).concat(" frames, ").concat(&decimal_text(summary.packets_processed)).concat(
        " packets, ",
    ).concat(&decimal_text(summary.actor_opens)).concat(" actor opens");
    let mut lines: Vec<String> = Vec::new();
    lines.push(title.to_owned());
    lines.push(labelled("Input: ", summary.input));
    lines.push(labelled("Map: ", option_text(summary.map_name)));
    lines.push(labelled("Squad version: ", option_text(summary.squad_version)));
    lines.push(labelled("Duration: ", &format_duration(summary.duration_ms)));
    lines.push(entities_text(summary));
    lines.push(actors);
    lines.push(tracks);
    lines.push(events_text(summary));
    lines.push(diagnostics);
    assert(line_views(lines@) =~= summary_lines(title@, *summary));
    join_lines(&lines)
}

/// The paths of the files that were written, as text.
#[derive(Debug, Clone, Default)]
pub struct WrittenOutputs {
    pub sqrt: Option<String>,
    pub sqrj: Option<String>,
    pub sqrb: Option<String>,
    pub compat_json: Option<String>,
}

/// The line about a file that was written, if it was.
pub open spec fn written_line(path: Option<String>) -> Seq<Seq<char>> {
    match path {
        Some(p) => seq!["  - "@ + p@],
        None => Seq::empty(),
    }
}

/// The lines about the files that were written.
pub open spec fn written_lines(written: WrittenOutputs) -> Seq<Seq<char>> {
    written_line(written.sqrt) + written_line(written.sqrj) + written_line(written.sqrb)
        + written_line(written.compat_json)
}

/// Puts the line about a file that was written behind others.
fn push_written(lines: &mut Vec<String>, path: &Option<String>)
    ensures
        line_views(final(lines)@) == line_views(old(lines)@) + written_line(*path),
{
    let ghost before = line_views(lines@);
    if let Some(p) = path {
        let line = labelled("  - ", p);
        let ghost text = line@;
        lines.push(line);
        assert(line_views(lines@) =~= before.push(text));
    }
    assert(line_views(lines@) =~= before + written_line(*path));
}

/// The lines about the files that were written.
pub fn render_written_outputs(written: &WrittenOutputs) -> (lines: Vec<String>)
    ensures
        line_views(lines@) == written_lines(*written),
{
    let mut lines: Vec<String> = Vec::new();
    assert(line_views(lines@) =~= Seq::empty());
    push_written(&mut lines, &written.sqrt);
    push_written(&mut lines, &written.sqrj);
    push_written(&mut lines, &written.sqrb);
    push_written(&mut lines, &written.compat_json);
    assert(line_views(lines@) =~= written_lines(*written));
    lines
}

/// The lines about a replay that was converted, but for the files.
pub open spec fn parse_lines(input: Seq<char>, output_base: Seq<char>, bundle: Bundle) -> Seq<
    Seq<char>,
> {
    seq![
        "Replay converted"@,
        "Input: "@ + input,
        "Output base: "@ + output_base,
        map_line(opt_text(bundle.replay.map_name)),
        version_line(opt_text(bundle.replay.squad_version)),
        duration_line(bundle.replay.duration_ms),
        entities_line(bundle.teams@.len(), bundle.squads@.len(), bundle.players@.len()),
        events_line(
            bundle.events.kills@.len(),
            bundle.events.deployments@.len(),
            bundle.events.seat_changes@.len(),
            bundle.events.properties@.len(),
        ),
        "Wrote:"@,
    ]
}

/// The text about a replay that was converted.
pub fn render_parse_text(
    input: &str,
    output_base: &str,
    written: &WrittenOutputs,
    bundle: &Bundle,
) -> (text: String)
    ensures
        text@ == joined(parse_lines(input@, output_base@, *bundle) + written_lines(*written)),
{
    let summary = summarize(input, bundle);
    let mut lines: Vec<String> = Vec::new();
    lines.push("Replay converted".to_owned());
    lines.push(labelled("Input: ", input));
    lines.push(labelled("Output base: ", output_base));
    lines.push(labelled("Map: ", option_text(summary.map_name)));
    lines.push(labelled("Squad version: ", option_text(summary.squad_version)));
    lines.push(labelled("Duration: ", &format_duration(summary.duration_ms)));
    lines.push(entities_text(&summary));
    lines.push(events_text(&summary));
    lines.push("Wrote:".to_owned());
    let ghost head = line_views(lines@);
    assert(head =~= parse_lines(input@, output_base@, *bundle));
    let mut files = render_written_outputs(written);
    let ghost tail = line_views(files@);
    lines.append(&mut files);
    assert(line_views(lines@) =~= head + tail);
    join_lines(&lines)
}

/// The text about a bundle that was unpacked.
pub fn render_unpack_text(input: &str, output: &str) -> (text: String)
    ensures
        text@ == joined(
            seq!["Bundle unpacked"@, "Input: "@ + input@, "Output directory: "@ + output@],
        ),
{
    let mut lines: Vec<String> = Vec::new();
    lines.push("Bundle unpacked".to_owned());
    lines.push(labelled("Input: ", input));
    lines.push(labelled("Output directory: ", output));
    assert(line_views(lines@) =~= seq![
        "Bundle unpacked"@,
        "Input: "@ + input@,
        "Output directory: "@ + output@,
    ]);
    join_lines(&lines)
}

/// The text about a file whose name tells no format.
pub fn unknown_format_text(path: &str) -> (text: String)
    ensures
        text@ == "cannot infer bundle format from `"@ + path@
            + "`; expected .sqrb or .sqrj.json"@,
{
    "cannot infer bundle format from `".to_owned().concat(path).concat(
        "`; expected .sqrb or .sqrj.json",
    )
}

/// The minutes and the seconds of a clock are below 60, and the parts of it
/// make up the duration in seconds.
pub proof fn law_clock(duration_ms: u64)
    ensures
        ({
            let total = duration_ms as int / 1000;
            let hours = total / 3600;
            let minutes = (total % 3600) / 60;
            let seconds = total % 60;
            &&& 0 <= minutes < 60
            &&& 0 <= seconds < 60
            &&& hours * 3600 + minutes * 60 + seconds == total
        }),
{
}

/// A file that is written in a format is read in that format.
pub proof fn law_written_names(base: Seq<char>)
    ensures
        format_of_name(base + ".sqrb"@) == Some(BundleFormat::Sqrb),
        format_of_name(base + ".sqrj.json"@) == Some(BundleFormat::Sqrj),
{
    reveal_strlit(".sqrb");
    reveal_strlit(".sqrj");
    reveal_strlit(".json");
    reveal_strlit(".sqrj.json");
    let b = ascii_folded(base + ".sqrb"@);
    assert(ends_with(b, ".sqrb"@)) by {
        assert forall|k: int| 0 <= k < ".sqrb"@.len() implies b[b.len() - 5 + k]
            == #[trigger] ".sqrb"@[k] by {}
    }
    let j = ascii_folded(base + ".sqrj.json"@);
    assert(ends_with(j, ".sqrj.json"@)) by {
        assert forall|k: int| 0 <= k < ".sqrj.json"@.len() implies j[j.len() - 10 + k]
            == #[trigger] ".sqrj.json"@[k] by {}
    }
    assert(!ends_with(j, ".sqrb"@)) by {
        assert(j[j.len() - 1] == 'n');
        assert(".sqrb"@[4] == 'b');
    }
}

} // verus!
