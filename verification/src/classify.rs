//! Classification of Unreal class names and object paths.

use crate::text::{
    ascii_folded, begins_with, chars_have_part, chars_of, digit, find_part, folded_chars,
    folded_contains_any, has_part, has_part_ignoring_case, last_index_of,
    names_any_ignoring_case, occurs_at, part_index_from, rfind_char, stands_at, string_of,
};
use vstd::prelude::*;
use vstd::string::*;

verus! {

// ---------------------------------------------------------------------------
// The names
// ---------------------------------------------------------------------------

/// What the class name of a helicopter mentions.
pub const HELICOPTER_NAMES: [&'static str; 28] = [
    "loach",
    "uh1",
    "uh-1",
    "uh60",
    "uh-60",
    "blackhawk",
    "black hawk",
    "mi8",
    "mi-8",
    "mi17",
    "mi-17",
    "ch146",
    "ch-146",
    "ch178",
    "ch-178",
    "griffon",
    "raven",
    "mrh90",
    "mrh-90",
    "sa330",
    "sa-330",
    "puma",
    "z8",
    "z-8",
    "z9",
    "z-9",
    "helicopter",
    "heli",
];

/// What the class name of a part of a deployable, or of a tool, mentions.
pub const NOT_PRIMARY_NAMES: [&'static str; 4] = [
    "sqdeployablechildactor_gen_variable",
    "weapon",
    "baseplate",
    "repairtool",
];

/// What the class name of a deployable mentions.
pub const DEPLOYABLE_NAMES: [&'static str; 16] = [
    "fobradio",
    "_hab_",
    "hab_",
    "ammocrate",
    "vehicle_repair",
    "rallypoint",
    "_deployable",
    "_tripod",
    "dshk",
    "kord_tripod",
    "kornet_tripod",
    "spg9_tripod",
    "hj-8atgm_deployable",
    "hj-8atgm_tripod",
    "mk19_tripod",
    "zu-23_emplacement",
];

/// What the class name of a part of a vehicle mentions.
pub const VEHICLE_PART_NAMES: [&'static str; 20] = [
    "seat",
    "turret",
    "passenger",
    "weapon",
    "ammowep",
    "smokegenerator",
    "resourceweapon",
    "projectile",
    "commander",
    "cupola",
    "doorgun",
    "doorgun",
    "launcher",
    "destruction",
    "turret1",
    "turret2",
    "turret3",
    "cmdr",
    "pintle",
    "commander_turret",
];

/// What the class name of a vehicle mentions.
pub const VEHICLE_NAMES: [&'static str; 104] = [
    // Main battle tanks
    "m1a1",  // US M1A1 Abrams
    "m1a2",  // US M1A2 Abrams
    "abrams",  // US Abrams (general)
    "t72",  // Russian T-72 variants
    "t62",  // Russian T-62
    "t64",  // Ukrainian T-64BM2
    "t90",  // Russian T-90A
    "fv4034",  // British Challenger 2
    "challenger",  // British Challenger
    "leopard",  // German Leopard 2A6M
    "m60",  // Turkish M60T
    "ztz99",  // Chinese ZTZ99A
    // Mobile gun systems
    "m1128",  // US M1128 Stryker MGS
    "sprut",  // Russian Sprut-SDM1
    "ztd05",  // Chinese ZTD05
    // Reconnaissance vehicles
    "coyote",  // Canadian Coyote
    "fv107",  // British FV107 Scimitar
    // Infantry fighting vehicles
    "bmp",  // Russian BMP series
    "bmd",  // Russian BMD series (airborne)
    "btr82",  // Russian BTR-82A
    "fv510",  // British Warrior
    "fv520",  // British Warrior ATGM
    "warrior",  // British Warrior
    "m2a3",  // US M2A3 Bradley
    "bradley",  // US Bradley
    "lav25",  // US/Canadian LAV-25
    "lav-25",  // US/Canadian LAV-25
    "aslav",  // Australian ASLAV
    "lav6",  // Canadian LAV 6.0
    "lav_6",  // Canadian LAV 6.0
    "acv15",  // Turkish ACV-15
    "acv-15",  // Turkish ACV-15
    "pars",  // Turkish PARS III
    "zbd04",  // Chinese ZBD04A
    "zbd05",  // Chinese ZBD05
    "zbd",  // Chinese ZBD series
    "zbl08",  // Chinese ZBL08
    "zbl",  // Chinese ZBL series
    "zsd89",  // Chinese ZSD89
    "zsd",  // Chinese ZSD series
    "zsl92",  // Chinese ZSL92
    "zsl",  // Chinese ZSL series
    // Armored personnel carriers
    "aavp",  // US AAVP
    "aavc",  // US AAVC
    "btr",  // Russian BTR series
    "fv432",  // British FV432
    "lav",  // LAV variants
    "m1126",  // US M1126 Stryker
    "stryker",  // US Stryker
    "m113",  // US M113A3
    "tlav",  // Canadian TLAV
    "mtlb",  // Russian MT-LB
    "mt-lb",  // Russian MT-LB
    "zsl10",  // Chinese ZSL10
    // Scout cars & light vehicles
    "m1151",  // US M1151 (HMMWV)
    "humvee",  // HMMWV
    "matv",  // US M-ATV
    "m-atv",  // US M-ATV
    "brdm",  // Russian BRDM-2
    "cobra",  // Turkish Cobra-II
    "csk131",  // Chinese CSK131
    "kozak",  // Ukrainian Kozak-2M1
    "lppv",  // British LPPV
    "luv",  // US LUV-A1
    "luvw",  // Canadian LUVW
    "lynx",  // Australian Lynx
    "pmv",  // Australian PMV Bushmaster
    "bushmaster",  // Australian PMV Bushmaster
    "simir",  // Iranian Simir
    "safir",  // Iranian Safir
    "tapv",  // Canadian TAPV
    "technical",  // Insurgent Technical
    "tigr",  // Russian GAZ Tigr
    "mrap",  // MRAP vehicles (general)
    // Transport & logistics trucks
    "kamaz",  // Russian KamAZ 5350
    "kraz",  // Ukrainian KrAZ-6322
    "ural",  // Russian Ural trucks
    "m939",  // US M939 truck
    "man_hx",  // German MAN HX
    "manhx",  // German MAN HX
    "man_truck",  // German MAN truck
    "msvs",  // Canadian MSVS
    "ctm131",  // Chinese CTM131
    "ctm",  // Chinese CTM trucks
    "bmc",  // Turkish BMC-185
    "truck",  // General truck
    "logistics",  // Logistics vehicles
    "logi",  // Logi shorthand
    "util_truck",  // Utility truck
    // Artillery
    "bm21",  // Russian BM-21 Grad
    "bm-21",  // Russian BM-21 Grad
    "grad",  // BM-21 Grad
    "m1064",  // US M1064A3 mortar carrier
    // Motorbikes
    "minsk",  // Minsk 400
    "quadbike",  // Quad bike
    "quad_bike",  // Quad bike
    "motorbike",  // Motorbike
    // Boats
    "rhib",  // RHIB boat
    "boat",  // Boats
    // General patterns
    "tank",  // Tanks
    "apc",  // APCs
    "ifv",  // IFVs
    "heli",  // Helicopters
    "vehicle",  // General vehicle (in path like /Game/Vehicles/)
];

/// What the class name of an emplaced weapon mentions.
pub const EMPLACEMENT_NAMES: [&'static str; 10] = [
    "tripod",
    "dshk",
    "kord",
    "kornet",
    "spg9",
    "tow",
    "hj-8",
    "mk19",
    "zu-23",
    "emplacement",
];

// ---------------------------------------------------------------------------
// What the classes are
// ---------------------------------------------------------------------------

/// The class name of a soldier.
pub open spec fn soldier_like(name: Seq<char>) -> bool {
    has_part_ignoring_case(name, "soldier"@)
}

/// The class name of a helicopter.
pub open spec fn helicopter_like(name: Seq<char>) -> bool {
    names_any_ignoring_case(name, HELICOPTER_NAMES@)
}

/// `text` begins with `part`, ASCII case aside.
pub open spec fn begins_with_ignoring_case(text: Seq<char>, part: Seq<char>) -> bool {
    begins_with(ascii_folded(text), ascii_folded(part))
}

/// The class name of a deployable itself, not of one of its parts.
pub open spec fn deployable_primary_like(name: Seq<char>) -> bool {
    &&& !names_any_ignoring_case(name, NOT_PRIMARY_NAMES@)
    &&& !begins_with_ignoring_case(name, "bp_emplaced"@)
    &&& names_any_ignoring_case(name, DEPLOYABLE_NAMES@)
}

/// The class name of a vehicle itself, not of one of its parts.
pub open spec fn vehicle_like(name: Seq<char>) -> bool {
    &&& !soldier_like(name)
    &&& !deployable_primary_like(name)
    &&& !names_any_ignoring_case(name, VEHICLE_PART_NAMES@)
    &&& helicopter_like(name) || names_any_ignoring_case(name, VEHICLE_NAMES@)
}

/// The class name of a capture zone.
pub open spec fn capture_zone_like(name: Seq<char>) -> bool {
    has_part_ignoring_case(name, "capturezone"@) || has_part_ignoring_case(name, "sqcapturezone"@)
}

/// The kind of deployable that a class name stands for.
pub open spec fn deployable_event_type(name: Seq<char>) -> Seq<char> {
    if has_part_ignoring_case(name, "fobradio"@) {
        "RADIO"@
    } else if has_part_ignoring_case(name, "_hab_"@) || has_part_ignoring_case(name, "hab_"@) {
        "HAB"@
    } else if has_part_ignoring_case(name, "rallypoint"@) {
        "RALLY"@
    } else if has_part_ignoring_case(name, "ammocrate"@) {
        "AMMO"@
    } else if has_part_ignoring_case(name, "vehicle_repair"@) {
        "REPAIR"@
    } else if has_part_ignoring_case(name, "mortar"@) {
        "MORTAR"@
    } else if names_any_ignoring_case(name, EMPLACEMENT_NAMES@) {
        "EMPLACEMENT"@
    } else {
        "DEPLOYABLE"@
    }
}

/// A group path names a component class, or a hint names the kind of it.
pub open spec fn names_component(
    group_path: Seq<char>,
    path_hint: Option<&str>,
    class: Seq<char>,
    kind: Seq<char>,
) -> bool {
    ||| has_part_ignoring_case(group_path, class)
    ||| path_hint matches Some(hint) && has_part_ignoring_case(hint@, kind)
}

/// The kind of component that a group path and a hint stand for.
pub open spec fn component_type(group_path: Seq<char>, path_hint: Option<&str>) -> Seq<char> {
    if names_component(group_path, path_hint, "sqrotorcomponent"@, "rotor"@) {
        "rotor"@
    } else if names_component(group_path, path_hint, "sqvehicletrack"@, "track"@) {
        "track"@
    } else if names_component(group_path, path_hint, "sqvehicleammobox"@, "ammorack"@) {
        "ammorack"@
    } else if names_component(group_path, path_hint, "sqvehiclewheel"@, "wheel"@) {
        "wheel"@
    } else if names_component(group_path, path_hint, "sqvehicleseatcomponent"@, "seat"@) {
        "seat"@
    } else {
        "component"@
    }
}

/// What follows the last `c`; all of the text if there is none.
pub open spec fn after_last(text: Seq<char>, c: char) -> Seq<char> {
    match last_index_of(text, c) {
        Some(i) => text.skip(i + 1),
        None => text,
    }
}

/// The last name in a path: what follows the last dot, or else the last slash.
pub open spec fn group_leaf(path: Seq<char>) -> Seq<char> {
    if last_index_of(path, '.') is Some {
        after_last(path, '.')
    } else {
        after_last(path, '/')
    }
}

/// An ASCII letter or digit.
pub open spec fn is_alphanumeric(c: char) -> bool {
    'A' <= c <= 'Z' || 'a' <= c <= 'z' || '0' <= c <= '9'
}

/// How many ASCII letters and digits the text begins with.
pub open spec fn alphanumeric_run(text: Seq<char>) -> nat
    decreases text.len(),
{
    if text.len() > 0 && is_alphanumeric(text[0]) {
        1 + alphanumeric_run(text.skip(1))
    } else {
        0
    }
}

/// The flag that a text such as `C1-Diefenbunker?Root` begins with: its lane,
/// its number in the lane, and its full name.
pub open spec fn lane_flag(text: Seq<char>) -> Option<(char, u8, Seq<char>)> {
    if text.len() >= 4 && 'A' <= text[0] <= 'Z' && '0' <= text[1] <= '9' && text[2] == '-'
        && alphanumeric_run(text.skip(3)) > 0 {
        Some(
            (
                text[0],
                (text[1] as u8 - 48) as u8,
                text.take((3 + alphanumeric_run(text.skip(3))) as int),
            ),
        )
    } else {
        None
    }
}

/// What follows the first `PersistentLevel`; all of the path if there is none.
pub open spec fn after_level(path: Seq<char>) -> Seq<char> {
    match part_index_from(path, "PersistentLevel"@, 0) {
        Some(i) => path.skip(i + "PersistentLevel"@.len()),
        None => path,
    }
}

/// The flag that a path names, if the path is one of an instance in the scene.
pub open spec fn raas_flag(path: Seq<char>) -> Option<(char, u8, Seq<char>)> {
    if has_part(path, "DefaultSceneRoot"@) {
        lane_flag(after_level(path))
    } else {
        None
    }
}

// ---------------------------------------------------------------------------
// Substrings
// ---------------------------------------------------------------------------

/// Whether `needle` stands in `haystack`, ASCII case aside.
pub fn contains_ignore_ascii_case(haystack: &str, needle: &str) -> (found: bool)
    ensures
        found == has_part_ignoring_case(haystack@, needle@),
{
    chars_have_part(&folded_chars(haystack), &folded_chars(needle))
}

/// Whether `haystack` begins with `prefix`, ASCII case aside.
pub fn starts_with_ignore_ascii_case(haystack: &str, prefix: &str) -> (found: bool)
    ensures
        found == begins_with_ignoring_case(haystack@, prefix@),
{
    stands_at(&folded_chars(haystack), &folded_chars(prefix), 0)
}

/// Whether one of the names stands in the text, ASCII case aside.
fn mentions_any(text: &str, names: &[&'static str]) -> (found: bool)
    ensures
        found == names_any_ignoring_case(text@, names@),
{
    folded_contains_any(&folded_chars(text), names)
}

// ---------------------------------------------------------------------------
// Class names
// ---------------------------------------------------------------------------

/// The class of a type name: what follows its last dot. An empty name has none.
pub fn normalize_type(class_name: &str) -> (class: Option<String>)
    ensures
        class is None <==> class_name@.len() == 0,
        class matches Some(c) ==> c@ == after_last(class_name@, '.'),
{
    let chars = chars_of(class_name);
    if chars.len() == 0 {
        return None;
    }
    match rfind_char(&chars, '.') {
        Some(i) => {
            let class = string_of(&chars, i + 1, chars.len());
            assert(class@ =~= class_name@.skip(i + 1));
            Some(class)
        },
        None => Some(class_name.to_owned()),
    }
}

/// Whether a class name is one of a soldier.
pub fn is_soldier_type(class_name: &str) -> (soldier: bool)
    ensures
        soldier == soldier_like(class_name@),
{
    contains_ignore_ascii_case(class_name, "soldier")
}

/// Whether a class name is one of a helicopter.
pub fn is_helicopter_type(class_name: &str) -> (helicopter: bool)
    ensures
        helicopter == helicopter_like(class_name@),
{
    mentions_any(class_name, HELICOPTER_NAMES.as_slice())
}

/// Whether a class name is one of a deployable itself.
pub fn is_deployable_primary_type(class_name: &str) -> (deployable: bool)
    ensures
        deployable == deployable_primary_like(class_name@),
{
    if mentions_any(class_name, NOT_PRIMARY_NAMES.as_slice()) {
        return false;
    }
    if starts_with_ignore_ascii_case(class_name, "bp_emplaced") {
        return false;
    }
    mentions_any(class_name, DEPLOYABLE_NAMES.as_slice())
}

/// Whether a class name is one of a vehicle itself.
pub fn is_vehicle_type(class_name: &str) -> (vehicle: bool)
    ensures
        vehicle == vehicle_like(class_name@),
{
    if is_soldier_type(class_name) || is_deployable_primary_type(class_name) {
        return false;
    }
    let folded = folded_chars(class_name);
    if folded_contains_any(&folded, VEHICLE_PART_NAMES.as_slice()) {
        return false;
    }
    folded_contains_any(&folded, HELICOPTER_NAMES.as_slice()) || folded_contains_any(
        &folded,
        VEHICLE_NAMES.as_slice(),
    )
}

/// Whether a class name is one of a capture zone.
pub fn is_capture_zone_type(class_name: &str) -> (zone: bool)
    ensures
        zone == capture_zone_like(class_name@),
{
    contains_ignore_ascii_case(class_name, "capturezone") || contains_ignore_ascii_case(
        class_name,
        "sqcapturezone",
    )
}

/// The kind of deployable that a class name stands for.
pub fn classify_deployable_event_type(class_name: &str) -> (kind: &'static str)
    ensures
        kind@ == deployable_event_type(class_name@),
{
    if contains_ignore_ascii_case(class_name, "fobradio") {
        "RADIO"
    } else if contains_ignore_ascii_case(class_name, "_hab_") || contains_ignore_ascii_case(
        class_name,
        "hab_",
    ) {
        "HAB"
    } else if contains_ignore_ascii_case(class_name, "rallypoint") {
        "RALLY"
    } else if contains_ignore_ascii_case(class_name, "ammocrate") {
        "AMMO"
    } else if contains_ignore_ascii_case(class_name, "vehicle_repair") {
        "REPAIR"
    } else if contains_ignore_ascii_case(class_name, "mortar") {
        "MORTAR"
    } else if mentions_any(class_name, EMPLACEMENT_NAMES.as_slice()) {
        "EMPLACEMENT"
    } else {
        "DEPLOYABLE"
    }
}

// ---------------------------------------------------------------------------
// Components and paths
// ---------------------------------------------------------------------------

/// Whether a group path names a component class, or a hint the kind of it.
fn is_component(
    group_path: &str,
    path_hint: Option<&str>,
    class: &'static str,
    kind: &'static str,
) -> (found: bool)
    ensures
        found == names_component(group_path@, path_hint, class@, kind@),
{
    if contains_ignore_ascii_case(group_path, class) {
        return true;
    }
    match path_hint {
        Some(hint) => contains_ignore_ascii_case(hint, kind),
        None => false,
    }
}

/// The kind of component that a group path and a hint stand for.
pub fn infer_component_type_name(group_path: &str, path_hint: Option<&str>) -> (kind: &'static str)
    ensures
        kind@ == component_type(group_path@, path_hint),
{
    if is_component(group_path, path_hint, "sqrotorcomponent", "rotor") {
        "rotor"
    } else if is_component(group_path, path_hint, "sqvehicletrack", "track") {
        "track"
    } else if is_component(group_path, path_hint, "sqvehicleammobox", "ammorack") {
        "ammorack"
    } else if is_component(group_path, path_hint, "sqvehiclewheel", "wheel") {
        "wheel"
    } else if is_component(group_path, path_hint, "sqvehicleseatcomponent", "seat") {
        "seat"
    } else {
        "component"
    }
}

/// The kind of component, as a string of its own.
pub fn infer_component_type(group_path: &str, path_hint: Option<&str>) -> (kind: String)
    ensures
        kind@ == component_type(group_path@, path_hint),
{
    infer_component_type_name(group_path, path_hint).to_owned()
}

/// The last name in a path.
pub fn infer_group_leaf(path: &str) -> (leaf: &str)
    ensures
        leaf@ == group_leaf(path@),
{
    let chars = chars_of(path);
    let n: usize = chars.len();
    if let Some(i) = rfind_char(&chars, '.') {
        let leaf = path.substring_char(i + 1, n);
        assert(leaf@ =~= path@.skip(i + 1));
        return leaf;
    }
    if let Some(i) = rfind_char(&chars, '/') {
        let leaf = path.substring_char(i + 1, n);
        assert(leaf@ =~= path@.skip(i + 1));
        return leaf;
    }
    path
}

/// The flag that the characters from `from` on begin with.
fn read_lane_flag(chars: &Vec<char>, from: usize) -> (flag: Option<(char, u8, String)>)
    requires
        from <= chars@.len(),
    ensures
        flag is Some <==> lane_flag(chars@.skip(from as int)) is Some,
        flag matches Some((lane, number, name)) ==> lane_flag(chars@.skip(from as int)) == Some(
            (lane, number, name@),
        ),
{
    let ghost text = chars@.skip(from as int);
    if chars.len() - from < 4 {
        return None;
    }
    let lane = chars[from];
    let number = chars[from + 1];
    assert(lane == text[0] && number == text[1] && chars@[from + 2] == text[2]);
    if !('A' <= lane && lane <= 'Z') || !('0' <= number && number <= '9') || chars[from + 2] != '-' {
        return None;
    }
    let start: usize = from + 3;
    let mut end: usize = start;
    assert(text.skip(3) =~= chars@.skip(start as int));
    while end < chars.len() && (('A' <= chars[end] && chars[end] <= 'Z') || ('a' <= chars[end]
        && chars[end] <= 'z') || ('0' <= chars[end] && chars[end] <= '9'))
        invariant
            from + 3 == start <= end <= chars@.len(),
            alphanumeric_run(chars@.skip(start as int)) == end - start + alphanumeric_run(
                chars@.skip(end as int),
            ),
        decreases chars@.len() - end,
    {
        assert(chars@.skip(end as int).skip(1) =~= chars@.skip(end + 1));
        end += 1;
    }
    if end == start {
        return None;
    }
    let name = string_of(chars, from, end);
    assert(name@ =~= text.take(3 + (end - start)));
    Some((lane, number as u8 - 48, name))
}

/// The capture zone flag that a path names, such as `C1-Diefenbunker`: its lane
/// letter, its number, and its name. Only paths of objects in the scene count.
pub fn extract_raas_flag_from_path(path: &str) -> (flag: Option<(char, u8, String)>)
    ensures
        flag is Some <==> raas_flag(path@) is Some,
        flag matches Some((lane, number, name)) ==> raas_flag(path@) == Some(
            (lane, number, name@),
        ),
{
    let chars = chars_of(path);
    if !chars_have_part(&chars, &chars_of("DefaultSceneRoot")) {
        return None;
    }
    let level = chars_of("PersistentLevel");
    match find_part(&chars, &level, 0) {
        Some(i) => read_lane_flag(&chars, i + level.len()),
        None => {
            assert(chars@.skip(0) =~= chars@);
            read_lane_flag(&chars, 0)
        },
    }
}

/// Whether a path names a capture zone flag.
pub fn is_raas_flag_path(path: &str) -> (found: bool)
    ensures
        found == raas_flag(path@) is Some,
{
    extract_raas_flag_from_path(path).is_some()
}

// ---------------------------------------------------------------------------
// Flags
// ---------------------------------------------------------------------------

/// The answers of the class name questions, one bit each.
#[derive(Debug, Clone, Copy, PartialEq, Eq, Structural)]
pub struct ClassifyFlags(pub u8);

/// The bits for a set of answers.
pub open spec fn flag_bits(
    soldier: bool,
    vehicle: bool,
    helicopter: bool,
    deployable: bool,
) -> u8 {
    (if soldier { 1u8 } else { 0u8 }) | (if vehicle { 2u8 } else { 0u8 }) | (if helicopter {
        4u8
    } else {
        0u8
    }) | (if deployable { 8u8 } else { 0u8 })
}

impl Default for ClassifyFlags {
    fn default() -> (flags: Self)
        ensures
            flags.0 == 0,
    {
        ClassifyFlags(0)
    }
}

impl ClassifyFlags {
    pub const SOLDIER: u8 = 1;

    pub const VEHICLE: u8 = 2;

    pub const HELICOPTER: u8 = 4;

    pub const DEPLOYABLE_PRIMARY: u8 = 8;

    /// All of the answers for a class name.
    pub fn from_group_leaf(leaf: &str) -> (flags: Self)
        ensures
            flags.0 == flag_bits(
                soldier_like(leaf@),
                vehicle_like(leaf@),
                helicopter_like(leaf@),
                deployable_primary_like(leaf@),
            ),
    {
        let soldier = is_soldier_type(leaf);
        let helicopter = is_helicopter_type(leaf);
        let vehicle = is_vehicle_type(leaf);
        let deployable = is_deployable_primary_type(leaf);
        let mut bits: u8 = 0;
        if soldier {
            bits = bits | Self::SOLDIER;
        }
        if helicopter {
            bits = bits | Self::HELICOPTER;
        }
        if vehicle {
            bits = bits | Self::VEHICLE;
        }
        if deployable {
            bits = bits | Self::DEPLOYABLE_PRIMARY;
        }
        proof {
            let s: u8 = if soldier { 1u8 } else { 0u8 };
            let v: u8 = if vehicle { 2u8 } else { 0u8 };
            let h: u8 = if helicopter { 4u8 } else { 0u8 };
            let d: u8 = if deployable { 8u8 } else { 0u8 };
            assert(forall|x: u8| #![trigger x | 0u8] x | 0u8 == x) by (bit_vector);
            assert(0u8 | s | h | v | d == s | v | h | d) by (bit_vector);
        }
        Self(bits)
    }

    /// Whether the class is one of a soldier.
    pub fn is_soldier(self) -> (answer: bool)
        ensures
            answer == (self.0 & 1 != 0),
    {
        self.0 & Self::SOLDIER != 0
    }

    /// Whether the class is one of a vehicle.
    pub fn is_vehicle(self) -> (answer: bool)
        ensures
            answer == (self.0 & 2 != 0),
    {
        self.0 & Self::VEHICLE != 0
    }

    /// Whether the class is one of a helicopter.
    pub fn is_helicopter(self) -> (answer: bool)
        ensures
            answer == (self.0 & 4 != 0),
    {
        self.0 & Self::HELICOPTER != 0
    }

    /// Whether the class is one of a deployable itself.
    pub fn is_deployable_primary(self) -> (answer: bool)
        ensures
            answer == (self.0 & 8 != 0),
    {
        self.0 & Self::DEPLOYABLE_PRIMARY != 0
    }
}

// ---------------------------------------------------------------------------
// Laws
// ---------------------------------------------------------------------------

/// Names that differ in ASCII case alone are classified alike.
pub proof fn law_case_is_ignored(a: Seq<char>, b: Seq<char>)
    requires
        ascii_folded(a) == ascii_folded(b),
    ensures
        soldier_like(a) == soldier_like(b),
        helicopter_like(a) == helicopter_like(b),
        deployable_primary_like(a) == deployable_primary_like(b),
        vehicle_like(a) == vehicle_like(b),
        capture_zone_like(a) == capture_zone_like(b),
        deployable_event_type(a) == deployable_event_type(b),
{
}

/// No vehicle is a soldier or a deployable, and a helicopter is a vehicle
/// unless its name is one of a soldier, a deployable or a part.
pub proof fn law_classes_exclude_each_other(name: Seq<char>)
    ensures
        vehicle_like(name) ==> !soldier_like(name) && !deployable_primary_like(name),
        helicopter_like(name) ==> (vehicle_like(name) <==> !soldier_like(name)
            && !deployable_primary_like(name) && !names_any_ignoring_case(
            name,
            VEHICLE_PART_NAMES@,
        )),
{
}

/// The bits of a set of answers give back each answer.
pub proof fn law_flags_hold_the_answers(
    soldier: bool,
    vehicle: bool,
    helicopter: bool,
    deployable: bool,
)
    ensures
        flag_bits(soldier, vehicle, helicopter, deployable) & 1 != 0 <==> soldier,
        flag_bits(soldier, vehicle, helicopter, deployable) & 2 != 0 <==> vehicle,
        flag_bits(soldier, vehicle, helicopter, deployable) & 4 != 0 <==> helicopter,
        flag_bits(soldier, vehicle, helicopter, deployable) & 8 != 0 <==> deployable,
{
    let s: u8 = if soldier { 1u8 } else { 0u8 };
    let v: u8 = if vehicle { 2u8 } else { 0u8 };
    let h: u8 = if helicopter { 4u8 } else { 0u8 };
    let d: u8 = if deployable { 8u8 } else { 0u8 };
    assert(((s == 0 || s == 1) && (v == 0 || v == 2) && (h == 0 || h == 4) && (d == 0 || d == 8))
        ==> ((s | v | h | d) & 1 == s && (s | v | h | d) & 2 == v && (s | v | h | d) & 4 == h && (s
        | v | h | d) & 8 == d)) by (bit_vector);
}

/// What follows the last `c` holds no further `c`.
proof fn lemma_after_last(text: Seq<char>, c: char)
    ensures
        last_index_of(after_last(text, c), c) is None,
        last_index_of(text, c) matches Some(i) ==> 0 <= i < text.len() && text[i] == c,
        forall|d: char| last_index_of(text, d) is None ==> last_index_of(after_last(text, c), d) is None,
    decreases text.len(),
{
    lemma_last_index(text, c);
    let rest = after_last(text, c);
    lemma_last_index(rest, c);
    assert forall|d: char| last_index_of(text, d) is None implies last_index_of(rest, d) is None by {
        lemma_last_index(text, d);
        lemma_last_index(rest, d);
        if last_index_of(rest, d) is Some {
            let j = last_index_of(rest, d).unwrap();
            assert(text.contains(rest[j]));
        }
    }
    if last_index_of(rest, c) is Some {
        let j = last_index_of(rest, c).unwrap();
        let i = last_index_of(text, c).unwrap();
        assert(text[i + 1 + j] == c);
    }
}

/// `last_index_of` is the last index, and there is one if `c` stands there at all.
proof fn lemma_last_index(text: Seq<char>, c: char)
    ensures
        match last_index_of(text, c) {
            Some(i) => 0 <= i < text.len() && text[i] == c && forall|j: int|
                i < j < text.len() ==> #[trigger] text[j] != c,
            None => forall|j: int| 0 <= j < text.len() ==> #[trigger] text[j] != c,
        },
    decreases text.len(),
{
    if text.len() > 0 && text.last() != c {
        lemma_last_index(text.drop_last(), c);
        assert forall|j: int| 0 <= j < text.len() - 1 implies #[trigger] text[j]
            == text.drop_last()[j] by {}
    }
}

/// The last name in a path holds no dot, and no slash unless the path has a dot.
pub proof fn law_leaf_is_one_name(path: Seq<char>)
    ensures
        last_index_of(group_leaf(path), '.') is None,
        last_index_of(path, '.') is None ==> last_index_of(group_leaf(path), '/') is None,
{
    lemma_after_last(path, '.');
    lemma_after_last(path, '/');
}

/// A flag's name begins with its lane letter, its number and a hyphen, goes on
/// with letters and digits alone, and stands in the path.
pub proof fn law_flag_name_shape(path: Seq<char>)
    ensures
        raas_flag(path) matches Some((lane, number, name)) ==> {
            &&& 'A' <= lane <= 'Z'
            &&& number <= 9
            &&& name.len() > 3
            &&& name[0] == lane
            &&& name[1] == digit(number as nat)
            &&& name[2] == '-'
            &&& forall|i: int| 3 <= i < name.len() ==> is_alphanumeric(#[trigger] name[i])
            &&& has_part(path, name)
        },
{
    if raas_flag(path) is Some {
        let text = after_level(path);
        let (lane, number, name) = raas_flag(path).unwrap();
        let n = alphanumeric_run(text.skip(3));
        lemma_alphanumeric_run(text.skip(3));
        assert forall|i: int| 3 <= i < name.len() implies is_alphanumeric(#[trigger] name[i]) by {
            assert(name[i] == text.skip(3)[i - 3]);
        }
        let start = path.len() - text.len();
        lemma_part_index_in_range(path, "PersistentLevel"@, 0);
        assert(occurs_at(path, name, start));
    }
}

/// The run is no longer than the text, and all of it is alphanumeric.
proof fn lemma_alphanumeric_run(text: Seq<char>)
    ensures
        alphanumeric_run(text) <= text.len(),
        forall|i: int| 0 <= i < alphanumeric_run(text) ==> is_alphanumeric(#[trigger] text[i]),
    decreases text.len(),
{
    if text.len() > 0 && is_alphanumeric(text[0]) {
        lemma_alphanumeric_run(text.skip(1));
        assert forall|i: int| 0 <= i < alphanumeric_run(text) implies is_alphanumeric(
            #[trigger] text[i],
        ) by {
            if i > 0 {
                assert(text[i] == text.skip(1)[i - 1]);
            }
        }
    }
}

/// An index at which a part stands leaves room for the part.
proof fn lemma_part_index_in_range(text: Seq<char>, part: Seq<char>, from: int)
    requires
        0 <= from,
    ensures
        part_index_from(text, part, from) matches Some(i) ==> from <= i && i + part.len()
            <= text.len(),
    decreases text.len() - from,
{
    if from + part.len() <= text.len() && !occurs_at(text, part, from) {
        lemma_part_index_in_range(text, part, from + 1);
    }
}

} // verus!
