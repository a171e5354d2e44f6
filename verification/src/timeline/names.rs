//! Short names of vehicles and deployables.

use crate::text::{
    chars_end_with, chars_of, contains_any, ends_with, names_any, string_of, trim_leading,
    trim_trailing, without_leading, without_trailing,
};
use vstd::prelude::*;

verus! {

/// The endings that name a faction.
pub const FACTION_SUFFIXES: [&'static str; 12] = [
    "_RUS",
    "_USA",
    "_GB",
    "_CAF",
    "_AUS",
    "_TLF",
    "_MEA",
    "_MIL",
    "_INS",
    "_PLA",
    "_PLANMC",
    "_USMC",
];

/// The name of a class without the prefixes and suffixes of a blueprint.
pub open spec fn class_stem(full_name: Seq<char>) -> Seq<char> {
    without_trailing(without_leading(full_name, "BP_"@), "_C"@)
}

/// A name without the first of some endings, from the `from`th on, that it has.
pub open spec fn without_suffix(name: Seq<char>, suffixes: Seq<&'static str>, from: int) -> Seq<
    char,
>
    decreases suffixes.len() - from,
{
    if from >= suffixes.len() {
        name
    } else if ends_with(name, suffixes[from]@) {
        name.take(name.len() - suffixes[from]@.len())
    } else {
        without_suffix(name, suffixes, from + 1)
    }
}

/// The short name of a vehicle: `BTR82A` for `BP_BTR82A_RUS_C`.
pub open spec fn vehicle_class(full_name: Seq<char>) -> Seq<char> {
    without_suffix(class_stem(full_name), FACTION_SUFFIXES@, 0)
}

/// The short name of a vehicle.
pub fn extract_vehicle_class(full_name: &str) -> (class: String)
    ensures
        class@ == vehicle_class(full_name@),
{
    let stem = trim_trailing(
        &trim_leading(&chars_of(full_name), &chars_of("BP_")),
        &chars_of("_C"),
    );
    let suffixes = FACTION_SUFFIXES.as_slice();
    let mut i: usize = 0;
    while i < suffixes.len()
        invariant
            i <= suffixes@.len(),
            suffixes@ == FACTION_SUFFIXES@,
            stem@ == class_stem(full_name@),
            vehicle_class(full_name@) == without_suffix(stem@, FACTION_SUFFIXES@, i as int),
        decreases suffixes@.len() - i,
    {
        let suffix = chars_of(suffixes[i]);
        if chars_end_with(&stem, &suffix) {
            let end: usize = stem.len() - suffix.len();
            let class = string_of(&stem, 0, end);
            assert(stem@.subrange(0, end as int) =~= stem@.take(end as int));
            return class;
        }
        i += 1;
    }
    let class = string_of(&stem, 0, stem.len());
    assert(stem@.subrange(0, stem@.len() as int) =~= stem@);
    class
}

/// Names of a radio.
pub const RADIO_NAMES: [&'static str; 2] = ["FOBRadio", "FobRadio"];

/// Names of a HAB.
pub const HAB_NAMES: [&'static str; 2] = ["HAB", "Hab"];

/// Names of a rally point.
pub const RALLY_NAMES: [&'static str; 2] = ["RallyPoint", "Rallypoint"];

/// Names of an ammo crate.
pub const AMMO_NAMES: [&'static str; 2] = ["AmmoCrate", "Ammocrate"];

/// The short name of a deployable: that of the first kind which it names, or
/// else its own.
pub open spec fn deployable_class(full_name: Seq<char>) -> Seq<char> {
    let stem = class_stem(full_name);
    if names_any(stem, RADIO_NAMES@) {
        "FOBRadio"@
    } else if names_any(stem, HAB_NAMES@) {
        "HAB"@
    } else if names_any(stem, RALLY_NAMES@) {
        "RallyPoint"@
    } else if names_any(stem, AMMO_NAMES@) {
        "AmmoCrate"@
    } else {
        stem
    }
}

/// The short name of a deployable.
pub fn extract_deployable_class(full_name: &str) -> (class: String)
    ensures
        class@ == deployable_class(full_name@),
{
    let stem = trim_trailing(
        &trim_leading(&chars_of(full_name), &chars_of("BP_")),
        &chars_of("_C"),
    );
    let name = string_of(&stem, 0, stem.len());
    assert(stem@.subrange(0, stem@.len() as int) =~= stem@);
    if contains_any(&name, RADIO_NAMES.as_slice()) {
        "FOBRadio".to_owned()
    } else if contains_any(&name, HAB_NAMES.as_slice()) {
        "HAB".to_owned()
    } else if contains_any(&name, RALLY_NAMES.as_slice()) {
        "RallyPoint".to_owned()
    } else if contains_any(&name, AMMO_NAMES.as_slice()) {
        "AmmoCrate".to_owned()
    } else {
        name
    }
}

} // verus!
