//! What the short names of vehicles and deployables must satisfy.

use crate::text::{
    begins_with, ends_with, has_part, names_any, occurs_at, without_leading, without_trailing,
};
use crate::timeline::names::{
    class_stem, deployable_class, vehicle_class, without_suffix, AMMO_NAMES, FACTION_SUFFIXES,
    HAB_NAMES, RADIO_NAMES, RALLY_NAMES,
};
use vstd::prelude::*;

verus! {

/// The ending names a faction.
pub open spec fn is_faction_ending(ending: Seq<char>) -> bool {
    ||| ending == "_RUS"@
    ||| ending == "_USA"@
    ||| ending == "_GB"@
    ||| ending == "_CAF"@
    ||| ending == "_AUS"@
    ||| ending == "_TLF"@
    ||| ending == "_MEA"@
    ||| ending == "_MIL"@
    ||| ending == "_INS"@
    ||| ending == "_PLA"@
    ||| ending == "_PLANMC"@
    ||| ending == "_USMC"@
}

/// The endings are those of the list, and all that matters of their characters:
/// each has an underscore at its start and nowhere else, and none ends like the
/// suffix of a class.
proof fn lemma_faction_endings()
    ensures
        forall|i: int|
            0 <= i < FACTION_SUFFIXES@.len() ==> is_faction_ending(#[trigger] FACTION_SUFFIXES@[i]@),
        forall|ending: Seq<char>| #[trigger]
            is_faction_ending(ending) ==> {
                &&& exists|i: int|
                    0 <= i < FACTION_SUFFIXES@.len() && #[trigger] FACTION_SUFFIXES@[i]@ == ending
                &&& ending.len() >= 3
                &&& ending[0] == '_'
                &&& forall|k: int| 0 < k < ending.len() ==> #[trigger] ending[k] != '_'
                &&& ending[ending.len() - 1] != 'C' || ending[ending.len() - 2] != '_'
            },
{
    reveal_strlit("_RUS");
    reveal_strlit("_USA");
    reveal_strlit("_GB");
    reveal_strlit("_CAF");
    reveal_strlit("_AUS");
    reveal_strlit("_TLF");
    reveal_strlit("_MEA");
    reveal_strlit("_MIL");
    reveal_strlit("_INS");
    reveal_strlit("_PLA");
    reveal_strlit("_PLANMC");
    reveal_strlit("_USMC");
    assert(FACTION_SUFFIXES@[0]@ == "_RUS"@);
    assert(FACTION_SUFFIXES@[1]@ == "_USA"@);
    assert(FACTION_SUFFIXES@[2]@ == "_GB"@);
    assert(FACTION_SUFFIXES@[3]@ == "_CAF"@);
    assert(FACTION_SUFFIXES@[4]@ == "_AUS"@);
    assert(FACTION_SUFFIXES@[5]@ == "_TLF"@);
    assert(FACTION_SUFFIXES@[6]@ == "_MEA"@);
    assert(FACTION_SUFFIXES@[7]@ == "_MIL"@);
    assert(FACTION_SUFFIXES@[8]@ == "_INS"@);
    assert(FACTION_SUFFIXES@[9]@ == "_PLA"@);
    assert(FACTION_SUFFIXES@[10]@ == "_PLANMC"@);
    assert(FACTION_SUFFIXES@[11]@ == "_USMC"@);
    assert forall|i: int| 0 <= i < FACTION_SUFFIXES@.len() implies is_faction_ending(
        #[trigger] FACTION_SUFFIXES@[i]@,
    ) by {
        assert(i == 0 || i == 1 || i == 2 || i == 3 || i == 4 || i == 5 || i == 6 || i == 7 || i == 8
            || i == 9 || i == 10 || i == 11);
    }
}

/// A name without its prefixes and suffixes neither begins with `BP_` nor ends
/// with `_C`, and stands in the name.
pub proof fn law_stems(name: Seq<char>)
    ensures
        !begins_with(class_stem(name), "BP_"@),
        !ends_with(class_stem(name), "_C"@),
        has_part(name, class_stem(name)),
{
    reveal_strlit("BP_");
    reveal_strlit("_C");
    let rest = without_leading(name, "BP_"@);
    lemma_without_leading(name, "BP_"@);
    lemma_without_trailing(rest, "_C"@);
    let stem = class_stem(name);
    let start = name.len() - rest.len();
    assert(occurs_at(name, stem, start)) by {
        assert forall|k: int| 0 <= k < stem.len() implies name[start + k] == #[trigger] stem[k] by {
            assert(rest[k] == name[start + k]);
            assert(stem[k] == rest[k]);
        }
    }
    if begins_with(stem, "BP_"@) {
        assert forall|k: int| 0 <= k < "BP_"@.len() implies rest[0 + k] == #[trigger] "BP_"@[k] by {
            assert(stem[0 + k] == "BP_"@[k]);
        }
        assert(begins_with(rest, "BP_"@));
    }
}

/// What is left at the end of a text when a part at its start is taken away.
proof fn lemma_without_leading(text: Seq<char>, part: Seq<char>)
    requires
        part.len() > 0,
    ensures
        without_leading(text, part).len() <= text.len(),
        without_leading(text, part) == text.skip(text.len() - without_leading(text, part).len()),
        !begins_with(without_leading(text, part), part),
    decreases text.len(),
{
    if begins_with(text, part) {
        let next = text.skip(part.len() as int);
        lemma_without_leading(next, part);
        let rest = without_leading(next, part);
        assert(rest =~= text.skip(text.len() - rest.len()));
    } else {
        assert(text.skip(0) =~= text);
    }
}

/// What is left at the start of a text when a part at its end is taken away.
proof fn lemma_without_trailing(text: Seq<char>, part: Seq<char>)
    requires
        part.len() > 0,
    ensures
        without_trailing(text, part).len() <= text.len(),
        without_trailing(text, part) == text.take(without_trailing(text, part).len() as int),
        !ends_with(without_trailing(text, part), part),
    decreases text.len(),
{
    if ends_with(text, part) {
        let next = text.take(text.len() - part.len());
        lemma_without_trailing(next, part);
        let rest = without_trailing(next, part);
        assert(rest =~= text.take(rest.len() as int));
    } else {
        assert(text.take(text.len() as int) =~= text);
    }
}

/// A name that has one of the endings from an index on loses it.
proof fn lemma_loses_ending(base: Seq<char>, ending: Seq<char>, from: int)
    requires
        is_faction_ending(ending),
        0 <= from <= FACTION_SUFFIXES@.len(),
        exists|i: int|
            from <= i < FACTION_SUFFIXES@.len() && #[trigger] FACTION_SUFFIXES@[i]@ == ending,
    ensures
        without_suffix(base + ending, FACTION_SUFFIXES@, from) == base,
    decreases FACTION_SUFFIXES@.len() - from,
{
    lemma_faction_endings();
    let name = base + ending;
    let other = FACTION_SUFFIXES@[from]@;
    if other == ending {
        assert(ends_with(name, other)) by {
            assert forall|k: int| 0 <= k < other.len() implies name[name.len() - other.len() + k]
                == #[trigger] other[k] by {}
        }
        assert(name.take(name.len() - other.len()) =~= base);
    } else {
        assert(is_faction_ending(other));
        if ends_with(name, other) {
            let n = name.len() as int;
            if other.len() < ending.len() {
                assert(name[n - other.len() + 0] == other[0]);
                assert(ending[ending.len() - other.len()] == '_');
            } else if other.len() > ending.len() {
                assert(name[n - other.len() + (other.len() - ending.len())] == other[other.len()
                    - ending.len()]);
                assert(name[n - ending.len()] == ending[0]);
            } else {
                assert forall|k: int| 0 <= k < other.len() implies #[trigger] other[k]
                    == ending[k] by {
                    assert(name[n - other.len() + k] == other[k]);
                }
                assert(other =~= ending);
            }
        }
        let i = choose|i: int|
            from <= i < FACTION_SUFFIXES@.len() && #[trigger] FACTION_SUFFIXES@[i]@ == ending;
        assert(i != from);
        lemma_loses_ending(base, ending, from + 1);
    }
}

/// The short name of a vehicle is what its class has between the prefix of a
/// blueprint and the ending of a faction: `BP_`, a name, `_RUS` and `_C` give the
/// name, whatever it is, as long as it does not run into the prefix.
pub proof fn law_vehicle_names(base: Seq<char>, ending: Seq<char>)
    requires
        is_faction_ending(ending),
        !begins_with(base + ending + "_C"@, "BP_"@),
    ensures
        vehicle_class("BP_"@ + base + ending + "_C"@) == base,
        vehicle_class(base + ending + "_C"@) == base,
{
    lemma_faction_endings();
    reveal_strlit("BP_");
    reveal_strlit("_C");
    let stem = base + ending;
    let inner = stem + "_C"@;
    let full = "BP_"@ + base + ending + "_C"@;
    assert(begins_with(full, "BP_"@)) by {
        assert forall|k: int| 0 <= k < "BP_"@.len() implies full[0 + k] == #[trigger] "BP_"@[k] by {}
    }
    assert(full.skip("BP_"@.len() as int) =~= inner);
    assert(without_leading(inner, "BP_"@) == inner);
    assert(without_leading(full, "BP_"@) == inner);
    assert(ends_with(inner, "_C"@)) by {
        assert forall|k: int| 0 <= k < "_C"@.len() implies inner[inner.len() - 2 + k]
            == #[trigger] "_C"@[k] by {}
    }
    assert(inner.take(inner.len() - 2) =~= stem);
    assert(!ends_with(stem, "_C"@)) by {
        assert(stem[stem.len() - 1] == ending[ending.len() - 1]);
        assert(stem[stem.len() - 2] == ending[ending.len() - 2]);
        assert("_C"@[0] == '_' && "_C"@[1] == 'C');
        if ends_with(stem, "_C"@) {
            assert(stem[stem.len() - 2 + 0] == "_C"@[0]);
            assert(stem[stem.len() - 2 + 1] == "_C"@[1]);
        }
    }
    assert(without_trailing(inner, "_C"@) == without_trailing(stem, "_C"@));
    assert(without_trailing(inner, "_C"@) == stem);
    lemma_loses_ending(base, ending, 0);
}

/// A name without prefix, suffix or ending is its own short name.
pub proof fn law_plain_vehicle_names(name: Seq<char>)
    requires
        !begins_with(name, "BP_"@),
        !ends_with(name, "_C"@),
        forall|ending: Seq<char>| #[trigger] is_faction_ending(ending) ==> !ends_with(name, ending),
    ensures
        vehicle_class(name) == name,
{
    lemma_plain_name(name, 0);
}

/// A name that has none of the endings keeps what it has.
proof fn lemma_plain_name(name: Seq<char>, from: int)
    requires
        0 <= from <= FACTION_SUFFIXES@.len(),
        forall|ending: Seq<char>| #[trigger] is_faction_ending(ending) ==> !ends_with(name, ending),
    ensures
        without_suffix(name, FACTION_SUFFIXES@, from) == name,
    decreases FACTION_SUFFIXES@.len() - from,
{
    lemma_faction_endings();
    if from < FACTION_SUFFIXES@.len() {
        assert(is_faction_ending(FACTION_SUFFIXES@[from]@));
        lemma_plain_name(name, from + 1);
    }
}

/// The short name of a deployable goes by the words in its class: that of a radio
/// counts before those of a HAB, a rally point and an ammo crate. A class with
/// none of them is its own short name, without prefixes and suffixes.
pub proof fn law_deployable_names(name: Seq<char>)
    ensures
        ({
            let stem = class_stem(name);
            let radio = has_part(stem, "FOBRadio"@) || has_part(stem, "FobRadio"@);
            let hab = has_part(stem, "HAB"@) || has_part(stem, "Hab"@);
            let rally = has_part(stem, "RallyPoint"@) || has_part(stem, "Rallypoint"@);
            let ammo = has_part(stem, "AmmoCrate"@) || has_part(stem, "Ammocrate"@);
            let class = deployable_class(name);
            &&& radio ==> class == "FOBRadio"@
            &&& !radio && hab ==> class == "HAB"@
            &&& !radio && !hab && rally ==> class == "RallyPoint"@
            &&& !radio && !hab && !rally && ammo ==> class == "AmmoCrate"@
            &&& !radio && !hab && !rally && !ammo ==> class == stem
        }),
{
    let stem = class_stem(name);
    assert(RADIO_NAMES@[0]@ == "FOBRadio"@ && RADIO_NAMES@[1]@ == "FobRadio"@);
    assert(HAB_NAMES@[0]@ == "HAB"@ && HAB_NAMES@[1]@ == "Hab"@);
    assert(RALLY_NAMES@[0]@ == "RallyPoint"@ && RALLY_NAMES@[1]@ == "Rallypoint"@);
    assert(AMMO_NAMES@[0]@ == "AmmoCrate"@ && AMMO_NAMES@[1]@ == "Ammocrate"@);
    lemma_two_names(stem, RADIO_NAMES@);
    lemma_two_names(stem, HAB_NAMES@);
    lemma_two_names(stem, RALLY_NAMES@);
    lemma_two_names(stem, AMMO_NAMES@);
}

/// One of two names stands in a text.
proof fn lemma_two_names(text: Seq<char>, names: Seq<&'static str>)
    requires
        names.len() == 2,
    ensures
        names_any(text, names) <==> has_part(text, names[0]@) || has_part(text, names[1]@),
{
    if names_any(text, names) {
        let i = choose|i: int| 0 <= i < names.len() && has_part(text, #[trigger] names[i]@);
        assert(i == 0 || i == 1);
    }
}

} // verus!
