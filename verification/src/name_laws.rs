//! What the lists of names stand for: which words in the name of a class tell
//! what it is.

use crate::classify::{
    component_type, deployable_event_type, deployable_primary_like, helicopter_like, soldier_like,
    capture_zone_like, vehicle_like, DEPLOYABLE_NAMES, EMPLACEMENT_NAMES, HELICOPTER_NAMES,
    NOT_PRIMARY_NAMES, VEHICLE_NAMES, VEHICLE_PART_NAMES,
};
use crate::log_parser::VEHICLE_PAWNS;
use crate::text::{
    ascii_folded, begins_with, has_part, names_any, names_any_ignoring_case, occurs_at,
};
use crate::ticketproof::{
    side_of_vehicle, vehicle_of, ATTACK_HELICOPTERS, CARRIERS, FIGHTING_VEHICLES, LIGHT_ARMOR,
    LOGISTICS_TRUCKS, TANKS, TEAM_1_NAMES, TEAM_2_NAMES, TECHNICALS, TRANSPORT_HELICOPTERS,
    TRANSPORT_TRUCKS,
};
use vstd::prelude::*;

verus! {

/// The name of a class has a word in it, ASCII case aside.
pub open spec fn mentions(name: Seq<char>, word: Seq<char>) -> bool {
    has_part(ascii_folded(name), word)
}

/// The name has that of a helicopter in it.
pub open spec fn names_helicopter(name: Seq<char>) -> bool {
    ||| mentions(name, "loach"@)
    ||| mentions(name, "uh1"@)
    ||| mentions(name, "uh-1"@)
    ||| mentions(name, "uh60"@)
    ||| mentions(name, "uh-60"@)
    ||| mentions(name, "blackhawk"@)
    ||| mentions(name, "black hawk"@)
    ||| mentions(name, "mi8"@)
    ||| mentions(name, "mi-8"@)
    ||| mentions(name, "mi17"@)
    ||| mentions(name, "mi-17"@)
    ||| mentions(name, "ch146"@)
    ||| mentions(name, "ch-146"@)
    ||| mentions(name, "ch178"@)
    ||| mentions(name, "ch-178"@)
    ||| mentions(name, "griffon"@)
    ||| mentions(name, "raven"@)
    ||| mentions(name, "mrh90"@)
    ||| mentions(name, "mrh-90"@)
    ||| mentions(name, "sa330"@)
    ||| mentions(name, "sa-330"@)
    ||| mentions(name, "puma"@)
    ||| mentions(name, "z8"@)
    ||| mentions(name, "z-8"@)
    ||| mentions(name, "z9"@)
    ||| mentions(name, "z-9"@)
    ||| mentions(name, "helicopter"@)
    ||| mentions(name, "heli"@)
}

/// The words are those of the list.
#[verifier::rlimit(60)]
proof fn lemma_helicopter_names(name: Seq<char>)
    ensures
        names_any_ignoring_case(name, HELICOPTER_NAMES@) == names_helicopter(name),
{
    let folded = ascii_folded(name);
    reveal_strlit("loach");
    assert(ascii_folded("loach"@) =~= "loach"@);
    reveal_strlit("uh1");
    assert(ascii_folded("uh1"@) =~= "uh1"@);
    reveal_strlit("uh-1");
    assert(ascii_folded("uh-1"@) =~= "uh-1"@);
    reveal_strlit("uh60");
    assert(ascii_folded("uh60"@) =~= "uh60"@);
    reveal_strlit("uh-60");
    assert(ascii_folded("uh-60"@) =~= "uh-60"@);
    reveal_strlit("blackhawk");
    assert(ascii_folded("blackhawk"@) =~= "blackhawk"@);
    reveal_strlit("black hawk");
    assert(ascii_folded("black hawk"@) =~= "black hawk"@);
    reveal_strlit("mi8");
    assert(ascii_folded("mi8"@) =~= "mi8"@);
    reveal_strlit("mi-8");
    assert(ascii_folded("mi-8"@) =~= "mi-8"@);
    reveal_strlit("mi17");
    assert(ascii_folded("mi17"@) =~= "mi17"@);
    reveal_strlit("mi-17");
    assert(ascii_folded("mi-17"@) =~= "mi-17"@);
    reveal_strlit("ch146");
    assert(ascii_folded("ch146"@) =~= "ch146"@);
    reveal_strlit("ch-146");
    assert(ascii_folded("ch-146"@) =~= "ch-146"@);
    reveal_strlit("ch178");
    assert(ascii_folded("ch178"@) =~= "ch178"@);
    reveal_strlit("ch-178");
    assert(ascii_folded("ch-178"@) =~= "ch-178"@);
    reveal_strlit("griffon");
    assert(ascii_folded("griffon"@) =~= "griffon"@);
    reveal_strlit("raven");
    assert(ascii_folded("raven"@) =~= "raven"@);
    reveal_strlit("mrh90");
    assert(ascii_folded("mrh90"@) =~= "mrh90"@);
    reveal_strlit("mrh-90");
    assert(ascii_folded("mrh-90"@) =~= "mrh-90"@);
    reveal_strlit("sa330");
    assert(ascii_folded("sa330"@) =~= "sa330"@);
    reveal_strlit("sa-330");
    assert(ascii_folded("sa-330"@) =~= "sa-330"@);
    reveal_strlit("puma");
    assert(ascii_folded("puma"@) =~= "puma"@);
    reveal_strlit("z8");
    assert(ascii_folded("z8"@) =~= "z8"@);
    reveal_strlit("z-8");
    assert(ascii_folded("z-8"@) =~= "z-8"@);
    reveal_strlit("z9");
    assert(ascii_folded("z9"@) =~= "z9"@);
    reveal_strlit("z-9");
    assert(ascii_folded("z-9"@) =~= "z-9"@);
    reveal_strlit("helicopter");
    assert(ascii_folded("helicopter"@) =~= "helicopter"@);
    reveal_strlit("heli");
    assert(ascii_folded("heli"@) =~= "heli"@);
    assert(HELICOPTER_NAMES@[0]@ == "loach"@);
    assert(HELICOPTER_NAMES@[1]@ == "uh1"@);
    assert(HELICOPTER_NAMES@[2]@ == "uh-1"@);
    assert(HELICOPTER_NAMES@[3]@ == "uh60"@);
    assert(HELICOPTER_NAMES@[4]@ == "uh-60"@);
    assert(HELICOPTER_NAMES@[5]@ == "blackhawk"@);
    assert(HELICOPTER_NAMES@[6]@ == "black hawk"@);
    assert(HELICOPTER_NAMES@[7]@ == "mi8"@);
    assert(HELICOPTER_NAMES@[8]@ == "mi-8"@);
    assert(HELICOPTER_NAMES@[9]@ == "mi17"@);
    assert(HELICOPTER_NAMES@[10]@ == "mi-17"@);
    assert(HELICOPTER_NAMES@[11]@ == "ch146"@);
    assert(HELICOPTER_NAMES@[12]@ == "ch-146"@);
    assert(HELICOPTER_NAMES@[13]@ == "ch178"@);
    assert(HELICOPTER_NAMES@[14]@ == "ch-178"@);
    assert(HELICOPTER_NAMES@[15]@ == "griffon"@);
    assert(HELICOPTER_NAMES@[16]@ == "raven"@);
    assert(HELICOPTER_NAMES@[17]@ == "mrh90"@);
    assert(HELICOPTER_NAMES@[18]@ == "mrh-90"@);
    assert(HELICOPTER_NAMES@[19]@ == "sa330"@);
    assert(HELICOPTER_NAMES@[20]@ == "sa-330"@);
    assert(HELICOPTER_NAMES@[21]@ == "puma"@);
    assert(HELICOPTER_NAMES@[22]@ == "z8"@);
    assert(HELICOPTER_NAMES@[23]@ == "z-8"@);
    assert(HELICOPTER_NAMES@[24]@ == "z9"@);
    assert(HELICOPTER_NAMES@[25]@ == "z-9"@);
    assert(HELICOPTER_NAMES@[26]@ == "helicopter"@);
    assert(HELICOPTER_NAMES@[27]@ == "heli"@);
    if names_any_ignoring_case(name, HELICOPTER_NAMES@) {
        let i = choose|i: int|
            0 <= i < HELICOPTER_NAMES@.len() && has_part(folded, ascii_folded(#[trigger] HELICOPTER_NAMES@[i]@));
        assert(i == 0 || i == 1 || i == 2 || i == 3 || i == 4 || i == 5 || i == 6 || i == 7
            || i == 8 || i == 9 || i == 10 || i == 11 || i == 12 || i == 13 || i == 14 || i == 15
            || i == 16 || i == 17 || i == 18 || i == 19 || i == 20 || i == 21 || i == 22 || i == 23
            || i == 24 || i == 25 || i == 26 || i == 27);
    }
}

/// The name has that of a part of a deployable, or of a tool, in it.
pub open spec fn names_tool(name: Seq<char>) -> bool {
    ||| mentions(name, "sqdeployablechildactor_gen_variable"@)
    ||| mentions(name, "weapon"@)
    ||| mentions(name, "baseplate"@)
    ||| mentions(name, "repairtool"@)
}

/// The words are those of the list.
#[verifier::rlimit(60)]
proof fn lemma_tool_names(name: Seq<char>)
    ensures
        names_any_ignoring_case(name, NOT_PRIMARY_NAMES@) == names_tool(name),
{
    let folded = ascii_folded(name);
    reveal_strlit("sqdeployablechildactor_gen_variable");
    assert(ascii_folded("sqdeployablechildactor_gen_variable"@) =~= "sqdeployablechildactor_gen_variable"@);
    reveal_strlit("weapon");
    assert(ascii_folded("weapon"@) =~= "weapon"@);
    reveal_strlit("baseplate");
    assert(ascii_folded("baseplate"@) =~= "baseplate"@);
    reveal_strlit("repairtool");
    assert(ascii_folded("repairtool"@) =~= "repairtool"@);
    assert(NOT_PRIMARY_NAMES@[0]@ == "sqdeployablechildactor_gen_variable"@);
    assert(NOT_PRIMARY_NAMES@[1]@ == "weapon"@);
    assert(NOT_PRIMARY_NAMES@[2]@ == "baseplate"@);
    assert(NOT_PRIMARY_NAMES@[3]@ == "repairtool"@);
    if names_any_ignoring_case(name, NOT_PRIMARY_NAMES@) {
        let i = choose|i: int|
            0 <= i < NOT_PRIMARY_NAMES@.len() && has_part(folded, ascii_folded(#[trigger] NOT_PRIMARY_NAMES@[i]@));
        assert(i == 0 || i == 1 || i == 2 || i == 3);
    }
}

/// The name has that of a deployable in it.
pub open spec fn names_deployable(name: Seq<char>) -> bool {
    ||| mentions(name, "fobradio"@)
    ||| mentions(name, "_hab_"@)
    ||| mentions(name, "hab_"@)
    ||| mentions(name, "ammocrate"@)
    ||| mentions(name, "vehicle_repair"@)
    ||| mentions(name, "rallypoint"@)
    ||| mentions(name, "_deployable"@)
    ||| mentions(name, "_tripod"@)
    ||| mentions(name, "dshk"@)
    ||| mentions(name, "kord_tripod"@)
    ||| mentions(name, "kornet_tripod"@)
    ||| mentions(name, "spg9_tripod"@)
    ||| mentions(name, "hj-8atgm_deployable"@)
    ||| mentions(name, "hj-8atgm_tripod"@)
    ||| mentions(name, "mk19_tripod"@)
    ||| mentions(name, "zu-23_emplacement"@)
}

/// The words are those of the list.
#[verifier::rlimit(60)]
proof fn lemma_deployable_names(name: Seq<char>)
    ensures
        names_any_ignoring_case(name, DEPLOYABLE_NAMES@) == names_deployable(name),
{
    let folded = ascii_folded(name);
    reveal_strlit("fobradio");
    assert(ascii_folded("fobradio"@) =~= "fobradio"@);
    reveal_strlit("_hab_");
    assert(ascii_folded("_hab_"@) =~= "_hab_"@);
    reveal_strlit("hab_");
    assert(ascii_folded("hab_"@) =~= "hab_"@);
    reveal_strlit("ammocrate");
    assert(ascii_folded("ammocrate"@) =~= "ammocrate"@);
    reveal_strlit("vehicle_repair");
    assert(ascii_folded("vehicle_repair"@) =~= "vehicle_repair"@);
    reveal_strlit("rallypoint");
    assert(ascii_folded("rallypoint"@) =~= "rallypoint"@);
    reveal_strlit("_deployable");
    assert(ascii_folded("_deployable"@) =~= "_deployable"@);
    reveal_strlit("_tripod");
    assert(ascii_folded("_tripod"@) =~= "_tripod"@);
    reveal_strlit("dshk");
    assert(ascii_folded("dshk"@) =~= "dshk"@);
    reveal_strlit("kord_tripod");
    assert(ascii_folded("kord_tripod"@) =~= "kord_tripod"@);
    reveal_strlit("kornet_tripod");
    assert(ascii_folded("kornet_tripod"@) =~= "kornet_tripod"@);
    reveal_strlit("spg9_tripod");
    assert(ascii_folded("spg9_tripod"@) =~= "spg9_tripod"@);
    reveal_strlit("hj-8atgm_deployable");
    assert(ascii_folded("hj-8atgm_deployable"@) =~= "hj-8atgm_deployable"@);
    reveal_strlit("hj-8atgm_tripod");
    assert(ascii_folded("hj-8atgm_tripod"@) =~= "hj-8atgm_tripod"@);
    reveal_strlit("mk19_tripod");
    assert(ascii_folded("mk19_tripod"@) =~= "mk19_tripod"@);
    reveal_strlit("zu-23_emplacement");
    assert(ascii_folded("zu-23_emplacement"@) =~= "zu-23_emplacement"@);
    assert(DEPLOYABLE_NAMES@[0]@ == "fobradio"@);
    assert(DEPLOYABLE_NAMES@[1]@ == "_hab_"@);
    assert(DEPLOYABLE_NAMES@[2]@ == "hab_"@);
    assert(DEPLOYABLE_NAMES@[3]@ == "ammocrate"@);
    assert(DEPLOYABLE_NAMES@[4]@ == "vehicle_repair"@);
    assert(DEPLOYABLE_NAMES@[5]@ == "rallypoint"@);
    assert(DEPLOYABLE_NAMES@[6]@ == "_deployable"@);
    assert(DEPLOYABLE_NAMES@[7]@ == "_tripod"@);
    assert(DEPLOYABLE_NAMES@[8]@ == "dshk"@);
    assert(DEPLOYABLE_NAMES@[9]@ == "kord_tripod"@);
    assert(DEPLOYABLE_NAMES@[10]@ == "kornet_tripod"@);
    assert(DEPLOYABLE_NAMES@[11]@ == "spg9_tripod"@);
    assert(DEPLOYABLE_NAMES@[12]@ == "hj-8atgm_deployable"@);
    assert(DEPLOYABLE_NAMES@[13]@ == "hj-8atgm_tripod"@);
    assert(DEPLOYABLE_NAMES@[14]@ == "mk19_tripod"@);
    assert(DEPLOYABLE_NAMES@[15]@ == "zu-23_emplacement"@);
    if names_any_ignoring_case(name, DEPLOYABLE_NAMES@) {
        let i = choose|i: int|
            0 <= i < DEPLOYABLE_NAMES@.len() && has_part(folded, ascii_folded(#[trigger] DEPLOYABLE_NAMES@[i]@));
        assert(i == 0 || i == 1 || i == 2 || i == 3 || i == 4 || i == 5 || i == 6 || i == 7
            || i == 8 || i == 9 || i == 10 || i == 11 || i == 12 || i == 13 || i == 14 || i == 15);
    }
}

/// The name has that of a part of a vehicle in it.
pub open spec fn names_vehicle_part(name: Seq<char>) -> bool {
    ||| mentions(name, "seat"@)
    ||| mentions(name, "turret"@)
    ||| mentions(name, "passenger"@)
    ||| mentions(name, "weapon"@)
    ||| mentions(name, "ammowep"@)
    ||| mentions(name, "smokegenerator"@)
    ||| mentions(name, "resourceweapon"@)
    ||| mentions(name, "projectile"@)
    ||| mentions(name, "commander"@)
    ||| mentions(name, "cupola"@)
    ||| mentions(name, "doorgun"@)
    ||| mentions(name, "launcher"@)
    ||| mentions(name, "destruction"@)
    ||| mentions(name, "turret1"@)
    ||| mentions(name, "turret2"@)
    ||| mentions(name, "turret3"@)
    ||| mentions(name, "cmdr"@)
    ||| mentions(name, "pintle"@)
    ||| mentions(name, "commander_turret"@)
}

/// The words are those of the list.
#[verifier::rlimit(60)]
proof fn lemma_vehicle_part_names(name: Seq<char>)
    ensures
        names_any_ignoring_case(name, VEHICLE_PART_NAMES@) == names_vehicle_part(name),
{
    let folded = ascii_folded(name);
    reveal_strlit("seat");
    assert(ascii_folded("seat"@) =~= "seat"@);
    reveal_strlit("turret");
    assert(ascii_folded("turret"@) =~= "turret"@);
    reveal_strlit("passenger");
    assert(ascii_folded("passenger"@) =~= "passenger"@);
    reveal_strlit("weapon");
    assert(ascii_folded("weapon"@) =~= "weapon"@);
    reveal_strlit("ammowep");
    assert(ascii_folded("ammowep"@) =~= "ammowep"@);
    reveal_strlit("smokegenerator");
    assert(ascii_folded("smokegenerator"@) =~= "smokegenerator"@);
    reveal_strlit("resourceweapon");
    assert(ascii_folded("resourceweapon"@) =~= "resourceweapon"@);
    reveal_strlit("projectile");
    assert(ascii_folded("projectile"@) =~= "projectile"@);
    reveal_strlit("commander");
    assert(ascii_folded("commander"@) =~= "commander"@);
    reveal_strlit("cupola");
    assert(ascii_folded("cupola"@) =~= "cupola"@);
    reveal_strlit("doorgun");
    assert(ascii_folded("doorgun"@) =~= "doorgun"@);
    reveal_strlit("launcher");
    assert(ascii_folded("launcher"@) =~= "launcher"@);
    reveal_strlit("destruction");
    assert(ascii_folded("destruction"@) =~= "destruction"@);
    reveal_strlit("turret1");
    assert(ascii_folded("turret1"@) =~= "turret1"@);
    reveal_strlit("turret2");
    assert(ascii_folded("turret2"@) =~= "turret2"@);
    reveal_strlit("turret3");
    assert(ascii_folded("turret3"@) =~= "turret3"@);
    reveal_strlit("cmdr");
    assert(ascii_folded("cmdr"@) =~= "cmdr"@);
    reveal_strlit("pintle");
    assert(ascii_folded("pintle"@) =~= "pintle"@);
    reveal_strlit("commander_turret");
    assert(ascii_folded("commander_turret"@) =~= "commander_turret"@);
    assert(VEHICLE_PART_NAMES@[0]@ == "seat"@);
    assert(VEHICLE_PART_NAMES@[1]@ == "turret"@);
    assert(VEHICLE_PART_NAMES@[2]@ == "passenger"@);
    assert(VEHICLE_PART_NAMES@[3]@ == "weapon"@);
    assert(VEHICLE_PART_NAMES@[4]@ == "ammowep"@);
    assert(VEHICLE_PART_NAMES@[5]@ == "smokegenerator"@);
    assert(VEHICLE_PART_NAMES@[6]@ == "resourceweapon"@);
    assert(VEHICLE_PART_NAMES@[7]@ == "projectile"@);
    assert(VEHICLE_PART_NAMES@[8]@ == "commander"@);
    assert(VEHICLE_PART_NAMES@[9]@ == "cupola"@);
    assert(VEHICLE_PART_NAMES@[10]@ == "doorgun"@);
    assert(VEHICLE_PART_NAMES@[11]@ == "doorgun"@);
    assert(VEHICLE_PART_NAMES@[12]@ == "launcher"@);
    assert(VEHICLE_PART_NAMES@[13]@ == "destruction"@);
    assert(VEHICLE_PART_NAMES@[14]@ == "turret1"@);
    assert(VEHICLE_PART_NAMES@[15]@ == "turret2"@);
    assert(VEHICLE_PART_NAMES@[16]@ == "turret3"@);
    assert(VEHICLE_PART_NAMES@[17]@ == "cmdr"@);
    assert(VEHICLE_PART_NAMES@[18]@ == "pintle"@);
    assert(VEHICLE_PART_NAMES@[19]@ == "commander_turret"@);
    if names_any_ignoring_case(name, VEHICLE_PART_NAMES@) {
        let i = choose|i: int|
            0 <= i < VEHICLE_PART_NAMES@.len() && has_part(folded, ascii_folded(#[trigger] VEHICLE_PART_NAMES@[i]@));
        assert(i == 0 || i == 1 || i == 2 || i == 3 || i == 4 || i == 5 || i == 6 || i == 7
            || i == 8 || i == 9 || i == 10 || i == 11 || i == 12 || i == 13 || i == 14 || i == 15
            || i == 16 || i == 17 || i == 18 || i == 19);
    }
}

/// The name has that of a vehicle in it.
pub open spec fn names_vehicle(name: Seq<char>) -> bool {
    ||| mentions(name, "m1a1"@)
    ||| mentions(name, "m1a2"@)
    ||| mentions(name, "abrams"@)
    ||| mentions(name, "t72"@)
    ||| mentions(name, "t62"@)
    ||| mentions(name, "t64"@)
    ||| mentions(name, "t90"@)
    ||| mentions(name, "fv4034"@)
    ||| mentions(name, "challenger"@)
    ||| mentions(name, "leopard"@)
    ||| mentions(name, "m60"@)
    ||| mentions(name, "ztz99"@)
    ||| mentions(name, "m1128"@)
    ||| mentions(name, "sprut"@)
    ||| mentions(name, "ztd05"@)
    ||| mentions(name, "coyote"@)
    ||| mentions(name, "fv107"@)
    ||| mentions(name, "bmp"@)
    ||| mentions(name, "bmd"@)
    ||| mentions(name, "btr82"@)
    ||| mentions(name, "fv510"@)
    ||| mentions(name, "fv520"@)
    ||| mentions(name, "warrior"@)
    ||| mentions(name, "m2a3"@)
    ||| mentions(name, "bradley"@)
    ||| mentions(name, "lav25"@)
    ||| mentions(name, "lav-25"@)
    ||| mentions(name, "aslav"@)
    ||| mentions(name, "lav6"@)
    ||| mentions(name, "lav_6"@)
    ||| mentions(name, "acv15"@)
    ||| mentions(name, "acv-15"@)
    ||| mentions(name, "pars"@)
    ||| mentions(name, "zbd04"@)
    ||| mentions(name, "zbd05"@)
    ||| mentions(name, "zbd"@)
    ||| mentions(name, "zbl08"@)
    ||| mentions(name, "zbl"@)
    ||| mentions(name, "zsd89"@)
    ||| mentions(name, "zsd"@)
    ||| mentions(name, "zsl92"@)
    ||| mentions(name, "zsl"@)
    ||| mentions(name, "aavp"@)
    ||| mentions(name, "aavc"@)
    ||| mentions(name, "btr"@)
    ||| mentions(name, "fv432"@)
    ||| mentions(name, "lav"@)
    ||| mentions(name, "m1126"@)
    ||| mentions(name, "stryker"@)
    ||| mentions(name, "m113"@)
    ||| mentions(name, "tlav"@)
    ||| mentions(name, "mtlb"@)
    ||| mentions(name, "mt-lb"@)
    ||| mentions(name, "zsl10"@)
    ||| mentions(name, "m1151"@)
    ||| mentions(name, "humvee"@)
    ||| mentions(name, "matv"@)
    ||| mentions(name, "m-atv"@)
    ||| mentions(name, "brdm"@)
    ||| mentions(name, "cobra"@)
    ||| mentions(name, "csk131"@)
    ||| mentions(name, "kozak"@)
    ||| mentions(name, "lppv"@)
    ||| mentions(name, "luv"@)
    ||| mentions(name, "luvw"@)
    ||| mentions(name, "lynx"@)
    ||| mentions(name, "pmv"@)
    ||| mentions(name, "bushmaster"@)
    ||| mentions(name, "simir"@)
    ||| mentions(name, "safir"@)
    ||| mentions(name, "tapv"@)
    ||| mentions(name, "technical"@)
    ||| mentions(name, "tigr"@)
    ||| mentions(name, "mrap"@)
    ||| mentions(name, "kamaz"@)
    ||| mentions(name, "kraz"@)
    ||| mentions(name, "ural"@)
    ||| mentions(name, "m939"@)
    ||| mentions(name, "man_hx"@)
    ||| mentions(name, "manhx"@)
    ||| mentions(name, "man_truck"@)
    ||| mentions(name, "msvs"@)
    ||| mentions(name, "ctm131"@)
    ||| mentions(name, "ctm"@)
    ||| mentions(name, "bmc"@)
    ||| mentions(name, "truck"@)
    ||| mentions(name, "logistics"@)
    ||| mentions(name, "logi"@)
    ||| mentions(name, "util_truck"@)
    ||| mentions(name, "bm21"@)
    ||| mentions(name, "bm-21"@)
    ||| mentions(name, "grad"@)
    ||| mentions(name, "m1064"@)
    ||| mentions(name, "minsk"@)
    ||| mentions(name, "quadbike"@)
    ||| mentions(name, "quad_bike"@)
    ||| mentions(name, "motorbike"@)
    ||| mentions(name, "rhib"@)
    ||| mentions(name, "boat"@)
    ||| mentions(name, "tank"@)
    ||| mentions(name, "apc"@)
    ||| mentions(name, "ifv"@)
    ||| mentions(name, "heli"@)
    ||| mentions(name, "vehicle"@)
}

/// The words are those of the list.
#[verifier::rlimit(60)]
proof fn lemma_vehicle_names(name: Seq<char>)
    ensures
        names_any_ignoring_case(name, VEHICLE_NAMES@) == names_vehicle(name),
{
    let folded = ascii_folded(name);
    reveal_strlit("m1a1");
    assert(ascii_folded("m1a1"@) =~= "m1a1"@);
    reveal_strlit("m1a2");
    assert(ascii_folded("m1a2"@) =~= "m1a2"@);
    reveal_strlit("abrams");
    assert(ascii_folded("abrams"@) =~= "abrams"@);
    reveal_strlit("t72");
    assert(ascii_folded("t72"@) =~= "t72"@);
    reveal_strlit("t62");
    assert(ascii_folded("t62"@) =~= "t62"@);
    reveal_strlit("t64");
    assert(ascii_folded("t64"@) =~= "t64"@);
    reveal_strlit("t90");
    assert(ascii_folded("t90"@) =~= "t90"@);
    reveal_strlit("fv4034");
    assert(ascii_folded("fv4034"@) =~= "fv4034"@);
    reveal_strlit("challenger");
    assert(ascii_folded("challenger"@) =~= "challenger"@);
    reveal_strlit("leopard");
    assert(ascii_folded("leopard"@) =~= "leopard"@);
    reveal_strlit("m60");
    assert(ascii_folded("m60"@) =~= "m60"@);
    reveal_strlit("ztz99");
    assert(ascii_folded("ztz99"@) =~= "ztz99"@);
    reveal_strlit("m1128");
    assert(ascii_folded("m1128"@) =~= "m1128"@);
    reveal_strlit("sprut");
    assert(ascii_folded("sprut"@) =~= "sprut"@);
    reveal_strlit("ztd05");
    assert(ascii_folded("ztd05"@) =~= "ztd05"@);
    reveal_strlit("coyote");
    assert(ascii_folded("coyote"@) =~= "coyote"@);
    reveal_strlit("fv107");
    assert(ascii_folded("fv107"@) =~= "fv107"@);
    reveal_strlit("bmp");
    assert(ascii_folded("bmp"@) =~= "bmp"@);
    reveal_strlit("bmd");
    assert(ascii_folded("bmd"@) =~= "bmd"@);
    reveal_strlit("btr82");
    assert(ascii_folded("btr82"@) =~= "btr82"@);
    reveal_strlit("fv510");
    assert(ascii_folded("fv510"@) =~= "fv510"@);
    reveal_strlit("fv520");
    assert(ascii_folded("fv520"@) =~= "fv520"@);
    reveal_strlit("warrior");
    assert(ascii_folded("warrior"@) =~= "warrior"@);
    reveal_strlit("m2a3");
    assert(ascii_folded("m2a3"@) =~= "m2a3"@);
    reveal_strlit("bradley");
    assert(ascii_folded("bradley"@) =~= "bradley"@);
    reveal_strlit("lav25");
    assert(ascii_folded("lav25"@) =~= "lav25"@);
    reveal_strlit("lav-25");
    assert(ascii_folded("lav-25"@) =~= "lav-25"@);
    reveal_strlit("aslav");
    assert(ascii_folded("aslav"@) =~= "aslav"@);
    reveal_strlit("lav6");
    assert(ascii_folded("lav6"@) =~= "lav6"@);
    reveal_strlit("lav_6");
    assert(ascii_folded("lav_6"@) =~= "lav_6"@);
    reveal_strlit("acv15");
    assert(ascii_folded("acv15"@) =~= "acv15"@);
    reveal_strlit("acv-15");
    assert(ascii_folded("acv-15"@) =~= "acv-15"@);
    reveal_strlit("pars");
    assert(ascii_folded("pars"@) =~= "pars"@);
    reveal_strlit("zbd04");
    assert(ascii_folded("zbd04"@) =~= "zbd04"@);
    reveal_strlit("zbd05");
    assert(ascii_folded("zbd05"@) =~= "zbd05"@);
    reveal_strlit("zbd");
    assert(ascii_folded("zbd"@) =~= "zbd"@);
    reveal_strlit("zbl08");
    assert(ascii_folded("zbl08"@) =~= "zbl08"@);
    reveal_strlit("zbl");
    assert(ascii_folded("zbl"@) =~= "zbl"@);
    reveal_strlit("zsd89");
    assert(ascii_folded("zsd89"@) =~= "zsd89"@);
    reveal_strlit("zsd");
    assert(ascii_folded("zsd"@) =~= "zsd"@);
    reveal_strlit("zsl92");
    assert(ascii_folded("zsl92"@) =~= "zsl92"@);
    reveal_strlit("zsl");
    assert(ascii_folded("zsl"@) =~= "zsl"@);
    reveal_strlit("aavp");
    assert(ascii_folded("aavp"@) =~= "aavp"@);
    reveal_strlit("aavc");
    assert(ascii_folded("aavc"@) =~= "aavc"@);
    reveal_strlit("btr");
    assert(ascii_folded("btr"@) =~= "btr"@);
    reveal_strlit("fv432");
    assert(ascii_folded("fv432"@) =~= "fv432"@);
    reveal_strlit("lav");
    assert(ascii_folded("lav"@) =~= "lav"@);
    reveal_strlit("m1126");
    assert(ascii_folded("m1126"@) =~= "m1126"@);
    reveal_strlit("stryker");
    assert(ascii_folded("stryker"@) =~= "stryker"@);
    reveal_strlit("m113");
    assert(ascii_folded("m113"@) =~= "m113"@);
    reveal_strlit("tlav");
    assert(ascii_folded("tlav"@) =~= "tlav"@);
    reveal_strlit("mtlb");
    assert(ascii_folded("mtlb"@) =~= "mtlb"@);
    reveal_strlit("mt-lb");
    assert(ascii_folded("mt-lb"@) =~= "mt-lb"@);
    reveal_strlit("zsl10");
    assert(ascii_folded("zsl10"@) =~= "zsl10"@);
    reveal_strlit("m1151");
    assert(ascii_folded("m1151"@) =~= "m1151"@);
    reveal_strlit("humvee");
    assert(ascii_folded("humvee"@) =~= "humvee"@);
    reveal_strlit("matv");
    assert(ascii_folded("matv"@) =~= "matv"@);
    reveal_strlit("m-atv");
    assert(ascii_folded("m-atv"@) =~= "m-atv"@);
    reveal_strlit("brdm");
    assert(ascii_folded("brdm"@) =~= "brdm"@);
    reveal_strlit("cobra");
    assert(ascii_folded("cobra"@) =~= "cobra"@);
    reveal_strlit("csk131");
    assert(ascii_folded("csk131"@) =~= "csk131"@);
    reveal_strlit("kozak");
    assert(ascii_folded("kozak"@) =~= "kozak"@);
    reveal_strlit("lppv");
    assert(ascii_folded("lppv"@) =~= "lppv"@);
    reveal_strlit("luv");
    assert(ascii_folded("luv"@) =~= "luv"@);
    reveal_strlit("luvw");
    assert(ascii_folded("luvw"@) =~= "luvw"@);
    reveal_strlit("lynx");
    assert(ascii_folded("lynx"@) =~= "lynx"@);
    reveal_strlit("pmv");
    assert(ascii_folded("pmv"@) =~= "pmv"@);
    reveal_strlit("bushmaster");
    assert(ascii_folded("bushmaster"@) =~= "bushmaster"@);
    reveal_strlit("simir");
    assert(ascii_folded("simir"@) =~= "simir"@);
    reveal_strlit("safir");
    assert(ascii_folded("safir"@) =~= "safir"@);
    reveal_strlit("tapv");
    assert(ascii_folded("tapv"@) =~= "tapv"@);
    reveal_strlit("technical");
    assert(ascii_folded("technical"@) =~= "technical"@);
    reveal_strlit("tigr");
    assert(ascii_folded("tigr"@) =~= "tigr"@);
    reveal_strlit("mrap");
    assert(ascii_folded("mrap"@) =~= "mrap"@);
    reveal_strlit("kamaz");
    assert(ascii_folded("kamaz"@) =~= "kamaz"@);
    reveal_strlit("kraz");
    assert(ascii_folded("kraz"@) =~= "kraz"@);
    reveal_strlit("ural");
    assert(ascii_folded("ural"@) =~= "ural"@);
    reveal_strlit("m939");
    assert(ascii_folded("m939"@) =~= "m939"@);
    reveal_strlit("man_hx");
    assert(ascii_folded("man_hx"@) =~= "man_hx"@);
    reveal_strlit("manhx");
    assert(ascii_folded("manhx"@) =~= "manhx"@);
    reveal_strlit("man_truck");
    assert(ascii_folded("man_truck"@) =~= "man_truck"@);
    reveal_strlit("msvs");
    assert(ascii_folded("msvs"@) =~= "msvs"@);
    reveal_strlit("ctm131");
    assert(ascii_folded("ctm131"@) =~= "ctm131"@);
    reveal_strlit("ctm");
    assert(ascii_folded("ctm"@) =~= "ctm"@);
    reveal_strlit("bmc");
    assert(ascii_folded("bmc"@) =~= "bmc"@);
    reveal_strlit("truck");
    assert(ascii_folded("truck"@) =~= "truck"@);
    reveal_strlit("logistics");
    assert(ascii_folded("logistics"@) =~= "logistics"@);
    reveal_strlit("logi");
    assert(ascii_folded("logi"@) =~= "logi"@);
    reveal_strlit("util_truck");
    assert(ascii_folded("util_truck"@) =~= "util_truck"@);
    reveal_strlit("bm21");
    assert(ascii_folded("bm21"@) =~= "bm21"@);
    reveal_strlit("bm-21");
    assert(ascii_folded("bm-21"@) =~= "bm-21"@);
    reveal_strlit("grad");
    assert(ascii_folded("grad"@) =~= "grad"@);
    reveal_strlit("m1064");
    assert(ascii_folded("m1064"@) =~= "m1064"@);
    reveal_strlit("minsk");
    assert(ascii_folded("minsk"@) =~= "minsk"@);
    reveal_strlit("quadbike");
    assert(ascii_folded("quadbike"@) =~= "quadbike"@);
    reveal_strlit("quad_bike");
    assert(ascii_folded("quad_bike"@) =~= "quad_bike"@);
    reveal_strlit("motorbike");
    assert(ascii_folded("motorbike"@) =~= "motorbike"@);
    reveal_strlit("rhib");
    assert(ascii_folded("rhib"@) =~= "rhib"@);
    reveal_strlit("boat");
    assert(ascii_folded("boat"@) =~= "boat"@);
    reveal_strlit("tank");
    assert(ascii_folded("tank"@) =~= "tank"@);
    reveal_strlit("apc");
    assert(ascii_folded("apc"@) =~= "apc"@);
    reveal_strlit("ifv");
    assert(ascii_folded("ifv"@) =~= "ifv"@);
    reveal_strlit("heli");
    assert(ascii_folded("heli"@) =~= "heli"@);
    reveal_strlit("vehicle");
    assert(ascii_folded("vehicle"@) =~= "vehicle"@);
    assert(VEHICLE_NAMES@[0]@ == "m1a1"@);
    assert(VEHICLE_NAMES@[1]@ == "m1a2"@);
    assert(VEHICLE_NAMES@[2]@ == "abrams"@);
    assert(VEHICLE_NAMES@[3]@ == "t72"@);
    assert(VEHICLE_NAMES@[4]@ == "t62"@);
    assert(VEHICLE_NAMES@[5]@ == "t64"@);
    assert(VEHICLE_NAMES@[6]@ == "t90"@);
    assert(VEHICLE_NAMES@[7]@ == "fv4034"@);
    assert(VEHICLE_NAMES@[8]@ == "challenger"@);
    assert(VEHICLE_NAMES@[9]@ == "leopard"@);
    assert(VEHICLE_NAMES@[10]@ == "m60"@);
    assert(VEHICLE_NAMES@[11]@ == "ztz99"@);
    assert(VEHICLE_NAMES@[12]@ == "m1128"@);
    assert(VEHICLE_NAMES@[13]@ == "sprut"@);
    assert(VEHICLE_NAMES@[14]@ == "ztd05"@);
    assert(VEHICLE_NAMES@[15]@ == "coyote"@);
    assert(VEHICLE_NAMES@[16]@ == "fv107"@);
    assert(VEHICLE_NAMES@[17]@ == "bmp"@);
    assert(VEHICLE_NAMES@[18]@ == "bmd"@);
    assert(VEHICLE_NAMES@[19]@ == "btr82"@);
    assert(VEHICLE_NAMES@[20]@ == "fv510"@);
    assert(VEHICLE_NAMES@[21]@ == "fv520"@);
    assert(VEHICLE_NAMES@[22]@ == "warrior"@);
    assert(VEHICLE_NAMES@[23]@ == "m2a3"@);
    assert(VEHICLE_NAMES@[24]@ == "bradley"@);
    assert(VEHICLE_NAMES@[25]@ == "lav25"@);
    assert(VEHICLE_NAMES@[26]@ == "lav-25"@);
    assert(VEHICLE_NAMES@[27]@ == "aslav"@);
    assert(VEHICLE_NAMES@[28]@ == "lav6"@);
    assert(VEHICLE_NAMES@[29]@ == "lav_6"@);
    assert(VEHICLE_NAMES@[30]@ == "acv15"@);
    assert(VEHICLE_NAMES@[31]@ == "acv-15"@);
    assert(VEHICLE_NAMES@[32]@ == "pars"@);
    assert(VEHICLE_NAMES@[33]@ == "zbd04"@);
    assert(VEHICLE_NAMES@[34]@ == "zbd05"@);
    assert(VEHICLE_NAMES@[35]@ == "zbd"@);
    assert(VEHICLE_NAMES@[36]@ == "zbl08"@);
    assert(VEHICLE_NAMES@[37]@ == "zbl"@);
    assert(VEHICLE_NAMES@[38]@ == "zsd89"@);
    assert(VEHICLE_NAMES@[39]@ == "zsd"@);
    assert(VEHICLE_NAMES@[40]@ == "zsl92"@);
    assert(VEHICLE_NAMES@[41]@ == "zsl"@);
    assert(VEHICLE_NAMES@[42]@ == "aavp"@);
    assert(VEHICLE_NAMES@[43]@ == "aavc"@);
    assert(VEHICLE_NAMES@[44]@ == "btr"@);
    assert(VEHICLE_NAMES@[45]@ == "fv432"@);
    assert(VEHICLE_NAMES@[46]@ == "lav"@);
    assert(VEHICLE_NAMES@[47]@ == "m1126"@);
    assert(VEHICLE_NAMES@[48]@ == "stryker"@);
    assert(VEHICLE_NAMES@[49]@ == "m113"@);
    assert(VEHICLE_NAMES@[50]@ == "tlav"@);
    assert(VEHICLE_NAMES@[51]@ == "mtlb"@);
    assert(VEHICLE_NAMES@[52]@ == "mt-lb"@);
    assert(VEHICLE_NAMES@[53]@ == "zsl10"@);
    assert(VEHICLE_NAMES@[54]@ == "m1151"@);
    assert(VEHICLE_NAMES@[55]@ == "humvee"@);
    assert(VEHICLE_NAMES@[56]@ == "matv"@);
    assert(VEHICLE_NAMES@[57]@ == "m-atv"@);
    assert(VEHICLE_NAMES@[58]@ == "brdm"@);
    assert(VEHICLE_NAMES@[59]@ == "cobra"@);
    assert(VEHICLE_NAMES@[60]@ == "csk131"@);
    assert(VEHICLE_NAMES@[61]@ == "kozak"@);
    assert(VEHICLE_NAMES@[62]@ == "lppv"@);
    assert(VEHICLE_NAMES@[63]@ == "luv"@);
    assert(VEHICLE_NAMES@[64]@ == "luvw"@);
    assert(VEHICLE_NAMES@[65]@ == "lynx"@);
    assert(VEHICLE_NAMES@[66]@ == "pmv"@);
    assert(VEHICLE_NAMES@[67]@ == "bushmaster"@);
    assert(VEHICLE_NAMES@[68]@ == "simir"@);
    assert(VEHICLE_NAMES@[69]@ == "safir"@);
    assert(VEHICLE_NAMES@[70]@ == "tapv"@);
    assert(VEHICLE_NAMES@[71]@ == "technical"@);
    assert(VEHICLE_NAMES@[72]@ == "tigr"@);
    assert(VEHICLE_NAMES@[73]@ == "mrap"@);
    assert(VEHICLE_NAMES@[74]@ == "kamaz"@);
    assert(VEHICLE_NAMES@[75]@ == "kraz"@);
    assert(VEHICLE_NAMES@[76]@ == "ural"@);
    assert(VEHICLE_NAMES@[77]@ == "m939"@);
    assert(VEHICLE_NAMES@[78]@ == "man_hx"@);
    assert(VEHICLE_NAMES@[79]@ == "manhx"@);
    assert(VEHICLE_NAMES@[80]@ == "man_truck"@);
    assert(VEHICLE_NAMES@[81]@ == "msvs"@);
    assert(VEHICLE_NAMES@[82]@ == "ctm131"@);
    assert(VEHICLE_NAMES@[83]@ == "ctm"@);
    assert(VEHICLE_NAMES@[84]@ == "bmc"@);
    assert(VEHICLE_NAMES@[85]@ == "truck"@);
    assert(VEHICLE_NAMES@[86]@ == "logistics"@);
    assert(VEHICLE_NAMES@[87]@ == "logi"@);
    assert(VEHICLE_NAMES@[88]@ == "util_truck"@);
    assert(VEHICLE_NAMES@[89]@ == "bm21"@);
    assert(VEHICLE_NAMES@[90]@ == "bm-21"@);
    assert(VEHICLE_NAMES@[91]@ == "grad"@);
    assert(VEHICLE_NAMES@[92]@ == "m1064"@);
    assert(VEHICLE_NAMES@[93]@ == "minsk"@);
    assert(VEHICLE_NAMES@[94]@ == "quadbike"@);
    assert(VEHICLE_NAMES@[95]@ == "quad_bike"@);
    assert(VEHICLE_NAMES@[96]@ == "motorbike"@);
    assert(VEHICLE_NAMES@[97]@ == "rhib"@);
    assert(VEHICLE_NAMES@[98]@ == "boat"@);
    assert(VEHICLE_NAMES@[99]@ == "tank"@);
    assert(VEHICLE_NAMES@[100]@ == "apc"@);
    assert(VEHICLE_NAMES@[101]@ == "ifv"@);
    assert(VEHICLE_NAMES@[102]@ == "heli"@);
    assert(VEHICLE_NAMES@[103]@ == "vehicle"@);
    if names_any_ignoring_case(name, VEHICLE_NAMES@) {
        let i = choose|i: int|
            0 <= i < VEHICLE_NAMES@.len() && has_part(folded, ascii_folded(#[trigger] VEHICLE_NAMES@[i]@));
        assert(i == 0 || i == 1 || i == 2 || i == 3 || i == 4 || i == 5 || i == 6 || i == 7
            || i == 8 || i == 9 || i == 10 || i == 11 || i == 12 || i == 13 || i == 14 || i == 15
            || i == 16 || i == 17 || i == 18 || i == 19 || i == 20 || i == 21 || i == 22 || i == 23
            || i == 24 || i == 25 || i == 26 || i == 27 || i == 28 || i == 29 || i == 30 || i == 31
            || i == 32 || i == 33 || i == 34 || i == 35 || i == 36 || i == 37 || i == 38 || i == 39
            || i == 40 || i == 41 || i == 42 || i == 43 || i == 44 || i == 45 || i == 46 || i == 47
            || i == 48 || i == 49 || i == 50 || i == 51 || i == 52 || i == 53 || i == 54 || i == 55
            || i == 56 || i == 57 || i == 58 || i == 59 || i == 60 || i == 61 || i == 62 || i == 63
            || i == 64 || i == 65 || i == 66 || i == 67 || i == 68 || i == 69 || i == 70 || i == 71
            || i == 72 || i == 73 || i == 74 || i == 75 || i == 76 || i == 77 || i == 78 || i == 79
            || i == 80 || i == 81 || i == 82 || i == 83 || i == 84 || i == 85 || i == 86 || i == 87
            || i == 88 || i == 89 || i == 90 || i == 91 || i == 92 || i == 93 || i == 94 || i == 95
            || i == 96 || i == 97 || i == 98 || i == 99 || i == 100 || i == 101 || i == 102 || i == 103);
    }
}

/// The name has that of an emplaced weapon in it.
pub open spec fn names_emplacement(name: Seq<char>) -> bool {
    ||| mentions(name, "tripod"@)
    ||| mentions(name, "dshk"@)
    ||| mentions(name, "kord"@)
    ||| mentions(name, "kornet"@)
    ||| mentions(name, "spg9"@)
    ||| mentions(name, "tow"@)
    ||| mentions(name, "hj-8"@)
    ||| mentions(name, "mk19"@)
    ||| mentions(name, "zu-23"@)
    ||| mentions(name, "emplacement"@)
}

/// The words are those of the list.
#[verifier::rlimit(60)]
proof fn lemma_emplacement_names(name: Seq<char>)
    ensures
        names_any_ignoring_case(name, EMPLACEMENT_NAMES@) == names_emplacement(name),
{
    let folded = ascii_folded(name);
    reveal_strlit("tripod");
    assert(ascii_folded("tripod"@) =~= "tripod"@);
    reveal_strlit("dshk");
    assert(ascii_folded("dshk"@) =~= "dshk"@);
    reveal_strlit("kord");
    assert(ascii_folded("kord"@) =~= "kord"@);
    reveal_strlit("kornet");
    assert(ascii_folded("kornet"@) =~= "kornet"@);
    reveal_strlit("spg9");
    assert(ascii_folded("spg9"@) =~= "spg9"@);
    reveal_strlit("tow");
    assert(ascii_folded("tow"@) =~= "tow"@);
    reveal_strlit("hj-8");
    assert(ascii_folded("hj-8"@) =~= "hj-8"@);
    reveal_strlit("mk19");
    assert(ascii_folded("mk19"@) =~= "mk19"@);
    reveal_strlit("zu-23");
    assert(ascii_folded("zu-23"@) =~= "zu-23"@);
    reveal_strlit("emplacement");
    assert(ascii_folded("emplacement"@) =~= "emplacement"@);
    assert(EMPLACEMENT_NAMES@[0]@ == "tripod"@);
    assert(EMPLACEMENT_NAMES@[1]@ == "dshk"@);
    assert(EMPLACEMENT_NAMES@[2]@ == "kord"@);
    assert(EMPLACEMENT_NAMES@[3]@ == "kornet"@);
    assert(EMPLACEMENT_NAMES@[4]@ == "spg9"@);
    assert(EMPLACEMENT_NAMES@[5]@ == "tow"@);
    assert(EMPLACEMENT_NAMES@[6]@ == "hj-8"@);
    assert(EMPLACEMENT_NAMES@[7]@ == "mk19"@);
    assert(EMPLACEMENT_NAMES@[8]@ == "zu-23"@);
    assert(EMPLACEMENT_NAMES@[9]@ == "emplacement"@);
    if names_any_ignoring_case(name, EMPLACEMENT_NAMES@) {
        let i = choose|i: int|
            0 <= i < EMPLACEMENT_NAMES@.len() && has_part(folded, ascii_folded(#[trigger] EMPLACEMENT_NAMES@[i]@));
        assert(i == 0 || i == 1 || i == 2 || i == 3 || i == 4 || i == 5 || i == 6 || i == 7
            || i == 8 || i == 9);
    }
}

/// What a class is goes by the words in its name, ASCII case aside. A soldier has
/// `soldier` in it, a capture zone `capturezone`. A deployable names one, no part
/// or tool, and does not begin with `bp_emplaced`. A vehicle names one or a
/// helicopter, and neither a soldier, a deployable nor a part.
pub proof fn law_classes_by_words(name: Seq<char>)
    ensures
        soldier_like(name) <==> mentions(name, "soldier"@),
        capture_zone_like(name) <==> mentions(name, "capturezone"@),
        helicopter_like(name) <==> names_helicopter(name),
        deployable_primary_like(name) <==> names_deployable(name) && !names_tool(name)
            && !begins_with(ascii_folded(name), "bp_emplaced"@),
        vehicle_like(name) <==> (names_vehicle(name) || names_helicopter(name))
            && !names_vehicle_part(name) && !mentions(name, "soldier"@)
            && !deployable_primary_like(name),
{
    lemma_helicopter_names(name);
    lemma_tool_names(name);
    lemma_deployable_names(name);
    lemma_vehicle_part_names(name);
    lemma_vehicle_names(name);
    reveal_strlit("soldier");
    reveal_strlit("capturezone");
    reveal_strlit("sqcapturezone");
    reveal_strlit("bp_emplaced");
    assert(ascii_folded("soldier"@) =~= "soldier"@);
    assert(ascii_folded("capturezone"@) =~= "capturezone"@);
    assert(ascii_folded("sqcapturezone"@) =~= "sqcapturezone"@);
    assert(ascii_folded("bp_emplaced"@) =~= "bp_emplaced"@);
    let folded = ascii_folded(name);
    if has_part(folded, "sqcapturezone"@) {
        let at = choose|at: int| occurs_at(folded, "sqcapturezone"@, at);
        assert(occurs_at(folded, "capturezone"@, at + 2)) by {
            assert forall|k: int| 0 <= k < "capturezone"@.len() implies folded[at + 2 + k]
                == #[trigger] "capturezone"@[k] by {
                assert(folded[at + (k + 2)] == "sqcapturezone"@[k + 2]);
            }
        }
    }
}

/// The kind of a deployable goes by the words in the name of its class, ASCII
/// case aside: a radio before all else, then a HAB, a rally point, an ammo crate,
/// a repair station, a mortar and an emplaced weapon.
pub proof fn law_kinds_of_deployables(name: Seq<char>)
    ensures
        ({
            let kind = deployable_event_type(name);
            let radio = mentions(name, "fobradio"@);
            let hab = mentions(name, "hab_"@);
            let rally = mentions(name, "rallypoint"@);
            let ammo = mentions(name, "ammocrate"@);
            let repair = mentions(name, "vehicle_repair"@);
            let mortar = mentions(name, "mortar"@);
            &&& radio ==> kind == "RADIO"@
            &&& !radio && hab ==> kind == "HAB"@
            &&& !radio && !hab && rally ==> kind == "RALLY"@
            &&& !radio && !hab && !rally && ammo ==> kind == "AMMO"@
            &&& !radio && !hab && !rally && !ammo && repair ==> kind == "REPAIR"@
            &&& !radio && !hab && !rally && !ammo && !repair && mortar ==> kind == "MORTAR"@
            &&& !radio && !hab && !rally && !ammo && !repair && !mortar ==> kind == (
            if names_emplacement(name) {
                "EMPLACEMENT"@
            } else {
                "DEPLOYABLE"@
            })
        }),
{
    lemma_emplacement_names(name);
    reveal_strlit("fobradio");
    reveal_strlit("_hab_");
    reveal_strlit("hab_");
    reveal_strlit("rallypoint");
    reveal_strlit("ammocrate");
    reveal_strlit("vehicle_repair");
    reveal_strlit("mortar");
    assert(ascii_folded("fobradio"@) =~= "fobradio"@);
    assert(ascii_folded("_hab_"@) =~= "_hab_"@);
    assert(ascii_folded("hab_"@) =~= "hab_"@);
    assert(ascii_folded("rallypoint"@) =~= "rallypoint"@);
    assert(ascii_folded("ammocrate"@) =~= "ammocrate"@);
    assert(ascii_folded("vehicle_repair"@) =~= "vehicle_repair"@);
    assert(ascii_folded("mortar"@) =~= "mortar"@);
    let folded = ascii_folded(name);
    if has_part(folded, "_hab_"@) {
        let at = choose|at: int| occurs_at(folded, "_hab_"@, at);
        assert(occurs_at(folded, "hab_"@, at + 1)) by {
            assert forall|k: int| 0 <= k < "hab_"@.len() implies folded[at + 1 + k]
                == #[trigger] "hab_"@[k] by {
                assert(folded[at + (k + 1)] == "_hab_"@[k + 1]);
            }
        }
    }
}

/// A group path or a hint stands for a kind of component: the path has a word in
/// it, or the hint has another, ASCII case aside.
pub open spec fn stands_for(
    group_path: Seq<char>,
    path_hint: Option<&str>,
    class: Seq<char>,
    kind: Seq<char>,
) -> bool {
    mentions(group_path, class) || path_hint is Some && mentions(path_hint->0@, kind)
}

/// The kind of a component goes by the words in its group path and in the hint: a
/// rotor before all else, then a track, an ammo rack, a wheel and a seat.
pub proof fn law_kinds_of_components(group_path: Seq<char>, path_hint: Option<&str>)
    ensures
        ({
            let kind = component_type(group_path, path_hint);
            let rotor = stands_for(group_path, path_hint, "sqrotorcomponent"@, "rotor"@);
            let track = stands_for(group_path, path_hint, "sqvehicletrack"@, "track"@);
            let rack = stands_for(group_path, path_hint, "sqvehicleammobox"@, "ammorack"@);
            let wheel = stands_for(group_path, path_hint, "sqvehiclewheel"@, "wheel"@);
            let seat = stands_for(group_path, path_hint, "sqvehicleseatcomponent"@, "seat"@);
            &&& rotor ==> kind == "rotor"@
            &&& !rotor && track ==> kind == "track"@
            &&& !rotor && !track && rack ==> kind == "ammorack"@
            &&& !rotor && !track && !rack && wheel ==> kind == "wheel"@
            &&& !rotor && !track && !rack && !wheel && seat ==> kind == "seat"@
            &&& !rotor && !track && !rack && !wheel && !seat ==> kind == "component"@
        }),
{
    reveal_strlit("sqrotorcomponent");
    assert(ascii_folded("sqrotorcomponent"@) =~= "sqrotorcomponent"@);
    reveal_strlit("rotor");
    assert(ascii_folded("rotor"@) =~= "rotor"@);
    reveal_strlit("sqvehicletrack");
    assert(ascii_folded("sqvehicletrack"@) =~= "sqvehicletrack"@);
    reveal_strlit("track");
    assert(ascii_folded("track"@) =~= "track"@);
    reveal_strlit("sqvehicleammobox");
    assert(ascii_folded("sqvehicleammobox"@) =~= "sqvehicleammobox"@);
    reveal_strlit("ammorack");
    assert(ascii_folded("ammorack"@) =~= "ammorack"@);
    reveal_strlit("sqvehiclewheel");
    assert(ascii_folded("sqvehiclewheel"@) =~= "sqvehiclewheel"@);
    reveal_strlit("wheel");
    assert(ascii_folded("wheel"@) =~= "wheel"@);
    reveal_strlit("sqvehicleseatcomponent");
    assert(ascii_folded("sqvehicleseatcomponent"@) =~= "sqvehicleseatcomponent"@);
    reveal_strlit("seat");
    assert(ascii_folded("seat"@) =~= "seat"@);
}

/// The name in upper case has that of a main battle tank in it.
pub open spec fn names_tank(upper: Seq<char>) -> bool {
    ||| has_part(upper, "M1A2"@)
    ||| has_part(upper, "T72"@)
    ||| has_part(upper, "T64"@)
    ||| has_part(upper, "T90"@)
    ||| has_part(upper, "LEOPARD"@)
    ||| has_part(upper, "CHALLENGER"@)
    ||| has_part(upper, "MERKAVA"@)
    ||| has_part(upper, "M60T"@)
    ||| has_part(upper, "ZTZ99"@)
    ||| has_part(upper, "TYPE99"@)
}

/// The words are those of the list.
proof fn lemma_tanks(upper: Seq<char>)
    ensures
        names_any(upper, TANKS@) == names_tank(upper),
{
    assert(TANKS@[0]@ == "M1A2"@);
    assert(TANKS@[1]@ == "T72"@);
    assert(TANKS@[2]@ == "T64"@);
    assert(TANKS@[3]@ == "T90"@);
    assert(TANKS@[4]@ == "LEOPARD"@);
    assert(TANKS@[5]@ == "CHALLENGER"@);
    assert(TANKS@[6]@ == "MERKAVA"@);
    assert(TANKS@[7]@ == "M60T"@);
    assert(TANKS@[8]@ == "ZTZ99"@);
    assert(TANKS@[9]@ == "TYPE99"@);
    if names_any(upper, TANKS@) {
        let i = choose|i: int|
            0 <= i < TANKS@.len() && has_part(upper, #[trigger] TANKS@[i]@);
        assert(i == 0 || i == 1 || i == 2 || i == 3 || i == 4 || i == 5 || i == 6 || i == 7
            || i == 8 || i == 9);
    }
}

/// The name in upper case has that of an infantry fighting vehicle in it.
pub open spec fn names_fighting_vehicle(upper: Seq<char>) -> bool {
    ||| has_part(upper, "BTR4"@)
    ||| has_part(upper, "BMP"@)
    ||| has_part(upper, "BRADLEY"@)
    ||| has_part(upper, "MARDER"@)
    ||| has_part(upper, "WARRIOR"@)
    ||| has_part(upper, "CV90"@)
    ||| has_part(upper, "LAV6"@)
    ||| has_part(upper, "LAV_6"@)
    ||| has_part(upper, "ASLAV"@)
}

/// The words are those of the list.
proof fn lemma_fighting_vehicles(upper: Seq<char>)
    ensures
        names_any(upper, FIGHTING_VEHICLES@) == names_fighting_vehicle(upper),
{
    assert(FIGHTING_VEHICLES@[0]@ == "BTR4"@);
    assert(FIGHTING_VEHICLES@[1]@ == "BMP"@);
    assert(FIGHTING_VEHICLES@[2]@ == "BRADLEY"@);
    assert(FIGHTING_VEHICLES@[3]@ == "MARDER"@);
    assert(FIGHTING_VEHICLES@[4]@ == "WARRIOR"@);
    assert(FIGHTING_VEHICLES@[5]@ == "CV90"@);
    assert(FIGHTING_VEHICLES@[6]@ == "LAV6"@);
    assert(FIGHTING_VEHICLES@[7]@ == "LAV_6"@);
    assert(FIGHTING_VEHICLES@[8]@ == "ASLAV"@);
    if names_any(upper, FIGHTING_VEHICLES@) {
        let i = choose|i: int|
            0 <= i < FIGHTING_VEHICLES@.len() && has_part(upper, #[trigger] FIGHTING_VEHICLES@[i]@);
        assert(i == 0 || i == 1 || i == 2 || i == 3 || i == 4 || i == 5 || i == 6 || i == 7
            || i == 8);
    }
}

/// The name in upper case has that of an armored personnel carrier in it.
pub open spec fn names_carrier(upper: Seq<char>) -> bool {
    ||| has_part(upper, "BTR80"@)
    ||| has_part(upper, "BTR82"@)
    ||| has_part(upper, "STRYKER"@)
    ||| has_part(upper, "MTLB"@)
    ||| has_part(upper, "BULLDOG"@)
    ||| has_part(upper, "TLAV"@)
    ||| has_part(upper, "M113"@)
}

/// The words are those of the list.
proof fn lemma_carriers(upper: Seq<char>)
    ensures
        names_any(upper, CARRIERS@) == names_carrier(upper),
{
    assert(CARRIERS@[0]@ == "BTR80"@);
    assert(CARRIERS@[1]@ == "BTR82"@);
    assert(CARRIERS@[2]@ == "STRYKER"@);
    assert(CARRIERS@[3]@ == "MTLB"@);
    assert(CARRIERS@[4]@ == "BULLDOG"@);
    assert(CARRIERS@[5]@ == "TLAV"@);
    assert(CARRIERS@[6]@ == "M113"@);
    if names_any(upper, CARRIERS@) {
        let i = choose|i: int|
            0 <= i < CARRIERS@.len() && has_part(upper, #[trigger] CARRIERS@[i]@);
        assert(i == 0 || i == 1 || i == 2 || i == 3 || i == 4 || i == 5 || i == 6);
    }
}

/// The name in upper case has that of a transport helicopter in it.
pub open spec fn names_transport_helicopter(upper: Seq<char>) -> bool {
    ||| has_part(upper, "UH60"@)
    ||| has_part(upper, "MI8"@)
    ||| has_part(upper, "CH146"@)
    ||| has_part(upper, "MRH90"@)
    ||| has_part(upper, "SA330"@)
    ||| has_part(upper, "UH1Y"@)
}

/// The words are those of the list.
proof fn lemma_transport_helicopters(upper: Seq<char>)
    ensures
        names_any(upper, TRANSPORT_HELICOPTERS@) == names_transport_helicopter(upper),
{
    assert(TRANSPORT_HELICOPTERS@[0]@ == "UH60"@);
    assert(TRANSPORT_HELICOPTERS@[1]@ == "MI8"@);
    assert(TRANSPORT_HELICOPTERS@[2]@ == "CH146"@);
    assert(TRANSPORT_HELICOPTERS@[3]@ == "MRH90"@);
    assert(TRANSPORT_HELICOPTERS@[4]@ == "SA330"@);
    assert(TRANSPORT_HELICOPTERS@[5]@ == "UH1Y"@);
    if names_any(upper, TRANSPORT_HELICOPTERS@) {
        let i = choose|i: int|
            0 <= i < TRANSPORT_HELICOPTERS@.len() && has_part(upper, #[trigger] TRANSPORT_HELICOPTERS@[i]@);
        assert(i == 0 || i == 1 || i == 2 || i == 3 || i == 4 || i == 5);
    }
}

/// The name in upper case has that of an attack helicopter in it.
pub open spec fn names_attack_helicopter(upper: Seq<char>) -> bool {
    ||| has_part(upper, "AH64"@)
    ||| has_part(upper, "MI24"@)
    ||| has_part(upper, "KA52"@)
    ||| has_part(upper, "AH1Z"@)
}

/// The words are those of the list.
proof fn lemma_attack_helicopters(upper: Seq<char>)
    ensures
        names_any(upper, ATTACK_HELICOPTERS@) == names_attack_helicopter(upper),
{
    assert(ATTACK_HELICOPTERS@[0]@ == "AH64"@);
    assert(ATTACK_HELICOPTERS@[1]@ == "MI24"@);
    assert(ATTACK_HELICOPTERS@[2]@ == "KA52"@);
    assert(ATTACK_HELICOPTERS@[3]@ == "AH1Z"@);
    if names_any(upper, ATTACK_HELICOPTERS@) {
        let i = choose|i: int|
            0 <= i < ATTACK_HELICOPTERS@.len() && has_part(upper, #[trigger] ATTACK_HELICOPTERS@[i]@);
        assert(i == 0 || i == 1 || i == 2 || i == 3);
    }
}

/// The name in upper case has that of a logistics truck in it.
pub open spec fn names_logistics_truck(upper: Seq<char>) -> bool {
    ||| has_part(upper, "LOGI"@)
    ||| has_part(upper, "LOGISTICS"@)
}

/// The words are those of the list.
proof fn lemma_logistics_trucks(upper: Seq<char>)
    ensures
        names_any(upper, LOGISTICS_TRUCKS@) == names_logistics_truck(upper),
{
    assert(LOGISTICS_TRUCKS@[0]@ == "LOGI"@);
    assert(LOGISTICS_TRUCKS@[1]@ == "LOGISTICS"@);
    if names_any(upper, LOGISTICS_TRUCKS@) {
        let i = choose|i: int|
            0 <= i < LOGISTICS_TRUCKS@.len() && has_part(upper, #[trigger] LOGISTICS_TRUCKS@[i]@);
        assert(i == 0 || i == 1);
    }
}

/// The name in upper case has that of a transport truck in it.
pub open spec fn names_transport_truck(upper: Seq<char>) -> bool {
    ||| has_part(upper, "UTIL"@)
    ||| has_part(upper, "TRANSPORT"@)
    ||| has_part(upper, "URAL"@)
    ||| has_part(upper, "M939"@)
    ||| has_part(upper, "KAMAZ"@)
    ||| has_part(upper, "MTVR"@)
}

/// The words are those of the list.
proof fn lemma_transport_trucks(upper: Seq<char>)
    ensures
        names_any(upper, TRANSPORT_TRUCKS@) == names_transport_truck(upper),
{
    assert(TRANSPORT_TRUCKS@[0]@ == "UTIL"@);
    assert(TRANSPORT_TRUCKS@[1]@ == "TRANSPORT"@);
    assert(TRANSPORT_TRUCKS@[2]@ == "URAL"@);
    assert(TRANSPORT_TRUCKS@[3]@ == "M939"@);
    assert(TRANSPORT_TRUCKS@[4]@ == "KAMAZ"@);
    assert(TRANSPORT_TRUCKS@[5]@ == "MTVR"@);
    if names_any(upper, TRANSPORT_TRUCKS@) {
        let i = choose|i: int|
            0 <= i < TRANSPORT_TRUCKS@.len() && has_part(upper, #[trigger] TRANSPORT_TRUCKS@[i]@);
        assert(i == 0 || i == 1 || i == 2 || i == 3 || i == 4 || i == 5);
    }
}

/// The name in upper case has that of a technical in it.
pub open spec fn names_technical(upper: Seq<char>) -> bool {
    ||| has_part(upper, "TECHNICAL"@)
    ||| has_part(upper, "SIMIR"@)
    ||| has_part(upper, "SAFIR"@)
}

/// The words are those of the list.
proof fn lemma_technicals(upper: Seq<char>)
    ensures
        names_any(upper, TECHNICALS@) == names_technical(upper),
{
    assert(TECHNICALS@[0]@ == "TECHNICAL"@);
    assert(TECHNICALS@[1]@ == "SIMIR"@);
    assert(TECHNICALS@[2]@ == "SAFIR"@);
    if names_any(upper, TECHNICALS@) {
        let i = choose|i: int|
            0 <= i < TECHNICALS@.len() && has_part(upper, #[trigger] TECHNICALS@[i]@);
        assert(i == 0 || i == 1 || i == 2);
    }
}

/// The name in upper case has that of a light armored vehicle in it.
pub open spec fn names_light_armor(upper: Seq<char>) -> bool {
    ||| has_part(upper, "MRAP"@)
    ||| has_part(upper, "MATV"@)
    ||| has_part(upper, "BRDM"@)
    ||| has_part(upper, "TAPV"@)
    ||| has_part(upper, "TIGR"@)
    ||| has_part(upper, "FENNEK"@)
}

/// The words are those of the list.
proof fn lemma_light_armor(upper: Seq<char>)
    ensures
        names_any(upper, LIGHT_ARMOR@) == names_light_armor(upper),
{
    assert(LIGHT_ARMOR@[0]@ == "MRAP"@);
    assert(LIGHT_ARMOR@[1]@ == "MATV"@);
    assert(LIGHT_ARMOR@[2]@ == "BRDM"@);
    assert(LIGHT_ARMOR@[3]@ == "TAPV"@);
    assert(LIGHT_ARMOR@[4]@ == "TIGR"@);
    assert(LIGHT_ARMOR@[5]@ == "FENNEK"@);
    if names_any(upper, LIGHT_ARMOR@) {
        let i = choose|i: int|
            0 <= i < LIGHT_ARMOR@.len() && has_part(upper, #[trigger] LIGHT_ARMOR@[i]@);
        assert(i == 0 || i == 1 || i == 2 || i == 3 || i == 4 || i == 5);
    }
}

/// The name in upper case has that of a faction of team 1, or of its camouflage or
/// equipment, in it.
pub open spec fn names_team_1(upper: Seq<char>) -> bool {
    ||| has_part(upper, "USA"@)
    ||| has_part(upper, "USMC"@)
    ||| has_part(upper, "CAF"@)
    ||| has_part(upper, "BAF"@)
    ||| has_part(upper, "ADF"@)
    ||| has_part(upper, "WPMC"@)
    ||| has_part(upper, "WOODLAND"@)
    ||| has_part(upper, "C16"@)
}

/// The words are those of the list.
proof fn lemma_team_1_names(upper: Seq<char>)
    ensures
        names_any(upper, TEAM_1_NAMES@) == names_team_1(upper),
{
    assert(TEAM_1_NAMES@[0]@ == "USA"@);
    assert(TEAM_1_NAMES@[1]@ == "USMC"@);
    assert(TEAM_1_NAMES@[2]@ == "CAF"@);
    assert(TEAM_1_NAMES@[3]@ == "BAF"@);
    assert(TEAM_1_NAMES@[4]@ == "ADF"@);
    assert(TEAM_1_NAMES@[5]@ == "WPMC"@);
    assert(TEAM_1_NAMES@[6]@ == "WOODLAND"@);
    assert(TEAM_1_NAMES@[7]@ == "C16"@);
    if names_any(upper, TEAM_1_NAMES@) {
        let i = choose|i: int|
            0 <= i < TEAM_1_NAMES@.len() && has_part(upper, #[trigger] TEAM_1_NAMES@[i]@);
        assert(i == 0 || i == 1 || i == 2 || i == 3 || i == 4 || i == 5 || i == 6 || i == 7);
    }
}

/// The name in upper case has that of a faction of team 2 in it.
pub open spec fn names_team_2(upper: Seq<char>) -> bool {
    ||| has_part(upper, "AFU"@)
    ||| has_part(upper, "TLF"@)
    ||| has_part(upper, "RUS"@)
    ||| has_part(upper, "VDV"@)
    ||| has_part(upper, "MEA"@)
    ||| has_part(upper, "INS"@)
    ||| has_part(upper, "MIL"@)
    ||| has_part(upper, "PLA"@)
    ||| has_part(upper, "PLANMC"@)
}

/// The words are those of the list.
proof fn lemma_team_2_names(upper: Seq<char>)
    ensures
        names_any(upper, TEAM_2_NAMES@) == names_team_2(upper),
{
    assert(TEAM_2_NAMES@[0]@ == "AFU"@);
    assert(TEAM_2_NAMES@[1]@ == "TLF"@);
    assert(TEAM_2_NAMES@[2]@ == "RUS"@);
    assert(TEAM_2_NAMES@[3]@ == "VDV"@);
    assert(TEAM_2_NAMES@[4]@ == "MEA"@);
    assert(TEAM_2_NAMES@[5]@ == "INS"@);
    assert(TEAM_2_NAMES@[6]@ == "MIL"@);
    assert(TEAM_2_NAMES@[7]@ == "PLA"@);
    assert(TEAM_2_NAMES@[8]@ == "PLANMC"@);
    if names_any(upper, TEAM_2_NAMES@) {
        let i = choose|i: int|
            0 <= i < TEAM_2_NAMES@.len() && has_part(upper, #[trigger] TEAM_2_NAMES@[i]@);
        assert(i == 0 || i == 1 || i == 2 || i == 3 || i == 4 || i == 5 || i == 6 || i == 7
            || i == 8);
    }
}

/// What the loss of a vehicle costs goes by the words in its name in upper case:
/// those of a tank count before those of a fighting vehicle, a carrier, a
/// helicopter, a truck, a technical and a light armored vehicle, in this order.
/// The team that loses it goes by the words of the factions, those of team 1
/// first.
pub proof fn law_losses_by_words(upper: Seq<char>)
    ensures
        ({
            let info = vehicle_of(upper);
            let tank = names_tank(upper);
            let fighting = !tank && names_fighting_vehicle(upper);
            let carrier = !tank && !fighting && names_carrier(upper);
            let heavy = tank || fighting || carrier;
            let transport = !heavy && names_transport_helicopter(upper);
            let attack = !heavy && !transport && names_attack_helicopter(upper);
            let armed = heavy || transport || attack;
            let logistics = !armed && names_logistics_truck(upper);
            let truck = !armed && !logistics && names_transport_truck(upper);
            let technical = !armed && !logistics && !truck && names_technical(upper);
            let light = !armed && !logistics && !truck && !technical && names_light_armor(upper);
            &&& tank ==> info.tickets == 15 && info.category@ == "mbt"@ && info.label@
                == "Main Battle Tank"@
            &&& fighting ==> info.tickets == 10 && info.category@ == "ifv"@ && info.label@
                == "Infantry Fighting Vehicle"@
            &&& carrier ==> info.tickets == 8 && info.category@ == "apc"@ && info.label@
                == "Armored Personnel Carrier"@
            &&& transport ==> info.tickets == 10 && info.category@ == "transport_helo"@
                && info.label@ == "Transport Helicopter"@
            &&& attack ==> info.tickets == 15 && info.category@ == "attack_helo"@ && info.label@
                == "Attack Helicopter"@
            &&& logistics ==> info.tickets == 5 && info.category@ == "logi"@ && info.label@
                == "Logistics Truck"@
            &&& truck ==> info.tickets == 3 && info.category@ == "truck"@ && info.label@
                == "Transport Truck"@
            &&& technical ==> info.tickets == 3 && info.category@ == "technical"@ && info.label@
                == "Technical"@
            &&& light ==> info.tickets == 5 && info.category@ == "mrap"@ && info.label@
                == "Light Armored Vehicle"@
            &&& !armed && !logistics && !truck && !technical && !light ==> info.tickets == 3
                && info.category@ == "unknown"@ && info.label@ == "Vehicle"@
        }),
        side_of_vehicle(upper) == (if names_team_1(upper) {
            Some(1u32)
        } else if names_team_2(upper) {
            Some(2u32)
        } else {
            None
        }),
{
    lemma_tanks(upper);
    lemma_fighting_vehicles(upper);
    lemma_carriers(upper);
    lemma_transport_helicopters(upper);
    lemma_attack_helicopters(upper);
    lemma_logistics_trucks(upper);
    lemma_transport_trucks(upper);
    lemma_technicals(upper);
    lemma_light_armor(upper);
    lemma_team_1_names(upper);
    lemma_team_2_names(upper);
}

/// The name of a pawn has that of a vehicle in it.
pub open spec fn names_vehicle_pawn(pawn: Seq<char>) -> bool {
    ||| has_part(pawn, "Vehicle"@)
    ||| has_part(pawn, "Kamaz"@)
    ||| has_part(pawn, "BTR"@)
    ||| has_part(pawn, "BMP"@)
    ||| has_part(pawn, "Tank"@)
    ||| has_part(pawn, "Truck"@)
    ||| has_part(pawn, "Tigr"@)
    ||| has_part(pawn, "LPPV"@)
    ||| has_part(pawn, "FV"@)
    ||| has_part(pawn, "Helicopter"@)
    ||| has_part(pawn, "MI8"@)
    ||| has_part(pawn, "SA330"@)
}

/// The words are those of the list.
proof fn lemma_vehicle_pawns(pawn: Seq<char>)
    ensures
        names_any(pawn, VEHICLE_PAWNS@) == names_vehicle_pawn(pawn),
{
    assert(VEHICLE_PAWNS@[0]@ == "Vehicle"@);
    assert(VEHICLE_PAWNS@[1]@ == "Kamaz"@);
    assert(VEHICLE_PAWNS@[2]@ == "BTR"@);
    assert(VEHICLE_PAWNS@[3]@ == "BMP"@);
    assert(VEHICLE_PAWNS@[4]@ == "Tank"@);
    assert(VEHICLE_PAWNS@[5]@ == "Truck"@);
    assert(VEHICLE_PAWNS@[6]@ == "Tigr"@);
    assert(VEHICLE_PAWNS@[7]@ == "LPPV"@);
    assert(VEHICLE_PAWNS@[8]@ == "FV"@);
    assert(VEHICLE_PAWNS@[9]@ == "Helicopter"@);
    assert(VEHICLE_PAWNS@[10]@ == "MI8"@);
    assert(VEHICLE_PAWNS@[11]@ == "SA330"@);
    if names_any(pawn, VEHICLE_PAWNS@) {
        let i = choose|i: int|
            0 <= i < VEHICLE_PAWNS@.len() && has_part(pawn, #[trigger] VEHICLE_PAWNS@[i]@);
        assert(i == 0 || i == 1 || i == 2 || i == 3 || i == 4 || i == 5 || i == 6 || i == 7
            || i == 8 || i == 9 || i == 10 || i == 11);
    }
}

/// A pawn is that of a vehicle by the words in its name.
pub proof fn law_vehicle_pawns(pawn: Seq<char>)
    ensures
        names_any(pawn, VEHICLE_PAWNS@) == names_vehicle_pawn(pawn),
{
    lemma_vehicle_pawns(pawn);
}

} // verus!
