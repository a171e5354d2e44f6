//! What the tickets of a match must satisfy, whatever they are computed from.

use crate::bundle::{
    ActorEntity, Bundle, CaptureZone, CaptureZoneEvent, KillEvent, Player, Team, VehicleDeathEvent,
};
use crate::log_parser::LogMatch;
use crate::outside::{lowercase, uppercase};
use crate::text::{begins_with, has_part, occurs_at, opt_text, part_index_from, without_leading};
use crate::ticketproof::{
    build_ticketproof, capture_events, captures_of, count_in, count_of, counts_categories,
    display_name, fits_i32, infantry_event, infantry_events, law_captures, law_events_in_order,
    law_infantry_deaths, law_losses, law_sides,
    mode_text, new_owner, picked, point_after, points_fit, points_of, proves_tickets, radio_event,
    radio_events, radios_of, side_in, side_of_team, sides_of, sides_of_first, start_of, stats_fit, stats_of,
    teams_of_players, ticket_events, ticket_models, tickets_fit, total_gain, unsorted_events, vehicle_event, vehicle_events,
    vehicle_of, zone_captures, zone_name, TeamStats, TicketEvent, TicketModel, TicketProof,
    TicketProofOptions, TEAM_1_NAMES, TEAM_2_NAMES,
};
use crate::time_order::{by_time, law_sorting, with_item, HasTime};
use vstd::prelude::*;

verus! {

// ---------------------------------------------------------------------------
// Picked items
// ---------------------------------------------------------------------------

/// The indices of the items that are picked: they are those of all items that
/// the pick has something for, in their order.
proof fn lemma_picked_at<A>(items: Seq<A>, pick: spec_fn(A) -> Option<TicketModel>) -> (at: Seq<int>)
    ensures
        at.len() == picked(items, pick).len(),
        forall|i: int|
            0 <= i < at.len() ==> {
                &&& 0 <= #[trigger] at[i] < items.len()
                &&& pick(items[at[i]]) == Some(picked(items, pick)[i])
            },
        forall|i: int, j: int| 0 <= i < j < at.len() ==> #[trigger] at[i] < #[trigger] at[j],
        forall|k: int|
            0 <= k < items.len() && pick(#[trigger] items[k]) is Some ==> at.contains(k),
        at.len() == items.filter(|a: A| pick(a) is Some).len(),
    decreases items.len(),
{
    reveal(Seq::filter);
    if items.len() == 0 {
        Seq::empty()
    } else {
        let front = items.drop_last();
        let before = lemma_picked_at(front, pick);
        let last = items.len() - 1;
        assert forall|k: int| 0 <= k < last implies #[trigger] items[k] == front[k] by {}
        if pick(items.last()) is Some {
            let at = before.push(last);
            assert forall|k: int|
                0 <= k < items.len() && pick(#[trigger] items[k]) is Some implies at.contains(k) by {
                if k < last {
                    assert(items[k] == front[k]);
                    let i = choose|i: int| 0 <= i < before.len() && before[i] == k;
                    assert(at[i] == k);
                } else {
                    assert(at[before.len() as int] == k);
                }
            }
            at
        } else {
            assert forall|k: int|
                0 <= k < items.len() && pick(#[trigger] items[k]) is Some implies before.contains(
                k,
            ) by {
                assert(items[k] == front[k]);
            }
            before
        }
    }
}

// ---------------------------------------------------------------------------
// Deaths of players
// ---------------------------------------------------------------------------

/// The player has a name, case aside, and is on side 1 or 2.
pub open spec fn is_on_side(player: Player, name: Seq<char>, sides: Map<u32, u32>) -> bool {
    &&& player.name matches Some(own) && lowercase(own@) == lowercase(name)
    &&& player.team_id matches Some(id) && (side_in(sides, id) == 1 || side_in(sides, id) == 2)
}

/// The player is the last with a name, case aside, who is on a side.
pub open spec fn is_last_on_side(
    players: Seq<Player>,
    at: int,
    name: Seq<char>,
    sides: Map<u32, u32>,
) -> bool {
    &&& 0 <= at < players.len()
    &&& is_on_side(players[at], name, sides)
    &&& forall|later: int|
        at < later < players.len() ==> !is_on_side(#[trigger] players[later], name, sides)
}

/// The victim of a kill has the name of a player on a side.
pub open spec fn has_known_victim(kill: KillEvent, players: Seq<Player>, sides: Map<u32, u32>) -> bool {
    kill.victim_name matches Some(victim) && exists|p: int|
        0 <= p < players.len() && is_on_side(#[trigger] players[p], victim@, sides)
}

/// The side of a name is that of the last player on a side who has it.
proof fn lemma_side_of_name(players: Seq<Player>, sides: Map<u32, u32>, name: Seq<char>)
    ensures
        ({
            let teams = teams_of_players(players, sides);
            if teams.contains_key(lowercase(name)) {
                exists|p: int|
                    #[trigger] is_last_on_side(players, p, name, sides) && teams[lowercase(name)]
                        == side_in(sides, players[p].team_id->0)
            } else {
                forall|p: int|
                    0 <= p < players.len() ==> !is_on_side(#[trigger] players[p], name, sides)
            }
        }),
    decreases players.len(),
{
    if players.len() > 0 {
        let front = players.drop_last();
        lemma_side_of_name(front, sides, name);
        let last = players.len() - 1;
        assert forall|k: int| 0 <= k < last implies #[trigger] players[k] == front[k] by {}
        if is_on_side(players[last], name, sides) {
            assert(is_last_on_side(players, last, name, sides));
        } else if teams_of_players(front, sides).contains_key(lowercase(name)) {
            let p = choose|p: int|
                #[trigger] is_last_on_side(front, p, name, sides) && teams_of_players(front, sides)[
                lowercase(name)] == side_in(sides, front[p].team_id->0);
            assert(is_last_on_side(players, p, name, sides));
        }
    }
}

/// The deaths of players that cost tickets are those of all kills whose victim
/// has the name of a player on a side, case and the killer aside, and of no
/// others, in the order of the kills. Each costs the side of the last such
/// player one ticket, at the time of the kill.
pub proof fn law_deaths_of_known_victims(bundle: Bundle) -> (at: Seq<int>)
    ensures
        ({
            let events = infantry_events(bundle);
            let kills = bundle.events.kills@;
            let players = bundle.players@;
            let sides = sides_of(bundle.teams@);
            &&& at.len() == events.len()
            &&& events.len() == kills.filter(
                |kill: KillEvent| has_known_victim(kill, players, sides),
            ).len()
            &&& forall|i: int, j: int| 0 <= i < j < at.len() ==> #[trigger] at[i] < #[trigger] at[j]
            &&& forall|k: int|
                0 <= k < kills.len() && has_known_victim(#[trigger] kills[k], players, sides)
                    ==> at.contains(k)
            &&& forall|i: int|
                0 <= i < at.len() ==> {
                    let kill = kills[at[i]];
                    &&& 0 <= #[trigger] at[i] < kills.len()
                    &&& has_known_victim(kill, players, sides)
                    &&& events[i].t_ms == kill.t_ms
                    &&& events[i].kind == "infantry_death"@
                    &&& events[i].delta == -1
                    &&& events[i].detail == Some(kill.victim_name->0@)
                    &&& events[i].category is None
                    &&& events[i].icon is None
                    &&& exists|p: int| #[trigger]
                        is_last_on_side(players, p, kill.victim_name->0@, sides) && events[i].team
                            == side_in(sides, players[p].team_id->0)
                }
        }),
{
    let kills = bundle.events.kills@;
    let players = bundle.players@;
    let sides = sides_of(bundle.teams@);
    let teams = teams_of_players(players, sides);
    let pick = |kill: KillEvent| infantry_event(kill, teams);
    let known = |kill: KillEvent| has_known_victim(kill, players, sides);
    assert forall|kill: KillEvent| (#[trigger] pick(kill) is Some) == known(kill) by {
        if let Some(victim) = kill.victim_name {
            lemma_side_of_name(players, sides, victim@);
            if teams.contains_key(lowercase(victim@)) {
                let p = choose|p: int| #[trigger] is_last_on_side(players, p, victim@, sides);
                assert(is_on_side(players[p], victim@, sides));
            }
        }
    }
    let at = lemma_picked_at(kills, pick);
    assert((|kill: KillEvent| pick(kill) is Some) =~= known);
    let events = infantry_events(bundle);
    assert forall|k: int|
        0 <= k < kills.len() && has_known_victim(#[trigger] kills[k], players, sides) implies at.contains(
        k,
    ) by {
        assert(known(kills[k]));
        assert(pick(kills[k]) is Some);
    }
    assert forall|i: int| 0 <= i < at.len() implies {
        let kill = kills[at[i]];
        &&& 0 <= #[trigger] at[i] < kills.len()
        &&& has_known_victim(kill, players, sides)
        &&& events[i].t_ms == kill.t_ms
        &&& events[i].kind == "infantry_death"@
        &&& events[i].delta == -1
        &&& events[i].detail == Some(kill.victim_name->0@)
        &&& events[i].category is None
        &&& events[i].icon is None
        &&& exists|p: int| #[trigger]
            is_last_on_side(players, p, kill.victim_name->0@, sides) && events[i].team == side_in(
                sides,
                players[p].team_id->0,
            )
    } by {
        let kill = kills[at[i]];
        assert(pick(kill) is Some);
        lemma_side_of_name(players, sides, kill.victim_name->0@);
    }
    at
}

// ---------------------------------------------------------------------------
// Sides
// ---------------------------------------------------------------------------

/// A team from the third on gives a number, greater than 2, the side of a
/// faction: 1 where it has that of the first team, and else 2 where it has that
/// of the second.
pub open spec fn gives_side(teams: Seq<Team>, at: int, id: u32) -> bool {
    &&& 2 <= at < teams.len()
    &&& teams[at].id == id
    &&& opt_text(teams[at].faction) == opt_text(teams[0].faction) || opt_text(teams[at].faction)
        == opt_text(teams[1].faction)
}

/// A team number greater than 2 has the side that the last team with it gives
/// it, and itself for a side where none does.
pub proof fn law_sides_by_faction(teams: Seq<Team>, id: u32)
    requires
        id > 2,
    ensures
        (forall|k: int| !(#[trigger] gives_side(teams, k, id))) ==> side_in(sides_of(teams), id)
            == id,
        forall|k: int| #[trigger]
            gives_side(teams, k, id) && (forall|later: int|
                later > k ==> !(#[trigger] gives_side(teams, later, id))) ==> side_in(
                sides_of(teams),
                id,
            ) == (if opt_text(teams[k].faction) == opt_text(teams[0].faction) {
                1u32
            } else {
                2u32
            }),
{
    lemma_side_by_faction(teams, teams.len() as int, id);
}

/// The side of a number by the first teams.
proof fn lemma_side_by_faction(teams: Seq<Team>, n: int, id: u32)
    requires
        id > 2,
        n <= teams.len(),
    ensures
        (forall|k: int| k < n ==> !(#[trigger] gives_side(teams, k, id))) ==> side_in(
            sides_of_first(teams, n),
            id,
        ) == id,
        forall|k: int|
            k < n && #[trigger] gives_side(teams, k, id) && (forall|later: int|
                k < later < n ==> !(#[trigger] gives_side(teams, later, id))) ==> side_in(
                sides_of_first(teams, n),
                id,
            ) == (if opt_text(teams[k].faction) == opt_text(teams[0].faction) {
                1u32
            } else {
                2u32
            }),
    decreases n,
{
    if n > 2 {
        lemma_side_by_faction(teams, n - 1, id);
        assert(gives_side(teams, n - 1, id) <==> side_of_team(teams[n - 1], teams) is Some
            && teams[n - 1].id == id);
    }
}

// ---------------------------------------------------------------------------
// Losses of vehicles and radios
// ---------------------------------------------------------------------------

/// The name of a vehicle, in upper case, has one of some names in it.
pub open spec fn has_one_of(upper: Seq<char>, names: Seq<&'static str>) -> bool {
    exists|i: int| 0 <= i < names.len() && has_part(upper, #[trigger] names[i]@)
}

/// The losses of vehicles that cost tickets are those of all vehicles whose name
/// has one of a team in it, in their order. Each costs that team, the first
/// where both are named, what `vehicle_of` says, at the time of the loss.
pub proof fn law_losses_of_vehicles(bundle: Bundle) -> (at: Seq<int>)
    ensures
        ({
            let events = vehicle_events(bundle);
            let deaths = bundle.events.vehicle_deaths@;
            &&& at.len() == events.len()
            &&& forall|i: int, j: int| 0 <= i < j < at.len() ==> #[trigger] at[i] < #[trigger] at[j]
            &&& forall|k: int|
                0 <= k < deaths.len() && (has_one_of(
                    uppercase((#[trigger] deaths[k]).vehicle_class@),
                    TEAM_1_NAMES@,
                ) || has_one_of(uppercase(deaths[k].vehicle_class@), TEAM_2_NAMES@)) ==> at.contains(
                    k,
                )
            &&& forall|i: int|
                0 <= i < at.len() ==> {
                    let death = deaths[at[i]];
                    let upper = uppercase(death.vehicle_class@);
                    &&& 0 <= #[trigger] at[i] < deaths.len()
                    &&& events[i].t_ms == death.t_ms
                    &&& events[i].kind == "vehicle_death"@
                    &&& events[i].team == 1 || events[i].team == 2
                    &&& events[i].team == 1 <==> has_one_of(upper, TEAM_1_NAMES@)
                    &&& events[i].team == 2 ==> has_one_of(upper, TEAM_2_NAMES@)
                    &&& events[i].delta == -vehicle_of(upper).tickets
                    &&& events[i].category == Some(vehicle_of(upper).category@)
                    &&& events[i].detail == Some(display_name(death.vehicle_class@))
                    &&& events[i].icon is None
                }
        }),
{
    let deaths = bundle.events.vehicle_deaths@;
    let pick = |death: VehicleDeathEvent| vehicle_event(death);
    let at = lemma_picked_at(deaths, pick);
    let events = vehicle_events(bundle);
    assert forall|k: int|
        0 <= k < deaths.len() && (has_one_of(
            uppercase((#[trigger] deaths[k]).vehicle_class@),
            TEAM_1_NAMES@,
        ) || has_one_of(uppercase(deaths[k].vehicle_class@), TEAM_2_NAMES@)) implies at.contains(
        k,
    ) by {
        assert(pick(deaths[k]) is Some);
    }
    assert forall|i: int| 0 <= i < at.len() implies {
        let death = deaths[at[i]];
        let upper = uppercase(death.vehicle_class@);
        &&& 0 <= #[trigger] at[i] < deaths.len()
        &&& events[i].t_ms == death.t_ms
        &&& events[i].kind == "vehicle_death"@
        &&& events[i].team == 1 || events[i].team == 2
        &&& events[i].team == 1 <==> has_one_of(upper, TEAM_1_NAMES@)
        &&& events[i].team == 2 ==> has_one_of(upper, TEAM_2_NAMES@)
        &&& events[i].delta == -vehicle_of(upper).tickets
        &&& events[i].category == Some(vehicle_of(upper).category@)
        &&& events[i].detail == Some(display_name(death.vehicle_class@))
        &&& events[i].icon is None
    } by {
        assert(pick(deaths[at[i]]) is Some);
    }
    at
}

/// The deployable is a radio of a side: its class has `radio` in it, case aside,
/// and the low 32 bits of its team have the side.
pub open spec fn is_radio_of(deployable: ActorEntity, sides: Map<u32, u32>, side: u32) -> bool {
    &&& deployable.class_name matches Some(class) && has_part(lowercase(class@), "radio"@)
    &&& deployable.team matches Some(team) && side_in(
        sides,
        (team as int % 0x1_0000_0000) as u32,
    ) == side
}

/// A radio bleeds: it goes while its health is a number of at most 24.
pub open spec fn bleeds(deployable: ActorEntity) -> bool {
    &&& deployable.close_time_ms is Some
    &&& deployable.health matches Some(health) && {
        let magnitude = health.bits as int % 0x8000_0000_0000_0000;
        &&& magnitude <= 0x7ff0_0000_0000_0000
        &&& health.bits >= 0x8000_0000_0000_0000 || magnitude <= 0x4038_0000_0000_0000
    }
}

/// The losses of radios that cost tickets are those of all radios of a side that
/// bled, in their order. Each costs the side 20 tickets when the radio goes.
pub proof fn law_losses_of_radios(bundle: Bundle) -> (at: Seq<int>)
    ensures
        ({
            let events = radio_events(bundle);
            let deployables = bundle.actors.deployables@;
            let sides = sides_of(bundle.teams@);
            &&& at.len() == events.len()
            &&& forall|i: int, j: int| 0 <= i < j < at.len() ==> #[trigger] at[i] < #[trigger] at[j]
            &&& forall|k: int|
                0 <= k < deployables.len() && bleeds(#[trigger] deployables[k]) && (is_radio_of(
                    deployables[k],
                    sides,
                    1,
                ) || is_radio_of(deployables[k], sides, 2)) ==> at.contains(k)
            &&& forall|i: int|
                0 <= i < at.len() ==> {
                    let radio = deployables[at[i]];
                    &&& 0 <= #[trigger] at[i] < deployables.len()
                    &&& bleeds(radio)
                    &&& events[i].team == 1 || events[i].team == 2
                    &&& is_radio_of(radio, sides, events[i].team)
                    &&& Some(events[i].t_ms) == radio.close_time_ms
                    &&& events[i].kind == "radio_bleed"@
                    &&& events[i].delta == -20
                    &&& events[i].detail == Some("FOBRadio"@)
                    &&& events[i].category is None
                    &&& events[i].icon == Some("deployable_fob.svg"@)
                }
        }),
{
    let deployables = bundle.actors.deployables@;
    let sides = sides_of(bundle.teams@);
    let pick = |deployable: ActorEntity| radio_event(deployable, sides);
    let at = lemma_picked_at(deployables, pick);
    let events = radio_events(bundle);
    assert forall|k: int|
        0 <= k < deployables.len() && bleeds(#[trigger] deployables[k]) && (is_radio_of(
            deployables[k],
            sides,
            1,
        ) || is_radio_of(deployables[k], sides, 2)) implies at.contains(k) by {
        assert(pick(deployables[k]) is Some);
    }
    assert forall|i: int| 0 <= i < at.len() implies {
        let radio = deployables[at[i]];
        &&& 0 <= #[trigger] at[i] < deployables.len()
        &&& bleeds(radio)
        &&& events[i].team == 1 || events[i].team == 2
        &&& is_radio_of(radio, sides, events[i].team)
        &&& Some(events[i].t_ms) == radio.close_time_ms
        &&& events[i].kind == "radio_bleed"@
        &&& events[i].delta == -20
        &&& events[i].detail == Some("FOBRadio"@)
        &&& events[i].category is None
        &&& events[i].icon == Some("deployable_fob.svg"@)
    } by {
        assert(pick(deployables[at[i]]) is Some);
    }
    at
}

/// The radios that a side has placed are all deployables that are radios of it.
pub proof fn law_radios_placed(deployables: Seq<ActorEntity>, sides: Map<u32, u32>, side: u32)
    requires
        side == 1 || side == 2,
    ensures
        radios_of(deployables, sides, side) == deployables.filter(
            |deployable: ActorEntity| is_radio_of(deployable, sides, side),
        ).len(),
    decreases deployables.len(),
{
    reveal(Seq::filter);
    if deployables.len() > 0 {
        law_radios_placed(deployables.drop_last(), sides, side);
    }
}

// ---------------------------------------------------------------------------
// Captures
// ---------------------------------------------------------------------------

/// An event gives a zone to a side: it is about the owner, and the low 32 bits
/// of its number, or 0 where it has none, have the side.
pub open spec fn gives_zone_to(event: CaptureZoneEvent, sides: Map<u32, u32>, side: u32) -> bool {
    let number: int = match event.value_int {
        Some(value) => value as int,
        None => 0,
    };
    &&& event.event_type@ == "owning_team"@
    &&& side == 1 || side == 2
    &&& side_in(sides, (number % 0x1_0000_0000) as u32) == side
}

/// An event gives a zone to one of the sides.
pub open spec fn gives_zone(event: CaptureZoneEvent, sides: Map<u32, u32>) -> bool {
    gives_zone_to(event, sides, 1) || gives_zone_to(event, sides, 2)
}

/// The zone belongs to a side before an event: the last one before it that gives
/// the zone to a side gives it to this one.
pub open spec fn belongs_to(
    events: Seq<CaptureZoneEvent>,
    before: int,
    sides: Map<u32, u32>,
    side: u32,
) -> bool {
    exists|k: int|
        {
            &&& 0 <= k < before
            &&& gives_zone_to(#[trigger] events[k], sides, side)
            &&& forall|j: int| k < j < before ==> !gives_zone(#[trigger] events[j], sides)
        }
}

/// The captures of a zone are the events that give it to a side that it does not
/// belong to, in their order: each gains the side tickets, 20 where the zone has
/// belonged to none before, and else 50.
pub proof fn law_captures_of_a_zone(
    events: Seq<CaptureZoneEvent>,
    name: Seq<char>,
    sides: Map<u32, u32>,
) -> (at: Seq<int>)
    ensures
        ({
            let captures = zone_captures(events, name, sides).0;
            &&& at.len() == captures.len()
            &&& forall|i: int, j: int| 0 <= i < j < at.len() ==> #[trigger] at[i] < #[trigger] at[j]
            &&& forall|k: int, side: u32|
                0 <= k < events.len() && #[trigger] gives_zone_to(events[k], sides, side)
                    && !belongs_to(events, k, sides, side) ==> at.contains(k)
            &&& forall|i: int|
                0 <= i < at.len() ==> {
                    &&& 0 <= #[trigger] at[i] < events.len()
                    &&& gives_zone_to(events[at[i]], sides, captures[i].team)
                    &&& !belongs_to(events, at[i], sides, captures[i].team)
                    &&& captures[i].t_ms == events[at[i]].t_ms
                    &&& captures[i].detail == Some(name)
                    &&& captures[i].category is None
                    &&& captures[i].icon == Some("flag.svg"@)
                    &&& if i == 0 {
                        captures[i].delta == 20 && captures[i].kind == "capture_first"@
                    } else {
                        captures[i].delta == 50 && captures[i].kind == "capture_enemy"@
                    }
                }
        }),
    decreases events.len(),
{
    if events.len() == 0 {
        Seq::empty()
    } else {
        let front = events.drop_last();
        let last = events.len() - 1;
        let before = law_captures_of_a_zone(front, name, sides);
        let (done, owner) = zone_captures(front, name, sides);
        lemma_owner_of_zone(front, name, sides);
        assert forall|k: int| 0 <= k < last implies #[trigger] events[k] == front[k] by {}
        lemma_belongs(front, events[last], sides);
        assert(events =~= front.push(events[last]));
        let given = new_owner(events[last], sides);
        assert forall|side: u32| #[trigger] gives_zone_to(events[last], sides, side) <==> given
            == Some(side) by {}
        let captured = given is Some && owner != given;
        if captured {
            let at = before.push(last);
            let captures = zone_captures(events, name, sides).0;
            assert(captures =~= done.push(captures.last()));
            assert(gives_zone_to(events[last], sides, given->0));
            lemma_some_owner(front, name, sides);
            assert(!belongs_to(events, last, sides, given->0)) by {
                assert(belongs_to(front, last, sides, given->0) <==> owner == given);
            }
            assert forall|k: int, side: u32|
                0 <= k < events.len() && #[trigger] gives_zone_to(events[k], sides, side)
                    && !belongs_to(events, k, sides, side) implies at.contains(k) by {
                if k < last {
                    assert(gives_zone_to(front[k], sides, side));
                    assert(before.contains(k));
                    let i = choose|i: int| 0 <= i < before.len() && before[i] == k;
                    assert(at[i] == k);
                } else {
                    assert(at[before.len() as int] == k);
                }
            }
            at
        } else {
            assert forall|k: int, side: u32|
                0 <= k < events.len() && #[trigger] gives_zone_to(events[k], sides, side)
                    && !belongs_to(events, k, sides, side) implies before.contains(k) by {
                if k < last {
                    assert(gives_zone_to(front[k], sides, side));
                }
            }
            before
        }
    }
}

/// A zone that was captured belongs to a side.
proof fn lemma_some_owner(events: Seq<CaptureZoneEvent>, name: Seq<char>, sides: Map<u32, u32>)
    ensures
        zone_captures(events, name, sides).0.len() > 0 <==> zone_captures(
            events,
            name,
            sides,
        ).1 is Some,
    decreases events.len(),
{
    if events.len() > 0 {
        lemma_some_owner(events.drop_last(), name, sides);
    }
}

/// The last owner of a zone is the side that it belongs to.
proof fn lemma_owner_of_zone(events: Seq<CaptureZoneEvent>, name: Seq<char>, sides: Map<u32, u32>)
    ensures
        forall|side: u32| #[trigger]
            belongs_to(events, events.len() as int, sides, side) <==> zone_captures(
                events,
                name,
                sides,
            ).1 == Some(side),
        zone_captures(events, name, sides).1 is None ==> forall|k: int|
            0 <= k < events.len() ==> !gives_zone(#[trigger] events[k], sides),
    decreases events.len(),
{
    if events.len() > 0 {
        let front = events.drop_last();
        let last = events.len() - 1;
        lemma_owner_of_zone(front, name, sides);
        assert forall|k: int| 0 <= k < last implies #[trigger] events[k] == front[k] by {}
        lemma_belongs(front, events[last], sides);
        assert(events =~= front.push(events[last]));
        let given = new_owner(events[last], sides);
        let owner = zone_captures(front, name, sides).1;
        let after = zone_captures(events, name, sides).1;
        assert forall|side: u32| #[trigger] gives_zone_to(events[last], sides, side) <==> given
            == Some(side) by {}
        assert(gives_zone(events[last], sides) <==> given is Some);
        assert forall|side: u32| #[trigger]
            belongs_to(events, events.len() as int, sides, side) <==> after == Some(side) by {
            assert(belongs_to(front, front.len() as int, sides, side) <==> owner == Some(side));
            assert(gives_zone_to(events[last], sides, side) <==> given == Some(side));
        }
    }
}

/// What one more event changes of who a zone belongs to.
proof fn lemma_belongs(front: Seq<CaptureZoneEvent>, event: CaptureZoneEvent, sides: Map<u32, u32>)
    ensures
        ({
            let events = front.push(event);
            &&& forall|k: int, side: u32|
                0 <= k <= front.len() ==> #[trigger] belongs_to(events, k, sides, side)
                    == belongs_to(front, k, sides, side)
            &&& forall|side: u32| #[trigger]
                belongs_to(events, events.len() as int, sides, side) <==> (gives_zone_to(
                    event,
                    sides,
                    side,
                ) || !gives_zone(event, sides) && belongs_to(
                    front,
                    front.len() as int,
                    sides,
                    side,
                ))
        }),
{
    let events = front.push(event);
    let last = front.len() as int;
    assert forall|k: int, side: u32| 0 <= k <= front.len() implies #[trigger] belongs_to(
        events,
        k,
        sides,
        side,
    ) == belongs_to(front, k, sides, side) by {
        if belongs_to(events, k, sides, side) {
            let j = choose|j: int|
                {
                    &&& 0 <= j < k
                    &&& gives_zone_to(#[trigger] events[j], sides, side)
                    &&& forall|i: int| j < i < k ==> !gives_zone(#[trigger] events[i], sides)
                };
            assert(front[j] == events[j]);
            assert forall|i: int| j < i < k implies !gives_zone(#[trigger] front[i], sides) by {
                assert(front[i] == events[i]);
            }
        }
        if belongs_to(front, k, sides, side) {
            let j = choose|j: int|
                {
                    &&& 0 <= j < k
                    &&& gives_zone_to(#[trigger] front[j], sides, side)
                    &&& forall|i: int| j < i < k ==> !gives_zone(#[trigger] front[i], sides)
                };
            assert(front[j] == events[j]);
            assert forall|i: int| j < i < k implies !gives_zone(#[trigger] events[i], sides) by {
                assert(front[i] == events[i]);
            }
        }
    }
    assert forall|side: u32| #[trigger] belongs_to(events, events.len() as int, sides, side) <==> (
    gives_zone_to(event, sides, side) || !gives_zone(event, sides) && belongs_to(
        front,
        last,
        sides,
        side,
    )) by {
        assert(events[last] == event);
        if belongs_to(events, events.len() as int, sides, side) {
            let j = choose|j: int|
                {
                    &&& 0 <= j < events.len()
                    &&& gives_zone_to(#[trigger] events[j], sides, side)
                    &&& forall|i: int|
                        j < i < events.len() ==> !gives_zone(#[trigger] events[i], sides)
                };
            if j < last {
                assert(!gives_zone(events[last], sides));
                assert(front[j] == events[j]);
                assert forall|i: int| j < i < last implies !gives_zone(#[trigger] front[i], sides) by {
                    assert(front[i] == events[i]);
                }
            }
        }
        if gives_zone_to(event, sides, side) {
            assert(gives_zone_to(events[last], sides, side));
        } else if !gives_zone(event, sides) && belongs_to(front, last, sides, side) {
            let j = choose|j: int|
                {
                    &&& 0 <= j < last
                    &&& gives_zone_to(#[trigger] front[j], sides, side)
                    &&& forall|i: int| j < i < last ==> !gives_zone(#[trigger] front[i], sides)
                };
            assert(events[j] == front[j]);
            assert forall|i: int| j < i < events.len() implies !gives_zone(
                #[trigger] events[i],
                sides,
            ) by {
                if i < last {
                    assert(front[i] == events[i]);
                }
            }
        }
    }
}

/// The captures of one more zone come behind those of the others, under the name
/// of the zone, or `Unknown` where it has none. A zone with `main` in its name,
/// case aside, has none that count.
pub proof fn law_captures_zone_by_zone(
    zones: Seq<CaptureZone>,
    zone: CaptureZone,
    sides: Map<u32, u32>,
)
    ensures
        ({
            let name = match zone.name {
                Some(name) => name@,
                None => "Unknown"@,
            };
            captures_of(zones.push(zone), sides) == captures_of(zones, sides) + if has_part(
                lowercase(name),
                "main"@,
            ) {
                Seq::empty()
            } else {
                zone_captures(zone.events@, name, sides).0
            }
        }),
        captures_of(Seq::empty(), sides) == Seq::<TicketModel>::empty(),
{
    assert(zones.push(zone).drop_last() =~= zones);
}

// ---------------------------------------------------------------------------
// The whole
// ---------------------------------------------------------------------------

/// The tickets tell of the match and its teams what the bundle does. The tickets
/// at the start are those that the caller chose, or else 800 and 200 in a mode
/// with `invasion` in its name, case aside, and 250 for both in any other.
pub proof fn law_match_and_start(
    built: TicketProof,
    bundle: &Bundle,
    log_match: Option<&LogMatch>,
    options: &TicketProofOptions,
)
    requires
        call_ensures(build_ticketproof, (bundle, log_match, options), built),
    ensures
        built.version == 1,
        built.meta.map == bundle.replay.map_name,
        built.meta.layer == bundle.replay.layer_name,
        built.meta.duration_ms == bundle.replay.duration_ms,
        built.meta.mode is Some,
        bundle.game_state.game_mode matches Some(mode) ==> built.meta.mode->0@ == mode@,
        bundle.game_state.game_mode is None && bundle.replay.layer_name is None
            ==> built.meta.mode->0@ == "Unknown"@,
        ({
            let invasion = has_part(lowercase(built.meta.mode->0@), "invasion"@);
            let start = built.meta.start_tickets;
            &&& options.start_team1 matches Some(tickets) ==> start.team1 == tickets
            &&& options.start_team2 matches Some(tickets) ==> start.team2 == tickets
            &&& options.start_team1 is None ==> start.team1 == (if invasion {
                800i32
            } else {
                250i32
            })
            &&& options.start_team2 is None ==> start.team2 == (if invasion {
                200i32
            } else {
                250i32
            })
        }),
        built.teams@.len() == bundle.teams@.len(),
        forall|i: int|
            0 <= i < bundle.teams@.len() ==> {
                let team = #[trigger] bundle.teams@[i];
                &&& built.teams@[i].faction == team.faction
                &&& built.teams@[i].name == team.name
                &&& team.id == 0 ==> built.teams@[i].id == 1
                &&& team.id == 1 || team.id == 2 ==> built.teams@[i].id == 2
                &&& team.id > 2 ==> built.teams@[i].id == side_in(sides_of(bundle.teams@), team.id)
            },
{
    law_sides(bundle.teams@);
    assert(opt_text(built.meta.mode) == Some(mode_text(*bundle)));
}

/// The tickets over time begin with those of the start at time 0, and each event
/// is a point at its time: the team of the event, where every team but the first
/// counts as the second, has more tickets by what the event gains it, and the
/// other has as many as before. A match of some length has one more point at its
/// end. The last point is what the teams have in the end.
pub proof fn law_tickets_over_time(
    built: TicketProof,
    bundle: &Bundle,
    log_match: Option<&LogMatch>,
    options: &TicketProofOptions,
)
    requires
        tickets_fit(*bundle, *options),
        call_ensures(build_ticketproof, (bundle, log_match, options), built),
    ensures
        ({
            let points = built.timeline@;
            let events = built.events@;
            &&& points.len() == events.len() + (if bundle.replay.duration_ms > 0 {
                2int
            } else {
                1int
            })
            &&& points[0].t_ms == 0
            &&& points[0].team1 == built.meta.start_tickets.team1
            &&& points[0].team2 == built.meta.start_tickets.team2
            &&& forall|i: int|
                0 <= i < events.len() ==> {
                    let event = #[trigger] events[i];
                    let first: int = if event.team == 1 {
                        event.delta as int
                    } else {
                        0
                    };
                    &&& points[i + 1].t_ms == event.t_ms
                    &&& points[i + 1].team1 == points[i].team1 + first
                    &&& points[i + 1].team2 == points[i].team2 + event.delta - first
                }
            &&& bundle.replay.duration_ms > 0 ==> {
                &&& points.last().t_ms == bundle.replay.duration_ms
                &&& points.last().team1 == points[events.len() as int].team1
                &&& points.last().team2 == points[events.len() as int].team2
            }
            &&& built.final_tickets.team1 == points.last().team1
            &&& built.final_tickets.team2 == points.last().team2
            &&& forall|i: int, j: int|
                0 <= i < j < events.len() ==> (#[trigger] events[i]).t_ms <= (
                #[trigger] events[j]).t_ms
        }),
{
    let points = built.timeline@;
    let events = built.events@;
    let models = ticket_models(events);
    let start = start_of(*bundle, *options);
    assert(models == ticket_events(*bundle));
    assert(models.len() == events.len());
    assert(points == points_of(start, models, bundle.replay.duration_ms));
    assert(points_fit(start, models));
    assert(models.take(0) =~= Seq::empty());
    assert forall|i: int| 0 <= i < events.len() implies {
        let event = #[trigger] events[i];
        let first: int = if event.team == 1 {
            event.delta as int
        } else {
            0
        };
        &&& points[i + 1].t_ms == event.t_ms
        &&& points[i + 1].team1 == points[i].team1 + first
        &&& points[i + 1].team2 == points[i].team2 + event.delta - first
    } by {
        assert(models[i] == events[i]@);
        assert(models.take(i + 1).drop_last() =~= models.take(i));
        assert(models.take(i + 1).last() == models[i]);
        assert(fits_i32(point_after(start, models, i).0));
        assert(fits_i32(point_after(start, models, i + 1).0));
    }
    assert(fits_i32(point_after(start, models, models.len() as int).0));
    assert(fits_i32(point_after(start, models, 0).0));
    law_events_in_order(*bundle);
    assert forall|i: int, j: int| 0 <= i < j < events.len() implies (#[trigger] events[i]).t_ms <= (
    #[trigger] events[j]).t_ms by {
        assert(models[i] == events[i]@);
        assert(models[j] == events[j]@);
        assert(models[i].time() <= models[j].time());
    }
}

/// How many of some events are wanted.
pub open spec fn tally(events: Seq<TicketModel>, wanted: spec_fn(TicketModel) -> bool) -> nat
    decreases events.len(),
{
    if events.len() == 0 {
        0
    } else {
        tally(events.drop_last(), wanted) + if wanted(events.last()) {
            1nat
        } else {
            0
        }
    }
}

/// One more event is wanted or not, wherever it stands.
proof fn lemma_tally_with_item(
    events: Seq<TicketModel>,
    event: TicketModel,
    wanted: spec_fn(TicketModel) -> bool,
)
    ensures
        tally(with_item(events, event), wanted) == tally(events, wanted) + if wanted(event) {
            1nat
        } else {
            0
        },
    decreases events.len(),
{
    if events.len() == 0 || events.last().time() <= event.time() {
        assert(events.push(event).drop_last() =~= events);
    } else {
        let front = events.drop_last();
        lemma_tally_with_item(front, event, wanted);
        assert(with_item(front, event).push(events.last()).drop_last() =~= with_item(front, event));
    }
}

/// Sorting keeps how many are wanted.
proof fn lemma_tally_sorted(events: Seq<TicketModel>, wanted: spec_fn(TicketModel) -> bool)
    ensures
        tally(by_time(events), wanted) == tally(events, wanted),
    decreases events.len(),
{
    if events.len() > 0 {
        lemma_tally_sorted(events.drop_last(), wanted);
        lemma_tally_with_item(by_time(events.drop_last()), events.last(), wanted);
    }
}

/// Of two runs of events as many are wanted as of both.
proof fn lemma_tally_of_both(
    a: Seq<TicketModel>,
    b: Seq<TicketModel>,
    wanted: spec_fn(TicketModel) -> bool,
)
    ensures
        tally(a + b, wanted) == tally(a, wanted) + tally(b, wanted),
    decreases b.len(),
{
    if b.len() == 0 {
        assert(a + b =~= a);
    } else {
        assert((a + b).drop_last() =~= a + b.drop_last());
        lemma_tally_of_both(a, b.drop_last(), wanted);
    }
}

/// Where none is wanted, none is counted.
proof fn lemma_tally_none(events: Seq<TicketModel>, wanted: spec_fn(TicketModel) -> bool)
    requires
        forall|i: int| 0 <= i < events.len() ==> !wanted(#[trigger] events[i]),
    ensures
        tally(events, wanted) == 0,
    decreases events.len(),
{
    if events.len() > 0 {
        let front = events.drop_last();
        assert forall|i: int| 0 <= i < front.len() implies !wanted(#[trigger] front[i]) by {
            assert(front[i] == events[i]);
        }
        lemma_tally_none(front, wanted);
        assert(!wanted(events[events.len() - 1]));
    }
}

/// Where those of a team are wanted, those of the team are counted.
proof fn lemma_tally_team(
    events: Seq<TicketModel>,
    wanted: spec_fn(TicketModel) -> bool,
    team: u32,
)
    requires
        forall|i: int|
            0 <= i < events.len() ==> wanted(#[trigger] events[i]) == (events[i].team == team),
    ensures
        tally(events, wanted) == count_of(events, team),
    decreases events.len(),
{
    if events.len() > 0 {
        let front = events.drop_last();
        assert forall|i: int| 0 <= i < front.len() implies wanted(#[trigger] front[i]) == (
        front[i].team == team) by {
            assert(front[i] == events[i]);
        }
        lemma_tally_team(front, wanted, team);
        assert(wanted(events[events.len() - 1]) == (events[events.len() - 1].team == team));
    }
}

/// Where those of a team and a category are wanted, they are counted.
proof fn lemma_tally_category(
    events: Seq<TicketModel>,
    wanted: spec_fn(TicketModel) -> bool,
    team: u32,
    category: Seq<char>,
)
    requires
        forall|i: int|
            0 <= i < events.len() ==> wanted(#[trigger] events[i]) == (events[i].team == team
                && events[i].category == Some(category)),
    ensures
        tally(events, wanted) == count_in(events, team, category),
    decreases events.len(),
{
    if events.len() > 0 {
        let front = events.drop_last();
        assert forall|i: int| 0 <= i < front.len() implies wanted(#[trigger] front[i]) == (
        front[i].team == team && front[i].category == Some(category)) by {
            assert(front[i] == events[i]);
        }
        lemma_tally_category(front, wanted, team, category);
        let last = events[events.len() - 1];
        assert(wanted(last) == (last.team == team && last.category == Some(category)));
    }
}

/// The kind of each of some events.
spec fn all_of_kind(events: Seq<TicketModel>, kind: Seq<char>) -> bool {
    forall|i: int| 0 <= i < events.len() ==> (#[trigger] events[i]).kind == kind
}

/// All of some events are captures.
spec fn all_captures(events: Seq<TicketModel>) -> bool {
    forall|i: int|
        0 <= i < events.len() ==> (#[trigger] events[i]).kind == "capture_first"@ || events[i].kind
            == "capture_enemy"@
}

/// The captures of zones are captures.
proof fn lemma_kinds_of_captures(zones: Seq<CaptureZone>, sides: Map<u32, u32>)
    ensures
        all_captures(captures_of(zones, sides)),
    decreases zones.len(),
{
    if zones.len() > 0 {
        let zone = zones.last();
        lemma_kinds_of_captures(zones.drop_last(), sides);
        let before = captures_of(zones.drop_last(), sides);
        let name = zone_name(zone);
        let at = law_captures_of_a_zone(zone.events@, name, sides);
        let more = zone_captures(zone.events@, name, sides).0;
        assert forall|i: int| 0 <= i < captures_of(zones, sides).len() implies (
        #[trigger] captures_of(zones, sides)[i]).kind == "capture_first"@ || captures_of(
            zones,
            sides,
        )[i].kind == "capture_enemy"@ by {
            if i < before.len() {
                assert(captures_of(zones, sides)[i] == before[i]);
            } else {
                assert(0 <= at[i - before.len()]);
                assert(captures_of(zones, sides)[i] == more[i - before.len()]);
            }
        }
    }
}

/// The kinds are not written alike.
proof fn lemma_kinds_differ()
    ensures
        "infantry_death"@ != "vehicle_death"@,
        "infantry_death"@ != "capture_first"@,
        "infantry_death"@ != "capture_enemy"@,
        "infantry_death"@ != "radio_bleed"@,
        "vehicle_death"@ != "capture_first"@,
        "vehicle_death"@ != "capture_enemy"@,
        "vehicle_death"@ != "radio_bleed"@,
        "capture_first"@ != "radio_bleed"@,
        "capture_enemy"@ != "radio_bleed"@,
{
    reveal_strlit("infantry_death");
    reveal_strlit("vehicle_death");
    reveal_strlit("capture_first");
    reveal_strlit("capture_enemy");
    reveal_strlit("radio_bleed");
    assert("infantry_death"@[0] == 'i');
    assert("radio_bleed"@[0] == 'r');
    assert("vehicle_death"@[0] == 'v');
    assert("capture_first"@[0] == 'c');
    assert("capture_enemy"@[0] == 'c');
}

/// How many events of a match are of a kind, or of two kinds, and of a team.
pub open spec fn told_events(
    events: Seq<TicketEvent>,
    kind: Seq<char>,
    other: Seq<char>,
    team: u32,
) -> nat {
    events.filter(
        |event: TicketEvent| (event.kind@ == kind || event.kind@ == other) && event.team == team,
    ).len()
}

/// The counted events of a list are those of its models.
proof fn lemma_filter_is_tally(
    events: Seq<TicketEvent>,
    wanted: spec_fn(TicketEvent) -> bool,
    of_model: spec_fn(TicketModel) -> bool,
)
    requires
        forall|event: TicketEvent| #[trigger] wanted(event) == of_model(event@),
    ensures
        events.filter(wanted).len() == tally(ticket_models(events), of_model),
    decreases events.len(),
{
    reveal(Seq::filter);
    if events.len() > 0 {
        let front = events.drop_last();
        lemma_filter_is_tally(front, wanted, of_model);
        assert(ticket_models(events).drop_last() =~= ticket_models(front));
        assert(ticket_models(events).last() == events.last()@);
        assert(wanted(events.last()) == of_model(events.last()@));
    } else {
        assert(events.filter(wanted).len() == 0);
    }
}

/// What is wanted of all events of a match is what is wanted of each kind.
proof fn lemma_tally_of_kinds(bundle: Bundle, wanted: spec_fn(TicketModel) -> bool)
    ensures
        tally(ticket_events(bundle), wanted) == tally(infantry_events(bundle), wanted) + tally(
            vehicle_events(bundle),
            wanted,
        ) + tally(capture_events(bundle), wanted) + tally(radio_events(bundle), wanted),
        all_of_kind(infantry_events(bundle), "infantry_death"@),
        all_of_kind(vehicle_events(bundle), "vehicle_death"@),
        all_captures(capture_events(bundle)),
        all_of_kind(radio_events(bundle), "radio_bleed"@),
{
    let a = infantry_events(bundle);
    let b = vehicle_events(bundle);
    let c = capture_events(bundle);
    let d = radio_events(bundle);
    lemma_tally_sorted(a + b + c + d, wanted);
    lemma_tally_of_both(a + b + c, d, wanted);
    lemma_tally_of_both(a + b, c, wanted);
    lemma_tally_of_both(a, b, wanted);
    let deaths = law_deaths_of_known_victims(bundle);
    assert forall|i: int| 0 <= i < a.len() implies (#[trigger] a[i]).kind == "infantry_death"@ by {
        assert(0 <= deaths[i]);
    }
    let vehicles = law_losses_of_vehicles(bundle);
    assert forall|i: int| 0 <= i < b.len() implies (#[trigger] b[i]).kind == "vehicle_death"@ by {
        assert(0 <= vehicles[i]);
    }
    lemma_kinds_of_captures(bundle.events.capture_zones@, sides_of(bundle.teams@));
    let radios = law_losses_of_radios(bundle);
    assert forall|i: int| 0 <= i < d.len() implies (#[trigger] d[i]).kind == "radio_bleed"@ by {
        assert(0 <= radios[i]);
    }
}

/// The counts of a team are those of the events that the tickets tell: deaths of
/// players, losses of vehicles by category, captures, and radios that bled. The
/// radios that the team placed are all its radios among the deployables.
pub open spec fn are_counts_of(
    stats: TeamStats,
    events: Seq<TicketEvent>,
    bundle: Bundle,
    team: u32,
) -> bool {
    &&& stats.infantry_deaths == told_events(events, "infantry_death"@, "infantry_death"@, team)
    &&& stats.captures == told_events(events, "capture_first"@, "capture_enemy"@, team)
    &&& stats.radios_bled == told_events(events, "radio_bleed"@, "radio_bleed"@, team)
    &&& stats.radios_placed == bundle.actors.deployables@.filter(
        |deployable: ActorEntity| is_radio_of(deployable, sides_of(bundle.teams@), team),
    ).len()
    &&& forall|category: Seq<char>|
        {
            let told = events.filter(
                |event: TicketEvent|
                    event.kind@ == "vehicle_death"@ && event.team == team && opt_text(
                        event.category,
                    ) == Some(category),
            ).len();
            &&& #[trigger] stats.vehicle_deaths@.contains_key(category) <==> told > 0
            &&& stats.vehicle_deaths@.contains_key(category) ==> stats.vehicle_deaths@[category]
                == told
        }
}

/// The counts of the teams are those of the events of the match.
pub proof fn law_statistics(
    built: TicketProof,
    bundle: &Bundle,
    log_match: Option<&LogMatch>,
    options: &TicketProofOptions,
)
    requires
        call_ensures(build_ticketproof, (bundle, log_match, options), built),
    ensures
        are_counts_of(built.statistics.team1, built.events@, *bundle, 1),
        are_counts_of(built.statistics.team2, built.events@, *bundle, 2),
{
    lemma_statistics(built, *bundle, *options, built.statistics.team1, 1);
    lemma_statistics(built, *bundle, *options, built.statistics.team2, 2);
}

/// The counts of one team.
proof fn lemma_statistics(
    built: TicketProof,
    bundle: Bundle,
    options: TicketProofOptions,
    stats: TeamStats,
    team: u32,
)
    requires
        proves_tickets(built, bundle, options),
        stats_of(stats, bundle, team),
        team == 1 || team == 2,
    ensures
        are_counts_of(stats, built.events@, bundle, team),
{
    let events = built.events@;
    lemma_kinds_differ();
    law_radios_placed(bundle.actors.deployables@, sides_of(bundle.teams@), team);
    let a = infantry_events(bundle);
    let b = vehicle_events(bundle);
    let c = capture_events(bundle);
    let d = radio_events(bundle);

    let deaths = |event: TicketModel|
        (event.kind == "infantry_death"@ || event.kind == "infantry_death"@) && event.team == team;
    lemma_filter_is_tally(
        events,
        |event: TicketEvent|
            (event.kind@ == "infantry_death"@ || event.kind@ == "infantry_death"@) && event.team
                == team,
        deaths,
    );
    lemma_tally_of_kinds(bundle, deaths);
    lemma_tally_team(a, deaths, team);
    lemma_tally_none(b, deaths);
    lemma_tally_none(c, deaths);
    lemma_tally_none(d, deaths);

    let captures = |event: TicketModel|
        (event.kind == "capture_first"@ || event.kind == "capture_enemy"@) && event.team == team;
    lemma_filter_is_tally(
        events,
        |event: TicketEvent|
            (event.kind@ == "capture_first"@ || event.kind@ == "capture_enemy"@) && event.team
                == team,
        captures,
    );
    lemma_tally_of_kinds(bundle, captures);
    lemma_tally_none(a, captures);
    lemma_tally_none(b, captures);
    lemma_tally_team(c, captures, team);
    lemma_tally_none(d, captures);

    let bled = |event: TicketModel|
        (event.kind == "radio_bleed"@ || event.kind == "radio_bleed"@) && event.team == team;
    lemma_filter_is_tally(
        events,
        |event: TicketEvent|
            (event.kind@ == "radio_bleed"@ || event.kind@ == "radio_bleed"@) && event.team == team,
        bled,
    );
    lemma_tally_of_kinds(bundle, bled);
    lemma_tally_none(a, bled);
    lemma_tally_none(b, bled);
    lemma_tally_none(c, bled);
    lemma_tally_team(d, bled, team);

    assert forall|category: Seq<char>|
        {
            let told = events.filter(
                |event: TicketEvent|
                    event.kind@ == "vehicle_death"@ && event.team == team && opt_text(
                        event.category,
                    ) == Some(category),
            ).len();
            &&& #[trigger] stats.vehicle_deaths@.contains_key(category) <==> told > 0
            &&& stats.vehicle_deaths@.contains_key(category) ==> stats.vehicle_deaths@[category]
                == told
        } by {
        let lost = |event: TicketModel|
            event.kind == "vehicle_death"@ && event.team == team && event.category == Some(
                category,
            );
        lemma_filter_is_tally(
            events,
            |event: TicketEvent|
                event.kind@ == "vehicle_death"@ && event.team == team && opt_text(event.category)
                    == Some(category),
            lost,
        );
        lemma_tally_of_kinds(bundle, lost);
        lemma_tally_none(a, lost);
        lemma_tally_category(b, lost, team, category);
        lemma_tally_none(c, lost);
        lemma_tally_none(d, lost);
        assert(counts_categories(stats.vehicle_deaths@, b, team));
    }
}

/// The model of an event has what the event has, each in its place.
pub proof fn law_models_of_ticket_events(event: TicketEvent)
    ensures
        event@.t_ms == event.t_ms,
        event@.kind == event.kind@,
        event@.team == event.team,
        event@.delta == event.delta,
        event@.detail == opt_text(event.detail),
        event@.category == opt_text(event.category),
        event@.icon == opt_text(event.icon),
{
}

// ---------------------------------------------------------------------------
// Names and limits
// ---------------------------------------------------------------------------

/// The name of a vehicle for display is its name with a space for each
/// underscore, without the prefix of a blueprint, and up to the first `_C_`.
pub proof fn law_display_names(head: Seq<char>, rest: Seq<char>)
    requires
        !begins_with(head + "_C_"@ + rest, "BP_"@),
        forall|at: int| 0 <= at < head.len() ==> !(#[trigger] occurs_at(
            head + "_C_"@ + rest,
            "_C_"@,
            at,
        )),
    ensures
        ({
            let shown = display_name(head + "_C_"@ + rest);
            &&& shown.len() == head.len()
            &&& forall|i: int|
                0 <= i < head.len() ==> #[trigger] shown[i] == (if head[i] == '_' {
                    ' '
                } else {
                    head[i]
                })
            &&& display_name("BP_"@ + (head + "_C_"@ + rest)) == shown
        }),
{
    reveal_strlit("BP_");
    reveal_strlit("_C_");
    let name = head + "_C_"@ + rest;
    let full = "BP_"@ + name;
    assert(begins_with(full, "BP_"@)) by {
        assert forall|k: int| 0 <= k < "BP_"@.len() implies full[0 + k] == #[trigger] "BP_"@[k] by {}
    }
    assert(full.skip("BP_"@.len() as int) =~= name);
    assert(without_leading(name, "BP_"@) == name);
    assert(without_leading(full, "BP_"@) == name);
    assert(occurs_at(name, "_C_"@, head.len() as int)) by {
        assert forall|k: int| 0 <= k < "_C_"@.len() implies name[head.len() + k]
            == #[trigger] "_C_"@[k] by {}
    }
    lemma_first_index(name, "_C_"@, 0, head.len() as int);
    assert(name.take(head.len() as int) =~= head);
}

/// A name without the suffix of a class is shown whole.
pub proof fn law_plain_display_names(name: Seq<char>)
    requires
        !begins_with(name, "BP_"@),
        !has_part(name, "_C_"@),
    ensures
        display_name(name).len() == name.len(),
        forall|i: int|
            0 <= i < name.len() ==> #[trigger] display_name(name)[i] == (if name[i] == '_' {
                ' '
            } else {
                name[i]
            }),
{
    lemma_no_index(name, "_C_"@, 0);
}

/// A part is found at the first index at which it stands.
proof fn lemma_first_index(text: Seq<char>, part: Seq<char>, from: int, at: int)
    requires
        0 <= from <= at,
        occurs_at(text, part, at),
        forall|k: int| from <= k < at ==> !(#[trigger] occurs_at(text, part, k)),
    ensures
        part_index_from(text, part, from) == Some(at),
    decreases at - from,
{
    if from < at {
        assert(!occurs_at(text, part, from));
        lemma_first_index(text, part, from + 1, at);
    }
}

/// A part that stands nowhere is not found.
proof fn lemma_no_index(text: Seq<char>, part: Seq<char>, from: int)
    requires
        0 <= from,
        !has_part(text, part),
    ensures
        part_index_from(text, part, from) is None,
    decreases text.len() - from,
{
    if from + part.len() <= text.len() {
        assert(!occurs_at(text, part, from));
        lemma_no_index(text, part, from + 1);
    }
}

/// No event gains or costs more than 50 tickets.
proof fn lemma_small_deltas(bundle: Bundle)
    ensures
        forall|i: int|
            0 <= i < unsorted_events(bundle).len() ==> -50 <= (#[trigger] unsorted_events(
                bundle,
            )[i]).delta <= 50,
{
    law_infantry_deaths(bundle);
    law_losses(bundle);
    law_captures(bundle);
    let a = infantry_events(bundle);
    let b = vehicle_events(bundle);
    let c = capture_events(bundle);
    let d = radio_events(bundle);
    let all = unsorted_events(bundle);
    assert forall|i: int| 0 <= i < all.len() implies -50 <= (#[trigger] all[i]).delta <= 50 by {
        let (n, m, k) = (a.len() as int, b.len() as int, c.len() as int);
        if i < n {
            assert(all[i] == a[i]);
        } else if i < n + m {
            assert(all[i] == b[i - n]);
        } else if i < n + m + k {
            assert(all[i] == c[i - n - m]);
        } else {
            assert(all[i] == d[i - n - m - k]);
        }
    }
}

/// What events gain a side is at most 50 tickets each.
proof fn lemma_bounded_gain(events: Seq<TicketModel>, first: bool)
    requires
        forall|i: int| 0 <= i < events.len() ==> -50 <= (#[trigger] events[i]).delta <= 50,
    ensures
        -50 * events.len() <= total_gain(events, first) <= 50 * events.len(),
    decreases events.len(),
{
    if events.len() > 0 {
        let front = events.drop_last();
        assert forall|i: int| 0 <= i < front.len() implies -50 <= (#[trigger] front[i]).delta
            <= 50 by {
            assert(front[i] == events[i]);
        }
        lemma_bounded_gain(front, first);
        assert(-50 <= events[events.len() - 1].delta <= 50);
    }
}

/// No team has more events than there are.
proof fn lemma_bounded_counts(events: Seq<TicketModel>, team: u32, category: Seq<char>)
    ensures
        count_of(events, team) <= events.len(),
        count_in(events, team, category) <= events.len(),
    decreases events.len(),
{
    if events.len() > 0 {
        lemma_bounded_counts(events.drop_last(), team, category);
    }
}

/// No team has placed more radios than there are deployables.
proof fn lemma_bounded_radios(deployables: Seq<ActorEntity>, sides: Map<u32, u32>, side: u32)
    ensures
        radios_of(deployables, sides, side) <= deployables.len(),
    decreases deployables.len(),
{
    if deployables.len() > 0 {
        lemma_bounded_radios(deployables.drop_last(), sides, side);
    }
}

/// The tickets of a match fit in their 32 bits, and are built, wherever the
/// events and the deployables are so few that they must: no more than 32 bits
/// count, and no more than leave each side, at 50 tickets an event, within its
/// range.
pub proof fn law_tickets_fit(bundle: Bundle, options: TicketProofOptions)
    requires
        ({
            let n = unsorted_events(bundle).len();
            let start = start_of(bundle, options);
            &&& n <= u32::MAX
            &&& bundle.actors.deployables@.len() <= u32::MAX
            &&& i32::MIN + 50 * n <= start.0 <= i32::MAX - 50 * n
            &&& i32::MIN + 50 * n <= start.1 <= i32::MAX - 50 * n
        }),
    ensures
        tickets_fit(bundle, options),
{
    let unsorted = unsorted_events(bundle);
    let events = ticket_events(bundle);
    let start = start_of(bundle, options);
    let sides = sides_of(bundle.teams@);
    law_sorting(unsorted);
    lemma_small_deltas(bundle);
    assert forall|i: int| 0 <= i < events.len() implies -50 <= (#[trigger] events[i]).delta <= 50 by {
        broadcast use vstd::seq_lib::group_to_multiset_ensures;

        let event = events[i];
        assert(events.contains(event));
        assert(events.to_multiset().count(event) > 0);
        assert(unsorted.to_multiset().count(event) > 0);
        assert(unsorted.contains(event));
        let k = choose|k: int| 0 <= k < unsorted.len() && unsorted[k] == event;
        assert(-50 <= unsorted[k].delta <= 50);
    }
    assert forall|n: int| 0 <= n <= events.len() implies fits_i32(
        (#[trigger] point_after(start, events, n)).0,
    ) && fits_i32(point_after(start, events, n).1) by {
        let some = events.take(n);
        assert forall|i: int| 0 <= i < some.len() implies -50 <= (#[trigger] some[i]).delta <= 50 by {
            assert(some[i] == events[i]);
        }
        lemma_bounded_gain(some, true);
        lemma_bounded_gain(some, false);
    }
    assert forall|team: u32| #[trigger] stats_fit(bundle, team) by {
        lemma_bounded_counts(infantry_events(bundle), team, Seq::empty());
        lemma_bounded_counts(capture_events(bundle), team, Seq::empty());
        lemma_bounded_counts(radio_events(bundle), team, Seq::empty());
        lemma_bounded_radios(bundle.actors.deployables@, sides, team);
        assert forall|category: Seq<char>| #[trigger] count_in(
            vehicle_events(bundle),
            team,
            category,
        ) <= u32::MAX by {
            lemma_bounded_counts(vehicle_events(bundle), team, category);
        }
    }
    assert(stats_fit(bundle, 1) && stats_fit(bundle, 2));
}

} // verus!
