//! The deployables of a timeline, with how their health, ammo and construction
//! points change.

use crate::bundle::{ActorEntity, Bundle, PropertyEvent};
use crate::float_bits::{Float32, Float64};
use crate::grouped::Grouped;
use crate::numbers::{low_32, low_bits};
use crate::text::same_text;
use crate::time_order::{by_time, sort_by_time, HasTime, Timed};
use crate::timeline::lookups::is_about;
use crate::timeline::names::{deployable_class, extract_deployable_class};
use crate::timeline::{
    normalize_team_id, team_number, TimelineAmmoEvent, TimelineConstructionEvent,
    TimelineDeployable, TimelineHealthEvent,
};
use vstd::prelude::*;

verus! {

/// The value of a property at a time.
#[derive(Debug, Clone, Copy)]
pub struct Reading {
    pub t: u64,
    pub value: Float32,
}

impl HasTime for Reading {
    open spec fn time(&self) -> u64 {
        self.t
    }
}

impl Timed for Reading {
    fn time_ms(&self) -> (t: u64) {
        self.t
    }
}

/// The readings of a property of an actor, in the order of the events.
pub open spec fn readings_of(events: Seq<PropertyEvent>, property: Seq<char>, actor: u32) -> Seq<
    Reading,
>
    decreases events.len(),
{
    if events.len() == 0 {
        Seq::empty()
    } else {
        let before = readings_of(events.drop_last(), property, actor);
        let event = events.last();
        match event.decoded.float32 {
            Some(value) => if is_about(event, property) && event.actor_guid == Some(actor) {
                before.push(Reading { t: event.t_ms, value })
            } else {
                before
            },
            None => before,
        }
    }
}

/// Readings are kept by a comparison: the first, and then each that differs
/// from the one kept before it.
pub open spec fn keeps<F: Fn(Float32, Float32) -> bool>(
    differs: F,
    readings: Seq<Reading>,
    kept: Seq<Reading>,
) -> bool
    decreases readings.len(),
{
    if readings.len() == 0 {
        kept.len() == 0
    } else {
        let front = readings.drop_last();
        let last = readings.last();
        ||| {
            let before = kept.drop_last();
            &&& kept.len() > 0
            &&& kept.last() == last
            &&& keeps(differs, front, before)
            &&& before.len() > 0 ==> call_ensures(
                differs,
                (before.last().value, last.value),
                true,
            )
        }
        ||| {
            &&& kept.len() > 0
            &&& keeps(differs, front, kept)
            &&& call_ensures(differs, (kept.last().value, last.value), false)
        }
    }
}

/// Keeps the first reading, and then each that differs from the one kept before
/// it.
pub fn keep_changes<F: Fn(Float32, Float32) -> bool>(readings: &Vec<Reading>, differs: &F) -> (kept:
    Vec<Reading>)
    requires
        forall|a: Float32, b: Float32| call_requires(*differs, (a, b)),
    ensures
        keeps(*differs, readings@, kept@),
{
    let mut kept: Vec<Reading> = Vec::new();
    let mut i: usize = 0;
    while i < readings.len()
        invariant
            i <= readings@.len(),
            forall|a: Float32, b: Float32| call_requires(*differs, (a, b)),
            keeps(*differs, readings@.take(i as int), kept@),
            i > 0 ==> kept@.len() > 0,
        decreases readings@.len() - i,
    {
        let reading = readings[i];
        let ghost before = kept@;
        assert(readings@.take(i + 1).drop_last() =~= readings@.take(i as int));
        let n: usize = kept.len();
        if n == 0 {
            kept.push(reading);
            assert(kept@.drop_last() =~= before);
        } else {
            let changed: bool = differs(kept[n - 1].value, reading.value);
            if changed {
                kept.push(reading);
                assert(kept@.drop_last() =~= before);
            }
        }
        i += 1;
    }
    assert(readings@.take(i as int) =~= readings@);
    kept
}

/// The readings of a property, by actor.
fn collect_readings(events: &Vec<PropertyEvent>, property: &str) -> (readings: Grouped<Reading>)
    ensures
        forall|actor: u32| #[trigger]
            readings.items(actor) == readings_of(events@, property@, actor),
{
    let mut readings: Grouped<Reading> = Grouped::new();
    let mut i: usize = 0;
    while i < events.len()
        invariant
            i <= events@.len(),
            forall|actor: u32| #[trigger]
                readings.items(actor) == readings_of(events@.take(i as int), property@, actor),
        decreases events@.len() - i,
    {
        let event = &events[i];
        assert(events@.take(i + 1).drop_last() =~= events@.take(i as int));
        if let Some(actor) = event.actor_guid {
            if let Some(value) = event.decoded.float32 {
                if same_text(&event.property_name, property) {
                    readings.push(actor, Reading { t: event.t_ms, value });
                }
            }
        }
        i += 1;
    }
    assert(events@.take(i as int) =~= events@);
    readings
}

/// The first of some deployables with its GUID is this one.
pub open spec fn is_first(deployables: Seq<ActorEntity>, i: int) -> bool {
    forall|j: int|
        0 <= j < i ==> (#[trigger] deployables[j]).actor_guid != deployables[i].actor_guid
}

/// The readings of a property of a deployable in the order of their times. They
/// are told of the first deployable with a GUID alone.
pub open spec fn readings_at(bundle: Bundle, property: Seq<char>, i: int) -> Seq<Reading> {
    if is_first(bundle.actors.deployables@, i) {
        by_time(
            readings_of(
                bundle.events.properties@,
                property,
                bundle.actors.deployables@[i].actor_guid,
            ),
        )
    } else {
        Seq::empty()
    }
}

/// The health of readings.
pub open spec fn health_readings(events: Seq<TimelineHealthEvent>) -> Seq<Reading> {
    events.map_values(|e: TimelineHealthEvent| Reading { t: e.t, value: e.health })
}

/// The ammo of readings.
pub open spec fn ammo_readings(events: Seq<TimelineAmmoEvent>) -> Seq<Reading> {
    events.map_values(|e: TimelineAmmoEvent| Reading { t: e.t, value: e.ammo })
}

/// The construction points of readings.
pub open spec fn construction_readings(events: Seq<TimelineConstructionEvent>) -> Seq<Reading> {
    events.map_values(|e: TimelineConstructionEvent| Reading { t: e.t, value: e.points })
}

/// The short name of a class of deployables, or that it is not known.
pub open spec fn deployable_text(class_name: Option<String>) -> Seq<char> {
    match class_name {
        Some(name) => deployable_class(name@),
        None => "Unknown"@,
    }
}

/// A deployable of the timeline is one of a bundle.
pub open spec fn is_deployable_of<F: Fn(Float32, Float32) -> bool>(
    shown: TimelineDeployable,
    bundle: Bundle,
    i: int,
    differs: F,
) -> bool {
    let actor = bundle.actors.deployables@[i];
    let place = actor.initial_location;
    &&& shown.class@ == deployable_text(actor.class_name)
    &&& shown.team_id == (match actor.team {
        Some(team) => Some(team_number(low_bits(team as int))),
        None => None,
    })
    &&& shown.x == (match place {
        Some(at) => at.x,
        None => Float64 { bits: 0 },
    })
    &&& shown.y == (match place {
        Some(at) => at.y,
        None => Float64 { bits: 0 },
    })
    &&& shown.z == (match place {
        Some(at) => at.z,
        None => Float64 { bits: 0 },
    })
    &&& shown.placed_at == actor.open_time_ms
    &&& shown.destroyed_at == actor.close_time_ms
    &&& shown.health == actor.health
    &&& keeps(differs, readings_at(bundle, "Health"@, i), health_readings(shown.health_events@))
    &&& keeps(differs, readings_at(bundle, "Ammo"@, i), ammo_readings(shown.ammo_events@))
    &&& keeps(
        differs,
        readings_at(bundle, "ConstructionPoints"@, i),
        construction_readings(shown.construction_events@),
    )
}

/// The health events of readings.
fn to_health_events(readings: &Vec<Reading>) -> (events: Vec<TimelineHealthEvent>)
    ensures
        health_readings(events@) == readings@,
{
    let mut events: Vec<TimelineHealthEvent> = Vec::new();
    let mut i: usize = 0;
    assert(health_readings(events@) =~= readings@.take(0));
    while i < readings.len()
        invariant
            i <= readings@.len(),
            health_readings(events@) == readings@.take(i as int),
        decreases readings@.len() - i,
    {
        let ghost before = health_readings(events@);
        events.push(TimelineHealthEvent { t: readings[i].t, health: readings[i].value });
        assert(health_readings(events@) =~= before.push(readings@[i as int]));
        assert(readings@.take(i + 1) =~= before.push(readings@[i as int]));
        i += 1;
    }
    assert(readings@.take(i as int) =~= readings@);
    events
}

/// The ammo events of readings.
fn to_ammo_events(readings: &Vec<Reading>) -> (events: Vec<TimelineAmmoEvent>)
    ensures
        ammo_readings(events@) == readings@,
{
    let mut events: Vec<TimelineAmmoEvent> = Vec::new();
    let mut i: usize = 0;
    assert(ammo_readings(events@) =~= readings@.take(0));
    while i < readings.len()
        invariant
            i <= readings@.len(),
            ammo_readings(events@) == readings@.take(i as int),
        decreases readings@.len() - i,
    {
        let ghost before = ammo_readings(events@);
        events.push(TimelineAmmoEvent { t: readings[i].t, ammo: readings[i].value });
        assert(ammo_readings(events@) =~= before.push(readings@[i as int]));
        assert(readings@.take(i + 1) =~= before.push(readings@[i as int]));
        i += 1;
    }
    assert(readings@.take(i as int) =~= readings@);
    events
}

/// The construction events of readings.
fn to_construction_events(readings: &Vec<Reading>) -> (events: Vec<TimelineConstructionEvent>)
    ensures
        construction_readings(events@) == readings@,
{
    let mut events: Vec<TimelineConstructionEvent> = Vec::new();
    let mut i: usize = 0;
    assert(construction_readings(events@) =~= readings@.take(0));
    while i < readings.len()
        invariant
            i <= readings@.len(),
            construction_readings(events@) == readings@.take(i as int),
        decreases readings@.len() - i,
    {
        let ghost before = construction_readings(events@);
        events.push(TimelineConstructionEvent { t: readings[i].t, points: readings[i].value });
        assert(construction_readings(events@) =~= before.push(readings@[i as int]));
        assert(readings@.take(i + 1) =~= before.push(readings@[i as int]));
        i += 1;
    }
    assert(readings@.take(i as int) =~= readings@);
    events
}

/// The readings that are left are those of actors that are none of the first
/// `n` deployables.
spec fn left_after(
    readings: Grouped<Reading>,
    events: Seq<PropertyEvent>,
    property: Seq<char>,
    deployables: Seq<ActorEntity>,
    n: int,
) -> bool {
    forall|actor: u32| #[trigger]
        readings.items(actor) == (if exists|j: int|
            0 <= j < n && (#[trigger] deployables[j]).actor_guid == actor {
            Seq::empty()
        } else {
            readings_of(events, property, actor)
        })
}

/// Takes out the readings of a deployable, in the order of their times.
fn take_readings(
    readings: &mut Grouped<Reading>,
    bundle: &Bundle,
    property: Ghost<Seq<char>>,
    i: usize,
) -> (sorted: Vec<Reading>)
    requires
        i < bundle.actors.deployables@.len(),
        left_after(
            *old(readings),
            bundle.events.properties@,
            property@,
            bundle.actors.deployables@,
            i as int,
        ),
    ensures
        sorted@ == readings_at(*bundle, property@, i as int),
        left_after(
            *final(readings),
            bundle.events.properties@,
            property@,
            bundle.actors.deployables@,
            i + 1,
        ),
{
    let ghost deployables = bundle.actors.deployables@;
    let ghost before = *readings;
    let guid: u32 = bundle.actors.deployables[i].actor_guid;
    let list = readings.take(guid);
    proof {
        assert(before.items(guid) == (if exists|j: int|
            0 <= j < i && (#[trigger] deployables[j]).actor_guid == guid {
            Seq::empty()
        } else {
            readings_of(bundle.events.properties@, property@, guid)
        }));
        assert forall|actor: u32| #[trigger]
            readings.items(actor) == (if exists|j: int|
                0 <= j < i + 1 && (#[trigger] deployables[j]).actor_guid == actor {
                Seq::empty()
            } else {
                readings_of(bundle.events.properties@, property@, actor)
            }) by {
            assert(before.items(actor) == (if exists|j: int|
                0 <= j < i && (#[trigger] deployables[j]).actor_guid == actor {
                Seq::empty()
            } else {
                readings_of(bundle.events.properties@, property@, actor)
            }));
            if actor == guid {
                assert(deployables[i as int].actor_guid == actor);
            }
        }
        assert(by_time(Seq::<Reading>::empty()) =~= Seq::empty());
    }
    sort_by_time(list)
}

/// The deployables of a match. Whether two readings differ is for the caller to
/// say.
pub fn build_deployables<F: Fn(Float32, Float32) -> bool>(bundle: &Bundle, differs: &F) -> (shown:
    Vec<TimelineDeployable>)
    requires
        forall|a: Float32, b: Float32| call_requires(*differs, (a, b)),
    ensures
        shown@.len() == bundle.actors.deployables@.len(),
        forall|i: int|
            0 <= i < shown@.len() ==> is_deployable_of(
                #[trigger] shown@[i],
                *bundle,
                i,
                *differs,
            ),
{
    let mut health = collect_readings(&bundle.events.properties, "Health");
    let mut ammo = collect_readings(&bundle.events.properties, "Ammo");
    let mut construction = collect_readings(&bundle.events.properties, "ConstructionPoints");
    let ghost events = bundle.events.properties@;
    let ghost deployables = bundle.actors.deployables@;
    let mut shown: Vec<TimelineDeployable> = Vec::new();
    let mut i: usize = 0;
    while i < bundle.actors.deployables.len()
        invariant
            i <= bundle.actors.deployables@.len(),
            events == bundle.events.properties@,
            deployables == bundle.actors.deployables@,
            shown@.len() == i,
            forall|a: Float32, b: Float32| call_requires(*differs, (a, b)),
            left_after(health, events, "Health"@, deployables, i as int),
            left_after(ammo, events, "Ammo"@, deployables, i as int),
            left_after(construction, events, "ConstructionPoints"@, deployables, i as int),
            forall|k: int|
                0 <= k < i ==> is_deployable_of(#[trigger] shown@[k], *bundle, k, *differs),
        decreases bundle.actors.deployables@.len() - i,
    {
        let actor = &bundle.actors.deployables[i];
        let class: String = match &actor.class_name {
            Some(name) => extract_deployable_class(name),
            None => "Unknown".to_owned(),
        };
        let health_kept = keep_changes(
            &take_readings(&mut health, bundle, Ghost("Health"@), i),
            differs,
        );
        let ammo_kept = keep_changes(
            &take_readings(&mut ammo, bundle, Ghost("Ammo"@), i),
            differs,
        );
        let construction_kept = keep_changes(
            &take_readings(&mut construction, bundle, Ghost("ConstructionPoints"@), i),
            differs,
        );
        let team_id: Option<u32> = match actor.team {
            Some(team) => Some(normalize_team_id(low_32(team))),
            None => None,
        };
        let origin = Float64 { bits: 0 };
        let (x, y, z) = match actor.initial_location {
            Some(at) => (at.x, at.y, at.z),
            None => (origin, origin, origin),
        };
        let deployable = TimelineDeployable {
            class,
            team_id,
            x,
            y,
            z,
            placed_at: actor.open_time_ms,
            destroyed_at: actor.close_time_ms,
            health: actor.health,
            health_events: to_health_events(&health_kept),
            ammo_events: to_ammo_events(&ammo_kept),
            construction_events: to_construction_events(&construction_kept),
        };
        assert(is_deployable_of(deployable, *bundle, i as int, *differs));
        shown.push(deployable);
        i += 1;
    }
    shown
}

/// Items are those at some indexes of a list, in their order.
pub open spec fn stand_at<T>(items: Seq<T>, list: Seq<T>, at: Seq<int>) -> bool {
    &&& at.len() == items.len()
    &&& forall|i: int|
        0 <= i < at.len() ==> 0 <= #[trigger] at[i] < list.len() && items[i] == list[at[i]]
    &&& forall|i: int, j: int| 0 <= i < j < at.len() ==> #[trigger] at[i] < #[trigger] at[j]
}

/// Items are some of a list, in their order.
pub open spec fn is_subsequence<T>(items: Seq<T>, list: Seq<T>) -> bool {
    exists|at: Seq<int>| #[trigger] stand_at(items, list, at)
}

/// Some items of a list are some of a longer one, and so they are with its last
/// item behind them.
proof fn lemma_longer_list<T>(items: Seq<T>, list: Seq<T>)
    requires
        list.len() > 0,
        is_subsequence(items, list.drop_last()),
    ensures
        is_subsequence(items, list),
        is_subsequence(items.push(list.last()), list),
{
    let at = choose|at: Seq<int>| #[trigger] stand_at(items, list.drop_last(), at);
    assert(stand_at(items, list, at));
    assert(stand_at(items.push(list.last()), list, at.push(list.len() - 1)));
}

/// The last of some readings is kept, or it is not.
proof fn lemma_last_reading<F: Fn(Float32, Float32) -> bool>(
    differs: F,
    readings: Seq<Reading>,
    kept: Seq<Reading>,
)
    requires
        readings.len() > 0,
        keeps(differs, readings, kept),
    ensures
        kept.len() > 0,
        keeps(differs, readings.drop_last(), kept) || {
            let before = kept.drop_last();
            &&& kept == before.push(readings.last())
            &&& keeps(differs, readings.drop_last(), before)
            &&& before.len() > 0 ==> call_ensures(
                differs,
                (before.last().value, readings.last().value),
                true,
            )
        },
{
    assert(kept =~= kept.drop_last().push(kept.last()));
}

/// Kept readings are some of the readings, in their order.
proof fn lemma_kept_in_order<F: Fn(Float32, Float32) -> bool>(
    differs: F,
    readings: Seq<Reading>,
    kept: Seq<Reading>,
)
    requires
        keeps(differs, readings, kept),
    ensures
        is_subsequence(kept, readings),
    decreases readings.len(),
{
    if readings.len() == 0 {
        assert(stand_at(kept, readings, Seq::empty()));
    } else {
        let front = readings.drop_last();
        lemma_last_reading(differs, readings, kept);
        if keeps(differs, front, kept) {
            lemma_kept_in_order(differs, front, kept);
            lemma_longer_list(kept, readings);
        } else {
            lemma_kept_in_order(differs, front, kept.drop_last());
            lemma_longer_list(kept.drop_last(), readings);
        }
    }
}

/// The first of some readings is kept.
proof fn lemma_first_kept<F: Fn(Float32, Float32) -> bool>(
    differs: F,
    readings: Seq<Reading>,
    kept: Seq<Reading>,
)
    requires
        readings.len() > 0,
        keeps(differs, readings, kept),
    ensures
        kept.len() > 0,
        kept[0] == readings[0],
    decreases readings.len(),
{
    let front = readings.drop_last();
    lemma_last_reading(differs, readings, kept);
    if front.len() > 0 {
        if keeps(differs, front, kept) {
            lemma_first_kept(differs, front, kept);
        } else {
            lemma_first_kept(differs, front, kept.drop_last());
        }
    }
}

/// Each kept reading differs from the one kept before it.
proof fn lemma_kept_differ<F: Fn(Float32, Float32) -> bool>(
    differs: F,
    readings: Seq<Reading>,
    kept: Seq<Reading>,
    i: int,
)
    requires
        keeps(differs, readings, kept),
        0 < i < kept.len(),
    ensures
        call_ensures(differs, (kept[i - 1].value, kept[i].value), true),
    decreases readings.len(),
{
    let front = readings.drop_last();
    lemma_last_reading(differs, readings, kept);
    if keeps(differs, front, kept) {
        lemma_kept_differ(differs, front, kept, i);
    } else if i < kept.len() - 1 {
        lemma_kept_differ(differs, front, kept.drop_last(), i);
    }
}

/// Kept readings are some of the readings, in their order; the first one is
/// kept, and each differs from the one kept before it.
pub proof fn law_kept_readings<F: Fn(Float32, Float32) -> bool>(
    differs: F,
    readings: Seq<Reading>,
    kept: Seq<Reading>,
)
    requires
        keeps(differs, readings, kept),
    ensures
        is_subsequence(kept, readings),
        readings.len() > 0 ==> kept.len() > 0 && kept[0] == readings[0],
        forall|i: int| 0 < i < kept.len() ==> call_ensures(
            differs,
            (kept[i - 1].value, (#[trigger] kept[i]).value),
            true,
        ),
{
    lemma_kept_in_order(differs, readings, kept);
    if readings.len() > 0 {
        lemma_first_kept(differs, readings, kept);
    }
    assert forall|i: int| 0 < i < kept.len() implies call_ensures(
        differs,
        (kept[i - 1].value, (#[trigger] kept[i]).value),
        true,
    ) by {
        lemma_kept_differ(differs, readings, kept, i);
    }
}

/// Between a kept reading and the next, and behind the last one, no reading
/// differs from the kept one: what differs is kept.
pub proof fn law_dropped_readings<F: Fn(Float32, Float32) -> bool>(
    differs: F,
    readings: Seq<Reading>,
    kept: Seq<Reading>,
) -> (at: Seq<int>)
    requires
        keeps(differs, readings, kept),
    ensures
        stand_at(kept, readings, at),
        at.len() > 0 ==> at[0] == 0,
        forall|i: int, j: int, k: int|
            0 <= i < at.len() && j == i + 1 && j < at.len() && #[trigger] at[i] < k < #[trigger] at[j]
                ==> call_ensures(differs, (kept[i].value, (#[trigger] readings[k]).value), false),
        forall|k: int|
            at.len() > 0 && at.last() < k < readings.len() ==> call_ensures(
                differs,
                (kept.last().value, (#[trigger] readings[k]).value),
                false,
            ),
    decreases readings.len(),
{
    if readings.len() == 0 {
        Seq::empty()
    } else {
        let front = readings.drop_last();
        let last = readings.len() - 1;
        let earlier = kept.drop_last();
        assert forall|k: int| 0 <= k < last implies #[trigger] readings[k] == front[k] by {}
        if kept.len() > 0 && kept.last() == readings.last() && keeps(differs, front, earlier) && (
        earlier.len() > 0 ==> call_ensures(
            differs,
            (earlier.last().value, readings.last().value),
            true,
        )) {
            let before = law_dropped_readings(differs, front, earlier);
            let at = before.push(last);
            assert(stand_at(kept, readings, at)) by {
                assert forall|i: int| 0 <= i < at.len() implies 0 <= #[trigger] at[i]
                    < readings.len() && kept[i] == readings[at[i]] by {
                    if i < before.len() {
                        assert(at[i] == before[i]);
                        assert(earlier[i] == kept[i]);
                    }
                }
            }
            if before.len() == 0 {
                lemma_nothing_kept(differs, front, earlier);
            }
            assert forall|i: int, j: int, k: int|
                0 <= i < at.len() && j == i + 1 && j < at.len() && #[trigger] at[i] < k
                    < #[trigger] at[j] implies call_ensures(
                differs,
                (kept[i].value, (#[trigger] readings[k]).value),
                false,
            ) by {
                assert(readings[k] == front[k]);
                assert(at[i] == before[i]);
                assert(earlier[i] == kept[i]);
                if j < before.len() {
                    assert(at[j] == before[j]);
                } else {
                    assert(before.last() == before[i]);
                    assert(earlier.last() == earlier[i]);
                }
            }
            at
        } else {
            let before = law_dropped_readings(differs, front, kept);
            assert(stand_at(kept, readings, before)) by {
                assert forall|i: int| 0 <= i < before.len() implies 0 <= #[trigger] before[i]
                    < readings.len() && kept[i] == readings[before[i]] by {}
            }
            before
        }
    }
}

/// Where nothing is kept, there is nothing to keep.
proof fn lemma_nothing_kept<F: Fn(Float32, Float32) -> bool>(
    differs: F,
    readings: Seq<Reading>,
    kept: Seq<Reading>,
)
    requires
        keeps(differs, readings, kept),
        kept.len() == 0,
    ensures
        readings.len() == 0,
{
}

/// What a deployable shows of a property is what was read, at the time at which
/// it was.
pub proof fn law_readings_shown(
    health: Seq<TimelineHealthEvent>,
    ammo: Seq<TimelineAmmoEvent>,
    construction: Seq<TimelineConstructionEvent>,
)
    ensures
        health_readings(health).len() == health.len(),
        forall|i: int|
            0 <= i < health.len() ==> health_readings(health)[i].t == (#[trigger] health[i]).t
                && health_readings(health)[i].value == health[i].health,
        ammo_readings(ammo).len() == ammo.len(),
        forall|i: int|
            0 <= i < ammo.len() ==> ammo_readings(ammo)[i].t == (#[trigger] ammo[i]).t
                && ammo_readings(ammo)[i].value == ammo[i].ammo,
        construction_readings(construction).len() == construction.len(),
        forall|i: int|
            0 <= i < construction.len() ==> construction_readings(construction)[i].t == (
            #[trigger] construction[i]).t && construction_readings(construction)[i].value
                == construction[i].points,
{
}

} // verus!
