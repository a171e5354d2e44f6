//! The parts of a bundle that have a section of their own in a `.sqrb` file:
//! which field each of them carries, and how they make up a bundle again.

use crate::bundle::{
    ActorEntity, ActorGroups, Bundle, CaptureZone, ComponentEntity, ComponentStateEvent,
    DeploymentEvent, Diagnostics, EventGroups, GameStateInfo, KillEvent, Player, PropertyEvent,
    ReplayInfoSection, SchemaInfo, SeatChangeEvent, Squad, Team, Track3, TrackGroups,
    VehicleDeathEvent, VehicleStateEvent, WeaponStateEvent,
};
use crate::formats::{section_number, section_order, SectionId};
use vstd::prelude::*;

verus! {

/// A part of a bundle.
#[derive(Debug, Clone)]
pub enum SectionPart {
    Manifest { schema: SchemaInfo, replay: ReplayInfoSection },
    Teams(Vec<Team>),
    Squads(Vec<Squad>),
    Players(Vec<Player>),
    Vehicles(Vec<ActorEntity>),
    Helicopters(Vec<ActorEntity>),
    Deployables(Vec<ActorEntity>),
    Components(Vec<ComponentEntity>),
    PlayerTracks(Vec<Track3>),
    VehicleTracks(Vec<Track3>),
    HelicopterTracks(Vec<Track3>),
    Kills(Vec<KillEvent>),
    Deployments(Vec<DeploymentEvent>),
    SeatChanges(Vec<SeatChangeEvent>),
    ComponentStates(Vec<ComponentStateEvent>),
    VehicleStates(Vec<VehicleStateEvent>),
    WeaponStates(Vec<WeaponStateEvent>),
    Properties(Vec<PropertyEvent>),
    Diagnostics(Diagnostics),
    GameState(GameStateInfo),
    CaptureZones(Vec<CaptureZone>),
    VehicleDeaths(Vec<VehicleDeathEvent>),
}

/// The section of a part.
pub open spec fn part_id(part: SectionPart) -> SectionId {
    match part {
        SectionPart::Manifest { .. } => SectionId::Manifest,
        SectionPart::Teams(_) => SectionId::Teams,
        SectionPart::Squads(_) => SectionId::Squads,
        SectionPart::Players(_) => SectionId::Players,
        SectionPart::Vehicles(_) => SectionId::Vehicles,
        SectionPart::Helicopters(_) => SectionId::Helicopters,
        SectionPart::Deployables(_) => SectionId::Deployables,
        SectionPart::Components(_) => SectionId::Components,
        SectionPart::PlayerTracks(_) => SectionId::PlayerTracks,
        SectionPart::VehicleTracks(_) => SectionId::VehicleTracks,
        SectionPart::HelicopterTracks(_) => SectionId::HelicopterTracks,
        SectionPart::Kills(_) => SectionId::Kills,
        SectionPart::Deployments(_) => SectionId::Deployments,
        SectionPart::SeatChanges(_) => SectionId::SeatChanges,
        SectionPart::ComponentStates(_) => SectionId::ComponentStates,
        SectionPart::VehicleStates(_) => SectionId::VehicleStates,
        SectionPart::WeaponStates(_) => SectionId::WeaponStates,
        SectionPart::Properties(_) => SectionId::Properties,
        SectionPart::Diagnostics(_) => SectionId::Diagnostics,
        SectionPart::GameState(_) => SectionId::GameState,
        SectionPart::CaptureZones(_) => SectionId::CaptureZones,
        SectionPart::VehicleDeaths(_) => SectionId::VehicleDeaths,
    }
}

/// The part of a bundle that a section carries.
pub open spec fn part_of(bundle: Bundle, id: SectionId) -> SectionPart {
    match id {
        SectionId::Manifest => SectionPart::Manifest {
            schema: bundle.schema,
            replay: bundle.replay,
        },
        SectionId::Teams => SectionPart::Teams(bundle.teams),
        SectionId::Squads => SectionPart::Squads(bundle.squads),
        SectionId::Players => SectionPart::Players(bundle.players),
        SectionId::Vehicles => SectionPart::Vehicles(bundle.actors.vehicles),
        SectionId::Helicopters => SectionPart::Helicopters(bundle.actors.helicopters),
        SectionId::Deployables => SectionPart::Deployables(bundle.actors.deployables),
        SectionId::Components => SectionPart::Components(bundle.actors.components),
        SectionId::PlayerTracks => SectionPart::PlayerTracks(bundle.tracks.players),
        SectionId::VehicleTracks => SectionPart::VehicleTracks(bundle.tracks.vehicles),
        SectionId::HelicopterTracks => SectionPart::HelicopterTracks(bundle.tracks.helicopters),
        SectionId::Kills => SectionPart::Kills(bundle.events.kills),
        SectionId::Deployments => SectionPart::Deployments(bundle.events.deployments),
        SectionId::SeatChanges => SectionPart::SeatChanges(bundle.events.seat_changes),
        SectionId::ComponentStates => SectionPart::ComponentStates(bundle.events.component_states),
        SectionId::VehicleStates => SectionPart::VehicleStates(bundle.events.vehicle_states),
        SectionId::WeaponStates => SectionPart::WeaponStates(bundle.events.weapon_states),
        SectionId::Properties => SectionPart::Properties(bundle.events.properties),
        SectionId::Diagnostics => SectionPart::Diagnostics(bundle.diagnostics),
        SectionId::GameState => SectionPart::GameState(bundle.game_state),
        SectionId::CaptureZones => SectionPart::CaptureZones(bundle.events.capture_zones),
        SectionId::VehicleDeaths => SectionPart::VehicleDeaths(bundle.events.vehicle_deaths),
    }
}

/// All parts of a bundle, in the order of the sections.
pub open spec fn parts_of(bundle: Bundle) -> Seq<SectionPart> {
    section_order().map_values(|id: SectionId| part_of(bundle, id))
}

/// A bundle with one part replaced.
pub open spec fn with_part(bundle: Bundle, part: SectionPart) -> Bundle {
    match part {
        SectionPart::Manifest { schema, replay } => Bundle { schema, replay, ..bundle },
        SectionPart::Teams(list) => Bundle { teams: list, ..bundle },
        SectionPart::Squads(list) => Bundle { squads: list, ..bundle },
        SectionPart::Players(list) => Bundle { players: list, ..bundle },
        SectionPart::Vehicles(list) => Bundle {
            actors: ActorGroups { vehicles: list, ..bundle.actors },
            ..bundle
        },
        SectionPart::Helicopters(list) => Bundle {
            actors: ActorGroups { helicopters: list, ..bundle.actors },
            ..bundle
        },
        SectionPart::Deployables(list) => Bundle {
            actors: ActorGroups { deployables: list, ..bundle.actors },
            ..bundle
        },
        SectionPart::Components(list) => Bundle {
            actors: ActorGroups { components: list, ..bundle.actors },
            ..bundle
        },
        SectionPart::PlayerTracks(list) => Bundle {
            tracks: TrackGroups { players: list, ..bundle.tracks },
            ..bundle
        },
        SectionPart::VehicleTracks(list) => Bundle {
            tracks: TrackGroups { vehicles: list, ..bundle.tracks },
            ..bundle
        },
        SectionPart::HelicopterTracks(list) => Bundle {
            tracks: TrackGroups { helicopters: list, ..bundle.tracks },
            ..bundle
        },
        SectionPart::Kills(list) => Bundle {
            events: EventGroups { kills: list, ..bundle.events },
            ..bundle
        },
        SectionPart::Deployments(list) => Bundle {
            events: EventGroups { deployments: list, ..bundle.events },
            ..bundle
        },
        SectionPart::SeatChanges(list) => Bundle {
            events: EventGroups { seat_changes: list, ..bundle.events },
            ..bundle
        },
        SectionPart::ComponentStates(list) => Bundle {
            events: EventGroups { component_states: list, ..bundle.events },
            ..bundle
        },
        SectionPart::VehicleStates(list) => Bundle {
            events: EventGroups { vehicle_states: list, ..bundle.events },
            ..bundle
        },
        SectionPart::WeaponStates(list) => Bundle {
            events: EventGroups { weapon_states: list, ..bundle.events },
            ..bundle
        },
        SectionPart::Properties(list) => Bundle {
            events: EventGroups { properties: list, ..bundle.events },
            ..bundle
        },
        SectionPart::Diagnostics(value) => Bundle { diagnostics: value, ..bundle },
        SectionPart::GameState(value) => Bundle { game_state: value, ..bundle },
        SectionPart::CaptureZones(list) => Bundle {
            events: EventGroups { capture_zones: list, ..bundle.events },
            ..bundle
        },
        SectionPart::VehicleDeaths(list) => Bundle {
            events: EventGroups { vehicle_deaths: list, ..bundle.events },
            ..bundle
        },
    }
}

/// A bundle with parts replaced, one after the other.
pub open spec fn with_parts(bundle: Bundle, parts: Seq<SectionPart>) -> Bundle
    decreases parts.len(),
{
    if parts.len() == 0 {
        bundle
    } else {
        with_part(with_parts(bundle, parts.drop_last()), parts.last())
    }
}

/// A number of items in the 32 bits that a directory has for it.
pub open spec fn count_bits(n: nat) -> u32 {
    (n % 0x1_0000_0000) as u32
}

/// The number of items of a part: the length of a list, and 1 for anything else.
pub open spec fn part_items(part: SectionPart) -> u32 {
    match part {
        SectionPart::Manifest { .. } => 1,
        SectionPart::Teams(list) => count_bits(list@.len()),
        SectionPart::Squads(list) => count_bits(list@.len()),
        SectionPart::Players(list) => count_bits(list@.len()),
        SectionPart::Vehicles(list) => count_bits(list@.len()),
        SectionPart::Helicopters(list) => count_bits(list@.len()),
        SectionPart::Deployables(list) => count_bits(list@.len()),
        SectionPart::Components(list) => count_bits(list@.len()),
        SectionPart::PlayerTracks(list) => count_bits(list@.len()),
        SectionPart::VehicleTracks(list) => count_bits(list@.len()),
        SectionPart::HelicopterTracks(list) => count_bits(list@.len()),
        SectionPart::Kills(list) => count_bits(list@.len()),
        SectionPart::Deployments(list) => count_bits(list@.len()),
        SectionPart::SeatChanges(list) => count_bits(list@.len()),
        SectionPart::ComponentStates(list) => count_bits(list@.len()),
        SectionPart::VehicleStates(list) => count_bits(list@.len()),
        SectionPart::WeaponStates(list) => count_bits(list@.len()),
        SectionPart::Properties(list) => count_bits(list@.len()),
        SectionPart::Diagnostics(_) => 1,
        SectionPart::GameState(_) => 1,
        SectionPart::CaptureZones(list) => count_bits(list@.len()),
        SectionPart::VehicleDeaths(list) => count_bits(list@.len()),
    }
}

/// A number of items in 32 bits.
fn item_bits(n: usize) -> (count: u32)
    ensures
        count == count_bits(n as nat),
{
    (n as u64 % 0x1_0000_0000) as u32
}

/// The number of items of the part of a bundle that a section carries.
pub fn section_items(bundle: &Bundle, id: SectionId) -> (count: u32)
    ensures
        count == part_items(part_of(*bundle, id)),
{
    match id {
        SectionId::Manifest => 1,
        SectionId::Teams => item_bits(bundle.teams.len()),
        SectionId::Squads => item_bits(bundle.squads.len()),
        SectionId::Players => item_bits(bundle.players.len()),
        SectionId::Vehicles => item_bits(bundle.actors.vehicles.len()),
        SectionId::Helicopters => item_bits(bundle.actors.helicopters.len()),
        SectionId::Deployables => item_bits(bundle.actors.deployables.len()),
        SectionId::Components => item_bits(bundle.actors.components.len()),
        SectionId::PlayerTracks => item_bits(bundle.tracks.players.len()),
        SectionId::VehicleTracks => item_bits(bundle.tracks.vehicles.len()),
        SectionId::HelicopterTracks => item_bits(bundle.tracks.helicopters.len()),
        SectionId::Kills => item_bits(bundle.events.kills.len()),
        SectionId::Deployments => item_bits(bundle.events.deployments.len()),
        SectionId::SeatChanges => item_bits(bundle.events.seat_changes.len()),
        SectionId::ComponentStates => item_bits(bundle.events.component_states.len()),
        SectionId::VehicleStates => item_bits(bundle.events.vehicle_states.len()),
        SectionId::WeaponStates => item_bits(bundle.events.weapon_states.len()),
        SectionId::Properties => item_bits(bundle.events.properties.len()),
        SectionId::Diagnostics => 1,
        SectionId::GameState => 1,
        SectionId::CaptureZones => item_bits(bundle.events.capture_zones.len()),
        SectionId::VehicleDeaths => item_bits(bundle.events.vehicle_deaths.len()),
    }
}

impl SectionPart {
    /// The section of this part.
    pub fn id(&self) -> (id: SectionId)
        ensures
            id == part_id(*self),
    {
        match self {
            SectionPart::Manifest { .. } => SectionId::Manifest,
            SectionPart::Teams(_) => SectionId::Teams,
            SectionPart::Squads(_) => SectionId::Squads,
            SectionPart::Players(_) => SectionId::Players,
            SectionPart::Vehicles(_) => SectionId::Vehicles,
            SectionPart::Helicopters(_) => SectionId::Helicopters,
            SectionPart::Deployables(_) => SectionId::Deployables,
            SectionPart::Components(_) => SectionId::Components,
            SectionPart::PlayerTracks(_) => SectionId::PlayerTracks,
            SectionPart::VehicleTracks(_) => SectionId::VehicleTracks,
            SectionPart::HelicopterTracks(_) => SectionId::HelicopterTracks,
            SectionPart::Kills(_) => SectionId::Kills,
            SectionPart::Deployments(_) => SectionId::Deployments,
            SectionPart::SeatChanges(_) => SectionId::SeatChanges,
            SectionPart::ComponentStates(_) => SectionId::ComponentStates,
            SectionPart::VehicleStates(_) => SectionId::VehicleStates,
            SectionPart::WeaponStates(_) => SectionId::WeaponStates,
            SectionPart::Properties(_) => SectionId::Properties,
            SectionPart::Diagnostics(_) => SectionId::Diagnostics,
            SectionPart::GameState(_) => SectionId::GameState,
            SectionPart::CaptureZones(_) => SectionId::CaptureZones,
            SectionPart::VehicleDeaths(_) => SectionId::VehicleDeaths,
        }
    }
}

/// Takes a bundle apart, in the order of the sections.
pub fn bundle_parts(bundle: Bundle) -> (parts: Vec<SectionPart>)
    ensures
        parts@ == parts_of(bundle),
{
    let ghost whole = bundle;
    let mut parts: Vec<SectionPart> = Vec::new();
    parts.push(SectionPart::Manifest { schema: bundle.schema, replay: bundle.replay });
    parts.push(SectionPart::Teams(bundle.teams));
    parts.push(SectionPart::Squads(bundle.squads));
    parts.push(SectionPart::Players(bundle.players));
    parts.push(SectionPart::Vehicles(bundle.actors.vehicles));
    parts.push(SectionPart::Helicopters(bundle.actors.helicopters));
    parts.push(SectionPart::Deployables(bundle.actors.deployables));
    parts.push(SectionPart::Components(bundle.actors.components));
    parts.push(SectionPart::PlayerTracks(bundle.tracks.players));
    parts.push(SectionPart::VehicleTracks(bundle.tracks.vehicles));
    parts.push(SectionPart::HelicopterTracks(bundle.tracks.helicopters));
    parts.push(SectionPart::Kills(bundle.events.kills));
    parts.push(SectionPart::Deployments(bundle.events.deployments));
    parts.push(SectionPart::SeatChanges(bundle.events.seat_changes));
    parts.push(SectionPart::ComponentStates(bundle.events.component_states));
    parts.push(SectionPart::VehicleStates(bundle.events.vehicle_states));
    parts.push(SectionPart::WeaponStates(bundle.events.weapon_states));
    parts.push(SectionPart::Properties(bundle.events.properties));
    parts.push(SectionPart::Diagnostics(bundle.diagnostics));
    parts.push(SectionPart::GameState(bundle.game_state));
    parts.push(SectionPart::CaptureZones(bundle.events.capture_zones));
    parts.push(SectionPart::VehicleDeaths(bundle.events.vehicle_deaths));
    assert(parts@ =~= parts_of(whole));
    parts
}

/// Puts a part into a bundle, in place of what was there.
pub fn put_part(bundle: &mut Bundle, part: SectionPart)
    ensures
        *final(bundle) == with_part(*old(bundle), part),
{
    match part {
        SectionPart::Manifest { schema, replay } => {
            bundle.schema = schema;
            bundle.replay = replay;
        },
        SectionPart::Teams(list) => {
            bundle.teams = list;
        },
        SectionPart::Squads(list) => {
            bundle.squads = list;
        },
        SectionPart::Players(list) => {
            bundle.players = list;
        },
        SectionPart::Vehicles(list) => {
            bundle.actors.vehicles = list;
        },
        SectionPart::Helicopters(list) => {
            bundle.actors.helicopters = list;
        },
        SectionPart::Deployables(list) => {
            bundle.actors.deployables = list;
        },
        SectionPart::Components(list) => {
            bundle.actors.components = list;
        },
        SectionPart::PlayerTracks(list) => {
            bundle.tracks.players = list;
        },
        SectionPart::VehicleTracks(list) => {
            bundle.tracks.vehicles = list;
        },
        SectionPart::HelicopterTracks(list) => {
            bundle.tracks.helicopters = list;
        },
        SectionPart::Kills(list) => {
            bundle.events.kills = list;
        },
        SectionPart::Deployments(list) => {
            bundle.events.deployments = list;
        },
        SectionPart::SeatChanges(list) => {
            bundle.events.seat_changes = list;
        },
        SectionPart::ComponentStates(list) => {
            bundle.events.component_states = list;
        },
        SectionPart::VehicleStates(list) => {
            bundle.events.vehicle_states = list;
        },
        SectionPart::WeaponStates(list) => {
            bundle.events.weapon_states = list;
        },
        SectionPart::Properties(list) => {
            bundle.events.properties = list;
        },
        SectionPart::Diagnostics(value) => {
            bundle.diagnostics = value;
        },
        SectionPart::GameState(value) => {
            bundle.game_state = value;
        },
        SectionPart::CaptureZones(list) => {
            bundle.events.capture_zones = list;
        },
        SectionPart::VehicleDeaths(list) => {
            bundle.events.vehicle_deaths = list;
        },
    }
}

/// The part that a section carries is of that section.
pub proof fn law_part_of_section(bundle: Bundle, id: SectionId)
    ensures
        part_id(part_of(bundle, id)) == id,
{
}

/// A part that is put into a bundle is there, and no other part has changed.
pub proof fn law_put_part(bundle: Bundle, part: SectionPart, id: SectionId)
    ensures
        part_of(with_part(bundle, part), part_id(part)) == part,
        id != part_id(part) ==> part_of(with_part(bundle, part), id) == part_of(bundle, id),
{
}

/// The first parts of a bundle are there once they are put into another.
proof fn lemma_first_parts(bundle: Bundle, start: Bundle, n: int)
    requires
        0 <= n <= section_order().len(),
    ensures
        forall|i: int|
            0 <= i < n ==> part_of(
                with_parts(start, parts_of(bundle).take(n)),
                #[trigger] section_order()[i],
            ) == part_of(bundle, section_order()[i]),
    decreases n,
{
    if n > 0 {
        lemma_first_parts(bundle, start, n - 1);
        let before = with_parts(start, parts_of(bundle).take(n - 1));
        let part = part_of(bundle, section_order()[n - 1]);
        assert(parts_of(bundle).take(n).drop_last() =~= parts_of(bundle).take(n - 1));
        assert(parts_of(bundle).take(n).last() == part);
        law_part_of_section(bundle, section_order()[n - 1]);
        assert forall|i: int| 0 <= i < n implies part_of(
            with_parts(start, parts_of(bundle).take(n)),
            #[trigger] section_order()[i],
        ) == part_of(bundle, section_order()[i]) by {
            law_put_part(before, part, section_order()[i]);
            assert(section_number(section_order()[i]) == i + 1);
            assert(section_number(section_order()[n - 1]) == n);
        }
    }
}

/// The parts make up the whole bundle: put into any bundle, they give every
/// field of it.
pub proof fn law_parts_make_the_bundle(bundle: Bundle, start: Bundle)
    ensures
        with_parts(start, parts_of(bundle)) == bundle,
{
    let n = section_order().len() as int;
    let made = with_parts(start, parts_of(bundle));
    lemma_first_parts(bundle, start, n);
    assert(parts_of(bundle).take(n) =~= parts_of(bundle));
    assert forall|id: SectionId| #[trigger] part_of(made, id) == part_of(bundle, id) by {
        assert(section_order()[section_number(id) - 1] == id);
    }
    assert(part_of(made, SectionId::Manifest) == part_of(bundle, SectionId::Manifest));
    assert(part_of(made, SectionId::Teams) == part_of(bundle, SectionId::Teams));
    assert(part_of(made, SectionId::Squads) == part_of(bundle, SectionId::Squads));
    assert(part_of(made, SectionId::Players) == part_of(bundle, SectionId::Players));
    assert(part_of(made, SectionId::Vehicles) == part_of(bundle, SectionId::Vehicles));
    assert(part_of(made, SectionId::Helicopters) == part_of(bundle, SectionId::Helicopters));
    assert(part_of(made, SectionId::Deployables) == part_of(bundle, SectionId::Deployables));
    assert(part_of(made, SectionId::Components) == part_of(bundle, SectionId::Components));
    assert(part_of(made, SectionId::PlayerTracks) == part_of(bundle, SectionId::PlayerTracks));
    assert(part_of(made, SectionId::VehicleTracks) == part_of(bundle, SectionId::VehicleTracks));
    assert(part_of(made, SectionId::HelicopterTracks) == part_of(bundle, SectionId::HelicopterTracks));
    assert(part_of(made, SectionId::Kills) == part_of(bundle, SectionId::Kills));
    assert(part_of(made, SectionId::Deployments) == part_of(bundle, SectionId::Deployments));
    assert(part_of(made, SectionId::SeatChanges) == part_of(bundle, SectionId::SeatChanges));
    assert(part_of(made, SectionId::ComponentStates) == part_of(bundle, SectionId::ComponentStates));
    assert(part_of(made, SectionId::VehicleStates) == part_of(bundle, SectionId::VehicleStates));
    assert(part_of(made, SectionId::WeaponStates) == part_of(bundle, SectionId::WeaponStates));
    assert(part_of(made, SectionId::Properties) == part_of(bundle, SectionId::Properties));
    assert(part_of(made, SectionId::Diagnostics) == part_of(bundle, SectionId::Diagnostics));
    assert(part_of(made, SectionId::GameState) == part_of(bundle, SectionId::GameState));
    assert(part_of(made, SectionId::CaptureZones) == part_of(bundle, SectionId::CaptureZones));
    assert(part_of(made, SectionId::VehicleDeaths) == part_of(bundle, SectionId::VehicleDeaths));
    assert(made.actors == bundle.actors);
    assert(made.tracks == bundle.tracks);
    assert(made.events == bundle.events);
}

} // verus!
