use vstd::prelude::*;
use specs::{Builder, Join, World, WorldExt};
use crate::components::{
    KeyboardControlled, MovementAnimation, MovementAnimationView, Sprite, Velocity,
};
use crate::geometry::Position;

verus! {

/// The most entities that a stage holds. The bit sets that index the
/// component storages take no index from this one on, on a machine with
/// 32-bit words.
pub const MAX_ENTITIES: u32 = 1048576;

/// Declares specs' `World`, the container of entities and component
/// storages. Nothing is claimed of it here; what it holds is named by
/// `world_entities`.
#[verifier::external_type_specification]
#[verifier::external_body]
pub struct ExWorld(specs::World);

/// Declares specs' `VecStorage`, the storage in which each component type of
/// this library is kept. Nothing is claimed of it here.
#[verifier::external_type_specification]
#[verifier::external_body]
#[verifier::reject_recursive_types(T)]
pub struct ExVecStorage<T>(specs::VecStorage<T>);

// Each component type is kept in a vector indexed by entity.

impl specs::Component for KeyboardControlled {
    type Storage = specs::VecStorage<KeyboardControlled>;
}

impl specs::Component for Position {
    type Storage = specs::VecStorage<Position>;
}

impl specs::Component for Velocity {
    type Storage = specs::VecStorage<Velocity>;
}

impl specs::Component for Sprite {
    type Storage = specs::VecStorage<Sprite>;
}

impl specs::Component for MovementAnimation {
    type Storage = specs::VecStorage<MovementAnimation>;
}

/// The components of one entity, as mathematical values. A component that
/// the entity lacks is `None`; the marker is a flag.
pub struct Slots {
    pub controlled: bool,
    pub position: Option<Position>,
    pub velocity: Option<Velocity>,
    pub sprite: Option<Sprite>,
    pub animation: Option<MovementAnimationView>,
}

impl Slots {
    /// An entity without any component.
    pub open spec fn empty() -> Slots {
        Slots { controlled: false, position: None, velocity: None, sprite: None, animation: None }
    }
}

/// The components to give a new entity, or those read from one.
pub struct Components {
    pub controlled: bool,
    pub position: Option<Position>,
    pub velocity: Option<Velocity>,
    pub sprite: Option<Sprite>,
    pub animation: Option<MovementAnimation>,
}

impl View for Components {
    type V = Slots;

    open spec fn view(&self) -> Slots {
        Slots {
            controlled: self.controlled,
            position: self.position,
            velocity: self.velocity,
            sprite: self.sprite,
            animation: match self.animation {
                Some(animation) => Some(animation@),
                None => None,
            },
        }
    }
}

/// What a world holds: for the index of each living entity, its components.
pub uninterp spec fn world_entities(world: World) -> Map<u32, Slots>;

/// The world was made by `world_new` and has since been changed by the
/// functions of this module only: its five component storages exist, none
/// is borrowed, and no entity has ever been deleted. On such a world none of
/// the calls that this module makes into specs panics.
pub uninterp spec fn world_ready(world: World) -> bool;

/// The slots of entity `id`; those of an index without an entity are empty.
pub open spec fn slots_at(entities: Map<u32, Slots>, id: u32) -> Slots {
    if entities.dom().contains(id) {
        entities[id]
    } else {
        Slots::empty()
    }
}

/// The indices of a population: they are counted from zero without a gap.
pub open spec fn indices_below(population: nat) -> Set<u32> {
    Set::new(|id: u32| id < population)
}

/// There are as many indices below a number as the number says.
pub proof fn lemma_indices_below_len(population: nat)
    requires
        population <= u32::MAX,
    ensures
        indices_below(population).finite(),
        indices_below(population).len() == population,
    decreases population,
{
    if population == 0 {
        assert(indices_below(0) =~= Set::<u32>::empty());
    } else {
        let fewer = (population - 1) as nat;
        lemma_indices_below_len(fewer);
        assert(indices_below(population) =~= indices_below(fewer).insert(fewer as u32));
    }
}

/// Calls `World::new` of specs and registers a `VecStorage` for each of the
/// five component types. The contract claims that the new world holds no
/// entity.
#[verifier::external_body]
fn world_new() -> (world: World)
    ensures
        world_ready(world),
        world_entities(world) == (Map::<u32, Slots>::empty()),
{
    let mut world = World::new();
    world.register::<KeyboardControlled>();
    world.register::<Position>();
    world.register::<Velocity>();
    world.register::<Sprite>();
    world.register::<MovementAnimation>();
    world
}

/// Calls `create_entity` and `build` of specs, and reads the new entity's
/// index. The contract claims that a world in which nothing was ever
/// deleted numbers its entities from zero without a gap, so that the new
/// index is the number of entities before the call, and that the new entity
/// has no component.
#[verifier::external_body]
fn world_create(world: &mut World) -> (id: u32)
    requires
        world_ready(*old(world)),
        world_entities(*old(world)).dom().finite(),
        world_entities(*old(world)).dom().len() < MAX_ENTITIES,
    ensures
        world_ready(*final(world)),
        id == world_entities(*old(world)).dom().len(),
        world_entities(*final(world)) == world_entities(*old(world)).insert(id, Slots::empty()),
    no_unwind
{
    world.create_entity().build().id()
}

/// Reads the five component storages at the entity of index `id`, with
/// `contains` and `get` of specs' `Storage`. The contract claims that each
/// component comes back as it is stored, and that an index without an entity
/// has no component.
#[verifier::external_body]
fn world_snapshot(world: &World, id: u32) -> (components: Components)
    requires
        world_ready(*world),
    ensures
        components@ == slots_at(world_entities(*world), id),
{
    let entity = world.entities().entity(id);
    Components {
        controlled: world.read_storage::<KeyboardControlled>().contains(entity),
        position: world.read_storage::<Position>().get(entity).copied(),
        velocity: world.read_storage::<Velocity>().get(entity).copied(),
        sprite: world.read_storage::<Sprite>().get(entity).copied(),
        animation: world.read_storage::<MovementAnimation>().get(entity).cloned(),
    }
}

/// Calls `insert` of specs' `Storage` for the marker component. The contract
/// claims that the entity is marked afterwards and that nothing else
/// changes.
#[verifier::external_body]
fn world_mark_controlled(world: &mut World, id: u32)
    requires
        world_ready(*old(world)),
        world_entities(*old(world)).dom().contains(id),
    ensures
        world_ready(*final(world)),
        world_entities(*final(world)) == world_entities(*old(world)).insert(
            id,
            (Slots { controlled: true, ..world_entities(*old(world))[id] }),
        ),
    no_unwind
{
    let entity = world.entities().entity(id);
    let _ = world.write_storage::<KeyboardControlled>().insert(entity, KeyboardControlled);
}

/// Calls `insert` of specs' `Storage` for a position. The contract claims
/// that the entity has this position afterwards, whether or not it had one,
/// and that nothing else changes.
#[verifier::external_body]
fn world_write_position(world: &mut World, id: u32, position: Position)
    requires
        world_ready(*old(world)),
        world_entities(*old(world)).dom().contains(id),
    ensures
        world_ready(*final(world)),
        world_entities(*final(world)) == world_entities(*old(world)).insert(
            id,
            (Slots { position: Some(position), ..world_entities(*old(world))[id] }),
        ),
    no_unwind
{
    let entity = world.entities().entity(id);
    let _ = world.write_storage::<Position>().insert(entity, position);
}

/// Calls `insert` of specs' `Storage` for a velocity; the contract is that of
/// `world_write_position`, for the velocity.
#[verifier::external_body]
fn world_write_velocity(world: &mut World, id: u32, velocity: Velocity)
    requires
        world_ready(*old(world)),
        world_entities(*old(world)).dom().contains(id),
    ensures
        world_ready(*final(world)),
        world_entities(*final(world)) == world_entities(*old(world)).insert(
            id,
            (Slots { velocity: Some(velocity), ..world_entities(*old(world))[id] }),
        ),
    no_unwind
{
    let entity = world.entities().entity(id);
    let _ = world.write_storage::<Velocity>().insert(entity, velocity);
}

/// Calls `insert` of specs' `Storage` for a sprite; the contract is that of
/// `world_write_position`, for the sprite.
#[verifier::external_body]
fn world_write_sprite(world: &mut World, id: u32, sprite: Sprite)
    requires
        world_ready(*old(world)),
        world_entities(*old(world)).dom().contains(id),
    ensures
        world_ready(*final(world)),
        world_entities(*final(world)) == world_entities(*old(world)).insert(
            id,
            (Slots { sprite: Some(sprite), ..world_entities(*old(world))[id] }),
        ),
    no_unwind
{
    let entity = world.entities().entity(id);
    let _ = world.write_storage::<Sprite>().insert(entity, sprite);
}

/// Calls `insert` of specs' `Storage` for an animation; the contract is that
/// of `world_write_position`, for the animation.
#[verifier::external_body]
fn world_write_animation(world: &mut World, id: u32, animation: MovementAnimation)
    requires
        world_ready(*old(world)),
        world_entities(*old(world)).dom().contains(id),
    ensures
        world_ready(*final(world)),
        world_entities(*final(world)) == world_entities(*old(world)).insert(
            id,
            (Slots { animation: Some(animation@), ..world_entities(*old(world))[id] }),
        ),
    no_unwind
{
    let entity = world.entities().entity(id);
    let _ = world.write_storage::<MovementAnimation>().insert(entity, animation);
}

/// `items` names each entity that is marked as controlled and has a velocity
/// once, in some order, with that velocity.
pub open spec fn joins_controlled(items: Seq<(u32, Velocity)>, entities: Map<u32, Slots>) -> bool {
    &&& forall|i: int, j: int| 0 <= i < j < items.len() ==> items[i].0 != items[j].0
    &&& forall|i: int|
        0 <= i < items.len() ==> {
            let item = #[trigger] items[i];
            &&& entities.dom().contains(item.0)
            &&& entities[item.0].controlled
            &&& entities[item.0].velocity == Some(item.1)
        }
    &&& forall|id: u32|
        #![trigger entities.dom().contains(id)]
        entities.dom().contains(id) && entities[id].controlled && entities[id].velocity is Some
            ==> exists|i: int| 0 <= i < items.len() && (#[trigger] items[i]).0 == id
}

/// `items` names each entity that has a position and a velocity once, in
/// some order, with both.
pub open spec fn joins_movable(items: Seq<(u32, Position, Velocity)>, entities: Map<u32, Slots>) -> bool {
    &&& forall|i: int, j: int| 0 <= i < j < items.len() ==> items[i].0 != items[j].0
    &&& forall|i: int|
        0 <= i < items.len() ==> {
            let item = #[trigger] items[i];
            &&& entities.dom().contains(item.0)
            &&& entities[item.0].position == Some(item.1)
            &&& entities[item.0].velocity == Some(item.2)
        }
    &&& forall|id: u32|
        #![trigger entities.dom().contains(id)]
        entities.dom().contains(id) && entities[id].position is Some && entities[id].velocity
            is Some ==> exists|i: int| 0 <= i < items.len() && (#[trigger] items[i]).0 == id
}

/// `items` names each entity that has an animation, a sprite and a velocity
/// once, in some order, with its animation and its velocity.
pub open spec fn joins_animated(
    items: Seq<(u32, MovementAnimation, Velocity)>,
    entities: Map<u32, Slots>,
) -> bool {
    &&& forall|i: int, j: int| 0 <= i < j < items.len() ==> items[i].0 != items[j].0
    &&& forall|i: int|
        0 <= i < items.len() ==> {
            let item = #[trigger] items[i];
            &&& entities.dom().contains(item.0)
            &&& entities[item.0].animation == Some(item.1@)
            &&& entities[item.0].sprite is Some
            &&& entities[item.0].velocity == Some(item.2)
        }
    &&& forall|id: u32|
        #![trigger entities.dom().contains(id)]
        entities.dom().contains(id) && entities[id].animation is Some && entities[id].sprite
            is Some && entities[id].velocity is Some ==> exists|i: int|
            0 <= i < items.len() && (#[trigger] items[i]).0 == id
}

/// `items` names each entity that has a position and a sprite once, in some
/// order, with both.
pub open spec fn joins_drawable(items: Seq<(u32, Position, Sprite)>, entities: Map<u32, Slots>) -> bool {
    &&& forall|i: int, j: int| 0 <= i < j < items.len() ==> items[i].0 != items[j].0
    &&& forall|i: int|
        0 <= i < items.len() ==> {
            let item = #[trigger] items[i];
            &&& entities.dom().contains(item.0)
            &&& entities[item.0].position == Some(item.1)
            &&& entities[item.0].sprite == Some(item.2)
        }
    &&& forall|id: u32|
        #![trigger entities.dom().contains(id)]
        entities.dom().contains(id) && entities[id].position is Some && entities[id].sprite
            is Some ==> exists|i: int| 0 <= i < items.len() && (#[trigger] items[i]).0 == id
}

/// Joins the entities with the storages of the marker and of the velocities,
/// with `join` of specs, and hands out each entity's index and a copy of its
/// velocity. The contract claims that the join visits each entity that has
/// both components once; it claims no order.
#[verifier::external_body]
fn world_join_controlled(world: &World) -> (items: Vec<(u32, Velocity)>)
    requires
        world_ready(*world),
    ensures
        joins_controlled(items@, world_entities(*world)),
{
    let entities = world.entities();
    let controlled = world.read_storage::<KeyboardControlled>();
    let velocities = world.read_storage::<Velocity>();
    (&entities, &controlled, &velocities).join().map(|(e, _, v)| (e.id(), *v)).collect()
}

/// Joins the entities with the storages of the positions and of the
/// velocities, as `world_join_controlled` does with its two storages.
#[verifier::external_body]
fn world_join_movable(world: &World) -> (items: Vec<(u32, Position, Velocity)>)
    requires
        world_ready(*world),
    ensures
        joins_movable(items@, world_entities(*world)),
{
    let entities = world.entities();
    let positions = world.read_storage::<Position>();
    let velocities = world.read_storage::<Velocity>();
    (&entities, &positions, &velocities).join().map(|(e, p, v)| (e.id(), *p, *v)).collect()
}

/// Joins the entities with the storages of the animations, of the sprites
/// and of the velocities, as `world_join_controlled` does with its two
/// storages. The animation that it hands out is a clone.
#[verifier::external_body]
fn world_join_animated(world: &World) -> (items: Vec<(u32, MovementAnimation, Velocity)>)
    requires
        world_ready(*world),
    ensures
        joins_animated(items@, world_entities(*world)),
{
    let entities = world.entities();
    let animations = world.read_storage::<MovementAnimation>();
    let sprites = world.read_storage::<Sprite>();
    let velocities = world.read_storage::<Velocity>();
    (&entities, &animations, &sprites, &velocities).join().map(
        |(e, a, _, v)| (e.id(), a.clone(), *v),
    ).collect()
}

/// Joins the entities with the storages of the positions and of the sprites,
/// as `world_join_controlled` does with its two storages.
#[verifier::external_body]
fn world_join_drawable(world: &World) -> (items: Vec<(u32, Position, Sprite)>)
    requires
        world_ready(*world),
    ensures
        joins_drawable(items@, world_entities(*world)),
{
    let entities = world.entities();
    let positions = world.read_storage::<Position>();
    let sprites = world.read_storage::<Sprite>();
    (&entities, &positions, &sprites).join().map(|(e, p, s)| (e.id(), *p, *s)).collect()
}

/// Creates an entity without components and counts it.
fn create(world: &mut World, population: &mut u32) -> (id: u32)
    requires
        world_ready(*old(world)),
        world_entities(*old(world)).dom() == indices_below(*old(population) as nat),
        *old(population) < MAX_ENTITIES,
    ensures
        world_ready(*final(world)),
        id == *old(population),
        *final(population) == id + 1,
        world_entities(*final(world)) == world_entities(*old(world)).insert(id, Slots::empty()),
        world_entities(*final(world)).dom() == indices_below(*final(population) as nat),
    no_unwind
{
    proof {
        lemma_indices_below_len(*population as nat);
    }
    let id: u32 = world_create(world);
    *population = *population + 1;
    assert(world_entities(*world).dom() =~= indices_below(*population as nat));
    id
}

/// Marks an entity as controlled; the entities stay the same.
fn mark_controlled(world: &mut World, id: u32)
    requires
        world_ready(*old(world)),
        world_entities(*old(world)).dom().contains(id),
    ensures
        world_ready(*final(world)),
        world_entities(*final(world)) == world_entities(*old(world)).insert(
            id,
            (Slots { controlled: true, ..world_entities(*old(world))[id] }),
        ),
        world_entities(*final(world)).dom() == world_entities(*old(world)).dom(),
    no_unwind
{
    world_mark_controlled(world, id);
    assert(world_entities(*world).dom() =~= world_entities(*old(world)).dom());
}

/// Gives an entity a position; the entities stay the same.
fn write_position(world: &mut World, id: u32, position: Position)
    requires
        world_ready(*old(world)),
        world_entities(*old(world)).dom().contains(id),
    ensures
        world_ready(*final(world)),
        world_entities(*final(world)) == world_entities(*old(world)).insert(
            id,
            (Slots { position: Some(position), ..world_entities(*old(world))[id] }),
        ),
        world_entities(*final(world)).dom() == world_entities(*old(world)).dom(),
    no_unwind
{
    world_write_position(world, id, position);
    assert(world_entities(*world).dom() =~= world_entities(*old(world)).dom());
}

/// Gives an entity a velocity; the entities stay the same.
fn write_velocity(world: &mut World, id: u32, velocity: Velocity)
    requires
        world_ready(*old(world)),
        world_entities(*old(world)).dom().contains(id),
    ensures
        world_ready(*final(world)),
        world_entities(*final(world)) == world_entities(*old(world)).insert(
            id,
            (Slots { velocity: Some(velocity), ..world_entities(*old(world))[id] }),
        ),
        world_entities(*final(world)).dom() == world_entities(*old(world)).dom(),
    no_unwind
{
    world_write_velocity(world, id, velocity);
    assert(world_entities(*world).dom() =~= world_entities(*old(world)).dom());
}

/// Gives an entity a sprite; the entities stay the same.
fn write_sprite(world: &mut World, id: u32, sprite: Sprite)
    requires
        world_ready(*old(world)),
        world_entities(*old(world)).dom().contains(id),
    ensures
        world_ready(*final(world)),
        world_entities(*final(world)) == world_entities(*old(world)).insert(
            id,
            (Slots { sprite: Some(sprite), ..world_entities(*old(world))[id] }),
        ),
        world_entities(*final(world)).dom() == world_entities(*old(world)).dom(),
    no_unwind
{
    world_write_sprite(world, id, sprite);
    assert(world_entities(*world).dom() =~= world_entities(*old(world)).dom());
}

/// Gives an entity an animation; the entities stay the same.
fn write_animation(world: &mut World, id: u32, animation: MovementAnimation)
    requires
        world_ready(*old(world)),
        world_entities(*old(world)).dom().contains(id),
    ensures
        world_ready(*final(world)),
        world_entities(*final(world)) == world_entities(*old(world)).insert(
            id,
            (Slots { animation: Some(animation@), ..world_entities(*old(world))[id] }),
        ),
        world_entities(*final(world)).dom() == world_entities(*old(world)).dom(),
    no_unwind
{
    world_write_animation(world, id, animation);
    assert(world_entities(*world).dom() =~= world_entities(*old(world)).dom());
}

/// The entities of a game and their components. Each entity is known by its
/// index; the indices are counted from zero in the order of creation.
pub struct Stage {
    world: World,
    population: u32,
}

impl View for Stage {
    type V = Map<u32, Slots>;

    closed spec fn view(&self) -> Map<u32, Slots> {
        world_entities(self.world)
    }
}

impl Stage {
    #[verifier::type_invariant]
    spec fn inv(self) -> bool {
        &&& world_ready(self.world)
        &&& world_entities(self.world).dom() == indices_below(self.population as nat)
        &&& self.population <= MAX_ENTITIES
    }

    /// A stage without entities.
    pub fn new() -> (stage: Stage)
        ensures
            stage@ == Map::<u32, Slots>::empty(),
    {
        let world = world_new();
        assert(world_entities(world).dom() =~= indices_below(0));
        Stage { world, population: 0 }
    }

    /// The number of entities. Their indices are the numbers below it.
    pub fn population(&self) -> (count: u32)
        ensures
            self@.dom() == indices_below(count as nat),
            self@.dom().finite(),
            self@.dom().len() == count,
            count <= MAX_ENTITIES,
    {
        proof {
            use_type_invariant(self);
            lemma_indices_below_len(self.population as nat);
        }
        self.population
    }

    /// Whether `id` is the index of an entity.
    pub fn contains(&self, id: u32) -> (found: bool)
        ensures
            found == self@.dom().contains(id),
    {
        proof {
            use_type_invariant(self);
        }
        id < self.population
    }

    /// The components of entity `id`. An index without an entity has none.
    pub fn components(&self, id: u32) -> (components: Components)
        ensures
            components@ == slots_at(self@, id),
    {
        proof {
            use_type_invariant(self);
        }
        world_snapshot(&self.world, id)
    }

    /// Creates an entity with the given components and returns its index, or
    /// `None` when the stage is full; then nothing changes.
    pub fn spawn(&mut self, components: Components) -> (created: Option<u32>)
        ensures
            match created {
                Some(id) => {
                    &&& id < MAX_ENTITIES
                    &&& id == old(self)@.dom().len()
                    &&& !old(self)@.dom().contains(id)
                    &&& old(self)@.dom() == indices_below(id as nat)
                    &&& final(self)@ == old(self)@.insert(id, components@)
                },
                None => {
                    &&& final(self)@ == old(self)@
                    &&& old(self)@.dom().len() == MAX_ENTITIES
                    &&& old(self)@.dom() == indices_below(MAX_ENTITIES as nat)
                },
            },
    {
        proof {
            use_type_invariant(&*self);
            lemma_indices_below_len(self.population as nat);
        }
        if self.population >= MAX_ENTITIES {
            return None;
        }
        let ghost before = world_entities(self.world);
        let id: u32 = create(&mut self.world, &mut self.population);
        if components.controlled {
            mark_controlled(&mut self.world, id);
        }
        if let Some(position) = components.position {
            write_position(&mut self.world, id, position);
        }
        if let Some(velocity) = components.velocity {
            write_velocity(&mut self.world, id, velocity);
        }
        if let Some(sprite) = components.sprite {
            write_sprite(&mut self.world, id, sprite);
        }
        if let Some(animation) = components.animation {
            write_animation(&mut self.world, id, animation);
        }
        assert(world_entities(self.world) =~= before.insert(id, components@));
        Some(id)
    }

    /// Replaces the position of entity `id`, or gives it one. Without such an
    /// entity nothing changes, and the answer is `false`.
    pub fn set_position(&mut self, id: u32, position: Position) -> (done: bool)
        ensures
            done == old(self)@.dom().contains(id),
            done ==> final(self)@ == old(self)@.insert(
                id,
                (Slots { position: Some(position), ..old(self)@[id] }),
            ),
            !done ==> final(self)@ == old(self)@,
    {
        proof {
            use_type_invariant(&*self);
        }
        if id < self.population {
            write_position(&mut self.world, id, position);
            true
        } else {
            false
        }
    }

    /// Replaces the velocity of entity `id`, or gives it one. Without such an
    /// entity nothing changes, and the answer is `false`.
    pub fn set_velocity(&mut self, id: u32, velocity: Velocity) -> (done: bool)
        ensures
            done == old(self)@.dom().contains(id),
            done ==> final(self)@ == old(self)@.insert(
                id,
                (Slots { velocity: Some(velocity), ..old(self)@[id] }),
            ),
            !done ==> final(self)@ == old(self)@,
    {
        proof {
            use_type_invariant(&*self);
        }
        if id < self.population {
            write_velocity(&mut self.world, id, velocity);
            true
        } else {
            false
        }
    }

    /// Replaces the sprite of entity `id`, or gives it one. Without such an
    /// entity nothing changes, and the answer is `false`.
    pub fn set_sprite(&mut self, id: u32, sprite: Sprite) -> (done: bool)
        ensures
            done == old(self)@.dom().contains(id),
            done ==> final(self)@ == old(self)@.insert(
                id,
                (Slots { sprite: Some(sprite), ..old(self)@[id] }),
            ),
            !done ==> final(self)@ == old(self)@,
    {
        proof {
            use_type_invariant(&*self);
        }
        if id < self.population {
            write_sprite(&mut self.world, id, sprite);
            true
        } else {
            false
        }
    }

    /// Replaces the animation of entity `id`, or gives it one. Without such
    /// an entity nothing changes, and the answer is `false`.
    pub fn set_animation(&mut self, id: u32, animation: MovementAnimation) -> (done: bool)
        ensures
            done == old(self)@.dom().contains(id),
            done ==> final(self)@ == old(self)@.insert(
                id,
                (Slots { animation: Some(animation@), ..old(self)@[id] }),
            ),
            !done ==> final(self)@ == old(self)@,
    {
        proof {
            use_type_invariant(&*self);
        }
        if id < self.population {
            write_animation(&mut self.world, id, animation);
            true
        } else {
            false
        }
    }

    /// The entities that are marked as controlled and have a velocity, each
    /// once and with its velocity. The order is not fixed.
    pub fn controlled_velocities(&self) -> (items: Vec<(u32, Velocity)>)
        ensures
            joins_controlled(items@, self@),
    {
        proof {
            use_type_invariant(self);
        }
        world_join_controlled(&self.world)
    }

    /// The entities that have a position and a velocity, each once and with
    /// both. The order is not fixed.
    pub fn movable(&self) -> (items: Vec<(u32, Position, Velocity)>)
        ensures
            joins_movable(items@, self@),
    {
        proof {
            use_type_invariant(self);
        }
        world_join_movable(&self.world)
    }

    /// The entities that have an animation, a sprite and a velocity, each
    /// once and with its animation and its velocity. The order is not fixed.
    pub fn animated(&self) -> (items: Vec<(u32, MovementAnimation, Velocity)>)
        ensures
            joins_animated(items@, self@),
    {
        proof {
            use_type_invariant(self);
        }
        world_join_animated(&self.world)
    }

    /// The entities that have a position and a sprite, each once and with
    /// both. The order is not fixed.
    pub fn drawables(&self) -> (items: Vec<(u32, Position, Sprite)>)
        ensures
            joins_drawable(items@, self@),
    {
        proof {
            use_type_invariant(self);
        }
        world_join_drawable(&self.world)
    }
}

} // verus!
