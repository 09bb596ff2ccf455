use vstd::prelude::*;
use crate::components::Sprite;
use crate::geometry::{clamp_coordinate, clamp_position, clamp_size, Position, Region};
use crate::stage::{joins_drawable, Slots, Stage};

verus! {

/// A colour with its opacity.
#[derive(Clone, Copy, Debug, PartialEq, Eq, Structural)]
pub struct Color {
    pub r: u8,
    pub g: u8,
    pub b: u8,
    pub a: u8,
}

impl Color {
    /// An opaque colour.
    pub fn rgb(r: u8, g: u8, b: u8) -> (color: Color)
        ensures
            color == (Color { r, g, b, a: 255 }),
    {
        Color { r, g, b, a: 255 }
    }
}

/// The background of tick `phase`: it fades from blue to red as the phase
/// grows.
pub open spec fn backdrop_of(phase: u8) -> Color {
    Color { r: phase, g: 125, b: (255 - phase) as u8, a: 255 }
}

/// Computes `backdrop_of`.
pub fn backdrop(phase: u8) -> (color: Color)
    ensures
        color == backdrop_of(phase),
{
    Color::rgb(phase, 125, 255 - phase)
}

/// The phase of the next tick: the phases run from 0 to 254 and start again.
pub fn next_phase(phase: u8) -> (next: u8)
    ensures
        next == (phase + 1) % 255,
{
    ((phase as u16 + 1) % 255) as u8
}

/// One copy from an atlas to the output surface.
#[derive(Clone, Copy, Debug, PartialEq, Eq, Structural)]
pub struct DrawCommand {
    pub spritesheet: usize,
    pub source: Region,
    pub destination: Region,
}

/// What one tick shows: the surface is cleared to `background`, the copies
/// are made, and the surface is presented once.
#[derive(Debug)]
pub struct Frame {
    pub background: Color,
    pub copies: Vec<DrawCommand>,
}

/// Why a frame cannot be drawn.
#[derive(Clone, Copy, Debug, PartialEq, Eq, Structural)]
pub enum RenderError {
    /// A sprite names an atlas that the array of atlases does not hold.
    InvalidAtlasIndex(usize),
    /// A sprite's rectangle has a side of length zero.
    DegenerateRegion,
}

/// The point of the surface on which an entity at `position` is centred:
/// the world's origin lies in the middle of the surface. Each coordinate
/// saturates at the bounds that rectangles keep.
pub open spec fn screen_center(position: Position, width: u32, height: u32) -> Position {
    Position {
        x: clamp_position(clamp_position(position.x as int) + clamp_position(width as int / 2))
            as i32,
        y: clamp_position(clamp_position(position.y as int) + clamp_position(height as int / 2))
            as i32,
    }
}

/// The copy that draws `sprite` for an entity at `position` on a surface of
/// the given size: the sprite's rectangle, centred on the entity.
pub open spec fn command_for(position: Position, sprite: Sprite, width: u32, height: u32) -> DrawCommand {
    DrawCommand {
        spritesheet: sprite.spritesheet,
        source: sprite.region,
        destination: Region::centered(
            screen_center(position, width, height),
            sprite.region.width as int,
            sprite.region.height as int,
        ),
    }
}

/// What is wrong with a sprite, if anything: its atlas is looked at first.
pub open spec fn sprite_fault(sprite: Sprite, atlas_count: usize) -> Option<RenderError> {
    if sprite.spritesheet >= atlas_count {
        Some(RenderError::InvalidAtlasIndex(sprite.spritesheet))
    } else if !sprite.region.has_area() {
        Some(RenderError::DegenerateRegion)
    } else {
        None
    }
}

/// `outcome` is the frame of `items`, taken in their order. Without a faulty
/// sprite it is the frame with one copy for each item; else it is the fault
/// of the first faulty one.
pub open spec fn composes(
    items: Seq<(u32, Position, Sprite)>,
    background: Color,
    atlas_count: usize,
    width: u32,
    height: u32,
    outcome: Result<Frame, RenderError>,
) -> bool {
    match outcome {
        Ok(frame) => {
            &&& forall|i: int|
                0 <= i < items.len() ==> sprite_fault((#[trigger] items[i]).2, atlas_count)
                    is None
            &&& frame.background == background
            &&& frame.copies@.len() == items.len()
            &&& forall|i: int|
                0 <= i < items.len() ==> #[trigger] frame.copies@[i] == command_for(
                    items[i].1,
                    items[i].2,
                    width,
                    height,
                )
        },
        Err(error) => exists|i: int|
            {
                &&& 0 <= i < items.len()
                &&& sprite_fault((#[trigger] items[i]).2, atlas_count) == Some(error)
                &&& forall|j: int|
                    0 <= j < i ==> sprite_fault((#[trigger] items[j]).2, atlas_count) is None
            },
    }
}

/// The entities that are drawn: those with a position and a sprite.
pub open spec fn drawn(entities: Map<u32, Slots>) -> Set<u32> {
    Set::new(
        |id: u32|
            entities.dom().contains(id) && entities[id].position is Some && entities[id].sprite
                is Some,
    )
}

/// Computes `screen_center`.
pub fn center_on_screen(position: Position, width: u32, height: u32) -> (center: Position)
    ensures
        center == screen_center(position, width, height),
{
    let half_width: i32 = clamp_coordinate((width / 2) as i64);
    let half_height: i32 = clamp_coordinate((height / 2) as i64);
    let x: i32 = clamp_coordinate(position.x as i64);
    let y: i32 = clamp_coordinate(position.y as i64);
    Position {
        x: clamp_coordinate(x as i64 + half_width as i64),
        y: clamp_coordinate(y as i64 + half_height as i64),
    }
}

/// Composes the frame of the given entities, in their order: each is its
/// index, its position and its sprite. The first sprite that names no atlas,
/// or has an empty rectangle, ends the work with its fault.
pub fn compose(
    items: &Vec<(u32, Position, Sprite)>,
    background: Color,
    atlas_count: usize,
    width: u32,
    height: u32,
) -> (outcome: Result<Frame, RenderError>)
    ensures
        composes(items@, background, atlas_count, width, height, outcome),
{
    let mut copies: Vec<DrawCommand> = Vec::new();
    let mut index: usize = 0;
    while index < items.len()
        invariant
            index <= items.len(),
            copies@.len() == index,
            forall|i: int|
                0 <= i < index ==> sprite_fault((#[trigger] items@[i]).2, atlas_count) is None,
            forall|i: int|
                0 <= i < index ==> #[trigger] copies@[i] == command_for(
                    items@[i].1,
                    items@[i].2,
                    width,
                    height,
                ),
        decreases items.len() - index,
    {
        let (_, position, sprite) = items[index];
        if sprite.spritesheet >= atlas_count {
            let error = RenderError::InvalidAtlasIndex(sprite.spritesheet);
            assert(sprite_fault(items@[index as int].2, atlas_count) == Some(error));
            return Err(error);
        }
        if sprite.region.width == 0 || sprite.region.height == 0 {
            assert(sprite_fault(items@[index as int].2, atlas_count) == Some(
                RenderError::DegenerateRegion,
            ));
            return Err(RenderError::DegenerateRegion);
        }
        let center = center_on_screen(position, width, height);
        let destination = Region::from_center(center, sprite.region.width, sprite.region.height);
        copies.push(DrawCommand { spritesheet: sprite.spritesheet, source: sprite.region, destination });
        index = index + 1;
    }
    Ok(Frame { background, copies })
}

/// Composes the frame of a tick: one copy for each entity that has a
/// position and a sprite, on a surface cleared to `color`. The order of the
/// copies is that in which the stage hands its entities out, which is not
/// fixed. A sprite that names none of the `atlas_count` atlases, or has an
/// empty rectangle, makes the frame fail, and nothing is to be drawn.
pub fn render(stage: &Stage, color: Color, atlas_count: usize, width: u32, height: u32) -> (outcome:
    Result<Frame, RenderError>)
    ensures
        exists|items: Seq<(u32, Position, Sprite)>|
            #![trigger joins_drawable(items, stage@)]
            joins_drawable(items, stage@) && composes(
                items,
                color,
                atlas_count,
                width,
                height,
                outcome,
            ),
        outcome is Ok <==> forall|id: u32|
            #![trigger stage@[id]]
            drawn(stage@).contains(id) ==> sprite_fault(stage@[id].sprite->0, atlas_count) is None,
        outcome is Ok ==> drawn(stage@).finite() && outcome->Ok_0.copies@.len() == drawn(
            stage@,
        ).len(),
        outcome is Err ==> exists|id: u32|
            #![trigger stage@[id]]
            drawn(stage@).contains(id) && sprite_fault(stage@[id].sprite->0, atlas_count) == Some(
                outcome->Err_0,
            ),
{
    let items = stage.drawables();
    let outcome = compose(&items, color, atlas_count, width, height);
    proof {
        let shown = items@;
        assert(joins_drawable(shown, stage@));
        lemma_listing_counts(shown, stage@);
        match outcome {
            Ok(_) => {
                assert forall|id: u32|
                    #![trigger stage@[id]]
                    drawn(stage@).contains(id) implies sprite_fault(
                    stage@[id].sprite->0,
                    atlas_count,
                ) is None by {
                    let i = choose|i: int| 0 <= i < shown.len() && (#[trigger] shown[i]).0 == id;
                    assert(sprite_fault(shown[i].2, atlas_count) is None);
                }
            },
            Err(error) => {
                let i = choose|i: int|
                    {
                        &&& 0 <= i < shown.len()
                        &&& sprite_fault((#[trigger] shown[i]).2, atlas_count) == Some(error)
                        &&& forall|j: int|
                            0 <= j < i ==> sprite_fault((#[trigger] shown[j]).2, atlas_count)
                                is None
                    };
                let id = shown[i].0;
                assert(drawn(stage@).contains(id));
                assert(sprite_fault(stage@[id].sprite->0, atlas_count) == Some(error));
            },
        }
    }
    outcome
}

/// A listing of the drawn entities is as long as they are many.
proof fn lemma_listing_counts(items: Seq<(u32, Position, Sprite)>, entities: Map<u32, Slots>)
    requires
        joins_drawable(items, entities),
    ensures
        drawn(entities).finite(),
        drawn(entities).len() == items.len(),
{
    let ids = Seq::new(items.len(), |i: int| items[i].0);
    assert(ids.no_duplicates());
    assert forall|id: u32| ids.to_set().contains(id) <==> drawn(entities).contains(id) by {
        if ids.to_set().contains(id) {
            let i = choose|i: int| 0 <= i < ids.len() && ids[i] == id;
            assert(items[i].0 == id);
        }
        if drawn(entities).contains(id) {
            let i = choose|i: int| 0 <= i < items.len() && (#[trigger] items[i]).0 == id;
            assert(ids[i] == id);
        }
    }
    assert(ids.to_set() =~= drawn(entities));
    ids.unique_seq_to_set();
}

/// The frame `copies` of the listing `items` draws entity `id` with `copy`.
pub open spec fn draws(
    items: Seq<(u32, Position, Sprite)>,
    copies: Seq<DrawCommand>,
    id: u32,
    copy: DrawCommand,
) -> bool {
    exists|j: int| 0 <= j < items.len() && (#[trigger] items[j]).0 == id && copies[j] == copy
}

/// Each entity of the listing `one` is named by the listing `other` too, and
/// has the same copy in either frame.
pub open spec fn same_copies(
    one: Seq<(u32, Position, Sprite)>,
    copies: Seq<DrawCommand>,
    other: Seq<(u32, Position, Sprite)>,
    others: Seq<DrawCommand>,
) -> bool {
    forall|i: int|
        0 <= i < one.len() ==> draws(other, others, (#[trigger] one[i]).0, copies[i])
}

/// The order in which the entities are handed out decides neither whether a
/// frame can be drawn nor what it holds: a frame of a stage has one copy for
/// each entity that has a position and a sprite, and the copy of an entity
/// is the same in every frame.
pub proof fn lemma_join_order_does_not_matter(
    entities: Map<u32, Slots>,
    one: Seq<(u32, Position, Sprite)>,
    other: Seq<(u32, Position, Sprite)>,
    background: Color,
    atlas_count: usize,
    width: u32,
    height: u32,
    first: Result<Frame, RenderError>,
    second: Result<Frame, RenderError>,
)
    requires
        joins_drawable(one, entities),
        joins_drawable(other, entities),
        composes(one, background, atlas_count, width, height, first),
        composes(other, background, atlas_count, width, height, second),
    ensures
        first is Ok <==> second is Ok,
        first is Ok ==> first->Ok_0.copies@.len() == drawn(entities).len(),
        first is Ok ==> second->Ok_0.copies@.len() == first->Ok_0.copies@.len(),
        first is Ok ==> same_copies(one, first->Ok_0.copies@, other, second->Ok_0.copies@),
{
    lemma_listing_counts(one, entities);
    lemma_listing_counts(other, entities);
    if first is Err {
        let i = choose|i: int|
            {
                &&& 0 <= i < one.len()
                &&& sprite_fault((#[trigger] one[i]).2, atlas_count) == Some(first->Err_0)
                &&& forall|j: int|
                    0 <= j < i ==> sprite_fault((#[trigger] one[j]).2, atlas_count) is None
            };
        let id = one[i].0;
        let j = choose|j: int| 0 <= j < other.len() && (#[trigger] other[j]).0 == id;
        assert(other[j].2 == one[i].2);
    }
    if second is Err {
        let j = choose|j: int|
            {
                &&& 0 <= j < other.len()
                &&& sprite_fault((#[trigger] other[j]).2, atlas_count) == Some(second->Err_0)
                &&& forall|k: int|
                    0 <= k < j ==> sprite_fault((#[trigger] other[k]).2, atlas_count) is None
            };
        let id = other[j].0;
        let i = choose|i: int| 0 <= i < one.len() && (#[trigger] one[i]).0 == id;
        assert(one[i].2 == other[j].2);
    }
    if first is Ok {
        let copies = first->Ok_0.copies@;
        let others = second->Ok_0.copies@;
        assert forall|i: int| 0 <= i < one.len() implies draws(
            other,
            others,
            (#[trigger] one[i]).0,
            copies[i],
        ) by {
            let id = one[i].0;
            let j = choose|j: int| 0 <= j < other.len() && (#[trigger] other[j]).0 == id;
            assert(other[j].1 == one[i].1 && other[j].2 == one[i].2);
            assert(others[j] == command_for(other[j].1, other[j].2, width, height));
            assert(copies[i] == command_for(one[i].1, one[i].2, width, height));
        }
    }
}

/// Away from the bounds of the coordinates, an entity is drawn with the
/// middle of its rectangle on its own position, counted from the middle of
/// the surface, and in the size of its rectangle.
pub proof fn lemma_destination_is_centered(
    position: Position,
    sprite: Sprite,
    width: u32,
    height: u32,
)
    requires
        sprite.region.wf(),
        -0x1000_0000 <= position.x <= 0x1000_0000,
        -0x1000_0000 <= position.y <= 0x1000_0000,
        width <= 0x1000_0000,
        height <= 0x1000_0000,
    ensures
        ({
            let destination = command_for(position, sprite, width, height).destination;
            &&& destination.width == sprite.region.width
            &&& destination.height == sprite.region.height
            &&& destination.x == position.x + width / 2 - sprite.region.width / 2
            &&& destination.y == position.y + height / 2 - sprite.region.height / 2
            &&& destination.wf()
        }),
{
}

} // verus!
