//! Block types and their static properties.

use vstd::prelude::*;

use crate::world::Direction;

verus! {

/// The kinds of block a chunk can hold. `Air` is a sentinel meaning
/// "absence of block": it is never stored in a chunk's block map, and
/// querying an unset position yields `Air` by convention.
#[derive(Debug, PartialEq, Eq, Structural, Clone, Copy)]
pub enum BlockType {
    Air,
    Debug,
    Grass,
    Dirt,
    Stone,
}

/// How a block behaves for collision purposes.
#[derive(Debug, PartialEq, Eq, Structural, Clone, Copy)]
pub enum BlockCollisionType {
    Solid,
    Liquid,
    Gas,
}

impl BlockType {
    /// Whether faces behind a block of this type stay visible.
    pub open spec fn spec_transparent(&self) -> bool {
        match self {
            BlockType::Air => true,
            _ => false,
        }
    }

    /// The collision class of this block type.
    pub open spec fn spec_collision(&self) -> BlockCollisionType {
        match self {
            BlockType::Air => BlockCollisionType::Gas,
            _ => BlockCollisionType::Solid,
        }
    }

    /// The display name of this block type.
    pub open spec fn spec_name(&self) -> Seq<char> {
        match self {
            BlockType::Air => "Air"@,
            BlockType::Debug => "Debug Block"@,
            BlockType::Grass => "Grass Block"@,
            BlockType::Dirt => "Dirt Block"@,
            BlockType::Stone => "Stone Block"@,
        }
    }

    /// The texture name this block type shows on the face looking toward `d`.
    pub open spec fn spec_texture(&self, d: Direction) -> Option<Seq<char>> {
        match self {
            BlockType::Air => None,
            BlockType::Debug => Some("debug"@),
            BlockType::Grass => match d {
                Direction::Up => Some("grass_top"@),
                Direction::Down => Some("dirt"@),
                _ => Some("grass_side"@),
            },
            BlockType::Dirt => Some("dirt"@),
            BlockType::Stone => Some("stone"@),
        }
    }

    /// The full property record for this block type. Total over every
    /// variant; computed on demand, never stored.
    pub fn properties(&self) -> (p: BlockProperties)
        ensures
            p.transparent == self.spec_transparent(),
            p.collision == self.spec_collision(),
            p.name@ == self.spec_name(),
            forall|d: Direction| #[trigger] p.textures.spec_get(d) == self.spec_texture(d),
    {
        match self {
            BlockType::Debug => BlockProperties::default(),

            BlockType::Air => BlockProperties {
                name: "Air".to_owned(),
                collision: BlockCollisionType::Gas,
                textures: BlockTextures::blank(),
                transparent: true,
            },

            BlockType::Grass => BlockProperties {
                name: "Grass Block".to_owned(),
                collision: BlockCollisionType::Solid,
                textures: BlockTextures::new([
                    Some("grass_side"),
                    Some("grass_side"),
                    Some("grass_side"),
                    Some("grass_side"),
                    Some("grass_top"),
                    Some("dirt"),
                ]),
                transparent: false,
            },

            BlockType::Dirt => BlockProperties {
                name: "Dirt Block".to_owned(),
                collision: BlockCollisionType::Solid,
                textures: BlockTextures::new([Some("dirt"); 6]),
                transparent: false,
            },

            BlockType::Stone => BlockProperties {
                name: "Stone Block".to_owned(),
                collision: BlockCollisionType::Solid,
                textures: BlockTextures::new([Some("stone"); 6]),
                transparent: false,
            },
        }
    }
}

/// The texture name, if any, each of the six faces of a block shows.
pub struct BlockTextures {
    north: Option<String>,
    south: Option<String>,
    east: Option<String>,
    west: Option<String>,
    up: Option<String>,
    down: Option<String>,
}

impl BlockTextures {
    /// The texture name stored for the face looking toward `d`.
    pub closed spec fn spec_get(&self, d: Direction) -> Option<Seq<char>> {
        match d {
            Direction::North => self.north.deep_view(),
            Direction::South => self.south.deep_view(),
            Direction::East => self.east.deep_view(),
            Direction::West => self.west.deep_view(),
            Direction::Up => self.up.deep_view(),
            Direction::Down => self.down.deep_view(),
        }
    }

    /// Texture order: [North, South, East, West, Up, Down]
    pub fn new(textures: [Option<&str>; 6]) -> (r: Self)
        ensures
            r.spec_get(Direction::North) == textures@[0].deep_view(),
            r.spec_get(Direction::South) == textures@[1].deep_view(),
            r.spec_get(Direction::East) == textures@[2].deep_view(),
            r.spec_get(Direction::West) == textures@[3].deep_view(),
            r.spec_get(Direction::Up) == textures@[4].deep_view(),
            r.spec_get(Direction::Down) == textures@[5].deep_view(),
    {
        Self {
            north: to_owned_opt(textures[0]),
            south: to_owned_opt(textures[1]),
            east: to_owned_opt(textures[2]),
            west: to_owned_opt(textures[3]),
            up: to_owned_opt(textures[4]),
            down: to_owned_opt(textures[5]),
        }
    }

    /// A texture set with no texture on any face.
    pub fn blank() -> (r: Self)
        ensures
            forall|d: Direction| #[trigger] r.spec_get(d) is None,
    {
        Self::new([None; 6])
    }

    /// The texture name for the face looking toward `direction`.
    pub fn get(&self, direction: Direction) -> (r: Option<String>)
        ensures
            r.deep_view() == self.spec_get(direction),
    {
        let field = match direction {
            Direction::North => &self.north,
            Direction::South => &self.south,
            Direction::East => &self.east,
            Direction::West => &self.west,
            Direction::Up => &self.up,
            Direction::Down => &self.down,
        };
        match field {
            Some(s) => Some(s.clone()),
            None => None,
        }
    }
}

/// Copies an optional borrowed string into an owned one.
fn to_owned_opt(s: Option<&str>) -> (r: Option<String>)
    ensures
        r.deep_view() == s.deep_view(),
{
    match s {
        Some(s) => Some(s.to_owned()),
        None => None,
    }
}

/// The derived data of one block type: display name, collision class,
/// transparency, and the texture name per face direction.
pub struct BlockProperties {
    pub name: String,
    pub collision: BlockCollisionType,
    pub transparent: bool,
    pub textures: BlockTextures,
}

impl Default for BlockProperties {
    /// The property record of the debug block.
    fn default() -> (p: Self)
        ensures
            p.transparent == false,
            p.collision == BlockCollisionType::Solid,
            p.name@ == "Debug Block"@,
            forall|d: Direction| #[trigger] p.textures.spec_get(d) == Some("debug"@),
    {
        Self {
            name: "Debug Block".to_owned(),
            collision: BlockCollisionType::Solid,
            transparent: false,
            textures: BlockTextures::new([Some("debug"); 6]),
        }
    }
}

} // verus!
