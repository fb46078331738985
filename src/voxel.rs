use vstd::prelude::*;

verus! {

/// What one cell of the world holds.
#[derive(Clone, Copy, PartialEq, Eq, Debug, Structural)]
pub enum VoxelType {
    Air,
    Grass,
    Dirt,
    Stone,
    CoalOre,
    IronOre,
    GoldOre,
    DiamondOre,
    Bedrock,
    TallGrass,
}

impl VoxelType {
    /// A voxel that hides the faces of its neighbours: anything but air and tall grass.
    pub open spec fn is_opaque(self) -> bool {
        self != VoxelType::Air && self != VoxelType::TallGrass
    }

    /// Hardness in tenths; `None` for the unbreakable bedrock.
    pub open spec fn spec_hardness(self) -> Option<u32> {
        match self {
            VoxelType::Air => Some(0),
            VoxelType::Grass => Some(6),
            VoxelType::Dirt => Some(5),
            VoxelType::Stone => Some(15),
            VoxelType::CoalOre => Some(30),
            VoxelType::IronOre => Some(30),
            VoxelType::GoldOre => Some(30),
            VoxelType::DiamondOre => Some(30),
            VoxelType::Bedrock => None,
            VoxelType::TallGrass => Some(0),
        }
    }

    /// The mining-time coefficient of this voxel, in tenths (stone is 15, dirt 5).
    /// Bedrock cannot be broken and has none.
    pub fn hardness(&self) -> (r: Option<u32>)
        ensures
            r == self.spec_hardness(),
    {
        match self {
            VoxelType::Air => Some(0),
            VoxelType::Grass => Some(6),
            VoxelType::Dirt => Some(5),
            VoxelType::Stone => Some(15),
            VoxelType::CoalOre => Some(30),
            VoxelType::IronOre => Some(30),
            VoxelType::GoldOre => Some(30),
            VoxelType::DiamondOre => Some(30),
            VoxelType::Bedrock => None,
            VoxelType::TallGrass => Some(0),
        }
    }

    /// Whether this voxel hides the face of a neighbour that touches it.
    pub fn is_opaque_exec(&self) -> (r: bool)
        ensures
            r == self.is_opaque(),
    {
        !matches!(self, VoxelType::Air | VoxelType::TallGrass)
    }
}

} // verus!
