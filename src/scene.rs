//! Material selection for generated scenes.

use vstd::prelude::*;

verus! {

/// The kinds of material that a generated sphere can be made of.
#[derive(Clone, Copy, Debug, PartialEq, Eq, Structural)]
pub enum MaterialKind {
    /// A matte surface that scatters light in all directions.
    Diffuse,
    /// A reflective surface, possibly fuzzy.
    Metal,
    /// A transparent surface that refracts light.
    Glass,
}

/// The material kind that selection index `index` stands for: 0 diffuse,
/// 1 metal, 2 glass, and no other index.
pub open spec fn kind_of_index(index: nat) -> Option<MaterialKind> {
    if index == 0 {
        Some(MaterialKind::Diffuse)
    } else if index == 1 {
        Some(MaterialKind::Metal)
    } else if index == 2 {
        Some(MaterialKind::Glass)
    } else {
        None
    }
}

impl MaterialKind {
    /// Maps a material-selection index, as drawn from the weights of the
    /// three kinds, to its kind; `None` for an index that names no kind.
    pub fn from_index(index: usize) -> (r: Option<MaterialKind>)
        ensures
            r == kind_of_index(index as nat),
    {
        match index {
            0 => Some(MaterialKind::Diffuse),
            1 => Some(MaterialKind::Metal),
            2 => Some(MaterialKind::Glass),
            _ => None,
        }
    }
}

} // verus!
