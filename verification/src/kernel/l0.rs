//! The layer-0 atoms: the irreducible primitive values that every composed
//! type of the model is built from.
use vstd::prelude::*;

verus! {

/// Marker of a layer-0 primitive atom.
pub trait L0Atom: Copy + 'static {

}

impl L0Atom for bool {

}

impl L0Atom for char {

}

impl L0Atom for u8 {

}

impl L0Atom for u16 {

}

impl L0Atom for u32 {

}

impl L0Atom for u64 {

}

impl L0Atom for u128 {

}

impl L0Atom for i8 {

}

impl L0Atom for i16 {

}

impl L0Atom for i32 {

}

impl L0Atom for i64 {

}

impl L0Atom for i128 {

}

} // verus!
