//! Mesh descriptors: the value a draw call names a mesh by.

use vstd::prelude::*;
use vstd::string::StringExecFns;

verus! {

use crate::graphics::MaterialSlot;
use crate::graphics::MeshSlot;

/// The draw-queue grouping key: a mesh slot, the material slot to draw it
/// with, and the display name it was loaded under. Draw calls naming equal
/// descriptors are batched into one instanced submission.
#[derive(Debug)]
pub struct MeshDescriptor {
    pub name: String,
    pub idx: MeshSlot,
    pub material: MaterialSlot,
}

/// Descriptor equality: same mesh slot, same material slot, same name.
pub open spec fn same_descriptor(a: MeshDescriptor, b: MeshDescriptor) -> bool {
    a.name@ == b.name@ && a.idx == b.idx && a.material == b.material
}

impl MeshDescriptor {
    /// A descriptor for the mesh in slot `idx`, displayed under `path` and
    /// drawn with `material`.
    pub fn new(idx: MeshSlot, path: &str, material: MaterialSlot) -> (r: MeshDescriptor)
        ensures
            r.name@ == path@,
            r.idx == idx,
            r.material == material,
    {
        MeshDescriptor { name: String::from_str(path), idx, material }
    }

    /// An identical copy.
    pub fn duplicate(&self) -> (r: MeshDescriptor)
        ensures
            same_descriptor(r, *self),
    {
        MeshDescriptor { name: self.name.clone(), idx: self.idx, material: self.material }
    }

    /// Whether `self` and `other` name the same batch.
    pub fn same_as(&self, other: &MeshDescriptor) -> (r: bool)
        ensures
            r == same_descriptor(*self, *other),
    {
        self.idx == other.idx && self.material == other.material && self.name == other.name
    }
}

} // verus!
