//! The engine front end: the registry and draw queue behind a reentrancy
//! guard.
//!
//! Everything is driven by one render thread, but a user callback invoked
//! mid-frame may try to issue a load or a draw while the frame driver
//! already holds the engine. The guard is an explicit busy flag with a
//! fallible acquire: an operation that finds the engine busy does not
//! block and does not panic — it reports failure and changes nothing, and
//! the caller treats the dropped call as skipped for this frame. The frame
//! driver takes the flag with `lock`, works on the `graphics` field
//! directly (refresh, then flush), and releases it with `unlock`.

use vstd::prelude::*;

verus! {

use crate::descriptor::MeshDescriptor;
use crate::error::RendError;
use crate::graphics::Graphics;
use crate::graphics::MaterialSlot;
use crate::graphics::MeshSlot;
use crate::graphics::ShaderSlot;
use crate::graphics::graphics_wf;
use crate::graphics::material_loaded;
use crate::graphics::mesh_loaded;
use crate::graphics::shader_loaded;
use crate::material::MaterialDescriptor;
use crate::material::ONE_BITS;
use crate::numeric::compose_transform;
use crate::queue::Color;
use crate::queue::Transform;
use crate::queue::cycled_colors;
use crate::queue::submitted;

/// The identity transform: ones down the diagonal of the column-major
/// matrix, zeroes elsewhere.
pub open spec fn spec_identity_transform() -> Transform {
    [
        ONE_BITS,
        0u32,
        0u32,
        0u32,
        0u32,
        ONE_BITS,
        0u32,
        0u32,
        0u32,
        0u32,
        ONE_BITS,
        0u32,
        0u32,
        0u32,
        0u32,
        ONE_BITS,
    ]
}

/// The identity transform, for draws at the origin.
pub fn identity_transform() -> (r: Transform)
    ensures
        r == spec_identity_transform(),
{
    [
        ONE_BITS,
        0u32,
        0u32,
        0u32,
        0u32,
        ONE_BITS,
        0u32,
        0u32,
        0u32,
        0u32,
        ONE_BITS,
        0u32,
        0u32,
        0u32,
        0u32,
        ONE_BITS,
    ]
}

/// The engine: the registry and queue, and the reentrancy flag.
#[derive(Debug)]
pub struct Engine {
    pub graphics: Graphics,
    pub busy: bool,
}

/// The engine invariant: its registry invariant.
pub open spec fn engine_wf(e: Engine) -> bool {
    graphics_wf(e.graphics)
}

impl Engine {
    /// A fresh engine around a fresh registry, not busy.
    pub fn new() -> (r: Engine)
        ensures
            engine_wf(r),
            !r.busy,
            r.graphics.meshes@.len() == 0,
            r.graphics.shaders@.len() == 1,
            r.graphics.materials@.len() == 1,
            r.graphics.default_material == 0,
            r.graphics.queue.entries@.len() == 0,
    {
        Engine { graphics: Graphics::new(), busy: false }
    }

    /// Try to take the engine for the frame: fails without blocking when it
    /// is already taken.
    pub fn lock(&mut self) -> (r: bool)
        ensures
            r == !old(self).busy,
            final(self).busy,
            final(self).graphics == old(self).graphics,
    {
        if self.busy {
            false
        } else {
            self.busy = true;
            true
        }
    }

    /// Release the engine after the frame.
    pub fn unlock(&mut self)
        ensures
            !final(self).busy,
            final(self).graphics == old(self).graphics,
    {
        self.busy = false;
    }

    /// Load a mesh from geometry source text (see the registry's
    /// `load_mesh`); refused without side effect while the engine is busy.
    pub fn load_mesh(&mut self, path: &str, source: &[u8]) -> (r: Result<MeshSlot, RendError>)
        requires
            engine_wf(*old(self)),
        ensures
            engine_wf(*final(self)),
            final(self).busy == old(self).busy,
            old(self).busy ==> (r is Err && *final(self) == *old(self)),
            !old(self).busy ==> mesh_loaded(
                old(self).graphics,
                final(self).graphics,
                path@,
                source@,
                r,
            ),
    {
        if self.busy {
            return Err(RendError::new("engine is busy"));
        }
        self.graphics.load_mesh(path, source)
    }

    /// Register a shader (see the registry's `load_shader`); refused
    /// without side effect while the engine is busy.
    pub fn load_shader(&mut self, path: &str, source: Option<String>) -> (r: Result<
        ShaderSlot,
        RendError,
    >)
        requires
            engine_wf(*old(self)),
        ensures
            engine_wf(*final(self)),
            final(self).busy == old(self).busy,
            old(self).busy ==> (r is Err && *final(self) == *old(self)),
            !old(self).busy ==> shader_loaded(
                old(self).graphics,
                final(self).graphics,
                path@,
                source,
                r,
            ),
    {
        if self.busy {
            return Err(RendError::new("engine is busy"));
        }
        self.graphics.load_shader(path, source)
    }

    /// Register a material (see the registry's `load_material`); refused
    /// without side effect while the engine is busy.
    pub fn load_material(&mut self, material: MaterialDescriptor) -> (r: Result<
        MaterialSlot,
        RendError,
    >)
        requires
            engine_wf(*old(self)),
        ensures
            engine_wf(*final(self)),
            final(self).busy == old(self).busy,
            old(self).busy ==> (r is Err && *final(self) == *old(self)),
            !old(self).busy ==> (r matches Ok(s) && material_loaded(
                old(self).graphics,
                final(self).graphics,
                material,
                s,
            )),
    {
        if self.busy {
            return Err(RendError::new("engine is busy"));
        }
        Ok(self.graphics.load_material(material))
    }

    /// Rebind which material a descriptor carries; false when the engine is
    /// busy or the material slot is unknown.
    pub fn bind_material_to_mesh(&self, md: &mut MeshDescriptor, material: &MaterialSlot) -> (r:
        bool)
        ensures
            r == (!self.busy && *material < self.graphics.materials@.len()),
            r ==> final(md).name == old(md).name && final(md).idx == old(md).idx
                && final(md).material == *material,
            !r ==> *final(md) == *old(md),
    {
        if self.busy {
            return false;
        }
        self.graphics.bind_material_to_mesh(md, material)
    }

    /// Queue one instance of a mesh at the origin with the given color;
    /// false (and no effect) when the engine is busy.
    pub fn draw(&mut self, md: &MeshDescriptor, color: Color) -> (r: bool)
        requires
            engine_wf(*old(self)),
        ensures
            engine_wf(*final(self)),
            final(self).busy == old(self).busy,
            r == !old(self).busy,
            !r ==> *final(self) == *old(self),
            r ==> ({
                &&& submitted(
                    old(self).graphics.queue,
                    final(self).graphics.queue,
                    *md,
                    seq![color],
                    seq![spec_identity_transform()],
                )
                &&& final(self).graphics.meshes@ == old(self).graphics.meshes@
                &&& final(self).graphics.shaders@ == old(self).graphics.shaders@
                &&& final(self).graphics.materials@ == old(self).graphics.materials@
                &&& final(self).graphics.default_material == old(self).graphics.default_material
            }),
    {
        if self.busy {
            return false;
        }
        let transform = identity_transform();
        self.graphics.queue.submit(md, color, transform);
        true
    }

    /// Queue one instance of a mesh at the given position, XYZ Euler
    /// rotation and scale (each a vector of component bit patterns) with
    /// the given color; false (and no effect) when the engine is busy. The
    /// instance's transform comes from the outside composition, whose
    /// rotation part the platform's trigonometry decides: the contract
    /// promises one appended instance carrying the given color and a
    /// transform whose translation column is the given position, without
    /// fixing the rest of the matrix.
    pub fn draw_at(
        &mut self,
        md: &MeshDescriptor,
        color: Color,
        pos: [u32; 3],
        rot: [u32; 3],
        scale: [u32; 3],
    ) -> (r: bool)
        requires
            engine_wf(*old(self)),
        ensures
            engine_wf(*final(self)),
            final(self).busy == old(self).busy,
            r == !old(self).busy,
            !r ==> *final(self) == *old(self),
            r ==> ({
                &&& exists|t: Transform|
                    {
                        &&& #[trigger] submitted(
                            old(self).graphics.queue,
                            final(self).graphics.queue,
                            *md,
                            seq![color],
                            seq![t],
                        )
                        &&& t[12] == pos[0]
                        &&& t[13] == pos[1]
                        &&& t[14] == pos[2]
                        &&& t[15] == ONE_BITS
                    }
                &&& final(self).graphics.meshes@ == old(self).graphics.meshes@
                &&& final(self).graphics.shaders@ == old(self).graphics.shaders@
                &&& final(self).graphics.materials@ == old(self).graphics.materials@
                &&& final(self).graphics.default_material == old(self).graphics.default_material
            }),
    {
        if self.busy {
            return false;
        }
        let transform = compose_transform(pos, rot, scale);
        self.graphics.queue.submit(md, color, transform);
        proof {
            assert(submitted(
                old(self).graphics.queue,
                self.graphics.queue,
                *md,
                seq![color],
                seq![transform],
            ));
        }
        true
    }

    /// Queue many instances of one mesh, one transform each, with the
    /// colors cycled over the instances (opaque white when none are
    /// supplied); false (and no effect) when the engine is busy.
    pub fn draw_instances(
        &mut self,
        md: &MeshDescriptor,
        instances: Vec<Transform>,
        colors: Vec<Color>,
    ) -> (r: bool)
        requires
            engine_wf(*old(self)),
        ensures
            engine_wf(*final(self)),
            final(self).busy == old(self).busy,
            r == !old(self).busy,
            !r ==> *final(self) == *old(self),
            r ==> ({
                &&& submitted(
                    old(self).graphics.queue,
                    final(self).graphics.queue,
                    *md,
                    cycled_colors(colors@, instances@.len() as int),
                    instances@,
                )
                &&& final(self).graphics.meshes@ == old(self).graphics.meshes@
                &&& final(self).graphics.shaders@ == old(self).graphics.shaders@
                &&& final(self).graphics.materials@ == old(self).graphics.materials@
                &&& final(self).graphics.default_material == old(self).graphics.default_material
            }),
    {
        if self.busy {
            return false;
        }
        self.graphics.queue.submit_many(md, instances, colors);
        true
    }
}

} // verus!
