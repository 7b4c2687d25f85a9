//! The resource registry: slot tables for meshes, shaders and materials,
//! and the per-frame draw queue.
//!
//! Meshes materialize synchronously at load time. Shaders and materials
//! follow a two-phase protocol: a load call records the request as pending
//! under a freshly allocated slot and returns at once; a refresh pass, run
//! once per frame before drawing, asks for the pending slots
//! (`shader_refresh_plan`, `material_refresh_plan`), the caller builds the
//! GPU-side resources, and the outcomes are applied (`apply_shader_build`,
//! `apply_material_build`), moving each slot from pending to materialized
//! or failed. Slots already materialized are never touched again, so the
//! pass is idempotent; a slot whose build failed stays unusable and its
//! draw batches are dropped at flush time.
//!
//! Slots are stable for the life of the registry: a table only ever grows,
//! and loading a mesh or shader under an already-known path returns the
//! existing slot without re-parsing.

use vstd::prelude::*;
use vstd::string::StringExecFns;

verus! {

use crate::descriptor::MeshDescriptor;
use crate::error::RendError;
use crate::material::MaterialData;
use crate::material::MaterialDescriptor;
use crate::mesh::MAX_UNIFIED_VERTICES;
use crate::mesh::MeshGeometry;
use crate::mesh::geometry_matches;
use crate::mesh::geometry_wf;
use crate::obj_parser::spec_parse_source;
use crate::queue::Color;
use crate::queue::DrawQueue;
use crate::queue::QueueEntry;
use crate::queue::Transform;
use crate::queue::copy_vec;
use crate::queue::queue_wf;
use crate::solver::corners_of;
use crate::solver::firsts;

/// A stable handle into the shader table.
pub type ShaderSlot = usize;

/// A stable handle into the material table.
pub type MaterialSlot = usize;

/// A stable handle into the mesh table.
pub type MeshSlot = usize;

/// Where a shader slot stands in the two-phase protocol. A materialized
/// shader carries the caller's handle for the built module.
#[derive(Clone, Copy, Debug)]
pub enum ShaderState {
    Pending,
    Materialized(u64),
    Failed,
}

/// One shader slot: the path it was loaded under, its source text, and its
/// state.
#[derive(Debug)]
pub struct ShaderEntry {
    pub path: String,
    pub source: String,
    pub state: ShaderState,
}

/// A materialized material: its visual parameters, the shader slot it
/// resolved to, and the caller's handle for the built GPU resources.
#[derive(Clone, Copy, Debug)]
pub struct MaterialResource {
    pub data: MaterialData,
    pub shader: ShaderSlot,
    pub handle: u64,
}

/// Where a material slot stands in the two-phase protocol.
#[derive(Clone, Copy, Debug)]
pub enum MaterialState {
    Pending,
    Materialized(MaterialResource),
    Failed,
}

/// One material slot: the descriptor it was registered with and its state.
#[derive(Debug)]
pub struct MaterialEntry {
    pub desc: MaterialDescriptor,
    pub state: MaterialState,
}

/// One batch that a flush yields: the mesh and material slots all its
/// instances share, and their per-instance colors and transforms in
/// submission order.
#[derive(Debug)]
pub struct Batch {
    pub mesh: MeshSlot,
    pub material: MaterialSlot,
    pub colors: Vec<Color>,
    pub transforms: Vec<Transform>,
}

/// The registry and the frame's draw queue.
#[derive(Debug)]
pub struct Graphics {
    pub meshes: Vec<MeshGeometry>,
    pub shaders: Vec<ShaderEntry>,
    pub materials: Vec<MaterialEntry>,
    pub default_material: MaterialSlot,
    pub queue: DrawQueue,
}

/// Whether some mesh is already loaded under `path`.
pub open spec fn has_mesh(ms: Seq<MeshGeometry>, path: Seq<char>) -> bool {
    exists|i: int| 0 <= i < ms.len() && ms[i].path@ == path
}

/// The slot of the first mesh loaded under `path` (or `ms.len()`).
pub open spec fn mesh_slot_of(ms: Seq<MeshGeometry>, path: Seq<char>) -> int
    decreases ms.len(),
{
    if ms.len() == 0 {
        0
    } else if ms[0].path@ == path {
        0
    } else {
        1 + mesh_slot_of(ms.drop_first(), path)
    }
}

/// Whether some shader is already loaded under `path`.
pub open spec fn has_shader(ss: Seq<ShaderEntry>, path: Seq<char>) -> bool {
    exists|i: int| 0 <= i < ss.len() && ss[i].path@ == path
}

/// The slot of the first shader loaded under `path` (or `ss.len()`).
pub open spec fn shader_slot_of(ss: Seq<ShaderEntry>, path: Seq<char>) -> int
    decreases ss.len(),
{
    if ss.len() == 0 {
        0
    } else if ss[0].path@ == path {
        0
    } else {
        1 + shader_slot_of(ss.drop_first(), path)
    }
}

/// The registry invariant: the distinguished default material exists, mesh
/// and shader paths are unique (slots are stable), every materialized
/// material points at a real shader slot, and the queue is well formed.
pub open spec fn graphics_wf(g: Graphics) -> bool {
    &&& g.shaders@.len() >= 1
    &&& g.materials@.len() >= 1
    &&& g.default_material < g.materials@.len()
    &&& queue_wf(g.queue)
    &&& forall|i: int, j: int|
        0 <= i < j < g.meshes@.len() ==> g.meshes@[i].path@ != g.meshes@[j].path@
    &&& forall|i: int, j: int|
        0 <= i < j < g.shaders@.len() ==> g.shaders@[i].path@ != g.shaders@[j].path@
    &&& forall|i: int|
        0 <= i < g.materials@.len() ==> ((#[trigger] g.materials@[i].state) matches
        MaterialState::Materialized(res) ==> res.shader < g.shaders@.len())
}

/// A first path match at `i` is what `mesh_slot_of` returns.
pub proof fn lemma_mesh_slot_first(ms: Seq<MeshGeometry>, path: Seq<char>, i: int)
    requires
        0 <= i < ms.len(),
        ms[i].path@ == path,
        forall|j: int| 0 <= j < i ==> (#[trigger] ms[j]).path@ != path,
    ensures
        mesh_slot_of(ms, path) == i,
    decreases ms.len(),
{
    if i > 0 {
        assert(ms.drop_first()[i - 1] == ms[i]);
        assert forall|j: int| 0 <= j < i - 1 implies (#[trigger] ms.drop_first()[j]).path@
            != path by {
            assert(ms.drop_first()[j] == ms[j + 1]);
        }
        lemma_mesh_slot_first(ms.drop_first(), path, i - 1);
    }
}

/// Slot stability: in a well-formed registry every stored mesh is found
/// under its own path, at exactly the slot it sits in. Together with
/// `load_mesh`'s cache-hit case this pins down that loading the same path
/// again returns the first load's slot and leaves the registry untouched —
/// the parser and solver run only once per path.
pub proof fn lemma_slot_stability(g: Graphics, s: int)
    requires
        graphics_wf(g),
        0 <= s < g.meshes@.len(),
    ensures
        has_mesh(g.meshes@, g.meshes@[s].path@),
        mesh_slot_of(g.meshes@, g.meshes@[s].path@) == s,
{
    assert(has_mesh(g.meshes@, g.meshes@[s].path@));
    assert forall|j: int| 0 <= j < s implies (#[trigger] g.meshes@[j]).path@
        != g.meshes@[s].path@ by {}
    lemma_mesh_slot_first(g.meshes@, g.meshes@[s].path@, s);
}

/// A first path match at `i` is what `shader_slot_of` returns.
pub proof fn lemma_shader_slot_first(ss: Seq<ShaderEntry>, path: Seq<char>, i: int)
    requires
        0 <= i < ss.len(),
        ss[i].path@ == path,
        forall|j: int| 0 <= j < i ==> (#[trigger] ss[j]).path@ != path,
    ensures
        shader_slot_of(ss, path) == i,
    decreases ss.len(),
{
    if i > 0 {
        assert(ss.drop_first()[i - 1] == ss[i]);
        assert forall|j: int| 0 <= j < i - 1 implies (#[trigger] ss.drop_first()[j]).path@
            != path by {
            assert(ss.drop_first()[j] == ss[j + 1]);
        }
        lemma_shader_slot_first(ss.drop_first(), path, i - 1);
    }
}

/// The pending shader slots and their sources, in slot order: what a
/// refresh pass must build.
pub open spec fn spec_shader_plan(ss: Seq<ShaderEntry>) -> Seq<(usize, Seq<char>)>
    decreases ss.len(),
{
    if ss.len() == 0 {
        Seq::empty()
    } else {
        let prev = spec_shader_plan(ss.drop_last());
        if ss.last().state is Pending {
            prev.push(((ss.len() - 1) as usize, ss.last().source@))
        } else {
            prev
        }
    }
}

/// The pending material slots, in slot order: what a refresh pass must
/// build.
pub open spec fn spec_material_plan(ms: Seq<MaterialEntry>) -> Seq<usize>
    decreases ms.len(),
{
    if ms.len() == 0 {
        Seq::empty()
    } else {
        let prev = spec_material_plan(ms.drop_last());
        if ms.last().state is Pending {
            prev.push((ms.len() - 1) as usize)
        } else {
            prev
        }
    }
}

/// Whether a queue entry can be drawn: its mesh slot is loaded and its
/// material slot is materialized.
pub open spec fn keep_entry(e: QueueEntry, nmeshes: int, materials: Seq<MaterialEntry>) -> bool {
    &&& e.md.idx < nmeshes
    &&& e.md.material < materials.len()
    &&& materials[e.md.material as int].state is Materialized
}

/// The queue entries a flush keeps, in queue order.
pub open spec fn kept_entries(
    es: Seq<QueueEntry>,
    nmeshes: int,
    materials: Seq<MaterialEntry>,
) -> Seq<QueueEntry>
    decreases es.len(),
{
    if es.len() == 0 {
        Seq::empty()
    } else {
        let prev = kept_entries(es.drop_last(), nmeshes, materials);
        if keep_entry(es.last(), nmeshes, materials) {
            prev.push(es.last())
        } else {
            prev
        }
    }
}

/// A batch carries exactly one kept entry's slots and instance arrays.
pub open spec fn batch_matches(b: Batch, e: QueueEntry) -> bool {
    &&& b.mesh == e.md.idx
    &&& b.material == e.md.material
    &&& b.colors@ == e.colors@
    &&& b.transforms@ == e.transforms@
}

/// Flushing when nothing was submitted yields nothing: the kept entries of
/// an empty queue are empty, whatever the registry holds. Together with
/// `flush` clearing the queue, a second flush with no new submissions
/// yields an empty batch sequence.
pub proof fn lemma_flush_after_flush_is_empty(nmeshes: int, materials: Seq<MaterialEntry>)
    ensures
        kept_entries(Seq::<QueueEntry>::empty(), nmeshes, materials) == Seq::<QueueEntry>::empty(),
{
}

/// What loading a mesh does to the registry: a known path is a cache hit
/// that changes nothing and returns its slot; a new path is parsed and
/// solved, stored under the next slot on success, and allocates nothing on
/// failure.
pub open spec fn mesh_loaded(
    pre: Graphics,
    post: Graphics,
    path: Seq<char>,
    source: Seq<u8>,
    r: Result<MeshSlot, RendError>,
) -> bool {
    if has_mesh(pre.meshes@, path) {
        &&& r matches Ok(s) && s == mesh_slot_of(pre.meshes@, path)
        &&& post == pre
    } else {
        let parsed = spec_parse_source(source);
        match r {
            Ok(s) => {
                &&& parsed is Some
                &&& firsts(corners_of(parsed.unwrap())).len() <= MAX_UNIFIED_VERTICES
                &&& s == pre.meshes@.len()
                &&& post.meshes@.len() == pre.meshes@.len() + 1
                &&& forall|j: int|
                    0 <= j < pre.meshes@.len() ==> #[trigger] post.meshes@[j] == pre.meshes@[j]
                &&& post.meshes@.last().path@ == path
                &&& geometry_matches(post.meshes@.last(), parsed.unwrap())
                &&& geometry_wf(post.meshes@.last())
                &&& post.shaders@ == pre.shaders@
                &&& post.materials@ == pre.materials@
                &&& post.default_material == pre.default_material
                &&& post.queue == pre.queue
            },
            Err(_) => (parsed is None || firsts(corners_of(parsed.unwrap())).len()
                > MAX_UNIFIED_VERTICES) && post == pre,
        }
    }
}

/// What registering a shader does to the registry: a known path is a cache
/// hit; a new path with readable source becomes a pending slot; unreadable
/// source is an error and allocates nothing.
pub open spec fn shader_loaded(
    pre: Graphics,
    post: Graphics,
    path: Seq<char>,
    source: Option<String>,
    r: Result<ShaderSlot, RendError>,
) -> bool {
    if has_shader(pre.shaders@, path) {
        &&& r matches Ok(s) && s == shader_slot_of(pre.shaders@, path)
        &&& post == pre
    } else {
        match source {
            Some(src) => {
                &&& r matches Ok(s) && s == pre.shaders@.len()
                &&& post.shaders@.len() == pre.shaders@.len() + 1
                &&& forall|j: int|
                    0 <= j < pre.shaders@.len() ==> #[trigger] post.shaders@[j] == pre.shaders@[j]
                &&& post.shaders@.last().path@ == path
                &&& post.shaders@.last().source@ == src@
                &&& post.shaders@.last().state is Pending
                &&& post.meshes@ == pre.meshes@
                &&& post.materials@ == pre.materials@
                &&& post.default_material == pre.default_material
                &&& post.queue == pre.queue
            },
            None => r is Err && post == pre,
        }
    }
}

/// What registering a material does to the registry: a fresh pending slot
/// holding the descriptor, unconditionally.
pub open spec fn material_loaded(
    pre: Graphics,
    post: Graphics,
    desc: MaterialDescriptor,
    r: MaterialSlot,
) -> bool {
    &&& r == pre.materials@.len()
    &&& post.materials@.len() == pre.materials@.len() + 1
    &&& forall|j: int|
        0 <= j < pre.materials@.len() ==> #[trigger] post.materials@[j] == pre.materials@[j]
    &&& post.materials@.last().desc == desc
    &&& post.materials@.last().state is Pending
    &&& post.meshes@ == pre.meshes@
    &&& post.shaders@ == pre.shaders@
    &&& post.default_material == pre.default_material
    &&& post.queue == pre.queue
}

impl Graphics {
    /// A fresh registry holding only the defaults: shader slot 0 (the
    /// built-in default shader, registered under the empty path) and
    /// material slot 0 (the plain default material), both already
    /// materialized with handle 0.
    pub fn new() -> (r: Graphics)
        ensures
            graphics_wf(r),
            r.meshes@.len() == 0,
            r.shaders@.len() == 1,
            r.materials@.len() == 1,
            r.default_material == 0,
            r.shaders@[0].state matches ShaderState::Materialized(h) && h == 0,
            r.materials@[0].state matches MaterialState::Materialized(res) && res.shader == 0
                && res.handle == 0,
            r.queue.entries@.len() == 0,
    {
        let mut shaders: Vec<ShaderEntry> = Vec::new();
        shaders.push(
            ShaderEntry {
                path: String::new(),
                source: String::new(),
                state: ShaderState::Materialized(0),
            },
        );
        let default_desc = MaterialDescriptor::new();
        let resource = MaterialResource { data: default_desc.data, shader: 0, handle: 0 };
        let mut materials: Vec<MaterialEntry> = Vec::new();
        materials.push(
            MaterialEntry { desc: default_desc, state: MaterialState::Materialized(resource) },
        );
        Graphics {
            meshes: Vec::new(),
            shaders,
            materials,
            default_material: 0,
            queue: DrawQueue::new(),
        }
    }

    /// Load a mesh from geometry source text. A path already loaded is a
    /// cache hit: the existing slot comes back and nothing is re-parsed,
    /// whatever the new source holds. Otherwise the source is parsed and
    /// solved; on success the geometry is stored under a fresh slot, and on
    /// failure no slot is allocated.
    pub fn load_mesh(&mut self, path: &str, source: &[u8]) -> (r: Result<MeshSlot, RendError>)
        requires
            graphics_wf(*old(self)),
        ensures
            graphics_wf(*final(self)),
            mesh_loaded(*old(self), *final(self), path@, source@, r),
    {
        let ghost ms = self.meshes@;
        let p = String::from_str(path);
        let n = self.meshes.len();
        let mut i: usize = 0;
        while i < n
            invariant
                i <= n,
                n == ms.len(),
                ms == self.meshes@,
                *self == *old(self),
                graphics_wf(*self),
                p@ == path@,
                forall|j: int| 0 <= j < i ==> (#[trigger] ms[j]).path@ != path@,
            decreases n - i,
        {
            let hit = self.meshes[i].path == p;
            if hit {
                proof {
                    lemma_mesh_slot_first(ms, path@, i as int);
                }
                return Ok(i);
            }
            i += 1;
        }
        proof {
            assert(!has_mesh(ms, path@));
        }
        match MeshGeometry::from_obj(path, source) {
            Ok(g) => {
                let slot = self.meshes.len();
                self.meshes.push(g);
                proof {
                    assert forall|a: int, b: int|
                        0 <= a < b < self.meshes@.len() implies self.meshes@[a].path@
                        != self.meshes@[b].path@ by {
                        if b < ms.len() {
                            assert(self.meshes@[a] == ms[a] && self.meshes@[b] == ms[b]);
                        } else {
                            assert(self.meshes@[a] == ms[a]);
                            assert(self.meshes@[b].path@ == path@);
                            if self.meshes@[a].path@ == path@ {
                                assert(has_mesh(ms, path@));
                            }
                        }
                    }
                }
                Ok(slot)
            },
            Err(e) => Err(e),
        }
    }

    /// Register a shader under `path`. A path already loaded is a cache
    /// hit. Otherwise, when source text is supplied the shader is recorded
    /// as pending under a fresh slot; `None` stands for unreadable source
    /// and yields an error with no slot allocated.
    pub fn load_shader(&mut self, path: &str, source: Option<String>) -> (r: Result<
        ShaderSlot,
        RendError,
    >)
        requires
            graphics_wf(*old(self)),
        ensures
            graphics_wf(*final(self)),
            shader_loaded(*old(self), *final(self), path@, source, r),
    {
        let ghost ss = self.shaders@;
        let p = String::from_str(path);
        let n = self.shaders.len();
        let mut i: usize = 0;
        while i < n
            invariant
                i <= n,
                n == ss.len(),
                ss == self.shaders@,
                *self == *old(self),
                graphics_wf(*self),
                p@ == path@,
                forall|j: int| 0 <= j < i ==> (#[trigger] ss[j]).path@ != path@,
            decreases n - i,
        {
            let hit = self.shaders[i].path == p;
            if hit {
                proof {
                    lemma_shader_slot_first(ss, path@, i as int);
                }
                return Ok(i);
            }
            i += 1;
        }
        proof {
            assert(!has_shader(ss, path@));
        }
        match source {
            Some(src) => {
                let slot = self.shaders.len();
                self.shaders.push(ShaderEntry { path: p, source: src, state: ShaderState::Pending });
                proof {
                    assert forall|a: int, b: int|
                        0 <= a < b < self.shaders@.len() implies self.shaders@[a].path@
                        != self.shaders@[b].path@ by {
                        if b < ss.len() {
                            assert(self.shaders@[a] == ss[a] && self.shaders@[b] == ss[b]);
                        } else {
                            assert(self.shaders@[a] == ss[a]);
                            assert(self.shaders@[b].path@ == path@);
                            if self.shaders@[a].path@ == path@ {
                                assert(has_shader(ss, path@));
                            }
                        }
                    }
                }
                Ok(slot)
            },
            None => Err(RendError::new("shader source could not be read")),
        }
    }

    /// Record a material descriptor as pending under a freshly allocated
    /// slot. Always succeeds; texture and shader resolution is deferred to
    /// the refresh pass.
    pub fn load_material(&mut self, material: MaterialDescriptor) -> (r: MaterialSlot)
        requires
            graphics_wf(*old(self)),
        ensures
            graphics_wf(*final(self)),
            material_loaded(*old(self), *final(self), material, r),
    {
        let slot = self.materials.len();
        self.materials.push(MaterialEntry { desc: material, state: MaterialState::Pending });
        slot
    }

    /// Rebind which material a descriptor carries. Fails (and leaves the
    /// descriptor alone) only when the material slot is unknown.
    pub fn bind_material_to_mesh(&self, md: &mut MeshDescriptor, material: &MaterialSlot) -> (r:
        bool)
        ensures
            r == (*material < self.materials@.len()),
            r ==> final(md).name == old(md).name && final(md).idx == old(md).idx
                && final(md).material == *material,
            !r ==> *final(md) == *old(md),
    {
        if *material < self.materials.len() {
            md.material = *material;
            true
        } else {
            false
        }
    }

    /// The distinguished material every descriptor starts with.
    pub fn default_material_slot(&self) -> (r: MaterialSlot)
        ensures
            r == self.default_material,
    {
        self.default_material
    }

    /// The geometry loaded in a mesh slot, when the slot is known.
    pub fn mesh_geometry(&self, slot: MeshSlot) -> (r: Option<&MeshGeometry>)
        ensures
            slot < self.meshes@.len() ==> (r matches Some(g) && *g == self.meshes@[slot as int]),
            slot >= self.meshes@.len() ==> r is None,
    {
        if slot < self.meshes.len() {
            Some(&self.meshes[slot])
        } else {
            None
        }
    }

    /// The materialized resource of a material slot, when there is one.
    pub fn material_resource(&self, slot: MaterialSlot) -> (r: Option<MaterialResource>)
        ensures
            ({
                if slot < self.materials@.len() {
                    match self.materials@[slot as int].state {
                        MaterialState::Materialized(res) => r == Some(res),
                        _ => r is None,
                    }
                } else {
                    r is None
                }
            }),
    {
        if slot < self.materials.len() {
            match self.materials[slot].state {
                MaterialState::Materialized(res) => Some(res),
                _ => None,
            }
        } else {
            None
        }
    }

    /// The descriptor a material slot was registered with.
    pub fn material_descriptor(&self, slot: MaterialSlot) -> (r: Option<&MaterialDescriptor>)
        ensures
            slot < self.materials@.len() ==> (r matches Some(d) && *d == self.materials@[
                slot as int].desc),
            slot >= self.materials@.len() ==> r is None,
    {
        if slot < self.materials.len() {
            Some(&self.materials[slot].desc)
        } else {
            None
        }
    }

    /// The pending shaders a refresh pass must build: each slot with a copy
    /// of its source text, in slot order. Materialized and failed slots are
    /// not in the plan, so a pass that applies every outcome leaves nothing
    /// for the next one.
    pub fn shader_refresh_plan(&self) -> (r: Vec<(usize, String)>)
        ensures
            r@.len() == spec_shader_plan(self.shaders@).len(),
            forall|k: int|
                0 <= k < r@.len() ==> (#[trigger] r@[k]).0 == spec_shader_plan(self.shaders@)[k].0
                    && r@[k].1@ == spec_shader_plan(self.shaders@)[k].1,
    {
        let ghost ss = self.shaders@;
        let mut out: Vec<(usize, String)> = Vec::new();
        let n = self.shaders.len();
        let mut i: usize = 0;
        while i < n
            invariant
                i <= n,
                n == ss.len(),
                ss == self.shaders@,
                out@.len() == spec_shader_plan(ss.take(i as int)).len(),
                forall|k: int|
                    0 <= k < out@.len() ==> (#[trigger] out@[k]).0 == spec_shader_plan(
                        ss.take(i as int),
                    )[k].0 && out@[k].1@ == spec_shader_plan(ss.take(i as int))[k].1,
            decreases n - i,
        {
            proof {
                assert(ss.take(i + 1).drop_last() =~= ss.take(i as int));
                assert(ss.take(i + 1).last() == ss[i as int]);
            }
            let pending = match self.shaders[i].state {
                ShaderState::Pending => true,
                _ => false,
            };
            if pending {
                let src = self.shaders[i].source.clone();
                out.push((i, src));
            }
            i += 1;
        }
        proof {
            assert(ss.take(n as int) =~= ss);
        }
        out
    }

    /// The pending materials a refresh pass must build, in slot order.
    pub fn material_refresh_plan(&self) -> (r: Vec<MaterialSlot>)
        ensures
            r@ == spec_material_plan(self.materials@),
    {
        let ghost ms = self.materials@;
        let mut out: Vec<MaterialSlot> = Vec::new();
        let n = self.materials.len();
        let mut i: usize = 0;
        while i < n
            invariant
                i <= n,
                n == ms.len(),
                ms == self.materials@,
                out@ == spec_material_plan(ms.take(i as int)),
            decreases n - i,
        {
            proof {
                assert(ms.take(i + 1).drop_last() =~= ms.take(i as int));
                assert(ms.take(i + 1).last() == ms[i as int]);
            }
            let pending = match self.materials[i].state {
                MaterialState::Pending => true,
                _ => false,
            };
            if pending {
                out.push(i);
            }
            i += 1;
        }
        proof {
            assert(ms.take(n as int) =~= ms);
        }
        out
    }

    /// Record the outcome of building one shader: a pending slot becomes
    /// materialized with the caller's handle, or failed. Slots already
    /// resolved, and unknown slots, are left untouched, which makes the
    /// refresh pass idempotent.
    pub fn apply_shader_build(&mut self, slot: ShaderSlot, outcome: Option<u64>)
        requires
            graphics_wf(*old(self)),
        ensures
            graphics_wf(*final(self)),
            final(self).meshes@ == old(self).meshes@,
            final(self).materials@ == old(self).materials@,
            final(self).default_material == old(self).default_material,
            final(self).queue == old(self).queue,
            slot < old(self).shaders@.len() && old(self).shaders@[slot as int].state is Pending
                ==> ({
                &&& final(self).shaders@.len() == old(self).shaders@.len()
                &&& forall|j: int|
                    0 <= j < old(self).shaders@.len() && j != slot ==> #[trigger] final(self).shaders@[j]
                        == old(self).shaders@[j]
                &&& final(self).shaders@[slot as int].path == old(self).shaders@[slot as int].path
                &&& final(self).shaders@[slot as int].source == old(self).shaders@[
                    slot as int].source
                &&& final(self).shaders@[slot as int].state == (match outcome {
                    Some(h) => ShaderState::Materialized(h),
                    None => ShaderState::Failed,
                })
            }),
            !(slot < old(self).shaders@.len() && old(self).shaders@[slot as int].state is Pending)
                ==> *final(self) == *old(self),
    {
        let ghost ss = self.shaders@;
        if slot < self.shaders.len() {
            let pending = match self.shaders[slot].state {
                ShaderState::Pending => true,
                _ => false,
            };
            if pending {
                let e = &mut self.shaders[slot];
                match outcome {
                    Some(h) => {
                        e.state = ShaderState::Materialized(h);
                    },
                    None => {
                        e.state = ShaderState::Failed;
                    },
                }
                proof {
                    assert forall|a: int, b: int|
                        0 <= a < b < self.shaders@.len() implies self.shaders@[a].path@
                        != self.shaders@[b].path@ by {
                        assert(self.shaders@[a].path == ss[a].path);
                        assert(self.shaders@[b].path == ss[b].path);
                    }
                }
            }
        }
    }

    /// Record the outcome of building one material: a pending slot becomes
    /// materialized with its descriptor's visual parameters, the shader
    /// slot it resolved to (the default shader when none was given or the
    /// given one is unknown), and the caller's handle — or failed when the
    /// build did not succeed. Slots already resolved, and unknown slots,
    /// are left untouched.
    pub fn apply_material_build(
        &mut self,
        slot: MaterialSlot,
        shader: Option<ShaderSlot>,
        handle: u64,
        ok: bool,
    )
        requires
            graphics_wf(*old(self)),
        ensures
            graphics_wf(*final(self)),
            final(self).meshes@ == old(self).meshes@,
            final(self).shaders@ == old(self).shaders@,
            final(self).default_material == old(self).default_material,
            final(self).queue == old(self).queue,
            slot < old(self).materials@.len() && old(self).materials@[slot as int].state is Pending
                ==> ({
                &&& final(self).materials@.len() == old(self).materials@.len()
                &&& forall|j: int|
                    0 <= j < old(self).materials@.len() && j != slot ==> #[trigger] final(self).materials@[j]
                        == old(self).materials@[j]
                &&& final(self).materials@[slot as int].desc == old(self).materials@[
                    slot as int].desc
                &&& final(self).materials@[slot as int].state == (if ok {
                    MaterialState::Materialized(
                        MaterialResource {
                            data: old(self).materials@[slot as int].desc.data,
                            shader: (match shader {
                                Some(sh) => if sh < old(self).shaders@.len() {
                                    sh
                                } else {
                                    0
                                },
                                None => 0,
                            }),
                            handle,
                        },
                    )
                } else {
                    MaterialState::Failed
                })
            }),
            !(slot < old(self).materials@.len() && old(self).materials@[
                slot as int].state is Pending) ==> *final(self) == *old(self),
    {
        if slot < self.materials.len() {
            let pending = match self.materials[slot].state {
                MaterialState::Pending => true,
                _ => false,
            };
            if pending {
                if ok {
                    let resolved: ShaderSlot = match shader {
                        Some(sh) => if sh < self.shaders.len() {
                            sh
                        } else {
                            0
                        },
                        None => 0,
                    };
                    let data = self.materials[slot].desc.data;
                    let e = &mut self.materials[slot];
                    e.state = MaterialState::Materialized(
                        MaterialResource { data, shader: resolved, handle },
                    );
                } else {
                    let e = &mut self.materials[slot];
                    e.state = MaterialState::Failed;
                }
            }
        }
    }

    /// Flush the frame's draw queue: one batch per entry whose mesh slot is
    /// loaded and whose material slot is materialized, in queue order;
    /// entries that cannot be resolved are dropped. The queue is cleared
    /// unconditionally — flush consumes the frame.
    pub fn flush(&mut self) -> (r: Vec<Batch>)
        requires
            graphics_wf(*old(self)),
        ensures
            graphics_wf(*final(self)),
            final(self).meshes@ == old(self).meshes@,
            final(self).shaders@ == old(self).shaders@,
            final(self).materials@ == old(self).materials@,
            final(self).default_material == old(self).default_material,
            final(self).queue.entries@.len() == 0,
            ({
                let kept = kept_entries(
                    old(self).queue.entries@,
                    old(self).meshes@.len() as int,
                    old(self).materials@,
                );
                &&& r@.len() == kept.len()
                &&& forall|k: int| 0 <= k < kept.len() ==> batch_matches(#[trigger] r@[k], kept[k])
            }),
    {
        let ghost nmeshes = self.meshes@.len() as int;
        let ghost gmats = self.materials@;
        let mut entries: Vec<QueueEntry> = Vec::new();
        core::mem::swap(&mut entries, &mut self.queue.entries);
        let ghost es = entries@;
        let mut out: Vec<Batch> = Vec::new();
        let n = entries.len();
        let mut i: usize = 0;
        while i < n
            invariant
                i <= n,
                n == es.len(),
                es == entries@,
                gmats == self.materials@,
                nmeshes == self.meshes@.len() as int,
                out@.len() == kept_entries(es.take(i as int), nmeshes, gmats).len(),
                forall|k: int|
                    0 <= k < out@.len() ==> batch_matches(
                        #[trigger] out@[k],
                        kept_entries(es.take(i as int), nmeshes, gmats)[k],
                    ),
            decreases n - i,
        {
            proof {
                assert(es.take(i + 1).drop_last() =~= es.take(i as int));
                assert(es.take(i + 1).last() == es[i as int]);
            }
            let mesh_slot = entries[i].md.idx;
            let material_slot = entries[i].md.material;
            let mut resolvable = mesh_slot < self.meshes.len() && material_slot
                < self.materials.len();
            if resolvable {
                resolvable = match self.materials[material_slot].state {
                    MaterialState::Materialized(_) => true,
                    _ => false,
                };
            }
            if resolvable {
                let batch = Batch {
                    mesh: mesh_slot,
                    material: material_slot,
                    colors: copy_vec(&entries[i].colors),
                    transforms: copy_vec(&entries[i].transforms),
                };
                out.push(batch);
            }
            i += 1;
        }
        proof {
            assert(es.take(n as int) =~= es);
        }
        out
    }
}

} // verus!
