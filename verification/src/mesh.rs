//! GPU-ready mesh geometry: the unified attribute arrays and the 16-bit
//! index list produced from a parsed geometry source.

use vstd::prelude::*;
use vstd::string::StringExecFns;

verus! {

use crate::buffers::indices_as_bytes_copy;
use crate::buffers::spec_indices_bytes;
use crate::buffers::spec_vertices_bytes;
use crate::buffers::vertices_as_bytes_copy;
use crate::error::RendError;
use crate::obj_parser::OBJMesh;
use crate::obj_parser::ObjData;
use crate::obj_parser::empty_obj;
use crate::obj_parser::lemma_empty_obj_wf;
use crate::obj_parser::lemma_parse_rest_wf;
use crate::obj_parser::obj_wf;
use crate::obj_parser::tri_wf;
use crate::obj_parser::spec_lines;
use crate::obj_parser::spec_parse_source;
use crate::solver::corners_of;
use crate::solver::data_view;
use crate::solver::find_key;
use crate::solver::firsts;
use crate::solver::lemma_index_bounds;
use crate::solver::solve_indices;
use crate::solver::solved;

/// The largest unified vertex count the 16-bit index format can reference.
pub const MAX_UNIFIED_VERTICES: usize = 0x10000;

/// Final geometry of one mesh: unified position, texture-coordinate and
/// normal arrays of equal length, a flat triangle index list into them,
/// and the source path the mesh was loaded under.
#[derive(Debug)]
pub struct MeshGeometry {
    pub path: String,
    pub faces: Vec<u16>,
    pub vertices: Vec<[u32; 3]>,
    pub uvs: Vec<[u32; 3]>,
    pub normals: Vec<[u32; 3]>,
}

/// The geometry the solver would emit for parse state `d`, with the index
/// list narrowed to 16 bits.
pub open spec fn geometry_matches(g: MeshGeometry, d: ObjData) -> bool {
    solved(d, g.vertices@, g.uvs@, g.normals@, g.faces@.map_values(|x: u16| x as usize))
}

/// Structural soundness of finished geometry: equal-length attribute
/// arrays, and every index inside them.
pub open spec fn geometry_wf(g: MeshGeometry) -> bool {
    &&& g.uvs@.len() == g.vertices@.len()
    &&& g.normals@.len() == g.vertices@.len()
    &&& forall|j: int| 0 <= j < g.faces@.len() ==> (#[trigger] g.faces@[j]) < g.vertices@.len()
}

impl MeshGeometry {
    /// An empty mesh under the empty path.
    pub fn new() -> (r: MeshGeometry)
        ensures
            r.path@ == Seq::<char>::empty(),
            r.faces@ == Seq::<u16>::empty(),
            r.vertices@ == Seq::<[u32; 3]>::empty(),
            r.uvs@ == Seq::<[u32; 3]>::empty(),
            r.normals@ == Seq::<[u32; 3]>::empty(),
            geometry_wf(r),
    {
        MeshGeometry {
            path: String::new(),
            faces: Vec::new(),
            vertices: Vec::new(),
            uvs: Vec::new(),
            normals: Vec::new(),
        }
    }

    /// The index and attribute buffers of this mesh, for rendering.
    pub fn buffers(&self) -> (r: (&Vec<u16>, &Vec<[u32; 3]>, &Vec<[u32; 3]>, &Vec<[u32; 3]>))
        ensures
            r.0@ == self.faces@,
            r.1@ == self.vertices@,
            r.2@ == self.uvs@,
            r.3@ == self.normals@,
    {
        (&self.faces, &self.vertices, &self.uvs, &self.normals)
    }

    /// The byte images of the four buffers (indices, positions, texture
    /// coordinates, normals), as GPU buffer initializers take them.
    pub fn byte_buffers(&self) -> (r: (Vec<u8>, Vec<u8>, Vec<u8>, Vec<u8>))
        ensures
            r.0@ == spec_indices_bytes(self.faces@),
            r.1@ == spec_vertices_bytes(self.vertices@),
            r.2@ == spec_vertices_bytes(self.uvs@),
            r.3@ == spec_vertices_bytes(self.normals@),
    {
        (
            indices_as_bytes_copy(&self.faces),
            vertices_as_bytes_copy(&self.vertices),
            vertices_as_bytes_copy(&self.uvs),
            vertices_as_bytes_copy(&self.normals),
        )
    }

    /// Parse a geometry source and solve its vertex identities. Succeeds
    /// exactly when every line parses and the unified vertices fit the
    /// 16-bit index format; no partial mesh is ever returned.
    pub fn from_obj(path: &str, source: &[u8]) -> (r: Result<MeshGeometry, RendError>)
        ensures
            ({
                let parsed = spec_parse_source(source@);
                match r {
                    Ok(g) => {
                        &&& parsed is Some
                        &&& firsts(corners_of(parsed.unwrap())).len() <= MAX_UNIFIED_VERTICES
                        &&& g.path@ == path@
                        &&& geometry_matches(g, parsed.unwrap())
                        &&& geometry_wf(g)
                    },
                    Err(_) => parsed is None || firsts(corners_of(parsed.unwrap())).len()
                        > MAX_UNIFIED_VERTICES,
                }
            }),
    {
        let mut obj = OBJMesh::new();
        let ghost glines = spec_lines(source@);
        match obj.load_obj(source) {
            Ok(_) => {},
            Err(e) => {
                return Err(e);
            },
        }
        proof {
            lemma_empty_obj_wf();
            lemma_parse_rest_wf(empty_obj(), glines);
            assert(obj_wf(obj@));
        }
        match obj.as_buffers(path) {
            Some(g) => Ok(g),
            None => Err(
                RendError::new("mesh needs more unified vertices than 16-bit indices allow"),
            ),
        }
    }
}

impl OBJMesh {
    /// Solve this parsed mesh into final geometry under `path`: `None`
    /// exactly when the unified vertices outgrow the 16-bit index format.
    pub fn as_buffers(&self, path: &str) -> (r: Option<MeshGeometry>)
        requires
            obj_wf(self@),
        ensures
            ({
                match r {
                    Some(g) => {
                        &&& firsts(corners_of(self@)).len() <= MAX_UNIFIED_VERTICES
                        &&& g.path@ == path@
                        &&& geometry_matches(g, self@)
                        &&& geometry_wf(g)
                    },
                    None => firsts(corners_of(self@)).len() > MAX_UNIFIED_VERTICES,
                }
            }),
    {
        proof {
            assert forall|j: int| 0 <= j < self.triangles@.len() implies tri_wf(
                #[trigger] self.triangles@[j],
                self.vertices@.len() as int,
                self.uvs@.len() as int,
                self.normals@.len() as int,
                self.calculated@.len() as int,
            ) by {
                assert(tri_wf(
                    self@.tris[j],
                    self@.vs.len() as int,
                    self@.vts.len() as int,
                    self@.vns.len() as int,
                    self@.calc.len() as int,
                ));
            }
        }
        let (out_vp, out_uv, out_nm, out_faces) = solve_indices(
            &self.vertices,
            &self.uvs,
            &self.normals,
            &self.calculated,
            &self.triangles,
        );
        let ghost d = data_view(
            self.vertices@,
            self.uvs@,
            self.normals@,
            self.calculated@,
            self.triangles@,
        );
        proof {
            assert(d == self@);
        }
        if out_vp.len() > MAX_UNIFIED_VERTICES {
            return None;
        }
        proof {
            assert forall|j: int| 0 <= j < out_faces@.len() implies (#[trigger] out_faces@[j])
                < MAX_UNIFIED_VERTICES by {
                lemma_index_bounds(d, j);
                assert(out_faces@[j] == find_key(firsts(corners_of(d)), corners_of(d)[j].key));
            }
        }
        let faces16 = indices_to_u16(&out_faces);
        let g = MeshGeometry {
            path: String::from_str(path),
            faces: faces16,
            vertices: out_vp,
            uvs: out_uv,
            normals: out_nm,
        };
        proof {
            assert(g.faces@.map_values(|x: u16| x as usize) =~= out_faces@);
            assert forall|j: int| 0 <= j < g.faces@.len() implies (#[trigger] g.faces@[j])
                < g.vertices@.len() by {
                lemma_index_bounds(d, j);
            }
        }
        Some(g)
    }
}

/// Narrow solver indices to the 16-bit index format.
fn indices_to_u16(v: &Vec<usize>) -> (r: Vec<u16>)
    requires
        forall|j: int| 0 <= j < v@.len() ==> (#[trigger] v@[j]) <= 0xFFFF,
    ensures
        r@.len() == v@.len(),
        forall|j: int| 0 <= j < v@.len() ==> (#[trigger] r@[j]) as usize == v@[j],
{
    let mut out: Vec<u16> = Vec::new();
    let n = v.len();
    let mut i: usize = 0;
    while i < n
        invariant
            i <= n,
            n == v@.len(),
            forall|j: int| 0 <= j < v@.len() ==> (#[trigger] v@[j]) <= 0xFFFF,
            out@.len() == i,
            forall|j: int| 0 <= j < i ==> (#[trigger] out@[j]) as usize == v@[j],
        decreases n - i,
    {
        let x = v[i];
        out.push(x as u16);
        i += 1;
    }
    out
}

} // verus!
