use rend_ox::graphics::Graphics;
use rend_ox::graphics::MaterialState;
use rend_ox::material::MaterialDescriptor;

const SQUARE: &[u8] = b"v 0 0 0\nv 1 0 0\nv 1 1 0\nv 0 1 0\nf 1 2 3 4\n";

#[test]
fn load_mesh_twice_returns_the_same_slot() {
    let mut g = Graphics::new();
    let s1 = g.load_mesh("meshes/cube.obj", SQUARE).unwrap();
    let s2 = g.load_mesh("meshes/cube.obj", SQUARE).unwrap();
    assert_eq!(s1, s2);
    assert_eq!(g.meshes.len(), 1);
}

#[test]
fn second_load_is_a_cache_hit_without_reparsing() {
    // The second call hands in garbage source; it still succeeds with the
    // same slot, so the parser cannot have run again.
    let mut g = Graphics::new();
    let s1 = g.load_mesh("meshes/cube.obj", SQUARE).unwrap();
    let s2 = g.load_mesh("meshes/cube.obj", b"not geometry at all").unwrap();
    assert_eq!(s1, s2);
}

#[test]
fn failed_mesh_load_allocates_no_slot() {
    let mut g = Graphics::new();
    assert!(g.load_mesh("bad.obj", b"f 1 2 5\n").is_err());
    assert_eq!(g.meshes.len(), 0);
    // The next successful load takes the first slot.
    let s = g.load_mesh("good.obj", SQUARE).unwrap();
    assert_eq!(s, 0);
}

#[test]
fn distinct_paths_get_distinct_slots() {
    let mut g = Graphics::new();
    let a = g.load_mesh("a.obj", SQUARE).unwrap();
    let b = g.load_mesh("b.obj", SQUARE).unwrap();
    assert_ne!(a, b);
    assert_eq!(g.meshes.len(), 2);
}

#[test]
fn shader_loads_pending_and_materializes_once() {
    let mut g = Graphics::new();
    let slot = g.load_shader("fs.wgsl", Some(String::from("fragment text"))).unwrap();
    assert_eq!(slot, 1); // slot 0 is the built-in default shader
    let plan = g.shader_refresh_plan();
    assert_eq!(plan.len(), 1);
    assert_eq!(plan[0].0, slot);
    assert_eq!(plan[0].1, "fragment text");
    g.apply_shader_build(slot, Some(7));
    // The slot is materialized now: the next plan is empty, and a second
    // apply changes nothing.
    assert!(g.shader_refresh_plan().is_empty());
    g.apply_shader_build(slot, Some(99));
    assert!(g.shader_refresh_plan().is_empty());
}

#[test]
fn shader_cache_hit_keeps_the_slot() {
    let mut g = Graphics::new();
    let s1 = g.load_shader("fs.wgsl", Some(String::from("a"))).unwrap();
    let s2 = g.load_shader("fs.wgsl", None).unwrap();
    assert_eq!(s1, s2);
}

#[test]
fn unreadable_shader_source_is_an_error() {
    let mut g = Graphics::new();
    assert!(g.load_shader("missing.wgsl", None).is_err());
    assert_eq!(g.shaders.len(), 1);
}

#[test]
fn material_load_always_succeeds_and_defers_building() {
    let mut g = Graphics::new();
    let slot = g.load_material(MaterialDescriptor::new());
    assert_eq!(slot, 1); // slot 0 is the default material
    assert_eq!(g.material_refresh_plan(), vec![slot]);
    // Build succeeds against a known shader slot.
    g.apply_material_build(slot, Some(0), 42, true);
    let res = g.material_resource(slot).unwrap();
    assert_eq!(res.shader, 0);
    assert_eq!(res.handle, 42);
    assert!(g.material_refresh_plan().is_empty());
}

#[test]
fn unknown_shader_falls_back_to_the_default_slot() {
    let mut g = Graphics::new();
    let slot = g.load_material(MaterialDescriptor::new());
    g.apply_material_build(slot, Some(500), 1, true);
    assert_eq!(g.material_resource(slot).unwrap().shader, 0);
}

#[test]
fn failed_material_build_leaves_the_slot_unusable() {
    let mut g = Graphics::new();
    let slot = g.load_material(MaterialDescriptor::new());
    g.apply_material_build(slot, None, 0, false);
    assert!(g.material_resource(slot).is_none());
    match g.materials[slot].state {
        MaterialState::Failed => {}
        _ => panic!("expected a failed slot"),
    }
    // Failure is final: a later successful-looking apply is ignored.
    g.apply_material_build(slot, Some(0), 9, true);
    assert!(g.material_resource(slot).is_none());
}

#[test]
fn bind_material_rebinds_only_known_slots() {
    let mut g = Graphics::new();
    let mesh = g.load_mesh("m.obj", SQUARE).unwrap();
    let mut md = rend_ox::descriptor::MeshDescriptor::new(mesh, "m.obj", g.default_material_slot());
    let mat = g.load_material(MaterialDescriptor::new());
    assert!(g.bind_material_to_mesh(&mut md, &mat));
    assert_eq!(md.material, mat);
    assert!(!g.bind_material_to_mesh(&mut md, &77));
    assert_eq!(md.material, mat);
}

#[test]
fn default_slots_exist_from_the_start() {
    let g = Graphics::new();
    assert_eq!(g.default_material_slot(), 0);
    assert!(g.material_resource(0).is_some());
    assert_eq!(g.shaders.len(), 1);
}
