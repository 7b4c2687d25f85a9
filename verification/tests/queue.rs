use rend_ox::descriptor::MeshDescriptor;
use rend_ox::engine::Engine;
use rend_ox::graphics::Graphics;
use rend_ox::material::MaterialDescriptor;

const SQUARE: &[u8] = b"v 0 0 0\nv 1 0 0\nv 1 1 0\nv 0 1 0\nf 1 2 3 4\n";

fn white() -> [u32; 3] {
    [1.0f32.to_bits(), 1.0f32.to_bits(), 1.0f32.to_bits()]
}

fn color(x: f32) -> [u32; 3] {
    [x.to_bits(), x.to_bits(), x.to_bits()]
}

fn transform(x: f32) -> [u32; 16] {
    [x.to_bits(); 16]
}

/// A registry with one loadable mesh and its ready-to-draw descriptor.
fn setup() -> (Graphics, MeshDescriptor) {
    let mut g = Graphics::new();
    let slot = g.load_mesh("m.obj", SQUARE).unwrap();
    let md = MeshDescriptor::new(slot, "m.obj", g.default_material_slot());
    (g, md)
}

#[test]
fn repeated_submissions_batch_into_one_entry() {
    let (mut g, md) = setup();
    g.queue.submit(&md, color(0.25), transform(1.0));
    g.queue.submit(&md, color(0.5), transform(2.0));
    assert_eq!(g.queue.entries.len(), 1);
    assert_eq!(g.queue.entries[0].colors, vec![color(0.25), color(0.5)]);
    assert_eq!(g.queue.entries[0].transforms, vec![transform(1.0), transform(2.0)]);
}

#[test]
fn parallel_arrays_stay_equal_length() {
    let (mut g, md) = setup();
    g.queue.submit(&md, color(0.1), transform(0.0));
    g.queue.submit_many(&md, vec![transform(1.0), transform(2.0)], vec![color(0.9)]);
    g.queue.submit(&md, color(0.2), transform(3.0));
    for e in &g.queue.entries {
        assert_eq!(e.colors.len(), e.transforms.len());
    }
}

#[test]
fn missing_colors_cycle_to_white() {
    // submit_many with three transforms and no colors yields three whites.
    let (mut g, md) = setup();
    g.queue.submit_many(&md, vec![transform(1.0), transform(2.0), transform(3.0)], vec![]);
    assert_eq!(g.queue.entries[0].colors, vec![white(), white(), white()]);
}

#[test]
fn short_color_lists_cycle_from_the_start() {
    let (mut g, md) = setup();
    let t = vec![transform(1.0), transform(2.0), transform(3.0)];
    g.queue.submit_many(&md, t, vec![color(0.1), color(0.2)]);
    assert_eq!(g.queue.entries[0].colors, vec![color(0.1), color(0.2), color(0.1)]);
}

#[test]
fn distinct_descriptors_get_distinct_entries() {
    let (mut g, md) = setup();
    let other = MeshDescriptor::new(md.idx, "m.obj", g.load_material(MaterialDescriptor::new()));
    g.queue.submit(&md, color(0.1), transform(1.0));
    g.queue.submit(&other, color(0.2), transform(2.0));
    g.queue.submit(&md, color(0.3), transform(3.0));
    assert_eq!(g.queue.entries.len(), 2);
    assert_eq!(g.queue.entries[0].colors.len(), 2);
    assert_eq!(g.queue.entries[1].colors.len(), 1);
}

#[test]
fn flush_groups_and_clears() {
    let (mut g, md) = setup();
    g.queue.submit(&md, color(0.1), transform(1.0));
    g.queue.submit(&md, color(0.2), transform(2.0));
    let batches = g.flush();
    assert_eq!(batches.len(), 1);
    assert_eq!(batches[0].mesh, md.idx);
    assert_eq!(batches[0].material, md.material);
    assert_eq!(batches[0].colors, vec![color(0.1), color(0.2)]);
    assert_eq!(batches[0].transforms, vec![transform(1.0), transform(2.0)]);
    // Flush consumes the frame: with no new submissions, a second flush
    // yields an empty batch sequence.
    assert!(g.queue.entries.is_empty());
    let again = g.flush();
    assert!(again.is_empty());
}

#[test]
fn unresolvable_entries_are_dropped_not_fatal() {
    let (mut g, md) = setup();
    // A pending (never materialized) material and an unknown mesh slot.
    let pending_mat = g.load_material(MaterialDescriptor::new());
    let ghost_mesh = MeshDescriptor::new(33, "nowhere.obj", g.default_material_slot());
    let unbuilt = MeshDescriptor::new(md.idx, "m.obj", pending_mat);
    g.queue.submit(&ghost_mesh, color(0.1), transform(1.0));
    g.queue.submit(&unbuilt, color(0.2), transform(2.0));
    g.queue.submit(&md, color(0.3), transform(3.0));
    let batches = g.flush();
    assert_eq!(batches.len(), 1);
    assert_eq!(batches[0].colors, vec![color(0.3)]);
    assert!(g.queue.entries.is_empty());
}

#[test]
fn engine_draw_uses_the_identity_transform() {
    let mut e = Engine::new();
    let slot = e.load_mesh("m.obj", SQUARE).unwrap();
    let md = MeshDescriptor::new(slot, "m.obj", 0);
    assert!(e.draw(&md, color(0.5)));
    let expected = glam::Mat4::IDENTITY.to_cols_array().map(f32::to_bits);
    assert_eq!(e.graphics.queue.entries[0].transforms[0], expected);
}

#[test]
fn engine_draw_at_composes_the_glam_transform() {
    let mut e = Engine::new();
    let slot = e.load_mesh("m.obj", SQUARE).unwrap();
    let md = MeshDescriptor::new(slot, "m.obj", 0);
    let pos = [1.0f32, 2.0, 3.0];
    let rot = [0.5f32, 0.25, 0.125];
    let scale = [2.0f32, 2.0, 2.0];
    assert!(e.draw_at(
        &md,
        color(1.0),
        pos.map(f32::to_bits),
        rot.map(f32::to_bits),
        scale.map(f32::to_bits),
    ));
    let quat = glam::Quat::from_euler(glam::EulerRot::XYZ, rot[0], rot[1], rot[2]);
    let expected = glam::Mat4::from_scale_rotation_translation(
        glam::Vec3::from_array(scale),
        quat,
        glam::Vec3::from_array(pos),
    )
    .to_cols_array()
    .map(f32::to_bits);
    assert_eq!(e.graphics.queue.entries[0].transforms[0], expected);
}

#[test]
fn busy_engine_refuses_operations_fail_soft() {
    let mut e = Engine::new();
    let slot = e.load_mesh("m.obj", SQUARE).unwrap();
    let md = MeshDescriptor::new(slot, "m.obj", 0);
    assert!(e.lock());
    // Reentrant attempts are refused without panicking and change nothing.
    assert!(!e.lock());
    assert!(!e.draw(&md, color(0.5)));
    assert!(!e.draw_instances(&md, vec![transform(1.0)], vec![]));
    assert!(e.load_mesh("other.obj", SQUARE).is_err());
    assert!(e.load_shader("fs.wgsl", Some(String::from("x"))).is_err());
    assert!(e.load_material(MaterialDescriptor::new()).is_err());
    let mut md2 = MeshDescriptor::new(slot, "m.obj", 0);
    assert!(!e.bind_material_to_mesh(&mut md2, &0));
    assert!(e.graphics.queue.entries.is_empty());
    assert_eq!(e.graphics.meshes.len(), 1);
    e.unlock();
    assert!(e.draw(&md, color(0.5)));
    assert_eq!(e.graphics.queue.entries.len(), 1);
}
