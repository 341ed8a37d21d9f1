use zero::camera::{CameraMovement, KeyInput};
use zero::egui::{buffer_slices, egui_commands, grown_buffer_size, total_count, EguiPrimitive, ScissorRect};
use zero::render::pipeline::foo;
use zero::render::renderer::{resized_surface, SurfaceSize};
use zero::render::storage::{RenderStorage, ResourceId};
use zero::render::system::RenderSystem;
use zero::texture::{
    rgba_bytes_per_row, texture_extent, EmptyTexture, ImageFormat, TargetFormat, TextureExtent,
    TextureType,
};
use zero::shapes::circle_indices;
use zero::texture_buffer::TextureBuffer;

#[test]
fn circle_indices_fan_around_centre() {
    assert_eq!(circle_indices(1), vec![0, 1, 1]);
    assert_eq!(circle_indices(3), vec![0, 2, 1, 0, 3, 2, 0, 1, 3]);
    let indices = circle_indices(16);
    assert_eq!(indices.len(), 48);
    assert!(indices.iter().all(|&i| i <= 16));
    assert!(indices.chunks(3).all(|t| t[0] == 0));
}

#[test]
fn egui_slices_are_contiguous() {
    let counts = vec![3, 0, 5];
    assert_eq!(total_count(&counts), 8);
    let slices = buffer_slices(&counts, 4);
    assert_eq!(slices, vec![0..12, 12..12, 12..32]);
    assert!(buffer_slices(&vec![], 20).is_empty());
    assert_eq!(total_count(&vec![]), 0);
}

#[test]
fn egui_buffer_grows_to_fit() {
    assert_eq!(grown_buffer_size(100, 150), 200);
    assert_eq!(grown_buffer_size(100, 250), 250);
    assert_eq!(grown_buffer_size(100, 100), 100);
    assert_eq!(grown_buffer_size(100, 40), 100);
    assert_eq!(grown_buffer_size(0, 8), 8);
}

#[test]
fn scissor_rect_is_clamped_to_target() {
    let inside = ScissorRect::new(10, 20, 30, 60, 100, 100);
    assert_eq!((inside.x, inside.y, inside.width, inside.height), (10, 20, 20, 40));
    let overhanging = ScissorRect::new(90, 95, 150, 200, 100, 100);
    assert_eq!((overhanging.x, overhanging.y, overhanging.width, overhanging.height), (90, 95, 10, 5));
    let outside = ScissorRect::new(120, 10, 130, 20, 100, 100);
    assert_eq!((outside.x, outside.width), (100, 0));
    let inverted = ScissorRect::new(50, 50, 10, 10, 100, 100);
    assert_eq!((inverted.width, inverted.height), (0, 0));
}

#[test]
fn camera_keys_set_and_clear_axes() {
    let mut movement = CameraMovement::new();
    assert!(movement.process_key(KeyInput::Character('w'), true));
    assert!(movement.process_key(KeyInput::Character('D'), true));
    assert!(movement.process_key(KeyInput::Shift, true));
    assert_eq!(movement.axes(), (1, 1, -1));
    assert!(movement.process_key(KeyInput::Character('S'), true));
    assert!(movement.process_key(KeyInput::Space, true));
    assert_eq!(movement.axes(), (0, 1, 0));
    assert!(movement.process_key(KeyInput::Character('w'), false));
    assert_eq!(movement.axes(), (-1, 1, 0));
    assert!(!movement.process_key(KeyInput::Character('q'), true));
    assert!(!movement.process_key(KeyInput::Other, true));
    assert_eq!(movement.axes(), (-1, 1, 0));
    assert!(movement.process_key(KeyInput::Character('a'), true));
    assert_eq!(movement.axes(), (-1, 0, 0));
    assert_eq!(CameraMovement::default(), CameraMovement::new());
}

#[test]
fn resize_ignores_empty_sizes() {
    let current = SurfaceSize { width: 800, height: 600 };
    let bigger = SurfaceSize { width: 1024, height: 768 };
    assert_eq!(resized_surface(current, Some(bigger)), bigger);
    assert_eq!(resized_surface(current, Some(SurfaceSize { width: 0, height: 768 })), current);
    assert_eq!(resized_surface(current, Some(SurfaceSize { width: 10, height: 0 })), current);
    assert_eq!(resized_surface(current, None), current);
}

#[test]
fn texture_buffer_size_counts_rgba_bytes() {
    assert_eq!(TextureBuffer::buffer_size(800, 600), 1_920_000);
    assert_eq!(TextureBuffer::buffer_size(0, 600), 0);
}

#[test]
fn empty_storage_has_no_layouts() {
    let storage = RenderStorage::default();
    assert!(!storage.contains_bind_group_layout("zero::material::MaterialBindGroup"));
    let fresh = RenderStorage::new();
    assert!(!fresh.contains_bind_group_layout(""));
}

#[test]
fn window_view_id_differs_from_slots() {
    assert_ne!(ResourceId::Slot(usize::MAX), ResourceId::WINDOW_VIEW_ID);
    assert_ne!(ResourceId::Slot(0), ResourceId::Slot(1));
    foo();
}

#[test]
fn empty_storage_holds_no_resources() {
    let storage = RenderStorage::new();
    assert!(!storage.contains_buffer(ResourceId::Slot(0)));
    assert!(!storage.contains_texture(ResourceId::Slot(0)));
    assert!(!storage.contains_mesh(ResourceId::Slot(0)));
    assert!(!storage.contains_bind_group(ResourceId::Slot(0)));
    assert!(!storage.contains_pipeline(ResourceId::Slot(0)));
    assert!(!storage.contains_texture(ResourceId::WINDOW_VIEW_ID));
}

#[test]
fn texture_extent_falls_back_to_surface() {
    let surface = SurfaceSize { width: 800, height: 600 };
    assert_eq!(
        texture_extent(Some((64, 32)), surface, 1),
        TextureExtent { width: 64, height: 32, layers: 1 }
    );
    assert_eq!(
        texture_extent(None, surface, 6),
        TextureExtent { width: 800, height: 600, layers: 6 }
    );
    assert_eq!(rgba_bytes_per_row(256), 1024);
    assert_eq!(rgba_bytes_per_row(0), 0);
}

#[test]
fn image_formats_follow_texture_type() {
    assert_eq!(TextureType::Diffuse.format(), ImageFormat::Rgba8UnormSrgb);
    assert_eq!(TextureType::Normal.format(), ImageFormat::Rgba8Unorm);
}

fn rect(width: u32, height: u32) -> ScissorRect {
    ScissorRect { x: 1, y: 2, width, height }
}

#[test]
fn egui_commands_skip_callbacks_and_empty_clips() {
    let pipeline = ResourceId::Slot(7);
    let mesh = ResourceId::Slot(3);
    let uniform = ResourceId::Slot(0);
    let primitives = vec![
        EguiPrimitive::Mesh { texture_bind_group: Some(ResourceId::Slot(1)), scissor: rect(10, 20) },
        EguiPrimitive::Callback,
        EguiPrimitive::Mesh { texture_bind_group: Some(ResourceId::Slot(2)), scissor: rect(0, 20) },
        EguiPrimitive::Mesh { texture_bind_group: Some(ResourceId::Slot(2)), scissor: rect(5, 6) },
        EguiPrimitive::Mesh { texture_bind_group: None, scissor: rect(5, 6) },
    ];
    let index_slices = vec![0..12, 12..12, 12..24, 24..36];
    let vertex_slices = vec![0..40, 40..40, 40..80, 80..120];
    let commands = egui_commands(pipeline, mesh, uniform, &primitives, &index_slices, &vertex_slices);
    assert_eq!(commands.len(), 2);
    assert_eq!(commands[0].pipeline_id, pipeline);
    assert_eq!(commands[0].mesh_id, mesh);
    assert_eq!(commands[0].index_slice, Some(0..12));
    assert_eq!(commands[0].vertex_slice, Some(0..40));
    assert_eq!(commands[0].scissor_rect, Some([1, 2, 10, 20]));
    assert_eq!(commands[0].bind_groups.as_slice(), &[uniform, ResourceId::Slot(1)]);
    assert_eq!(commands[1].index_slice, Some(24..36));
    assert_eq!(commands[1].vertex_slice, Some(80..120));
    assert_eq!(commands[1].scissor_rect, Some([1, 2, 5, 6]));
    assert_eq!(commands[1].bind_groups.as_slice(), &[uniform, ResourceId::Slot(2)]);
    assert!(egui_commands(pipeline, mesh, uniform, &primitives, &vec![], &vertex_slices).is_empty());
}

#[test]
fn render_phases_run_in_order_and_clear() {
    let mut system: RenderSystem<&str, u32> = RenderSystem::new();
    assert!(!system.contains_phase("shadow"));
    system.add_phase(String::from("shadow"), "shadow targets", vec![1]);
    system.add_phase(String::from("main"), "main targets", vec![]);
    assert!(system.contains_phase("main"));
    system.add_phase_commands("main", vec![2, 3]);
    system.add_phase_commands("main", vec![4]);
    assert_eq!(system.run_order(), &[0, 1]);
    assert_eq!(system.phase_name(1), "main");
    assert_eq!(*system.phase(1), "main targets");
    assert_eq!(system.phase_commands(1), &[2, 3, 4]);
    let order = system.run_order().to_vec();
    for k in order {
        system.clear_commands(k);
    }
    assert!(system.phase_commands(0).is_empty());
    assert!(system.phase_commands(1).is_empty());
    system.add_phase(String::from("shadow"), "new shadow targets", vec![9]);
    assert_eq!(system.run_order(), &[0, 1, 0]);
    assert_eq!(*system.phase(0), "new shadow targets");
    assert_eq!(system.phase_commands(0), &[9]);
}

#[test]
fn depth_target_uses_depth_format() {
    let depth = EmptyTexture::new_depth();
    assert!(matches!(depth.format, TargetFormat::Depth32Float));
    assert_eq!(depth.dimensions, None);
    assert!(depth.filtered);
}
