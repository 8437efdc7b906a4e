use gem::frame::{viewport_rect, FrameEvent, LoopState, WindowEvent};
use gem::mesh::{triangulate_face, Group, IndexTuple, ObjModel, Object};
use gem::swapchain::{
    frames_in_flight, select_surface_color_format, ChannelType, Format, FrameIndices,
    RGBA8_SRGB_ID,
};

fn format(id: u32, channel_type: ChannelType) -> Format {
    Format { id, channel_type }
}

#[test]
fn no_format_list_gives_rgba8_srgb() {
    let chosen = select_surface_color_format(None);
    assert_eq!(chosen, Format { id: RGBA8_SRGB_ID, channel_type: ChannelType::Srgb });
    assert_eq!(chosen.id, 43);
}

#[test]
fn first_srgb_format_is_chosen() {
    let formats = vec![
        format(44, ChannelType::Unorm),
        format(50, ChannelType::Srgb),
        format(43, ChannelType::Srgb),
    ];
    assert_eq!(select_surface_color_format(Some(formats)), format(50, ChannelType::Srgb));
}

#[test]
fn first_format_is_chosen_without_srgb() {
    let formats = vec![format(44, ChannelType::Unorm), format(37, ChannelType::Unorm)];
    assert_eq!(select_surface_color_format(Some(formats)), format(44, ChannelType::Unorm));
}

#[test]
fn frames_in_flight_is_one_without_images() {
    assert_eq!(frames_in_flight(0), 1);
    assert_eq!(frames_in_flight(3), 3);
}

#[test]
fn semaphore_index_cycles_through_all_semaphores() {
    let mut indices = FrameIndices::new();
    let mut seen = Vec::new();
    for _ in 0..6 {
        indices.increment_current_semaphores_index(3);
        seen.push(indices.current_index);
    }
    assert_eq!(seen, vec![1, 2, 0, 1, 2, 0]);
    assert_eq!(indices.last_index, 0);
}

#[test]
fn semaphore_index_stays_zero_without_semaphores() {
    let mut indices = FrameIndices { current_index: 0, last_index: 5 };
    indices.increment_current_semaphores_index(0);
    assert_eq!(indices.current_index, 0);
    indices.increment_current_semaphores_index(1);
    assert_eq!(indices.current_index, 0);
    assert_eq!(indices.last_index, 5);
}

#[test]
fn viewport_rect_covers_the_extent() {
    let rect = viewport_rect(1920, 1080);
    assert_eq!((rect.x, rect.y, rect.w, rect.h), (0, 0, 1920, 1080));
    let wrapped = viewport_rect(40000, 65536);
    assert_eq!((wrapped.w, wrapped.h), (40000u32 as i16, 0));
}

#[test]
fn escape_and_close_stop_the_loop() {
    let state = LoopState::new();
    assert!(state.running && !state.rebuild_swapchain);
    let stopped = state.handle_window_event(WindowEvent::EscapePressed);
    assert!(!stopped.running);
    assert!(!state.handle_window_event(WindowEvent::CloseRequested).running);
    let still = stopped.handle_window_event(WindowEvent::Resized);
    assert!(!still.running && still.rebuild_swapchain);
    assert_eq!(state.handle_window_event(WindowEvent::Other), state);
}

#[test]
fn failed_frames_ask_for_a_new_swapchain() {
    let state = LoopState::new();
    assert!(state.after_frame(FrameEvent::AcquireFailed).rebuild_swapchain);
    assert!(state.after_frame(FrameEvent::PresentFailed).rebuild_swapchain);
    assert!(state.after_frame(FrameEvent::NoSwapchain).rebuild_swapchain);
    assert!(!state.after_frame(FrameEvent::Presented).rebuild_swapchain);
}

#[test]
fn rebuild_happens_once_per_request() {
    let mut state = LoopState::new().handle_window_event(WindowEvent::Resized);
    assert!(state.try_rebuild_swapchain());
    assert!(!state.rebuild_swapchain);
    assert!(!state.try_rebuild_swapchain());
    assert!(state.running);
}

#[test]
fn triangles_of_small_polygons() {
    assert_eq!(triangulate_face(&vec![0, 1, 2]), vec![0, 1, 2]);
    assert_eq!(triangulate_face(&vec![0, 1, 2, 3]), vec![0, 1, 2, 0, 2, 3]);
    assert_eq!(triangulate_face(&vec![0, 1, 2, 3, 4]), vec![0, 1, 2, 0, 2, 4, 2, 4, 3]);
}

fn corner(p: usize, t: usize, n: usize) -> IndexTuple {
    IndexTuple(p, Some(t), Some(n))
}

#[test]
fn build_vertices_looks_up_and_splits_polygons() {
    let model = ObjModel {
        position: vec![10, 11, 12, 13],
        texture: vec![20, 21],
        normal: vec![30, 31],
        objects: vec![
            Object {
                groups: vec![Group {
                    polys: vec![
                        vec![corner(0, 0, 0), corner(1, 1, 1), corner(2, 0, 1)],
                        vec![corner(0, 1, 0), corner(1, 1, 0), corner(2, 1, 0), corner(3, 0, 1)],
                    ],
                }],
            },
            Object { groups: vec![Group { polys: vec![] }] },
        ],
    };
    let vertices = model.build_vertices();
    assert_eq!(vertices.len(), 9);
    let positions: Vec<i32> = vertices.iter().map(|v| v.position).collect();
    assert_eq!(positions, vec![10, 11, 12, 10, 11, 12, 10, 12, 13]);
    let normals: Vec<i32> = vertices.iter().map(|v| v.normal).collect();
    assert_eq!(normals, vec![30, 31, 31, 30, 30, 30, 30, 30, 31]);
    assert!(vertices.iter().all(|v| v.tangent == v.normal));
    let textures: Vec<i32> = vertices.iter().map(|v| v.texture).collect();
    assert_eq!(textures, vec![20, 21, 20, 21, 21, 21, 21, 21, 20]);
}

#[test]
fn face_vertices_keep_corner_order() {
    let model: ObjModel<u8, u8, u8> = ObjModel {
        position: vec![1, 2, 3],
        texture: vec![4],
        normal: vec![5, 6],
        objects: vec![],
    };
    let face = model.face_vertices(&vec![corner(2, 0, 1), corner(0, 0, 0)]);
    assert_eq!(face.len(), 2);
    assert_eq!((face[0].position, face[0].normal, face[0].texture), (3, 6, 4));
    assert_eq!((face[1].position, face[1].normal, face[1].texture), (1, 5, 4));
    assert!(model.build_vertices().is_empty());
}
