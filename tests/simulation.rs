use slime_sim::driver::{InputEvent, KeyState, Pass, State, QUAD_INDEX_COUNT};
use slime_sim::grid::{square_grid_for, APPROXIMATE_NUM_AGENTS, MAX_SIDE, MAX_TARGET};
use slime_sim::pipeline::{Access, ComputePipeline, Pipelines, Resource};
use slime_sim::storage::{quad_indices, Agent, Buffer, Globals, Storable, Uniform};
use slime_sim::timing::Timing;

#[test]
fn grid_for_default_target() {
    assert_eq!(APPROXIMATE_NUM_AGENTS, 600000);
    assert_eq!(square_grid_for(600000), (775, 600625));
}

#[test]
fn grid_for_small_targets() {
    assert_eq!(square_grid_for(0), (0, 0));
    assert_eq!(square_grid_for(1), (1, 1));
    assert_eq!(square_grid_for(2), (2, 4));
    assert_eq!(square_grid_for(4), (2, 4));
    assert_eq!(square_grid_for(5), (3, 9));
}

#[test]
fn grid_for_largest_target() {
    assert_eq!(square_grid_for(MAX_TARGET), (MAX_SIDE, MAX_TARGET));
    assert_eq!(square_grid_for(MAX_TARGET - 1), (MAX_SIDE, MAX_TARGET));
}

#[test]
fn timing_starts_without_step() {
    let t = Timing::new(1_000);
    assert_eq!(t.dt(), 0);
    assert_eq!(t.elapsed(), 0);
    assert_eq!(t.frame, 0);
}

#[test]
fn timing_advances() {
    let mut t = Timing::new(1_000);
    t.advance_time(1_500);
    assert_eq!(t.dt(), 0);
    assert_eq!(t.elapsed(), 0);
    assert_eq!(t.time, 1_500);
    assert_eq!(t.frame, 1);
    t.advance_time(4_000);
    assert_eq!(t.dt(), 2_500);
    assert_eq!(t.elapsed(), 2_500);
    assert_eq!(t.frame, 2);
    t.advance_time(4_100);
    assert_eq!(t.dt(), 100);
    assert_eq!(t.elapsed(), 2_600);
    assert_eq!(t.frame, 3);
}

#[test]
fn first_frame_after_long_setup_has_no_step() {
    let mut t = Timing::new(0);
    t.advance_time(5_000_000_000);
    assert_eq!(t.dt(), 0);
    assert_eq!(t.elapsed(), 0);
    assert_eq!(t.start_time, 5_000_000_000);
}

#[test]
fn timing_never_runs_backwards() {
    let mut t = Timing::new(1_000);
    t.advance_time(2_000);
    t.advance_time(1_200);
    assert_eq!(t.time, 2_000);
    assert_eq!(t.dt(), 0);
    assert_eq!(t.frame, 2);
}

#[test]
fn globals_wire_form() {
    let g = Globals { dt_bits: 0x3c88_8889, time_bits: 0x4120_0000, work_group_size: 775 };
    let bytes = Uniform(&g).into_bytes();
    assert_eq!(
        bytes,
        vec![0x89, 0x88, 0x88, 0x3c, 0x00, 0x00, 0x20, 0x41, 0x07, 0x03, 0x00, 0x00]
    );
}

#[test]
fn agent_array_wire_form() {
    let agents = vec![
        Agent { position: (1, 2), velocity: (3, 0x0102_0304) },
        Agent { position: (0xffff_ffff, 0), velocity: (0, 256) },
    ];
    let bytes = Buffer(&agents[..]).into_bytes();
    assert_eq!(bytes.len(), 8 + 2 * 16);
    assert_eq!(&bytes[0..8], &[2, 0, 0, 0, 0, 0, 0, 0]);
    assert_eq!(&bytes[8..24], &[1, 0, 0, 0, 2, 0, 0, 0, 3, 0, 0, 0, 4, 3, 2, 1]);
    assert_eq!(&bytes[24..40], &[255, 255, 255, 255, 0, 0, 0, 0, 0, 0, 0, 0, 0, 1, 0, 0]);
}

#[test]
fn empty_agent_array_wire_form() {
    let agents: Vec<Agent> = Vec::new();
    assert_eq!(Buffer(&agents[..]).into_bytes(), vec![0, 0, 0, 0, 0, 0, 0, 0]);
}

#[test]
fn quad_has_two_triangles() {
    assert_eq!(quad_indices(), vec![0, 1, 2, 2, 3, 0]);
    assert_eq!(QUAD_INDEX_COUNT as usize, quad_indices().len());
}

#[test]
fn pass_layouts() {
    let d = ComputePipeline::diffuse();
    let slots: Vec<(u32, Resource, Access)> =
        d.bindings.iter().map(|b| (b.slot, b.resource, b.access)).collect();
    assert_eq!(
        slots,
        vec![(0, Resource::Globals, Access::Uniform), (2, Resource::TrailSurface, Access::TextureReadWrite)]
    );
    let p = Pipelines::new();
    let slots: Vec<(u32, Resource, Access)> =
        p.simulation.bindings.iter().map(|b| (b.slot, b.resource, b.access)).collect();
    assert_eq!(
        slots,
        vec![
            (0, Resource::Globals, Access::Uniform),
            (1, Resource::Agents, Access::StorageReadWrite),
            (2, Resource::TrailSurface, Access::TextureReadWrite),
        ]
    );
}

#[test]
fn new_state_for_default_target() {
    let s = State::new(800, 600, APPROXIMATE_NUM_AGENTS, 42);
    assert_eq!(s.agent_count, 600625);
    assert_eq!(s.globals.work_groups, (775, 775, 1));
    assert_eq!(s.size(), (800, 600));
    assert!(s.overlay_enabled);
    assert_eq!(s.globals.timing.dt(), 0);
}

#[test]
fn init_twice_gives_same_layout() {
    let a = State::new(1024, 768, 1000, 1);
    let b = State::new(1024, 768, 1000, 99);
    assert_eq!(a.agent_count, b.agent_count);
    assert_eq!(a.globals.work_groups, b.globals.work_groups);
    let agents_a = vec![Agent { position: (1, 1), velocity: (1, 1) }; a.agent_count as usize];
    let agents_b = vec![Agent { position: (7, 8), velocity: (9, 10) }; b.agent_count as usize];
    let bytes_a = Buffer(&agents_a[..]).into_bytes();
    let bytes_b = Buffer(&agents_b[..]).into_bytes();
    assert_eq!(bytes_a.len(), bytes_b.len());
    assert_eq!(bytes_a.len(), 8 + 16 * 1024);
    assert_eq!(&bytes_a[0..8], &bytes_b[0..8]);
}

#[test]
fn frame_plan_with_overlay() {
    let mut s = State::new(640, 480, 10, 0);
    let plan = s.render(16_000_000);
    assert_eq!(
        plan,
        vec![
            Pass::UploadGlobals,
            Pass::Decay { x: 640, y: 480, z: 1 },
            Pass::Agents { x: 4, y: 4, z: 1 },
            Pass::Composite { index_count: 6 },
            Pass::Overlay,
            Pass::Present,
        ]
    );
    assert_eq!(s.globals.timing.dt(), 0);
    assert_eq!(s.globals.timing.frame, 1);
    s.render(32_000_000);
    assert_eq!(s.globals.timing.dt(), 16_000_000);
    assert_eq!(s.globals.timing.elapsed(), 16_000_000);
    assert_eq!(s.globals.timing.frame, 2);
}

#[test]
fn frame_plan_dispatch_matches_agents() {
    let mut s = State::new(640, 480, APPROXIMATE_NUM_AGENTS, 0);
    let plan = s.render(1);
    match plan[2] {
        Pass::Agents { x, y, z } => assert_eq!(x * y * z, s.agent_count),
        other => panic!("unexpected pass {:?}", other),
    }
}

#[test]
fn toggle_key_flips_overlay_only() {
    let mut s = State::new(640, 480, 10, 0);
    s.render(100);
    let timing = s.globals.timing;
    assert!(s.input(InputEvent::ToggleKey(KeyState::Released), false));
    assert!(!s.overlay_enabled);
    assert_eq!(s.globals.timing, timing);
    assert_eq!(s.agent_count, 16);
    let plan = s.render(200);
    assert_eq!(plan.len(), 5);
    assert!(!plan.contains(&Pass::Overlay));
    assert_eq!(plan[4], Pass::Present);
    assert!(s.input(InputEvent::ToggleKey(KeyState::Released), false));
    assert!(s.overlay_enabled);
}

#[test]
fn other_input_keeps_overlay() {
    let mut s = State::new(640, 480, 10, 0);
    assert!(!s.input(InputEvent::ToggleKey(KeyState::Pressed), false));
    assert!(s.input(InputEvent::Other, true));
    assert!(!s.input(InputEvent::Other, false));
    assert!(s.overlay_enabled);
}

#[test]
fn resize_sets_trail_size() {
    let mut s = State::new(640, 480, 10, 0);
    s.resize(1920, 1080);
    assert_eq!(s.size(), (1920, 1080));
    assert_eq!(s.agent_count, 16);
    let plan = s.render(5);
    assert_eq!(plan[1], Pass::Decay { x: 1920, y: 1080, z: 1 });
}

#[test]
fn resize_ignores_unusable_sizes() {
    let mut s = State::new(640, 480, 10, 0);
    s.resize(0, 1080);
    assert_eq!(s.size(), (640, 480));
    s.resize(1920, 0);
    assert_eq!(s.size(), (640, 480));
    s.resize(u32::MAX, 10);
    assert_eq!(s.size(), (640, 480));
}

#[test]
fn update_changes_nothing() {
    let mut s = State::new(640, 480, 10, 0);
    s.update();
    assert_eq!(s.size(), (640, 480));
    assert_eq!(s.globals.timing.frame, 0);
}

#[test]
fn wire_globals_carry_grid_side() {
    let s = State::new(640, 480, APPROXIMATE_NUM_AGENTS, 0);
    let g = s.wire_globals(0x3f80_0000, 0x4000_0000);
    assert_eq!(g, Globals { dt_bits: 0x3f80_0000, time_bits: 0x4000_0000, work_group_size: 775 });
}
