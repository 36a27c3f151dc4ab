use determinism_harness::hasher::hash_poses;
use determinism_harness::pose::Pose;
use determinism_harness::scene::build_scene;
use determinism_harness::step::Harness;
use determinism_harness::STEP_COUNT;

/// Order-preserving integer key for a 32-bit float's bit pattern.
fn x_key_of(x: f32) -> u64 {
    let bits = x.to_bits();
    if bits & 0x8000_0000 != 0 {
        (!bits) as u64
    } else {
        (bits | 0x8000_0000) as u64
    }
}

fn pose_at(x: f32, y: f32) -> Pose {
    Pose {
        x_key: x_key_of(x),
        tx: x.to_bits(),
        ty: y.to_bits(),
        tz: 0.0f32.to_bits(),
        rx: 0.0f32.to_bits(),
        ry: 0.0f32.to_bits(),
        rz: 0.0f32.to_bits(),
        rw: 1.0f32.to_bits(),
    }
}

#[test]
fn fresh_harness_starts_at_step_zero_without_a_hash() {
    let h = Harness::new();
    assert_eq!(h.step, 0);
    assert!(h.hash.is_none());
}

#[test]
fn tick_displays_the_pre_increment_step() {
    let mut h = Harness::new();
    let poses = vec![pose_at(1.0, 2.0)];
    assert_eq!(h.tick(&poses), 0);
    assert_eq!(h.tick(&poses), 1);
    assert_eq!(h.step, 2);
    assert!(h.hash.is_some());
}

#[test]
fn hash_freezes_at_the_horizon_boundary() {
    let poses_a = vec![pose_at(1.0, 2.0)];
    let poses_b = vec![pose_at(-3.5, 0.25)];
    let mut h = Harness {
        step: STEP_COUNT - 1,
        hash: None,
    };
    // Step 499 -> 500: still inside the window, the hash is recomputed.
    h.tick(&poses_a);
    assert_eq!(h.step, STEP_COUNT);
    let at_horizon = h.hash;
    assert!(at_horizon.is_some());
    // Step 500 -> 501: past the horizon, the hash must not change,
    // whatever poses arrive.
    h.tick(&poses_b);
    assert_eq!(h.step, STEP_COUNT + 1);
    assert_eq!(h.hash, at_horizon);
    // And it stays frozen on later ticks.
    h.tick(&poses_a);
    assert_eq!(h.hash, at_horizon);
}

#[test]
fn reset_restarts_the_counter_and_replays_like_a_fresh_run() {
    // Pose sets standing in for the engine's output at each tick.
    let tick_poses = vec![
        vec![pose_at(0.5, 1.0), pose_at(-0.5, 1.0)],
        vec![pose_at(0.625, 0.875), pose_at(-0.375, 1.125)],
        vec![pose_at(0.75, 0.8125), pose_at(-0.25, 1.25)],
    ];

    let mut fresh = Harness::new();
    let mut fresh_hashes = Vec::new();
    for poses in &tick_poses {
        fresh.tick(poses);
        fresh_hashes.push(fresh.hash);
    }

    // A second harness runs a while, is reset, and replays the same ticks.
    let mut other = Harness::new();
    other.tick(&tick_poses[2]);
    other.tick(&tick_poses[0]);
    other.reset();
    assert_eq!(other.step, 0);
    let mut replay_hashes = Vec::new();
    for poses in &tick_poses {
        other.tick(poses);
        replay_hashes.push(other.hash);
    }
    assert_eq!(fresh_hashes, replay_hashes);
}

#[test]
fn initial_layout_fingerprint_is_stable() {
    // The canonical creation order; any other order gives the same poses.
    let bodies = build_scene(&vec![0u32, 1, 2, 3]);
    let poses: Vec<Pose> = bodies
        .iter()
        .map(|b| pose_at(b.x_tenths as f32, b.y_tenths as f32))
        .collect();
    let h = hash_poses(&poses);
    assert_eq!(h, 0x74c8_68f0);
}

#[test]
fn tied_x_coordinates_leave_the_fingerprint_order_dependent() {
    // The initial grid holds tied x-coordinates (column 0 row 25 and
    // column 1 row 0 share x, among others). The sort key carries no
    // tie-break, so with ties the fingerprint may depend on creation
    // order -- a documented gap of the sort-by-x design. The geometry
    // itself is still identical (see the scene tests).
    let one: Vec<Pose> = build_scene(&vec![0u32, 1, 2, 3])
        .iter()
        .map(|b| pose_at(b.x_tenths as f32, b.y_tenths as f32))
        .collect();
    let two: Vec<Pose> = build_scene(&vec![1u32, 3, 0, 2])
        .iter()
        .map(|b| pose_at(b.x_tenths as f32, b.y_tenths as f32))
        .collect();
    assert_ne!(hash_poses(&one), hash_poses(&two));
}
