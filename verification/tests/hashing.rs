use determinism_harness::hash::djb2_hash;
use determinism_harness::hasher::{hash_poses, sort_poses, HASH_SEED};
use determinism_harness::pose::{pose_to_bytes, Pose};

/// Order-preserving integer key for a 32-bit float's bit pattern: flips the
/// sign bit for non-negative values and all bits for negative ones, so that
/// key order matches numeric order (the conversion app code performs).
fn x_key_of(x: f32) -> u64 {
    let bits = x.to_bits();
    if bits & 0x8000_0000 != 0 {
        (!bits) as u64
    } else {
        (bits | 0x8000_0000) as u64
    }
}

fn pose_at(x: f32, y: f32, z: f32) -> Pose {
    Pose {
        x_key: x_key_of(x),
        tx: x.to_bits(),
        ty: y.to_bits(),
        tz: z.to_bits(),
        rx: 0.0f32.to_bits(),
        ry: 0.0f32.to_bits(),
        rz: 0.0f32.to_bits(),
        rw: 1.0f32.to_bits(),
    }
}

#[test]
fn djb2_of_nothing_is_the_seed() {
    assert_eq!(djb2_hash(HASH_SEED, &Vec::new()), 5381);
}

#[test]
fn djb2_known_values() {
    assert_eq!(djb2_hash(5381, &vec![1u8, 2, 3]), 0x0b86_b76b);
    let hello = vec![b'h', b'e', b'l', b'l', b'o'];
    assert_eq!(djb2_hash(5381, &hello), 0x0f92_3099);
}

#[test]
fn djb2_depends_on_byte_order() {
    assert_ne!(
        djb2_hash(5381, &vec![1u8, 2, 3]),
        djb2_hash(5381, &vec![3u8, 2, 1])
    );
}

#[test]
fn pose_record_is_28_bytes_little_endian() {
    let p = Pose {
        x_key: 0,
        tx: 0x0403_0201,
        ty: 0x0807_0605,
        tz: 0x0c0b_0a09,
        rx: 0x100f_0e0d,
        ry: 0x1413_1211,
        rz: 0x1817_1615,
        rw: 0x1c1b_1a19,
    };
    let bytes = pose_to_bytes(&p);
    let expected: Vec<u8> = (1u8..=28).collect();
    assert_eq!(bytes, expected);
}

#[test]
fn sort_orders_by_ascending_x_key() {
    let poses = vec![
        pose_at(3.0, 0.0, 0.0),
        pose_at(-1.5, 1.0, 0.0),
        pose_at(0.0, 2.0, 0.0),
        pose_at(-8.25, 3.0, 0.0),
    ];
    let sorted = sort_poses(&poses);
    assert_eq!(sorted.len(), 4);
    for w in sorted.windows(2) {
        assert!(w[0].x_key <= w[1].x_key);
    }
    assert_eq!(f32::from_bits(sorted[0].tx), -8.25);
    assert_eq!(f32::from_bits(sorted[3].tx), 3.0);
}

#[test]
fn fingerprint_ignores_input_permutation_with_distinct_keys() {
    let a = pose_at(-2.0, 0.5, 0.0);
    let b = pose_at(7.5, 1.5, 0.0);
    let c = pose_at(0.25, 2.5, 0.0);
    let one = vec![a, b, c];
    let two = vec![c, a, b];
    let three = vec![b, c, a];
    let h = hash_poses(&one);
    assert_eq!(h, hash_poses(&two));
    assert_eq!(h, hash_poses(&three));
}

#[test]
fn fingerprint_changes_with_the_pose_set() {
    let one = vec![pose_at(-2.0, 0.5, 0.0), pose_at(7.5, 1.5, 0.0)];
    let two = vec![pose_at(-2.0, 0.5, 0.0), pose_at(7.5, 1.625, 0.0)];
    assert_ne!(hash_poses(&one), hash_poses(&two));
}

#[test]
fn negative_x_sorts_before_positive() {
    let poses = vec![pose_at(1.0, 0.0, 0.0), pose_at(-1.0, 0.0, 0.0)];
    let sorted = sort_poses(&poses);
    assert_eq!(f32::from_bits(sorted[0].tx), -1.0);
    assert_eq!(f32::from_bits(sorted[1].tx), 1.0);
}
