use ferriscraft::coords::{index_to_vec3, split_world_pos, vec3_to_index, IVec3};

#[test]
fn index_layout() {
    assert_eq!(vec3_to_index(IVec3::new(0, 0, 0)), 0);
    assert_eq!(vec3_to_index(IVec3::new(1, 0, 0)), 1);
    assert_eq!(vec3_to_index(IVec3::new(0, 1, 0)), 16);
    assert_eq!(vec3_to_index(IVec3::new(0, 0, 1)), 4096);
    assert_eq!(vec3_to_index(IVec3::new(15, 255, 15)), 65535);
}

#[test]
fn index_round_trip() {
    for i in [0usize, 1, 15, 16, 4095, 4096, 12345, 65535] {
        assert_eq!(vec3_to_index(index_to_vec3(i)), i);
    }
    let p = IVec3::new(7, 200, 3);
    assert_eq!(index_to_vec3(vec3_to_index(p)), p);
    assert_eq!(index_to_vec3(65535), IVec3::new(15, 255, 15));
}

#[test]
fn split_world_positions() {
    assert_eq!(
        split_world_pos(IVec3::new(17, 5, 3)),
        (IVec3::new(1, 0, 0), IVec3::new(1, 5, 3))
    );
    assert_eq!(
        split_world_pos(IVec3::new(-1, 70, -16)),
        (IVec3::new(-1, 0, -1), IVec3::new(15, 70, 0))
    );
    assert_eq!(
        split_world_pos(IVec3::new(-17, 0, -33)),
        (IVec3::new(-2, 0, -3), IVec3::new(15, 0, 15))
    );
    assert_eq!(
        split_world_pos(IVec3::new(i32::MIN, 0, i32::MAX)),
        (IVec3::new(i32::MIN / 16, 0, i32::MAX / 16), IVec3::new(0, 0, 15))
    );
}

#[test]
fn keys_round_trip() {
    for p in [
        IVec3::new(0, 0, 0),
        IVec3::new(-1, 2, -3),
        IVec3::new(i32::MIN, i32::MAX, -7),
        IVec3::new(15, 255, 15),
    ] {
        assert_eq!(IVec3::from_key(p.key()), p);
    }
    assert_ne!(IVec3::new(1, 0, 0).key(), IVec3::new(0, 0, 1).key());
}
