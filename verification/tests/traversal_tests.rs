use voxel_world::math::{FxVec3, IVec3};
use voxel_world::voxel::VoxelFace;
use voxel_world::voxel_traversal::{voxel_cartesian_traversal, voxel_line_traversal, VoxelVisit};

fn fx(voxels: f64) -> i64 {
    (voxels * 65536.0).round() as i64
}

fn fxv(x: f64, y: f64, z: f64) -> FxVec3 {
    FxVec3 { x: fx(x), y: fx(y), z: fx(z) }
}

fn check_path(name: &str, visits: &[VoxelVisit], expected: &[IVec3], expected_face: Option<VoxelFace>) {
    assert_eq!(visits.len(), expected.len(), "{}: expected path has same length", name);
    for (i, visit) in visits.iter().enumerate() {
        assert!(0 <= visit.time_num, "{}: time must always be >= 0", name);
        assert!(visit.time_num <= visit.time_den, "{}: time must always be <= 1", name);
        assert_eq!(visit.voxel, expected[i], "{}: found unexpected step in path", name);
        if i == 0 {
            assert!(visit.face.is_none(), "{}: first voxel has no entry face", name);
            assert_eq!(visit.time_num, 0, "{}: first voxel is visited at time zero", name);
        } else if let Some(face) = expected_face {
            assert_eq!(visit.face, Some(face), "{}: expected entering through {:?}", name, face);
        }
    }
}

#[test]
fn voxel_line_traversal_along_cartesian_axes() {
    let start = fxv(0.5, 0.5, 0.5);

    {
        let end = fxv(2.5, 0.5, 0.5);
        let expected = [IVec3::new(0, 0, 0), IVec3::new(1, 0, 0), IVec3::new(2, 0, 0)];
        let visits = voxel_line_traversal(start, end);
        check_path("Aligned with cartesian X", &visits, &expected, Some(VoxelFace::Left));
    }

    {
        let end = fxv(0.5, 2.5, 0.5);
        let expected = [IVec3::new(0, 0, 0), IVec3::new(0, 1, 0), IVec3::new(0, 2, 0)];
        let visits = voxel_line_traversal(start, end);
        check_path("Aligned with cartesian Y", &visits, &expected, Some(VoxelFace::Bottom));
    }

    {
        let end = fxv(0.5, 0.5, 2.5);
        let expected = [IVec3::new(0, 0, 0), IVec3::new(0, 0, 1), IVec3::new(0, 0, 2)];
        let visits = voxel_line_traversal(start, end);
        check_path("Aligned with cartesian Z", &visits, &expected, Some(VoxelFace::Back));
    }
}

#[test]
fn voxel_line_traversal_ending_on_voxel_boundary() {
    let start = fxv(-5.0, 0.5, 1.9815);
    let end = fxv(0.0, 0.0, 50.0);
    let expected = [
        IVec3::new(-5, 0, 1),
        IVec3::new(-5, 0, 2),
        IVec3::new(-5, 0, 3),
        IVec3::new(-5, 0, 4),
        IVec3::new(-5, 0, 5),
        IVec3::new(-5, 0, 6),
        IVec3::new(-5, 0, 7),
        IVec3::new(-5, 0, 8),
        IVec3::new(-5, 0, 9),
        IVec3::new(-5, 0, 10),
        IVec3::new(-5, 0, 11),
        IVec3::new(-4, 0, 11),
        IVec3::new(-4, 0, 12),
        IVec3::new(-4, 0, 13),
        IVec3::new(-4, 0, 14),
        IVec3::new(-4, 0, 15),
        IVec3::new(-4, 0, 16),
        IVec3::new(-4, 0, 17),
        IVec3::new(-4, 0, 18),
        IVec3::new(-4, 0, 19),
        IVec3::new(-4, 0, 20),
        IVec3::new(-4, 0, 21),
        IVec3::new(-3, 0, 21),
        IVec3::new(-3, 0, 22),
        IVec3::new(-3, 0, 23),
        IVec3::new(-3, 0, 24),
        IVec3::new(-3, 0, 25),
        IVec3::new(-3, 0, 26),
        IVec3::new(-3, 0, 27),
        IVec3::new(-3, 0, 28),
        IVec3::new(-3, 0, 29),
        IVec3::new(-3, 0, 30),
        IVec3::new(-2, 0, 30),
        IVec3::new(-2, 0, 31),
        IVec3::new(-2, 0, 32),
        IVec3::new(-2, 0, 33),
        IVec3::new(-2, 0, 34),
        IVec3::new(-2, 0, 35),
        IVec3::new(-2, 0, 36),
        IVec3::new(-2, 0, 37),
        IVec3::new(-2, 0, 38),
        IVec3::new(-2, 0, 39),
        IVec3::new(-2, 0, 40),
        IVec3::new(-1, 0, 40),
        IVec3::new(-1, 0, 41),
        IVec3::new(-1, 0, 42),
        IVec3::new(-1, 0, 43),
        IVec3::new(-1, 0, 44),
        IVec3::new(-1, 0, 45),
        IVec3::new(-1, 0, 46),
        IVec3::new(-1, 0, 47),
        IVec3::new(-1, 0, 48),
        IVec3::new(-1, 0, 49),
        IVec3::new(-1, 0, 50),
        IVec3::new(0, 0, 50),
    ];

    let visits = voxel_line_traversal(start, end);
    check_path("Ending on voxel boundary", &visits, &expected, None);
}

#[test]
fn traversal_times_are_sorted_within_unit_interval() {
    // A skew diagonal trace: times must start at zero, never decrease,
    // and never pass one; the last voxel is the end voxel.
    let start = fxv(0.25, 0.75, -1.5);
    let end = fxv(7.9, 4.2, 3.3);
    let visits = voxel_line_traversal(start, end);

    assert!(visits.len() >= 1);
    assert_eq!(visits[0].voxel, IVec3::new(0, 0, -2));
    assert_eq!(visits[0].time_num, 0);
    assert_eq!(visits[visits.len() - 1].voxel, IVec3::new(7, 4, 3));
    for i in 0..visits.len() {
        let v = visits[i];
        assert!(0 <= v.time_num && v.time_num <= v.time_den && v.time_den >= 1);
        if i > 0 {
            let p = visits[i - 1];
            // p.time <= v.time as fractions.
            assert!((p.time_num as i128) * (v.time_den as i128) <= (v.time_num as i128) * (p.time_den as i128));
        }
    }
}

#[test]
fn cartesian_traversal_visits_each_cell_once() {
    let path = voxel_cartesian_traversal(IVec3::new(2, 0, 0), IVec3::new(6, 0, 0));
    assert_eq!(
        path,
        vec![IVec3::new(2, 0, 0), IVec3::new(3, 0, 0), IVec3::new(4, 0, 0), IVec3::new(5, 0, 0)]
    );

    let down = voxel_cartesian_traversal(IVec3::new(0, 3, 0), IVec3::new(0, 0, 0));
    assert_eq!(down, vec![IVec3::new(0, 3, 0), IVec3::new(0, 2, 0), IVec3::new(0, 1, 0)]);
}
