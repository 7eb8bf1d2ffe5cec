use voxel_world::chunk::{ChunkData, FillType, ENTITY_PLACEHOLDER};
use voxel_world::configuration::{DefaultWorld, VoxelWorldConfig};
use voxel_world::math::{FxVec3, IVec3};
use voxel_world::mesh_cache::MeshCache;
use voxel_world::shape::PADDED_CHUNK_SIZE;
use voxel_world::voxel::WorldVoxel;
use voxel_world::chunk::ChunkTask;
use voxel_world::configuration::ChunkRegenerateStrategy;
use voxel_world::overlay::ModifiedVoxels;
use voxel_world::voxel_world::{ChunkEvent, VoxelWorld};

fn test_world() -> VoxelWorld {
    VoxelWorld::new(VoxelWorldConfig::default())
}

fn fx(voxels: f64) -> i64 {
    (voxels * 65536.0).round() as i64
}

#[test]
fn can_set_get_voxels() {
    let mut voxel_world = test_world();

    let positions = vec![
        IVec3::new(0, 100, 0),
        IVec3::new(0, 0, 0),
        IVec3::new(1, 0, 1),
        IVec3::new(1, 1, 1),
        IVec3::new(100, 200, 300),
        IVec3::new(-1, 0, -1),
        IVec3::new(0, -1, 0),
        IVec3::new(-100, -200, -300),
    ];

    let test_voxel = WorldVoxel::Solid(1);

    for pos in positions {
        voxel_world.set_voxel(pos, test_voxel);
        assert_eq!(voxel_world.get_voxel(pos), test_voxel)
    }
}

#[test]
fn set_voxel_can_be_found_by_2d_coordinate() {
    let mut voxel_world = test_world();

    let positions = vec![
        IVec3::new(0, 5, 0),
        IVec3::new(1, 7, 0),
        IVec3::new(2, 10, 0),
        IVec3::new(3, 5, 10),
        IVec3::new(4, 7, 10),
        IVec3::new(5, 10, 10),
        IVec3::new(-6, 5, -10),
        IVec3::new(-7, 7, -10),
        IVec3::new(-10, 10, -10),
    ];

    let test_voxel = WorldVoxel::Solid(1);

    for pos in positions.iter() {
        voxel_world.set_voxel(*pos, test_voxel);
    }

    for pos in positions.iter() {
        let origin = FxVec3 {
            x: (pos.x as i64) * 65536 + 32768,
            y: 256 * 65536,
            z: (pos.z as i64) * 65536 + 32768,
        };
        let direction = FxVec3 { x: 0, y: -65536, z: 0 };

        let result = voxel_world.raycast(origin, direction, &|(_, voxel): (
            IVec3,
            WorldVoxel,
        )| matches!(voxel, WorldVoxel::Solid(_)));

        assert!(result.is_some(), "expected to hit solid voxel at {:?}", pos);

        let result = result.unwrap();
        assert_eq!(result.voxel_pos(), *pos);
        assert_eq!(result.voxel, test_voxel);
    }
}

#[test]
fn chunk_will_remesh_event_after_set_voxel() {
    let mut voxel_world = test_world();
    let camera = IVec3::new(0, 0, 0);

    let spawned = voxel_world.spawn_chunks(camera, &Vec::new(), &DefaultWorld);
    assert!(spawned.len() > 0);
    voxel_world.flush_chunk_map_buffers();

    voxel_world.set_voxel(IVec3::new(0, 0, 0), WorldVoxel::Solid(1));
    voxel_world.flush_voxel_write_buffer();

    let (_tasks, events) = voxel_world.remesh_dirty_chunks(&DefaultWorld, IVec3::new(0, 0, 0));
    assert!(events.len() > 0)
}

#[test]
fn chunk_will_despawn_event() {
    let mut voxel_world = test_world();
    let camera = IVec3::new(0, 0, 0);

    voxel_world.spawn_chunks(camera, &Vec::new(), &DefaultWorld);
    voxel_world.flush_chunk_map_buffers();
    assert!(voxel_world.loaded_chunk_count() > 0);

    // Move the camera far away: every loaded chunk becomes too distant.
    let far_camera = IVec3::new(32000, 32000, 32000);
    let events = voxel_world.retire_chunks(far_camera, &DefaultWorld);
    assert!(events.len() > 0)
}

#[test]
fn chunk_will_update_event() {
    let mut voxel_world = test_world();

    voxel_world.spawn_chunks(IVec3::new(0, 0, 0), &Vec::new(), &DefaultWorld);
    voxel_world.flush_chunk_map_buffers();

    voxel_world.set_voxel(IVec3::new(0, 0, 0), WorldVoxel::Solid(1));
    let events = voxel_world.flush_voxel_write_buffer();
    assert!(events.len() > 0)
}

#[test]
fn can_get_chunk_data() {
    let mut voxel_world = test_world();

    voxel_world.spawn_chunks(IVec3::new(0, 0, 0), &Vec::new(), &DefaultWorld);
    voxel_world.flush_chunk_map_buffers();

    voxel_world.set_voxel(IVec3::new(0, 0, 0), WorldVoxel::Solid(1));
    voxel_world.flush_voxel_write_buffer();

    let chunk_data = voxel_world.get_chunk_data(IVec3::new(0, 0, 0));
    assert!(chunk_data.is_some());
}

#[test]
fn raycast_finds_voxel() {
    let mut voxel_world = test_world();

    let positions = vec![IVec3::new(0, 0, -1), IVec3::new(0, 0, 0)];
    let test_voxel = WorldVoxel::Solid(1);
    for pos in positions {
        voxel_world.set_voxel(pos, test_voxel);
    }

    // An artificial, never-generated chunk entry at the origin, so that
    // the loaded bounds cover the trace.
    let side = PADDED_CHUNK_SIZE as usize;
    let chunk_data = ChunkData {
        position: IVec3::new(0, 0, 0),
        lod_level: 0,
        voxels: Some(vec![WorldVoxel::Unset; side * side * side]),
        voxels_hash: 0,
        is_full: false,
        is_empty: false,
        fill_type: FillType::Mixed,
        entity: ENTITY_PLACEHOLDER,
        has_generated: false,
        data_shape: voxel_world::math::UVec3 {
            x: PADDED_CHUNK_SIZE,
            y: PADDED_CHUNK_SIZE,
            z: PADDED_CHUNK_SIZE,
        },
        mesh_shape: voxel_world::math::UVec3 {
            x: PADDED_CHUNK_SIZE,
            y: PADDED_CHUNK_SIZE,
            z: PADDED_CHUNK_SIZE,
        },
    };
    voxel_world.buffer_chunk_update(
        IVec3::new(0, 0, 0),
        chunk_data,
        ChunkEvent::new(IVec3::new(0, 0, 0), ENTITY_PLACEHOLDER),
    );
    voxel_world.flush_chunk_map_buffers();

    let origin = FxVec3 { x: fx(0.5), y: fx(0.5), z: fx(70.0) };
    let direction = FxVec3 { x: 0, y: 0, z: -65536 };

    let Some(result) = voxel_world.raycast(origin, direction, &|(_pos, _vox): (
        IVec3,
        WorldVoxel,
    )| true) else {
        panic!("No voxel found")
    };

    assert_eq!(result.position, IVec3::new(0, 0, 0));
    assert_eq!(result.normal, Some(IVec3::new(0, 0, 1)));
    assert_eq!(result.voxel, test_voxel);
}

#[test]
fn spawn_scheduler_respects_max_distance() {
    let mut voxel_world = test_world();
    let camera = IVec3::new(0, 0, 0);
    let max_sq = 10i64 * 10;

    let rays = vec![
        (FxVec3 { x: 0, y: 0, z: 0 }, FxVec3 { x: 65536, y: 0, z: 0 }),
        (FxVec3 { x: 0, y: 0, z: 0 }, FxVec3 { x: 0, y: 65536, z: 0 }),
        (FxVec3 { x: 0, y: 0, z: 0 }, FxVec3 { x: 40000, y: 40000, z: 30000 }),
    ];
    voxel_world.spawn_chunks(camera, &rays, &DefaultWorld);
    voxel_world.flush_chunk_map_buffers();
    assert!(voxel_world.loaded_chunk_count() > 0);

    for p in voxel_world.loaded_chunk_positions().iter() {
        let dx = p.x as i64;
        let dy = p.y as i64;
        let dz = p.z as i64;
        assert!(dx * dx + dy * dy + dz * dz <= max_sq);
    }
}

#[test]
fn retirement_removes_far_chunks() {
    let mut voxel_world = test_world();

    voxel_world.spawn_chunks(IVec3::new(0, 0, 0), &Vec::new(), &DefaultWorld);
    voxel_world.flush_chunk_map_buffers();
    assert!(voxel_world.loaded_chunk_count() > 0);

    let far_camera = IVec3::new(32000, 32000, 32000);
    voxel_world.retire_chunks(far_camera, &DefaultWorld);
    voxel_world.despawn_retired_chunks();
    voxel_world.flush_chunk_map_buffers();

    assert_eq!(voxel_world.loaded_chunk_count(), 0);
}

struct LayerLookup;

impl voxel_world::configuration::VoxelLookup for LayerLookup {
    fn lookup(&mut self, pos: IVec3, _previous: Option<WorldVoxel>) -> WorldVoxel {
        if pos.y < 0 {
            WorldVoxel::Solid(1)
        } else {
            WorldVoxel::Air
        }
    }
}

#[test]
fn mesh_cache_shares_identical_chunks() {
    let shape = voxel_world::math::UVec3 { x: PADDED_CHUNK_SIZE, y: PADDED_CHUNK_SIZE, z: PADDED_CHUNK_SIZE };

    // Two chunks at different coordinates but with byte-identical voxel
    // content: both straddle y = 0 the same way.
    let mut task_a = ChunkTask::new(1, IVec3::new(0, 0, 0), 0, shape, shape, ModifiedVoxels::new());
    let mut task_b = ChunkTask::new(2, IVec3::new(5, 0, 7), 0, shape, shape, ModifiedVoxels::new());
    task_a.generate(&mut LayerLookup, None, ChunkRegenerateStrategy::Repopulate);
    task_b.generate(&mut LayerLookup, None, ChunkRegenerateStrategy::Repopulate);

    assert_eq!(task_a.voxels_hash(), task_b.voxels_hash());

    task_a.mesh(&DefaultWorld);
    task_b.mesh(&DefaultWorld);

    let mut voxel_world = test_world();
    let mut cache = MeshCache::new();

    let handle_a = voxel_world
        .integrate_finished_task(task_a, &mut cache)
        .expect("first chunk should produce a mesh");
    cache.apply_buffers();
    let handle_b = voxel_world
        .integrate_finished_task(task_b, &mut cache)
        .expect("second chunk should reuse the cached mesh");

    assert!(std::sync::Arc::ptr_eq(&handle_a, &handle_b));
}

struct BundleMesher;

impl voxel_world::configuration::ChunkMeshingDelegate for BundleMesher {
    fn mesh_chunk(
        &mut self,
        _voxels: &Vec<WorldVoxel>,
        _data_shape: voxel_world::math::UVec3,
        mesh_shape: voxel_world::math::UVec3,
    ) -> (voxel_world::meshing::RenderableMesh, Option<Vec<u8>>) {
        let mesh = voxel_world::meshing::RenderableMesh {
            vertices: Vec::new(),
            indices: Vec::new(),
            mesh_shape,
        };
        (mesh, Some(vec![1, 2, 3]))
    }
}

#[test]
fn user_bundle_rides_the_mesh_cache() {
    let shape = voxel_world::math::UVec3 {
        x: PADDED_CHUNK_SIZE,
        y: PADDED_CHUNK_SIZE,
        z: PADDED_CHUNK_SIZE,
    };
    let mut task = ChunkTask::new(1, IVec3::new(0, 0, 0), 0, shape, shape, ModifiedVoxels::new());
    task.generate(&mut LayerLookup, None, ChunkRegenerateStrategy::Repopulate);
    task.mesh_with(&mut BundleMesher);
    let hash = task.voxels_hash();

    let mut voxel_world = test_world();
    let mut cache = MeshCache::new();
    voxel_world
        .integrate_finished_task(task, &mut cache)
        .expect("the delegate's mesh should be staged");
    cache.apply_buffers();

    assert_eq!(cache.get_user_bundle(hash), Some(&vec![1, 2, 3]));
}
