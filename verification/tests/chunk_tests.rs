use voxel_world::chunk::{ChunkData, ChunkTask, FillType};
use voxel_world::configuration::{ChunkRegenerateStrategy, VoxelLookup};
use voxel_world::math::{IVec3, UVec3};
use voxel_world::overlay::ModifiedVoxels;
use voxel_world::shape::PADDED_CHUNK_SIZE;
use voxel_world::voxel::WorldVoxel;

fn padded() -> UVec3 {
    UVec3 { x: PADDED_CHUNK_SIZE, y: PADDED_CHUNK_SIZE, z: PADDED_CHUNK_SIZE }
}

fn padded_len() -> usize {
    let side = PADDED_CHUNK_SIZE as usize;
    side * side * side
}

fn linear(c: [u32; 3]) -> usize {
    let side = PADDED_CHUNK_SIZE as usize;
    (c[2] as usize) * side * side + (c[1] as usize) * side + (c[0] as usize)
}

struct PanicLookup;

impl VoxelLookup for PanicLookup {
    fn lookup(&mut self, _pos: IVec3, _previous: Option<WorldVoxel>) -> WorldVoxel {
        panic!("voxel lookup should not run when reusing previous data");
    }
}

struct ConstLookup(WorldVoxel);

impl VoxelLookup for ConstLookup {
    fn lookup(&mut self, _pos: IVec3, _previous: Option<WorldVoxel>) -> WorldVoxel {
        self.0
    }
}

#[test]
fn chunk_generate_reuses_previous_data_when_configured() {
    let entity = 1u64;
    let position = IVec3::new(0, 0, 0);
    let data_shape = padded();
    let mesh_shape = data_shape;

    let mut voxel_payload = vec![WorldVoxel::Solid(5); padded_len()];
    let highlighted_block = [1, 1, 1];
    let highlighted_world_pos = IVec3::new(0, 0, 0);
    voxel_payload[linear(highlighted_block)] = WorldVoxel::Solid(9);

    let modified_voxels = ModifiedVoxels::new();
    let mut chunk_task = ChunkTask::new(entity, position, 0, data_shape, mesh_shape, modified_voxels);

    let mut previous_data = ChunkData::with_entity(entity);
    previous_data.position = position;
    previous_data.data_shape = data_shape;
    previous_data.mesh_shape = mesh_shape;
    previous_data.has_generated = true;
    previous_data.is_full = true;
    previous_data.is_empty = false;
    previous_data.fill_type = FillType::Mixed;
    previous_data.voxels = Some(voxel_payload);
    previous_data.generate_hash();

    chunk_task.generate(&mut PanicLookup, Some(&previous_data), ChunkRegenerateStrategy::Reuse);

    assert!(chunk_task.chunk_data.voxels.is_some());
    assert!(chunk_task.is_full());
    match chunk_task.chunk_data.fill_type {
        FillType::Mixed => {},
        ref other => panic!("expected mixed fill type, got {:?}", other),
    }

    let voxel = chunk_task
        .chunk_data
        .get_voxel_at_world_position(highlighted_world_pos)
        .expect("voxel should be addressable");
    assert_eq!(voxel, WorldVoxel::Solid(9));
}

#[test]
fn content_hash_is_deterministic() {
    let shape = padded();
    let mut a = ChunkTask::new(1, IVec3::new(0, 0, 0), 0, shape, shape, ModifiedVoxels::new());
    let mut b = ChunkTask::new(2, IVec3::new(0, 0, 0), 0, shape, shape, ModifiedVoxels::new());

    struct Pattern;
    impl VoxelLookup for Pattern {
        fn lookup(&mut self, pos: IVec3, _previous: Option<WorldVoxel>) -> WorldVoxel {
            if (pos.x + pos.y + pos.z) % 3 == 0 {
                WorldVoxel::Solid(2)
            } else {
                WorldVoxel::Air
            }
        }
    }

    a.generate(&mut Pattern, None, ChunkRegenerateStrategy::Repopulate);
    b.generate(&mut Pattern, None, ChunkRegenerateStrategy::Repopulate);
    assert_eq!(a.voxels_hash(), b.voxels_hash());
    assert!(a.voxels_hash() != 0);
}

#[test]
fn content_hash_changes_with_one_voxel() {
    let shape = padded();
    let mut a = ChunkTask::new(1, IVec3::new(0, 0, 0), 0, shape, shape, ModifiedVoxels::new());
    a.generate(&mut ConstLookup(WorldVoxel::Air), None, ChunkRegenerateStrategy::Repopulate);

    // The same chunk, with exactly one voxel overridden through the
    // overlay.
    let mut overlay = ModifiedVoxels::new();
    overlay.insert(IVec3::new(3, 4, 5), WorldVoxel::Solid(7));
    let mut b = ChunkTask::new(1, IVec3::new(0, 0, 0), 0, shape, shape, overlay);
    b.generate(&mut ConstLookup(WorldVoxel::Air), None, ChunkRegenerateStrategy::Repopulate);

    assert!(a.voxels_hash() != b.voxels_hash());
}

#[test]
fn fill_type_classification() {
    let shape = padded();

    // All air: Empty, no dense array kept.
    let mut empty = ChunkTask::new(1, IVec3::new(0, 0, 0), 0, shape, shape, ModifiedVoxels::new());
    empty.generate(&mut ConstLookup(WorldVoxel::Air), None, ChunkRegenerateStrategy::Repopulate);
    assert!(empty.is_empty());
    assert!(!empty.is_full());
    assert!(matches!(empty.chunk_data.fill_type, FillType::Empty));
    assert!(empty.chunk_data.voxels.is_none());

    // All one solid material: Uniform, no dense array kept.
    let mut uniform = ChunkTask::new(
        1,
        IVec3::new(0, 0, 0),
        0,
        shape,
        shape,
        ModifiedVoxels::new(),
    );
    uniform.generate(
        &mut ConstLookup(WorldVoxel::Solid(3)),
        None,
        ChunkRegenerateStrategy::Repopulate,
    );
    assert!(uniform.is_full());
    assert!(!uniform.is_empty());
    assert!(matches!(uniform.chunk_data.fill_type, FillType::Uniform(WorldVoxel::Solid(3))));
    assert!(uniform.chunk_data.voxels.is_none());

    // Full but with two materials: still Mixed, dense array kept.
    struct TwoMaterials;
    impl VoxelLookup for TwoMaterials {
        fn lookup(&mut self, pos: IVec3, _previous: Option<WorldVoxel>) -> WorldVoxel {
            if pos.x % 2 == 0 {
                WorldVoxel::Solid(1)
            } else {
                WorldVoxel::Solid(2)
            }
        }
    }
    let mut two = ChunkTask::new(1, IVec3::new(0, 0, 0), 0, shape, shape, ModifiedVoxels::new());
    two.generate(&mut TwoMaterials, None, ChunkRegenerateStrategy::Repopulate);
    assert!(two.is_full());
    assert!(matches!(two.chunk_data.fill_type, FillType::Mixed));
    assert!(two.chunk_data.voxels.is_some());
}

#[test]
fn overlay_wins_over_generator() {
    let shape = padded();
    let mut overlay = ModifiedVoxels::new();
    overlay.insert(IVec3::new(2, 2, 2), WorldVoxel::Solid(9));

    let mut task = ChunkTask::new(1, IVec3::new(0, 0, 0), 0, shape, shape, overlay);
    task.generate(&mut ConstLookup(WorldVoxel::Solid(1)), None, ChunkRegenerateStrategy::Repopulate);

    let voxel = task
        .chunk_data
        .get_voxel_at_world_position(IVec3::new(2, 2, 2))
        .expect("voxel should be addressable");
    assert_eq!(voxel, WorldVoxel::Solid(9));
}
