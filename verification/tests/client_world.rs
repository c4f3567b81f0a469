use ferriscraft::block::{Block, BlockKind};
use ferriscraft::chunk::{BorderHeights, Chunk};
use ferriscraft::coords::{vec3_to_index, IVec3};
use ferriscraft::mesher::ChunkMesh;
use ferriscraft::packet::{Channel, ClientPacketKind, ServerPacketKind};
use ferriscraft::server::{next_tick, TICK_NANOS};
use ferriscraft::store::ChunkStore;
use ferriscraft::world::{
    apply_chunk_update, chunks_in_view, movement_ready, nearest_first, TaskFrame, TASKS_PER_FRAME,
};
use ferriscraft::block::Direction;
use ferriscraft::saved::WorldEdits;

fn v(x: i32, y: i32, z: i32) -> IVec3 {
    IVec3::new(x, y, z)
}

#[test]
fn packet_channels() {
    assert_eq!(ClientPacketKind::ChatMessage.channel(), Channel::ReliableOrdered);
    assert_eq!(ClientPacketKind::PlaceBlock.channel(), Channel::ReliableOrdered);
    assert_eq!(ClientPacketKind::LoadChunks.channel(), Channel::ReliableOrdered);
    assert_eq!(ClientPacketKind::Move.channel(), Channel::Unreliable);
    assert_eq!(ServerPacketKind::ChatMessage.channel(), Channel::ReliableOrdered);
    assert_eq!(ServerPacketKind::PlayerConnected.channel(), Channel::ReliableOrdered);
    assert_eq!(ServerPacketKind::PlayerDisconnected.channel(), Channel::ReliableOrdered);
    assert_eq!(ServerPacketKind::ConnectionInfo.channel(), Channel::ReliableOrdered);
    assert_eq!(ServerPacketKind::ChunkUpdate.channel(), Channel::ReliableUnordered);
    assert_eq!(ServerPacketKind::PlayerData.channel(), Channel::Unreliable);
}

#[test]
fn chunk_update_writes_blocks_and_lists_chunks_to_remesh() {
    let mut c = Chunk::new(v(4, 0, -2));
    let stone = Block::from_kind(BlockKind::Stone);
    let dirt = Block::from_kind(BlockKind::Dirt);
    let changes = vec![(v(0, 10, 5), stone), (v(7, 3, 15), dirt), (v(0, 10, 5), dirt)];
    let remesh = apply_chunk_update(&mut c, &changes);
    assert_eq!(remesh, vec![v(4, 0, -2), v(3, 0, -2), v(4, 0, -1)]);
    // the later change of a cell wins
    assert_eq!(c.blocks[vec3_to_index(v(0, 10, 5))], dirt);
    assert_eq!(c.blocks[vec3_to_index(v(7, 3, 15))], dirt);
    assert_eq!(c.blocks.iter().filter(|b| **b != Block::air()).count(), 2);
    let remesh = apply_chunk_update(&mut c, &vec![]);
    assert_eq!(remesh, vec![v(4, 0, -2)]);
    let remesh = apply_chunk_update(&mut c, &vec![(v(15, 0, 0), stone)]);
    assert_eq!(remesh, vec![v(4, 0, -2), v(5, 0, -2), v(4, 0, -3)]);
}

#[test]
fn tasks_nearest_first() {
    let positions = vec![v(3, 0, 0), v(0, 0, 1), v(-1, 0, 0), v(0, 0, 0), v(0, 0, -3)];
    assert_eq!(nearest_first(&positions, v(0, 0, 0)), vec![3, 1, 2, 0, 4]);
    assert_eq!(nearest_first(&positions, v(3, 0, 0)), vec![0, 3, 1, 2, 4]);
    assert_eq!(nearest_first(&vec![], v(0, 0, 0)), Vec::<usize>::new());
    let far = vec![v(i32::MAX, 0, i32::MAX), v(i32::MIN, 0, i32::MIN)];
    assert_eq!(nearest_first(&far, v(i32::MIN, 0, i32::MIN)), vec![1, 0]);
    assert_eq!(TASKS_PER_FRAME, 15);
}

#[test]
fn ticks_drain_the_accumulator() {
    assert_eq!(TICK_NANOS, 1_000_000_000 / 64);
    assert_eq!(next_tick(TICK_NANOS - 1), None);
    assert_eq!(next_tick(TICK_NANOS), Some(0));
    let mut acc = 3 * TICK_NANOS + 7;
    let mut ticks = 0;
    while let Some(rest) = next_tick(acc) {
        ticks += 1;
        acc = rest;
    }
    assert_eq!((ticks, acc), (3, 7));
}

#[test]
fn store_requests_each_chunk_once() {
    let mut store = ChunkStore::new();
    let view = chunks_in_view(0, 0, 1);
    let first = store.request_loads(&view);
    assert_eq!(first, view);
    for p in &view {
        assert!(store.is_loading(*p));
        assert!(store.get(*p).is_none());
    }
    // nothing is asked twice, even when the list repeats a position
    assert_eq!(store.request_loads(&view), vec![]);
    assert_eq!(store.request_loads(&vec![v(5, 0, 5), v(5, 0, 5)]), vec![v(5, 0, 5)]);
    // a finished chunk is loaded and no longer loading
    store.finish_load(Chunk::new(v(0, 0, 0)));
    assert!(!store.is_loading(v(0, 0, 0)));
    assert_eq!(store.get(v(0, 0, 0)).unwrap().pos, v(0, 0, 0));
    assert_eq!(store.request_loads(&view), vec![]);
    // an unloaded chunk is asked for again
    store.unload(v(0, 0, 0));
    store.unload(v(-1, 0, 0));
    assert!(store.get(v(0, 0, 0)).is_none());
    assert_eq!(store.request_loads(&view), vec![v(-1, 0, 0), v(0, 0, 0)]);
}

#[test]
fn store_places_blocks_in_loaded_chunks() {
    let mut store = ChunkStore::new();
    let stone = Block::from_kind(BlockKind::Stone);
    assert!(store.place(v(1, 0, 1), v(0, 5, 0), stone).is_none());
    store.finish_load(Chunk::new(v(1, 0, 1)));
    let placed = store.place(v(1, 0, 1), v(0, 5, 0), stone).unwrap();
    assert_eq!(placed.remesh, vec![v(0, 0, 1), v(1, 0, 0), v(1, 0, 1)]);
    assert_eq!(placed.global, v(16, 5, 16));
    assert_eq!(store.get(v(1, 0, 1)).unwrap().get_block(v(0, 5, 0)), stone);
}

#[test]
fn store_meshes_against_loaded_neighbours() {
    let mut store = ChunkStore::new();
    let heights = BorderHeights { left: [1; 16], back: [1; 16] };
    assert!(store.mesh(v(0, 0, 0), &heights).is_none());
    let mut c = Chunk::new(v(0, 0, 0));
    c.blocks[vec3_to_index(v(1, 1, 1))] = Block::from_kind(BlockKind::Stone);
    store.finish_load(c);
    store.finish_load(Chunk::new(v(-1, 0, 0)));
    store.finish_load(Chunk::new(v(0, 0, -1)));
    let mesh = store.mesh(v(0, 0, 0), &heights).unwrap();
    let direct = ChunkMesh::new()
        .build(store.get(v(0, 0, 0)).unwrap(), store.get(v(-1, 0, 0)), store.get(v(0, 0, -1)), &heights)
        .unwrap();
    assert_eq!(mesh.vertices, direct.vertices);
    assert_eq!(mesh.indices, direct.indices);
    assert_eq!(mesh.vertices.len(), 24);
    // without the neighbours loaded, the border terrain shows through
    store.unload(v(-1, 0, 0));
    let mesh = store.mesh(v(0, 0, 0), &heights).unwrap();
    assert_eq!(mesh.vertices.len(), 24 + 4 * 16 * 64);
}

#[test]
fn placing_against_a_face_needs_an_empty_loaded_cell() {
    let mut store = ChunkStore::new();
    let stone = Block::from_kind(BlockKind::Stone);
    store.finish_load(Chunk::new(v(0, 0, 0)));
    let mut edits = WorldEdits::new();
    store.place_recorded(v(0, 0, 0), v(3, 5, 3), stone, &mut edits).unwrap();
    assert_eq!(edits.get(v(0, 0, 0)).unwrap().get(v(3, 5, 3)), Some(stone));
    assert!(store.place_recorded(v(9, 0, 9), v(3, 5, 3), stone, &mut edits).is_none());
    assert!(edits.get(v(9, 0, 9)).is_none());
    // on top of the stone: the cell above, a plank pointing up
    assert_eq!(
        store.placement_for(v(0, 0, 0), v(3, 5, 3), Direction::Top, BlockKind::Plank),
        Some((v(0, 0, 0), v(3, 6, 3), Block::from_kind(BlockKind::Plank)))
    );
    // wood keeps the face it was placed against
    assert_eq!(
        store.placement_for(v(0, 0, 0), v(3, 5, 3), Direction::Left, BlockKind::Wood),
        Some((v(0, 0, 0), v(2, 5, 3), Block { kind: BlockKind::Wood, direction: Direction::Left }))
    );
    // the cell is taken
    assert_eq!(store.placement_for(v(0, 0, 0), v(3, 4, 3), Direction::Top, BlockKind::Plank), None);
    // across the border into a chunk that is not loaded
    assert_eq!(store.placement_for(v(0, 0, 0), v(0, 5, 3), Direction::Left, BlockKind::Plank), None);
    // below the world
    assert_eq!(store.placement_for(v(0, 0, 0), v(3, 0, 3), Direction::Bottom, BlockKind::Plank), None);
}

#[test]
fn rays_meet_solid_blocks_of_loaded_chunks() {
    let mut store = ChunkStore::new();
    let stone = Block::from_kind(BlockKind::Stone);
    let mut c = Chunk::new(v(-1, 0, 0));
    c.blocks[vec3_to_index(v(15, 70, 2))] = stone;
    c.blocks[vec3_to_index(v(14, 70, 2))] = Block::from_kind(BlockKind::Water);
    store.finish_load(c);
    assert_eq!(store.solid_at(v(-1, 70, 2)), Some((v(-1, 0, 0), v(15, 70, 2), stone)));
    assert_eq!(store.solid_at(v(-2, 70, 2)), None);
    assert_eq!(store.solid_at(v(-1, 71, 2)), None);
    assert_eq!(store.solid_at(v(-1, 300, 2)), None);
    assert_eq!(store.solid_at(v(1, 70, 2)), None);
}

#[test]
fn movement_waits_for_the_chunks_in_view() {
    let mut store = ChunkStore::new();
    let view = chunks_in_view(0, 0, 1);
    store.request_loads(&view);
    let mut ready = false;
    for p in &view {
        assert!(!ready);
        store.finish_load(Chunk::new(*p));
        ready = movement_ready(ready, store.loaded_count(), 1);
    }
    assert!(ready);
    assert_eq!(store.loaded_count(), 4);
    // once ready, it stays so
    store.unload(v(0, 0, 0));
    assert!(movement_ready(ready, store.loaded_count(), 1));
    assert!(!movement_ready(false, 3, 1));
    assert!(movement_ready(false, 64, -4));
    assert!(movement_ready(false, 0, 0));
}

#[test]
fn a_frame_takes_up_at_most_fifteen_tasks() {
    let mut frame = TaskFrame::new();
    let mut polled = 0;
    // every third task is finished
    for i in 0..100 {
        if !frame.may_poll() {
            break;
        }
        polled += 1;
        frame.polled(i % 3 == 0);
    }
    assert_eq!(frame.taken, TASKS_PER_FRAME);
    assert_eq!(polled, 43);
}
