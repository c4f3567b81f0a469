use std::collections::VecDeque;

use ferriscraft::block::{Block, BlockKind};
use ferriscraft::chunk::Chunk;
use ferriscraft::coords::IVec3;
use ferriscraft::saved::{SavedChunk, WorldEdits};
use ferriscraft::server::{
    chunk_update_recipients, chunks_with_changes, encode_user_data, parse_console_input, player_joins, player_leaves,
    push_log, record_placement, trim_user_data, ConsoleInput,
};
use ferriscraft::world::place_block;

fn v(x: i32, y: i32, z: i32) -> IVec3 {
    IVec3::new(x, y, z)
}

#[test]
fn placements_are_saved_in_their_chunk() {
    let mut edits = WorldEdits::new();
    let stone = Block::from_kind(BlockKind::Stone);
    assert_eq!(record_placement(&mut edits, v(-1, 70, 17), stone), v(-1, 0, 1));
    assert_eq!(edits.get(v(-1, 0, 1)).unwrap().get(v(15, 70, 1)), Some(stone));
    assert_eq!(record_placement(&mut edits, v(-16, 3, -17), Block::air()), v(-1, 0, -2));
    assert_eq!(edits.get(v(-1, 0, -2)).unwrap().get(v(0, 3, 15)), Some(Block::air()));
    // a second placement in the same cell replaces the first
    let dirt = Block::from_kind(BlockKind::Dirt);
    record_placement(&mut edits, v(-1, 70, 17), dirt);
    let saved = edits.get(v(-1, 0, 1)).unwrap();
    assert_eq!(saved.get(v(15, 70, 1)), Some(dirt));
    assert_eq!(saved.len(), 1);
}

#[test]
fn server_saves_where_the_client_placed() {
    let stone = Block::from_kind(BlockKind::Stone);
    for (chunk_pos, local) in [(v(1, 0, 2), v(0, 5, 15)), (v(-3, 0, -1), v(15, 200, 0)), (v(0, 0, 0), v(7, 0, 7))] {
        let mut c = Chunk::new(chunk_pos);
        let placed = place_block(&mut c, local, stone);
        let mut edits = WorldEdits::new();
        assert_eq!(record_placement(&mut edits, placed.global, stone), chunk_pos);
        assert_eq!(edits.get(chunk_pos).unwrap().get(local), Some(stone));
    }
}

#[test]
fn chunk_updates_go_to_far_players_but_the_sender() {
    let clients = vec![
        (1u64, v(0, 0, 0)),
        (2u64, v(100, 0, 0)),
        (3u64, v(8, 70, 0)),
        (4u64, v(2, 90, 2)),
    ];
    // players are taken at height 0
    assert_eq!(chunk_update_recipients(&clients, v(0, 70, 0), 2), vec![1, 3, 4]);
    assert_eq!(chunk_update_recipients(&clients, v(0, 0, 0), 2), vec![]);
    assert_eq!(chunk_update_recipients(&clients, v(9, 0, 0), 1), vec![2]);
    assert_eq!(chunk_update_recipients(&clients, v(8, 0, 0), 9), vec![2]);
    assert_eq!(chunk_update_recipients(&vec![], v(0, 0, 0), 1), vec![]);
    let far = vec![(7u64, v(i32::MAX, 0, i32::MIN))];
    assert_eq!(chunk_update_recipients(&far, v(i32::MIN, i32::MAX, i32::MAX), 1), vec![7]);
}

#[test]
fn user_data_carries_the_name() {
    let data = encode_user_data(b"bob");
    assert_eq!(&data[0..3], b"bob");
    assert!(data[3..].iter().all(|b| *b == 0));
    assert_eq!(trim_user_data(&data), b"bob".to_vec());
    assert_eq!(trim_user_data(&[0u8; 256]), Vec::<u8>::new());
    let mut full = [b'x'; 256];
    assert_eq!(trim_user_data(&full).len(), 256);
    full[10] = 0;
    assert_eq!(trim_user_data(&full).len(), 256);
    for name in [&b"a"[..], b"Ferris", b"name with spaces"] {
        assert_eq!(trim_user_data(&encode_user_data(name)), name.to_vec());
    }
}

#[test]
fn log_keeps_the_last_256_lines() {
    let mut logs = VecDeque::new();
    for i in 0..300 {
        push_log(&mut logs, format!("line {i}"));
        assert!(logs.len() <= 256);
    }
    assert_eq!(logs.len(), 256);
    assert_eq!(logs.front().unwrap(), "line 44");
    assert_eq!(logs.back().unwrap(), "line 299");
}

#[test]
fn console_commands() {
    assert_eq!(parse_console_input(b""), ConsoleInput::Empty);
    assert_eq!(parse_console_input(b"hello"), ConsoleInput::Say);
    assert_eq!(parse_console_input(b"/save"), ConsoleInput::Save);
    assert_eq!(parse_console_input(b"/stop"), ConsoleInput::Stop);
    assert_eq!(parse_console_input(b"/saves"), ConsoleInput::Unknown);
    assert_eq!(parse_console_input(b"/"), ConsoleInput::Unknown);
    assert_eq!(parse_console_input(b"a /stop"), ConsoleInput::Say);
}

#[test]
fn changed_chunks_are_sent_on_load() {
    let mut edits = WorldEdits::new();
    let stone = Block::from_kind(BlockKind::Stone);
    edits.record(v(0, 0, 0), v(1, 1, 1), stone);
    edits.record(v(2, 0, 0), v(1, 1, 1), stone);
    let requested = vec![v(1, 0, 0), v(2, 0, 0), v(0, 0, 0), v(2, 0, 0)];
    assert_eq!(chunks_with_changes(&edits, &requested), vec![v(2, 0, 0), v(0, 0, 0), v(2, 0, 0)]);
    assert_eq!(chunks_with_changes(&WorldEdits::new(), &requested), vec![]);
}

#[test]
fn saved_chunk_map() {
    let mut s = SavedChunk::new();
    assert_eq!(s.len(), 0);
    assert_eq!(s.get(v(1, 2, 3)), None);
    let wood = Block::from_kind(BlockKind::Wood);
    s.insert(v(1, 2, 3), wood);
    s.insert(v(3, 2, 1), Block::air());
    s.insert(v(1, 2, 3), Block::air());
    assert_eq!(s.len(), 2);
    assert_eq!(s.get(v(1, 2, 3)), Some(Block::air()));
    assert_eq!(s.get(v(3, 2, 1)), Some(Block::air()));
    let c = s.clone();
    assert_eq!(c.get(v(3, 2, 1)), Some(Block::air()));
    assert_eq!(SavedChunk::single(v(0, 0, 0), wood).get(v(0, 0, 0)), Some(wood));
}

#[test]
fn player_names_stay_distinct() {
    let mut roster: Vec<(u64, Vec<u8>)> = Vec::new();
    assert!(player_joins(&mut roster, 1, b"bob".to_vec()));
    assert!(player_joins(&mut roster, 2, b"alice".to_vec()));
    // a second "bob" is refused and nothing changes
    assert!(!player_joins(&mut roster, 3, b"bob".to_vec()));
    assert_eq!(roster, vec![(1, b"bob".to_vec()), (2, b"alice".to_vec())]);
    // the same client joining again replaces its entry
    assert!(player_joins(&mut roster, 1, b"carol".to_vec()));
    assert_eq!(roster, vec![(2, b"alice".to_vec()), (1, b"carol".to_vec())]);
    // once bob's name is free it can be taken
    assert!(player_joins(&mut roster, 3, b"bob".to_vec()));
    assert_eq!(player_leaves(&mut roster, 2), Some(b"alice".to_vec()));
    assert_eq!(player_leaves(&mut roster, 2), None);
    assert_eq!(roster, vec![(1, b"carol".to_vec()), (3, b"bob".to_vec())]);
    assert!(player_joins(&mut roster, 4, b"alice".to_vec()));
}
