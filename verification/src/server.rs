//! What the server decides: where a placed block is saved, who hears of it,
//! how player names travel in the connection's user data, the log it keeps
//! and the commands typed at its console.

use vstd::prelude::*;
use std::collections::VecDeque;
use crate::block::Block;
use crate::coords::{IVec3, split_world_pos, in_chunk};
use crate::saved::{WorldEdits, with_block};
use crate::world::global_of;

verus! {

/// The chunk (with `y` set to 0) and local position that hold world position `pos`.
pub open spec fn chunk_and_local(pos: IVec3) -> (IVec3, IVec3) {
    (
        IVec3 { x: (pos.x / 16) as i32, y: 0, z: (pos.z / 16) as i32 },
        IVec3 { x: (pos.x % 16) as i32, y: pos.y, z: (pos.z % 16) as i32 },
    )
}

/// Records a block a client placed at world position `pos` in the saved
/// changes of the chunk that holds it; returns that chunk's position.
pub fn record_placement(edits: &mut WorldEdits, pos: IVec3, block: Block) -> (r: IVec3)
    requires
        old(edits).wf(),
    ensures
        final(edits).wf(),
        r == chunk_and_local(pos).0,
        final(edits)@ == with_block(old(edits)@, r, chunk_and_local(pos).1, block),
{
    let (chunk_pos, local) = split_world_pos(pos);
    edits.record(chunk_pos, local, block);
    chunk_pos
}

/// The server saves a block where the client placed it: the world position
/// a client sends for a local position of a chunk (at height 0) splits back
/// into that chunk and that local position.
pub proof fn lemma_placement_round_trip(chunk_pos: IVec3, local: IVec3)
    requires
        chunk_pos.y == 0,
        in_chunk(local),
        i32::MIN <= chunk_pos.x * 16 && chunk_pos.x * 16 + 16 <= i32::MAX,
        i32::MIN <= chunk_pos.z * 16 && chunk_pos.z * 16 + 16 <= i32::MAX,
    ensures
        chunk_and_local(global_of(chunk_pos, local)) == (chunk_pos, local),
{
    let g = global_of(chunk_pos, local);
    vstd::arithmetic::div_mod::lemma_fundamental_div_mod_converse(
        g.x as int,
        16,
        chunk_pos.x as int,
        local.x as int,
    );
    vstd::arithmetic::div_mod::lemma_fundamental_div_mod_converse(
        g.z as int,
        16,
        chunk_pos.z as int,
        local.z as int,
    );
}

/// Squared distance between a player's position, taken at height 0, and a
/// block position.
pub open spec fn distance_squared_flat(player: IVec3, pos: IVec3) -> int {
    let dx = player.x - pos.x;
    let dy = 0 - pos.y;
    let dz = player.z - pos.z;
    dx * dx + dy * dy + dz * dz
}

/// Whether client `c` (id, block position) is told of a block placed at
/// `pos` by client `sender`.
pub open spec fn told_of_update(c: (u64, IVec3), pos: IVec3, sender: u64) -> Option<u64> {
    if distance_squared_flat(c.1, pos) > 64 && c.0 != sender {
        Some(c.0)
    } else {
        None
    }
}

/// The clients that are sent a chunk update after `sender` placed a block
/// at `pos`: those farther than 8 blocks (squared distance above 64, the
/// player taken at height 0), except the sender, in the order given.
pub fn chunk_update_recipients(clients: &Vec<(u64, IVec3)>, pos: IVec3, sender: u64) -> (r: Vec<u64>)
    ensures
        r@ == clients@.filter_map(|c: (u64, IVec3)| told_of_update(c, pos, sender)),
{
    let mut r: Vec<u64> = Vec::new();
    let mut i: usize = 0;
    while i < clients.len()
        invariant
            0 <= i <= clients@.len(),
            r@ == clients@.take(i as int).filter_map(|c: (u64, IVec3)| told_of_update(c, pos, sender)),
        decreases clients@.len() - i,
    {
        let (id, p) = clients[i];
        let dx = p.x as i128 - pos.x as i128;
        let dy = 0 - pos.y as i128;
        let dz = p.z as i128 - pos.z as i128;
        proof {
            lemma_square_bound(dx as int);
            lemma_square_bound(dy as int);
            lemma_square_bound(dz as int);
        }
        let dx2 = dx * dx;
        let dy2 = dy * dy;
        let dz2 = dz * dz;
        let d = dx2 + dy2 + dz2;
        proof {
            let s = clients@.take(i as int + 1);
            assert(s.drop_last() =~= clients@.take(i as int));
            assert(s.last() == clients@[i as int]);
        }
        if d > 64 && id != sender {
            r.push(id);
        }
        i = i + 1;
    }
    assert(clients@.take(clients@.len() as int) =~= clients@);
    r
}

proof fn lemma_square_bound(a: int)
    requires
        -0x1_0000_0000 <= a <= 0x1_0000_0000,
    ensures
        0 <= a * a <= 0x1_0000_0000_0000_0000,
{
    assert(0 <= a * a <= 0x1_0000_0000_0000_0000) by (nonlinear_arith)
        requires
            -0x1_0000_0000 <= a <= 0x1_0000_0000,
    ;
}

/// The user data that carries a player's name: the name's bytes, then zeros.
pub fn encode_user_data(name: &[u8]) -> (r: [u8; 256])
    requires
        name@.len() <= 256,
    ensures
        forall|i: int| 0 <= i < name@.len() ==> r[i] == name@[i],
        forall|i: int| name@.len() <= i < 256 ==> r[i] == 0,
{
    let mut r = [0u8; 256];
    let mut i: usize = 0;
    while i < name.len()
        invariant
            0 <= i <= name@.len(),
            name@.len() <= 256,
            forall|j: int| 0 <= j < i ==> r[j] == name@[j],
            forall|j: int| i <= j < 256 ==> r[j] == 0,
        decreases name@.len() - i,
    {
        r[i] = name[i];
        i = i + 1;
    }
    r
}

/// The player name carried by a connection's user data: its bytes with the
/// trailing zero bytes left off.
pub fn trim_user_data(data: &[u8; 256]) -> (r: Vec<u8>)
    ensures
        r@.len() <= 256,
        r@ == data@.take(r@.len() as int),
        r@.len() == 0 || r@.last() != 0,
        forall|i: int| r@.len() <= i < 256 ==> data@[i] == 0,
{
    let mut n: usize = 256;
    while n > 0 && data[n - 1] == 0
        invariant
            0 <= n <= 256,
            forall|i: int| n <= i < 256 ==> data@[i] == 0,
        decreases n,
    {
        n = n - 1;
    }
    let mut r: Vec<u8> = Vec::new();
    let mut i: usize = 0;
    while i < n
        invariant
            0 <= i <= n <= 256,
            r@ == data@.take(i as int),
        decreases n - i,
    {
        r.push(data[i]);
        assert(data@.take(i + 1) =~= data@.take(i as int).push(data@[i as int]));
        i = i + 1;
    }
    r
}

/// A name the client packs into its user data is the name the server reads
/// back, for a name of at most 256 bytes that does not end in a zero byte.
pub proof fn lemma_user_data_round_trip(name: Seq<u8>, data: Seq<u8>, read: Seq<u8>)
    requires
        name.len() <= 256,
        name.len() == 0 || name.last() != 0,
        data.len() == 256,
        forall|i: int| 0 <= i < name.len() ==> data[i] == name[i],
        forall|i: int| name.len() <= i < 256 ==> data[i] == 0,
        read.len() <= 256,
        read == data.take(read.len() as int),
        read.len() == 0 || read.last() != 0,
        forall|i: int| read.len() <= i < 256 ==> data[i] == 0,
    ensures
        read == name,
{
    if read.len() < name.len() {
        assert(data[name.len() - 1] == name.last());
    } else if read.len() > name.len() {
        assert(read[read.len() - 1] == data[read.len() - 1]);
    }
    assert(read =~= name);
}

/// Adds a line to the server's log, dropping the oldest line when the log
/// is full.
pub fn push_log(logs: &mut VecDeque<String>, line: String)
    ensures
        final(logs)@ == (if old(logs)@.len() == 256 {
            old(logs)@.drop_first()
        } else {
            old(logs)@
        }).push(line),
{
    if logs.len() == 256 {
        logs.pop_front();
        assert(old(logs)@.subrange(1, 256) =~= old(logs)@.drop_first());
    }
    logs.push_back(line);
}

/// A log that never held more than 256 lines still does after a line is added.
pub proof fn lemma_log_bounded(old_lines: Seq<String>, line: String)
    requires
        old_lines.len() <= 256,
    ensures
        (if old_lines.len() == 256 {
            old_lines.drop_first()
        } else {
            old_lines
        }).push(line).len() <= 256,
{
}

/// What a line typed at the server's console asks for.
#[derive(Clone, Copy, PartialEq, Eq, Debug, Structural)]
pub enum ConsoleInput {
    /// Nothing was typed.
    Empty,
    /// A message to log as the server's.
    Say,
    /// `/save`: save the world.
    Save,
    /// `/stop`: stop the server.
    Stop,
    /// Another word starting with `/`.
    Unknown,
}

/// How the (already trimmed) console line `line` is understood.
pub open spec fn console_input(line: Seq<u8>) -> ConsoleInput {
    if line.len() == 0 {
        ConsoleInput::Empty
    } else if line[0] != 47 {
        ConsoleInput::Say
    } else if line == seq![47u8, 115u8, 97u8, 118u8, 101u8] {
        ConsoleInput::Save
    } else if line == seq![47u8, 115u8, 116u8, 111u8, 112u8] {
        ConsoleInput::Stop
    } else {
        ConsoleInput::Unknown
    }
}

/// Reads a trimmed console line: empty, a message, `/save`, `/stop`, or an
/// unknown command.
pub fn parse_console_input(line: &[u8]) -> (r: ConsoleInput)
    ensures
        r == console_input(line@),
{
    if line.len() == 0 {
        ConsoleInput::Empty
    } else if line[0] != 47 {
        ConsoleInput::Say
    } else if line.len() == 5 && line[1] == 115 && line[2] == 97 && line[3] == 118 && line[4] == 101 {
        assert(line@ =~= seq![47u8, 115u8, 97u8, 118u8, 101u8]);
        ConsoleInput::Save
    } else if line.len() == 5 && line[1] == 115 && line[2] == 116 && line[3] == 111 && line[4] == 112 {
        assert(line@ =~= seq![47u8, 115u8, 116u8, 111u8, 112u8]);
        ConsoleInput::Stop
    } else {
        ConsoleInput::Unknown
    }
}


/// The requested chunks that have saved changes, in the order asked for:
/// those are the chunks whose changes are sent to a client that loads
/// them.
pub fn chunks_with_changes(edits: &WorldEdits, requested: &Vec<IVec3>) -> (r: Vec<IVec3>)
    requires
        edits.wf(),
    ensures
        r@ == requested@.filter(|p: IVec3| edits@.contains_key(p)),
{
    let mut r: Vec<IVec3> = Vec::new();
    let mut i: usize = 0;
    while i < requested.len()
        invariant
            0 <= i <= requested@.len(),
            edits.wf(),
            r@ == requested@.take(i as int).filter(|p: IVec3| edits@.contains_key(p)),
        decreases requested@.len() - i,
    {
        let p = requested[i];
        proof {
            let s = requested@.take(i as int + 1);
            assert(s.drop_last() =~= requested@.take(i as int));
            assert(s.last() == p);
            reveal_with_fuel(Seq::filter, 1);
        }
        match edits.get(p) {
            Some(_) => r.push(p),
            None => {},
        }
        i = i + 1;
    }
    assert(requested@.take(requested@.len() as int) =~= requested@);
    r
}


/// Length of one server tick, 1/64 of a second, in nanoseconds.
pub const TICK_NANOS: u128 = 15_625_000;

/// One step of the server's fixed-rate loop: when a whole tick has piled up
/// in the accumulator, a tick is run and the accumulator keeps the rest;
/// `None` when less than a tick is left.
pub fn next_tick(accumulator_nanos: u128) -> (r: Option<u128>)
    ensures
        r == (if accumulator_nanos >= TICK_NANOS {
            Some((accumulator_nanos - TICK_NANOS) as u128)
        } else {
            None::<u128>
        }),
{
    if accumulator_nanos >= TICK_NANOS {
        Some(accumulator_nanos - TICK_NANOS)
    } else {
        None
    }
}

/// How many ticks the loop runs from an accumulator of `acc` nanoseconds,
/// stepping with `next_tick` until it answers `None`.
pub open spec fn ticks_run(acc: int) -> int
    decreases acc,
{
    if acc >= TICK_NANOS && TICK_NANOS > 0 {
        1 + ticks_run(acc - TICK_NANOS)
    } else {
        0
    }
}

/// What the accumulator holds when the loop stops.
pub open spec fn tick_leftover(acc: int) -> int
    decreases acc,
{
    if acc >= TICK_NANOS && TICK_NANOS > 0 {
        tick_leftover(acc - TICK_NANOS)
    } else {
        acc
    }
}

/// The loop runs one tick for every whole tick of time piled up, and keeps
/// the remainder for the next frame: no time is lost or counted twice.
pub proof fn lemma_ticks_match_time(acc: int)
    requires
        acc >= 0,
    ensures
        ticks_run(acc) == acc / (TICK_NANOS as int),
        tick_leftover(acc) == acc % (TICK_NANOS as int),
    decreases acc,
{
    if acc >= TICK_NANOS {
        lemma_ticks_match_time(acc - TICK_NANOS);
        vstd::arithmetic::div_mod::lemma_fundamental_div_mod_converse(
            acc,
            TICK_NANOS as int,
            (acc - TICK_NANOS) / (TICK_NANOS as int) + 1,
            (acc - TICK_NANOS) % (TICK_NANOS as int),
        );
    } else {
        vstd::arithmetic::div_mod::lemma_fundamental_div_mod_converse(acc, TICK_NANOS as int, 0, acc);
    }
}


/// The connected players, by client id: no id and no name occurs twice.
pub open spec fn roster_wf(r: Seq<(u64, Vec<u8>)>) -> bool {
    forall|i: int, j: int| 0 <= i < j < r.len() ==> r[i].0 != r[j].0 && r[i].1@ != r[j].1@
}

/// Some player already uses the name `name`.
pub open spec fn roster_has_name(r: Seq<(u64, Vec<u8>)>, name: Seq<u8>) -> bool {
    exists|i: int| 0 <= i < r.len() && (#[trigger] r[i]).1@ == name
}

/// The client `id` is connected.
pub open spec fn roster_has_id(r: Seq<(u64, Vec<u8>)>, id: u64) -> bool {
    exists|i: int| 0 <= i < r.len() && (#[trigger] r[i]).0 == id
}

/// `after` is the roster `r` without the entry of client `id`, or `r` itself
/// when `id` is not listed.
pub open spec fn roster_without(r: Seq<(u64, Vec<u8>)>, id: u64, after: Seq<(u64, Vec<u8>)>) -> bool {
    ||| !roster_has_id(r, id) && after == r
    ||| exists|i: int| 0 <= i < r.len() && (#[trigger] r[i]).0 == id && after == r.remove(i)
}

fn find_id(roster: &Vec<(u64, Vec<u8>)>, id: u64) -> (r: Option<usize>)
    ensures
        match r {
            Some(i) => i < roster@.len() && roster@[i as int].0 == id,
            None => !roster_has_id(roster@, id),
        },
{
    let mut i: usize = 0;
    while i < roster.len()
        invariant
            0 <= i <= roster@.len(),
            forall|j: int| 0 <= j < i ==> (#[trigger] roster@[j]).0 != id,
        decreases roster@.len() - i,
    {
        if roster[i].0 == id {
            return Some(i);
        }
        i = i + 1;
    }
    None
}

fn names_of(roster: &Vec<(u64, Vec<u8>)>) -> (r: Vec<Vec<u8>>)
    ensures
        r@.len() == roster@.len(),
        forall|i: int| 0 <= i < r@.len() ==> (#[trigger] r@[i])@ == roster@[i].1@,
{
    let mut r: Vec<Vec<u8>> = Vec::new();
    let mut i: usize = 0;
    while i < roster.len()
        invariant
            0 <= i <= roster@.len(),
            r@.len() == i,
            forall|j: int| 0 <= j < i ==> (#[trigger] r@[j])@ == roster@[j].1@,
        decreases roster@.len() - i,
    {
        let name = &roster[i].1;
        let mut copy: Vec<u8> = Vec::new();
        let mut k: usize = 0;
        while k < name.len()
            invariant
                0 <= k <= name@.len(),
                copy@ == name@.take(k as int),
            decreases name@.len() - k,
        {
            copy.push(name[k]);
            assert(name@.take(k + 1) =~= name@.take(k as int).push(name@[k as int]));
            k = k + 1;
        }
        assert(name@.take(name@.len() as int) =~= name@);
        r.push(copy);
        i = i + 1;
    }
    r
}

/// A client joins under `name`: refused, and nothing changes, when a
/// connected player already uses that name; otherwise the client is listed
/// under it, replacing an earlier entry of the same client. Names and ids
/// stay distinct.
pub fn player_joins(roster: &mut Vec<(u64, Vec<u8>)>, id: u64, name: Vec<u8>) -> (r: bool)
    requires
        roster_wf(old(roster)@),
    ensures
        r == !roster_has_name(old(roster)@, name@),
        !r ==> final(roster)@ == old(roster)@,
        r ==> exists|rest: Seq<(u64, Vec<u8>)>| roster_without(old(roster)@, id, rest) && final(roster)@ == rest.push((id, name)),
        roster_wf(final(roster)@),
{
    let names = names_of(roster);
    if crate::text::name_taken(&names, name.as_slice()) {
        proof {
            let i = choose|i: int| 0 <= i < names@.len() && (#[trigger] names@[i])@ == name@;
            assert(roster@[i].1@ == name@);
        }
        return false;
    }
    proof {
        assert forall|i: int| 0 <= i < roster@.len() implies (#[trigger] roster@[i]).1@ != name@ by {
            assert(names@[i]@ == roster@[i].1@);
        }
    }
    let ghost before = roster@;
    match find_id(roster, id) {
        Some(i) => {
            roster.remove(i);
            proof {
                assert forall|a: int, b: int| 0 <= a < b < roster@.len() implies roster@[a].0 != roster@[b].0 && roster@[a].1@ != roster@[b].1@ by {
                    let a0 = if a < i { a } else { a + 1 };
                    let b0 = if b < i { b } else { b + 1 };
                    assert(roster@[a] == before[a0] && roster@[b] == before[b0]);
                }
                assert(roster_without(before, id, roster@));
            }
        },
        None => {},
    }
    let ghost rest = roster@;
    proof {
        assert forall|j: int| 0 <= j < rest.len() implies (#[trigger] rest[j]).0 != id && rest[j].1@ != name@ by {
            if roster_has_id(before, id) {
                let i = choose|i: int| 0 <= i < before.len() && (#[trigger] before[i]).0 == id && rest == before.remove(i);
                let j0 = if j < i { j } else { j + 1 };
                assert(rest[j] == before[j0]);
                assert(before[i].0 == id);
            } else {
                assert(rest[j] == before[j]);
            }
        }
    }
    roster.push((id, name));
    proof {
        assert forall|a: int, b: int| 0 <= a < b < roster@.len() implies roster@[a].0 != roster@[b].0 && roster@[a].1@ != roster@[b].1@ by {
            if b == rest.len() {
                assert(roster@[a] == rest[a]);
            } else {
                assert(roster@[a] == rest[a] && roster@[b] == rest[b]);
            }
        }
    }
    true
}

/// A client leaves: its entry is taken off the roster and its name given
/// back; `None`, and nothing changes, for a client that is not listed.
pub fn player_leaves(roster: &mut Vec<(u64, Vec<u8>)>, id: u64) -> (r: Option<Vec<u8>>)
    requires
        roster_wf(old(roster)@),
    ensures
        match r {
            Some(name) => exists|i: int|
                0 <= i < old(roster)@.len() && (#[trigger] old(roster)@[i]).0 == id && name == old(roster)@[i].1
                    && final(roster)@ == old(roster)@.remove(i),
            None => !roster_has_id(old(roster)@, id) && final(roster)@ == old(roster)@,
        },
        roster_wf(final(roster)@),
{
    let ghost before = roster@;
    match find_id(roster, id) {
        Some(i) => {
            let (_, name) = roster.remove(i);
            proof {
                assert forall|a: int, b: int| 0 <= a < b < roster@.len() implies roster@[a].0 != roster@[b].0 && roster@[a].1@ != roster@[b].1@ by {
                    let a0 = if a < i { a } else { a + 1 };
                    let b0 = if b < i { b } else { b + 1 };
                    assert(roster@[a] == before[a0] && roster@[b] == before[b0]);
                }
            }
            Some(name)
        },
        None => None,
    }
}

} // verus!
