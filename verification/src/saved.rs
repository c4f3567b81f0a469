//! The blocks that players placed or broke, kept per chunk so that a world
//! can be saved and regenerated with them.

use vstd::prelude::*;
use std::collections::HashMap;
use crate::block::Block;
use crate::coords::{IVec3, key_of, lemma_key_injective, lemma_key_round_trip, pos_of_key};

verus! {

broadcast use vstd::std_specs::hash::group_hash_axioms;

/// The blocks changed inside one chunk, by local position.
pub struct SavedChunk {
    /// Changed blocks, keyed by `IVec3::key` of their local position.
    pub blocks: HashMap<u128, Block>,
}

/// Every map key stands for the position it decodes to.
pub open spec fn keys_decode<V>(m: Map<u128, V>) -> bool {
    forall|k: u128| #[trigger] m.contains_key(k) ==> key_of(pos_of_key(k)) == k
}

/// A map keyed by position keys, seen as a map keyed by positions.
pub open spec fn by_position<V>(m: Map<u128, V>) -> Map<IVec3, V> {
    Map::new(|p: IVec3| m.contains_key(key_of(p)), |p: IVec3| m[key_of(p)])
}

impl View for SavedChunk {
    type V = Map<IVec3, Block>;

    open spec fn view(&self) -> Map<IVec3, Block> {
        by_position(self.blocks@)
    }
}

impl SavedChunk {
    pub open spec fn wf(&self) -> bool {
        keys_decode(self.blocks@)
    }

    pub fn new() -> (r: SavedChunk)
        ensures
            r.wf(),
            r@ == Map::<IVec3, Block>::empty(),
    {
        let r = SavedChunk { blocks: HashMap::new() };
        assert(r@ =~= Map::<IVec3, Block>::empty());
        r
    }

    /// A saved chunk holding one changed block.
    pub fn single(pos: IVec3, block: Block) -> (r: SavedChunk)
        ensures
            r.wf(),
            r@ == Map::<IVec3, Block>::empty().insert(pos, block),
    {
        let mut r = SavedChunk::new();
        r.insert(pos, block);
        r
    }

    /// Records `block` at local position `pos`, replacing what was there.
    pub fn insert(&mut self, pos: IVec3, block: Block)
        requires
            old(self).wf(),
        ensures
            final(self).wf(),
            final(self)@ == old(self)@.insert(pos, block),
    {
        let k = pos.key();
        self.blocks.insert(k, block);
        proof {
            lemma_key_round_trip(pos);
            assert forall|p: IVec3| #![trigger key_of(p)] key_of(p) == k <==> p == pos by {
                lemma_key_injective(p, pos);
            }
            assert(final(self)@ =~= old(self)@.insert(pos, block));
        }
    }

    /// The block recorded at local position `pos`.
    pub fn get(&self, pos: IVec3) -> (r: Option<Block>)
        ensures
            r == (if self@.contains_key(pos) {
                Some(self@[pos])
            } else {
                None
            }),
    {
        match self.blocks.get(&pos.key()) {
            Some(b) => Some(*b),
            None => None,
        }
    }

    pub fn len(&self) -> (r: usize)
        requires
            self.wf(),
        ensures
            r == self@.dom().len(),
    {
        proof {
            vstd::std_specs::hash::axiom_hashmap_view_finite_dom(self.blocks);
            lemma_by_position_len(self.blocks@);
        }
        self.blocks.len()
    }
}

impl Clone for SavedChunk {
    fn clone(&self) -> (r: SavedChunk)
        ensures
            r.blocks@ == self.blocks@,
    {
        SavedChunk { blocks: self.blocks.clone() }
    }
}

/// Viewing a map with decodable keys by position keeps its size.
pub proof fn lemma_by_position_len<V>(m: Map<u128, V>)
    requires
        keys_decode(m),
        m.dom().finite(),
    ensures
        by_position(m).dom().len() == m.dom().len(),
        by_position(m).dom().finite(),
{
    let f = |k: u128| pos_of_key(k);
    assert forall|k1: u128, k2: u128|
        m.dom().contains(k1) && m.dom().contains(k2) && #[trigger] f(k1) == #[trigger] f(k2) implies k1 == k2 by {
    }
    assert(by_position(m).dom() =~= m.dom().map(f)) by {
        assert forall|p: IVec3| by_position(m).dom().contains(p) implies #[trigger] m.dom().map(f).contains(p) by {
            lemma_key_round_trip(p);
            assert(f(key_of(p)) == p);
        }
        assert forall|p: IVec3| #[trigger] m.dom().map(f).contains(p) implies by_position(m).dom().contains(p) by {
            let k = choose|k: u128| m.dom().contains(k) && f(k) == p;
            assert(key_of(p) == k);
        }
    }
    assert(vstd::relations::injective_on(f, m.dom()));
    vstd::set_lib::lemma_map_size(m.dom(), m.dom().map(f), f);
}


/// The changed blocks of a whole world, by chunk position.
pub struct WorldEdits {
    /// Saved chunks, keyed by `IVec3::key` of their chunk position.
    pub chunks: HashMap<u128, SavedChunk>,
}

impl View for WorldEdits {
    type V = Map<IVec3, Map<IVec3, Block>>;

    open spec fn view(&self) -> Map<IVec3, Map<IVec3, Block>> {
        Map::new(
            |p: IVec3| self.chunks@.contains_key(key_of(p)),
            |p: IVec3| self.chunks@[key_of(p)]@,
        )
    }
}

/// What a chunk's changes become once `block` is recorded at `local`.
pub open spec fn with_block(
    edits: Map<IVec3, Map<IVec3, Block>>,
    chunk_pos: IVec3,
    local: IVec3,
    block: Block,
) -> Map<IVec3, Map<IVec3, Block>> {
    let before = if edits.contains_key(chunk_pos) {
        edits[chunk_pos]
    } else {
        Map::empty()
    };
    edits.insert(chunk_pos, before.insert(local, block))
}

impl WorldEdits {
    pub open spec fn wf(&self) -> bool {
        &&& keys_decode(self.chunks@)
        &&& forall|k: u128| #[trigger] self.chunks@.contains_key(k) ==> self.chunks@[k].wf()
    }

    pub fn new() -> (r: WorldEdits)
        ensures
            r.wf(),
            r@ == Map::<IVec3, Map<IVec3, Block>>::empty(),
    {
        let r = WorldEdits { chunks: HashMap::new() };
        assert(r@ =~= Map::<IVec3, Map<IVec3, Block>>::empty());
        r
    }

    /// The changes saved for the chunk at `chunk_pos`.
    pub fn get(&self, chunk_pos: IVec3) -> (r: Option<&SavedChunk>)
        requires
            self.wf(),
        ensures
            match r {
                Some(c) => self@.contains_key(chunk_pos) && c@ == self@[chunk_pos] && c.wf(),
                None => !self@.contains_key(chunk_pos),
            },
    {
        self.chunks.get(&chunk_pos.key())
    }

    /// Records `block` at local position `local` of the chunk at
    /// `chunk_pos`, starting that chunk's record if it has none.
    pub fn record(&mut self, chunk_pos: IVec3, local: IVec3, block: Block)
        requires
            old(self).wf(),
        ensures
            final(self).wf(),
            final(self)@ == with_block(old(self)@, chunk_pos, local, block),
    {
        let k = chunk_pos.key();
        let saved = match self.chunks.remove(&k) {
            Some(mut saved) => {
                saved.insert(local, block);
                saved
            },
            None => SavedChunk::single(local, block),
        };
        self.chunks.insert(k, saved);
        proof {
            lemma_key_round_trip(chunk_pos);
            assert forall|p: IVec3| #![trigger key_of(p)] key_of(p) == k <==> p == chunk_pos by {
                lemma_key_injective(p, chunk_pos);
            }
            assert(final(self)@ =~= with_block(old(self)@, chunk_pos, local, block));
        }
    }
}


/// A recorded block is read back from its chunk's changes, and the changes
/// of every other position and chunk stay as they were.
pub proof fn lemma_record_then_read(
    edits: Map<IVec3, Map<IVec3, Block>>,
    chunk_pos: IVec3,
    local: IVec3,
    block: Block,
    other_chunk: IVec3,
    other_local: IVec3,
)
    ensures
        with_block(edits, chunk_pos, local, block).contains_key(chunk_pos),
        with_block(edits, chunk_pos, local, block)[chunk_pos].contains_key(local),
        with_block(edits, chunk_pos, local, block)[chunk_pos][local] == block,
        other_chunk != chunk_pos ==> with_block(edits, chunk_pos, local, block).contains_key(other_chunk)
            == edits.contains_key(other_chunk),
        other_chunk != chunk_pos && edits.contains_key(other_chunk) ==> with_block(
            edits,
            chunk_pos,
            local,
            block,
        )[other_chunk] == edits[other_chunk],
        other_local != local && edits.contains_key(chunk_pos) ==> (with_block(
            edits,
            chunk_pos,
            local,
            block,
        )[chunk_pos].contains_key(other_local) == edits[chunk_pos].contains_key(other_local)),
        other_local != local && edits.contains_key(chunk_pos) && edits[chunk_pos].contains_key(
            other_local,
        ) ==> with_block(edits, chunk_pos, local, block)[chunk_pos][other_local]
            == edits[chunk_pos][other_local],
{
}

} // verus!
