//! The chunks a client holds: those loaded and those still being generated,
//! which chunks to start generating, and meshing a loaded chunk against its
//! loaded neighbours.

use vstd::prelude::*;
use std::collections::{HashMap, HashSet};
use crate::block::{Block, BlockKind, Direction, spec_is_solid};
use crate::chunk::{BorderHeights, Chunk};
use crate::coords::{IVec3, in_chunk, key_of, lemma_key_injective, lemma_key_round_trip, linear_index, pos_of_key, split_world_pos};
use crate::mesher::{ChunkMesh, mesh_vertices, quad_indices};
use crate::saved::{WorldEdits, by_position, keys_decode, lemma_by_position_len, with_block};
use crate::world::{
    Placement, block_to_place, border_neighbors, global_of, neighbors_fit, place_block, place_fits, placement_cell,
    placement_target, solid_block_at,
};
use crate::chunk::air_block;

verus! {

broadcast use vstd::std_specs::hash::group_hash_axioms;

/// The chunks a client holds.
pub struct ChunkStore {
    /// Loaded chunks, keyed by `IVec3::key` of their position.
    pub chunks: HashMap<u128, Chunk>,
    /// Keys of the chunks being generated.
    pub loading: HashSet<u128>,
}

/// The chunks that are new to a client that knows the chunks `known`, taken
/// from `wanted` in order, each once.
pub open spec fn new_loads(known: Set<IVec3>, wanted: Seq<IVec3>) -> Seq<IVec3>
    decreases wanted.len(),
{
    if wanted.len() == 0 {
        Seq::empty()
    } else {
        let before = new_loads(known, wanted.drop_last());
        let p = wanted.last();
        if known.contains(p) || before.contains(p) {
            before
        } else {
            before.push(p)
        }
    }
}

/// The loaded chunk at `p`, if any.
pub open spec fn chunk_at<'a>(loaded: &'a Map<IVec3, Chunk>, p: IVec3) -> Option<&'a Chunk> {
    if loaded.contains_key(p) {
        Some(&loaded[p])
    } else {
        None
    }
}

/// The left neighbour of a chunk position.
pub open spec fn left_of(p: IVec3) -> IVec3 {
    IVec3 { x: (p.x - 1) as i32, y: p.y, z: p.z }
}

/// The neighbour behind a chunk position.
pub open spec fn back_of(p: IVec3) -> IVec3 {
    IVec3 { x: p.x, y: p.y, z: (p.z - 1) as i32 }
}

impl ChunkStore {
    /// The loaded chunks, by position.
    pub open spec fn loaded(&self) -> Map<IVec3, Chunk> {
        by_position(self.chunks@)
    }

    /// The positions of the chunks being generated.
    pub open spec fn loading_set(&self) -> Set<IVec3> {
        Set::new(|p: IVec3| self.loading@.contains(key_of(p)))
    }

    /// The positions the store knows: loaded or being generated.
    pub open spec fn known(&self) -> Set<IVec3> {
        self.loaded().dom().union(self.loading_set())
    }

    /// Every key stands for a position, and every loaded chunk is whole and
    /// kept under its own position.
    pub open spec fn wf(&self) -> bool {
        &&& keys_decode(self.chunks@)
        &&& forall|k: u128| #[trigger] self.loading@.contains(k) ==> key_of(pos_of_key(k)) == k
        &&& forall|k: u128| #[trigger] self.chunks@.contains_key(k) ==> self.chunks@[k].wf() && key_of(self.chunks@[k].pos) == k
    }

    pub fn new() -> (r: ChunkStore)
        ensures
            r.wf(),
            r.loaded() == Map::<IVec3, Chunk>::empty(),
            r.loading_set() == Set::<IVec3>::empty(),
    {
        let r = ChunkStore { chunks: HashMap::new(), loading: HashSet::new() };
        assert(r.loaded() =~= Map::<IVec3, Chunk>::empty());
        assert(r.loading_set() =~= Set::<IVec3>::empty());
        r
    }

    /// The loaded chunk at `pos`.
    pub fn get(&self, pos: IVec3) -> (r: Option<&Chunk>)
        requires
            self.wf(),
        ensures
            r == chunk_at(&self.loaded(), pos),
            r matches Some(c) ==> c.wf() && c.pos == pos,
    {
        let r = self.chunks.get(&pos.key());
        proof {
            if r is Some {
                lemma_key_injective(self.chunks@[key_of(pos)].pos, pos);
            }
        }
        r
    }

    /// How many chunks are loaded.
    pub fn loaded_count(&self) -> (r: usize)
        requires
            self.wf(),
        ensures
            r == self.loaded().dom().len(),
    {
        proof {
            vstd::std_specs::hash::axiom_hashmap_view_finite_dom(self.chunks);
            lemma_by_position_len(self.chunks@);
        }
        self.chunks.len()
    }

    /// Whether the chunk at `pos` is being generated.
    pub fn is_loading(&self, pos: IVec3) -> (r: bool)
        ensures
            r == self.loading_set().contains(pos),
    {
        self.loading.contains(&pos.key())
    }

    /// Marks the chunks of `wanted` that are neither loaded nor being
    /// generated as being generated, and returns them in order, each once:
    /// those are the chunks to generate and to ask the server about.
    pub fn request_loads(&mut self, wanted: &Vec<IVec3>) -> (r: Vec<IVec3>)
        requires
            old(self).wf(),
        ensures
            final(self).wf(),
            r@ == new_loads(old(self).known(), wanted@),
            final(self).loaded() == old(self).loaded(),
            final(self).loading_set() == old(self).loading_set().union(r@.to_set()),
    {
        let ghost known = self.known();
        let mut r: Vec<IVec3> = Vec::new();
        let mut i: usize = 0;
        while i < wanted.len()
            invariant
                0 <= i <= wanted@.len(),
                self.wf(),
                known == old(self).known(),
                self.chunks@ == old(self).chunks@,
                self.loading_set() == old(self).loading_set().union(r@.to_set()),
                r@ == new_loads(known, wanted@.take(i as int)),
            decreases wanted@.len() - i,
        {
            let p = wanted[i];
            let k = p.key();
            proof {
                assert(wanted@.take(i + 1).drop_last() =~= wanted@.take(i as int));
                assert(wanted@.take(i + 1).last() == p);
                lemma_key_round_trip(p);
                assert forall|q: IVec3| #![trigger key_of(q)] key_of(q) == k <==> q == p by {
                    lemma_key_injective(q, p);
                }
            }
            let loaded = self.chunks.contains_key(&k);
            let loading = self.loading.contains(&k);
            proof {
                assert(self.loaded().dom().contains(p) == loaded);
                assert(self.loading_set().contains(p) == loading);
                assert(known.contains(p) || r@.contains(p) <==> loaded || loading);
            }
            if !loaded && !loading {
                let ghost prev_r = r@;
                let ghost prev_set = self.loading_set();
                self.loading.insert(k);
                r.push(p);
                proof {
                    assert forall|q: IVec3| r@.to_set().contains(q) <==> prev_r.to_set().contains(q) || q == p by {
                        if r@.contains(q) {
                            let j = choose|j: int| 0 <= j < r@.len() && r@[j] == q;
                            if j < prev_r.len() {
                                assert(prev_r[j] == q);
                            }
                        }
                        if prev_r.contains(q) {
                            let j = choose|j: int| 0 <= j < prev_r.len() && prev_r[j] == q;
                            assert(r@[j] == q);
                        }
                        if q == p {
                            assert(r@[prev_r.len() as int] == p);
                        }
                    }
                    assert forall|q: IVec3| self.loading_set().contains(q) <==> prev_set.contains(q) || q == p by {
                        assert(self.loading@.contains(key_of(q)) <==> prev_set.contains(q) || key_of(q) == k);
                    }
                    assert(prev_set == old(self).loading_set().union(prev_r.to_set()));
                    assert forall|q: IVec3| #[trigger] self.loading_set().contains(q) == old(self).loading_set().union(r@.to_set()).contains(q) by {
                        assert(prev_set.contains(q) == (old(self).loading_set().contains(q) || prev_r.to_set().contains(q)));
                    }
                    assert(self.loading_set() =~= old(self).loading_set().union(r@.to_set()));
                }
            }
            i = i + 1;
        }
        proof {
            assert(wanted@.take(wanted@.len() as int) =~= wanted@);
            assert(self.loaded() =~= old(self).loaded());
        }
        r
    }

    /// Takes in a generated chunk: it is loaded under its position and no
    /// longer being generated.
    pub fn finish_load(&mut self, chunk: Chunk)
        requires
            old(self).wf(),
            chunk.wf(),
        ensures
            final(self).wf(),
            final(self).loaded() == old(self).loaded().insert(chunk.pos, chunk),
            final(self).loading_set() == old(self).loading_set().remove(chunk.pos),
    {
        let p = chunk.pos;
        let k = p.key();
        self.loading.remove(&k);
        self.chunks.insert(k, chunk);
        proof {
            lemma_key_round_trip(p);
            assert forall|q: IVec3| #![trigger key_of(q)] key_of(q) == k <==> q == p by {
                lemma_key_injective(q, p);
            }
            assert(final(self).loaded() =~= old(self).loaded().insert(p, chunk));
            assert(final(self).loading_set() =~= old(self).loading_set().remove(p));
        }
    }

    /// Forgets the chunk at `pos`, loaded or being generated.
    pub fn unload(&mut self, pos: IVec3)
        requires
            old(self).wf(),
        ensures
            final(self).wf(),
            final(self).loaded() == old(self).loaded().remove(pos),
            final(self).loading_set() == old(self).loading_set().remove(pos),
    {
        let k = pos.key();
        self.chunks.remove(&k);
        self.loading.remove(&k);
        proof {
            lemma_key_round_trip(pos);
            assert forall|q: IVec3| #![trigger key_of(q)] key_of(q) == k <==> q == pos by {
                lemma_key_injective(q, pos);
            }
            assert(final(self).loaded() =~= old(self).loaded().remove(pos));
            assert(final(self).loading_set() =~= old(self).loading_set().remove(pos));
        }
    }

    /// Places `block` at local position `local` of the loaded chunk at
    /// `chunk_pos` (see `place_block`); `None`, and nothing changes, when
    /// that chunk is not loaded.
    pub fn place(&mut self, chunk_pos: IVec3, local: IVec3, block: Block) -> (r: Option<Placement>)
        requires
            old(self).wf(),
            in_chunk(local),
            place_fits(chunk_pos),
        ensures
            final(self).wf(),
            final(self).loading_set() == old(self).loading_set(),
            match r {
                None => !old(self).loaded().contains_key(chunk_pos) && final(self).loaded() == old(self).loaded(),
                Some(p) => {
                    &&& old(self).loaded().contains_key(chunk_pos)
                    &&& final(self).loaded().dom() == old(self).loaded().dom()
                    &&& final(self).loaded()[chunk_pos].pos == chunk_pos
                    &&& final(self).loaded()[chunk_pos].blocks@ == old(self).loaded()[chunk_pos].blocks@.update(
                        linear_index(local),
                        block,
                    )
                    &&& forall|q: IVec3| q != chunk_pos && #[trigger] old(self).loaded().contains_key(q) ==> final(self).loaded()[q] == old(self).loaded()[q]
                    &&& p.remesh@ == border_neighbors(chunk_pos, local).push(chunk_pos)
                    &&& p.global == global_of(chunk_pos, local)
                },
            },
    {
        let k = chunk_pos.key();
        proof {
            lemma_key_round_trip(chunk_pos);
            assert forall|q: IVec3| #![trigger key_of(q)] key_of(q) == k <==> q == chunk_pos by {
                lemma_key_injective(q, chunk_pos);
            }
        }
        match self.chunks.remove(&k) {
            None => {
                proof {
                    assert(final(self).loaded() =~= old(self).loaded());
                }
                None
            },
            Some(mut chunk) => {
                proof {
                    lemma_key_injective(chunk.pos, chunk_pos);
                }
                let p = place_block(&mut chunk, local, block);
                self.chunks.insert(k, chunk);
                proof {
                    assert(final(self).loaded().dom() =~= old(self).loaded().dom());
                }
                Some(p)
            },
        }
    }

    /// The mesh of the loaded chunk at `pos` (see `ChunkMesh::build`), its
    /// left and back neighbours taken from the loaded chunks and the border
    /// terrain in `heights` where those are not loaded; `None` when the chunk
    /// is not loaded or shows no face.
    pub fn mesh(&self, pos: IVec3, heights: &BorderHeights) -> (r: Option<ChunkMesh>)
        requires
            self.wf(),
            i32::MIN < pos.x,
            i32::MIN < pos.z,
        ensures
            match r {
                None => !self.loaded().contains_key(pos) || mesh_vertices(
                    self.loaded()[pos],
                    chunk_at(&self.loaded(), left_of(pos)),
                    chunk_at(&self.loaded(), back_of(pos)),
                    *heights,
                    crate::CHUNK_VOLUME as int,
                ).len() == 0,
                Some(m) => {
                    let verts = mesh_vertices(
                        self.loaded()[pos],
                        chunk_at(&self.loaded(), left_of(pos)),
                        chunk_at(&self.loaded(), back_of(pos)),
                        *heights,
                        crate::CHUNK_VOLUME as int,
                    );
                    &&& self.loaded().contains_key(pos)
                    &&& verts.len() > 0
                    &&& m.vertices@ == verts
                    &&& m.indices@ == quad_indices((verts.len() / 4) as int)
                },
            },
    {
        let chunk = match self.get(pos) {
            Some(c) => c,
            None => return None,
        };
        let left = self.get(IVec3 { x: pos.x - 1, y: pos.y, z: pos.z });
        let back = self.get(IVec3 { x: pos.x, y: pos.y, z: pos.z - 1 });
        let r = ChunkMesh::new().build(chunk, left, back, heights);
        proof {
            assert(Seq::<crate::mesher::Vertex>::empty() + mesh_vertices(
                *chunk,
                left,
                back,
                *heights,
                crate::CHUNK_VOLUME as int,
            ) =~= mesh_vertices(*chunk, left, back, *heights, crate::CHUNK_VOLUME as int));
            assert(Seq::<u32>::empty() + quad_indices(
                (mesh_vertices(*chunk, left, back, *heights, crate::CHUNK_VOLUME as int).len() / 4) as int,
            ) =~= quad_indices(
                (mesh_vertices(*chunk, left, back, *heights, crate::CHUNK_VOLUME as int).len() / 4) as int,
            ));
        }
        r
    }
}


impl ChunkStore {
    /// `place`, in a world that keeps its changes: a placed block is also
    /// recorded in `edits` under its chunk's position.
    pub fn place_recorded(&mut self, chunk_pos: IVec3, local: IVec3, block: Block, edits: &mut WorldEdits) -> (r:
        Option<Placement>)
        requires
            old(self).wf(),
            old(edits).wf(),
            in_chunk(local),
            place_fits(chunk_pos),
        ensures
            final(self).wf(),
            final(edits).wf(),
            final(self).loading_set() == old(self).loading_set(),
            match r {
                None => !old(self).loaded().contains_key(chunk_pos) && final(self).loaded() == old(self).loaded()
                    && final(edits)@ == old(edits)@,
                Some(p) => {
                    &&& old(self).loaded().contains_key(chunk_pos)
                    &&& final(self).loaded().dom() == old(self).loaded().dom()
                    &&& final(self).loaded()[chunk_pos].pos == chunk_pos
                    &&& final(self).loaded()[chunk_pos].blocks@ == old(self).loaded()[chunk_pos].blocks@.update(
                        linear_index(local),
                        block,
                    )
                    &&& forall|q: IVec3| q != chunk_pos && #[trigger] old(self).loaded().contains_key(q) ==> final(self).loaded()[q] == old(self).loaded()[q]
                    &&& p.remesh@ == border_neighbors(chunk_pos, local).push(chunk_pos)
                    &&& p.global == global_of(chunk_pos, local)
                    &&& final(edits)@ == with_block(old(edits)@, chunk_pos, local, block)
                },
            },
    {
        let r = self.place(chunk_pos, local, block);
        if r.is_some() {
            edits.record(chunk_pos, local, block);
        }
        r
    }

    /// Where a block of `kind` goes when it is placed against face `normal`
    /// of the block at `local` in the chunk at `chunk_pos`, and the block
    /// itself (see `placement_cell` and `block_to_place`): only into a loaded
    /// chunk, and only into a cell that holds plain air.
    pub fn placement_for(&self, chunk_pos: IVec3, local: IVec3, normal: Direction, kind: BlockKind) -> (r: Option<
        (IVec3, IVec3, Block),
    >)
        requires
            self.wf(),
            in_chunk(local),
            neighbors_fit(chunk_pos),
        ensures
            r == (match placement_cell(chunk_pos, local, normal) {
                Some((c, l)) => if self.loaded().contains_key(c) && self.loaded()[c].blocks@[linear_index(l)]
                    == air_block() {
                    Some(
                        (
                            c,
                            l,
                            Block {
                                kind,
                                direction: if kind == BlockKind::Wood {
                                    normal
                                } else {
                                    Direction::Top
                                },
                            },
                        ),
                    )
                } else {
                    None
                },
                None => None,
            }),
            r matches Some((_, l, _)) ==> in_chunk(l),
    {
        let (c, l) = match placement_target(chunk_pos, local, normal) {
            Some(t) => t,
            None => return None,
        };
        let chunk = match self.get(c) {
            Some(chunk) => chunk,
            None => return None,
        };
        let current = chunk.blocks[crate::coords::vec3_to_index(l)];
        if current == Block::air() {
            Some((c, l, block_to_place(kind, normal)))
        } else {
            None
        }
    }

    /// The solid block a ray meets in the cell at world position `world`, with
    /// the chunk and local position that hold it: `None` when that chunk is
    /// not loaded, the cell lies above or below the world, or its block is
    /// air or water.
    pub fn solid_at(&self, world: IVec3) -> (r: Option<(IVec3, IVec3, Block)>)
        requires
            self.wf(),
        ensures
            ({
                let c = IVec3 { x: (world.x / 16) as i32, y: 0, z: (world.z / 16) as i32 };
                let l = IVec3 { x: (world.x % 16) as i32, y: world.y, z: (world.z % 16) as i32 };
                r == (if self.loaded().contains_key(c) && 0 <= world.y < 256 && spec_is_solid(
                    self.loaded()[c].blocks@[linear_index(l)].kind,
                ) {
                    Some((c, l, self.loaded()[c].blocks@[linear_index(l)]))
                } else {
                    None
                })
            }),
    {
        let (c, l) = split_world_pos(world);
        match self.get(c) {
            Some(chunk) => match solid_block_at(chunk, l) {
                Some(b) => Some((c, l, b)),
                None => None,
            },
            None => None,
        }
    }
}

/// Asking for chunks never asks for one twice, nor for one the client
/// already holds or is generating.
pub proof fn lemma_new_loads_are_new(known: Set<IVec3>, wanted: Seq<IVec3>)
    ensures
        new_loads(known, wanted).no_duplicates(),
        forall|i: int| 0 <= i < new_loads(known, wanted).len() ==> !known.contains(#[trigger] new_loads(known, wanted)[i]),
        forall|i: int| 0 <= i < new_loads(known, wanted).len() ==> wanted.contains(#[trigger] new_loads(known, wanted)[i]),
    decreases wanted.len(),
{
    if wanted.len() > 0 {
        lemma_new_loads_are_new(known, wanted.drop_last());
        let before = new_loads(known, wanted.drop_last());
        assert forall|i: int| 0 <= i < before.len() implies wanted.contains(#[trigger] before[i]) by {
            let j = choose|j: int| 0 <= j < wanted.drop_last().len() && wanted.drop_last()[j] == before[i];
            assert(wanted[j] == before[i]);
        }
        assert(wanted[wanted.len() - 1] == wanted.last());
    }
}

/// Every wanted chunk is known once it has been asked for: either the client
/// already knew it or it is among the chunks just asked for.
pub proof fn lemma_wanted_become_known(known: Set<IVec3>, wanted: Seq<IVec3>, i: int)
    requires
        0 <= i < wanted.len(),
    ensures
        known.contains(wanted[i]) || new_loads(known, wanted).contains(wanted[i]),
    decreases wanted.len(),
{
    let before = new_loads(known, wanted.drop_last());
    if i < wanted.len() - 1 {
        lemma_wanted_become_known(known, wanted.drop_last(), i);
        assert(wanted.drop_last()[i] == wanted[i]);
        if before.contains(wanted[i]) {
            let j = choose|j: int| 0 <= j < before.len() && before[j] == wanted[i];
            assert(new_loads(known, wanted)[j] == wanted[i]);
        }
    } else {
        if !known.contains(wanted[i]) && !before.contains(wanted[i]) {
            assert(new_loads(known, wanted) == before.push(wanted[i]));
            assert(new_loads(known, wanted)[before.len() as int] == wanted[i]);
        }
    }
}

} // verus!
