//! The world streamer: owns the chunk cache, loads the surroundings of the
//! tracked chunk and undraws what has fallen behind.
//!
//! A chunk is generated when its coordinates are first asked for and is never
//! removed from the cache; eviction only clears its `drawn` flag, so that a
//! later visit redraws it from the stored descriptors.

use bevy::utils::HashMap;
use vstd::prelude::*;
use crate::generator::{generate_chunk, generate_spec, Chunk, ChunkView, DrawDescriptor};
use crate::tracker::{chunk_of_tile, PlayerPositionUpdate};
use crate::world::{floor_div, CHUNK_SPAN, TILE_SIZE};

verus! {

/// The chunks of a cache by their coordinates, in `bevy::utils::HashMap`, the
/// hash map of the engine. Nothing is proved of the map itself: what the
/// functions below state of it is taken from its documentation.
#[verifier::external_body]
pub struct ChunkMap {
    chunks: HashMap<(i32, i32), Chunk>,
}

/// What a chunk map holds: the content of each chunk, by its coordinates.
pub uninterp spec fn chunk_map_contents(map: ChunkMap) -> Map<(i32, i32), ChunkView>;

/// Calls `HashMap::default`, which makes a map that holds nothing.
#[verifier::external_body]
fn chunk_map_new() -> (created: ChunkMap)
    ensures
        forall|c: (i32, i32)| !chunk_map_contents(created).contains_key(c),
{
    ChunkMap { chunks: HashMap::default() }
}

/// Calls `HashMap::len`, which gives the number of entries.
#[verifier::external_body]
fn chunk_map_len(map: &ChunkMap) -> (n: usize)
    ensures
        n == chunk_map_contents(*map).dom().len(),
{
    map.chunks.len()
}

/// Calls `HashMap::get`, which gives the chunk under the key `(x, y)` if the
/// map holds one, and nothing otherwise.
#[verifier::external_body]
fn chunk_map_get(map: &ChunkMap, x: i32, y: i32) -> (found: Option<&Chunk>)
    ensures
        found.is_some() == chunk_map_contents(*map).contains_key((x, y)),
        found.is_some() ==> found.unwrap()@ == chunk_map_contents(*map)[(x, y)],
{
    map.chunks.get(&(x, y))
}

/// Calls `HashMap::insert`, which puts `chunk` under the key `(x, y)` and
/// hands back the chunk that was there before, if there was one; the other
/// entries stay as they are.
#[verifier::external_body]
fn chunk_map_insert(map: &mut ChunkMap, x: i32, y: i32, chunk: Chunk) -> (previous: Option<Chunk>)
    ensures
        chunk_map_contents(*final(map)) == chunk_map_contents(*old(map)).insert((x, y), chunk@),
        previous.is_some() == chunk_map_contents(*old(map)).contains_key((x, y)),
        previous.is_some() ==> previous.unwrap()@ == chunk_map_contents(*old(map))[(x, y)],
{
    map.chunks.insert((x, y), chunk)
}

/// Calls `HashMap::remove`, which takes the chunk under the key `(x, y)` out
/// of the map and hands it back, if there is one; the other entries stay as
/// they are.
#[verifier::external_body]
fn chunk_map_remove(map: &mut ChunkMap, x: i32, y: i32) -> (removed: Option<Chunk>)
    ensures
        chunk_map_contents(*final(map)) == chunk_map_contents(*old(map)).remove((x, y)),
        removed.is_some() == chunk_map_contents(*old(map)).contains_key((x, y)),
        removed.is_some() ==> removed.unwrap()@ == chunk_map_contents(*old(map))[(x, y)],
{
    map.chunks.remove(&(x, y))
}

/// Offset of the `m`-th neighbour from the centre chunk: east first, west last.
pub open spec fn neighbor_offset(m: int) -> (int, int) {
    if m == 0 {
        (1, 0)
    } else if m == 1 {
        (1, 1)
    } else if m == 2 {
        (1, -1)
    } else if m == 3 {
        (0, 1)
    } else if m == 4 {
        (0, -1)
    } else if m == 5 {
        (-1, 1)
    } else if m == 6 {
        (-1, 0)
    } else {
        (-1, -1)
    }
}

/// Coordinates of the `m`-th neighbour of chunk `(cx, cy)`.
pub open spec fn neighbor(cx: i32, cy: i32, m: int) -> (i32, i32) {
    ((cx + neighbor_offset(m).0) as i32, (cy + neighbor_offset(m).1) as i32)
}

/// The eight chunks around `(cx, cy)`.
pub open spec fn neighbors(cx: i32, cy: i32) -> Seq<(i32, i32)> {
    Seq::new(8, |m: int| neighbor(cx, cy, m))
}

/// Whether `d` is one of the first `n` entries of `list`.
pub open spec fn among(list: Seq<(i32, i32)>, n: int, d: (i32, i32)) -> bool {
    exists|m: int| 0 <= m < n && #[trigger] list[m] == d
}

/// Coordinates of the `m`-th neighbour of chunk `(cx, cy)`.
pub fn neighbor_at(cx: i32, cy: i32, m: usize) -> (c: (i32, i32))
    requires
        i32::MIN < cx < i32::MAX,
        i32::MIN < cy < i32::MAX,
        m < 8,
    ensures
        c == neighbor(cx, cy, m as int),
{
    if m == 0 {
        (cx + 1, cy)
    } else if m == 1 {
        (cx + 1, cy + 1)
    } else if m == 2 {
        (cx + 1, cy - 1)
    } else if m == 3 {
        (cx, cy + 1)
    } else if m == 4 {
        (cx, cy - 1)
    } else if m == 5 {
        (cx - 1, cy + 1)
    } else if m == 6 {
        (cx - 1, cy)
    } else {
        (cx - 1, cy - 1)
    }
}

/// What the renderer has to do for one chunk that was asked for.
#[derive(Debug)]
pub enum ChunkLoad {
    /// The chunk is cached and on screen: nothing to do.
    AlreadyDrawn,
    /// The chunk was cached but not on screen: draw the stored descriptors.
    Redrawn(Vec<DrawDescriptor>),
    /// The chunk was generated just now: draw its descriptors.
    Generated(Vec<DrawDescriptor>),
}

/// Mathematical content of a `ChunkLoad`.
pub enum LoadOutcome {
    AlreadyDrawn,
    Redrawn(Seq<DrawDescriptor>),
    Generated(Seq<DrawDescriptor>),
}

impl View for ChunkLoad {
    type V = LoadOutcome;

    open spec fn view(&self) -> LoadOutcome {
        match self {
            ChunkLoad::AlreadyDrawn => LoadOutcome::AlreadyDrawn,
            ChunkLoad::Redrawn(bundles) => LoadOutcome::Redrawn(bundles@),
            ChunkLoad::Generated(bundles) => LoadOutcome::Generated(bundles@),
        }
    }
}

/// The mathematical content of each action of a list.
pub open spec fn load_views(loads: Seq<ChunkLoad>) -> Seq<LoadOutcome> {
    loads.map_values(|load: ChunkLoad| load@)
}

/// A render entity that shows a chunk: its handle and its world-space origin.
#[derive(Clone, Copy, Debug, PartialEq, Eq, Structural)]
pub struct ChunkEntity {
    pub id: u64,
    pub x: i64,
    pub y: i64,
}

/// What to do with a render entity after an eviction pass.
#[derive(Clone, Copy, Debug, PartialEq, Eq, Structural)]
pub enum Eviction {
    /// The entity is near enough and stays.
    Kept,
    /// The entity is to be despawned; its chunk stays cached, undrawn.
    Despawned,
}

/// A render entity was due for removal but the cache holds no chunk for it.
#[derive(Clone, Copy, Debug, PartialEq, Eq, Structural)]
pub struct CacheMismatch {
    pub entity: u64,
    pub chunk_x: i64,
    pub chunk_y: i64,
}

/// Whether the entity at `(ex, ey)` is further than two and a half chunks
/// from `(px, py)`, in a straight line.
pub open spec fn too_far(px: int, py: int, ex: int, ey: int) -> bool {
    4 * ((ex - px) * (ex - px) + (ey - py) * (ey - py)) > (5 * CHUNK_SPAN) * (5 * CHUNK_SPAN)
}

/// Chunk coordinates of the chunk whose tiles cover the world position.
pub open spec fn chunk_of_position(x: int, y: int) -> (int, int) {
    (x / CHUNK_SPAN as int, y / CHUNK_SPAN as int)
}

/// World-space origin of the chunk at `c`: where its render entity stands.
pub open spec fn origin_of_chunk(c: (i32, i32)) -> (int, int) {
    (CHUNK_SPAN as int * c.0 as int, CHUNK_SPAN as int * c.1 as int)
}

/// World-space origin of the chunk at `(x, y)`.
pub fn chunk_origin(x: i32, y: i32) -> (origin: (i64, i64))
    ensures
        (origin.0 as int, origin.1 as int) == origin_of_chunk((x, y)),
        chunk_of_position(origin.0 as int, origin.1 as int) == (x as int, y as int),
{
    let span: i64 = CHUNK_SPAN;
    assert(span == 1024);
    (span * (x as i64), span * (y as i64))
}

/// Whether the chunk coordinates can be a key of the cache.
pub open spec fn addressable(c: (int, int)) -> bool {
    i32::MIN <= c.0 <= i32::MAX && i32::MIN <= c.1 <= i32::MAX
}

/// Whether one of the first `n` entities is too far from `(px, py)` and shows
/// chunk `d`.
pub open spec fn evicts(entities: Seq<ChunkEntity>, n: int, px: int, py: int, d: (i32, i32)) -> bool {
    exists|m: int|
        0 <= m < n && too_far(px, py, (#[trigger] entities[m]).x as int, entities[m].y as int)
            && chunk_of_position(entities[m].x as int, entities[m].y as int) == (
            d.0 as int,
            d.1 as int,
        )
}

fn is_too_far(px: i64, py: i64, ex: i64, ey: i64) -> (far: bool)
    ensures
        far == too_far(px as int, py as int, ex as int, ey as int),
{
    let dx: i128 = ex as i128 - px as i128;
    let dy: i128 = ey as i128 - py as i128;
    let limit: i128 = 2560;
    if dx > limit || dx < -limit || dy > limit || dy < -limit {
        assert(4 * (dx * dx + dy * dy) > 5120 * 5120) by (nonlinear_arith)
            requires
                dx > 2560 || dx < -2560 || dy > 2560 || dy < -2560,
        ;
        true
    } else {
        assert(0 <= dx * dx <= 2560 * 2560 && 0 <= dy * dy <= 2560 * 2560) by (nonlinear_arith)
            requires
                -2560 <= dx <= 2560,
                -2560 <= dy <= 2560,
        ;
        4 * (dx * dx + dy * dy) > 5120 * 5120
    }
}

fn copy_bundles(bundles: &Vec<DrawDescriptor>) -> (copy: Vec<DrawDescriptor>)
    ensures
        copy@ == bundles@,
{
    let mut copy: Vec<DrawDescriptor> = Vec::new();
    let mut i: usize = 0;
    while i < bundles.len()
        invariant
            i <= bundles@.len(),
            copy@ == bundles@.take(i as int),
        decreases bundles@.len() - i,
    {
        copy.push(bundles[i]);
        assert(copy@ =~= bundles@.take(i + 1));
        i += 1;
    }
    assert(bundles@.take(i as int) =~= bundles@);
    copy
}

/// What one tick of streaming asks of the renderer.
#[derive(Debug)]
pub struct StreamUpdate {
    /// One action per neighbour of the tracked chunk; empty when the tracked
    /// chunk has not changed.
    pub loads: Vec<ChunkLoad>,
    /// One entry per render entity; empty when the tracked chunk has not
    /// changed.
    pub evictions: Vec<Result<Eviction, CacheMismatch>>,
}

/// The chunk cache of one world.
pub struct WorldStreamer {
    pub seed: u64,
    pub chunks: ChunkMap,
    /// How often each chunk has been generated.
    pub generated: Ghost<Map<(i32, i32), nat>>,
}

impl WorldStreamer {
    /// Whether the cache holds the chunk at `c`.
    pub open spec fn contains(&self, c: (i32, i32)) -> bool {
        chunk_map_contents(self.chunks).contains_key(c)
    }

    /// The cached chunk at `c`.
    pub open spec fn chunk(&self, c: (i32, i32)) -> ChunkView {
        chunk_map_contents(self.chunks)[c]
    }

    /// How often the chunk at `c` has been generated since the cache was made.
    pub open spec fn generations(&self, c: (i32, i32)) -> nat {
        if self.generated@.contains_key(c) {
            self.generated@[c]
        } else {
            0
        }
    }

    /// The invariant of the cache: it holds finitely many chunks, every entry
    /// sits under its own coordinates and holds exactly what the generator
    /// gives for them, and a chunk has been generated once if it is cached and
    /// never otherwise.
    pub open spec fn wf(&self) -> bool {
        &&& chunk_map_contents(self.chunks).dom().finite()
        &&& forall|c: (i32, i32)| #[trigger]
            self.contains(c) ==> {
                let fresh = generate_spec(c.0, c.1, self.seed);
                &&& self.chunk(c).coordinates == c
                &&& self.chunk(c).tiles == fresh.tiles
                &&& self.chunk(c).bundles == fresh.bundles
            }
        &&& forall|c: (i32, i32)| #[trigger]
            self.generations(c) == (if self.contains(c) {
                1nat
            } else {
                0nat
            })
    }

    /// What asking for the chunk at `c` hands to the renderer.
    pub open spec fn expected_load(&self, c: (i32, i32)) -> LoadOutcome {
        if !self.contains(c) {
            LoadOutcome::Generated(generate_spec(c.0, c.1, self.seed).bundles)
        } else if !self.chunk(c).drawn {
            LoadOutcome::Redrawn(self.chunk(c).bundles)
        } else {
            LoadOutcome::AlreadyDrawn
        }
    }

    /// What an eviction pass from `(px, py)` decides for `entity`.
    pub open spec fn expected_eviction(&self, px: int, py: int, entity: ChunkEntity) -> Result<
        Eviction,
        CacheMismatch,
    > {
        let c = chunk_of_position(entity.x as int, entity.y as int);
        if !too_far(px, py, entity.x as int, entity.y as int) {
            Ok(Eviction::Kept)
        } else if addressable(c) && self.contains((c.0 as i32, c.1 as i32)) {
            Ok(Eviction::Despawned)
        } else {
            Err(CacheMismatch { entity: entity.id, chunk_x: c.0 as i64, chunk_y: c.1 as i64 })
        }
    }

    /// `post` is `self` after the chunk at `c` was asked for: it is cached
    /// and drawn, it was generated only if it was absent, and nothing else
    /// has changed.
    pub open spec fn loaded(&self, post: &WorldStreamer, c: (i32, i32)) -> bool {
        &&& post.seed == self.seed
        &&& forall|d: (i32, i32)| #[trigger] post.contains(d) <==> self.contains(d) || d == c
        &&& forall|d: (i32, i32)|
            d != c && self.contains(d) ==> #[trigger] post.chunk(d) == self.chunk(d)
        &&& post.chunk(c).drawn
        &&& forall|d: (i32, i32)| #[trigger]
            post.generations(d) == self.generations(d) + (if d == c && !self.contains(d) {
                1nat
            } else {
                0nat
            })
    }

    /// `post` is `self` after the first `n` chunks of `list` were asked for.
    pub open spec fn loaded_all(&self, post: &WorldStreamer, list: Seq<(i32, i32)>, n: int) -> bool {
        &&& post.seed == self.seed
        &&& forall|d: (i32, i32)| #[trigger]
            post.contains(d) <==> self.contains(d) || among(list, n, d)
        &&& forall|d: (i32, i32)|
            !among(list, n, d) && self.contains(d) ==> #[trigger] post.chunk(d) == self.chunk(d)
        &&& forall|d: (i32, i32)| among(list, n, d) ==> (#[trigger] post.chunk(d)).drawn
        &&& forall|d: (i32, i32)| #[trigger]
            post.generations(d) == self.generations(d) + (if among(list, n, d) && !self.contains(d) {
                1nat
            } else {
                0nat
            })
    }

    /// `post` is `self` after an eviction pass from `(px, py)` over the first
    /// `n` of `entities`: the same chunks are cached with the same content,
    /// none was generated, and a chunk is drawn if it was drawn before and no
    /// entity that shows it was too far.
    pub open spec fn evicted(
        &self,
        post: &WorldStreamer,
        entities: Seq<ChunkEntity>,
        n: int,
        px: int,
        py: int,
    ) -> bool {
        &&& post.seed == self.seed
        &&& post.generated@ == self.generated@
        &&& forall|d: (i32, i32)| #[trigger] post.contains(d) <==> self.contains(d)
        &&& forall|d: (i32, i32)|
            self.contains(d) ==> #[trigger] post.chunk(d) == (ChunkView {
                drawn: self.chunk(d).drawn && !evicts(entities, n, px, py, d),
                ..self.chunk(d)
            })
    }

    /// `post` is `self` after one tick in which the tracker signalled a new
    /// chunk: the surroundings of the tracked chunk were loaded, which gave
    /// `mid` and `loads`, and then an eviction pass from the origin of the
    /// tracked tile gave `post` and `evictions`.
    pub open spec fn streamed(
        &self,
        mid: &WorldStreamer,
        post: &WorldStreamer,
        tracker: &PlayerPositionUpdate,
        entities: Seq<ChunkEntity>,
        loads: Seq<LoadOutcome>,
        evictions: Seq<Result<Eviction, CacheMismatch>>,
    ) -> bool {
        let cx = chunk_of_tile(tracker.tile_x as int) as i32;
        let cy = chunk_of_tile(tracker.tile_y as int) as i32;
        let px = TILE_SIZE as int * tracker.tile_x as int;
        let py = TILE_SIZE as int * tracker.tile_y as int;
        &&& mid.wf()
        &&& self.loaded_all(mid, neighbors(cx, cy), 8)
        &&& mid.evicted(post, entities, entities.len() as int, px, py)
        &&& loads.len() == 8
        &&& forall|m: int| 0 <= m < 8 ==> #[trigger] loads[m] == self.expected_load(neighbor(cx, cy, m))
        &&& evictions.len() == entities.len()
        &&& forall|m: int|
            0 <= m < entities.len() ==> #[trigger] evictions[m] == mid.expected_eviction(
                px,
                py,
                entities[m],
            )
    }

    /// An empty cache for the world of `seed`.
    pub fn new(seed: u64) -> (streamer: WorldStreamer)
        ensures
            streamer.wf(),
            streamer.seed == seed,
            chunk_map_contents(streamer.chunks) =~= Map::empty(),
            forall|c: (i32, i32)| !streamer.contains(c),
            forall|c: (i32, i32)| streamer.generations(c) == 0,
    {
        let streamer = WorldStreamer { seed, chunks: chunk_map_new(), generated: Ghost(Map::empty()) };
        assert(chunk_map_contents(streamer.chunks).dom() =~= Set::empty());
        streamer
    }

    /// Number of chunks in the cache, which is also the number of chunks
    /// generated so far.
    pub fn cached_chunks(&self) -> (n: usize)
        ensures
            n == chunk_map_contents(self.chunks).dom().len(),
    {
        chunk_map_len(&self.chunks)
    }

    /// Whether the cache holds the chunk at `(x, y)`.
    pub fn is_cached(&self, x: i32, y: i32) -> (cached: bool)
        ensures
            cached == self.contains((x, y)),
    {
        chunk_map_get(&self.chunks, x, y).is_some()
    }

    /// Whether the chunk at `(x, y)` is cached and on screen.
    pub fn is_drawn(&self, x: i32, y: i32) -> (drawn: bool)
        ensures
            drawn == (self.contains((x, y)) && self.chunk((x, y)).drawn),
    {
        match chunk_map_get(&self.chunks, x, y) {
            Some(chunk) => chunk.drawn,
            None => false,
        }
    }

    /// The cached chunk at `(x, y)`, if there is one.
    pub fn get_chunk(&self, x: i32, y: i32) -> (found: Option<&Chunk>)
        ensures
            found.is_some() == self.contains((x, y)),
            found.is_some() ==> found.unwrap()@ == self.chunk((x, y)),
    {
        chunk_map_get(&self.chunks, x, y)
    }

    /// Makes the chunk at `(x, y)` cached and drawn. A cached chunk is never
    /// generated again: it is redrawn from its stored descriptors, or left
    /// alone if it is on screen already.
    pub fn load_chunk(&mut self, x: i32, y: i32) -> (action: ChunkLoad)
        requires
            old(self).wf(),
        ensures
            final(self).wf(),
            old(self).loaded(final(self), (x, y)),
            action@ == old(self).expected_load((x, y)),
    {
        let ghost pre = *self;
        let action: ChunkLoad;
        match chunk_map_remove(&mut self.chunks, x, y) {
            Some(mut chunk) => {
                assert(pre.chunk((x, y)) == chunk@);
                if chunk.drawn {
                    action = ChunkLoad::AlreadyDrawn;
                } else {
                    chunk.drawn = true;
                    action = ChunkLoad::Redrawn(copy_bundles(&chunk.bundles));
                }
                chunk_map_insert(&mut self.chunks, x, y, chunk);
            },
            None => {
                let mut chunk: Chunk = generate_chunk(x, y, self.seed);
                chunk.drawn = true;
                action = ChunkLoad::Generated(copy_bundles(&chunk.bundles));
                chunk_map_insert(&mut self.chunks, x, y, chunk);
                proof {
                    self.generated@ = pre.generated@.insert((x, y), pre.generations((x, y)) + 1);
                }
            },
        }
        proof {
            assert(pre.contains((x, y)) ==> pre.chunk((x, y)).coordinates == (x, y));
            assert forall|d: (i32, i32)| #[trigger] self.contains(d) implies {
                let fresh = generate_spec(d.0, d.1, self.seed);
                &&& self.chunk(d).coordinates == d
                &&& self.chunk(d).tiles == fresh.tiles
                &&& self.chunk(d).bundles == fresh.bundles
            } by {
                if d != (x, y) {
                    assert(pre.contains(d));
                    assert(self.chunk(d) == pre.chunk(d));
                }
            }
            assert forall|d: (i32, i32)| #[trigger]
                self.generations(d) == pre.generations(d) + (if d == (x, y) && !pre.contains(d) {
                    1nat
                } else {
                    0nat
                }) by {}
            assert forall|d: (i32, i32)| #[trigger]
                self.generations(d) == (if self.contains(d) {
                    1nat
                } else {
                    0nat
                }) by {
                assert(pre.generations(d) == (if pre.contains(d) {
                    1nat
                } else {
                    0nat
                }));
            }
        }
        action
    }

    /// Clears the `drawn` flag of the chunk at `(x, y)` and says whether the
    /// cache holds that chunk. The chunk stays cached.
    pub fn undraw_chunk(&mut self, x: i32, y: i32) -> (cached: bool)
        requires
            old(self).wf(),
        ensures
            final(self).wf(),
            cached == old(self).contains((x, y)),
            final(self).seed == old(self).seed,
            final(self).generated@ == old(self).generated@,
            forall|d: (i32, i32)| #[trigger] final(self).contains(d) <==> old(self).contains(d),
            forall|d: (i32, i32)|
                old(self).contains(d) ==> #[trigger] final(self).chunk(d) == (ChunkView {
                    drawn: old(self).chunk(d).drawn && d != (x, y),
                    ..old(self).chunk(d)
                }),
    {
        let ghost pre = *self;
        let cached: bool;
        match chunk_map_remove(&mut self.chunks, x, y) {
            Some(mut chunk) => {
                assert(pre.chunk((x, y)) == chunk@);
                chunk.drawn = false;
                chunk_map_insert(&mut self.chunks, x, y, chunk);
                cached = true;
            },
            None => {
                cached = false;
                assert(chunk_map_contents(self.chunks) =~= chunk_map_contents(pre.chunks));
            },
        }
        proof {
            assert(pre.contains((x, y)) ==> pre.chunk((x, y)).coordinates == (x, y));
            assert forall|d: (i32, i32)| #[trigger] self.contains(d) implies {
                let fresh = generate_spec(d.0, d.1, self.seed);
                &&& self.chunk(d).coordinates == d
                &&& self.chunk(d).tiles == fresh.tiles
                &&& self.chunk(d).bundles == fresh.bundles
            } by {
                if d != (x, y) {
                    assert(pre.contains(d));
                    assert(self.chunk(d) == pre.chunk(d));
                }
            }
            assert forall|d: (i32, i32)| #[trigger]
                self.generations(d) == (if self.contains(d) {
                    1nat
                } else {
                    0nat
                }) by {
                assert(pre.generations(d) == (if pre.contains(d) {
                    1nat
                } else {
                    0nat
                }));
            }
        }
        cached
    }

    /// Loads the eight chunks around `(cx, cy)`; the centre chunk is taken to
    /// be resident already. The result holds one action per neighbour, in
    /// the order of `neighbors`.
    pub fn draw_chunks(&mut self, cx: i32, cy: i32) -> (actions: Vec<ChunkLoad>)
        requires
            old(self).wf(),
            i32::MIN < cx < i32::MAX,
            i32::MIN < cy < i32::MAX,
        ensures
            final(self).wf(),
            old(self).loaded_all(final(self), neighbors(cx, cy), 8),
            actions@.len() == 8,
            forall|m: int|
                0 <= m < 8 ==> (#[trigger] actions@[m])@ == old(self).expected_load(
                    neighbor(cx, cy, m),
                ),
    {
        let ghost pre = *self;
        let ghost list = neighbors(cx, cy);
        let mut actions: Vec<ChunkLoad> = Vec::new();
        let mut i: usize = 0;
        while i < 8
            invariant
                i <= 8,
                i32::MIN < cx < i32::MAX,
                i32::MIN < cy < i32::MAX,
                list == neighbors(cx, cy),
                pre.wf(),
                self.wf(),
                pre.loaded_all(self, list, i as int),
                actions@.len() == i,
                forall|m: int|
                    0 <= m < i ==> (#[trigger] actions@[m])@ == pre.expected_load(neighbor(cx, cy, m)),
            decreases 8 - i,
        {
            let ghost mid = *self;
            let c: (i32, i32) = neighbor_at(cx, cy, i);
            let action: ChunkLoad = self.load_chunk(c.0, c.1);
            proof {
                assert(list[i as int] == c);
                assert(!among(list, i as int, c)) by {
                    assert forall|m: int| 0 <= m < i implies list[m] != c by {
                        assert(list[m] == neighbor(cx, cy, m));
                    }
                }
                assert forall|d: (i32, i32)| among(list, i + 1, d) <==> among(list, i as int, d) || d
                    == c by {
                    if among(list, i as int, d) {
                        let m = choose|m: int| 0 <= m < i && #[trigger] list[m] == d;
                        assert(0 <= m < i + 1 && list[m] == d);
                    }
                    if d == c {
                        assert(0 <= i < i + 1 && list[i as int] == d);
                    }
                }
                assert(mid.contains(c) == pre.contains(c));
                assert(mid.contains(c) ==> mid.chunk(c) == pre.chunk(c));
                assert(action@ == pre.expected_load(c));
                assert forall|d: (i32, i32)| #[trigger]
                    self.generations(d) == pre.generations(d) + (if among(list, i + 1, d)
                        && !pre.contains(d) {
                        1nat
                    } else {
                        0nat
                    }) by {
                    assert(mid.generations(d) == pre.generations(d) + (if among(list, i as int, d)
                        && !pre.contains(d) {
                        1nat
                    } else {
                        0nat
                    }));
                    assert(mid.contains(d) <==> pre.contains(d) || among(list, i as int, d));
                }
                assert forall|d: (i32, i32)| among(list, i + 1, d) implies (#[trigger] self.chunk(
                    d,
                )).drawn by {
                    if d != c {
                        assert(mid.contains(d));
                    }
                }
            }
            actions.push(action);
            i += 1;
        }
        actions
    }

    /// One eviction pass from the tracked position `(px, py)` over the render
    /// entities that show chunks. An entity further away than two and a half
    /// chunks is to be despawned and its chunk is marked as not drawn; the
    /// chunk stays cached. Such an entity without a cached chunk is reported
    /// as a mismatch, and the pass goes on. The result holds one entry per
    /// entity, in the order of `entities`.
    pub fn despawn_chunks(&mut self, px: i64, py: i64, entities: &Vec<ChunkEntity>) -> (outcomes: Vec<
        Result<Eviction, CacheMismatch>,
    >)
        requires
            old(self).wf(),
        ensures
            final(self).wf(),
            old(self).evicted(final(self), entities@, entities@.len() as int, px as int, py as int),
            outcomes@.len() == entities@.len(),
            forall|m: int|
                0 <= m < entities@.len() ==> #[trigger] outcomes@[m] == old(self).expected_eviction(
                    px as int,
                    py as int,
                    entities@[m],
                ),
    {
        let ghost pre = *self;
        let mut outcomes: Vec<Result<Eviction, CacheMismatch>> = Vec::new();
        let mut i: usize = 0;
        while i < entities.len()
            invariant
                i <= entities@.len(),
                pre.wf(),
                self.wf(),
                pre.evicted(self, entities@, i as int, px as int, py as int),
                outcomes@.len() == i,
                forall|m: int|
                    0 <= m < i ==> #[trigger] outcomes@[m] == pre.expected_eviction(
                        px as int,
                        py as int,
                        entities@[m],
                    ),
            decreases entities@.len() - i,
        {
            let ghost mid = *self;
            let entity: ChunkEntity = entities[i];
            let chunk_x: i64 = floor_div(entity.x, CHUNK_SPAN);
            let chunk_y: i64 = floor_div(entity.y, CHUNK_SPAN);
            let ghost here = chunk_of_position(entity.x as int, entity.y as int);
            let far: bool = is_too_far(px, py, entity.x, entity.y);
            let outcome: Result<Eviction, CacheMismatch>;
            if !far {
                outcome = Ok(Eviction::Kept);
            } else if chunk_x < -0x8000_0000i64 || chunk_x > 0x7fff_ffffi64 || chunk_y
                < -0x8000_0000i64 || chunk_y > 0x7fff_ffffi64 {
                outcome = Err(CacheMismatch { entity: entity.id, chunk_x, chunk_y });
            } else if self.undraw_chunk(chunk_x as i32, chunk_y as i32) {
                outcome = Ok(Eviction::Despawned);
            } else {
                outcome = Err(CacheMismatch { entity: entity.id, chunk_x, chunk_y });
            }
            proof {
                assert(outcome == pre.expected_eviction(px as int, py as int, entity));
                assert forall|d: (i32, i32)|
                    evicts(entities@, i + 1, px as int, py as int, d) <==> evicts(
                        entities@,
                        i as int,
                        px as int,
                        py as int,
                        d,
                    ) || (far && here == (d.0 as int, d.1 as int)) by {
                    if evicts(entities@, i as int, px as int, py as int, d) {
                        let m = choose|m: int|
                            0 <= m < i && too_far(
                                px as int,
                                py as int,
                                (#[trigger] entities@[m]).x as int,
                                entities@[m].y as int,
                            ) && chunk_of_position(entities@[m].x as int, entities@[m].y as int) == (
                                d.0 as int,
                                d.1 as int,
                            );
                        assert(0 <= m < i + 1);
                    }
                    if far && here == (d.0 as int, d.1 as int) {
                        assert(entities@[i as int] == entity);
                    }
                }
                assert forall|d: (i32, i32)| pre.contains(d) implies #[trigger] self.chunk(d) == (
                ChunkView {
                    drawn: pre.chunk(d).drawn && !evicts(entities@, i + 1, px as int, py as int, d),
                    ..pre.chunk(d)
                }) by {
                    assert(mid.contains(d));
                    assert(mid.chunk(d) == (ChunkView {
                        drawn: pre.chunk(d).drawn && !evicts(
                            entities@,
                            i as int,
                            px as int,
                            py as int,
                            d,
                        ),
                        ..pre.chunk(d)
                    }));
                }
            }
            outcomes.push(outcome);
            i += 1;
        }
        outcomes
    }

    /// One tick of streaming. When the tracker signals a new chunk, the
    /// surroundings of that chunk are loaded and then the entities that have
    /// fallen behind are evicted; otherwise nothing happens.
    pub fn update(&mut self, tracker: &PlayerPositionUpdate, entities: &Vec<ChunkEntity>) -> (out:
        StreamUpdate)
        requires
            old(self).wf(),
        ensures
            final(self).wf(),
            !tracker.changed_chunk ==> *final(self) == *old(self) && out.loads@.len() == 0
                && out.evictions@.len() == 0,
            tracker.changed_chunk ==> exists|mid: WorldStreamer| #[trigger]
                old(self).streamed(
                    &mid,
                    final(self),
                    tracker,
                    entities@,
                    load_views(out.loads@),
                    out.evictions@,
                ),
    {
        if !tracker.changed_chunk {
            return StreamUpdate { loads: Vec::new(), evictions: Vec::new() };
        }
        let ghost pre = *self;
        let cx: i32 = tracker.chunk_x();
        let cy: i32 = tracker.chunk_y();
        let loads: Vec<ChunkLoad> = self.draw_chunks(cx, cy);
        let ghost mid = *self;
        let evictions: Vec<Result<Eviction, CacheMismatch>> = self.despawn_chunks(
            tracker.get_x(),
            tracker.get_y(),
            entities,
        );
        let out = StreamUpdate { loads, evictions };
        proof {
            assert(pre.streamed(
                &mid,
                self,
                tracker,
                entities@,
                load_views(out.loads@),
                out.evictions@,
            ));
        }
        out
    }
}

/// In a well-formed cache no chunk has been generated more than once, and a
/// cached chunk holds exactly what the generator gives for its coordinates.
pub proof fn lemma_generated_at_most_once(s: WorldStreamer, c: (i32, i32))
    requires
        s.wf(),
    ensures
        s.generations(c) <= 1,
        s.contains(c) ==> s.chunk(c).coordinates == c && s.chunk(c).tiles == generate_spec(
            c.0,
            c.1,
            s.seed,
        ).tiles && s.chunk(c).bundles == generate_spec(c.0, c.1, s.seed).bundles,
{
}

/// Loading never generates a chunk that is cached already: its generation
/// count, its tiles and its descriptors are what they were.
pub proof fn lemma_cached_chunk_is_not_generated_again(
    before: WorldStreamer,
    after: WorldStreamer,
    list: Seq<(i32, i32)>,
    n: int,
    c: (i32, i32),
)
    requires
        before.wf(),
        after.wf(),
        before.loaded_all(&after, list, n),
        before.contains(c),
    ensures
        after.contains(c),
        after.generations(c) == before.generations(c),
        after.chunk(c).tiles == before.chunk(c).tiles,
        after.chunk(c).bundles == before.chunk(c).bundles,
{
    assert(after.contains(c));
    assert(after.generations(c) == before.generations(c) + 0);
}

/// A chunk that an eviction pass has undrawn and that is among the chunks
/// loaded next is redrawn from the descriptors it had before the eviction,
/// and is not generated a second time.
pub proof fn lemma_evicted_chunk_is_redrawn(
    before: WorldStreamer,
    evicted: WorldStreamer,
    after: WorldStreamer,
    entities: Seq<ChunkEntity>,
    px: int,
    py: int,
    list: Seq<(i32, i32)>,
    n: int,
    c: (i32, i32),
)
    requires
        before.wf(),
        before.contains(c),
        before.evicted(&evicted, entities, entities.len() as int, px, py),
        evicts(entities, entities.len() as int, px, py, c),
        evicted.loaded_all(&after, list, n),
        among(list, n, c),
    ensures
        !evicted.chunk(c).drawn,
        evicted.expected_load(c) == LoadOutcome::Redrawn(before.chunk(c).bundles),
        after.chunk(c).drawn,
        after.generations(c) == before.generations(c),
        after.generations(c) == 1,
{
    assert(evicted.contains(c));
    assert(evicted.chunk(c) == (ChunkView {
        drawn: before.chunk(c).drawn && !evicts(entities, entities.len() as int, px, py, c),
        ..before.chunk(c)
    }));
    assert(evicted.generations(c) == before.generations(c));
    assert(after.generations(c) == evicted.generations(c) + 0);
}

} // verus!
