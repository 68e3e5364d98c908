//! Pursuit strategies: whether and how an agent moves towards a target.
//!
//! `find_path` tests the conditions of a pursuit and commits to a path when
//! they hold; `step` advances along the committed path. A failed `find_path`
//! leaves the committed path alone, so an agent keeps walking to the place
//! where it last saw its target.
//!
//! Positions are integer points in world units, speeds are in tiles per
//! second and times in milliseconds. Progress along a path is the distance
//! covered in thousandths of a world unit, held exactly; the fraction of the
//! path that is done is `transition / (path_len * STEPS_PER_UNIT)`.

use std::sync::Arc;
use vstd::prelude::*;
use vstd::arithmetic::div_mod::{lemma_div_is_ordered, lemma_div_multiples_vanish, lemma_div_pos_is_pos};
use crate::world::{Point, Tile, TILE_SIZE};

verus! {

/// Number of points tested per tile length of a line of sight.
pub const SAMPLES_PER_TILE: u64 = 10;

/// Number of parts into which a world unit is cut to measure the distance
/// covered: one part is what a speed of one tile per second covers per
/// millisecond and per unit of tile length.
pub const STEPS_PER_UNIT: u64 = 1000;

/// The target cannot be reached under the current strategy.
#[derive(Debug, Clone, Copy, PartialEq, Eq, Structural)]
pub struct NoPathError;

/// The committed path is used up, or there is none.
#[derive(Debug, Clone, Copy, PartialEq, Eq, Structural)]
pub struct PathFinishedError;

/// The choice of a strategy, with its parameters.
#[derive(Debug, Clone, Copy, PartialEq, Eq, Structural)]
pub enum PathfindingType {
    /// Pursuit in a straight line, with the view distance in world units.
    LineOfSight(u32),
    /// No pursuit at all.
    Inactive,
}

/// The strategy of an agent that never moves.
#[derive(Debug, Clone, Copy, PartialEq, Eq, Structural)]
pub struct NoPathfinding;

/// Pursuit in a straight line: the agent commits to a path when the target is
/// within its view distance and no tile on the line between them blocks.
#[derive(Debug, Clone)]
pub struct LineOfSight {
    pub view_distance: u32,
    pub destination: Point,
    pub origin: Point,
    /// Length of the committed path, rounded down; 0 when there is none.
    pub path_len: u32,
    /// Distance covered on the committed path, in thousandths of a unit.
    pub transition: u128,
    /// The tiles of the region, `collision[column][row]`, shared and read-only.
    pub collision: Arc<Vec<Vec<Tile>>>,
}

/// The strategy of one agent.
#[derive(Debug, Clone)]
pub enum Pathfinder {
    Inactive(NoPathfinding),
    LineOfSight(LineOfSight),
}

/// Square of the straight-line distance between two points.
pub open spec fn distance_squared(a: Point, b: Point) -> int {
    (b.x - a.x) * (b.x - a.x) + (b.y - a.y) * (b.y - a.y)
}

/// Whether `r` is the square root of `n`, rounded down.
pub open spec fn is_floor_sqrt(r: int, n: int) -> bool {
    0 <= r && r * r <= n < (r + 1) * (r + 1)
}

/// The square root of `n`, rounded down.
pub open spec fn floor_sqrt(n: int) -> int {
    choose|r: int| is_floor_sqrt(r, n)
}

/// The rounded-down square root is unique.
pub proof fn lemma_floor_sqrt_unique(r: int, n: int)
    requires
        is_floor_sqrt(r, n),
    ensures
        floor_sqrt(n) == r,
{
    let s = floor_sqrt(n);
    assert(is_floor_sqrt(s, n));
    assert(s == r) by (nonlinear_arith)
        requires
            0 <= r,
            r * r <= n < (r + 1) * (r + 1),
            0 <= s,
            s * s <= n < (s + 1) * (s + 1),
    ;
}

/// Number of steps into which a line of length `path_len` is cut for testing.
pub open spec fn sample_count(path_len: int) -> int {
    path_len * SAMPLES_PER_TILE as int / TILE_SIZE as int
}

/// The coordinate `num / den` of the way from `from` to `to`, rounded towards
/// `from`; `from` itself where `den` is 0.
pub open spec fn lerp_axis(from: int, to: int, num: int, den: int) -> int {
    if den <= 0 {
        from
    } else if to >= from {
        from + ((to - from) * num) / den
    } else {
        from - ((from - to) * num) / den
    }
}

/// The point `num / den` of the way from `a` to `b`.
pub open spec fn lerp(a: Point, b: Point, num: int, den: int) -> Point {
    Point {
        x: lerp_axis(a.x as int, b.x as int, num, den) as i32,
        y: lerp_axis(a.y as int, b.y as int, num, den) as i32,
    }
}

/// Cost of walking over a tile. Every sprite costs 1 for now.
pub open spec fn tile_cost(tile: Tile) -> int {
    1
}

/// Cost of the tile under the world position `p`; 1 outside the grid.
pub open spec fn cost_at(grid: Seq<Vec<Tile>>, p: Point) -> int {
    let column = p.x as int / TILE_SIZE as int;
    let row = p.y as int / TILE_SIZE as int;
    if 0 <= column < grid.len() && 0 <= row < grid[column]@.len() {
        tile_cost(grid[column]@[row])
    } else {
        1
    }
}

/// Whether none of the `n + 1` sample points from `a` to `b` lies on a tile
/// that blocks.
pub open spec fn line_clear(grid: Seq<Vec<Tile>>, a: Point, b: Point, n: int) -> bool {
    forall|i: int| 0 <= i <= n ==> cost_at(grid, #[trigger] lerp(a, b, i, n)) > 0
}

/// Whether `b` is no further from `a` than the view distance.
pub open spec fn in_view(view_distance: u32, a: Point, b: Point) -> bool {
    distance_squared(a, b) <= view_distance * view_distance
}

/// Whether an agent at `a` with the given view distance sees a target at `b`
/// over `grid`.
pub open spec fn visible(view_distance: u32, grid: Seq<Vec<Tile>>, a: Point, b: Point) -> bool {
    in_view(view_distance, a, b) && line_clear(
        grid,
        a,
        b,
        sample_count(floor_sqrt(distance_squared(a, b))),
    )
}

/// The walking cost of a tile, by its sprite.
pub fn get_tile_cost(tile: &Tile) -> (cost: isize)
    ensures
        cost == tile_cost(*tile),
{
    match tile.sprite_id {
        0 => 1,
        _ => 1,
    }
}

/// The square root of `n`, rounded down.
pub fn integer_sqrt(n: u64) -> (r: u32)
    ensures
        is_floor_sqrt(r as int, n as int),
        r == floor_sqrt(n as int),
{
    let mut lo: u64 = 0;
    let mut hi: u64 = 0x1_0000_0000;
    while hi - lo > 1
        invariant
            lo < hi <= 0x1_0000_0000,
            lo * lo <= n < hi * hi,
        decreases hi - lo,
    {
        let mid: u64 = lo + (hi - lo) / 2;
        assert(mid * mid < 0x1_0000_0000_0000_0000) by (nonlinear_arith)
            requires
                mid < 0x1_0000_0000,
        ;
        if mid * mid <= n {
            lo = mid;
        } else {
            hi = mid;
        }
    }
    proof {
        lemma_floor_sqrt_unique(lo as int, n as int);
    }
    lo as u32
}

fn lerp_coordinate(from: i32, to: i32, num: u64, den: u64) -> (c: i32)
    requires
        num <= den,
    ensures
        c == lerp_axis(from as int, to as int, num as int, den as int),
        from <= to ==> from <= c <= to,
        to <= from ==> to <= c <= from,
{
    if den == 0 {
        from
    } else if to >= from {
        let span: u128 = (to as i64 - from as i64) as u128;
        proof {
            lemma_offset_within_span(span as int, num as int, den as int);
            assert(span * num <= 0xFFFF_FFFF * 0xFFFF_FFFF_FFFF_FFFF) by (nonlinear_arith)
                requires
                    0 <= span <= 0xFFFF_FFFF,
                    0 <= num <= 0xFFFF_FFFF_FFFF_FFFF,
            ;
        }
        let offset: u128 = span * (num as u128) / (den as u128);
        (from as i64 + offset as i64) as i32
    } else {
        let span: u128 = (from as i64 - to as i64) as u128;
        proof {
            lemma_offset_within_span(span as int, num as int, den as int);
            assert(span * num <= 0xFFFF_FFFF * 0xFFFF_FFFF_FFFF_FFFF) by (nonlinear_arith)
                requires
                    0 <= span <= 0xFFFF_FFFF,
                    0 <= num <= 0xFFFF_FFFF_FFFF_FFFF,
            ;
        }
        let offset: u128 = span * (num as u128) / (den as u128);
        (from as i64 - offset as i64) as i32
    }
}

proof fn lemma_offset_within_span(span: int, num: int, den: int)
    requires
        0 <= span,
        0 <= num <= den,
        0 < den,
    ensures
        0 <= span * num <= span * den,
        0 <= (span * num) / den <= span,
{
    assert(0 <= span * num <= span * den) by (nonlinear_arith)
        requires
            0 <= span,
            0 <= num <= den,
    ;
    lemma_div_is_ordered(span * num, span * den, den);
    assert(span * den == den * span) by (nonlinear_arith);
    lemma_div_multiples_vanish(span, den);
    lemma_div_pos_is_pos(span * num, den);
}

fn lerp_point(a: Point, b: Point, num: u64, den: u64) -> (p: Point)
    requires
        num <= den,
    ensures
        p == lerp(a, b, num as int, den as int),
{
    Point { x: lerp_coordinate(a.x, b.x, num, den), y: lerp_coordinate(a.y, b.y, num, den) }
}

fn cost_of_position(grid: &Vec<Vec<Tile>>, p: Point) -> (cost: isize)
    ensures
        cost == cost_at(grid@, p),
{
    if p.x < 0 || p.y < 0 {
        return 1;
    }
    let column: usize = (p.x / TILE_SIZE) as usize;
    let row: usize = (p.y / TILE_SIZE) as usize;
    if column < grid.len() && row < grid[column].len() {
        get_tile_cost(&grid[column][row])
    } else {
        1
    }
}

fn squared_distance(a: Point, b: Point) -> (d: u128)
    ensures
        d == distance_squared(a, b),
{
    let dx: i128 = b.x as i128 - a.x as i128;
    let dy: i128 = b.y as i128 - a.y as i128;
    assert(0 <= dx * dx <= 0x1_0000_0000 * 0x1_0000_0000 && 0 <= dy * dy <= 0x1_0000_0000
        * 0x1_0000_0000) by (nonlinear_arith)
        requires
            -0x1_0000_0000 <= dx <= 0x1_0000_0000,
            -0x1_0000_0000 <= dy <= 0x1_0000_0000,
    ;
    (dx * dx + dy * dy) as u128
}

impl NoPathfinding {
    /// Never finds a path: the agent does not move.
    pub fn find_path(&mut self, _mob_pos: Point, _player_pos: Point) -> (res: Result<(), NoPathError>)
        ensures
            res == Err::<(), NoPathError>(NoPathError),
    {
        Err(NoPathError)
    }

    /// Never has a path to walk on.
    pub fn step(&mut self, _speed: u32, _delta_time: u32) -> (res: Result<Point, PathFinishedError>)
        ensures
            res == Err::<Point, PathFinishedError>(PathFinishedError),
    {
        Err(PathFinishedError)
    }
}

impl Default for LineOfSight {
    /// A pursuit that sees nothing, over an empty region.
    fn default() -> (los: LineOfSight)
        ensures
            los.view_distance == 0,
            los.collision@.len() == 0,
            los.origin == (Point { x: 0, y: 0 }),
            los.destination == (Point { x: 0, y: 0 }),
            los.path_len == 0,
            los.transition == 0,
    {
        LineOfSight {
            view_distance: 0,
            destination: Point { x: 0, y: 0 },
            origin: Point { x: 0, y: 0 },
            path_len: 0,
            transition: 0,
            collision: Arc::new(Vec::new()),
        }
    }
}

impl LineOfSight {
    /// A pursuit over `collision` with no committed path.
    pub fn new(view_distance: u32, collision: Arc<Vec<Vec<Tile>>>) -> (los: LineOfSight)
        ensures
            los.view_distance == view_distance,
            los.collision == collision,
            los.origin == (Point { x: 0, y: 0 }),
            los.destination == (Point { x: 0, y: 0 }),
            los.path_len == 0,
            los.transition == 0,
            los.finished(),
    {
        LineOfSight {
            view_distance,
            destination: Point { x: 0, y: 0 },
            origin: Point { x: 0, y: 0 },
            path_len: 0,
            transition: 0,
            collision,
        }
    }

    /// Whether the agent at `mob_pos` sees a target at `player_pos`.
    pub open spec fn sees(&self, mob_pos: Point, player_pos: Point) -> bool {
        visible(self.view_distance, self.collision@, mob_pos, player_pos)
    }

    /// The pursuit after it has committed to the path from `mob_pos` to
    /// `player_pos`.
    pub open spec fn committed(self, mob_pos: Point, player_pos: Point) -> LineOfSight {
        LineOfSight {
            origin: mob_pos,
            destination: player_pos,
            path_len: floor_sqrt(distance_squared(mob_pos, player_pos)) as u32,
            transition: 0,
            ..self
        }
    }

    /// Whether there is no path left to walk on: none was committed, or the
    /// distance covered exceeds its length.
    pub open spec fn finished(&self) -> bool {
        self.path_len == 0 || self.transition > self.path_len * STEPS_PER_UNIT
    }

    /// The point of the committed path that the distance covered leads to.
    pub open spec fn position(&self) -> Point {
        lerp(
            self.origin,
            self.destination,
            self.transition as int,
            self.path_len * STEPS_PER_UNIT,
        )
    }

    /// Distance covered in `delta_time` milliseconds at `speed` tiles per
    /// second, in thousandths of a world unit.
    pub open spec fn advance(speed: u32, delta_time: u32) -> int {
        speed * delta_time * TILE_SIZE
    }

    /// The pursuit after one step: the distance covered grows by the advance
    /// and stops at the largest value it can hold.
    pub open spec fn after_step(self, speed: u32, delta_time: u32) -> LineOfSight {
        LineOfSight {
            transition: if self.transition + Self::advance(speed, delta_time) > u128::MAX {
                u128::MAX
            } else {
                (self.transition + Self::advance(speed, delta_time)) as u128
            },
            ..self
        }
    }

    /// The pursuit after one step for each entry of `inputs`, a pair of speed
    /// and elapsed time.
    pub open spec fn after_steps(self, inputs: Seq<(u32, u32)>) -> LineOfSight
        decreases inputs.len(),
    {
        if inputs.len() == 0 {
            self
        } else {
            self.after_steps(inputs.drop_last()).after_step(inputs.last().0, inputs.last().1)
        }
    }

    /// Commits to the path from `mob_pos` to `player_pos` if the target is
    /// within the view distance and the line to it is clear; otherwise fails
    /// and leaves the pursuit as it was.
    pub fn find_path(&mut self, mob_pos: Point, player_pos: Point) -> (res: Result<(), NoPathError>)
        ensures
            res.is_ok() == old(self).sees(mob_pos, player_pos),
            res.is_ok() ==> *final(self) == old(self).committed(mob_pos, player_pos),
            res.is_err() ==> *final(self) == *old(self),
    {
        let distance: u128 = squared_distance(mob_pos, player_pos);
        assert(self.view_distance * self.view_distance < 0x1_0000_0000_0000_0000)
            by (nonlinear_arith)
            requires
                0 <= self.view_distance < 0x1_0000_0000,
        ;
        let view: u128 = (self.view_distance as u128) * (self.view_distance as u128);
        if distance > view {
            return Err(NoPathError);
        }
        let path_len: u32 = integer_sqrt(distance as u64);
        assert(SAMPLES_PER_TILE == 10 && TILE_SIZE == 64);
        let scaled: u64 = (path_len as u64) * SAMPLES_PER_TILE;
        assert(scaled == path_len * 10);
        let n_samples: u64 = scaled / (TILE_SIZE as u64);
        assert(n_samples == scaled / 64);
        assert(n_samples as int == sample_count(path_len as int));
        let mut i: u64 = 0;
        let mut clear: bool = true;
        while clear && i <= n_samples
            invariant
                i <= n_samples + 1,
                n_samples < 0x1_0000_0000,
                clear ==> forall|k: int|
                    0 <= k < i ==> cost_at(
                        self.collision@,
                        #[trigger] lerp(mob_pos, player_pos, k, n_samples as int),
                    ) > 0,
                !clear ==> !line_clear(self.collision@, mob_pos, player_pos, n_samples as int),
            decreases (if clear { 1int } else { 0int }), n_samples + 1 - i,
        {
            let sample: Point = lerp_point(mob_pos, player_pos, i, n_samples);
            if cost_of_position(&self.collision, sample) > 0 {
                i += 1;
            } else {
                clear = false;
            }
        }
        if clear {
            self.destination = player_pos;
            self.origin = mob_pos;
            self.path_len = path_len;
            self.transition = 0;
            Ok(())
        } else {
            Err(NoPathError)
        }
    }

    /// Walks on along the committed path at `speed` tiles per second for
    /// `delta_time` milliseconds, and gives the point reached. Fails once the
    /// distance covered exceeds the length of the path, and when no path was
    /// committed.
    pub fn step(&mut self, speed: u32, delta_time: u32) -> (res: Result<Point, PathFinishedError>)
        ensures
            *final(self) == old(self).after_step(speed, delta_time),
            res.is_err() == final(self).finished(),
            res.is_ok() ==> res.unwrap() == final(self).position(),
    {
        assert(0 <= speed * delta_time <= 0xFFFF_FFFF * 0xFFFF_FFFF) by (nonlinear_arith)
            requires
                0 <= speed <= 0xFFFF_FFFF,
                0 <= delta_time <= 0xFFFF_FFFF,
        ;
        let tile: u128 = TILE_SIZE as u128;
        let ticks: u128 = (speed as u128) * (delta_time as u128);
        assert(ticks * tile <= 0xFFFF_FFFF * 0xFFFF_FFFF * 64) by (nonlinear_arith)
            requires
                0 <= ticks <= 0xFFFF_FFFF * 0xFFFF_FFFF,
                tile == 64,
        ;
        let advance: u128 = ticks * tile;
        if advance > u128::MAX - self.transition {
            self.transition = u128::MAX;
        } else {
            self.transition = self.transition + advance;
        }
        let steps: u64 = STEPS_PER_UNIT;
        assert(steps == 1000);
        let length: u64 = (self.path_len as u64) * steps;
        if self.path_len > 0 && self.transition <= length as u128 {
            Ok(lerp_point(self.origin, self.destination, self.transition as u64, length))
        } else {
            Err(PathFinishedError)
        }
    }
}

impl Pathfinder {
    /// Whether the agent at `mob_pos` sees a target at `player_pos` under its
    /// strategy.
    pub open spec fn sees(&self, mob_pos: Point, player_pos: Point) -> bool {
        match self {
            Pathfinder::Inactive(_) => false,
            Pathfinder::LineOfSight(p) => p.sees(mob_pos, player_pos),
        }
    }

    /// The strategy after it has committed to the path from `mob_pos` to
    /// `player_pos`.
    pub open spec fn committed(self, mob_pos: Point, player_pos: Point) -> Pathfinder {
        match self {
            Pathfinder::Inactive(p) => Pathfinder::Inactive(p),
            Pathfinder::LineOfSight(p) => Pathfinder::LineOfSight(p.committed(mob_pos, player_pos)),
        }
    }

    /// The strategy after one step.
    pub open spec fn after_step(self, speed: u32, delta_time: u32) -> Pathfinder {
        match self {
            Pathfinder::Inactive(p) => Pathfinder::Inactive(p),
            Pathfinder::LineOfSight(p) => Pathfinder::LineOfSight(p.after_step(speed, delta_time)),
        }
    }

    /// Whether there is no path left to walk on.
    pub open spec fn finished(&self) -> bool {
        match self {
            Pathfinder::Inactive(_) => true,
            Pathfinder::LineOfSight(p) => p.finished(),
        }
    }

    /// The point that the distance covered leads to.
    pub open spec fn position(&self) -> Point {
        match self {
            Pathfinder::Inactive(_) => Point { x: 0, y: 0 },
            Pathfinder::LineOfSight(p) => p.position(),
        }
    }

    /// Commits to pursuing `player_pos` from `mob_pos` if the strategy sees
    /// the target; otherwise fails and leaves the committed path alone.
    pub fn find_path(&mut self, mob_pos: Point, player_pos: Point) -> (res: Result<(), NoPathError>)
        ensures
            res.is_ok() == old(self).sees(mob_pos, player_pos),
            res.is_ok() ==> *final(self) == old(self).committed(mob_pos, player_pos),
            res.is_err() ==> *final(self) == *old(self),
    {
        match self {
            Pathfinder::Inactive(p) => p.find_path(mob_pos, player_pos),
            Pathfinder::LineOfSight(p) => p.find_path(mob_pos, player_pos),
        }
    }

    /// Walks on along the committed path and gives the point reached; fails
    /// when there is no path left.
    pub fn step(&mut self, speed: u32, delta_time: u32) -> (res: Result<Point, PathFinishedError>)
        ensures
            *final(self) == old(self).after_step(speed, delta_time),
            res.is_err() == final(self).finished(),
            res.is_ok() ==> res.unwrap() == final(self).position(),
    {
        match self {
            Pathfinder::Inactive(p) => p.step(speed, delta_time),
            Pathfinder::LineOfSight(p) => p.step(speed, delta_time),
        }
    }
}

/// The strategy of the chosen kind for the region whose tiles are `collision`,
/// with no committed path.
pub fn get_pathfinding(collision: &Arc<Vec<Vec<Tile>>>, pathfinding_type: PathfindingType) -> (pathfinder:
    Pathfinder)
    ensures
        pathfinder == (match pathfinding_type {
            PathfindingType::Inactive => Pathfinder::Inactive(NoPathfinding),
            PathfindingType::LineOfSight(view_distance) => Pathfinder::LineOfSight(
                LineOfSight {
                    view_distance,
                    destination: Point { x: 0, y: 0 },
                    origin: Point { x: 0, y: 0 },
                    path_len: 0,
                    transition: 0,
                    collision: *collision,
                },
            ),
        }),
        pathfinder.finished(),
{
    match pathfinding_type {
        PathfindingType::Inactive => Pathfinder::Inactive(NoPathfinding),
        PathfindingType::LineOfSight(view_distance) => Pathfinder::LineOfSight(
            LineOfSight::new(view_distance, collision.clone()),
        ),
    }
}

/// No tile blocks: every line over every grid is clear.
pub proof fn lemma_every_line_is_clear(grid: Seq<Vec<Tile>>, a: Point, b: Point, n: int)
    ensures
        line_clear(grid, a, b, n),
{
}

/// If an agent sees a target, it also sees every target that is no further
/// away, all else equal.
pub proof fn lemma_nearer_target_is_seen(
    view_distance: u32,
    grid: Seq<Vec<Tile>>,
    mob_pos: Point,
    far: Point,
    near: Point,
)
    requires
        visible(view_distance, grid, mob_pos, far),
        distance_squared(mob_pos, near) <= distance_squared(mob_pos, far),
    ensures
        visible(view_distance, grid, mob_pos, near),
{
    lemma_every_line_is_clear(
        grid,
        mob_pos,
        near,
        sample_count(floor_sqrt(distance_squared(mob_pos, near))),
    );
}

/// Stepping never lowers the distance covered, and a pursuit that has no path
/// left has none after any number of further steps: only a new committed path
/// lets `step` succeed again.
pub proof fn lemma_steps_are_bounded(los: LineOfSight, inputs: Seq<(u32, u32)>)
    ensures
        los.after_steps(inputs).transition >= los.transition,
        los.after_steps(inputs).path_len == los.path_len,
        los.after_steps(inputs).origin == los.origin,
        los.after_steps(inputs).destination == los.destination,
        los.finished() ==> los.after_steps(inputs).finished(),
    decreases inputs.len(),
{
    if inputs.len() > 0 {
        lemma_steps_are_bounded(los, inputs.drop_last());
        assert(LineOfSight::advance(inputs.last().0, inputs.last().1) >= 0) by (nonlinear_arith)
            requires
                LineOfSight::advance(inputs.last().0, inputs.last().1) == inputs.last().0
                    * inputs.last().1 * TILE_SIZE,
                TILE_SIZE == 64,
        ;
    }
}

/// A step that moves strictly raises the distance covered until that is the
/// largest value it can hold.
pub proof fn lemma_step_advances(los: LineOfSight, speed: u32, delta_time: u32)
    requires
        speed > 0,
        delta_time > 0,
        los.transition < u128::MAX,
    ensures
        los.after_step(speed, delta_time).transition > los.transition,
{
    assert(LineOfSight::advance(speed, delta_time) > 0) by (nonlinear_arith)
        requires
            LineOfSight::advance(speed, delta_time) == speed * delta_time * TILE_SIZE,
            TILE_SIZE == 64,
            speed > 0,
            delta_time > 0,
    ;
}

/// A freshly committed path of positive length is not finished, and starts
/// at its origin.
pub proof fn lemma_committed_path_starts(los: LineOfSight, mob_pos: Point, player_pos: Point)
    requires
        los.sees(mob_pos, player_pos),
        mob_pos != player_pos,
    ensures
        !los.committed(mob_pos, player_pos).finished(),
        los.committed(mob_pos, player_pos).position() == mob_pos,
{
    let d = distance_squared(mob_pos, player_pos);
    let dx = player_pos.x - mob_pos.x;
    let dy = player_pos.y - mob_pos.y;
    assert(d >= 1) by (nonlinear_arith)
        requires
            d == dx * dx + dy * dy,
            dx != 0 || dy != 0,
    ;
    assert(d <= 0xFFFF_FFFF * 0xFFFF_FFFF) by (nonlinear_arith)
        requires
            d <= los.view_distance * los.view_distance,
            0 <= los.view_distance <= 0xFFFF_FFFF,
    ;
    lemma_floor_sqrt_bounds(d);
}

/// The rounded-down square root of a number that is at least 1 and at most
/// the square of `u32::MAX` is at least 1 and fits in `u32`.
pub proof fn lemma_floor_sqrt_bounds(n: int)
    requires
        1 <= n <= 0xFFFF_FFFF * 0xFFFF_FFFF,
    ensures
        is_floor_sqrt(floor_sqrt(n), n),
        1 <= floor_sqrt(n) <= 0xFFFF_FFFF,
{
    lemma_floor_sqrt_exists(n);
    let r = floor_sqrt(n);
    assert(1 <= r <= 0xFFFF_FFFF) by (nonlinear_arith)
        requires
            0 <= r,
            r * r <= n < (r + 1) * (r + 1),
            1 <= n <= 0xFFFF_FFFF * 0xFFFF_FFFF,
    ;
}

/// Every natural number has a rounded-down square root.
pub proof fn lemma_floor_sqrt_exists(n: int)
    requires
        0 <= n,
    ensures
        is_floor_sqrt(floor_sqrt(n), n),
    decreases n,
{
    if n == 0 {
        assert(is_floor_sqrt(0, 0));
    } else {
        lemma_floor_sqrt_exists(n - 1);
        let r = floor_sqrt(n - 1);
        if (r + 1) * (r + 1) <= n {
            assert(is_floor_sqrt(r + 1, n)) by (nonlinear_arith)
                requires
                    0 <= r,
                    r * r <= n - 1 < (r + 1) * (r + 1),
                    (r + 1) * (r + 1) <= n,
            ;
        } else {
            assert(is_floor_sqrt(r, n));
        }
    }
}

} // verus!
