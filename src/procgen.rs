//! Seeded cave generation on a square tile grid.

use vstd::prelude::*;
use vstd::set_lib::*;

verus! {

/// Width and height of the generated grid, in tiles.
pub const WORLD_SIZE: i64 = 128;

/// A grid cell, `(x, y)`, y growing downwards.
pub type Cell = (i64, i64);

/// Structures on the map. Each is one world unit square.
#[derive(Clone, Copy, Debug, PartialEq, Eq, Structural)]
pub enum Tile {
    /// Normal ground
    Ground,
    /// Solid blocks that weren't created by people
    Rock,
    /// Solid blocks that were created by people
    Wall,
    /// Tiles inside buildings
    Floor,
    /// Tiles connecting buildings
    Path,
}

impl Tile {
    pub open spec fn solid(self) -> bool {
        self is Rock || self is Wall
    }

    /// Whether this tile blocks movement.
    pub fn is_solid(&self) -> (r: bool)
        ensures
            r == self.solid(),
    {
        match self {
            Tile::Ground | Tile::Floor | Tile::Path => false,
            Tile::Rock | Tile::Wall => true,
        }
    }
}

#[verifier::external_type_specification]
#[verifier::external_body]
#[verifier::reject_recursive_types(T)]
#[verifier::reject_recursive_types(S)]
pub struct ExAHashSet<T, S>(ahash::AHashSet<T, S>);

#[verifier::external_type_specification]
#[verifier::external_body]
#[verifier::reject_recursive_types(K)]
#[verifier::reject_recursive_types(V)]
#[verifier::reject_recursive_types(S)]
pub struct ExAHashMap<K, V, S>(ahash::AHashMap<K, V, S>);

#[verifier::external_type_specification]
#[verifier::external_body]
pub struct ExRandomState(ahash::RandomState);

#[verifier::external_type_specification]
#[verifier::external_body]
pub struct ExXoshiro256StarStar(rand_xoshiro::Xoshiro256StarStar);

/// The cells a set of cells holds.
pub uninterp spec fn cell_set(s: ahash::AHashSet<Cell>) -> Set<Cell>;

/// The tiles a tile map holds, by cell.
pub uninterp spec fn tile_map(m: ahash::AHashMap<Cell, Tile>) -> Map<Cell, Tile>;

/// Relies on `AHashSet::new`: a new set is empty.
#[verifier::external_body]
fn new_cell_set() -> (r: ahash::AHashSet<Cell>)
    ensures
        cell_set(r) == Set::<Cell>::empty(),
{
    ahash::AHashSet::new()
}

/// Relies on `HashSet::insert`, reached through `AHashSet`'s `DerefMut`: the cell is
/// in the set afterwards, and nothing else changes.
#[verifier::external_body]
fn insert_cell(s: &mut ahash::AHashSet<Cell>, c: Cell)
    ensures
        cell_set(*final(s)) == cell_set(*old(s)).insert(c),
{
    s.insert(c);
}

/// Relies on `HashSet::contains`, reached through `AHashSet`'s `Deref`.
#[verifier::external_body]
fn contains_cell(s: &ahash::AHashSet<Cell>, c: Cell) -> (r: bool)
    ensures
        r == cell_set(*s).contains(c),
{
    s.contains(&c)
}

/// Relies on `AHashMap::new`: a new map is empty.
#[verifier::external_body]
fn new_tile_map() -> (r: ahash::AHashMap<Cell, Tile>)
    ensures
        tile_map(r).dom() == Set::<Cell>::empty(),
{
    ahash::AHashMap::new()
}

/// Relies on `HashMap::insert`, reached through `AHashMap`'s `DerefMut`: the cell
/// maps to the tile afterwards, and nothing else changes.
#[verifier::external_body]
fn insert_tile(m: &mut ahash::AHashMap<Cell, Tile>, c: Cell, t: Tile)
    ensures
        tile_map(*final(m)) == tile_map(*old(m)).insert(c, t),
{
    m.insert(c, t);
}

/// Relies on `SeedableRng::from_seed` of `Xoshiro256StarStar`, which takes 32 bytes.
#[verifier::external_body]
fn xoshiro_from_seed(seed: &Vec<u8>) -> (r: rand_xoshiro::Xoshiro256StarStar)
    requires
        seed@.len() == 32,
{
    let bytes: [u8; 32] = seed.as_slice().try_into().unwrap();
    rand::SeedableRng::from_seed(bytes)
}

/// Relies on `Rng::gen` for `u32`.
#[verifier::external_body]
fn draw_u32(rng: &mut rand_xoshiro::Xoshiro256StarStar) -> (r: u32) {
    rand::Rng::gen::<u32>(rng)
}

/// Relies on `Rng::gen_range` on `0..n`, which panics only on an empty range: the
/// result is below `n`.
#[verifier::external_body]
fn draw_below(rng: &mut rand_xoshiro::Xoshiro256StarStar, n: usize) -> (r: usize)
    requires
        n > 0,
    ensures
        r < n,
{
    rand::Rng::gen_range(rng, 0..n)
}

/// Byte `i` of `v`, counting from the least significant.
pub open spec fn le_byte(v: u64, i: int) -> u8 {
    ((v >> ((8 * i) as u64)) & 0xff) as u8
}

/// Byte `i` of the generator seed for `(seed, depth)`: the little-endian bytes of
/// `seed` and `depth`, then the big-endian bytes of their complements, `depth`'s first.
pub open spec fn seed_byte(seed: u64, depth: u64, i: int) -> u8 {
    if i < 8 {
        le_byte(seed, i)
    } else if i < 16 {
        le_byte(depth, i - 8)
    } else if i < 24 {
        le_byte(!depth, 23 - i)
    } else {
        le_byte(!seed, 31 - i)
    }
}

fn push_bytes(out: &mut Vec<u8>, v: u64, big_endian: bool)
    ensures
        final(out)@.len() == old(out)@.len() + 8,
        forall|i: int| 0 <= i < old(out)@.len() ==> final(out)@[i] == old(out)@[i],
        forall|k: int|
            0 <= k < 8 ==> #[trigger] final(out)@[old(out)@.len() + k] == le_byte(v, if big_endian { 7 - k } else { k }),
{
    let ghost start = out@.len();
    let mut k: u64 = 0;
    while k < 8
        invariant
            k <= 8,
            out@.len() == start + k,
            forall|i: int| 0 <= i < start ==> out@[i] == old(out)@[i],
            forall|j: int| 0 <= j < k ==> #[trigger] out@[start + j] == le_byte(v, if big_endian { 7 - j } else { j }),
        decreases 8 - k,
    {
        let shift: u64 = if big_endian { 8 * (7 - k) } else { 8 * k };
        out.push(((v >> shift) & 0xff) as u8);
        k = k + 1;
    }
}

/// The 32 seed bytes of the generator for a world seed and a depth; mixing in the
/// complements keeps neighbouring depths apart.
pub fn rng_seed(seed: u64, depth: u64) -> (r: Vec<u8>)
    ensures
        r@.len() == 32,
        forall|i: int| 0 <= i < 32 ==> #[trigger] r@[i] == seed_byte(seed, depth, i),
{
    let mut out: Vec<u8> = Vec::new();
    push_bytes(&mut out, seed, false);
    let ghost o1 = out@;
    push_bytes(&mut out, depth, false);
    let ghost o2 = out@;
    push_bytes(&mut out, !depth, true);
    let ghost o3 = out@;
    push_bytes(&mut out, !seed, true);
    assert forall|i: int| 0 <= i < 32 implies #[trigger] out@[i] == seed_byte(seed, depth, i) by {
        if i < 8 {
            assert(o1[0 + i] == le_byte(seed, i));
            assert(out@[i] == o3[i] && o3[i] == o2[i] && o2[i] == o1[i]);
        } else if i < 16 {
            assert(o2[8 + (i - 8)] == le_byte(depth, i - 8));
            assert(out@[i] == o3[i] && o3[i] == o2[i]);
        } else if i < 24 {
            assert(o3[16 + (i - 16)] == le_byte(!depth, 7 - (i - 16)));
            assert(out@[i] == o3[i]);
        } else {
            assert(out@[24 + (i - 24)] == le_byte(!seed, 7 - (i - 24)));
        }
    }
    out
}

/// The generator for a world seed and a depth.
pub fn generation_rng(seed: u64, depth: u64) -> rand_xoshiro::Xoshiro256StarStar {
    xoshiro_from_seed(&rng_seed(seed, depth))
}

/// Draws made before the caves are carved: the seeds of the two noise fields, and
/// the cell where carving starts.
#[derive(Clone, Copy, Debug)]
pub struct CaveStart {
    pub billow_seed: u32,
    pub simplex_seed: u32,
    pub origin: Cell,
}

/// Draw the noise seeds and the starting cell, in that order.
pub fn draw_cave_start(rng: &mut rand_xoshiro::Xoshiro256StarStar) -> (r: CaveStart)
    ensures
        in_bounds(r.origin),
{
    let billow_seed = draw_u32(rng);
    let simplex_seed = draw_u32(rng);
    let x = draw_below(rng, WORLD_SIZE as usize);
    let y = draw_below(rng, WORLD_SIZE as usize);
    CaveStart { billow_seed, simplex_seed, origin: (x as i64, y as i64) }
}

/// One of the listed cells, drawn uniformly, or `None` where there is none.
pub fn choose_open_spot(rng: &mut rand_xoshiro::Xoshiro256StarStar, open: &Vec<Cell>) -> (r: Option<Cell>)
    ensures
        r is Some <==> open@.len() > 0,
        r is Some ==> open@.contains(r->0),
{
    if open.len() == 0 {
        return None;
    }
    let i = draw_below(rng, open.len());
    assert(open@[i as int] == open@[i as int]);
    Some(open[i])
}

pub open spec fn in_bounds(c: Cell) -> bool {
    0 <= c.0 < WORLD_SIZE && 0 <= c.1 < WORLD_SIZE
}

/// Row-major index of a cell.
pub open spec fn cell_index(c: Cell) -> int {
    c.1 * WORLD_SIZE + c.0
}

/// The neighbour of `c` in direction `k`: north, east, south, west.
pub open spec fn neighbor(c: Cell, k: int) -> Cell {
    if k == 0 {
        (c.0, (c.1 - 1) as i64)
    } else if k == 1 {
        ((c.0 + 1) as i64, c.1)
    } else if k == 2 {
        (c.0, (c.1 + 1) as i64)
    } else {
        ((c.0 - 1) as i64, c.1)
    }
}

pub open spec fn adjacent(a: Cell, b: Cell) -> bool {
    (a.0 == b.0 && (a.1 - b.1 == 1 || b.1 - a.1 == 1)) || (a.1 == b.1 && (a.0 - b.0 == 1 || b.0 - a.0
        == 1))
}

/// `p` is a walk of orthogonal steps from `from` to `to` through cells of `s`.
pub open spec fn is_walk(p: Seq<Cell>, s: Set<Cell>, from: Cell, to: Cell) -> bool {
    &&& p.len() >= 1
    &&& p[0] == from
    &&& p[p.len() - 1] == to
    &&& forall|i: int| 0 <= i < p.len() ==> s.contains(#[trigger] p[i])
    &&& forall|i: int| 0 <= i < p.len() - 1 ==> adjacent(#[trigger] p[i], p[i + 1])
}

/// Every cell of `s` can be reached from `origin` by orthogonal steps within `s`.
pub open spec fn connected_from(s: Set<Cell>, origin: Cell) -> bool {
    forall|c: Cell| #[trigger] s.contains(c) ==> exists|p: Seq<Cell>| is_walk(p, s, origin, c)
}

/// The cells of a tile map that hold ground.
pub open spec fn ground_cells(m: Map<Cell, Tile>) -> Set<Cell> {
    Set::new(|c: Cell| m.contains_key(c) && m[c] == Tile::Ground)
}

proof fn lemma_walk_grows(p: Seq<Cell>, s: Set<Cell>, t: Set<Cell>, from: Cell, to: Cell)
    requires
        is_walk(p, s, from, to),
        s.subset_of(t),
    ensures
        is_walk(p, t, from, to),
{
}

proof fn lemma_walk_extends(p: Seq<Cell>, s: Set<Cell>, from: Cell, to: Cell, next: Cell)
    requires
        is_walk(p, s, from, to),
        adjacent(to, next),
        s.contains(next),
    ensures
        is_walk(p.push(next), s, from, next),
{
    let q = p.push(next);
    assert forall|i: int| 0 <= i < q.len() - 1 implies adjacent(#[trigger] q[i], q[i + 1]) by {
        if i < p.len() - 1 {
            assert(q[i] == p[i] && q[i + 1] == p[i + 1]);
        }
    }
}

fn step(c: Cell, k: usize) -> (r: Cell)
    requires
        in_bounds(c),
        k < 4,
    ensures
        r == neighbor(c, k as int),
        adjacent(c, r),
{
    if k == 0 {
        (c.0, c.1 - 1)
    } else if k == 1 {
        (c.0 + 1, c.1)
    } else if k == 2 {
        (c.0, c.1 + 1)
    } else {
        (c.0 - 1, c.1)
    }
}

fn in_bounds_exec(c: Cell) -> (r: bool)
    ensures
        r == in_bounds(c),
{
    0 <= c.0 && c.0 < WORLD_SIZE && 0 <= c.1 && c.1 < WORLD_SIZE
}

/// Number of cells on the grid.
pub const N_CELLS: i64 = 16384;

/// The tile grid being generated.
pub struct TileMap {
    pub tiles: ahash::AHashMap<Cell, Tile>,
}

impl TileMap {
    /// The map holds a tile for every cell of the grid and for no other.
    pub open spec fn is_full(&self) -> bool {
        forall|c: Cell| #[trigger] tile_map(self.tiles).contains_key(c) <==> in_bounds(c)
    }

    /// An empty map.
    pub fn new() -> (r: Self)
        ensures
            tile_map(r.tiles).dom() == Set::<Cell>::empty(),
    {
        TileMap { tiles: new_tile_map() }
    }

    /// Fill every cell of the grid with rock: the map then holds a rock tile for
    /// each cell of the grid, and nothing else.
    pub fn fill(&mut self)
        ensures
            final(self).is_full(),
            forall|c: Cell| in_bounds(c) ==> #[trigger] tile_map(final(self).tiles)[c] == Tile::Rock,
    {
        let mut m = new_tile_map();
        let ghost start = tile_map(m);
        let mut x: i64 = 0;
        while x < WORLD_SIZE
            invariant
                0 <= x <= WORLD_SIZE,
                forall|c: Cell| #![trigger tile_map(m).contains_key(c)] in_bounds(c) && c.0 < x ==> tile_map(m).contains_key(c),
                forall|c: Cell| #![trigger tile_map(m)[c]] in_bounds(c) && c.0 < x ==> tile_map(m)[c] == Tile::Rock,
                forall|c: Cell| !in_bounds(c) ==> #[trigger] tile_map(m).contains_key(c) == start.contains_key(c),
            decreases WORLD_SIZE - x,
        {
            let mut y: i64 = 0;
            while y < WORLD_SIZE
                invariant
                    0 <= x < WORLD_SIZE,
                    0 <= y <= WORLD_SIZE,
                    forall|c: Cell| #![trigger tile_map(m).contains_key(c)] in_bounds(c) && (c.0 < x || (c.0 == x && c.1 < y)) ==> tile_map(m).contains_key(c),
                    forall|c: Cell| #![trigger tile_map(m)[c]] in_bounds(c) && (c.0 < x || (c.0 == x && c.1 < y)) ==> tile_map(m)[c] == Tile::Rock,
                    forall|c: Cell| !in_bounds(c) ==> #[trigger] tile_map(m).contains_key(c) == start.contains_key(c),
                decreases WORLD_SIZE - y,
            {
                let ghost before = tile_map(m);
                insert_tile(&mut m, (x, y), Tile::Rock);
                proof {
                    assert forall|c: Cell| in_bounds(c) && (c.0 < x || (c.0 == x && c.1 < y + 1)) implies tile_map(m).contains_key(c)
                        && tile_map(m)[c] == Tile::Rock by {
                        if c.0 == x && c.1 == y {
                            assert(c == (x, y));
                        } else {
                            assert(before.contains_key(c));
                        }
                    }
                }
                y = y + 1;
            }
            x = x + 1;
        }
        self.tiles = m;
    }
}

/// Distinct cells of the grid have distinct indices.
proof fn lemma_cell_index_injective(a: Cell, b: Cell)
    requires
        in_bounds(a),
        in_bounds(b),
        cell_index(a) == cell_index(b),
    ensures
        a == b,
{
    assert(a.1 == b.1 && a.0 == b.0) by (nonlinear_arith)
        requires
            0 <= a.0 < 128,
            0 <= b.0 < 128,
            0 <= a.1 < 128,
            0 <= b.1 < 128,
            a.1 * 128 + a.0 == b.1 * 128 + b.0,
    ;
}

/// Whether neighbour `k` of `c` is on the grid and in `open`.
pub open spec fn open_at(c: Cell, open: Set<Cell>, k: int) -> bool {
    in_bounds(neighbor(c, k)) && open.contains(neighbor(c, k))
}

/// How many of the first `k` neighbours of `c` are on the grid and in `open`.
pub open spec fn open_count(c: Cell, open: Set<Cell>, k: int) -> int
    decreases k,
{
    if k <= 0 {
        0
    } else {
        open_count(c, open, k - 1) + if open_at(c, open, k - 1) { 1int } else { 0int }
    }
}

/// The first `k` neighbours of `c` that are on the grid and not in `open`, in
/// the order north, east, south, west.
pub open spec fn closed_neighbors(c: Cell, open: Set<Cell>, k: int) -> Seq<Cell>
    decreases k,
{
    if k <= 0 {
        Seq::empty()
    } else {
        let n = neighbor(c, k - 1);
        closed_neighbors(c, open, k - 1) + if in_bounds(n) && !open.contains(n) { seq![n] } else { Seq::empty() }
    }
}

/// The state of the cave growth: the open cells, the frontier, and how many draws
/// were used.
pub struct Growth {
    pub open: Set<Cell>,
    pub frontier: Seq<Cell>,
    pub used: nat,
}

/// Where growth from `origin` starts.
pub open spec fn grow_init(origin: Cell) -> Growth {
    Growth { open: set![origin], frontier: closed_neighbors(origin, set![origin], 4), used: 0 }
}

/// Which frontier entry a draw picks: `draw` places before the newest, or the oldest.
pub open spec fn pick_index(len: int, draw: int) -> int {
    if draw > len - 1 {
        0
    } else {
        len - 1 - draw
    }
}

/// One step of growth: the next draw (zero once they run out) picks a frontier
/// cell and takes it off the frontier; if it has exactly one open neighbour, it is
/// open afterwards, and its closed neighbours join the frontier.
pub open spec fn grow_step(g: Growth, backtracks: Seq<usize>) -> Growth {
    let draw = if g.used < backtracks.len() { backtracks[g.used as int] as int } else { 0 };
    let used = if g.used < backtracks.len() { g.used + 1 } else { g.used };
    let i = pick_index(g.frontier.len() as int, draw);
    let ex = g.frontier[i];
    let rest = g.frontier.remove(i);
    if open_count(ex, g.open, 4) == 1 {
        let open = g.open.insert(ex);
        Growth { open, frontier: rest + closed_neighbors(ex, open, 4), used }
    } else {
        Growth { open: g.open, frontier: rest, used }
    }
}

/// Growth for at most `steps` steps, stopping when the frontier is empty.
pub open spec fn grow_run(g: Growth, backtracks: Seq<usize>, steps: nat) -> Growth
    decreases steps,
{
    if steps == 0 || g.frontier.len() == 0 {
        g
    } else {
        grow_run(grow_step(g, backtracks), backtracks, (steps - 1) as nat)
    }
}

/// The open cells that growth from `origin` with these draws ends with, once its
/// frontier is empty.
pub open spec fn grown(origin: Cell, backtracks: Seq<usize>) -> Set<Cell> {
    let n = choose|n: nat| grow_run(grow_init(origin), backtracks, n).frontier.len() == 0;
    grow_run(grow_init(origin), backtracks, n).open
}

proof fn lemma_run_compose(g: Growth, b: Seq<usize>, n: nat, k: nat)
    ensures
        grow_run(g, b, n + k) == grow_run(grow_run(g, b, n), b, k),
    decreases n,
{
    if n > 0 && g.frontier.len() > 0 {
        lemma_run_compose(grow_step(g, b), b, (n - 1) as nat, k);
        assert((n - 1) as nat + k == (n + k - 1) as nat);
    }
}

proof fn lemma_run_settled(g: Growth, b: Seq<usize>, n: nat, m: nat)
    requires
        grow_run(g, b, n).frontier.len() == 0,
        n <= m,
    ensures
        grow_run(g, b, m) == grow_run(g, b, n),
{
    lemma_run_compose(g, b, n, (m - n) as nat);
    assert(n + (m - n) as nat == m);
}

proof fn lemma_run_next(g: Growth, b: Seq<usize>, n: nat)
    requires
        grow_run(g, b, n).frontier.len() > 0,
    ensures
        grow_run(g, b, n + 1) == grow_step(grow_run(g, b, n), b),
{
    lemma_run_compose(g, b, n, 1);
    let h = grow_run(g, b, n);
    assert(grow_run(grow_step(h, b), b, 0) == grow_step(h, b));
}

/// How many entries of `s` are in `open`.
pub open spec fn count_open(s: Seq<Cell>, open: Set<Cell>) -> nat
    decreases s.len(),
{
    if s.len() == 0 {
        0
    } else {
        count_open(s.drop_last(), open) + if open.contains(s.last()) { 1nat } else { 0nat }
    }
}

proof fn lemma_count_append(s: Seq<Cell>, t: Seq<Cell>, open: Set<Cell>)
    ensures
        count_open(s + t, open) == count_open(s, open) + count_open(t, open),
    decreases t.len(),
{
    if t.len() > 0 {
        assert((s + t).drop_last() =~= s + t.drop_last());
        assert((s + t).last() == t.last());
        lemma_count_append(s, t.drop_last(), open);
    } else {
        assert(s + t =~= s);
    }
}

proof fn lemma_count_remove(s: Seq<Cell>, i: int, open: Set<Cell>)
    requires
        0 <= i < s.len(),
    ensures
        count_open(s, open) == count_open(s.remove(i), open) + if open.contains(s[i]) { 1nat } else { 0nat },
{
    let a = s.take(i);
    let c = s.skip(i + 1);
    assert(s =~= a + seq![s[i]] + c);
    assert(s.remove(i) =~= a + c);
    lemma_count_append(a + seq![s[i]], c, open);
    lemma_count_append(a, seq![s[i]], open);
    lemma_count_append(a, c, open);
    let one = seq![s[i]];
    assert(one.drop_last() =~= Seq::<Cell>::empty());
    assert(one.last() == s[i]);
    assert(count_open(Seq::<Cell>::empty(), open) == 0);
    assert(count_open(one, open) == count_open(one.drop_last(), open) + if open.contains(one.last()) { 1nat } else { 0nat });
    assert(s.remove(i) == a + c);
    assert(s == a + one + c);
}

proof fn lemma_count_none_open(t: Seq<Cell>, open: Set<Cell>)
    requires
        forall|i: int| 0 <= i < t.len() ==> !open.contains(#[trigger] t[i]),
    ensures
        count_open(t, open) == 0,
    decreases t.len(),
{
    if t.len() > 0 {
        lemma_count_none_open(t.drop_last(), open);
    }
}

proof fn lemma_neighbors_split(c: Cell, open: Set<Cell>, k: int)
    requires
        0 <= k <= 4,
    ensures
        closed_neighbors(c, open, k).len() + open_count(c, open, k) <= k,
    decreases k,
{
    if k > 0 {
        lemma_neighbors_split(c, open, k - 1);
    }
}

/// How many neighbours of `ex` on the grid are in `open`, and one of them.
fn open_neighbors(open: &ahash::AHashSet<Cell>, ex: Cell) -> (r: (usize, Option<Cell>))
    requires
        in_bounds(ex),
    ensures
        r.0 == open_count(ex, cell_set(*open), 4),
        r.0 == 0 <==> r.1 is None,
        r.1 is Some ==> cell_set(*open).contains(r.1->0) && adjacent(ex, r.1->0),
{
    let mut count: usize = 0;
    let mut found: Option<Cell> = None;
    let mut k: usize = 0;
    while k < 4
        invariant
            in_bounds(ex),
            k <= 4,
            count <= k,
            count == open_count(ex, cell_set(*open), k as int),
            count == 0 <==> found is None,
            found is Some ==> cell_set(*open).contains(found->0) && adjacent(ex, found->0),
        decreases 4 - k,
    {
        let n = step(ex, k);
        if in_bounds_exec(n) && contains_cell(open, n) {
            count = count + 1;
            found = Some(n);
        }
        k = k + 1;
    }
    (count, found)
}

proof fn lemma_closed_neighbors_valid(c: Cell, open: Set<Cell>, k: int)
    requires
        0 <= k <= 4,
    ensures
        closed_neighbors(c, open, k).len() <= k,
        forall|i: int| 0 <= i < closed_neighbors(c, open, k).len() ==> in_bounds(#[trigger] closed_neighbors(c, open, k)[i])
            && !open.contains(closed_neighbors(c, open, k)[i]),
    decreases k,
{
    if k > 0 {
        lemma_closed_neighbors_valid(c, open, k - 1);
    }
}

/// Append the neighbours of `ex` on the grid that are not in `open`.
fn push_closed_neighbors(exposed: &mut Vec<Cell>, open: &ahash::AHashSet<Cell>, ex: Cell)
    requires
        in_bounds(ex),
    ensures
        final(exposed)@ == old(exposed)@ + closed_neighbors(ex, cell_set(*open), 4),
{
    let ghost start = exposed@;
    let mut k: usize = 0;
    while k < 4
        invariant
            in_bounds(ex),
            k <= 4,
            exposed@ == start + closed_neighbors(ex, cell_set(*open), k as int),
        decreases 4 - k,
    {
        let n = step(ex, k);
        if in_bounds_exec(n) && !contains_cell(open, n) {
            exposed.push(n);
        }
        proof {
            assert(exposed@ =~= start + closed_neighbors(ex, cell_set(*open), k + 1));
        }
        k = k + 1;
    }
}

/// Grow open cells from `origin` as `grow_step` describes, until the frontier is
/// empty. The open cells are all on the grid, and all reachable from `origin`
/// through open cells.
fn grow_caves(origin: Cell, backtracks: &Vec<usize>) -> (r: ahash::AHashSet<Cell>)
    requires
        in_bounds(origin),
    ensures
        cell_set(r) == grown(origin, backtracks@),
        cell_set(r).contains(origin),
        forall|c: Cell| #[trigger] cell_set(r).contains(c) ==> in_bounds(c),
        connected_from(cell_set(r), origin),
{
    let mut empties = new_cell_set();
    insert_cell(&mut empties, origin);
    let mut exposed: Vec<Cell> = Vec::new();
    push_closed_neighbors(&mut exposed, &empties, origin);
    let ghost mut paths: Map<Cell, Seq<Cell>> = map![origin => seq![origin]];
    let ghost mut idxs: Set<int> = set![cell_index(origin)];
    let ghost mut steps: nat = 0;
    let mut t: usize = 0;
    proof {
        assert(cell_set(empties) =~= set![origin]);
        lemma_closed_neighbors_valid(origin, set![origin], 4);
        assert forall|c: Cell| in_bounds(c) implies (#[trigger] cell_set(empties).contains(c) <==> idxs.contains(cell_index(c))) by {
            if idxs.contains(cell_index(c)) {
                lemma_cell_index_injective(c, origin);
            }
        }
        assert(is_walk(paths[origin], cell_set(empties), origin, origin));
        assert((Growth { open: cell_set(empties), frontier: exposed@, used: t as nat }) == grow_init(origin));
    }
    while exposed.len() > 0
        invariant
            in_bounds(origin),
            cell_set(empties).contains(origin),
            forall|c: Cell| #[trigger] cell_set(empties).contains(c) ==> in_bounds(c),
            forall|i: int| 0 <= i < exposed@.len() ==> in_bounds(#[trigger] exposed@[i]),
            forall|c: Cell| #[trigger] cell_set(empties).contains(c) ==> paths.contains_key(c) && is_walk(
                paths[c],
                cell_set(empties),
                origin,
                c,
            ),
            forall|c: Cell| in_bounds(c) ==> (#[trigger] cell_set(empties).contains(c) <==> idxs.contains(cell_index(c))),
            idxs.finite(),
            idxs.len() <= N_CELLS,
            forall|i: int| #[trigger] idxs.contains(i) ==> 0 <= i < N_CELLS,
            grow_run(grow_init(origin), backtracks@, steps) == (Growth { open: cell_set(empties), frontier: exposed@, used: t as nat }),
        decreases N_CELLS - idxs.len(), exposed@.len() + 3 * count_open(exposed@, cell_set(empties)),
    {
        let ghost g = Growth { open: cell_set(empties), frontier: exposed@, used: t as nat };
        proof {
            lemma_run_next(grow_init(origin), backtracks@, steps);
        }
        let draw: usize = if t < backtracks.len() { backtracks[t] } else { 0 };
        if t < backtracks.len() {
            t = t + 1;
        }
        let last = exposed.len() - 1;
        let idx = if draw > last { 0 } else { last - draw };
        assert(idx == pick_index(g.frontier.len() as int, if g.used < backtracks@.len() { backtracks@[g.used as int] as int } else { 0 }));
        let ghost before = exposed@;
        let ex = exposed.remove(idx);
        proof {
            lemma_count_remove(before, idx as int, cell_set(empties));
        }
        assert forall|i: int| 0 <= i < exposed@.len() implies in_bounds(#[trigger] exposed@[i]) by {
            if i < idx {
                assert(exposed@[i] == before[i]);
            } else {
                assert(exposed@[i] == before[i + 1]);
            }
        }
        assert(in_bounds(before[idx as int]));
        let (count, found) = open_neighbors(&empties, ex);
        if count == 1 {
            let was_open = contains_cell(&empties, ex);
            let ghost old_set = cell_set(empties);
            let ghost old_paths = paths;
            let ghost old_idxs = idxs;
            let ghost w = found->0;
            insert_cell(&mut empties, ex);
            proof {
                let new_set = cell_set(empties);
                if was_open {
                    assert(new_set =~= old_set);
                } else {
                    assert(old_set.subset_of(new_set));
                    lemma_walk_grows(old_paths[w], old_set, new_set, origin, w);
                    lemma_walk_extends(old_paths[w], new_set, origin, w, ex);
                    paths = old_paths.insert(ex, old_paths[w].push(ex));
                    assert forall|c: Cell| #[trigger] new_set.contains(c) implies paths.contains_key(c) && is_walk(
                        paths[c],
                        new_set,
                        origin,
                        c,
                    ) by {
                        if c != ex {
                            lemma_walk_grows(old_paths[c], old_set, new_set, origin, c);
                        }
                    }
                    assert(!old_idxs.contains(cell_index(ex)));
                    idxs = old_idxs.insert(cell_index(ex));
                    assert forall|c: Cell| in_bounds(c) implies (#[trigger] new_set.contains(c) <==> idxs.contains(cell_index(c))) by {
                        if idxs.contains(cell_index(c)) && c != ex && !old_idxs.contains(cell_index(c)) {
                            lemma_cell_index_injective(c, ex);
                        }
                    }
                    assert(idxs.subset_of(set_int_range(0, N_CELLS as int)));
                    lemma_int_range(0, N_CELLS as int);
                    lemma_len_subset(idxs, set_int_range(0, N_CELLS as int));
                }
                lemma_closed_neighbors_valid(ex, new_set, 4);
                lemma_neighbors_split(ex, old_set, 4);
                lemma_count_none_open(closed_neighbors(ex, new_set, 4), new_set);
            }
            let ghost kept = exposed@;
            push_closed_neighbors(&mut exposed, &empties, ex);
            proof {
                lemma_count_append(kept, closed_neighbors(ex, cell_set(empties), 4), cell_set(empties));
            }
            assert forall|i: int| 0 <= i < exposed@.len() implies in_bounds(#[trigger] exposed@[i]) by {
                if i < kept.len() {
                    assert(exposed@[i] == kept[i]);
                } else {
                    assert(exposed@[i] == closed_neighbors(ex, cell_set(empties), 4)[i - kept.len()]);
                }
            }
        }
        proof {
            assert((Growth { open: cell_set(empties), frontier: exposed@, used: t as nat }) == grow_step(g, backtracks@));
            steps = steps + 1;
        }
    }
    proof {
        assert forall|c: Cell| #[trigger] cell_set(empties).contains(c) implies exists|p: Seq<Cell>|
            is_walk(p, cell_set(empties), origin, c) by {
            assert(is_walk(paths[c], cell_set(empties), origin, c));
        }
        let init = grow_init(origin);
        assert(grow_run(init, backtracks@, steps).frontier.len() == 0);
        let n = choose|n: nat| grow_run(init, backtracks@, n).frontier.len() == 0;
        if n <= steps {
            lemma_run_settled(init, backtracks@, n, steps);
        } else {
            lemma_run_settled(init, backtracks@, steps, n);
        }
    }
    empties
}

/// The tile for a cell after carving: ground where open, rock elsewhere.
pub open spec fn carved_tile(open: Set<Cell>, c: Cell) -> Tile {
    if open.contains(c) {
        Tile::Ground
    } else {
        Tile::Rock
    }
}

/// `m` is the map carved from `origin` with these draws: a tile for each cell of
/// the grid, ground where growth opened the cell and rock elsewhere.
pub open spec fn is_carved_map(m: Map<Cell, Tile>, origin: Cell, backtracks: Seq<usize>) -> bool {
    &&& forall|c: Cell| #[trigger] m.contains_key(c) <==> in_bounds(c)
    &&& forall|c: Cell| #[trigger] m.contains_key(c) ==> m[c] == carved_tile(grown(origin, backtracks), c)
}

/// Generation is determined by its inputs: maps carved from the same starting cell
/// with the same draws are the same map. (The starting cell and the draws come from
/// a generator seeded by `rng_seed(seed, depth)`.)
pub proof fn lemma_generation_deterministic(a: Map<Cell, Tile>, b: Map<Cell, Tile>, origin: Cell, backtracks: Seq<usize>)
    requires
        is_carved_map(a, origin, backtracks),
        is_carved_map(b, origin, backtracks),
    ensures
        a == b,
{
    assert(a.dom() =~= b.dom()) by {
        assert forall|c: Cell| a.contains_key(c) <==> b.contains_key(c) by {
            assert(a.contains_key(c) <==> in_bounds(c));
            assert(b.contains_key(c) <==> in_bounds(c));
        }
    }
    assert forall|c: Cell| #[trigger] a.contains_key(c) implies a[c] == b[c] by {
        assert(b.contains_key(c));
    }
    assert(a =~= b);
}

impl TileMap {
    /// Carve caves into a full map: grow open cells from `origin` (see the draws
    /// described at `grow_caves`), then make every open cell ground and every other
    /// cell rock. The ground is then one connected cave holding `origin`.
    pub fn carve_caves(&mut self, origin: Cell, backtracks: &Vec<usize>)
        requires
            old(self).is_full(),
            in_bounds(origin),
        ensures
            final(self).is_full(),
            forall|c: Cell| #![trigger tile_map(final(self).tiles)[c]] in_bounds(c) ==> tile_map(final(self).tiles)[c] == Tile::Ground
                || tile_map(final(self).tiles)[c] == Tile::Rock,
            ground_cells(tile_map(final(self).tiles)).contains(origin),
            connected_from(ground_cells(tile_map(final(self).tiles)), origin),
            is_carved_map(tile_map(final(self).tiles), origin, backtracks@),
    {
        let empties = grow_caves(origin, backtracks);
        let ghost open = cell_set(empties);
        let mut m = new_tile_map();
        std::mem::swap(&mut m, &mut self.tiles);
        let mut x: i64 = 0;
        while x < WORLD_SIZE
            invariant
                0 <= x <= WORLD_SIZE,
                open == cell_set(empties),
                forall|c: Cell| #[trigger] tile_map(m).contains_key(c) <==> in_bounds(c),
                forall|c: Cell| #![trigger tile_map(m)[c]] in_bounds(c) && c.0 < x ==> tile_map(m)[c] == carved_tile(open, c),
            decreases WORLD_SIZE - x,
        {
            let mut y: i64 = 0;
            while y < WORLD_SIZE
                invariant
                    0 <= x < WORLD_SIZE,
                    0 <= y <= WORLD_SIZE,
                    open == cell_set(empties),
                    forall|c: Cell| #[trigger] tile_map(m).contains_key(c) <==> in_bounds(c),
                    forall|c: Cell| #![trigger tile_map(m)[c]] in_bounds(c) && (c.0 < x || (c.0 == x && c.1 < y)) ==> tile_map(m)[c]
                        == carved_tile(open, c),
                decreases WORLD_SIZE - y,
            {
                let tile = if contains_cell(&empties, (x, y)) { Tile::Ground } else { Tile::Rock };
                insert_tile(&mut m, (x, y), tile);
                y = y + 1;
            }
            x = x + 1;
        }
        proof {
            let tm = tile_map(m);
            assert(ground_cells(tm) =~= open);
            assert forall|c: Cell| #[trigger] tm.contains_key(c) implies tm[c] == carved_tile(grown(origin, backtracks@), c) by {
                assert(in_bounds(c));
            }
        }
        self.tiles = m;
    }

    /// Generate the map: fill it with rock, then carve caves from `origin`.
    pub fn generate(&mut self, origin: Cell, backtracks: &Vec<usize>)
        requires
            in_bounds(origin),
        ensures
            final(self).is_full(),
            forall|c: Cell| #![trigger tile_map(final(self).tiles)[c]] in_bounds(c) ==> tile_map(final(self).tiles)[c] == Tile::Ground
                || tile_map(final(self).tiles)[c] == Tile::Rock,
            ground_cells(tile_map(final(self).tiles)).contains(origin),
            connected_from(ground_cells(tile_map(final(self).tiles)), origin),
            is_carved_map(tile_map(final(self).tiles), origin, backtracks@),
    {
        self.fill();
        self.carve_caves(origin, backtracks);
    }
}

} // verus!
