use caverune::procgen::{choose_open_spot, draw_cave_start, generation_rng, rng_seed, Tile, TileMap, WORLD_SIZE};
use rand::Rng;
use std::collections::{HashSet, VecDeque};

/// The rounded exponential draws that pick how far back the carve reaches.
fn backtracks(rng: &mut rand_xoshiro::Xoshiro256StarStar, n: usize) -> Vec<usize> {
    let exp = rand_distr::Exp::new(0.5f32).unwrap();
    (0..n).map(|_| rng.sample(exp).round() as usize).collect()
}

fn generate(seed: u64, depth: u64) -> (TileMap, (i64, i64)) {
    let mut rng = generation_rng(seed, depth);
    let start = draw_cave_start(&mut rng);
    let draws = backtracks(&mut rng, 70_000);
    let mut map = TileMap::new();
    map.generate(start.origin, &draws);
    (map, start.origin)
}

#[test]
fn seed_bytes_mix_seed_and_depth() {
    let b = rng_seed(0x0102030405060708, 2);
    assert_eq!(b.len(), 32);
    assert_eq!(&b[0..8], &[8, 7, 6, 5, 4, 3, 2, 1]);
    assert_eq!(&b[8..16], &[2, 0, 0, 0, 0, 0, 0, 0]);
    assert_eq!(&b[16..24], &[0xff, 0xff, 0xff, 0xff, 0xff, 0xff, 0xff, 0xfd]);
    assert_eq!(&b[24..32], &[0xfe, 0xfd, 0xfc, 0xfb, 0xfa, 0xf9, 0xf8, 0xf7]);
    assert_ne!(rng_seed(5, 1), rng_seed(5, 2));
}

#[test]
fn carved_ground_is_connected_from_the_origin() {
    for seed in [1u64, 42, 9999] {
        let (map, origin) = generate(seed, 0);
        assert_eq!(map.tiles.len(), (WORLD_SIZE * WORLD_SIZE) as usize);
        let ground: HashSet<(i64, i64)> =
            map.tiles.iter().filter(|(_, t)| **t == Tile::Ground).map(|(c, _)| *c).collect();
        assert!(ground.contains(&origin));
        assert!(ground.len() > 1);
        let mut seen = HashSet::new();
        let mut queue = VecDeque::from(vec![origin]);
        seen.insert(origin);
        while let Some((x, y)) = queue.pop_front() {
            for n in [(x, y - 1), (x + 1, y), (x, y + 1), (x - 1, y)] {
                if ground.contains(&n) && seen.insert(n) {
                    queue.push_back(n);
                }
            }
        }
        assert_eq!(seen.len(), ground.len());
        assert!(map.tiles.values().all(|t| *t == Tile::Ground || *t == Tile::Rock));
    }
}

#[test]
fn same_seed_and_depth_give_the_same_grid() {
    let (a, oa) = generate(77, 3);
    let (b, ob) = generate(77, 3);
    assert_eq!(oa, ob);
    assert_eq!(a.tiles.len(), b.tiles.len());
    for (c, t) in a.tiles.iter() {
        assert_eq!(b.tiles.get(c), Some(t));
    }
    let (c, _) = generate(77, 4);
    assert!(a.tiles.iter().any(|(k, t)| c.tiles.get(k) != Some(t)));
}

#[test]
fn carve_with_no_draws_still_fills_and_connects() {
    let mut map = TileMap::new();
    map.generate((0, 0), &Vec::new());
    assert_eq!(map.tiles.len(), (WORLD_SIZE * WORLD_SIZE) as usize);
    assert_eq!(map.tiles.get(&(0, 0)), Some(&Tile::Ground));
    assert_eq!(map.tiles.get(&(1, 1)), Some(&Tile::Rock));
}

#[test]
fn fill_makes_every_cell_rock() {
    let mut map = TileMap::new();
    map.fill();
    assert_eq!(map.tiles.len(), (WORLD_SIZE * WORLD_SIZE) as usize);
    assert!(map.tiles.values().all(|t| *t == Tile::Rock));
    assert!(Tile::Rock.is_solid() && Tile::Wall.is_solid());
    assert!(!Tile::Ground.is_solid() && !Tile::Floor.is_solid() && !Tile::Path.is_solid());
}

#[test]
fn cave_start_and_spots_are_in_range() {
    let mut rng = generation_rng(3, 3);
    let start = draw_cave_start(&mut rng);
    assert!((0..WORLD_SIZE).contains(&start.origin.0) && (0..WORLD_SIZE).contains(&start.origin.1));
    assert_eq!(choose_open_spot(&mut rng, &Vec::new()), None);
    let open = vec![(4, 5), (6, 7)];
    for _ in 0..20 {
        let s = choose_open_spot(&mut rng, &open).unwrap();
        assert!(open.contains(&s));
    }
    let one = vec![(9, 9)];
    assert_eq!(choose_open_spot(&mut rng, &one), Some((9, 9)));
}
