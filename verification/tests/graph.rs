//! The graph for the graphics card, and the searches that use it.

use ananke::trail::SENTINEL;
use ananke::voxel::{hash3_cpu, Cell, CellIndex, VoxelTable, EMPTY};
use ananke::vulkan_astar::{
    build_graph, order_relaxations, run_bidirectional, run_unidirectional, GpuRelaxation,
    GraphIndex, BATCH_SIZE,
};

/// Looks a cell up as the compute shader does.
fn look_up(t: &VoxelTable, c: Cell) -> Vec<u32> {
    let mut slot = hash3_cpu(c.0, c.1, c.2) & t.table_mask;
    for _ in 0..t.table.len() {
        let s = &t.table[slot as usize];
        if s.count == EMPTY {
            return Vec::new();
        }
        if (s.cx, s.cy, s.cz) == c {
            return t.flat[s.offset as usize..(s.offset + s.count) as usize].to_vec();
        }
        slot = (slot + 1) & t.table_mask;
    }
    Vec::new()
}

#[test]
fn hash_spreads_the_axes() {
    assert_eq!(hash3_cpu(0, 0, 0), 0);
    assert_eq!(hash3_cpu(1, 0, 0), 2654435761);
    assert_eq!(hash3_cpu(0, 1, 0), 805459861);
    assert_eq!(hash3_cpu(0, 0, 1), 3266489917);
    assert_eq!(hash3_cpu(-1, 0, 0), 0u32.wrapping_sub(2654435761));
    assert_eq!(hash3_cpu(1, 1, 1), 2654435761 ^ 805459861 ^ 3266489917);
}

#[test]
fn cells_hold_their_systems() {
    let cells = vec![(0, 0, 0), (1, 0, 0), (0, 0, 0), (-3, 2, 5), (2, 2, 2), (3, 0, 0)];
    let index = CellIndex::build(&cells);
    assert_eq!(index.at((0, 0, 0)), Some(&vec![0, 2]));
    assert_eq!(index.at((9, 9, 9)), None);
    let mut near = index.near((0, 0, 0));
    near.sort();
    assert_eq!(near, vec![0, 1, 2, 4]);
    let mut beside = index.near((1, 1, 1));
    beside.sort();
    assert_eq!(beside, vec![0, 1, 2, 4, 5]);
}

#[test]
fn graph_finds_every_cell() {
    let mut ids = Vec::new();
    let mut cells = Vec::new();
    for i in 0..200i64 {
        ids.push(1000 + i);
        cells.push(((i % 7) as i32 - 3, (i % 5) as i32, -((i % 11) as i32)));
    }
    let g = build_graph(&ids, &cells);
    assert_eq!(g.nodes.idx_to_id, ids);
    assert_eq!(g.nodes.id_to_idx[&1042], 42);
    assert!(g.voxels.table.len().is_power_of_two());
    assert_eq!(g.voxels.table_mask as usize + 1, g.voxels.table.len());
    for c in &cells {
        let want: Vec<u32> = (0..200u32).filter(|&i| cells[i as usize] == *c).collect();
        assert_eq!(look_up(&g.voxels, *c), want);
    }
    assert!(look_up(&g.voxels, (50, 50, 50)).is_empty());
}

#[test]
fn empty_graph_has_a_table() {
    let g = build_graph(&vec![], &vec![]);
    assert_eq!(g.voxels.table.len(), 16);
    assert!(!g.voxels.flat.is_empty());
    assert!(look_up(&g.voxels, (0, 0, 0)).is_empty());
}

#[test]
fn last_of_equal_ids_counts() {
    let g = build_graph(&vec![7, 8, 7], &vec![(0, 0, 0), (0, 0, 0), (1, 1, 1)]);
    assert_eq!(g.nodes.id_to_idx[&7], 2);
}

#[test]
fn relaxations_come_by_target() {
    let r = |from_idx: u32, to_idx: u32, new_g: u32| GpuRelaxation { from_idx, to_idx, new_g };
    let sorted = order_relaxations(&vec![r(0, 5, 1), r(1, 2, 1), r(2, 5, 2), r(3, 2, 9)]);
    let got: Vec<(u32, u32, u32)> =
        sorted.iter().map(|x| (x.from_idx, x.to_idx, x.new_g)).collect();
    assert_eq!(got, vec![(1, 2, 1), (3, 2, 9), (0, 5, 1), (2, 5, 2)]);
}

/// Nodes on a line, a jump spans up to three.
fn line(n: u32) -> impl Fn(&Vec<(u32, u32)>, u32) -> Option<Vec<GpuRelaxation>> {
    move |batch: &Vec<(u32, u32)>, mu: u32| {
        let mut out = Vec::new();
        for &(i, g) in batch {
            for to in i.saturating_sub(3)..=(i + 3).min(n - 1) {
                if to != i && g + 1 < mu {
                    out.push(GpuRelaxation { from_idx: i, to_idx: to, new_g: g + 1 });
                }
            }
        }
        Some(out)
    }
}

fn line_graph(n: u32) -> GraphIndex {
    let ids: Vec<i64> = (0..n as i64).map(|i| 100 + i).collect();
    let cells: Vec<Cell> = (0..n as i32).map(|i| (i, 0, 0)).collect();
    build_graph(&ids, &cells).nodes
}

fn estimates(n: u32, to: u32) -> Vec<u32> {
    (0..n).map(|i| (i.abs_diff(to) + 2) / 3).collect()
}

fn steps_are_short(p: &Vec<i64>) -> bool {
    p.windows(2).all(|w| (w[0] - w[1]).abs() <= 3)
}

#[test]
fn card_finds_a_way() {
    let g = line_graph(40);
    let est = estimates(40, 39);
    let p = run_unidirectional(&g, &est, 100, 139, 100, line(40), || false).unwrap();
    assert_eq!(p.len() - 1, 13);
    assert_eq!(p[0], 100);
    assert_eq!(*p.last().unwrap(), 139);
    assert!(steps_are_short(&p));
}

#[test]
fn card_stays_below_the_greedy_route() {
    let g = line_graph(40);
    let est = estimates(40, 39);
    assert!(run_unidirectional(&g, &est, 100, 139, 13, line(40), || false).is_none());
    assert!(run_unidirectional(&g, &est, 100, 139, 14, line(40), || false).is_some());
}

#[test]
fn card_knows_only_its_nodes() {
    let g = line_graph(10);
    let est = estimates(10, 9);
    assert!(run_unidirectional(&g, &est, 100, 999, 50, line(10), || false).is_none());
    assert!(run_unidirectional(&g, &est, 1, 109, 50, line(10), || false).is_none());
}

#[test]
fn card_may_fail() {
    let g = line_graph(10);
    let est = estimates(10, 9);
    let broken = |_: &Vec<(u32, u32)>, _: u32| -> Option<Vec<GpuRelaxation>> { None };
    assert!(run_unidirectional(&g, &est, 100, 109, 50, broken, || false).is_none());
}

#[test]
fn card_searches_from_both_ends() {
    let g = line_graph(60);
    let p = run_bidirectional(
        &g,
        &estimates(60, 59),
        &estimates(60, 0),
        100,
        159,
        100,
        159,
        0,
        0,
        100,
        line(60),
        line(60),
        || false,
    )
    .unwrap();
    assert_eq!(p[0], 100);
    assert_eq!(*p.last().unwrap(), 159);
    assert!(p.len() - 1 < 100);
    assert!(steps_are_short(&p));
    for k in 1..p.len() {
        assert!(!p[..k].contains(&p[k]));
    }
}

#[test]
fn card_counts_the_jumps_beyond_the_seeds() {
    let g = line_graph(30);
    let run = |limit: u32| {
        run_bidirectional(
            &g,
            &estimates(30, 29),
            &estimates(30, 0),
            100,
            129,
            103,
            126,
            1,
            1,
            limit,
            line(30),
            line(30),
            || false,
        )
    };
    let p = run(100).unwrap();
    assert_eq!(p[0], 103);
    assert_eq!(*p.last().unwrap(), 126);
    assert!(p.len() - 1 + 2 < 100);
    assert!(run(2).is_none());
}

#[test]
fn card_gives_up_when_late() {
    let g = line_graph(60);
    assert!(run_bidirectional(
        &g,
        &estimates(60, 59),
        &estimates(60, 0),
        100,
        159,
        100,
        159,
        0,
        0,
        100,
        line(60),
        line(60),
        || true,
    )
    .is_none());
}

#[test]
fn marks_are_as_the_shader_has_them() {
    assert_eq!(BATCH_SIZE, 512);
    assert_eq!(SENTINEL, u32::MAX);
    assert_eq!(EMPTY, u32::MAX);
}
