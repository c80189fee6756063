//! Searches for routes on small galaxies.

use std::collections::HashMap;

use ananke::astar::{search_one_way, Expansion, Hop, Outcome};
use ananke::both_ways::search_both_ways;
use ananke::carrier::{greedy_carrier, refine_carrier, settle_carrier, CARRIER_JUMP_RANGE};
use ananke::heap::{Entry, OpenSet};
use ananke::models::RouteNode;
use ananke::order::order;
use ananke::route::{
    carrier_unknown, hops_near, neutron_unknown, pick, route_key, ship_unknown, uses_astar,
    Candidate,
};
use ananke::ship::{search_ship, ship_error, ship_failure, ShipOutcome, Step, SHIP_JUMP};
use ananke::system::SystemKey;
use ananke::trail::{reconstruct_path_flat, trail, SENTINEL};

fn node(id64: i64, x: f64) -> RouteNode {
    RouteNode { id64, x: x.to_bits(), y: 0, z: 0 }
}

fn apart(a: RouteNode, b: RouteNode) -> u64 {
    (f64::from_bits(a.x) - f64::from_bits(b.x)).abs().to_bits()
}

/// A line of systems 0, 1, 2, ... one unit apart, where a jump spans up to
/// `reach` units.
fn line(n: i64, reach: i64, dst: i64) -> impl Fn(i64) -> Expansion {
    move |id: i64| {
        let mut hops = Vec::new();
        for d in -reach..=reach {
            let to = id + d;
            if d != 0 && to >= 0 && to < n {
                let left = (dst - to).abs();
                hops.push(Hop { id: to, h: ((left + reach - 1) / reach) as u32 });
            }
        }
        Expansion { arrives: (dst - id).abs() <= reach, hops }
    }
}

fn found(o: Outcome) -> Option<Vec<i64>> {
    match o {
        Outcome::Found(p) => Some(p),
        _ => None,
    }
}

#[test]
fn one_way_finds_the_fewest_jumps() {
    let p = found(search_one_way(&vec![0], 4, 11, 100, line(12, 3, 11), || false)).unwrap();
    assert_eq!(p.len() - 1, 4);
    assert_eq!(p[0], 0);
    assert_eq!(*p.last().unwrap(), 11);
    for k in 1..p.len() {
        assert!((p[k] - p[k - 1]).abs() <= 3);
    }
}

#[test]
fn one_way_respects_the_limit() {
    assert!(matches!(
        search_one_way(&vec![0], 4, 11, 4, line(12, 3, 11), || false),
        Outcome::NoBetter
    ));
    assert!(found(search_one_way(&vec![0], 4, 11, 5, line(12, 3, 11), || false)).is_some());
}

#[test]
fn one_way_gives_up_when_late() {
    assert!(matches!(
        search_one_way(&vec![0], 4, 11, 100, line(12, 3, 11), || true),
        Outcome::OutOfTime
    ));
}

#[test]
fn one_way_keeps_the_lead() {
    let p = found(search_one_way(&vec![5, 2, 0], 4, 11, 100, line(12, 3, 11), || false)).unwrap();
    assert_eq!(&p[..3], &[5, 2, 0]);
    assert_eq!(*p.last().unwrap(), 11);
    assert_eq!(p.len() - 1, 6);
}

#[test]
fn one_way_without_a_connection() {
    let look = |_: i64| Expansion { arrives: false, hops: Vec::new() };
    assert!(matches!(
        search_one_way(&vec![0], 1, 9, 100, look, || false),
        Outcome::NoBetter
    ));
}

#[test]
fn both_ways_meets_in_the_middle() {
    let p = search_both_ways(
        &vec![0],
        10,
        &vec![30],
        10,
        100,
        line(31, 3, 30),
        line(31, 3, 0),
        || false,
    )
    .unwrap();
    assert_eq!(p[0], 0);
    assert_eq!(*p.last().unwrap(), 30);
    assert!(p.len() - 1 < 100);
    for k in 1..p.len() {
        assert!((p[k] - p[k - 1]).abs() <= 3);
    }
}

#[test]
fn both_ways_keeps_below_the_limit() {
    let run = |limit: u32| {
        search_both_ways(
            &vec![0],
            4,
            &vec![12],
            4,
            limit,
            line(13, 3, 12),
            line(13, 3, 0),
            || false,
        )
    };
    assert!(run(4).is_none());
    let p = run(5).unwrap();
    assert_eq!(p.len() - 1, 4);
}

#[test]
fn both_ways_starts_behind_the_lead() {
    let (fwd, bwd) = (line(13, 3, 12), line(13, 3, 0));
    let p = search_both_ways(
        &vec![7, 0],
        4,
        &vec![99, 12],
        4,
        50,
        |id: i64| Expansion { arrives: false, hops: fwd(id).hops },
        |id: i64| Expansion { arrives: false, hops: bwd(id).hops },
        || false,
    )
    .unwrap();
    assert_eq!(p[0], 0);
    assert_eq!(*p.last().unwrap(), 99);
    assert_eq!(p[p.len() - 2], 12);
}

#[test]
fn open_set_hands_out_by_rank() {
    let mut open: OpenSet<i64> = OpenSet::new();
    assert!(open.is_empty());
    assert!(open.pop().is_none());
    for f in [5u64, 3, 9, 1, 7, 3] {
        open.push(Entry { f, g: 0, id: f as i64 });
    }
    assert_eq!(open.peek().unwrap().f, 1);
    let mut seen = Vec::new();
    while let Some(e) = open.pop() {
        seen.push(e.f);
    }
    assert_eq!(seen, vec![1, 3, 3, 5, 7, 9]);
}

#[test]
fn trail_follows_links() {
    let mut links = HashMap::new();
    links.insert(4, 3);
    links.insert(3, 1);
    assert_eq!(trail(&links, 4, 1), Some(vec![4, 3, 1]));
    assert_eq!(trail(&links, 4, 9), None);
    links.insert(1, 4);
    assert_eq!(trail(&links, 4, 9), None);
    assert_eq!(trail(&links, 8, 8), Some(vec![8]));
}

#[test]
fn flat_trail_is_turned_round() {
    let from = vec![SENTINEL, 0, 1, SENTINEL];
    let ids = vec![100, 101, 102, 103];
    assert_eq!(reconstruct_path_flat(&from, 0, 2, &ids), Some(vec![100, 101, 102]));
    assert_eq!(reconstruct_path_flat(&from, 0, 3, &ids), None);
}

#[test]
fn links_behind_the_source_are_not_followed() {
    // What the slot of the source names lies outside the arrays.
    let from = vec![77, 0, 1, 2];
    let ids = vec![100, 101, 102];
    assert_eq!(reconstruct_path_flat(&from, 0, 2, &ids), Some(vec![100, 101, 102]));
    assert_eq!(reconstruct_path_flat(&from, 1, 2, &ids), Some(vec![101, 102]));
}

#[test]
fn order_is_stable() {
    assert_eq!(order(&vec![3, 1, 2, 1, 3]), vec![1, 3, 2, 0, 4]);
    assert_eq!(order(&vec![]), Vec::<usize>::new());
}

#[test]
fn keys_by_number_or_by_name() {
    assert!(matches!(route_key("10477373803"), SystemKey::Id(10477373803)));
    assert!(matches!(route_key("-5"), SystemKey::Id(-5)));
    match route_key("Sol") {
        SystemKey::Name(n) => assert_eq!(n, "Sol"),
        SystemKey::Id(_) => panic!("a name"),
    }
    match route_key("9223372036854775808") {
        SystemKey::Name(n) => assert_eq!(n, "9223372036854775808"),
        SystemKey::Id(_) => panic!("too large for an id"),
    }
}

#[test]
fn unknown_systems_are_named() {
    assert_eq!(ship_unknown("+5"), "System ID '5' not found in database");
    assert_eq!(ship_unknown("Nowhere"), "System 'Nowhere' not found in database");
    assert_eq!(carrier_unknown("+5"), "System ID '5' not found");
    assert_eq!(carrier_unknown("Nowhere"), "System 'Nowhere' not found");
    assert_eq!(neutron_unknown("+5"), "System ID '+5' not found");
    assert_eq!(neutron_unknown("Nowhere"), "System 'Nowhere' not found");
}

#[test]
fn engines_are_read_in_any_case() {
    assert!(!uses_astar(&Some("GREEDY".to_string()), "astar"));
    assert!(uses_astar(&Some("AStar".to_string()), "greedy"));
    assert!(!uses_astar(&None, "greedy"));
    assert!(uses_astar(&None, "astar"));
}

#[test]
fn pick_takes_the_first_of_the_nearest() {
    let c = |id: i64, away: f64, left: f64| Candidate {
        node: node(id, 0.0),
        away: away.to_bits(),
        left: left.to_bits(),
    };
    let cs = vec![c(1, 9.0, 1.0), c(2, 0.0, 0.5), c(3, 4.0, 3.0), c(4, 5.0, 2.0), c(5, 1.0, 2.0)];
    assert_eq!(pick(&cs, 5.0f64.to_bits(), 10.0f64.to_bits()), Some(3));
    assert_eq!(pick(&cs, 5.0f64.to_bits(), 2.0f64.to_bits()), None);
    assert_eq!(pick(&cs, 9.0f64.to_bits(), 10.0f64.to_bits()), Some(0));
    assert_eq!(pick(&vec![], 9, 9), None);
}

#[test]
fn hops_are_those_in_reach() {
    let ids = vec![10, 11, 12, 13];
    let away = [0.0f64, 4.0, 9.0, 9.5];
    let hops = hops_near(
        &vec![0, 1, 2, 3],
        &ids,
        9.0f64.to_bits(),
        |k: u32| away[k as usize].to_bits(),
        |k: u32| k + 1,
    );
    let got: Vec<(i64, u32)> = hops.iter().map(|h| (h.id, h.h)).collect();
    assert_eq!(got, vec![(11, 2), (12, 3)]);
}

fn sky(places: Vec<f64>, dst: f64) -> impl Fn(RouteNode, u32) -> Result<Vec<Step>, String> {
    move |n: RouteNode, g: u32| {
        let x = f64::from_bits(n.x);
        Ok(places
            .iter()
            .enumerate()
            .filter(|(_, &p)| (p - x).abs() <= 14.99)
            .map(|(i, &p)| Step {
                node: node(i as i64, p),
                away: (p - x).abs().to_bits(),
                rank: ((g + 1) as f64 + (dst - p).abs() / 14.99).to_bits(),
            })
            .collect())
    }
}

#[test]
fn ship_takes_the_shortest_way() {
    let places = vec![0.0, 5.0, 10.0, 14.0, 20.0, 28.0, 40.0];
    let r = search_ship(node(0, 0.0), 1.0f64.to_bits(), 6, sky(places, 40.0), || false);
    match r {
        ShipOutcome::Found(p) => assert_eq!(p, vec![0, 3, 5, 6]),
        _ => panic!("there is a route"),
    }
}

#[test]
fn ship_stays_where_it_is() {
    let r = search_ship(node(0, 0.0), 0, 0, sky(vec![0.0, 1.0], 0.0), || false);
    match r {
        ShipOutcome::Found(p) => assert_eq!(p, vec![0]),
        _ => panic!("the route is empty"),
    }
}

#[test]
fn ship_cannot_cross_a_gap() {
    let r = search_ship(node(0, 0.0), 0, 2, sky(vec![0.0, 10.0, 26.0], 26.0), || false);
    assert!(matches!(r, ShipOutcome::NoRoute));
    assert_eq!(
        ship_failure(&r),
        "No valid route found connecting these systems within the maximum jump limit of 14.99 ly."
    );
    let e = ship_error(&ship_failure(&r));
    assert_eq!(e.status, 400);
}

#[test]
fn ship_runs_out_of_time() {
    let r = search_ship(node(0, 0.0), 0, 2, sky(vec![0.0, 10.0, 20.0], 20.0), || true);
    assert!(matches!(r, ShipOutcome::OverBudget));
    assert_eq!(
        ship_failure(&r),
        "Route calculation exceeded time/iteration budget. Try breaking up your journey into smaller segments."
    );
}

#[test]
fn ship_passes_a_failure_on() {
    let look = |_: RouteNode, _: u32| -> Result<Vec<Step>, String> { Err("disk".to_string()) };
    let r = search_ship(node(0, 0.0), 0, 2, look, || false);
    assert_eq!(ship_failure(&r), "disk");
}

#[test]
fn ship_jump_is_fourteen_ninety_nine() {
    assert_eq!(SHIP_JUMP, 14.99f64.to_bits());
    let beyond = f64::from_bits(SHIP_JUMP + 1);
    let look = move |_: RouteNode, _: u32| -> Result<Vec<Step>, String> {
        Ok(vec![Step { node: node(1, 0.0), away: beyond.to_bits(), rank: 0 }])
    };
    assert!(matches!(
        search_ship(node(0, 0.0), 0, 1, look, || false),
        ShipOutcome::NoRoute
    ));
    let just = move |_: RouteNode, _: u32| -> Result<Vec<Step>, String> {
        Ok(vec![Step { node: node(1, 0.0), away: SHIP_JUMP, rank: 0 }])
    };
    assert!(matches!(
        search_ship(node(0, 0.0), 0, 1, just, || false),
        ShipOutcome::Found(_)
    ));
}

#[test]
fn ship_error_tells_what_is_missing() {
    let e = ship_error("System 'X' not found in database");
    assert_eq!(e.status, 404);
    assert_eq!(e.message, "System 'X' not found in database");
}

/// Systems every 400 light years up to 2000.
fn carrier_box(n: RouteNode, k: u32) -> Vec<RouteNode> {
    let aim = f64::from_bits(n.x) + 498.5;
    let radius = 20.0 + 30.0 * k as f64;
    (0..6)
        .map(|i| node(i, 400.0 * i as f64))
        .filter(|m| (f64::from_bits(m.x) - aim).abs() <= radius)
        .collect()
}

#[test]
fn carrier_goes_greedily() {
    let p = greedy_carrier(node(0, 0.0), node(5, 2000.0), carrier_box, apart).unwrap();
    let ids: Vec<i64> = p.iter().map(|n| n.id64).collect();
    assert_eq!(ids, vec![0, 1, 2, 3, 4, 5]);
    for k in 1..p.len() {
        assert!(apart(p[k], p[k - 1]) <= CARRIER_JUMP_RANGE);
        assert!(apart(p[k], node(5, 2000.0)) < apart(p[k - 1], node(5, 2000.0)));
    }
}

#[test]
fn carrier_gets_stuck() {
    let empty = |_: RouteNode, _: u32| Vec::new();
    let p = greedy_carrier(node(0, 0.0), node(5, 2000.0), empty, apart).unwrap_err();
    assert_eq!(p.len(), 1);
    assert_eq!(
        ananke::carrier::carrier_stuck("sol", p.len(), "Sol"),
        "Route failed: Could not find a star within range after system 'sol'."
    );
    assert_eq!(
        ananke::carrier::carrier_stuck("sol", 2, "Wolf 359"),
        "Route failed: Could not find a star within range after system 'Wolf 359'."
    );
}

#[test]
fn carrier_near_the_destination_jumps_once() {
    let empty = |_: RouteNode, _: u32| Vec::new();
    let p = greedy_carrier(node(0, 0.0), node(5, 500.0), empty, apart).unwrap();
    assert_eq!(p.len(), 2);
}

#[test]
fn carrier_stops_after_five_hundred_hops() {
    // Each hop gains a light year only.
    let creep = |n: RouteNode, _: u32| vec![node(n.id64 + 1, f64::from_bits(n.x) + 1.0)];
    let p = greedy_carrier(node(0, 0.0), node(-1, 5000.0), creep, apart).unwrap_err();
    assert_eq!(p.len(), 501);
    assert_eq!(p[500].id64, 500);
    assert_eq!(
        ananke::carrier::carrier_too_far("Sol"),
        "Route failed: The destination is out of range after 500 jumps, at system 'Sol'."
    );
    // With the destination in reach of the last hop it is a route.
    let p = greedy_carrier(node(0, 0.0), node(-1, 1000.0), creep, apart).unwrap();
    assert_eq!(p.len(), 502);
    assert_eq!(p[501].id64, -1);
}

#[test]
fn carrier_route_is_refined() {
    let greedy: Vec<i64> = vec![0, 2, 4, 6, 8, 10, 11];
    let near = 100.0f64.to_bits();
    let far = 6000.0f64.to_bits();
    for distance in [near, far] {
        let r = settle_carrier(
            greedy.clone(),
            true,
            None,
            4,
            4,
            distance,
            line(12, 3, 11),
            line(12, 3, 0),
            || false,
        );
        assert!(r.optimised);
        assert!(r.path.len() < greedy.len());
        assert_eq!(r.path[0], 0);
        assert_eq!(*r.path.last().unwrap(), 11);
    }
}

#[test]
fn carrier_route_stays_greedy_when_asked() {
    let greedy: Vec<i64> = vec![0, 2, 4, 6, 8, 10, 11];
    let r = settle_carrier(
        greedy.clone(),
        false,
        Some(vec![0, 11]),
        4,
        4,
        0,
        line(12, 3, 11),
        line(12, 3, 0),
        || false,
    );
    assert_eq!(r.path, greedy);
    assert!(!r.optimised);
}

#[test]
fn carrier_route_at_hand_wins() {
    let greedy: Vec<i64> = vec![0, 2, 4, 6, 8, 10, 11];
    let r = settle_carrier(
        greedy,
        true,
        Some(vec![0, 5, 11]),
        4,
        4,
        0,
        line(12, 3, 11),
        line(12, 3, 0),
        || false,
    );
    assert_eq!(r.path, vec![0, 5, 11]);
    assert!(r.optimised);
}

#[test]
fn carrier_refinement_needs_fewer_jumps() {
    let r = refine_carrier(
        0,
        4,
        11,
        4,
        4,
        0,
        line(12, 3, 11),
        line(12, 3, 0),
        || false,
    );
    assert!(r.is_none());
}
