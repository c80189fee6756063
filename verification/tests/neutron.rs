//! Routes along neutron stars.

use ananke::astar::{Expansion, Hop};
use ananke::config::NEUTRON_SEG_LY;
use ananke::legs::{neutron_legs, neutron_route_json};
use ananke::models::{NeutronRouteQuery, RouteNode};
use ananke::json::{Json, Num};
use ananke::neutron::{
    boost_factor, first_star, last_star, settle_neutron, waypoints, Atlas, NEUTRON_FAR,
};
use ananke::plot::{partial_route, plot_route, Plot, Reach};

fn node(id64: i64, x: f64) -> RouteNode {
    RouteNode { id64, x: x.to_bits(), y: 0, z: 0 }
}

fn x_of(n: RouteNode) -> f64 {
    f64::from_bits(n.x)
}

fn squared(a: RouteNode, b: RouteNode) -> u64 {
    ((x_of(a) - x_of(b)) * (x_of(a) - x_of(b))).to_bits()
}

fn apart(a: RouteNode, b: RouteNode) -> u64 {
    (x_of(a) - x_of(b)).abs().to_bits()
}

fn query(kind: &str) -> NeutronRouteQuery {
    NeutronRouteQuery {
        source: "Sol".to_string(),
        destination: "Colonia".to_string(),
        range: Num::Real(50.0f64.to_bits()),
        supercharge_type: kind.to_string(),
        engine: None,
    }
}

#[test]
fn jets_boost_by_the_drive() {
    assert_eq!(boost_factor(&query("Caspian")), 6);
    assert_eq!(boost_factor(&query("caspian")), 6);
    assert_eq!(boost_factor(&query("normal")), 4);
    assert_eq!(boost_factor(&query("")), 4);
}

#[test]
fn waypoints_are_stars_and_the_destination() {
    // The second and the third segment end near the same star; nothing lies
    // near the end of the fourth.
    let nearest = |i: usize, radius: u32| -> Option<RouteNode> {
        match i {
            1 if radius >= 800 => Some(node(11, 2000.0)),
            2 | 3 => Some(node(12, 4000.0)),
            5 if radius == 3000 => Some(node(11, 10000.0)),
            _ => None,
        }
    };
    let w = waypoints(6, node(99, 12000.0), nearest);
    let ids: Vec<i64> = w.iter().map(|n| n.id64).collect();
    assert_eq!(ids, vec![11, 12, 11, 99]);
}

#[test]
fn destination_is_always_the_last_waypoint() {
    let nearest = |i: usize, _: u32| -> Option<RouteNode> {
        if i == 1 {
            Some(node(11, 2000.0))
        } else {
            Some(node(99, 4100.0))
        }
    };
    let w = waypoints(3, node(99, 4100.0), nearest);
    let ids: Vec<i64> = w.iter().map(|n| n.id64).collect();
    assert_eq!(ids, vec![11, 99, 99]);
}

#[test]
fn short_routes_have_one_waypoint() {
    let nearest = |_: usize, _: u32| -> Option<RouteNode> { Some(node(1, 0.0)) };
    for segments in [0usize, 1] {
        let w = waypoints(segments, node(99, 0.0), nearest);
        assert_eq!(w.len(), 1);
        assert_eq!(w[0].id64, 99);
    }
}

#[test]
fn atlas_remembers() {
    let mut a = Atlas::new();
    assert!(a.find(1).is_none());
    a.place(node(1, 5.0));
    a.add_stars(&vec![node(2, 6.0), node(3, 7.0)]);
    a.mark(3, false);
    a.fill_up(&vec![node(3, 70.0), node(4, 8.0)]);
    assert!(!a.has_star(1));
    assert!(a.has_star(2));
    assert!(!a.has_star(3));
    assert!(a.has_star(4));
    assert_eq!(x_of(a.find(3).unwrap()), 7.0);
    let stars: Vec<i64> = a.stars_and(&vec![]).iter().map(|n| n.id64).collect();
    assert_eq!(stars, vec![2, 4]);
    let more: Vec<i64> = a.stars_and(&vec![1, 77]).iter().map(|n| n.id64).collect();
    assert_eq!(more, vec![1, 2, 4]);
}

fn reach() -> Reach {
    Reach {
        plain: 2500.0f64.to_bits(),
        plain_wide: (52.5f64 * 52.5).to_bits(),
        boosted: 40000.0f64.to_bits(),
        boosted_wide: (210.0f64 * 210.0).to_bits(),
    }
}

fn cell(n: RouteNode) -> (i32, i32, i32) {
    ((x_of(n) / 180.0) as i32, 0, 0)
}

/// Stars at 40, 200, 380 and 560 light years.
fn stars(_: RouteNode, _: RouteNode) -> Result<Vec<RouteNode>, String> {
    Ok(vec![node(10, 40.0), node(11, 200.0), node(12, 380.0), node(13, 560.0)])
}

fn plain(n: RouteNode, _: bool, _: bool) -> Result<Vec<RouteNode>, String> {
    let x = x_of(n);
    Ok((0..40).map(|i| node(1000 + i, 20.0 * i as f64)).filter(|m| (x_of(*m) - x).abs() <= 210.0).collect())
}

fn ids(p: &Plot) -> Vec<i64> {
    p.path.iter().map(|n| n.id64).collect()
}

#[test]
fn plot_rides_the_jets() {
    let dst = node(99, 700.0);
    let p = plot_route(node(1, 0.0), dst, &vec![dst], &reach(), stars, plain, squared, cell).unwrap();
    assert_eq!(ids(&p), vec![1, 10, 11, 12, 13, 99]);
    assert!(p.atlas.has_star(12));
    assert!(!p.atlas.has_star(99));
}

#[test]
fn plot_falls_back_on_ordinary_systems() {
    let none = |_: RouteNode, _: RouteNode| -> Result<Vec<RouteNode>, String> { Ok(Vec::new()) };
    let dst = node(99, 150.0);
    let p = plot_route(node(1, 0.0), dst, &vec![dst], &reach(), none, plain, squared, cell).unwrap();
    assert_eq!(ids(&p), vec![1, 1002, 1004, 1006, 99]);
    for k in 1..p.path.len() {
        assert!(squared(p.path[k], p.path[k - 1]) <= reach().plain_wide);
    }
}

#[test]
fn plot_stretches_a_little() {
    // The only system on the way is 51 light years away.
    let none = |_: RouteNode, _: RouteNode| -> Result<Vec<RouteNode>, String> { Ok(Vec::new()) };
    let one = |_: RouteNode, _: bool, _: bool| -> Result<Vec<RouteNode>, String> {
        Ok(vec![node(5, 51.0)])
    };
    let dst = node(99, 100.0);
    let p = plot_route(node(1, 0.0), dst, &vec![dst], &reach(), none, one, squared, cell).unwrap();
    assert_eq!(ids(&p), vec![1, 5, 99]);
}

#[test]
fn plots_pass_the_destination_at_their_end() {
    let dst = node(99, 700.0);
    let goals = vec![node(12, 380.0), dst];
    let mut p = plot_route(node(1, 0.0), dst, &goals, &reach(), stars, plain, squared, cell).unwrap();
    assert!(p.close(dst, 0, 0, 0));
    assert_eq!(ids(&p), vec![1, 10, 11, 12, 13, 99]);
}

#[test]
fn plot_gets_stuck_and_is_closed_or_not() {
    let none = |_: RouteNode, _: RouteNode| -> Result<Vec<RouteNode>, String> { Ok(Vec::new()) };
    let nothing = |_: RouteNode, _: bool, _: bool| -> Result<Vec<RouteNode>, String> {
        Ok(Vec::new())
    };
    let dst = node(99, 70.0);
    let mut p =
        plot_route(node(1, 0.0), dst, &vec![dst], &reach(), none, nothing, squared, cell).unwrap();
    assert_eq!(ids(&p), vec![1]);
    let gap = 70.0f64.to_bits();
    assert!(!p.close(dst, gap, 60.0f64.to_bits(), 300.0f64.to_bits()));
    assert_eq!(ids(&p), vec![1]);
    assert!(p.close(dst, gap, 75.0f64.to_bits(), 300.0f64.to_bits()));
    assert_eq!(ids(&p), vec![1, 99]);
    assert!(p.close(dst, 0, 0, 0));
    assert_eq!(ids(&p), vec![1, 99]);
}

#[test]
fn closing_from_a_star_reaches_further() {
    let none = |_: RouteNode, _: RouteNode| -> Result<Vec<RouteNode>, String> { Ok(Vec::new()) };
    let nothing = |_: RouteNode, _: bool, _: bool| -> Result<Vec<RouteNode>, String> {
        Ok(Vec::new())
    };
    let dst = node(99, 900.0);
    let mut p =
        plot_route(node(1, 0.0), dst, &vec![dst], &reach(), none, nothing, squared, cell).unwrap();
    p.atlas.mark(1, true);
    assert!(p.close(dst, 250.0f64.to_bits(), 75.0f64.to_bits(), 300.0f64.to_bits()));
}

#[test]
fn plot_passes_failures_on() {
    let dst = node(99, 900.0);
    let broken = |_: RouteNode, _: RouteNode| -> Result<Vec<RouteNode>, String> {
        Err("no table".to_string())
    };
    let r = plot_route(node(1, 0.0), dst, &vec![dst], &reach(), broken, plain, squared, cell);
    assert_eq!(r.err(), Some("no table".to_string()));
    let none = |_: RouteNode, _: RouteNode| -> Result<Vec<RouteNode>, String> { Ok(Vec::new()) };
    let blind = |_: RouteNode, _: bool, wide: bool| -> Result<Vec<RouteNode>, String> {
        if wide {
            Err("locked".to_string())
        } else {
            Ok(Vec::new())
        }
    };
    let r = plot_route(node(1, 0.0), dst, &vec![dst], &reach(), none, blind, squared, cell);
    assert_eq!(r.err(), Some("locked".to_string()));
}

#[test]
fn partial_routes_are_told() {
    assert_eq!(
        partial_route("123", "50.00", "200.00"),
        "Partial route only: reached 123 LY from destination but could not bridge the final gap. Base 50.00 LY / boosted 200.00 LY. Try a ship with longer jump range."
    );
}

#[test]
fn stars_mark_the_ends_of_the_search() {
    let mut a = Atlas::new();
    let path = vec![1, 2, 3, 4, 5];
    assert_eq!(first_star(&a, &path), 0);
    assert_eq!(last_star(&a, &path), 4);
    a.mark(2, true);
    a.mark(4, true);
    assert_eq!(first_star(&a, &path), 1);
    assert_eq!(last_star(&a, &path), 3);
}

fn line(n: i64, reach: i64, dst: i64) -> impl Fn(i64) -> Expansion {
    move |id: i64| {
        let hops = (id - reach..=id + reach)
            .filter(|&to| to != id && to >= 0 && to < n)
            .map(|to| Hop { id: to, h: (((dst - to).abs() + reach - 1) / reach) as u32 })
            .collect();
        Expansion { arrives: (dst - id).abs() <= reach, hops }
    }
}

#[test]
fn short_routes_are_refined_behind_the_first_star() {
    let greedy: Vec<i64> = vec![0, 1, 3, 5, 7, 9, 11];
    let r = settle_neutron(
        greedy.clone(),
        1,
        6,
        true,
        None,
        100.0f64.to_bits(),
        4,
        0,
        line(12, 3, 11),
        line(12, 3, 0),
        || false,
    );
    assert!(r.optimised);
    assert_eq!(&r.path[..2], &[0, 1]);
    assert_eq!(*r.path.last().unwrap(), 11);
    assert_eq!(r.path.len() - 1, 5);
}

#[test]
fn long_routes_are_refined_from_both_ends() {
    let greedy: Vec<i64> = vec![0, 1, 3, 5, 7, 9, 11];
    let r = settle_neutron(
        greedy.clone(),
        0,
        6,
        true,
        None,
        20000.0f64.to_bits(),
        4,
        4,
        line(12, 3, 11),
        line(12, 3, 0),
        || false,
    );
    assert!(r.optimised);
    assert_eq!(r.path[0], 0);
    assert_eq!(*r.path.last().unwrap(), 11);
}

#[test]
fn routes_at_hand_are_put_in() {
    let greedy: Vec<i64> = vec![0, 1, 3, 5, 7, 9, 11];
    let settle = |distance: f64, p: Vec<i64>| {
        settle_neutron(
            vec![0, 1, 3, 5, 7, 9, 11],
            1,
            5,
            true,
            Some(p),
            distance.to_bits(),
            0,
            0,
            line(12, 3, 11),
            line(12, 3, 0),
            || false,
        )
    };
    let near = settle(100.0, vec![1, 4, 7, 10, 11]);
    assert_eq!(near.path, vec![0, 1, 4, 7, 10, 11]);
    assert!(near.optimised);
    let far = settle(10001.0, vec![1, 4, 7, 9]);
    assert_eq!(far.path, vec![0, 1, 4, 7, 9, 11]);
    assert!(far.optimised);
    assert_eq!(NEUTRON_FAR, 10000.0f64.to_bits());
    let plain = settle_neutron(
        greedy.clone(),
        1,
        5,
        false,
        Some(vec![1, 11]),
        0,
        0,
        0,
        line(12, 3, 11),
        line(12, 3, 0),
        || false,
    );
    assert_eq!(plain.path, greedy);
    assert!(!plain.optimised);
}

#[test]
fn legs_add_up() {
    let mut a = Atlas::new();
    let (src, dst) = (node(1, 0.0), node(9, 100.0));
    a.place(src);
    a.place(dst);
    a.add_stars(&vec![node(2, 30.0)]);
    let legs = neutron_legs(
        &vec![1, 2, 77, 9],
        &a,
        src,
        dst,
        apart,
        |x: u64, y: u64| (f64::from_bits(x) + f64::from_bits(y)).to_bits(),
    );
    let f = f64::from_bits;
    assert_eq!(legs.len(), 3);
    assert_eq!(f(legs[0].jump), 30.0);
    assert!(!legs[0].used_boost);
    assert_eq!(f(legs[1].from_start), 30.0);
    assert_eq!(f(legs[1].to_destination), 70.0);
    // What follows on the star is not known.
    assert_eq!(f(legs[1].jump), 0.0);
    assert!(legs[1].used_boost);
    assert_eq!(f(legs[2].from_start), 30.0);
    assert_eq!(f(legs[2].jump), 0.0);
    assert!(!legs[2].used_boost);

    let names = vec!["Sol".to_string(), "Jackson".to_string(), "Colonia".to_string()];
    let j = neutron_route_json(&query("x"), 100.0f64.to_bits(), true, &legs, &names);
    assert!(matches!(j.get("totalJumps"), Some(Json::Num(Num::Int(2)))));
    assert!(matches!(j.get("optimised"), Some(Json::Bool(true))));
    match j.get("route") {
        Some(Json::Arr(v)) => {
            assert_eq!(v[1].get("system").unwrap().as_str(), Some("Jackson"));
            assert_eq!(v[1].get("id64").unwrap().as_str(), Some("2"));
            assert!(matches!(v[1].get("is_neutron"), Some(Json::Bool(true))));
        }
        _ => panic!("a route"),
    }
}

#[test]
fn long_routes_end_at_the_destination_once() {
    // The last star of the greedy route is not its end.
    let greedy: Vec<i64> = vec![0, 2, 4, 6, 8, 10, 11];
    let r = settle_neutron(
        greedy.clone(),
        0,
        5,
        true,
        None,
        20000.0f64.to_bits(),
        4,
        4,
        line(12, 3, 11),
        line(12, 3, 0),
        || false,
    );
    assert!(r.optimised && r.path.len() < greedy.len());
    assert_eq!((r.path[0], *r.path.last().unwrap()), (0, 11));
    assert_eq!(r.path.iter().filter(|&&id| id == 11).count(), 1);
    for k in 1..r.path.len() {
        assert!((r.path[k] - r.path[k - 1]).abs() <= 3);
        assert!(!r.path[..k].contains(&r.path[k]));
    }
}

#[test]
fn greedy_routes_are_the_worst_case() {
    // A route at hand with as many jumps is of no use.
    let greedy: Vec<i64> = vec![0, 2, 4];
    let r = settle_neutron(
        greedy.clone(),
        0,
        2,
        true,
        Some(vec![0, 1, 4]),
        100.0f64.to_bits(),
        1,
        1,
        line(5, 2, 4),
        line(5, 2, 0),
        || false,
    );
    assert!(!r.optimised);
    assert_eq!(r.path, greedy);
}

#[test]
fn systems_stay_in_the_order_in_which_they_became_known() {
    let mut a = Atlas::new();
    a.place(node(5, 1.0));
    a.add_stars(&vec![node(3, 2.0), node(5, 3.0)]);
    a.fill_up(&vec![node(9, 4.0), node(3, 5.0)]);
    let ids: Vec<i64> = a.stars_and(&vec![]).iter().map(|n| n.id64).collect();
    assert_eq!(ids, vec![5, 3, 9]);
}

#[test]
fn limits_are_the_bits_of_doubles() {
    assert_eq!(NEUTRON_SEG_LY, 2000.0f64.to_bits());
    assert_eq!(NEUTRON_FAR, 10000.0f64.to_bits());
}
