use rnet::balancer::{least_loaded, Balancer, LeastConnections, LoadBalancer, RoundRobin};
use rnet::options::LoadBalancing;

#[test]
fn round_robin_cycles_through_workers() {
    let rr = RoundRobin::new();
    let counts = [0usize; 3];
    let picks: Vec<usize> = (0..7).map(|_| rr.select(&counts)).collect();
    assert_eq!(picks, vec![0, 1, 2, 0, 1, 2, 0]);
    assert_eq!(rr.select(&[]), 0);
}

#[test]
fn round_robin_pick_is_ticket_modulo_workers() {
    assert_eq!(RoundRobin::pick(7, 3), 1);
    assert_eq!(RoundRobin::pick(7, 0), 0);
    assert_eq!(RoundRobin::pick(usize::MAX, 2), 1);
}

#[test]
fn least_connections_picks_first_minimum() {
    let lc = LeastConnections::new();
    assert_eq!(lc.select(&[5, 2, 7, 2]), 1);
    assert_eq!(lc.select(&[]), 0);
    assert_eq!(least_loaded(&[3]), 0);
    assert_eq!(least_loaded(&[4, 4, 4]), 0);
    assert_eq!(least_loaded(&[9, 8, 7]), 2);
}

#[test]
fn balancer_follows_its_policy() {
    let b = Balancer::new(LoadBalancing::LeastConnections);
    assert_eq!(b.select(&[3, 1, 2]), 1);
    let r = Balancer::new(LoadBalancing::RoundRobin);
    assert_eq!(r.select(&[3, 1, 2]), 0);
    assert_eq!(r.select(&[3, 1, 2]), 1);
}
