use sklookup_proxy::balance;
use sklookup_proxy::{
    App, AppTarget, Attempt, Config, IpAddress, Proxy, ProxyLayer, RouteError, Router,
    SocketAddress, Dial, Target, TargetDiscover,
};

fn v4(a: u8, b: u8, c: u8, d: u8) -> IpAddress {
    IpAddress::V4(u32::from_be_bytes([a, b, c, d]))
}

fn target(ip: IpAddress, weight: u8) -> AppTarget {
    AppTarget { ip_addr: ip, weight }
}

fn config(apps: Vec<App>) -> Config {
    Config {
        debug: false,
        ip_addr: IpAddress::V4(0),
        port: 8080,
        apps,
        control_socket_path: None,
    }
}

fn app(uuid: &str, ip: IpAddress, targets: Vec<AppTarget>) -> App {
    App { uuid: uuid.to_string(), ip_addr: ip, targets }
}

fn dial(attempt: &Attempt, ticket: u64) -> (usize, SocketAddress) {
    match attempt.next_dial(ticket) {
        Ok(Dial { index, addr }) => (index, addr),
        Err(e) => panic!("no upstream left: {:?}", e),
    }
}

#[test]
fn single_app_single_target() {
    let cfg = config(vec![app("a", v4(10, 0, 0, 1), vec![target(v4(127, 0, 0, 1), 1)])]);
    let router = Router::new(cfg).unwrap();
    let attempt = router.route(SocketAddress::new(v4(10, 0, 0, 1), 8080)).unwrap();
    for ticket in 0..5u64 {
        let (index, addr) = dial(&attempt, ticket);
        assert_eq!(index, 0);
        assert_eq!(addr, SocketAddress::new(v4(127, 0, 0, 1), 8080));
    }
}

#[test]
fn weighted_balance_three_to_one() {
    let cfg = config(vec![app(
        "a",
        v4(10, 0, 0, 1),
        vec![target(v4(10, 0, 0, 2), 3), target(v4(10, 0, 0, 3), 1)],
    )]);
    let router = Router::new(cfg).unwrap();
    let attempt = router.route(SocketAddress::new(v4(10, 0, 0, 1), 80)).unwrap();
    let mut hits = [0u32; 2];
    for ticket in 0..10_000u64 {
        let (index, addr) = dial(&attempt, ticket);
        hits[index] += 1;
        assert_eq!(addr.port, 80);
    }
    assert_eq!(hits, [7_500, 2_500]);
}

#[test]
fn weighted_window_from_any_start() {
    let weights = vec![2u8, 0, 5, 1];
    let live = vec![true; 4];
    for start in [0u64, 3, 17, 1_000_001] {
        let mut hits = [0u8; 4];
        for t in start..start + 8 {
            hits[balance::select(&weights, &live, t).unwrap()] += 1;
        }
        assert_eq!(hits, [2, 0, 5, 1]);
    }
}

#[test]
fn target_failover_to_reachable_upstream() {
    let down = v4(10, 0, 0, 2);
    let up = v4(10, 0, 0, 3);
    let cfg = config(vec![app("a", v4(10, 0, 0, 1), vec![target(down, 1), target(up, 1)])]);
    let router = Router::new(cfg).unwrap();
    for ticket in 0..20u64 {
        let mut attempt = router.route(SocketAddress::new(v4(10, 0, 0, 1), 443)).unwrap();
        let established = loop {
            match attempt.next_dial(ticket) {
                Ok(Dial { index, addr }) => {
                    if addr.ip == down {
                        attempt.mark_failed(index);
                    } else {
                        break addr;
                    }
                }
                Err(_) => panic!("client saw a refusal"),
            }
        };
        assert_eq!(established, SocketAddress::new(up, 443));
    }
}

#[test]
fn all_upstreams_down_is_exhausted() {
    let cfg = config(vec![app(
        "a",
        v4(10, 0, 0, 1),
        vec![target(v4(10, 0, 0, 2), 4), target(v4(10, 0, 0, 3), 0)],
    )]);
    let router = Router::new(cfg).unwrap();
    let mut attempt = router.route(SocketAddress::new(v4(10, 0, 0, 1), 22)).unwrap();
    let (first, _) = dial(&attempt, 0);
    assert_eq!(first, 0);
    attempt.mark_failed(first);
    let (second, addr) = dial(&attempt, 0);
    assert_eq!(second, 1);
    assert_eq!(addr, SocketAddress::new(v4(10, 0, 0, 3), 22));
    attempt.mark_failed(second);
    assert_eq!(attempt.next_dial(0), Err(RouteError::ConnectionExhausted));
}

#[test]
fn zero_weight_never_chosen_while_positive_ready() {
    let weights = vec![0u8, 1, 0];
    let live = vec![true, true, true];
    for t in 0..50u64 {
        assert_eq!(balance::select(&weights, &live, t), Some(1));
    }
    let all_zero = vec![0u8, 0, 0];
    let picks: Vec<usize> = (0..6u64)
        .map(|t| balance::select(&all_zero, &live, t).unwrap())
        .collect();
    assert_eq!(picks, vec![0, 1, 2, 0, 1, 2]);
    assert_eq!(balance::select(&weights, &vec![false; 3], 9), None);
}

#[test]
fn unknown_destination_is_no_such_app() {
    let cfg = config(vec![app("a", v4(10, 0, 0, 1), vec![target(v4(127, 0, 0, 1), 1)])]);
    let router = Router::new(cfg).unwrap();
    let r = router.route(SocketAddress::new(v4(10, 0, 0, 9), 8080));
    assert!(matches!(r, Err(RouteError::NoSuchApp)));
    assert!(router.route(SocketAddress::new(v4(10, 0, 0, 1), 8080)).is_ok());
}

#[test]
fn app_without_targets_is_rejected() {
    let cfg = config(vec![
        app("a", v4(10, 0, 0, 1), vec![target(v4(127, 0, 0, 1), 1)]),
        app("b", v4(10, 0, 0, 2), vec![]),
    ]);
    assert!(matches!(Router::new(cfg), Err(RouteError::NoTargets)));
}

#[test]
fn duplicate_virtual_address_is_rejected() {
    let cfg = config(vec![
        app("a", v4(10, 0, 0, 1), vec![target(v4(127, 0, 0, 1), 1)]),
        app("b", v4(10, 0, 0, 1), vec![target(v4(127, 0, 0, 2), 1)]),
    ]);
    assert!(matches!(Router::new(cfg), Err(RouteError::DuplicateApp)));
}

#[test]
fn routes_by_dialed_address_and_keeps_port() {
    let cfg = config(vec![
        app("a", v4(10, 0, 0, 1), vec![target(v4(192, 168, 0, 1), 1)]),
        app("b", v4(10, 0, 0, 2), vec![target(v4(192, 168, 0, 2), 1)]),
    ]);
    let router = Router::new(cfg).unwrap();
    let attempt = router.route(SocketAddress::new(v4(10, 0, 0, 2), 5432)).unwrap();
    assert_eq!(dial(&attempt, 7).1, SocketAddress::new(v4(192, 168, 0, 2), 5432));
}

#[test]
fn proxy_layer_routes_through_its_service() {
    let cfg = config(vec![app("a", v4(10, 0, 0, 1), vec![target(v4(127, 0, 0, 1), 1)])]);
    let proxy: Proxy<Router> = ProxyLayer.layer(Router::new(cfg).unwrap());
    let attempt = proxy.open(SocketAddress::new(v4(10, 0, 0, 1), 9000)).unwrap();
    assert_eq!(dial(&attempt, 0).1, SocketAddress::new(v4(127, 0, 0, 1), 9000));
    assert!(matches!(
        proxy.open(SocketAddress::new(v4(10, 0, 0, 5), 9000)),
        Err(RouteError::NoSuchApp)
    ));
}

#[test]
fn target_discover_hands_out_last_first() {
    let mut d = TargetDiscover {
        targets: vec![target(v4(1, 1, 1, 1), 2), target(v4(2, 2, 2, 2), 7)],
    };
    let (ip, t) = d.poll_next().unwrap();
    assert_eq!(ip, v4(2, 2, 2, 2));
    assert_eq!(t, Target { ip_addr: v4(2, 2, 2, 2), weight: 7 });
    assert_eq!(t.load(), 7);
    assert_eq!(t.endpoint(8443), SocketAddress::new(v4(2, 2, 2, 2), 8443));
    assert_eq!(d.poll_next().unwrap().0, v4(1, 1, 1, 1));
    assert!(d.poll_next().is_none());
}
