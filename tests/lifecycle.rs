use sklookup_proxy::{
    default_debug, default_ip_addr, default_port, descriptor_text, parse_listener_fd, pin_ops,
    plan_redirector, respawn_env, should_signal_parent, App, AppTarget, Config, DrainState,
    IpAddress, PinOp, PinnedObject, RedirectorError,
};

fn app(ip: IpAddress) -> App {
    App {
        uuid: "u".to_string(),
        ip_addr: ip,
        targets: vec![AppTarget { ip_addr: IpAddress::V4(0x7f00_0001), weight: 1 }],
    }
}

fn config(apps: Vec<App>) -> Config {
    Config { debug: true, ip_addr: IpAddress::V4(0), port: 8080, apps, control_socket_path: None }
}

#[test]
fn redirector_plan_has_one_key_per_app() {
    let cfg = config(vec![app(IpAddress::V4(0x0a00_0001)), app(IpAddress::V4(0x0a00_0002))]);
    let plan = plan_redirector(&cfg, 7).unwrap();
    assert!(plan.debug);
    assert_eq!(plan.ips_capacity, 2);
    assert_eq!(plan.socket_slot, 0);
    assert_eq!(plan.socket_fd, 7);
    assert_eq!(plan.ip_keys, vec![0x0a00_0001, 0x0a00_0002]);
}

#[test]
fn redirector_plan_keys_each_address_once() {
    let cfg = config(vec![
        app(IpAddress::V4(5)),
        app(IpAddress::V4(9)),
        app(IpAddress::V4(5)),
    ]);
    let plan = plan_redirector(&cfg, 4).unwrap();
    assert_eq!(plan.ips_capacity, 3);
    assert_eq!(plan.ip_keys, vec![5, 9]);
}

#[test]
fn redirector_plan_rejects_ipv6() {
    let cfg = config(vec![app(IpAddress::V4(1)), app(IpAddress::V6(1))]);
    assert!(matches!(plan_redirector(&cfg, 3), Err(RedirectorError::Ipv6NotImplemented)));
}

#[test]
fn redirector_plan_for_no_apps() {
    let plan = plan_redirector(&config(vec![]), 0).unwrap();
    assert_eq!(plan.ips_capacity, 0);
    assert!(plan.ip_keys.is_empty());
}

#[test]
fn pins_are_replaced_not_duplicated() {
    assert_eq!(pin_ops(PinnedObject::IpsMap, false), vec![PinOp::Pin(PinnedObject::IpsMap)]);
    assert_eq!(
        pin_ops(PinnedObject::SocketMap, true),
        vec![PinOp::Unpin(PinnedObject::SocketMap), PinOp::Pin(PinnedObject::SocketMap)]
    );
    assert_eq!(PinnedObject::SocketMap.path(), "socket_map");
    assert_eq!(PinnedObject::IpsMap.path(), "ips_map");
    assert_eq!(PinnedObject::RedirectorProg.path(), "redirector_prog");
}

#[test]
fn drain_with_three_connections() {
    let mut s = DrainState::new();
    assert!(s.on_accept() && s.on_accept() && s.on_accept());
    s.on_terminate();
    assert!(s.is_draining());
    assert!(!s.on_accept());
    assert_eq!(s.connections(), 3);
    s.on_close();
    s.on_close();
    assert!(!s.may_exit());
    s.on_close();
    assert!(s.may_exit());
    s.on_close();
    assert_eq!(s.connections(), 0);
}

#[test]
fn listener_fd_parsing() {
    assert_eq!(parse_listener_fd(b"3"), Some(3));
    assert_eq!(parse_listener_fd(b"0042"), Some(42));
    assert_eq!(parse_listener_fd(b"2147483647"), Some(i32::MAX));
    assert_eq!(parse_listener_fd(b"2147483648"), None);
    assert_eq!(parse_listener_fd(b"99999999999999999999"), None);
    assert_eq!(parse_listener_fd(b""), None);
    assert_eq!(parse_listener_fd(b"-1"), None);
    assert_eq!(parse_listener_fd(b"12a"), None);
}

#[test]
fn descriptor_text_is_decimal() {
    assert_eq!(descriptor_text(0), "0");
    assert_eq!(descriptor_text(9), "9");
    assert_eq!(descriptor_text(1024), "1024");
    assert_eq!(descriptor_text(-5), "-5");
    assert_eq!(descriptor_text(i32::MIN), "-2147483648");
}

#[test]
fn respawn_env_replaces_listener_fd() {
    let vars = vec![
        ("PATH".to_string(), "/bin".to_string()),
        ("LISTENER_FD".to_string(), "4".to_string()),
        ("HOME".to_string(), "/root".to_string()),
    ];
    let env = respawn_env(&vars, 12);
    assert_eq!(
        env,
        vec![
            ("PATH".to_string(), "/bin".to_string()),
            ("HOME".to_string(), "/root".to_string()),
            ("LISTENER_FD".to_string(), "12".to_string()),
        ]
    );
}

#[test]
fn child_signals_live_parent_only() {
    assert!(should_signal_parent(1234, true));
    assert!(!should_signal_parent(1, true));
    assert!(!should_signal_parent(1234, false));
}

#[test]
fn defaults() {
    assert_eq!(default_port(), 8080);
    assert_eq!(default_ip_addr(), IpAddress::V4(0));
    assert!(default_debug(Some("development".to_string())));
    assert!(!default_debug(Some("production".to_string())));
    assert!(!default_debug(None));
}
