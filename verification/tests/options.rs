use rnet::options::{
    ceil_to_power_of_two, choose_cores, normalize_buffer_size, select_cores, LoadBalancing, Level, Options,
    OptionsBuilder, TcpSocketOpt, TopoKey, MAX_STREAM_BUFFER_CAP,
};
use rnet::socket_addr::{parse_address, Protocol};
use std::time::Duration;

#[test]
fn test_buffer_cap_normalization() {
    let opts = Options::builder().read_buffer_cap(0).write_buffer_cap(0).build();
    assert_eq!(opts.read_buffer_cap, MAX_STREAM_BUFFER_CAP);
    assert_eq!(opts.write_buffer_cap, MAX_STREAM_BUFFER_CAP);

    let opts = Options::builder().read_buffer_cap(100).write_buffer_cap(1024).build();
    assert_eq!(opts.read_buffer_cap, 1024);
    assert_eq!(opts.write_buffer_cap, 1024);

    let opts = Options::builder().read_buffer_cap(4097).write_buffer_cap(8192).build();
    assert_eq!(opts.read_buffer_cap, 8192);
    assert_eq!(opts.write_buffer_cap, 8192);
}

#[test]
fn test_et_chunk_normalization() {
    let opts = Options::builder().build();
    assert_eq!(opts.edge_triggered_io_chunk, 1024 * 1024);

    let opts = Options::builder().edge_triggered_io_chunk(100).build();
    assert_eq!(opts.edge_triggered_io_chunk, 128);
}

#[test]
fn test_ceil_to_power_of_two() {
    assert_eq!(ceil_to_power_of_two(0), 2);
    assert_eq!(ceil_to_power_of_two(1), 2);
    assert_eq!(ceil_to_power_of_two(2), 2);
    assert_eq!(ceil_to_power_of_two(3), 4);
    assert_eq!(ceil_to_power_of_two(100), 128);
    assert_eq!(ceil_to_power_of_two(1023), 1024);
    assert_eq!(ceil_to_power_of_two(1024), 1024);
    assert_eq!(ceil_to_power_of_two(1025), 2048);
}

#[test]
fn get_isolated_cores_from_affinity() {}

/// Stands in for a socket address parser in these tests: `host:port` with a
/// numeric port.
fn host_port(text: &str) -> Result<(String, u16), String> {
    match text.rsplit_once(':') {
        Some((host, port)) => port.parse::<u16>().map(|p| (host.to_string(), p)).map_err(|e| e.to_string()),
        None => Err(String::from("missing port")),
    }
}

#[test]
fn test_normalize_udp() {
    let mut opts = Options::builder().reuse_port(false).build();
    opts.normalize(&["udp://127.0.0.1:8080"], host_port).unwrap();
    assert_eq!(opts.reuse_port, true);
}

#[test]
fn test_normalize_mixed() {
    let mut opts = Options::builder().reuse_port(false).build();
    opts.normalize(&["tcp://:8080", "udp://:9090"], host_port).unwrap();
    assert_eq!(opts.reuse_port, true);
}

#[test]
fn normalize_reports_the_first_bad_address_and_keeps_settings() {
    let mut opts = Options::builder().reuse_port(true).build();
    let err = opts.normalize(&["tcp://:8080", "unix:///tmp/a.sock", "tcp://x", "bad"], host_port).unwrap_err();
    assert!(err.message().starts_with("invalid tcp address: "));
    assert!(opts.reuse_port);
    let v = opts.normalize(&["tcp://:8080", "unix:///tmp/a.sock"], host_port).unwrap();
    assert_eq!(v.len(), 2);
    assert_eq!(v[1].protocol(), Protocol::Unix);
    assert!(!opts.reuse_port);
    let mut opts = Options::builder().reuse_port(false).build();
    opts.normalize(&["unix:///tmp/a.sock", "udp://:53"], host_port).unwrap();
    assert!(opts.reuse_port);
}

#[test]
fn test_normalize_unix() {
    let mut opts = Options::builder().reuse_port(true).build();
    opts.normalize(&["unix:///tmp/test.sock"], host_port).unwrap();
    assert_eq!(opts.reuse_port, false);
}

#[test]
fn normalize_keeps_reuse_port_for_tcp() {
    let mut opts = Options::builder().reuse_port(true).build();
    let a = parse_address("tcp://:8080").unwrap();
    let b = parse_address("tcp4://127.0.0.1:9000").unwrap();
    opts.normalize_for(&[a.protocol(), b.protocol()]);
    assert!(opts.reuse_port);
    opts.normalize_for(&[Protocol::Tcp, Protocol::Unix]);
    assert!(!opts.reuse_port);
    opts.normalize_for(&[Protocol::Tcp]);
    assert!(!opts.reuse_port);
}

#[test]
fn normalize_buffer_size_values() {
    assert_eq!(normalize_buffer_size(0), 65536);
    assert_eq!(normalize_buffer_size(1), 1024);
    assert_eq!(normalize_buffer_size(1024), 1024);
    assert_eq!(normalize_buffer_size(1025), 2048);
    assert_eq!(normalize_buffer_size(65536), 65536);
    assert_eq!(normalize_buffer_size(65537), 131072);
}

#[test]
fn build_from_empty_builder_gives_defaults() {
    let opts = OptionsBuilder::new().build();
    assert_eq!(opts.lb, LoadBalancing::RoundRobin);
    assert!(!opts.reuse_addr);
    assert!(!opts.reuse_port);
    assert_eq!(opts.bind_to_device, "");
    assert_eq!(opts.num_event_loop, 0);
    assert_eq!(opts.read_buffer_cap, 65536);
    assert_eq!(opts.write_buffer_cap, 65536);
    assert!(!opts.lock_os_thread);
    assert!(!opts.ticker);
    assert_eq!(opts.tcp_keepalive, None);
    assert_eq!(opts.tcp_keep_interval, None);
    assert_eq!(opts.tcp_keep_count, None);
    assert_eq!(opts.tcp_no_delay, TcpSocketOpt::NoDelay);
    assert_eq!(opts.socket_recv_buffer, 0);
    assert_eq!(opts.socket_send_buffer, 0);
    assert_eq!(opts.edge_triggered_io_chunk, 1 << 20);
    assert_eq!(opts.log_path, None);
    assert_eq!(opts.log_level, Level::Info);
}

#[test]
fn build_applies_every_override() {
    let opts = Options::builder()
        .lb(LoadBalancing::LeastConnections)
        .reuse_addr(true)
        .reuse_port(true)
        .bind_to_device(String::from("eth0"))
        .num_event_loop(8)
        .lock_os_thread(true)
        .ticker(true)
        .tcp_keepalive(Duration::from_secs(30))
        .tcp_keepinterval(Duration::from_secs(5))
        .tcp_keepcount(3)
        .tcp_no_delay(TcpSocketOpt::Delay)
        .socket_recv_buffer(4096)
        .socket_send_buffer(8192)
        .edge_triggered_io_chunk(3)
        .log_path(String::from("/tmp/rnet.log"))
        .log_level(Level::Warn)
        .build();
    assert_eq!(opts.lb, LoadBalancing::LeastConnections);
    assert!(opts.reuse_addr);
    assert!(opts.reuse_port);
    assert_eq!(opts.bind_to_device, "eth0");
    assert_eq!(opts.num_event_loop, 8);
    assert!(opts.lock_os_thread);
    assert!(opts.ticker);
    assert_eq!(opts.tcp_keepalive, Some(Duration::from_secs(30)));
    assert_eq!(opts.tcp_keep_interval, Some(Duration::from_secs(5)));
    assert_eq!(opts.tcp_keep_count, Some(3));
    assert_eq!(opts.tcp_no_delay, TcpSocketOpt::Delay);
    assert_eq!(opts.socket_recv_buffer, 4096);
    assert_eq!(opts.socket_send_buffer, 8192);
    assert_eq!(opts.edge_triggered_io_chunk, 4);
    assert_eq!(opts.log_path, Some(String::from("/tmp/rnet.log")));
    assert_eq!(opts.log_level, Level::Warn);
}

#[test]
fn build_takes_unset_values_from_base_options() {
    let base = Options::builder().num_event_loop(4).read_buffer_cap(3000).reuse_addr(true).build();
    assert_eq!(base.read_buffer_cap, 4096);
    let opts = Options::builder().with_options(base).num_event_loop(2).build();
    assert_eq!(opts.num_event_loop, 2);
    assert!(opts.reuse_addr);
    assert_eq!(opts.read_buffer_cap, 4096);
    assert_eq!(opts.write_buffer_cap, 65536);
}

#[test]
fn build_normalises_a_normalised_capacity_to_itself() {
    let once = Options::builder().read_buffer_cap(5000).build();
    let twice = Options::builder().read_buffer_cap(once.read_buffer_cap).build();
    assert_eq!(once.read_buffer_cap, 8192);
    assert_eq!(twice.read_buffer_cap, once.read_buffer_cap);
}

#[test]
fn default_level_is_info() {
    assert_eq!(Level::default(), Level::Info);
}

fn key(socket: &str, core: &str) -> TopoKey {
    TopoKey { socket: socket.to_string(), core: core.to_string() }
}

#[test]
fn select_cores_takes_one_thread_per_physical_core() {
    let ids = vec![0, 1, 2, 3, 4, 5];
    let keys = vec![key("0", "0"), key("0", "0"), key("0", "1"), key("0", "1"), key("1", "0"), key("1", "1")];
    assert_eq!(select_cores(&ids, &keys, 4), vec![0, 2, 4, 5]);
    assert_eq!(select_cores(&ids, &keys, 2), vec![0, 2]);
    assert_eq!(select_cores(&ids, &keys, 10), vec![0, 2, 4, 5]);
    assert_eq!(select_cores(&ids, &keys, 0), Vec::<usize>::new());
}

#[test]
fn test_limit_none_returns_all() {
    let all_system_cores = core_affinity::get_core_ids().unwrap();
    let result = rnet::options::get_core_ids(None, None::<fn(usize) -> TopoKey>);
    assert_eq!(result.len(), all_system_cores.len());
}

#[test]
fn test_limit_some_filters_topology() {
    let target = 4;
    // Two hardware threads per physical core: cpu 2k and cpu 2k+1 share core k.
    let physical = |id: usize| key("0", &(id / 2).to_string());
    let result = rnet::options::get_core_ids(Some(target), Some(physical));
    assert!(result.len() <= target);
    let mut seen = std::collections::HashSet::new();
    for id in &result {
        let k = physical(*id);
        assert!(seen.insert((k.socket, k.core)), "two threads of one physical core: {:?}", result);
    }
    let all: std::collections::HashSet<(String, String)> = core_affinity::get_core_ids()
        .unwrap()
        .into_iter()
        .map(|c| {
            let k = physical(c.id);
            (k.socket, k.core)
        })
        .collect();
    assert_eq!(result.len(), std::cmp::min(target, all.len()));
}

#[test]
fn test_limit_overflow() {
    let huge_limit = 1024;
    let result = rnet::options::get_core_ids(Some(huge_limit), None::<fn(usize) -> TopoKey>);
    assert!(result.len() > 0);
    assert!(result.len() <= core_affinity::get_core_ids().unwrap().len());
}

#[test]
fn choose_cores_follows_limit_and_topology() {
    let none = None::<fn(usize) -> TopoKey>;
    assert_eq!(choose_cores(vec![3, 1, 2], None, none), vec![3, 1, 2]);
    assert_eq!(choose_cores(vec![3, 1, 2], Some(0), none), vec![3, 1, 2]);
    assert_eq!(choose_cores(vec![3, 1, 2], Some(2), none), vec![3, 1]);
    assert_eq!(choose_cores(vec![3, 1, 2], Some(5), none), vec![3, 1, 2]);
    let by_pair = |id: usize| key("0", &(id / 2).to_string());
    assert_eq!(choose_cores(vec![0, 1, 2, 3, 4], Some(3), Some(by_pair)), vec![0, 2, 4]);
    assert_eq!(choose_cores(vec![0, 1, 2, 3, 4], Some(2), Some(by_pair)), vec![0, 2]);
}

#[test]
fn topology_key_trims_and_falls_back() {
    let k = rnet::options::topology_key_from(7, Some(" 1\n"), Some("\t12 \n"));
    assert_eq!((k.socket.as_str(), k.core.as_str()), ("1", "12"));
    let k = rnet::options::topology_key_from(7, None, None);
    assert_eq!((k.socket.as_str(), k.core.as_str()), ("0", "7"));
    assert_eq!(rnet::options::trim_text("\u{3000} a b \u{a0}"), "a b");
    assert_eq!(rnet::options::trim_text("   "), "");
}
