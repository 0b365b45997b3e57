use dropship::{
    best_server_index, float_less, grade, max_latency_of, nan_bits, order_by_latency, total_key_of, KnownServer,
    PingTable, ServerSelection, INFINITY_BITS,
};

fn server(token: &str, ping: &str, bit: u8) -> KnownServer {
    KnownServer { token: token.into(), title: token.into(), ping: ping.into(), block: String::new(), bit }
}

fn ms(v: f32) -> u32 {
    v.to_bits()
}

#[test]
fn ping_table_keeps_latest() {
    let mut t = PingTable::new();
    assert!(t.get(&"1.1.1.1".to_string()).is_none());
    t.record("1.1.1.1".to_string(), Ok(ms(40.0)));
    t.record("2.2.2.2".to_string(), Err("timeout".to_string()));
    assert_eq!(t.latency(&"1.1.1.1".to_string()), Some(ms(40.0)));
    assert_eq!(t.latency(&"2.2.2.2".to_string()), None);
    assert_eq!(t.get(&"2.2.2.2".to_string()), Some(&Err("timeout".to_string())));
    t.record("1.1.1.1".to_string(), Ok(ms(25.5)));
    assert_eq!(t.latency(&"1.1.1.1".to_string()), Some(ms(25.5)));
}

#[test]
fn best_server_skips_blocked_and_failed() {
    let servers = vec![server("a", "1", 0), server("b", "2", 1), server("c", "3", 2), server("d", "4", 3)];
    let mut t = PingTable::new();
    t.record("1".into(), Ok(ms(80.0)));
    t.record("2".into(), Ok(ms(20.0)));
    t.record("3".into(), Err("x".into()));
    t.record("4".into(), Ok(ms(20.0)));
    let mut blocked = ServerSelection::none();
    assert_eq!(best_server_index(&servers, &blocked, &t), Some(1));
    blocked.set(&servers[1]);
    // equal latency: the first one listed wins, here server d
    assert_eq!(best_server_index(&servers, &blocked, &t), Some(3));
    blocked.set(&servers[3]);
    blocked.set(&servers[0]);
    assert_eq!(best_server_index(&servers, &blocked, &t), None);
}

#[test]
fn infinite_latency_is_never_best() {
    let servers = vec![server("a", "1", 0)];
    let mut t = PingTable::new();
    t.record("1".into(), Ok(f32::INFINITY.to_bits()));
    assert_eq!(INFINITY_BITS, f32::INFINITY.to_bits());
    assert_eq!(best_server_index(&servers, &ServerSelection::none(), &t), None);
}

#[test]
fn order_by_latency_is_stable() {
    let servers = vec![server("a", "1", 0), server("b", "2", 1), server("c", "3", 2), server("d", "4", 3)];
    let mut t = PingTable::new();
    t.record("1".into(), Ok(ms(90.0)));
    t.record("3".into(), Ok(ms(12.0)));
    t.record("4".into(), Ok(ms(90.0)));
    assert_eq!(order_by_latency(&servers, &t), vec![2, 0, 3, 1]);
}

#[test]
fn grades_and_max() {
    assert_eq!(grade(ms(0.0)), 0);
    assert_eq!(grade(ms(49.9)), 0);
    assert_eq!(grade(ms(50.0)), 1);
    assert_eq!(grade(ms(99.0)), 1);
    assert_eq!(grade(ms(100.0)), 2);
    let servers = vec![server("a", "1", 0), server("b", "2", 1)];
    let mut t = PingTable::new();
    assert_eq!(max_latency_of(&servers, &t), ms(1.0));
    t.record("1".into(), Ok(ms(0.5)));
    assert_eq!(max_latency_of(&servers, &t), ms(1.0));
    t.record("2".into(), Ok(ms(140.0)));
    assert_eq!(max_latency_of(&servers, &t), ms(140.0));
}

fn sample_floats() -> Vec<f32> {
    vec![
        f32::NEG_INFINITY,
        -1.0e30,
        -100.0,
        -1.0,
        -1.0e-40,
        -0.0,
        0.0,
        1.0e-40,
        0.5,
        1.0,
        49.9,
        50.0,
        1.0e30,
        f32::MAX,
        f32::INFINITY,
        f32::NAN,
        -f32::NAN,
    ]
}

#[test]
fn keys_follow_the_float_orders() {
    for a in sample_floats() {
        assert_eq!(nan_bits(a.to_bits()), a.is_nan());
        for b in sample_floats() {
            assert_eq!(float_less(a.to_bits(), b.to_bits()), a < b, "{a} < {b}");
            assert_eq!(
                total_key_of(a.to_bits()).cmp(&total_key_of(b.to_bits())),
                a.total_cmp(&b),
                "{a} total_cmp {b}"
            );
        }
    }
}

#[test]
fn negative_latency_is_lowest() {
    let servers = vec![server("a", "1", 0), server("b", "2", 1), server("c", "3", 2)];
    let mut t = PingTable::new();
    t.record("1".into(), Ok(ms(30.0)));
    t.record("2".into(), Ok(ms(-1.0)));
    assert_eq!(best_server_index(&servers, &ServerSelection::none(), &t), Some(1));
    assert_eq!(order_by_latency(&servers, &t), vec![1, 0, 2]);
    assert_eq!(grade(ms(-1.0)), 0);
    assert_eq!(max_latency_of(&servers, &t), ms(30.0));
    let one = vec![server("a", "1", 0)];
    let mut u = PingTable::new();
    u.record("1".into(), Ok(ms(-1.0)));
    assert_eq!(best_server_index(&one, &ServerSelection::none(), &u), Some(0));
}

#[test]
fn zero_signs_tie_and_nan_is_never_best() {
    let servers = vec![server("a", "1", 0), server("b", "2", 1), server("c", "3", 2)];
    let mut t = PingTable::new();
    t.record("1".into(), Ok(ms(f32::NAN)));
    t.record("2".into(), Ok(ms(0.0)));
    t.record("3".into(), Ok(ms(-0.0)));
    // -0.0 < 0.0 is false for floats: the first listed zero stays best
    assert_eq!(best_server_index(&servers, &ServerSelection::none(), &t), Some(1));
    // total_cmp puts -0.0 before 0.0 and NaN after infinity
    assert_eq!(order_by_latency(&servers, &t), vec![2, 1, 0]);
    assert_eq!(grade(ms(f32::NAN)), 2);
    assert_eq!(max_latency_of(&servers, &t), ms(1.0));
}
