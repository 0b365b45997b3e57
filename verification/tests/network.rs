use dropship::{candidates, net_candidate_addresses, probe_targets, Probe, ProbeAction, ProbeStage, MAX_CANDIDATES};

fn ip(a: u8, b: u8, c: u8, d: u8) -> u32 {
    u32::from_be_bytes([a, b, c, d])
}

#[test]
fn candidates_of_a_slash_24() {
    assert_eq!(candidates("34.0.0.0/24"), vec![ip(34, 0, 0, 1), ip(34, 0, 0, 2), ip(34, 0, 0, 10)]);
}

#[test]
fn candidates_of_a_wide_block_use_next_subnets() {
    assert_eq!(
        candidates("10.1.2.3/15"),
        vec![ip(10, 0, 0, 1), ip(10, 0, 0, 2), ip(10, 0, 0, 10), ip(10, 0, 1, 1), ip(10, 1, 0, 1)]
    );
}

#[test]
fn candidates_skip_bad_parts_and_trim() {
    assert_eq!(
        candidates(" 1.2.3.0/30 , nonsense,5.6.7.0/29"),
        vec![ip(1, 2, 3, 1), ip(1, 2, 3, 2), ip(5, 6, 7, 1), ip(5, 6, 7, 2)]
    );
    assert!(candidates("").is_empty());
    assert!(candidates("1.2.3.4/32,1.2.3.4/31").is_empty());
    assert!(candidates("0.0.0.0/0").is_empty());
}

#[test]
fn candidates_are_capped() {
    let block = vec!["20.0.0.0/8"; 6].join(",");
    let c = candidates(&block);
    assert_eq!(c.len(), MAX_CANDIDATES);
    assert_eq!(c[0], ip(20, 0, 0, 1));
    assert_eq!(c[5], ip(20, 0, 0, 1));
}

#[test]
fn net_candidates_are_inside() {
    assert_eq!(net_candidate_addresses(ip(192, 168, 7, 9), 28), vec![ip(192, 168, 7, 1), ip(192, 168, 7, 2), ip(192, 168, 7, 10)]);
    assert_eq!(net_candidate_addresses(ip(255, 255, 255, 255), 24), vec![ip(255, 255, 255, 1), ip(255, 255, 255, 2), ip(255, 255, 255, 10)]);
}

#[test]
fn probe_order_puts_the_server_address_first_and_skips_the_known_one() {
    let api = Some(ip(9, 9, 9, 9));
    assert_eq!(probe_targets(api, "1.1.1.0/30", None), vec![ip(9, 9, 9, 9), ip(1, 1, 1, 1), ip(1, 1, 1, 2)]);
    assert_eq!(probe_targets(api, "1.1.1.0/30", Some(ip(1, 1, 1, 1))), vec![ip(9, 9, 9, 9), ip(1, 1, 1, 2)]);
    assert_eq!(probe_targets(None, "1.1.1.0/30", Some(ip(9, 9, 9, 9))), vec![ip(1, 1, 1, 1), ip(1, 1, 1, 2)]);
}

#[test]
fn every_candidate_of_a_block_lies_inside_one_of_its_networks() {
    let nets = [(ip(10, 20, 0, 0), 16u32), (ip(172, 16, 4, 0), 22), (ip(8, 8, 8, 0), 29)];
    let c = candidates("10.20.0.0/16, 172.16.4.0/22 ,8.8.8.0/29, junk");
    assert!(!c.is_empty());
    for a in c {
        assert!(nets.iter().any(|&(n, p)| {
            let size: u64 = 1u64 << (32 - p);
            (a as u64) > (n as u64) && (a as u64) < (n as u64) + size - 1
        }));
    }
}

#[test]
fn probing_tries_the_remembered_address_then_the_others() {
    let api = ip(9, 9, 9, 9);
    // the remembered address answers: done, nothing new to remember
    let (mut p, a) = Probe::start("9.9.9.9", Ok(Some(api)), "1.1.1.0/30", Some(ip(1, 1, 1, 1)));
    assert!(matches!(a, ProbeAction::Echo { addr, count: 3 } if addr == ip(1, 1, 1, 1)));
    match p.on_echo(Ok(Some(20.0f32.to_bits()))) {
        ProbeAction::Done { result, remember } => {
            assert_eq!(result, Ok(20.0f32.to_bits()));
            assert_eq!(remember, None);
        }
        _ => panic!("expected the end of the run"),
    }
    assert_eq!(p.stage, ProbeStage::Over);
    // it is silent: the server list's address, then the candidates other than it
    let (mut p, _) = Probe::start("9.9.9.9", Ok(Some(api)), "1.1.1.0/30", Some(ip(1, 1, 1, 1)));
    assert!(matches!(p.on_echo(Ok(None)), ProbeAction::Echo { addr, count: 1 } if addr == api));
    assert!(matches!(p.on_echo(Ok(None)), ProbeAction::Echo { addr, count: 1 } if addr == ip(1, 1, 1, 2)));
    match p.on_echo(Ok(Some(33.0f32.to_bits()))) {
        ProbeAction::Done { result, remember } => {
            assert_eq!(result, Ok(33.0f32.to_bits()));
            assert_eq!(remember, Some(ip(1, 1, 1, 2)));
        }
        _ => panic!("expected the end of the run"),
    }
}

#[test]
fn probing_stops_on_errors_and_reports_silence() {
    // nothing remembered, nothing answers
    let (mut p, a) = Probe::start("5.5.5.5", Ok(Some(ip(5, 5, 5, 5))), "", None);
    assert!(matches!(a, ProbeAction::Echo { count: 1, .. }));
    match p.on_echo(Ok(None)) {
        ProbeAction::Done { result, remember } => {
            assert_eq!(result, Err("<5.5.5.5> فشل قياس البنق".to_string()));
            assert_eq!(remember, None);
        }
        _ => panic!("expected the end of the run"),
    }
    // a send error stops the run with that error
    let (mut p, _) = Probe::start("5.5.5.5", Ok(Some(ip(5, 5, 5, 5))), "1.1.1.0/30", None);
    match p.on_echo(Err("no handle".into())) {
        ProbeAction::Done { result, .. } => assert_eq!(result, Err("no handle".to_string())),
        _ => panic!("expected the end of the run"),
    }
    // a ping address that is no address: its error, once the remembered one is silent
    let (mut p, a) = Probe::start("x", Err("invalid IP address syntax".into()), "1.1.1.0/30", Some(ip(7, 7, 7, 7)));
    assert!(matches!(a, ProbeAction::Echo { count: 3, .. }));
    match p.on_echo(Ok(None)) {
        ProbeAction::Done { result, .. } => assert_eq!(result, Err("invalid IP address syntax".to_string())),
        _ => panic!("expected the end of the run"),
    }
    let (_, a) = Probe::start("x", Err("bad".into()), "1.1.1.0/30", None);
    assert!(matches!(a, ProbeAction::Done { result: Err(_), remember: None }));
}
