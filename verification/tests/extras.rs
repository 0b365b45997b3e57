use dropship::{
    draw_order, session_name, theme_name, theme_needs_refresh, ApiCache, DropshipApiData, DropshipConfig, FilterState,
    KnownServer, Notice, ServerLists, ServerSelection, TemplateApp, Theme, TourMove, VIEW_LOG,
};

fn app(bits: &[u8]) -> TemplateApp {
    let servers = bits
        .iter()
        .map(|b| KnownServer { token: format!("s{b}"), title: format!("S{b}"), ping: format!("p{b}"), block: String::new(), bit: *b })
        .collect();
    let notices = vec![
        Notice { title: "old".into(), date: "1".into(), paragraph: "a".into() },
        Notice { title: "new".into(), date: "2".into(), paragraph: "b".into() },
    ];
    let cache = ApiCache { cached_api_data: Some(DropshipApiData { servers: ServerLists { overwatch: servers }, notices }) };
    let mut config = DropshipConfig::default();
    config.welcomed = true;
    config.toured = true;
    TemplateApp::new(config, Some(cache))
}

#[test]
fn filter_states() {
    let mut a = app(&[0, 1]);
    assert_eq!(a.filter_state(), FilterState::Stopped);
    a.toggle_server(0, false);
    assert_eq!(a.filter_state(), FilterState::NotApplied);
    a.game_open = true;
    assert_eq!(a.filter_state(), FilterState::WaitingForGame);
    a.config.blocked_servers = a.config.desired_blocked_servers;
    assert!(a.selection_applied());
    assert_eq!(a.filter_state(), FilterState::Active);
}

#[test]
fn best_server_follows_the_firewall() {
    let mut a = app(&[0, 1, 2]);
    a.pings.record("p0".into(), Ok(30.0f32.to_bits()));
    a.pings.record("p1".into(), Ok(10.0f32.to_bits()));
    assert_eq!(a.get_most_likely_to_play_on().map(|s| s.bit), Some(1));
    // the wanted selection alone does not change it; the applied one does
    a.toggle_server(1, false);
    assert_eq!(a.get_most_likely_to_play_on().map(|s| s.bit), Some(1));
    a.config.blocked_servers = a.config.desired_blocked_servers;
    assert_eq!(a.get_most_likely_to_play_on().map(|s| s.bit), Some(0));
}

#[test]
fn servers_must_fit() {
    assert!(app(&[0, 63]).servers_fit());
    assert!(!app(&[0, 64]).servers_fit());
}

#[test]
fn selection_round_trips_through_bits() {
    let s = KnownServer { token: "a".into(), title: "a".into(), ping: String::new(), block: String::new(), bit: 5 };
    let mut sel = ServerSelection::none();
    sel.set(&s);
    let back = ServerSelection::from_bits(sel.bits());
    assert!(back.same_as(&sel));
    assert!(back.has(&s));
}

#[test]
fn notices_log_theme() {
    let mut a = app(&[0]);
    assert_eq!(a.latest_notice().map(|n| n.title.as_str()), Some("new"));
    a.config.mini = true;
    a.show_log();
    assert_eq!(a.tab, VIEW_LOG);
    assert!(!a.config.mini);
    a.flip_theme(Theme::Dark);
    assert_eq!(a.config.theme, Some(Theme::Light));
    assert_eq!(a.first_preset_key().map(|k| k.as_str()), Some("F1"));
    a.config.presets[0].key = None;
    assert_eq!(a.first_preset_key(), None);
    assert!(theme_needs_refresh(None, Some(Theme::Dark), Some(Theme::Light)));
    assert!(theme_needs_refresh(None, None, Some(Theme::Light)));
    assert!(!theme_needs_refresh(Some(Theme::Dark), None, Some(Theme::Light)));
    assert!(!theme_needs_refresh(None, Some(Theme::Light), Some(Theme::Light)));
    assert!(!theme_needs_refresh(None, Some(Theme::Light), None));
    assert_eq!(theme_name(None), "مثل الجهاز");
    assert_eq!(theme_name(Some(Theme::Dark)), "داكن");
    assert_eq!(session_name(true), "فقط والبرنامج مفتوح");
    assert_eq!(session_name(false), "دائمًا");
}

#[test]
fn markers_with_priority_are_drawn_first() {
    assert_eq!(draw_order(&vec![false, true, false, true]), vec![1, 3, 0, 2]);
    assert_eq!(draw_order(&vec![]), Vec::<usize>::new());
}

#[test]
fn tour_back_then_next_returns() {
    let mut a = app(&[0]);
    a.start_tour();
    a.tour_move(5, TourMove::Back);
    assert_eq!(a.tour, Some(4));
    a.tour_move(4, TourMove::Next);
    assert_eq!(a.tour, Some(5));
    a.tour_move(5, TourMove::Skip);
    assert_eq!(a.tour, None);
    assert!(a.config.toured);
}
