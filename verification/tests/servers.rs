use dropship::{
    ApiCache, DropshipApiData, DropshipConfig, FirewallAction, KnownServer, PresetOutcome, ServerLists,
    ServerSelection, TemplateApp, ToggleOutcome, Preset,
};

fn server(token: &str, title: &str, bit: u8) -> KnownServer {
    KnownServer {
        token: token.to_string(),
        title: title.to_string(),
        ping: format!("10.0.0.{}", bit + 1),
        block: format!("10.{}.0.0/24", bit),
        bit,
    }
}

fn app_with(servers: Vec<KnownServer>) -> TemplateApp {
    let cache = ApiCache {
        cached_api_data: Some(DropshipApiData { servers: ServerLists { overwatch: servers }, notices: Vec::new() }),
    };
    let mut config = DropshipConfig::default();
    config.welcomed = true;
    config.toured = true;
    TemplateApp::new(config, Some(cache))
}

fn three() -> Vec<KnownServer> {
    vec![server("ams1", "Netherlands", 0), server("gmec2", "Saudi Arabia", 1), server("ord1", "USA - East", 2)]
}

#[test]
fn selection_set_has_toggle() {
    let s = three();
    let mut sel = ServerSelection::none();
    assert!(!sel.has(&s[1]));
    sel.set(&s[1]);
    assert!(sel.has(&s[1]));
    assert!(!sel.has(&s[0]));
    assert_eq!(sel.bits(), 0b10);
    sel.toggle(&s[2]);
    assert_eq!(sel.bits(), 0b110);
    sel.toggle(&s[2]);
    assert_eq!(sel.bits(), 0b10);
    sel.solo(&s[0]);
    assert_eq!(sel.bits(), 1);
    sel.solo_invert(&s[0]);
    assert_eq!(sel.bits(), !1u64);
    assert!(sel.has(&s[1]) && sel.has(&s[2]) && !sel.has(&s[0]));
    let mut other = ServerSelection::none();
    assert!(!other.same_as(&sel));
    other.solo_invert(&s[0]);
    assert!(other.same_as(&sel));
}

#[test]
fn toggle_server_blocks_and_unblocks() {
    let mut app = app_with(three());
    match app.toggle_server(1, false) {
        ToggleOutcome::Changed(FirewallAction::Send(req)) => {
            assert_eq!(req.blocked_servers.len(), 1);
            assert_eq!(req.blocked_servers[0].token, "gmec2");
            assert!(req.already_known_paths.is_empty());
        }
        _ => panic!("expected a request"),
    }
    assert_eq!(app.config.desired_blocked_servers.bits(), 0b10);
    match app.toggle_server(1, false) {
        ToggleOutcome::Changed(FirewallAction::Send(req)) => assert!(req.blocked_servers.is_empty()),
        _ => panic!("expected a request"),
    }
    assert_eq!(app.config.desired_blocked_servers.bits(), 0);
    assert!(matches!(app.toggle_server(7, false), ToggleOutcome::NoSuchServer));
}

#[test]
fn toggle_server_refuses_last_allowed() {
    let mut app = app_with(three());
    app.toggle_server(0, false);
    app.toggle_server(1, false);
    assert!(matches!(app.toggle_server(2, false), ToggleOutcome::WouldBlockAll));
    assert_eq!(app.config.desired_blocked_servers.bits(), 0b11);
}

#[test]
fn right_click_keeps_only_that_server() {
    let mut app = app_with(three());
    match app.toggle_server(2, true) {
        ToggleOutcome::Changed(FirewallAction::Send(req)) => {
            let tokens: Vec<&str> = req.blocked_servers.iter().map(|s| s.token.as_str()).collect();
            assert_eq!(tokens, vec!["ams1", "gmec2"]);
        }
        _ => panic!("expected a request"),
    }
    assert_eq!(app.config.desired_blocked_servers.bits(), !0b100u64);
    // right click on the last allowed server: block only it
    match app.toggle_server(2, true) {
        ToggleOutcome::Changed(FirewallAction::Send(req)) => {
            assert_eq!(req.blocked_servers.len(), 1);
            assert_eq!(req.blocked_servers[0].token, "ord1");
        }
        _ => panic!("expected a request"),
    }
    assert_eq!(app.config.desired_blocked_servers.bits(), 0b100);
}

#[test]
fn changes_wait_while_the_game_is_open() {
    let mut app = app_with(three());
    app.game_open = true;
    assert!(matches!(app.toggle_server(0, false), ToggleOutcome::Changed(FirewallAction::WaitForGameToClose)));
    assert!(app.pending_firewall_sync_when_game_is_closed);
    assert_eq!(app.config.desired_blocked_servers.bits(), 1);
    // forcing sends even while the game is open
    let req = app.force_unblock_all();
    assert!(req.blocked_servers.is_empty());
    assert_eq!(app.config.desired_blocked_servers.bits(), 0);
}

#[test]
fn presets_apply_by_token() {
    let mut app = app_with(three());
    // default shortcut "Europe" blocks gmec2
    assert_eq!(app.config.presets.len(), 1);
    assert_eq!(app.config.presets[0].key.as_deref(), Some("F1"));
    match app.apply_preset(0) {
        PresetOutcome::Applied(FirewallAction::Send(req)) => {
            assert_eq!(req.blocked_servers.len(), 1);
            assert_eq!(req.blocked_servers[0].bit, 1);
        }
        _ => panic!("expected the shortcut to apply"),
    }
    assert!(app.preset_is_active(&app.config.presets[0]));
    assert!(matches!(app.apply_preset(0), PresetOutcome::Unchanged));
    assert!(matches!(app.apply_preset(3), PresetOutcome::NoSuchPreset));
    app.config.presets.push(Preset {
        name: "all".to_string(),
        key: None,
        blocked: vec!["ams1".into(), "gmec2".into(), "ord1".into()],
    });
    assert!(matches!(app.apply_preset(1), PresetOutcome::WouldBlockAll));
    assert_eq!(app.config.desired_blocked_servers.bits(), 0b10);
}

#[test]
fn export_and_titles() {
    let mut app = app_with(three());
    app.toggle_server(0, false);
    app.toggle_server(2, false);
    assert_eq!(app.exported_ips(), vec!["10.0.0.0/24".to_string(), "10.2.0.0/24".to_string()]);
    assert_eq!(app.blocked_titles(), vec!["Netherlands".to_string(), "USA - East".to_string()]);
    assert_eq!(app.server_state(&app.known_servers()[0].clone()), (true, true));
    assert_eq!(app.server_state(&app.known_servers()[1].clone()), (false, false));
}

#[test]
fn volatile_server_is_the_first_blocked_g_token() {
    let mut app = app_with(three());
    assert_eq!(app.volatile_blocked_server(), None);
    app.config.blocked_servers.set(&app.known_servers()[1].clone());
    app.config.blocked_servers.set(&app.known_servers()[0].clone());
    assert_eq!(app.volatile_blocked_server(), Some(1));
}

#[test]
fn a_change_waits_for_the_game_and_is_sent_when_it_closes() {
    let mut app = app_with(three());
    assert!(app.game_open_changed(true).is_none());
    assert!(app.game_open);
    match app.toggle_server(1, false) {
        ToggleOutcome::Changed(FirewallAction::WaitForGameToClose) => {}
        _ => panic!("expected the change to wait"),
    }
    assert!(app.pending_firewall_sync_when_game_is_closed);
    let req = app.game_open_changed(false).expect("the waiting change is sent");
    assert!(!app.game_open);
    assert!(!app.pending_firewall_sync_when_game_is_closed);
    let tokens: Vec<&str> = req.blocked_servers.iter().map(|s| s.token.as_str()).collect();
    assert_eq!(tokens, vec!["gmec2"]);
    // nothing pending: closing again sends nothing
    assert!(app.game_open_changed(false).is_none());
    let applied = app.config.desired_blocked_servers;
    app.firewall_applied(applied);
    assert!(app.selection_applied());
}
