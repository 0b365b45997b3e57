use dropship::{
    startup_pings, tab_for_keys, ApiCache, DropshipApiData, DropshipConfig, KnownServer, NavKeys, ServerLists,
    TemplateApp, TourMove, UpdatingStatus, TOUR_LEN, VIEW_HELP, VIEW_LOG, VIEW_MAP, VIEW_NEWS, VIEW_OPTIONS, VIEW_GAMES,
    resolve_theme, Theme, wfp_session_plan, graveyard_step, RemoveOutcome, RemoveStep,
};

fn cache() -> Option<ApiCache> {
    Some(ApiCache {
        cached_api_data: Some(DropshipApiData {
            servers: ServerLists {
                overwatch: vec![KnownServer {
                    token: "ams1".into(),
                    title: "Netherlands".into(),
                    ping: "1.2.3.4".into(),
                    block: "1.2.3.0/24".into(),
                    bit: 0,
                }],
            },
            notices: Vec::new(),
        }),
    })
}

#[test]
fn new_user_sees_welcome() {
    let app = TemplateApp::new(DropshipConfig::default(), None);
    assert_eq!(app.modal_welcome_page, Some(0));
    assert_eq!(app.tour, None);
    assert_eq!(app.tab, VIEW_MAP);
}

#[test]
fn returning_user_gets_tour_and_saved_tab() {
    let mut config = DropshipConfig::default();
    config.welcomed = true;
    config.mini = true;
    config.starting_tab = 9;
    config.wfp_dynamic_session = true;
    let s = KnownServer { token: "a".into(), title: "a".into(), ping: "p".into(), block: "b".into(), bit: 3 };
    config.blocked_servers.set(&s);
    let app = TemplateApp::new(config, cache());
    assert_eq!(app.modal_welcome_page, None);
    assert_eq!(app.tour, Some(0));
    assert!(!app.config.mini);
    assert_eq!(app.tab, VIEW_OPTIONS);
    assert_eq!(app.config.blocked_servers.bits(), 0);
}

#[test]
fn welcome_pages() {
    let mut app = TemplateApp::new(DropshipConfig::default(), None);
    app.welcome_next();
    app.welcome_next();
    app.welcome_next();
    assert_eq!(app.modal_welcome_page, Some(2));
    app.welcome_back();
    assert_eq!(app.modal_welcome_page, Some(1));
    app.welcome_dismiss();
    assert_eq!(app.modal_welcome_page, Some(1));
    assert!(!app.welcome_finish());
    app.cache = cache();
    assert!(app.welcome_finish());
    assert!(app.config.welcomed);
    assert_eq!(app.modal_welcome_page, None);
    assert_eq!(app.tour, Some(0));
}

#[test]
fn tour_walk() {
    let mut app = TemplateApp::new(DropshipConfig::default(), None);
    app.start_tour();
    assert_eq!(app.tour_enter(7), Some("games"));
    assert_eq!(app.tab, VIEW_GAMES);
    assert_eq!(app.tour_enter(6), Some("stars"));
    assert_eq!(app.tab, VIEW_GAMES);
    app.tour_move(0, TourMove::Back);
    assert_eq!(app.tour, Some(0));
    app.tour_move(0, TourMove::Next);
    assert_eq!(app.tour, Some(1));
    app.tour_move(TOUR_LEN - 1, TourMove::Next);
    assert_eq!(app.tour, None);
    assert!(app.config.toured);
    app.config.toured = false;
    assert_eq!(app.tour_enter(TOUR_LEN), None);
    assert!(app.config.toured);
}

#[test]
fn escape_closes_tour_first_then_window() {
    let mut app = TemplateApp::new(DropshipConfig::default(), None);
    app.modal_welcome_page = None;
    app.start_tour();
    assert!(!app.on_escape(false));
    assert_eq!(app.tour, None);
    assert!(app.config.toured);
    assert!(!app.on_escape(true));
    assert!(app.on_escape(false));
    app.update_available = Some("3.1.0".into());
    assert!(!app.on_escape(false));
    app.installing_status = UpdatingStatus::Downloading;
    app.close_update_modal();
    assert!(!app.hide_update);
    app.installing_status = UpdatingStatus::NotActive;
    app.close_update_modal();
    assert!(app.hide_update);
    assert!(!app.should_show_update_modal());
    assert!(app.on_escape(false));
}

#[test]
fn keys() {
    let k = NavKeys { num1: false, num2: true, num3: true, num4: false, m: true };
    assert_eq!(tab_for_keys(k), Some(VIEW_LOG));
    let k = NavKeys { num1: true, num2: false, num3: false, num4: false, m: false };
    assert_eq!(tab_for_keys(k), Some(VIEW_NEWS));
    let k = NavKeys { num1: false, num2: false, num3: true, num4: false, m: false };
    assert_eq!(tab_for_keys(k), Some(VIEW_HELP));
    let k = NavKeys { num1: false, num2: false, num3: false, num4: false, m: false };
    assert_eq!(tab_for_keys(k), None);
    let app = TemplateApp::new(DropshipConfig::default(), None);
    assert_eq!(app.preset_for_keys(&vec!["F2".into(), "F1".into()]), Some(0));
    assert_eq!(app.preset_for_keys(&vec!["F2".into()]), None);
    assert!(app.shortcuts_enabled(false));
    assert!(!app.shortcuts_enabled(true));
}

#[test]
fn options() {
    let mut app = TemplateApp::new(DropshipConfig::default(), cache());
    app.set_open_log_at_start(true);
    assert_eq!(app.config.starting_tab, VIEW_LOG);
    app.config.known_paths = Some(vec!["a.exe".into(), "b.exe".into()]);
    app.forget_path(&"a.exe".to_string());
    assert_eq!(app.config.known_paths, Some(vec!["b.exe".to_string()]));
    app.suggesting_path = Some("c.exe".into());
    app.close_suggestion(true);
    assert_eq!(app.denied_paths, vec!["c.exe".to_string()]);
    app.suggesting_path = Some("c.exe".into());
    app.close_suggestion(true);
    assert_eq!(app.denied_paths, vec!["c.exe".to_string()]);
    app.suggesting_path = Some("d.exe".into());
    app.close_suggestion(false);
    assert_eq!(app.suggesting_path, None);
    assert_eq!(app.denied_paths.len(), 1);
    app.clear_cache();
    assert!(app.cache.is_none());
    assert_eq!(app.config.starting_tab, 0);
    assert!(app.config.known_paths.is_none());
}

#[test]
fn start_up_pings_every_cached_server() {
    assert_eq!(startup_pings(&cache()), vec![("1.2.3.4".to_string(), "1.2.3.0/24".to_string())]);
    assert!(startup_pings(&None).is_empty());
}

#[test]
fn small_decisions() {
    assert_eq!(resolve_theme(Some(Theme::Light), Some(Theme::Dark)), Theme::Light);
    assert_eq!(resolve_theme(None, Some(Theme::Light)), Theme::Light);
    assert_eq!(resolve_theme(None, None), Theme::Dark);
    let p = wfp_session_plan(true);
    assert!(p.wipe_persistent && !p.persistent);
    let p = wfp_session_plan(false);
    assert!(!p.wipe_persistent && p.persistent);
    assert_eq!(graveyard_step(1, RemoveOutcome::Failed), RemoveStep::Retry);
    assert_eq!(graveyard_step(20, RemoveOutcome::Failed), RemoveStep::GiveUp);
    assert_eq!(graveyard_step(3, RemoveOutcome::NotFound), RemoveStep::Done);
    assert_eq!(graveyard_step(3, RemoveOutcome::Removed), RemoveStep::DoneRemoved);
}

#[test]
fn path_dialog_opens_and_forgetting_closes_it() {
    let mut config = DropshipConfig::default();
    config.known_paths = Some(vec!["a.exe".into(), "b.exe".into(), "a.exe".into()]);
    let mut app = TemplateApp::new(config, cache());
    // the known paths stand for a set: a repeated path is kept once
    assert_eq!(app.config.known_paths, Some(vec!["a.exe".to_string(), "b.exe".to_string()]));
    app.open_path_dialog("b.exe".into());
    assert_eq!(app.modal_manage_path, Some("b.exe".to_string()));
    app.forget_path(&"b.exe".to_string());
    assert_eq!(app.modal_manage_path, None);
    assert_eq!(app.config.known_paths, Some(vec!["a.exe".to_string()]));
    app.open_path_dialog("a.exe".into());
    app.close_path_dialog();
    assert_eq!(app.modal_manage_path, None);
    assert_eq!(app.config.known_paths, Some(vec!["a.exe".to_string()]));
}

#[test]
fn accepting_a_suggestion_hands_back_its_path() {
    let mut app = TemplateApp::new(DropshipConfig::default(), cache());
    assert_eq!(app.accept_suggestion(), None);
    app.suggesting_path = Some("c.exe".into());
    assert_eq!(app.accept_suggestion(), Some("c.exe".to_string()));
    assert_eq!(app.suggesting_path, None);
    assert!(app.denied_paths.is_empty());
}

#[test]
fn installed_update_restarts() {
    let mut app = TemplateApp::new(DropshipConfig::default(), cache());
    app.installing_status = UpdatingStatus::Downloading;
    assert!(!app.launch_installed_update());
    assert!(!app.restart_requested);
    app.installing_status = UpdatingStatus::Installed;
    assert!(app.launch_installed_update());
    assert!(app.restart_requested);
}

#[test]
fn clearing_the_cache_restores_the_default_shortcut() {
    let mut app = TemplateApp::new(DropshipConfig::default(), cache());
    app.config.presets.clear();
    app.clear_cache();
    assert_eq!(app.config.presets.len(), 1);
    assert_eq!(app.config.presets[0].name, "أوروبا");
    assert_eq!(app.config.presets[0].key, Some("F1".to_string()));
    assert_eq!(app.config.presets[0].blocked, vec!["gmec2".to_string()]);
}
