use dropship::{ApiCache, DropshipApiData, DropshipConfig, KnownServer, ServerLists, TemplateApp};

fn app() -> TemplateApp {
    let servers = ["ams1", "gmec2", "ord1"]
        .iter()
        .enumerate()
        .map(|(i, t)| KnownServer { token: t.to_string(), title: t.to_string(), ping: String::new(), block: String::new(), bit: i as u8 })
        .collect();
    let cache = ApiCache { cached_api_data: Some(DropshipApiData { servers: ServerLists { overwatch: servers }, notices: vec![] }) };
    TemplateApp::new(DropshipConfig::default(), Some(cache))
}

#[test]
fn edit_and_save_a_shortcut() {
    let mut app = app();
    app.open_preset_editor(None);
    let servers = app.known_servers().to_vec();
    {
        let ed = app.preset_editor.as_mut().unwrap();
        assert!(ed.name.is_empty() && ed.key.is_none());
        ed.name = "  Asia ".into();
        assert!(ed.can_continue());
        ed.listening = true;
        ed.capture_key("Escape".into());
        assert!(ed.key.is_none() && !ed.listening);
        ed.listening = true;
        ed.capture_key("F2".into());
        assert_eq!(ed.key.as_deref(), Some("F2"));
        ed.select_all(&servers);
        assert!(ed.blocks_all(&servers));
        ed.set_server(&"ord1".to_string(), false);
        assert_eq!(ed.blocked_count(&servers), 2);
        ed.invert(&servers);
        assert_eq!(ed.blocked, vec!["ord1".to_string()]);
        ed.set_server(&"ord1".to_string(), true);
        assert_eq!(ed.blocked.len(), 1);
        ed.clear();
        assert_eq!(ed.blocked_count(&servers), 0);
        ed.set_server(&"ams1".to_string(), true);
    }
    app.save_preset();
    assert!(app.preset_editor.is_none());
    assert_eq!(app.config.presets.len(), 2);
    assert_eq!(app.config.presets[1].name, "Asia");
    assert_eq!(app.config.presets[1].blocked, vec!["ams1".to_string()]);
    app.open_preset_editor(Some(0));
    assert_eq!(app.preset_editor.as_ref().unwrap().name, "أوروبا");
    app.preset_editor.as_mut().unwrap().name = "EU".into();
    app.save_preset();
    assert_eq!(app.config.presets[0].name, "EU");
    assert_eq!(app.config.presets.len(), 2);
    app.open_preset_editor(Some(1));
    app.delete_preset();
    assert_eq!(app.config.presets.len(), 1);
    let blank = { app.open_preset_editor(None); app.preset_editor.as_mut().unwrap().name = "   ".into(); app.preset_editor.as_ref().unwrap().can_continue() };
    assert!(!blank);
}

#[test]
fn editor_steps_and_closing() {
    let mut app = app();
    app.open_preset_editor(None);
    {
        let ed = app.preset_editor.as_mut().unwrap();
        assert!(!ed.next_step());
        assert_eq!(ed.step, 0);
        ed.name = "Asia".into();
        assert!(ed.next_step());
        assert_eq!(ed.step, 1);
        ed.back_step();
        assert_eq!(ed.step, 0);
        ed.toggle_listening();
        assert!(ed.listening);
        ed.capture_key("F3".into());
        assert_eq!(ed.key.as_deref(), Some("F3"));
        ed.clear_key();
        assert!(ed.key.is_none());
    }
    // dismissed while a key was awaited: the window stays
    app.dismiss_preset_editor(true);
    assert!(app.preset_editor.is_some());
    app.dismiss_preset_editor(false);
    assert!(app.preset_editor.is_none());
    app.open_preset_editor(Some(0));
    app.cancel_preset_editor();
    assert!(app.preset_editor.is_none());
    assert_eq!(app.config.presets.len(), 1);
}
