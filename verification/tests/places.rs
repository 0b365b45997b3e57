use dropship::{
    application_type, country_row, flag, region_country, server_geo, world_texture_needed, ApplicationType, GeoRow,
    KnownServer, Theme, FLAG_ROWS,
};

fn server(token: &str, title: &str) -> KnownServer {
    KnownServer { token: token.into(), title: title.into(), ping: String::new(), block: String::new(), bit: 0 }
}

#[test]
fn geo_by_token_code() {
    assert_eq!(server_geo(&server("ams1", "Netherlands")), Some((GeoRow::Server(0), "nl")));
    assert_eq!(server_geo(&server("GMEC2", "whatever")), Some((GeoRow::Server(3), "sa")));
    assert_eq!(server_geo(&server("jnb1", "x")), Some((GeoRow::Server(36), "za")));
}

#[test]
fn geo_by_title_keyword() {
    assert_eq!(server_geo(&server("zz1", "USA - Central")), Some((GeoRow::Name(13), "us")));
    assert_eq!(server_geo(&server("zz1", "Big USA")), Some((GeoRow::Name(14), "us")));
    assert_eq!(server_geo(&server("q", "Hong Kong 2")), Some((GeoRow::Name(8), "hk")));
    assert_eq!(server_geo(&server("zz1", "Atlantis")), None);
}

#[test]
fn countries() {
    assert_eq!(country_row("SA"), Some(0));
    assert_eq!(country_row("ke"), Some(64));
    assert_eq!(country_row("Us"), Some(22));
    assert_eq!(country_row("XX"), None);
    assert_eq!(country_row(""), None);
}

#[test]
fn application_types() {
    assert_eq!(application_type(r"C:\Games\Overwatch\_retail_\Overwatch.exe"), ApplicationType::Blizzard);
    assert_eq!(application_type(r"D:\steamapps\common\Overwatch\Overwatch.exe"), ApplicationType::Valve);
    assert_eq!(application_type(r"E:\ow\Overwatch.exe"), ApplicationType::Unknown);
}

#[test]
fn flags_of_located_servers_are_embedded() {
    assert_eq!(flag("nl"), Some(0));
    assert_eq!(flag("tr"), Some(FLAG_ROWS - 1));
    assert_eq!(flag("NL"), None);
    assert_eq!(flag("xx"), None);
    for (token, title) in [("ams1", "x"), ("gmec2", "x"), ("zzz", "Bahrain"), ("zzz", "South Africa"), ("ord1", "x")] {
        let (_, f) = server_geo(&server(token, title)).expect("located");
        assert!(flag(f).is_some(), "{f}");
    }
}

#[test]
fn region_names_select_a_country() {
    let units: Vec<u16> = "sa\0".encode_utf16().collect();
    let mut buf = [0u16; 16];
    buf[..units.len()].copy_from_slice(&units);
    assert_eq!(region_country(&buf, 3), country_row("SA"));
    assert!(region_country(&buf, 3).is_some());
    assert_eq!(region_country(&buf, 1), None);
    assert_eq!(region_country(&buf, 0), None);
    let wide: Vec<u16> = "s\u{e9}\0".encode_utf16().collect();
    buf[..wide.len()].copy_from_slice(&wide);
    assert_eq!(region_country(&buf, 3), None);
}

#[test]
fn the_map_background_is_built_once_per_theme() {
    assert!(world_texture_needed(false, None, Theme::Dark));
    assert!(!world_texture_needed(false, Some(Theme::Dark), Theme::Dark));
    assert!(world_texture_needed(false, Some(Theme::Dark), Theme::Light));
    assert!(!world_texture_needed(true, None, Theme::Light));
}
