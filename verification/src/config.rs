//! Persistent settings and the cached server list.

use vstd::prelude::*;
use vstd::string::*;
use crate::selection::{KnownServer, ServerSelection};

verus! {

/// Views of the launcher window, in rail order.
pub const VIEW_MAP: usize = 0;
pub const VIEW_GAMES: usize = 1;
pub const VIEW_NEWS: usize = 2;
pub const VIEW_LOG: usize = 3;
pub const VIEW_HELP: usize = 4;
pub const VIEW_OPTIONS: usize = 5;

/// Colour theme.
#[derive(Clone, Copy, PartialEq, Eq, Structural, Debug)]
pub enum Theme {
    Dark,
    Light,
}

/// The theme used when neither the settings nor the system name one.
pub open spec fn default_theme() -> Theme {
    Theme::Dark
}

/// The theme in effect: the configured one, else the system's, else the default.
pub fn resolve_theme(configured: Option<Theme>, system: Option<Theme>) -> (t: Theme)
    ensures
        t == (match configured {
            Some(c) => c,
            None => match system {
                Some(s) => s,
                None => default_theme(),
            },
        }),
{
    match configured {
        Some(c) => c,
        None => match system {
            Some(s) => s,
            None => Theme::Dark,
        },
    }
}

/// A shortcut: a set of servers blocked with one click (or key). Servers are kept by
/// token, not by slot, so a shortcut stays right when the list is renumbered.
pub struct Preset {
    pub name: String,
    /// Name of the keyboard key that applies the shortcut.
    pub key: Option<String>,
    /// Tokens of the servers the shortcut blocks.
    pub blocked: Vec<String>,
}

impl Clone for Preset {
    fn clone(&self) -> (res: Self)
        ensures
            res.name@ == self.name@,
            res.key == self.key,
            res.blocked@ == self.blocked@,
    {
        Preset { name: self.name.clone(), key: self.key.clone(), blocked: self.blocked.clone() }
    }
}

/// The shortcuts of a first start: one, "Europe" (key F1), which blocks the Saudi
/// server only.
pub open spec fn is_default_presets(ps: Seq<Preset>) -> bool {
    &&& ps.len() == 1
    &&& ps[0].name@ == "أوروبا"@
    &&& (ps[0].key matches Some(k) && k@ == "F1"@)
    &&& ps[0].blocked@.len() == 1
    &&& ps[0].blocked@[0]@ == "gmec2"@
}

/// The shortcuts of a first start.
pub fn default_presets() -> (v: Vec<Preset>)
    ensures
        is_default_presets(v@),
{
    let mut blocked: Vec<String> = Vec::new();
    blocked.push(String::from_str("gmec2"));
    let mut v: Vec<Preset> = Vec::new();
    v.push(Preset { name: String::from_str("أوروبا"), key: Some(String::from_str("F1")), blocked });
    v
}

/// Settings kept between runs.
pub struct DropshipConfig {
    pub welcomed: bool,
    pub always_show_welcome: bool,
    /// Servers the user wants blocked.
    pub desired_blocked_servers: ServerSelection,
    /// Servers the firewall blocks now.
    pub blocked_servers: ServerSelection,
    /// Game executables the rules apply to; `None` until they are known.
    pub known_paths: Option<Vec<String>>,
    pub starting_tab: usize,
    /// `None` follows the system theme.
    pub theme: Option<Theme>,
    pub mini: bool,
    /// Blocks hold only while the program runs.
    pub wfp_dynamic_session: bool,
    pub disable_background_image: bool,
    /// The user has seen the guided tour.
    pub toured: bool,
    /// The server list is ordered by latency.
    pub sort_by_ping: bool,
    pub presets: Vec<Preset>,
}

impl DropshipConfig {
    /// The settings of a first start.
    pub open spec fn is_fresh(&self) -> bool {
        &&& !self.welcomed
        &&& !self.always_show_welcome
        &&& self.desired_blocked_servers@ == Set::<u8>::empty()
        &&& self.blocked_servers@ == Set::<u8>::empty()
        &&& self.known_paths is None
        &&& self.starting_tab == 0
        &&& self.theme is None
        &&& !self.mini
        &&& !self.wfp_dynamic_session
        &&& !self.disable_background_image
        &&& !self.toured
        &&& !self.sort_by_ping
        &&& is_default_presets(self.presets@)
    }
}

impl Default for DropshipConfig {
    fn default() -> (c: Self)
        ensures
            c.is_fresh(),
    {
        DropshipConfig {
            welcomed: false,
            always_show_welcome: false,
            desired_blocked_servers: ServerSelection::none(),
            blocked_servers: ServerSelection::none(),
            known_paths: None,
            starting_tab: 0,
            theme: None,
            mini: false,
            wfp_dynamic_session: false,
            disable_background_image: false,
            toured: false,
            sort_by_ping: false,
            presets: default_presets(),
        }
    }
}

/// A news item of the server list.
pub struct Notice {
    pub title: String,
    pub date: String,
    pub paragraph: String,
}

/// Server lists per game.
pub struct ServerLists {
    pub overwatch: Vec<KnownServer>,
}

/// What the server list service answers.
pub struct DropshipApiData {
    pub servers: ServerLists,
    pub notices: Vec<Notice>,
}

/// The last server list received, kept between runs.
pub struct ApiCache {
    pub cached_api_data: Option<DropshipApiData>,
}

/// The servers of a cache.
pub open spec fn cached_servers(cache: Option<ApiCache>) -> Seq<KnownServer> {
    match cache {
        Some(c) => match c.cached_api_data {
            Some(d) => d.servers.overwatch@,
            None => Seq::empty(),
        },
        None => Seq::empty(),
    }
}

} // verus!
