//! The window's flow: start-up, the welcome pages, the guided tour, keyboard
//! shortcuts, the update and suggestion dialogs, and what the options page does.

use vstd::prelude::*;
use crate::selection::{all_wf, KnownServer, ServerSelection};
use crate::config::{cached_servers, ApiCache, DropshipConfig, Theme, VIEW_GAMES, VIEW_HELP, VIEW_LOG, VIEW_MAP, VIEW_NEWS, VIEW_OPTIONS};
use crate::pings::PingTable;
use crate::state::{in_selection, TemplateApp, UpdatingStatus};
use crate::text::{has_prefix, starts_with};

verus! {

/// Number of steps of the guided tour.
pub const TOUR_LEN: usize = 14;

/// Key of the element that tour step `i` points at.
pub open spec fn tour_key(i: int) -> Seq<char> {
    if i == 0 {
        "map"@
    } else if i == 1 {
        "servers"@
    } else if i == 2 {
        "presets"@
    } else if i == 3 {
        "route"@
    } else if i == 4 {
        "mini"@
    } else if i == 5 {
        "disable"@
    } else if i == 6 {
        "stars"@
    } else if i == 7 {
        "games"@
    } else if i == 8 {
        "tab_notices"@
    } else if i == 9 {
        "tab_log"@
    } else if i == 10 {
        "tab_help"@
    } else if i == 11 {
        "tab_options"@
    } else if i == 12 {
        "status"@
    } else {
        "footer"@
    }
}

/// The view tour step `i` switches to, if any.
pub open spec fn tour_tab(i: int) -> Option<usize> {
    if 0 <= i <= 5 {
        Some(VIEW_MAP)
    } else if i == 7 {
        Some(VIEW_GAMES)
    } else if i == 8 {
        Some(VIEW_NEWS)
    } else if i == 9 {
        Some(VIEW_LOG)
    } else if i == 10 {
        Some(VIEW_HELP)
    } else if i == 11 {
        Some(VIEW_OPTIONS)
    } else {
        None
    }
}

fn tour_key_str(i: usize) -> (s: &'static str)
    requires
        i < TOUR_LEN,
    ensures
        s@ == tour_key(i as int),
{
    match i {
        0 => "map",
        1 => "servers",
        2 => "presets",
        3 => "route",
        4 => "mini",
        5 => "disable",
        6 => "stars",
        7 => "games",
        8 => "tab_notices",
        9 => "tab_log",
        10 => "tab_help",
        11 => "tab_options",
        12 => "status",
        _ => "footer",
    }
}

fn tour_tab_of(i: usize) -> (t: Option<usize>)
    ensures
        t == tour_tab(i as int),
{
    if i <= 5 {
        Some(VIEW_MAP)
    } else if i == 7 {
        Some(VIEW_GAMES)
    } else if i == 8 {
        Some(VIEW_NEWS)
    } else if i == 9 {
        Some(VIEW_LOG)
    } else if i == 10 {
        Some(VIEW_HELP)
    } else if i == 11 {
        Some(VIEW_OPTIONS)
    } else {
        None
    }
}

/// A move in the guided tour.
#[derive(Clone, Copy, PartialEq, Eq, Structural, Debug)]
pub enum TourMove {
    /// Enter, the left arrow or the next button.
    Next,
    /// The right arrow or the back button.
    Back,
    /// The skip button.
    Skip,
}

/// The tour step a move leads to from `step` (`None`: the tour ends), or no change.
pub open spec fn tour_after(step: int, m: TourMove) -> Option<Option<usize>> {
    match m {
        TourMove::Next => if step + 1 >= TOUR_LEN {
            Some(None)
        } else {
            Some(Some((step + 1) as usize))
        },
        TourMove::Back => if step > 0 {
            Some(Some((step - 1) as usize))
        } else {
            None
        },
        TourMove::Skip => Some(None),
    }
}

fn tour_after_exec(step: usize, m: TourMove) -> (r: Option<Option<usize>>)
    requires
        step < TOUR_LEN,
    ensures
        r == tour_after(step as int, m),
{
    match m {
        TourMove::Next => if step + 1 >= TOUR_LEN {
            Some(None)
        } else {
            Some(Some(step + 1))
        },
        TourMove::Back => if step > 0 {
            Some(Some(step - 1))
        } else {
            None
        },
        TourMove::Skip => Some(None),
    }
}

/// Index of the last welcome page.
pub const LAST_WELCOME_PAGE: u8 = 2;

/// The welcome page after the next button (the last page has none).
pub open spec fn page_after_next(page: Option<u8>) -> Option<u8> {
    match page {
        Some(p) => if p < LAST_WELCOME_PAGE {
            Some((p + 1) as u8)
        } else {
            Some(p)
        },
        None => None,
    }
}

/// The welcome page after the back button (the first page has none).
pub open spec fn page_after_back(page: Option<u8>) -> Option<u8> {
    match page {
        Some(p) => if p > 0 {
            Some((p - 1) as u8)
        } else {
            Some(p)
        },
        None => None,
    }
}

/// Number keys and M pressed in a frame.
#[derive(Clone, Copy)]
pub struct NavKeys {
    pub num1: bool,
    pub num2: bool,
    pub num3: bool,
    pub num4: bool,
    pub m: bool,
}

/// The view a frame's keys switch to: 1 news, 2 log, 3 help, 4 options, M map (the
/// first of them that is pressed).
pub open spec fn nav_tab(k: NavKeys) -> Option<usize> {
    if k.num1 {
        Some(VIEW_NEWS)
    } else if k.num2 {
        Some(VIEW_LOG)
    } else if k.num3 {
        Some(VIEW_HELP)
    } else if k.num4 {
        Some(VIEW_OPTIONS)
    } else if k.m {
        Some(VIEW_MAP)
    } else {
        None
    }
}

/// State of the filter chip in the top bar.
#[derive(Clone, Copy, PartialEq, Eq, Structural, Debug)]
pub enum FilterState {
    /// Applied, with servers blocked.
    Active,
    /// Applied, nothing blocked.
    Stopped,
    /// Not applied yet; the game is open.
    WaitingForGame,
    /// Not applied yet.
    NotApplied,
}

/// The filter chip's state.
pub open spec fn filter_state_of(applied: bool, any_blocked: bool, game_open: bool) -> FilterState {
    if applied {
        if any_blocked {
            FilterState::Active
        } else {
            FilterState::Stopped
        }
    } else if game_open {
        FilterState::WaitingForGame
    } else {
        FilterState::NotApplied
    }
}

/// Servers whose address ranges change often: their token begins with `g`.
pub open spec fn volatile_token(token: Seq<char>) -> bool {
    has_prefix(token, "g"@)
}

/// The addresses to probe at start-up: (ping address, blocks) of each cached server.
pub fn startup_pings(cache: &Option<ApiCache>) -> (r: Vec<(String, String)>)
    ensures
        r@.len() == cached_servers(*cache).len(),
        forall|i: int| #![trigger r@[i]] 0 <= i < r@.len() ==> r@[i].0@ == cached_servers(*cache)[i].ping@
            && r@[i].1@ == cached_servers(*cache)[i].block@,
{
    let mut r: Vec<(String, String)> = Vec::new();
    match cache {
        Some(c) => match &c.cached_api_data {
            Some(d) => {
                let servers = &d.servers.overwatch;
                let mut k: usize = 0;
                while k < servers.len()
                    invariant
                        k <= servers.len(),
                        servers@ == cached_servers(*cache),
                        r@.len() == k,
                        forall|i: int| #![trigger r@[i]] 0 <= i < k ==> r@[i].0@ == servers@[i].ping@ && r@[i].1@ == servers@[i].block@,
                    decreases servers.len() - k,
                {
                    r.push((servers[k].ping.clone(), servers[k].block.clone()));
                    k = k + 1;
                }
            },
            None => {},
        },
        None => {},
    }
    r
}

impl TemplateApp {
    /// The state at start-up, from the saved settings and server list: the welcome
    /// pages for a new user (or when asked for always), otherwise the guided tour for
    /// a user who has not seen it; the saved starting view; and, when blocks hold
    /// only while the program runs, nothing counted as blocked yet.
    pub fn new(config: DropshipConfig, cache: Option<ApiCache>) -> (app: Self)
        ensures
            app.cache == cache,
            app.modal_welcome_page == (if !config.welcomed || config.always_show_welcome {
                Some(0u8)
            } else {
                None
            }),
            app.tour == (if (!config.welcomed || config.always_show_welcome) || config.toured {
                None
            } else {
                Some(0usize)
            }),
            app.config.mini == (if app.tour is Some {
                false
            } else {
                config.mini
            }),
            app.tab == (if config.starting_tab < VIEW_OPTIONS {
                config.starting_tab
            } else {
                VIEW_OPTIONS
            }),
            app.config.blocked_servers@ == (if config.wfp_dynamic_session {
                Set::<u8>::empty()
            } else {
                config.blocked_servers@
            }),
            app.config == (DropshipConfig {
                mini: app.config.mini,
                blocked_servers: app.config.blocked_servers,
                known_paths: app.config.known_paths,
                ..config
            }),
            match config.known_paths {
                Some(v) => app.config.known_paths matches Some(w) && (forall|i: int| 0 <= i < v@.len() ==> path_views(w@).contains(
                    #[trigger] v@[i]@,
                )) && (forall|i: int| 0 <= i < w@.len() ==> path_views(v@).contains(#[trigger] w@[i]@)),
                None => app.config.known_paths is None,
            },
            app.paths_wf(),
            app.pings@ == Map::<Seq<char>, Result<u32, Seq<char>>>::empty(),
            !app.game_open,
            app.update_available is None,
            app.installing_status is NotActive,
            !app.hide_update,
            !app.pending_firewall_sync_when_game_is_closed,
            !app.export_ips_modal,
            app.preset_editor is None,
            app.modal_manage_path is None,
            app.suggesting_path is None,
            app.denied_paths@.len() == 0,
            app.hover_server is None,
            !app.restart_requested,
    {
        let show_welcome = !config.welcomed || config.always_show_welcome;
        let start_tour = !show_welcome && !config.toured;
        let tab = if config.starting_tab < VIEW_OPTIONS {
            config.starting_tab
        } else {
            VIEW_OPTIONS
        };
        let mut config = config;
        if start_tour {
            config.mini = false;
        }
        if config.wfp_dynamic_session {
            config.blocked_servers = ServerSelection::none();
        }
        config.known_paths = match config.known_paths.take() {
            Some(v) => Some(dedup_paths(v)),
            None => None,
        };
        TemplateApp {
            config,
            cache,
            game_open: false,
            pings: PingTable::new(),
            update_available: None,
            installing_status: UpdatingStatus::NotActive,
            hide_update: false,
            tab,
            tour: if start_tour {
                Some(0)
            } else {
                None
            },
            modal_welcome_page: if show_welcome {
                Some(0)
            } else {
                None
            },
            pending_firewall_sync_when_game_is_closed: false,
            export_ips_modal: false,
            preset_editor: None,
            modal_manage_path: None,
            suggesting_path: None,
            denied_paths: Vec::new(),
            hover_server: None,
            restart_requested: false,
        }
    }

    /// Starts the guided tour from its first step (it needs the full window).
    pub fn start_tour(&mut self)
        ensures
            *final(self) == (TemplateApp {
                config: DropshipConfig { mini: false, ..old(self).config },
                tour: Some(0usize),
                ..*old(self)
            }),
    {
        self.config.mini = false;
        self.tour = Some(0);
    }

    /// Shows tour step `step`: switches to its view and gives the key of the element
    /// it points at. Past the last step the tour ends and counts as seen.
    pub fn tour_enter(&mut self, step: usize) -> (key: Option<&'static str>)
        ensures
            step >= TOUR_LEN ==> key is None && *final(self) == (TemplateApp {
                tour: None,
                config: DropshipConfig { toured: true, ..old(self).config },
                ..*old(self)
            }),
            step < TOUR_LEN ==> (key matches Some(k) && k@ == tour_key(step as int)) && *final(self) == (
            TemplateApp {
                tab: match tour_tab(step as int) {
                    Some(t) => t,
                    None => old(self).tab,
                },
                ..*old(self)
            }),
    {
        if step >= TOUR_LEN {
            self.tour = None;
            self.config.toured = true;
            return None;
        }
        match tour_tab_of(step) {
            Some(t) => self.tab = t,
            None => {},
        }
        Some(tour_key_str(step))
    }

    /// A move in the guided tour from step `step`. Ending it counts the tour as seen.
    pub fn tour_move(&mut self, step: usize, m: TourMove)
        requires
            step < TOUR_LEN,
        ensures
            match tour_after(step as int, m) {
                Some(next) => final(self).tour == next && final(self).config.toured == (next is None || old(self).config.toured),
                None => final(self).tour == old(self).tour && final(self).config.toured == old(self).config.toured,
            },
            *final(self) == (TemplateApp {
                tour: final(self).tour,
                config: DropshipConfig { toured: final(self).config.toured, ..old(self).config },
                ..*old(self)
            }),
    {
        let next = tour_after_exec(step, m);
        match next {
            Some(n) => {
                self.tour = n;
                if n.is_none() {
                    self.config.toured = true;
                }
            },
            None => {},
        }
    }

    /// Whether the update dialog is shown: an update is available and not dismissed.
    pub fn should_show_update_modal(&self) -> (r: bool)
        ensures
            r == (self.update_available is Some && !self.hide_update),
    {
        match &self.update_available {
            Some(_) => !self.hide_update,
            None => false,
        }
    }

    /// The update dialog was closed: it stays hidden, unless a download is running.
    pub fn close_update_modal(&mut self)
        ensures
            *final(self) == (if old(self).installing_status is Downloading {
                *old(self)
            } else {
                TemplateApp { hide_update: true, ..*old(self) }
            }),
    {
        match self.installing_status {
            UpdatingStatus::Downloading => {},
            _ => self.hide_update = true,
        }
    }

    /// Escape was pressed. During the tour it only ends the tour (counted as seen);
    /// otherwise, when no popup or dialog is open, it asks to close the window.
    pub fn on_escape(&mut self, any_popup_open: bool) -> (close: bool)
        ensures
            old(self).tour is Some ==> !close && *final(self) == (TemplateApp {
                tour: None,
                config: DropshipConfig { toured: true, ..old(self).config },
                ..*old(self)
            }),
            old(self).tour is None ==> *final(self) == *old(self) && close == (!any_popup_open
                && !old(self).export_ips_modal && old(self).preset_editor is None
                && old(self).modal_welcome_page is None && !(old(self).update_available is Some
                && !old(self).hide_update) && old(self).modal_manage_path is None),
    {
        if self.tour.is_some() {
            self.tour = None;
            self.config.toured = true;
            return false;
        }
        !any_popup_open && !self.export_ips_modal && self.preset_editor.is_none()
            && self.modal_welcome_page.is_none() && !self.should_show_update_modal()
            && self.modal_manage_path.is_none()
    }

    /// Whether keyboard shortcuts apply: not while typing, during the tour or in the
    /// shortcut window.
    pub fn shortcuts_enabled(&self, text_edit_focused: bool) -> (r: bool)
        ensures
            r == (!text_edit_focused && self.tour is None && self.preset_editor is None),
    {
        !text_edit_focused && self.tour.is_none() && self.preset_editor.is_none()
    }

    /// The first shortcut whose key is among the keys pressed in a frame.
    pub fn preset_for_keys(&self, pressed: &Vec<String>) -> (r: Option<usize>)
        ensures
            match r {
                Some(p) => p < self.config.presets@.len() && key_pressed(self.config.presets@[p as int].key, pressed@)
                    && forall|q: int| 0 <= q < p ==> !key_pressed(#[trigger] self.config.presets@[q].key, pressed@),
                None => forall|q: int| 0 <= q < self.config.presets@.len() ==> !key_pressed(#[trigger] self.config.presets@[q].key, pressed@),
            },
    {
        let mut p: usize = 0;
        while p < self.config.presets.len()
            invariant
                p <= self.config.presets@.len(),
                forall|q: int| 0 <= q < p ==> !key_pressed(#[trigger] self.config.presets@[q].key, pressed@),
            decreases self.config.presets.len() - p,
        {
            match &self.config.presets[p].key {
                Some(k) => {
                    if contains_string(pressed, k) {
                        return Some(p);
                    }
                },
                None => {},
            }
            p = p + 1;
        }
        None
    }

    /// Moves to the next welcome page (from the first two).
    pub fn welcome_next(&mut self)
        ensures
            *final(self) == (TemplateApp { modal_welcome_page: page_after_next(old(self).modal_welcome_page), ..*old(self) }),
    {
        match self.modal_welcome_page {
            Some(p) => if p < LAST_WELCOME_PAGE {
                self.modal_welcome_page = Some(p + 1);
            },
            None => {},
        }
    }

    /// Moves to the previous welcome page.
    pub fn welcome_back(&mut self)
        ensures
            *final(self) == (TemplateApp { modal_welcome_page: page_after_back(old(self).modal_welcome_page), ..*old(self) }),
    {
        match self.modal_welcome_page {
            Some(p) => if p > 0 {
                self.modal_welcome_page = Some(p - 1);
            },
            None => {},
        }
    }

    /// The start button of the last welcome page: once the server list is known, the
    /// user counts as welcomed, the pages close and the tour starts if not yet seen.
    pub fn welcome_finish(&mut self) -> (started: bool)
        ensures
            started == (old(self).servers().len() > 0),
            !started ==> *final(self) == *old(self),
            started ==> *final(self) == (TemplateApp {
                modal_welcome_page: None,
                tour: if old(self).config.toured {
                    old(self).tour
                } else {
                    Some(0usize)
                },
                config: DropshipConfig {
                    welcomed: true,
                    mini: if old(self).config.toured {
                        old(self).config.mini
                    } else {
                        false
                    },
                    ..old(self).config
                },
                ..*old(self)
            }),
    {
        if self.known_servers().len() == 0 {
            return false;
        }
        self.config.welcomed = true;
        self.modal_welcome_page = None;
        if !self.config.toured {
            self.start_tour();
        }
        true
    }

    /// The welcome pages were dismissed: they close unless the user was never
    /// welcomed (a new user has to go through them).
    pub fn welcome_dismiss(&mut self)
        ensures
            *final(self) == (if old(self).config.welcomed {
                TemplateApp { modal_welcome_page: None, ..*old(self) }
            } else {
                *old(self)
            }),
    {
        if self.config.welcomed {
            self.modal_welcome_page = None;
        }
    }

    /// The suggestion of a newly seen game closed; `denied`: the user declined it,
    /// so it is not suggested again (it joins the declined paths once).
    pub fn close_suggestion(&mut self, denied: bool)
        ensures
            *final(self) == (TemplateApp { suggesting_path: None, denied_paths: final(self).denied_paths, ..*old(self) }),
            final(self).denied_paths@ == match old(self).suggesting_path {
                Some(s) => if denied && !old(self).denied_paths@.map_values(|p: String| p@).contains(s@) {
                    old(self).denied_paths@.push(s)
                } else {
                    old(self).denied_paths@
                },
                None => old(self).denied_paths@,
            },
            old(self).paths_wf() ==> final(self).paths_wf(),
    {
        if denied {
            match self.suggesting_path.take() {
                Some(p) => {
                    if !contains_string(&self.denied_paths, &p) {
                        let ghost before = self.denied_paths@;
                        self.denied_paths.push(p);
                        proof {
                            assert forall|i: int| 0 <= i < before.len() implies before[i]@ != p@ by {
                                assert(before.map_values(|q: String| q@)[i] == before[i]@);
                            }
                        }
                    }
                },
                None => {},
            }
        }
        self.suggesting_path = None;
    }

    /// "Forget this file" in the dialog of a game executable: the path leaves the
    /// known paths and the dialog closes. Each path stays listed at most once.
    pub fn forget_path(&mut self, path: &String)
        ensures
            match old(self).config.known_paths {
                Some(v) => final(self).config.known_paths matches Some(w) && w@ == v@.filter(other_path(path@)),
                None => final(self).config.known_paths is None,
            },
            *final(self) == (TemplateApp {
                config: DropshipConfig { known_paths: final(self).config.known_paths, ..old(self).config },
                modal_manage_path: None,
                ..*old(self)
            }),
            old(self).paths_wf() ==> final(self).paths_wf(),
    {
        match self.config.known_paths.take() {
            Some(v) => {
                let w = without_path(&v, path);
                self.config.known_paths = Some(w);
            },
            None => {},
        }
        self.modal_manage_path = None;
    }

    /// A listed game executable was clicked: its dialog opens.
    pub fn open_path_dialog(&mut self, path: String)
        ensures
            *final(self) == (TemplateApp { modal_manage_path: Some(path), ..*old(self) }),
    {
        self.modal_manage_path = Some(path);
    }

    /// The dialog of a game executable closes (dismissed, or after "open the file's
    /// location").
    pub fn close_path_dialog(&mut self)
        ensures
            *final(self) == (TemplateApp { modal_manage_path: None, ..*old(self) }),
    {
        self.modal_manage_path = None;
    }

    /// "Add" in the suggestion of a newly seen game: the suggestion closes and the
    /// suggested path is handed back, to be added.
    pub fn accept_suggestion(&mut self) -> (path: Option<String>)
        ensures
            path == old(self).suggesting_path,
            *final(self) == (TemplateApp { suggesting_path: None, ..*old(self) }),
    {
        self.suggesting_path.take()
    }

    /// "Run the new version" once an update is installed: a restart is requested and
    /// the window is to close. Otherwise nothing happens.
    pub fn launch_installed_update(&mut self) -> (close: bool)
        ensures
            close == (old(self).installing_status is Installed),
            *final(self) == (if close {
                TemplateApp { restart_requested: true, ..*old(self) }
            } else {
                *old(self)
            }),
    {
        match self.installing_status {
            UpdatingStatus::Installed => {
                self.restart_requested = true;
                true
            },
            _ => false,
        }
    }

    /// Clears the cache: default settings, no server list.
    pub fn clear_cache(&mut self)
        ensures
            final(self).config.is_fresh(),
            final(self).cache is None,
            *final(self) == (TemplateApp { config: final(self).config, cache: None, ..*old(self) }),
    {
        self.config = DropshipConfig::default();
        self.cache = None;
    }

    /// The option "open the log at start".
    pub fn set_open_log_at_start(&mut self, on: bool)
        ensures
            *final(self) == (TemplateApp {
                config: DropshipConfig {
                    starting_tab: if on {
                        VIEW_LOG
                    } else {
                        VIEW_MAP
                    },
                    ..old(self).config
                },
                ..*old(self)
            }),
    {
        self.config.starting_tab = if on {
            VIEW_LOG
        } else {
            VIEW_MAP
        };
    }

    /// The address ranges of the servers the user blocks, in list order (what the
    /// export dialog lists).
    pub fn exported_ips(&self) -> (r: Vec<String>)
        requires
            self.wf(),
        ensures
            r@.map_values(|b: String| b@) == self.servers().filter(in_selection(self.config.desired_blocked_servers@)).map_values(
                |s: KnownServer| s.block@,
            ),
    {
        let servers = self.known_servers();
        let ghost keep = in_selection(self.config.desired_blocked_servers@);
        let mut r: Vec<String> = Vec::new();
        let mut k: usize = 0;
        while k < servers.len()
            invariant
                k <= servers.len(),
                servers@ == self.servers(),
                all_wf(servers@),
                keep == in_selection(self.config.desired_blocked_servers@),
                r@.map_values(|b: String| b@) == servers@.take(k as int).filter(keep).map_values(|s: KnownServer| s.block@),
            decreases servers.len() - k,
        {
            let s = &servers[k];
            proof {
                assert(servers@.take(k + 1) =~= servers@.take(k as int).push(*s));
                servers@.take(k as int).lemma_filter_push(*s, keep);
                assert(s.wf());
            }
            let ghost before = r@;
            if self.config.desired_blocked_servers.has(s) {
                r.push(s.block.clone());
                assert(r@.map_values(|b: String| b@) =~= before.map_values(|b: String| b@).push(s.block@));
                assert(servers@.take(k as int).filter(keep).push(*s).map_values(|s: KnownServer| s.block@)
                    =~= servers@.take(k as int).filter(keep).map_values(|s: KnownServer| s.block@).push(s.block@));
            }
            k = k + 1;
        }
        assert(servers@.take(servers@.len() as int) =~= servers@);
        r
    }

    /// The first server the firewall blocks whose address ranges change often (its
    /// token begins with `g`): blocking it by hand is a poor idea.
    pub fn volatile_blocked_server(&self) -> (r: Option<usize>)
        requires
            self.wf(),
        ensures
            match r {
                Some(i) => i < self.servers().len() && self.config.blocked_servers@.contains(self.servers()[i as int].bit)
                    && volatile_token(self.servers()[i as int].token@) && forall|j: int| 0 <= j < i ==> !(
                self.config.blocked_servers@.contains(#[trigger] self.servers()[j].bit) && volatile_token(self.servers()[j].token@)),
                None => forall|j: int| 0 <= j < self.servers().len() ==> !(self.config.blocked_servers@.contains(
                    #[trigger] self.servers()[j].bit,
                ) && volatile_token(self.servers()[j].token@)),
            },
    {
        let servers = self.known_servers();
        let mut k: usize = 0;
        while k < servers.len()
            invariant
                k <= servers.len(),
                servers@ == self.servers(),
                all_wf(servers@),
                forall|j: int| 0 <= j < k ==> !(self.config.blocked_servers@.contains(#[trigger] servers@[j].bit) && volatile_token(servers@[j].token@)),
            decreases servers.len() - k,
        {
            proof {
                assert(servers@[k as int].wf());
            }
            if self.config.blocked_servers.has(&servers[k]) && starts_with(servers[k].token.as_str(), "g") {
                return Some(k);
            }
            k = k + 1;
        }
        None
    }

    /// Whether the firewall applies what the user wants.
    pub fn selection_applied(&self) -> (r: bool)
        ensures
            r == (self.config.desired_blocked_servers@ == self.config.blocked_servers@),
    {
        self.config.desired_blocked_servers.same_as(&self.config.blocked_servers)
    }

    /// The filter chip's state.
    pub fn filter_state(&self) -> (s: FilterState)
        requires
            self.wf(),
        ensures
            s == filter_state_of(
                self.config.desired_blocked_servers@ == self.config.blocked_servers@,
                self.servers().filter(in_selection(self.config.desired_blocked_servers@)).len() > 0,
                self.game_open,
            ),
    {
        let applied = self.selection_applied();
        let ips = self.exported_ips();
        let any_blocked = ips.len() > 0;
        proof {
            let f = self.servers().filter(in_selection(self.config.desired_blocked_servers@));
            assert(ips@.map_values(|b: String| b@).len() == f.map_values(|s: KnownServer| s.block@).len());
        }
        if applied {
            if any_blocked {
                FilterState::Active
            } else {
                FilterState::Stopped
            }
        } else if self.game_open {
            FilterState::WaitingForGame
        } else {
            FilterState::NotApplied
        }
    }
}


impl TemplateApp {
    /// Whether the user blocks server `s`, and whether that still waits to be applied.
    pub fn server_state(&self, s: &KnownServer) -> (r: (bool, bool))
        requires
            s.wf(),
        ensures
            r.0 == self.config.desired_blocked_servers@.contains(s.bit),
            r.1 == (self.config.desired_blocked_servers@.contains(s.bit) != self.config.blocked_servers@.contains(s.bit)),
    {
        let blocked = self.config.desired_blocked_servers.has(s);
        let actual = self.config.blocked_servers.has(s);
        (blocked, blocked != actual)
    }

    /// Titles of the servers the user blocks, in list order.
    pub fn blocked_titles(&self) -> (r: Vec<String>)
        requires
            self.wf(),
        ensures
            r@.map_values(|t: String| t@) == self.servers().filter(in_selection(self.config.desired_blocked_servers@)).map_values(
                |s: KnownServer| s.title@,
            ),
    {
        let servers = self.known_servers();
        let ghost keep = in_selection(self.config.desired_blocked_servers@);
        let mut r: Vec<String> = Vec::new();
        let mut k: usize = 0;
        while k < servers.len()
            invariant
                k <= servers.len(),
                servers@ == self.servers(),
                all_wf(servers@),
                keep == in_selection(self.config.desired_blocked_servers@),
                r@.map_values(|t: String| t@) == servers@.take(k as int).filter(keep).map_values(|s: KnownServer| s.title@),
            decreases servers.len() - k,
        {
            let s = &servers[k];
            proof {
                assert(servers@.take(k + 1) =~= servers@.take(k as int).push(*s));
                servers@.take(k as int).lemma_filter_push(*s, keep);
                assert(s.wf());
            }
            let ghost before = r@;
            if self.config.desired_blocked_servers.has(s) {
                r.push(s.title.clone());
                assert(r@.map_values(|t: String| t@) =~= before.map_values(|t: String| t@).push(s.title@));
                assert(servers@.take(k as int).filter(keep).push(*s).map_values(|s: KnownServer| s.title@)
                    =~= servers@.take(k as int).filter(keep).map_values(|s: KnownServer| s.title@).push(s.title@));
            }
            k = k + 1;
        }
        assert(servers@.take(servers@.len() as int) =~= servers@);
        r
    }
}

/// The order in which map markers are drawn: those with priority (the best server,
/// the one under the pointer) first, each group in list order.
pub fn draw_order(priority: &Vec<bool>) -> (r: Vec<usize>)
    ensures
        r@.len() == priority@.len(),
        forall|a: int, b: int| 0 <= a < b < r@.len() ==> (priority@[r@[a] as int] && !priority@[r@[b] as int])
            || (priority@[r@[a] as int] == priority@[r@[b] as int] && r@[a] < r@[b]),
        forall|a: int| 0 <= a < r@.len() ==> r@[a] < priority@.len(),
{
    let mut first: Vec<usize> = Vec::new();
    let mut rest: Vec<usize> = Vec::new();
    let mut k: usize = 0;
    while k < priority.len()
        invariant
            k <= priority.len(),
            first@.len() + rest@.len() == k,
            forall|a: int| 0 <= a < first@.len() ==> first@[a] < k && priority@[first@[a] as int],
            forall|a: int| 0 <= a < rest@.len() ==> rest@[a] < k && !priority@[rest@[a] as int],
            forall|a: int, b: int| 0 <= a < b < first@.len() ==> first@[a] < first@[b],
            forall|a: int, b: int| 0 <= a < b < rest@.len() ==> rest@[a] < rest@[b],
        decreases priority.len() - k,
    {
        if priority[k] {
            first.push(k);
        } else {
            rest.push(k);
        }
        k = k + 1;
    }
    let ghost f = first@;
    let mut j: usize = 0;
    while j < rest.len()
        invariant
            j <= rest.len(),
            first@.len() == f.len() + j,
            first@.take(f.len() as int) == f,
            forall|a: int| 0 <= a < j ==> first@[f.len() + a] == rest@[a],
        decreases rest.len() - j,
    {
        first.push(rest[j]);
        j = j + 1;
    }
    proof {
        assert forall|a: int, b: int| 0 <= a < b < first@.len() implies (priority@[first@[a] as int] && !priority@[first@[b] as int])
            || (priority@[first@[a] as int] == priority@[first@[b] as int] && first@[a] < first@[b]) by {
            if b < f.len() {
                assert(first@[a] == f[a] && first@[b] == f[b]);
            } else if a < f.len() {
                assert(first@[a] == f[a]);
                assert(first@[b] == rest@[b - f.len()]);
            } else {
                assert(first@[a] == rest@[a - f.len()]);
                assert(first@[b] == rest@[b - f.len()]);
            }
        }
        assert forall|a: int| 0 <= a < first@.len() implies first@[a] < priority@.len() by {
            if a < f.len() {
                assert(first@[a] == f[a]);
            } else {
                assert(first@[a] == rest@[a - f.len()]);
            }
        }
    }
    first
}


impl TemplateApp {
    /// Whether every known server fits in a selection (the methods that look at
    /// selections need it).
    pub fn servers_fit(&self) -> (r: bool)
        ensures
            r == self.wf(),
    {
        let servers = self.known_servers();
        let mut k: usize = 0;
        while k < servers.len()
            invariant
                k <= servers.len(),
                servers@ == self.servers(),
                forall|i: int| 0 <= i < k ==> (#[trigger] servers@[i]).wf(),
            decreases servers.len() - k,
        {
            if servers[k].bit >= crate::selection::SLOTS {
                return false;
            }
            k = k + 1;
        }
        true
    }

    /// The status line was clicked: the log opens, in the full window.
    pub fn show_log(&mut self)
        ensures
            *final(self) == (TemplateApp {
                tab: VIEW_LOG,
                config: DropshipConfig { mini: false, ..old(self).config },
                ..*old(self)
            }),
    {
        self.tab = VIEW_LOG;
        self.config.mini = false;
    }

    /// The theme button of the rail: the other theme than the one in effect.
    pub fn flip_theme(&mut self, in_effect: Theme)
        ensures
            *final(self) == (TemplateApp {
                config: DropshipConfig {
                    theme: Some(
                        match in_effect {
                            Theme::Dark => Theme::Light,
                            Theme::Light => Theme::Dark,
                        },
                    ),
                    ..old(self).config
                },
                ..*old(self)
            }),
    {
        self.config.theme = Some(
            match in_effect {
                Theme::Dark => Theme::Light,
                Theme::Light => Theme::Dark,
            },
        );
    }

    /// The key of the first shortcut that has one (shown in the footer).
    pub fn first_preset_key(&self) -> (r: Option<&String>)
        ensures
            match r {
                Some(k) => exists|p: int| 0 <= p < self.config.presets@.len() && self.config.presets@[p].key == Some(*k)
                    && forall|q: int| 0 <= q < p ==> #[trigger] self.config.presets@[q].key is None,
                None => forall|q: int| 0 <= q < self.config.presets@.len() ==> #[trigger] self.config.presets@[q].key is None,
            },
    {
        let mut p: usize = 0;
        while p < self.config.presets.len()
            invariant
                p <= self.config.presets@.len(),
                forall|q: int| 0 <= q < p ==> #[trigger] self.config.presets@[q].key is None,
            decreases self.config.presets.len() - p,
        {
            match &self.config.presets[p].key {
                Some(k) => {
                    return Some(k);
                },
                None => {},
            }
            p = p + 1;
        }
        None
    }
}

/// Whether the map's dotted background is built this frame: the background is
/// shown and no texture has been built for the theme in effect.
pub fn world_texture_needed(background_disabled: bool, built_for: Option<Theme>, theme: Theme) -> (r: bool)
    ensures
        r == (!background_disabled && built_for != Some(theme)),
{
    if background_disabled {
        return false;
    }
    match built_for {
        Some(t) => t != theme,
        None => true,
    }
}

/// Whether the theme has to be applied again: it follows the system's, and the
/// system's changed since the last frame.
pub fn theme_needs_refresh(configured: Option<Theme>, previous_system: Option<Theme>, system: Option<Theme>) -> (r: bool)
    ensures
        r == (configured is None && system is Some && previous_system != system),
{
    match configured {
        Some(_) => false,
        None => match system {
            Some(s) => match previous_system {
                Some(p) => p != s,
                None => true,
            },
            None => false,
        },
    }
}


impl TemplateApp {
    /// The latest news item of the server list.
    pub fn latest_notice(&self) -> (r: Option<&crate::config::Notice>)
        ensures
            match self.cache {
                Some(c) => match c.cached_api_data {
                    Some(d) => if d.notices@.len() > 0 {
                        r == Some(&d.notices@.last())
                    } else {
                        r is None
                    },
                    None => r is None,
                },
                None => r is None,
            },
    {
        match &self.cache {
            Some(c) => match &c.cached_api_data {
                Some(d) => if d.notices.len() > 0 {
                    Some(&d.notices[d.notices.len() - 1])
                } else {
                    None
                },
                None => None,
            },
            None => None,
        }
    }
}

impl TemplateApp {
    /// The path lists hold each path once: the known executables and the declined
    /// suggestions stand for sets.
    pub open spec fn paths_wf(&self) -> bool {
        &&& distinct_paths(self.denied_paths@)
        &&& match self.config.known_paths {
            Some(v) => distinct_paths(v@),
            None => true,
        }
    }
}

/// Another path than `path`.
pub open spec fn other_path(path: Seq<char>) -> spec_fn(String) -> bool {
    |p: String| p@ != path
}

/// The key named `key` is among the pressed keys.
pub open spec fn key_pressed(key: Option<String>, pressed: Seq<String>) -> bool {
    match key {
        Some(k) => exists|j: int| 0 <= j < pressed.len() && pressed[j]@ == k@,
        None => false,
    }
}

/// Whether `s` is one of `v`.
pub fn contains_string(v: &Vec<String>, s: &String) -> (r: bool)
    ensures
        r == exists|j: int| 0 <= j < v@.len() && v@[j]@ == s@,
        r == v@.map_values(|p: String| p@).contains(s@),
{
    let mut j: usize = 0;
    while j < v.len()
        invariant
            j <= v.len(),
            forall|i: int| 0 <= i < j ==> v@[i]@ != s@,
        decreases v.len() - j,
    {
        if v[j] == *s {
            proof {
                assert(v@.map_values(|p: String| p@)[j as int] == s@);
            }
            return true;
        }
        j = j + 1;
    }
    proof {
        let m = v@.map_values(|p: String| p@);
        if m.contains(s@) {
            let i = choose|i: int| 0 <= i < m.len() && #[trigger] m[i] == s@;
            assert(v@[i]@ == s@);
        }
    }
    false
}

/// The view a frame's number keys and M switch to.
pub fn tab_for_keys(k: NavKeys) -> (t: Option<usize>)
    ensures
        t == nav_tab(k),
{
    if k.num1 {
        Some(VIEW_NEWS)
    } else if k.num2 {
        Some(VIEW_LOG)
    } else if k.num3 {
        Some(VIEW_HELP)
    } else if k.num4 {
        Some(VIEW_OPTIONS)
    } else if k.m {
        Some(VIEW_MAP)
    } else {
        None
    }
}

/// The paths other than `path`, in order.
fn without_path(v: &Vec<String>, path: &String) -> (w: Vec<String>)
    ensures
        w@ == v@.filter(other_path(path@)),
        distinct_paths(v@) ==> distinct_paths(w@),
{
    let ghost keep = other_path(path@);
    let mut w: Vec<String> = Vec::new();
    let mut k: usize = 0;
    while k < v.len()
        invariant
            k <= v.len(),
            keep == other_path(path@),
            w@ == v@.take(k as int).filter(keep),
        decreases v.len() - k,
    {
        proof {
            assert(v@.take(k + 1) =~= v@.take(k as int).push(v@[k as int]));
            v@.take(k as int).lemma_filter_push(v@[k as int], keep);
        }
        if v[k] != *path {
            w.push(v[k].clone());
        }
        k = k + 1;
    }
    assert(v@.take(v@.len() as int) =~= v@);
    proof {
        if distinct_paths(v@) {
            lemma_filter_distinct(v@, keep);
        }
    }
    w
}

/// No path occurs twice (the path lists stand for sets of paths).
pub open spec fn distinct_paths(v: Seq<String>) -> bool {
    forall|i: int, j: int| 0 <= i < j < v.len() ==> v[i]@ != v[j]@
}

/// The paths as texts.
pub open spec fn path_views(v: Seq<String>) -> Seq<Seq<char>> {
    v.map_values(|p: String| p@)
}

/// Keeping some of the paths keeps them distinct.
pub proof fn lemma_filter_distinct(v: Seq<String>, f: spec_fn(String) -> bool)
    requires
        distinct_paths(v),
    ensures
        distinct_paths(v.filter(f)),
    decreases v.len(),
{
    if v.len() > 0 {
        let d = v.drop_last();
        lemma_filter_distinct(d, f);
        assert(v =~= d.push(v.last()));
        d.lemma_filter_push(v.last(), f);
        if f(v.last()) {
            let fd = d.filter(f);
            let fv = v.filter(f);
            assert forall|a: int, b: int| 0 <= a < b < fv.len() implies fv[a]@ != fv[b]@ by {
                if b == fd.len() {
                    assert(fd.contains(fd[a]));
                    d.lemma_filter_contains_rev(f, fd[a]);
                    let j = choose|j: int| 0 <= j < d.len() && d[j] == fd[a];
                    assert(v[j] == d[j]);
                    assert(fv[b] == v[v.len() - 1]);
                } else {
                    assert(fv[a] == fd[a] && fv[b] == fd[b]);
                }
            }
        }
    }
}

/// The first occurrence of each path of `v`, in order.
pub open spec fn first_occurrences(v: Seq<String>) -> Seq<String>
    decreases v.len(),
{
    if v.len() == 0 {
        Seq::empty()
    } else {
        let p = first_occurrences(v.drop_last());
        if path_views(p).contains(v.last()@) {
            p
        } else {
            p.push(v.last())
        }
    }
}

/// Each path of `v` once, in the order of first occurrence.
pub fn dedup_paths(v: Vec<String>) -> (r: Vec<String>)
    ensures
        r@ == first_occurrences(v@),
        distinct_paths(r@),
        forall|i: int| 0 <= i < v@.len() ==> path_views(r@).contains(#[trigger] v@[i]@),
        forall|i: int| 0 <= i < r@.len() ==> path_views(v@).contains(#[trigger] r@[i]@),
{
    let mut r: Vec<String> = Vec::new();
    let mut k: usize = 0;
    while k < v.len()
        invariant
            k <= v.len(),
            r@ == first_occurrences(v@.take(k as int)),
            distinct_paths(r@),
            forall|i: int| 0 <= i < k ==> path_views(r@).contains(#[trigger] v@[i]@),
            forall|i: int| 0 <= i < r@.len() ==> path_views(v@).contains(#[trigger] r@[i]@),
        decreases v.len() - k,
    {
        let p = &v[k];
        assert(path_views(v@)[k as int] == p@);
        assert(v@.take(k + 1).drop_last() =~= v@.take(k as int));
        assert(v@.take(k + 1).last() == v@[k as int]);
        if !contains_string(&r, p) {
            let ghost before = r@;
            r.push(p.clone());
            proof {
                assert forall|i: int| 0 <= i < before.len() implies before[i]@ != p@ by {
                    assert(path_views(before)[i] == before[i]@);
                }
                assert forall|i: int| 0 <= i < k + 1 implies path_views(r@).contains(#[trigger] v@[i]@) by {
                    if i < k {
                        let j = choose|j: int| 0 <= j < path_views(before).len() && path_views(before)[j] == v@[i]@;
                        assert(path_views(r@)[j] == v@[i]@);
                    } else {
                        assert(path_views(r@)[before.len() as int] == v@[i]@);
                    }
                }
                assert forall|i: int| 0 <= i < r@.len() implies path_views(v@).contains(#[trigger] r@[i]@) by {
                    if i < before.len() {
                        assert(r@[i] == before[i]);
                    }
                }
            }
        }
        k = k + 1;
    }
    assert(v@.take(v@.len() as int) =~= v@);
    r
}

} // verus!
