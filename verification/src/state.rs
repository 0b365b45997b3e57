//! The launcher's state and the decisions taken on it: what a click on a server
//! does, what a shortcut does, when the firewall is told, which server the player
//! most likely lands on.

use vstd::prelude::*;
use crate::selection::{all_slots, all_wf, KnownServer, ServerSelection};
use crate::config::{cached_servers, ApiCache, DropshipConfig};
use crate::editor::PresetEditor;
use crate::pings::{best_server_index, eligible, is_best, PingTable};

verus! {

/// Progress of a self-update.
pub enum UpdatingStatus {
    NotActive,
    Downloading,
    Installed,
    Failed(String),
}

/// What the firewall worker is asked to apply.
pub struct FirewallRequest {
    /// The servers to block, in list order.
    pub blocked_servers: Vec<KnownServer>,
    /// Game executables already known to the rules.
    pub already_known_paths: Vec<String>,
}

/// What becomes of a change of the wanted selection.
pub enum FirewallAction {
    /// Send this request to the firewall worker now.
    Send(FirewallRequest),
    /// The game is open: the change waits until it closes.
    WaitForGameToClose,
}

/// What a click on a server did.
pub enum ToggleOutcome {
    /// No server at that position.
    NoSuchServer,
    /// Refused: every server would be blocked.
    WouldBlockAll,
    /// The selection stayed as it was.
    Unchanged,
    /// The selection changed.
    Changed(FirewallAction),
}

/// What applying a shortcut did.
pub enum PresetOutcome {
    /// No shortcut at that position.
    NoSuchPreset,
    /// Refused: the shortcut blocks every server.
    WouldBlockAll,
    /// The selection already was the shortcut's.
    Unchanged,
    /// The selection became the shortcut's.
    Applied(FirewallAction),
}

/// The servers of a selection: a filter over a server list.
pub open spec fn in_selection(sel: Set<u8>) -> spec_fn(KnownServer) -> bool {
    |s: KnownServer| sel.contains(s.bit)
}

/// The servers outside a selection.
pub open spec fn outside_selection(sel: Set<u8>) -> spec_fn(KnownServer) -> bool {
    |s: KnownServer| !sel.contains(s.bit)
}

/// Slots of the listed servers whose token is one of `tokens`.
pub open spec fn preset_set(servers: Seq<KnownServer>, tokens: Seq<String>) -> Set<u8>
    decreases servers.len(),
{
    if servers.len() == 0 {
        Set::empty()
    } else {
        let prev = preset_set(servers.drop_last(), tokens);
        if exists|j: int| 0 <= j < tokens.len() && tokens[j]@ == servers.last().token@ {
            prev.insert(servers.last().bit)
        } else {
            prev
        }
    }
}

/// The selection a click on server `idx` leads to, or `None` when the click is
/// refused. A left click toggles the server, but the last allowed server cannot be
/// blocked. A right click keeps the server and blocks every other one; on the last
/// allowed server it does the reverse, blocking only that server.
pub open spec fn clicked_selection(servers: Seq<KnownServer>, sel: Set<u8>, idx: int, invert: bool) -> Option<Set<u8>> {
    let s = servers[idx];
    let last_allowed = !sel.contains(s.bit) && servers.filter(outside_selection(sel)).len() == 1;
    if invert {
        if last_allowed {
            Some(Set::empty().insert(s.bit))
        } else {
            Some(all_slots().remove(s.bit))
        }
    } else if last_allowed {
        None
    } else if sel.contains(s.bit) {
        Some(sel.remove(s.bit))
    } else {
        Some(sel.insert(s.bit))
    }
}

/// The launcher's state.
pub struct TemplateApp {
    pub config: DropshipConfig,
    pub cache: Option<ApiCache>,
    /// The game is running (firewall changes wait until it closes).
    pub game_open: bool,
    pub pings: PingTable,
    /// Version of an available update.
    pub update_available: Option<String>,
    pub installing_status: UpdatingStatus,
    pub hide_update: bool,
    /// Current view (see the `VIEW_*` constants).
    pub tab: usize,
    /// Current step of the guided tour.
    pub tour: Option<usize>,
    pub modal_welcome_page: Option<u8>,
    pub pending_firewall_sync_when_game_is_closed: bool,
    pub export_ips_modal: bool,
    pub preset_editor: Option<PresetEditor>,
    pub modal_manage_path: Option<String>,
    pub suggesting_path: Option<String>,
    pub denied_paths: Vec<String>,
    /// Slot of the server under the pointer.
    pub hover_server: Option<u8>,
    pub restart_requested: bool,
}

impl TemplateApp {
    /// The known servers.
    pub open spec fn servers(&self) -> Seq<KnownServer> {
        cached_servers(self.cache)
    }

    /// Every known server fits in a selection.
    pub open spec fn wf(&self) -> bool {
        all_wf(self.servers())
    }

    /// `req` is the request that applies the wanted selection.
    pub open spec fn request_matches(&self, req: FirewallRequest) -> bool {
        &&& req.blocked_servers@ == self.servers().filter(in_selection(self.config.desired_blocked_servers@))
        &&& req.already_known_paths@ == match self.config.known_paths {
            Some(p) => p@,
            None => Seq::<String>::empty(),
        }
    }

    /// `post` and `a` are what telling the firewall about the wanted selection of
    /// `self` gives: while the game is open the change is only marked as pending,
    /// otherwise a request is sent.
    pub open spec fn firewall_step(&self, post: TemplateApp, a: FirewallAction) -> bool {
        if self.game_open {
            &&& a is WaitForGameToClose
            &&& post == (TemplateApp { pending_firewall_sync_when_game_is_closed: true, ..*self })
        } else {
            &&& a matches FirewallAction::Send(req) && self.request_matches(req)
            &&& post == *self
        }
    }

    /// `post` and `req` are what the game opening (`open`) or closing gives: closing
    /// with a change pending sends it and clears the mark; otherwise only the game's
    /// state is noted.
    pub open spec fn game_step(&self, open: bool, post: TemplateApp, req: Option<FirewallRequest>) -> bool {
        if !open && self.pending_firewall_sync_when_game_is_closed {
            &&& post == (TemplateApp { game_open: false, pending_firewall_sync_when_game_is_closed: false, ..*self })
            &&& req matches Some(r) && post.request_matches(r)
        } else {
            &&& post == (TemplateApp { game_open: open, ..*self })
            &&& req is None
        }
    }

    /// `post` and `r` are what a click on server `idx` (`invert` for the right button)
    /// gives: see [`TemplateApp::toggle_server`].
    pub open spec fn toggle_step(&self, idx: usize, invert: bool, post: TemplateApp, r: ToggleOutcome) -> bool {
        &&& idx >= self.servers().len() ==> r is NoSuchServer && post == *self
        &&& idx < self.servers().len() ==> match clicked_selection(
            self.servers(),
            self.config.desired_blocked_servers@,
            idx as int,
            invert,
        ) {
            None => r is WouldBlockAll && post == *self,
            Some(n) => if n == self.config.desired_blocked_servers@ {
                r is Unchanged && post == *self
            } else {
                post.config.desired_blocked_servers@ == n && match r {
                    ToggleOutcome::Changed(a) => self.with_desired(post.config.desired_blocked_servers).firewall_step(post, a),
                    _ => false,
                }
            },
        }
    }

    /// `post` and `r` are what applying shortcut `i` gives: see
    /// [`TemplateApp::apply_preset`].
    pub open spec fn preset_step(&self, i: usize, post: TemplateApp, r: PresetOutcome) -> bool {
        &&& i >= self.config.presets@.len() ==> r is NoSuchPreset && post == *self
        &&& i < self.config.presets@.len() ==> ({
            let n = preset_set(self.servers(), self.config.presets@[i as int].blocked@);
            if blocks_all(self.servers(), n) {
                r is WouldBlockAll && post == *self
            } else if n == self.config.desired_blocked_servers@ {
                r is Unchanged && post == *self
            } else {
                &&& post.config.desired_blocked_servers@ == n
                &&& match r {
                    PresetOutcome::Applied(a) => self.with_desired(post.config.desired_blocked_servers).firewall_step(post, a),
                    _ => false,
                }
            }
        })
    }

    /// The state with the wanted selection replaced.
    pub open spec fn with_desired(&self, sel: ServerSelection) -> TemplateApp {
        TemplateApp { config: DropshipConfig { desired_blocked_servers: sel, ..self.config }, ..*self }
    }

    /// The known servers.
    pub fn known_servers(&self) -> (r: &[KnownServer])
        ensures
            r@ == self.servers(),
    {
        match &self.cache {
            Some(c) => match &c.cached_api_data {
                Some(d) => d.servers.overwatch.as_slice(),
                None => &[],
            },
            None => &[],
        }
    }

    /// The known servers in `sel`, in list order.
    fn servers_in(&self, sel: &ServerSelection) -> (r: Vec<KnownServer>)
        requires
            self.wf(),
        ensures
            r@ == self.servers().filter(in_selection(sel@)),
    {
        let servers = self.known_servers();
        let ghost keep = in_selection(sel@);
        let mut r: Vec<KnownServer> = Vec::new();
        let mut k: usize = 0;
        while k < servers.len()
            invariant
                k <= servers.len(),
                servers@ == self.servers(),
                all_wf(servers@),
                keep == in_selection(sel@),
                r@ == servers@.take(k as int).filter(keep),
            decreases servers.len() - k,
        {
            let s = &servers[k];
            proof {
                assert(servers@.take(k + 1) =~= servers@.take(k as int).push(*s));
                servers@.take(k as int).lemma_filter_push(*s, keep);
                assert(s.wf());
            }
            if sel.has(s) {
                r.push(s.clone());
            }
            k = k + 1;
        }
        assert(servers@.take(servers@.len() as int) =~= servers@);
        r
    }

    /// Number of known servers outside `sel`.
    fn unblocked_count(&self, sel: &ServerSelection) -> (n: usize)
        requires
            self.wf(),
        ensures
            n == self.servers().filter(outside_selection(sel@)).len(),
    {
        let servers = self.known_servers();
        let ghost keep = outside_selection(sel@);
        let mut n: usize = 0;
        let mut k: usize = 0;
        while k < servers.len()
            invariant
                k <= servers.len(),
                servers@ == self.servers(),
                all_wf(servers@),
                keep == outside_selection(sel@),
                n == servers@.take(k as int).filter(keep).len(),
                n <= k,
            decreases servers.len() - k,
        {
            let s = &servers[k];
            proof {
                assert(servers@.take(k + 1) =~= servers@.take(k as int).push(*s));
                servers@.take(k as int).lemma_filter_push(*s, keep);
                assert(s.wf());
            }
            if !sel.has(s) {
                n = n + 1;
            }
            k = k + 1;
        }
        assert(servers@.take(servers@.len() as int) =~= servers@);
        n
    }

    /// The request that applies the wanted selection, whatever the game does.
    pub fn _force_apply_blocked_servers_to_firewall(&self) -> (req: FirewallRequest)
        requires
            self.wf(),
        ensures
            self.request_matches(req),
    {
        let blocked_servers = self.servers_in(&self.config.desired_blocked_servers);
        let already_known_paths = match &self.config.known_paths {
            Some(p) => p.clone(),
            None => Vec::new(),
        };
        FirewallRequest { blocked_servers, already_known_paths }
    }

    /// Tells the firewall about the wanted selection: while the game is open the
    /// change is marked as pending (it is applied when the game closes), otherwise
    /// the request is returned for sending.
    pub fn apply_blocked_servers_to_firewall(&mut self) -> (a: FirewallAction)
        requires
            old(self).wf(),
        ensures
            old(self).firewall_step(*final(self), a),
    {
        if self.game_open {
            self.pending_firewall_sync_when_game_is_closed = true;
            FirewallAction::WaitForGameToClose
        } else {
            FirewallAction::Send(self._force_apply_blocked_servers_to_firewall())
        }
    }

    /// Lifts every block at once, even while the game is open.
    pub fn force_unblock_all(&mut self) -> (req: FirewallRequest)
        requires
            old(self).wf(),
        ensures
            final(self).config.desired_blocked_servers@ == Set::<u8>::empty(),
            *final(self) == old(self).with_desired(final(self).config.desired_blocked_servers),
            final(self).request_matches(req),
            req.blocked_servers@.len() == 0,
    {
        self.config.desired_blocked_servers = ServerSelection::none();
        let req = self._force_apply_blocked_servers_to_firewall();
        proof {
            let f = self.servers().filter(in_selection(Set::<u8>::empty()));
            if f.len() > 0 {
                self.servers().lemma_filter_contains_rev(in_selection(Set::<u8>::empty()), f[0]);
            }
        }
        req
    }

    /// The game opened or closed. A change of the wanted selection made while the
    /// game was open waits for it to close ("waiting for the game to close"): when
    /// it closes, that change is sent to the firewall.
    pub fn game_open_changed(&mut self, open: bool) -> (req: Option<FirewallRequest>)
        requires
            old(self).wf(),
        ensures
            old(self).game_step(open, *final(self), req),
    {
        self.game_open = open;
        if !open && self.pending_firewall_sync_when_game_is_closed {
            self.pending_firewall_sync_when_game_is_closed = false;
            Some(self._force_apply_blocked_servers_to_firewall())
        } else {
            None
        }
    }

    /// The firewall reports the selection it now applies.
    pub fn firewall_applied(&mut self, blocked: ServerSelection)
        ensures
            *final(self) == (TemplateApp {
                config: DropshipConfig { blocked_servers: blocked, ..old(self).config },
                ..*old(self)
            }),
    {
        self.config.blocked_servers = blocked;
    }

    /// The server the player most likely lands on: among the servers the firewall
    /// does not block and that answered, the first with the lowest latency.
    pub fn get_most_likely_to_play_on(&self) -> (r: Option<&KnownServer>)
        requires
            self.wf(),
        ensures
            match r {
                Some(s) => exists|i: int| is_best(self.servers(), self.config.blocked_servers@, self.pings@, i) && *s == self.servers()[i],
                None => forall|j: int| !eligible(self.servers(), self.config.blocked_servers@, self.pings@, j),
            },
    {
        let servers = self.known_servers();
        match best_server_index(servers, &self.config.blocked_servers, &self.pings) {
            Some(i) => Some(&servers[i]),
            None => None,
        }
    }

    /// The selection a click on server `idx` leads to, `None` when refused.
    fn clicked(&self, idx: usize, invert: bool) -> (r: Option<ServerSelection>)
        requires
            self.wf(),
            idx < self.servers().len(),
        ensures
            match clicked_selection(self.servers(), self.config.desired_blocked_servers@, idx as int, invert) {
                Some(n) => r matches Some(sel) && sel@ == n,
                None => r is None,
            },
    {
        let servers = self.known_servers();
        let server = &servers[idx];
        proof {
            assert(server.wf());
        }
        let mut sel = self.config.desired_blocked_servers;
        let remaining = self.unblocked_count(&sel);
        let last_allowed = !sel.has(server) && remaining == 1;
        if invert {
            if last_allowed {
                sel.solo(server);
            } else {
                sel.solo_invert(server);
            }
        } else if last_allowed {
            return None;
        } else {
            sel.toggle(server);
        }
        Some(sel)
    }

    /// A click on server `idx` of the list (`invert` for the right button). Left:
    /// toggles the server's block, refusing to block the last allowed server. Right:
    /// keeps the server and blocks all others, or, on the last allowed server, blocks
    /// only it. A changed selection is then told to the firewall.
    pub fn toggle_server(&mut self, idx: usize, invert: bool) -> (r: ToggleOutcome)
        requires
            old(self).wf(),
        ensures
            old(self).toggle_step(idx, invert, *final(self), r),
    {
        let servers = self.known_servers();
        if idx >= servers.len() {
            return ToggleOutcome::NoSuchServer;
        }
        let sel = match self.clicked(idx, invert) {
            Some(sel) => sel,
            None => {
                return ToggleOutcome::WouldBlockAll;
            },
        };
        if sel.same_as(&self.config.desired_blocked_servers) {
            return ToggleOutcome::Unchanged;
        }
        self.config.desired_blocked_servers = sel;
        let a = self.apply_blocked_servers_to_firewall();
        ToggleOutcome::Changed(a)
    }
}


/// Whether `token` is one of `tokens`.
fn has_token(tokens: &Vec<String>, token: &String) -> (r: bool)
    ensures
        r == exists|j: int| 0 <= j < tokens@.len() && tokens@[j]@ == token@,
{
    let mut j: usize = 0;
    while j < tokens.len()
        invariant
            j <= tokens.len(),
            forall|i: int| 0 <= i < j ==> tokens@[i]@ != token@,
        decreases tokens.len() - j,
    {
        if tokens[j] == *token {
            return true;
        }
        j = j + 1;
    }
    false
}

/// Every listed server is in `sel` (and there is at least one).
pub open spec fn blocks_all(servers: Seq<KnownServer>, sel: Set<u8>) -> bool {
    servers.len() > 0 && forall|k: int| 0 <= k < servers.len() ==> sel.contains(#[trigger] servers[k].bit)
}

impl TemplateApp {
    /// The servers a shortcut blocks, as a selection over the current list.
    pub fn preset_selection(&self, preset: &crate::config::Preset) -> (sel: ServerSelection)
        requires
            self.wf(),
        ensures
            sel@ == preset_set(self.servers(), preset.blocked@),
    {
        let servers = self.known_servers();
        let mut sel = ServerSelection::none();
        let mut k: usize = 0;
        while k < servers.len()
            invariant
                k <= servers.len(),
                servers@ == self.servers(),
                all_wf(servers@),
                sel@ == preset_set(servers@.take(k as int), preset.blocked@),
            decreases servers.len() - k,
        {
            let s = &servers[k];
            proof {
                assert(servers@.take(k + 1).drop_last() =~= servers@.take(k as int));
                assert(s.wf());
            }
            if has_token(&preset.blocked, &s.token) {
                sel.set(s);
            }
            k = k + 1;
        }
        assert(servers@.take(servers@.len() as int) =~= servers@);
        sel
    }

    /// Whether `sel` blocks every known server (and there is one).
    fn blocks_every_server(&self, sel: &ServerSelection) -> (r: bool)
        requires
            self.wf(),
        ensures
            r == blocks_all(self.servers(), sel@),
    {
        let servers = self.known_servers();
        if servers.len() == 0 {
            return false;
        }
        let mut k: usize = 0;
        while k < servers.len()
            invariant
                k <= servers.len(),
                servers@ == self.servers(),
                all_wf(servers@),
                forall|i: int| 0 <= i < k ==> sel@.contains(#[trigger] servers@[i].bit),
            decreases servers.len() - k,
        {
            proof {
                assert(servers@[k as int].wf());
            }
            if !sel.has(&servers[k]) {
                return false;
            }
            k = k + 1;
        }
        true
    }

    /// Applies shortcut `i`: blocks its servers and allows the rest, unless that
    /// would block every server. A changed selection is told to the firewall.
    pub fn apply_preset(&mut self, i: usize) -> (r: PresetOutcome)
        requires
            old(self).wf(),
        ensures
            old(self).preset_step(i, *final(self), r),
    {
        if i >= self.config.presets.len() {
            return PresetOutcome::NoSuchPreset;
        }
        let sel = self.preset_selection(&self.config.presets[i]);
        if self.blocks_every_server(&sel) {
            return PresetOutcome::WouldBlockAll;
        }
        if sel.same_as(&self.config.desired_blocked_servers) {
            return PresetOutcome::Unchanged;
        }
        self.config.desired_blocked_servers = sel;
        let a = self.apply_blocked_servers_to_firewall();
        PresetOutcome::Applied(a)
    }

    /// Whether shortcut `p` is the wanted selection (its button is shown active).
    pub fn preset_is_active(&self, p: &crate::config::Preset) -> (r: bool)
        requires
            self.wf(),
        ensures
            r == (preset_set(self.servers(), p.blocked@) == self.config.desired_blocked_servers@),
    {
        let sel = self.preset_selection(p);
        sel.same_as(&self.config.desired_blocked_servers)
    }
}

} // verus!
