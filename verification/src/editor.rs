//! The two-step window that creates or edits a shortcut.

use vstd::prelude::*;
use vstd::string::*;
use crate::selection::KnownServer;
use crate::config::{DropshipConfig, Preset};
use crate::state::TemplateApp;
use crate::flow::contains_string;
use crate::text::{str_trim, trim};

verus! {

/// State of the shortcut window (not kept between runs).
pub struct PresetEditor {
    /// `None` for a new shortcut, otherwise the index of the edited one.
    pub idx: Option<usize>,
    /// 0: name and key; 1: servers.
    pub step: u8,
    pub name: String,
    pub key: Option<String>,
    /// Waiting for a key press to assign.
    pub listening: bool,
    /// Tokens of the servers the shortcut blocks.
    pub blocked: Vec<String>,
}

/// Views of a list of strings.
pub open spec fn views(v: Seq<String>) -> Seq<Seq<char>> {
    v.map_values(|x: String| x@)
}

/// Tokens of a list of servers.
pub open spec fn tokens(servers: Seq<KnownServer>) -> Seq<Seq<char>> {
    servers.map_values(|s: KnownServer| s.token@)
}

/// The server's token is one of `blocked`.
pub open spec fn token_in(blocked: Seq<Seq<char>>) -> spec_fn(KnownServer) -> bool {
    |s: KnownServer| blocked.contains(s.token@)
}

/// The server's token is not one of `blocked`.
pub open spec fn token_not_in(blocked: Seq<Seq<char>>) -> spec_fn(KnownServer) -> bool {
    |s: KnownServer| !blocked.contains(s.token@)
}

/// Another token than `t`.
pub open spec fn other_token(t: Seq<char>) -> spec_fn(String) -> bool {
    |x: String| x@ != t
}

/// Tokens of the servers that pass `keep`, in list order.
fn tokens_where(servers: &[KnownServer], blocked: &Vec<String>, inside: bool) -> (r: Vec<String>)
    ensures
        views(r@) == tokens(servers@.filter(if inside {
            token_in(views(blocked@))
        } else {
            token_not_in(views(blocked@))
        })),
{
    let ghost keep = if inside {
        token_in(views(blocked@))
    } else {
        token_not_in(views(blocked@))
    };
    let mut r: Vec<String> = Vec::new();
    let mut k: usize = 0;
    while k < servers.len()
        invariant
            k <= servers.len(),
            keep == (if inside {
                token_in(views(blocked@))
            } else {
                token_not_in(views(blocked@))
            }),
            views(r@) == tokens(servers@.take(k as int).filter(keep)),
        decreases servers.len() - k,
    {
        let s = &servers[k];
        proof {
            assert(servers@.take(k + 1) =~= servers@.take(k as int).push(*s));
            servers@.take(k as int).lemma_filter_push(*s, keep);
        }
        let found = contains_string(blocked, &s.token);
        assert(found == views(blocked@).contains(s.token@));
        let ghost before = r@;
        if found == inside {
            r.push(s.token.clone());
            assert(views(r@) =~= views(before).push(s.token@));
            assert(tokens(servers@.take(k as int).filter(keep).push(*s)) =~= tokens(
                servers@.take(k as int).filter(keep),
            ).push(s.token@));
        }
        k = k + 1;
    }
    assert(servers@.take(servers@.len() as int) =~= servers@);
    r
}

impl PresetEditor {
    /// "All": the shortcut blocks every listed server.
    pub fn select_all(&mut self, servers: &[KnownServer])
        ensures
            views(final(self).blocked@) == tokens(servers@),
            final(self).idx == old(self).idx,
            final(self).name == old(self).name,
            final(self).key == old(self).key,
            final(self).step == old(self).step,
            final(self).listening == old(self).listening,
    {
        let mut r: Vec<String> = Vec::new();
        let mut k: usize = 0;
        while k < servers.len()
            invariant
                k <= servers.len(),
                views(r@) == tokens(servers@.take(k as int)),
            decreases servers.len() - k,
        {
            let ghost before = r@;
            r.push(servers[k].token.clone());
            assert(views(r@) =~= views(before).push(servers@[k as int].token@));
            assert(tokens(servers@.take(k + 1)) =~= tokens(servers@.take(k as int)).push(servers@[k as int].token@));
            k = k + 1;
        }
        assert(servers@.take(servers@.len() as int) =~= servers@);
        self.blocked = r;
    }

    /// "Invert": the shortcut blocks exactly the listed servers it did not block.
    pub fn invert(&mut self, servers: &[KnownServer])
        ensures
            views(final(self).blocked@) == tokens(servers@.filter(token_not_in(views(old(self).blocked@)))),
            final(self).idx == old(self).idx,
            final(self).name == old(self).name,
            final(self).key == old(self).key,
            final(self).step == old(self).step,
            final(self).listening == old(self).listening,
    {
        let r = tokens_where(servers, &self.blocked, false);
        self.blocked = r;
    }

    /// "None": the shortcut blocks nothing.
    pub fn clear(&mut self)
        ensures
            final(self).blocked@.len() == 0,
            final(self).idx == old(self).idx,
            final(self).name == old(self).name,
            final(self).key == old(self).key,
            final(self).step == old(self).step,
            final(self).listening == old(self).listening,
    {
        self.blocked = Vec::new();
    }

    /// The checkbox of one server: adds its token, or removes every copy of it.
    pub fn set_server(&mut self, token: &String, on: bool)
        ensures
            on && views(old(self).blocked@).contains(token@) ==> final(self).blocked@ == old(self).blocked@,
            on && !views(old(self).blocked@).contains(token@) ==> final(self).blocked@ == old(self).blocked@.push(*token),
            !on ==> final(self).blocked@ == old(self).blocked@.filter(other_token(token@)),
            final(self).idx == old(self).idx,
            final(self).name == old(self).name,
            final(self).key == old(self).key,
            final(self).step == old(self).step,
            final(self).listening == old(self).listening,
    {
        if on {
            if !contains_string(&self.blocked, token) {
                self.blocked.push(token.clone());
            }
        } else {
            let ghost keep = other_token(token@);
            let mut w: Vec<String> = Vec::new();
            let mut k: usize = 0;
            while k < self.blocked.len()
                invariant
                    k <= self.blocked.len(),
                    keep == other_token(token@),
                    w@ == self.blocked@.take(k as int).filter(keep),
                decreases self.blocked.len() - k,
            {
                proof {
                    assert(self.blocked@.take(k + 1) =~= self.blocked@.take(k as int).push(self.blocked@[k as int]));
                    self.blocked@.take(k as int).lemma_filter_push(self.blocked@[k as int], keep);
                }
                if self.blocked[k] != *token {
                    w.push(self.blocked[k].clone());
                }
                k = k + 1;
            }
            assert(self.blocked@.take(self.blocked@.len() as int) =~= self.blocked@);
            self.blocked = w;
        }
    }

    /// How many listed servers the shortcut blocks.
    pub fn blocked_count(&self, servers: &[KnownServer]) -> (n: usize)
        ensures
            n == servers@.filter(token_in(views(self.blocked@))).len(),
    {
        let r = tokens_where(servers, &self.blocked, true);
        proof {
            assert(views(r@).len() == r@.len());
        }
        r.len()
    }

    /// The shortcut blocks every listed server (and there is one): it cannot be saved.
    pub fn blocks_all(&self, servers: &[KnownServer]) -> (r: bool)
        ensures
            r == (servers@.len() > 0 && servers@.filter(token_in(views(self.blocked@))).len() == servers@.len()),
    {
        servers.len() > 0 && self.blocked_count(servers) == servers.len()
    }

    /// The first step can be left once the name is not blank.
    pub fn can_continue(&self) -> (r: bool)
        ensures
            r == (str_trim(self.name@).len() > 0),
    {
        let t = trim(self.name.as_str());
        !t.is_empty()
    }

    /// "Next" on the first step: to the servers, once the name is not blank.
    pub fn next_step(&mut self) -> (moved: bool)
        ensures
            moved == (str_trim(old(self).name@).len() > 0),
            *final(self) == (if moved {
                PresetEditor { step: 1, ..*old(self) }
            } else {
                *old(self)
            }),
    {
        if self.can_continue() {
            self.step = 1;
            true
        } else {
            false
        }
    }

    /// "Back" on the second step: to the name and key.
    pub fn back_step(&mut self)
        ensures
            *final(self) == (PresetEditor { step: 0, ..*old(self) }),
    {
        self.step = 0;
    }

    /// The key button: starts or stops waiting for a key press.
    pub fn toggle_listening(&mut self)
        ensures
            *final(self) == (PresetEditor { listening: !old(self).listening, ..*old(self) }),
    {
        self.listening = !self.listening;
    }

    /// "Clear": the shortcut gets no key.
    pub fn clear_key(&mut self)
        ensures
            *final(self) == (PresetEditor { key: None, ..*old(self) }),
    {
        self.key = None;
    }

    /// A key pressed while waiting for one: it becomes the shortcut's key, unless it
    /// is Escape, which only stops the waiting.
    pub fn capture_key(&mut self, key: String)
        requires
            old(self).listening,
        ensures
            !final(self).listening,
            final(self).key == (if key@ == "Escape"@ {
                old(self).key
            } else {
                Some(key)
            }),
            final(self).blocked == old(self).blocked,
            final(self).idx == old(self).idx,
            final(self).name == old(self).name,
            final(self).step == old(self).step,
    {
        let escape = String::from_str("Escape");
        if key != escape {
            self.key = Some(key);
        }
        self.listening = false;
    }
}

impl TemplateApp {
    /// Opens the shortcut window, for shortcut `idx` or (with `None`, or an index
    /// past the list) a new one.
    pub fn open_preset_editor(&mut self, idx: Option<usize>)
        ensures
            final(self).preset_editor matches Some(ed) && ed.idx == idx && ed.step == 0 && !ed.listening && match idx {
                Some(i) if i < old(self).config.presets@.len() => {
                    let p = old(self).config.presets@[i as int];
                    ed.name@ == p.name@ && ed.key == p.key && ed.blocked@ == p.blocked@
                },
                _ => ed.name@.len() == 0 && ed.key is None && ed.blocked@.len() == 0,
            },
            *final(self) == (TemplateApp { preset_editor: final(self).preset_editor, ..*old(self) }),
    {
        let p = match idx {
            Some(i) => if i < self.config.presets.len() {
                Some(self.config.presets[i].clone())
            } else {
                None
            },
            None => None,
        };
        let ed = match p {
            Some(p) => PresetEditor { idx, step: 0, name: p.name, key: p.key, listening: false, blocked: p.blocked },
            None => PresetEditor {
                idx,
                step: 0,
                name: String::new(),
                key: None,
                listening: false,
                blocked: Vec::new(),
            },
        };
        self.preset_editor = Some(ed);
    }

    /// Saves the edited shortcut (name without surrounding blanks): it replaces the
    /// edited one, or is added when new. The window closes.
    #[verifier::rlimit(40)]
    pub fn save_preset(&mut self)
        requires
            old(self).preset_editor is Some,
        ensures
            ({
                let ed = old(self).preset_editor->0;
                let ps = old(self).config.presets@;
                let replaced = ed.idx matches Some(i) && i < ps.len();
                &&& final(self).preset_editor is None
                &&& final(self).config.presets@.len() == if replaced {
                    ps.len()
                } else {
                    ps.len() + 1
                }
                &&& forall|j: int| 0 <= j < ps.len() && !(ed.idx == Some(j as usize) && replaced)
                    ==> #[trigger] final(self).config.presets@[j] == ps[j]
                &&& {
                    let at = if replaced {
                        ed.idx->0 as int
                    } else {
                        ps.len() as int
                    };
                    let p = final(self).config.presets@[at];
                    p.name@ == str_trim(ed.name@) && p.key == ed.key && p.blocked == ed.blocked
                }
            }),
            *final(self) == (TemplateApp {
                preset_editor: None,
                config: DropshipConfig { presets: final(self).config.presets, ..old(self).config },
                ..*old(self)
            }),
    {
        let ed = self.preset_editor.take().unwrap();
        let name = String::from_str(trim(ed.name.as_str()));
        let p = Preset { name, key: ed.key, blocked: ed.blocked };
        match ed.idx {
            Some(i) => {
                if i < self.config.presets.len() {
                    self.config.presets.set(i, p);
                } else {
                    self.config.presets.push(p);
                }
            },
            None => {
                self.config.presets.push(p);
            },
        }
    }

    /// "Cancel": the window closes, nothing is saved.
    pub fn cancel_preset_editor(&mut self)
        ensures
            *final(self) == (TemplateApp { preset_editor: None, ..*old(self) }),
    {
        self.preset_editor = None;
    }

    /// The window was dismissed (Escape or a click outside). It closes unless a key
    /// was awaited when the frame began: then Escape only stops the waiting
    /// ([`PresetEditor::capture_key`]).
    pub fn dismiss_preset_editor(&mut self, was_listening: bool)
        ensures
            *final(self) == (if was_listening {
                *old(self)
            } else {
                TemplateApp { preset_editor: None, ..*old(self) }
            }),
    {
        if !was_listening {
            self.preset_editor = None;
        }
    }

    /// Deletes the edited shortcut (when it exists). The window closes.
    pub fn delete_preset(&mut self)
        requires
            old(self).preset_editor is Some,
        ensures
            final(self).preset_editor is None,
            match old(self).preset_editor->0.idx {
                Some(i) if i < old(self).config.presets@.len() => final(self).config.presets@
                    == old(self).config.presets@.remove(i as int),
                _ => final(self).config.presets@ == old(self).config.presets@,
            },
            *final(self) == (TemplateApp {
                preset_editor: None,
                config: DropshipConfig { presets: final(self).config.presets, ..old(self).config },
                ..*old(self)
            }),
    {
        let ed = self.preset_editor.take().unwrap();
        match ed.idx {
            Some(i) => {
                if i < self.config.presets.len() {
                    let _removed = self.config.presets.remove(i);
                }
            },
            None => {},
        }
    }
}

} // verus!
