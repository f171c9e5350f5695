//! The application state machine: cursor movement, pane switching, and the
//! directory-change protocol of each pane.

use vstd::prelude::*;

use crate::app_utils::{listed, reset_sel, sel_wf, ActiveState, AppBuf, AppContent, AppState};
use crate::listing::sorted_by_key;
use crate::paths::parent_of;
use crate::paths::AbsPath;
use crate::sftp;

verus! {

/// The cursor after `move_down`: one entry further, stopping at the last;
/// in an empty listing nothing moves.
pub open spec fn down_spec(sel: Option<usize>, len: nat) -> Option<usize> {
    if len == 0 {
        sel
    } else if sel->0 + 1 < len {
        Some((sel->0 + 1) as usize)
    } else {
        Some((len - 1) as usize)
    }
}

/// The cursor after `move_up`: one entry back, stopping at the first; in an
/// empty listing nothing moves.
pub open spec fn up_spec(sel: Option<usize>, len: nat) -> Option<usize> {
    if len == 0 {
        sel
    } else if sel->0 > 0 {
        Some((sel->0 - 1) as usize)
    } else {
        Some(0usize)
    }
}

/// The cursor after `jump_top`.
pub open spec fn top_spec(sel: Option<usize>, len: nat) -> Option<usize> {
    if len == 0 {
        sel
    } else {
        Some(0usize)
    }
}

/// The cursor after `jump_bottom`.
pub open spec fn bottom_spec(sel: Option<usize>, len: nat) -> Option<usize> {
    if len == 0 {
        sel
    } else {
        Some((len - 1) as usize)
    }
}

/// The other pane.
pub open spec fn toggled(a: ActiveState) -> ActiveState {
    match a {
        ActiveState::Local => ActiveState::Remote,
        ActiveState::Remote => ActiveState::Local,
    }
}

/// For all cursor moves in a non-empty listing the new index stays inside
/// `[0, len)`, and in an empty listing every move is a no-op.
pub proof fn lemma_moves_stay_in_range(sel: Option<usize>, len: nat)
    requires
        sel_wf(sel, len),
    ensures
        len > 0 ==> (down_spec(sel, len) matches Some(i) && 0 <= i < len),
        len > 0 ==> (up_spec(sel, len) matches Some(i) && 0 <= i < len),
        len > 0 ==> (top_spec(sel, len) matches Some(i) && 0 <= i < len),
        len > 0 ==> (bottom_spec(sel, len) matches Some(i) && 0 <= i < len),
        len == 0 ==> down_spec(sel, len) == sel && up_spec(sel, len) == sel && top_spec(sel, len)
            == sel && bottom_spec(sel, len) == sel,
        sel_wf(down_spec(sel, len), len),
        sel_wf(up_spec(sel, len), len),
        sel_wf(top_spec(sel, len), len),
        sel_wf(bottom_spec(sel, len), len),
{
}

/// Switching panes twice restores the active pane.
pub proof fn lemma_switch_twice(a: ActiveState)
    ensures
        toggled(toggled(a)) == a,
{
}

/// The whole mutable application state: working directories, listings,
/// cursor, and the two display flags.
#[derive(Debug)]
pub struct App {
    pub buf: AppBuf,
    pub content: AppContent,
    pub state: AppState,
    pub show_help: bool,
    pub show_hidden: bool,
}

impl App {
    /// Both cursors fit their listings.
    pub open spec fn wf(self) -> bool {
        sel_wf(self.state.local, self.content.local@.len()) && sel_wf(
            self.state.remote,
            self.content.remote@.len(),
        )
    }

    /// The number of entries in the active pane's listing.
    pub open spec fn active_len(self) -> nat {
        match self.state.active {
            ActiveState::Local => self.content.local@.len(),
            ActiveState::Remote => self.content.remote@.len(),
        }
    }

    /// Build the starting state.  The local working directory and its raw
    /// enumeration come from the caller; the remote side is read over the
    /// session.  Failing to read the remote home directory is fatal and
    /// reported to the caller.
    pub fn from(
        sess: &ssh2::Session,
        sftp: &ssh2::Sftp,
        local_dir: AbsPath,
        local_names: &Vec<String>,
        show_help: bool,
        show_hidden: bool,
    ) -> (r: Result<App, String>)
        ensures
            r matches Ok(app) ==> app.wf() && app.show_help == show_help && app.show_hidden
                == show_hidden && app.buf.local@ == local_dir@ && app.content.local.deep_view()
                == listed(local_names.deep_view(), show_hidden) && app.state.active
                == ActiveState::Local,
    {
        let buf = match AppBuf::from(local_dir, sess) {
            Ok(buf) => buf,
            Err(e) => {
                return Err(e);
            },
        };
        let content = AppContent::from(local_names, sftp, &buf, show_hidden);
        let local_sel = AppState::select_reset(content.local.len());
        let remote_sel = AppState::select_reset(content.remote.len());
        let state = AppState { local: local_sel, remote: remote_sel, active: ActiveState::Local };
        Ok(App { buf, content, state, show_help, show_hidden })
    }

    /// Move the active pane's cursor one entry down.
    pub fn move_down(&mut self)
        requires
            old(self).wf(),
        ensures
            final(self).wf(),
            *final(self) == (App { state: final(self).state, ..*old(self) }),
            final(self).state.active == old(self).state.active,
            match old(self).state.active {
                ActiveState::Local => final(self).state.remote == old(self).state.remote && final(self).state.local == down_spec(old(self).state.local, old(self).content.local@.len()),
                ActiveState::Remote => final(self).state.local == old(self).state.local && final(self).state.remote == down_spec(old(self).state.remote, old(self).content.remote@.len()),
            },
    {
        match self.state.active {
            ActiveState::Local => {
                let len = self.content.local.len();
                if len > 0 {
                    if let Some(i) = self.state.local {
                        let next = if i + 1 < len {
                            i + 1
                        } else {
                            len - 1
                        };
                        self.state.local = Some(next);
                    }
                }
            },
            ActiveState::Remote => {
                let len = self.content.remote.len();
                if len > 0 {
                    if let Some(i) = self.state.remote {
                        let next = if i + 1 < len {
                            i + 1
                        } else {
                            len - 1
                        };
                        self.state.remote = Some(next);
                    }
                }
            },
        }
    }

    /// Move the active pane's cursor one entry up.
    pub fn move_up(&mut self)
        requires
            old(self).wf(),
        ensures
            final(self).wf(),
            *final(self) == (App { state: final(self).state, ..*old(self) }),
            final(self).state.active == old(self).state.active,
            match old(self).state.active {
                ActiveState::Local => final(self).state.remote == old(self).state.remote && final(self).state.local == up_spec(old(self).state.local, old(self).content.local@.len()),
                ActiveState::Remote => final(self).state.local == old(self).state.local && final(self).state.remote == up_spec(old(self).state.remote, old(self).content.remote@.len()),
            },
    {
        match self.state.active {
            ActiveState::Local => {
                let len = self.content.local.len();
                if len > 0 {
                    if let Some(i) = self.state.local {
                        let next = if i > 0 {
                            i - 1
                        } else {
                            0
                        };
                        self.state.local = Some(next);
                    }
                }
            },
            ActiveState::Remote => {
                let len = self.content.remote.len();
                if len > 0 {
                    if let Some(i) = self.state.remote {
                        let next = if i > 0 {
                            i - 1
                        } else {
                            0
                        };
                        self.state.remote = Some(next);
                    }
                }
            },
        }
    }

    /// Jump the active pane's cursor to the first entry.
    pub fn jump_top(&mut self)
        requires
            old(self).wf(),
        ensures
            final(self).wf(),
            *final(self) == (App { state: final(self).state, ..*old(self) }),
            final(self).state.active == old(self).state.active,
            match old(self).state.active {
                ActiveState::Local => final(self).state.remote == old(self).state.remote && final(self).state.local == top_spec(old(self).state.local, old(self).content.local@.len()),
                ActiveState::Remote => final(self).state.local == old(self).state.local && final(self).state.remote == top_spec(old(self).state.remote, old(self).content.remote@.len()),
            },
    {
        match self.state.active {
            ActiveState::Local => {
                if self.content.local.len() > 0 {
                    self.state.local = Some(0);
                }
            },
            ActiveState::Remote => {
                if self.content.remote.len() > 0 {
                    self.state.remote = Some(0);
                }
            },
        }
    }

    /// Jump the active pane's cursor to the last entry.
    pub fn jump_bottom(&mut self)
        requires
            old(self).wf(),
        ensures
            final(self).wf(),
            *final(self) == (App { state: final(self).state, ..*old(self) }),
            final(self).state.active == old(self).state.active,
            match old(self).state.active {
                ActiveState::Local => final(self).state.remote == old(self).state.remote && final(self).state.local == bottom_spec(old(self).state.local, old(self).content.local@.len()),
                ActiveState::Remote => final(self).state.local == old(self).state.local && final(self).state.remote == bottom_spec(
                    old(self).state.remote,
                    old(self).content.remote@.len(),
                ),
            },
    {
        match self.state.active {
            ActiveState::Local => {
                let len = self.content.local.len();
                if len > 0 {
                    self.state.local = Some(len - 1);
                }
            },
            ActiveState::Remote => {
                let len = self.content.remote.len();
                if len > 0 {
                    self.state.remote = Some(len - 1);
                }
            },
        }
    }

    /// Make the other pane the active one; neither cursor moves.
    pub fn switch_pane(&mut self)
        requires
            old(self).wf(),
        ensures
            final(self).wf(),
            *final(self) == (App { state: final(self).state, ..*old(self) }),
            final(self).state.active == toggled(old(self).state.active),
            final(self).state.local == old(self).state.local,
            final(self).state.remote == old(self).state.remote,
    {
        self.state.active = match self.state.active {
            ActiveState::Local => ActiveState::Remote,
            ActiveState::Remote => ActiveState::Local,
        };
    }

    /// Show or hide the keyboard-shortcut panel.
    pub fn toggle_help(&mut self)
        requires
            old(self).wf(),
        ensures
            final(self).wf(),
            *final(self) == (App { show_help: !old(self).show_help, ..*old(self) }),
    {
        self.show_help = !self.show_help;
    }

    /// The name under the local cursor, if the local listing shows anything.
    pub fn selected_local(&self) -> (r: Option<String>)
        requires
            self.wf(),
        ensures
            self.content.local@.len() == 0 <==> r is None,
            r matches Some(name) ==> self.state.local matches Some(i) && i
                < self.content.local@.len() && name@ == self.content.local.deep_view()[i as int],
    {
        if self.content.local.len() == 0 {
            return None;
        }
        if let Some(i) = self.state.local {
            let name = self.content.local[i].clone();
            proof {
                assert(name@ == self.content.local.deep_view()[self.state.local->0 as int]);
            }
            Some(name)
        } else {
            proof {
                assert(false);
            }
            None
        }
    }

    /// The name under the remote cursor, if the remote listing shows
    /// anything.
    pub fn selected_remote(&self) -> (r: Option<String>)
        requires
            self.wf(),
        ensures
            self.content.remote@.len() == 0 <==> r is None,
            r matches Some(name) ==> self.state.remote matches Some(i) && i
                < self.content.remote@.len() && name@ == self.content.remote.deep_view()[i as int],
    {
        if self.content.remote.len() == 0 {
            return None;
        }
        if let Some(i) = self.state.remote {
            let name = self.content.remote[i].clone();
            proof {
                assert(name@ == self.content.remote.deep_view()[self.state.remote->0 as int]);
            }
            Some(name)
        } else {
            proof {
                assert(false);
            }
            None
        }
    }

    /// Enter the selected local child directory.  The caller, who owns the
    /// filesystem, reports whether the candidate is a directory and hands
    /// over the new directory's raw enumeration; with an empty listing or a
    /// non-directory candidate nothing changes.
    pub fn cd_into_local(&mut self, candidate_is_dir: bool, names: &Vec<String>)
        requires
            old(self).wf(),
        ensures
            final(self).wf(),
            old(self).content.local@.len() == 0 || !candidate_is_dir ==> *final(self) == *old(self),
            old(self).content.local@.len() > 0 && candidate_is_dir ==> {
                &&& final(self).buf.local@ == old(self).buf.local@.push(
                    old(self).content.local.deep_view()[old(self).state.local->0 as int],
                )
                &&& final(self).content.local.deep_view() == listed(
                    names.deep_view(),
                    old(self).show_hidden,
                )
                &&& final(self).state.local == reset_sel(final(self).content.local@.len())
                &&& final(self).buf.remote@ == old(self).buf.remote@
                &&& final(self).content.remote == old(self).content.remote
                &&& final(self).state.remote == old(self).state.remote
                &&& final(self).state.active == old(self).state.active
                &&& final(self).show_help == old(self).show_help
                &&& final(self).show_hidden == old(self).show_hidden
            },
    {
        if self.content.local.len() == 0 {
            return ;
        }
        if !candidate_is_dir {
            return ;
        }
        let name = match self.selected_local() {
            Some(name) => name,
            None => {
                proof {
                    assert(false);
                }
                return ;
            },
        };
        self.buf.local.push(name);
        let show_hidden = self.show_hidden;
        self.content.update_local(names, show_hidden);
        self.state.local = AppState::select_reset(self.content.local.len());
    }

    /// Leave the local directory for its parent; the caller hands over the
    /// parent's raw enumeration.
    pub fn cd_out_of_local(&mut self, names: &Vec<String>)
        requires
            old(self).wf(),
        ensures
            final(self).wf(),
            final(self).buf.local@ == parent_of(old(self).buf.local@),
            final(self).content.local.deep_view() == listed(
                names.deep_view(),
                old(self).show_hidden,
            ),
            final(self).state.local == reset_sel(final(self).content.local@.len()),
            final(self).buf.remote@ == old(self).buf.remote@,
            final(self).content.remote == old(self).content.remote,
            final(self).state.remote == old(self).state.remote,
            final(self).state.active == old(self).state.active,
            final(self).show_help == old(self).show_help,
            final(self).show_hidden == old(self).show_hidden,
    {
        self.buf.local.pop();
        let show_hidden = self.show_hidden;
        self.content.update_local(names, show_hidden);
        self.state.local = AppState::select_reset(self.content.local.len());
    }

    /// Enter the selected remote child directory.  The candidate is probed
    /// by opening it as a directory over SFTP — the most authoritative
    /// primitive the protocol offers — and a failed probe means "not a
    /// directory": nothing changes.
    pub fn cd_into_remote(&mut self, sftp: &ssh2::Sftp)
        requires
            old(self).wf(),
        ensures
            final(self).wf(),
            old(self).content.remote@.len() == 0 ==> *final(self) == *old(self),
            // Whatever the probe said, the pane either stayed put or moved
            // into the selected child and was freshly listed.
            *final(self) == *old(self) || {
                &&& old(self).content.remote@.len() > 0
                &&& final(self).buf.remote@ == old(self).buf.remote@.push(
                    old(self).content.remote.deep_view()[old(self).state.remote->0 as int],
                )
                &&& sorted_by_key(final(self).content.remote.deep_view(), true)
                &&& final(self).state.remote == reset_sel(final(self).content.remote@.len())
                &&& final(self).buf.local@ == old(self).buf.local@
                &&& final(self).content.local == old(self).content.local
                &&& final(self).state.local == old(self).state.local
                &&& final(self).state.active == old(self).state.active
                &&& final(self).show_help == old(self).show_help
                &&& final(self).show_hidden == old(self).show_hidden
            },
    {
        if self.content.remote.len() == 0 {
            return ;
        }
        let name = match self.selected_remote() {
            Some(name) => name,
            None => {
                proof {
                    assert(false);
                }
                return ;
            },
        };
        let candidate = self.buf.remote.join(&name);
        let text = candidate.to_text();
        if !sftp::sftp_opendir_ok(sftp, text.as_str()) {
            return ;
        }
        self.buf.remote = candidate;
        let show_hidden = self.show_hidden;
        self.content.update_remote(sftp, &self.buf.remote, show_hidden);
        self.state.remote = AppState::select_reset(self.content.remote.len());
    }

    /// Leave the remote directory for its parent and re-list it.
    pub fn cd_out_of_remote(&mut self, sftp: &ssh2::Sftp)
        requires
            old(self).wf(),
        ensures
            final(self).wf(),
            final(self).buf.remote@ == parent_of(old(self).buf.remote@),
            sorted_by_key(final(self).content.remote.deep_view(), true),
            final(self).state.remote == reset_sel(final(self).content.remote@.len()),
            final(self).buf.local@ == old(self).buf.local@,
            final(self).content.local == old(self).content.local,
            final(self).state.local == old(self).state.local,
            final(self).state.active == old(self).state.active,
            final(self).show_help == old(self).show_help,
            final(self).show_hidden == old(self).show_hidden,
    {
        self.buf.remote.pop();
        let show_hidden = self.show_hidden;
        let remote_dir = self.buf.remote.clone();
        self.content.update_remote(sftp, &remote_dir, show_hidden);
        self.state.remote = AppState::select_reset(self.content.remote.len());
    }
}

/// Entering a child directory and immediately leaving it again restores
/// the pane: popping the pushed segment yields the working directory that
/// was there before, and — with no concurrent mutation, so the directory
/// enumerates to the same names again — re-listing shows a listing with
/// exactly the same names as the one before entering.
pub proof fn lemma_enter_exit_round_trip(
    dir: Seq<Seq<char>>,
    child: Seq<char>,
    raw_before: Seq<Seq<char>>,
    raw_after: Seq<Seq<char>>,
    show_hidden: bool,
)
    requires
        raw_before.to_multiset() == raw_after.to_multiset(),
    ensures
        parent_of(dir.push(child)) == dir,
        listed(raw_before, show_hidden).to_multiset() == listed(
            raw_after,
            show_hidden,
        ).to_multiset(),
{
    crate::paths::lemma_push_then_parent(dir, child);
    crate::listing::lemma_sort_names_perm(
        crate::listing::filter_kept(raw_before, show_hidden),
        true,
    );
    crate::listing::lemma_sort_names_perm(
        crate::listing::filter_kept(raw_after, show_hidden),
        true,
    );
    crate::listing::lemma_filter_kept_multiset(raw_before, show_hidden);
    crate::listing::lemma_filter_kept_multiset(raw_after, show_hidden);
}

} // verus!
