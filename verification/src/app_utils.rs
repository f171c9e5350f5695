//! The pane state: working directories, listed contents, and the cursor of
//! each pane.

use vstd::prelude::*;

use crate::listing::{filter_kept, keeps, sort_names, sort_names_spec, sorted_by_key};
use crate::paths::AbsPath;
use crate::sftp;

verus! {

/// The working directories of the two panes.
#[derive(Debug)]
pub struct AppBuf {
    pub local: AbsPath,
    pub remote: AbsPath,
}

impl AppBuf {
    /// The starting working directories: the given local directory (normally
    /// the process's current directory) and the remote session's home
    /// directory.  Failing to read the home directory is a fatal startup
    /// condition, reported to the caller.
    pub fn from(local: AbsPath, sess: &ssh2::Session) -> (r: Result<AppBuf, String>)
        ensures
            r matches Ok(buf) ==> buf.local@ == local@,
    {
        match sftp::home_dir(sess) {
            Ok(remote) => Ok(AppBuf { local, remote }),
            Err(e) => Err(e),
        }
    }
}

/// What a pane shows for the raw names `raw`: the non-hidden ones (all of
/// them when `show_hidden` is set), sorted case-insensitively and stably.
pub open spec fn listed(raw: Seq<Seq<char>>, show_hidden: bool) -> Seq<Seq<char>> {
    sort_names_spec(filter_kept(raw, show_hidden), true)
}

/// Turn one backend's raw enumeration into the listing a pane displays.
pub fn sort_and_stringify(names: &Vec<String>, show_hidden: bool) -> (r: Vec<String>)
    ensures
        r.deep_view() == listed(names.deep_view(), show_hidden),
{
    sort_names(names, show_hidden, true)
}

/// The listed contents of the two working directories.
#[derive(Debug)]
pub struct AppContent {
    pub local: Vec<String>,
    pub remote: Vec<String>,
}

impl AppContent {
    /// List both panes: the local one from the raw names the caller
    /// enumerated, the remote one through the SFTP channel.
    pub fn from(local_names: &Vec<String>, sftp: &ssh2::Sftp, buf: &AppBuf, show_hidden: bool) -> (r:
        AppContent)
        ensures
            r.local.deep_view() == listed(local_names.deep_view(), show_hidden),
            sorted_by_key(r.remote.deep_view(), true),
            forall|i: int|
                0 <= i < r.remote.deep_view().len() ==> keeps(
                    #[trigger] r.remote.deep_view()[i],
                    show_hidden,
                ),
    {
        let local = sort_and_stringify(local_names, show_hidden);
        let remote = sftp::ls(sftp, &buf.remote, show_hidden);
        AppContent { local, remote }
    }

    /// Replace the local pane's listing with a fresh enumeration of the
    /// local working directory.
    pub fn update_local(&mut self, names: &Vec<String>, show_hidden: bool)
        ensures
            final(self).local.deep_view() == listed(names.deep_view(), show_hidden),
            final(self).remote == old(self).remote,
    {
        self.local = sort_and_stringify(names, show_hidden);
    }

    /// Replace the remote pane's listing with a fresh listing of the remote
    /// working directory.
    pub fn update_remote(&mut self, sftp: &ssh2::Sftp, buf: &AbsPath, show_hidden: bool)
        ensures
            final(self).local == old(self).local,
            sorted_by_key(final(self).remote.deep_view(), true),
            forall|i: int|
                0 <= i < final(self).remote.deep_view().len() ==> keeps(
                    #[trigger] final(self).remote.deep_view()[i],
                    show_hidden,
                ),
    {
        self.remote = sftp::ls(sftp, buf, show_hidden);
    }
}

/// Which pane answers to user input.
#[derive(Debug, Clone, Copy, PartialEq, Eq, Structural)]
pub enum ActiveState {
    Local,
    Remote,
}

/// The cursor of each pane and which pane is active.  An index is `Some`
/// and in range whenever its listing is non-empty; for an empty listing the
/// selection is undefined and every index-dependent operation is a no-op.
#[derive(Debug)]
pub struct AppState {
    pub local: Option<usize>,
    pub remote: Option<usize>,
    pub active: ActiveState,
}

/// A selection fits a listing of `len` entries.
pub open spec fn sel_wf(sel: Option<usize>, len: nat) -> bool {
    len > 0 ==> (sel matches Some(i) && i < len)
}

/// The selection to show for a freshly listed pane.
pub open spec fn reset_sel(len: nat) -> Option<usize> {
    if len > 0 {
        Some(0usize)
    } else {
        None
    }
}

impl AppState {
    /// The starting cursor: both panes at their first entry, the local pane
    /// active.
    pub fn default() -> (r: AppState)
        ensures
            r.local == Some(0usize),
            r.remote == Some(0usize),
            r.active == ActiveState::Local,
    {
        AppState { local: Some(0), remote: Some(0), active: ActiveState::Local }
    }

    /// Point a pane's cursor at the first entry of a fresh listing of `len`
    /// entries, or at nothing when it is empty.
    pub fn select_reset(len: usize) -> (r: Option<usize>)
        ensures
            r == reset_sel(len as nat),
            sel_wf(r, len as nat),
    {
        if len > 0 {
            Some(0)
        } else {
            None
        }
    }
}

} // verus!
