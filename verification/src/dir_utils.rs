//! A plainer pane-state pair over the command-channel backend: working
//! directories and listings sorted in byte order rather than
//! case-insensitively.

use vstd::prelude::*;

use crate::listing::{filter_kept, keeps, sort_names, sort_names_spec, sorted_by_key};
use crate::paths::AbsPath;
use crate::tcp;

verus! {

/// What this pane form shows for the raw names `raw`: the kept names in
/// plain byte order.
pub open spec fn listed_plain(raw: Seq<Seq<char>>, show_hidden: bool) -> Seq<Seq<char>> {
    sort_names_spec(filter_kept(raw, show_hidden), false)
}

/// The listed contents of the two working directories.
#[derive(Debug)]
pub struct DirContent {
    pub local: Vec<String>,
    pub remote: Vec<String>,
}

/// The working directories of the two panes.
#[derive(Debug)]
pub struct DirBuf {
    pub local: AbsPath,
    pub remote: AbsPath,
}

impl DirBuf {
    /// The starting working directories: the given local directory and the
    /// remote host's working directory, read over the command channel.
    pub fn from(local: AbsPath, sess: &ssh2::Session) -> (r: Result<DirBuf, String>)
        ensures
            r matches Ok(buf) ==> buf.local@ == local@,
    {
        match tcp::pwd(sess) {
            Ok(remote) => Ok(DirBuf { local, remote }),
            Err(e) => Err(e),
        }
    }
}

impl DirContent {
    /// List both panes: the local one from the raw names the caller
    /// enumerated, the remote one over the command channel.
    pub fn from(local_names: &Vec<String>, sess: &ssh2::Session, buf: &DirBuf, show_hidden: bool) -> (r:
        DirContent)
        ensures
            r.local.deep_view() == listed_plain(local_names.deep_view(), show_hidden),
            sorted_by_key(r.remote.deep_view(), false),
    {
        let local = sort_names(local_names, show_hidden, false);
        let remote = tcp::ls(sess, &buf.remote, show_hidden);
        DirContent { local, remote }
    }

    /// Replace the local listing with a fresh enumeration of the local
    /// working directory.
    pub fn update_local(&mut self, names: &Vec<String>, show_hidden: bool)
        ensures
            final(self).local.deep_view() == listed_plain(names.deep_view(), show_hidden),
            forall|i: int|
                0 <= i < final(self).local.deep_view().len() ==> keeps(
                    #[trigger] final(self).local.deep_view()[i],
                    show_hidden,
                ),
            final(self).remote == old(self).remote,
    {
        self.local = sort_names(names, show_hidden, false);
        proof {
            crate::listing::lemma_sort_names_kept(names.deep_view(), show_hidden, false);
        }
    }

    /// Replace the remote listing with a fresh listing of the remote
    /// working directory.
    pub fn update_remote(&mut self, sess: &ssh2::Session, buf: &AbsPath, show_hidden: bool)
        ensures
            final(self).local == old(self).local,
            sorted_by_key(final(self).remote.deep_view(), false),
    {
        self.remote = tcp::ls(sess, buf, show_hidden);
    }
}

} // verus!
