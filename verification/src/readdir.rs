//! The earliest pane-state pair: bare working directories and
//! byte-order listings over the command channel.

use vstd::prelude::*;

use crate::dir_utils::listed_plain;
use crate::listing::{sort_names, sorted_by_key};
use crate::paths::AbsPath;
use crate::tcp;

verus! {

/// The listed contents of the two working directories.
#[derive(Debug)]
pub struct DirContents {
    pub local: Vec<String>,
    pub remote: Vec<String>,
}

/// The working directories of the two panes.
#[derive(Debug)]
pub struct DirBuf {
    pub local: AbsPath,
    pub remote: AbsPath,
}

impl Default for DirBuf {
    /// Both panes start at the filesystem root until real directories are
    /// known.
    fn default() -> (r: DirBuf)
        ensures
            r.local@.len() == 0,
            r.remote@.len() == 0,
    {
        DirBuf { local: AbsPath::root(), remote: AbsPath::root() }
    }
}

impl DirBuf {
    /// The given local directory paired with the remote host's working
    /// directory, read over the command channel.
    pub fn new(local: AbsPath, sess: &ssh2::Session) -> (r: Result<DirBuf, String>)
        ensures
            r matches Ok(buf) ==> buf.local@ == local@,
    {
        match tcp::pwd(sess) {
            Ok(remote) => Ok(DirBuf { local, remote }),
            Err(e) => Err(e),
        }
    }
}

impl DirContents {
    /// List both panes: the local one from the raw names the caller
    /// enumerated, the remote one over the command channel.
    pub fn from(local_names: &Vec<String>, sess: &ssh2::Session, buf: &DirBuf, show_hidden: bool) -> (r:
        DirContents)
        ensures
            r.local.deep_view() == listed_plain(local_names.deep_view(), show_hidden),
            sorted_by_key(r.remote.deep_view(), false),
    {
        let local = sort_names(local_names, show_hidden, false);
        let remote = tcp::ls(sess, &buf.remote, show_hidden);
        DirContents { local, remote }
    }

    /// Replace the local listing with a fresh enumeration of the local
    /// working directory.
    pub fn update_local(&mut self, names: &Vec<String>, show_hidden: bool)
        ensures
            final(self).local.deep_view() == listed_plain(names.deep_view(), show_hidden),
            final(self).remote == old(self).remote,
    {
        self.local = sort_names(names, show_hidden, false);
    }
}

} // verus!
