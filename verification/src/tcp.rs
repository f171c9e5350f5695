//! The command-channel backend: listing a remote directory and locating
//! the remote home directory by running `ls` and `pwd` on the host.

use vstd::prelude::*;

use crate::listing::{sort_plain, sorted_by_key};
use crate::paths::AbsPath;
use crate::sftp::{channel_exec, channel_read_string, session_channel};
use crate::strutil::{split_lines, string_from_chars, trim_trailing_newline};

verus! {

/// List a remote directory by running `ls` — with `-a` when hidden
/// entries are wanted — and sorting the printed lines in plain byte
/// order.  A directory whose listing cannot be read shows as empty.
pub fn ls(sess: &ssh2::Session, buf: &AbsPath, show_hidden: bool) -> (r: Vec<String>)
    ensures
        sorted_by_key(r.deep_view(), false),
{
    let mut command = String::new();
    if show_hidden {
        command.push_str("ls -a ");
    } else {
        command.push_str("ls ");
    }
    let text = buf.to_text();
    command.push_str(text.as_str());
    let mut ch = match session_channel(sess) {
        Ok(ch) => ch,
        Err(_) => {
            let r: Vec<String> = Vec::new();
            return r;
        },
    };
    if let Err(_) = channel_exec(&mut ch, command.as_str()) {
        let r: Vec<String> = Vec::new();
        return r;
    }
    let out = match channel_read_string(&mut ch) {
        Ok(out) => out,
        Err(_) => {
            let r: Vec<String> = Vec::new();
            return r;
        },
    };
    let items = split_lines(out.as_str());
    let r = sort_plain(items);
    proof {
        crate::listing::lemma_sort_names_sorted(
            crate::strutil::lines_spec(out@),
            false,
        );
    }
    r
}

/// The remote working directory, read by running `pwd` over a command
/// channel, with the trailing newline stripped.  Failure is a fatal
/// startup condition, reported to the caller.
pub fn pwd(sess: &ssh2::Session) -> (r: Result<AbsPath, String>) {
    let mut ch = match session_channel(sess) {
        Ok(ch) => ch,
        Err(e) => {
            return Err(e);
        },
    };
    if let Err(e) = channel_exec(&mut ch, "pwd") {
        return Err(e);
    }
    let out = match channel_read_string(&mut ch) {
        Ok(out) => out,
        Err(e) => {
            return Err(e);
        },
    };
    let trimmed = trim_trailing_newline(out.as_str());
    let text = string_from_chars(&trimmed);
    Ok(AbsPath::parse(text.as_str()))
}

} // verus!
