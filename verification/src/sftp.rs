//! The SFTP backend: trusted calls into the `ssh2` crate, and the verified
//! remote listing built on them.
//!
//! Every call into `ssh2` goes through one small wrapper whose contract is
//! what that crate's source shows; everything around the calls is verified.

use vstd::prelude::*;

use crate::listing::{
    keeps, lemma_sort_names_kept, lemma_sort_names_sorted, sort_names, sorted_by_key,
};
use crate::paths::AbsPath;
use crate::strutil::{string_from_chars, trim_trailing_newline};

verus! {

#[verifier::external_type_specification]
#[verifier::external_body]
pub struct ExSession(ssh2::Session);

#[verifier::external_type_specification]
#[verifier::external_body]
pub struct ExSftp(ssh2::Sftp);

#[verifier::external_type_specification]
#[verifier::external_body]
pub struct ExChannel(ssh2::Channel);

#[verifier::external_type_specification]
#[verifier::external_body]
pub struct ExFile(ssh2::File);

/// One entry of a remote directory listing: its bare name and what the
/// server says it is.  A name the server did not give as text is empty.
pub struct RemoteEntry {
    pub name: String,
    pub is_dir: bool,
    pub is_symlink: bool,
}

/// The bare names of a run of listing entries.
pub open spec fn entry_names(entries: Seq<RemoteEntry>) -> Seq<Seq<char>> {
    entries.map_values(|e: RemoteEntry| e.name@)
}

/// Relies on ssh2's `Session::clone`: the session is a shared handle, so a
/// clone speaks to the same connection.
#[verifier::external_body]
pub fn session_clone(sess: &ssh2::Session) -> (r: ssh2::Session) {
    sess.clone()
}

/// Relies on ssh2's `Session::sftp`: opens an SFTP channel on the session.
#[verifier::external_body]
pub fn session_sftp(sess: &ssh2::Session) -> (r: Result<ssh2::Sftp, String>) {
    sess.sftp().map_err(|e| e.to_string())
}

/// Relies on ssh2's `Session::channel_session`: opens a command channel.
#[verifier::external_body]
pub fn session_channel(sess: &ssh2::Session) -> (r: Result<ssh2::Channel, String>) {
    sess.channel_session().map_err(|e| e.to_string())
}

/// Relies on ssh2's `Channel::exec`: asks the remote host to run `command`.
#[verifier::external_body]
pub fn channel_exec(ch: &mut ssh2::Channel, command: &str) -> (r: Result<(), String>) {
    ch.exec(command).map_err(|e| e.to_string())
}

/// Relies on std's `Read::read_to_string` on ssh2's `Channel`: reads what
/// the remote command printed, as text.
#[verifier::external_body]
pub fn channel_read_string(ch: &mut ssh2::Channel) -> (r: Result<String, String>) {
    let mut s = String::new();
    match std::io::Read::read_to_string(ch, &mut s) {
        Ok(_) => Ok(s),
        Err(e) => Err(e.to_string()),
    }
}

/// Relies on ssh2's `Sftp::readdir`: lists a remote directory without the
/// implied `.` and `..`, each entry with the server's type flags.
#[verifier::external_body]
pub fn sftp_readdir(sftp: &ssh2::Sftp, dir: &str) -> (r: Result<Vec<RemoteEntry>, String>) {
    match sftp.readdir(std::path::Path::new(dir)) {
        Ok(entries) => Ok(
            entries.into_iter().map(
                |(p, st)| RemoteEntry {
                    name: p.file_name().and_then(|n| n.to_str()).unwrap_or("").to_string(),
                    is_dir: st.is_dir(),
                    is_symlink: st.file_type().is_symlink(),
                },
            ).collect(),
        ),
        Err(e) => Err(e.to_string()),
    }
}

/// Relies on ssh2's `Sftp::opendir`: succeeds only when the path can be
/// opened as a directory right now.
#[verifier::external_body]
pub fn sftp_opendir_ok(sftp: &ssh2::Sftp, dir: &str) -> (r: bool) {
    sftp.opendir(std::path::Path::new(dir)).is_ok()
}

/// Relies on ssh2's `Sftp::open`: opens a remote file for reading.
#[verifier::external_body]
pub fn sftp_open(sftp: &ssh2::Sftp, path: &str) -> (r: Result<ssh2::File, String>) {
    sftp.open(std::path::Path::new(path)).map_err(|e| e.to_string())
}

/// Relies on ssh2's `Sftp::create`: opens a remote file for writing,
/// truncating what was there.
#[verifier::external_body]
pub fn sftp_create(sftp: &ssh2::Sftp, path: &str) -> (r: Result<ssh2::File, String>) {
    sftp.create(std::path::Path::new(path)).map_err(|e| e.to_string())
}

/// Relies on ssh2's `File::stat`: whether the server reports the open file
/// as a regular file.
#[verifier::external_body]
pub fn file_is_regular(f: &mut ssh2::File) -> (r: Result<bool, String>) {
    match f.stat() {
        Ok(st) => Ok(st.is_file()),
        Err(e) => Err(e.to_string()),
    }
}

/// Relies on std's `Read::read_to_end` on ssh2's `File`: reads the whole
/// remote file into memory.
#[verifier::external_body]
pub fn file_read_all(f: &mut ssh2::File) -> (r: Result<Vec<u8>, String>) {
    let mut buf: Vec<u8> = Vec::new();
    match std::io::Read::read_to_end(f, &mut buf) {
        Ok(_) => Ok(buf),
        Err(e) => Err(e.to_string()),
    }
}

/// Relies on std's `Write::write_all` on ssh2's `File`: writes all the given
/// bytes to the open remote file.
#[verifier::external_body]
pub fn file_write_all(f: &mut ssh2::File, bytes: &[u8]) -> (r: Result<(), String>) {
    std::io::Write::write_all(f, bytes).map_err(|e| e.to_string())
}

/// Relies on crossbeam-channel's `after` and `Receiver::recv`: waits a few
/// tens of milliseconds before the directory-visibility race is probed
/// again.
#[verifier::external_body]
pub fn pause_briefly() {
    let _ = crossbeam_channel::after(core::time::Duration::from_millis(20)).recv();
}

/// List a remote directory for display, as `ls` would: bare names, hidden
/// ones left out unless asked for, sorted case-insensitively.  A directory
/// that cannot be read shows as empty rather than failing.
pub fn ls(sftp: &ssh2::Sftp, dir: &AbsPath, show_hidden: bool) -> (r: Vec<String>)
    ensures
        sorted_by_key(r.deep_view(), true),
        forall|i: int| 0 <= i < r.deep_view().len() ==> keeps(#[trigger] r.deep_view()[i], show_hidden),
{
    let text = dir.to_text();
    let names: Vec<String> = match sftp_readdir(sftp, text.as_str()) {
        Ok(entries) => {
            let mut names: Vec<String> = Vec::new();
            let mut i: usize = 0;
            proof {
                assert(names.deep_view() =~= entry_names(entries@.take(0)));
            }
            while i < entries.len()
                invariant
                    0 <= i <= entries@.len(),
                    names.deep_view() == entry_names(entries@.take(i as int)),
                decreases entries.len() - i,
            {
                let ghost old_names = names.deep_view();
                let nm = entries[i].name.clone();
                proof {
                    assert(nm@ == entries@[i as int].name@);
                }
                names.push(nm);
                proof {
                    assert(names.deep_view() =~= old_names.push(entries@[i as int].name@));
                    assert(entry_names(entries@.take(i as int + 1)) =~= entry_names(
                        entries@.take(i as int),
                    ).push(entries@[i as int].name@));
                }
                i = i + 1;
            }
            proof {
                assert(entries@.take(entries@.len() as int) =~= entries@);
            }
            names
        },
        Err(_) => Vec::new(),
    };
    let r = sort_names(&names, show_hidden, true);
    proof {
        lemma_sort_names_sorted(
            crate::listing::filter_kept(names.deep_view(), show_hidden),
            true,
        );
        lemma_sort_names_kept(names.deep_view(), show_hidden, true);
    }
    r
}

/// The remote home directory, read by running `pwd` over a command channel,
/// with the trailing newline stripped.  Failing to run the command is a
/// fatal startup condition, reported to the caller.
pub fn home_dir(sess: &ssh2::Session) -> (r: Result<AbsPath, String>) {
    let mut ch = match session_channel(sess) {
        Ok(ch) => ch,
        Err(e) => {
            return Err(e);
        },
    };
    if let Err(e) = channel_exec(&mut ch, "pwd") {
        return Err(e);
    }
    let out = match channel_read_string(&mut ch) {
        Ok(s) => s,
        Err(e) => {
            return Err(e);
        },
    };
    let trimmed = trim_trailing_newline(out.as_str());
    let text = string_from_chars(&trimmed);
    Ok(AbsPath::parse(text.as_str()))
}

} // verus!
