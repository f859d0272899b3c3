//! The rotating log file: its settings, when it rotates, the renames that
//! rotate it, and the form of a line.

use vstd::prelude::*;
use crate::text::{chars_of, extend_chars, extend_str, string_of};
use crate::num::{int_text, i32_text};

verus! {

/// Where the log goes and how it rotates.
#[derive(Debug, Clone)]
pub struct LogState {
    pub path: String,
    /// Size at which the log rotates; 0 disables rotation.
    pub max_bytes: u64,
    /// Rotated files kept; 0 or less disables rotation.
    pub max_files: i32,
}

/// The log settings: the size limit in bytes (a negative megabyte count
/// counts as 0).
pub fn init(path: String, max_size_mb: i32, max_files: i32) -> (st: LogState)
    ensures
        st.path@ == path@,
        st.max_bytes == (if max_size_mb < 0 { 0 } else { max_size_mb * 1048576 }),
        st.max_files == max_files,
{
    let mb: u64 = if max_size_mb < 0 { 0 } else { max_size_mb as u64 };
    LogState { path, max_bytes: mb * 1048576, max_files }
}

/// The log rotates when rotation is on and the file (of size `current_len`,
/// `None` when it cannot be read) has reached the limit.
pub fn needs_rotation(st: &LogState, current_len: Option<u64>) -> (r: bool)
    ensures
        r == (st.max_bytes > 0 && st.max_files > 0 && match current_len {
            Some(l) => l >= st.max_bytes,
            None => false,
        }),
{
    if st.max_bytes == 0 || st.max_files <= 0 {
        return false;
    }
    match current_len {
        Some(l) => l >= st.max_bytes,
        None => false,
    }
}

/// The name of rotated generation `i`: `<path>.<i>`.
pub open spec fn generation(path: Seq<char>, i: int) -> Seq<char> {
    path + seq!['.'] + int_text(i)
}

fn generation_name(path: &str, i: i32) -> (r: String)
    ensures
        r@ == generation(path@, i as int),
{
    let mut t: Vec<char> = Vec::new();
    extend_str(&mut t, path);
    t.push('.');
    extend_chars(&mut t, &i32_text(i));
    string_of(&t)
}

/// How the log rotates: the oldest generation `<path>.<max_files>` is
/// deleted, each generation `i` from `max_files - 1` down to 1 becomes
/// `i + 1`, and the live log becomes generation 1.
pub fn rotation_plan(st: &LogState) -> (r: (String, Vec<(String, String)>))
    requires
        st.max_files > 0,
    ensures
        r.0@ == generation(st.path@, st.max_files as int),
        r.1@.len() == st.max_files,
        forall|k: int|
            0 <= k < st.max_files - 1 ==> (#[trigger] r.1@[k]).0@ == generation(st.path@, st.max_files - 1 - k)
                && r.1@[k].1@ == generation(st.path@, st.max_files - k),
        r.1@[st.max_files - 1].0@ == st.path@,
        r.1@[st.max_files - 1].1@ == generation(st.path@, 1),
{
    let p = st.path.as_str();
    let n = st.max_files;
    let oldest = generation_name(p, n);
    let mut renames: Vec<(String, String)> = Vec::new();
    let mut i: i32 = n - 1;
    while i >= 1
        invariant
            0 <= i < n,
            n == st.max_files,
            p@ == st.path@,
            renames@.len() == n - 1 - i,
            forall|k: int|
                0 <= k < renames@.len() ==> (#[trigger] renames@[k]).0@ == generation(p@, n - 1 - k)
                    && renames@[k].1@ == generation(p@, n - k),
        decreases i,
    {
        let from = generation_name(p, i);
        let to = generation_name(p, i + 1);
        renames.push((from, to));
        i = i - 1;
    }
    renames.push((String::from_str(p), generation_name(p, 1)));
    (oldest, renames)
}

/// A log line: `[<local time>] [<category>] <message>` and a newline.
pub fn log_line(category: &str, msg: &str) -> (r: String)
    ensures
        exists|ts: Seq<char>| crate::clock::is_local_stamp(ts) && r@ == seq!['['] + ts + "] ["@ + category@ + "] "@ + msg@ + seq!['\n'],
{
    let ts = crate::clock::local_timestamp();
    let mut t: Vec<char> = Vec::new();
    t.push('[');
    extend_str(&mut t, ts.as_str());
    extend_str(&mut t, "] [");
    extend_str(&mut t, category);
    extend_str(&mut t, "] ");
    extend_str(&mut t, msg);
    t.push('\n');
    assert(t@ =~= seq!['['] + ts@ + "] ["@ + category@ + "] "@ + msg@ + seq!['\n']);
    string_of(&t)
}

} // verus!
