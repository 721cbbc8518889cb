use vstd::prelude::*;
use vstd::string::*;

use crate::clock::{is_timestamp_text, now_rfc3339};

verus! {

/// The path of the log of device `id` in the directory `dir`: `id` itself
/// when `dir` is empty, otherwise `dir` and `id` joined by one `/`.
pub open spec fn log_path_spec(dir: Seq<char>, id: Seq<char>) -> Seq<char> {
    if dir.len() == 0 {
        id
    } else if dir.last() == '/' {
        dir + id
    } else {
        dir.push('/') + id
    }
}

/// One line of a device log: the time it was received, a space, the
/// payload, and a line break.
pub open spec fn log_entry_spec(timestamp: Seq<char>, payload: Seq<char>) -> Seq<char> {
    (timestamp.push(' ') + payload).push('\n')
}

/// The path of the log file of device `id` inside `output_dir`.
pub fn log_path(output_dir: &str, id: &str) -> (r: String)
    ensures
        r@ == log_path_spec(output_dir@, id@),
{
    let mut out = String::from_str(output_dir);
    let n: usize = output_dir.unicode_len();
    if n > 0 && output_dir.get_char(n - 1) != '/' {
        proof {
            reveal_strlit("/");
        }
        out.append("/");
    }
    out.append(id);
    assert(out@ =~= log_path_spec(output_dir@, id@));
    out
}

/// The log line for `payload` received at `timestamp`.
pub fn log_entry(timestamp: &str, payload: &str) -> (r: String)
    ensures
        r@ == log_entry_spec(timestamp@, payload@),
{
    proof {
        reveal_strlit(" ");
        reveal_strlit("\n");
    }
    let mut out = String::from_str(timestamp);
    out.append(" ");
    out.append(payload);
    out.append("\n");
    assert(out@ =~= log_entry_spec(timestamp@, payload@));
    out
}

/// The log line for `payload`, stamped with the current time.
pub fn log_entry_now(payload: &str) -> (r: String)
    ensures
        exists|t: Seq<char>| is_timestamp_text(t) && r@ == log_entry_spec(t, payload@),
{
    let stamp = now_rfc3339();
    log_entry(stamp.as_str(), payload)
}

/// The timestamp of a log line is the text before its first space, and the
/// payload what lies between that space and the final line break.
pub proof fn lemma_log_entry_splits(t: Seq<char>, p: Seq<char>)
    requires
        is_timestamp_text(t),
    ensures
        log_entry_spec(t, p).subrange(0, t.len() as int) == t,
        log_entry_spec(t, p)[t.len() as int] == ' ',
        forall|k: int| 0 <= k < t.len() ==> log_entry_spec(t, p)[k] != ' ',
        log_entry_spec(t, p).subrange(t.len() as int + 1, log_entry_spec(t, p).len() - 1) == p,
        log_entry_spec(t, p).last() == '\n',
{
    let e = log_entry_spec(t, p);
    assert(e.subrange(0, t.len() as int) =~= t);
    assert(e.subrange(t.len() as int + 1, e.len() - 1) =~= p);
    assert forall|k: int| 0 <= k < t.len() implies e[k] != ' ' by {
        assert(e[k] == t[k]);
    }
}

} // verus!
