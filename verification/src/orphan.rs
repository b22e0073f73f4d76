//! Startup cleanup: which processes from a previous run are killed, and
//! which leftover media files are removed.

use vstd::prelude::*;

use crate::text::{
    chars_of, parse_i32, parse_signed, split_pieces, split_state, starts_with_seq, string_of, trim_chars,
    trim_seq,
};

verus! {

/// The pieces of `s` between line feeds (the last one possibly empty).
pub open spec fn line_pieces(s: Seq<char>) -> Seq<Seq<char>> {
    split_pieces(s, '\n')
}

/// The process ids a list of lines names, in order, without `own_pid`:
/// each line, trimmed, that parses as an `i32`.
pub open spec fn pids_of(lines: Seq<Seq<char>>, own_pid: i32) -> Seq<i32>
    decreases lines.len(),
{
    if lines.len() == 0 {
        Seq::empty()
    } else {
        let prev = pids_of(lines.drop_last(), own_pid);
        match parse_signed(trim_seq(lines.last()), i32::MIN as int, i32::MAX as int) {
            Some(p) => if p != own_pid { prev.push(p as i32) } else { prev },
            None => prev,
        }
    }
}

fn pid_of_line(line: &Vec<char>, own_pid: i32) -> (r: Option<i32>)
    ensures
        r == match parse_signed(trim_seq(line@), i32::MIN as int, i32::MAX as int) {
            Some(p) => if p != own_pid { Some(p as i32) } else { None },
            None => None,
        },
{
    let t = string_of(&trim_chars(line));
    match parse_i32(t.as_str()) {
        Some(p) => if p != own_pid { Some(p) } else { None },
        None => None,
    }
}

/// The ids `pgrep` printed, one per line, except this process's own.
pub fn orphan_pids(pgrep_output: &str, own_pid: i32) -> (pids: Vec<i32>)
    ensures
        pids@ == pids_of(line_pieces(pgrep_output@), own_pid),
{
    let v = chars_of(pgrep_output);
    let n = v.len();
    let mut pids: Vec<i32> = Vec::new();
    let mut cur: Vec<char> = Vec::new();
    let mut i: usize = 0;
    while i < n
        invariant
            n == v@.len(),
            v@ == pgrep_output@,
            i <= n,
            cur@ == split_state(v@.subrange(0, i as int), '\n').1,
            pids@ == pids_of(split_state(v@.subrange(0, i as int), '\n').0, own_pid),
        decreases n - i,
    {
        proof {
            assert(v@.subrange(0, i + 1).drop_last() =~= v@.subrange(0, i as int));
        }
        if v[i] == '\n' {
            let ghost done = split_state(v@.subrange(0, i as int), '\n').0;
            proof {
                assert(done.push(cur@).drop_last() =~= done);
            }
            match pid_of_line(&cur, own_pid) {
                Some(p) => pids.push(p),
                None => {},
            }
            cur = Vec::new();
        } else {
            cur.push(v[i]);
        }
        i = i + 1;
    }
    let ghost done = split_state(v@.subrange(0, n as int), '\n').0;
    proof {
        assert(v@.subrange(0, n as int) =~= v@);
        assert(done.push(cur@).drop_last() =~= done);
    }
    match pid_of_line(&cur, own_pid) {
        Some(p) => pids.push(p),
        None => {},
    }
    pids
}

/// The cleanup never names its own process: every id it returns is a
/// parsed line and differs from `own_pid`.
pub proof fn lemma_orphan_pids_exclude_own(lines: Seq<Seq<char>>, own_pid: i32)
    ensures
        forall|i: int| 0 <= i < pids_of(lines, own_pid).len() ==> pids_of(lines, own_pid)[i] != own_pid,
        pids_of(lines, own_pid).len() <= lines.len(),
    decreases lines.len(),
{
    if lines.len() > 0 {
        lemma_orphan_pids_exclude_own(lines.drop_last(), own_pid);
    }
}

/// Whether a file in `/tmp` is a leftover FIFO or pipe of an earlier run.
pub open spec fn is_stale_media_name(name: Seq<char>) -> bool {
    starts_with_seq(name, "brivva_audio_"@) || starts_with_seq(name, "brivva_video_"@)
}

/// Whether a leftover file in `/tmp` is removed at startup.
pub fn is_stale_media_file(name: &str) -> (b: bool)
    ensures
        b == is_stale_media_name(name@),
{
    let v = chars_of(name);
    let a = chars_of("brivva_audio_");
    let w = chars_of("brivva_video_");
    crate::text::occurs_at_exec(&v, &a, 0) || crate::text::occurs_at_exec(&v, &w, 0)
}

} // verus!
