//! Reading process figures out of the text of `/proc` files.
use crate::decimal::{parse_unsigned, read_unsigned};
use crate::text::{
    chars_of, has_prefix, parts, split_on, split_words, starts_with, views, words,
};
use vstd::prelude::*;
use vstd::slice::slice_subrange;

verus! {

/// The unsigned 64-bit integer that a text denotes.
pub open spec fn read_u64(s: Seq<char>) -> Option<nat> {
    read_unsigned(s, u64::MAX as nat)
}

/// The first line from `i` on that starts with "VmRSS:", or the number of
/// lines.
pub open spec fn rss_line(lines: Seq<Seq<char>>, i: int) -> int
    decreases lines.len() - i,
{
    if i < 0 || i >= lines.len() {
        lines.len() as int
    } else if has_prefix(lines[i], "VmRSS:"@) {
        i
    } else {
        rss_line(lines, i + 1)
    }
}

/// Resident memory in KiB as `/proc/self/status` gives it: the first word
/// behind the first "VmRSS:" that starts a line.
pub open spec fn memory_kb_in(text: Seq<char>) -> Option<nat> {
    let lines = parts(text, '\n');
    let i = rss_line(lines, 0);
    if i < lines.len() {
        let w = words(lines[i].skip(6));
        if w.len() > 0 {
            read_u64(w[0])
        } else {
            None
        }
    } else {
        None
    }
}

/// Reads resident memory in KiB out of the text of `/proc/self/status`.
pub fn read_memory_kb(text: &str) -> (r: Option<u64>)
    ensures
        match r {
            Some(n) => memory_kb_in(text@) == Some(n as nat),
            None => memory_kb_in(text@) is None,
        },
{
    let cs = chars_of(text);
    let lines = split_on(cs.as_slice(), '\n');
    let key = chars_of("VmRSS:");
    proof {
        reveal_strlit("VmRSS:");
    }
    let n: usize = lines.len();
    let mut i: usize = 0;
    while i < n
        invariant
            n == lines@.len(),
            i <= n,
            views(lines@) == parts(text@, '\n'),
            key@ == "VmRSS:"@,
            key@.len() == 6,
            rss_line(views(lines@), 0) == rss_line(views(lines@), i as int),
        decreases n - i,
    {
        let line = lines[i];
        assert(views(lines@)[i as int] == line@);
        if starts_with(line, key.as_slice()) {
            let rest = slice_subrange(line, 6, line.len());
            assert(rest@ =~= line@.skip(6));
            let w = split_words(rest);
            if w.len() > 0 {
                assert(views(w@)[0] == w@[0]@);
                return parse_unsigned(w[0], u64::MAX);
            }
            assert(views(w@).len() == 0);
            return None;
        }
        i = i + 1;
    }
    None
}

/// Cumulative CPU ticks as `/proc/self/stat` gives them: the sum modulo 2^64 of
/// the twelfth and thirteenth word between the first ')' and the next or the
/// end.
pub open spec fn cpu_ticks_in(text: Seq<char>) -> Option<nat> {
    let p = parts(text, ')');
    if p.len() < 2 {
        None
    } else {
        let w = words(p[1]);
        if w.len() < 13 {
            None
        } else {
            match (read_u64(w[11]), read_u64(w[12])) {
                (Some(utime), Some(stime)) => Some(
                    (utime as u64).wrapping_add(stime as u64) as nat,
                ),
                _ => None,
            }
        }
    }
}

/// Reads cumulative CPU ticks out of the text of `/proc/self/stat`.
pub fn read_cpu_ticks(text: &str) -> (r: Option<u64>)
    ensures
        match r {
            Some(n) => cpu_ticks_in(text@) == Some(n as nat),
            None => cpu_ticks_in(text@) is None,
        },
{
    let cs = chars_of(text);
    let p = split_on(cs.as_slice(), ')');
    assert(views(p@).len() == p@.len());
    if p.len() < 2 {
        return None;
    }
    assert(views(p@)[1] == p@[1]@);
    let w = split_words(p[1]);
    assert(views(w@).len() == w@.len());
    if w.len() < 13 {
        return None;
    }
    assert(views(w@)[11] == w@[11]@);
    assert(views(w@)[12] == w@[12]@);
    match (parse_unsigned(w[11], u64::MAX), parse_unsigned(w[12], u64::MAX)) {
        (Some(utime), Some(stime)) => Some(utime.wrapping_add(stime)),
        _ => None,
    }
}

} // verus!
