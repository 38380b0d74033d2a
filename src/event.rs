use vstd::prelude::*;
use vstd::string::*;
use crate::json::{decode_lossy, json_str_at, lookup_str, lookup_view, utf8_lossy};

verus! {

/// The byte sequence `data: ` that opens an event line.
pub open spec fn data_prefix() -> Seq<u8> {
    seq![100u8, 97u8, 116u8, 97u8, 58u8, 32u8]
}

/// The payload `[DONE]` that ends a stream without content.
pub open spec fn done_sentinel() -> Seq<u8> {
    seq![91u8, 68u8, 79u8, 78u8, 69u8, 93u8]
}

/// Where the text of an incremental update sits in an event's JSON payload.
pub const DELTA_POINTER: &'static str = "/choices/0/delta/content";

pub open spec fn delta_pointer() -> Seq<char> {
    DELTA_POINTER@
}

/// Tab, line feed, vertical tab, form feed, carriage return and space.
pub open spec fn is_space(b: u8) -> bool {
    b == 32u8 || (9u8 <= b && b <= 13u8)
}

pub open spec fn trim_start(s: Seq<u8>) -> Seq<u8>
    decreases s.len(),
{
    if s.len() > 0 && is_space(s[0]) {
        trim_start(s.drop_first())
    } else {
        s
    }
}

pub open spec fn trim_end(s: Seq<u8>) -> Seq<u8>
    decreases s.len(),
{
    if s.len() > 0 && is_space(s.last()) {
        trim_end(s.drop_last())
    } else {
        s
    }
}

/// The line without the white space around it.
pub open spec fn trim(s: Seq<u8>) -> Seq<u8> {
    trim_end(trim_start(s))
}

/// The payload of an event line that may carry content: the trimmed line
/// must start with `data: `, and what follows must not be `[DONE]`.
pub open spec fn payload_of(line: Seq<u8>) -> Option<Seq<u8>> {
    let t = trim(line);
    if t.len() >= 6 && t.subrange(0, 6) == data_prefix() {
        let payload = t.subrange(6, t.len() as int);
        if payload == done_sentinel() {
            None
        } else {
            Some(payload)
        }
    } else {
        None
    }
}

/// Only a non-empty string found in a payload counts as an update.
pub open spec fn nonempty(found: Option<Option<Seq<char>>>) -> Option<Seq<char>> {
    match found {
        Some(Some(c)) => if c.len() > 0 {
            Some(c)
        } else {
            None
        },
        _ => None,
    }
}

/// The text that one event line contributes to the response, if any.
pub open spec fn delta_of_line(line: Seq<u8>) -> Option<Seq<char>> {
    match payload_of(line) {
        Some(p) => nonempty(json_str_at(utf8_lossy(p), delta_pointer())),
        None => None,
    }
}

pub open spec fn opt_view(o: Option<String>) -> Option<Seq<char>> {
    match o {
        Some(s) => Some(s@),
        None => None,
    }
}

/// Whether `s` begins with `p`.
pub fn starts_with(s: &[u8], p: &[u8]) -> (r: bool)
    ensures
        r == (p@.len() <= s@.len() && s@.subrange(0, p@.len() as int) == p@),
{
    if p.len() > s.len() {
        return false;
    }
    let mut i: usize = 0;
    while i < p.len()
        invariant
            p@.len() <= s@.len(),
            i <= p@.len(),
            forall|k: int| 0 <= k < i ==> s@[k] == p@[k],
        decreases p@.len() - i,
    {
        if s[i] != p[i] {
            assert(s@.subrange(0, p@.len() as int)[i as int] != p@[i as int]);
            return false;
        }
        i = i + 1;
    }
    assert(s@.subrange(0, p@.len() as int) =~= p@);
    true
}

/// The bounds `lo..hi` of `line` once the white space around it is cut off.
pub fn trim_bounds(line: &[u8]) -> (r: (usize, usize))
    ensures
        r.0 <= r.1 <= line@.len(),
        line@.subrange(r.0 as int, r.1 as int) == trim(line@),
{
    let n = line.len();
    let mut lo: usize = 0;
    assert(line@.subrange(0, n as int) =~= line@);
    while lo < n && (line[lo] == 32u8 || (9u8 <= line[lo] && line[lo] <= 13u8))
        invariant
            n == line@.len(),
            lo <= n,
            trim_start(line@) == trim_start(line@.subrange(lo as int, n as int)),
        decreases n - lo,
    {
        assert(line@.subrange(lo as int, n as int).drop_first() =~= line@.subrange(
            lo + 1,
            n as int,
        ));
        lo = lo + 1;
    }
    let ghost ts = line@.subrange(lo as int, n as int);
    assert(trim_start(ts) == ts);
    let mut hi: usize = n;
    while hi > lo && (line[hi - 1] == 32u8 || (9u8 <= line[hi - 1] && line[hi - 1] <= 13u8))
        invariant
            lo <= hi <= n,
            n == line@.len(),
            trim_end(ts) == trim_end(line@.subrange(lo as int, hi as int)),
        decreases hi - lo,
    {
        assert(line@.subrange(lo as int, hi as int).drop_last() =~= line@.subrange(
            lo as int,
            hi - 1,
        ));
        hi = hi - 1;
    }
    (lo, hi)
}

/// The payload of an event line that may carry content, as `payload_of`
/// describes it.
pub fn event_payload(line: &[u8]) -> (r: Option<Vec<u8>>)
    ensures
        match r {
            Some(p) => payload_of(line@) == Some(p@),
            None => payload_of(line@) is None,
        },
{
    let (lo, hi) = trim_bounds(line);
    let ghost t = trim(line@);
    let prefix: [u8; 6] = [100u8, 97u8, 116u8, 97u8, 58u8, 32u8];
    assert(prefix@ =~= data_prefix());
    let mut payload: Vec<u8> = Vec::new();
    if hi - lo < 6 {
        return None;
    }
    let mut i: usize = 0;
    while i < 6
        invariant
            lo <= hi <= line@.len(),
            hi - lo >= 6,
            i <= 6,
            t == line@.subrange(lo as int, hi as int),
            t == trim(line@),
            prefix@ == data_prefix(),
            forall|k: int| 0 <= k < i ==> t[k] == prefix@[k],
        decreases 6 - i,
    {
        assert(t[i as int] == line@[lo + i]);
        if line[lo + i] != prefix[i] {
            assert(t.subrange(0, 6)[i as int] != data_prefix()[i as int]);
            assert(t.subrange(0, 6) != data_prefix());
            return None;
        }
        i = i + 1;
    }
    assert(t.subrange(0, 6) =~= data_prefix());
    let mut j: usize = lo + 6;
    while j < hi
        invariant
            lo + 6 <= j <= hi <= line@.len(),
            payload@ == line@.subrange(lo + 6, j as int),
        decreases hi - j,
    {
        payload.push(line[j]);
        assert(line@.subrange(lo + 6, j + 1) =~= line@.subrange(lo + 6, j as int).push(
            line@[j as int],
        ));
        j = j + 1;
    }
    assert(payload@ =~= t.subrange(6, t.len() as int));
    let done: [u8; 6] = [91u8, 68u8, 79u8, 78u8, 69u8, 93u8];
    assert(done@ =~= done_sentinel());
    let is_done = starts_with(payload.as_slice(), &done) && payload.len() == 6;
    if payload.len() == 6 {
        assert(payload@.subrange(0, 6) =~= payload@);
    }
    if is_done {
        assert(payload@ =~= done_sentinel());
        None
    } else {
        assert(payload@ != done_sentinel());
        Some(payload)
    }
}

/// Keeps a string found in a payload only when it is non-empty.
pub fn nonempty_delta(found: Option<Option<String>>) -> (r: Option<String>)
    ensures
        opt_view(r) == nonempty(lookup_view(found)),
{
    match found {
        Some(Some(s)) => if s.as_str().is_empty() {
            None
        } else {
            Some(s)
        },
        _ => None,
    }
}

/// The text that one event line contributes: nothing for a blank, comment
/// or `[DONE]` line, for a payload that is not JSON, or for one without a
/// non-empty string at `choices[0].delta.content`.
pub fn line_delta(line: &[u8]) -> (r: Option<String>)
    ensures
        opt_view(r) == delta_of_line(line@),
{
    match event_payload(line) {
        Some(p) => {
            let text = decode_lossy(p.as_slice());
            let found = lookup_str(text.as_str(), DELTA_POINTER);
            nonempty_delta(found)
        },
        None => None,
    }
}

} // verus!
