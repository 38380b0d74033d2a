use vstd::prelude::*;
use vstd::string::*;
use crate::json::{json_str_at, lookup_str, lookup_view};
use crate::order::chars_of;

verus! {

/// The extension of every stored document.
pub const JSON_EXTENSION: &'static str = ".json";

/// The file that stores the document named `stem`.
pub fn json_file_name(stem: &str) -> (r: String)
    ensures
        r@ == stem@ + JSON_EXTENSION@,
{
    String::from_str(stem).concat(JSON_EXTENSION)
}

pub open spec fn is_ascii_char(c: char) -> bool {
    (c as u32) < 128
}

/// How an archive's name `YYYYMMDD_HHMMSS...` reads as a date and time,
/// `YYYY-MM-DDTHH:MM:SS`. A shorter name, or one that is not plain ASCII,
/// reads as it is.
pub open spec fn archive_label(name: Seq<char>) -> Seq<char> {
    if name.len() >= 15 && forall|i: int| 0 <= i < name.len() ==> is_ascii_char(#[trigger] name[i]) {
        name.subrange(0, 4) + seq!['-'] + name.subrange(4, 6) + seq!['-'] + name.subrange(6, 8)
            + seq!['T'] + name.subrange(9, 11) + seq![':'] + name.subrange(11, 13) + seq![':']
            + name.subrange(13, 15)
    } else {
        name
    }
}

/// Relies on `String: FromIterator<char>`: the characters in order.
#[verifier::external_body]
fn string_of(v: &Vec<char>) -> (r: String)
    ensures
        r@ == v@,
{
    v.iter().collect()
}

/// Appends `v[from..to]` to `out`.
fn push_range(out: &mut Vec<char>, v: &Vec<char>, from: usize, to: usize)
    requires
        from <= to <= v@.len(),
    ensures
        final(out)@ == old(out)@ + v@.subrange(from as int, to as int),
{
    let mut i: usize = from;
    while i < to
        invariant
            from <= i <= to <= v@.len(),
            out@ == old(out)@ + v@.subrange(from as int, i as int),
        decreases to - i,
    {
        out.push(v[i]);
        assert(v@.subrange(from as int, i + 1) =~= v@.subrange(from as int, i as int).push(
            v@[i as int],
        ));
        i = i + 1;
    }
}

/// The date and time that an archive's name stands for, as
/// `archive_label` describes it.
pub fn archive_created_at(filename: &str) -> (r: String)
    ensures
        r@ == archive_label(filename@),
{
    let v = chars_of(filename);
    let n = v.len();
    let mut ascii = true;
    let mut i: usize = 0;
    while i < n
        invariant
            n == v@.len(),
            i <= n,
            ascii == forall|k: int| 0 <= k < i ==> is_ascii_char(#[trigger] v@[k]),
        decreases n - i,
    {
        if (v[i] as u32) >= 128 {
            ascii = false;
        }
        i = i + 1;
    }
    if n < 15 || !ascii {
        return String::from_str(filename);
    }
    let mut out: Vec<char> = Vec::new();
    push_range(&mut out, &v, 0, 4);
    out.push('-');
    push_range(&mut out, &v, 4, 6);
    out.push('-');
    push_range(&mut out, &v, 6, 8);
    out.push('T');
    push_range(&mut out, &v, 9, 11);
    out.push(':');
    push_range(&mut out, &v, 11, 13);
    out.push(':');
    push_range(&mut out, &v, 13, 15);
    let ghost s = v@;
    assert(out@ =~= s.subrange(0, 4) + seq!['-'] + s.subrange(4, 6) + seq!['-'] + s.subrange(6, 8)
        + seq!['T'] + s.subrange(9, 11) + seq![':'] + s.subrange(11, 13) + seq![':']
        + s.subrange(13, 15));
    string_of(&out)
}

/// Where a stored session keeps the time it was created.
pub const CREATED_AT_POINTER: &'static str = "/meta/created_at";

/// The creation time that a session keeps when it is saved again: the one
/// its stored document holds, or empty if the document holds none as a
/// string; `now` if there was no document or it was not JSON.
pub open spec fn kept_created_at(found: Option<Option<Seq<char>>>, now: Seq<char>) -> Seq<char> {
    match found {
        None => now,
        Some(None) => Seq::<char>::empty(),
        Some(Some(s)) => s,
    }
}

/// The creation time for a session, given what a lookup in its stored
/// document found, as `kept_created_at` describes it.
pub fn created_at_from(found: Option<Option<String>>, now: String) -> (r: String)
    ensures
        r@ == kept_created_at(lookup_view(found), now@),
{
    match found {
        None => now,
        Some(None) => String::new(),
        Some(Some(s)) => s,
    }
}

/// The creation time for a session being saved, given the bytes of its
/// stored document if there was one, and the time now.
pub fn session_created_at(existing: Option<&str>, now: String) -> (r: String)
    ensures
        r@ == match existing {
            None => now@,
            Some(doc) => kept_created_at(json_str_at(doc@, CREATED_AT_POINTER@), now@),
        },
{
    match existing {
        None => now,
        Some(doc) => created_at_from(lookup_str(doc, CREATED_AT_POINTER), now),
    }
}

} // verus!
