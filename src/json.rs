//! Structured response values, and the two ways of finding a value in one.
use vstd::prelude::*;
use crate::text::{all_digits, chars_of, digits_value, parse_usize};

verus! {

/// A structured value as a device's management API returns it.
///
/// A number keeps the decimal text the response wrote for it; an object keeps
/// its entries in order.
#[derive(Debug, PartialEq, Eq)]
pub enum JsonValue {
    Null,
    Bool(bool),
    Number(String),
    Str(String),
    Array(Vec<JsonValue>),
    Object(Vec<(String, JsonValue)>),
}

/// The value stored under `key` in an object's entries (the last such entry,
/// as a repeated name overrides the earlier ones).
pub open spec fn entries_get(entries: Seq<(String, JsonValue)>, key: Seq<char>) -> Option<JsonValue>
    decreases entries.len(),
{
    if entries.len() == 0 {
        None
    } else if entries.last().0@ == key {
        Some(entries.last().1)
    } else {
        entries_get(entries.drop_last(), key)
    }
}

/// Shallow lookup: the value under `key` when `v` is an object holding it.
pub open spec fn key_lookup(v: JsonValue, key: Seq<char>) -> Option<JsonValue> {
    match v {
        JsonValue::Object(entries) => entries_get(entries@, key),
        _ => None,
    }
}

/// Whether two character sequences are equal, one held as text and one as characters.
fn text_equals(s: &str, t: &Vec<char>) -> (r: bool)
    ensures
        r == (s@ == t@),
{
    let n = s.unicode_len();
    if n != t.len() {
        return false;
    }
    let mut i: usize = 0;
    while i < n
        invariant
            n == s@.len(),
            n == t@.len(),
            0 <= i <= n,
            forall|j: int| 0 <= j < i ==> s@[j] == t@[j],
        decreases n - i,
    {
        if s.get_char(i) != t[i] {
            return false;
        }
        i = i + 1;
    }
    assert(s@ =~= t@);
    true
}

/// Finds the last entry of an object whose name is `key`.
fn object_get<'a>(entries: &'a Vec<(String, JsonValue)>, key: &Vec<char>) -> (r: Option<&'a JsonValue>)
    ensures
        match r {
            Some(x) => entries_get(entries@, key@) == Some(*x),
            None => entries_get(entries@, key@) is None,
        },
{
    let mut i: usize = entries.len();
    assert(entries@.take(entries@.len() as int) =~= entries@);
    while i > 0
        invariant
            0 <= i <= entries@.len(),
            entries_get(entries@, key@) == entries_get(entries@.take(i as int), key@),
        decreases i,
    {
        assert(entries@.take(i as int).drop_last() =~= entries@.take(i - 1));
        assert(entries@.take(i as int).last() == entries@[i - 1]);
        if text_equals(entries[i - 1].0.as_str(), key) {
            return Some(&entries[i - 1].1);
        }
        i = i - 1;
    }
    None
}

/// Shallow lookup of `key` in `data`; absent when no key is given, when `data`
/// is not an object, or when the object has no such entry.
pub fn get_by_key<'a>(data: &'a JsonValue, key: Option<&str>) -> (r: Option<&'a JsonValue>)
    ensures
        match key {
            None => r is None,
            Some(k) => match r {
                Some(x) => key_lookup(*data, k@) == Some(*x),
                None => key_lookup(*data, k@) is None,
            },
        },
{
    match key {
        None => None,
        Some(k) => match data {
            JsonValue::Object(entries) => {
                let kc = chars_of(k);
                object_get(entries, &kc)
            },
            _ => None,
        },
    }
}

/// The pieces of `p` between slashes, in order (one more than it has slashes).
pub open spec fn split_path(p: Seq<char>) -> Seq<Seq<char>>
    decreases p.len(),
{
    if p.len() == 0 {
        seq![Seq::<char>::empty()]
    } else {
        let r = split_path(p.drop_last());
        if p.last() == '/' {
            r.push(Seq::<char>::empty())
        } else {
            r.update(r.len() - 1, r.last().push(p.last()))
        }
    }
}

pub proof fn lemma_split_path_nonempty(p: Seq<char>)
    ensures
        split_path(p).len() >= 1,
    decreases p.len(),
{
    if p.len() > 0 {
        lemma_split_path_nonempty(p.drop_last());
    }
}

/// A path segment with its escapes undone: `~1` stands for `/`, `~0` for `~`.
pub open spec fn unescape(t: Seq<char>) -> Seq<char>
    decreases t.len(),
{
    if t.len() == 0 {
        Seq::<char>::empty()
    } else if t.len() >= 2 && t[0] == '~' && t[1] == '1' {
        seq!['/'] + unescape(t.subrange(2, t.len() as int))
    } else if t.len() >= 2 && t[0] == '~' && t[1] == '0' {
        seq!['~'] + unescape(t.subrange(2, t.len() as int))
    } else {
        seq![t[0]] + unescape(t.drop_first())
    }
}

/// A segment read as a sequence index: digits only, no leading zero, fitting a `usize`.
pub open spec fn segment_index(t: Seq<char>) -> Option<int> {
    if t.len() > 0 && all_digits(t) && (t[0] != '0' || t.len() == 1) && digits_value(t)
        <= usize::MAX {
        Some(digits_value(t))
    } else {
        None
    }
}

/// One path segment applied to a value: an object's entry or a sequence's element.
pub open spec fn segment_step(v: JsonValue, t: Seq<char>) -> Option<JsonValue> {
    match v {
        JsonValue::Object(entries) => entries_get(entries@, t),
        JsonValue::Array(items) => match segment_index(t) {
            Some(i) => if i < items@.len() {
                Some(items@[i])
            } else {
                None
            },
            None => None,
        },
        _ => None,
    }
}

/// The value reached from `v` through the segments in order; absent as soon as one fails.
pub open spec fn resolve(v: JsonValue, segs: Seq<Seq<char>>) -> Option<JsonValue>
    decreases segs.len(),
{
    if segs.len() == 0 {
        Some(v)
    } else {
        match resolve(v, segs.drop_last()) {
            Some(w) => segment_step(w, segs.last()),
            None => None,
        }
    }
}

/// The unescaped segments of a path that starts with a slash.
pub open spec fn path_segments(p: Seq<char>) -> Seq<Seq<char>> {
    split_path(p).drop_first().map_values(|t: Seq<char>| unescape(t))
}

/// Structural lookup: the empty path names `v` itself; any other path starts
/// with a slash and is resolved segment by segment.
pub open spec fn pointer_lookup(v: JsonValue, p: Seq<char>) -> Option<JsonValue> {
    if p.len() == 0 {
        Some(v)
    } else if p[0] != '/' {
        None
    } else {
        resolve(v, path_segments(p))
    }
}

/// Once a segment fails to resolve, the whole path is absent.
pub proof fn lemma_resolve_stops(v: JsonValue, segs: Seq<Seq<char>>, k: int)
    requires
        0 <= k <= segs.len(),
        resolve(v, segs.take(k)) is None,
    ensures
        resolve(v, segs) is None,
    decreases segs.len(),
{
    if k < segs.len() {
        assert(segs.drop_last().take(k) =~= segs.take(k));
        lemma_resolve_stops(v, segs.drop_last(), k);
    } else {
        assert(segs.take(k) =~= segs);
    }
}

/// Splits a path at its slashes.
fn split_segments(p: &str) -> (r: Vec<Vec<char>>)
    ensures
        r@.map_values(|t: Vec<char>| t@) == split_path(p@),
{
    let n = p.unicode_len();
    let mut done: Vec<Vec<char>> = Vec::new();
    let mut cur: Vec<char> = Vec::new();
    let mut i: usize = 0;
    assert(p@.subrange(0, 0) =~= Seq::<char>::empty());
    assert(done@.map_values(|t: Vec<char>| t@).push(cur@) =~= split_path(p@.subrange(0, 0)));
    while i < n
        invariant
            n == p@.len(),
            0 <= i <= n,
            done@.map_values(|t: Vec<char>| t@).push(cur@) == split_path(p@.subrange(0, i as int)),
        decreases n - i,
    {
        let c = p.get_char(i);
        let ghost prev = split_path(p@.subrange(0, i as int));
        assert(p@.subrange(0, i + 1).drop_last() =~= p@.subrange(0, i as int));
        assert(p@.subrange(0, i + 1).last() == c);
        if c == '/' {
            let old_done = done;
            let old_cur = cur;
            done = old_done;
            done.push(old_cur);
            cur = Vec::new();
            assert(done@.map_values(|t: Vec<char>| t@).push(cur@) =~= prev.push(Seq::<char>::empty()));
        } else {
            let ghost before = cur@;
            cur.push(c);
            assert(done@.map_values(|t: Vec<char>| t@).push(cur@) =~= prev.update(prev.len() - 1, before.push(c)));
        }
        i = i + 1;
    }
    assert(p@.subrange(0, n as int) =~= p@);
    done.push(cur);
    done
}

/// Undoes the escapes of one path segment.
fn unescape_segment(t: &Vec<char>) -> (r: Vec<char>)
    ensures
        r@ == unescape(t@),
{
    let mut out: Vec<char> = Vec::new();
    let mut i: usize = 0;
    assert(t@.subrange(0, t@.len() as int) =~= t@);
    while i < t.len()
        invariant
            0 <= i <= t@.len(),
            out@ + unescape(t@.subrange(i as int, t@.len() as int)) == unescape(t@),
        decreases t.len() - i,
    {
        let ghost rest = t@.subrange(i as int, t@.len() as int);
        if i + 1 < t.len() && t[i] == '~' && t[i + 1] == '1' {
            assert(rest.subrange(2, rest.len() as int) =~= t@.subrange(i + 2, t@.len() as int));
            out.push('/');
            i = i + 2;
        } else if i + 1 < t.len() && t[i] == '~' && t[i + 1] == '0' {
            assert(rest.subrange(2, rest.len() as int) =~= t@.subrange(i + 2, t@.len() as int));
            out.push('~');
            i = i + 2;
        } else {
            assert(rest.drop_first() =~= t@.subrange(i + 1, t@.len() as int));
            out.push(t[i]);
            i = i + 1;
        }
        assert(out@ + unescape(t@.subrange(i as int, t@.len() as int)) =~= unescape(t@));
    }
    assert(unescape(t@.subrange(i as int, t@.len() as int)) =~= Seq::<char>::empty());
    assert(out@ =~= out@ + Seq::<char>::empty());
    out
}

/// Applies one unescaped segment to a value.
fn step_into<'a>(v: &'a JsonValue, t: &Vec<char>) -> (r: Option<&'a JsonValue>)
    ensures
        match r {
            Some(x) => segment_step(*v, t@) == Some(*x),
            None => segment_step(*v, t@) is None,
        },
{
    match v {
        JsonValue::Object(entries) => object_get(entries, t),
        JsonValue::Array(items) => {
            if t.len() > 1 && t[0] == '0' {
                return None;
            }
            match parse_usize(t) {
                Some(i) => if i < items.len() {
                    Some(&items[i])
                } else {
                    None
                },
                None => None,
            }
        },
        _ => None,
    }
}

/// Structural lookup of a slash-separated path in `data`, descending through
/// object entries and sequence elements; absent when no path is given or as
/// soon as a segment fails to resolve.
pub fn get_by_pointer<'a>(data: &'a JsonValue, pointer: Option<&str>) -> (r: Option<&'a JsonValue>)
    ensures
        match pointer {
            None => r is None,
            Some(p) => match r {
                Some(x) => pointer_lookup(*data, p@) == Some(*x),
                None => pointer_lookup(*data, p@) is None,
            },
        },
{
    let p = match pointer {
        None => {
            return None;
        },
        Some(p) => p,
    };
    let n = p.unicode_len();
    if n == 0 {
        return Some(data);
    }
    if p.get_char(0) != '/' {
        return None;
    }
    let raw = split_segments(p);
    let ghost segs = path_segments(p@);
    proof {
        lemma_split_path_nonempty(p@);
    }
    assert(raw@.len() == split_path(p@).len());
    let mut cur: &'a JsonValue = data;
    let mut j: usize = 1;
    assert(segs.take(0) =~= Seq::<Seq<char>>::empty());
    while j < raw.len()
        invariant
            1 <= j <= raw@.len(),
            pointer == Some(p),
            p@.len() > 0,
            p@[0] == '/',
            raw@.map_values(|t: Vec<char>| t@) == split_path(p@),
            segs == path_segments(p@),
            segs.len() == raw@.len() - 1,
            resolve(*data, segs.take(j - 1)) == Some(*cur),
        decreases raw.len() - j,
    {
        let seg = unescape_segment(&raw[j]);
        assert(raw@.map_values(|t: Vec<char>| t@)[j as int] == raw@[j as int]@);
        assert(seg@ == segs[j - 1]);
        assert(segs.take(j as int).drop_last() =~= segs.take(j - 1));
        match step_into(cur, &seg) {
            Some(next) => {
                cur = next;
            },
            None => {
                proof {
                    assert(segs.take(j as int).last() == segs[j - 1]);
                    assert(resolve(*data, segs.take(j as int)) is None);
                    lemma_resolve_stops(*data, segs, j as int);
                }
                return None;
            },
        }
        j = j + 1;
    }
    assert(segs.take(segs.len() as int) =~= segs);
    Some(cur)
}

/// An object without an entry of the given name has nothing under it.
pub proof fn lemma_key_lookup_missing(entries: Vec<(String, JsonValue)>, key: Seq<char>)
    requires
        forall|i: int| 0 <= i < entries@.len() ==> (#[trigger] entries@[i]).0@ != key,
    ensures
        key_lookup(JsonValue::Object(entries), key) is None,
{
    lemma_entries_get_missing(entries@, key);
}

proof fn lemma_entries_get_missing(entries: Seq<(String, JsonValue)>, key: Seq<char>)
    requires
        forall|i: int| 0 <= i < entries.len() ==> (#[trigger] entries[i]).0@ != key,
    ensures
        entries_get(entries, key) is None,
    decreases entries.len(),
{
    if entries.len() > 0 {
        assert(entries[entries.len() - 1].0@ != key);
        assert forall|i: int| 0 <= i < entries.drop_last().len() implies (#[trigger] entries.drop_last()[i]).0@ != key by {
            assert(entries.drop_last()[i] == entries[i]);
        }
        lemma_entries_get_missing(entries.drop_last(), key);
    }
}

/// A path is absent as soon as one of its segments fails to resolve: when the
/// first `k` segments reach `w` and segment `k` does not resolve in `w`.
pub proof fn lemma_pointer_fails_at(v: JsonValue, p: Seq<char>, k: int, w: JsonValue)
    requires
        p.len() > 0,
        p[0] == '/',
        0 <= k < path_segments(p).len(),
        resolve(v, path_segments(p).take(k)) == Some(w),
        segment_step(w, path_segments(p)[k]) is None,
    ensures
        pointer_lookup(v, p) is None,
{
    let segs = path_segments(p);
    assert(segs.take(k + 1).drop_last() =~= segs.take(k));
    assert(segs.take(k + 1).last() == segs[k]);
    lemma_resolve_stops(v, segs, k + 1);
}

/// A path whose every segment resolves, in turn, reaches a value.
pub proof fn lemma_pointer_succeeds(v: JsonValue, p: Seq<char>)
    requires
        p.len() > 0,
        p[0] == '/',
        forall|k: int| 0 <= k < path_segments(p).len() ==>
            match #[trigger] resolve(v, path_segments(p).take(k)) {
                Some(w) => segment_step(w, path_segments(p)[k]) is Some,
                None => true,
            },
    ensures
        pointer_lookup(v, p) is Some,
{
    let segs = path_segments(p);
    lemma_resolve_all_steps(v, segs, segs.len() as int);
    assert(segs.take(segs.len() as int) =~= segs);
}

proof fn lemma_resolve_all_steps(v: JsonValue, segs: Seq<Seq<char>>, n: int)
    requires
        0 <= n <= segs.len(),
        forall|k: int| 0 <= k < segs.len() ==>
            match #[trigger] resolve(v, segs.take(k)) {
                Some(w) => segment_step(w, segs[k]) is Some,
                None => true,
            },
    ensures
        resolve(v, segs.take(n)) is Some,
    decreases n,
{
    if n == 0 {
        assert(segs.take(0).len() == 0);
    } else {
        lemma_resolve_all_steps(v, segs, n - 1);
        assert(segs.take(n).drop_last() =~= segs.take(n - 1));
        assert(segs.take(n).last() == segs[n - 1]);
        let _ = resolve(v, segs.take(n - 1));
    }
}

} // verus!
