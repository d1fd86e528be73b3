//! Parsing a header specification such as `"Accept: text/plain, X-Id: 7"`
//! into trimmed name/value pairs.
use vstd::prelude::*;

use crate::error::HeaderError;
use crate::text::{chars_of, string_of, trim, trim_bounds};

verus! {

/// The pieces of `s` between commas, in order. There is always at least one.
pub open spec fn segments(s: Seq<char>) -> Seq<Seq<char>>
    decreases s.len(),
{
    if s.len() == 0 {
        seq![Seq::empty()]
    } else {
        let prev = segments(s.drop_last());
        if s.last() == ',' {
            prev.push(Seq::empty())
        } else {
            prev.update(prev.len() - 1, prev.last().push(s.last()))
        }
    }
}

/// `i` is the position of the first colon in `seg`.
pub open spec fn first_colon_at(seg: Seq<char>, i: int) -> bool {
    &&& 0 <= i < seg.len()
    &&& seg[i] == ':'
    &&& forall|j: int| 0 <= j < i ==> seg[j] != ':'
}

/// A segment split at its first colon, both sides trimmed; `None` when it has
/// no colon or a side is empty after trimming.
pub open spec fn parse_segment(seg: Seq<char>) -> Option<(Seq<char>, Seq<char>)> {
    if exists|i: int| first_colon_at(seg, i) {
        let i = choose|i: int| first_colon_at(seg, i);
        let name = trim(seg.subrange(0, i));
        let value = trim(seg.subrange(i + 1, seg.len() as int));
        if name.len() > 0 && value.len() > 0 {
            Some((name, value))
        } else {
            None
        }
    } else {
        None
    }
}

/// The pairs of a header specification, or `None` when it is malformed. The
/// empty specification has no pairs.
pub open spec fn parse_spec(s: Seq<char>) -> Option<Seq<(Seq<char>, Seq<char>)>> {
    if s.len() == 0 {
        Some(Seq::empty())
    } else if forall|k: int| 0 <= k < segments(s).len() ==> #[trigger] parse_segment(segments(s)[k]) is Some {
        Some(segments(s).map_values(|seg: Seq<char>| parse_segment(seg)->0))
    } else {
        None
    }
}

/// The pairs as sequences of characters.
pub open spec fn pairs_view(v: Seq<(String, String)>) -> Seq<(Seq<char>, Seq<char>)> {
    v.map_values(|p: (String, String)| (p.0@, p.1@))
}

proof fn lemma_segments_nonempty(s: Seq<char>)
    ensures
        segments(s).len() >= 1,
    decreases s.len(),
{
    if s.len() > 0 {
        lemma_segments_nonempty(s.drop_last());
    }
}

/// The segments of a prefix of `s` that are followed by a comma in it are
/// segments of `s` too.
proof fn lemma_segments_prefix(s: Seq<char>, m: int)
    requires
        0 <= m <= s.len(),
    ensures
        segments(s.subrange(0, m)).len() <= segments(s).len(),
        forall|k: int|
            0 <= k < segments(s.subrange(0, m)).len() - 1 ==> #[trigger] segments(s)[k] == segments(
                s.subrange(0, m),
            )[k],
    decreases s.len(),
{
    lemma_segments_nonempty(s);
    if m < s.len() {
        let t = s.drop_last();
        assert(t.subrange(0, m) =~= s.subrange(0, m));
        lemma_segments_prefix(t, m);
        lemma_segments_nonempty(t);
    } else {
        assert(s.subrange(0, m) =~= s);
    }
}

/// Parses the segment `v[lo..hi]`.
fn parse_one(v: &Vec<char>, lo: usize, hi: usize) -> (r: Option<(String, String)>)
    requires
        lo <= hi <= v@.len(),
    ensures
        match parse_segment(v@.subrange(lo as int, hi as int)) {
            Some(p) => r matches Some(q) && q.0@ == p.0 && q.1@ == p.1,
            None => r is None,
        },
{
    let ghost seg = v@.subrange(lo as int, hi as int);
    let mut c: usize = lo;
    while c < hi && v[c] != ':'
        invariant
            lo <= c <= hi <= v@.len(),
            forall|j: int| lo <= j < c ==> v@[j] != ':',
        decreases hi - c,
    {
        c = c + 1;
    }
    if c == hi {
        assert(!exists|i: int| first_colon_at(seg, i)) by {
            assert forall|i: int| !first_colon_at(seg, i) by {
                if 0 <= i < seg.len() {
                    assert(seg[i] == v@[lo + i]);
                }
            }
        }
        return None;
    }
    let ghost i = c - lo;
    assert(first_colon_at(seg, i));
    assert forall|k: int| first_colon_at(seg, k) implies k == i by {
        if k < i {
            assert(seg[k] == v@[lo + k]);
        }
    }
    assert(seg.subrange(0, i) =~= v@.subrange(lo as int, c as int));
    assert(seg.subrange(i + 1, seg.len() as int) =~= v@.subrange(c + 1, hi as int));
    let (na, nb) = trim_bounds(v, lo, c);
    let (va, vb) = trim_bounds(v, c + 1, hi);
    if na == nb || va == vb {
        return None;
    }
    Some((string_of(v, na, nb), string_of(v, va, vb)))
}

/// Parses a header specification: comma-separated `name: value` segments,
/// each split at its first colon, name and value trimmed of whitespace.
/// The empty string gives no pairs; any segment without a colon, or with an
/// empty name or value, makes the whole specification malformed.
pub fn parse_headers(s: &str) -> (r: Result<Vec<(String, String)>, HeaderError>)
    ensures
        match parse_spec(s@) {
            Some(ps) => r matches Ok(v) && pairs_view(v@) == ps,
            None => r == Err::<Vec<(String, String)>, HeaderError>(HeaderError::MalformedHeaderSpec),
        },
{
    let v = chars_of(s);
    let n = v.len();
    let mut out: Vec<(String, String)> = Vec::new();
    if n == 0 {
        assert(pairs_view(out@) =~= Seq::empty());
        return Ok(out);
    }
    let ghost done: Seq<Seq<char>> = Seq::empty();
    let mut start: usize = 0;
    let mut i: usize = 0;
    assert(v@.subrange(0, 0) =~= Seq::<char>::empty());
    assert(segments(v@.subrange(0, 0)) =~= done.push(v@.subrange(0, 0)));
    while i < n
        invariant
            n == v@.len(),
            v@ == s@,
            start <= i <= n,
            segments(v@.subrange(0, i as int)) == done.push(v@.subrange(start as int, i as int)),
            forall|k: int| 0 <= k < done.len() ==> #[trigger] parse_segment(done[k]) is Some,
            pairs_view(out@) == done.map_values(|seg: Seq<char>| parse_segment(seg)->0),
        decreases n - i,
    {
        let ghost prefix = v@.subrange(0, i as int);
        assert(v@.subrange(0, i + 1).drop_last() =~= prefix);
        if v[i] == ',' {
            assert(segments(v@.subrange(0, i + 1)) == segments(prefix).push(Seq::empty()));
            match parse_one(&v, start, i) {
                Some(p) => {
                    let ghost old_out = out@;
                    out.push(p);
                    proof {
                        let seg = v@.subrange(start as int, i as int);
                        assert(pairs_view(out@) =~= pairs_view(old_out).push((p.0@, p.1@)));
                        done = done.push(seg);
                    }
                    start = i + 1;
                    assert(v@.subrange(start as int, i + 1) =~= Seq::<char>::empty());
                    assert(pairs_view(out@) =~= done.map_values(
                        |seg: Seq<char>| parse_segment(seg)->0,
                    ));
                },
                None => {
                    proof {
                        lemma_segments_prefix(v@, i as int + 1);
                        let longer = segments(v@.subrange(0, i + 1));
                        assert(longer == done.push(v@.subrange(start as int, i as int)).push(
                            Seq::empty(),
                        ));
                        assert(longer[done.len() as int] == v@.subrange(start as int, i as int));
                        assert(segments(v@)[done.len() as int] == longer[done.len() as int]);
                        assert(segments(s@)[done.len() as int] == v@.subrange(
                            start as int,
                            i as int,
                        ));
                        assert(parse_segment(segments(s@)[done.len() as int]) is None);
                    }
                    return Err(HeaderError::MalformedHeaderSpec);
                },
            }
        } else {
            let ghost prev = segments(prefix);
            assert(v@.subrange(start as int, i + 1) =~= v@.subrange(start as int, i as int).push(
                v@[i as int],
            ));
            assert(segments(v@.subrange(0, i + 1)) == prev.update(
                prev.len() - 1,
                prev.last().push(v@[i as int]),
            ));
        }
        i = i + 1;
        assert(segments(v@.subrange(0, i as int)) =~= done.push(
            v@.subrange(start as int, i as int),
        ));
    }
    assert(v@.subrange(0, n as int) =~= v@);
    match parse_one(&v, start, n) {
        Some(p) => {
            let ghost old_out = out@;
            out.push(p);
            proof {
                assert(pairs_view(out@) =~= pairs_view(old_out).push((p.0@, p.1@)));
                done = done.push(v@.subrange(start as int, n as int));
            }
            assert(pairs_view(out@) =~= done.map_values(|seg: Seq<char>| parse_segment(seg)->0));
            assert(segments(s@) == done);
            Ok(out)
        },
        None => {
            assert(segments(s@)[done.len() as int] == v@.subrange(start as int, n as int));
            assert(parse_segment(segments(s@)[done.len() as int]) is None);
            Err(HeaderError::MalformedHeaderSpec)
        },
    }
}

} // verus!
