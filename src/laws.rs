//! What holds of parsing and building together, for all inputs.
use vstd::prelude::*;

use crate::error::HeaderError;
use crate::header::{
    ascii_lowercase, build_error, build_map, lemma_build_error_prefix, pair_error,
};
use crate::parse::{parse_spec, segments};
use crate::text::{is_space, trim, trim_end, trim_start};

verus! {

/// A pair sequence without errors in its first `i` pairs has none in that prefix.
proof fn lemma_no_error_prefix(ps: Seq<(Seq<char>, Seq<char>)>, i: int)
    requires
        0 <= i <= ps.len(),
        forall|j: int| 0 <= j < i ==> #[trigger] pair_error(ps[j]) is None,
    ensures
        build_error(ps.take(i)) is None,
    decreases i,
{
    if i > 0 {
        assert(ps.take(i).drop_last() =~= ps.take(i - 1));
        lemma_no_error_prefix(ps, i - 1);
    }
}

/// The names in a built map are exactly the lowercased names of the pairs.
pub proof fn lemma_build_map_names(ps: Seq<(Seq<char>, Seq<char>)>, k: Seq<char>)
    ensures
        build_map(ps).contains_key(k) <==> exists|i: int|
            0 <= i < ps.len() && ascii_lowercase(#[trigger] ps[i].0) == k,
    decreases ps.len(),
{
    if ps.len() > 0 {
        let t = ps.drop_last();
        lemma_build_map_names(t, k);
        if build_map(t).contains_key(k) {
            let i = choose|i: int| 0 <= i < t.len() && ascii_lowercase(#[trigger] t[i].0) == k;
            assert(ps[i] == t[i]);
        }
        if exists|i: int| 0 <= i < ps.len() && ascii_lowercase(#[trigger] ps[i].0) == k {
            let i = choose|i: int| 0 <= i < ps.len() && ascii_lowercase(#[trigger] ps[i].0) == k;
            if i < ps.len() - 1 {
                assert(t[i] == ps[i]);
            }
        }
    }
}

/// Last occurrence wins: the value a built map holds for a name is that of
/// the last pair with that name (compared without regard to ASCII case).
pub proof fn lemma_last_occurrence_wins(ps: Seq<(Seq<char>, Seq<char>)>, i: int)
    requires
        0 <= i < ps.len(),
        forall|j: int|
            i < j < ps.len() ==> ascii_lowercase(#[trigger] ps[j].0) != ascii_lowercase(ps[i].0),
    ensures
        build_map(ps).contains_key(ascii_lowercase(ps[i].0)),
        build_map(ps)[ascii_lowercase(ps[i].0)] == ps[i].1,
    decreases ps.len(),
{
    if i < ps.len() - 1 {
        let t = ps.drop_last();
        assert(t[i] == ps[i]);
        assert forall|j: int| i < j < t.len() implies ascii_lowercase(#[trigger] t[j].0)
            != ascii_lowercase(t[i].0) by {
            assert(t[j] == ps[j]);
        }
        lemma_last_occurrence_wins(t, i);
        assert(ascii_lowercase(ps[ps.len() - 1].0) != ascii_lowercase(ps[i].0));
    }
}

/// Round trip: for a well-formed specification whose pairs are all valid,
/// the map built from its parsed pairs holds exactly the names of its
/// segments, each with the value of the last segment that names it.
pub proof fn lemma_round_trip(s: Seq<char>, i: int, k: Seq<char>)
    requires
        parse_spec(s) is Some,
        build_error(parse_spec(s)->0) is None,
        0 <= i < parse_spec(s)->0.len(),
        forall|j: int|
            i < j < parse_spec(s)->0.len() ==> ascii_lowercase(#[trigger] parse_spec(s)->0[j].0)
                != ascii_lowercase(parse_spec(s)->0[i].0),
    ensures
        parse_spec(s)->0[i] == crate::parse::parse_segment(segments(s)[i])->0,
        build_map(parse_spec(s)->0)[ascii_lowercase(parse_spec(s)->0[i].0)]
            == parse_spec(s)->0[i].1,
        build_map(parse_spec(s)->0).contains_key(k) <==> exists|j: int|
            0 <= j < parse_spec(s)->0.len() && ascii_lowercase(#[trigger] parse_spec(s)->0[j].0)
                == k,
{
    lemma_last_occurrence_wins(parse_spec(s)->0, i);
    lemma_build_map_names(parse_spec(s)->0, k);
}

/// Order does not matter between pairs of different names: swapping two
/// neighbouring pairs whose names differ gives the same map.
pub proof fn lemma_swap_distinct_names(ps: Seq<(Seq<char>, Seq<char>)>, i: int)
    requires
        0 <= i,
        i + 1 < ps.len(),
        ascii_lowercase(ps[i].0) != ascii_lowercase(ps[i + 1].0),
    ensures
        build_map(ps.update(i, ps[i + 1]).update(i + 1, ps[i])) == build_map(ps),
    decreases ps.len(),
{
    let qs = ps.update(i, ps[i + 1]).update(i + 1, ps[i]);
    if i + 2 < ps.len() {
        lemma_swap_distinct_names(ps.drop_last(), i);
        assert(qs.drop_last() =~= ps.drop_last().update(i, ps[i + 1]).update(i + 1, ps[i]));
    } else {
        let base = ps.drop_last().drop_last();
        assert(qs.drop_last().drop_last() =~= base);
        assert(qs.drop_last().last() == ps[i + 1]);
        assert(ps.drop_last().last() == ps[i]);
        assert(ps.drop_last().drop_last() =~= base);
        let (a, b) = (ps[i], ps[i + 1]);
        let m = build_map(base);
        assert(build_map(qs.drop_last()) == m.insert(ascii_lowercase(b.0), b.1));
        assert(build_map(qs) == m.insert(ascii_lowercase(b.0), b.1).insert(
            ascii_lowercase(a.0),
            a.1,
        ));
        assert(build_map(ps.drop_last()) == m.insert(ascii_lowercase(a.0), a.1));
        assert(build_map(ps) == m.insert(ascii_lowercase(a.0), a.1).insert(
            ascii_lowercase(b.0),
            b.1,
        ));
        assert(build_map(qs) =~= build_map(ps));
    }
}

/// A name holding a space or a colon is not a header name: the first pair
/// with such a name, all pairs before it valid, makes building fail with
/// `InvalidHeaderName`.
pub proof fn lemma_space_or_colon_name_rejected(ps: Seq<(Seq<char>, Seq<char>)>, i: int, c: int)
    requires
        0 <= i < ps.len(),
        0 <= c < ps[i].0.len(),
        ps[i].0[c] == ' ' || ps[i].0[c] == ':',
        forall|j: int| 0 <= j < i ==> #[trigger] pair_error(ps[j]) is None,
    ensures
        build_error(ps) == Some(HeaderError::InvalidHeaderName),
{
    lemma_no_error_prefix(ps, i);
    assert(ps.take(i + 1).drop_last() =~= ps.take(i));
    assert(ps.take(i + 1).last() == ps[i]);
    lemma_build_error_prefix(ps, i + 1);
}

proof fn lemma_trim_start_front(s: Seq<char>)
    ensures
        trim_start(s).len() > 0 ==> !is_space(trim_start(s)[0]),
        exists|a: int| 0 <= a <= s.len() && trim_start(s) == s.subrange(a, s.len() as int),
    decreases s.len(),
{
    if s.len() > 0 && is_space(s[0]) {
        lemma_trim_start_front(s.drop_first());
        let a = choose|a: int|
            0 <= a <= s.drop_first().len() && trim_start(s.drop_first()) == s.drop_first().subrange(
                a,
                s.drop_first().len() as int,
            );
        assert(s.drop_first().subrange(a, s.drop_first().len() as int) =~= s.subrange(
            a + 1,
            s.len() as int,
        ));
    } else {
        assert(s.subrange(0, s.len() as int) =~= s);
    }
}

proof fn lemma_trim_end_back(s: Seq<char>)
    ensures
        trim_end(s).len() > 0 ==> !is_space(trim_end(s).last()),
        trim_end(s).len() <= s.len(),
        trim_end(s) == s.take(trim_end(s).len() as int),
    decreases s.len(),
{
    if s.len() > 0 && is_space(s.last()) {
        lemma_trim_end_back(s.drop_last());
        assert(s.drop_last().take(trim_end(s).len() as int) =~= s.take(trim_end(s).len() as int));
    } else {
        assert(s.take(s.len() as int) =~= s);
    }
}

/// What `trim` gives has no whitespace at either end.
pub proof fn lemma_trim_ends(s: Seq<char>)
    ensures
        trim(s).len() > 0 ==> !is_space(trim(s)[0]) && !is_space(trim(s).last()),
{
    let t = trim_start(s);
    lemma_trim_start_front(s);
    lemma_trim_end_back(t);
    if trim(s).len() > 0 {
        assert(trim(s)[0] == t[0]);
    }
}

/// The pairs of a well-formed specification have non-empty names and values
/// with no whitespace at either end.
pub proof fn lemma_parsed_pairs_trimmed(s: Seq<char>, i: int)
    requires
        parse_spec(s) is Some,
        0 <= i < parse_spec(s)->0.len(),
    ensures
        parse_spec(s)->0[i].0.len() > 0,
        parse_spec(s)->0[i].1.len() > 0,
        !is_space(parse_spec(s)->0[i].0[0]),
        !is_space(parse_spec(s)->0[i].0.last()),
        !is_space(parse_spec(s)->0[i].1[0]),
        !is_space(parse_spec(s)->0[i].1.last()),
{
    let seg = segments(s)[i];
    assert(crate::parse::parse_segment(seg) is Some);
    let c = choose|c: int| crate::parse::first_colon_at(seg, c);
    lemma_trim_ends(seg.subrange(0, c));
    lemma_trim_ends(seg.subrange(c + 1, seg.len() as int));
}

} // verus!
