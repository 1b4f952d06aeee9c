//! The query part of a location: parsing a search string into an ordered
//! multi-valued map from keys to values.

use multimap::MultiMap;
use vstd::prelude::*;

verus! {

#[verifier::external_type_specification]
#[verifier::external_body]
#[verifier::reject_recursive_types(K)]
#[verifier::reject_recursive_types(V)]
#[verifier::reject_recursive_types(S)]
pub struct ExMultiMap<K, V, S>(MultiMap<K, V, S>);

/// What a query map holds: for each key present, its values in insertion order.
pub uninterp spec fn query_contents(m: MultiMap<String, String>) -> Map<Seq<char>, Seq<Seq<char>>>;

/// The contents of a map with no key.
pub open spec fn no_values() -> Map<Seq<char>, Seq<Seq<char>>> {
    Map::empty()
}

/// The contents after adding `v` under `k`: appended to the key's values, or
/// as the first value of a new key.
pub open spec fn add_value(
    m: Map<Seq<char>, Seq<Seq<char>>>,
    k: Seq<char>,
    v: Seq<char>,
) -> Map<Seq<char>, Seq<Seq<char>>> {
    if m.contains_key(k) {
        m.insert(k, m[k].push(v))
    } else {
        m.insert(k, seq![v])
    }
}

/// The pieces of `s` between occurrences of `sep`, in order; `n` separators
/// give `n + 1` pieces, some of which may be empty.
pub open spec fn pieces(s: Seq<char>, sep: char) -> Seq<Seq<char>>
    decreases s.len(),
{
    if s.len() == 0 {
        seq![Seq::empty()]
    } else {
        let prev = pieces(s.drop_last(), sep);
        if s.last() == sep {
            prev.push(Seq::empty())
        } else {
            prev.update(prev.len() - 1, prev.last().push(s.last()))
        }
    }
}

/// The index of the first `c` in `s`, or `s.len()` where `s` holds none.
pub open spec fn first_index(s: Seq<char>, c: char) -> int
    decreases s.len(),
{
    if s.len() == 0 {
        0
    } else if s[0] == c {
        0
    } else {
        1 + first_index(s.drop_first(), c)
    }
}

/// A query segment split at its first `=`: the key is what precedes it, the
/// value what follows it, or empty where the segment has no `=`.
pub open spec fn key_value(seg: Seq<char>) -> (Seq<char>, Seq<char>) {
    let i = first_index(seg, '=');
    if i < seg.len() {
        (seg.subrange(0, i), seg.subrange(i + 1, seg.len() as int))
    } else {
        (seg, Seq::empty())
    }
}

/// The key-value pairs of the non-empty segments, in order.
pub open spec fn pairs_of(segs: Seq<Seq<char>>) -> Seq<(Seq<char>, Seq<char>)>
    decreases segs.len(),
{
    if segs.len() == 0 {
        seq![]
    } else if segs.last().len() == 0 {
        pairs_of(segs.drop_last())
    } else {
        pairs_of(segs.drop_last()).push(key_value(segs.last()))
    }
}

/// The pairs that a search string denotes: none for an empty string;
/// otherwise, with its first character (the `?`) dropped, the pairs of the
/// non-empty `&`-separated segments.
pub open spec fn query_pairs(search: Seq<char>) -> Seq<(Seq<char>, Seq<char>)> {
    if search.len() == 0 {
        seq![]
    } else {
        pairs_of(pieces(search.drop_first(), '&'))
    }
}

/// The map contents that inserting `pairs` in order into an empty map gives.
pub open spec fn grouped(pairs: Seq<(Seq<char>, Seq<char>)>) -> Map<Seq<char>, Seq<Seq<char>>>
    decreases pairs.len(),
{
    if pairs.len() == 0 {
        no_values()
    } else {
        add_value(grouped(pairs.drop_last()), pairs.last().0, pairs.last().1)
    }
}

/// The contents of the query map that `search` parses to.
pub open spec fn parsed_query(search: Seq<char>) -> Map<Seq<char>, Seq<Seq<char>>> {
    grouped(query_pairs(search))
}

proof fn lemma_first_index_bounds(s: Seq<char>, c: char)
    ensures
        0 <= first_index(s, c) <= s.len(),
        first_index(s, c) < s.len() ==> s[first_index(s, c)] == c,
        forall|j: int| 0 <= j < first_index(s, c) ==> s[j] != c,
    decreases s.len(),
{
    if s.len() > 0 && s[0] != c {
        lemma_first_index_bounds(s.drop_first(), c);
        assert forall|j: int| 0 <= j < first_index(s, c) implies s[j] != c by {
            if j > 0 {
                assert(s[j] == s.drop_first()[j - 1]);
            }
        }
    }
}

proof fn lemma_first_index_push(s: Seq<char>, c: char, x: char)
    ensures
        first_index(s.push(x), c) == if first_index(s, c) < s.len() {
            first_index(s, c)
        } else if x == c {
            s.len() as int
        } else {
            s.len() as int + 1
        },
    decreases s.len(),
{
    lemma_first_index_bounds(s, c);
    let t = s.push(x);
    if s.len() > 0 {
        assert(t.drop_first() =~= s.drop_first().push(x));
        assert(t[0] == s[0]);
        if s[0] != c {
            lemma_first_index_push(s.drop_first(), c, x);
            assert(first_index(t, c) == 1 + first_index(s.drop_first().push(x), c));
        }
    } else {
        assert(t.drop_first() =~= Seq::<char>::empty());
        assert(t[0] == x);
        assert(first_index(t.drop_first(), c) == 0);
    }
}

/// Relies on String::push: the character is appended.
#[verifier::external_body]
fn push_char(s: &mut String, c: char)
    ensures
        final(s)@ == old(s)@.push(c),
{
    s.push(c)
}

/// The characters of `s`, in order.
fn chars_of(s: &str) -> (r: Vec<char>)
    ensures
        r@ == s@,
{
    let mut r: Vec<char> = Vec::new();
    for c in it: s.chars()
        invariant
            it.seq() == s@,
            r@ == it.seq().subrange(0, it.index() as int),
    {
        r.push(c);
    }
    r
}

/// Parses a search string (`?a=1&b=2`) into a query map. The first
/// character is dropped, the rest is split on `&`, empty segments are
/// skipped, and each segment is split at its first `=` into key and value;
/// a segment without `=` gives an empty value. Pairs are inserted in order,
/// so a key's values keep the order in which they appear.
pub fn parse_query(search: &str) -> (r: MultiMap<String, String>)
    ensures
        query_contents(r) == parsed_query(search@),
{
    let chars = chars_of(search);
    let mut m = new_query_map();
    if chars.len() == 0 {
        return m;
    }
    let ghost rest = chars@.drop_first();
    let ghost done: Seq<Seq<char>> = seq![];
    let ghost cur: Seq<char> = Seq::empty();
    let mut key = String::new();
    let mut value = String::new();
    let mut seen_eq = false;
    let mut started = false;
    let mut i: usize = 1;
    while i < chars.len()
        invariant
            1 <= i <= chars.len(),
            rest == chars@.drop_first(),
            chars@ == search@,
            pieces(rest.subrange(0, i - 1), '&') == done.push(cur),
            query_contents(m) == grouped(pairs_of(done)),
            started == (cur.len() > 0),
            seen_eq == (first_index(cur, '=') < cur.len()),
            key@ == key_value(cur).0,
            seen_eq ==> value@ == key_value(cur).1,
            !seen_eq ==> value@ == Seq::<char>::empty(),
        decreases chars.len() - i,
    {
        let x = chars[i];
        proof {
            let p = rest.subrange(0, i - 1);
            assert(rest.subrange(0, i as int).drop_last() =~= p);
            assert(rest.subrange(0, i as int).last() == x);
            lemma_first_index_bounds(cur, '=');
            lemma_first_index_push(cur, '=', x);
        }
        if x == '&' {
            proof {
                let segs = done.push(cur);
                assert(segs.drop_last() =~= done);
                if started {
                    assert(pairs_of(segs).drop_last() =~= pairs_of(done));
                }
            }
            if started {
                insert_pair(&mut m, key, value);
            }
            proof {
                done = done.push(cur);
                cur = Seq::empty();
            }
            key = String::new();
            value = String::new();
            seen_eq = false;
            started = false;
        } else {
            let ghost before = cur;
            if seen_eq {
                push_char(&mut value, x);
            } else if x == '=' {
                seen_eq = true;
            } else {
                push_char(&mut key, x);
            }
            proof {
                cur = cur.push(x);
                assert(done.push(before).update(done.len() as int, cur) =~= done.push(cur));
                lemma_first_index_bounds(cur, '=');
                let j = first_index(before, '=');
                if j < before.len() {
                    assert(cur.subrange(0, j) =~= before.subrange(0, j));
                    assert(cur.subrange(j + 1, cur.len() as int) =~= before.subrange(
                        j + 1,
                        before.len() as int,
                    ).push(x));
                } else if x == '=' {
                    assert(cur.subrange(0, before.len() as int) =~= before);
                    assert(cur.subrange(before.len() as int + 1, cur.len() as int) =~= Seq::<char>::empty());
                } else {
                    assert(cur =~= before.push(x));
                }
            }
            started = true;
        }
        i = i + 1;
    }
    proof {
        assert(rest.subrange(0, i - 1) =~= rest);
        let segs = done.push(cur);
        assert(segs.drop_last() =~= done);
        if started {
            assert(pairs_of(segs).drop_last() =~= pairs_of(done));
        }
    }
    if started {
        insert_pair(&mut m, key, value);
    }
    m
}

/// Relies on MultiMap::new: the new map holds no key.
#[verifier::external_body]
fn new_query_map() -> (r: MultiMap<String, String>)
    ensures
        query_contents(r) == no_values(),
{
    MultiMap::new()
}

/// Relies on MultiMap::insert: the value is pushed to the key's vector, or a
/// vector holding only the value is stored under a new key.
#[verifier::external_body]
fn insert_pair(m: &mut MultiMap<String, String>, k: String, v: String)
    ensures
        query_contents(*final(m)) == add_value(query_contents(*old(m)), k@, v@),
{
    m.insert(k, v)
}

/// Relies on MultiMap's derived Clone, which clones the inner map of keys
/// to value vectors: the copy holds the same keys and values.
#[verifier::external_body]
pub(crate) fn clone_query(m: &MultiMap<String, String>) -> (r: MultiMap<String, String>)
    ensures
        query_contents(r) == query_contents(*m),
{
    m.clone()
}

/// Relies on MultiMap::get_vec: the vector stored under the key, if any.
#[verifier::external_body]
pub(crate) fn values_of(m: &MultiMap<String, String>, k: &str) -> (r: Option<Vec<String>>)
    ensures
        r is Some <==> query_contents(*m).contains_key(k@),
        r matches Some(v) ==> v@.map_values(|s: String| s@) == query_contents(*m)[k@],
{
    m.get_vec(k).cloned()
}

/// Relies on MultiMap::get: the first element of the vector stored under the
/// key, if the key is present and its vector is not empty.
#[verifier::external_body]
pub(crate) fn first_value_of(m: &MultiMap<String, String>, k: &str) -> (r: Option<String>)
    ensures
        r is Some <==> (query_contents(*m).contains_key(k@) && query_contents(*m)[k@].len() > 0),
        r matches Some(v) ==> v@ == query_contents(*m)[k@][0],
{
    m.get(k).cloned()
}

/// Relies on MultiMap::is_empty, which is the inner map's is_empty: true
/// exactly when no key is stored.
#[verifier::external_body]
pub(crate) fn has_no_keys(m: &MultiMap<String, String>) -> (r: bool)
    ensures
        r == (query_contents(*m).dom() == Set::<Seq<char>>::empty()),
{
    m.is_empty()
}

/// Adds `value` under `key`: after the key's earlier values, or as the first
/// value of a new key.
pub fn add_query_value(m: &mut MultiMap<String, String>, key: String, value: String)
    ensures
        query_contents(*final(m)) == add_value(query_contents(*old(m)), key@, value@),
{
    insert_pair(m, key, value)
}

} // verus!
