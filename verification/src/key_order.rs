//! The order of keys in a written log entry: fields are shown once per key,
//! in increasing order of their keys, as a sorted map holds them.

use crate::log_context::{keys_distinct, lemma_pairs_map, lemma_pairs_map_insert_at, lemma_pairs_map_update, pairs_map};
use crate::text::chars_of;
use vstd::prelude::*;

verus! {

/// Whether text `a` comes before text `b`: compared character by character
/// by code point, a proper prefix coming first. On UTF-8 text this is the
/// byte order in which strings are sorted.
pub open spec fn key_less(a: Seq<char>, b: Seq<char>) -> bool
    decreases a.len(),
{
    if b.len() == 0 {
        false
    } else if a.len() == 0 {
        true
    } else if a[0] != b[0] {
        (a[0] as int) < (b[0] as int)
    } else {
        key_less(a.drop_first(), b.drop_first())
    }
}

/// The keys of the pairs increase strictly from first to last.
pub open spec fn keys_sorted(s: Seq<(String, String)>) -> bool {
    forall|i: int, j: int| 0 <= i < j < s.len() ==> key_less(#[trigger] s[i].0@, #[trigger] s[j].0@)
}

/// No text comes before itself.
pub proof fn lemma_key_less_irreflexive(a: Seq<char>)
    ensures
        !key_less(a, a),
    decreases a.len(),
{
    if a.len() > 0 {
        lemma_key_less_irreflexive(a.drop_first());
    }
}

/// The order is transitive.
pub proof fn lemma_key_less_transitive(a: Seq<char>, b: Seq<char>, c: Seq<char>)
    requires
        key_less(a, b),
        key_less(b, c),
    ensures
        key_less(a, c),
    decreases a.len(),
{
    if a.len() > 0 && b.len() > 0 && c.len() > 0 && a[0] == b[0] && b[0] == c[0] {
        lemma_key_less_transitive(a.drop_first(), b.drop_first(), c.drop_first());
    }
}

/// Of two different texts, one comes before the other.
pub proof fn lemma_key_less_total(a: Seq<char>, b: Seq<char>)
    requires
        a != b,
    ensures
        key_less(a, b) || key_less(b, a),
    decreases a.len(),
{
    if a.len() == 0 {
        if b.len() == 0 {
            assert(a =~= b);
        }
    } else if b.len() == 0 {
    } else if a[0] == b[0] {
        if a.drop_first() == b.drop_first() {
            assert(a =~= seq![a[0]] + a.drop_first());
            assert(b =~= seq![b[0]] + b.drop_first());
        }
        lemma_key_less_total(a.drop_first(), b.drop_first());
    } else {
        assert((a[0] as int) != (b[0] as int));
    }
}

/// Pairs whose keys increase strictly have distinct keys.
pub proof fn lemma_sorted_distinct(s: Seq<(String, String)>)
    requires
        keys_sorted(s),
    ensures
        keys_distinct(s),
{
    assert forall|i: int, j: int| 0 <= i < s.len() && 0 <= j < s.len() && i != j implies #[trigger] s[i].0@ != #[trigger] s[j].0@ by {
        if i < j {
            assert(key_less(s[i].0@, s[j].0@));
        } else {
            assert(key_less(s[j].0@, s[i].0@));
        }
        lemma_key_less_irreflexive(s[i].0@);
    }
}

/// The code of a character as a `u32` is its code point.
proof fn lemma_char_code(c: char)
    ensures
        (c as u32) as int == c as int,
{
    assert(0 <= (c as int) < 0x110000);
}

/// Whether key `a` comes before key `b`.
pub fn key_lt(a: &String, b: &String) -> (less: bool)
    ensures
        less == key_less(a@, b@),
{
    let x = chars_of(a.as_str());
    let y = chars_of(b.as_str());
    let mut i: usize = 0;
    proof {
        assert(x@.skip(0) =~= x@);
        assert(y@.skip(0) =~= y@);
    }
    while i < x.len() && i < y.len()
        invariant
            x@ == a@,
            y@ == b@,
            i <= x@.len(),
            i <= y@.len(),
            key_less(a@, b@) == key_less(x@.skip(i as int), y@.skip(i as int)),
        decreases x@.len() - i,
    {
        if x[i] != y[i] {
            let c1: char = x[i];
            let c2: char = y[i];
            let cx = c1 as u32;
            let cy = c2 as u32;
            proof {
                assert(x@.skip(i as int)[0] == c1);
                assert(y@.skip(i as int)[0] == c2);
                lemma_char_code(c1);
                lemma_char_code(c2);
                assert(cx as int == c1 as int);
                assert(cy as int == c2 as int);
            }
            return cx < cy;
        }
        proof {
            assert(x@.skip(i as int).drop_first() =~= x@.skip(i + 1));
            assert(y@.skip(i as int).drop_first() =~= y@.skip(i + 1));
        }
        i = i + 1;
    }
    proof {
        if i == y@.len() {
            assert(y@.skip(i as int).len() == 0);
        } else {
            assert(x@.skip(i as int).len() == 0);
            assert(y@.skip(i as int).len() > 0);
        }
    }
    i < y.len()
}

/// The fields once per key, the value of a key being its last value in
/// `fields`, in increasing order of their keys.
pub fn sorted_fields(fields: &Vec<(String, String)>) -> (out: Vec<(String, String)>)
    ensures
        keys_sorted(out@),
        pairs_map(out@) == pairs_map(fields@),
{
    let mut out: Vec<(String, String)> = Vec::new();
    let n = fields.len();
    let mut i: usize = 0;
    while i < n
        invariant
            n == fields@.len(),
            i <= n,
            keys_sorted(out@),
            pairs_map(out@) == pairs_map(fields@.take(i as int)),
        decreases n - i,
    {
        let k = fields[i].0.clone();
        let v = fields[i].1.clone();
        proof {
            assert(fields@.take(i + 1).drop_last() =~= fields@.take(i as int));
            assert(fields@.take(i + 1).last() == fields@[i as int]);
            lemma_sorted_distinct(out@);
        }
        let mut p: usize = 0;
        while p < out.len() && key_lt(&out[p].0, &k)
            invariant
                p <= out@.len(),
                forall|j: int| 0 <= j < p ==> key_less(#[trigger] out@[j].0@, k@),
            decreases out@.len() - p,
        {
            p = p + 1;
        }
        if p < out.len() && out[p].0 == k {
            proof {
                lemma_pairs_map_update(out@, p as int, (k, v));
                let u = out@.update(p as int, (k, v));
                assert forall|a: int, b: int| 0 <= a < b < u.len() implies key_less(#[trigger] u[a].0@, #[trigger] u[b].0@) by {
                    assert(u[a].0@ == out@[a].0@ && u[b].0@ == out@[b].0@);
                }
            }
            out.set(p, (k, v));
        } else {
            proof {
                let s = out@;
                if p < s.len() {
                    assert(!key_less(s[p as int].0@, k@));
                    lemma_key_less_total(s[p as int].0@, k@);
                    assert(key_less(k@, s[p as int].0@));
                }
                assert forall|j: int| 0 <= j < s.len() implies #[trigger] s[j].0@ != k@ by {
                    if j < p {
                        lemma_key_less_irreflexive(k@);
                    } else {
                        if j > p {
                            lemma_key_less_transitive(k@, s[p as int].0@, s[j].0@);
                        }
                        lemma_key_less_irreflexive(k@);
                    }
                }
                lemma_pairs_map_insert_at(s, p as int, (k, v));
                let u = s.insert(p as int, (k, v));
                assert forall|a: int, b: int| 0 <= a < b < u.len() implies key_less(#[trigger] u[a].0@, #[trigger] u[b].0@) by {
                    if b < p {
                        assert(u[a] == s[a] && u[b] == s[b]);
                    } else if b == p {
                        assert(u[a] == s[a]);
                        assert(u[b].0@ == k@);
                    } else if a < p {
                        assert(u[a] == s[a] && u[b] == s[b - 1]);
                        if b - 1 > p {
                            lemma_key_less_transitive(k@, s[p as int].0@, s[b - 1].0@);
                        }
                        assert(key_less(s[a].0@, k@));
                        lemma_key_less_transitive(s[a].0@, k@, s[b - 1].0@);
                    } else if a == p {
                        assert(u[a].0@ == k@ && u[b] == s[b - 1]);
                        if b - 1 > p {
                            lemma_key_less_transitive(k@, s[p as int].0@, s[b - 1].0@);
                        }
                    } else {
                        assert(u[a] == s[a - 1] && u[b] == s[b - 1]);
                    }
                }
            }
            out.insert(p, (k, v));
        }
        i = i + 1;
    }
    proof {
        assert(fields@.take(n as int) =~= fields@);
    }
    out
}

/// The value of `key` among pairs with distinct keys, if it has one.
pub fn lookup(members: &Vec<(String, String)>, key: &str) -> (r: Option<String>)
    requires
        keys_distinct(members@),
    ensures
        r is Some <==> pairs_map(members@).contains_key(key@),
        r matches Some(v) ==> v@ == pairs_map(members@)[key@],
{
    proof {
        lemma_pairs_map(members@);
    }
    let k = key.to_owned();
    let mut i: usize = 0;
    while i < members.len()
        invariant
            k@ == key@,
            keys_distinct(members@),
            i <= members@.len(),
            forall|j: int| 0 <= j < i ==> #[trigger] members@[j].0@ != key@,
        decreases members@.len() - i,
    {
        if members[i].0 == k {
            proof {
                lemma_pairs_map(members@);
                assert(members@[i as int].0@ == key@);
            }
            return Some(members[i].1.clone());
        }
        i = i + 1;
    }
    proof {
        lemma_pairs_map(members@);
        if pairs_map(members@).contains_key(key@) {
            let j = choose|j: int| 0 <= j < members@.len() && members@[j].0@ == key@;
            assert(members@[j].0@ != key@);
        }
    }
    None
}

/// Two lists of pairs with strictly increasing keys that describe the same
/// map are the same list: the order in which a written entry shows its
/// fields is fixed by the fields.
pub proof fn law_sorted_fields_unique(a: Seq<(String, String)>, b: Seq<(String, String)>)
    requires
        keys_sorted(a),
        keys_sorted(b),
        pairs_map(a) == pairs_map(b),
    ensures
        a.len() == b.len(),
        forall|i: int| 0 <= i < a.len() ==> #[trigger] a[i].0@ == b[i].0@ && a[i].1@ == b[i].1@,
    decreases a.len() + b.len(),
{
    lemma_sorted_distinct(a);
    lemma_sorted_distinct(b);
    lemma_pairs_map(a);
    lemma_pairs_map(b);
    if a.len() > 0 && b.len() > 0 {
        let la = a.last().0@;
        let lb = b.last().0@;
        // Each last key is the largest key of the common map.
        assert(pairs_map(b).contains_key(la));
        let j = choose|j: int| 0 <= j < b.len() && b[j].0@ == la;
        assert(pairs_map(a).contains_key(lb));
        let i = choose|i: int| 0 <= i < a.len() && a[i].0@ == lb;
        if la != lb {
            if j < b.len() - 1 {
                assert(key_less(b[j].0@, b[b.len() - 1].0@));
            }
            if i < a.len() - 1 {
                assert(key_less(a[i].0@, a[a.len() - 1].0@));
            }
            lemma_key_less_irreflexive(la);
            if j < b.len() - 1 && i < a.len() - 1 {
                lemma_key_less_transitive(la, lb, la);
            }
            assert(false);
        }
        let a2 = a.drop_last();
        let b2 = b.drop_last();
        assert(keys_sorted(a2)) by {
            assert forall|x: int, y: int| 0 <= x < y < a2.len() implies key_less(#[trigger] a2[x].0@, #[trigger] a2[y].0@) by {
                assert(a2[x] == a[x] && a2[y] == a[y]);
            }
        }
        assert(keys_sorted(b2)) by {
            assert forall|x: int, y: int| 0 <= x < y < b2.len() implies key_less(#[trigger] b2[x].0@, #[trigger] b2[y].0@) by {
                assert(b2[x] == b[x] && b2[y] == b[y]);
            }
        }
        lemma_sorted_distinct(a2);
        lemma_sorted_distinct(b2);
        lemma_pairs_map(a2);
        lemma_pairs_map(b2);
        assert(pairs_map(a2) =~= pairs_map(a).remove(la)) by {
            assert forall|k: Seq<char>| #[trigger] pairs_map(a2).contains_key(k) == pairs_map(a).remove(la).contains_key(k) by {
                if pairs_map(a2).contains_key(k) {
                    let x = choose|x: int| 0 <= x < a2.len() && a2[x].0@ == k;
                    assert(a2[x] == a[x]);
                    assert(a[x].0@ != a[a.len() - 1].0@);
                }
                if pairs_map(a).remove(la).contains_key(k) {
                    let x = choose|x: int| 0 <= x < a.len() && a[x].0@ == k;
                    assert(x != a.len() - 1);
                    assert(a2[x] == a[x]);
                }
            }
            assert forall|k: Seq<char>| #[trigger] pairs_map(a2).contains_key(k) implies pairs_map(a2)[k] == pairs_map(a).remove(la)[k] by {
                let x = choose|x: int| 0 <= x < a2.len() && a2[x].0@ == k;
                assert(a2[x] == a[x]);
                assert(pairs_map(a)[a[x].0@] == a[x].1@);
                assert(pairs_map(a2)[a2[x].0@] == a2[x].1@);
            }
        }
        assert(pairs_map(b2) =~= pairs_map(b).remove(lb)) by {
            assert forall|k: Seq<char>| #[trigger] pairs_map(b2).contains_key(k) == pairs_map(b).remove(lb).contains_key(k) by {
                if pairs_map(b2).contains_key(k) {
                    let x = choose|x: int| 0 <= x < b2.len() && b2[x].0@ == k;
                    assert(b2[x] == b[x]);
                    assert(b[x].0@ != b[b.len() - 1].0@);
                }
                if pairs_map(b).remove(lb).contains_key(k) {
                    let x = choose|x: int| 0 <= x < b.len() && b[x].0@ == k;
                    assert(x != b.len() - 1);
                    assert(b2[x] == b[x]);
                }
            }
            assert forall|k: Seq<char>| #[trigger] pairs_map(b2).contains_key(k) implies pairs_map(b2)[k] == pairs_map(b).remove(lb)[k] by {
                let x = choose|x: int| 0 <= x < b2.len() && b2[x].0@ == k;
                assert(b2[x] == b[x]);
                assert(pairs_map(b)[b[x].0@] == b[x].1@);
                assert(pairs_map(b2)[b2[x].0@] == b2[x].1@);
            }
        }
        law_sorted_fields_unique(a2, b2);
        assert(pairs_map(a)[la] == a[a.len() - 1].1@);
        assert(pairs_map(b)[lb] == b[b.len() - 1].1@);
        assert forall|x: int| 0 <= x < a.len() implies #[trigger] a[x].0@ == b[x].0@ && a[x].1@ == b[x].1@ by {
            if x < a.len() - 1 {
                assert(a2[x] == a[x] && b2[x] == b[x]);
            }
        }
    } else if a.len() > 0 {
        assert(pairs_map(a).contains_key(a[0].0@));
    } else if b.len() > 0 {
        assert(pairs_map(b).contains_key(b[0].0@));
    }
}

} // verus!
