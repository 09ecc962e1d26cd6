//! The log context: key-value pairs added to every log line, with the
//! trace, span and parent span identifiers of distributed tracing.

use vstd::prelude::*;

verus! {

/// The map that a list of pairs describes: each pair binds its key to its
/// value, a later pair overriding an earlier one with the same key.
pub open spec fn pairs_map(s: Seq<(String, String)>) -> Map<Seq<char>, Seq<char>>
    decreases s.len(),
{
    if s.len() == 0 {
        Map::empty()
    } else {
        pairs_map(s.drop_last()).insert(s.last().0@, s.last().1@)
    }
}

/// No two pairs share a key.
pub open spec fn keys_distinct(s: Seq<(String, String)>) -> bool {
    forall|i: int, j: int| 0 <= i < s.len() && 0 <= j < s.len() && i != j ==> #[trigger] s[i].0@ != #[trigger] s[j].0@
}

/// Over pairs with distinct keys, the map holds exactly their keys, each
/// bound to its own value.
pub(crate) proof fn lemma_pairs_map(s: Seq<(String, String)>)
    requires
        keys_distinct(s),
    ensures
        forall|k: Seq<char>| #[trigger] pairs_map(s).contains_key(k) <==> exists|i: int| 0 <= i < s.len() && s[i].0@ == k,
        forall|i: int| 0 <= i < s.len() ==> pairs_map(s).contains_key(#[trigger] s[i].0@) && pairs_map(s)[s[i].0@] == s[i].1@,
    decreases s.len(),
{
    if s.len() > 0 {
        let t = s.drop_last();
        assert(keys_distinct(t)) by {
            assert forall|i: int, j: int| 0 <= i < t.len() && 0 <= j < t.len() && i != j implies t[i].0@ != t[j].0@ by {
                assert(t[i] == s[i] && t[j] == s[j]);
            }
        }
        lemma_pairs_map(t);
        assert forall|k: Seq<char>| #[trigger] pairs_map(s).contains_key(k) implies exists|i: int| 0 <= i < s.len() && s[i].0@ == k by {
            if k == s.last().0@ {
                assert(s[s.len() - 1].0@ == k);
            } else {
                assert(pairs_map(t).contains_key(k));
                let i = choose|i: int| 0 <= i < t.len() && t[i].0@ == k;
                assert(s[i] == t[i]);
            }
        }
        assert forall|i: int| 0 <= i < s.len() implies pairs_map(s).contains_key(#[trigger] s[i].0@) && pairs_map(s)[s[i].0@] == s[i].1@ by {
            if i < s.len() - 1 {
                assert(s[i] == t[i]);
                assert(s[i].0@ != s[s.len() - 1].0@);
            }
        }
    }
}

/// Replacing the value of the pair at `i` rebinds its key.
pub(crate) proof fn lemma_pairs_map_update(s: Seq<(String, String)>, i: int, p: (String, String))
    requires
        keys_distinct(s),
        0 <= i < s.len(),
        p.0@ == s[i].0@,
    ensures
        keys_distinct(s.update(i, p)),
        pairs_map(s.update(i, p)) == pairs_map(s).insert(p.0@, p.1@),
{
    let u = s.update(i, p);
    assert(keys_distinct(u)) by {
        assert forall|a: int, b: int| 0 <= a < u.len() && 0 <= b < u.len() && a != b implies u[a].0@ != u[b].0@ by {
            assert(u[a].0@ == s[a].0@ && u[b].0@ == s[b].0@);
        }
    }
    lemma_pairs_map(s);
    lemma_pairs_map(u);
    assert forall|k: Seq<char>| #[trigger] pairs_map(u).contains_key(k) == pairs_map(s).insert(p.0@, p.1@).contains_key(k) by {
        if pairs_map(s).contains_key(k) {
            let j = choose|j: int| 0 <= j < s.len() && s[j].0@ == k;
            assert(u[j].0@ == k);
        }
        if pairs_map(u).contains_key(k) {
            let j = choose|j: int| 0 <= j < u.len() && u[j].0@ == k;
            assert(s[j].0@ == k);
        }
    }
    assert forall|k: Seq<char>| #[trigger] pairs_map(u).contains_key(k) implies pairs_map(u)[k] == pairs_map(s).insert(p.0@, p.1@)[k] by {
        let j = choose|j: int| 0 <= j < u.len() && u[j].0@ == k;
        assert(pairs_map(u)[u[j].0@] == u[j].1@);
        if j != i {
            assert(s[j] == u[j]);
            assert(pairs_map(s)[s[j].0@] == s[j].1@);
        }
    }
    assert(pairs_map(u) =~= pairs_map(s).insert(p.0@, p.1@));
}

/// Inserting, at `p`, a pair whose key no pair has binds that key.
pub(crate) proof fn lemma_pairs_map_insert_at(s: Seq<(String, String)>, p: int, q: (String, String))
    requires
        keys_distinct(s),
        0 <= p <= s.len(),
        forall|i: int| 0 <= i < s.len() ==> #[trigger] s[i].0@ != q.0@,
    ensures
        keys_distinct(s.insert(p, q)),
        pairs_map(s.insert(p, q)) == pairs_map(s).insert(q.0@, q.1@),
{
    let u = s.insert(p, q);
    assert(keys_distinct(u)) by {
        assert forall|a: int, b: int| 0 <= a < u.len() && 0 <= b < u.len() && a != b implies #[trigger] u[a].0@ != #[trigger] u[b].0@ by {
            if a != p && b != p {
                let a2 = if a < p { a } else { a - 1 };
                let b2 = if b < p { b } else { b - 1 };
                assert(u[a] == s[a2] && u[b] == s[b2]);
            } else if a == p {
                let b2 = if b < p { b } else { b - 1 };
                assert(u[b] == s[b2]);
            } else {
                let a2 = if a < p { a } else { a - 1 };
                assert(u[a] == s[a2]);
            }
        }
    }
    lemma_pairs_map(s);
    lemma_pairs_map(u);
    assert(u[p] == q);
    assert forall|k: Seq<char>| #[trigger] pairs_map(u).contains_key(k) == pairs_map(s).insert(q.0@, q.1@).contains_key(k) by {
        if pairs_map(s).contains_key(k) {
            let j = choose|j: int| 0 <= j < s.len() && s[j].0@ == k;
            let j2 = if j < p { j } else { j + 1 };
            assert(u[j2] == s[j]);
        }
        if pairs_map(u).contains_key(k) && k != q.0@ {
            let j = choose|j: int| 0 <= j < u.len() && u[j].0@ == k;
            assert(j != p);
            let j2 = if j < p { j } else { j - 1 };
            assert(u[j] == s[j2]);
        }
    }
    assert forall|k: Seq<char>| #[trigger] pairs_map(u).contains_key(k) implies pairs_map(u)[k] == pairs_map(s).insert(q.0@, q.1@)[k] by {
        let j = choose|j: int| 0 <= j < u.len() && u[j].0@ == k;
        assert(pairs_map(u)[u[j].0@] == u[j].1@);
        if j != p {
            let j2 = if j < p { j } else { j - 1 };
            assert(u[j] == s[j2]);
            assert(pairs_map(s)[s[j2].0@] == s[j2].1@);
        }
    }
    assert(pairs_map(u) =~= pairs_map(s).insert(q.0@, q.1@));
}

/// Removing the pair at `i` unbinds its key.
proof fn lemma_pairs_map_remove(s: Seq<(String, String)>, i: int)
    requires
        keys_distinct(s),
        0 <= i < s.len(),
    ensures
        keys_distinct(s.remove(i)),
        pairs_map(s.remove(i)) == pairs_map(s).remove(s[i].0@),
{
    let u = s.remove(i);
    let k0 = s[i].0@;
    assert(keys_distinct(u)) by {
        assert forall|a: int, b: int| 0 <= a < u.len() && 0 <= b < u.len() && a != b implies u[a].0@ != u[b].0@ by {
            let a2 = if a < i { a } else { a + 1 };
            let b2 = if b < i { b } else { b + 1 };
            assert(u[a] == s[a2] && u[b] == s[b2]);
        }
    }
    lemma_pairs_map(s);
    lemma_pairs_map(u);
    assert forall|k: Seq<char>| #[trigger] pairs_map(u).contains_key(k) == pairs_map(s).remove(k0).contains_key(k) by {
        if pairs_map(s).contains_key(k) && k != k0 {
            let j = choose|j: int| 0 <= j < s.len() && s[j].0@ == k;
            let j2 = if j < i { j } else { j - 1 };
            assert(u[j2] == s[j]);
        }
        if pairs_map(u).contains_key(k) {
            let j = choose|j: int| 0 <= j < u.len() && u[j].0@ == k;
            let j2 = if j < i { j } else { j + 1 };
            assert(u[j] == s[j2]);
            assert(j2 != i);
        }
    }
    assert forall|k: Seq<char>| #[trigger] pairs_map(u).contains_key(k) implies pairs_map(u)[k] == pairs_map(s).remove(k0)[k] by {
        let j = choose|j: int| 0 <= j < u.len() && u[j].0@ == k;
        let j2 = if j < i { j } else { j + 1 };
        assert(u[j] == s[j2]);
        assert(pairs_map(s)[s[j2].0@] == s[j2].1@);
        assert(pairs_map(u)[u[j].0@] == u[j].1@);
    }
    assert(pairs_map(u) =~= pairs_map(s).remove(k0));
}

/// Whether `c` is a lowercase hexadecimal digit.
pub open spec fn is_lower_hex(c: char) -> bool {
    ('0' <= c && c <= '9') || ('a' <= c && c <= 'f')
}

/// Whether `s` is the lowercase hyphenated text of a random (version 4)
/// UUID: 36 characters, hyphens at 8, 13, 18 and 23, hexadecimal digits
/// elsewhere, the version digit 4 at 14 and a variant digit 8 to b at 19.
pub open spec fn is_v4_uuid_text(s: Seq<char>) -> bool {
    &&& s.len() == 36
    &&& forall|i: int| 0 <= i < 36 ==> (if i == 8 || i == 13 || i == 18 || i == 23 {
        #[trigger] s[i] == '-'
    } else {
        is_lower_hex(s[i])
    })
    &&& s[14] == '4'
    &&& (s[19] == '8' || s[19] == '9' || s[19] == 'a' || s[19] == 'b')
}

/// Calls `uuid::Uuid::new_v4` and formats the result with `to_string`.
/// Trusted: the uuid source fixes the version and variant bits of the random
/// value and formats it as lowercase hyphenated hexadecimal; which random
/// value comes out is not stated.
#[verifier::external_body]
fn new_v4_uuid_text() -> (s: String)
    ensures
        is_v4_uuid_text(s@),
{
    uuid::Uuid::new_v4().to_string()
}

/// A change that a call makes to a log context, as it acts on the
/// context's map.
pub enum RiContextChange {
    /// `put`, and `set_trace_id`, `set_span_id` and `set_parent_span_id`
    /// under their keys: binds a key to a value.
    Put(Seq<char>, Seq<char>),
    /// `put_all`: binds every key of the map, overriding what was bound.
    PutAll(Map<Seq<char>, Seq<char>>),
    /// `remove`: unbinds a key.
    Remove(Seq<char>),
    /// `clear`: unbinds every key.
    Clear,
}

/// The context's map after the change `c`.
pub open spec fn apply_change(m: Map<Seq<char>, Seq<char>>, c: RiContextChange) -> Map<Seq<char>, Seq<char>> {
    match c {
        RiContextChange::Put(k, v) => m.insert(k, v),
        RiContextChange::PutAll(n) => m.union_prefer_right(n),
        RiContextChange::Remove(k) => m.remove(k),
        RiContextChange::Clear => Map::empty(),
    }
}

/// The context's map after the changes `cs`, in order.
pub open spec fn apply_changes(m: Map<Seq<char>, Seq<char>>, cs: Seq<RiContextChange>) -> Map<Seq<char>, Seq<char>>
    decreases cs.len(),
{
    if cs.len() == 0 {
        m
    } else {
        apply_change(apply_changes(m, cs.drop_last()), cs.last())
    }
}

/// Whether the change `c` writes or removes the key `k`.
pub open spec fn touches(c: RiContextChange, k: Seq<char>) -> bool {
    match c {
        RiContextChange::Put(k2, _) => k2 == k,
        RiContextChange::PutAll(n) => n.contains_key(k),
        RiContextChange::Remove(k2) => k2 == k,
        RiContextChange::Clear => true,
    }
}

/// The log context: a map from keys to values, kept as a list of pairs
/// with distinct keys.
pub struct RiLogContext {
    entries: Vec<(String, String)>,
}

impl RiLogContext {
    #[verifier::type_invariant]
    spec fn distinct_keys(&self) -> bool {
        keys_distinct(self.entries@)
    }
}

impl View for RiLogContext {
    type V = Map<Seq<char>, Seq<char>>;

    closed spec fn view(&self) -> Map<Seq<char>, Seq<char>> {
        pairs_map(self.entries@)
    }
}

impl RiLogContext {
    /// An empty context.
    pub fn new() -> (ctx: Self)
        ensures
            ctx@ == Map::<Seq<char>, Seq<char>>::empty(),
    {
        RiLogContext { entries: Vec::new() }
    }

    /// The index of the pair whose key is `key`, if there is one.
    fn position(&self, key: &String) -> (r: Option<usize>)
        ensures
            match r {
                Some(i) => i < self.entries@.len() && self.entries@[i as int].0@ == key@,
                None => forall|i: int| 0 <= i < self.entries@.len() ==> #[trigger] self.entries@[i].0@ != key@,
            },
    {
        let mut i: usize = 0;
        while i < self.entries.len()
            invariant
                i <= self.entries@.len(),
                forall|j: int| 0 <= j < i ==> #[trigger] self.entries@[j].0@ != key@,
            decreases self.entries@.len() - i,
        {
            if self.entries[i].0 == *key {
                return Some(i);
            }
            i = i + 1;
        }
        None
    }

    /// Binds `key` to `value`, replacing any value it had.
    fn put_owned(&mut self, key: String, value: String)
        ensures
            final(self)@ == old(self)@.insert(key@, value@),
    {
        proof {
            use_type_invariant(&*self);
        }
        match self.position(&key) {
            Some(i) => {
                proof {
                    lemma_pairs_map_update(self.entries@, i as int, (key, value));
                }
                let mut entries = Vec::new();
                std::mem::swap(&mut entries, &mut self.entries);
                entries.set(i, (key, value));
                self.entries = entries;
            },
            None => {
                proof {
                    let s = self.entries@;
                    let u = s.push((key, value));
                    assert(u.drop_last() =~= s);
                    assert forall|a: int, b: int| 0 <= a < u.len() && 0 <= b < u.len() && a != b implies #[trigger] u[a].0@ != #[trigger] u[b].0@ by {
                        if a < s.len() && b < s.len() {
                            assert(u[a] == s[a] && u[b] == s[b]);
                        } else if a < s.len() {
                            assert(u[a] == s[a]);
                        } else {
                            assert(u[b] == s[b]);
                        }
                    }
                }
                let mut entries = Vec::new();
                std::mem::swap(&mut entries, &mut self.entries);
                entries.push((key, value));
                self.entries = entries;
            },
        }
    }

    /// Binds `key` to `value` in the context, replacing any value it had.
    pub fn put(&mut self, key: &str, value: &str)
        ensures
            final(self)@ == old(self)@.insert(key@, value@),
            final(self)@ == apply_change(old(self)@, RiContextChange::Put(key@, value@)),
    {
        self.put_owned(key.to_owned(), value.to_owned());
    }

    /// Binds each key of `values` to its value, in order: a later pair
    /// overrides an earlier one with the same key, and every pair overrides
    /// what the context held.
    pub fn put_all(&mut self, values: Vec<(String, String)>)
        ensures
            final(self)@ == old(self)@.union_prefer_right(pairs_map(values@)),
            final(self)@ == apply_change(old(self)@, RiContextChange::PutAll(pairs_map(values@))),
    {
        let n = values.len();
        let mut i: usize = 0;
        while i < n
            invariant
                n == values@.len(),
                i <= n,
                self@ == old(self)@.union_prefer_right(pairs_map(values@.take(i as int))),
            decreases n - i,
        {
            let k = values[i].0.clone();
            let v = values[i].1.clone();
            proof {
                assert(values@.take(i + 1).drop_last() =~= values@.take(i as int));
                assert(values@.take(i + 1).last() == values@[i as int]);
            }
            self.put_owned(k, v);
            proof {
                assert(self@ =~= old(self)@.union_prefer_right(pairs_map(values@.take(i + 1))));
            }
            i = i + 1;
        }
        proof {
            assert(values@.take(n as int) =~= values@);
        }
    }

    /// The value bound to `key`, if any.
    pub fn get(&self, key: &str) -> (r: Option<String>)
        ensures
            r is Some <==> self@.contains_key(key@),
            r matches Some(v) ==> v@ == self@[key@],
    {
        proof {
            use_type_invariant(self);
            lemma_pairs_map(self.entries@);
        }
        let k = key.to_owned();
        match self.position(&k) {
            Some(i) => Some(self.entries[i].1.clone()),
            None => None,
        }
    }

    /// Unbinds `key`.
    pub fn remove(&mut self, key: &str)
        ensures
            final(self)@ == old(self)@.remove(key@),
            final(self)@ == apply_change(old(self)@, RiContextChange::Remove(key@)),
    {
        proof {
            use_type_invariant(&*self);
            lemma_pairs_map(self.entries@);
        }
        let k = key.to_owned();
        match self.position(&k) {
            Some(i) => {
                proof {
                    lemma_pairs_map_remove(self.entries@, i as int);
                }
                let mut entries = Vec::new();
                std::mem::swap(&mut entries, &mut self.entries);
                entries.remove(i);
                self.entries = entries;
            },
            None => {
                assert(self@ =~= self@.remove(key@));
            },
        }
    }

    /// Every binding of the context, as pairs with distinct keys.
    pub fn get_all(&self) -> (r: Vec<(String, String)>)
        ensures
            keys_distinct(r@),
            pairs_map(r@) == self@,
    {
        proof {
            use_type_invariant(self);
        }
        let n = self.entries.len();
        let mut out: Vec<(String, String)> = Vec::new();
        let mut i: usize = 0;
        while i < n
            invariant
                n == self.entries@.len(),
                i <= n,
                out@.len() == i,
                forall|j: int| 0 <= j < i ==> (#[trigger] out@[j]).0@ == self.entries@[j].0@ && out@[j].1@ == self.entries@[j].1@,
            decreases n - i,
        {
            let k = self.entries[i].0.clone();
            let v = self.entries[i].1.clone();
            out.push((k, v));
            i = i + 1;
        }
        proof {
            lemma_same_views(out@, self.entries@);
        }
        out
    }

    /// Removes every binding.
    pub fn clear(&mut self)
        ensures
            final(self)@ == Map::<Seq<char>, Seq<char>>::empty(),
            final(self)@ == apply_change(old(self)@, RiContextChange::Clear),
    {
        self.entries = Vec::new();
    }

    /// A fresh random identifier for a trace.
    pub fn generate_trace_id() -> (id: String)
        ensures
            is_v4_uuid_text(id@),
    {
        new_v4_uuid_text()
    }

    /// A fresh random identifier for a span.
    pub fn generate_span_id() -> (id: String)
        ensures
            is_v4_uuid_text(id@),
    {
        new_v4_uuid_text()
    }

    /// Binds "trace_id" to `trace_id`.
    pub fn set_trace_id(&mut self, trace_id: &str)
        ensures
            final(self)@ == old(self)@.insert("trace_id"@, trace_id@),
            final(self)@ == apply_change(old(self)@, RiContextChange::Put("trace_id"@, trace_id@)),
    {
        self.put("trace_id", trace_id);
    }

    /// The value bound to "trace_id", if any.
    pub fn get_trace_id(&self) -> (r: Option<String>)
        ensures
            r is Some <==> self@.contains_key("trace_id"@),
            r matches Some(v) ==> v@ == self@["trace_id"@],
    {
        self.get("trace_id")
    }

    /// Binds "span_id" to `span_id`.
    pub fn set_span_id(&mut self, span_id: &str)
        ensures
            final(self)@ == old(self)@.insert("span_id"@, span_id@),
            final(self)@ == apply_change(old(self)@, RiContextChange::Put("span_id"@, span_id@)),
    {
        self.put("span_id", span_id);
    }

    /// The value bound to "span_id", if any.
    pub fn get_span_id(&self) -> (r: Option<String>)
        ensures
            r is Some <==> self@.contains_key("span_id"@),
            r matches Some(v) ==> v@ == self@["span_id"@],
    {
        self.get("span_id")
    }

    /// Binds "parent_span_id" to `parent_span_id`.
    pub fn set_parent_span_id(&mut self, parent_span_id: &str)
        ensures
            final(self)@ == old(self)@.insert("parent_span_id"@, parent_span_id@),
            final(self)@ == apply_change(old(self)@, RiContextChange::Put("parent_span_id"@, parent_span_id@)),
    {
        self.put("parent_span_id", parent_span_id);
    }

    /// The value bound to "parent_span_id", if any.
    pub fn get_parent_span_id(&self) -> (r: Option<String>)
        ensures
            r is Some <==> self@.contains_key("parent_span_id"@),
            r matches Some(v) ==> v@ == self@["parent_span_id"@],
    {
        self.get("parent_span_id")
    }
}

/// What is put under a key is what a later get of that key returns, and
/// every other key keeps what it had.
pub proof fn law_put_then_get(before: Map<Seq<char>, Seq<char>>, key: Seq<char>, value: Seq<char>, other: Seq<char>)
    ensures
        before.insert(key, value).contains_key(key),
        before.insert(key, value)[key] == value,
        other != key ==> (before.insert(key, value).contains_key(other) == before.contains_key(other)),
        other != key && before.contains_key(other) ==> before.insert(key, value)[other] == before[other],
{
}

/// Changes that neither write nor remove `k` leave what `k` is bound to,
/// or that it is unbound, as it was.
pub proof fn law_untouched_key_kept(m: Map<Seq<char>, Seq<char>>, cs: Seq<RiContextChange>, k: Seq<char>)
    requires
        forall|i: int| 0 <= i < cs.len() ==> !touches(#[trigger] cs[i], k),
    ensures
        apply_changes(m, cs).contains_key(k) == m.contains_key(k),
        m.contains_key(k) ==> apply_changes(m, cs)[k] == m[k],
    decreases cs.len(),
{
    if cs.len() > 0 {
        let t = cs.drop_last();
        assert forall|i: int| 0 <= i < t.len() implies !touches(#[trigger] t[i], k) by {
            assert(t[i] == cs[i]);
        }
        law_untouched_key_kept(m, t, k);
        assert(!touches(cs[cs.len() - 1], k));
    }
}

/// A value put under `k` is what a get of `k` returns after any later
/// changes that neither write nor remove `k`.
pub proof fn law_put_survives(
    m: Map<Seq<char>, Seq<char>>,
    k: Seq<char>,
    v: Seq<char>,
    cs: Seq<RiContextChange>,
)
    requires
        forall|i: int| 0 <= i < cs.len() ==> !touches(#[trigger] cs[i], k),
    ensures
        apply_changes(apply_change(m, RiContextChange::Put(k, v)), cs).contains_key(k),
        apply_changes(apply_change(m, RiContextChange::Put(k, v)), cs)[k] == v,
{
    law_untouched_key_kept(apply_change(m, RiContextChange::Put(k, v)), cs, k);
}

/// The trace identifier set is what `get_trace_id`, and a get of
/// "trace_id", return after any later changes that neither write nor
/// remove "trace_id".
pub proof fn law_trace_id_survives(m: Map<Seq<char>, Seq<char>>, t: Seq<char>, cs: Seq<RiContextChange>)
    requires
        forall|i: int| 0 <= i < cs.len() ==> !touches(#[trigger] cs[i], "trace_id"@),
    ensures
        apply_changes(apply_change(m, RiContextChange::Put("trace_id"@, t)), cs).contains_key("trace_id"@),
        apply_changes(apply_change(m, RiContextChange::Put("trace_id"@, t)), cs)["trace_id"@] == t,
{
    law_put_survives(m, "trace_id"@, t, cs);
}

/// The parent span identifier set is what `get_parent_span_id`, and a get
/// of "parent_span_id", return after any later changes that neither write
/// nor remove "parent_span_id"; setting it leaves the trace and span
/// identifiers as they were.
pub proof fn law_parent_span_id_survives(m: Map<Seq<char>, Seq<char>>, p: Seq<char>, cs: Seq<RiContextChange>)
    requires
        forall|i: int| 0 <= i < cs.len() ==> !touches(#[trigger] cs[i], "parent_span_id"@),
    ensures
        apply_changes(apply_change(m, RiContextChange::Put("parent_span_id"@, p)), cs).contains_key("parent_span_id"@),
        apply_changes(apply_change(m, RiContextChange::Put("parent_span_id"@, p)), cs)["parent_span_id"@] == p,
        apply_change(m, RiContextChange::Put("parent_span_id"@, p)).contains_key("trace_id"@) == m.contains_key("trace_id"@),
        m.contains_key("trace_id"@) ==> apply_change(m, RiContextChange::Put("parent_span_id"@, p))["trace_id"@] == m["trace_id"@],
        apply_change(m, RiContextChange::Put("parent_span_id"@, p)).contains_key("span_id"@) == m.contains_key("span_id"@),
        m.contains_key("span_id"@) ==> apply_change(m, RiContextChange::Put("parent_span_id"@, p))["span_id"@] == m["span_id"@],
{
    law_put_survives(m, "parent_span_id"@, p, cs);
    reveal_strlit("parent_span_id");
    reveal_strlit("trace_id");
    reveal_strlit("span_id");
    assert("parent_span_id"@.len() != "trace_id"@.len());
    assert("parent_span_id"@.len() != "span_id"@.len());
}

/// After a key is removed, a get of it finds nothing, and every other key
/// keeps what it had.
pub proof fn law_remove_then_get(before: Map<Seq<char>, Seq<char>>, key: Seq<char>, other: Seq<char>)
    ensures
        !before.remove(key).contains_key(key),
        other != key ==> (before.remove(key).contains_key(other) == before.contains_key(other)),
        other != key && before.contains_key(other) ==> before.remove(key)[other] == before[other],
{
}

/// Putting a pair and removing its key leaves the context as it was when
/// the key was absent.
pub proof fn law_put_remove_undo(before: Map<Seq<char>, Seq<char>>, key: Seq<char>, value: Seq<char>)
    requires
        !before.contains_key(key),
    ensures
        before.insert(key, value).remove(key) == before,
{
    assert(before.insert(key, value).remove(key) =~= before);
}

/// After putting a list of pairs, a key takes the value of its last pair in
/// the list; a key the list does not name keeps what it had.
pub proof fn law_put_all_last_wins(
    before: Map<Seq<char>, Seq<char>>,
    values: Seq<(String, String)>,
    i: int,
    other: Seq<char>,
)
    requires
        0 <= i < values.len(),
        forall|j: int| i < j < values.len() ==> (#[trigger] values[j]).0@ != values[i].0@,
    ensures
        before.union_prefer_right(pairs_map(values))[values[i].0@] == values[i].1@,
        (forall|j: int| 0 <= j < values.len() ==> (#[trigger] values[j]).0@ != other)
            ==> before.union_prefer_right(pairs_map(values)).contains_key(other) == before.contains_key(other)
                && (before.contains_key(other) ==> before.union_prefer_right(pairs_map(values))[other] == before[other]),
{
    lemma_last_pair_wins(values, i);
    lemma_unnamed_key(values, other);
}

proof fn lemma_last_pair_wins(values: Seq<(String, String)>, i: int)
    requires
        0 <= i < values.len(),
        forall|j: int| i < j < values.len() ==> (#[trigger] values[j]).0@ != values[i].0@,
    ensures
        pairs_map(values).contains_key(values[i].0@),
        pairs_map(values)[values[i].0@] == values[i].1@,
    decreases values.len(),
{
    if i < values.len() - 1 {
        let t = values.drop_last();
        assert forall|j: int| i < j < t.len() implies (#[trigger] t[j]).0@ != t[i].0@ by {
            assert(t[j] == values[j] && t[i] == values[i]);
        }
        lemma_last_pair_wins(t, i);
        assert(t[i] == values[i]);
        assert(values[values.len() - 1].0@ != values[i].0@);
    }
}

proof fn lemma_unnamed_key(values: Seq<(String, String)>, other: Seq<char>)
    ensures
        (forall|j: int| 0 <= j < values.len() ==> (#[trigger] values[j]).0@ != other) ==> !pairs_map(values).contains_key(other),
    decreases values.len(),
{
    if values.len() > 0 {
        let t = values.drop_last();
        if forall|j: int| 0 <= j < values.len() ==> (#[trigger] values[j]).0@ != other {
            assert forall|j: int| 0 <= j < t.len() implies (#[trigger] t[j]).0@ != other by {
                assert(t[j] == values[j]);
            }
            assert(values[values.len() - 1].0@ != other);
        }
        lemma_unnamed_key(t, other);
    }
}

/// Two lists of pairs with the same key and value views describe the same
/// map, and have distinct keys together.
proof fn lemma_same_views(a: Seq<(String, String)>, b: Seq<(String, String)>)
    requires
        a.len() == b.len(),
        forall|j: int| 0 <= j < a.len() ==> (#[trigger] a[j]).0@ == b[j].0@ && a[j].1@ == b[j].1@,
        keys_distinct(b),
    ensures
        keys_distinct(a),
        pairs_map(a) == pairs_map(b),
    decreases a.len(),
{
    assert forall|i: int, j: int| 0 <= i < a.len() && 0 <= j < a.len() && i != j implies #[trigger] a[i].0@ != #[trigger] a[j].0@ by {
        assert(a[i].0@ == b[i].0@ && a[j].0@ == b[j].0@);
    }
    if a.len() > 0 {
        let a2 = a.drop_last();
        let b2 = b.drop_last();
        assert forall|j: int| 0 <= j < a2.len() implies (#[trigger] a2[j]).0@ == b2[j].0@ && a2[j].1@ == b2[j].1@ by {
            assert(a2[j] == a[j] && b2[j] == b[j]);
        }
        assert forall|i: int, j: int| 0 <= i < b2.len() && 0 <= j < b2.len() && i != j implies #[trigger] b2[i].0@ != #[trigger] b2[j].0@ by {
            assert(b2[i] == b[i] && b2[j] == b[j]);
        }
        lemma_same_views(a2, b2);
        assert(a.last().0@ == b.last().0@ && a.last().1@ == b.last().1@);
    }
}

} // verus!
