//! Environment overrides: a map from names to values, kept in name order.

use vstd::prelude::*;

use crate::error::labelled;
use crate::json::{fields_model, push_field, Json, JsonModel};
use crate::text::{chars_of, split_first, split_once};

verus! {

/// `a` comes before `b` when texts are ordered by code point.
pub open spec fn before(a: Seq<char>, b: Seq<char>) -> bool
    decreases a.len(),
{
    if b.len() == 0 {
        false
    } else if a.len() == 0 {
        true
    } else if a[0] != b[0] {
        a[0] < b[0]
    } else {
        before(a.skip(1), b.skip(1))
    }
}

/// Two texts are equal or one comes before the other, and never both ways.
pub proof fn lemma_before_total(a: Seq<char>, b: Seq<char>)
    ensures
        a == b || before(a, b) || before(b, a),
        !(before(a, b) && before(b, a)),
        a == b ==> !before(a, b),
    decreases a.len(),
{
    if a.len() == 0 && b.len() == 0 {
        assert(a =~= b);
    } else if a.len() > 0 && b.len() > 0 && a[0] == b[0] {
        lemma_before_total(a.skip(1), b.skip(1));
        if a.skip(1) == b.skip(1) {
            assert(a =~= seq![a[0]] + a.skip(1));
            assert(b =~= seq![b[0]] + b.skip(1));
        }
    }
}

/// The order is transitive.
pub proof fn lemma_before_transitive(a: Seq<char>, b: Seq<char>, c: Seq<char>)
    requires
        before(a, b),
        before(b, c),
    ensures
        before(a, c),
    decreases a.len(),
{
    if a.len() > 0 && a[0] == b[0] && b[0] == c[0] {
        lemma_before_transitive(a.skip(1), b.skip(1), c.skip(1));
    }
}

fn char_before(c: char, d: char) -> (r: bool)
    ensures
        r == (c < d),
{
    (c as u32) < (d as u32)
}

/// Tells whether `a` comes before `b`.
fn comes_before(a: &str, b: &str) -> (r: bool)
    ensures
        r == before(a@, b@),
{
    let x = chars_of(a);
    let y = chars_of(b);
    let mut i: usize = 0;
    proof {
        assert(x@.skip(0) =~= x@);
        assert(y@.skip(0) =~= y@);
    }
    loop
        invariant
            i <= x@.len(),
            i <= y@.len(),
            x@ == a@,
            y@ == b@,
            before(a@, b@) == before(x@.skip(i as int), y@.skip(i as int)),
        decreases x@.len() - i,
    {
        if i >= y.len() {
            return false;
        }
        if i >= x.len() {
            return true;
        }
        if x[i] != y[i] {
            return char_before(x[i], y[i]);
        }
        proof {
            assert(x@.skip(i as int).skip(1) =~= x@.skip(i + 1));
            assert(y@.skip(i as int).skip(1) =~= y@.skip(i + 1));
        }
        i += 1;
    }
}

/// Names and values, each name once, in name order.
#[derive(Debug)]
pub struct EnvMap {
    entries: Vec<(String, String)>,
}

/// `k` is the name of entry `i`.
spec fn named(e: Seq<(String, String)>, k: Seq<char>, i: int) -> bool {
    0 <= i < e.len() && e[i].0@ == k
}

spec fn entry_of(e: Seq<(String, String)>, k: Seq<char>) -> int {
    choose|i: int| named(e, k, i)
}

impl View for EnvMap {
    type V = Map<Seq<char>, Seq<char>>;

    closed spec fn view(&self) -> Map<Seq<char>, Seq<char>> {
        Map::new(
            |k: Seq<char>| exists|i: int| named(self.entries@, k, i),
            |k: Seq<char>| self.entries@[entry_of(self.entries@, k)].1@,
        )
    }
}

impl EnvMap {
    /// Every name stands once, and the names are in order.
    pub closed spec fn wf(self) -> bool {
        forall|i: int, j: int|
            0 <= i < j < self.entries@.len() ==> before(
                #[trigger] self.entries@[i].0@,
                #[trigger] self.entries@[j].0@,
            )
    }

    /// The names and values in the order they are written.
    pub closed spec fn pairs(self) -> Seq<(Seq<char>, Seq<char>)> {
        Seq::new(
            self.entries@.len(),
            |i: int| (self.entries@[i].0@, self.entries@[i].1@),
        )
    }

    /// The pairs are the map, in strict name order.
    pub proof fn lemma_pairs(self)
        requires
            self.wf(),
        ensures
            forall|i: int, j: int|
                0 <= i < j < self.pairs().len() ==> before(
                    #[trigger] self.pairs()[i].0,
                    #[trigger] self.pairs()[j].0,
                ),
            forall|i: int|
                0 <= i < self.pairs().len() ==> self@.contains_key(#[trigger] self.pairs()[i].0)
                    && self@[self.pairs()[i].0] == self.pairs()[i].1,
            forall|k: Seq<char>| #[trigger]
                self@.contains_key(k) ==> exists|i: int|
                    0 <= i < self.pairs().len() && #[trigger] self.pairs()[i].0 == k,
    {
        let e = self.entries@;
        assert forall|i: int| 0 <= i < self.pairs().len() implies self@.contains_key(
            #[trigger] self.pairs()[i].0,
        ) && self@[self.pairs()[i].0] == self.pairs()[i].1 by {
            let k = self.pairs()[i].0;
            assert(named(e, k, i));
            self.lemma_unique(k, i);
        }
        assert forall|k: Seq<char>| #[trigger] self@.contains_key(k) implies exists|i: int|
            0 <= i < self.pairs().len() && #[trigger] self.pairs()[i].0 == k by {
            let i = entry_of(e, k);
            assert(named(e, k, i));
            assert(self.pairs()[i].0 == k);
        }
    }

    proof fn lemma_unique(self, k: Seq<char>, i: int)
        requires
            self.wf(),
            named(self.entries@, k, i),
        ensures
            entry_of(self.entries@, k) == i,
    {
        let j = entry_of(self.entries@, k);
        assert(named(self.entries@, k, j));
        lemma_before_total(k, k);
        if i < j {
            assert(before(self.entries@[i].0@, self.entries@[j].0@));
        } else if j < i {
            assert(before(self.entries@[j].0@, self.entries@[i].0@));
        }
    }

    /// The empty map.
    pub fn new() -> (r: EnvMap)
        ensures
            r.wf(),
            r@ == Map::<Seq<char>, Seq<char>>::empty(),
            r.pairs() == Seq::<(Seq<char>, Seq<char>)>::empty(),
    {
        let r = EnvMap { entries: Vec::new() };
        assert(r@ =~= Map::<Seq<char>, Seq<char>>::empty());
        assert(r.pairs() =~= Seq::<(Seq<char>, Seq<char>)>::empty());
        r
    }

    /// How many names there are.
    pub fn len(&self) -> (r: usize)
        ensures
            r == self.pairs().len(),
    {
        self.entries.len()
    }

    /// The name and the value at position `i`.
    pub fn pair(&self, i: usize) -> (r: (&str, &str))
        requires
            i < self.pairs().len(),
        ensures
            (r.0@, r.1@) == self.pairs()[i as int],
    {
        (self.entries[i].0.as_str(), self.entries[i].1.as_str())
    }

    /// Sets `key` to `value`, over any earlier value.
    pub fn insert(&mut self, key: &str, value: &str)
        requires
            old(self).wf(),
        ensures
            final(self).wf(),
            final(self)@ == old(self)@.insert(key@, value@),
    {
        let ghost e0 = self.entries@;
        let mut i: usize = 0;
        while i < self.entries.len() && comes_before(self.entries[i].0.as_str(), key)
            invariant
                i <= self.entries@.len(),
                self.entries@ == e0,
                forall|j: int| 0 <= j < i ==> before(#[trigger] e0[j].0@, key@),
            decreases self.entries@.len() - i,
        {
            i += 1;
        }
        if i < self.entries.len() && crate::text::same(self.entries[i].0.as_str(), key) {
            self.entries.set(i, (key.to_owned(), value.to_owned()));
            proof {
                let e1 = self.entries@;
                assert forall|a: int, b: int| 0 <= a < b < e1.len() implies before(
                    #[trigger] e1[a].0@,
                    #[trigger] e1[b].0@,
                ) by {
                    assert(e1[a].0@ == e0[a].0@);
                    assert(e1[b].0@ == e0[b].0@);
                }
                old(self).lemma_replaced(*self, key@, value@, i as int);
            }
        } else {
            self.entries.insert(i, (key.to_owned(), value.to_owned()));
            proof {
                let e1 = self.entries@;
                if i < e0.len() {
                    lemma_before_total(e0[i as int].0@, key@);
                }
                assert forall|b: int| i <= b < e0.len() implies before(
                    key@,
                    #[trigger] e0[b].0@,
                ) by {
                    if b > i {
                        lemma_before_transitive(key@, e0[i as int].0@, e0[b].0@);
                    }
                }
                assert forall|a: int, b: int| 0 <= a < b < e1.len() implies before(
                    #[trigger] e1[a].0@,
                    #[trigger] e1[b].0@,
                ) by {
                    if a < i {
                        assert(e1[a] == e0[a]);
                    } else if a > i {
                        assert(e1[a] == e0[a - 1]);
                    }
                    if b < i {
                        assert(e1[b] == e0[b]);
                    } else if b > i {
                        assert(e1[b] == e0[b - 1]);
                    }
                }
                old(self).lemma_inserted(*self, key@, value@, i as int);
            }
        }
    }

    proof fn lemma_replaced(self, new: EnvMap, key: Seq<char>, value: Seq<char>, at: int)
        requires
            self.wf(),
            new.wf(),
            0 <= at < self.entries@.len(),
            self.entries@[at].0@ == key,
            new.entries@.len() == self.entries@.len(),
            new.entries@[at].0@ == key,
            new.entries@[at].1@ == value,
            forall|i: int|
                0 <= i < self.entries@.len() && i != at ==> new.entries@[i] == self.entries@[i],
        ensures
            new@ == self@.insert(key, value),
    {
        let e0 = self.entries@;
        let e1 = new.entries@;
        assert forall|k: Seq<char>|
            new@.contains_key(k) <==> #[trigger] self@.insert(key, value).contains_key(k) by {
            if new@.contains_key(k) {
                let i = entry_of(e1, k);
                assert(named(e1, k, i));
                assert(named(e0, k, i));
            }
            if self@.contains_key(k) {
                let i = entry_of(e0, k);
                assert(named(e0, k, i));
                assert(named(e1, k, i));
            }
            assert(named(e1, key, at));
        }
        assert forall|k: Seq<char>| #[trigger] new@.contains_key(k) implies new@[k]
            == self@.insert(key, value)[k] by {
            let i = entry_of(e1, k);
            assert(named(e1, k, i));
            if k == key {
                assert(named(e1, key, at));
                new.lemma_unique(key, at);
            } else {
                assert(named(e0, k, i));
                self.lemma_unique(k, i);
            }
        }
        assert(new@ =~= self@.insert(key, value));
    }

    proof fn lemma_inserted(self, new: EnvMap, key: Seq<char>, value: Seq<char>, at: int)
        requires
            self.wf(),
            new.wf(),
            0 <= at <= self.entries@.len(),
            new.entries@.len() == self.entries@.len() + 1,
            new.entries@[at].0@ == key,
            new.entries@[at].1@ == value,
            forall|i: int| 0 <= i < at ==> new.entries@[i] == self.entries@[i],
            forall|i: int|
                at < i < new.entries@.len() ==> new.entries@[i] == self.entries@[i - 1],
        ensures
            new@ == self@.insert(key, value),
    {
        let e0 = self.entries@;
        let e1 = new.entries@;
        assert forall|k: Seq<char>|
            new@.contains_key(k) <==> #[trigger] self@.insert(key, value).contains_key(k) by {
            if new@.contains_key(k) && k != key {
                let i = entry_of(e1, k);
                assert(named(e1, k, i));
                assert(named(e0, k, if i < at {
                    i
                } else {
                    i - 1
                }));
            }
            if self@.contains_key(k) {
                let i = entry_of(e0, k);
                assert(named(e0, k, i));
                assert(named(e1, k, if i < at {
                    i
                } else {
                    i + 1
                }));
            }
            assert(named(e1, key, at));
        }
        assert forall|k: Seq<char>| #[trigger] new@.contains_key(k) implies new@[k]
            == self@.insert(key, value)[k] by {
            let i = entry_of(e1, k);
            assert(named(e1, k, i));
            if k == key {
                assert(named(e1, key, at));
                new.lemma_unique(key, at);
            } else {
                let j = if i < at {
                    i
                } else {
                    i - 1
                };
                assert(named(e0, k, j));
                self.lemma_unique(k, j);
            }
        }
        assert(new@ =~= self@.insert(key, value));
    }
}

/// `p` is a usable `K=V`: a name that is not empty, an equals sign, a value.
pub open spec fn is_env_pair(p: Seq<char>) -> bool {
    split_first(p, '=') matches Some((k, v)) && k.len() > 0
}

/// The map that the pairs make; later duplicates win.
pub open spec fn env_of(pairs: Seq<Seq<char>>) -> Map<Seq<char>, Seq<char>>
    decreases pairs.len(),
{
    if pairs.len() == 0 {
        Map::empty()
    } else {
        let (k, v) = split_first(pairs.last(), '=')->0;
        env_of(pairs.drop_last()).insert(k, v)
    }
}

/// A pair is cut at its first equals sign, so that a value may hold others, and it
/// sets its name to its value, whatever came before; every other name keeps the
/// value it had. Without a name in front of the equals sign, or without the sign,
/// it is no pair.
pub proof fn lemma_pair_sets_its_name(pairs: Seq<Seq<char>>, k: Seq<char>, v: Seq<char>)
    requires
        !k.contains('='),
    ensures
        is_env_pair(k + seq!['='] + v) <==> k.len() > 0,
        !is_env_pair(k),
        env_of(pairs.push(k + seq!['='] + v)).contains_key(k),
        env_of(pairs.push(k + seq!['='] + v))[k] == v,
        forall|other: Seq<char>|
            other != k ==> env_of(pairs.push(k + seq!['='] + v)).contains_key(other) == env_of(
                pairs,
            ).contains_key(other) && #[trigger] env_of(pairs.push(k + seq!['='] + v))[other]
                == env_of(pairs)[other],
{
    crate::text::lemma_split_first(k, v, '=');
    assert(pairs.push(k + seq!['='] + v).drop_last() =~= pairs);
}

/// Pair `i` is the first that is not K=V.
pub open spec fn first_bad_pair(pairs: Seq<String>, i: int) -> bool {
    &&& 0 <= i < pairs.len()
    &&& !is_env_pair(pairs[i]@)
    &&& forall|j: int| 0 <= j < i ==> is_env_pair(#[trigger] pairs[j]@)
}

/// Every pair is K=V.
pub open spec fn env_usable(pairs: Seq<String>) -> bool {
    forall|i: int| 0 <= i < pairs.len() ==> is_env_pair(#[trigger] pairs[i]@)
}

/// Pairs can be used exactly where there is no first bad one, and there is one first bad
/// pair at most.
pub proof fn lemma_first_bad_pair(pairs: Seq<String>, i: int, j: int)
    ensures
        first_bad_pair(pairs, i) ==> !env_usable(pairs),
        first_bad_pair(pairs, i) && first_bad_pair(pairs, j) ==> i == j,
        first_bad_pair(pairs, i) ==> 0 <= i < pairs.len() && !is_env_pair(pairs[i]@),
        first_bad_pair(pairs, i) && 0 <= j < i ==> is_env_pair(pairs[j]@),
        env_usable(pairs) && 0 <= j < pairs.len() ==> is_env_pair(pairs[j]@),
{
}

/// Parse repeated `--env K=V` into a map (later duplicates win). The first pair
/// that is not of that form is the error.
pub fn parse_env(pairs: &[String]) -> (r: Result<EnvMap, String>)
    ensures
        r is Ok <==> env_usable(pairs@),
        r matches Ok(m) ==> m.wf() && m@ == env_of(crate::text::views(pairs@)),
        r matches Err(m) ==> exists|i: int| #[trigger]
            first_bad_pair(pairs@, i) && m@ == "invalid --env '"@ + pairs@[i]@
                + "' (expected K=V)"@,
{
    let mut map = EnvMap::new();
    let mut i: usize = 0;
    let ghost all = crate::text::views(pairs@);
    proof {
        assert(all.take(0) =~= Seq::<Seq<char>>::empty());
    }
    while i < pairs.len()
        invariant
            i <= pairs@.len(),
            all == crate::text::views(pairs@),
            map.wf(),
            map@ == env_of(all.take(i as int)),
            forall|j: int| 0 <= j < i ==> is_env_pair(#[trigger] pairs@[j]@),
        decreases pairs@.len() - i,
    {
        let p = pairs[i].as_str();
        let cut = split_once(p, '=');
        let ok = match &cut {
            Some((k, v)) => !k.as_str().is_empty(),
            None => false,
        };
        if !ok {
            assert(first_bad_pair(pairs@, i as int));
            let mut m = labelled("invalid --env '", p);
            m.append("' (expected K=V)");
            return Err(m);
        }
        if let Some((k, v)) = &cut {
            map.insert(k.as_str(), v.as_str());
            proof {
                assert(all.take(i + 1).drop_last() =~= all.take(i as int));
                assert(all.take(i + 1).last() == pairs@[i as int]@);
            }
        }
        i += 1;
    }
    proof {
        assert(all.take(i as int) =~= all);
    }
    Ok(map)
}

/// The fields of the environment as a JSON object.
pub open spec fn env_fields(pairs: Seq<(Seq<char>, Seq<char>)>) -> Seq<(Seq<char>, JsonModel)> {
    Seq::new(pairs.len(), |i: int| (pairs[i].0, JsonModel::Text(pairs[i].1)))
}

impl EnvMap {
    /// The map as a JSON object, in name order.
    pub fn to_value(&self) -> (r: Json)
        ensures
            r.model() == JsonModel::Object(env_fields(self.pairs())),
    {
        let mut fields: Vec<(String, Json)> = Vec::new();
        let mut i: usize = 0;
        while i < self.len()
            invariant
                i <= self.pairs().len(),
                fields_model(fields@) == env_fields(self.pairs()).take(i as int),
            decreases self.pairs().len() - i,
        {
            let (k, v) = self.pair(i);
            push_field(&mut fields, k, Json::text(v));
            i += 1;
            assert(fields_model(fields@) =~= env_fields(self.pairs()).take(i as int));
        }
        assert(env_fields(self.pairs()).take(i as int) =~= env_fields(self.pairs()));
        Json::object(fields)
    }
}

} // verus!
