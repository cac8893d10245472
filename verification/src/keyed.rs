//! A map from texts, kept in the order of its keys.

use vstd::prelude::*;

verus! {

/// Whether a text comes before another: by the first character in which they
/// differ, or by being shorter.
pub open spec fn text_before(a: Seq<char>, b: Seq<char>) -> bool
    decreases a.len(),
{
    if b.len() == 0 {
        false
    } else if a.len() == 0 {
        true
    } else if a[0] != b[0] {
        a[0] < b[0]
    } else {
        text_before(a.drop_first(), b.drop_first())
    }
}

pub proof fn lemma_text_before_is_strict(a: Seq<char>, b: Seq<char>)
    ensures
        text_before(a, b) ==> a != b && !text_before(b, a),
    decreases a.len(),
{
    if a.len() > 0 && b.len() > 0 && a[0] == b[0] {
        lemma_text_before_is_strict(a.drop_first(), b.drop_first());
    }
}

pub proof fn lemma_text_before_is_total(a: Seq<char>, b: Seq<char>)
    ensures
        text_before(a, b) || text_before(b, a) || a == b,
    decreases a.len(),
{
    if a.len() > 0 && b.len() > 0 && a[0] == b[0] {
        lemma_text_before_is_total(a.drop_first(), b.drop_first());
        if a.drop_first() == b.drop_first() {
            assert(a =~= seq![a[0]] + a.drop_first());
            assert(b =~= seq![b[0]] + b.drop_first());
        }
    } else if a.len() == 0 && b.len() == 0 {
        assert(a =~= b);
    }
}

pub proof fn lemma_text_before_is_transitive(a: Seq<char>, b: Seq<char>, c: Seq<char>)
    requires
        text_before(a, b),
        text_before(b, c),
    ensures
        text_before(a, c),
    decreases a.len(),
{
    if a.len() > 0 && b.len() > 0 && c.len() > 0 && a[0] == b[0] && b[0] == c[0] {
        lemma_text_before_is_transitive(a.drop_first(), b.drop_first(), c.drop_first());
    }
}

/// Whether `a` comes before `b`.
pub fn comes_before(a: &str, b: &str) -> (r: bool)
    ensures
        r == text_before(a@, b@),
{
    let a_len: usize = a.unicode_len();
    let b_len: usize = b.unicode_len();
    let mut i: usize = 0;
    assert(a@.skip(0) =~= a@);
    assert(b@.skip(0) =~= b@);
    while i < a_len && i < b_len
        invariant
            a_len == a@.len(),
            b_len == b@.len(),
            i <= a_len,
            i <= b_len,
            text_before(a@, b@) == text_before(a@.skip(i as int), b@.skip(i as int)),
        decreases a_len - i,
    {
        assert(a@.skip(i as int).drop_first() =~= a@.skip(i + 1));
        assert(b@.skip(i as int).drop_first() =~= b@.skip(i + 1));
        let x = a.get_char(i);
        let y = b.get_char(i);
        if x != y {
            return x < y;
        }
        i = i + 1;
    }
    i < b_len
}

/// A map from texts to values. Its entries stand in ascending order of their
/// keys, and no key stands twice.
#[derive(Debug)]
pub struct TextMap<V> {
    pub entries: Vec<(String, V)>,
}

impl<V> TextMap<V> {
    pub open spec fn well_formed(self) -> bool {
        forall|i: int, j: int|
            0 <= i < j < self.entries.len() ==> text_before(
                #[trigger] self.entries@[i].0@,
                #[trigger] self.entries@[j].0@,
            )
    }

    pub open spec fn has_at(self, key: Seq<char>, i: int) -> bool {
        0 <= i < self.entries.len() && self.entries@[i].0@ == key
    }

    /// The value under each key.
    pub open spec fn map(self) -> Map<Seq<char>, V> {
        Map::new(
            |key: Seq<char>| exists|i: int| self.has_at(key, i),
            |key: Seq<char>| self.entries@[choose|i: int| self.has_at(key, i)].1,
        )
    }

    proof fn lemma_at(self, key: Seq<char>, i: int)
        requires
            self.well_formed(),
            self.has_at(key, i),
        ensures
            self.map().dom().contains(key),
            self.map()[key] == self.entries@[i].1,
    {
        let k = choose|k: int| self.has_at(key, k);
        assert(self.has_at(key, k));
        if k < i {
            lemma_text_before_is_strict(self.entries@[k].0@, self.entries@[i].0@);
        } else if i < k {
            lemma_text_before_is_strict(self.entries@[i].0@, self.entries@[k].0@);
        }
    }

    /// A map without entries.
    pub fn new() -> (r: TextMap<V>)
        ensures
            r.well_formed(),
            r.map() == Map::<Seq<char>, V>::empty(),
            r.entries.len() == 0,
    {
        let r = TextMap { entries: Vec::new() };
        assert(r.map() =~= Map::<Seq<char>, V>::empty());
        r
    }

    /// The index of a key, or where it would stand.
    fn position(&self, key: &str) -> (r: (bool, usize))
        requires
            self.well_formed(),
        ensures
            r.1 <= self.entries.len(),
            r.0 ==> self.has_at(key@, r.1 as int),
            !r.0 ==> forall|i: int|
                #![trigger self.entries@[i]]
                0 <= i < self.entries.len() ==> if i < r.1 {
                    text_before(self.entries@[i].0@, key@)
                } else {
                    text_before(key@, self.entries@[i].0@)
                },
    {
        let mut i: usize = 0;
        while i < self.entries.len() && comes_before(self.entries[i].0.as_str(), key)
            invariant
                i <= self.entries.len(),
                forall|j: int|
                    0 <= j < i ==> text_before((#[trigger] self.entries@[j]).0@, key@),
            decreases self.entries.len() - i,
        {
            i = i + 1;
        }
        if i < self.entries.len() {
            if crate::text::same_text(self.entries[i].0.as_str(), key) {
                return (true, i);
            }
            proof {
                lemma_text_before_is_total(self.entries@[i as int].0@, key@);
                assert forall|j: int| i <= j < self.entries.len() implies text_before(
                    key@,
                    (#[trigger] self.entries@[j]).0@,
                ) by {
                    if j > i {
                        lemma_text_before_is_transitive(
                            key@,
                            self.entries@[i as int].0@,
                            self.entries@[j].0@,
                        );
                    }
                }
            }
        }
        (false, i)
    }

    /// Puts a value under a key, in place of one that stands there.
    pub fn insert(&mut self, key: String, value: V)
        requires
            old(self).well_formed(),
        ensures
            final(self).well_formed(),
            final(self).map() == old(self).map().insert(key@, value),
    {
        let (found, at) = self.position(key.as_str());
        let ghost before = *self;
        let ghost name = key@;
        if found {
            self.entries[at].1 = value;
            proof {
                assert(self.entries@.len() == before.entries@.len());
                assert forall|i: int| 0 <= i < self.entries.len() implies #[trigger] self.entries@[i].0
                    == before.entries@[i].0 by {}
                assert forall|i: int, j: int| 0 <= i < j < self.entries.len() implies text_before(
                    #[trigger] self.entries@[i].0@,
                    #[trigger] self.entries@[j].0@,
                ) by {
                    assert(text_before(before.entries@[i].0@, before.entries@[j].0@));
                }
                assert forall|k: Seq<char>| true implies #[trigger] self.map().dom().contains(k)
                    == before.map().insert(name, value).dom().contains(k) by {
                    if exists|i: int| before.has_at(k, i) {
                        let i = choose|i: int| before.has_at(k, i);
                        assert(self.has_at(k, i));
                    }
                    if exists|i: int| self.has_at(k, i) {
                        let i = choose|i: int| self.has_at(k, i);
                        assert(before.has_at(k, i));
                    }
                }
                assert forall|k: Seq<char>| #[trigger] self.map().dom().contains(k) implies self.map()[k]
                    == before.map().insert(name, value)[k] by {
                    let i = choose|i: int| self.has_at(k, i);
                    assert(before.has_at(k, i));
                    before.lemma_at(k, i);
                    self.lemma_at(k, i);
                    if i != at {
                        if i < at {
                            lemma_text_before_is_strict(
                                before.entries@[i].0@,
                                before.entries@[at as int].0@,
                            );
                        } else {
                            lemma_text_before_is_strict(
                                before.entries@[at as int].0@,
                                before.entries@[i].0@,
                            );
                        }
                    }
                }
                assert(self.map() =~= before.map().insert(name, value));
            }
        } else {
            self.entries.insert(at, (key, value));
            proof {
                let at = at as int;
                assert forall|i: int| 0 <= i < self.entries.len() implies #[trigger] self.entries@[i]
                    == if i < at {
                    before.entries@[i]
                } else if i == at {
                    (key, value)
                } else {
                    before.entries@[i - 1]
                } by {}
                assert forall|i: int, j: int| 0 <= i < j < self.entries.len() implies text_before(
                    #[trigger] self.entries@[i].0@,
                    #[trigger] self.entries@[j].0@,
                ) by {
                    let x = if i < at {
                        i
                    } else {
                        i - 1
                    };
                    let y = if j < at {
                        j
                    } else {
                        j - 1
                    };
                    if i == at {
                        assert(text_before(name, before.entries@[y].0@));
                    } else if j == at {
                        assert(text_before(before.entries@[x].0@, name));
                    } else {
                        assert(text_before(before.entries@[x].0@, before.entries@[y].0@));
                    }
                }
                assert(self.well_formed());
                assert(self.has_at(name, at));
                self.lemma_at(name, at);
                assert forall|k: Seq<char>| true implies #[trigger] self.map().dom().contains(k)
                    == before.map().insert(name, value).dom().contains(k) by {
                    if exists|i: int| before.has_at(k, i) {
                        let i = choose|i: int| before.has_at(k, i);
                        assert(self.has_at(
                            k,
                            if i < at {
                                i
                            } else {
                                i + 1
                            },
                        ));
                    }
                    if exists|i: int| self.has_at(k, i) {
                        let i = choose|i: int| self.has_at(k, i);
                        if i != at {
                            assert(before.has_at(
                                k,
                                if i < at {
                                    i
                                } else {
                                    i - 1
                                },
                            ));
                        }
                    }
                }
                assert forall|k: Seq<char>| #[trigger] self.map().dom().contains(k) implies self.map()[k]
                    == before.map().insert(name, value)[k] by {
                    let i = choose|i: int| self.has_at(k, i);
                    self.lemma_at(k, i);
                    if i != at {
                        let x = if i < at {
                            i
                        } else {
                            i - 1
                        };
                        assert(before.has_at(k, x));
                        before.lemma_at(k, x);
                        if k == name {
                            lemma_text_before_is_strict(k, name);
                            assert(false);
                        }
                    }
                }
                assert(self.map() =~= before.map().insert(name, value));
            }
        }
    }

    /// The value under a key, if there is one.
    pub fn get(&self, key: &str) -> (r: Option<&V>)
        requires
            self.well_formed(),
        ensures
            r is Some <==> self.map().dom().contains(key@),
            r is Some ==> *r->0 == self.map()[key@],
    {
        let (found, at) = self.position(key);
        if found {
            proof {
                self.lemma_at(key@, at as int);
            }
            Some(&self.entries[at].1)
        } else {
            proof {
                assert forall|i: int| !self.has_at(key@, i) by {
                    if self.has_at(key@, i) {
                        lemma_text_before_is_strict(key@, key@);
                    }
                }
            }
            None
        }
    }
}

/// Whether `keys` are the keys of a map in ascending order, and `values` what
/// stands under them.
pub open spec fn lists<V>(map: Map<Seq<char>, V>, keys: Seq<Seq<char>>, values: Seq<V>) -> bool {
    &&& keys.len() == values.len()
    &&& forall|i: int, j: int|
        0 <= i < j < keys.len() ==> text_before(#[trigger] keys[i], #[trigger] keys[j])
    &&& forall|key: Seq<char>| #[trigger] map.dom().contains(key) <==> keys.contains(key)
    &&& forall|i: int| 0 <= i < keys.len() ==> map[#[trigger] keys[i]] == values[i]
}

/// The values of a map in ascending order of their keys.
pub open spec fn in_key_order<V>(map: Map<Seq<char>, V>) -> Seq<V> {
    (choose|listing: (Seq<Seq<char>>, Seq<V>)| #[trigger] lists(map, listing.0, listing.1)).1
}

proof fn lemma_one_order(one: Seq<Seq<char>>, other: Seq<Seq<char>>)
    requires
        forall|i: int, j: int|
            0 <= i < j < one.len() ==> text_before(#[trigger] one[i], #[trigger] one[j]),
        forall|i: int, j: int|
            0 <= i < j < other.len() ==> text_before(#[trigger] other[i], #[trigger] other[j]),
        forall|key: Seq<char>| one.contains(key) <==> #[trigger] other.contains(key),
    ensures
        one == other,
    decreases one.len(),
{
    if one.len() == 0 {
        if other.len() > 0 {
            assert(other.contains(other[0]));
        }
        assert(one =~= other);
    } else {
        assert(one.contains(one[0]));
        assert(other.contains(one[0]));
        let k = choose|k: int| 0 <= k < other.len() && other[k] == one[0];
        assert(other.contains(other[0]));
        assert(one.contains(other[0]));
        let l = choose|l: int| 0 <= l < one.len() && one[l] == other[0];
        if k > 0 {
            lemma_text_before_is_strict(other[0], other[k]);
            if l > 0 {
                lemma_text_before_is_strict(one[0], one[l]);
            }
        }
        assert(one[0] == other[0]);
        let one_rest = one.drop_first();
        let other_rest = other.drop_first();
        assert forall|key: Seq<char>| one_rest.contains(key) <==> #[trigger] other_rest.contains(
            key,
        ) by {
            if one_rest.contains(key) {
                let i = choose|i: int| 0 <= i < one_rest.len() && one_rest[i] == key;
                assert(one[i + 1] == key);
                assert(one.contains(key));
                assert(other.contains(key));
                let j = choose|j: int| 0 <= j < other.len() && other[j] == key;
                if j == 0 {
                    lemma_text_before_is_strict(one[0], one[i + 1]);
                }
                assert(other_rest[j - 1] == key);
            }
            if other_rest.contains(key) {
                let i = choose|i: int| 0 <= i < other_rest.len() && other_rest[i] == key;
                assert(other[i + 1] == key);
                assert(other.contains(key));
                assert(one.contains(key));
                let j = choose|j: int| 0 <= j < one.len() && one[j] == key;
                if j == 0 {
                    lemma_text_before_is_strict(other[0], other[i + 1]);
                }
                assert(one_rest[j - 1] == key);
            }
        }
        lemma_one_order(one_rest, other_rest);
        assert(one =~= seq![one[0]] + one_rest);
        assert(other =~= seq![other[0]] + other_rest);
    }
}

/// There is one order of the values of a map by their keys.
pub proof fn lemma_key_order<V>(map: Map<Seq<char>, V>, keys: Seq<Seq<char>>, values: Seq<V>)
    requires
        lists(map, keys, values),
    ensures
        in_key_order(map) == values,
{
    let listing = choose|listing: (Seq<Seq<char>>, Seq<V>)|
        #[trigger] lists(map, listing.0, listing.1);
    assert(lists(map, (keys, values).0, (keys, values).1));
    let (chosen_keys, chosen) = listing;
    assert forall|key: Seq<char>| keys.contains(key) <==> #[trigger] chosen_keys.contains(key) by {
        assert(map.dom().contains(key) <==> keys.contains(key));
        assert(map.dom().contains(key) <==> chosen_keys.contains(key));
    }
    lemma_one_order(keys, chosen_keys);
    assert forall|i: int| 0 <= i < values.len() implies values[i] == chosen[i] by {
        assert(map[keys[i]] == values[i]);
        assert(map[chosen_keys[i]] == chosen[i]);
    }
    assert(values =~= chosen);
}

impl<V: View> TextMap<V> {
    /// The values in ascending order of their keys.
    pub fn into_values(self) -> (r: Vec<V>)
        requires
            self.well_formed(),
        ensures
            r@.map_values(|value: V| value@) == in_key_order(values_viewed(self.map())),
    {
        let ghost this = self;
        let ghost all = self.entries@;
        let mut entries = self.entries;
        let mut values: Vec<V> = Vec::new();
        while entries.len() > 0
            invariant
                entries@ == all.skip(values.len() as int),
                values.len() <= all.len(),
                forall|j: int| 0 <= j < values.len() ==> #[trigger] values@[j] == all[j].1,
            decreases entries.len(),
        {
            let entry = entries.remove(0);
            assert(all.skip(values.len() as int)[0] == all[values.len() as int]);
            values.push(entry.1);
            assert(entries@ =~= all.skip(values.len() as int));
        }
        proof {
            let keys = all.map_values(|entry: (String, V)| entry.0@);
            let viewed = values_viewed(this.map());
            let listed = values@.map_values(|value: V| value@);
            assert(values.len() == all.len());
            assert forall|key: Seq<char>| #[trigger] viewed.dom().contains(key) <==> keys.contains(
                key,
            ) by {
                if viewed.dom().contains(key) {
                    let i = choose|i: int| this.has_at(key, i);
                    assert(this.has_at(key, i));
                    assert(keys[i] == key);
                }
                if keys.contains(key) {
                    let i = choose|i: int| 0 <= i < keys.len() && keys[i] == key;
                    assert(this.has_at(key, i));
                }
            }
            assert forall|i: int| 0 <= i < keys.len() implies viewed[#[trigger] keys[i]]
                == listed[i] by {
                assert(this.has_at(keys[i], i));
                this.lemma_at(keys[i], i);
            }
            assert forall|i: int, j: int| 0 <= i < j < keys.len() implies text_before(
                #[trigger] keys[i],
                #[trigger] keys[j],
            ) by {
                assert(text_before(this.entries@[i].0@, this.entries@[j].0@));
            }
            lemma_key_order(viewed, keys, listed);
        }
        values
    }
}

/// The views of the values of a map.
pub open spec fn values_viewed<V: View>(map: Map<Seq<char>, V>) -> Map<Seq<char>, V::V> {
    map.map_values(|value: V| value@)
}

/// A text comes before another if it is a proper beginning of it, or has a smaller character
/// where they first differ.
pub proof fn law_texts_are_ordered_by_their_characters(
    common: Seq<char>,
    a: Seq<char>,
    b: Seq<char>,
)
    ensures
        b.len() > 0 ==> text_before(common, common + b),
        a.len() > 0 && b.len() > 0 && a[0] < b[0] ==> text_before(common + a, common + b)
            && !text_before(common + b, common + a),
        !text_before(common, common),
    decreases common.len(),
{
    if common.len() == 0 {
        assert(common + a =~= a);
        assert(common + b =~= b);
    } else {
        let rest = common.drop_first();
        law_texts_are_ordered_by_their_characters(rest, a, b);
        assert((common + a).drop_first() =~= rest + a);
        assert((common + b).drop_first() =~= rest + b);
        assert((common + a)[0] == common[0] && (common + b)[0] == common[0]);
    }
}

} // verus!
