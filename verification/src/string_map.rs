//! Maps and sets keyed by text.
//!
//! Both keep their entries in the order in which the keys first came, and hold
//! no key twice.
use vstd::prelude::*;

use crate::text;

verus! {

/// `k` is the key of an entry.
pub open spec fn has_key(items: Seq<(Seq<char>, Seq<char>)>, k: Seq<char>) -> bool {
    exists|i: int| 0 <= i < items.len() && (#[trigger] items[i]).0 == k
}

/// No two entries have the same key.
pub open spec fn unique_keys(items: Seq<(Seq<char>, Seq<char>)>) -> bool {
    forall|i: int, j: int|
        0 <= i < j < items.len() ==> (#[trigger] items[i]).0 != (#[trigger] items[j]).0
}

/// The entries with `k` bound to `v`: in place where `k` is a key, at the end where not.
pub open spec fn with_entry(
    items: Seq<(Seq<char>, Seq<char>)>,
    k: Seq<char>,
    v: Seq<char>,
) -> Seq<(Seq<char>, Seq<char>)> {
    if has_key(items, k) {
        Seq::new(items.len(), |i: int| if items[i].0 == k { (k, v) } else { items[i] })
    } else {
        items.push((k, v))
    }
}

/// Binding a key keeps the keys unique, and the bound value is the one that is read back.
pub proof fn lemma_with_entry(items: Seq<(Seq<char>, Seq<char>)>, k: Seq<char>, v: Seq<char>)
    requires
        unique_keys(items),
    ensures
        unique_keys(with_entry(items, k, v)),
        value_of(with_entry(items, k, v), k) == Some(v),
        forall|other: Seq<char>|
            other != k ==> #[trigger] value_of(with_entry(items, k, v), other) == value_of(
                items,
                other,
            ),
{
    let after = with_entry(items, k, v);
    assert forall|i: int, j: int| 0 <= i < j < after.len() implies (#[trigger] after[i]).0 != (
    #[trigger] after[j]).0 by {
        if j < items.len() {
            assert(items[i].0 != items[j].0);
        } else {
            assert(items[i].0 != k);
        }
    }
    if has_key(items, k) {
        let p = choose|p: int| 0 <= p < items.len() && (#[trigger] items[p]).0 == k;
        assert(after[p] == (k, v));
    } else {
        assert(after[items.len() as int] == (k, v));
    }
    let q = choose|q: int| 0 <= q < after.len() && (#[trigger] after[q]).0 == k;
    assert(after[q].1 == v);
    assert forall|other: Seq<char>| other != k implies #[trigger] value_of(after, other)
        == value_of(items, other) by {
        if has_key(items, other) {
            let a = choose|a: int| 0 <= a < items.len() && (#[trigger] items[a]).0 == other;
            assert(after[a] == items[a]);
            let b = choose|b: int| 0 <= b < after.len() && (#[trigger] after[b]).0 == other;
            assert(a == b);
        } else if has_key(after, other) {
            let b = choose|b: int| 0 <= b < after.len() && (#[trigger] after[b]).0 == other;
            assert(items[b].0 == other);
        }
    }
}

/// The value of the entry with the key `k`.
pub open spec fn value_of(items: Seq<(Seq<char>, Seq<char>)>, k: Seq<char>) -> Option<Seq<char>> {
    if has_key(items, k) {
        Some(items[choose|i: int| 0 <= i < items.len() && (#[trigger] items[i]).0 == k].1)
    } else {
        None
    }
}

/// A map from text to text.
#[derive(Debug)]
pub struct StringMap {
    keys: Vec<String>,
    values: Vec<String>,
}

impl StringMap {
    #[verifier::type_invariant]
    spec fn inv(self) -> bool {
        &&& self.keys@.len() == self.values@.len()
        &&& unique_keys(self.items())
    }

    /// The entries in the order in which their keys first came.
    pub closed spec fn items(self) -> Seq<(Seq<char>, Seq<char>)> {
        Seq::new(self.keys@.len(), |i: int| (self.keys@[i]@, self.values@[i]@))
    }

    /// The empty map.
    pub fn new() -> (r: Self)
        ensures
            r.items() == Seq::<(Seq<char>, Seq<char>)>::empty(),
    {
        let r = StringMap { keys: Vec::new(), values: Vec::new() };
        assert(r.items() == Seq::<(Seq<char>, Seq<char>)>::empty());
        r
    }

    /// The number of entries; no two have the same key.
    pub fn len(&self) -> (r: usize)
        ensures
            r == self.items().len(),
            unique_keys(self.items()),
    {
        proof {
            use_type_invariant(self);
        }
        self.keys.len()
    }

    /// Whether there is no entry.
    pub fn is_empty(&self) -> (r: bool)
        ensures
            r == (self.items().len() == 0),
    {
        self.keys.len() == 0
    }

    /// The key of the `i`th entry.
    pub fn key_at(&self, i: usize) -> (r: &String)
        requires
            i < self.items().len(),
        ensures
            r@ == self.items()[i as int].0,
    {
        &self.keys[i]
    }

    /// The value of the `i`th entry.
    pub fn value_at(&self, i: usize) -> (r: &String)
        requires
            i < self.items().len(),
        ensures
            r@ == self.items()[i as int].1,
    {
        proof {
            use_type_invariant(self);
        }
        &self.values[i]
    }

    fn position(&self, k: &str) -> (r: Option<usize>)
        ensures
            match r {
                Some(i) => i < self.items().len() && self.items()[i as int].0 == k@,
                None => !has_key(self.items(), k@),
            },
    {
        let mut i: usize = 0;
        while i < self.keys.len()
            invariant
                i <= self.keys@.len(),
                forall|j: int| 0 <= j < i ==> self.keys@[j]@ != k@,
            decreases self.keys@.len() - i,
        {
            if text::same(self.keys[i].as_str(), k) {
                return Some(i);
            }
            i = i + 1;
        }
        None
    }

    /// The value bound to `k`.
    pub fn get(&self, k: &str) -> (r: Option<&String>)
        ensures
            match r {
                Some(v) => value_of(self.items(), k@) == Some(v@),
                None => value_of(self.items(), k@) is None,
            },
    {
        match self.position(k) {
            Some(i) => {
                proof {
                    use_type_invariant(self);
                    let items = self.items();
                    let c = choose|j: int| 0 <= j < items.len() && (#[trigger] items[j]).0 == k@;
                    assert(items[i as int].0 == k@);
                    assert(c == i);
                }
                Some(&self.values[i])
            },
            None => None,
        }
    }

    /// Binds `k` to `v`.
    pub fn insert(&mut self, k: String, v: String)
        ensures
            final(self).items() == with_entry(old(self).items(), k@, v@),
    {
        proof {
            use_type_invariant(&*self);
        }
        let ghost before = self.items();
        let ghost kv = k@;
        let ghost vv = v@;
        let at = self.position(k.as_str());
        let mut keys: Vec<String> = Vec::new();
        let mut values: Vec<String> = Vec::new();
        let mut i: usize = 0;
        while i < self.keys.len()
            invariant
                i <= self.keys@.len(),
                self.keys@.len() == self.values@.len(),
                keys@ == self.keys@.take(i as int),
                values@.len() == i,
                match at {
                    Some(a) => a < self.keys@.len() && forall|j: int|
                        0 <= j < i ==> (#[trigger] values@[j])@ == if j == a {
                            v@
                        } else {
                            self.values@[j]@
                        },
                    None => forall|j: int|
                        0 <= j < i ==> (#[trigger] values@[j])@ == self.values@[j]@,
                },
            decreases self.keys@.len() - i,
        {
            keys.push(self.keys[i].clone());
            let replaced = match at {
                Some(a) => a == i,
                None => false,
            };
            if replaced {
                values.push(v.clone());
            } else {
                values.push(self.values[i].clone());
            }
            i = i + 1;
            assert(keys@ == self.keys@.take(i as int));
        }
        assert(keys@ == self.keys@);
        if at.is_none() {
            keys.push(k);
            values.push(v);
        }
        proof {
            let after = (StringMap { keys, values }).items();
            match at {
                Some(a) => {
                    assert(before[a as int].0 == kv);
                    assert(has_key(before, kv));
                    assert forall|j: int| 0 <= j < before.len() implies after[j]
                        == with_entry(before, kv, vv)[j] by {
                        if j != a {
                            assert(before[j].0 != before[a as int].0);
                        }
                    }
                },
                None => {},
            }
            assert(after == with_entry(before, kv, vv));
            lemma_with_entry(before, kv, vv);
        }
        *self = StringMap { keys, values };
    }

    /// A map with the same entries.
    pub fn duplicate(&self) -> (r: Self)
        ensures
            r.items() == self.items(),
    {
        proof {
            use_type_invariant(self);
        }
        let r = StringMap { keys: copy_texts(&self.keys), values: copy_texts(&self.values) };
        assert(r.items() == self.items());
        r
    }

    /// The map without the entry of `k`.
    pub fn remove(&mut self, k: &str)
        ensures
            final(self).items() == without_key(old(self).items(), k@),
    {
        proof {
            use_type_invariant(&*self);
        }
        let ghost before = self.items();
        let mut keys: Vec<String> = Vec::new();
        let mut values: Vec<String> = Vec::new();
        let mut i: usize = 0;
        while i < self.keys.len()
            invariant
                i <= self.keys@.len(),
                self.keys@.len() == self.values@.len(),
                before == self.items(),
                keys@.len() == values@.len(),
                pair_views(keys@, values@) == without_key(before.take(i as int), k@),
            decreases self.keys@.len() - i,
        {
            assert(before.take(i + 1).drop_last() == before.take(i as int));
            assert(before.take(i + 1).last() == before[i as int]);
            reveal_with_fuel(without_key, 2);
            if !text::same(self.keys[i].as_str(), k) {
                let key = self.keys[i].clone();
                let value = self.values[i].clone();
                proof {
                    assert(pair_views(keys@.push(key), values@.push(value)) == pair_views(
                        keys@,
                        values@,
                    ).push((key@, value@)));
                }
                keys.push(key);
                values.push(value);
            }
            i = i + 1;
        }
        assert(before.take(before.len() as int) == before);
        proof {
            lemma_without_key(before, k@);
            assert(pair_views(keys@, values@) =~= (StringMap { keys, values }).items());
        }
        *self = StringMap { keys, values };
    }
}

spec fn pair_views(keys: Seq<String>, values: Seq<String>) -> Seq<(Seq<char>, Seq<char>)> {
    Seq::new(keys.len(), |i: int| (keys[i]@, values[i]@))
}

/// The entries whose key is not `k`.
pub open spec fn without_key(
    items: Seq<(Seq<char>, Seq<char>)>,
    k: Seq<char>,
) -> Seq<(Seq<char>, Seq<char>)>
    decreases items.len(),
{
    if items.len() == 0 {
        items
    } else if items.last().0 == k {
        without_key(items.drop_last(), k)
    } else {
        without_key(items.drop_last(), k).push(items.last())
    }
}

/// Removing a key keeps the others, in order and unique.
pub proof fn lemma_without_key(items: Seq<(Seq<char>, Seq<char>)>, k: Seq<char>)
    requires
        unique_keys(items),
    ensures
        unique_keys(without_key(items, k)),
        !has_key(without_key(items, k), k),
        forall|i: int|
            0 <= i < without_key(items, k).len() ==> items.contains(
                #[trigger] without_key(items, k)[i],
            ),
    decreases items.len(),
{
    if items.len() > 0 {
        let front = items.drop_last();
        assert(unique_keys(front)) by {
            assert forall|i: int, j: int| 0 <= i < j < front.len() implies (#[trigger] front[i]).0
                != (#[trigger] front[j]).0 by {
                assert(items[i].0 != items[j].0);
            }
        }
        lemma_without_key(front, k);
        let kept = without_key(front, k);
        let all = without_key(items, k);
        assert forall|i: int| 0 <= i < all.len() implies items.contains(#[trigger] all[i]) by {
            if i < kept.len() {
                assert(front.contains(kept[i]));
                let p = choose|p: int| 0 <= p < front.len() && front[p] == kept[i];
                assert(items[p] == all[i]);
            } else {
                assert(items[items.len() - 1] == all[i]);
            }
        }
        assert forall|i: int, j: int| 0 <= i < j < all.len() implies (#[trigger] all[i]).0 != (
        #[trigger] all[j]).0 by {
            if j == kept.len() {
                assert(front.contains(kept[i]));
                let p = choose|p: int| 0 <= p < front.len() && front[p] == kept[i];
                assert(items[p].0 != items[items.len() - 1].0);
            } else {
                assert(kept[i].0 != kept[j].0);
            }
        }
        assert(!has_key(all, k)) by {
            if has_key(all, k) {
                let p = choose|p: int| 0 <= p < all.len() && (#[trigger] all[p]).0 == k;
                if p < kept.len() {
                    assert(kept[p].0 == k);
                }
            }
        }
    }
}

/// A vector that holds the same texts.
pub fn copy_texts(v: &Vec<String>) -> (r: Vec<String>)
    ensures
        r@ == v@,
{
    let mut out: Vec<String> = Vec::new();
    let mut i: usize = 0;
    while i < v.len()
        invariant
            i <= v@.len(),
            out@ == v@.take(i as int),
        decreases v@.len() - i,
    {
        out.push(v[i].clone());
        i = i + 1;
        assert(out@ == v@.take(i as int));
    }
    assert(v@.take(v@.len() as int) == v@);
    out
}

// ---------------------------------------------------------------------------
// Laws
// ---------------------------------------------------------------------------

/// Looking up the key of an entry gives that entry's value, and a key of no entry nothing.
pub proof fn law_lookup(items: Seq<(Seq<char>, Seq<char>)>, i: int, k: Seq<char>)
    requires
        unique_keys(items),
        0 <= i < items.len(),
    ensures
        value_of(items, items[i].0) == Some(items[i].1),
        (forall|j: int| 0 <= j < items.len() ==> (#[trigger] items[j]).0 != k) <==> value_of(
            items,
            k,
        ) is None,
{
    let key = items[i].0;
    let j = choose|j: int| 0 <= j < items.len() && (#[trigger] items[j]).0 == key;
    assert(i == j);
}

/// Removing a key takes out the entries with that key and leaves the others as they are, in
/// their order.
pub proof fn law_removal_keeps_others(
    before: Seq<(Seq<char>, Seq<char>)>,
    entry: (Seq<char>, Seq<char>),
    after: Seq<(Seq<char>, Seq<char>)>,
    k: Seq<char>,
)
    ensures
        without_key(before + seq![entry] + after, k) == without_key(before, k) + (if entry.0 == k {
            Seq::empty()
        } else {
            seq![entry]
        }) + without_key(after, k),
    decreases after.len(),
{
    let all = before + seq![entry] + after;
    if after.len() > 0 {
        assert(all.drop_last() == before + seq![entry] + after.drop_last());
        assert(all.last() == after.last());
        law_removal_keeps_others(before, entry, after.drop_last(), k);
    } else {
        assert(after == Seq::<(Seq<char>, Seq<char>)>::empty());
        assert(all.drop_last() == before);
        assert(all.last() == entry);
    }
}

/// Removing a key leaves the value of every other key.
pub proof fn law_removal_keeps_values(
    items: Seq<(Seq<char>, Seq<char>)>,
    k: Seq<char>,
    other: Seq<char>,
)
    requires
        unique_keys(items),
    ensures
        value_of(without_key(items, k), k) is None,
        other != k ==> value_of(without_key(items, k), other) == value_of(items, other),
{
    lemma_without_key(items, k);
    let rest = without_key(items, k);
    if other != k {
        if has_key(items, other) {
            let i = choose|i: int| 0 <= i < items.len() && (#[trigger] items[i]).0 == other;
            lemma_kept(items, k, i);
            let j = choose|j: int| 0 <= j < rest.len() && rest[j] == items[i];
            assert(rest[j].0 == other);
            law_lookup(items, i, other);
            law_lookup(rest, j, other);
        } else if has_key(rest, other) {
            let j = choose|j: int| 0 <= j < rest.len() && (#[trigger] rest[j]).0 == other;
            assert(items.contains(rest[j]));
            let i = choose|i: int| 0 <= i < items.len() && items[i] == rest[j];
            assert(items[i].0 == other);
        }
    }
}

proof fn lemma_kept(items: Seq<(Seq<char>, Seq<char>)>, k: Seq<char>, i: int)
    requires
        0 <= i < items.len(),
        items[i].0 != k,
    ensures
        without_key(items, k).contains(items[i]),
    decreases items.len(),
{
    let front = items.drop_last();
    let rest = without_key(items, k);
    if i < front.len() {
        lemma_kept(front, k, i);
        let before = without_key(front, k);
        let j = choose|j: int| 0 <= j < before.len() && before[j] == items[i];
        assert(rest[j] == items[i]);
    } else {
        assert(rest[rest.len() - 1] == items[i]);
    }
}

} // verus!
