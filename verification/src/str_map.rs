//! A set of texts and a map keyed by texts, with mathematical views.
use vstd::prelude::*;

use crate::text;

verus! {

/// A set of texts.
#[derive(Debug)]
pub struct StrSet {
    items: Vec<String>,
}

impl View for StrSet {
    type V = Set<Seq<char>>;

    closed spec fn view(&self) -> Set<Seq<char>> {
        text::views(self.items@).to_set()
    }
}

impl StrSet {
    #[verifier::type_invariant]
    spec fn distinct(self) -> bool {
        text::views(self.items@).no_duplicates()
    }

    /// The empty set.
    pub fn new() -> (r: StrSet)
        ensures
            r@ == Set::<Seq<char>>::empty(),
    {
        let r = StrSet { items: Vec::new() };
        assert(r@ =~= Set::<Seq<char>>::empty());
        r
    }

    /// The number of elements.
    pub fn len(&self) -> (r: usize)
        ensures
            r == self@.len(),
            self@.finite(),
    {
        proof {
            use_type_invariant(self);
            text::views(self.items@).unique_seq_to_set();
            vstd::seq_lib::seq_to_set_is_finite(text::views(self.items@));
        }
        self.items.len()
    }

    /// Whether `s` is an element.
    pub fn contains(&self, s: &str) -> (r: bool)
        ensures
            r == self@.contains(s@),
    {
        text::contains_text(&self.items, s)
    }

    /// Makes `s` an element.
    pub fn insert(&mut self, s: String)
        ensures
            final(self)@ == old(self)@.insert(s@),
    {
        proof {
            use_type_invariant(&*self);
        }
        if !text::contains_text(&self.items, s.as_str()) {
            let mut items = text::copy_all(&self.items);
            let ghost before = text::views(items@);
            let ghost sv = s@;
            items.push(s);
            assert(text::views(items@) =~= before.push(sv));
            assert(text::views(items@).to_set() =~= before.to_set().insert(sv)) by {
                before.lemma_push_to_set_commute(sv);
            }
            self.items = items;
        } else {
            assert(self@.insert(s@) =~= self@);
        }
    }

    /// Makes `s` no element.
    pub fn remove(&mut self, s: &str)
        ensures
            final(self)@ == old(self)@.remove(s@),
    {
        proof {
            use_type_invariant(&*self);
        }
        let ghost all = text::views(self.items@);
        let mut kept: Vec<String> = Vec::new();
        let mut i: usize = 0;
        while i < self.items.len()
            invariant
                i <= self.items@.len(),
                all == text::views(self.items@),
                all.no_duplicates(),
                *self == *old(self),
                text::views(kept@).no_duplicates(),
                forall|x: Seq<char>|
                    #![auto]
                    text::views(kept@).contains(x) <==> (all.take(i as int).contains(x) && x != s@),
            decreases self.items@.len() - i,
        {
            let ghost before = text::views(kept@);
            let ghost x = all[i as int];
            assert(all.take(i as int + 1) =~= all.take(i as int).push(x));
            assert(!all.take(i as int).contains(x)) by {
                if all.take(i as int).contains(x) {
                    let j = choose|j: int|
                        0 <= j < all.take(i as int).len() && all.take(i as int)[j] == x;
                    assert(all[j] == all[i as int]);
                }
            }
            broadcast use vstd::seq_lib::lemma_seq_contains_after_push;
            if !text::same(self.items[i].as_str(), s) {
                kept.push(self.items[i].clone());
                assert(text::views(kept@) =~= before.push(x));
                assert(!before.contains(x));
            }
            i = i + 1;
        }
        assert(all.take(all.len() as int) =~= all);
        assert(text::views(kept@).to_set() =~= all.to_set().remove(s@));
        self.items = kept;
    }

    /// Takes every element of `gone` out.
    pub fn remove_all(&mut self, gone: &StrSet)
        ensures
            final(self)@ == old(self)@.difference(gone@),
    {
        let items = gone.to_vec();
        let ghost g = text::views(items@);
        let mut i: usize = 0;
        assert(g.take(0).to_set() =~= Set::<Seq<char>>::empty());
        assert(self@.difference(g.take(0).to_set()) =~= self@);
        while i < items.len()
            invariant
                i <= items@.len(),
                g == text::views(items@),
                self@ == old(self)@.difference(g.take(i as int).to_set()),
            decreases items@.len() - i,
        {
            self.remove(items[i].as_str());
            let ghost t = g.take(i as int);
            assert(g.take(i as int + 1) =~= t.push(g[i as int]));
            proof {
                t.lemma_push_to_set_commute(g[i as int]);
            }
            assert(self@ =~= old(self)@.difference(g.take(i as int + 1).to_set()));
            i = i + 1;
        }
        assert(g.take(g.len() as int) =~= g);
    }

    /// The elements, each once.
    pub fn to_vec(&self) -> (r: Vec<String>)
        ensures
            text::views(r@).to_set() == self@,
            text::views(r@).no_duplicates(),
    {
        proof {
            use_type_invariant(self);
        }
        text::copy_all(&self.items)
    }

    /// The set of the texts in `v`.
    pub fn from_vec(v: &Vec<String>) -> (r: StrSet)
        ensures
            r@ == text::views(v@).to_set(),
    {
        let mut out = StrSet::new();
        let mut i: usize = 0;
        assert(text::views(v@).take(0).to_set() =~= Set::<Seq<char>>::empty());
        while i < v.len()
            invariant
                i <= v@.len(),
                out@ == text::views(v@).take(i as int).to_set(),
            decreases v@.len() - i,
        {
            out.insert(v[i].clone());
            let ghost t = text::views(v@).take(i as int);
            assert(text::views(v@).take(i as int + 1) =~= t.push(v@[i as int]@));
            proof {
                t.lemma_push_to_set_commute(v@[i as int]@);
            }
            i = i + 1;
        }
        assert(text::views(v@).take(v@.len() as int) =~= text::views(v@));
        out
    }

    /// Whether the two sets have the same elements.
    pub fn same(&self, other: &StrSet) -> (r: bool)
        ensures
            r == (self@ == other@),
    {
        let n: usize = self.len();
        let m: usize = other.len();
        if n != m {
            return false;
        }
        let mut i: usize = 0;
        while i < self.items.len()
            invariant
                i <= self.items@.len(),
                forall|j: int| 0 <= j < i ==> other@.contains(self.items@[j]@),
            decreases self.items@.len() - i,
        {
            if !other.contains(self.items[i].as_str()) {
                assert(text::views(self.items@)[i as int] == self.items@[i as int]@);
                assert(self@.contains(self.items@[i as int]@));
                return false;
            }
            i = i + 1;
        }
        proof {
            assert forall|x: Seq<char>| self@.contains(x) implies other@.contains(x) by {
                let j = choose|j: int|
                    0 <= j < text::views(self.items@).len() && text::views(self.items@)[j] == x;
                assert(self.items@[j]@ == x);
            }
            assert(self@.subset_of(other@));
            vstd::set_lib::lemma_subset_equality(self@, other@);
        }
        true
    }

    /// A copy of the set.
    pub fn copy(&self) -> (r: StrSet)
        ensures
            r@ == self@,
    {
        proof {
            use_type_invariant(self);
        }
        StrSet { items: text::copy_all(&self.items) }
    }
}

/// A map keyed by texts.
#[derive(Debug)]
pub struct StrMap<V> {
    entries: Vec<(String, V)>,
}

/// The map that a list of entries stands for; a later entry hides an earlier
/// one with the same key.
pub open spec fn entry_map<V: View>(s: Seq<(String, V)>) -> Map<Seq<char>, V::V>
    decreases s.len(),
{
    if s.len() == 0 {
        Map::empty()
    } else {
        entry_map(s.drop_last()).insert(s.last().0@, s.last().1@)
    }
}

impl<V: View> View for StrMap<V> {
    type V = Map<Seq<char>, V::V>;

    closed spec fn view(&self) -> Map<Seq<char>, V::V> {
        entry_map(self.entries@)
    }
}

proof fn lemma_entry_at<V: View>(s: Seq<(String, V)>, key: Seq<char>, i: int)
    requires
        0 <= i <= s.len(),
        forall|j: int| i <= j < s.len() ==> s[j].0@ != key,
        i > 0 ==> s[i - 1].0@ == key,
    ensures
        entry_map(s).contains_key(key) == (i > 0),
        i > 0 ==> entry_map(s)[key] == s[i - 1].1@,
    decreases s.len(),
{
    if i < s.len() {
        let t = s.drop_last();
        assert(i > 0 ==> t[i - 1] == s[i - 1]);
        lemma_entry_at(t, key, i);
    }
}

impl<V: View> StrMap<V> {
    /// The empty map.
    pub fn new() -> (r: StrMap<V>)
        ensures
            r@ == Map::<Seq<char>, V::V>::empty(),
    {
        StrMap { entries: Vec::new() }
    }

    /// The value under `key`.
    pub fn get(&self, key: &str) -> (r: Option<&V>)
        ensures
            match r {
                Some(v) => self@.contains_key(key@) && self@[key@] == v@,
                None => !self@.contains_key(key@),
            },
    {
        let mut i: usize = self.entries.len();
        while i > 0
            invariant
                i <= self.entries@.len(),
                forall|j: int| i <= j < self.entries@.len() ==> self.entries@[j].0@ != key@,
            decreases i,
        {
            if text::same(self.entries[i - 1].0.as_str(), key) {
                proof {
                    lemma_entry_at(self.entries@, key@, i as int);
                }
                return Some(&self.entries[i - 1].1);
            }
            i = i - 1;
        }
        proof {
            lemma_entry_at(self.entries@, key@, 0);
        }
        None
    }

    /// Whether there is a value under `key`.
    pub fn contains_key(&self, key: &str) -> (r: bool)
        ensures
            r == self@.contains_key(key@),
    {
        self.get(key).is_some()
    }

    /// Takes the entry under `key` out.
    pub fn remove(&mut self, key: &str)
        ensures
            final(self)@ == old(self)@.remove(key@),
    {
        let mut i: usize = 0;
        while i < self.entries.len()
            invariant
                i <= self.entries@.len(),
                self@.remove(key@) == old(self)@.remove(key@),
                forall|j: int| 0 <= j < i ==> self.entries@[j].0@ != key@,
            decreases self.entries@.len() - i,
        {
            if text::same(self.entries[i].0.as_str(), key) {
                proof {
                    lemma_entry_removed(self.entries@, key@, i as int);
                }
                let _gone = self.entries.remove(i);
            } else {
                i = i + 1;
            }
        }
        proof {
            lemma_entry_at(self.entries@, key@, 0);
            assert(self@ =~= self@.remove(key@));
        }
    }

    /// Takes the entries out whose keys are in `gone`.
    pub fn remove_all(&mut self, gone: &StrSet)
        ensures
            final(self)@ == old(self)@.remove_keys(gone@),
    {
        let items = gone.to_vec();
        let ghost g = text::views(items@);
        let mut i: usize = 0;
        assert(g.take(0).to_set() =~= Set::<Seq<char>>::empty());
        assert(self@.remove_keys(g.take(0).to_set()) =~= self@);
        while i < items.len()
            invariant
                i <= items@.len(),
                g == text::views(items@),
                self@ == old(self)@.remove_keys(g.take(i as int).to_set()),
            decreases items@.len() - i,
        {
            self.remove(items[i].as_str());
            let ghost t = g.take(i as int);
            assert(g.take(i as int + 1) =~= t.push(g[i as int]));
            proof {
                t.lemma_push_to_set_commute(g[i as int]);
            }
            assert(self@ =~= old(self)@.remove_keys(g.take(i as int + 1).to_set()));
            i = i + 1;
        }
        assert(g.take(g.len() as int) =~= g);
    }

    /// Puts `value` under `key`.
    pub fn insert(&mut self, key: String, value: V)
        ensures
            final(self)@ == old(self)@.insert(key@, value@),
    {
        self.remove(key.as_str());
        let ghost before = self.entries@;
        self.entries.push((key, value));
        assert(self.entries@.drop_last() =~= before);
        assert(self@ =~= old(self)@.insert(key@, value@));
    }
}

proof fn lemma_entry_removed<V: View>(s: Seq<(String, V)>, key: Seq<char>, i: int)
    requires
        0 <= i < s.len(),
        s[i].0@ == key,
    ensures
        entry_map(s.remove(i)).remove(key) == entry_map(s).remove(key),
    decreases s.len(),
{
    let r = s.remove(i);
    if i == s.len() - 1 {
        assert(r =~= s.drop_last());
        assert(entry_map(r).remove(key) =~= entry_map(s).remove(key));
    } else {
        let t = s.drop_last();
        lemma_entry_removed(t, key, i);
        assert(r.drop_last() =~= t.remove(i));
        assert(r.last() == s.last());
        let k = s.last().0@;
        let v = s.last().1@;
        let a = entry_map(t.remove(i));
        let b = entry_map(t);
        assert(a.remove(key) == b.remove(key));
        if k == key {
            assert(a.insert(k, v).remove(key) =~= a.remove(key));
            assert(b.insert(k, v).remove(key) =~= b.remove(key));
        } else {
            assert(a.insert(k, v).remove(key) =~= a.remove(key).insert(k, v));
            assert(b.insert(k, v).remove(key) =~= b.remove(key).insert(k, v));
        }
    }
}

} // verus!
