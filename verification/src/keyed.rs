//! Values under texts as keys, each key once.
use vstd::prelude::*;

verus! {

/// The keys of a list of entries, in its order.
spec fn keys_of<T>(items: Seq<(String, T)>) -> Seq<Seq<char>> {
    items.map_values(|item: (String, T)| item.0@)
}

/// The values of a list of entries, each under its key.
spec fn entries_of<T>(items: Seq<(String, T)>) -> Map<Seq<char>, T>
    decreases items.len(),
{
    if items.len() == 0 {
        Map::empty()
    } else {
        entries_of(items.drop_last()).insert(items.last().0@, items.last().1)
    }
}

/// Values under texts as keys, each key once.
#[derive(Debug)]
pub struct Keyed<T> {
    items: Vec<(String, T)>,
}

impl<T> View for Keyed<T> {
    type V = Map<Seq<char>, T>;

    closed spec fn view(&self) -> Map<Seq<char>, T> {
        entries_of(self.items@)
    }
}

impl<T> Keyed<T> {
    #[verifier::type_invariant]
    spec fn each_key_once(self) -> bool {
        keys_of(self.items@).no_duplicates()
    }

    /// The keys, in the order in which [`Keyed::at`] walks them.
    pub closed spec fn walk(&self) -> Seq<Seq<char>> {
        keys_of(self.items@)
    }

    /// No entries.
    pub fn new() -> (keyed: Self)
        ensures
            keyed@ == Map::<Seq<char>, T>::empty(),
    {
        Keyed { items: Vec::new() }
    }

    /// How many entries there are.
    pub fn len(&self) -> (count: usize)
        ensures
            count == self@.len(),
            count == self.walk().len(),
            self@.dom().finite(),
            self.walk().no_duplicates(),
            self.walk().to_set() == self@.dom(),
    {
        proof {
            use_type_invariant(self);
            lemma_entries(self.items@);
            keys_of(self.items@).unique_seq_to_set();
        }
        self.items.len()
    }

    /// The value that the walk over all entries meets at `index`.
    pub fn at(&self, index: usize) -> (value: &T)
        requires
            index < self.walk().len(),
        ensures
            self@.contains_key(self.walk()[index as int]),
            *value == self@[self.walk()[index as int]],
    {
        proof {
            use_type_invariant(self);
            lemma_entries(self.items@);
        }
        &self.items[index].1
    }

    /// The key that the walk over all entries meets at `index`.
    pub fn key_at(&self, index: usize) -> (key: &str)
        requires
            index < self.walk().len(),
        ensures
            key@ == self.walk()[index as int],
            self@.contains_key(key@),
    {
        proof {
            use_type_invariant(self);
            lemma_entries(self.items@);
            assert(keys_of(self.items@)[index as int] == self.items@[index as int].0@);
        }
        self.items[index].0.as_str()
    }

    /// Where `key` is in the list, if it is there.
    fn find(&self, key: &str) -> (found: Option<usize>)
        ensures
            match found {
                Some(index) => index < self.items@.len() && self.items@[index as int].0@ == key@
                    && self@.contains_key(key@) && self@[key@] == self.items@[index as int].1,
                None => !self@.contains_key(key@) && !keys_of(self.items@).contains(key@),
            },
    {
        let wanted = key.to_owned();
        let mut index: usize = 0;
        while index < self.items.len()
            invariant
                index <= self.items@.len(),
                wanted@ == key@,
                forall|i: int| 0 <= i < index ==> (#[trigger] self.items@[i]).0@ != key@,
            decreases self.items@.len() - index,
        {
            if self.items[index].0 == wanted {
                proof {
                    use_type_invariant(self);
                    lemma_entries(self.items@);
                    assert(keys_of(self.items@)[index as int] == key@);
                }
                return Some(index);
            }
            index = index + 1;
        }
        proof {
            use_type_invariant(self);
            lemma_entries(self.items@);
            assert(!keys_of(self.items@).contains(key@));
        }
        None
    }

    /// The value under `key`.
    pub fn get(&self, key: &str) -> (value: Option<&T>)
        ensures
            match value {
                Some(found) => self@.contains_key(key@) && *found == self@[key@],
                None => !self@.contains_key(key@),
            },
    {
        match self.find(key) {
            Some(index) => Some(&self.items[index].1),
            None => None,
        }
    }

    /// Puts `value` under `key`, and gives the value that was there.
    pub fn insert(&mut self, key: &str, value: T) -> (previous: Option<T>)
        ensures
            final(self)@ == old(self)@.insert(key@, value),
            match previous {
                Some(found) => old(self)@.contains_key(key@) && found == old(self)@[key@],
                None => !old(self)@.contains_key(key@),
            },
    {
        let previous = self.remove(key);
        let mut items: Vec<(String, T)> = Vec::new();
        proof {
            use_type_invariant(&*self);
            lemma_entries(self.items@);
        }
        let ghost before = self.items@;
        std::mem::swap(&mut items, &mut self.items);
        items.push((key.to_owned(), value));
        proof {
            assert(items@.drop_last() =~= before);
            assert(items@.last().0@ == key@);
            assert(entries_of(items@) == entries_of(before).insert(key@, value));
            assert forall|i: int, j: int|
                0 <= i < items@.len() && 0 <= j < items@.len() && i != j implies keys_of(items@)[i]
                != keys_of(items@)[j] by {
                if i < before.len() {
                    assert(keys_of(items@)[i] == keys_of(before)[i]);
                }
                if j < before.len() {
                    assert(keys_of(items@)[j] == keys_of(before)[j]);
                }
            }
            assert(old(self)@.remove(key@).insert(key@, value) =~= old(self)@.insert(key@, value));
        }
        self.items = items;
        previous
    }

    /// Takes away what is under `key`, and gives it.
    pub fn remove(&mut self, key: &str) -> (value: Option<T>)
        ensures
            final(self)@ == old(self)@.remove(key@),
            match value {
                Some(found) => old(self)@.contains_key(key@) && found == old(self)@[key@],
                None => !old(self)@.contains_key(key@),
            },
    {
        match self.find(key) {
            None => {
                assert(self@.remove(key@) =~= self@);
                None
            },
            Some(index) => {
                let mut items: Vec<(String, T)> = Vec::new();
                proof {
                    use_type_invariant(&*self);
                    lemma_remove(self.items@, index as int);
                }
                std::mem::swap(&mut items, &mut self.items);
                let (_, value) = items.remove(index);
                self.items = items;
                Some(value)
            },
        }
    }
}

/// The texts under the keys of a table of strings.
pub open spec fn keyed_texts(table: Map<Seq<char>, String>) -> Map<Seq<char>, Seq<char>> {
    table.map_values(|text: String| text@)
}

impl Clone for Keyed<String> {
    fn clone(&self) -> (copy: Self)
        ensures
            keyed_texts(copy@) == keyed_texts(self@),
    {
        let count = self.len();
        let ghost walk = self.walk();
        let mut copy: Keyed<String> = Keyed::new();
        let mut next: usize = 0;
        while next < count
            invariant
                next <= count,
                count == walk.len(),
                walk == self.walk(),
                walk.to_set() == self@.dom(),
                forall|key: Seq<char>| #[trigger]
                    copy@.contains_key(key) <==> walk.take(next as int).contains(key),
                forall|key: Seq<char>| #[trigger]
                    copy@.contains_key(key) ==> self@.contains_key(key) && copy@[key]@ == self@[key]@,
            decreases count - next,
        {
            let key = self.key_at(next);
            let value = self.at(next).clone();
            let _ = copy.insert(key, value);
            proof {
                let before = walk.take(next as int);
                let after = walk.take(next + 1);
                assert(after =~= before.push(walk[next as int]));
                assert forall|key: Seq<char>| after.contains(key) <==> before.contains(key) || key
                    == walk[next as int] by {
                    if before.contains(key) {
                        let i = choose|i: int| 0 <= i < before.len() && before[i] == key;
                        assert(after[i] == key);
                    }
                    if key == walk[next as int] {
                        assert(after[next as int] == key);
                    }
                    if after.contains(key) {
                        let i = choose|i: int| 0 <= i < after.len() && after[i] == key;
                        if i < next {
                            assert(before[i] == key);
                        }
                    }
                }
            }
            next = next + 1;
        }
        proof {
            assert(walk.take(next as int) =~= walk);
            assert forall|key: Seq<char>| self@.contains_key(key) <==> copy@.contains_key(key) by {
                assert(self@.dom().contains(key) <==> walk.contains(key));
            }
            assert(keyed_texts(copy@) =~= keyed_texts(self@));
        }
        copy
    }
}

/// A list with each key once holds under its keys what stands beside them.
proof fn lemma_entries<T>(items: Seq<(String, T)>)
    requires
        keys_of(items).no_duplicates(),
    ensures
        entries_of(items).dom().finite(),
        entries_of(items).dom() == keys_of(items).to_set(),
        forall|i: int|
            0 <= i < items.len() ==> entries_of(items).contains_key(#[trigger] keys_of(items)[i])
                && entries_of(items)[keys_of(items)[i]] == items[i].1,
    decreases items.len(),
{
    let keys = keys_of(items);
    if items.len() == 0 {
        assert(entries_of(items).dom() =~= keys.to_set());
    } else {
        let rest = items.drop_last();
        assert(keys_of(rest) =~= keys.drop_last());
        lemma_entries(rest);
        assert forall|key: Seq<char>| keys.to_set().contains(key) <==> entries_of(items).dom().contains(
            key,
        ) by {
            if keys.contains(key) {
                let i = choose|i: int| 0 <= i < keys.len() && keys[i] == key;
                if i < rest.len() {
                    assert(keys_of(rest)[i] == key);
                }
            }
            if keys_of(rest).contains(key) {
                let i = choose|i: int| 0 <= i < rest.len() && keys_of(rest)[i] == key;
                assert(keys[i] == key);
            }
            assert(keys[keys.len() - 1] == items.last().0@);
        }
        assert(entries_of(items).dom() =~= keys.to_set());
        assert forall|i: int| 0 <= i < items.len() implies entries_of(items).contains_key(
            #[trigger] keys[i],
        ) && entries_of(items)[keys[i]] == items[i].1 by {
            if i < rest.len() {
                assert(keys_of(rest)[i] == keys[i]);
                assert(keys[i] != keys[items.len() - 1]);
                assert(rest[i] == items[i]);
            }
        }
    }
}

/// Taking an entry out of a list with each key once takes out its key.
proof fn lemma_remove<T>(items: Seq<(String, T)>, index: int)
    requires
        keys_of(items).no_duplicates(),
        0 <= index < items.len(),
    ensures
        keys_of(items.remove(index)).no_duplicates(),
        entries_of(items.remove(index)) == entries_of(items).remove(items[index].0@),
{
    let keys = keys_of(items);
    let less = items.remove(index);
    let key = items[index].0@;
    assert(keys[index] == key);
    assert forall|i: int, j: int|
        0 <= i < less.len() && 0 <= j < less.len() && i != j implies keys_of(less)[i]
        != keys_of(less)[j] by {
        let p = if i < index { i } else { i + 1 };
        let q = if j < index { j } else { j + 1 };
        assert(keys_of(less)[i] == keys[p]);
        assert(keys_of(less)[j] == keys[q]);
    }
    lemma_entries(items);
    lemma_entries(less);
    let a = entries_of(less);
    let b = entries_of(items).remove(key);
    assert forall|k: Seq<char>| a.contains_key(k) <==> b.contains_key(k) by {
        if keys_of(less).contains(k) {
            let i = choose|i: int| 0 <= i < less.len() && keys_of(less)[i] == k;
            let p = if i < index { i } else { i + 1 };
            assert(keys[p] == k);
            assert(keys[p] != keys[index]);
        }
        if keys.contains(k) && k != key {
            let p = choose|p: int| 0 <= p < keys.len() && keys[p] == k;
            let i = if p < index { p } else { p - 1 };
            assert(keys_of(less)[i] == k);
        }
    }
    assert forall|k: Seq<char>| a.contains_key(k) implies a[k] == b[k] by {
        let i = choose|i: int| 0 <= i < less.len() && keys_of(less)[i] == k;
        let p = if i < index { i } else { i + 1 };
        assert(keys[p] == k);
    }
    assert(a =~= b);
}

} // verus!
