use vstd::prelude::*;
use vstd::string::StringExecFns;

verus! {

/// A table from names to values. A name occurs at most once; setting a name
/// that is present replaces its value.
pub struct Store<T> {
    names: Vec<String>,
    values: Vec<T>,
}

/// The texts of a sequence of names.
pub open spec fn texts(names: Seq<String>) -> Seq<Seq<char>> {
    Seq::new(names.len(), |i: int| names[i]@)
}

/// No text occurs twice.
pub open spec fn distinct(keys: Seq<Seq<char>>) -> bool {
    forall|i: int, j: int| 0 <= i < keys.len() && 0 <= j < keys.len() && i != j ==> keys[i] != keys[j]
}

/// The map that sends each key to the value at the same place.
pub open spec fn table_of<T>(keys: Seq<Seq<char>>, values: Seq<T>) -> Map<Seq<char>, T> {
    Map::new(
        |k: Seq<char>| exists|i: int| 0 <= i < keys.len() && keys[i] == k,
        |k: Seq<char>| values[choose|i: int| 0 <= i < keys.len() && keys[i] == k],
    )
}

/// In a table without repeated keys, the key at place `i` has the value at
/// place `i`.
pub proof fn lemma_table_at<T>(keys: Seq<Seq<char>>, values: Seq<T>, i: int)
    requires
        distinct(keys),
        0 <= i < keys.len(),
    ensures
        table_of(keys, values).contains_key(keys[i]),
        table_of(keys, values)[keys[i]] == values[i],
{
    let k = keys[i];
    let j = choose|j: int| 0 <= j < keys.len() && keys[j] == k;
    assert(j == i);
}

/// Replacing the value at place `i` changes the table at that key alone.
pub proof fn lemma_table_update<T>(keys: Seq<Seq<char>>, values: Seq<T>, i: int, v: T)
    requires
        distinct(keys),
        keys.len() == values.len(),
        0 <= i < keys.len(),
    ensures
        table_of(keys, values.update(i, v)) == table_of(keys, values).insert(keys[i], v),
{
    let a = table_of(keys, values.update(i, v));
    let b = table_of(keys, values).insert(keys[i], v);
    assert forall|k: Seq<char>| a.contains_key(k) == b.contains_key(k) by {
        if k == keys[i] {
            lemma_table_at(keys, values.update(i, v), i);
        }
    }
    assert forall|k: Seq<char>| a.contains_key(k) implies a[k] == b[k] by {
        let j = choose|j: int| 0 <= j < keys.len() && keys[j] == k;
        lemma_table_at(keys, values.update(i, v), j);
        lemma_table_at(keys, values, j);
    }
    assert(a =~= b);
}

/// Adding a key that is not present, with its value, adds it to the table.
pub proof fn lemma_table_push<T>(keys: Seq<Seq<char>>, values: Seq<T>, key: Seq<char>, v: T)
    requires
        distinct(keys),
        keys.len() == values.len(),
        forall|i: int| 0 <= i < keys.len() ==> keys[i] != key,
    ensures
        distinct(keys.push(key)),
        table_of(keys.push(key), values.push(v)) == table_of(keys, values).insert(key, v),
{
    let keys2 = keys.push(key);
    let values2 = values.push(v);
    let a = table_of(keys2, values2);
    let b = table_of(keys, values).insert(key, v);
    assert(distinct(keys2));
    assert forall|k: Seq<char>| a.contains_key(k) == b.contains_key(k) by {
        if a.contains_key(k) {
            let j = choose|j: int| 0 <= j < keys2.len() && keys2[j] == k;
            if j < keys.len() {
                assert(keys[j] == k);
            }
        }
        if b.contains_key(k) {
            if k == key {
                assert(keys2[keys.len() as int] == k);
            } else {
                let j = choose|j: int| 0 <= j < keys.len() && keys[j] == k;
                assert(keys2[j] == k);
            }
        }
    }
    assert forall|k: Seq<char>| a.contains_key(k) implies a[k] == b[k] by {
        let j = choose|j: int| 0 <= j < keys2.len() && keys2[j] == k;
        lemma_table_at(keys2, values2, j);
        if j < keys.len() {
            assert(keys[j] == k);
            lemma_table_at(keys, values, j);
        }
    }
    assert(a =~= b);
}

impl<T> Store<T> {
    #[verifier::type_invariant]
    spec fn inv(self) -> bool {
        &&& self.names.len() == self.values.len()
        &&& distinct(texts(self.names@))
    }

    /// The names in the table, in the order in which they were first set.
    pub closed spec fn keys(&self) -> Seq<Seq<char>> {
        texts(self.names@)
    }

    /// The values in the table, each at the place of its name.
    pub closed spec fn values(&self) -> Seq<T> {
        self.values@
    }

    /// The table as a map from names to values.
    pub closed spec fn view(&self) -> Map<Seq<char>, T> {
        table_of(texts(self.names@), self.values@)
    }

    /// An empty table.
    pub fn new() -> (r: Self)
        ensures
            r@ == Map::<Seq<char>, T>::empty(),
            r.keys().len() == 0,
    {
        let r = Store { names: Vec::new(), values: Vec::new() };
        assert(r@ =~= Map::<Seq<char>, T>::empty());
        r
    }

    /// The place of `key` among the names, if it is present.
    fn find(&self, key: &str) -> (r: Option<usize>)
        ensures
            match r {
                Some(i) => i < self.keys().len() && self.keys()[i as int] == key@,
                None => forall|i: int| 0 <= i < self.keys().len() ==> self.keys()[i] != key@,
            },
    {
        let wanted = String::from_str(key);
        let mut i: usize = 0;
        while i < self.names.len()
            invariant
                i <= self.names.len(),
                wanted@ == key@,
                forall|k: int| 0 <= k < i ==> texts(self.names@)[k] != key@,
            decreases self.names.len() - i,
        {
            if self.names[i] == wanted {
                return Some(i);
            }
            i += 1;
        }
        None
    }

    /// The value under `key`, if there is one.
    pub fn get(&self, key: &str) -> (r: Option<&T>)
        ensures
            match r {
                Some(v) => self@.contains_key(key@) && self@[key@] == *v,
                None => !self@.contains_key(key@),
            },
    {
        proof {
            use_type_invariant(self);
        }
        match self.find(key) {
            Some(i) => {
                proof {
                    lemma_table_at(texts(self.names@), self.values@, i as int);
                }
                Some(&self.values[i])
            },
            None => {
                assert(!self@.contains_key(key@)) by {
                    let keys = texts(self.names@);
                    if exists|i: int| 0 <= i < keys.len() && keys[i] == key@ {
                        let i = choose|i: int| 0 <= i < keys.len() && keys[i] == key@;
                        assert(self.keys()[i] != key@);
                    }
                }
                None
            },
        }
    }

    /// Whether `key` is present.
    pub fn contains(&self, key: &str) -> (r: bool)
        ensures
            r == self@.contains_key(key@),
    {
        self.get(key).is_some()
    }

    /// Puts `value` under `key`, in place of the value that was there, if any.
    pub fn set(&mut self, key: &str, value: T)
        ensures
            final(self)@ == old(self)@.insert(key@, value),
            final(self).keys().len() >= old(self).keys().len(),
    {
        proof {
            use_type_invariant(&*self);
        }
        let found = self.find(key);
        let mut taken = Store { names: Vec::new(), values: Vec::new() };
        std::mem::swap(self, &mut taken);
        let Store { mut names, mut values } = taken;
        match found {
            Some(i) => {
                proof {
                    lemma_table_update(texts(names@), values@, i as int, value);
                }
                values.set(i, value);
            },
            None => {
                proof {
                    lemma_table_push(texts(names@), values@, key@, value);
                }
                let name = String::from_str(key);
                names.push(name);
                values.push(value);
                assert(texts(names@) =~= texts(old(self).names@).push(key@));
            },
        }
        *self = Store { names, values };
    }

    /// How many names the table holds. The names and the values, place by
    /// place, make up the map, and no name occurs twice.
    pub fn len(&self) -> (n: usize)
        ensures
            n == self.keys().len(),
            self.keys().len() == self.values().len(),
            distinct(self.keys()),
            self@ == table_of(self.keys(), self.values()),
    {
        proof {
            use_type_invariant(self);
        }
        self.names.len()
    }

    /// The name at place `i`.
    pub(crate) fn key_at(&self, i: usize) -> (k: &String)
        requires
            i < self.keys().len(),
        ensures
            k@ == self.keys()[i as int],
    {
        &self.names[i]
    }

    /// The value at place `i`.
    pub(crate) fn value_at(&self, i: usize) -> (v: &T)
        requires
            i < self.keys().len(),
        ensures
            *v == self.values()[i as int],
            self@.contains_key(self.keys()[i as int]),
            self@[self.keys()[i as int]] == *v,
    {
        proof {
            use_type_invariant(self);
            lemma_table_at(texts(self.names@), self.values@, i as int);
        }
        &self.values[i]
    }
}

/// Items kept under names. A name has at most one item; putting an item
/// under a name that has one replaces it.
pub struct Slots<T> {
    index: Store<usize>,
    items: Vec<T>,
}

impl<T> Slots<T> {
    #[verifier::type_invariant]
    spec fn inv(self) -> bool {
        forall|k: Seq<char>| #[trigger]
            self.index@.contains_key(k) ==> self.index@[k] < self.items@.len()
    }

    /// The names that have an item.
    pub closed spec fn names(&self) -> Set<Seq<char>> {
        self.index@.dom()
    }

    /// The item under the name `key`, where there is one.
    pub closed spec fn item(&self, key: Seq<char>) -> T {
        self.items@[self.index@[key] as int]
    }

    pub fn new() -> (r: Self)
        ensures
            r.names() == Set::<Seq<char>>::empty(),
    {
        let r = Slots { index: Store::new(), items: Vec::new() };
        assert(r.names() =~= Set::<Seq<char>>::empty());
        r
    }

    /// Puts `item` under `key`. What stands under other names stays.
    pub fn put(&mut self, key: &str, item: T)
        ensures
            final(self).names() == old(self).names().insert(key@),
            final(self).item(key@) == item,
            forall|k: Seq<char>|
                old(self).names().contains(k) && k != key@ ==> #[trigger] final(self).item(k)
                    == old(self).item(k),
    {
        proof {
            use_type_invariant(&*self);
        }
        let mut taken = Slots { index: Store::new(), items: Vec::new() };
        std::mem::swap(self, &mut taken);
        let mut index = taken.index;
        let mut items = taken.items;
        let ghost before = index@;
        let place = items.len();
        items.push(item);
        index.set(key, place);
        assert forall|k: Seq<char>| #[trigger] index@.contains_key(k) implies index@[k]
            < items@.len() by {
            if k != key@ {
                assert(before.contains_key(k));
            }
        }
        *self = Slots { index, items };
        assert(self.names() =~= old(self).names().insert(key@));
        assert forall|k: Seq<char>| old(self).names().contains(k) && k != key@ implies #[trigger]
            self.item(k) == old(self).item(k) by {
            assert(before.contains_key(k));
        }
    }

    /// The item under `key`, if there is one.
    pub fn find(&self, key: &str) -> (r: Option<&T>)
        ensures
            match r {
                Some(item) => self.names().contains(key@) && *item == self.item(key@),
                None => !self.names().contains(key@),
            },
    {
        proof {
            use_type_invariant(self);
        }
        match self.index.get(key) {
            Some(i) => Some(&self.items[*i]),
            None => None,
        }
    }
}

} // verus!
