//! An in-memory registry: what was found of the real one, or a stand-in for
//! it, with the writes of a plan applied as the operating system would.

use crate::keys::{is_prefix, writes, KeyPath, RegistryValue, RegistryWrite, ValueView};
use crate::model::{
    apply, apply_all, create_key, created_keys, empty_registry, has_value, remove_tree,
    set_value, values_below, RegistryView,
};
use crate::text::str_eq;
use vstd::prelude::*;

verus! {

/// One value of one key.
#[derive(Debug, Clone, PartialEq, Eq)]
pub struct ValueEntry {
    pub key: KeyPath,
    pub name: String,
    pub value: RegistryValue,
}

/// The keys and values of a registry. Of two entries for one value the later
/// one counts.
#[derive(Debug, Clone, PartialEq, Eq)]
pub struct RegistryState {
    keys: Vec<KeyPath>,
    values: Vec<ValueEntry>,
}

/// Whether `key` is among `keys`.
spec fn listed(keys: Seq<KeyPath>, key: Seq<Seq<char>>) -> bool {
    exists|i: int| 0 <= i < keys.len() && (#[trigger] keys[i])@ == key
}

/// The keys that a list of paths names.
spec fn key_set(keys: Seq<KeyPath>) -> Set<Seq<Seq<char>>> {
    Set::new(|key: Seq<Seq<char>>| listed(keys, key))
}

/// The values that a list of entries gives, later entries over earlier ones.
spec fn value_map(entries: Seq<ValueEntry>) -> Map<(Seq<Seq<char>>, Seq<char>), ValueView>
    decreases entries.len(),
{
    if entries.len() == 0 {
        Map::empty()
    } else {
        let last = entries.last();
        value_map(entries.drop_last()).insert((last.key@, last.name@), last.value@)
    }
}

proof fn lemma_listed_push(keys: Seq<KeyPath>, last: KeyPath, key: Seq<Seq<char>>)
    ensures
        listed(keys.push(last), key) <==> listed(keys, key) || last@ == key,
{
    let all = keys.push(last);
    if listed(all, key) {
        let i = choose|i: int| 0 <= i < all.len() && (#[trigger] all[i])@ == key;
        if i < keys.len() {
            assert(keys[i]@ == key);
        }
    }
    if listed(keys, key) {
        let i = choose|i: int| 0 <= i < keys.len() && (#[trigger] keys[i])@ == key;
        assert(all[i]@ == key);
    }
    if last@ == key {
        assert(all[keys.len() as int]@ == key);
    }
}

proof fn lemma_value_map_dom(entries: Seq<ValueEntry>, key: Seq<Seq<char>>, name: Seq<char>)
    ensures
        value_map(entries).dom().contains((key, name)) <==> exists|i: int|
            0 <= i < entries.len() && (#[trigger] entries[i]).key@ == key && entries[i].name@
                == name,
    decreases entries.len(),
{
    if entries.len() > 0 {
        let front = entries.drop_last();
        lemma_value_map_dom(front, key, name);
        if value_map(entries).dom().contains((key, name)) {
            if entries.last().key@ == key && entries.last().name@ == name {
                assert(entries[entries.len() - 1].key@ == key);
            } else {
                let i = choose|i: int|
                    0 <= i < front.len() && (#[trigger] front[i]).key@ == key && front[i].name@
                        == name;
                assert(entries[i].key@ == key && entries[i].name@ == name);
            }
        }
        if exists|i: int|
            0 <= i < entries.len() && (#[trigger] entries[i]).key@ == key && entries[i].name@
                == name {
            let i = choose|i: int|
                0 <= i < entries.len() && (#[trigger] entries[i]).key@ == key && entries[i].name@
                    == name;
            if i < front.len() {
                assert(front[i].key@ == key && front[i].name@ == name);
            }
        }
    }
}

proof fn lemma_value_map_last_match(entries: Seq<ValueEntry>, at: int)
    requires
        0 <= at < entries.len(),
        forall|j: int|
            at < j < entries.len() ==> !((#[trigger] entries[j]).key@ == entries[at].key@
                && entries[j].name@ == entries[at].name@),
    ensures
        value_map(entries).dom().contains((entries[at].key@, entries[at].name@)),
        value_map(entries)[(entries[at].key@, entries[at].name@)] == entries[at].value@,
    decreases entries.len(),
{
    if at < entries.len() - 1 {
        let front = entries.drop_last();
        assert(front[at] == entries[at]);
        assert forall|j: int| at < j < front.len() implies !((#[trigger] front[j]).key@
            == front[at].key@ && front[j].name@ == front[at].name@) by {
            assert(front[j] == entries[j]);
        }
        lemma_value_map_last_match(front, at);
        let last = entries[entries.len() - 1];
        assert(!(last.key@ == entries[at].key@ && last.name@ == entries[at].name@));
    }
}

impl View for RegistryState {
    type V = RegistryView;

    closed spec fn view(&self) -> RegistryView {
        RegistryView { keys: key_set(self.keys@), values: value_map(self.values@) }
    }
}

impl RegistryState {
    /// A registry without keys.
    pub fn new() -> (state: RegistryState)
        ensures
            state@ == empty_registry(),
    {
        let state = RegistryState { keys: Vec::new(), values: Vec::new() };
        assert(state@ =~= empty_registry());
        state
    }

    /// Whether `key` exists.
    pub fn has_key(&self, key: &KeyPath) -> (found: bool)
        ensures
            found == self@.keys.contains(key@),
    {
        let mut i: usize = 0;
        while i < self.keys.len()
            invariant
                i <= self.keys@.len(),
                forall|j: int| 0 <= j < i ==> (#[trigger] self.keys@[j])@ != key@,
            decreases self.keys@.len() - i,
        {
            if self.keys[i].same(key) {
                return true;
            }
            i += 1;
        }
        false
    }

    /// Whether `key` has a value `name`.
    pub fn has_value(&self, key: &KeyPath, name: &str) -> (found: bool)
        ensures
            found == has_value(self@, key@, name@),
    {
        let mut i: usize = 0;
        while i < self.values.len()
            invariant
                i <= self.values@.len(),
                forall|j: int|
                    0 <= j < i ==> !((#[trigger] self.values@[j]).key@ == key@
                        && self.values@[j].name@ == name@),
            decreases self.values@.len() - i,
        {
            if self.values[i].key.same(key) && str_eq(self.values[i].name.as_str(), name) {
                proof {
                    lemma_value_map_dom(self.values@, key@, name@);
                    assert(self.values@[i as int].key@ == key@);
                }
                return true;
            }
            i += 1;
        }
        proof {
            lemma_value_map_dom(self.values@, key@, name@);
        }
        false
    }

    /// What the value `name` of `key` holds, if there is such a value.
    pub fn value(&self, key: &KeyPath, name: &str) -> (found: Option<RegistryValue>)
        ensures
            found is Some == has_value(self@, key@, name@),
            found matches Some(value) ==> value@ == self@.values[(key@, name@)],
    {
        let mut i: usize = self.values.len();
        while i > 0
            invariant
                i <= self.values@.len(),
                forall|j: int|
                    i <= j < self.values@.len() ==> !((#[trigger] self.values@[j]).key@ == key@
                        && self.values@[j].name@ == name@),
            decreases i,
        {
            i -= 1;
            if self.values[i].key.same(key) && str_eq(self.values[i].name.as_str(), name) {
                proof {
                    lemma_value_map_last_match(self.values@, i as int);
                }
                return Some(self.values[i].value.copy());
            }
        }
        proof {
            lemma_value_map_dom(self.values@, key@, name@);
        }
        None
    }

    /// Creates `path` and the keys that lead to it.
    pub fn create_key(&mut self, path: &KeyPath)
        ensures
            final(self)@ == create_key(old(self)@, path@),
    {
        let mut count: usize = 0;
        while count < path.len()
            invariant
                count <= path@.len(),
                self.values@ == old(self).values@,
                forall|key: Seq<Seq<char>>| #[trigger]
                    listed(self.keys@, key) <==> (listed(old(self).keys@, key) || (0 < key.len()
                        <= count && is_prefix(key, path@))),
            decreases path@.len() - count,
        {
            count += 1;
            let ghost before = self.keys@;
            let prefix = path.prefix(count);
            self.keys.push(prefix);
            proof {
                let added = path@.take(count as int);
                assert(self.keys@[before.len() as int]@ == added);
                assert(is_prefix(added, path@)) by {
                    assert(path@.take(added.len() as int) == added);
                }
                assert forall|key: Seq<Seq<char>>| #[trigger]
                    listed(self.keys@, key) <==> (listed(old(self).keys@, key) || (0 < key.len()
                        <= count && is_prefix(key, path@))) by {
                    if listed(self.keys@, key) {
                        let i = choose|i: int|
                            0 <= i < self.keys@.len() && (#[trigger] self.keys@[i])@ == key;
                        if i < before.len() {
                            assert(before[i]@ == key);
                            assert(listed(before, key));
                        }
                    }
                    if listed(before, key) {
                        let i = choose|i: int| 0 <= i < before.len() && (#[trigger] before[i])@ == key;
                        assert(self.keys@[i]@ == key);
                    }
                    if 0 < key.len() <= count && is_prefix(key, path@) && key.len() == count {
                        assert(key == added);
                    }
                }
            }
        }
        assert(self@.keys =~= create_key(old(self)@, path@).keys) by {
            assert forall|key: Seq<Seq<char>>|
                self@.keys.contains(key) <==> create_key(old(self)@, path@).keys.contains(key) by {
                assert(self@.keys.contains(key) == listed(self.keys@, key));
                assert(old(self)@.keys.contains(key) == listed(old(self).keys@, key));
                assert(created_keys(path@).contains(key) == (key.len() > 0 && is_prefix(key, path@)));
            }
        }
    }

    /// Writes the value `name` of `key`.
    pub fn set_value(&mut self, key: &KeyPath, name: &str, value: &RegistryValue)
        ensures
            final(self)@ == set_value(old(self)@, key@, name@, value@),
    {
        let entry = ValueEntry { key: key.copy(), name: name.to_owned(), value: value.copy() };
        self.values.push(entry);
        assert(self.values@.drop_last() =~= old(self).values@);
        assert(self@ =~= set_value(old(self)@, key@, name@, value@));
    }

    /// Makes one write.
    pub fn apply(&mut self, write: &RegistryWrite)
        ensures
            final(self)@ == apply(old(self)@, write@),
    {
        match write {
            RegistryWrite::CreateKey(path) => self.create_key(path),
            RegistryWrite::SetValue(key, name, value) => self.set_value(
                key,
                name.as_str(),
                value,
            ),
        }
    }
    /// Makes the writes of `list` in their order.
    pub fn apply_all(&mut self, list: &Vec<RegistryWrite>)
        ensures
            final(self)@ == apply_all(old(self)@, writes(list@)),
    {
        let mut i: usize = 0;
        assert(writes(list@).take(0) =~= Seq::empty());
        while i < list.len()
            invariant
                i <= list@.len(),
                self@ == apply_all(old(self)@, writes(list@).take(i as int)),
            decreases list@.len() - i,
        {
            assert(writes(list@).take(i + 1).drop_last() =~= writes(list@).take(i as int));
            assert(writes(list@).take(i + 1).last() == list@[i as int]@);
            self.apply(&list[i]);
            i += 1;
        }
        assert(writes(list@).take(i as int) =~= writes(list@));
    }

    /// Removes `root` with all that lies below it.
    pub fn remove_tree(&mut self, root: &KeyPath)
        ensures
            final(self)@ == remove_tree(old(self)@, root@),
    {
        let mut keys: Vec<KeyPath> = Vec::new();
        let mut i: usize = 0;
        assert(self.keys@.take(0) =~= Seq::<KeyPath>::empty());
        while i < self.keys.len()
            invariant
                i <= self.keys@.len(),
                forall|key: Seq<Seq<char>>| #[trigger]
                    listed(keys@, key) <==> listed(self.keys@.take(i as int), key) && !is_prefix(
                        root@,
                        key,
                    ),
            decreases self.keys@.len() - i,
        {
            let ghost before = keys@;
            let ghost seen = self.keys@.take(i as int);
            let ghost current = self.keys@[i as int];
            assert(self.keys@.take(i + 1) =~= seen.push(current));
            let below = root.is_prefix_of(&self.keys[i]);
            if !below {
                keys.push(self.keys[i].copy());
            }
            proof {
                let copied = keys@.last();
                assert forall|key: Seq<Seq<char>>| #[trigger]
                    listed(keys@, key) <==> listed(self.keys@.take(i + 1), key) && !is_prefix(
                        root@,
                        key,
                    ) by {
                    lemma_listed_push(seen, current, key);
                    assert(listed(before, key) <==> listed(seen, key) && !is_prefix(root@, key));
                    if !below {
                        assert(keys@ == before.push(copied));
                        lemma_listed_push(before, copied, key);
                    }
                }
            }
            i += 1;
        }
        assert(self.keys@.take(i as int) =~= self.keys@);
        let mut values: Vec<ValueEntry> = Vec::new();
        let mut j: usize = 0;
        assert(self.values@.take(0) =~= Seq::<ValueEntry>::empty());
        assert(value_map(values@) =~= value_map(self.values@.take(0)).remove_keys(
            values_below(root@),
        ));
        while j < self.values.len()
            invariant
                j <= self.values@.len(),
                value_map(values@) == value_map(self.values@.take(j as int)).remove_keys(
                    values_below(root@),
                ),
            decreases self.values@.len() - j,
        {
            let ghost before = values@;
            let ghost seen = self.values@.take(j as int);
            let ghost current = self.values@[j as int];
            assert(self.values@.take(j + 1).drop_last() =~= seen);
            assert(self.values@.take(j + 1).last() == current);
            let below = root.is_prefix_of(&self.values[j].key);
            if !below {
                let entry = ValueEntry {
                    key: self.values[j].key.copy(),
                    name: self.values[j].name.clone(),
                    value: self.values[j].value.copy(),
                };
                values.push(entry);
                assert(values@.drop_last() =~= before);
            }
            assert(value_map(values@) =~= value_map(self.values@.take(j + 1)).remove_keys(
                values_below(root@),
            ));
            j += 1;
        }
        assert(self.values@.take(j as int) =~= self.values@);
        let ghost old_keys = self.keys@;
        self.keys = keys;
        self.values = values;
        assert(self@.keys =~= remove_tree(old(self)@, root@).keys) by {
            assert forall|key: Seq<Seq<char>>|
                self@.keys.contains(key) <==> remove_tree(old(self)@, root@).keys.contains(key) by {
                assert(self@.keys.contains(key) == listed(self.keys@, key));
                assert(old(self)@.keys.contains(key) == listed(old_keys, key));
            }
        }
    }

}

} // verus!
