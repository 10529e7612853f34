//! A model of the registry: which keys exist and what their values hold.
//!
//! Names are compared as they are written. The operating system folds their
//! case, so one of its keys may stand here under several spellings.

use crate::keys::{is_prefix, ValueView, WriteView};
use vstd::prelude::*;

verus! {

/// The registry as mathematics: the keys that exist, each named by its path
/// from the root, and what the values of the keys hold.
#[verifier::ext_equal]
pub struct RegistryView {
    pub keys: Set<Seq<Seq<char>>>,
    pub values: Map<(Seq<Seq<char>>, Seq<char>), ValueView>,
}

/// A registry without keys.
pub open spec fn empty_registry() -> RegistryView {
    RegistryView { keys: Set::empty(), values: Map::empty() }
}

/// The keys that creating `path` brings into being: `path` and the keys that
/// lead to it.
pub open spec fn created_keys(path: Seq<Seq<char>>) -> Set<Seq<Seq<char>>> {
    Set::new(|key: Seq<Seq<char>>| key.len() > 0 && is_prefix(key, path))
}

/// The values that lie in the subtree of `root`.
pub open spec fn values_below(root: Seq<Seq<char>>) -> Set<(Seq<Seq<char>>, Seq<char>)> {
    Set::new(|entry: (Seq<Seq<char>>, Seq<char>)| is_prefix(root, entry.0))
}

/// The registry after `path` was created.
pub open spec fn create_key(registry: RegistryView, path: Seq<Seq<char>>) -> RegistryView {
    RegistryView { keys: registry.keys.union(created_keys(path)), values: registry.values }
}

/// The registry after the value `name` of `key` was written.
pub open spec fn set_value(
    registry: RegistryView,
    key: Seq<Seq<char>>,
    name: Seq<char>,
    value: ValueView,
) -> RegistryView {
    RegistryView { keys: registry.keys, values: registry.values.insert((key, name), value) }
}

/// The registry after `root` was removed with all that lies below it.
pub open spec fn remove_tree(registry: RegistryView, root: Seq<Seq<char>>) -> RegistryView {
    RegistryView {
        keys: registry.keys.filter(|key: Seq<Seq<char>>| !is_prefix(root, key)),
        values: registry.values.remove_keys(values_below(root)),
    }
}

/// The registry after one write.
pub open spec fn apply(registry: RegistryView, write: WriteView) -> RegistryView {
    match write {
        WriteView::CreateKey(path) => create_key(registry, path),
        WriteView::SetValue(key, name, value) => set_value(registry, key, name, value),
    }
}

/// The registry after a list of writes, made in their order.
pub open spec fn apply_all(registry: RegistryView, list: Seq<WriteView>) -> RegistryView
    decreases list.len(),
{
    if list.len() == 0 {
        registry
    } else {
        apply(apply_all(registry, list.drop_last()), list.last())
    }
}

/// The key that a write creates or writes to.
pub open spec fn written_key(write: WriteView) -> Seq<Seq<char>> {
    match write {
        WriteView::CreateKey(path) => path,
        WriteView::SetValue(key, _, _) => key,
    }
}

/// Whether every write of `list` creates or writes to `root` or a key
/// below it.
pub open spec fn confined(list: Seq<WriteView>, root: Seq<Seq<char>>) -> bool {
    forall|i: int| 0 <= i < list.len() ==> is_prefix(root, written_key(#[trigger] list[i]))
}

/// Whether each value of `list` is written to a key that an earlier write of
/// the list has created.
pub open spec fn keys_come_first(list: Seq<WriteView>) -> bool {
    forall|i: int|
        0 <= i < list.len() && (#[trigger] list[i]) is SetValue ==> exists|j: int|
            0 <= j < i && #[trigger] list[j] == WriteView::CreateKey(written_key(list[i]))
}

/// Whether the two registries hold the same outside the subtree of `root`,
/// but for keys that lead to `root`, which `after` may have more of.
pub open spec fn same_outside(
    before: RegistryView,
    after: RegistryView,
    root: Seq<Seq<char>>,
) -> bool {
    &&& forall|key: Seq<Seq<char>>|
        !is_prefix(root, key) && before.keys.contains(key) ==> after.keys.contains(key)
    &&& forall|key: Seq<Seq<char>>|
        !is_prefix(root, key) && after.keys.contains(key) ==> before.keys.contains(key)
            || is_prefix(key, root)
    &&& forall|key: Seq<Seq<char>>, name: Seq<char>|
        !is_prefix(root, key) ==> (#[trigger] has_value(after, key, name) == has_value(
            before,
            key,
            name,
        ) && (has_value(before, key, name) ==> after.values[(key, name)] == before.values[(
            key,
            name,
        )]))
}

/// Whether the registry holds the value `name` of `key`.
pub open spec fn has_value(registry: RegistryView, key: Seq<Seq<char>>, name: Seq<char>) -> bool {
    registry.values.dom().contains((key, name))
}

/// Whether every key and value of `before` is in `after` too.
pub open spec fn grown(before: RegistryView, after: RegistryView) -> bool {
    &&& before.keys.subset_of(after.keys)
    &&& before.values.dom().subset_of(after.values.dom())
}

/// Writes take nothing away, and each leaves what it wrote.
pub proof fn lemma_apply_all_grows(registry: RegistryView, list: Seq<WriteView>)
    ensures
        grown(registry, apply_all(registry, list)),
        forall|i: int|
            0 <= i < list.len() ==> match #[trigger] list[i] {
                WriteView::CreateKey(path) => path.len() > 0 ==> apply_all(
                    registry,
                    list,
                ).keys.contains(path),
                WriteView::SetValue(key, name, _) => has_value(
                    apply_all(registry, list),
                    key,
                    name,
                ),
            },
    decreases list.len(),
{
    if list.len() > 0 {
        let front = list.drop_last();
        lemma_apply_all_grows(registry, front);
        let middle = apply_all(registry, front);
        let after = apply_all(registry, list);
        assert(grown(middle, after));
        assert forall|i: int| 0 <= i < list.len() implies match #[trigger] list[i] {
            WriteView::CreateKey(path) => path.len() > 0 ==> after.keys.contains(path),
            WriteView::SetValue(key, name, _) => has_value(after, key, name),
        } by {
            if i < list.len() - 1 {
                assert(list[i] == front[i]);
            } else {
                match list[i] {
                    WriteView::CreateKey(path) => {
                        if path.len() > 0 {
                            assert(path.take(path.len() as int) =~= path);
                            assert(created_keys(path).contains(path));
                        }
                    },
                    WriteView::SetValue(key, name, _) => {},
                }
            }
        }
    }
}

/// A write of a list that was made has left what it wrote.
pub proof fn lemma_applied_write(registry: RegistryView, list: Seq<WriteView>, write: WriteView)
    requires
        list.contains(write),
    ensures
        match write {
            WriteView::CreateKey(path) => path.len() > 0 ==> apply_all(
                registry,
                list,
            ).keys.contains(path),
            WriteView::SetValue(key, name, _) => has_value(apply_all(registry, list), key, name),
        },
{
    lemma_apply_all_grows(registry, list);
    let i = choose|i: int| 0 <= i < list.len() && list[i] == write;
    assert(list[i] == write);
}

/// Of two keys that lead to a third, one leads to the other.
pub proof fn lemma_prefixes_are_comparable(
    one: Seq<Seq<char>>,
    other: Seq<Seq<char>>,
    path: Seq<Seq<char>>,
)
    requires
        is_prefix(one, path),
        is_prefix(other, path),
    ensures
        is_prefix(one, other) || is_prefix(other, one),
{
    if one.len() <= other.len() {
        assert(other.take(one.len() as int) =~= path.take(one.len() as int));
    } else {
        assert(one.take(other.len() as int) =~= path.take(other.len() as int));
    }
}

/// Writes that are confined to a subtree leave the rest of the registry as
/// it was, but for the keys that lead to the subtree.
pub proof fn lemma_confined_writes(
    registry: RegistryView,
    list: Seq<WriteView>,
    root: Seq<Seq<char>>,
)
    requires
        confined(list, root),
    ensures
        same_outside(registry, apply_all(registry, list), root),
    decreases list.len(),
{
    if list.len() > 0 {
        let front = list.drop_last();
        assert forall|i: int| 0 <= i < front.len() implies is_prefix(
            root,
            written_key(#[trigger] front[i]),
        ) by {
            assert(front[i] == list[i]);
        }
        lemma_confined_writes(registry, front, root);
        let middle = apply_all(registry, front);
        let after = apply_all(registry, list);
        let last = list[list.len() - 1];
        assert(is_prefix(root, written_key(last)));
        assert forall|key: Seq<Seq<char>>|
            !is_prefix(root, key) && after.keys.contains(key) implies registry.keys.contains(key)
            || is_prefix(key, root) by {
            if !middle.keys.contains(key) {
                lemma_prefixes_are_comparable(key, root, written_key(last));
            }
        }
        assert forall|key: Seq<Seq<char>>, name: Seq<char>| !is_prefix(root, key) implies (
        #[trigger] has_value(after, key, name) == has_value(registry, key, name) && (has_value(
            registry,
            key,
            name,
        ) ==> after.values[(key, name)] == registry.values[(key, name)])) by {
            assert(has_value(middle, key, name) == has_value(registry, key, name));
        }
    }
}

/// Removing a subtree leaves nothing of it and all of the rest.
pub proof fn lemma_remove_tree(registry: RegistryView, root: Seq<Seq<char>>)
    ensures
        forall|key: Seq<Seq<char>>|
            is_prefix(root, key) ==> !remove_tree(registry, root).keys.contains(key),
        forall|key: Seq<Seq<char>>, name: Seq<char>|
            is_prefix(root, key) ==> !#[trigger] has_value(remove_tree(registry, root), key, name),
        forall|key: Seq<Seq<char>>|
            !is_prefix(root, key) ==> remove_tree(registry, root).keys.contains(key)
                == registry.keys.contains(key),
        forall|key: Seq<Seq<char>>, name: Seq<char>|
            !is_prefix(root, key) ==> (#[trigger] has_value(remove_tree(registry, root), key, name)
                == has_value(registry, key, name) && (has_value(registry, key, name)
                ==> remove_tree(registry, root).values[(key, name)] == registry.values[(
                key,
                name,
            )])),
{
    assert forall|key: Seq<Seq<char>>, name: Seq<char>|
        values_below(root).contains((key, name)) == is_prefix(root, key) by {}
}

/// Two lists that create their keys first do so when joined.
pub proof fn lemma_keys_come_first_joined(first: Seq<WriteView>, second: Seq<WriteView>)
    requires
        keys_come_first(first),
        keys_come_first(second),
    ensures
        keys_come_first(first + second),
{
    let all = first + second;
    assert forall|i: int| 0 <= i < all.len() && (#[trigger] all[i]) is SetValue implies exists|
        j: int,
    |
        0 <= j < i && #[trigger] all[j] == WriteView::CreateKey(written_key(all[i])) by {
        if i < first.len() {
            assert(all[i] == first[i]);
            let j = choose|j: int|
                0 <= j < i && #[trigger] first[j] == WriteView::CreateKey(written_key(first[i]));
            assert(all[j] == first[j]);
        } else {
            let k = i - first.len();
            assert(all[i] == second[k]);
            let j = choose|j: int|
                0 <= j < k && #[trigger] second[j] == WriteView::CreateKey(written_key(second[k]));
            assert(all[first.len() + j] == second[j]);
        }
    }
}

/// Where a list creates its keys first, each of its values is written to a
/// key that exists by then.
pub proof fn lemma_keys_exist_when_written(registry: RegistryView, list: Seq<WriteView>, at: int)
    requires
        keys_come_first(list),
        0 <= at < list.len(),
        list[at] is SetValue,
        written_key(list[at]).len() > 0,
    ensures
        apply_all(registry, list.take(at)).keys.contains(written_key(list[at])),
{
    let j = choose|j: int|
        0 <= j < at && #[trigger] list[j] == WriteView::CreateKey(written_key(list[at]));
    assert(list.take(at)[j] == list[j]);
    lemma_applied_write(registry, list.take(at), list[j]);
}

} // verus!
