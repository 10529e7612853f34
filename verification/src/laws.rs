//! What holds of registering and deregistering an event source, whatever the
//! registry held before.

use crate::error::RegistryError;
use crate::keys::{is_prefix, valid_key_name, valid_path, WriteView};
use crate::model::{
    apply_all, confined, has_value, keys_come_first, lemma_applied_write, lemma_apply_all_grows,
    lemma_confined_writes, lemma_keys_come_first_joined, lemma_keys_exist_when_written,
    lemma_remove_tree, remove_tree, same_outside, written_key, RegistryView,
};
use crate::registry::{
    all_provisioned, channel_writes, deregister_result, found, names_of, pending, provisioned,
    register_probes, register_result, register_writes, root_key, source_writes, strip_verbatim,
    sub_source_writes, valid_source, ExeLookupView, LogSourceView, ProbeView, SourceKind,
};
use vstd::prelude::*;

verus! {

/// Every source but `name` that the registry lacks something for is among
/// the pending ones.
pub proof fn lemma_pending_covers(
    registry: RegistryView,
    channel: Seq<Seq<char>>,
    name: Seq<char>,
    sources: Seq<Seq<char>>,
    source: Seq<char>,
)
    requires
        sources.contains(source),
        source != name,
        !provisioned(registry, channel, name, source),
    ensures
        pending(registry, channel, name, sources).contains(source),
    decreases sources.len(),
{
    let i = choose|i: int| 0 <= i < sources.len() && sources[i] == source;
    let earlier = pending(registry, channel, name, sources.drop_last());
    if i < sources.len() - 1 {
        assert(sources.drop_last()[i] == source);
        lemma_pending_covers(registry, channel, name, sources.drop_last(), source);
        let at = choose|at: int| 0 <= at < earlier.len() && earlier[at] == source;
        if pending(registry, channel, name, sources) != earlier {
            assert(earlier.push(sources.last())[at] == source);
        }
    } else {
        if !earlier.contains(source) {
            assert(earlier.push(source)[earlier.len() as int] == source);
        }
    }
}

/// The writes for a list of sources create the key of each of them.
pub proof fn lemma_sub_sources_created(
    channel: Seq<Seq<char>>,
    exe: Seq<char>,
    sources: Seq<Seq<char>>,
    source: Seq<char>,
)
    requires
        sources.contains(source),
    ensures
        sub_source_writes(channel, exe, sources).contains(
            WriteView::CreateKey(channel.push(source)),
        ),
    decreases sources.len(),
{
    let i = choose|i: int| 0 <= i < sources.len() && sources[i] == source;
    let front = sub_source_writes(channel, exe, sources.drop_last());
    let all = sub_source_writes(channel, exe, sources);
    let wanted = WriteView::CreateKey(channel.push(source));
    if i < sources.len() - 1 {
        assert(sources.drop_last()[i] == source);
        lemma_sub_sources_created(channel, exe, sources.drop_last(), source);
        let at = choose|at: int| 0 <= at < front.len() && front[at] == wanted;
        assert(all[at] == wanted);
    } else {
        assert(all[front.len() as int] == wanted);
    }
}

/// Once the writes of a registration were made, the same source needs no
/// write any more.
pub proof fn lemma_writes_suffice(source: LogSourceView, exe: Seq<char>, registry: RegistryView)
    ensures
        ({
            let once = apply_all(registry, register_writes(source, exe, registry));
            &&& register_writes(source, exe, once) == Seq::<WriteView>::empty()
            &&& apply_all(once, register_writes(source, exe, once)) == once
        }),
{
    let first = register_writes(source, exe, registry);
    let once = apply_all(registry, first);
    let root = root_key(source);
    lemma_apply_all_grows(registry, first);
    match source.kind {
        SourceKind::Application => {
            if !registry.keys.contains(root) {
                assert(first[0] == WriteView::CreateKey(root));
                lemma_applied_write(registry, first, WriteView::CreateKey(root));
            }
        },
        SourceKind::Custom(sources) => {
            if !all_provisioned(registry, root, source.name, sources) {
                let waiting = pending(registry, root, source.name, sources);
                let targets = seq![source.name] + waiting;
                let below = sub_source_writes(root, exe, targets);
                let head = channel_writes(root);
                assert(first[0] == head[0]);
                assert(first[1] == head[1]);
                assert(first[2] == head[2]);
                lemma_applied_write(registry, first, head[0]);
                lemma_applied_write(registry, first, head[1]);
                lemma_applied_write(registry, first, head[2]);
                assert forall|i: int| 0 <= i < sources.len() implies provisioned(
                    once,
                    root,
                    source.name,
                    #[trigger] sources[i],
                ) by {
                    let this = sources[i];
                    assert(targets[0] == source.name);
                    lemma_sub_sources_created(root, exe, targets, source.name);
                    let own = WriteView::CreateKey(root.push(source.name));
                    let at = choose|at: int| 0 <= at < below.len() && below[at] == own;
                    assert(first[head.len() + at] == own);
                    lemma_applied_write(registry, first, own);
                    if this != source.name && !provisioned(registry, root, source.name, this) {
                        lemma_pending_covers(registry, root, source.name, sources, this);
                        let k = choose|k: int| 0 <= k < waiting.len() && waiting[k] == this;
                        assert(targets[k + 1] == this);
                        lemma_sub_sources_created(root, exe, targets, this);
                        let wanted = WriteView::CreateKey(root.push(this));
                        let to = choose|to: int| 0 <= to < below.len() && below[to] == wanted;
                        assert(first[head.len() + to] == wanted);
                        lemma_applied_write(registry, first, wanted);
                    }
                }
            }
        },
    }
}

/// The writes for a list of sources are confined to the channel.
pub proof fn lemma_sub_sources_confined(
    channel: Seq<Seq<char>>,
    exe: Seq<char>,
    sources: Seq<Seq<char>>,
)
    ensures
        confined(sub_source_writes(channel, exe, sources), channel),
    decreases sources.len(),
{
    if sources.len() > 0 {
        let front = sub_source_writes(channel, exe, sources.drop_last());
        let all = sub_source_writes(channel, exe, sources);
        let key = channel.push(sources.last());
        lemma_sub_sources_confined(channel, exe, sources.drop_last());
        assert(key.take(channel.len() as int) =~= channel);
        assert forall|i: int| 0 <= i < all.len() implies is_prefix(
            channel,
            written_key(#[trigger] all[i]),
        ) by {
            if i < front.len() {
                assert(all[i] == front[i]);
            } else {
                assert(all[i] == source_writes(key, exe)[i - front.len()]);
            }
        }
    }
}

/// Registering writes nowhere but in the subtree of the source.
pub proof fn lemma_register_confined(source: LogSourceView, exe: Seq<char>, registry: RegistryView)
    ensures
        confined(register_writes(source, exe, registry), root_key(source)),
{
    let root = root_key(source);
    let list = register_writes(source, exe, registry);
    assert(root.take(root.len() as int) =~= root);
    match source.kind {
        SourceKind::Application => {},
        SourceKind::Custom(sources) => {
            if !all_provisioned(registry, root, source.name, sources) {
                let head = channel_writes(root);
                let targets = seq![source.name] + pending(registry, root, source.name, sources);
                let below = sub_source_writes(root, exe, targets);
                lemma_sub_sources_confined(root, exe, targets);
                assert forall|i: int| 0 <= i < list.len() implies is_prefix(
                    root,
                    written_key(#[trigger] list[i]),
                ) by {
                    if i < head.len() {
                        assert(list[i] == head[i]);
                    } else {
                        assert(list[i] == below[i - head.len()]);
                    }
                }
            }
        },
    }
}

/// The pending sources are among the sources.
pub proof fn lemma_pending_are_sources(
    registry: RegistryView,
    channel: Seq<Seq<char>>,
    name: Seq<char>,
    sources: Seq<Seq<char>>,
)
    ensures
        forall|k: int|
            0 <= k < pending(registry, channel, name, sources).len() ==> sources.contains(
                #[trigger] pending(registry, channel, name, sources)[k],
            ),
    decreases sources.len(),
{
    if sources.len() > 0 {
        let front = sources.drop_last();
        let earlier = pending(registry, channel, name, front);
        let all = pending(registry, channel, name, sources);
        lemma_pending_are_sources(registry, channel, name, front);
        assert forall|k: int| 0 <= k < all.len() implies sources.contains(#[trigger] all[k]) by {
            if k < earlier.len() {
                assert(all[k] == earlier[k]);
                let i = choose|i: int| 0 <= i < front.len() && front[i] == earlier[k];
                assert(sources[i] == all[k]);
            } else {
                assert(sources[sources.len() - 1] == all[k]);
            }
        }
    }
}

/// The keys below a valid channel that are written for valid sources are
/// paths of valid names.
pub proof fn lemma_sub_sources_valid(
    channel: Seq<Seq<char>>,
    exe: Seq<char>,
    sources: Seq<Seq<char>>,
)
    requires
        valid_path(channel),
        valid_path(sources),
    ensures
        forall|i: int|
            0 <= i < sub_source_writes(channel, exe, sources).len() ==> valid_path(
                written_key(#[trigger] sub_source_writes(channel, exe, sources)[i]),
            ),
    decreases sources.len(),
{
    if sources.len() > 0 {
        let front = sub_source_writes(channel, exe, sources.drop_last());
        let all = sub_source_writes(channel, exe, sources);
        let key = channel.push(sources.last());
        assert forall|i: int| 0 <= i < sources.drop_last().len() implies valid_key_name(
            #[trigger] sources.drop_last()[i],
        ) by {
            assert(sources.drop_last()[i] == sources[i]);
        }
        lemma_sub_sources_valid(channel, exe, sources.drop_last());
        assert(valid_key_name(sources[sources.len() - 1]));
        assert(valid_path(key));
        assert forall|i: int| 0 <= i < all.len() implies valid_path(
            written_key(#[trigger] all[i]),
        ) by {
            if i < front.len() {
                assert(all[i] == front[i]);
            } else {
                assert(all[i] == source_writes(key, exe)[i - front.len()]);
            }
        }
    }
}

/// The root of a source with valid names is a path of valid names.
pub proof fn lemma_root_is_valid(source: LogSourceView)
    requires
        valid_source(source),
    ensures
        valid_path(root_key(source)),
{
    reveal_strlit("SYSTEM");
    reveal_strlit("CurrentControlSet");
    reveal_strlit("Services");
    reveal_strlit("EventLog");
    reveal_strlit("Application");
    assert(valid_key_name(names_of(source)[0]));
    assert(valid_key_name("SYSTEM"@));
    assert(valid_key_name("CurrentControlSet"@));
    assert(valid_key_name("Services"@));
    assert(valid_key_name("EventLog"@));
    assert(valid_key_name("Application"@));
}

/// Registering a source with valid names writes to keys whose paths are made
/// of valid names, so that the operating system, which is handed each path
/// as one text, takes it for the key that is meant.
pub proof fn lemma_register_paths_valid(
    source: LogSourceView,
    exe: Seq<char>,
    registry: RegistryView,
)
    requires
        valid_source(source),
    ensures
        valid_path(root_key(source)),
        forall|i: int|
            0 <= i < register_writes(source, exe, registry).len() ==> valid_path(
                written_key(#[trigger] register_writes(source, exe, registry)[i]),
            ),
{
    let root = root_key(source);
    let list = register_writes(source, exe, registry);
    lemma_root_is_valid(source);
    match source.kind {
        SourceKind::Application => {},
        SourceKind::Custom(sources) => {
            if !all_provisioned(registry, root, source.name, sources) {
                let head = channel_writes(root);
                let waiting = pending(registry, root, source.name, sources);
                let targets = seq![source.name] + waiting;
                lemma_pending_are_sources(registry, root, source.name, sources);
                assert forall|k: int| 0 <= k < targets.len() implies valid_key_name(
                    #[trigger] targets[k],
                ) by {
                    if k == 0 {
                        assert(valid_key_name(names_of(source)[0]));
                    } else {
                        assert(targets[k] == waiting[k - 1]);
                        let i = choose|i: int| 0 <= i < sources.len() && sources[i] == waiting[k - 1];
                        assert(names_of(source)[i + 1] == sources[i]);
                    }
                }
                lemma_sub_sources_valid(root, exe, targets);
                let below = sub_source_writes(root, exe, targets);
                assert forall|i: int| 0 <= i < list.len() implies valid_path(
                    written_key(#[trigger] list[i]),
                ) by {
                    if i < head.len() {
                        assert(list[i] == head[i]);
                    } else {
                        assert(list[i] == below[i - head.len()]);
                    }
                }
            }
        },
    }
}

/// The writes for a list of sources create each key before its values.
pub proof fn lemma_sub_sources_ordered(
    channel: Seq<Seq<char>>,
    exe: Seq<char>,
    sources: Seq<Seq<char>>,
)
    ensures
        keys_come_first(sub_source_writes(channel, exe, sources)),
    decreases sources.len(),
{
    if sources.len() > 0 {
        let one = source_writes(channel.push(sources.last()), exe);
        lemma_sub_sources_ordered(channel, exe, sources.drop_last());
        assert(keys_come_first(one)) by {
            assert(one[0] == WriteView::CreateKey(channel.push(sources.last())));
        }
        lemma_keys_come_first_joined(sub_source_writes(channel, exe, sources.drop_last()), one);
    }
}

/// The writes of a registration can be made in their order: each value is
/// written to a key that an earlier write has created, and that exists by
/// then.
pub proof fn lemma_register_ordered(source: LogSourceView, exe: Seq<char>, registry: RegistryView)
    ensures
        keys_come_first(register_writes(source, exe, registry)),
        forall|at: int|
            0 <= at < register_writes(source, exe, registry).len() && (
            #[trigger] register_writes(source, exe, registry)[at]) is SetValue ==> apply_all(
                registry,
                register_writes(source, exe, registry).take(at),
            ).keys.contains(written_key(register_writes(source, exe, registry)[at])),
{
    let root = root_key(source);
    let list = register_writes(source, exe, registry);
    match source.kind {
        SourceKind::Application => {
            if !registry.keys.contains(root) {
                assert(list[0] == WriteView::CreateKey(root));
            }
        },
        SourceKind::Custom(sources) => {
            if !all_provisioned(registry, root, source.name, sources) {
                let head = channel_writes(root);
                let targets = seq![source.name] + pending(registry, root, source.name, sources);
                assert(keys_come_first(head)) by {
                    assert(head[0] == WriteView::CreateKey(root));
                }
                lemma_sub_sources_ordered(root, exe, targets);
                lemma_keys_come_first_joined(head, sub_source_writes(root, exe, targets));
            }
        },
    }
    lemma_register_confined(source, exe, registry);
    assert forall|at: int| 0 <= at < list.len() && (#[trigger] list[at]) is SetValue implies apply_all(
        registry,
        list.take(at),
    ).keys.contains(written_key(list[at])) by {
        assert(is_prefix(root, written_key(list[at])));
        lemma_keys_exist_when_written(registry, list, at);
    }
}

/// Registering is idempotent: after a registration that was carried out,
/// registering the same source again plans no write, and so leaves the
/// registry as the first registration left it. A registration that fails
/// fails whatever the registry holds, and plans no write either.
pub proof fn lemma_register_twice(
    source: LogSourceView,
    exe: ExeLookupView,
    registry: RegistryView,
)
    ensures
        match register_result(source, exe, registry) {
            Ok(first) => {
                let once = apply_all(registry, first);
                &&& register_result(source, exe, once) == Ok::<Seq<WriteView>, RegistryError>(
                    Seq::empty(),
                )
                &&& apply_all(once, Seq::empty()) == once
            },
            Err(error) => forall|other: RegistryView| #[trigger]
                register_result(source, exe, other) == Err::<Seq<WriteView>, RegistryError>(error),
        },
{
    if let ExeLookupView::Found(path) = exe {
        lemma_writes_suffice(source, strip_verbatim(path), registry);
    }
}

/// Registering a source and then removing the key that deregistering names
/// leaves nothing of the source: no key and no value in its subtree. Outside
/// that subtree the registry is as it was before, but for the keys that
/// lead to the subtree, which registering may have made.
pub proof fn lemma_register_then_deregister(
    source: LogSourceView,
    exe: ExeLookupView,
    registry: RegistryView,
)
    requires
        register_result(source, exe, registry) is Ok,
    ensures
        deregister_result(source) == Ok::<Seq<Seq<char>>, RegistryError>(root_key(source)),
        ({
            let root = root_key(source);
            let registered = apply_all(registry, register_result(source, exe, registry)->Ok_0);
            let removed = remove_tree(registered, root);
            &&& forall|key: Seq<Seq<char>>| is_prefix(root, key) ==> !removed.keys.contains(key)
            &&& forall|key: Seq<Seq<char>>, name: Seq<char>|
                is_prefix(root, key) ==> !#[trigger] has_value(removed, key, name)
            &&& same_outside(registry, removed, root)
        }),
{
    let root = root_key(source);
    let list = register_result(source, exe, registry)->Ok_0;
    let registered = apply_all(registry, list);
    let path = exe->Found_0;
    assert(list == register_writes(source, strip_verbatim(path), registry));
    assert(names_of(source)[0] == source.name);
    lemma_register_confined(source, strip_verbatim(path), registry);
    lemma_confined_writes(registry, list, root);
    lemma_remove_tree(registered, root);
}

/// Deregistering names no key but the source's own: a key whose path is made
/// of valid names and ends with the name of the source, so that removing it
/// reaches nothing that another source has registered beside it.
pub proof fn lemma_deregister_names_own_key(source: LogSourceView)
    requires
        deregister_result(source) is Ok,
    ensures
        deregister_result(source) == Ok::<Seq<Seq<char>>, RegistryError>(root_key(source)),
        valid_path(root_key(source)),
        root_key(source).last() == source.name,
        source.name.len() > 0,
{
    lemma_root_is_valid(source);
    assert(valid_key_name(names_of(source)[0]));
}

/// What registering comes to depends on the registry through the answers
/// to the probes alone: two registries that answer them alike get the same
/// writes.
pub proof fn lemma_probes_decide(
    source: LogSourceView,
    exe: ExeLookupView,
    one: RegistryView,
    other: RegistryView,
)
    requires
        forall|i: int|
            0 <= i < register_probes(source).len() ==> found(one, #[trigger] register_probes(
                source,
            )[i]) == found(other, register_probes(source)[i]),
    ensures
        register_result(source, exe, one) == register_result(source, exe, other),
{
    let asked = register_probes(source);
    let root = root_key(source);
    assert(found(one, asked[0]) == found(other, asked[0]));
    match source.kind {
        SourceKind::Application => {},
        SourceKind::Custom(sources) => {
            assert(found(one, asked[1]) == found(other, asked[1]));
            assert(found(one, asked[2]) == found(other, asked[2]));
            assert(found(one, asked[3]) == found(other, asked[3]));
            assert forall|i: int| 0 <= i < sources.len() implies provisioned(
                one,
                root,
                source.name,
                #[trigger] sources[i],
            ) == provisioned(other, root, source.name, sources[i]) by {
                assert(asked[4 + i] == ProbeView::Key(root.push(sources[i])));
                assert(found(one, asked[4 + i]) == found(other, asked[4 + i]));
            }
            lemma_pending_alike(one, other, root, source.name, sources);
        },
    }
}

proof fn lemma_pending_alike(
    one: RegistryView,
    other: RegistryView,
    channel: Seq<Seq<char>>,
    name: Seq<char>,
    sources: Seq<Seq<char>>,
)
    requires
        forall|i: int|
            0 <= i < sources.len() ==> provisioned(one, channel, name, #[trigger] sources[i])
                == provisioned(other, channel, name, sources[i]),
    ensures
        pending(one, channel, name, sources) == pending(other, channel, name, sources),
    decreases sources.len(),
{
    if sources.len() > 0 {
        let front = sources.drop_last();
        assert forall|i: int| 0 <= i < front.len() implies provisioned(
            one,
            channel,
            name,
            #[trigger] front[i],
        ) == provisioned(other, channel, name, front[i]) by {
            assert(front[i] == sources[i]);
        }
        lemma_pending_alike(one, other, channel, name, front);
        assert(sources.last() == sources[sources.len() - 1]);
    }
}

} // verus!
