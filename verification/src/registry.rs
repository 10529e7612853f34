//! Event sources and the registry keys that make them known to the
//! operating system.
//!
//! Registering is planned here and carried out elsewhere: `register` is told
//! what the registry holds and answers with the writes that are still to be
//! made, in their order; `deregister` names the subtree to remove.

use crate::catalog::{supported_types, total_category_count, CATEGORY_COUNT, TYPES_SUPPORTED};
use crate::error::{
    lemma_invalid_name_code, map_key_error, to_hresult, RegistryError, ERROR_INVALID_NAME,
    INVALID_NAME,
};
use crate::keys::{
    is_valid_key_name, texts, valid_key_name, writes, KeyPath, RegistryValue, RegistryWrite,
    ValueView, WriteView,
};
use crate::model::{has_value, RegistryView};
use crate::state::RegistryState;
use crate::text::str_eq;
use crate::wide::{to_wide, wide_encoding};
use vstd::prelude::*;
use vstd::string::StrSliceExecFns;

verus! {

/// The size that a channel of its own may grow to: 512 KiB.
pub const MAX_SIZE: u32 = 0x00080000;

/// Where an event source registers, as mathematics.
pub enum SourceKind {
    /// Under the channel that all applications share.
    Application,
    /// Under a channel of its own, with these sources below it.
    Custom(Seq<Seq<char>>),
}

/// An event source as mathematics: its name and where it registers.
pub struct LogSourceView {
    pub name: Seq<char>,
    pub kind: SourceKind,
}

#[derive(Debug, Clone, PartialEq, Eq)]
enum SourceType {
    Application,
    Custom(Vec<String>),
}

/// An event source: a name under the shared application channel, or a
/// channel of its own with the sources below it.
#[derive(Debug, Clone, PartialEq, Eq)]
pub struct LogSource {
    source: SourceType,
    name: String,
}

impl View for LogSource {
    type V = LogSourceView;

    closed spec fn view(&self) -> LogSourceView {
        LogSourceView {
            name: self.name@,
            kind: match self.source {
                SourceType::Application => SourceKind::Application,
                SourceType::Custom(sources) => SourceKind::Custom(texts(sources@)),
            },
        }
    }
}

/// What looking for the running executable gave.
#[derive(Debug, Clone, PartialEq, Eq)]
pub enum ExeLookup {
    /// Its path.
    Found(String),
    /// A path that is no text.
    NotText,
    /// A refusal of the operating system, with its code.
    Failed(i32),
}

/// What looking for the running executable gave, as mathematics.
pub enum ExeLookupView {
    Found(Seq<char>),
    NotText,
    Failed(i32),
}

impl View for ExeLookup {
    type V = ExeLookupView;

    open spec fn view(&self) -> ExeLookupView {
        match self {
            ExeLookup::Found(path) => ExeLookupView::Found(path@),
            ExeLookup::NotText => ExeLookupView::NotText,
            ExeLookup::Failed(code) => ExeLookupView::Failed(*code),
        }
    }
}

/// The key under which the operating system keeps its event logs.
pub open spec fn base_key() -> Seq<Seq<char>> {
    seq!["SYSTEM"@, "CurrentControlSet"@, "Services"@, "EventLog"@]
}

/// The key that holds all that is registered for `source`.
pub open spec fn root_key(source: LogSourceView) -> Seq<Seq<char>> {
    match source.kind {
        SourceKind::Application => base_key().push("Application"@).push(source.name),
        SourceKind::Custom(_) => base_key().push(source.name),
    }
}

/// The mark of a verbatim path.
pub open spec fn verbatim_prefix() -> Seq<char> {
    seq!['\\', '\\', '?', '\\']
}

/// A path without the mark of a verbatim path in front of it.
pub open spec fn strip_verbatim(path: Seq<char>) -> Seq<char> {
    if path.len() >= 4 && path.take(4) == verbatim_prefix() {
        path.skip(4)
    } else {
        path
    }
}

/// The four values that tell the operating system where the messages and
/// categories of a source are found.
pub open spec fn key_values(key: Seq<Seq<char>>, exe: Seq<char>) -> Seq<WriteView> {
    seq![
        WriteView::SetValue(key, "EventMessageFile"@, ValueView::Text(exe)),
        WriteView::SetValue(key, "CategoryMessageFile"@, ValueView::Text(exe)),
        WriteView::SetValue(key, "CategoryCount"@, ValueView::Dword(CATEGORY_COUNT)),
        WriteView::SetValue(key, "TypesSupported"@, ValueView::Dword(TYPES_SUPPORTED)),
    ]
}

/// The writes that make a channel: its key and its two settings.
pub open spec fn channel_writes(channel: Seq<Seq<char>>) -> Seq<WriteView> {
    seq![
        WriteView::CreateKey(channel),
        WriteView::SetValue(channel, "AutoBackupLogFiles"@, ValueView::Dword(0)),
        WriteView::SetValue(channel, "MaxSize"@, ValueView::Dword(MAX_SIZE)),
    ]
}

/// The writes that make the key of one source with its four values.
pub open spec fn source_writes(key: Seq<Seq<char>>, exe: Seq<char>) -> Seq<WriteView> {
    seq![WriteView::CreateKey(key)] + key_values(key, exe)
}

/// The writes that make the keys of `sources` below `channel`, in their
/// order.
pub open spec fn sub_source_writes(
    channel: Seq<Seq<char>>,
    exe: Seq<char>,
    sources: Seq<Seq<char>>,
) -> Seq<WriteView>
    decreases sources.len(),
{
    if sources.len() == 0 {
        Seq::empty()
    } else {
        sub_source_writes(channel, exe, sources.drop_last()) + source_writes(
            channel.push(sources.last()),
            exe,
        )
    }
}

/// Whether the registry holds all that the source `source` of the channel
/// needs: the channel with its two settings, the key of the channel's own
/// source `name`, and the key of `source`.
pub open spec fn provisioned(
    registry: RegistryView,
    channel: Seq<Seq<char>>,
    name: Seq<char>,
    source: Seq<char>,
) -> bool {
    &&& registry.keys.contains(channel)
    &&& registry.keys.contains(channel.push(name))
    &&& registry.keys.contains(channel.push(source))
    &&& has_value(registry, channel, "AutoBackupLogFiles"@)
    &&& has_value(registry, channel, "MaxSize"@)
}

/// Whether the registry holds all that each of `sources` needs.
pub open spec fn all_provisioned(
    registry: RegistryView,
    channel: Seq<Seq<char>>,
    name: Seq<char>,
    sources: Seq<Seq<char>>,
) -> bool {
    forall|i: int| 0 <= i < sources.len() ==> provisioned(registry, channel, name, #[trigger] sources[i])
}

/// The sources other than `name` that the registry lacks something for,
/// each once, in the order of `sources`.
pub open spec fn pending(
    registry: RegistryView,
    channel: Seq<Seq<char>>,
    name: Seq<char>,
    sources: Seq<Seq<char>>,
) -> Seq<Seq<char>>
    decreases sources.len(),
{
    if sources.len() == 0 {
        Seq::empty()
    } else {
        let earlier = pending(registry, channel, name, sources.drop_last());
        let source = sources.last();
        if source != name && !provisioned(registry, channel, name, source) && !earlier.contains(
            source,
        ) {
            earlier.push(source)
        } else {
            earlier
        }
    }
}

/// The writes that registering `source` still has to make in `registry`,
/// with `exe` as the file of its messages.
///
/// A source of the application channel that has its key needs nothing. A
/// channel whose sources are all provisioned needs nothing. Any other
/// channel is made once, with its two settings, then the key of its own
/// source, then the key of each source that lacks something.
pub open spec fn register_writes(
    source: LogSourceView,
    exe: Seq<char>,
    registry: RegistryView,
) -> Seq<WriteView> {
    let root = root_key(source);
    match source.kind {
        SourceKind::Application => if registry.keys.contains(root) {
            Seq::empty()
        } else {
            source_writes(root, exe)
        },
        SourceKind::Custom(sources) => if all_provisioned(registry, root, source.name, sources) {
            Seq::empty()
        } else {
            channel_writes(root) + sub_source_writes(
                root,
                exe,
                seq![source.name] + pending(registry, root, source.name, sources),
            )
        },
    }
}

/// The names that registering `source` hands to the operating system: its
/// own, then those of its sources.
pub open spec fn names_of(source: LogSourceView) -> Seq<Seq<char>> {
    match source.kind {
        SourceKind::Application => seq![source.name],
        SourceKind::Custom(sources) => seq![source.name] + sources,
    }
}

/// The position of the terminator in the first of `names` that the
/// operating system's encoding refuses, if there is one.
pub open spec fn name_fault(names: Seq<Seq<char>>) -> Option<int>
    decreases names.len(),
{
    if names.len() == 0 {
        None
    } else {
        match wide_encoding(names[0]) {
            Err(at) => Some(at),
            Ok(_) => name_fault(names.drop_first()),
        }
    }
}

/// What registering `source` comes to: the writes to make, or the reason
/// why none can be made. A source with a name that cannot be that of one key
/// is refused as the operating system refuses a name that is not well
/// formed.
pub open spec fn register_result(
    source: LogSourceView,
    exe: ExeLookupView,
    registry: RegistryView,
) -> Result<Seq<WriteView>, RegistryError> {
    match exe {
        ExeLookupView::Failed(code) => Err(RegistryError::SystemError(code)),
        ExeLookupView::NotText => Err(RegistryError::InvalidExePath),
        ExeLookupView::Found(path) => match name_fault(names_of(source)) {
            Some(at) => Err(RegistryError::StrConvertError(at as usize)),
            None => if valid_source(source) {
                Ok(register_writes(source, strip_verbatim(path), registry))
            } else {
                Err(RegistryError::KeyError(INVALID_NAME))
            },
        },
    }
}

/// What deregistering `source` comes to: the key to remove with all below
/// it, or the reason why nothing can be removed. A source with a name that
/// cannot be that of one key is refused, so that no key is named but one of
/// the source's own.
pub open spec fn deregister_result(source: LogSourceView) -> Result<Seq<Seq<char>>, RegistryError> {
    match wide_encoding(source.name) {
        Err(at) => Err(RegistryError::StrConvertError(at as usize)),
        Ok(_) => if valid_source(source) {
            Ok(root_key(source))
        } else {
            Err(RegistryError::KeyError(INVALID_NAME))
        },
    }
}

/// One question to the registry: whether a key exists, or a value of a key.
#[derive(Debug, Clone, PartialEq, Eq)]
pub enum Probe {
    Key(KeyPath),
    Value(KeyPath, String),
}

/// One question to the registry, as mathematics.
pub enum ProbeView {
    Key(Seq<Seq<char>>),
    Value(Seq<Seq<char>>, Seq<char>),
}

impl View for Probe {
    type V = ProbeView;

    open spec fn view(&self) -> ProbeView {
        match self {
            Probe::Key(key) => ProbeView::Key(key@),
            Probe::Value(key, name) => ProbeView::Value(key@, name@),
        }
    }
}

/// The questions that a list of probes stands for.
pub open spec fn probes(list: Seq<Probe>) -> Seq<ProbeView> {
    list.map_values(|p: Probe| p@)
}

/// The answer of a registry to one question.
pub open spec fn found(registry: RegistryView, probe: ProbeView) -> bool {
    match probe {
        ProbeView::Key(key) => registry.keys.contains(key),
        ProbeView::Value(key, name) => has_value(registry, key, name),
    }
}

/// The questions about the keys of `sources` below `channel`.
pub open spec fn source_probes(channel: Seq<Seq<char>>, sources: Seq<Seq<char>>) -> Seq<ProbeView> {
    sources.map_values(|source: Seq<char>| ProbeView::Key(channel.push(source)))
}

/// The questions whose answers decide what registering `source` has to
/// write.
pub open spec fn register_probes(source: LogSourceView) -> Seq<ProbeView> {
    let root = root_key(source);
    match source.kind {
        SourceKind::Application => seq![ProbeView::Key(root)],
        SourceKind::Custom(sources) => seq![
            ProbeView::Key(root),
            ProbeView::Value(root, "AutoBackupLogFiles"@),
            ProbeView::Value(root, "MaxSize"@),
            ProbeView::Key(root.push(source.name)),
        ] + source_probes(root, sources),
    }
}

/// Whether the names of a source can all be those of keys.
pub open spec fn valid_source(source: LogSourceView) -> bool {
    forall|i: int| 0 <= i < names_of(source).len() ==> valid_key_name(#[trigger] names_of(source)[i])
}

/// The path of an executable without the mark of a verbatim path.
pub fn normalize_exe_path(path: &str) -> (clean: String)
    ensures
        clean@ == strip_verbatim(path@),
{
    let n = path.unicode_len();
    if n >= 4 && path.get_char(0) == '\\' && path.get_char(1) == '\\' && path.get_char(2) == '?'
        && path.get_char(3) == '\\' {
        assert(path@.take(4) =~= verbatim_prefix());
        assert(path@.skip(4) =~= path@.subrange(4, n as int));
        path.substring_char(4, n).to_owned()
    } else {
        assert(path@.len() >= 4 ==> path@.take(4) != verbatim_prefix()) by {
            if path@.len() >= 4 {
                assert(path@.take(4)[0] == path@[0]);
                assert(path@.take(4)[1] == path@[1]);
                assert(path@.take(4)[2] == path@[2]);
                assert(path@.take(4)[3] == path@[3]);
            }
        }
        path.to_owned()
    }
}

/// The key under which the operating system keeps its event logs.
pub fn base_path() -> (path: KeyPath)
    ensures
        path@ == base_key(),
{
    let path = KeyPath::new().child("SYSTEM").child("CurrentControlSet").child("Services").child(
        "EventLog",
    );
    assert(path@ =~= base_key());
    path
}

fn push_write(plan: &mut Vec<RegistryWrite>, write: RegistryWrite)
    ensures
        writes(final(plan)@) == writes(old(plan)@).push(write@),
{
    plan.push(write);
    assert(writes(plan@) =~= writes(old(plan)@).push(write@));
}

fn push_all(plan: &mut Vec<RegistryWrite>, more: Vec<RegistryWrite>)
    ensures
        writes(final(plan)@) == writes(old(plan)@) + writes(more@),
{
    let mut more = more;
    let ghost added = more@;
    plan.append(&mut more);
    assert(writes(plan@) =~= writes(old(plan)@) + writes(added));
}

fn check_name(name: &str) -> (checked: Result<(), RegistryError>)
    ensures
        match wide_encoding(name@) {
            Ok(_) => checked == Ok::<(), RegistryError>(()),
            Err(at) => checked == Err::<(), RegistryError>(
                RegistryError::StrConvertError(at as usize),
            ),
        },
{
    match to_wide(name) {
        Ok(_) => Ok(()),
        Err(at) => Err(RegistryError::StrConvertError(at)),
    }
}

fn invalid_name() -> (error: RegistryError)
    ensures
        error == RegistryError::KeyError(INVALID_NAME),
{
    proof {
        lemma_invalid_name_code();
    }
    map_key_error(to_hresult(ERROR_INVALID_NAME))
}

fn contains_text(list: &Vec<String>, text: &str) -> (found: bool)
    ensures
        found == texts(list@).contains(text@),
{
    let mut i: usize = 0;
    while i < list.len()
        invariant
            i <= list@.len(),
            forall|j: int| 0 <= j < i ==> texts(list@)[j] != text@,
        decreases list@.len() - i,
    {
        if str_eq(list[i].as_str(), text) {
            assert(texts(list@)[i as int] == text@);
            return true;
        }
        i += 1;
    }
    false
}

impl LogSource {
    /// The source `name` of the channel that all applications share.
    pub fn application(name: &str) -> (source: LogSource)
        ensures
            source@.name == name@,
            source@.kind == SourceKind::Application,
    {
        LogSource { source: SourceType::Application, name: name.to_owned() }
    }

    /// The channel `name` with the sources `sources` and, after them, a
    /// source of the channel's own name.
    pub fn custom(name: &str, sources: Option<Vec<&str>>) -> (source: LogSource)
        ensures
            source@.name == name@,
            source@.kind == SourceKind::Custom(
                match sources {
                    Some(given) => given@.map_values(|s: &str| s@),
                    None => Seq::empty(),
                }.push(name@),
            ),
    {
        let mut owned: Vec<String> = Vec::new();
        if let Some(given) = &sources {
            let mut i: usize = 0;
            while i < given.len()
                invariant
                    i <= given@.len(),
                    owned@.len() == i,
                    forall|j: int| 0 <= j < i ==> owned@[j]@ == given@[j]@,
                decreases given@.len() - i,
            {
                owned.push(given[i].to_owned());
                i += 1;
            }
        }
        owned.push(name.to_owned());
        let source = LogSource { source: SourceType::Custom(owned), name: name.to_owned() };
        assert(texts(owned@) =~= match sources {
            Some(given) => given@.map_values(|s: &str| s@),
            None => Seq::empty(),
        }.push(name@));
        source
    }

    /// The name of the source, or of the channel.
    pub fn name(&self) -> (name: &str)
        ensures
            name@ == self@.name,
    {
        self.name.as_str()
    }

    /// Whether the source has a channel of its own.
    pub fn is_custom(&self) -> (custom: bool)
        ensures
            custom == (self@.kind is Custom),
    {
        match &self.source {
            SourceType::Application => false,
            SourceType::Custom(_) => true,
        }
    }

    /// The key that holds all that is registered for the source.
    pub fn root(&self) -> (key: KeyPath)
        ensures
            key@ == root_key(self@),
    {
        match &self.source {
            SourceType::Application => base_path().child("Application").child(self.name.as_str()),
            SourceType::Custom(_) => base_path().child(self.name.as_str()),
        }
    }

    /// Whether the names of the source can all be those of keys.
    pub fn is_valid(&self) -> (valid: bool)
        ensures
            valid == valid_source(self@),
    {
        let ghost names = names_of(self@);
        if !is_valid_key_name(self.name.as_str()) {
            assert(!valid_key_name(names[0]));
            return false;
        }
        match &self.source {
            SourceType::Application => true,
            SourceType::Custom(sources) => {
                let mut i: usize = 0;
                while i < sources.len()
                    invariant
                        i <= sources@.len(),
                        names == seq![self@.name] + texts(sources@),
                        names == names_of(self@),
                        forall|j: int| 0 <= j < i + 1 ==> valid_key_name(#[trigger] names[j]),
                    decreases sources@.len() - i,
                {
                    assert(names[i + 1] == sources@[i as int]@);
                    if !is_valid_key_name(sources[i].as_str()) {
                        return false;
                    }
                    i += 1;
                }
                true
            },
        }
    }

    /// The questions to put to the registry before `register` is called: it
    /// plans from their answers alone.
    pub fn probes(&self) -> (list: Vec<Probe>)
        ensures
            probes(list@) == register_probes(self@),
    {
        let root = self.root();
        let mut list: Vec<Probe> = Vec::new();
        list.push(Probe::Key(root.copy()));
        match &self.source {
            SourceType::Application => {
                assert(probes(list@) =~= register_probes(self@));
            },
            SourceType::Custom(sources) => {
                list.push(Probe::Value(root.copy(), "AutoBackupLogFiles".to_owned()));
                list.push(Probe::Value(root.copy(), "MaxSize".to_owned()));
                list.push(Probe::Key(root.child(self.name.as_str())));
                let ghost head = probes(list@);
                let mut i: usize = 0;
                while i < sources.len()
                    invariant
                        i <= sources@.len(),
                        root@ == root_key(self@),
                        head.len() == 4,
                        probes(list@) == head + source_probes(root@, texts(sources@).take(i as int)),
                    decreases sources@.len() - i,
                {
                    let ghost before = probes(list@);
                    let ghost asked = ProbeView::Key(root@.push(sources@[i as int]@));
                    list.push(Probe::Key(root.child(sources[i].as_str())));
                    assert(probes(list@) =~= before.push(asked));
                    assert(source_probes(root@, texts(sources@).take(i + 1)) =~= source_probes(
                        root@,
                        texts(sources@).take(i as int),
                    ).push(asked));
                    assert(probes(list@) =~= head + source_probes(
                        root@,
                        texts(sources@).take(i + 1),
                    ));
                    i += 1;
                }
                assert(texts(sources@).take(i as int) =~= texts(sources@));
                assert(probes(list@) =~= register_probes(self@));
            },
        }
        list
    }

    /// The writes of the four values that tell the operating system where
    /// the messages and categories of the key `app_key` are found.
    pub fn add_keys(&self, app_key: &KeyPath, exe_path: &str) -> (plan: Vec<RegistryWrite>)
        ensures
            writes(plan@) == key_values(app_key@, exe_path@),
    {
        let mut plan: Vec<RegistryWrite> = Vec::new();
        plan.push(
            RegistryWrite::SetValue(
                app_key.copy(),
                "EventMessageFile".to_owned(),
                RegistryValue::Text(exe_path.to_owned()),
            ),
        );
        plan.push(
            RegistryWrite::SetValue(
                app_key.copy(),
                "CategoryMessageFile".to_owned(),
                RegistryValue::Text(exe_path.to_owned()),
            ),
        );
        plan.push(
            RegistryWrite::SetValue(
                app_key.copy(),
                "CategoryCount".to_owned(),
                RegistryValue::Dword(total_category_count()),
            ),
        );
        plan.push(
            RegistryWrite::SetValue(
                app_key.copy(),
                "TypesSupported".to_owned(),
                RegistryValue::Dword(supported_types()),
            ),
        );
        assert(writes(plan@) =~= key_values(app_key@, exe_path@));
        plan
    }

    fn add_source(&self, plan: &mut Vec<RegistryWrite>, key: &KeyPath, exe_path: &str)
        ensures
            writes(final(plan)@) == writes(old(plan)@) + source_writes(key@, exe_path@),
    {
        push_write(plan, RegistryWrite::CreateKey(key.copy()));
        push_all(plan, self.add_keys(key, exe_path));
        assert(writes(plan@) =~= writes(old(plan)@) + source_writes(key@, exe_path@));
    }

    fn is_provisioned(&self, registry: &RegistryState, channel: &KeyPath, source: &str) -> (done:
        bool)
        ensures
            done == provisioned(registry@, channel@, self@.name, source@),
    {
        registry.has_key(channel) && registry.has_key(&channel.child(self.name.as_str()))
            && registry.has_key(&channel.child(source)) && registry.has_value(
            channel,
            "AutoBackupLogFiles",
        ) && registry.has_value(channel, "MaxSize")
    }

    fn check_names(&self) -> (checked: Result<(), RegistryError>)
        ensures
            match name_fault(names_of(self@)) {
                None => checked == Ok::<(), RegistryError>(()),
                Some(at) => checked == Err::<(), RegistryError>(
                    RegistryError::StrConvertError(at as usize),
                ),
            },
    {
        let ghost names = names_of(self@);
        assert(names[0] == self@.name);
        if let Err(error) = check_name(self.name.as_str()) {
            return Err(error);
        }
        match &self.source {
            SourceType::Application => {
                assert(names.drop_first() =~= Seq::<Seq<char>>::empty());
                assert(name_fault(Seq::<Seq<char>>::empty()) == None::<int>);
                Ok(())
            },
            SourceType::Custom(sources) => {
                assert(names.drop_first() =~= texts(sources@));
                assert(texts(sources@).skip(0) =~= texts(sources@));
                let mut i: usize = 0;
                while i < sources.len()
                    invariant
                        i <= sources@.len(),
                        names == names_of(self@),
                        name_fault(names) == name_fault(texts(sources@).skip(i as int)),
                    decreases sources@.len() - i,
                {
                    let ghost rest = texts(sources@).skip(i as int);
                    assert(rest[0] == sources@[i as int]@);
                    assert(rest.drop_first() =~= texts(sources@).skip(i + 1));
                    if let Err(error) = check_name(sources[i].as_str()) {
                        return Err(error);
                    }
                    i += 1;
                }
                assert(texts(sources@).skip(i as int).len() == 0);
                Ok(())
            },
        }
    }

    /// Plans the registration of the source: the writes that `registry`
    /// still lacks, in the order in which they are to be made.
    ///
    /// Nothing is planned where the running executable could not be named,
    /// where a name holds a terminator before its end, or where a name
    /// cannot be that of one key.
    pub fn register(&self, exe: &ExeLookup, registry: &RegistryState) -> (plan: Result<
        Vec<RegistryWrite>,
        RegistryError,
    >)
        ensures
            match plan {
                Ok(list) => register_result(self@, exe@, registry@) == Ok::<
                    Seq<WriteView>,
                    RegistryError,
                >(writes(list@)),
                Err(error) => register_result(self@, exe@, registry@) == Err::<
                    Seq<WriteView>,
                    RegistryError,
                >(error),
            },
    {
        let exe_path = match exe {
            ExeLookup::Failed(code) => {
                return Err(RegistryError::SystemError(*code));
            },
            ExeLookup::NotText => {
                return Err(RegistryError::InvalidExePath);
            },
            ExeLookup::Found(path) => normalize_exe_path(path.as_str()),
        };
        if let Err(error) = self.check_names() {
            return Err(error);
        }
        if !self.is_valid() {
            return Err(invalid_name());
        }
        let root = self.root();
        let mut plan: Vec<RegistryWrite> = Vec::new();
        assert(writes(plan@) =~= Seq::<WriteView>::empty());
        match &self.source {
            SourceType::Application => {
                if !registry.has_key(&root) {
                    self.add_source(&mut plan, &root, exe_path.as_str());
                    assert(writes(plan@) =~= source_writes(root@, exe_path@));
                }
            },
            SourceType::Custom(sources) => {
                let mut waiting: Vec<String> = Vec::new();
                let mut complete = true;
                let mut i: usize = 0;
                assert(texts(sources@).take(0) =~= Seq::<Seq<char>>::empty());
                assert(texts(waiting@) =~= Seq::<Seq<char>>::empty());
                while i < sources.len()
                    invariant
                        i <= sources@.len(),
                        root@ == root_key(self@),
                        complete == all_provisioned(
                            registry@,
                            root@,
                            self@.name,
                            texts(sources@).take(i as int),
                        ),
                        texts(waiting@) == pending(
                            registry@,
                            root@,
                            self@.name,
                            texts(sources@).take(i as int),
                        ),
                    decreases sources@.len() - i,
                {
                    let source = sources[i].as_str();
                    let ghost seen = texts(sources@).take(i as int);
                    let ghost next = texts(sources@).take(i + 1);
                    assert(next.drop_last() =~= seen);
                    assert(next.last() == source@);
                    let done = self.is_provisioned(registry, &root, source);
                    proof {
                        if complete && done {
                            assert forall|j: int| 0 <= j < next.len() implies provisioned(
                                registry@,
                                root@,
                                self@.name,
                                #[trigger] next[j],
                            ) by {
                                if j < seen.len() {
                                    assert(next[j] == seen[j]);
                                }
                            }
                        } else if !done {
                            assert(!provisioned(registry@, root@, self@.name, next[i as int]));
                        } else {
                            let j = choose|j: int|
                                0 <= j < seen.len() && !provisioned(
                                    registry@,
                                    root@,
                                    self@.name,
                                    #[trigger] seen[j],
                                );
                            assert(next[j] == seen[j]);
                        }
                    }
                    if !done {
                        complete = false;
                        if !str_eq(source, self.name.as_str()) && !contains_text(&waiting, source) {
                            waiting.push(source.to_owned());
                            assert(texts(waiting@) =~= pending(
                                registry@,
                                root@,
                                self@.name,
                                seen,
                            ).push(source@));
                        }
                    }
                    i += 1;
                }
                assert(texts(sources@).take(i as int) =~= texts(sources@));
                if !complete {
                    push_write(&mut plan, RegistryWrite::CreateKey(root.copy()));
                    push_write(
                        &mut plan,
                        RegistryWrite::SetValue(
                            root.copy(),
                            "AutoBackupLogFiles".to_owned(),
                            RegistryValue::Dword(0),
                        ),
                    );
                    push_write(
                        &mut plan,
                        RegistryWrite::SetValue(
                            root.copy(),
                            "MaxSize".to_owned(),
                            RegistryValue::Dword(MAX_SIZE),
                        ),
                    );
                    assert(writes(plan@) =~= channel_writes(root@));
                    let ghost targets = seq![self@.name] + texts(waiting@);
                    self.add_source(&mut plan, &root.child(self.name.as_str()), exe_path.as_str());
                    assert(targets.take(1).drop_last() =~= Seq::<Seq<char>>::empty());
                    assert(targets.take(1).last() == self@.name);
                    assert(sub_source_writes(root@, exe_path@, Seq::<Seq<char>>::empty())
                        =~= Seq::<WriteView>::empty());
                    assert(sub_source_writes(root@, exe_path@, targets.take(1)) =~= source_writes(
                        root@.push(self@.name),
                        exe_path@,
                    ));
                    assert(writes(plan@) =~= channel_writes(root@) + sub_source_writes(
                        root@,
                        exe_path@,
                        targets.take(1),
                    ));
                    let mut k: usize = 0;
                    while k < waiting.len()
                        invariant
                            k <= waiting@.len(),
                            targets == seq![self@.name] + texts(waiting@),
                            writes(plan@) == channel_writes(root@) + sub_source_writes(
                                root@,
                                exe_path@,
                                targets.take(k + 1),
                            ),
                        decreases waiting@.len() - k,
                    {
                        assert(targets.take(k + 2).drop_last() =~= targets.take(k + 1));
                        assert(targets.take(k + 2).last() == waiting@[k as int]@);
                        self.add_source(
                            &mut plan,
                            &root.child(waiting[k].as_str()),
                            exe_path.as_str(),
                        );
                        assert(writes(plan@) =~= channel_writes(root@) + sub_source_writes(
                            root@,
                            exe_path@,
                            targets.take(k + 2),
                        ));
                        k += 1;
                    }
                    assert(targets.take(k + 1) =~= targets);
                }
            },
        }
        Ok(plan)
    }

    /// Names the key to remove, with all below it, to deregister the source.
    /// The source is used up. No key is named for a source with a name that
    /// holds a terminator before its end or cannot be that of one key.
    pub fn deregister(self) -> (target: Result<KeyPath, RegistryError>)
        ensures
            match target {
                Ok(key) => deregister_result(self@) == Ok::<Seq<Seq<char>>, RegistryError>(key@),
                Err(error) => deregister_result(self@) == Err::<Seq<Seq<char>>, RegistryError>(
                    error,
                ),
            },
    {
        if let Err(error) = check_name(self.name.as_str()) {
            return Err(error);
        }
        if !self.is_valid() {
            return Err(invalid_name());
        }
        Ok(self.root())
    }
}

} // verus!
