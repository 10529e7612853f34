//! Registry keys, values and the writes that provision them.

use crate::text::str_eq;
use vstd::prelude::*;
use vstd::string::{StrSliceExecFns, StringExecFns};

verus! {

/// The texts of a list of strings.
pub open spec fn texts(strings: Seq<String>) -> Seq<Seq<char>> {
    strings.map_values(|s: String| s@)
}

/// Whether `prefix` leads `path`: the key `path` is `prefix` itself or lies
/// below it.
pub open spec fn is_prefix(prefix: Seq<Seq<char>>, path: Seq<Seq<char>>) -> bool {
    prefix.len() <= path.len() && path.take(prefix.len() as int) == prefix
}

/// A path as the operating system writes it: its components with a
/// backslash between them.
pub open spec fn joined(path: Seq<Seq<char>>) -> Seq<char>
    decreases path.len(),
{
    if path.len() == 0 {
        Seq::empty()
    } else if path.len() == 1 {
        path[0]
    } else {
        joined(path.drop_last()) + seq!['\\'] + path.last()
    }
}

/// Whether a name can be that of one key: it is not empty and holds neither
/// the separator of keys nor a terminator.
pub open spec fn valid_key_name(name: Seq<char>) -> bool {
    &&& name.len() > 0
    &&& forall|i: int| 0 <= i < name.len() ==> name[i] != '\\' && name[i] != '\0'
}

/// Whether each component of a path can be the name of one key.
pub open spec fn valid_path(path: Seq<Seq<char>>) -> bool {
    forall|i: int| 0 <= i < path.len() ==> valid_key_name(#[trigger] path[i])
}

/// Whether `name` can be that of one key.
pub fn is_valid_key_name(name: &str) -> (valid: bool)
    ensures
        valid == valid_key_name(name@),
{
    let n = name.unicode_len();
    if n == 0 {
        return false;
    }
    let mut i: usize = 0;
    while i < n
        invariant
            i <= n,
            n == name@.len(),
            forall|j: int| 0 <= j < i ==> name@[j] != '\\' && name@[j] != '\0',
        decreases n - i,
    {
        let c = name.get_char(i);
        if c == '\\' || c == '\0' {
            return false;
        }
        i += 1;
    }
    true
}

/// A path of valid names ends, as the operating system writes it, with its
/// last component, and holds a backslash just before it where it has more
/// components than one.
proof fn lemma_joined_shape(path: Seq<Seq<char>>)
    requires
        valid_path(path),
        path.len() > 0,
    ensures
        joined(path).len() >= path.last().len() > 0,
        joined(path).skip(joined(path).len() - path.last().len()) == path.last(),
        path.len() == 1 ==> joined(path) == path[0],
        path.len() > 1 ==> joined(path).len() > path.last().len() && joined(path)[joined(
            path,
        ).len() - path.last().len() - 1] == '\\' && joined(path).take(
            joined(path).len() - path.last().len() - 1,
        ) == joined(path.drop_last()),
{
    let text = joined(path);
    let last = path.last();
    assert(valid_key_name(path[path.len() - 1]));
    if path.len() == 1 {
        assert(text.skip(0) =~= text);
    } else {
        let front = joined(path.drop_last());
        assert(text == front + seq!['\\'] + last);
        assert(text.skip(text.len() - last.len()) =~= last);
        assert(text.take(text.len() - last.len() - 1) =~= front);
    }
}

/// The way the operating system writes a path of valid names tells the
/// path: no two such paths are written alike.
pub proof fn lemma_joined_is_unambiguous(one: Seq<Seq<char>>, other: Seq<Seq<char>>)
    requires
        valid_path(one),
        valid_path(other),
        joined(one) == joined(other),
    ensures
        one == other,
    decreases one.len(),
{
    let text = joined(one);
    if one.len() == 0 || other.len() == 0 {
        if one.len() > 0 {
            lemma_joined_shape(one);
        }
        if other.len() > 0 {
            lemma_joined_shape(other);
        }
        assert(one =~= other);
    } else {
        lemma_joined_shape(one);
        lemma_joined_shape(other);
        let x = one.last();
        let y = other.last();
        assert(valid_key_name(one[one.len() - 1]));
        assert(valid_key_name(other[other.len() - 1]));
        // The last backslash of the text stands before the last component of
        // either path, so the two components are equally long.
        if x.len() < y.len() {
            if one.len() > 1 {
                let at = text.len() - x.len() - 1;
                assert(text.skip(text.len() - y.len())[at - (text.len() - y.len())] == text[at]);
            } else {
                assert(text.len() == x.len());
            }
            assert(false);
        }
        if y.len() < x.len() {
            if other.len() > 1 {
                let at = text.len() - y.len() - 1;
                assert(text.skip(text.len() - x.len())[at - (text.len() - x.len())] == text[at]);
            } else {
                assert(text.len() == y.len());
            }
            assert(false);
        }
        assert(x == y);
        if one.len() == 1 || other.len() == 1 {
            if one.len() > 1 {
                assert(text[text.len() - x.len() - 1] == '\\');
                assert(false);
            }
            if other.len() > 1 {
                assert(text[text.len() - y.len() - 1] == '\\');
                assert(false);
            }
            assert(one =~= other);
        } else {
            let a = one.drop_last();
            let b = other.drop_last();
            assert forall|i: int| 0 <= i < a.len() implies valid_key_name(#[trigger] a[i]) by {
                assert(a[i] == one[i]);
            }
            assert forall|i: int| 0 <= i < b.len() implies valid_key_name(#[trigger] b[i]) by {
                assert(b[i] == other[i]);
            }
            lemma_joined_is_unambiguous(a, b);
            assert(one =~= a.push(x));
            assert(other =~= b.push(y));
        }
    }
}

/// A key of the registry, named by the keys that lead to it from a root.
#[derive(Debug, Clone, PartialEq, Eq)]
pub struct KeyPath {
    pub components: Vec<String>,
}

impl View for KeyPath {
    type V = Seq<Seq<char>>;

    open spec fn view(&self) -> Seq<Seq<char>> {
        texts(self.components@)
    }
}

impl KeyPath {
    /// The root: a path without components.
    pub fn new() -> (path: KeyPath)
        ensures
            path@ == Seq::<Seq<char>>::empty(),
    {
        let path = KeyPath { components: Vec::new() };
        assert(path@ =~= Seq::<Seq<char>>::empty());
        path
    }

    /// How many components the path has.
    pub fn len(&self) -> (n: usize)
        ensures
            n == self@.len(),
    {
        self.components.len()
    }

    /// The component at `index`.
    pub fn component(&self, index: usize) -> (name: &str)
        requires
            index < self@.len(),
        ensures
            name@ == self@[index as int],
    {
        self.components[index].as_str()
    }

    /// The first `count` components.
    pub fn prefix(&self, count: usize) -> (path: KeyPath)
        requires
            count <= self@.len(),
        ensures
            path@ == self@.take(count as int),
    {
        let mut components: Vec<String> = Vec::new();
        let mut i: usize = 0;
        while i < count
            invariant
                i <= count <= self.components@.len(),
                components@.len() == i,
                forall|j: int| 0 <= j < i ==> components@[j]@ == self.components@[j]@,
            decreases count - i,
        {
            components.push(self.components[i].clone());
            i += 1;
        }
        let path = KeyPath { components };
        assert(path@ =~= self@.take(count as int));
        path
    }

    /// A copy of the path.
    pub fn copy(&self) -> (path: KeyPath)
        ensures
            path@ == self@,
    {
        let path = self.prefix(self.components.len());
        assert(self@.take(self@.len() as int) =~= self@);
        path
    }

    /// The key `name` below this one.
    pub fn child(&self, name: &str) -> (path: KeyPath)
        ensures
            path@ == self@.push(name@),
    {
        let mut path = self.copy();
        path.components.push(name.to_owned());
        assert(path@ =~= self@.push(name@));
        path
    }

    /// The path as the operating system writes it.
    pub fn joined(&self) -> (text: String)
        ensures
            text@ == joined(self@),
    {
        let mut text = String::new();
        let mut i: usize = 0;
        assert(self@.take(0) =~= Seq::<Seq<char>>::empty());
        while i < self.components.len()
            invariant
                i <= self.components@.len(),
                text@ == joined(self@.take(i as int)),
            decreases self.components@.len() - i,
        {
            let ghost next = self@.take(i + 1);
            assert(next.drop_last() =~= self@.take(i as int));
            assert(next.last() == self.components@[i as int]@);
            if i > 0 {
                proof {
                    reveal_strlit("\\");
                }
                assert("\\"@ =~= seq!['\\']);
                text.append("\\");
            } else {
                assert(text@ =~= Seq::<char>::empty());
                assert(next[0] == self.components@[0]@);
            }
            text.append(self.components[i].as_str());
            assert(text@ =~= joined(next));
            i += 1;
        }
        assert(self@.take(i as int) =~= self@);
        text
    }

    /// Whether `other` names the same key.
    pub fn same(&self, other: &KeyPath) -> (same: bool)
        ensures
            same == (self@ == other@),
    {
        assert(other@.take(other@.len() as int) =~= other@);
        self.components.len() == other.components.len() && self.is_prefix_of(other)
    }

    /// Whether `other` is this key or lies below it.
    pub fn is_prefix_of(&self, other: &KeyPath) -> (leads: bool)
        ensures
            leads == is_prefix(self@, other@),
    {
        let n = self.components.len();
        if n > other.components.len() {
            return false;
        }
        let mut i: usize = 0;
        while i < n
            invariant
                i <= n,
                n == self@.len(),
                n <= other@.len(),
                forall|j: int| 0 <= j < i ==> self@[j] == other@[j],
            decreases n - i,
        {
            if !str_eq(self.components[i].as_str(), other.components[i].as_str()) {
                assert(other@.take(n as int)[i as int] != self@[i as int]);
                return false;
            }
            i += 1;
        }
        assert(other@.take(n as int) =~= self@);
        true
    }
}

/// What a value of the registry holds.
#[derive(Debug, Clone, PartialEq, Eq)]
pub enum RegistryValue {
    /// A text.
    Text(String),
    /// A number of 32 bits.
    Dword(u32),
}

/// What a value of the registry holds, as mathematics.
pub enum ValueView {
    Text(Seq<char>),
    Dword(u32),
}

impl View for RegistryValue {
    type V = ValueView;

    open spec fn view(&self) -> ValueView {
        match self {
            RegistryValue::Text(text) => ValueView::Text(text@),
            RegistryValue::Dword(number) => ValueView::Dword(*number),
        }
    }
}

impl RegistryValue {
    /// A copy of the value.
    pub fn copy(&self) -> (value: RegistryValue)
        ensures
            value@ == self@,
    {
        match self {
            RegistryValue::Text(text) => RegistryValue::Text(text.clone()),
            RegistryValue::Dword(number) => RegistryValue::Dword(*number),
        }
    }
}

/// One change to the registry.
#[derive(Debug, Clone, PartialEq, Eq)]
pub enum RegistryWrite {
    /// Create the key, and the keys that lead to it, unless they exist.
    CreateKey(KeyPath),
    /// Give the value `name` of the key this content.
    SetValue(KeyPath, String, RegistryValue),
}

/// One change to the registry, as mathematics.
pub enum WriteView {
    CreateKey(Seq<Seq<char>>),
    SetValue(Seq<Seq<char>>, Seq<char>, ValueView),
}

impl View for RegistryWrite {
    type V = WriteView;

    open spec fn view(&self) -> WriteView {
        match self {
            RegistryWrite::CreateKey(key) => WriteView::CreateKey(key@),
            RegistryWrite::SetValue(key, name, value) => WriteView::SetValue(key@, name@, value@),
        }
    }
}

/// The changes that a list of writes stands for.
pub open spec fn writes(list: Seq<RegistryWrite>) -> Seq<WriteView> {
    list.map_values(|w: RegistryWrite| w@)
}

} // verus!
