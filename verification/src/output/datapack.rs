//! The datapack that code generation produces: functions and function tags
//! by resource location.
pub mod files;

use vstd::prelude::*;

use crate::strutil::{str_eq, string_views};

verus! {

/// A whole datapack: its functions and its function tags, each under a
/// resource location that no other entry of the same list has
#[derive(Debug, Clone)]
pub struct Datapack {
    pub functions: Vec<(String, Function)>,
    pub function_tags: Vec<(String, Tag)>,
}

/// The functions of a datapack as locations and commands
pub open spec fn function_views(v: Seq<(String, Function)>) -> Seq<(Seq<char>, Seq<Seq<char>>)> {
    v.map_values(|p: (String, Function)| (p.0@, string_views(p.1.contents@)))
}

/// The function tags of a datapack as locations and function lists
pub open spec fn tag_views(v: Seq<(String, Tag)>) -> Seq<(Seq<char>, Seq<Seq<char>>)> {
    v.map_values(|p: (String, Tag)| (p.0@, string_views(p.1.inner.values@)))
}

/// The index of the first entry under a location
pub open spec fn entry_pos<T>(v: Seq<(Seq<char>, T)>, k: Seq<char>) -> Option<int>
    decreases v.len(),
{
    if v.len() == 0 {
        None
    } else if v[0].0 == k {
        Some(0)
    } else {
        match entry_pos(v.drop_first(), k) {
            Some(i) => Some(i + 1),
            None => None,
        }
    }
}

/// Putting an entry under a location: it replaces the entry already there,
/// or is added at the end
pub open spec fn entry_insert<T>(v: Seq<(Seq<char>, T)>, k: Seq<char>, x: T) -> Seq<(Seq<char>, T)> {
    match entry_pos(v, k) {
        Some(i) => v.update(i, (k, x)),
        None => v.push((k, x)),
    }
}

/// Putting entries under their locations one after another
pub open spec fn entries_insert<T>(v: Seq<(Seq<char>, T)>, es: Seq<(Seq<char>, T)>) -> Seq<(Seq<char>, T)>
    decreases es.len(),
{
    if es.len() == 0 {
        v
    } else {
        entry_insert(entries_insert(v, es.drop_last()), es.last().0, es.last().1)
    }
}

proof fn lemma_entry_pos<T>(v: Seq<(Seq<char>, T)>, k: Seq<char>, i: int)
    requires
        0 <= i <= v.len(),
        forall|q: int| 0 <= q < i ==> v[q].0 != k,
    ensures
        i < v.len() && v[i].0 == k ==> entry_pos(v, k) == Some(i),
        i == v.len() ==> entry_pos(v, k) is None,
    decreases i,
{
    if i > 0 {
        lemma_entry_pos(v.drop_first(), k, i - 1);
    }
}

impl Datapack {
    pub fn new() -> (r: Self)
        ensures
            r.functions@ == Seq::<(String, Function)>::empty(),
            r.function_tags@ == Seq::<(String, Tag)>::empty(),
    {
        Datapack { functions: Vec::new(), function_tags: Vec::new() }
    }

    /// Puts a function under a location, replacing the one already there
    pub fn insert_function(&mut self, id: String, f: Function)
        ensures
            function_views(final(self).functions@) == entry_insert(
                function_views(old(self).functions@),
                id@,
                string_views(f.contents@),
            ),
            final(self).function_tags == old(self).function_tags,
    {
        let ghost before = function_views(self.functions@);
        let ghost k = id@;
        let ghost x = string_views(f.contents@);
        let mut i: usize = 0;
        while i < self.functions.len()
            invariant
                self.functions == old(self).functions,
                self.function_tags == old(self).function_tags,
                before == function_views(self.functions@),
                k == id@,
                x == string_views(f.contents@),
                i <= self.functions@.len(),
                forall|q: int| 0 <= q < i ==> before[q].0 != k,
            decreases self.functions.len() - i,
        {
            assert(before[i as int].0 == self.functions@[i as int].0@);
            if str_eq(self.functions[i].0.as_str(), id.as_str()) {
                proof {
                    lemma_entry_pos(before, k, i as int);
                }
                self.functions.set(i, (id, f));
                assert(function_views(self.functions@) =~= entry_insert(before, k, x));
                return;
            }
            i = i + 1;
        }
        proof {
            lemma_entry_pos(before, k, i as int);
        }
        self.functions.push((id, f));
        assert(function_views(self.functions@) =~= entry_insert(before, k, x));
    }

    /// Puts a function tag under a location, replacing the one already there
    pub fn insert_tag(&mut self, id: String, t: Tag)
        ensures
            tag_views(final(self).function_tags@) == entry_insert(
                tag_views(old(self).function_tags@),
                id@,
                string_views(t.inner.values@),
            ),
            final(self).functions == old(self).functions,
    {
        let ghost before = tag_views(self.function_tags@);
        let ghost k = id@;
        let ghost x = string_views(t.inner.values@);
        let mut i: usize = 0;
        while i < self.function_tags.len()
            invariant
                self.function_tags == old(self).function_tags,
                self.functions == old(self).functions,
                before == tag_views(self.function_tags@),
                k == id@,
                x == string_views(t.inner.values@),
                i <= self.function_tags@.len(),
                forall|q: int| 0 <= q < i ==> before[q].0 != k,
            decreases self.function_tags.len() - i,
        {
            assert(before[i as int].0 == self.function_tags@[i as int].0@);
            if str_eq(self.function_tags[i].0.as_str(), id.as_str()) {
                proof {
                    lemma_entry_pos(before, k, i as int);
                }
                self.function_tags.set(i, (id, t));
                assert(tag_views(self.function_tags@) =~= entry_insert(before, k, x));
                return;
            }
            i = i + 1;
        }
        proof {
            lemma_entry_pos(before, k, i as int);
        }
        self.function_tags.push((id, t));
        assert(tag_views(self.function_tags@) =~= entry_insert(before, k, x));
    }
}

/// The commands of one function, one per line
#[derive(Debug, Clone)]
pub struct Function {
    pub contents: Vec<String>,
}

impl Function {
    pub fn new() -> (r: Self)
        ensures
            r.contents@ == Seq::<String>::empty(),
    {
        Function { contents: Vec::new() }
    }
}

/// A function tag
#[derive(Debug, Clone)]
pub struct Tag {
    pub inner: TagInner,
}

impl Tag {
    pub fn new() -> (r: Self)
        ensures
            r.inner.values@ == Seq::<String>::empty(),
    {
        Tag { inner: TagInner { values: Vec::new() } }
    }
}

/// The contents of a function tag file: the functions that it names
#[derive(Debug, Clone)]
pub struct TagInner {
    pub values: Vec<String>,
}

} // verus!
