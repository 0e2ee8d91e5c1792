//! A question: named tag groups, each an ordered set of tags, and named
//! text sections kept in display order.
use crate::collections::{
    has_name, section_map_get, section_map_insert, section_map_names, section_map_new,
    section_map_shift_remove, section_seq, tag_seq, tag_set_insert,
    tag_set_new, tag_set_shift_remove, tag_set_to_vec,
};
use crate::section::Section;
use vstd::prelude::*;

verus! {

/// One tag group of a question: its name and its tags.
struct GroupEntry {
    name: String,
    tags: indexmap::IndexSet<String>,
}

/// No two entries carry the same group name.
spec fn names_unique(gs: Seq<GroupEntry>) -> bool {
    forall|i: int, j: int|
        0 <= i < gs.len() && 0 <= j < gs.len() && i != j ==> gs[i].name@ != gs[j].name@
}

/// Each entry's tag set holds every tag once.
spec fn tags_unique(gs: Seq<GroupEntry>) -> bool {
    forall|i: int| 0 <= i < gs.len() ==> (#[trigger] tag_seq(gs[i].tags)).no_duplicates()
}

/// The entries read as a map from group name to tags.
spec fn entries_map(gs: Seq<GroupEntry>) -> Map<Seq<char>, Seq<Seq<char>>> {
    Map::new(
        |k: Seq<char>| exists|i: int| 0 <= i < gs.len() && gs[i].name@ == k,
        |k: Seq<char>| tag_seq(gs[choose|i: int| 0 <= i < gs.len() && gs[i].name@ == k].tags),
    )
}

/// No two sections carry the same name.
pub open spec fn section_names_unique(s: Seq<(Seq<char>, Option<Seq<char>>)>) -> bool {
    forall|i: int, j: int| 0 <= i < s.len() && 0 <= j < s.len() && i != j ==> s[i].0 != s[j].0
}

/// The groups `m` after adding an empty group `name`, unless one exists.
pub open spec fn with_group(m: Map<Seq<char>, Seq<Seq<char>>>, name: Seq<char>) -> Map<
    Seq<char>,
    Seq<Seq<char>>,
> {
    if m.contains_key(name) {
        m
    } else {
        m.insert(name, Seq::<Seq<char>>::empty())
    }
}

/// The groups `m` after putting `tag` into group `group`, if that group
/// exists and lacks the tag.
pub open spec fn with_tag(m: Map<Seq<char>, Seq<Seq<char>>>, group: Seq<char>, tag: Seq<char>) -> Map<
    Seq<char>,
    Seq<Seq<char>>,
> {
    if m.contains_key(group) && !m[group].contains(tag) {
        m.insert(group, m[group].push(tag))
    } else {
        m
    }
}

/// The groups `m` after moving the tags of `from` to `to`, if `from`
/// exists.
pub open spec fn renamed(m: Map<Seq<char>, Seq<Seq<char>>>, from: Seq<char>, to: Seq<char>) -> Map<
    Seq<char>,
    Seq<Seq<char>>,
> {
    if m.contains_key(from) {
        m.remove(from).insert(to, m[from])
    } else {
        m
    }
}

/// The two sections every new question starts with, in display order.
pub open spec fn default_sections() -> Seq<(Seq<char>, Option<Seq<char>>)> {
    seq![("Question"@, None), ("Mark Scheme"@, None)]
}

proof fn lemma_lookup(gs: Seq<GroupEntry>, i: int)
    requires
        names_unique(gs),
        0 <= i < gs.len(),
    ensures
        entries_map(gs).contains_key(gs[i].name@),
        entries_map(gs)[gs[i].name@] == tag_seq(gs[i].tags),
{
    let k = gs[i].name@;
    assert(exists|j: int| 0 <= j < gs.len() && gs[j].name@ == k);
    let j = choose|j: int| 0 <= j < gs.len() && gs[j].name@ == k;
    assert(j == i);
}

proof fn lemma_absent(gs: Seq<GroupEntry>, k: Seq<char>)
    requires
        forall|i: int| 0 <= i < gs.len() ==> gs[i].name@ != k,
    ensures
        !entries_map(gs).contains_key(k),
{
}

proof fn lemma_push(gs: Seq<GroupEntry>, e: GroupEntry)
    requires
        names_unique(gs),
        !entries_map(gs).contains_key(e.name@),
    ensures
        names_unique(gs.push(e)),
        entries_map(gs.push(e)) == entries_map(gs).insert(e.name@, tag_seq(e.tags)),
{
    let ng = gs.push(e);
    assert forall|i: int| 0 <= i < gs.len() implies gs[i].name@ != e.name@ by {
        lemma_lookup(gs, i);
    }
    assert(names_unique(ng));
    let m = entries_map(gs).insert(e.name@, tag_seq(e.tags));
    assert forall|k: Seq<char>| #[trigger] entries_map(ng).contains_key(k) == m.contains_key(k) by {
        if m.contains_key(k) {
            if k == e.name@ {
                lemma_lookup(ng, gs.len() as int);
            } else {
                let i = choose|i: int| 0 <= i < gs.len() && gs[i].name@ == k;
                lemma_lookup(ng, i);
            }
        } else {
            assert forall|i: int| 0 <= i < ng.len() implies ng[i].name@ != k by {
                if i < gs.len() {
                    lemma_lookup(gs, i);
                }
            }
        }
    }
    assert forall|k: Seq<char>| #[trigger] m.contains_key(k) implies entries_map(ng)[k] == m[k] by {
        if k == e.name@ {
            lemma_lookup(ng, gs.len() as int);
        } else {
            let i = choose|i: int| 0 <= i < gs.len() && gs[i].name@ == k;
            lemma_lookup(ng, i);
            lemma_lookup(gs, i);
        }
    }
    assert(entries_map(ng) =~= m);
}

proof fn lemma_update(gs: Seq<GroupEntry>, i: int, e: GroupEntry)
    requires
        names_unique(gs),
        0 <= i < gs.len(),
        e.name@ == gs[i].name@,
    ensures
        names_unique(gs.update(i, e)),
        entries_map(gs.update(i, e)) == entries_map(gs).insert(e.name@, tag_seq(e.tags)),
{
    let ng = gs.update(i, e);
    assert(names_unique(ng));
    let m = entries_map(gs).insert(e.name@, tag_seq(e.tags));
    lemma_lookup(gs, i);
    assert forall|k: Seq<char>| #[trigger] entries_map(ng).contains_key(k) == m.contains_key(k) by {
        if m.contains_key(k) {
            if k == e.name@ {
                lemma_lookup(ng, i);
            } else {
                let j = choose|j: int| 0 <= j < gs.len() && gs[j].name@ == k;
                lemma_lookup(ng, j);
            }
        } else {
            lemma_absent(gs, k);
            assert forall|j: int| 0 <= j < ng.len() implies ng[j].name@ != k by {
                if j != i {
                    assert(ng[j] == gs[j]);
                }
            }
        }
    }
    assert forall|k: Seq<char>| #[trigger] m.contains_key(k) implies entries_map(ng)[k] == m[k] by {
        if k == e.name@ {
            lemma_lookup(ng, i);
        } else {
            let j = choose|j: int| 0 <= j < gs.len() && gs[j].name@ == k;
            lemma_lookup(ng, j);
            lemma_lookup(gs, j);
        }
    }
    assert(entries_map(ng) =~= m);
}

proof fn lemma_remove(gs: Seq<GroupEntry>, i: int)
    requires
        names_unique(gs),
        0 <= i < gs.len(),
    ensures
        names_unique(gs.remove(i)),
        entries_map(gs.remove(i)) == entries_map(gs).remove(gs[i].name@),
{
    let ng = gs.remove(i);
    assert forall|a: int, b: int|
        0 <= a < ng.len() && 0 <= b < ng.len() && a != b implies ng[a].name@ != ng[b].name@ by {
        let oa = if a < i { a } else { a + 1 };
        let ob = if b < i { b } else { b + 1 };
        assert(ng[a] == gs[oa]);
        assert(ng[b] == gs[ob]);
    }
    let m = entries_map(gs).remove(gs[i].name@);
    assert forall|k: Seq<char>| #[trigger] entries_map(ng).contains_key(k) == m.contains_key(k) by {
        if m.contains_key(k) {
            let j = choose|j: int| 0 <= j < gs.len() && gs[j].name@ == k;
            assert(j != i);
            let nj = if j < i { j } else { j - 1 };
            assert(ng[nj] == gs[j]);
            lemma_lookup(ng, nj);
        } else {
            assert forall|a: int| 0 <= a < ng.len() implies ng[a].name@ != k by {
                let oa = if a < i { a } else { a + 1 };
                assert(ng[a] == gs[oa]);
                if k != gs[i].name@ {
                    lemma_lookup(gs, oa);
                }
            }
        }
    }
    assert forall|k: Seq<char>| #[trigger] m.contains_key(k) implies entries_map(ng)[k] == m[k] by {
        let j = choose|j: int| 0 <= j < gs.len() && gs[j].name@ == k;
        assert(j != i);
        let nj = if j < i { j } else { j - 1 };
        assert(ng[nj] == gs[j]);
        lemma_lookup(ng, nj);
        lemma_lookup(gs, j);
    }
    assert(entries_map(ng) =~= m);
}

/// A numbered unit of content: tag groups (group names unique, tags unique
/// within a group) and text sections (names unique, order significant).
pub struct Question {
    groups: Vec<GroupEntry>,
    sections: indexmap::IndexMap<String, Section>,
}

impl Question {
    /// Group and section names are unique, and so are the tags of a group.
    pub closed spec fn wf(&self) -> bool {
        &&& names_unique(self.groups@)
        &&& tags_unique(self.groups@)
        &&& section_names_unique(section_seq(self.sections))
    }

    /// Each group name with its tags in insertion order.
    pub closed spec fn group_map(&self) -> Map<Seq<char>, Seq<Seq<char>>> {
        entries_map(self.groups@)
    }

    /// Each section name with its text, in display order.
    pub closed spec fn section_entries(&self) -> Seq<(Seq<char>, Option<Seq<char>>)> {
        section_seq(self.sections)
    }

    /// In a well-formed question every group holds each tag once, and no
    /// two sections share a name.
    pub proof fn lemma_unique(&self)
        requires
            self.wf(),
        ensures
            forall|g: Seq<char>| #[trigger]
                self.group_map().contains_key(g) ==> self.group_map()[g].no_duplicates(),
            section_names_unique(self.section_entries()),
    {
        assert forall|g: Seq<char>| #[trigger] self.group_map().contains_key(g) implies self.group_map()[g].no_duplicates() by {
            let i = choose|i: int| 0 <= i < self.groups@.len() && self.groups@[i].name@ == g;
            lemma_lookup(self.groups@, i);
            assert(tag_seq(self.groups@[i].tags).no_duplicates());
        }
    }

    /// The index of the group entry named `name`.
    fn find_group(&self, name: &str) -> (r: Option<usize>)
        requires
            self.wf(),
        ensures
            r is None ==> !self.group_map().contains_key(name@),
            r is None ==> forall|i: int| 0 <= i < self.groups@.len() ==> self.groups@[i].name@ != name@,
            r is Some ==> r->0 < self.groups@.len() && self.groups@[r->0 as int].name@ == name@,
    {
        let key = name.to_owned();
        let mut i: usize = 0;
        while i < self.groups.len()
            invariant
                i <= self.groups@.len(),
                key@ == name@,
                forall|j: int| 0 <= j < i ==> self.groups@[j].name@ != name@,
            decreases self.groups@.len() - i,
        {
            if self.groups[i].name == key {
                return Some(i);
            }
            i = i + 1;
        }
        proof {
            lemma_absent(self.groups@, name@);
        }
        None
    }

    /// A question with no groups and no sections.
    pub fn new() -> (r: Question)
        ensures
            r.wf(),
            r.group_map() == Map::<Seq<char>, Seq<Seq<char>>>::empty(),
            r.section_entries() == Seq::<(Seq<char>, Option<Seq<char>>)>::empty(),
    {
        let r = Question { groups: Vec::new(), sections: section_map_new() };
        assert(r.group_map() =~= Map::<Seq<char>, Seq<Seq<char>>>::empty());
        r
    }

    /// Adds an empty group named `name`; a group already named so is kept
    /// with its tags.
    pub fn add_group(&mut self, name: &str)
        requires
            old(self).wf(),
        ensures
            final(self).wf(),
            final(self).group_map() == with_group(old(self).group_map(), name@),
            final(self).section_entries() == old(self).section_entries(),
    {
        if self.find_group(name).is_none() {
            let e = GroupEntry { name: name.to_owned(), tags: tag_set_new() };
            proof {
                lemma_push(self.groups@, e);
            }
            self.groups.push(e);
        }
    }

    /// Moves the tags of group `old_name` to `new_name`, replacing any tags
    /// already there, and drops `old_name`; `None` when there is no group
    /// `old_name`.
    pub fn rename_group(&mut self, old_name: &str, new_name: &str) -> (r: Option<()>)
        requires
            old(self).wf(),
        ensures
            final(self).wf(),
            r is Some <==> old(self).group_map().contains_key(old_name@),
            final(self).group_map() == renamed(old(self).group_map(), old_name@, new_name@),
            final(self).section_entries() == old(self).section_entries(),
    {
        match self.find_group(old_name) {
            None => None,
            Some(i) => {
                proof {
                    lemma_lookup(self.groups@, i as int);
                    lemma_remove(self.groups@, i as int);
                }
                let e = self.groups.remove(i);
                let moved = e.tags;
                match self.find_group(new_name) {
                    Some(j) => {
                        let old_entry = self.groups.remove(j);
                        let ne = GroupEntry { name: old_entry.name, tags: moved };
                        self.groups.insert(j, ne);
                        assert(self.groups@ =~= old(self).groups@.remove(i as int).update(j as int, ne));
                        proof {
                            lemma_update(old(self).groups@.remove(i as int), j as int, ne);
                        }
                    },
                    None => {
                        let ne = GroupEntry { name: new_name.to_owned(), tags: moved };
                        proof {
                            lemma_push(self.groups@, ne);
                        }
                        self.groups.push(ne);
                    },
                }
                Some(())
            },
        }
    }

    /// Drops group `name` with its tags; nothing happens when it is absent.
    pub fn remove_group(&mut self, name: &str)
        requires
            old(self).wf(),
        ensures
            final(self).wf(),
            final(self).group_map() == old(self).group_map().remove(name@),
            final(self).section_entries() == old(self).section_entries(),
    {
        match self.find_group(name) {
            None => {
                assert(self.group_map() =~= self.group_map().remove(name@));
            },
            Some(i) => {
                proof {
                    lemma_remove(self.groups@, i as int);
                }
                self.groups.remove(i);
            },
        }
    }

    /// Whether there is a group named `name`.
    pub fn has_group(&self, name: &str) -> (r: bool)
        requires
            self.wf(),
        ensures
            r == self.group_map().contains_key(name@),
    {
        match self.find_group(name) {
            None => false,
            Some(i) => {
                proof {
                    lemma_lookup(self.groups@, i as int);
                }
                true
            },
        }
    }

    /// The group names, each once.
    pub fn group_names(&self) -> (r: Vec<String>)
        requires
            self.wf(),
        ensures
            r@.map_values(|x: String| x@).no_duplicates(),
            r@.map_values(|x: String| x@).to_set() == self.group_map().dom(),
    {
        let mut r: Vec<String> = Vec::new();
        let mut i: usize = 0;
        while i < self.groups.len()
            invariant
                self.wf(),
                i <= self.groups@.len(),
                r@.len() == i,
                forall|j: int| 0 <= j < i ==> (#[trigger] r@[j])@ == self.groups@[j].name@,
            decreases self.groups@.len() - i,
        {
            r.push(self.groups[i].name.clone());
            i = i + 1;
        }
        let ghost names = r@.map_values(|x: String| x@);
        assert forall|a: int, b: int| 0 <= a < names.len() && 0 <= b < names.len() && a != b
            implies names[a] != names[b] by {
            assert(names[a] == self.groups@[a].name@);
            assert(names[b] == self.groups@[b].name@);
        }
        assert forall|k: Seq<char>| #[trigger] names.to_set().contains(k) == self.group_map().dom().contains(k) by {
            if names.to_set().contains(k) {
                let a = choose|a: int| 0 <= a < names.len() && names[a] == k;
                assert(names[a] == self.groups@[a].name@);
                lemma_lookup(self.groups@, a);
            }
            if self.group_map().dom().contains(k) {
                let a = choose|a: int| 0 <= a < self.groups@.len() && self.groups@[a].name@ == k;
                assert(names[a] == self.groups@[a].name@);
                assert(names.contains(k));
            }
        }
        assert(names.to_set() =~= self.group_map().dom());
        r
    }

    /// The tags of group `name` in insertion order; `None` when absent.
    pub fn tags(&self, name: &str) -> (r: Option<Vec<String>>)
        requires
            self.wf(),
        ensures
            r is None <==> !self.group_map().contains_key(name@),
            r is Some ==> r->0@.map_values(|x: String| x@) == self.group_map()[name@],
    {
        match self.find_group(name) {
            None => None,
            Some(i) => {
                proof {
                    lemma_lookup(self.groups@, i as int);
                }
                Some(tag_set_to_vec(&self.groups[i].tags))
            },
        }
    }

    /// Puts `tag` into group `group`; a tag already there is left as is.
    /// `None` when there is no such group.
    pub fn add_tag(&mut self, group: &str, tag: String) -> (r: Option<()>)
        requires
            old(self).wf(),
        ensures
            final(self).wf(),
            r is Some <==> old(self).group_map().contains_key(group@),
            final(self).group_map() == with_tag(old(self).group_map(), group@, tag@),
            final(self).section_entries() == old(self).section_entries(),
    {
        match self.find_group(group) {
            None => None,
            Some(i) => {
                proof {
                    lemma_lookup(self.groups@, i as int);
                }
                let ghost t = tag@;
                let mut e = self.groups.remove(i);
                tag_set_insert(&mut e.tags, tag);
                self.groups.insert(i, e);
                assert(self.groups@ =~= old(self).groups@.update(i as int, e));
                proof {
                    lemma_update(old(self).groups@, i as int, e);
                    assert(tag_seq(old(self).groups@[i as int].tags).no_duplicates());
                    if !tag_seq(old(self).groups@[i as int].tags).contains(t) {
                        assert(self.group_map() =~= old(self).group_map().insert(group@, old(self).group_map()[group@].push(t)));
                    } else {
                        assert(self.group_map() =~= old(self).group_map());
                    }
                    assert(tags_unique(self.groups@)) by {
                        assert forall|j: int| 0 <= j < self.groups@.len() implies (#[trigger] tag_seq(self.groups@[j].tags)).no_duplicates() by {
                            if j != i {
                                assert(self.groups@[j] == old(self).groups@[j]);
                            }
                        }
                    }
                }
                Some(())
            },
        }
    }

    /// Takes `tag` out of group `group`, the other tags keeping their order.
    /// `None` when there is no such group.
    pub fn remove_tag(&mut self, group: &str, tag: &str) -> (r: Option<()>)
        requires
            old(self).wf(),
        ensures
            final(self).wf(),
            r is Some <==> old(self).group_map().contains_key(group@),
            r is None ==> final(self).group_map() == old(self).group_map(),
            r is Some && !old(self).group_map()[group@].contains(tag@) ==> final(self).group_map()
                == old(self).group_map(),
            r is Some ==> final(self).group_map().contains_key(group@) && !final(self).group_map()[group@].contains(tag@),
            r is Some && old(self).group_map()[group@].contains(tag@) ==> exists|k: int|
                0 <= k < old(self).group_map()[group@].len() && old(self).group_map()[group@][k]
                    == tag@ && final(self).group_map() == old(self).group_map().insert(
                    group@,
                    old(self).group_map()[group@].remove(k),
                ),
            final(self).section_entries() == old(self).section_entries(),
    {
        match self.find_group(group) {
            None => None,
            Some(i) => {
                proof {
                    lemma_lookup(self.groups@, i as int);
                }
                let mut e = self.groups.remove(i);
                let ghost before = tag_seq(e.tags);
                tag_set_shift_remove(&mut e.tags, tag);
                self.groups.insert(i, e);
                assert(self.groups@ =~= old(self).groups@.update(i as int, e));
                proof {
                    lemma_update(old(self).groups@, i as int, e);
                    assert(before.no_duplicates());
                    if before.contains(tag@) {
                        let k = choose|k: int| 0 <= k < before.len() && before[k] == tag@ && tag_seq(e.tags) == before.remove(k);
                        assert(self.group_map() =~= old(self).group_map().insert(group@, old(self).group_map()[group@].remove(k)));
                        assert forall|a: int, b: int| 0 <= a < tag_seq(e.tags).len() && 0 <= b < tag_seq(e.tags).len() && a != b
                            implies tag_seq(e.tags)[a] != tag_seq(e.tags)[b] by {
                            let oa = if a < k { a } else { a + 1 };
                            let ob = if b < k { b } else { b + 1 };
                            assert(tag_seq(e.tags)[a] == before[oa]);
                            assert(tag_seq(e.tags)[b] == before[ob]);
                        }
                    } else {
                        assert(self.group_map() =~= old(self).group_map());
                    }
                    assert(tags_unique(self.groups@)) by {
                        assert forall|j: int| 0 <= j < self.groups@.len() implies (#[trigger] tag_seq(self.groups@[j].tags)).no_duplicates() by {
                            if j != i {
                                assert(self.groups@[j] == old(self).groups@[j]);
                            }
                        }
                    }
                }
                Some(())
            },
        }
    }

    /// The section names in display order.
    pub fn sections(&self) -> (r: Vec<String>)
        ensures
            r@.map_values(|x: String| x@) == self.section_entries().map_values(
                |e: (Seq<char>, Option<Seq<char>>)| e.0,
            ),
    {
        section_map_names(&self.sections)
    }

    /// The section named `name`; `None` when absent.
    pub fn get_section(&self, name: &str) -> (r: Option<&Section>)
        requires
            self.wf(),
        ensures
            r is None <==> !has_name(self.section_entries(), name@),
            r is Some ==> exists|i: int|
                0 <= i < self.section_entries().len() && self.section_entries()[i] == (
                    name@,
                    r->0@,
                ),
    {
        let r = section_map_get(&self.sections, name);
        proof {
            if r is Some {
                let s = section_seq(self.sections);
                let i = choose|i: int| 0 <= i < s.len() && s[i] == (name@, r->0@);
                assert(self.section_entries()[i] == (name@, r->0@));
            }
        }
        r
    }

    /// Sets the text of section `name`, in place; `false`, with nothing
    /// changed, when there is no such section.
    pub fn set_section_text(&mut self, name: &str, text: Option<String>) -> (r: bool)
        requires
            old(self).wf(),
        ensures
            final(self).wf(),
            r == has_name(old(self).section_entries(), name@),
            !r ==> *final(self) == *old(self),
            forall|i: int|
                0 <= i < old(self).section_entries().len() && old(self).section_entries()[i].0
                    == name@ ==> final(self).section_entries() == old(
                    self,
                ).section_entries().update(
                    i,
                    (
                        name@,
                        match text {
                            Some(t) => Some(t@),
                            None => None,
                        },
                    ),
                ),
            final(self).group_map() == old(self).group_map(),
    {
        if section_map_get(&self.sections, name).is_some() {
            let sec = Section { text };
            section_map_insert(&mut self.sections, name.to_owned(), sec);
            proof {
                let i = choose|i: int|
                    0 <= i < section_seq(old(self).sections).len() && section_seq(
                        old(self).sections,
                    )[i].0 == name@;
                let s = section_seq(self.sections);
                assert(s == section_seq(old(self).sections).update(i, (name@, sec@)));
            }
            true
        } else {
            false
        }
    }

    /// Puts a section without text under `name`, at the end when the name
    /// is new; an existing section of that name keeps its place and loses
    /// its text.
    pub fn add_section(&mut self, name: &str)
        requires
            old(self).wf(),
        ensures
            final(self).wf(),
            !has_name(old(self).section_entries(), name@) ==> final(self).section_entries()
                == old(self).section_entries().push((name@, None)),
            forall|i: int|
                0 <= i < old(self).section_entries().len() && old(self).section_entries()[i].0
                    == name@ ==> final(self).section_entries() == old(
                    self,
                ).section_entries().update(i, (name@, None)),
            final(self).group_map() == old(self).group_map(),
    {
        section_map_insert(&mut self.sections, name.to_owned(), Section::empty());
        proof {
            let o = section_seq(old(self).sections);
            if has_name(o, name@) {
                let i = choose|i: int| 0 <= i < o.len() && o[i].0 == name@;
                assert(section_seq(self.sections) == o.update(i, (name@, None)));
            }
        }
    }

    /// Drops section `name`, the others keeping their order; nothing happens
    /// when it is absent.
    pub fn remove_section(&mut self, name: &str)
        requires
            old(self).wf(),
        ensures
            final(self).wf(),
            !has_name(old(self).section_entries(), name@) ==> final(self).section_entries()
                == old(self).section_entries(),
            forall|i: int|
                0 <= i < old(self).section_entries().len() && old(self).section_entries()[i].0
                    == name@ ==> final(self).section_entries() == old(
                    self,
                ).section_entries().remove(i),
            final(self).group_map() == old(self).group_map(),
    {
        section_map_shift_remove(&mut self.sections, name);
        proof {
            let o = section_seq(old(self).sections);
            if has_name(o, name@) {
                let i = choose|i: int| 0 <= i < o.len() && o[i].0 == name@;
                let n = section_seq(self.sections);
                assert(n == o.remove(i));
                assert forall|a: int, b: int| 0 <= a < n.len() && 0 <= b < n.len() && a != b
                    implies n[a].0 != n[b].0 by {
                    let oa = if a < i { a } else { a + 1 };
                    let ob = if b < i { b } else { b + 1 };
                    assert(n[a] == o[oa]);
                    assert(n[b] == o[ob]);
                }
            }
        }
    }

    /// A question seeded with one empty group per name of `group_names`,
    /// in that order, a repeated name adding nothing, and the two default
    /// sections.
    pub fn seeded(group_names: &Vec<String>) -> (r: Question)
        ensures
            r.wf(),
            r.group_map() == Map::new(
                |k: Seq<char>| group_names@.map_values(|x: String| x@).contains(k),
                |k: Seq<char>| Seq::<Seq<char>>::empty(),
            ),
            r.section_entries() == default_sections(),
    {
        let mut q = Question::default();
        let mut i: usize = 0;
        while i < group_names.len()
            invariant
                i <= group_names@.len(),
                q.wf(),
                q.section_entries() == default_sections(),
                q.group_map() == Map::new(
                    |k: Seq<char>| group_names@.subrange(0, i as int).map_values(|x: String| x@).contains(k),
                    |k: Seq<char>| Seq::<Seq<char>>::empty(),
                ),
            decreases group_names@.len() - i,
        {
            let ghost before = q.group_map();
            q.add_group(group_names[i].as_str());
            let ghost prefix = group_names@.subrange(0, i as int + 1).map_values(|x: String| x@);
            let ghost prev = group_names@.subrange(0, i as int).map_values(|x: String| x@);
            assert(prefix =~= prev.push(group_names@[i as int]@));
            assert forall|k: Seq<char>| #[trigger] prefix.contains(k) == (prev.contains(k) || k == group_names@[i as int]@) by {
                if prefix.contains(k) {
                    let a = choose|a: int| 0 <= a < prefix.len() && prefix[a] == k;
                    if a < prev.len() {
                        assert(prev[a] == k);
                    }
                }
                if prev.contains(k) {
                    let a = choose|a: int| 0 <= a < prev.len() && prev[a] == k;
                    assert(prefix[a] == k);
                }
                if k == group_names@[i as int]@ {
                    assert(prefix[prev.len() as int] == k);
                }
            }
            assert(q.group_map() =~= Map::new(
                |k: Seq<char>| prefix.contains(k),
                |k: Seq<char>| Seq::<Seq<char>>::empty(),
            ));
            i = i + 1;
        }
        assert(group_names@.subrange(0, group_names@.len() as int) =~= group_names@);
        q
    }
}

impl Default for Question {
    /// A question with no groups and the sections "Question" and
    /// "Mark Scheme", in that order, both without text.
    fn default() -> (r: Question)
        ensures
            r.wf(),
            r.group_map() == Map::<Seq<char>, Seq<Seq<char>>>::empty(),
            r.section_entries() == default_sections(),
    {
        let mut q = Question::new();
        q.add_section("Question");
        proof {
            reveal_strlit("Question");
            reveal_strlit("Mark Scheme");
            assert(q.section_entries().len() == 1);
            assert(q.section_entries()[0].0 == "Question"@);
            assert("Question"@.len() != "Mark Scheme"@.len());
            assert(!has_name(q.section_entries(), "Mark Scheme"@));
        }
        q.add_section("Mark Scheme");
        assert(q.section_entries() =~= default_sections());
        q
    }
}

} // verus!
