//! A preset: suggested tags per group name and the groups that every new
//! question starts with.
use vstd::prelude::*;

verus! {

/// The views of a list of strings.
pub open spec fn string_views(v: Seq<String>) -> Seq<Seq<char>> {
    v.map_values(|x: String| x@)
}

/// The suggestion list stored under the first entry named `name`.
pub open spec fn lookup(entries: Seq<(String, Vec<String>)>, name: Seq<char>) -> Option<
    Seq<Seq<char>>,
>
    decreases entries.len(),
{
    if entries.len() == 0 {
        None
    } else if entries[0].0@ == name {
        Some(string_views(entries[0].1@))
    } else {
        lookup(entries.drop_first(), name)
    }
}

/// The name of the group whose suggestions are offered in every group.
pub open spec fn global_group() -> Seq<char> {
    "Global"@
}

/// Suggested tags per group name (an earlier entry of a name hides a later
/// one), and the default groups of a new question, in order.
pub struct Preset {
    pub tags: Vec<(String, Vec<String>)>,
    pub groups: Vec<String>,
}

/// A copy of a list of strings.
pub fn copy_strings(v: &Vec<String>) -> (r: Vec<String>)
    ensures
        string_views(r@) == string_views(v@),
{
    let mut r: Vec<String> = Vec::new();
    let mut i: usize = 0;
    while i < v.len()
        invariant
            i <= v@.len(),
            r@.len() == i,
            forall|j: int| 0 <= j < i ==> (#[trigger] r@[j])@ == v@[j]@,
        decreases v@.len() - i,
    {
        r.push(v[i].clone());
        i = i + 1;
    }
    assert(string_views(r@) =~= string_views(v@));
    r
}

impl Preset {
    /// No two suggestion entries share a group name.
    pub open spec fn wf(&self) -> bool {
        forall|i: int, j: int|
            0 <= i < self.tags@.len() && 0 <= j < self.tags@.len() && i != j
                ==> self.tags@[i].0@ != self.tags@[j].0@
    }

    /// A preset with no suggestions and no default groups.
    pub fn new() -> (r: Preset)
        ensures
            r.wf(),
            r.tags@.len() == 0,
            r.groups@.len() == 0,
    {
        Preset { tags: Vec::new(), groups: Vec::new() }
    }

    /// The suggestions stored for group `name`; `None` when there are none.
    pub fn suggestions(&self, name: &str) -> (r: Option<Vec<String>>)
        ensures
            r is None <==> lookup(self.tags@, name@) is None,
            r is Some ==> lookup(self.tags@, name@) == Some(string_views(r->0@)),
    {
        let key = name.to_owned();
        let mut i: usize = 0;
        assert(self.tags@.subrange(0, self.tags@.len() as int) =~= self.tags@);
        while i < self.tags.len()
            invariant
                i <= self.tags@.len(),
                key@ == name@,
                lookup(self.tags@, name@) == lookup(
                    self.tags@.subrange(i as int, self.tags@.len() as int),
                    name@,
                ),
            decreases self.tags@.len() - i,
        {
            let ghost rest = self.tags@.subrange(i as int, self.tags@.len() as int);
            assert(rest[0] == self.tags@[i as int]);
            if self.tags[i].0 == key {
                return Some(copy_strings(&self.tags[i].1));
            }
            assert(rest.drop_first() =~= self.tags@.subrange(i as int + 1, self.tags@.len() as int));
            i = i + 1;
        }
        None
    }

    /// The tags offered while tagging in group `name`: the group's own
    /// suggestions, then the global ones.
    pub fn suggestions_for(&self, name: &str) -> (r: Vec<String>)
        ensures
            string_views(r@) == match lookup(self.tags@, name@) {
                Some(s) => s,
                None => Seq::<Seq<char>>::empty(),
            } + match lookup(self.tags@, global_group()) {
                Some(s) => s,
                None => Seq::<Seq<char>>::empty(),
            },
    {
        let mut r = match self.suggestions(name) {
            Some(v) => v,
            None => Vec::new(),
        };
        let ghost own = string_views(r@);
        let mut global = match self.suggestions("Global") {
            Some(v) => v,
            None => Vec::new(),
        };
        let ghost g = string_views(global@);
        r.append(&mut global);
        assert(string_views(r@) =~= own + g);
        r
    }
}

impl Default for Preset {
    /// A preset with no suggestions and no default groups.
    fn default() -> (r: Preset)
        ensures
            r.wf(),
            r.tags@.len() == 0,
            r.groups@.len() == 0,
    {
        Preset::new()
    }
}

/// With unique names, the suggestions of a group are those of its entry.
pub proof fn lemma_lookup_entry(entries: Seq<(String, Vec<String>)>, i: int)
    requires
        0 <= i < entries.len(),
        forall|a: int, b: int|
            0 <= a < entries.len() && 0 <= b < entries.len() && a != b ==> entries[a].0@
                != entries[b].0@,
    ensures
        lookup(entries, entries[i].0@) == Some(string_views(entries[i].1@)),
    decreases entries.len(),
{
    if i > 0 {
        let rest = entries.drop_first();
        assert(entries[0].0@ != entries[i].0@);
        assert(rest[i - 1] == entries[i]);
        lemma_lookup_entry(rest, i - 1);
    }
}

} // verus!
