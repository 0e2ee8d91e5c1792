//! The ordered set and ordered map of `indexmap` that questions keep
//! their tags and sections in, with the contracts relied on.
use crate::section::Section;
use vstd::prelude::*;

verus! {

#[verifier::external_type_specification]
#[verifier::external_body]
#[verifier::reject_recursive_types(T)]
#[verifier::reject_recursive_types(S)]
pub struct ExIndexSet<T, S>(indexmap::IndexSet<T, S>);

/// The tags held by a tag set, in insertion order.
pub uninterp spec fn tag_seq(s: indexmap::IndexSet<String>) -> Seq<Seq<char>>;

/// Relies on `IndexSet::new`: a new set is empty.
#[verifier::external_body]
pub(crate) fn tag_set_new() -> (r: indexmap::IndexSet<String>)
    ensures
        tag_seq(r) == Seq::<Seq<char>>::empty(),
{
    indexmap::IndexSet::new()
}

/// Relies on `IndexSet::insert`: a tag already present leaves the set as it
/// was; a new one is appended at the end.
#[verifier::external_body]
pub(crate) fn tag_set_insert(s: &mut indexmap::IndexSet<String>, t: String) -> (r: bool)
    ensures
        r == !tag_seq(*old(s)).contains(t@),
        tag_seq(*old(s)).contains(t@) ==> tag_seq(*final(s)) == tag_seq(*old(s)),
        !tag_seq(*old(s)).contains(t@) ==> tag_seq(*final(s)) == tag_seq(*old(s)).push(t@),
{
    s.insert(t)
}

/// Relies on `IndexSet::shift_remove`: the tag, if held, is taken out and
/// the tags after it keep their relative order.
#[verifier::external_body]
pub(crate) fn tag_set_shift_remove(s: &mut indexmap::IndexSet<String>, t: &str) -> (r: bool)
    ensures
        r == tag_seq(*old(s)).contains(t@),
        !r ==> tag_seq(*final(s)) == tag_seq(*old(s)),
        r ==> exists|i: int|
            0 <= i < tag_seq(*old(s)).len() && tag_seq(*old(s))[i] == t@
                && tag_seq(*final(s)) == tag_seq(*old(s)).remove(i),
{
    s.shift_remove(t)
}

/// Relies on `IndexSet::iter`: the tags in insertion order.
#[verifier::external_body]
pub(crate) fn tag_set_to_vec(s: &indexmap::IndexSet<String>) -> (r: Vec<String>)
    ensures
        r@.map_values(|x: String| x@) == tag_seq(*s),
{
    s.iter().cloned().collect()
}

#[verifier::external_type_specification]
#[verifier::external_body]
#[verifier::reject_recursive_types(K)]
#[verifier::reject_recursive_types(V)]
#[verifier::reject_recursive_types(S)]
pub struct ExIndexMap<K, V, S>(indexmap::IndexMap<K, V, S>);

/// The sections held by a section map: each name with its text, in
/// insertion order.
pub uninterp spec fn section_seq(m: indexmap::IndexMap<String, Section>) -> Seq<
    (Seq<char>, Option<Seq<char>>),
>;

/// Whether `name` is among the names of `entries`.
pub open spec fn has_name(entries: Seq<(Seq<char>, Option<Seq<char>>)>, name: Seq<char>) -> bool {
    exists|i: int| 0 <= i < entries.len() && entries[i].0 == name
}

/// Relies on `IndexMap::new`: a new map is empty.
#[verifier::external_body]
pub(crate) fn section_map_new() -> (r: indexmap::IndexMap<String, Section>)
    ensures
        section_seq(r) == Seq::<(Seq<char>, Option<Seq<char>>)>::empty(),
{
    indexmap::IndexMap::new()
}

/// Relies on `IndexMap::insert`: a name already present keeps its place and
/// takes the new value; a new name is appended at the end.
#[verifier::external_body]
pub(crate) fn section_map_insert(
    m: &mut indexmap::IndexMap<String, Section>,
    k: String,
    v: Section,
)
    ensures
        forall|i: int|
            0 <= i < section_seq(*old(m)).len() && section_seq(*old(m))[i].0 == k@
                ==> section_seq(*final(m)) == section_seq(*old(m)).update(i, (k@, v@)),
        !has_name(section_seq(*old(m)), k@) ==> section_seq(*final(m)) == section_seq(
            *old(m),
        ).push((k@, v@)),
{
    m.insert(k, v);
}

/// Relies on `IndexMap::get`: the section stored under `k`, if any.
#[verifier::external_body]
pub(crate) fn section_map_get<'a>(m: &'a indexmap::IndexMap<String, Section>, k: &str) -> (r:
    Option<&'a Section>)
    ensures
        r is None <==> !has_name(section_seq(*m), k@),
        r is Some ==> exists|i: int|
            0 <= i < section_seq(*m).len() && section_seq(*m)[i] == (k@, r->0@),
{
    m.get(k)
}

/// Relies on `IndexMap::shift_remove`: the entry under `k`, if any, is taken
/// out and the entries after it keep their relative order.
#[verifier::external_body]
pub(crate) fn section_map_shift_remove(m: &mut indexmap::IndexMap<String, Section>, k: &str)
    ensures
        !has_name(section_seq(*old(m)), k@) ==> section_seq(*final(m)) == section_seq(*old(m)),
        forall|i: int|
            0 <= i < section_seq(*old(m)).len() && section_seq(*old(m))[i].0 == k@
                ==> section_seq(*final(m)) == section_seq(*old(m)).remove(i),
{
    m.shift_remove(k);
}

/// Relies on `IndexMap::keys`: the names in insertion order.
#[verifier::external_body]
pub(crate) fn section_map_names(m: &indexmap::IndexMap<String, Section>) -> (r: Vec<String>)
    ensures
        r@.map_values(|x: String| x@) == section_seq(*m).map_values(
            |e: (Seq<char>, Option<Seq<char>>)| e.0,
        ),
{
    m.keys().cloned().collect()
}

} // verus!
