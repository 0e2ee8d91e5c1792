//! Properties that hold across several operations, stated over the views
//! that the operations' own contracts use.
use crate::editor::{groups_after_commit, GhostInput};
use crate::question::{renamed, with_group, with_tag, Question};
use vstd::prelude::*;

verus! {

/// The questions `m` after adding each `(number, question)` of `adds` in
/// order, as `Document::add_question_with` does; a call of
/// `Document::add_question` counts as adding the default question it puts
/// in place, since its contract is the same insertion.
pub open spec fn after_adds(m: Map<u32, Question>, adds: Seq<(u32, Question)>) -> Map<
    u32,
    Question,
>
    decreases adds.len(),
{
    if adds.len() == 0 {
        m
    } else {
        after_adds(m, adds.drop_last()).insert(adds.last().0, adds.last().1)
    }
}

/// After any sequence of additions, there is exactly one question for each
/// number that was in use or was added, and a number added more than once
/// holds the question of its last addition.
pub proof fn law_one_question_per_number(m: Map<u32, Question>, adds: Seq<(u32, Question)>)
    ensures
        after_adds(m, adds).dom() == m.dom().union(
            adds.map_values(|p: (u32, Question)| p.0).to_set(),
        ),
        forall|i: int|
            0 <= i < adds.len() && (forall|j: int| i < j < adds.len() ==> adds[j].0 != adds[i].0)
                ==> #[trigger] after_adds(m, adds)[adds[i].0] == adds[i].1,
    decreases adds.len(),
{
    if adds.len() > 0 {
        let init = adds.drop_last();
        law_one_question_per_number(m, init);
        let nums = adds.map_values(|p: (u32, Question)| p.0);
        let init_nums = init.map_values(|p: (u32, Question)| p.0);
        assert(nums =~= init_nums.push(adds.last().0));
        assert(nums.to_set() =~= init_nums.to_set().insert(adds.last().0)) by {
            assert forall|k: u32| #[trigger] nums.to_set().contains(k) == init_nums.to_set().insert(adds.last().0).contains(k) by {
                if nums.contains(k) {
                    let a = choose|a: int| 0 <= a < nums.len() && nums[a] == k;
                    if a < init_nums.len() {
                        assert(init_nums[a] == k);
                    }
                }
                if init_nums.contains(k) {
                    let a = choose|a: int| 0 <= a < init_nums.len() && init_nums[a] == k;
                    assert(nums[a] == k);
                }
                if k == adds.last().0 {
                    assert(nums[nums.len() - 1] == k);
                }
            }
        }
        assert(after_adds(m, adds).dom() =~= m.dom().union(nums.to_set()));
        assert forall|i: int|
            0 <= i < adds.len() && (forall|j: int| i < j < adds.len() ==> adds[j].0 != adds[i].0)
                implies #[trigger] after_adds(m, adds)[adds[i].0] == adds[i].1 by {
            if i < adds.len() - 1 {
                assert(adds[adds.len() - 1].0 != adds[i].0);
                assert(init[i] == adds[i]);
                assert(forall|j: int| i < j < init.len() ==> init[j] == adds[j]);
            }
        }
    }
}

/// Adding a group that was absent, putting a tag into it, and adding a
/// group of the same name again leaves that group holding just the tag.
pub proof fn law_add_group_never_overwrites(
    m: Map<Seq<char>, Seq<Seq<char>>>,
    name: Seq<char>,
    tag: Seq<char>,
)
    requires
        !m.contains_key(name),
    ensures
        with_group(with_tag(with_group(m, name), name, tag), name)[name] == seq![tag],
        with_group(with_tag(with_group(m, name), name, tag), name) == with_tag(
            with_group(m, name),
            name,
            tag,
        ),
{
    assert(Seq::<Seq<char>>::empty().push(tag) =~= seq![tag]);
}

/// Renaming a group to a different name removes the old name and moves
/// its tags, unchanged, to the new one.
pub proof fn law_rename_moves_tags(
    m: Map<Seq<char>, Seq<Seq<char>>>,
    from: Seq<char>,
    to: Seq<char>,
)
    requires
        m.contains_key(from),
        from != to,
    ensures
        !renamed(m, from, to).contains_key(from),
        renamed(m, from, to).contains_key(to),
        renamed(m, from, to)[to] == m[from],
{
}

/// Committing a pending group name or tag whose text is blank leaves the
/// groups as they were.
pub proof fn law_blank_entry_discarded(g: GhostInput, m: Map<Seq<char>, Seq<Seq<char>>>)
    requires
        (g matches GhostInput::PendingGroupName(t, _) && t@.len() == 0) || (
        g matches GhostInput::PendingTag(t, _) && t@.len() == 0),
    ensures
        groups_after_commit(g, m) == m,
{
}

} // verus!
