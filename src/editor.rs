//! The edit session: one open document, the active preset, the current
//! selection, and the single pending text entry through which structural
//! edits are captured, checked and applied.
use crate::document::Document;
use crate::numbers::{decimal, number_text, parse_number, parsed_number};
use crate::preset::{string_views, Preset};
use crate::question::{default_sections, renamed, with_group, with_tag, Question};
use std::rc::Rc;
use vstd::prelude::*;

verus! {

/// The pending text entry of an edit session; at most one exists at a time.
pub enum GhostInput {
    /// No pending edit.
    Empty,
    /// A new question number being typed.
    PendingQuestionNumber(String),
    /// A new group name, or the new name of the group named in the second
    /// field.
    PendingGroupName(String, Option<String>),
    /// A new tag being typed into the group named in the second field.
    PendingTag(String, String),
}

/// The groups of a question seeded with the default group names `names`.
pub open spec fn seeded_groups(names: Seq<Seq<char>>) -> Map<Seq<char>, Seq<Seq<char>>> {
    Map::new(|k: Seq<char>| names.contains(k), |k: Seq<char>| Seq::<Seq<char>>::empty())
}

/// The groups of the current question after committing `g` to a question
/// whose groups are `m`: blank text and an existing name are dropped, a
/// rename moves the tags, a tag joins its group unless already there.
pub open spec fn groups_after_commit(g: GhostInput, m: Map<Seq<char>, Seq<Seq<char>>>) -> Map<
    Seq<char>,
    Seq<Seq<char>>,
> {
    match g {
        GhostInput::PendingGroupName(t, None) => {
            if t@.len() > 0 {
                with_group(m, t@)
            } else {
                m
            }
        },
        GhostInput::PendingGroupName(t, Some(o)) => {
            if t@.len() > 0 {
                renamed(m, o@, t@)
            } else {
                m
            }
        },
        GhostInput::PendingTag(t, grp) => {
            if t@.len() > 0 {
                with_tag(m, grp@, t@)
            } else {
                m
            }
        },
        _ => m,
    }
}

/// Whether `h` is the largest key of `m`.
pub open spec fn is_highest(m: Map<u32, Question>, h: u32) -> bool {
    m.contains_key(h) && forall|n: u32| #[trigger] m.contains_key(n) ==> n <= h
}

/// The number offered when a question is added: one past the largest
/// number in use (one past zero when there is none), or blank when the
/// largest number has no successor.
pub open spec fn suggested_number(m: Map<u32, Question>) -> Seq<char> {
    if m.dom().is_empty() {
        decimal(1)
    } else {
        let h = choose|h: u32| is_highest(m, h);
        if h < u32::MAX {
            decimal(h as nat + 1)
        } else {
            Seq::<char>::empty()
        }
    }
}

/// The text of a pending entry, with the same kind and target.
pub open spec fn retyped(g: GhostInput, text: String) -> GhostInput {
    match g {
        GhostInput::Empty => GhostInput::Empty,
        GhostInput::PendingQuestionNumber(_) => GhostInput::PendingQuestionNumber(text),
        GhostInput::PendingGroupName(_, o) => GhostInput::PendingGroupName(text, o),
        GhostInput::PendingTag(_, grp) => GhostInput::PendingTag(text, grp),
    }
}

/// An open document with its file path, the active preset, the selection,
/// and the pending text entry.
pub struct Editor {
    document: Document,
    path: String,
    preset: Rc<Preset>,
    current_question: Option<u32>,
    current_section: Option<String>,
    pending_edit: GhostInput,
}

impl Editor {
    /// The document is well formed.
    pub closed spec fn wf(&self) -> bool {
        self.document.wf()
    }

    /// The questions of the open document.
    pub closed spec fn questions_view(&self) -> Map<u32, Question> {
        self.document.question_map()
    }

    /// The pending text entry.
    pub closed spec fn pending(&self) -> GhostInput {
        self.pending_edit
    }

    /// The selected question number.
    pub closed spec fn selected_question(&self) -> Option<u32> {
        self.current_question
    }

    /// The selected section name.
    pub closed spec fn selected_section(&self) -> Option<String> {
        self.current_section
    }

    /// The file path of the document.
    pub closed spec fn path_view(&self) -> Seq<char> {
        self.path@
    }

    /// The default group names of the active preset.
    pub closed spec fn preset_groups(&self) -> Seq<Seq<char>> {
        string_views(self.preset.groups@)
    }

    /// Whether a question is selected and present in the document.
    pub open spec fn has_current(&self) -> bool {
        self.selected_question() is Some && self.questions_view().contains_key(
            self.selected_question()->0,
        )
    }

    /// Nothing but the document and the pending entry may differ.
    pub open spec fn same_setting(&self, other: &Editor) -> bool {
        &&& self.selected_question() == other.selected_question()
        &&& self.selected_section() == other.selected_section()
        &&& self.path_view() == other.path_view()
        &&& self.preset_groups() == other.preset_groups()
        &&& self.preset_tags() == other.preset_tags()
    }

    /// The document, path, selection and pending entry are those of
    /// `other`; only the preset may differ.
    pub open spec fn same_work(&self, other: &Editor) -> bool {
        &&& self.wf() == other.wf()
        &&& self.questions_view() == other.questions_view()
        &&& self.pending() == other.pending()
        &&& self.selected_question() == other.selected_question()
        &&& self.selected_section() == other.selected_section()
        &&& self.path_view() == other.path_view()
    }

    /// A session on `document`, stored at `path`, seeding new questions from
    /// `preset`; nothing selected and nothing pending.
    pub fn new(document: Document, path: String, preset: Rc<Preset>) -> (r: Editor)
        requires
            document.wf(),
        ensures
            r.wf(),
            r.questions_view() == document.question_map(),
            r.path_view() == path@,
            r.preset_groups() == string_views(preset.groups@),
            r.preset_tags() == preset.tags@,
            r.selected_question() is None,
            r.selected_section() is None,
            r.pending() == GhostInput::Empty,
    {
        Editor {
            document,
            path,
            preset,
            current_question: None,
            current_section: None,
            pending_edit: GhostInput::Empty,
        }
    }

    /// The open document.
    pub fn document(&self) -> (r: &Document)
        requires
            self.wf(),
        ensures
            r.wf(),
            r.question_map() == self.questions_view(),
    {
        &self.document
    }

    /// The file path of the document.
    pub fn path(&self) -> (r: &String)
        ensures
            r@ == self.path_view(),
    {
        &self.path
    }

    /// The pending text entry.
    pub fn pending_input(&self) -> (r: &GhostInput)
        ensures
            *r == self.pending(),
    {
        &self.pending_edit
    }

    /// The selected question number.
    pub fn current_question(&self) -> (r: Option<u32>)
        ensures
            r == self.selected_question(),
    {
        self.current_question
    }

    /// The selected section name.
    pub fn current_section(&self) -> (r: Option<&String>)
        ensures
            r is None <==> self.selected_section() is None,
            r is Some ==> *r->0 == self.selected_section()->0,
    {
        match &self.current_section {
            Some(s) => Some(s),
            None => None,
        }
    }

    /// Makes `preset` the one that seeds questions created from now on and
    /// offers tag suggestions; questions already created are unchanged.
    pub fn set_preset(&mut self, preset: Rc<Preset>)
        ensures
            final(self).same_work(old(self)),
            final(self).preset_groups() == string_views(preset.groups@),
            final(self).preset_tags() == preset.tags@,
    {
        self.preset = preset;
    }

    /// Selects question `number`; the pending entry is kept.
    pub fn select_question(&mut self, number: u32)
        ensures
            final(self).wf() == old(self).wf(),
            final(self).selected_question() == Some(number),
            final(self).selected_section() == old(self).selected_section(),
            final(self).questions_view() == old(self).questions_view(),
            final(self).pending() == old(self).pending(),
            final(self).path_view() == old(self).path_view(),
            final(self).preset_groups() == old(self).preset_groups(),
            final(self).preset_tags() == old(self).preset_tags(),
    {
        self.current_question = Some(number);
    }

    /// Selects section `name`; the pending entry is kept.
    pub fn select_section(&mut self, name: String)
        ensures
            final(self).wf() == old(self).wf(),
            final(self).selected_section() == Some(name),
            final(self).selected_question() == old(self).selected_question(),
            final(self).questions_view() == old(self).questions_view(),
            final(self).pending() == old(self).pending(),
            final(self).path_view() == old(self).path_view(),
            final(self).preset_groups() == old(self).preset_groups(),
            final(self).preset_tags() == old(self).preset_tags(),
    {
        self.current_section = Some(name);
    }

    /// Starts typing a new question number, offering one past the largest
    /// number in use; any earlier pending entry is dropped.
    pub fn begin_add_question(&mut self)
        requires
            old(self).wf(),
        ensures
            final(self).wf(),
            final(self).same_setting(old(self)),
            final(self).questions_view() == old(self).questions_view(),
            final(self).pending() matches GhostInput::PendingQuestionNumber(t) && t@
                == suggested_number(old(self).questions_view()),
    {
        let hi = self.document.highest();
        proof {
            let m = self.document.question_map();
            if hi is Some {
                let h0 = hi->0;
                assert(is_highest(m, h0));
                let h = choose|h: u32| is_highest(m, h);
                assert(h <= h0 && h0 <= h);
            }
        }
        let text = match hi {
            None => number_text(1),
            Some(h) => {
                if h < u32::MAX {
                    number_text(h + 1)
                } else {
                    String::new()
                }
            },
        };
        self.pending_edit = GhostInput::PendingQuestionNumber(text);
    }

    /// Starts typing the name of a new group; any earlier pending entry is
    /// dropped.
    pub fn begin_add_group(&mut self)
        ensures
            final(self).wf() == old(self).wf(),
            final(self).same_setting(old(self)),
            final(self).questions_view() == old(self).questions_view(),
            final(self).pending() matches GhostInput::PendingGroupName(t, None) && t@.len() == 0,
    {
        self.pending_edit = GhostInput::PendingGroupName(String::new(), None);
    }

    /// Starts renaming group `name`, its name being the starting text; any
    /// earlier pending entry is dropped.
    pub fn begin_rename_group(&mut self, name: &str)
        ensures
            final(self).wf() == old(self).wf(),
            final(self).same_setting(old(self)),
            final(self).questions_view() == old(self).questions_view(),
            final(self).pending() matches GhostInput::PendingGroupName(t, Some(o)) && t@ == name@
                && o@ == name@,
    {
        self.pending_edit = GhostInput::PendingGroupName(name.to_owned(), Some(name.to_owned()));
    }

    /// Starts typing a new tag for group `group`; any earlier pending entry,
    /// for this group or another, is dropped.
    pub fn begin_add_tag(&mut self, group: &str)
        ensures
            final(self).wf() == old(self).wf(),
            final(self).same_setting(old(self)),
            final(self).questions_view() == old(self).questions_view(),
            final(self).pending() matches GhostInput::PendingTag(t, g) && t@.len() == 0 && g@
                == group@,
    {
        self.pending_edit = GhostInput::PendingTag(String::new(), group.to_owned());
    }

    /// Replaces the text of the pending entry; nothing happens when none is
    /// pending.
    pub fn type_text(&mut self, text: String)
        ensures
            final(self).wf() == old(self).wf(),
            final(self).same_setting(old(self)),
            final(self).questions_view() == old(self).questions_view(),
            final(self).pending() == retyped(old(self).pending(), text),
    {
        let mut g = GhostInput::Empty;
        std::mem::swap(&mut g, &mut self.pending_edit);
        self.pending_edit = match g {
            GhostInput::Empty => GhostInput::Empty,
            GhostInput::PendingQuestionNumber(_) => GhostInput::PendingQuestionNumber(text),
            GhostInput::PendingGroupName(_, o) => GhostInput::PendingGroupName(text, o),
            GhostInput::PendingTag(_, grp) => GhostInput::PendingTag(text, grp),
        };
    }

    /// Applies the pending entry, then leaves nothing pending. A number that
    /// parses adds a question seeded from the preset, replacing any question
    /// of that number; a group name, rename or tag is applied to the
    /// selected question by the rules of `groups_after_commit`. Blank or
    /// unparseable text, or no selected question, changes nothing.
    pub fn commit(&mut self)
        requires
            old(self).wf(),
        ensures
            final(self).wf(),
            final(self).same_setting(old(self)),
            final(self).pending() == GhostInput::Empty,
            old(self).pending() matches GhostInput::PendingQuestionNumber(t) ==> (
            parsed_number(t@) is None ==> final(self).questions_view() == old(self).questions_view()),
            old(self).pending() matches GhostInput::PendingQuestionNumber(t) ==> (
            parsed_number(t@) matches Some(n) ==> {
                &&& final(self).questions_view() == old(self).questions_view().insert(
                    n,
                    final(self).questions_view()[n],
                )
                &&& final(self).questions_view()[n].group_map() == seeded_groups(
                    old(self).preset_groups(),
                )
                &&& final(self).questions_view()[n].section_entries() == default_sections()
            }),
            !(old(self).pending() is PendingQuestionNumber) && !old(self).has_current()
                ==> final(self).questions_view() == old(self).questions_view(),
            !(old(self).pending() is PendingQuestionNumber) && old(self).has_current() ==> {
                let c = old(self).selected_question()->0;
                let q = old(self).questions_view()[c];
                &&& final(self).questions_view() == old(self).questions_view().insert(
                    c,
                    final(self).questions_view()[c],
                )
                &&& final(self).questions_view()[c].group_map() == groups_after_commit(
                    old(self).pending(),
                    q.group_map(),
                )
                &&& final(self).questions_view()[c].section_entries() == q.section_entries()
            },
    {
        let mut g = GhostInput::Empty;
        std::mem::swap(&mut g, &mut self.pending_edit);
        match g {
            GhostInput::Empty => {
                proof {
                    lemma_unchanged(old(self));
                }
            },
            GhostInput::PendingQuestionNumber(t) => {
                match parse_number(t.as_str()) {
                    Some(n) => {
                        let q = Question::seeded(&self.preset.groups);
                        self.document.add_question_with(n, q);
                    },
                    None => {},
                }
            },
            GhostInput::PendingGroupName(t, orig) => {
                if !t.as_str().is_empty() {
                    match self.current_question {
                        Some(c) => {
                            match self.document.take_question(c) {
                                Some(mut q) => {
                                    match orig {
                                        None => {
                                            if !q.has_group(t.as_str()) {
                                                q.add_group(t.as_str());
                                            }
                                        },
                                        Some(o) => {
                                            let _ = q.rename_group(o.as_str(), t.as_str());
                                        },
                                    }
                                    self.document.add_question_with(c, q);
                                    assert(self.document.question_map() =~= old(self).questions_view().insert(c, q));
                                },
                                None => {},
                            }
                        },
                        None => {},
                    }
                } else {
                    proof {
                        lemma_unchanged(old(self));
                    }
                }
            },
            GhostInput::PendingTag(t, grp) => {
                if !t.as_str().is_empty() {
                    match self.current_question {
                        Some(c) => {
                            match self.document.take_question(c) {
                                Some(mut q) => {
                                    let _ = q.add_tag(grp.as_str(), t);
                                    self.document.add_question_with(c, q);
                                    assert(self.document.question_map() =~= old(self).questions_view().insert(c, q));
                                },
                                None => {},
                            }
                        },
                        None => {},
                    }
                } else {
                    proof {
                        lemma_unchanged(old(self));
                    }
                }
            },
        }
    }

    /// Drops group `name` of the selected question; nothing happens without
    /// a selected question.
    pub fn delete_group(&mut self, name: &str)
        requires
            old(self).wf(),
        ensures
            final(self).wf(),
            final(self).same_setting(old(self)),
            final(self).pending() == old(self).pending(),
            !old(self).has_current() ==> final(self).questions_view() == old(self).questions_view(),
            old(self).has_current() ==> {
                let c = old(self).selected_question()->0;
                let q = old(self).questions_view()[c];
                &&& final(self).questions_view() == old(self).questions_view().insert(
                    c,
                    final(self).questions_view()[c],
                )
                &&& final(self).questions_view()[c].group_map() == q.group_map().remove(name@)
                &&& final(self).questions_view()[c].section_entries() == q.section_entries()
            },
    {
        if let Some(c) = self.current_question {
            if let Some(mut q) = self.document.take_question(c) {
                q.remove_group(name);
                self.document.add_question_with(c, q);
                assert(self.document.question_map() =~= old(self).questions_view().insert(c, q));
            }
        }
    }

    /// Takes `tag` out of group `group` of the selected question; nothing
    /// happens without a selected question.
    pub fn delete_tag(&mut self, group: &str, tag: &str)
        requires
            old(self).wf(),
        ensures
            final(self).wf(),
            final(self).same_setting(old(self)),
            final(self).pending() == old(self).pending(),
            !old(self).has_current() ==> final(self).questions_view() == old(self).questions_view(),
            old(self).has_current() ==> {
                let c = old(self).selected_question()->0;
                let m = old(self).questions_view()[c].group_map();
                let fm = final(self).questions_view()[c].group_map();
                &&& final(self).questions_view() == old(self).questions_view().insert(
                    c,
                    final(self).questions_view()[c],
                )
                &&& final(self).questions_view()[c].section_entries() == old(self).questions_view()[c].section_entries()
                &&& m.contains_key(group@) ==> fm.contains_key(group@) && !fm[group@].contains(
                    tag@,
                )
                &&& !(m.contains_key(group@) && m[group@].contains(tag@)) ==> fm == m
                &&& m.contains_key(group@) && m[group@].contains(tag@) ==> exists|k: int|
                    0 <= k < m[group@].len() && m[group@][k] == tag@ && fm == m.insert(
                        group@,
                        m[group@].remove(k),
                    )
            },
    {
        if let Some(c) = self.current_question {
            if let Some(mut q) = self.document.take_question(c) {
                let _ = q.remove_tag(group, tag);
                self.document.add_question_with(c, q);
                assert(self.document.question_map() =~= old(self).questions_view().insert(c, q));
            }
        }
    }

    /// Sets the text of the selected section of the selected question;
    /// `false`, with nothing changed, when either is not selected or absent.
    pub fn set_section_text(&mut self, text: Option<String>) -> (r: bool)
        requires
            old(self).wf(),
        ensures
            final(self).wf(),
            final(self).same_setting(old(self)),
            final(self).pending() == old(self).pending(),
            !r ==> final(self).questions_view() == old(self).questions_view(),
            r ==> old(self).has_current() && old(self).selected_section() is Some,
            r ==> {
                let c = old(self).selected_question()->0;
                let q = old(self).questions_view()[c];
                let name = old(self).selected_section()->0@;
                &&& final(self).questions_view() == old(self).questions_view().insert(
                    c,
                    final(self).questions_view()[c],
                )
                &&& final(self).questions_view()[c].group_map() == q.group_map()
                &&& exists|i: int|
                    0 <= i < q.section_entries().len() && q.section_entries()[i].0 == name
                        && final(self).questions_view()[c].section_entries()
                        == q.section_entries().update(
                        i,
                        (
                            name,
                            match text {
                                Some(t) => Some(t@),
                                None => None,
                            },
                        ),
                    )
            },
            old(self).has_current() && old(self).selected_section() is Some ==> (r
                <==> crate::collections::has_name(
                old(self).questions_view()[old(self).selected_question()->0].section_entries(),
                old(self).selected_section()->0@,
            )),
    {
        let c = match self.current_question {
            Some(c) => c,
            None => return false,
        };
        let name = match &self.current_section {
            Some(n) => n.clone(),
            None => return false,
        };
        match self.document.take_question(c) {
            Some(mut q) => {
                let ghost q0 = q;
                let done = q.set_section_text(name.as_str(), text);
                proof {
                    if done {
                        let i = choose|i: int|
                            0 <= i < q0.section_entries().len() && q0.section_entries()[i].0
                                == name@;
                        assert(q.section_entries() == q0.section_entries().update(
                            i,
                            (
                                name@,
                                match text {
                                    Some(t) => Some(t@),
                                    None => None,
                                },
                            ),
                        ));
                    } else {
                        assert(q.section_entries() == q0.section_entries());
                    }
                }
                self.document.add_question_with(c, q);
                assert(self.document.question_map() =~= old(self).questions_view().insert(c, q));
                if !done {
                    proof {
                        assert(q == q0);
                    }
                }
                done
            },
            None => false,
        }
    }

    /// The tags offered while tagging in group `group`: the preset's
    /// suggestions for the group, then its global ones.
    pub fn tag_suggestions(&self, group: &str) -> (r: Vec<String>)
        ensures
            string_views(r@) == match crate::preset::lookup(self.preset_tags(), group@) {
                Some(s) => s,
                None => Seq::<Seq<char>>::empty(),
            } + match crate::preset::lookup(self.preset_tags(), crate::preset::global_group()) {
                Some(s) => s,
                None => Seq::<Seq<char>>::empty(),
            },
    {
        self.preset.suggestions_for(group)
    }

    /// The suggestion entries of the active preset.
    pub closed spec fn preset_tags(&self) -> Seq<(String, Vec<String>)> {
        self.preset.tags@
    }
}

/// A session whose selected question is put back as it was keeps its
/// questions.
proof fn lemma_unchanged(e: &Editor)
    ensures
        e.has_current() ==> e.questions_view() == e.questions_view().insert(
            e.selected_question()->0,
            e.questions_view()[e.selected_question()->0],
        ),
{
    if e.has_current() {
        let c = e.selected_question()->0;
        assert(e.questions_view() =~= e.questions_view().insert(c, e.questions_view()[c]));
    }
}

} // verus!
