//! The application's state between gestures: the open edit session, if
//! any, and the active preset that new sessions share.
use crate::document::Document;
use crate::editor::{Editor, GhostInput};
use crate::preset::{string_views, Preset};
use std::rc::Rc;
use vstd::prelude::*;

verus! {

/// The open edit session, if any, and the active preset.
pub struct App {
    pub editor: Option<Editor>,
    pub preset: Rc<Preset>,
}

impl App {
    /// The default group names of the active preset.
    pub closed spec fn preset_groups(&self) -> Seq<Seq<char>> {
        string_views(self.preset.groups@)
    }

    /// The suggestion entries of the active preset.
    pub closed spec fn preset_tags(&self) -> Seq<(String, Vec<String>)> {
        self.preset.tags@
    }

    /// No session open, and an empty preset.
    pub fn new() -> (r: App)
        ensures
            r.editor is None,
            r.preset_groups().len() == 0,
            r.preset_tags().len() == 0,
    {
        App { editor: None, preset: Rc::new(Preset::new()) }
    }

    /// The active preset.
    pub fn preset(&self) -> (r: &Preset)
        ensures
            string_views(r.groups@) == self.preset_groups(),
            r.tags@ == self.preset_tags(),
    {
        &self.preset
    }

    /// Opens a session on an empty document to be stored at `path`; a
    /// cancelled choice (`None`) changes nothing.
    pub fn new_project(&mut self, path: Option<String>)
        ensures
            final(self).preset_groups() == old(self).preset_groups(),
            final(self).preset_tags() == old(self).preset_tags(),
            path is None ==> final(self).editor == old(self).editor,
            path matches Some(p) ==> final(self).editor matches Some(e) && e.wf()
                && e.questions_view().is_empty() && e.path_view() == p@ && e.preset_groups()
                == old(self).preset_groups() && e.preset_tags() == old(self).preset_tags()
                && e.selected_question() is None && e.selected_section() is None && e.pending()
                == GhostInput::Empty,
    {
        if let Some(p) = path {
            let shared = Rc::clone(&self.preset);
            let e = Editor::new(Document::new(), p, shared);
            self.editor = Some(e);
        }
    }

    /// Opens a session on `document`, read from `path`. When the choice
    /// was cancelled or the file could not be read or parsed (either is
    /// `None`), the open session, its document and its path stay as they
    /// were.
    pub fn open_project(&mut self, path: Option<String>, document: Option<Document>)
        requires
            document matches Some(d) ==> d.wf(),
        ensures
            final(self).preset_groups() == old(self).preset_groups(),
            final(self).preset_tags() == old(self).preset_tags(),
            path is None || document is None ==> final(self).editor == old(self).editor,
            path matches Some(p) ==> document matches Some(d) ==> final(self).editor matches Some(
                e,
            ) && e.wf() && e.questions_view() == d.question_map() && e.path_view() == p@
                && e.preset_groups() == old(self).preset_groups() && e.preset_tags() == old(self).preset_tags() && e.selected_question() is None && e.selected_section() is None
                && e.pending() == GhostInput::Empty,
    {
        if let Some(p) = path {
            if let Some(d) = document {
                let shared = Rc::clone(&self.preset);
                self.editor = Some(Editor::new(d, p, shared));
            }
        }
    }

    /// Closes the open session, if any.
    pub fn close(&mut self)
        ensures
            final(self).editor is None,
            final(self).preset_groups() == old(self).preset_groups(),
            final(self).preset_tags() == old(self).preset_tags(),
    {
        self.editor = None;
    }

    /// Makes an empty preset the active one, also for the open session:
    /// questions it creates from now on are seeded from the new preset.
    pub fn new_preset(&mut self)
        ensures
            final(self).preset_groups().len() == 0,
            final(self).preset_tags().len() == 0,
            old(self).editor is None ==> final(self).editor is None,
            old(self).editor matches Some(o) ==> final(self).editor matches Some(e) && e.same_work(
                &o,
            ) && e.preset_groups() == final(self).preset_groups() && e.preset_tags() == final(self).preset_tags(),
    {
        self.preset = Rc::new(Preset::new());
        self.share_preset();
    }

    /// Makes `preset` the active one, also for the open session: questions
    /// it creates from now on are seeded from it. When the preset could not
    /// be read or parsed (`None`), everything stays as it was.
    pub fn load_preset(&mut self, preset: Option<Preset>)
        ensures
            preset is None ==> final(self).editor == old(self).editor,
            preset is None ==> final(self).preset_groups() == old(self).preset_groups()
                && final(self).preset_tags() == old(self).preset_tags(),
            preset matches Some(p) ==> final(self).preset_groups() == string_views(p.groups@)
                && final(self).preset_tags() == p.tags@,
            preset is Some && old(self).editor is None ==> final(self).editor is None,
            preset is Some ==> (old(self).editor matches Some(o) ==> final(self).editor matches Some(
                e,
            ) && e.same_work(&o) && e.preset_groups() == final(self).preset_groups()
                && e.preset_tags() == final(self).preset_tags()),
    {
        if let Some(p) = preset {
            self.preset = Rc::new(p);
            self.share_preset();
        }
    }

    /// Hands the active preset to the open session, if any.
    fn share_preset(&mut self)
        ensures
            final(self).preset == old(self).preset,
            old(self).editor is None ==> final(self).editor is None,
            old(self).editor matches Some(o) ==> final(self).editor matches Some(e) && e.same_work(
                &o,
            ) && e.preset_groups() == final(self).preset_groups() && e.preset_tags() == final(self).preset_tags(),
    {
        let shared = Rc::clone(&self.preset);
        match &mut self.editor {
            Some(e) => e.set_preset(shared),
            None => {},
        }
    }
}

} // verus!
