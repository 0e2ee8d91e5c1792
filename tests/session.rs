use qment::document::Document;
use qment::editor::{Editor, GhostInput};
use qment::preset::Preset;
use qment::question::Question;
use qment::session::App;
use std::rc::Rc;

fn s(x: &str) -> String {
    x.to_string()
}

fn editor_with(preset: Preset, numbers: &[u32]) -> Editor {
    let mut d = Document::new();
    for n in numbers {
        d.add_question(*n);
    }
    Editor::new(d, s("bank.json"), Rc::new(preset))
}

fn pending_text(e: &Editor) -> Option<String> {
    match e.pending_input() {
        GhostInput::Empty => None,
        GhostInput::PendingQuestionNumber(t) => Some(t.clone()),
        GhostInput::PendingGroupName(t, _) => Some(t.clone()),
        GhostInput::PendingTag(t, _) => Some(t.clone()),
    }
}

#[test]
fn new_editor_has_nothing_pending() {
    let e = editor_with(Preset::new(), &[]);
    assert!(matches!(e.pending_input(), GhostInput::Empty));
    assert_eq!(e.current_question(), None);
    assert!(e.current_section().is_none());
    assert_eq!(e.path(), "bank.json");
}

#[test]
fn add_question_suggests_next_number() {
    let mut e = editor_with(Preset::new(), &[]);
    e.begin_add_question();
    assert_eq!(pending_text(&e), Some(s("1")));
    let mut e = editor_with(Preset::new(), &[3, 7]);
    e.begin_add_question();
    assert!(matches!(e.pending_input(), GhostInput::PendingQuestionNumber(t) if t == "8"));
    let mut e = editor_with(Preset::new(), &[u32::MAX]);
    e.begin_add_question();
    assert_eq!(pending_text(&e), Some(String::new()));
}

#[test]
fn commit_number_adds_seeded_question() {
    let mut preset = Preset::new();
    preset.groups = vec![s("Topic"), s("Difficulty")];
    let mut e = editor_with(preset, &[1]);
    e.begin_add_question();
    e.type_text(s("12"));
    e.commit();
    assert!(matches!(e.pending_input(), GhostInput::Empty));
    assert_eq!(e.document().questions(), vec![1, 12]);
    let q = e.document().get_question(12).unwrap();
    assert!(q.has_group("Topic") && q.has_group("Difficulty"));
    assert_eq!(q.tags("Topic"), Some(vec![]));
    assert_eq!(q.sections(), vec![s("Question"), s("Mark Scheme")]);
}

#[test]
fn commit_suggested_number() {
    let mut e = editor_with(Preset::new(), &[4]);
    e.begin_add_question();
    e.commit();
    assert_eq!(e.document().questions(), vec![4, 5]);
}

#[test]
fn commit_non_numeric_discards() {
    let mut e = editor_with(Preset::new(), &[1, 2]);
    e.begin_add_question();
    e.type_text(s("abc"));
    e.commit();
    assert!(matches!(e.pending_input(), GhostInput::Empty));
    assert_eq!(e.document().questions(), vec![1, 2]);
}

#[test]
fn commit_blank_group_name_discards() {
    let mut e = editor_with(Preset::new(), &[1]);
    e.select_question(1);
    e.begin_add_group();
    e.type_text(s("Keep"));
    e.commit();
    e.begin_add_group();
    e.type_text(String::new());
    e.commit();
    assert!(matches!(e.pending_input(), GhostInput::Empty));
    assert_eq!(e.document().get_question(1).unwrap().group_names(), vec![s("Keep")]);
}

#[test]
fn commit_group_name_adds_group_once() {
    let mut e = editor_with(Preset::new(), &[1]);
    e.select_question(1);
    e.begin_add_group();
    e.type_text(s("A"));
    e.commit();
    e.begin_add_tag("A");
    e.type_text(s("x"));
    e.commit();
    e.begin_add_group();
    e.type_text(s("A"));
    e.commit();
    let q = e.document().get_question(1).unwrap();
    assert_eq!(q.group_names(), vec![s("A")]);
    assert_eq!(q.tags("A"), Some(vec![s("x")]));
}

#[test]
fn commit_rename_moves_tags() {
    let mut e = editor_with(Preset::new(), &[1]);
    e.select_question(1);
    e.begin_add_group();
    e.type_text(s("A"));
    e.commit();
    e.begin_add_tag("A");
    e.type_text(s("x"));
    e.commit();
    e.begin_rename_group("A");
    assert!(matches!(e.pending_input(), GhostInput::PendingGroupName(t, Some(o)) if t == "A" && o == "A"));
    e.type_text(s("B"));
    e.commit();
    let q = e.document().get_question(1).unwrap();
    assert_eq!(q.group_names(), vec![s("B")]);
    assert_eq!(q.tags("B"), Some(vec![s("x")]));
}

#[test]
fn commit_blank_rename_keeps_group() {
    let mut e = editor_with(Preset::new(), &[1]);
    e.select_question(1);
    e.begin_add_group();
    e.type_text(s("A"));
    e.commit();
    e.begin_rename_group("A");
    e.type_text(String::new());
    e.commit();
    assert_eq!(e.document().get_question(1).unwrap().group_names(), vec![s("A")]);
}

#[test]
fn blank_tag_discarded_and_duplicate_tag_ignored() {
    let mut e = editor_with(Preset::new(), &[1]);
    e.select_question(1);
    e.begin_add_group();
    e.type_text(s("G"));
    e.commit();
    for t in ["x", "", "x", "y"] {
        e.begin_add_tag("G");
        e.type_text(s(t));
        e.commit();
    }
    assert_eq!(e.document().get_question(1).unwrap().tags("G"), Some(vec![s("x"), s("y")]));
}

#[test]
fn new_gesture_replaces_pending_entry() {
    let mut e = editor_with(Preset::new(), &[1]);
    e.select_question(1);
    e.begin_add_group();
    e.type_text(s("G"));
    e.commit();
    e.begin_add_group();
    e.type_text(s("H"));
    e.begin_add_tag("G");
    assert!(matches!(e.pending_input(), GhostInput::PendingTag(t, g) if t.is_empty() && g == "G"));
    e.type_text(s("t"));
    e.commit();
    let q = e.document().get_question(1).unwrap();
    assert_eq!(q.group_names(), vec![s("G")]);
    assert_eq!(q.tags("G"), Some(vec![s("t")]));
}

#[test]
fn selecting_keeps_pending_entry() {
    let mut e = editor_with(Preset::new(), &[1, 2]);
    e.select_question(1);
    e.begin_add_group();
    e.type_text(s("A"));
    e.select_question(2);
    assert!(matches!(e.pending_input(), GhostInput::PendingGroupName(t, None) if t == "A"));
    e.commit();
    assert!(e.document().get_question(2).unwrap().has_group("A"));
    assert!(!e.document().get_question(1).unwrap().has_group("A"));
}

#[test]
fn commit_without_selection_changes_nothing() {
    let mut e = editor_with(Preset::new(), &[1]);
    e.begin_add_group();
    e.type_text(s("A"));
    e.commit();
    assert!(matches!(e.pending_input(), GhostInput::Empty));
    assert!(e.document().get_question(1).unwrap().group_names().is_empty());
}

#[test]
fn typing_with_nothing_pending_is_ignored() {
    let mut e = editor_with(Preset::new(), &[]);
    e.type_text(s("zzz"));
    assert!(matches!(e.pending_input(), GhostInput::Empty));
    e.commit();
    assert!(e.document().questions().is_empty());
}

#[test]
fn delete_group_and_tag_of_selected_question() {
    let mut e = editor_with(Preset::new(), &[1]);
    e.select_question(1);
    for g in ["A", "B"] {
        e.begin_add_group();
        e.type_text(s(g));
        e.commit();
    }
    for t in ["x", "y"] {
        e.begin_add_tag("A");
        e.type_text(s(t));
        e.commit();
    }
    e.delete_tag("A", "x");
    e.delete_group("B");
    let q = e.document().get_question(1).unwrap();
    assert_eq!(q.group_names(), vec![s("A")]);
    assert_eq!(q.tags("A"), Some(vec![s("y")]));
}

#[test]
fn section_text_of_selection() {
    let mut e = editor_with(Preset::new(), &[1]);
    assert!(!e.set_section_text(Some(String::new())));
    e.select_question(1);
    e.select_section(s("Question"));
    assert_eq!(e.current_section(), Some(&s("Question")));
    assert!(e.set_section_text(Some(String::new())));
    assert_eq!(
        e.document().get_question(1).unwrap().get_section("Question").unwrap().text,
        Some(String::new())
    );
    assert!(e.set_section_text(Some(s("Hello"))));
    assert_eq!(
        e.document().get_question(1).unwrap().get_section("Question").unwrap().text,
        Some(s("Hello"))
    );
    e.select_section(s("Nope"));
    assert!(!e.set_section_text(Some(s("x"))));
}

#[test]
fn tag_suggestions_group_then_global() {
    let mut p = Preset::new();
    p.tags.push((s("Global"), vec![s("g1")]));
    p.tags.push((s("Topic"), vec![s("t1"), s("t2")]));
    let e = editor_with(p, &[]);
    assert_eq!(e.tag_suggestions("Topic"), vec![s("t1"), s("t2"), s("g1")]);
    assert_eq!(e.tag_suggestions("Other"), vec![s("g1")]);
}

#[test]
fn open_failure_leaves_session_untouched() {
    let mut app = App::new();
    app.new_project(Some(s("first.json")));
    app.editor.as_mut().unwrap().begin_add_question();
    app.editor.as_mut().unwrap().commit();
    app.open_project(Some(s("broken.json")), None);
    let e = app.editor.as_ref().unwrap();
    assert_eq!(e.path(), "first.json");
    assert_eq!(e.document().questions(), vec![1]);
    app.open_project(None, Some(Document::new()));
    assert_eq!(app.editor.as_ref().unwrap().path(), "first.json");
}

#[test]
fn open_and_new_project() {
    let mut app = App::new();
    app.new_project(None);
    assert!(app.editor.is_none());
    let mut d = Document::new();
    d.add_question_with(9, Question::default());
    app.open_project(Some(s("bank.json")), Some(d));
    let e = app.editor.as_ref().unwrap();
    assert_eq!(e.path(), "bank.json");
    assert_eq!(e.document().questions(), vec![9]);
    app.close();
    assert!(app.editor.is_none());
}

#[test]
fn presets_are_replaced_whole() {
    let mut app = App::new();
    let mut p = Preset::new();
    p.groups = vec![s("Topic")];
    app.load_preset(Some(p));
    assert_eq!(app.preset().groups, vec![s("Topic")]);
    app.new_project(Some(s("a.json")));
    app.load_preset(None);
    assert_eq!(app.preset().groups, vec![s("Topic")]);
    let e = app.editor.as_mut().unwrap();
    e.begin_add_question();
    e.commit();
    assert!(e.document().get_question(1).unwrap().has_group("Topic"));
    app.new_preset();
    assert!(app.preset().groups.is_empty());
    let e = app.editor.as_mut().unwrap();
    e.begin_add_question();
    e.commit();
    assert!(!e.document().get_question(2).unwrap().has_group("Topic"));
    assert!(e.document().get_question(1).unwrap().has_group("Topic"));
}

#[test]
fn loaded_preset_reaches_open_session() {
    let mut app = App::new();
    app.new_project(Some(s("a.json")));
    app.editor.as_mut().unwrap().select_question(3);
    let mut p = Preset::new();
    p.groups = vec![s("Difficulty")];
    p.tags.push((s("Global"), vec![s("easy")]));
    app.load_preset(Some(p));
    let e = app.editor.as_mut().unwrap();
    assert_eq!(e.path(), "a.json");
    assert_eq!(e.current_question(), Some(3));
    assert_eq!(e.tag_suggestions("Topic"), vec![s("easy")]);
    e.begin_add_question();
    e.commit();
    assert!(e.document().get_question(1).unwrap().has_group("Difficulty"));
}
