use qment::document::Document;
use qment::numbers::parse_number;
use qment::preset::Preset;
use qment::question::Question;
use qment::section::Section;

fn s(x: &str) -> String {
    x.to_string()
}

fn sorted(mut v: Vec<String>) -> Vec<String> {
    v.sort();
    v
}

#[test]
fn default_question_has_two_empty_sections_and_no_groups() {
    let q = Question::default();
    assert_eq!(q.sections(), vec![s("Question"), s("Mark Scheme")]);
    assert!(q.get_section("Question").unwrap().text.is_none());
    assert!(q.get_section("Mark Scheme").unwrap().text.is_none());
    assert!(q.group_names().is_empty());
}

#[test]
fn new_question_is_bare() {
    let q = Question::new();
    assert!(q.sections().is_empty());
    assert!(q.group_names().is_empty());
}

#[test]
fn seeded_question_has_preset_groups() {
    let q = Question::seeded(&vec![s("Topic"), s("Difficulty")]);
    assert_eq!(sorted(q.group_names()), vec![s("Difficulty"), s("Topic")]);
    assert_eq!(q.tags("Topic"), Some(vec![]));
    assert_eq!(q.tags("Difficulty"), Some(vec![]));
    assert_eq!(q.sections(), vec![s("Question"), s("Mark Scheme")]);
}

#[test]
fn seeded_question_skips_repeated_names() {
    let q = Question::seeded(&vec![s("Topic"), s("Topic")]);
    assert_eq!(q.group_names(), vec![s("Topic")]);
}

#[test]
fn rename_group_moves_tags() {
    let mut q = Question::new();
    q.add_group("A");
    q.add_tag("A", s("x")).unwrap();
    q.add_tag("A", s("y")).unwrap();
    assert_eq!(q.rename_group("A", "B"), Some(()));
    assert!(!q.has_group("A"));
    assert_eq!(q.tags("B"), Some(vec![s("x"), s("y")]));
}

#[test]
fn rename_group_overwrites_target() {
    let mut q = Question::new();
    q.add_group("A");
    q.add_group("B");
    q.add_tag("A", s("x")).unwrap();
    q.add_tag("B", s("z")).unwrap();
    assert_eq!(q.rename_group("A", "B"), Some(()));
    assert_eq!(q.group_names(), vec![s("B")]);
    assert_eq!(q.tags("B"), Some(vec![s("x")]));
}

#[test]
fn rename_missing_group_is_not_found() {
    let mut q = Question::new();
    q.add_group("A");
    assert_eq!(q.rename_group("Z", "B"), None);
    assert_eq!(q.group_names(), vec![s("A")]);
}

#[test]
fn add_group_never_overwrites() {
    let mut q = Question::new();
    q.add_group("A");
    q.add_tag("A", s("x")).unwrap();
    q.add_group("A");
    assert_eq!(q.tags("A"), Some(vec![s("x")]));
}

#[test]
fn tags_are_a_set_in_insertion_order() {
    let mut q = Question::new();
    q.add_group("G");
    q.add_tag("G", s("b")).unwrap();
    q.add_tag("G", s("a")).unwrap();
    q.add_tag("G", s("b")).unwrap();
    assert_eq!(q.tags("G"), Some(vec![s("b"), s("a")]));
    assert_eq!(q.add_tag("missing", s("a")), None);
}

#[test]
fn remove_tag_keeps_order_of_the_rest() {
    let mut q = Question::new();
    q.add_group("G");
    for t in ["a", "b", "c"] {
        q.add_tag("G", s(t)).unwrap();
    }
    assert_eq!(q.remove_tag("G", "b"), Some(()));
    assert_eq!(q.tags("G"), Some(vec![s("a"), s("c")]));
    assert_eq!(q.remove_tag("G", "zz"), Some(()));
    assert_eq!(q.tags("G"), Some(vec![s("a"), s("c")]));
    assert_eq!(q.remove_tag("H", "a"), None);
}

#[test]
fn remove_group_and_has_group() {
    let mut q = Question::new();
    q.add_group("A");
    q.add_group("B");
    assert!(q.has_group("A"));
    q.remove_group("A");
    assert!(!q.has_group("A"));
    assert!(q.tags("A").is_none());
    q.remove_group("nothing");
    assert_eq!(q.group_names(), vec![s("B")]);
}

#[test]
fn sections_keep_order_and_text() {
    let mut q = Question::default();
    q.add_section("Notes");
    assert_eq!(q.sections(), vec![s("Question"), s("Mark Scheme"), s("Notes")]);
    assert!(q.set_section_text("Mark Scheme", Some(s("Hello"))));
    assert_eq!(q.get_section("Mark Scheme").unwrap().text, Some(s("Hello")));
    assert!(q.set_section_text("Question", Some(String::new())));
    assert_eq!(q.get_section("Question").unwrap().text, Some(String::new()));
    assert!(!q.set_section_text("Missing", Some(s("x"))));
    assert!(q.get_section("Missing").is_none());
    q.remove_section("Question");
    assert_eq!(q.sections(), vec![s("Mark Scheme"), s("Notes")]);
    q.remove_section("Question");
    assert_eq!(q.sections(), vec![s("Mark Scheme"), s("Notes")]);
}

#[test]
fn add_existing_section_clears_text_in_place() {
    let mut q = Question::default();
    assert!(q.set_section_text("Question", Some(s("t"))));
    q.add_section("Question");
    assert_eq!(q.sections(), vec![s("Question"), s("Mark Scheme")]);
    assert!(q.get_section("Question").unwrap().text.is_none());
}

#[test]
fn section_constructors() {
    assert!(Section::empty().text.is_none());
    assert_eq!(Section::with_text(s("a")).text, Some(s("a")));
    assert_eq!(Section::with_text(s("a")).duplicate().text, Some(s("a")));
    assert!(Section::default().text.is_none());
}

#[test]
fn one_question_per_number_last_wins() {
    let mut d = Document::new();
    d.add_question(1);
    d.add_question(5);
    d.add_question(2);
    d.add_question_with(5, Question::seeded(&vec![s("Topic")]));
    assert_eq!(d.questions(), vec![1, 2, 5]);
    assert!(d.get_question(5).unwrap().has_group("Topic"));
    assert!(!d.get_question(1).unwrap().has_group("Topic"));
    d.add_question(5);
    assert_eq!(d.questions(), vec![1, 2, 5]);
    assert!(!d.get_question(5).unwrap().has_group("Topic"));
}

#[test]
fn remove_question_absent_is_noop() {
    let mut d = Document::new();
    d.add_question(3);
    d.remove_question(4);
    assert_eq!(d.questions(), vec![3]);
    d.remove_question(3);
    assert!(d.questions().is_empty());
    assert!(d.get_question(3).is_none());
}

#[test]
fn highest_number() {
    let mut d = Document::new();
    assert_eq!(d.highest(), None);
    d.add_question(7);
    d.add_question(0);
    d.add_question(u32::MAX);
    assert_eq!(d.highest(), Some(u32::MAX));
    assert_eq!(d.questions(), vec![0, 7, u32::MAX]);
}

#[test]
fn parse_numbers() {
    assert_eq!(parse_number("42"), Some(42));
    assert_eq!(parse_number("+7"), Some(7));
    assert_eq!(parse_number("007"), Some(7));
    assert_eq!(parse_number("0"), Some(0));
    assert_eq!(parse_number("4294967295"), Some(u32::MAX));
    assert_eq!(parse_number("4294967296"), None);
    assert_eq!(parse_number("99999999999"), None);
    assert_eq!(parse_number("abc"), None);
    assert_eq!(parse_number(""), None);
    assert_eq!(parse_number("+"), None);
    assert_eq!(parse_number("-1"), None);
    assert_eq!(parse_number(" 1"), None);
    assert_eq!(parse_number("1 "), None);
    assert_eq!(parse_number("1x"), None);
    assert_eq!(parse_number("++1"), None);
    assert_eq!(parse_number("٣"), None);
}

#[test]
fn parse_agrees_with_std() {
    for t in ["0", "12", "+12", "4294967295", "4294967296", "-0", "x", "", "+", "1_0"] {
        assert_eq!(parse_number(t), t.parse::<u32>().ok(), "{}", t);
    }
}

#[test]
fn preset_suggestions() {
    let mut p = Preset::new();
    assert!(p.suggestions("Topic").is_none());
    p.tags.push((s("Topic"), vec![s("algebra"), s("graphs")]));
    p.tags.push((s("Global"), vec![s("hard")]));
    p.tags.push((s("Topic"), vec![s("ignored")]));
    assert_eq!(p.suggestions("Topic"), Some(vec![s("algebra"), s("graphs")]));
    assert_eq!(p.suggestions_for("Topic"), vec![s("algebra"), s("graphs"), s("hard")]);
    assert_eq!(p.suggestions_for("Other"), vec![s("hard")]);
    let d = Preset::default();
    assert!(d.tags.is_empty() && d.groups.is_empty());
}
