use codex_kit::terminal_title::is_disallowed_terminal_title_char;
use codex_kit::terminal_title::sanitize_terminal_title;
use codex_kit::terminal_title::set_terminal_title;
use codex_kit::terminal_title::SetWindowTitle;
use codex_kit::terminal_title::MAX_TERMINAL_TITLE_CHARS;
use codex_kit::title_setup::confirmed;
use codex_kit::title_setup::preview;
use codex_kit::title_setup::TerminalTitleItem;
use codex_kit::title_setup::TerminalTitleSetupView;

fn texts(items: &[&str]) -> Vec<String> {
    items.iter().map(|item| item.to_string()).collect()
}

#[test]
fn sanitizes_terminal_title() {
    let sanitized =
        sanitize_terminal_title("  Project\t|\nWorking\x1b\x07\u{009D}\u{009C} |  Thread  ");
    assert_eq!(sanitized, "Project | Working | Thread");
}

#[test]
fn strips_invisible_format_chars_from_terminal_title() {
    let sanitized = sanitize_terminal_title(
        "Pro\u{202E}j\u{2066}e\u{200F}c\u{061C}t\u{200B} \u{FEFF}T\u{2060}itle",
    );
    assert_eq!(sanitized, "Project Title");
}

#[test]
fn truncates_terminal_title() {
    let input = "a".repeat(MAX_TERMINAL_TITLE_CHARS + 10);
    let sanitized = sanitize_terminal_title(&input);
    assert_eq!(sanitized.len(), MAX_TERMINAL_TITLE_CHARS);
}

#[test]
fn writes_osc_title_with_string_terminator() {
    let mut out = String::new();
    SetWindowTitle("hello".to_string()).write_ansi(&mut out);
    assert_eq!(out, "\x1b]0;hello\x1b\\");
}

#[test]
fn titles_are_set_only_where_there_is_one_to_show() {
    assert!(set_terminal_title(false, "x").is_none());
    assert!(set_terminal_title(true, " \x1b ").is_none());
    assert_eq!(set_terminal_title(true, " a\tb ").map(|command| command.0), Some("a b".to_string()));
    assert!(is_disallowed_terminal_title_char('\u{7f}'));
    assert!(is_disallowed_terminal_title_char('\u{2066}'));
    assert!(!is_disallowed_terminal_title_char('a'));
    assert!(!is_disallowed_terminal_title_char(' '));
}

#[test]
fn a_clean_title_stays_as_it_is() {
    let once = sanitize_terminal_title("  A\u{200B} b\n\nc ");
    assert_eq!(once, "A b c");
    assert_eq!(sanitize_terminal_title(&once), once);
    let cut = sanitize_terminal_title(&format!("{} {}", "x".repeat(239), "y".repeat(9)));
    assert_eq!(cut, format!("{} ", "x".repeat(239)));
}

#[test]
fn title_items_have_names_and_samples() {
    for item in TerminalTitleItem::iter() {
        assert_eq!(TerminalTitleItem::parse(item.id()), Some(item));
        assert!(!item.description().is_empty());
        assert!(!item.render().is_empty());
    }
    assert_eq!(TerminalTitleItem::parse("nothing"), None);
    assert_eq!(TerminalTitleItem::iter().len(), 6);
}

#[test]
fn title_setup_lists_the_chosen_items_first() {
    let selected = texts(&["status", "nothing", "project", "thread"]);
    let view = TerminalTitleSetupView::new(Some(&selected));
    let ids: Vec<&str> = view.items.iter().map(|item| item.id.as_str()).collect();
    assert_eq!(ids[..3], ["status", "project", "thread"]);
    assert_eq!(ids.len(), 6);
    assert!(view.items.iter().take(3).all(|item| item.enabled));
    assert!(view.items.iter().skip(3).all(|item| !item.enabled));
    let line = preview(&view.items).unwrap();
    assert!(line.starts_with(TerminalTitleItem::Status.render()));
    let none = TerminalTitleSetupView::new(None);
    assert_eq!(preview(&none.items), None);
    assert_eq!(
        confirmed(&texts(&["thread", "model"])),
        vec![TerminalTitleItem::Thread, TerminalTitleItem::Model]
    );
    assert!(confirmed(&texts(&["thread", "nothing"])).is_empty());
    let entry = TerminalTitleSetupView::title_select_item(TerminalTitleItem::Model, true);
    assert_eq!((entry.id.as_str(), entry.enabled), ("model", true));
}
