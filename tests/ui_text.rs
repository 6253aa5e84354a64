use tmux_op::create::{CreateApp, EditMode, FormStep};
use tmux_op::display::{prettify_home, truncate_str};
use tmux_op::languages::{icon_for, languages, Language};
use tmux_op::selection::Key;

fn ch(c: char) -> Key {
    Key::Char { c, control: false }
}

#[test]
fn language_lookup_ignores_case() {
    let rust = Language::from_name("RUST").unwrap();
    assert_eq!(rust.names, vec!["Rust"]);
    assert_eq!(rust.icon, "\u{f1617}");
    let cpp = Language::from_name("cpp").unwrap();
    assert_eq!(cpp.names, vec!["C++", "CPP"]);
    assert!(Language::from_name("UNKNOWN").is_none());
    assert!(Language::from_name("").is_none());
}

#[test]
fn icons_fall_back() {
    assert_eq!(icon_for("GO"), "\u{f07d3}");
    assert_eq!(icon_for("TS"), "\u{f06e6}");
    assert_eq!(icon_for("UNKNOWN"), "\u{f011b}");
    assert_eq!(languages().len(), 7);
}

#[test]
fn truncation_pads_or_cuts() {
    assert_eq!(truncate_str("abc", 5), "abc  ");
    assert_eq!(truncate_str("abcde", 5), "abcde");
    assert_eq!(truncate_str("abcdefghij", 8), "abcde...");
    assert_eq!(truncate_str("abcdef", 2), "...");
    assert_eq!(truncate_str("日本語の名前", 8), "日本...   ");
}

#[test]
fn home_is_shown_as_tilde() {
    assert_eq!(prettify_home("/home/u/code/app1", "/home/u"), "~/code/app1");
    assert_eq!(prettify_home("/srv/app", "/home/u"), "/srv/app");
    assert_eq!(prettify_home("/srv/app", ""), "/srv/app");
}

#[test]
fn form_offers_every_language() {
    let form = CreateApp::new("proj".to_string());
    assert_eq!(form.project_name(), "proj");
    assert_eq!(form.edit_mode(), EditMode::Name);
    assert_eq!(
        form.filtered_languages(),
        &vec!["C", "C++", "C#", "Typescript", "Javascript", "Go", "Rust", "UNKNOWN"]
            .into_iter()
            .map(String::from)
            .collect::<Vec<_>>()
    );
}

#[test]
fn form_edits_name_then_picks_language() {
    let mut form = CreateApp::new("proj".to_string());
    assert_eq!(form.handle_input(ch('2')), FormStep::Continue);
    assert_eq!(form.handle_input(Key::Backspace), FormStep::Continue);
    assert_eq!(form.handle_input(ch('x')), FormStep::Continue);
    assert_eq!(form.project_name(), "projx");
    assert_eq!(form.handle_input(Key::Enter), FormStep::Continue);
    assert_eq!(form.edit_mode(), EditMode::Language);
    form.handle_input(ch('S'));
    assert_eq!(form.filtered_languages().len(), 3);
    assert_eq!(form.handle_input(Key::Enter), FormStep::Continue);
    form.handle_input(Key::Backspace);
    form.handle_input(ch('r'));
    form.handle_input(ch('u'));
    assert_eq!(form.filtered_languages(), &vec!["Rust".to_string()]);
    assert_eq!(form.handle_input(Key::Enter), FormStep::Done);
    assert_eq!(form.selected_language(), "Rust");
}

#[test]
fn form_tab_switches_and_esc_quits() {
    let mut form = CreateApp::new(String::new());
    assert_eq!(form.handle_input(Key::Tab), FormStep::Continue);
    assert_eq!(form.edit_mode(), EditMode::Language);
    assert_eq!(form.handle_input(Key::Tab), FormStep::Continue);
    assert_eq!(form.edit_mode(), EditMode::Name);
    assert_eq!(form.handle_input(Key::Esc), FormStep::Quit);
}

#[test]
fn form_accepts_unknown() {
    let mut form = CreateApp::new(String::new());
    form.handle_input(Key::Tab);
    for c in "UNKNOWN".chars() {
        form.handle_input(ch(c));
    }
    assert_eq!(form.handle_input(Key::Enter), FormStep::Done);
    assert_eq!(form.selected_language(), "UNKNOWN");
}
