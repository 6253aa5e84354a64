use tmux_op::project::ProjectInfo;
use tmux_op::selection::{Action, App, Key};

fn project(name: &str, directory: &str) -> ProjectInfo {
    ProjectInfo {
        name: name.to_string(),
        language: "UNKNOWN".to_string(),
        directory: directory.to_string(),
    }
}

fn two_projects() -> Vec<ProjectInfo> {
    vec![project("App One", "/home/u/code/app1"), project("app2", "/home/u/code/app2")]
}

fn ch(c: char) -> Key {
    Key::Char { c, control: false }
}

#[test]
fn new_lists_every_project_in_order() {
    let app = App::new(two_projects());
    assert_eq!(app.filtered_indices(), &vec![0, 1]);
    assert_eq!(app.selected(), 0);
    assert!(!app.search_active());
    assert_eq!(app.search_query(), "");
}

#[test]
fn next_and_previous_wrap_around() {
    let mut app = App::new(vec![project("a", "/a"), project("b", "/b"), project("c", "/c")]);
    app.next();
    assert_eq!(app.selected(), 1);
    app.next();
    app.next();
    assert_eq!(app.selected(), 0);
    app.previous();
    assert_eq!(app.selected(), 2);
    app.previous();
    assert_eq!(app.selected(), 1);
}

#[test]
fn navigation_on_empty_list_does_nothing() {
    let mut app = App::new(Vec::new());
    app.next();
    app.previous();
    assert_eq!(app.selected(), 0);
    assert!(app.selected_project().is_none());
}

#[test]
fn query_ranks_matching_project_first() {
    let mut app = App::new(two_projects());
    app.next();
    assert_eq!(app.selected(), 1);
    for c in "app1".chars() {
        app.update_search(c);
    }
    let order = app.filtered_indices().clone();
    assert!(!order.is_empty());
    assert_eq!(order[0], 0);
    if let Some(pos) = order.iter().position(|&i| i == 1) {
        assert!(pos > 0);
    }
    assert_eq!(app.selected(), 0);
    assert_eq!(app.selected_project().unwrap().directory, "/home/u/code/app1");
}

#[test]
fn query_without_match_empties_view_and_blocks_commit() {
    let mut app = App::new(two_projects());
    app.update_search('z');
    app.update_search('q');
    assert!(app.filtered_indices().is_empty());
    assert!(app.selected_project().is_none());
    app.backspace_search();
    app.backspace_search();
    assert_eq!(app.filtered_indices(), &vec![0, 1]);
    assert!(app.selected_project().is_some());
}

#[test]
fn typing_never_widens_the_view() {
    let mut app = App::new(vec![
        project("alpha", "/w/alpha"),
        project("beta", "/w/beta"),
        project("alphabet", "/w/alphabet"),
    ]);
    let mut last = app.filtered_indices().len();
    for c in "alphab".chars() {
        app.update_search(c);
        let now = app.filtered_indices().len();
        assert!(now <= last);
        last = now;
    }
    assert_eq!(app.filtered_indices(), &vec![2]);
}

#[test]
fn equal_scores_keep_list_order() {
    let mut app = App::new(vec![
        project("zeta", "/x/zeta"),
        project("same", "/x/same"),
        project("same", "/x/same"),
    ]);
    for c in "same".chars() {
        app.update_search(c);
    }
    assert_eq!(app.filtered_indices(), &vec![1, 2]);
}

#[test]
fn matching_ignores_case() {
    let mut app = App::new(vec![project("alpha", "/w/alpha"), project("Alpha", "/w/Alpha")]);
    app.update_search('A');
    let mut found = app.filtered_indices().clone();
    found.sort();
    assert_eq!(found, vec![0, 1]);
    let mut app = App::new(vec![project("a", "b")]);
    app.update_search('A');
    assert_eq!(app.filtered_indices(), &vec![0]);
}

#[test]
fn emptying_the_query_moves_cursor_to_first() {
    let mut app = App::new(two_projects());
    app.enter_search();
    app.update_search('2');
    assert_eq!(app.selected(), 1);
    app.backspace_search();
    assert_eq!(app.filtered_indices(), &vec![0, 1]);
    assert_eq!(app.selected(), 0);
    app.update_search('2');
    assert_eq!(app.handle_key(Key::Esc), Action::Continue);
    assert_eq!(app.selected(), 0);
}

#[test]
fn keys_drive_the_state_machine() {
    let mut app = App::new(two_projects());
    assert_eq!(app.handle_key(ch('j')), Action::Continue);
    assert_eq!(app.selected(), 1);
    assert_eq!(app.handle_key(Key::Up), Action::Continue);
    assert_eq!(app.selected(), 0);
    assert_eq!(app.handle_key(ch('/')), Action::Continue);
    assert!(app.search_active());
    assert_eq!(app.handle_key(ch('q')), Action::Continue);
    assert_eq!(app.search_query(), "q");
    assert_eq!(app.handle_key(Key::Backspace), Action::Continue);
    assert_eq!(app.search_query(), "");
    app.handle_key(ch('x'));
    assert_eq!(app.handle_key(Key::Esc), Action::Continue);
    assert!(!app.search_active());
    assert_eq!(app.search_query(), "");
    assert_eq!(app.filtered_indices(), &vec![0, 1]);
    assert_eq!(app.handle_key(Key::Enter), Action::Open);
    assert_eq!(app.handle_key(Key::Char { c: 'c', control: true }), Action::Quit);
    assert_eq!(app.handle_key(ch('q')), Action::Quit);
    assert_eq!(app.handle_key(Key::Esc), Action::Quit);
}

#[test]
fn enter_while_searching_opens() {
    let mut app = App::new(two_projects());
    app.enter_search();
    app.handle_key(ch('2'));
    assert_eq!(app.selected(), 1);
    assert_eq!(app.handle_key(Key::Enter), Action::Open);
    assert_eq!(app.selected_project().unwrap().name, "app2");
}

#[test]
fn exit_search_restores_order() {
    let mut app = App::new(two_projects());
    app.enter_search();
    app.update_search('2');
    assert_eq!(app.selected(), 1);
    app.exit_search();
    assert_eq!(app.filtered_indices(), &vec![0, 1]);
    assert_eq!(app.selected(), 0);
    assert!(!app.search_active());
}
