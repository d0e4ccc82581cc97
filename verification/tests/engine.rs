use launcher::engine::{Engine, Key};
use launcher::scorer::score_candidates;

fn owned(lines: &[&str]) -> Vec<String> {
    lines.iter().map(|l| l.to_string()).collect()
}

fn fruit() -> Vec<String> {
    owned(&["apple", "banana", "grape"])
}

#[test]
fn a_new_engine_is_idle() {
    let engine = Engine::new();
    assert!(!engine.is_open());
    assert_eq!(engine.visible_rows(), Vec::<String>::new());
    assert_eq!(engine.selected_row(), None);
    assert_eq!(engine.query(), "");
}

#[test]
fn a_list_opens_a_request_on_its_head() {
    let mut engine = Engine::new();
    engine.receive(fruit());
    assert!(engine.is_open());
    assert_eq!(engine.query(), "");
    assert_eq!(engine.visible_rows(), fruit());
    assert_eq!(engine.selected_row(), Some(0));
}

#[test]
fn scenario_query_ap_commits_apple() {
    let mut engine = Engine::new();
    engine.receive(fruit());
    engine.set_query("ap");
    let rows = engine.visible_rows();
    assert!(rows.contains(&"apple".to_string()));
    assert!(!rows.contains(&"banana".to_string()));
    assert_eq!(rows[0], "apple");
    assert_eq!(engine.selected_row(), Some(0));
    assert_eq!(engine.commit(), Some("apple".to_string()));
    assert!(!engine.is_open());
}

#[test]
fn scenario_empty_query_shows_first_ten_and_cancel_replies_nothing() {
    let mut engine = Engine::new();
    engine.receive(fruit());
    engine.set_query("");
    assert_eq!(engine.visible_rows(), fruit());
    assert_eq!(engine.cancel(), Some(String::new()));
    assert!(!engine.is_open());

    let many: Vec<String> = (0..25).map(|i| format!("item {}", i)).collect();
    engine.receive(many.clone());
    assert_eq!(engine.visible_rows(), many[..10].to_vec());
    engine.set_query("item");
    engine.set_query("");
    assert_eq!(engine.visible_rows(), many[..10].to_vec());
}

#[test]
fn commit_answers_with_the_highlighted_row() {
    let mut engine = Engine::new();
    engine.receive(fruit());
    engine.move_cursor(2);
    assert_eq!(engine.selected_row(), Some(2));
    assert_eq!(engine.commit(), Some("grape".to_string()));

    engine.receive(fruit());
    engine.move_cursor(1);
    engine.move_cursor(7);
    assert_eq!(engine.selected_row(), Some(1));
    assert_eq!(engine.commit(), Some("banana".to_string()));
}

#[test]
fn a_query_edit_puts_the_cursor_back_on_the_first_row() {
    let mut engine = Engine::new();
    engine.receive(fruit());
    engine.move_cursor(2);
    engine.set_query("a");
    assert_eq!(engine.query(), "a");
    assert_eq!(engine.selected_row(), Some(0));
}

#[test]
fn commit_without_rows_answers_with_the_empty_text() {
    let mut engine = Engine::new();
    engine.receive(fruit());
    engine.set_query("zzz");
    assert_eq!(engine.visible_rows(), Vec::<String>::new());
    assert_eq!(engine.selected_row(), None);
    assert_eq!(engine.commit(), Some(String::new()));

    engine.receive(Vec::new());
    assert!(engine.is_open());
    assert_eq!(engine.visible_rows(), Vec::<String>::new());
    assert_eq!(engine.commit(), Some(String::new()));
}

#[test]
fn cancel_and_window_close_answer_with_the_empty_text() {
    let mut engine = Engine::new();
    engine.receive(fruit());
    engine.set_query("ap");
    assert_eq!(engine.cancel(), Some(String::new()));
    assert!(!engine.is_open());
    assert_eq!(engine.visible_rows(), Vec::<String>::new());

    engine.receive(fruit());
    engine.move_cursor(1);
    assert_eq!(engine.window_closed(), Some(String::new()));
    assert!(!engine.is_open());
}

#[test]
fn an_idle_engine_answers_nothing() {
    let mut engine = Engine::new();
    assert_eq!(engine.commit(), None);
    assert_eq!(engine.cancel(), None);
    assert_eq!(engine.window_closed(), None);
    engine.set_query("ap");
    engine.move_cursor(0);
    assert!(!engine.is_open());
    assert_eq!(engine.query(), "");
    assert_eq!(engine.selected_row(), None);
}

#[test]
fn one_reply_per_request() {
    let mut engine = Engine::new();
    engine.receive(fruit());
    assert_eq!(engine.commit(), Some("apple".to_string()));
    assert_eq!(engine.commit(), None);
    assert_eq!(engine.cancel(), None);
}

#[test]
fn a_new_list_replaces_the_old_one() {
    let mut engine = Engine::new();
    engine.receive(fruit());
    engine.set_query("ap");
    engine.receive(owned(&["kiwi", "lime"]));
    assert_eq!(engine.query(), "");
    assert_eq!(engine.visible_rows(), owned(&["kiwi", "lime"]));
    assert_eq!(engine.selected_row(), Some(0));
}

#[test]
fn the_view_never_exceeds_ten_rows() {
    let many: Vec<String> = (0..40).map(|i| format!("entry-{}", i)).collect();
    let mut engine = Engine::new();
    engine.receive(many);
    assert_eq!(engine.visible_rows().len(), 10);
    engine.set_query("e");
    assert_eq!(engine.visible_rows().len(), 10);
    engine.set_query("entry-3");
    assert!(engine.visible_rows().len() <= 10);
    engine.move_cursor(10);
    assert_eq!(engine.selected_row(), Some(0));
}

#[test]
fn the_same_query_gives_the_same_view() {
    let list = owned(&["src/main.rs", "src/lib.rs", "Cargo.toml", "README.md", "src/engine.rs"]);
    let mut first = Engine::new();
    first.receive(list.clone());
    first.set_query("sr");
    let mut second = Engine::new();
    second.receive(list);
    second.set_query("s");
    second.set_query("sr");
    assert_eq!(first.visible_rows(), second.visible_rows());
}

#[test]
fn rows_follow_the_scores() {
    let list = owned(&["xaxbxc", "abc", "nothing", "a-b-c", "abc"]);
    let scores = score_candidates(&list, "abc");
    assert_eq!(scores.len(), 5);
    assert_eq!(scores[2], None);
    assert_eq!(scores[1], scores[4]);
    let mut engine = Engine::new();
    engine.receive(list.clone());
    engine.set_query("abc");
    let rows = engine.visible_rows();
    let mut order: Vec<usize> = (0..5).filter(|i| scores[*i].is_some()).collect();
    order.sort_by(|a, b| scores[*b].cmp(&scores[*a]).then(a.cmp(b)));
    let expected: Vec<String> = order.iter().map(|i| list[*i].clone()).collect();
    assert_eq!(rows, expected);
    assert_eq!(rows.len(), 4);
}

#[test]
fn an_empty_query_scores_every_candidate_zero() {
    let list = owned(&["apple", "", "Banana split"]);
    assert_eq!(score_candidates(&list, ""), vec![Some(0), Some(0), Some(0)]);
}

#[test]
fn scores_are_those_of_the_skim_matcher() {
    let list = owned(&["apple", "banana", "grape"]);
    assert_eq!(score_candidates(&list, "ap"), vec![Some(51), None, Some(35)]);
    assert_eq!(score_candidates(&Vec::new(), "ap"), Vec::<Option<i64>>::new());
}

#[test]
fn a_query_with_a_capital_matches_case_exactly() {
    let list = owned(&["Apple", "apple"]);
    let scores = score_candidates(&list, "A");
    assert!(scores[0].is_some());
    assert_eq!(scores[1], None);
    let folded = score_candidates(&list, "a");
    assert!(folded[0].is_some());
    assert!(folded[1].is_some());
}

#[test]
fn the_commit_key_commits_and_the_cancel_key_cancels() {
    let mut engine = Engine::new();
    engine.receive(fruit());
    engine.move_cursor(1);
    assert_eq!(engine.key_pressed(Key::Other), None);
    assert!(engine.is_open());
    assert_eq!(engine.selected_row(), Some(1));
    assert_eq!(engine.key_pressed(Key::Commit), Some("banana".to_string()));
    assert!(!engine.is_open());

    engine.receive(fruit());
    assert_eq!(engine.key_pressed(Key::Cancel), Some(String::new()));
    assert!(!engine.is_open());
    assert_eq!(engine.key_pressed(Key::Commit), None);
    assert_eq!(engine.key_pressed(Key::Cancel), None);
    assert_eq!(engine.key_pressed(Key::Other), None);
}

#[test]
fn ties_are_shown_in_list_order() {
    let list = owned(&["abc", "xyz", "abc", "abc"]);
    let mut engine = Engine::new();
    engine.receive(list);
    engine.set_query("abc");
    assert_eq!(engine.visible_rows(), owned(&["abc", "abc", "abc"]));
    engine.move_cursor(2);
    assert_eq!(engine.selected_row(), Some(2));
    engine.move_cursor(3);
    assert_eq!(engine.selected_row(), Some(2));
}
