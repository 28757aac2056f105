use tix_core::console::{
    command_options, is_completion, path_completion, scroll_back, scroll_forward,
    update_task_row, CompletionOption, CompletionState, CompletionType,
};
use tix_core::textscan::contains_text;

fn commands() -> Vec<String> {
    ["Ping", "HelloWorld", "ShellExecute", "Copy", "Exit"].iter().map(|s| s.to_string()).collect()
}

fn values(options: &[CompletionOption]) -> Vec<&str> {
    options.iter().map(|o| o.value.as_str()).collect()
}

fn path(name: &str, is_dir: bool) -> CompletionOption {
    CompletionOption { display: name.to_string(), value: name.to_string(), is_dir }
}

#[test]
fn completion_ignores_case() {
    assert!(is_completion("ShellExecute", "shell"));
    assert!(is_completion("ShellExecute", "SHELLEXECUTE"));
    assert!(is_completion("ShellExecute", ""));
    assert!(!is_completion("ShellExecute", "ShellExecuteX"));
    assert!(!is_completion("Ping", "Pong"));
    assert!(is_completion("Ärger", "äR"));
    assert!(!is_completion("", "a"));
}

#[test]
fn commands_that_complete_the_word_are_offered_in_their_order() {
    let all = commands();
    assert_eq!(values(&command_options(&all, "")), ["Ping", "HelloWorld", "ShellExecute", "Copy", "Exit"]);
    assert_eq!(values(&command_options(&all, "p")), ["Ping"]);
    assert_eq!(values(&command_options(&all, "E")), ["Exit"]);
    assert_eq!(values(&command_options(&all, "c")), ["Copy"]);
    assert!(command_options(&all, "x").is_empty());
    assert!(command_options(&Vec::new(), "").is_empty());
    let twice = vec!["Copy".to_string(), "copyAll".to_string(), "Cut".to_string()];
    let found = command_options(&twice, "CO");
    assert_eq!(values(&found), ["Copy", "copyAll"]);
    assert!(found.iter().all(|o| o.display == o.value && !o.is_dir));
}

#[test]
fn a_line_of_one_word_is_completed_to_a_command() {
    let all = commands();
    let mut state = CompletionState::default();
    assert!(!state.offers());
    assert!(state.trigger_type.is_none());

    assert!(state.complete_command(&all, "he"));
    assert!(state.offers());
    assert_eq!(state.trigger_type, Some(CompletionType::Command));
    assert_eq!(values(&state.options), ["HelloWorld"]);
    assert_eq!(state.selected_index, 0);
    assert_eq!(state.chosen().map(|o| o.value.as_str()), Some("HelloWorld"));

    // a word that no command completes leaves the list
    state.selected_index = 0;
    assert!(!state.complete_command(&all, "zz"));
    assert_eq!(values(&state.options), ["HelloWorld"]);
    assert!(state.active);
    assert_eq!(state.trigger_type, Some(CompletionType::Command));

    // a line with a space is no command word
    state.offer_paths(vec![path("a", false)]);
    assert!(!state.complete_command(&all, "Copy a"));
    assert_eq!(state.trigger_type, Some(CompletionType::Path));
    assert_eq!(values(&state.options), ["a"]);
}

#[test]
fn paths_are_offered_or_the_list_is_hidden() {
    let mut state = CompletionState::default();
    state.offer_paths(vec![path("docs", true), path("file.txt", false)]);
    assert!(state.offers());
    assert_eq!(state.trigger_type, Some(CompletionType::Path));
    assert_eq!(state.selected_index, 0);
    assert!(state.chosen().unwrap().is_dir);
    state.selected_index = 1;
    state.offer_paths(Vec::new());
    assert!(!state.active);
    assert!(!state.offers());
    assert_eq!(values(&state.options), ["docs", "file.txt"]);
    assert_eq!(state.selected_index, 1);
}

#[test]
fn the_pick_goes_round() {
    let mut state = CompletionState::default();
    assert!(!state.select_next());
    assert!(!state.select_previous());
    assert_eq!(state.selected_index, 0);

    state.offer_paths(vec![path("a", false), path("b", false), path("c", false)]);
    for expected in [1, 2, 0, 1] {
        assert!(state.select_next());
        assert_eq!(state.selected_index, expected);
    }
    for expected in [0, 2, 1, 0, 2] {
        assert!(state.select_previous());
        assert_eq!(state.selected_index, expected);
    }
    // a pick outside the list comes back into it
    state.selected_index = 7;
    assert!(state.chosen().is_none());
    assert!(state.select_next());
    assert_eq!(state.selected_index, 2);
    state.selected_index = usize::MAX;
    assert!(state.select_next());
    assert_eq!(state.selected_index, (usize::MAX % 3 + 1) % 3);

    // a hidden list is not moved in
    assert!(state.dismiss());
    assert!(!state.dismiss());
    let at = state.selected_index;
    assert!(!state.select_next());
    assert!(!state.select_previous());
    assert_eq!(state.selected_index, at);
}

#[test]
fn the_log_scrolls_between_its_first_and_last_line() {
    assert_eq!(scroll_back(0, 0), 0);
    assert_eq!(scroll_back(0, 1), 0);
    assert_eq!(scroll_back(0, 5), 1);
    assert_eq!(scroll_back(3, 5), 4);
    assert_eq!(scroll_back(4, 5), 4);
    assert_eq!(scroll_back(9, 5), 4);
    assert_eq!(scroll_back(usize::MAX, usize::MAX), usize::MAX - 1);
    assert_eq!(scroll_forward(0), 0);
    assert_eq!(scroll_forward(1), 0);
    assert_eq!(scroll_forward(7), 6);
}

#[test]
fn a_completed_path_keeps_its_directory() {
    let file = path("notes.txt", false);
    let folder = path("docs", true);
    assert_eq!(path_completion("Copy ", None, &file), "Copy notes.txt");
    assert_eq!(path_completion("Copy ", Some(""), &file), "Copy notes.txt");
    assert_eq!(path_completion("Copy ", Some("."), &file), "Copy notes.txt");
    assert_eq!(path_completion("Copy ", Some("C:\\Users"), &file), "Copy C:\\Users\\notes.txt");
    assert_eq!(path_completion("Copy ", Some("C:\\"), &folder), "Copy C:\\docs\\");
    assert_eq!(path_completion("Copy a ", Some("x/"), &folder), "Copy a x/docs\\");
    assert_eq!(path_completion("", Some(".."), &file), "..\\notes.txt");
    assert_eq!(path_completion("", None, &folder), "docs\\");
}

#[test]
fn a_word_is_found_where_it_stands() {
    assert!(contains_text("< 12 > Running", "< 12 >"));
    assert!(contains_text("x < 12 >", "< 12 >"));
    assert!(contains_text("abc", ""));
    assert!(contains_text("", ""));
    assert!(!contains_text("", "a"));
    assert!(!contains_text("< 1 >", "< 12 >"));
    assert!(!contains_text("< 12", "< 12 >"));
    assert!(contains_text("aab", "ab"));
    assert!(contains_text("héllo wörld", "o w"));
    assert!(!contains_text("abc", "abcd"));
}

#[test]
fn the_row_of_a_task_is_written_or_added() {
    let mut tasks: Vec<String> = Vec::new();
    update_task_row(&mut tasks, 1, "Running");
    assert_eq!(tasks, vec!["< 1 > Running"]);
    update_task_row(&mut tasks, 12, "Running");
    update_task_row(&mut tasks, 2, "Waiting");
    assert_eq!(tasks, vec!["< 1 > Running", "< 12 > Running", "< 2 > Waiting"]);
    // the row of the task is written, the others stay
    update_task_row(&mut tasks, 12, "Completed");
    assert_eq!(tasks, vec!["< 1 > Running", "< 12 > Completed", "< 2 > Waiting"]);
    update_task_row(&mut tasks, 1, "");
    assert_eq!(tasks, vec!["< 1 > ", "< 12 > Completed", "< 2 > Waiting"]);
    // the first row that holds the mark is the one, wherever the mark stands in it
    let mut tasks = vec!["see < 7 > there".to_string(), "< 7 > Running".to_string()];
    update_task_row(&mut tasks, 7, "Failed");
    assert_eq!(tasks, vec!["< 7 > Failed", "< 7 > Running"]);
    update_task_row(&mut tasks, u64::MAX, "x");
    assert_eq!(tasks[2], "< 18446744073709551615 > x");
    update_task_row(&mut tasks, 0, "y");
    assert_eq!(tasks[3], "< 0 > y");
}
