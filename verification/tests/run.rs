use range_delete::key::text_of_key;
use range_delete::run::{advance, step, Action, Event, Phase, RunState, PAGE_SIZE};

fn key(text: &str) -> Vec<u8> {
    text.as_bytes().to_vec()
}

fn fresh() -> RunState {
    RunState::new("a".to_string(), "z".to_string(), 100)
}

fn deleting(keys: Vec<Vec<u8>>) -> RunState {
    let (state, action) = step(fresh(), Event::Scanned(keys));
    assert_eq!(action, Action::Delete);
    state
}

#[test]
fn page_size_is_one_hundred() {
    assert_eq!(PAGE_SIZE, 100);
}

#[test]
fn new_run_is_due_to_scan() {
    let state = RunState::new("blockmeta_v1_cl".to_string(), "blockmeta_v2_cl".to_string(), 100);
    assert_eq!(state.phase(), Phase::Scanning);
    assert_eq!(state.action(), Action::Scan);
    assert_eq!(state.start(), "blockmeta_v1_cl");
    assert_eq!(state.end(), "blockmeta_v2_cl");
    assert_eq!(state.limit(), 100);
    assert!(state.page().is_empty());
    assert_eq!(state.deleted(), 0);
    assert_eq!(state.errors(), 0);
    assert_eq!(state.last_error(), None);
}

#[test]
fn failed_scan_is_counted_and_retried() {
    let (state, action) = step(fresh(), Event::ScanFailed("timeout".to_string()));
    assert_eq!(action, Action::Scan);
    assert_eq!(state.phase(), Phase::Scanning);
    assert_eq!(state.errors(), 1);
    assert_eq!(state.last_error(), Some(&"timeout".to_string()));
    assert_eq!(state.start(), "a");
    assert_eq!(state.end(), "z");
    assert_eq!(state.deleted(), 0);
}

#[test]
fn failed_scans_add_up() {
    let mut state = fresh();
    for n in 1..=5u64 {
        let (next, action) = step(state, Event::ScanFailed(format!("failure {}", n)));
        assert_eq!(action, Action::Scan);
        assert_eq!(next.errors(), n);
        state = next;
    }
    assert_eq!(state.last_error(), Some(&"failure 5".to_string()));
    assert_eq!(state.start(), "a");
}

#[test]
fn empty_scan_ends_the_run() {
    let (state, action) = step(fresh(), Event::Scanned(Vec::new()));
    assert_eq!(action, Action::Finish);
    assert_eq!(state.phase(), Phase::Done);
    assert_eq!(state.deleted(), 0);
    assert_eq!(state.errors(), 0);
    assert_eq!(state.start(), "a");
}

#[test]
fn empty_scan_after_failures_keeps_the_counters() {
    let (state, _) = step(fresh(), Event::ScanFailed("timeout".to_string()));
    let (state, action) = step(state, Event::Scanned(Vec::new()));
    assert_eq!(action, Action::Finish);
    assert_eq!(state.deleted(), 0);
    assert_eq!(state.errors(), 1);
    assert_eq!(state.last_error(), Some(&"timeout".to_string()));
}

#[test]
fn scanned_keys_become_the_page_to_delete() {
    let keys = vec![key("b"), key("c"), key("d")];
    let (state, action) = step(fresh(), Event::Scanned(keys.clone()));
    assert_eq!(action, Action::Delete);
    assert_eq!(state.phase(), Phase::Deleting);
    assert_eq!(state.page(), &keys);
    assert_eq!(state.start(), "a");
    assert_eq!(state.deleted(), 0);
}

#[test]
fn page_keeps_the_order_of_the_scan() {
    let keys = vec![key("d"), key("b"), key("b"), key("c")];
    let (state, _) = step(fresh(), Event::Scanned(keys.clone()));
    assert_eq!(state.page(), &keys);
}

#[test]
fn failed_delete_goes_back_to_scanning() {
    let state = deleting(vec![key("b"), key("c")]);
    let (state, action) = step(state, Event::DeleteFailed("not leader".to_string()));
    assert_eq!(action, Action::Scan);
    assert_eq!(state.phase(), Phase::Scanning);
    assert_eq!(state.errors(), 1);
    assert_eq!(state.last_error(), Some(&"not leader".to_string()));
    assert_eq!(state.start(), "a");
    assert_eq!(state.deleted(), 0);
    assert!(state.page().is_empty());
}

#[test]
fn delete_moves_the_cursor_to_the_last_key() {
    let state = deleting(vec![key("b"), key("c"), key("d")]);
    let (state, action) = step(state, Event::Deleted);
    assert_eq!(action, Action::Report);
    assert_eq!(state.phase(), Phase::Advancing);
    assert_eq!(state.start(), "d");
    assert_eq!(state.end(), "z");
    assert_eq!(state.deleted(), 3);
    assert_eq!(state.errors(), 0);
    assert!(state.page().is_empty());
}

#[test]
fn report_makes_the_next_scan_due() {
    let state = deleting(vec![key("b")]);
    let (state, _) = step(state, Event::Deleted);
    let (state, action) = step(state, Event::Reported);
    assert_eq!(action, Action::Scan);
    assert_eq!(state.phase(), Phase::Scanning);
    assert_eq!(state.start(), "b");
    assert_eq!(state.deleted(), 1);
}

#[test]
fn cursor_takes_the_lossy_text_of_a_key_that_is_not_text() {
    let state = deleting(vec![key("b"), vec![b'c', 0xff, b'd']]);
    let (state, _) = step(state, Event::Deleted);
    assert_eq!(state.start(), "c\u{fffd}d");
    assert_eq!(state.deleted(), 2);
}

#[test]
fn text_of_key_decodes_utf8() {
    assert_eq!(text_of_key(&key("blockmeta_v1_cl;0x00ff")), "blockmeta_v1_cl;0x00ff");
    assert_eq!(text_of_key(&vec![0xc3, 0xa9]), "\u{e9}");
    assert_eq!(text_of_key(&Vec::new()), "");
}

#[test]
fn text_of_key_replaces_what_is_not_utf8() {
    assert_eq!(text_of_key(&vec![0xf0]), "\u{fffd}");
    assert_eq!(text_of_key(&vec![b'a', 0x80, b'b']), "a\u{fffd}b");
}

#[test]
fn advance_sets_the_given_text() {
    let state = deleting(vec![key("b"), key("c")]);
    let state = advance(state, "somewhere".to_string());
    assert_eq!(state.phase(), Phase::Advancing);
    assert_eq!(state.start(), "somewhere");
    assert_eq!(state.deleted(), 2);
    assert!(state.page().is_empty());
}

#[test]
fn advance_leaves_a_run_that_is_not_deleting() {
    let state = advance(fresh(), "somewhere".to_string());
    assert_eq!(state.phase(), Phase::Scanning);
    assert_eq!(state.start(), "a");
    assert_eq!(state.deleted(), 0);
}

#[test]
fn events_that_answer_nothing_are_ignored() {
    let (state, action) = step(fresh(), Event::Deleted);
    assert_eq!((state.phase(), action), (Phase::Scanning, Action::Scan));
    let (state, action) = step(state, Event::DeleteFailed("late".to_string()));
    assert_eq!((state.phase(), action), (Phase::Scanning, Action::Scan));
    assert_eq!(state.errors(), 0);
    assert_eq!(state.last_error(), None);
    let (state, action) = step(state, Event::Reported);
    assert_eq!((state.phase(), action), (Phase::Scanning, Action::Scan));

    let state = deleting(vec![key("b")]);
    let (state, action) = step(state, Event::Scanned(vec![key("c")]));
    assert_eq!((state.phase(), action), (Phase::Deleting, Action::Delete));
    assert_eq!(state.page(), &vec![key("b")]);
    let (state, action) = step(state, Event::ScanFailed("late".to_string()));
    assert_eq!((state.phase(), action), (Phase::Deleting, Action::Delete));
    assert_eq!(state.errors(), 0);
    let (state, action) = step(state, Event::Reported);
    assert_eq!((state.phase(), action), (Phase::Deleting, Action::Delete));

    let (state, _) = step(state, Event::Deleted);
    let (state, action) = step(state, Event::Deleted);
    assert_eq!((state.phase(), action), (Phase::Advancing, Action::Report));
    assert_eq!(state.deleted(), 1);
    let (state, action) = step(state, Event::Scanned(vec![key("c")]));
    assert_eq!((state.phase(), action), (Phase::Advancing, Action::Report));
}

#[test]
fn done_stays_done() {
    let (state, _) = step(fresh(), Event::Scanned(Vec::new()));
    let (state, action) = step(state, Event::Scanned(vec![key("b")]));
    assert_eq!((state.phase(), action), (Phase::Done, Action::Finish));
    let (state, action) = step(state, Event::ScanFailed("late".to_string()));
    assert_eq!((state.phase(), action), (Phase::Done, Action::Finish));
    let (state, action) = step(state, Event::Deleted);
    assert_eq!((state.phase(), action), (Phase::Done, Action::Finish));
    let (state, action) = step(state, Event::Reported);
    assert_eq!((state.phase(), action), (Phase::Done, Action::Finish));
    assert_eq!(state.deleted(), 0);
    assert_eq!(state.errors(), 0);
}

#[test]
fn has_room_on_an_ordinary_run() {
    let state = fresh();
    assert!(state.has_room(&Event::ScanFailed("x".to_string())));
    assert!(state.has_room(&Event::Scanned(vec![key("b")])));
    let state = deleting(vec![key("b")]);
    assert!(state.has_room(&Event::Deleted));
    assert!(state.has_room(&Event::DeleteFailed("x".to_string())));
}

#[test]
fn cursor_never_moves_back() {
    let pages = vec![
        vec![key("b"), key("c")],
        vec![key("c"), key("c\u{e9}")],
        vec![key("c\u{e9}")],
        vec![key("y"), key("yy")],
    ];
    let mut state = fresh();
    for page in pages {
        let before = state.start().clone();
        let (next, _) = step(state, Event::ScanFailed("retry".to_string()));
        assert_eq!(next.start(), &before);
        let (next, _) = step(next, Event::Scanned(page.clone()));
        assert_eq!(next.start(), &before);
        let (next, _) = step(next, Event::DeleteFailed("retry".to_string()));
        assert_eq!(next.start(), &before);
        let (next, _) = step(next, Event::Scanned(page));
        let (next, _) = step(next, Event::Deleted);
        assert!(next.start().as_bytes() >= before.as_bytes());
        let (next, _) = step(next, Event::Reported);
        assert!(next.start().as_bytes() >= before.as_bytes());
        state = next;
    }
    assert_eq!(state.start(), "yy");
    assert_eq!(state.deleted(), 7);
    assert_eq!(state.errors(), 8);
}
