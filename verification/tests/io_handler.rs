use mcserver_handler::io_handler::ServerIOHandler;

fn lines(items: &[&str]) -> Vec<String> {
    items.iter().map(|s| s.to_string()).collect()
}

#[test]
fn a_new_handler_holds_nothing() {
    let handler = ServerIOHandler::new(3);
    assert_eq!(handler.total_string, Vec::<String>::new());
    assert_eq!(handler.max_lines, 3);
    assert_eq!(handler.console_text(), "");
}

#[test]
fn lines_are_kept_in_the_order_of_arrival() {
    let mut handler = ServerIOHandler::new(5);
    handler.handle_output(lines(&["a\n", "b\n"]));
    handler.handle_output(lines(&["c\n"]));
    assert_eq!(handler.total_string, lines(&["a\n", "b\n", "c\n"]));
}

#[test]
fn the_ring_holds_the_most_recent_lines() {
    let mut handler = ServerIOHandler::new(3);
    handler.handle_output(lines(&["1", "2", "3", "4", "5"]));
    assert_eq!(handler.total_string, lines(&["3", "4", "5"]));
    handler.handle_output(lines(&["6"]));
    assert_eq!(handler.total_string, lines(&["4", "5", "6"]));
    handler.handle_output(lines(&["7", "8", "9", "10"]));
    assert_eq!(handler.total_string, lines(&["8", "9", "10"]));
    assert_eq!(handler.max_lines, 3);
}

#[test]
fn the_ring_is_the_same_however_the_lines_are_batched() {
    let all: Vec<String> = (0..40).map(|n| format!("line {}\n", n)).collect();
    for cap in [0usize, 1, 2, 7, 39, 40, 41, 100] {
        let mut one = ServerIOHandler::new(cap);
        one.handle_output(all.clone());
        let mut single = ServerIOHandler::new(cap);
        for line in &all {
            single.handle_output(vec![line.clone()]);
        }
        let mut uneven = ServerIOHandler::new(cap);
        uneven.handle_output(all[..13].to_vec());
        uneven.handle_output(Vec::new());
        uneven.handle_output(all[13..].to_vec());
        let expected: Vec<String> = all[all.len().saturating_sub(cap)..].to_vec();
        assert_eq!(one.total_string, expected);
        assert_eq!(single.total_string, expected);
        assert_eq!(uneven.total_string, expected);
    }
}

#[test]
fn a_ring_without_room_holds_nothing() {
    let mut handler = ServerIOHandler::new(0);
    handler.handle_output(lines(&["a", "b"]));
    assert_eq!(handler.total_string, Vec::<String>::new());
}

#[test]
fn nothing_received_changes_nothing() {
    let mut handler = ServerIOHandler { total_string: lines(&["a", "b", "c"]), max_lines: 2 };
    handler.handle_output(Vec::new());
    assert_eq!(handler.total_string, lines(&["a", "b", "c"]));
    handler.handle_output(lines(&["d"]));
    assert_eq!(handler.total_string, lines(&["c", "d"]));
}

#[test]
fn the_console_text_joins_the_lines() {
    let mut handler = ServerIOHandler::new(4);
    handler.handle_output(lines(&["one"]));
    assert_eq!(handler.console_text(), "one");
    handler.handle_output(lines(&["two\n", "", "four"]));
    assert_eq!(handler.console_text(), "one\ntwo\n\n\nfour");
}
