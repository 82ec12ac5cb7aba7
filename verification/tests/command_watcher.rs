use mcserver_handler::command_watcher::{line_text, CommandWatcher};

#[test]
fn a_command_is_written_with_a_line_feed() {
    let mut watcher: CommandWatcher<i32> = CommandWatcher::new();
    assert_eq!(watcher.send_string(None, "stop".to_string()), Some("stop\n".to_string()));
    assert_eq!(watcher.send_string(None, "say hi there".to_string()), Some("say hi there\n".to_string()));
    assert_eq!(watcher.send_string(None, "".to_string()), Some("\n".to_string()));
}

#[test]
fn nothing_is_written_once_the_process_has_exited() {
    let mut watcher: CommandWatcher<i32> = CommandWatcher::new();
    assert_eq!(watcher.send_string(Some(0), "stop".to_string()), None);
    assert_eq!(watcher.send_string(None, "stop".to_string()), None);
    assert_eq!(watcher.check_complete(None), Some(0));
}

#[test]
fn the_exit_that_was_seen_first_is_remembered() {
    let mut watcher: CommandWatcher<i32> = CommandWatcher::new();
    assert_eq!(watcher.check_complete(None), None);
    assert_eq!(watcher.check_complete(None), None);
    assert_eq!(watcher.check_complete(Some(3)), Some(3));
    assert_eq!(watcher.check_complete(None), Some(3));
    assert_eq!(watcher.check_complete(Some(4)), Some(3));
}

#[test]
fn the_text_of_a_line_is_the_line_without_its_line_feed() {
    assert_eq!(line_text("say hi\n"), "say hi");
    assert_eq!(line_text("say hi"), "say hi");
    assert_eq!(line_text("say hi\r\n"), "say hi\r");
    assert_eq!(line_text("a\n\n"), "a\n");
    assert_eq!(line_text("\n"), "");
    assert_eq!(line_text(""), "");
}

#[test]
fn a_line_from_the_operator_is_written_as_it_was_read() {
    let mut watcher: CommandWatcher<i32> = CommandWatcher::new();
    let read = "whitelist add someone\n";
    assert_eq!(watcher.send_string(None, line_text(read)), Some(read.to_string()));
}
