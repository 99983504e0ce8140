use procdash::input::{KeyPress, Step, TermEvent};
use procdash::process::ProcessGroup;
use procdash::queue::InputError;

fn group_of_two() -> ProcessGroup {
    let mut g = ProcessGroup::new(24, 80);
    g.add("web".to_string());
    g.add("worker".to_string());
    g
}

#[test]
fn input_reaches_focused_session_only() {
    let mut g = group_of_two();
    g.handle_input(vec![120]).unwrap();
    assert_eq!(Some(vec![120]), g.take_input_at(0));
    assert_eq!(None, g.take_input_at(1));
}

#[test]
fn input_follows_a_focus_move() {
    let mut g = group_of_two();
    g.next();
    g.handle_input(vec![121]).unwrap();
    assert_eq!(None, g.take_input_at(0));
    assert_eq!(Some(vec![121]), g.take_input_at(1));
    g.prev();
    g.handle_input(vec![122]).unwrap();
    assert_eq!(Some(vec![122]), g.take_input_at(0));
    assert_eq!(None, g.take_input_at(1));
}

#[test]
fn focus_wraps_around() {
    let mut g = group_of_two();
    assert_eq!(0, g.focus_index());
    g.next();
    assert_eq!(1, g.focus_index());
    g.next();
    assert_eq!(0, g.focus_index());
    g.prev();
    assert_eq!(1, g.focus_index());
}

#[test]
fn names_and_len_in_insertion_order() {
    let g2 = group_of_two();
    assert_eq!(2, g2.len());
    assert_eq!(Some(&"web".to_string()), g2.name_at(0));
    assert_eq!(Some(&"worker".to_string()), g2.name_at(1));
    assert_eq!(None, g2.name_at(2));
}

#[test]
fn resize_marks_every_session() {
    let mut g = group_of_two();
    g.resize(30, 40);
    assert_eq!((30, 40), g.current_screen(0).unwrap().size());
    assert_eq!((30, 40), g.current_screen(1).unwrap().size());
    assert!(g.current_screen(2).is_none());
}

#[test]
fn resize_twice_consumed_once() {
    let mut g = group_of_two();
    g.resize(30, 40);
    g.resize(30, 40);
    assert_eq!((30, 40), g.current_screen(0).unwrap().size());
    assert_eq!((30, 40), g.current_screen(0).unwrap().size());
}

#[test]
fn output_routed_by_index() {
    let mut g = group_of_two();
    assert!(g.apply_output_at(1, &b"w2".to_vec()));
    assert!(g.current_screen(1).unwrap().contents().starts_with("w2"));
    assert!(!g.current_screen(0).unwrap().contents().contains("w2"));
}

#[test]
fn quit_keys_quit() {
    let mut g = group_of_two();
    assert_eq!(Step::Quit, g.handle_event(TermEvent::Key(KeyPress::Char('q', false))));
    assert_eq!(Step::Quit, g.handle_event(TermEvent::Key(KeyPress::Char('c', true))));
}

#[test]
fn character_keys_forward_utf8_bytes() {
    let mut g = group_of_two();
    assert_eq!(Step::Continue, g.handle_event(TermEvent::Key(KeyPress::Char('x', false))));
    assert_eq!(Some(vec![120]), g.take_input_at(0));
    assert_eq!(Step::Continue, g.handle_event(TermEvent::Key(KeyPress::Char('c', false))));
    assert_eq!(Some(vec![99]), g.take_input_at(0));
}

#[test]
fn special_keys_forward_control_bytes() {
    let mut g = group_of_two();
    g.handle_event(TermEvent::Key(KeyPress::Enter));
    g.handle_event(TermEvent::Key(KeyPress::Backspace));
    g.handle_event(TermEvent::Key(KeyPress::Up));
    g.handle_event(TermEvent::Key(KeyPress::Down));
    assert_eq!(Some(vec![10]), g.take_input_at(0));
    assert_eq!(Some(vec![8]), g.take_input_at(0));
    assert_eq!(Some(vec![27, 91, 65]), g.take_input_at(0));
    assert_eq!(Some(vec![27, 91, 66]), g.take_input_at(0));
}

#[test]
fn arrow_keys_move_focus() {
    let mut g = group_of_two();
    assert_eq!(Step::Continue, g.handle_event(TermEvent::Key(KeyPress::Right)));
    assert_eq!(1, g.focus_index());
    assert_eq!(Step::Continue, g.handle_event(TermEvent::Key(KeyPress::Left)));
    assert_eq!(0, g.focus_index());
}

#[test]
fn resize_event_reaches_every_session() {
    let mut g = group_of_two();
    assert_eq!(Step::Continue, g.handle_event(TermEvent::Resize(31, 41)));
    assert_eq!((31, 41), g.current_screen(0).unwrap().size());
    assert_eq!((31, 41), g.current_screen(1).unwrap().size());
}

#[test]
fn teardown_leaves_no_task_running() {
    let mut g = group_of_two();
    g.handle_input(vec![1]).unwrap();
    g.teardown();
    assert_eq!(Err(InputError::Closed), g.handle_input(vec![2]));
    assert_eq!(None, g.take_input_at(0));
    assert!(!g.apply_output_at(0, &b"x".to_vec()));
    assert!(!g.apply_output_at(1, &b"x".to_vec()));
}

#[test]
fn child_exit_keeps_frozen_screen_in_group() {
    let mut g = group_of_two();
    g.apply_output_at(0, &b"bye".to_vec());
    g.note_child_exit_at(0);
    assert_eq!(2, g.len());
    assert!(g.current_screen(0).unwrap().contents().starts_with("bye"));
}

#[test]
fn empty_group_is_safe() {
    let mut g = ProcessGroup::new(24, 80);
    g.next();
    g.prev();
    g.deliver_input(vec![1]);
    assert_eq!(Step::Continue, g.handle_event(TermEvent::Key(KeyPress::Char('x', false))));
    assert_eq!(0, g.len());
}

#[test]
fn full_queue_reports_full_and_drops() {
    let mut g = ProcessGroup::new(24, 80);
    g.add("web".to_string());
    for _ in 0..32 {
        g.handle_input(vec![0]).unwrap();
    }
    assert_eq!(Err(InputError::Full), g.handle_input(vec![1]));
    g.deliver_input(vec![2]);
    for _ in 0..32 {
        assert_eq!(Some(vec![0]), g.take_input_at(0));
    }
    assert_eq!(None, g.take_input_at(0));
}
