use procdash::input::encode_char;
use procdash::queue::{InputError, InputQueue};
use procdash::session::{ProcessContainer, INPUT_CAPACITY};

#[test]
fn queue_backpressure_at_capacity() {
    let mut q = InputQueue::new(3);
    assert!(q.submit(vec![1]).is_ok());
    assert!(q.submit(vec![2]).is_ok());
    assert!(q.submit(vec![3]).is_ok());
    assert_eq!(Err(InputError::Full), q.submit(vec![4]));
    assert_eq!(3, q.len());
}

#[test]
fn queue_is_fifo() {
    let mut q = InputQueue::new(8);
    q.submit(vec![1]).unwrap();
    q.submit(vec![2]).unwrap();
    q.submit(vec![3]).unwrap();
    assert_eq!(Some(vec![1]), q.pop());
    assert_eq!(Some(vec![2]), q.pop());
    assert_eq!(Some(vec![3]), q.pop());
    assert_eq!(None, q.pop());
}

#[test]
fn queue_close_abandons_pending() {
    let mut q = InputQueue::new(8);
    q.submit(vec![1]).unwrap();
    q.close();
    assert_eq!(0, q.len());
    assert_eq!(Err(InputError::Closed), q.submit(vec![2]));
}

#[test]
fn session_backpressure_at_default_capacity() {
    let mut s = ProcessContainer::new("web".to_string(), 5, 10);
    for i in 0..INPUT_CAPACITY {
        assert!(s.handle_input(vec![i as u8]).is_ok());
    }
    assert_eq!(Err(InputError::Full), s.handle_input(vec![0]));
}

#[test]
fn session_input_is_fifo() {
    let mut s = ProcessContainer::new("web".to_string(), 5, 10);
    s.handle_input(vec![104, 105]).unwrap();
    s.handle_input(vec![10]).unwrap();
    assert_eq!(Some(vec![104, 105]), s.take_input());
    assert_eq!(Some(vec![10]), s.take_input());
    assert_eq!(None, s.take_input());
}

#[test]
fn output_reaches_the_screen() {
    let mut s = ProcessContainer::new("web".to_string(), 5, 10);
    assert!(s.apply_output(&b"hi".to_vec()));
    let screen = s.current_screen(5, 10);
    assert!(screen.contents().starts_with("hi"));
}

#[test]
fn zero_byte_read_ends_output_capture() {
    let mut s = ProcessContainer::new("web".to_string(), 5, 10);
    assert!(s.apply_output(&b"hi".to_vec()));
    assert!(!s.apply_output(&Vec::new()));
    assert!(!s.apply_output(&b"more".to_vec()));
    let screen = s.current_screen(5, 10);
    assert!(screen.contents().starts_with("hi"));
    assert!(!screen.contents().contains("more"));
}

#[test]
fn lazy_resize_consumed_on_render() {
    let mut s = ProcessContainer::new("web".to_string(), 5, 10);
    assert_eq!((5, 10), s.current_screen(5, 10).size());
    s.mark_needs_resize();
    s.mark_needs_resize();
    assert_eq!((7, 20), s.current_screen(7, 20).size());
    assert_eq!((7, 20), s.current_screen(9, 30).size());
}

#[test]
fn teardown_halts_every_task() {
    let mut s = ProcessContainer::new("web".to_string(), 5, 10);
    s.handle_input(vec![1]).unwrap();
    s.teardown();
    assert_eq!(Err(InputError::Closed), s.handle_input(vec![2]));
    assert_eq!(None, s.take_input());
    assert!(!s.apply_output(&b"x".to_vec()));
}

#[test]
fn child_exit_freezes_but_keeps_session() {
    let mut s = ProcessContainer::new("web".to_string(), 5, 10);
    s.apply_output(&b"done".to_vec());
    s.note_child_exit();
    let screen = s.current_screen(5, 10);
    assert!(screen.contents().starts_with("done"));
}

#[test]
fn encode_ascii_char() {
    assert_eq!(vec![97], encode_char('a'));
    assert_eq!(vec![113], encode_char('q'));
}

#[test]
fn encode_multibyte_chars() {
    assert_eq!("\u{e9}".as_bytes().to_vec(), encode_char('\u{e9}'));
    assert_eq!("\u{20ac}".as_bytes().to_vec(), encode_char('\u{20ac}'));
    assert_eq!("\u{1f600}".as_bytes().to_vec(), encode_char('\u{1f600}'));
}
