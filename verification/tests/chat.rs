use piquant_world::chat::{format_chat, MessageQueue};
use piquant_world::text::{push_chars, push_decimal, push_text, text_of};

#[test]
fn lines_leave_in_the_order_they_came() {
    let mut queue = MessageQueue::new();
    assert_eq!(queue.pop_front(), None);
    queue.queue_chat("alice", "hello".to_string(), 1_700_000_000);
    queue.queue_chat("bob", "a: b".to_string(), 0);
    queue.queue_chat("carol", String::new(), u64::MAX);
    assert_eq!(queue.pop_front(), Some("[1700000000] alice: hello".to_string()));
    assert_eq!(queue.pop_front(), Some("[0] bob: a: b".to_string()));
    assert_eq!(queue.pop_front(), Some("[18446744073709551615] carol: ".to_string()));
    assert_eq!(queue.pop_front(), None);
    assert_eq!(queue.pop_front(), None);
}

#[test]
fn chat_line_has_the_time_the_name_and_the_message() {
    assert_eq!(format_chat("steve", "hi there", 42), "[42] steve: hi there");
    assert_eq!(format_chat("", "", 0), "[0] : ");
    assert_eq!(format_chat("\u{e9}", "\u{4e16}\u{754c}", 1000), "[1000] \u{e9}: \u{4e16}\u{754c}");
}

#[test]
fn numbers_are_written_in_decimal_digits() {
    for n in [0u64, 1, 9, 10, 11, 99, 100, 101, 1234567890, u64::MAX, u64::MAX - 1, 1 << 63] {
        let mut text = String::from("n=");
        push_decimal(&mut text, n);
        assert_eq!(text, format!("n={}", n));
    }
}

#[test]
fn texts_are_put_together_from_characters() {
    let line: Vec<char> = "hello w\u{f6}rld".chars().collect();
    assert_eq!(text_of(&line, 0, 5), "hello");
    assert_eq!(text_of(&line, 6, 11), "w\u{f6}rld");
    assert_eq!(text_of(&line, 3, 3), "");
    let mut text = String::from("a");
    push_chars(&mut text, &line, 4, 7);
    push_text(&mut text, "!\u{e9}");
    push_text(&mut text, "");
    assert_eq!(text, "ao w!\u{e9}");
}
