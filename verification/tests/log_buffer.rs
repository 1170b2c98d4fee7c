use rust_esp_starter::console::{max_chars_for, SharedConsoleState, MAX_LINES};
use rust_esp_starter::log_buffer::LogBuffer;
use rust_esp_starter::wrap::{wrap_message, wrap_word_list};

fn strings(items: &[&str]) -> Vec<String> {
    items.iter().map(|s| s.to_string()).collect()
}

#[test]
fn capacity_three_keeps_newest_three() {
    let mut state = SharedConsoleState::with_limits(3, 38);
    state.add_message("a".to_string());
    state.add_message("b".to_string());
    state.add_message("c".to_string());
    state.add_message("d".to_string());
    assert_eq!(state.snapshot(), strings(&["b", "c", "d"]));
}

#[test]
fn width_ten_wraps_three_words_onto_three_lines() {
    assert_eq!(
        wrap_message("hello there friend", 10),
        strings(&["hello", "there", "friend"])
    );
    let mut buffer = LogBuffer::new(18, 10);
    buffer.append_message("hello there friend");
    assert_eq!(buffer.snapshot(), strings(&["hello", "there", "friend"]));
}

#[test]
fn words_join_while_they_fit() {
    assert_eq!(wrap_message("hello there friend", 11), strings(&["hello there", "friend"]));
    assert_eq!(wrap_message("hello there friend", 18), strings(&["hello there friend"]));
    assert_eq!(wrap_message("hello there friend", 17), strings(&["hello there", "friend"]));
    assert_eq!(wrap_message("ab cd ef", 5), strings(&["ab cd", "ef"]));
}

#[test]
fn whitespace_runs_collapse_to_single_spaces() {
    assert_eq!(wrap_message("  a \t b\n\nc  ", 38), strings(&["a b c"]));
}

#[test]
fn oversized_word_stands_alone_uncut() {
    assert_eq!(
        wrap_message("a abcdefghijkl b", 5),
        strings(&["a", "abcdefghijkl", "b"])
    );
    assert_eq!(wrap_message("abcdefghijkl", 0), strings(&["abcdefghijkl"]));
}

#[test]
fn no_line_is_wider_than_the_limit_unless_it_is_one_word() {
    let msg = "the quick brown fox jumps over the extraordinarily lazy dog again and again";
    for width in 0..30usize {
        for line in wrap_message(msg, width) {
            let chars = line.chars().count();
            assert!(chars <= width || !line.contains(' '), "{} at {}", line, width);
        }
    }
}

#[test]
fn wrapping_loses_no_word() {
    let msg = "the quick brown fox jumps over the lazy dog";
    for width in 0..50usize {
        let joined = wrap_message(msg, width).join(" ");
        assert_eq!(joined, msg);
    }
}

#[test]
fn empty_input_adds_nothing() {
    let mut buffer = LogBuffer::new(2, 10);
    buffer.append_message("one");
    buffer.append_message("two");
    buffer.append_message("");
    buffer.append_message("   \t ");
    assert_eq!(buffer.snapshot(), strings(&["one", "two"]));
    assert!(wrap_message("", 10).is_empty());
    assert!(wrap_word_list(&Vec::new(), 10).is_empty());
}

#[test]
fn width_counts_characters_not_bytes() {
    assert_eq!(wrap_message("\u{e9}\u{e9}\u{e9} \u{e9}\u{e9}", 6), strings(&["\u{e9}\u{e9}\u{e9} \u{e9}\u{e9}"]));
    assert_eq!(wrap_message("\u{e9}\u{e9}\u{e9} \u{e9}\u{e9}", 5), strings(&["\u{e9}\u{e9}\u{e9}", "\u{e9}\u{e9}"]));
}

#[test]
fn length_never_exceeds_capacity() {
    let mut state = SharedConsoleState::new();
    for i in 0..100 {
        state.add_message(format!("message number {} with several words that wrap around", i));
        assert!(state.len() <= MAX_LINES);
    }
    assert_eq!(state.len(), MAX_LINES);
}

#[test]
fn eviction_count_follows_the_free_slots() {
    // capacity 5, 3 lines held, 4 lines added: 2 free slots, so 2 evicted
    let mut buffer = LogBuffer::new(5, 1);
    buffer.append_message("a b c");
    assert_eq!(buffer.len(), 3);
    buffer.append_message("d e f g");
    assert_eq!(buffer.snapshot(), strings(&["c", "d", "e", "f", "g"]));
    // room for all: nothing evicted
    let mut roomy = LogBuffer::new(5, 1);
    roomy.append_message("a b");
    roomy.append_message("c d");
    assert_eq!(roomy.snapshot(), strings(&["a", "b", "c", "d"]));
    // more new lines than capacity: the message's own first lines go too
    let mut small = LogBuffer::new(2, 1);
    small.append_message("x");
    small.append_message("a b c d");
    assert_eq!(small.snapshot(), strings(&["c", "d"]));
}

#[test]
fn push_evicting_drops_the_oldest_line() {
    let mut buffer = LogBuffer::new(2, 10);
    buffer.push_evicting("one".to_string());
    buffer.push_evicting("two".to_string());
    assert_eq!(buffer.snapshot(), strings(&["one", "two"]));
    buffer.push_evicting("three".to_string());
    assert_eq!(buffer.snapshot(), strings(&["two", "three"]));
    assert_eq!(buffer.line(0).map(|s| s.as_str()), Some("two"));
    assert_eq!(buffer.line(1).map(|s| s.as_str()), Some("three"));
    assert_eq!(buffer.line(2), None);
}

#[test]
fn zero_capacity_holds_nothing() {
    let mut buffer = LogBuffer::new(0, 10);
    buffer.push_evicting("one".to_string());
    buffer.append_message("two three");
    assert!(buffer.is_empty());
    assert_eq!(buffer.len(), 0);
}

#[test]
fn buffer_clear_empties() {
    let mut buffer = LogBuffer::new(4, 10);
    buffer.append_message("one two three");
    assert!(!buffer.is_empty());
    buffer.clear();
    assert!(buffer.is_empty());
    assert_eq!(buffer.max_lines(), 4);
    assert_eq!(buffer.max_chars(), 10);
}

#[test]
fn default_limits() {
    let state = SharedConsoleState::new();
    assert_eq!(state.max_lines(), 18);
    assert_eq!(state.max_chars(), 38);
    assert_eq!(state.len(), 0);
    assert!(state.redraw_pending());
    assert_eq!(max_chars_for(240, 6), 38);
    assert_eq!(max_chars_for(240, 10), 22);
    assert_eq!(max_chars_for(11, 6), 0);
    assert_eq!(max_chars_for(12, 6), 0);
    assert_eq!(max_chars_for(18, 6), 1);
}

#[test]
fn add_message_sets_the_flag_and_poll_clears_it() {
    let mut state = SharedConsoleState::with_limits(4, 20);
    assert!(state.take_redraw());
    assert!(!state.take_redraw());
    state.add_message("hello".to_string());
    assert!(state.redraw_pending());
    state.add_message("again".to_string());
    assert!(state.take_redraw());
    assert!(!state.redraw_pending());
    assert!(!state.take_redraw());
    assert_eq!(state.snapshot(), strings(&["hello", "again"]));
    state.clear();
    assert!(state.take_redraw());
    assert_eq!(state.len(), 0);
}

#[test]
fn empty_message_still_marks_a_redraw() {
    let mut state = SharedConsoleState::with_limits(4, 20);
    state.take_redraw();
    state.add_message(String::new());
    assert!(state.take_redraw());
    assert_eq!(state.len(), 0);
}
