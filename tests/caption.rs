use subtidal::caption::{strip_overlap, CaptionBuffer};

fn chars(s: &str) -> Vec<char> {
    s.chars().collect()
}

#[test]
fn ac1_1_fill_single_line() {
    let mut buf = CaptionBuffer::new(3, 20, 8);
    buf.push(" Hello".to_string());
    buf.push(" world".to_string());
    buf.push(" this".to_string());
    let display = buf.display_text();
    assert_eq!(display, "Hello world this", "Words should fill single line");
    assert!(!display.contains('\n'), "Should not have newline separator");
}

#[test]
fn ac1_2_overflow_to_second_line() {
    let mut buf = CaptionBuffer::new(3, 15, 8);
    buf.push(" Hello".to_string());
    buf.push(" world".to_string());
    buf.push(" this".to_string());
    let display = buf.display_text();
    let lines: Vec<&str> = display.split('\n').collect();
    assert_eq!(lines.len(), 2, "Should have 2 lines");
    assert_eq!(lines[0], "Hello world");
    assert_eq!(lines[1], "this");
}

#[test]
fn ac1_3_shift_when_all_lines_full() {
    let mut buf = CaptionBuffer::new(2, 7, 8);
    buf.push(" Hello".to_string());
    buf.push(" world".to_string());
    assert_eq!(buf.line_count(), 2, "Should have 2 lines filled");
    assert_eq!(buf.line_text(0), "Hello");
    assert_eq!(buf.line_text(1), "world");
    buf.push(" test".to_string());
    let display = buf.display_text();
    let lines: Vec<&str> = display.split('\n').collect();
    assert_eq!(lines.len(), 2, "Should still have max_lines=2 after shift");
    assert_eq!(lines[0], "world", "Line 1 should be old line 2");
    assert_eq!(lines[1], "test", "Line 2 should be new content");
}

#[test]
fn ac1_4_continuation_no_space() {
    let mut buf = CaptionBuffer::new(3, 20, 8);
    buf.push(" Hel".to_string());
    buf.push("lo".to_string());
    let display = buf.display_text();
    assert_eq!(display, "Hello", "Continuation should join without space");
}

#[test]
fn ac1_5_partial_word_overflow() {
    let mut buf = CaptionBuffer::new(3, 10, 8);
    buf.push(" Hello".to_string());
    buf.push(" world".to_string());
    buf.push(" more".to_string());
    assert_eq!(buf.line_count(), 2, "Should have 2 lines before overflow");
    assert_eq!(buf.line_text(1), "world more");
    buf.push("text".to_string());
    let display = buf.display_text();
    let lines: Vec<&str> = display.split('\n').collect();
    assert_eq!(lines.len(), 3, "Should have 3 lines after split");
    assert_eq!(lines[0], "Hello", "Line 1 should have 'Hello'");
    assert_eq!(lines[1], "world", "Line 2 should have 'world' (split off)");
    assert_eq!(lines[2], "moretext", "Line 3 should have 'more' + 'text' joined");
}

#[test]
fn ac1_5_continuation_no_space_at_full_capacity() {
    let mut buf = CaptionBuffer::new(3, 7, 8);
    buf.push(" one".to_string());
    buf.push(" two".to_string());
    buf.push(" three".to_string());
    buf.push(" four".to_string());
    assert_eq!(buf.line_count(), 3, "Buffer should be full at max_lines=3");
    assert_eq!(buf.line_text(0), "one two");
    assert_eq!(buf.line_text(1), "three");
    assert_eq!(buf.line_text(2), "four");
    buf.push("more".to_string());
    assert_eq!(buf.line_count(), 3, "Should still have max_lines=3");
    assert_eq!(buf.line_text(0), "one two", "Line 1 unchanged");
    assert_eq!(buf.line_text(1), "three", "Line 2 unchanged");
    assert_eq!(buf.line_text(2), "fourmore", "Line 3 has joined word replacing old 'four'");
    let display = buf.display_text();
    assert!(display.contains("one two"), "Should contain 'one two'");
    assert!(display.contains("three"), "Should contain 'three'");
    assert!(display.contains("fourmore"), "Should contain 'fourmore'");
    assert_eq!(display.lines().count(), 3, "Display should have 3 lines");
}

#[test]
fn ac1_5_continuation_with_space_overflow() {
    let mut buf = CaptionBuffer::new(3, 20, 8);
    buf.push(" Hello".to_string());
    buf.push(" world".to_string());
    assert_eq!(buf.line_text(0), "Hello world");
    buf.push("ly".to_string());
    assert_eq!(buf.line_text(0), "Hello worldly");

    buf = CaptionBuffer::new(3, 18, 8);
    buf.push(" Hello".to_string());
    buf.push(" world".to_string());
    buf.push("ly".to_string());
    buf.push(" test".to_string());
    buf.push("verylongcontinuation".to_string());

    buf = CaptionBuffer::new(3, 18, 8);
    buf.push(" Hello".to_string());
    buf.push(" world".to_string());
    buf.push(" more".to_string());
    buf.push("text".to_string());
    let display = buf.display_text();
    let lines: Vec<&str> = display.split('\n').collect();
    assert_eq!(lines.len(), 2, "Should have 2 lines after split");
    assert_eq!(lines[0], "Hello world", "First line should be trimmed to 'Hello world'");
    assert_eq!(lines[1], "moretext", "Second line should have partial word + continuation joined");
}

#[test]
fn ac1_6_overlap_deduplication() {
    let mut buf = CaptionBuffer::new(3, 50, 8);
    buf.push(" The quick brown".to_string());
    buf.push(" brown fox".to_string());
    let display = buf.display_text();
    assert_eq!(display, "The quick brown fox", "Overlap should be deduplicated");
    assert!(!display.contains("brownbrown"), "Should not duplicate 'brown'");
}

#[test]
fn ac2_1_oldest_line_expires() {
    let mut buf = CaptionBuffer::new(2, 7, 1);
    buf.push_at(" line1".to_string(), 0);
    buf.push_at(" line2".to_string(), 2_000);
    assert_eq!(buf.line_count(), 2, "Should have 2 lines");
    let expired = buf.expire_at(2_000);
    assert!(expired, "expire() should return true when a line is removed");
    let display = buf.display_text();
    assert_eq!(display, "line2", "Oldest line should be removed");
    assert_eq!(buf.line_count(), 1, "Should have 1 line after expiry");
}

#[test]
fn ac2_2_expiry_gradual_drain() {
    let mut buf = CaptionBuffer::new(3, 5, 1);
    buf.push_at(" one".to_string(), 0);
    buf.push_at(" two".to_string(), 0);
    buf.push_at(" three".to_string(), 0);
    assert_eq!(buf.line_count(), 3, "Should have 3 separate lines");
    let now = 2_000;
    assert!(buf.expire_at(now), "First expire should remove a line");
    assert_eq!(buf.line_count(), 2, "Should have 2 lines after first expire");
    assert!(buf.expire_at(now), "Second expire should remove another line");
    assert_eq!(buf.line_count(), 1, "Should have 1 line after second expire");
    assert!(buf.expire_at(now), "Third expire should remove the last line");
    assert_eq!(buf.line_count(), 0, "Should have 0 lines after third expire");
    assert!(!buf.expire_at(now), "expire() should return false when buffer is empty");
}

#[test]
fn ac2_3_active_lines_dont_expire() {
    let mut buf = CaptionBuffer::new(2, 20, 1);
    buf.push_at(" old_content".to_string(), 0);
    buf.push_at(" recent_content".to_string(), 2_000);
    assert_eq!(buf.line_count(), 2, "Should have 2 lines");
    assert!(buf.expire_at(2_000), "Should remove the expired first line");
    assert_eq!(buf.line_count(), 1, "Should have 1 line after expiry");
    assert_eq!(buf.line_text(0), "recent_content");
    assert!(!buf.expire_at(2_000), "Active line should not expire");
}

#[test]
fn two_words_share_one_line() {
    let mut buf = CaptionBuffer::new(3, 40, 8);
    buf.push(" Hello".to_string());
    buf.push(" world".to_string());
    assert_eq!(buf.display_text(), "Hello world");
    assert_eq!(buf.line_count(), 1);
}

#[test]
fn short_overlap_is_kept() {
    let mut buf = CaptionBuffer::new(3, 50, 8);
    buf.push(" abc xyz".to_string());
    buf.push(" xyz more".to_string());
    assert_eq!(buf.display_text(), "abc xyz xyz more");
}

#[test]
fn overlap_ignores_case() {
    let mut buf = CaptionBuffer::new(3, 50, 8);
    buf.push(" The Quick Brown".to_string());
    buf.push(" BROWN fox".to_string());
    assert_eq!(buf.display_text(), "The Quick Brown fox");
}

#[test]
fn longest_overlap_is_removed_once() {
    let mut buf = CaptionBuffer::new(3, 60, 8);
    buf.push(" the cat sat the cat".to_string());
    buf.push(" the cat sat down".to_string());
    assert_eq!(buf.display_text(), "the cat sat the cat sat down");
}

#[test]
fn fully_repeated_fragment_changes_nothing() {
    let mut buf = CaptionBuffer::new(3, 50, 8);
    buf.push(" The quick brown".to_string());
    buf.push(" quick brown".to_string());
    assert_eq!(buf.display_text(), "The quick brown");
}

#[test]
fn whitespace_only_fragment_is_ignored() {
    let mut buf = CaptionBuffer::new(3, 50, 8);
    buf.push(" Hello".to_string());
    buf.push("   ".to_string());
    buf.push(String::new());
    assert_eq!(buf.display_text(), "Hello");
}

#[test]
fn empty_buffer_shows_nothing() {
    let buf = CaptionBuffer::new(1, 10, 8);
    assert_eq!(buf.display_text(), "");
    assert_eq!(buf.line_count(), 0);
}

#[test]
fn continuation_on_empty_buffer_starts_a_line() {
    let mut buf = CaptionBuffer::new(2, 10, 8);
    buf.push("lo".to_string());
    assert_eq!(buf.display_text(), "lo");
}

#[test]
fn single_line_buffer_keeps_newest() {
    let mut buf = CaptionBuffer::new(1, 5, 8);
    buf.push(" alpha".to_string());
    buf.push(" beta".to_string());
    assert_eq!(buf.display_text(), "beta");
}

#[test]
fn line_not_expired_before_threshold() {
    let mut buf = CaptionBuffer::new(2, 20, 1);
    buf.push_at(" hello".to_string(), 0);
    assert!(!buf.expire_at(999));
    assert!(buf.expire_at(1_000));
    assert_eq!(buf.line_count(), 0);
}

#[test]
fn push_refreshes_line_activity() {
    let mut buf = CaptionBuffer::new(2, 20, 1);
    buf.push_at(" hello".to_string(), 0);
    buf.push_at(" there".to_string(), 1_500);
    assert!(!buf.expire_at(2_000));
    assert_eq!(buf.display_text(), "hello there");
}

#[test]
fn expire_removes_one_line_per_call() {
    let mut buf = CaptionBuffer::new(3, 3, 2);
    buf.push_at(" aaa bbb ccc".to_string(), 0);
    assert_eq!(buf.line_count(), 3);
    assert!(buf.expire_at(10_000));
    assert_eq!(buf.display_text(), "bbb\nccc");
}

#[test]
fn strip_overlap_removes_longest_match() {
    let r = strip_overlap(&chars("the quick brown"), &chars("brown fox"), &chars("Brown fox"));
    assert_eq!(r, chars("fox"));
    let r = strip_overlap(&chars("abc xyz"), &chars("xyz more"), &chars("xyz more"));
    assert_eq!(r, chars("xyz more"));
    let r = strip_overlap(&chars("said hello"), &chars("hello"), &chars("hello"));
    assert!(r.is_empty());
}
