use sigil_gen::editor::{typable, IntentionText, MAX_INTENTION_LEN};
use sigil_gen::input::FrameInput;

fn typed(text: &str) -> IntentionText {
    let mut t = IntentionText::new();
    for c in text.chars() {
        t.insert(c);
    }
    t
}

#[test]
fn new_text_box_is_empty() {
    let t = IntentionText::new();
    assert_eq!(t.text(), "");
    assert_eq!(t.len(), 0);
    assert_eq!(t.cursor(), 0);
    assert_eq!(t.anchor(), None);
    assert_eq!(t.selection_range(), None);
}

#[test]
fn typable_characters() {
    assert!(typable('a'));
    assert!(typable('Z'));
    assert!(typable('0'));
    assert!(typable('9'));
    assert!(typable(' '));
    assert!(!typable('_'));
    assert!(!typable('\n'));
    assert!(!typable('é'));
    assert!(!typable('-'));
}

#[test]
fn typing_inserts_at_cursor() {
    let mut t = typed("abc");
    assert_eq!(t.text(), "abc");
    assert_eq!(t.cursor(), 3);
    t.move_left(false);
    t.insert('X');
    assert_eq!(t.text(), "abXc");
    assert_eq!(t.cursor(), 3);
}

#[test]
fn typing_refuses_other_characters() {
    let mut t = typed("ab");
    t.insert('!');
    t.insert('_');
    t.insert('ß');
    assert_eq!(t.text(), "ab");
    assert_eq!(t.cursor(), 2);
}

#[test]
fn typing_one_more_than_the_cap_drops_the_last() {
    let mut t = IntentionText::new();
    for i in 0..101 {
        t.insert(if i < 100 { 'a' } else { 'b' });
        let expected = if i < 100 { i + 1 } else { 100 };
        assert_eq!(t.len(), expected);
        assert_eq!(t.cursor(), expected);
    }
    assert_eq!(t.len(), MAX_INTENTION_LEN);
    assert_eq!(t.text(), "a".repeat(100));
    assert_eq!(t.cursor(), 100);
}

#[test]
fn typing_into_a_full_box_keeps_the_selection() {
    let mut t = typed(&"a".repeat(100));
    t.move_left(true);
    t.move_left(true);
    t.insert('z');
    assert_eq!(t.text(), "a".repeat(100));
    assert_eq!(t.cursor(), 98);
    assert_eq!(t.anchor(), Some(100));
}

#[test]
fn typing_replaces_the_selection() {
    let mut t = typed("hello");
    t.move_left(true);
    t.move_left(true);
    assert_eq!(t.selection_range(), Some((3, 5)));
    t.insert('p');
    assert_eq!(t.text(), "help");
    assert_eq!(t.cursor(), 4);
    assert_eq!(t.anchor(), None);
}

#[test]
fn backspace_removes_before_cursor() {
    let mut t = typed("abc");
    t.delete_backward();
    assert_eq!(t.text(), "ab");
    assert_eq!(t.cursor(), 2);
    t.move_home(false);
    t.delete_backward();
    assert_eq!(t.text(), "ab");
    assert_eq!(t.cursor(), 0);
}

#[test]
fn delete_removes_after_cursor() {
    let mut t = typed("abc");
    t.delete_forward();
    assert_eq!(t.text(), "abc");
    t.move_home(false);
    t.delete_forward();
    assert_eq!(t.text(), "bc");
    assert_eq!(t.cursor(), 0);
}

#[test]
fn backspace_and_delete_remove_the_selection() {
    let mut t = typed("abcdef");
    t.move_left(false);
    t.move_left(true);
    t.move_left(true);
    t.delete_backward();
    assert_eq!(t.text(), "abcf");
    assert_eq!(t.cursor(), 3);
    assert_eq!(t.anchor(), None);
    t.move_home(false);
    t.move_right(true);
    t.delete_forward();
    assert_eq!(t.text(), "bcf");
    assert_eq!(t.cursor(), 0);
    assert_eq!(t.anchor(), None);
}

#[test]
fn plain_moves_clamp_and_drop_the_selection() {
    let mut t = typed("ab");
    t.select_all();
    t.move_right(false);
    assert_eq!(t.cursor(), 2);
    assert_eq!(t.anchor(), None);
    t.move_left(false);
    t.move_left(false);
    t.move_left(false);
    assert_eq!(t.cursor(), 0);
    t.move_right(false);
    assert_eq!(t.cursor(), 1);
}

#[test]
fn extending_keeps_the_anchor_fixed() {
    let mut t = typed("abcdef");
    t.move_left(false);
    t.move_left(false);
    t.move_left(true);
    assert_eq!(t.anchor(), Some(4));
    assert_eq!(t.cursor(), 3);
    t.move_left(true);
    t.move_left(true);
    assert_eq!(t.anchor(), Some(4));
    assert_eq!(t.cursor(), 1);
    assert_eq!(t.selection_range(), Some((1, 4)));
    t.move_right(true);
    t.move_right(true);
    t.move_right(true);
    t.move_right(true);
    assert_eq!(t.anchor(), Some(4));
    assert_eq!(t.cursor(), 5);
    assert_eq!(t.selection_range(), Some((4, 5)));
}

#[test]
fn extending_at_the_edge_changes_nothing() {
    let mut t = typed("ab");
    t.move_right(true);
    assert_eq!(t.anchor(), None);
    assert_eq!(t.cursor(), 2);
    t.move_home(false);
    t.move_left(true);
    assert_eq!(t.anchor(), None);
    assert_eq!(t.cursor(), 0);
}

#[test]
fn home_and_end_jump() {
    let mut t = typed("abcd");
    t.move_left(false);
    t.move_home(true);
    assert_eq!(t.cursor(), 0);
    assert_eq!(t.anchor(), Some(3));
    assert_eq!(t.selection_range(), Some((0, 3)));
    t.move_end(true);
    assert_eq!(t.cursor(), 4);
    assert_eq!(t.anchor(), Some(3));
    assert_eq!(t.selection_range(), Some((3, 4)));
    t.move_home(false);
    assert_eq!(t.cursor(), 0);
    assert_eq!(t.anchor(), None);
    t.move_end(false);
    assert_eq!(t.cursor(), 4);
    assert_eq!(t.anchor(), None);
}

#[test]
fn select_all_spans_the_text() {
    let mut t = typed("abc");
    t.move_home(false);
    t.select_all();
    assert_eq!(t.anchor(), Some(0));
    assert_eq!(t.cursor(), 3);
    assert_eq!(t.selection_range(), Some((0, 3)));
    assert_eq!(t.copy_selection(), Some("abc".to_string()));
}

#[test]
fn copy_leaves_the_text_alone() {
    let mut t = typed("hello world");
    assert_eq!(t.copy_selection(), None);
    t.move_home(false);
    for _ in 0..5 {
        t.move_right(true);
    }
    assert_eq!(t.copy_selection(), Some("hello".to_string()));
    assert_eq!(t.text(), "hello world");
    assert_eq!(t.selection_range(), Some((0, 5)));
}

#[test]
fn cut_removes_what_it_hands_over() {
    let mut t = typed("hello world");
    assert_eq!(t.cut_selection(), None);
    for _ in 0..5 {
        t.move_left(true);
    }
    assert_eq!(t.cut_selection(), Some("world".to_string()));
    assert_eq!(t.text(), "hello ");
    assert_eq!(t.cursor(), 6);
    assert_eq!(t.anchor(), None);
}

#[test]
fn delete_selection_reports_whether_there_was_one() {
    let mut t = typed("abc");
    assert!(!t.delete_selection());
    t.move_left(true);
    assert!(t.delete_selection());
    assert_eq!(t.text(), "ab");
    t.move_left(true);
    t.move_right(true);
    assert_eq!(t.selection_range(), Some((2, 2)));
    assert!(t.delete_selection());
    assert_eq!(t.text(), "ab");
    assert_eq!(t.anchor(), None);
}

#[test]
fn paste_filters_what_comes_in() {
    let mut t = typed("ab");
    t.move_left(false);
    t.paste("pasted_text");
    assert_eq!(t.text(), "apastedtextb");
    assert_eq!(t.cursor(), 11);
}

#[test]
fn paste_replaces_the_selection() {
    let mut t = typed("abcd");
    t.move_left(false);
    t.move_left(true);
    t.move_left(true);
    t.paste("X Y!");
    assert_eq!(t.text(), "aX Yd");
    assert_eq!(t.cursor(), 4);
    assert_eq!(t.anchor(), None);
}

#[test]
fn paste_stops_at_the_cap() {
    let mut t = typed(&"a".repeat(95));
    t.move_home(false);
    t.paste("pasted_text");
    assert_eq!(t.len(), 100);
    assert_eq!(t.text(), format!("paste{}", "a".repeat(95)));
    assert_eq!(t.cursor(), 5);
    t.paste("more");
    assert_eq!(t.len(), 100);
    assert_eq!(t.cursor(), 5);
}

#[test]
fn clear_empties_the_box() {
    let mut t = typed("abc");
    t.select_all();
    t.clear();
    assert_eq!(t.text(), "");
    assert_eq!(t.cursor(), 0);
    assert_eq!(t.anchor(), None);
}

#[test]
fn a_frame_serves_typing_before_keys() {
    let mut t = typed("ab");
    let mut input = FrameInput::idle();
    input.typed = vec!['c', '?', 'd'];
    input.backspace = true;
    input.left = true;
    let effects = t.handle_text_input(&input);
    assert_eq!(t.text(), "abc");
    assert_eq!(t.cursor(), 2);
    assert_eq!(effects.copied, None);
    assert_eq!(effects.cut, None);
}

#[test]
fn a_frame_serves_select_all_copy_paste_cut_in_order() {
    let mut t = typed("abc");
    let mut input = FrameInput::idle();
    input.ctrl = true;
    input.a = true;
    input.c = true;
    let effects = t.handle_text_input(&input);
    assert_eq!(effects.copied, Some("abc".to_string()));
    assert_eq!(t.text(), "abc");

    let mut input = FrameInput::idle();
    input.ctrl = true;
    input.v = true;
    input.clipboard = "pasted_text".to_string();
    t.handle_text_input(&input);
    assert_eq!(t.text(), "pastedtext");
    assert_eq!(t.cursor(), 10);

    let mut input = FrameInput::idle();
    input.ctrl = true;
    input.a = true;
    input.x = true;
    let effects = t.handle_text_input(&input);
    assert_eq!(effects.cut, Some("pastedtext".to_string()));
    assert_eq!(t.text(), "");
}

#[test]
fn letter_keys_without_control_do_nothing() {
    let mut t = typed("abc");
    let mut input = FrameInput::idle();
    input.a = true;
    input.c = true;
    input.v = true;
    input.x = true;
    input.clipboard = "zzz".to_string();
    let effects = t.handle_text_input(&input);
    assert_eq!(t.text(), "abc");
    assert_eq!(t.anchor(), None);
    assert_eq!(effects.copied, None);
    assert_eq!(effects.cut, None);
}

#[test]
fn shift_extends_in_a_frame() {
    let mut t = typed("abcd");
    let mut input = FrameInput::idle();
    input.shift = true;
    input.left = true;
    t.handle_text_input(&input);
    t.handle_text_input(&input);
    assert_eq!(t.selection_range(), Some((2, 4)));
    let mut home = FrameInput::idle();
    home.shift = true;
    home.home = true;
    t.handle_text_input(&home);
    assert_eq!(t.selection_range(), Some((0, 4)));
    let mut end = FrameInput::idle();
    end.end = true;
    t.handle_text_input(&end);
    assert_eq!(t.selection_range(), None);
    assert_eq!(t.cursor(), 4);
}

#[test]
fn cursor_and_selection_stay_inside_the_text() {
    let mut t = IntentionText::new();
    let script = "iiiLLlrRhHeEbdaixpiiLLxLdRRbpHiEEE";
    for round in 0..8 {
        for (n, op) in script.chars().enumerate() {
            match op {
                'i' => t.insert((b'a' + ((n + round) % 26) as u8) as char),
                'l' => t.move_left(false),
                'L' => t.move_left(true),
                'r' => t.move_right(false),
                'R' => t.move_right(true),
                'h' => t.move_home(false),
                'H' => t.move_home(true),
                'e' => t.move_end(false),
                'E' => t.move_end(true),
                'b' => t.delete_backward(),
                'd' => t.delete_forward(),
                'a' => t.select_all(),
                'x' => {
                    t.cut_selection();
                }
                'p' => t.paste("some pasted_text 123"),
                _ => unreachable!(),
            }
            assert!(t.len() <= 100);
            assert!(t.cursor() <= t.len());
            assert_eq!(t.text().chars().count(), t.len());
            if let Some((start, end)) = t.selection_range() {
                assert!(start <= end);
                assert!(end <= t.len());
                let a = t.anchor().unwrap();
                assert_eq!(start, a.min(t.cursor()));
                assert_eq!(end, a.max(t.cursor()));
            } else {
                assert_eq!(t.anchor(), None);
            }
            assert!(t.text().chars().all(typable));
        }
    }
}
