use lexer::Input;
use lexer::Line;
use lexer::Lines;
use lexer::State;
use lexer::TokenMeta;

fn chars_of(text: &str) -> Vec<char> {
    text.chars().collect()
}

#[test]
fn test_state_advance_rule() {
    let mut state = State::new();
    assert_eq!(state.index(), 0);
    assert_eq!(state.line(), 1);
    assert_eq!(state.column(), 1);

    state.advance('a');
    assert_eq!((state.index(), state.line(), state.column()), (1, 1, 2));
    state.advance('\n');
    assert_eq!((state.index(), state.line(), state.column()), (2, 2, 1));
    state.advance('\t');
    assert_eq!((state.index(), state.line(), state.column()), (3, 2, 2));
}

#[test]
fn test_input_read_tracks_lines() {
    let input = Input::from_chars(chars_of("ab\nc"));
    let mut state = State::new();
    assert_eq!(input.read(&mut state), Some('a'));
    assert_eq!(input.read(&mut state), Some('b'));
    assert_eq!(input.read(&mut state), Some('\n'));
    assert_eq!((state.index(), state.line(), state.column()), (3, 2, 1));
    assert_eq!(input.read(&mut state), Some('c'));
    assert_eq!(input.read(&mut state), None);
    assert_eq!((state.index(), state.line(), state.column()), (4, 2, 2));
    assert!(input.done(&state));
}

#[test]
fn test_input_peek_is_unbounded_and_pure() {
    let input = Input::from_chars(chars_of("xyz"));
    let state = State::new();
    assert_eq!(input.peek(&state, 0), Some('x'));
    assert_eq!(input.peek(&state, 2), Some('z'));
    assert_eq!(input.peek(&state, 3), None);
    assert_eq!(input.peek(&state, 1000), None);
    // Peeking never moves the cursor.
    assert_eq!(state.index(), 0);
}

#[test]
fn test_line_peek_translates_offsets() {
    let line = Line::new(4, chars_of("efgh"));
    assert_eq!(line.offset(), 4);
    assert_eq!(line.len(), 4);

    let mut state = State::new();
    for c in "abcd".chars() {
        state.advance(c);
    }
    for c in "ef".chars() {
        state.advance(c);
    }
    // The cursor stands at absolute offset 6, local offset 2 of this line.
    assert_eq!(line.peek(&state, 0), Some('g'));
    assert_eq!(line.peek(&state, 1), Some('h'));
    assert_eq!(line.peek(&state, 2), None);
}

#[test]
fn test_line_content_eq_ignores_offset() {
    let a = Line::new(0, chars_of("same"));
    let b = Line::new(17, chars_of("same"));
    let c = Line::new(0, chars_of("other"));
    assert!(a.content_eq(&b));
    assert!(!a.content_eq(&c));
}

#[test]
fn test_lines_from_text_keeps_every_character() {
    let chars = chars_of("ab\ncd\n\nrest");
    let lines = Lines::from_text(&chars);
    assert_eq!(lines.len(), chars.len());
    assert_eq!(lines.line_count(), 4);
    for (i, expected) in chars.iter().enumerate() {
        assert_eq!(lines.peek_at(i, 0), Some(*expected));
    }
    assert_eq!(lines.peek_at(chars.len(), 0), None);
}

#[test]
fn test_lines_from_text_splits_after_breaks() {
    let chars = chars_of("ab\ncd\n\nrest");
    let lines = Lines::from_text(&chars);
    assert_eq!(lines.line_count(), 4);
    for (i, line) in lines.lines.iter().enumerate() {
        let content = &line.content;
        // A break stands only at the end of a line.
        for &c in &content[..content.len() - 1] {
            assert_ne!(c, '\n');
        }
        // Every line but the last ends with one.
        if i + 1 < lines.lines.len() {
            assert_eq!(content.last(), Some(&'\n'));
        }
    }
    assert_eq!(lines.lines[3].content, chars_of("rest"));
}

#[test]
fn test_lines_push_assigns_contiguous_offsets() {
    let mut lines = Lines::new();
    assert_eq!(lines.len(), 0);
    lines.push(chars_of("ab\n"));
    lines.push(chars_of("cde"));
    assert_eq!(lines.len(), 6);
    assert_eq!(lines.line_count(), 2);
    assert_eq!(lines.peek_at(0, 3), Some('c'));
    assert_eq!(lines.peek_at(5, 0), Some('e'));
    assert_eq!(lines.peek_at(6, 0), None);
}

#[test]
fn test_lines_from_buffers_validates_offsets() {
    let good = vec![Line::new(0, chars_of("ab\n")), Line::new(3, chars_of("cd"))];
    let lines = Lines::from_buffers(good).expect("consistent offsets must be accepted");
    assert_eq!(lines.len(), 5);
    assert_eq!(lines.peek_at(2, 0), Some('\n'));
    assert_eq!(lines.peek_at(3, 0), Some('c'));
    assert_eq!(lines.peek_at(0, 4), Some('d'));

    let bad = vec![Line::new(0, chars_of("ab\n")), Line::new(4, chars_of("cd"))];
    assert!(Lines::from_buffers(bad).is_none());

    let gap = vec![Line::new(1, chars_of("ab"))];
    assert!(Lines::from_buffers(gap).is_none());
}

#[test]
fn test_lines_input_reads_across_boundaries() {
    let chars = chars_of("hi\nyou");
    let input = Input::from_lines(Lines::from_text(&chars));
    let mut state = State::new();
    let mut collected = String::new();
    while let Some(c) = input.read(&mut state) {
        collected.push(c);
    }
    assert_eq!(collected, "hi\nyou");
    assert_eq!((state.index(), state.line(), state.column()), (6, 2, 4));
}

#[test]
fn test_meta_single_line() {
    let current = State::new();
    let mut next = State::new();
    for c in "def".chars() {
        next.advance(c);
    }
    let meta = TokenMeta::new_state_meta(&current, &next);
    assert_eq!(meta.index_start(), 0);
    assert_eq!(meta.index_end(), 3);
    assert_eq!(meta.len(), 3);
    assert_eq!(meta.line_start(), 1);
    assert_eq!(meta.line_end(), 1);
    assert_eq!(meta.line_count(), 1);
    assert_eq!(meta.col_start(), 1);
    assert_eq!(meta.col_end(), 3);
    assert_eq!(meta.col_count(), 3);
}

#[test]
fn test_meta_multi_line() {
    let current = State::new();
    let mut next = State::new();
    for c in "   \n\t   ".chars() {
        next.advance(c);
    }
    let meta = TokenMeta::new_state_meta(&current, &next);
    assert_eq!(meta.len(), 8);
    assert_eq!(meta.line_count(), 2);
    assert_eq!(meta.col_start(), 1);
    assert_eq!(meta.col_end(), 5);
    assert_eq!(meta.col_count(), 5);
}

#[test]
fn test_meta_wrapping_span_reports_zero_columns() {
    // A span that ends at column 1 of a later line: the columns do not form
    // a forward range, so the column count is reported as 0.
    let mut current = State::new();
    for c in "abcd".chars() {
        current.advance(c);
    }
    let mut next = current.clone();
    next.advance('\n');
    let meta = TokenMeta::new_state_meta(&current, &next);
    assert_eq!(meta.len(), 1);
    assert_eq!(meta.line_count(), 2);
    assert_eq!(meta.col_start(), 5);
    assert_eq!(meta.col_end(), 1);
    assert_eq!(meta.col_count(), 0);
}
