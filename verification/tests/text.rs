use saphedit::text::{chars_of, displacement, line_byte_len, strip_returns, width_of};

fn chars(text: &str) -> Vec<char> {
    text.chars().collect()
}

#[test]
fn chars_of_a_string() {
    assert_eq!(chars_of(""), Vec::<char>::new());
    assert_eq!(chars_of("a\u{e9}\n"), vec!['a', '\u{e9}', '\n']);
}

#[test]
fn strip_returns_keeps_the_rest_in_order() {
    assert_eq!(strip_returns(&chars("a\r\nb\r")), chars("a\nb"));
    assert_eq!(strip_returns(&chars("\r")), Vec::<char>::new());
    assert_eq!(strip_returns(&chars("abc")), chars("abc"));
}

#[test]
fn displacement_of_one_line() {
    assert_eq!(displacement(&chars("")), (0, 0));
    assert_eq!(displacement(&chars("abc")), (0, 3));
    assert_eq!(displacement(&chars("abc\n")), (0, 3));
    assert_eq!(displacement(&chars("\n")), (0, 0));
}

#[test]
fn displacement_of_several_lines() {
    assert_eq!(displacement(&chars("a\nbc")), (1, 2));
    assert_eq!(displacement(&chars("a\nbc\n")), (1, 2));
    assert_eq!(displacement(&chars("\n\n")), (1, 0));
    assert_eq!(displacement(&chars("a\n\n\nb")), (3, 1));
    assert_eq!(displacement(&chars("a\nb\n\n")), (2, 0));
}

#[test]
fn width_of_characters_in_utf8() {
    assert_eq!(width_of('a'), 1);
    assert_eq!(width_of('\u{7f}'), 1);
    assert_eq!(width_of('\u{80}'), 2);
    assert_eq!(width_of('\u{7ff}'), 2);
    assert_eq!(width_of('\u{800}'), 3);
    assert_eq!(width_of('\u{ffff}'), 3);
    assert_eq!(width_of('\u{10000}'), 4);
    assert_eq!(width_of('\u{10ffff}'), 4);
    for c in ['a', '\u{e9}', '\u{20ac}', '\u{1f600}'] {
        assert_eq!(width_of(c) as usize, c.len_utf8());
    }
}

#[test]
fn line_byte_len_finds_each_line() {
    let text = chars("ab\n\nh\u{e9}\u{20ac}\nxyz");
    assert_eq!(line_byte_len(&text, 0), Some(2));
    assert_eq!(line_byte_len(&text, 1), Some(0));
    assert_eq!(line_byte_len(&text, 2), Some(6));
    assert_eq!(line_byte_len(&text, 3), Some(3));
    assert_eq!(line_byte_len(&text, 4), None);
}

#[test]
fn line_byte_len_agrees_with_lines() {
    for text in ["", "a", "a\n", "\n", "\n\n", "ab\ncd", "ab\ncd\n", "\nab", "q\n\n\nz"] {
        let all = chars(text);
        for row in 0..6 {
            let expected = text.lines().nth(row).map(|line| line.len() as u128);
            assert_eq!(line_byte_len(&all, row), expected, "{:?} row {}", text, row);
        }
    }
}

#[test]
fn displacement_agrees_with_lines() {
    for text in ["", "a", "a\n", "\n", "\n\n", "ab\ncd", "ab\ncd\n", "\nab", "q\n\n\nz"] {
        let rows = text.lines().count().saturating_sub(1);
        let columns = text.lines().last().map(|line| line.chars().count()).unwrap_or(0);
        assert_eq!(displacement(&chars(text)), (rows, columns), "{:?}", text);
    }
}

#[test]
fn line_byte_len_drops_the_return_before_a_break() {
    let text = chars("ab\r\ncd\r");
    assert_eq!(line_byte_len(&text, 0), Some(2));
    assert_eq!(line_byte_len(&text, 1), Some(3));
    assert_eq!(line_byte_len(&chars("\r\n"), 0), Some(0));
    assert_eq!(line_byte_len(&chars("a\r\r\n"), 0), Some(2));
    assert_eq!(line_byte_len(&chars("a\rb\n"), 0), Some(3));
}

#[test]
fn line_byte_len_agrees_with_lines_on_carriage_returns() {
    for text in ["a\r\nb", "a\r", "a\r\r\n", "\r\n", "\r", "a\rb\n", "x\n\r", "x\n\r\n", "\r\n\r\nq\r\n"] {
        let all = chars(text);
        for row in 0..5 {
            let expected = text.lines().nth(row).map(|line| line.len() as u128);
            assert_eq!(line_byte_len(&all, row), expected, "{:?} row {}", text, row);
        }
    }
}
