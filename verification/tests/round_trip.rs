use tomboy_toml_dom::model::{
    Array, Comment, DoubleQuotedString, Expression, InlineTable, KeyValue, LiteralString,
    RightValue, SingleQuotedString,
};
use tomboy_toml_dom::{Toml, TomlDocument};

struct Dice(u64);

impl Dice {
    fn roll(&mut self, sides: usize) -> usize {
        self.0 = self.0.wrapping_mul(6364136223846793005).wrapping_add(1442695040888963407);
        ((self.0 >> 33) as usize) % sides
    }

    fn pick(&mut self, palette: &[char], min: usize, max: usize) -> String {
        let n = min + self.roll(max - min + 1);
        (0..n).map(|_| palette[self.roll(palette.len())]).collect()
    }
}

const ANY: [char; 28] = [
    'a', 'B', 'n', 't', 'u', '0', '9', ' ', '\t', '\n', '\r', '"', '\'', '\\', '#', '=', ',', '.',
    ':', '-', '_', '[', ']', '{', '}', '+', 'é', '\u{1F600}',
];
const LITERAL: [char; 12] = ['a', 'Z', 'n', '0', '7', '.', ':', '-', '_', '+', 'é', '@'];
const KEY: [char; 7] = ['a', 'Z', 'u', '0', '9', '-', '_'];
const SINGLE: [char; 16] =
    ['a', 'n', '0', ' ', '\t', '"', '\\', '#', '=', ',', '[', ']', '{', '}', 'é', '\r'];
const COMMENT: [char; 18] = [
    'a', 'n', '0', ' ', '\t', '"', '\'', '\\', '#', '=', ',', '[', ']', '{', '}', 'é', '.', '\r',
];

fn scalar(d: &mut Dice) -> RightValue {
    match d.roll(3) {
        0 => RightValue::DoubleQuotedString(DoubleQuotedString { value: d.pick(&ANY, 0, 8) }),
        1 => RightValue::SingleQuotedString(SingleQuotedString { value: d.pick(&SINGLE, 0, 8) }),
        _ => RightValue::LiteralString(LiteralString { value: d.pick(&LITERAL, 1, 8) }),
    }
}

fn value(d: &mut Dice, depth: usize) -> RightValue {
    match d.roll(if depth == 0 { 4 } else { 5 }) {
        3 => {
            let mut a = Array::default();
            for _ in 0..1 + d.roll(4) {
                match scalar(d) {
                    RightValue::DoubleQuotedString(s) => a.push_double_quote_string(&s),
                    RightValue::SingleQuotedString(s) => a.push_single_quote_string(&s),
                    RightValue::LiteralString(s) => a.push_literal_string(&s),
                    _ => unreachable!(),
                }
            }
            RightValue::Array(a)
        }
        4 => {
            let mut t = InlineTable::default();
            for _ in 0..1 + d.roll(3) {
                t.push_key_value(&KeyValue::new(&d.pick(&KEY, 1, 5), value(d, depth - 1)));
            }
            RightValue::InlineTable(t)
        }
        _ => scalar(d),
    }
}

fn document(d: &mut Dice) -> TomlDocument {
    let mut doc = TomlDocument::default();
    for _ in 0..d.roll(6) {
        let e = match d.roll(4) {
            0 => Expression::Comment(Comment { value: d.pick(&COMMENT, 0, 10) }),
            1 => Expression::EmptyLine,
            _ => {
                let mut key = d.pick(&KEY, 1, 4);
                if d.roll(3) == 0 {
                    key.push('.');
                    key.push_str(&d.pick(&KEY, 1, 3));
                }
                Expression::KeyValue(KeyValue::new(&key, value(d, 2)))
            }
        };
        doc.push_element(&e);
    }
    doc
}

#[test]
fn documents_read_back_as_they_were_written() {
    let mut d = Dice(7);
    for _ in 0..300 {
        let doc = document(&mut d);
        let text = doc.to_string();
        let (again, diagnostics) = Toml::from_str(&text);
        assert!(diagnostics.is_empty(), "{:?}\n{:?}", text, diagnostics);
        assert_eq!(again.to_string(), text);
        assert_eq!(format!("{:?}", again), format!("{:?}", doc));
    }
}

#[test]
fn what_was_read_reads_back() {
    let mut d = Dice(11);
    for _ in 0..300 {
        let lines = 1 + d.roll(4);
        let mut text = String::new();
        for _ in 0..lines {
            let n = d.roll(14);
            for _ in 0..n {
                text.push(ANY[d.roll(ANY.len())]);
            }
            text.push('\n');
        }
        let (first, _) = Toml::from_str(&text);
        let (second, diagnostics) = Toml::from_str(&first.to_string());
        assert!(diagnostics.is_empty(), "{:?}", text);
        assert_eq!(format!("{:?}", second), format!("{:?}", first), "{:?}", text);
    }
}

#[test]
fn escaped_backslash_before_a_letter() {
    let (d, _) = Toml::from_str("s = \"\\\\n\\\\\"\n");
    assert_eq!(d.get_string_by_key("s").unwrap(), "\\n\\");
    assert_eq!(d.to_string(), "s = \"\\\\n\\\\\"\n");
}

#[test]
fn keys_of_digits_hyphens_and_underscores() {
    let (d, diagnostics) = Toml::from_str("1a=2\n-_-='x'\n");
    assert!(diagnostics.is_empty());
    assert_eq!(d.get_i128_by_key("1a"), Ok(Some(2)));
    assert_eq!(d.get_string_by_key("-_-").unwrap(), "x");
}
