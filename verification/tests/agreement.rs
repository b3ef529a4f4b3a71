//! The verified text functions against the standard library, on many inputs
//! drawn from a small generator.

use mcadmin::format::escape_markdown;
use mcadmin::frame::{decode, encode, Packet, PacketKind, MAX_BODY_LEN};
use mcadmin::members::trim_text;
use mcadmin::names::sort_player_list;
use mcadmin::numerals::{
    decimal_text, decimal_u64, parse_i32, parse_rounded, parse_u16, parse_u32, parse_u64,
};
use mcadmin::text::{has_prefix, join_text, replace_text, split};

struct Draw(u64);

impl Draw {
    fn next(&mut self) -> u64 {
        self.0 = self.0.wrapping_mul(6364136223846793005).wrapping_add(1442695040888963407);
        self.0 >> 33
    }

    fn below(&mut self, n: usize) -> usize {
        (self.next() % n as u64) as usize
    }

    fn text(&mut self, alphabet: &[char], longest: usize) -> String {
        let len = self.below(longest + 1);
        (0..len).map(|_| alphabet[self.below(alphabet.len())]).collect()
    }
}

const WORDS: [char; 8] = ['a', 'b', ',', ' ', ':', '-', '\u{e9}', '\u{4e16}'];
const NUMERALS: [char; 8] = ['0', '1', '5', '9', '+', '-', '.', '6'];
const NAMES: [char; 12] =
    ['a', 'A', 'b', 'B', '_', '.', '9', ' ', '\u{e9}', '\u{c9}', '\u{df}', '\u{3a3}'];
const BLANKS: [char; 7] = [' ', '\t', '\n', 'x', '\u{a0}', '\u{3000}', 'y'];

#[test]
fn split_and_replace_agree_with_the_standard_library() {
    let mut draw = Draw(1);
    for _ in 0..3000 {
        let s = draw.text(&WORDS, 12);
        let mut sep = draw.text(&WORDS, 2);
        if sep.is_empty() {
            sep.push(',');
        }
        let expected: Vec<String> = s.split(sep.as_str()).map(|p| p.to_string()).collect();
        let pieces = split(&s, &sep);
        assert_eq!(pieces, expected, "split({s:?}, {sep:?})");
        assert_eq!(join_text(&pieces, &sep), s);
        let to = draw.text(&WORDS, 3);
        assert_eq!(replace_text(&s, &sep, &to), s.replace(sep.as_str(), &to));
        assert_eq!(has_prefix(&s, &sep), s.starts_with(sep.as_str()));
    }
}

#[test]
fn numerals_agree_with_the_standard_library() {
    let mut draw = Draw(2);
    for _ in 0..5000 {
        let s = draw.text(&NUMERALS, 12);
        assert_eq!(parse_u16(&s), s.parse::<u16>().ok(), "{s:?}");
        assert_eq!(parse_u32(&s), s.parse::<u32>().ok(), "{s:?}");
        assert_eq!(parse_u64(&s), s.parse::<u64>().ok(), "{s:?}");
        assert_eq!(parse_i32(&s), s.parse::<i32>().ok(), "{s:?}");
    }
}

#[test]
fn rounding_agrees_with_floats_on_short_decimals() {
    let mut draw = Draw(3);
    for _ in 0..5000 {
        let whole = draw.below(100000);
        let tenths = draw.below(1000);
        let s = match draw.below(4) {
            0 => format!("{whole}.{tenths:03}"),
            1 => format!("{whole}.{}", tenths % 10),
            2 => format!("{whole}"),
            _ => format!("-{whole}.{tenths:03}"),
        };
        let expected = s.parse::<f64>().unwrap().round() as u32;
        assert_eq!(parse_rounded(&s), Some(expected), "{s:?}");
    }
}

#[test]
fn rounding_agrees_with_floats_on_numbers_with_an_exponent() {
    let mut draw = Draw(9);
    for _ in 0..5000 {
        let whole = draw.below(4096);
        let thousandths = draw.below(1000);
        let exponent = draw.below(10) as i32 - 6;
        let sign = ["", "+", "-"][draw.below(3)];
        let letter = ["e", "E"][draw.below(2)];
        let exp_sign = if exponent < 0 { "-" } else { ["", "+"][draw.below(2)] };
        let mantissa = match draw.below(4) {
            0 => format!("{whole}.{thousandths:03}"),
            1 => format!("{whole}."),
            2 => format!("{whole}"),
            _ => format!(".{thousandths:03}"),
        };
        let s = format!("{sign}{mantissa}{letter}{exp_sign}{}", exponent.abs());
        let expected = s.parse::<f32>().unwrap().round() as u32;
        assert_eq!(parse_rounded(&s), Some(expected), "{s:?}");
    }
}

#[test]
fn what_is_a_number_is_what_floats_take_for_one() {
    let mut draw = Draw(10);
    let alphabet = ['0', '1', '5', '9', '+', '-', '.', 'e', 'E', 'i', 'n', 'f', 'a', 'N', 'I'];
    for _ in 0..20000 {
        let s = draw.text(&alphabet, 7);
        assert_eq!(parse_rounded(&s).is_some(), s.parse::<f32>().is_ok(), "{s:?}");
    }
}

#[test]
fn numbers_are_written_as_the_standard_library_writes_them() {
    let mut draw = Draw(4);
    for _ in 0..5000 {
        let n = (draw.next() << 31) ^ draw.next().wrapping_mul(draw.next());
        let shift = draw.below(64);
        let n = n >> shift;
        assert_eq!(decimal_u64(n), n.to_string());
        let i = n as i64;
        assert_eq!(decimal_text(i), i.to_string());
        assert_eq!(decimal_text(i.wrapping_neg()), i.wrapping_neg().to_string());
        assert_eq!(parse_u64(&decimal_u64(n)), Some(n));
    }
}

#[test]
fn trimming_agrees_with_the_standard_library() {
    let mut draw = Draw(5);
    for _ in 0..3000 {
        let s = draw.text(&BLANKS, 10);
        assert_eq!(trim_text(&s), s.trim(), "{s:?}");
    }
}

#[test]
fn sorting_agrees_with_the_standard_library() {
    let mut draw = Draw(6);
    for _ in 0..2000 {
        let count = draw.below(9);
        let names: Vec<String> = (0..count).map(|_| draw.text(&NAMES, 4)).collect();
        let mut expected = names.clone();
        expected.sort_by(|a, b| {
            let a_key = a.chars().next().map(|c| !c.is_alphanumeric()).unwrap_or(false);
            let b_key = b.chars().next().map(|c| !c.is_alphanumeric()).unwrap_or(false);
            if a_key == b_key {
                a.to_lowercase().cmp(&b.to_lowercase())
            } else {
                b_key.cmp(&a_key)
            }
        });
        let mut sorted = names.clone();
        sort_player_list(&mut sorted);
        assert_eq!(sorted, expected, "{names:?}");
    }
}

#[test]
fn escaping_puts_a_backslash_before_all_but_ascii_letters_and_digits() {
    let mut draw = Draw(7);
    for _ in 0..2000 {
        let s = draw.text(&NAMES, 10);
        let mut expected = String::new();
        for c in s.chars() {
            if !c.is_ascii_alphanumeric() {
                expected.push('\\');
            }
            expected.push(c);
        }
        assert_eq!(escape_markdown(&s), expected);
    }
}

#[test]
fn frames_read_back_as_they_were_built() {
    let mut draw = Draw(8);
    let kinds = [PacketKind::Login, PacketKind::Command, PacketKind::Response];
    for _ in 0..2000 {
        let id = draw.next() as i16;
        let kind = kinds[draw.below(3)];
        let body = draw.text(&NAMES, 40);
        let bytes = encode(id, kind, &body).unwrap();
        assert!(bytes.len() <= MAX_BODY_LEN + 12);
        assert_eq!(decode(&bytes), Ok(Packet { id, kind, body }));
        // A frame with one byte changed is another frame, or none.
        let at = draw.below(bytes.len());
        let mut other = bytes.clone();
        other[at] ^= 1 << draw.below(8);
        if let Ok(packet) = decode(&other) {
            assert_eq!(encode(packet.id, packet.kind, &packet.body), Ok(other));
        }
    }
}
