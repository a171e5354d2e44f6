use squadreplay::float_bits::{at_most, beyond, Float64};
use squadreplay::le_bytes::{push_le, read_le};
use squadreplay::numbers::low_32;
use squadreplay::string_map::{stands_before, StringMap};
use squadreplay::text::{
    chars_of, contains, contains_any, decimal_text, find_part, parse_i32, parse_u32, rfind_char,
    same_text, split_chars, string_of, trim_chars, trim_leading, trim_trailing, white_space,
};
use squadreplay::time_order::{dedup_by_time, sort_by_time};
use squadreplay::timeline::deployables::Reading;
use squadreplay::float_bits::Float32;
use std::collections::BTreeMap;

fn text(chars: &Vec<char>) -> String {
    string_of(chars, 0, chars.len())
}

#[test]
fn white_space_is_that_of_unicode() {
    for code in 0..=0x10ffffu32 {
        if let Some(c) = char::from_u32(code) {
            assert_eq!(white_space(c), c.is_whitespace(), "{code:x}");
        }
    }
}

#[test]
fn trimming_is_that_of_strings() {
    for s in ["", " ", "  a b\t", "\u{3000}x\u{2003}", "plain"] {
        assert_eq!(text(&trim_chars(&chars_of(s))), s.trim());
    }
    for s in ["BP_BP_T72", "BP_", "xBP_", "", "BP"] {
        assert_eq!(
            text(&trim_leading(&chars_of(s), &chars_of("BP_"))),
            s.trim_start_matches("BP_")
        );
    }
    for s in ["T72_C_C", "_C", "_Cx", "", "C"] {
        assert_eq!(
            text(&trim_trailing(&chars_of(s), &chars_of("_C"))),
            s.trim_end_matches("_C")
        );
    }
}

#[test]
fn splitting_is_that_of_strings() {
    for s in ["", ".", "2026.05.24-11.46.32:407", "a..b-", "::"] {
        let pieces: Vec<String> =
            split_chars(&chars_of(s), &vec!['.', '-', ':']).iter().map(text).collect();
        let expected: Vec<String> =
            s.split(&['.', '-', ':'][..]).map(|p| p.to_string()).collect();
        assert_eq!(pieces, expected);
        let separators = s.chars().filter(|c| ['.', '-', ':'].contains(c)).count();
        assert_eq!(pieces.len(), separators + 1);
        assert!(pieces.iter().all(|p| !p.contains(['.', '-', ':'])));
    }
}

#[test]
fn searching_is_that_of_strings() {
    let texts = ["", "a", "abcabc", "BTR82A_RUS", "Soldier", "\u{e9}t\u{e9}"];
    let parts = ["", "a", "bc", "ca", "RUS", "\u{e9}", "zz"];
    for t in texts {
        for p in parts {
            assert_eq!(contains(t, p), t.contains(p));
        }
        assert_eq!(contains_any(t, &["zz", "bc"]), t.contains("zz") || t.contains("bc"));
        assert_eq!(rfind_char(&chars_of(t), 'c'), t.rfind('c'));
    }
    assert_eq!(find_part(&chars_of("abcabc"), &chars_of("bc"), 2), Some(4));
    assert_eq!(find_part(&chars_of("abcabc"), &chars_of("bc"), 5), None);
    assert!(same_text("Team", "Team"));
    assert!(!same_text("Team", "team"));
}

#[test]
fn numbers_are_read_as_the_standard_library_reads_them() {
    let texts = [
        "", "+", "-", "0", "007", "+5", "-5", "--5", "4294967295", "4294967296", "2147483647",
        "2147483648", "-2147483648", "-2147483649", "1 ", "1a", "\u{661}",
    ];
    for t in texts {
        assert_eq!(parse_u32(&chars_of(t)), t.parse::<u32>().ok(), "{t}");
        assert_eq!(parse_i32(&chars_of(t)), t.parse::<i32>().ok(), "{t}");
    }
}

#[test]
fn decimal_digits_are_read_back() {
    for n in [0u64, 7, 10, 99, 100, 8276, 4_294_967_295, u64::MAX] {
        assert_eq!(decimal_text(n), n.to_string());
    }
}

#[test]
fn low_bits_are_those_of_a_cast() {
    for v in [0i64, 1, -1, 2, -2, i64::MAX, i64::MIN, 1 << 32, -(1 << 32), 0x1_2345_6789] {
        assert_eq!(low_32(v), v as u32);
    }
}

#[test]
fn little_endian_numbers_are_read_back() {
    let mut bytes: Vec<u8> = Vec::new();
    push_le(&mut bytes, 0x1234, 2);
    push_le(&mut bytes, 0x89ab_cdef, 4);
    push_le(&mut bytes, u64::MAX - 1, 8);
    assert_eq!(bytes[..6], [0x34, 0x12, 0xef, 0xcd, 0xab, 0x89]);
    assert_eq!(read_le(&bytes, 0, 2), 0x1234);
    assert_eq!(read_le(&bytes, 2, 4), 0x89ab_cdef);
    assert_eq!(read_le(&bytes, 6, 8), u64::MAX - 1);
}

#[test]
fn bit_patterns_are_compared_as_numbers() {
    let values = [
        0.0f64, -0.0, 1.0, -1.0, 24.0, 24.000001, 99.999, 100.0, 100.0001, -100.0001, 1e300,
        f64::INFINITY, f64::NEG_INFINITY, f64::NAN, -f64::NAN, f64::MIN_POSITIVE,
    ];
    for v in values {
        let bits = Float64 { bits: v.to_bits() };
        assert_eq!(beyond(bits, 100.0f64.to_bits()), v.abs() > 100.0, "{v}");
        assert_eq!(at_most(bits, 24.0f64.to_bits()), v <= 24.0, "{v}");
    }
}

#[test]
fn string_maps_hold_what_ordered_maps_hold() {
    let mut map: StringMap<u32> = StringMap::new();
    let mut expected: BTreeMap<String, u32> = BTreeMap::new();
    let keys = ["b", "a", "", "ab", "b", "\u{e9}", "z", "a"];
    for (value, key) in keys.iter().enumerate() {
        map.insert(key.to_string(), value as u32);
        expected.insert(key.to_string(), value as u32);
    }
    assert_eq!(map.len(), expected.len());
    for (i, (key, value)) in expected.iter().enumerate() {
        assert_eq!(map.key_at(i), key);
        assert_eq!(map.value_at(i), value);
        assert_eq!(map.get(key), Some(value));
    }
    assert_eq!(map.get("missing"), None);
    assert!(!map.contains_key("missing"));
    if let Some(value) = map.get_mut("z") {
        *value = 77;
    }
    assert_eq!(map.get("z"), Some(&77));
    assert!(map.get_mut("missing").is_none());
}

#[test]
fn texts_are_ordered_as_strings_are() {
    let texts = ["", "a", "A", "ab", "b", "\u{e9}", "\u{10000}", "\u{ffff}"];
    for a in texts {
        for b in texts {
            assert_eq!(stands_before(a, b), a < b);
        }
    }
}

#[test]
fn many_items_are_sorted() {
    let items: Vec<Reading> = (0..20_000u32)
        .map(|i| Reading {
            t: (i.wrapping_mul(2_654_435_761) >> 20) as u64,
            value: Float32 { bits: i },
        })
        .collect();
    let mut expected: Vec<(u64, u32)> = items.iter().map(|r| (r.t, r.value.bits)).collect();
    expected.sort_by_key(|item| item.0);
    let found: Vec<(u64, u32)> =
        sort_by_time(items).iter().map(|r| (r.t, r.value.bits)).collect();
    assert_eq!(found, expected);
}

#[test]
fn sorting_is_stable_and_one_item_per_time_stays() {
    let times = [5u64, 3, 5, 1, 3, 5, 0, 9, 1];
    let items: Vec<Reading> = times
        .iter()
        .enumerate()
        .map(|(i, t)| Reading { t: *t, value: Float32 { bits: i as u32 } })
        .collect();
    let mut expected: Vec<(u64, u32)> =
        times.iter().enumerate().map(|(i, t)| (*t, i as u32)).collect();
    expected.sort_by_key(|item| item.0);
    let sorted = sort_by_time(items);
    let found: Vec<(u64, u32)> = sorted.iter().map(|r| (r.t, r.value.bits)).collect();
    assert_eq!(found, expected);
    expected.dedup_by_key(|item| item.0);
    let kept: Vec<(u64, u32)> =
        dedup_by_time(sorted).iter().map(|r| (r.t, r.value.bits)).collect();
    assert_eq!(kept, expected);
}
