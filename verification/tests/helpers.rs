use rwmstatus::number::{push_decimal, push_two_digits};
use rwmstatus::paths::{join_entry, path_before};
use rwmstatus::text::{chars_of, has_prefix, is_text, join_texts, push_text, string_of};

fn chars(text: &str) -> Vec<char> {
    text.chars().collect()
}

#[test]
fn decimal_digits_are_those_of_std() {
    for n in [0u128, 1, 9, 10, 11, 99, 100, 101, 12345, u64::MAX as u128, u128::MAX] {
        let mut out = chars("x");
        push_decimal(&mut out, n);
        assert_eq!(string_of(&out), format!("x{}", n));
    }
}

#[test]
fn two_digits_are_those_of_std() {
    for n in [0u128, 1, 9, 10, 11, 99, 100, 12345] {
        let mut out = chars("x");
        push_two_digits(&mut out, n);
        assert_eq!(string_of(&out), format!("x{:02}", n));
    }
}

#[test]
fn text_is_appended() {
    let mut out = chars("ab");
    push_text(&mut out, "");
    assert_eq!(out, chars("ab"));
    push_text(&mut out, "c\u{b0}d");
    assert_eq!(out, chars("abc\u{b0}d"));
}

#[test]
fn text_is_compared() {
    assert!(is_text(&chars("Full"), "Full"));
    assert!(is_text(&chars(""), ""));
    assert!(!is_text(&chars("Full"), "full"));
    assert!(!is_text(&chars("Full"), "Ful"));
    assert!(!is_text(&chars("Ful"), "Full"));
    assert!(!is_text(&chars(""), "x"));
}

#[test]
fn prefixes_are_those_of_std() {
    let texts = ["", "h", "hwmon", "hwmon0", "hwmo", "xhwmon", "BAT1", "\u{e9}t\u{e9}"];
    for text in texts {
        for prefix in texts {
            assert_eq!(
                has_prefix(&chars_of(text), &chars_of(prefix)),
                text.starts_with(prefix),
                "{:?} {:?}",
                text,
                prefix
            );
        }
    }
}

#[test]
fn texts_are_joined_as_std_joins() {
    let cases: [&[&str]; 6] =
        [&[], &[""], &["a"], &["a", "b"], &["", "", ""], &["45\u{b0}C", "", "47\u{b0}C"]];
    for parts in cases {
        let owned: Vec<String> = parts.iter().map(|p| p.to_string()).collect();
        for sep in ["|", " ", "", ", "] {
            assert_eq!(join_texts(&owned, sep), owned.join(sep));
        }
    }
}

#[test]
fn paths_are_ordered_as_std_orders_strings() {
    let texts = ["", "a", "b", "ab", "a/", "a/b", "a-b", "B", "hwmon10", "hwmon2", "\u{e9}", "z"];
    for a in texts {
        for b in texts {
            assert_eq!(path_before(&chars(a), &chars(b)), a <= b, "{:?} {:?}", a, b);
        }
    }
}

#[test]
fn entries_are_joined_to_their_directory() {
    assert_eq!(join_entry(&chars("/sys"), &chars("BAT0")), chars("/sys/BAT0"));
    assert_eq!(join_entry(&chars("/sys/"), &chars("BAT0")), chars("/sys/BAT0"));
    assert_eq!(join_entry(&chars(""), &chars("BAT0")), chars("BAT0"));
    assert_eq!(join_entry(&chars("/"), &chars("BAT0")), chars("/BAT0"));
    assert_eq!(join_entry(&chars("/sys"), &chars("")), chars("/sys/"));
}
