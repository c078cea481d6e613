//! The canonical order of categories, and the order of texts under it.
use tower_guard_rs::categories::sort_categories;
use tower_guard_rs::text::{decimal_text, has_prefix, is_blank, precedes, same_text};

fn texts(items: &[&str]) -> Vec<String> {
    items.iter().map(|item| (*item).to_owned()).collect()
}

#[test]
fn categories_are_sorted_and_deduplicated() {
    assert_eq!(
        sort_categories(texts(&["xss", "sqli", "xss", "cmdi", "sqli"])),
        texts(&["cmdi", "sqli", "xss"])
    );
    assert_eq!(sort_categories(texts(&["sqli", "sqli"])), texts(&["sqli"]));
    assert_eq!(sort_categories(texts(&[])), texts(&[]));
}

#[test]
fn sorting_ignores_order_and_how_often_a_category_occurs() {
    let once = sort_categories(texts(&["b", "a", "c"]));
    assert_eq!(sort_categories(texts(&["c", "c", "b", "a", "a", "b"])), once);
    assert_eq!(sort_categories(once.clone()), once);
}

#[test]
fn sorting_agrees_with_the_order_of_strings() {
    let items = ["", "a", "A", "ab", "é", "z", "\u{ffff}", "\u{10000}", "aé", "a b"];
    let mut expected = texts(&items);
    expected.sort_unstable();
    assert_eq!(sort_categories(texts(&items)), expected);
    for a in items {
        for b in items {
            assert_eq!(precedes(a, b), a < b, "{a:?} {b:?}");
            assert_eq!(same_text(a, b), a == b, "{a:?} {b:?}");
            assert_eq!(has_prefix(a, b), a.starts_with(b), "{a:?} {b:?}");
        }
    }
}

#[test]
fn blank_texts_are_those_that_trim_to_nothing() {
    for text in [
        "", " ", "\t\r\n", "\u{a0}\u{3000}", "\u{85}", "\u{2028}", "\u{1680}", "\u{200b}", "a",
        " a ", "\u{0}",
    ] {
        assert_eq!(is_blank(text), text.trim().is_empty(), "{text:?}");
    }
}

#[test]
fn numbers_are_written_in_decimal() {
    assert_eq!(decimal_text(0), "0");
    assert_eq!(decimal_text(7), "7");
    assert_eq!(decimal_text(1234567890), "1234567890");
    assert_eq!(decimal_text(u64::MAX), "18446744073709551615");
}
