//! Tests of the format-string converter on its own: specifier rewriting,
//! untouched text, and idempotence at the fixed point.

use minitranspile::format::convert_format_string;

fn convert(s: &str) -> String {
    convert_format_string(s.chars().collect()).iter().collect()
}

#[test]
fn specifier_with_modifiers_keeps_them() {
    assert_eq!(convert("%5.2f"), "{:5.2f}");
    assert_eq!(convert("%-4d"), "{:-4d}");
    assert_eq!(convert("%10s"), "{:10s}");
}

#[test]
fn bare_specifiers_become_empty_placeholders() {
    assert_eq!(convert("%s"), "{}");
    assert_eq!(convert("%d"), "{}");
    assert_eq!(convert("%f"), "{}");
    assert_eq!(convert("%x"), "{}");
}

#[test]
fn conversion_is_idempotent() {
    let once = convert("%5.2f");
    assert_eq!(once, "{:5.2f}");
    let twice: String = convert_format_string(once.chars().collect()).iter().collect();
    assert_eq!(twice, once);
}

#[test]
fn text_without_specifiers_is_unchanged() {
    assert_eq!(convert("Hello, world!\n"), "Hello, world!\n");
    assert_eq!(convert(""), "");
    assert_eq!(convert("100% done"), "100% done");
}

#[test]
fn specifiers_in_running_text() {
    assert_eq!(convert("%d items: %s"), "{} items: {}");
    assert_eq!(convert("x=%5.2f;"), "x={:5.2f};");
}

#[test]
fn near_misses_are_left_alone() {
    // a second % interrupts the modifier run; only the inner %d matches
    assert_eq!(convert("%%d"), "%{}");
    // no type character after the modifiers
    assert_eq!(convert("%5.2"), "%5.2");
    // a lone % at the end
    assert_eq!(convert("50%"), "50%");
}
