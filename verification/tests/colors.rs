use glap::utils::{Color, color_from_text, string_to_color};

fn c(s: &str) -> Color {
    string_to_color(s.to_string())
}

#[test]
fn names_in_any_case() {
    assert_eq!(c("red"), Color::Red);
    assert_eq!(c("RED"), Color::Red);
    assert_eq!(c("LightBlue"), Color::LightBlue);
    assert_eq!(c("darkgray"), Color::DarkGray);
    assert_eq!(c("White"), Color::White);
    assert_eq!(c("lightyellow"), Color::LightYellow);
    assert_eq!(c("black"), Color::Black);
}

#[test]
fn empty_and_reset_are_reset() {
    assert_eq!(c(""), Color::Reset);
    assert_eq!(c("Reset"), Color::Reset);
    assert_eq!(c("nonsense"), Color::Reset);
}

#[test]
fn three_digits_are_palette_index() {
    assert_eq!(c("123"), Color::Indexed(123));
    assert_eq!(c("255"), Color::Indexed(255));
    assert_eq!(c("007"), Color::Indexed(7));
    assert_eq!(c("+12"), Color::Indexed(12));
    assert_eq!(c("256"), Color::Reset);
    assert_eq!(c("-12"), Color::Reset);
    assert_eq!(c("12"), Color::Indexed(12));
    assert_eq!(c("9"), Color::Indexed(9));
    assert_eq!(c("42"), Color::Indexed(42));
    assert_eq!(c("0"), Color::Indexed(0));
    assert_eq!(c("+7"), Color::Reset);
    assert_eq!(c("+200"), Color::Reset);
    assert_eq!(c("+012"), Color::Reset);
    assert_eq!(c("+300"), Color::Reset);
    assert_eq!(c("+"), Color::Reset);
    assert_eq!(c("0012"), Color::Reset);
    assert_eq!(c("1000"), Color::Reset);
    assert_eq!(c("1a2"), Color::Reset);
}

#[test]
fn hex_colors() {
    assert_eq!(c("#1a2B3c"), Color::Rgb(0x1a, 0x2b, 0x3c));
    assert_eq!(c("#ffffff"), Color::Rgb(255, 255, 255));
    assert_eq!(c("#fff"), Color::Rgb(255, 255, 255));
    assert_eq!(c("#0f0"), Color::Rgb(0, 255, 0));
    assert_eq!(c("#abc"), c("#aabbcc"));
    assert_eq!(c("#12345g"), Color::Reset);
    assert_eq!(c("#+f+f+f"), Color::Rgb(15, 15, 15));
    assert_eq!(c("#+ff"), Color::Reset);
    assert_eq!(c("x123456"), Color::Reset);
    assert_eq!(c("#12"), Color::Reset);
    assert_eq!(c("#1234"), Color::Reset);
}

#[test]
fn color_from_text_uses_the_lowered_name() {
    assert_eq!(color_from_text("red", "RED"), Color::Red);
    assert_eq!(color_from_text("nothing", "#000"), Color::Rgb(0, 0, 0));
}

#[test]
fn non_ascii_hex_is_reset() {
    assert_eq!(c("#a\u{e9}"), Color::Reset);
    assert_eq!(c("#\u{20ac}123"), Color::Reset);
    assert_eq!(c("#\u{e9}\u{e9}12"), Color::Reset);
}

#[test]
fn hex_digits_in_either_case() {
    assert_eq!(c("#ABC"), c("#abc"));
    assert_eq!(c("#1A2B3C"), c("#1a2b3c"));
}
