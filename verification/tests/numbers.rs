use theme_editor::color::{
    check_color_equal, color_hex, format_hex_color, parse_hex_color, parse_loose_hex, Color,
};
use theme_editor::literals::{format_rust_float, rust_string_literal, ExportLiteral};
use theme_editor::scalar::{check_float_equal, Scalar};
use theme_editor::text::{
    capitalize, char_is_white, default_save_file_name, integer_to_text, natural_to_text, save_file_name_from,
    split_once, text_less, to_lower, trimmed,
};

fn f(value: f32) -> Scalar {
    Scalar { bits: value.to_bits() }
}

fn samples() -> Vec<f32> {
    let mut out = vec![
        0.0,
        -0.0,
        1.0,
        -1.0,
        0.1,
        0.5,
        1.5,
        2.5,
        -2.5,
        8.0,
        16.0,
        16.001,
        16.0005,
        15.9995,
        0.0009,
        0.001,
        0.0011,
        -0.0005,
        0.0005,
        1.0 + f32::EPSILON,
        1.0 - f32::EPSILON,
        1.0 - f32::EPSILON / 2.0,
        1.0 + 2.0 * f32::EPSILON,
        f32::EPSILON,
        f32::EPSILON / 2.0,
        -f32::EPSILON,
        f32::MIN_POSITIVE,
        f32::from_bits(1),
        f32::from_bits(0x007f_ffff),
        -f32::from_bits(3),
        123456.79,
        16777216.0,
        16777218.0,
        8388607.5,
        2147483600.0,
        2147483648.0,
        -2147483648.0,
        -2147483904.0,
        3.4e38,
        -3.4e38,
        f32::MAX,
        f32::MIN,
        f32::INFINITY,
        f32::NEG_INFINITY,
        f32::NAN,
    ];
    let mut bits: u32 = 0x9e37_79b9;
    for _ in 0..200 {
        bits = bits.wrapping_mul(1_664_525).wrapping_add(1_013_904_223);
        out.push(f32::from_bits(bits));
        out.push((bits % 4096) as f32 / 64.0);
    }
    out
}

#[test]
fn comparisons_agree_with_single_precision() {
    let all = samples();
    for a in &all {
        for b in &all {
            let difference = (a - b).abs();
            assert_eq!(f(*a).same(&f(*b)), a == b, "{a} {b}");
            assert_eq!(f(*a).near(&f(*b)), difference < f32::EPSILON, "{a} {b}");
            assert_eq!(f(*a).far(&f(*b)), difference >= f32::EPSILON, "{a} {b}");
            assert_eq!(f(*a).close(&f(*b)), difference < 0.001, "{a} {b}");
            assert_eq!(check_float_equal(f(*a), f(*b)), difference < 0.001, "{a} {b}");
        }
    }
}

#[test]
fn integers_round_as_casts_do() {
    for n in [0, 1, -1, 7, 44, 999, 16_777_217, -16_777_219, 33_554_431, i32::MAX, i32::MIN] {
        assert_eq!(Scalar::from_int(n), f(n as f32), "{n}");
    }
    for n in [0, 9_007_199_254_740_993, -4_611_686_018_427_387_905, i64::MAX, i64::MIN, 16_777_217] {
        assert_eq!(Scalar::from_long(n), f(n as f32), "{n}");
    }
    for value in samples() {
        assert_eq!(f(value).to_int(), value as i32, "{value}");
    }
    assert_eq!(Scalar::zero(), f(0.0));
}

#[test]
fn percentages_agree_with_single_precision() {
    for channel in 0..=255u8 {
        let color = Color::rgba(channel, 255 - channel, channel / 2, 7);
        for percent in [0u8, 5, 10, 15, 20] {
            let amount = percent as f32 / 100.0;
            let lighter = color.lighten_percent(percent);
            let darker = color.darken_percent(percent);
            assert_eq!(lighter.r, (channel as f32 + (255.0 - channel as f32) * amount) as u8);
            assert_eq!(darker.r, (channel as f32 * (1.0 - amount)) as u8);
            assert_eq!(lighter.a, 7);
            assert_eq!(darker.a, 7);
        }
    }
    for percent in 0..=100u8 {
        let faded = Color::rgb(1, 2, 3).with_alpha_percent(percent);
        assert_eq!(faded, Color::rgba(1, 2, 3, (percent as f32 / 100.0 * 255.0) as u8), "{percent}");
        for channel in 0..=255u8 {
            let lighter = Color::rgb(channel, 0, 255).lighten_percent(percent).r;
            let amount = percent as f32 / 100.0;
            assert_eq!(lighter, (channel as f32 + (255.0 - channel as f32) * amount) as u8, "{channel} {percent}");
        }
    }
}

#[test]
fn hexadecimal_texts_are_read_back() {
    for n in 0..=255u8 {
        let opaque = Color::rgb(n, 255 - n, n ^ 0x55);
        let clear = Color::rgba(n, 3, 255 - n, n / 2);
        for color in [opaque, clear] {
            assert_eq!(parse_hex_color(&format_hex_color(color)), color);
            assert_eq!(parse_hex_color(&color_hex(color)), color);
            assert_eq!(Color::from_hex(&color_hex(color)), Some(color));
        }
    }
    assert_eq!(format_hex_color(Color::rgb(0xab, 0xc, 0xff)), "ab0cff");
    assert_eq!(color_hex(Color::rgba(0xab, 0xc, 0xff, 1)), "#ab0cff01");
}

#[test]
fn odd_color_texts() {
    assert_eq!(parse_hex_color("  #fff "), Color::rgb(255, 255, 255));
    assert_eq!(parse_hex_color("##1a2"), Color::rgb(0x11, 0xaa, 0x22));
    assert_eq!(parse_hex_color("11223344"), Color::rgba(0x11, 0x22, 0x33, 0x44));
    for text in ["1", "12", "1234", "12345", "1122334", "112233445", "1122334455", "112233zz", "zz2233", "zzz"] {
        assert_eq!(parse_hex_color(text), Color::rgb(26, 154, 154), "{text}");
    }
    assert_eq!(parse_loose_hex("1122334"), Some(Color::rgb(0x11, 0x22, 0x33)));
    assert_eq!(parse_hex_color("nothing"), Color::rgb(26, 154, 154));
    assert_eq!(parse_hex_color(""), Color::rgb(26, 154, 154));
    assert_eq!(parse_loose_hex("+1+2+3"), Some(Color::rgb(1, 2, 3)));
    assert_eq!(Color::from_hex("#12345"), None);
    assert_eq!(Color::from_hex("#zzzzzz"), None);
    assert_eq!(Color::from_hex("11223344"), Some(Color::rgba(0x11, 0x22, 0x33, 0x44)));
    assert!(check_color_equal(Color::rgb(1, 2, 3), Color::rgba(1, 2, 3, 255)));
    assert!(!check_color_equal(Color::rgb(1, 2, 3), Color::rgba(1, 2, 3, 254)));
}

fn written(value: f32) -> String {
    if value.fract().abs() < f32::EPSILON {
        return format!("{value:.1}");
    }
    let mut text = format!("{value:.4}");
    while text.contains('.') && text.ends_with('0') {
        text.pop();
    }
    if text.ends_with('.') {
        text.push('0');
    }
    text
}

#[test]
fn numbers_are_written_with_at_most_four_decimals() {
    for value in samples() {
        assert_eq!(format_rust_float(f(value)), written(value), "{value:?}");
    }
    assert_eq!(format_rust_float(f(16.0)), "16.0");
    assert_eq!(format_rust_float(f(1.25)), "1.25");
    assert_eq!(format_rust_float(f(0.00004)), "0.0");
    assert_eq!(format_rust_float(f(-0.125)), "-0.125");
}

#[test]
fn literals_are_escaped() {
    assert_eq!(rust_string_literal("plain"), "\"plain\"");
    assert_eq!(rust_string_literal("a\"b\\c"), "\"a\\\"b\\\\c\"");
    assert_eq!(rust_string_literal("\n\r\t\u{8}\u{c}\u{1}\u{1f}"), "\"\\n\\r\\t\\b\\f\\u0001\\u001f\"");
    assert_eq!(rust_string_literal("é/\u{7f}\u{2028}"), "\"é/\u{7f}\u{2028}\"");
    for c in (0..0x300u32).filter_map(char::from_u32) {
        let text = c.to_string();
        assert_eq!(rust_string_literal(&text), serde_json::to_string(&text).unwrap());
    }
    assert_eq!(ExportLiteral::Int(-3).to_macro_expr(), "-3");
    assert_eq!(ExportLiteral::Bool(true).to_macro_expr(), "true");
    assert_eq!(ExportLiteral::String("x".to_string()).to_macro_expr(), "\"x\"");
    assert!(ExportLiteral::Int(1).same(&ExportLiteral::Int(1)));
    assert!(!ExportLiteral::Int(1).same(&ExportLiteral::Float(f(1.0))));
}

#[test]
fn white_space_is_that_of_unicode() {
    for c in (0..=0x10ffffu32).filter_map(char::from_u32) {
        assert_eq!(char_is_white(c), c.is_whitespace(), "{c:?}");
    }
    assert_eq!(trimmed("\u{2003} a b\u{85}\n"), "a b");
}

#[test]
fn texts_are_ordered_by_their_bytes() {
    let words = ["", "a", "ab", "b", "B", "é", "z", "\u{ffff}", "\u{10000}"];
    for a in words {
        for b in words {
            assert_eq!(text_less(a, b), a < b, "{a} {b}");
        }
    }
}

#[test]
fn first_letters_are_capitalized() {
    assert_eq!(capitalize("color"), "Color");
    assert_eq!(capitalize(""), "");
    assert_eq!(capitalize("éclair"), "Éclair");
    assert_eq!(capitalize("ßa"), "SSa");
    assert_eq!(to_lower("ABC-9é"), "abc-9é");
}

#[test]
fn saved_files_are_named_after_their_theme() {
    assert_eq!(default_save_file_name("My Theme"), "my_theme.json");
    assert_eq!(default_save_file_name("Ärger 2"), "ärger_2.json");
    assert_eq!(default_save_file_name(" "), "untitled.json");
    assert_eq!(save_file_name_from("My Theme", "my_theme"), "my_theme.json");
}

#[test]
fn integers_are_written_in_base_ten() {
    for n in [0u64, 7, 10, 999, u64::MAX] {
        assert_eq!(natural_to_text(n), n.to_string());
    }
    for n in [0i64, -1, 42, i64::MIN, i64::MAX] {
        assert_eq!(integer_to_text(n), n.to_string());
    }
    assert_eq!(split_once("a} from b} from c", "} from "), Some(("a".to_string(), "b} from c".to_string())));
    assert_eq!(split_once("abc", "x"), None);
}
