use theme_editor::decimal::exact_text;
use theme_editor::double::Double;
use theme_editor::json::{json_float, json_int, Json, JsonNumber, JsonObject};
use theme_editor::json_text::{json_from_text, json_to_text};
use theme_editor::scalar::Scalar;

fn f(value: f32) -> Scalar {
    Scalar { bits: value.to_bits() }
}

fn samples() -> Vec<f64> {
    let mut out = vec![
        0.0, -0.0, 0.1, -0.1, 0.5, 1.0, 1.5, 2.5, 16.0, 300.25, 16777216.0, 16777217.0, 16777219.0, 33554433.0, 2147483647.0,
        2147483648.0, -2147483648.0, -2147483649.0, 4294967295.5, 9.9e9, 1.0e20, 1.0e38, 3.4028234663852886e38,
        3.4028235677973362e38, 3.4028235677973366e38, 3.5e38, 1.0e300, 1.1754943508222875e-38, 1.1754943e-38, 1.0e-38,
        1.401298464324817e-45, 7.006492321624085e-46, 7.0064923216240854e-46, 7.006492321624086e-46, 2.1e-45, 1.0e-46,
        1.0e-300, 5.0e-324,
    ];
    let mut bits: u64 = 0x9E37_79B9_7F4A_7C15;
    for _ in 0..4000 {
        bits ^= bits << 13;
        bits ^= bits >> 7;
        bits ^= bits << 17;
        let exponent = 850 + bits % 320;
        let value = f64::from_bits((bits & 0x800F_FFFF_FFFF_FFFF) | (exponent << 52));
        out.push(value);
        out.push(f64::from_bits((bits & 0x800F_FFFF_E000_0000) | (exponent << 52) | 0x1000_0000));
    }
    out
}

#[test]
fn doubles_are_rounded_as_casts_do_it() {
    for value in samples() {
        let double = Double { bits: value.to_bits() };
        assert_eq!(double.to_single(), f(value as f32), "{value:e}");
        assert_eq!(double.to_int(), value as i32, "{value:e}");
        assert_eq!(double.is_integral(), value.fract() == 0.0, "{value:e}");
        let single = value as f32;
        assert_eq!(f(single).is_integral(), single.is_finite() && single.fract() == 0.0, "{single:e}");
    }
    for value in [f64::INFINITY, f64::NEG_INFINITY] {
        let double = Double { bits: value.to_bits() };
        assert_eq!(double.to_single(), f(value as f32));
        assert_eq!(double.to_int(), value as i32);
    }
    let none = Double { bits: f64::NAN.to_bits() };
    assert!(f32::from_bits(none.to_single().bits).is_nan());
    assert_eq!(none.to_int(), 0);
    assert!(!none.is_integral());
    assert!(!Double { bits: f64::INFINITY.to_bits() }.is_integral());
    for n in 0..4000 {
        let value = f64::from(n) / 8.0;
        assert_eq!(Double { bits: value.to_bits() }.is_integral(), n % 8 == 0);
        assert_eq!(f(value as f32).is_integral(), n % 8 == 0);
    }
}

#[test]
fn decimal_texts_are_exact() {
    assert_eq!(exact_text(f(f32::NAN)), "NaN");
    assert_eq!(exact_text(f(0.0)), "0e-149");
    assert_eq!(exact_text(f(-0.0)), "-0e-149");
    for value in samples() {
        let single = value as f32;
        if single.is_finite() {
            let read: f64 = exact_text(f(single)).parse().unwrap();
            assert_eq!(read.to_bits(), f64::from(single).to_bits(), "{single:e}");
        }
    }
}

fn number(text: &str) -> JsonNumber {
    match json_from_text(text) {
        Ok(Json::Number(n)) => n,
        other => panic!("no number: {other:?}"),
    }
}

#[test]
fn texts_hold_json_values() {
    assert_eq!(json_from_text(" null "), Ok(Json::Null));
    assert_eq!(json_from_text("true"), Ok(Json::Bool(true)));
    assert_eq!(json_from_text("\"a\\u0062\""), Ok(Json::String("ab".to_string())));
    assert_eq!(json_from_text("[1, 2]"), Ok(Json::Array));
    assert_eq!(number("7"), JsonNumber { single: f(7.0), int: 7, integral: true, long: Some(7), natural: Some(7) });
    assert_eq!(number("-7"), JsonNumber { single: f(-7.0), int: -7, integral: true, long: Some(-7), natural: None });
    assert_eq!(number("2.75"), JsonNumber { single: f(2.75), int: 2, integral: false, long: None, natural: None });
    assert_eq!(number("1.0").natural, None);
    assert_eq!(
        number("1e40"),
        JsonNumber { single: f(f32::INFINITY), int: i32::MAX, integral: true, long: None, natural: None }
    );
    assert_eq!(
        number("18446744073709551615"),
        JsonNumber {
            single: f(18446744073709551615u64 as f64 as f32),
            int: i32::MAX,
            integral: true,
            long: None,
            natural: Some(u64::MAX),
        }
    );
    let mut inner = JsonObject::new();
    inner.insert("c".to_string(), Json::Null);
    let mut object = JsonObject::new();
    object.insert("a".to_string(), Json::Object(inner));
    object.insert("b".to_string(), Json::Bool(false));
    assert_eq!(json_from_text(r##"{ "b": true, "a": { "c": null }, "b": false }"##), Ok(Json::Object(object)));
    assert_eq!(
        json_from_text("{"),
        Err(serde_json::from_str::<serde_json::Value>("{").unwrap_err().to_string())
    );
}

#[test]
fn json_values_are_written() {
    let mut tokens = JsonObject::new();
    tokens.insert("md".to_string(), json_float(f(0.1)));
    tokens.insert("weight".to_string(), json_int(-500));
    tokens.insert("whole".to_string(), json_float(f(16.0)));
    tokens.insert("none".to_string(), json_float(f(f32::NAN)));
    let mut object = JsonObject::new();
    object.insert("version".to_string(), json_int(1));
    object.insert("name".to_string(), Json::String("A \"b\"".to_string()));
    object.insert("list".to_string(), Json::Array);
    object.insert("on".to_string(), Json::Bool(true));
    object.insert("tokens".to_string(), Json::Object(tokens));
    let text = json_to_text(&Json::Object(object)).unwrap();
    assert_eq!(
        text,
        "{\n  \"list\": [],\n  \"name\": \"A \\\"b\\\"\",\n  \"on\": true,\n  \"tokens\": {\n    \"md\": 0.10000000149011612,\n    \"none\": null,\n    \"weight\": -500,\n    \"whole\": 16.0\n  },\n  \"version\": 1\n}"
    );
    let odd = Json::Number(JsonNumber { single: f(f32::INFINITY), int: 0, integral: false, long: None, natural: None });
    assert_eq!(json_to_text(&odd), Some("null".to_string()));
    for value in samples().into_iter().step_by(40) {
        let single = value as f32;
        assert_eq!(
            json_to_text(&json_float(f(single))),
            serde_json::to_string_pretty(&serde_json::Value::from(single)).ok(),
            "{single:e}"
        );
    }
}
