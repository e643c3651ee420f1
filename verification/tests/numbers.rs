//! Numbers, texts and tables.

use otel_logger::aggregator::stats::ModelStats;
use otel_logger::clock::format_rfc3339;
use otel_logger::double::{Double, Usd, UNITS_PER_DOLLAR};
use otel_logger::number::{parse_integer, parse_usd};
use otel_logger::otlp::{
    find_attr, int_attr, service_name, u64_attr, AnyValue, KeyValue, Resource, Value,
};
use otel_logger::sorted::SortedMap;
use otel_logger::text::{
    chars_of, clean, decimal_text, hex, join, same_text, signed_decimal_text, to_ascii_lower, trim,
};

/// The digits of 2^-1075.
const FLOOR: &str = "24703282292062327208828439643411068618252990130716238221279284125033775363510437593264991818081799618989828234772285886546332835517796989819938739800539093906315035659515570226392290858392449105184435931802849936536152500319370457678249219365623669863658480757001585769269903706311928279558551332927834338409351978015531246597263579574622766465272827220056374006485499977096599470454020828166226237857393450736339007967761930577506740176324673600968951340535537458516661134223766678604162159680461914467291840300530057530849048765391711386591646239524912623653881879636239373280423891018672348497668235089863388587925628302755995657524455507255189313690836254779186948667994968324049705821028513185451396213837722826145437693412532098591327667236328125";

fn double(x: f64) -> Double {
    Double { bits: x.to_bits(), text: x.to_string() }
}

#[test]
fn doubles_become_counters_and_amounts() {
    for (x, n) in [
        (0.0, 0u64),
        (-0.0, 0),
        (0.999, 0),
        (1.0, 1),
        (42.9, 42),
        (-1.0, 0),
        (1e18, 1_000_000_000_000_000_000),
        (f64::NAN, 0),
        (f64::INFINITY, 0),
        (u64::MAX as f64, 0),
        (5e-324, 0),
    ] {
        assert_eq!(double(x).counter(), n, "{x}");
    }
    assert_eq!(double(1.5).usd(), Usd { units: UNITS_PER_DOLLAR + UNITS_PER_DOLLAR / 2 });
    assert_eq!(double(-1.5).usd(), Usd { units: 0 });
    assert_eq!(double(f64::INFINITY).usd(), Usd { units: 0 });
    assert_eq!(double(f64::MAX).usd(), Usd { units: u128::MAX });
    assert!(double(1.0).is_finite());
    assert!(!double(f64::NAN).is_finite());
    assert_eq!(double(-2.7).integer(), Some(-2));
    assert_eq!(double(f64::NAN).integer(), None);
}

#[test]
fn doubles_beyond_the_integers_are_no_integers() {
    let attribute = |x: f64| {
        let value = AnyValue { value: Some(Value::Double(double(x))) };
        vec![KeyValue { key: "n".to_string(), value: Some(value) }]
    };
    for (x, n) in [
        (9_223_372_036_854_775_808.0, None),
        (9_223_372_036_854_774_784.0, Some(9_223_372_036_854_774_784)),
        (-9_223_372_036_854_775_808.0, Some(i64::MIN)),
        (-9_223_372_036_854_777_856.0, None),
        (f64::INFINITY, None),
        (f64::NEG_INFINITY, None),
    ] {
        assert_eq!(int_attr(&attribute(x), "n"), n, "{x}");
    }
    assert_eq!(u64_attr(&attribute(9_223_372_036_854_775_808.0), "n"), 0);
}

#[test]
fn integers_are_read_as_the_standard_library_reads_them() {
    for s in [
        "0", "12", "+7", "-7", "", "-", "+", " 1", "1 ", "1.0", "9223372036854775807",
        "9223372036854775808", "-9223372036854775808", "-9223372036854775809", "00012", "1_000",
    ] {
        assert_eq!(parse_integer(&chars_of(s)), s.parse::<i64>().ok(), "{s}");
    }
}

#[test]
fn amounts_are_read_as_decimal_numbers() {
    for s in ["0.01", "1", "1.25", "12e-1", ".5", "5.", "+0.25", "1E2", "000.5"] {
        let expected = s.parse::<f64>().unwrap();
        let got = parse_usd(&chars_of(s)).units as f64 / UNITS_PER_DOLLAR as f64;
        assert!((got - expected).abs() < 1e-12, "{s}: {got}");
    }
    for s in ["", "x", "-1", "1e", "inf", "NaN", ".", "1e400"] {
        assert_eq!(parse_usd(&chars_of(s)), Usd { units: 0 }, "{s}");
    }
}

#[test]
fn texts_are_trimmed_joined_and_shown() {
    assert_eq!(decimal_text(u128::MAX), u128::MAX.to_string());
    assert_eq!(signed_decimal_text(i64::MIN), i64::MIN.to_string());
    assert_eq!(hex(&vec![0, 15, 255]), "000fff");
    assert_eq!(join(&vec!["a".into(), "b".into()], ", "), "a, b");
    assert_eq!(join(&vec![], ", "), "");
    let spaced: Vec<char> = "\u{3000} a b\t".chars().collect();
    assert_eq!(trim(&spaced), vec!['a', ' ', 'b']);
    let upper: Vec<char> = "AZ\u{c4}".chars().collect();
    assert_eq!(to_ascii_lower(&upper), vec!['a', 'z', '\u{c4}']);
    assert!(same_text("x", "x"));
    assert!(!same_text("x", "xy"));
    assert_eq!(clean("a\u{1b}b\u{7f}\u{9b}c"), "a\\u{1b}b\\u{7f}\\u{9b}c");
}

#[test]
fn times_are_published_in_rfc_3339_or_as_seconds() {
    assert_eq!(format_rfc3339(0), "1970-01-01T00:00:00Z");
    assert_eq!(format_rfc3339(1_500_000_000), "1970-01-01T00:00:01.5Z");
    assert_eq!(format_rfc3339(-1_000_000_000_000_000_000_000), "-1000000000000");
}

#[test]
fn sorted_maps_are_read_in_the_order_of_their_keys() {
    let mut m: SortedMap<ModelStats> = SortedMap::new();
    for key in ["b", "a", "c", "B"] {
        m.insert(
            key.to_string(),
            ModelStats {
                request_count: key.len() as u64,
                input_tokens: 0,
                output_tokens: 0,
                cache_read_tokens: 0,
                cache_creation_tokens: 0,
                reasoning_output_tokens: 0,
                cost_usd: Usd { units: 0 },
                duration_ms: 0,
            },
        );
    }
    let keys: Vec<&str> = (0..m.len()).map(|i| m.row(i).key.as_str()).collect();
    assert_eq!(keys, vec!["B", "a", "b", "c"]);
    assert!(m.contains_key("c"));
    assert!(m.get("d").is_none());
}

#[test]
fn adding_and_subtracting_counters_cancel() {
    let zero = ModelStats {
        request_count: 0,
        input_tokens: 0,
        output_tokens: 0,
        cache_read_tokens: 0,
        cache_creation_tokens: 0,
        reasoning_output_tokens: 0,
        cost_usd: Usd { units: 0 },
        duration_ms: 0,
    };
    let some = ModelStats { input_tokens: 5, cost_usd: Usd { units: 9 }, ..zero };
    let mut total = ModelStats { input_tokens: 7, output_tokens: 1, ..zero };
    let before = total;
    total.add(&some);
    assert_eq!(total.input_tokens, 12);
    total.subtract(&some);
    assert_eq!(total, before);
}

#[test]
fn the_first_attribute_of_a_key_counts() {
    let kv = |key: &str, v: Value| KeyValue {
        key: key.to_string(),
        value: Some(AnyValue { value: Some(v) }),
    };
    let attrs = vec![
        kv("n", Value::Text("17".into())),
        kv("n", Value::Int(3)),
        kv("neg", Value::Int(-3)),
        kv("d", Value::Double(double(2.9))),
    ];
    assert!(find_attr(&attrs, "missing").is_none());
    assert_eq!(u64_attr(&attrs, "n"), 17);
    assert_eq!(u64_attr(&attrs, "neg"), 0);
    assert_eq!(u64_attr(&attrs, "d"), 2);
    assert_eq!(service_name(&None), "");
    let r = Some(Resource { attributes: vec![kv("service.name", Value::Text("s".into()))] });
    assert_eq!(service_name(&r), "s");
}

#[test]
fn amounts_above_zero_are_noticed() {
    let floor = format!("0.{}{}", "0".repeat(323), FLOOR);
    for text in [
        "0", "0.0", "-0.0", "0e5", "-1", "1", "1e-19", "1e-20", "1e-21", "1e-30", "1e-300", "1e-322",
        "1e-323", "3e-324", "2.5e-324", "2.4703282292062328e-324", "2.4703282292062327e-324", "2e-324",
        "1e-324", "1e-400", "1e-99999999999999999999999999999999999999", "1e400", "abc", "",
        floor.as_str(),
    ] {
        let counts = text.parse::<f64>().is_ok_and(|x| x.is_finite() && x > 0.0);
        assert_eq!(parse_usd(&chars_of(text)).units > 0, counts, "{text}");
    }
    let more = format!("{floor}0001");
    assert!(more.parse::<f64>().unwrap() > 0.0);
    assert_eq!(parse_usd(&chars_of(&more)), Usd { units: 1 });
    for x in [5e-324, 1e-300, 1e-20, 0.5, 1e300] {
        assert!(double(x).usd().units > 0, "{x}");
    }
    for x in [0.0, -0.0, -5e-324, f64::NAN] {
        assert_eq!(double(x).usd(), Usd { units: 0 }, "{x}");
    }
    assert_eq!(double(5e-324).usd(), Usd { units: 1 });
}
