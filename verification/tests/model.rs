use spectral_io::model::{schema_error, ImportError, ResampleMethod, SpecularComponent};
use spectral_io::number::{decimal_chars, parse_u32, parses_as_float};
use spectral_io::csv_text::parse_measurement_type;
use spectral_io::model::MeasurementType;
use spectral_io::ss_text::ss_split_kv;
use spectral_io::text::{chars_of, split_lines, trim_str};

#[test]
fn specular_component_names() {
    assert_eq!(SpecularComponent::Included.name(), "included");
    assert_eq!(SpecularComponent::Excluded.name(), "excluded");
    assert_eq!(SpecularComponent::NotApplicable.name(), "not applicable");
}

#[test]
fn resample_method_names() {
    assert_eq!(ResampleMethod::Linear.method_name(), "linear interpolation");
    assert_eq!(ResampleMethod::BoxcarAverage.method_name(), "boxcar average");
    assert_eq!(ResampleMethod::Gaussian.method_name(), "gaussian");
}

#[test]
fn schema_error_carries_message() {
    assert!(matches!(schema_error("bad"), ImportError::SchemaValidation(m) if m == "bad"));
}

#[test]
fn lines_as_str_lines_gives_them() {
    let text = "a\r\nb\n\nc\r";
    let expected: Vec<String> = text.lines().map(|l| l.to_string()).collect();
    assert_eq!(split_lines(text), expected);
    assert_eq!(split_lines(""), Vec::<String>::new());
    assert_eq!(split_lines("x\n"), vec!["x".to_string()]);
}

#[test]
fn trim_as_str_trim() {
    for s in ["  a b  ", "\u{3000}x\u{85}", "", " \t\n"] {
        assert_eq!(trim_str(s), s.trim());
    }
}

#[test]
fn case_mapping_reaches_readers() {
    // Lower-casing: an upper-case type name is still recognised.
    assert_eq!(parse_measurement_type("TRANSMITTANCE"), MeasurementType::Transmittance);
    // Upper-casing, beyond ASCII too: the key comes back in upper case.
    assert_eq!(
        ss_split_kv("straße 5"),
        Some(("STRASSE".to_string(), "5".to_string()))
    );
}

#[test]
fn float_grammar_matches_f64_parse() {
    for s in [
        "1", "-1.5", "+.5", "5.", "1e10", "1E-3", "inf", "-Infinity", "NaN", "", ".", "e5",
        "1e", "1.2.3", "0x10", " 1", "1_000",
    ] {
        assert_eq!(parses_as_float(&chars_of(s)), s.parse::<f64>().is_ok(), "{s:?}");
    }
}

#[test]
fn u32_parse_matches_std() {
    for s in ["0", "+7", "4294967295", "4294967296", "-1", "", "+", "12a"] {
        assert_eq!(parse_u32(&chars_of(s)), s.parse::<u32>().ok(), "{s:?}");
    }
}

#[test]
fn decimal_forms() {
    let d: String = decimal_chars(0).into_iter().collect();
    assert_eq!(d, "0");
    let d: String = decimal_chars(1234567890123).into_iter().collect();
    assert_eq!(d, "1234567890123");
}
