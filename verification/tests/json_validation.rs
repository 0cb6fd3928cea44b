use spectral_io::cross::{validate_cross_fields, SpectrumFacts};
use spectral_io::model::{file_kind, FileKind, ImportError, MeasurementType};
use spectral_io::schema::{number_sign_of, validate_json_text, NumberSign};

fn numbers(v: &serde_json::Value) -> Vec<f64> {
    v.as_array().unwrap().iter().map(|x| x.as_f64().unwrap()).collect()
}

fn measurement_type(s: &str) -> MeasurementType {
    match s {
        "reflectance" => MeasurementType::Reflectance,
        "transmittance" => MeasurementType::Transmittance,
        "absorbance" => MeasurementType::Absorbance,
        "radiance" => MeasurementType::Radiance,
        "irradiance" => MeasurementType::Irradiance,
        "emission" => MeasurementType::Emission,
        _ => MeasurementType::Sensitivity,
    }
}

/// What the cross-field checks read of a spectrum given by its values.
fn facts(sp: &serde_json::Value) -> SpectrumFacts {
    let wl = numbers(&sp["wavelength_axis"]["values_nm"]);
    let data = &sp["spectral_data"];
    let vals = numbers(&data["values"]);
    let bad: Vec<f64> = vals.iter().copied().filter(|v| !(0.0..=1.0).contains(v)).collect();
    let bad_percent: Vec<f64> =
        vals.iter().copied().filter(|v| !(0.0..=100.0).contains(v)).collect();
    let cs = &sp["color_science"];
    let sd = &cs["illuminant_custom_sd"];
    SpectrumFacts {
        id: sp["id"].as_str().unwrap().to_string(),
        n_wavelengths: wl.len(),
        n_values: vals.len(),
        n_uncertainty: data.get("uncertainty").map(|u| u.as_array().unwrap().len()),
        wavelengths_increasing: wl.windows(2).all(|w| w[0] < w[1]),
        measurement_type: measurement_type(sp["metadata"]["measurement_type"].as_str().unwrap()),
        scale: data.get("scale").map(|s| s.as_str().unwrap().to_string()),
        n_out_of_range: bad.len(),
        first_offender: bad.first().map(|b| format!("{}", b)).unwrap_or_default(),
        n_out_of_percent_range: bad_percent.len(),
        first_percent_offender: bad_percent.first().map(|b| format!("{}", b)).unwrap_or_default(),
        illuminant: cs.get("illuminant").map(|s| s.as_str().unwrap().to_string()),
        custom_sd_lengths: if sd.is_null() {
            None
        } else {
            Some((
                sd["wavelengths_nm"].as_array().unwrap().len(),
                sd["values"].as_array().unwrap().len(),
            ))
        },
    }
}

#[derive(Debug)]
enum Outcome {
    Schema(String),
    CrossField(String),
}

/// Structural validation, then the cross-field checks over each spectrum.
fn from_json_str(json: &str) -> Result<Vec<SpectrumFacts>, Outcome> {
    match validate_json_text(json) {
        Ok(()) => {},
        Err(ImportError::SchemaValidation(m)) => return Err(Outcome::Schema(m)),
        Err(e) => panic!("unexpected {:?}", e),
    }
    let v: serde_json::Value = serde_json::from_str(json).unwrap();
    let spectra: Vec<&serde_json::Value> = if v["file_type"] == "single" {
        vec![&v["spectrum"]]
    } else {
        v["spectra"].as_array().unwrap().iter().collect()
    };
    let all: Vec<SpectrumFacts> = spectra.into_iter().map(facts).collect();
    validate_cross_fields(&all).map_err(Outcome::CrossField)?;
    Ok(all)
}

fn make_single(mtype: &str, wls: &[f64], vals: &[f64]) -> String {
    let wl_s: Vec<String> = wls.iter().map(|w| w.to_string()).collect();
    let v_s: Vec<String> = vals.iter().map(|v| v.to_string()).collect();
    format!(
        r#"{{"schema_version":"1.0.0","file_type":"single","spectrum":{{"id":"t1",
        "metadata":{{"measurement_type":"{mtype}","date":"2026-04-29"}},
        "wavelength_axis":{{"values_nm":[{wl}]}},
        "spectral_data":{{"values":[{v}]}}}}}}"#,
        mtype = mtype,
        wl = wl_s.join(","),
        v = v_s.join(","),
    )
}

fn wls_41() -> Vec<f64> {
    (0..41).map(|i| 380.0 + i as f64 * 10.0).collect()
}

fn vals_41() -> Vec<f64> {
    (0..41).map(|i| i as f64 / 100.0).collect()
}

#[test]
fn valid_single_spectrum() {
    let file = from_json_str(&make_single("reflectance", &wls_41(), &vals_41())).unwrap();
    assert_eq!(file.len(), 1);
    assert_eq!(file_kind(file.len()), FileKind::Single);
    assert_eq!(file[0].n_values, 41);
}

#[test]
fn valid_batch_file() {
    let json = r#"{"schema_version":"1.0.0","file_type":"batch","spectra":[
        {"id":"a","metadata":{"measurement_type":"reflectance","date":"2026-04-29"},
         "wavelength_axis":{"values_nm":[380,390,400]},
         "spectral_data":{"values":[0.1,0.2,0.3]}},
        {"id":"b","metadata":{"measurement_type":"transmittance","date":"2026-04-29"},
         "wavelength_axis":{"values_nm":[380,390,400]},
         "spectral_data":{"values":[0.5,0.6,0.7]}}
    ]}"#;
    let file = from_json_str(json).unwrap();
    assert_eq!(file.len(), 2);
    assert_eq!(file_kind(file.len()), FileKind::Batch);
}

#[test]
fn missing_measurement_type_is_schema_error() {
    let json = r#"{"schema_version":"1.0.0","file_type":"single","spectrum":{"id":"x",
        "metadata":{"date":"2026-04-29"},
        "wavelength_axis":{"values_nm":[380,390,400]},
        "spectral_data":{"values":[0.1,0.2,0.3]}}}"#;
    assert!(matches!(from_json_str(json), Err(Outcome::Schema(_))));
}

#[test]
fn invalid_measurement_type_is_schema_error() {
    let json = make_single("fluorescence", &[380.0, 390.0], &[0.1, 0.2]);
    assert!(matches!(from_json_str(&json), Err(Outcome::Schema(_))));
}

#[test]
fn wavelength_value_length_mismatch() {
    let wls = vec![380.0, 390.0, 400.0];
    let vals = vec![0.1, 0.2];
    assert!(matches!(
        from_json_str(&make_single("reflectance", &wls, &vals)),
        Err(Outcome::CrossField(_))
    ));
}

#[test]
fn non_monotonic_wavelengths() {
    let wls = vec![380.0, 370.0, 400.0];
    let vals = vec![0.1, 0.2, 0.3];
    assert!(matches!(
        from_json_str(&make_single("reflectance", &wls, &vals)),
        Err(Outcome::CrossField(_))
    ));
}

#[test]
fn reflectance_out_of_range() {
    let wls = vec![380.0, 390.0, 400.0];
    let vals = vec![0.1, 1.5, 0.3];
    assert!(matches!(
        from_json_str(&make_single("reflectance", &wls, &vals)),
        Err(Outcome::CrossField(_))
    ));
}

#[test]
fn absorbance_above_one_is_ok() {
    let wls = vec![380.0, 390.0, 400.0];
    let vals = vec![0.1, 1.8, 2.5];
    assert!(from_json_str(&make_single("absorbance", &wls, &vals)).is_ok());
}

#[test]
fn custom_illuminant_missing_sd() {
    let json = r#"{"schema_version":"1.0.0","file_type":"single","spectrum":{"id":"x",
        "metadata":{"measurement_type":"reflectance","date":"2026-04-29"},
        "wavelength_axis":{"values_nm":[380,390,400]},
        "spectral_data":{"values":[0.1,0.2,0.3]},
        "color_science":{"illuminant":"custom"}}}"#;
    assert!(matches!(from_json_str(json), Err(Outcome::CrossField(_))));
}

#[test]
fn invalid_scale_value() {
    let json = r#"{"schema_version":"1.0.0","file_type":"single","spectrum":{"id":"x",
        "metadata":{"measurement_type":"reflectance","date":"2026-04-29"},
        "wavelength_axis":{"values_nm":[380,390,400]},
        "spectral_data":{"values":[0.1,0.2,0.3],"scale":"ratio"}}}"#;
    assert!(matches!(from_json_str(json), Err(Outcome::Schema(_))));
}

#[test]
fn uncertainty_length_mismatch_is_error() {
    let json = r#"{
        "schema_version": "1.0.0",
        "file_type": "single",
        "spectrum": {
            "id": "x",
            "metadata": {"measurement_type": "reflectance", "date": "2026-04-29"},
            "wavelength_axis": {"values_nm": [380, 390, 400]},
            "spectral_data": {"values": [0.1, 0.2, 0.3], "uncertainty": [0.01, 0.01]}
        }
    }"#;
    assert!(matches!(from_json_str(json), Err(Outcome::CrossField(_))));
}

#[test]
fn illuminant_custom_sd_length_mismatch_is_error() {
    let json = r#"{
        "schema_version": "1.0.0",
        "file_type": "single",
        "spectrum": {
            "id": "x",
            "metadata": {"measurement_type": "reflectance", "date": "2026-04-29"},
            "wavelength_axis": {"values_nm": [380, 390, 400]},
            "spectral_data": {"values": [0.1, 0.2, 0.3]},
            "color_science": {
                "illuminant": "custom",
                "illuminant_custom_sd": {
                    "wavelengths_nm": [380, 390, 400],
                    "values": [1.0, 1.1]
                }
            }
        }
    }"#;
    assert!(matches!(from_json_str(json), Err(Outcome::CrossField(_))));
}

#[test]
fn percent_scale_reflectance_above_one_is_ok() {
    let json = r#"{"schema_version":"1.0.0","file_type":"single","spectrum":{"id":"x",
        "metadata":{"measurement_type":"reflectance","date":"2026-04-29"},
        "wavelength_axis":{"values_nm":[380,390,400]},
        "spectral_data":{"values":[50.0,75.0,85.0],"scale":"percent"}}}"#;
    assert!(from_json_str(json).is_ok());
}

#[test]
fn percent_scale_reflectance_above_hundred_is_error() {
    let json = r#"{"schema_version":"1.0.0","file_type":"single","spectrum":{"id":"x",
        "metadata":{"measurement_type":"reflectance","date":"2026-04-29"},
        "wavelength_axis":{"values_nm":[380,390,400]},
        "spectral_data":{"values":[50.0,150.0,-2.5],"scale":"percent"}}}"#;
    match from_json_str(json) {
        Err(Outcome::CrossField(m)) => assert_eq!(
            m,
            "SpectrumRecord 'x': measurement_type=Reflectance, scale='percent' but 2 value(s) fall outside [0,100]. First offender: 150"
        ),
        other => panic!("unexpected {:?}", other.map(|_| ())),
    }
}

#[test]
fn percent_scale_absorbance_above_hundred_is_ok() {
    let json = r#"{"schema_version":"1.0.0","file_type":"single","spectrum":{"id":"x",
        "metadata":{"measurement_type":"absorbance","date":"2026-04-29"},
        "wavelength_axis":{"values_nm":[380,390,400]},
        "spectral_data":{"values":[50.0,150.0,85.0],"scale":"percent"}}}"#;
    assert!(from_json_str(json).is_ok());
}

#[test]
fn percent_facts_ignored_on_fractional_scale() {
    let f = SpectrumFacts {
        id: "f".to_string(),
        n_wavelengths: 2,
        n_values: 2,
        n_uncertainty: None,
        wavelengths_increasing: true,
        measurement_type: MeasurementType::Transmittance,
        scale: Some("fractional".to_string()),
        n_out_of_range: 0,
        first_offender: String::new(),
        n_out_of_percent_range: 1,
        first_percent_offender: "120".to_string(),
        illuminant: None,
        custom_sd_lengths: None,
    };
    assert_eq!(validate_cross_fields(&vec![f]), Ok(()));
}

#[test]
fn single_file_with_spectra_key_is_schema_error() {
    let json = r#"{"schema_version":"1.0.0","file_type":"single",
        "spectrum":{"id":"x","metadata":{"measurement_type":"reflectance","date":"2026-04-29"},
        "wavelength_axis":{"values_nm":[380,390]},"spectral_data":{"values":[0.1,0.2]}},
        "spectra":[]}"#;
    assert!(matches!(from_json_str(json), Err(Outcome::Schema(_))));
}

#[test]
fn empty_spectra_array_is_schema_error() {
    let json = r#"{"schema_version":"1.0.0","file_type":"batch","spectra":[]}"#;
    assert!(matches!(from_json_str(json), Err(Outcome::Schema(_))));
}

#[test]
fn invalid_illuminant_is_schema_error() {
    let json = r#"{"schema_version":"1.0.0","file_type":"single","spectrum":{"id":"x",
        "metadata":{"measurement_type":"reflectance","date":"2026-04-29"},
        "wavelength_axis":{"values_nm":[380,390,400]},
        "spectral_data":{"values":[0.1,0.2,0.3]},
        "color_science":{"illuminant":"TL84"}}}"#;
    assert!(matches!(from_json_str(json), Err(Outcome::Schema(_))));
}

#[test]
fn invalid_cie_observer_is_schema_error() {
    let json = r#"{"schema_version":"1.0.0","file_type":"single","spectrum":{"id":"x",
        "metadata":{"measurement_type":"reflectance","date":"2026-04-29"},
        "wavelength_axis":{"values_nm":[380,390,400]},
        "spectral_data":{"values":[0.1,0.2,0.3]},
        "color_science":{"cie_observer":"CIE 2006"}}}"#;
    assert!(matches!(from_json_str(json), Err(Outcome::Schema(_))));
}

#[test]
fn values_nm_fewer_than_two_is_schema_error() {
    let json = r#"{"schema_version":"1.0.0","file_type":"single","spectrum":{"id":"x",
        "metadata":{"measurement_type":"reflectance","date":"2026-04-29"},
        "wavelength_axis":{"values_nm":[380]},
        "spectral_data":{"values":[0.1]}}}"#;
    assert!(matches!(from_json_str(json), Err(Outcome::Schema(_))));
}

#[test]
fn range_nm_non_positive_interval_is_schema_error() {
    let json = r#"{"schema_version":"1.0.0","file_type":"single","spectrum":{"id":"x",
        "metadata":{"measurement_type":"reflectance","date":"2026-04-29"},
        "wavelength_axis":{"range_nm":{"start":380,"end":780,"interval":0}},
        "spectral_data":{"values":[0.1,0.2]}}}"#;
    assert!(matches!(from_json_str(json), Err(Outcome::Schema(_))));
}

// ── exact messages ───────────────────────────────────────────────────────────

fn schema_message(json: &str) -> String {
    match validate_json_text(json) {
        Err(ImportError::SchemaValidation(m)) => m,
        other => panic!("expected a schema error, got {:?}", other.is_ok()),
    }
}

#[test]
fn root_must_be_object() {
    assert_eq!(schema_message("[1, 2]"), "Root value must be a JSON object.");
}

#[test]
fn all_problems_reported_one_per_line() {
    let json = r#"{"schema_version":"1.0","file_type":"batch","spectrum":{},
        "spectra":[{"id":3,"metadata":{"measurement_type":"x","date":"d"},
        "wavelength_axis":{"values_nm":[1,"a"],"range_nm":{}},
        "spectral_data":{"values":"no","uncertainty":[1,-1],"scale":7},
        "color_science":{"illuminant":"D65","cie_observer":"CIE 1931 2 degree"}}, 5]}"#;
    assert_eq!(
        schema_message(json),
        [
            "schema_version '1.0' does not look like semver (e.g. 1.0.0)",
            "spectra[0].id must be a string",
            "spectra[0].metadata.measurement_type 'x' is not allowed. Must be one of: reflectance, transmittance, absorbance, radiance, irradiance, emission, sensitivity",
            "spectra[0].wavelength_axis: exactly one of 'values_nm' or 'range_nm' must be present (both found)",
            "spectra[0].spectral_data.values must be an array",
            "spectra[0].spectral_data.uncertainty values must be non-negative",
            "spectra[0].spectral_data.scale must be a string",
            "spectra[1]: must be an object",
            "Batch file must not have a 'spectrum' field",
        ]
        .join("\n")
    );
}

#[test]
fn file_type_and_version_messages() {
    assert_eq!(
        schema_message(r#"{"file_type":"other"}"#),
        "Missing required field: schema_version\nfile_type must be 'single' or 'batch', got 'other'"
    );
    assert_eq!(
        schema_message(r#"{"schema_version":1,"file_type":2}"#),
        "schema_version must be a string\nfile_type must be a string"
    );
    assert_eq!(
        schema_message(r#"{"schema_version":"+1.2.3"}"#),
        "Missing required field: file_type"
    );
}

#[test]
fn range_nm_messages() {
    let json = r#"{"schema_version":"1.0.0","file_type":"single","spectrum":{"id":"x",
        "metadata":{"measurement_type":"reflectance","date":"2026-04-29"},
        "wavelength_axis":{"range_nm":{"start":"380","interval":-5}},
        "spectral_data":{"values":[0.1,0.2]}}}"#;
    assert_eq!(
        schema_message(json),
        [
            "spectrum.wavelength_axis.range_nm.start must be a number",
            "spectrum.wavelength_axis.range_nm: missing required field 'end'",
            "spectrum.wavelength_axis.range_nm.interval must be positive",
        ]
        .join("\n")
    );
}

#[test]
fn cross_field_messages() {
    let f = SpectrumFacts {
        id: "s".to_string(),
        n_wavelengths: 3,
        n_values: 2,
        n_uncertainty: Some(1),
        wavelengths_increasing: false,
        measurement_type: MeasurementType::Transmittance,
        scale: None,
        n_out_of_range: 2,
        first_offender: "1.5".to_string(),
        n_out_of_percent_range: 0,
        first_percent_offender: String::new(),
        illuminant: Some("custom".to_string()),
        custom_sd_lengths: None,
    };
    let msg = validate_cross_fields(&vec![f]).unwrap_err();
    assert_eq!(
        msg,
        [
            "SpectrumRecord 's': wavelength_axis has 3 points but spectral_data.values has 2 — must match.",
            "SpectrumRecord 's': spectral_data.uncertainty has 1 points but spectral_data.values has 2 — must match.",
            "SpectrumRecord 's': wavelength_axis is not strictly increasing.",
            "SpectrumRecord 's': measurement_type=Transmittance, scale='fractional' but 2 value(s) fall outside [0,1]. First offender: 1.5",
            "SpectrumRecord 's': color_science.illuminant is 'custom' but illuminant_custom_sd is missing.",
        ]
        .join("\n")
    );
}

#[test]
fn cross_field_custom_sd_lengths_message() {
    let f = SpectrumFacts {
        id: "k".to_string(),
        n_wavelengths: 2,
        n_values: 2,
        n_uncertainty: None,
        wavelengths_increasing: true,
        measurement_type: MeasurementType::Absorbance,
        scale: None,
        n_out_of_range: 1,
        first_offender: "3".to_string(),
        n_out_of_percent_range: 0,
        first_percent_offender: String::new(),
        illuminant: Some("custom".to_string()),
        custom_sd_lengths: Some((3, 2)),
    };
    assert_eq!(
        validate_cross_fields(&vec![f]).unwrap_err(),
        "SpectrumRecord 'k': illuminant_custom_sd.wavelengths_nm (3) and .values (2) must have equal length."
    );
    assert_eq!(validate_cross_fields(&vec![]), Ok(()));
}

#[test]
fn text_that_is_not_json_is_refused() {
    assert!(matches!(validate_json_text("{\"schema_version\": "), Err(ImportError::Json(_))));
    assert!(matches!(validate_json_text("not json"), Err(ImportError::Json(_))));
    assert!(matches!(
        validate_json_text("[1, 2]"),
        Err(ImportError::SchemaValidation(m)) if m == "Root value must be a JSON object."
    ));
}

#[test]
fn number_sign_from_text() {
    assert_eq!(number_sign_of("0"), NumberSign::Zero);
    assert_eq!(number_sign_of("-0.0"), NumberSign::Zero);
    assert_eq!(number_sign_of("0.0e5"), NumberSign::Zero);
    assert_eq!(number_sign_of("-5"), NumberSign::Negative);
    assert_eq!(number_sign_of("-1e-7"), NumberSign::Negative);
    assert_eq!(number_sign_of("1e-7"), NumberSign::Positive);
    assert_eq!(number_sign_of("380"), NumberSign::Positive);
    assert_eq!(number_sign_of("0.001"), NumberSign::Positive);
}

#[test]
fn range_interval_sign_read_from_json_text() {
    let base = r#"{"schema_version":"1.0.0","file_type":"single","spectrum":{"id":"x",
        "metadata":{"measurement_type":"reflectance","date":"2026-04-29"},
        "wavelength_axis":{"range_nm":{"start":380,"end":400,"interval":INTERVAL}},
        "spectral_data":{"values":[0.1,0.2,0.3]}}}"#;
    for bad in ["0", "-0.0", "-10", "0e3"] {
        assert_eq!(
            schema_message(&base.replace("INTERVAL", bad)),
            "spectrum.wavelength_axis.range_nm.interval must be positive"
        );
    }
    for good in ["10", "0.5", "1e1"] {
        assert_eq!(validate_json_text(&base.replace("INTERVAL", good)).map_err(|e| format!("{:?}", e)), Ok(()));
    }
}
