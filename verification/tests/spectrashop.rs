use spectral_io::model::{ImportError, MeasurementType};
use spectral_io::spectrashop::{ss_build_record, ss_parse, SsRecord};
use spectral_io::ss_text::{
    ss_apply_kv, ss_illuminant, ss_measurement_type, ss_observer, ss_parse_date, ss_split_kv,
    ss_str, ss_tokenize_into, SsMeta,
};

fn parse(input: &str) -> Result<Vec<SsRecord>, ImportError> {
    ss_parse(input, None)
}

fn number(t: &str) -> f64 {
    t.parse::<f64>().unwrap()
}

fn custom_get<'a>(custom: &'a serde_json::Map<String, serde_json::Value>, key: &str) -> Option<&'a str> {
    custom.get(key).and_then(|v| v.as_str())
}

fn ss_input_single() -> String {
    // Tab-separated SpectraShop header + data block with 3 wavelength points.
    [
        "FILE_DESCRIPTOR\tTest file",
        "SPECTRUM_TYPE\tReflective",
        "CREATED\t2014-05-15",
        "ORIGINATOR\tTest User",
        "ILLUMINANT\tD65",
        "OBSERVER\t2 degree",
        "INSTRUMENTATION\tCM-700d",
        "INSTRUMENT_SERIAL\tABC123",
        "MEASUREMENT_GEOMETRY\td:8",
        "MEASUREMENT_FILTER\tNone",
        "SAMPLE_BACKING\tBlack",
        "NMEASURE\t3",
        "SW_VERSION\t5.0.0",
        "BEGIN_DATA_FORMAT",
        "SAMPLE_ID\tSAMPLE_NAME\tSPECTRAL_NM\tSPECTRAL_VAL\tSPECTRAL_NM\tSPECTRAL_VAL\tSPECTRAL_NM\tSPECTRAL_VAL",
        "END_DATA_FORMAT",
        "BEGIN_DATA",
        "s1\tRedTile\t380\t0.048\t390\t0.051\t400\t0.054",
        "END_DATA",
    ]
    .join("\n")
}

#[test]
fn spectrashop_single_record() {
    let file = parse(&ss_input_single()).unwrap();
    assert_eq!(file.len(), 1);
    let spectra = file;
    assert_eq!(spectra.len(), 1);
    let sp = &spectra[0];
    assert_eq!(sp.head.id, "s1");
    assert_eq!(sp.head.title.as_deref(), Some("RedTile"));
    assert_eq!(sp.head.description.as_deref(), Some("Test file"));
    assert_eq!(sp.head.operator.as_deref(), Some("Test User"));
    assert_eq!(sp.head.date, "2014-05-15");
    assert_eq!(sp.head.sample_backing.as_deref(), Some("Black"));
    assert!(matches!(
        sp.head.measurement_type,
        MeasurementType::Reflectance
    ));
    assert_eq!(sp.wavelengths.len(), 3);
    assert_eq!(sp.values.len(), 3);
    let cs = sp.head.color_science.as_ref().unwrap();
    assert_eq!(cs.illuminant.as_deref(), Some("D65"));
    assert_eq!(cs.cie_observer.as_deref(), Some("CIE 1931 2 degree"));
    let mc = sp.head.conditions.as_ref().unwrap();
    assert_eq!(mc.geometry.as_deref(), Some("d:8"));
    assert!(mc.filter.is_none()); // "None" filtered out
    assert_eq!(mc.averaging, Some(3));
    let prov = &sp.head.provenance;
    assert_eq!(prov.software.as_deref(), Some("SpectraShop"));
    assert_eq!(prov.software_version.as_deref(), Some("5.0.0"));
    assert_eq!(prov.source_format.as_deref(), Some("SpectraShop Text"));
    let instr = sp.head.instrument.as_ref().unwrap();
    assert_eq!(instr.model.as_deref(), Some("CM-700d"));
    assert_eq!(instr.serial_number.as_deref(), Some("ABC123"));
}

#[test]
fn spectrashop_batch_two_records() {
    let input = [
        "SPECTRUM_TYPE\tReflective",
        "BEGIN_DATA_FORMAT",
        "SAMPLE_ID\tSPECTRAL_NM\tSPECTRAL_VAL\tSPECTRAL_NM\tSPECTRAL_VAL",
        "END_DATA_FORMAT",
        "BEGIN_DATA",
        "1\t380\t0.1\t390\t0.2",
        "2\t380\t0.3\t390\t0.4",
        "END_DATA",
    ]
    .join("\n");

    let file = parse(&input).unwrap();
    assert!(file.len() > 1);
    assert_eq!(file.len(), 2);
    assert_eq!(file[0].head.id, "1");
    assert_eq!(file[1].head.id, "2");
}

#[test]
fn spectrashop_date_mm_dd_yyyy() {
    let input = [
        "SPECTRUM_TYPE\tReflective",
        "CREATED\t05/15/2014 13:40:29",
        "BEGIN_DATA_FORMAT",
        "SAMPLE_ID\tSPECTRAL_NM\tSPECTRAL_VAL\tSPECTRAL_NM\tSPECTRAL_VAL",
        "END_DATA_FORMAT",
        "BEGIN_DATA",
        "s1\t380\t0.1\t390\t0.2",
        "END_DATA",
    ]
    .join("\n");

    let file = parse(&input).unwrap();
    assert_eq!(file[0].head.date, "2014-05-15");
}

#[test]
fn spectrashop_transmissive_type() {
    let input = [
        "SPECTRUM_TYPE\tTransmissive",
        "BEGIN_DATA_FORMAT",
        "SAMPLE_ID\tSPECTRAL_NM\tSPECTRAL_VAL\tSPECTRAL_NM\tSPECTRAL_VAL",
        "END_DATA_FORMAT",
        "BEGIN_DATA",
        "s1\t380\t0.1\t390\t0.2",
        "END_DATA",
    ]
    .join("\n");

    let file = parse(&input).unwrap();
    assert!(matches!(
        file[0].head.measurement_type,
        MeasurementType::Transmittance
    ));
}

#[test]
fn spectrashop_10_degree_observer() {
    let input = [
        "SPECTRUM_TYPE\tReflective",
        "OBSERVER\t10 degree",
        "BEGIN_DATA_FORMAT",
        "SAMPLE_ID\tSPECTRAL_NM\tSPECTRAL_VAL\tSPECTRAL_NM\tSPECTRAL_VAL",
        "END_DATA_FORMAT",
        "BEGIN_DATA",
        "s1\t380\t0.1\t390\t0.2",
        "END_DATA",
    ]
    .join("\n");

    let file = parse(&input).unwrap();
    let cs = file[0].head.color_science.as_ref().unwrap();
    assert_eq!(cs.cie_observer.as_deref(), Some("CIE 1964 10 degree"));
}

#[test]
fn spectrashop_aperture_mm_parsed() {
    let input = [
        "SPECTRUM_TYPE\tReflective",
        "MEASUREMENT_GEOMETRY\td:8",
        "MEASUREMENT_APERTURE\t4 mm",
        "BEGIN_DATA_FORMAT",
        "SAMPLE_ID\tSPECTRAL_NM\tSPECTRAL_VAL\tSPECTRAL_NM\tSPECTRAL_VAL",
        "END_DATA_FORMAT",
        "BEGIN_DATA",
        "s1\t380\t0.1\t390\t0.2",
        "END_DATA",
    ]
    .join("\n");

    let file = parse(&input).unwrap();
    let mc = file[0]
        .head
        .conditions
        .as_ref()
        .unwrap();
    assert!((number(mc.aperture_mm.as_deref().unwrap()) - 4.0).abs() < 1e-9);
}

#[test]
fn spectrashop_lav_aperture_is_none() {
    let input = [
        "SPECTRUM_TYPE\tReflective",
        "MEASUREMENT_GEOMETRY\td:8",
        "MEASUREMENT_APERTURE\tLAV",
        "BEGIN_DATA_FORMAT",
        "SAMPLE_ID\tSPECTRAL_NM\tSPECTRAL_VAL\tSPECTRAL_NM\tSPECTRAL_VAL",
        "END_DATA_FORMAT",
        "BEGIN_DATA",
        "s1\t380\t0.1\t390\t0.2",
        "END_DATA",
    ]
    .join("\n");

    let file = parse(&input).unwrap();
    let mc = file[0]
        .head
        .conditions
        .as_ref()
        .unwrap();
    assert!(mc.aperture_mm.is_none());
}

#[test]
fn spectrashop_quoted_sample_name_with_spaces() {
    let input = [
        "SPECTRUM_TYPE\tReflective",
        "BEGIN_DATA_FORMAT",
        "SAMPLE_ID\tSAMPLE_NAME\tSPECTRAL_NM\tSPECTRAL_VAL\tSPECTRAL_NM\tSPECTRAL_VAL",
        "END_DATA_FORMAT",
        "BEGIN_DATA",
        "s1\t\"Red Munsell\"\t380\t0.1\t390\t0.2",
        "END_DATA",
    ]
    .join("\n");

    let file = parse(&input).unwrap();
    assert_eq!(
        file[0].head.title.as_deref(),
        Some("Red Munsell")
    );
}

#[test]
fn spectrashop_missing_data_format_is_error() {
    let input = [
        "SPECTRUM_TYPE\tReflective",
        "BEGIN_DATA",
        "s1\t380\t0.1\t390\t0.2",
        "END_DATA",
    ]
    .join("\n");

    assert!(matches!(
        parse(&input),
        Err(ImportError::SchemaValidation(_))
    ));
}

#[test]
fn spectrashop_empty_data_block_is_error() {
    let input = [
        "SPECTRUM_TYPE\tReflective",
        "BEGIN_DATA_FORMAT",
        "SAMPLE_ID\tSPECTRAL_NM\tSPECTRAL_VAL",
        "END_DATA_FORMAT",
        "BEGIN_DATA",
        "END_DATA",
    ]
    .join("\n");

    assert!(matches!(
        parse(&input),
        Err(ImportError::SchemaValidation(_))
    ));
}

#[test]
fn spectrashop_id_fallback_when_no_sample_id_field() {
    let input = [
        "SPECTRUM_TYPE\tReflective",
        "BEGIN_DATA_FORMAT",
        "SPECTRAL_NM\tSPECTRAL_VAL\tSPECTRAL_NM\tSPECTRAL_VAL",
        "END_DATA_FORMAT",
        "BEGIN_DATA",
        "380\t0.1\t390\t0.2",
        "END_DATA",
    ]
    .join("\n");

    let file = parse(&input).unwrap();
    // No SAMPLE_ID field → fallback to "1"
    assert_eq!(file[0].head.id, "1");
}

#[test]
fn spectrashop_multiple_data_blocks() {
    // Files may contain more than one BEGIN_DATA_FORMAT/BEGIN_DATA pair;
    // records from all blocks are merged into a single batch.
    let input = [
        "SPECTRUM_TYPE\tReflective",
        "BEGIN_DATA_FORMAT",
        "SAMPLE_ID\tSPECTRAL_NM\tSPECTRAL_VAL\tSPECTRAL_NM\tSPECTRAL_VAL",
        "END_DATA_FORMAT",
        "BEGIN_DATA",
        "s1\t380\t0.1\t390\t0.2",
        "END_DATA",
        "BEGIN_DATA",
        "s2\t380\t0.3\t390\t0.4",
        "END_DATA",
    ]
    .join("\n");

    let file = parse(&input).unwrap();
    assert!(file.len() > 1);
    assert_eq!(file.len(), 2);
    assert_eq!(file[0].head.id, "s1");
    assert_eq!(file[1].head.id, "s2");
}

#[test]
fn spectrashop_note_in_provenance() {
    let input = [
        "SPECTRUM_TYPE\tReflective",
        "NOTE\tCalibrated 2024-01",
        "BEGIN_DATA_FORMAT",
        "SAMPLE_ID\tSPECTRAL_NM\tSPECTRAL_VAL\tSPECTRAL_NM\tSPECTRAL_VAL",
        "END_DATA_FORMAT",
        "BEGIN_DATA",
        "s1\t380\t0.1\t390\t0.2",
        "END_DATA",
    ]
    .join("\n");

    let file = parse(&input).unwrap();
    let prov = &file[0].head.provenance;
    assert_eq!(prov.notes.as_deref(), Some("Calibrated 2024-01"));
}

#[test]
fn spectrashop_both_notes_joined() {
    let input = [
        "SPECTRUM_TYPE\tReflective",
        "ACQUIRE_NOTE\tFirst note",
        "NOTE\tSecond note",
        "BEGIN_DATA_FORMAT",
        "SAMPLE_ID\tSPECTRAL_NM\tSPECTRAL_VAL\tSPECTRAL_NM\tSPECTRAL_VAL",
        "END_DATA_FORMAT",
        "BEGIN_DATA",
        "s1\t380\t0.1\t390\t0.2",
        "END_DATA",
    ]
    .join("\n");

    let file = parse(&input).unwrap();
    let prov = &file[0].head.provenance;
    assert_eq!(prov.notes.as_deref(), Some("First note; Second note"));
}

#[test]
fn spectrashop_measurement_filter_preserved() {
    let input = [
        "SPECTRUM_TYPE\tReflective",
        "MEASUREMENT_GEOMETRY\t45/0",
        "MEASUREMENT_FILTER\tD65",
        "BEGIN_DATA_FORMAT",
        "SAMPLE_ID\tSPECTRAL_NM\tSPECTRAL_VAL\tSPECTRAL_NM\tSPECTRAL_VAL",
        "END_DATA_FORMAT",
        "BEGIN_DATA",
        "s1\t380\t0.1\t390\t0.2",
        "END_DATA",
    ]
    .join("\n");

    let file = parse(&input).unwrap();
    let mc = file[0]
        .head
        .conditions
        .as_ref()
        .unwrap();
    assert_eq!(mc.filter.as_deref(), Some("D65"));
}

#[test]
fn spectrashop_sample_id3_in_custom() {
    let input = [
        "SPECTRUM_TYPE\tReflective",
        "BEGIN_DATA_FORMAT",
        "SAMPLE_ID1\tSAMPLE_ID2\tSAMPLE_ID3\tSPECTRAL_NM\tSPECTRAL_VAL\tSPECTRAL_NM\tSPECTRAL_VAL",
        "END_DATA_FORMAT",
        "BEGIN_DATA",
        "42\tDeep Red\tWarm Red\t380\t0.1\t390\t0.2",
        "END_DATA",
    ]
    .join("\n");

    let file = parse(&input).unwrap();
    let sp = &file[0];
    assert_eq!(sp.head.id, "42");
    assert_eq!(sp.head.title.as_deref(), Some("Deep Red"));
    assert!(!sp.head.custom.is_empty(), "custom must be set");
    assert_eq!(custom_get(&sp.head.custom, "sample_id3"), Some("Warm Red"));
}

#[test]
fn spectrashop_unknown_data_field_in_custom() {
    let input = [
        "SPECTRUM_TYPE\tReflective",
        "BEGIN_DATA_FORMAT",
        "SAMPLE_ID\tMY_CUSTOM_FIELD\tSPECTRAL_NM\tSPECTRAL_VAL\tSPECTRAL_NM\tSPECTRAL_VAL",
        "END_DATA_FORMAT",
        "BEGIN_DATA",
        "s1\tmy_value\t380\t0.1\t390\t0.2",
        "END_DATA",
    ]
    .join("\n");

    let file = parse(&input).unwrap();
    assert!(!file[0].head.custom.is_empty(), "custom must be set");
    assert_eq!(custom_get(&file[0].head.custom, "my_custom_field"), Some("my_value"));
}

#[test]
fn spectrashop_aperture_comma_decimal() {
    // European locale files use comma as decimal separator.
    let input = [
        "SPECTRUM_TYPE\tReflective",
        "MEASUREMENT_GEOMETRY\t45/0",
        "MEASUREMENT_APERTURE\t4,5 mm",
        "BEGIN_DATA_FORMAT",
        "SAMPLE_ID\tSPECTRAL_NM\tSPECTRAL_VAL\tSPECTRAL_NM\tSPECTRAL_VAL",
        "END_DATA_FORMAT",
        "BEGIN_DATA",
        "s1\t380\t0.1\t390\t0.2",
        "END_DATA",
    ]
    .join("\n");

    let file = parse(&input).unwrap();
    let mc = file[0]
        .head
        .conditions
        .as_ref()
        .unwrap();
    assert!((number(mc.aperture_mm.as_deref().unwrap()) - 4.5).abs() < 1e-9);
}

// ── error messages and the pieces of the reader ────────────────────────────

fn schema_message(r: Result<Vec<SsRecord>, ImportError>) -> String {
    match r {
        Err(ImportError::SchemaValidation(m)) => m,
        _ => panic!("expected a schema error"),
    }
}

#[test]
fn spectrashop_no_data_block_message() {
    let input = "SPECTRUM_TYPE\tReflective\n";
    assert_eq!(
        schema_message(parse(input)),
        "SpectraShop: no BEGIN_DATA/END_DATA block found"
    );
}

#[test]
fn spectrashop_empty_block_message() {
    let input = ["BEGIN_DATA", "END_DATA"].join("\n");
    assert_eq!(
        schema_message(parse(&input)),
        "SpectraShop: BEGIN_DATA/END_DATA block present but contained no parseable records (check that BEGIN_DATA_FORMAT is also present and non-empty)"
    );
}

#[test]
fn spectrashop_token_count_message() {
    let input = [
        "BEGIN_DATA_FORMAT",
        "SAMPLE_ID\tSPECTRAL_NM\tSPECTRAL_VAL",
        "END_DATA_FORMAT",
        "BEGIN_DATA",
        "s1\t380\t0.1\t390",
        "END_DATA",
    ]
    .join("\n");
    assert_eq!(
        schema_message(parse(&input)),
        "SpectraShop: data token count (4) is not a multiple of field count (3) in section ending near record 0"
    );
}

#[test]
fn spectrashop_record_without_pairs_message() {
    let input = [
        "BEGIN_DATA_FORMAT",
        "SAMPLE_ID\tSPECTRAL_NM\tSPECTRAL_VAL",
        "END_DATA_FORMAT",
        "BEGIN_DATA",
        "s1\tx\ty",
        "END_DATA",
    ]
    .join("\n");
    assert_eq!(
        schema_message(parse(&input)),
        "SpectraShop: record 0 has no SPECTRAL_NM/SPECTRAL_VAL pairs"
    );
}

#[test]
fn spectrashop_markers_any_case_and_comments() {
    let input = [
        "# a comment",
        "spectrum_type\tTransmissive",
        "begin_data_format",
        "sample_id spectral_nm spectral_val spectral_nm spectral_val",
        "end_data_format",
        "",
        "Begin_Data",
        "a\t380\t0,5\t390\t0,6",
        "b\t380\t0.7\t390\t0.8",
        "end_data",
    ]
    .join("\r\n");
    let recs = parse(&input).unwrap();
    assert_eq!(recs.len(), 2);
    assert_eq!(recs[0].head.id, "a");
    assert_eq!(recs[0].values, vec!["0.5".to_string(), "0.6".to_string()]);
    assert_eq!(recs[1].head.id, "b");
    assert!(matches!(recs[1].head.measurement_type, MeasurementType::Transmittance));
}

#[test]
fn spectrashop_ids_count_on_across_sections() {
    let input = [
        "BEGIN_DATA_FORMAT",
        "SPECTRAL_NM\tSPECTRAL_VAL",
        "END_DATA_FORMAT",
        "BEGIN_DATA",
        "380\t0.1",
        "END_DATA",
        "BEGIN_DATA",
        "380\t0.2\t390\t0.3",
        "END_DATA",
    ]
    .join("\n");
    let recs = parse(&input).unwrap();
    let ids: Vec<&str> = recs.iter().map(|r| r.head.id.as_str()).collect();
    assert_eq!(ids, vec!["1", "2", "3"]);
}

#[test]
fn spectrashop_source_file_in_provenance() {
    let recs = ss_parse(&ss_input_single(), Some("tiles.txt")).unwrap();
    assert_eq!(recs[0].head.provenance.source_file.as_deref(), Some("tiles.txt"));
}

#[test]
fn ss_str_strips_quotes() {
    assert_eq!(ss_str("  \"Red Munsell\" "), Some("Red Munsell".to_string()));
    assert_eq!(ss_str("\"\""), None);
    assert_eq!(ss_str("   "), None);
    assert_eq!(ss_str("plain"), Some("plain".to_string()));
}

#[test]
fn ss_split_kv_forms() {
    assert_eq!(
        ss_split_kv("created\t 2014-05-15 "),
        Some(("CREATED".to_string(), "2014-05-15".to_string()))
    );
    assert_eq!(
        ss_split_kv("NOTE two words"),
        Some(("NOTE".to_string(), "two words".to_string()))
    );
    assert_eq!(ss_split_kv("SINGLEWORD"), None);
    assert_eq!(ss_split_kv("\tvalue"), None);
}

#[test]
fn ss_tokenize_into_skips_empty_fields() {
    let mut tokens = vec!["x".to_string()];
    ss_tokenize_into("a\t\t\"b c\"\t \t\"United Drug Co. \"Graph Blue\"\"", &mut tokens);
    assert_eq!(
        tokens,
        vec!["x", "a", "b c", "United Drug Co. \"Graph Blue\""]
    );
}

#[test]
fn ss_value_readers() {
    assert!(matches!(ss_measurement_type(" Emissive "), MeasurementType::Irradiance));
    assert!(matches!(ss_measurement_type("transmissive"), MeasurementType::Transmittance));
    assert!(matches!(ss_measurement_type("other"), MeasurementType::Reflectance));
    assert_eq!(ss_observer("10 Degree"), Some("CIE 1964 10 degree".to_string()));
    assert_eq!(ss_observer("2°"), Some("CIE 1931 2 degree".to_string()));
    assert_eq!(ss_observer("none"), None);
    assert_eq!(ss_illuminant("D50"), Some("D50".to_string()));
    assert_eq!(ss_illuminant("custom"), None);
    assert_eq!(ss_illuminant("d50"), None);
    assert_eq!(ss_parse_date("05/15/2014 13:40:29"), Some("2014-05-15".to_string()));
}

#[test]
fn ss_apply_kv_keeps_first_version() {
    let mut meta = SsMeta::new();
    ss_apply_kv(&mut meta, "SPECTRASHOP", "5.0");
    ss_apply_kv(&mut meta, "SPECTRASHOP", "6.0");
    ss_apply_kv(&mut meta, "NMEASUREMENTS", " \"12\" ");
    ss_apply_kv(&mut meta, "RGB_SPACE", "sRGB");
    assert_eq!(meta.sw_version.as_deref(), Some("5.0"));
    assert_eq!(meta.nmeasure, Some(12));
    ss_apply_kv(&mut meta, "SW_VERSION", "7.1");
    assert_eq!(meta.sw_version.as_deref(), Some("7.1"));
}

#[test]
fn ss_build_record_from_row() {
    let fields: Vec<String> = ["SAMPLE_NAME", "SPECTRAL_NM", "SPECTRAL_VAL", "EXTRA"]
        .iter()
        .map(|s| s.to_string())
        .collect();
    let values: Vec<String> = ["Blue", "400", "0,25", "\"v\""].iter().map(|s| s.to_string()).collect();
    let mut meta = SsMeta::new();
    ss_apply_kv(&mut meta, "MANUFACTURER", "Acme");
    let rec = ss_build_record(&fields, &values, &meta, 4, None).unwrap();
    assert_eq!(rec.head.id, "5");
    assert_eq!(rec.head.title.as_deref(), Some("Blue"));
    assert_eq!(rec.wavelengths, vec!["400".to_string()]);
    assert_eq!(rec.values, vec!["0.25".to_string()]);
    assert_eq!(custom_get(&rec.head.custom, "extra"), Some("v"));
    assert_eq!(custom_get(&rec.head.custom, "manufacturer"), Some("Acme"));
    assert_eq!(rec.head.date, "1970-01-01");
}

#[test]
fn ss_record_field_keeps_its_custom_value() {
    let fields: Vec<String> = ["MANUFACTURER", "SPECTRAL_NM", "SPECTRAL_VAL"]
        .iter()
        .map(|s| s.to_string())
        .collect();
    let values: Vec<String> = ["Own", "400", "0.5"].iter().map(|s| s.to_string()).collect();
    let mut meta = SsMeta::new();
    ss_apply_kv(&mut meta, "MANUFACTURER", "Acme");
    ss_apply_kv(&mut meta, "MATERIAL", "Paper");
    let rec = ss_build_record(&fields, &values, &meta, 0, None).unwrap();
    assert_eq!(custom_get(&rec.head.custom, "manufacturer"), Some("Own"));
    assert_eq!(custom_get(&rec.head.custom, "material"), Some("Paper"));
}

#[test]
fn spectrashop_date_prefix_inside_character_is_reported() {
    let input = [
        "CREATED\t2014-05-1é",
        "BEGIN_DATA_FORMAT",
        "SPECTRAL_NM\tSPECTRAL_VAL",
        "END_DATA_FORMAT",
        "BEGIN_DATA",
        "380\t0.1",
        "END_DATA",
    ]
    .join("\n");
    assert!(matches!(parse(&input), Err(ImportError::DateSliceInsideChar)));
}

#[test]
fn ss_build_record_ignores_extra_values() {
    let fields: Vec<String> = ["SAMPLE_ID", "SPECTRAL_NM", "SPECTRAL_VAL"]
        .iter()
        .map(|s| s.to_string())
        .collect();
    let values: Vec<String> =
        ["s1", "400", "0.5", "410", "0.6"].iter().map(|s| s.to_string()).collect();
    let rec = ss_build_record(&fields, &values, &SsMeta::new(), 0, None).unwrap();
    assert_eq!(rec.head.id, "s1");
    assert_eq!(rec.wavelengths, vec!["400".to_string()]);
    assert_eq!(rec.values, vec!["0.5".to_string()]);
}

#[test]
fn ss_parse_date_inside_character_is_none() {
    assert_eq!(ss_parse_date("2014-05-1é"), None);
    assert_eq!(ss_parse_date("2014-05-15"), Some("2014-05-15".to_string()));
    assert_eq!(ss_parse_date("LAV"), None);
}

#[test]
fn spectrashop_record_count_is_rows_per_section() {
    // Two sections: 6 tokens over 3 fields, then 3 tokens over 3 fields.
    let input = [
        "BEGIN_DATA_FORMAT",
        "SAMPLE_ID\tSPECTRAL_NM\tSPECTRAL_VAL",
        "END_DATA_FORMAT",
        "BEGIN_DATA",
        "a\t380\t0.1",
        "b\t380\t0.2",
        "END_DATA",
        "BEGIN_DATA",
        "c\t400\t0.3",
        "END_DATA",
    ]
    .join("\n");
    let recs = parse(&input).unwrap();
    assert_eq!(recs.len(), 3);
    for r in &recs {
        assert!(!r.wavelengths.is_empty());
        assert_eq!(r.wavelengths.len(), r.values.len());
    }
    assert_eq!(recs[2].head.id, "c");
}
