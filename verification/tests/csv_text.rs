use spectral_io::csv_text::{
    csv_build_records, csv_parse_table, detect_delimiter, first_field, header_meta, parse_pre_data,
    measurement_type_str, parse_measurement_type, parse_observer, quote_field,
    split_fields, try_kv, write_header_row, write_meta_header, CsvTable,
};
use spectral_io::date::parse_date;
use spectral_io::model::{file_kind, FileKind, ImportError, MeasurementType, RecordHead};

const TSV_SINGLE: &str = "Measurement_Type: reflectance\n\
    Date: 2026-05-15\n\
    wavelength_nm\tsample_a\n\
    380\t0.041\n\
    390\t0.052\n\
    400\t0.063\n";

const TSV_BATCH: &str = "Measurement_Type: reflectance\n\
    Date: 2026-05-15\n\
    wavelength_nm\tA\tB\n\
    380\t0.041\t0.089\n\
    390\t0.052\t0.092\n\
    400\t0.063\t0.095\n";

/// A file read into its table and records, with the wavelengths checked to
/// increase as numbers.
struct Parsed {
    table: CsvTable,
    records: Vec<RecordHead>,
}

fn number(t: &str) -> f64 {
    t.parse::<f64>().unwrap()
}

fn csv_parse(input: &str, source_file: Option<&str>) -> Result<Parsed, ImportError> {
    let table = csv_parse_table(input)?;
    let wl: Vec<f64> = table.wavelengths.iter().map(|t| number(t)).collect();
    if !wl.windows(2).all(|w| w[0] < w[1]) {
        return Err(ImportError::SchemaValidation(
            "CSV/TSV: wavelength values must be strictly increasing".to_string(),
        ));
    }
    let records = csv_build_records(&table, source_file)?;
    Ok(Parsed { table, records })
}

fn points(p: &Parsed, j: usize) -> Vec<(f64, f64)> {
    p.table
        .wavelengths
        .iter()
        .zip(p.table.columns[j].iter())
        .map(|(w, v)| (number(w), v.as_deref().map(number).unwrap_or(f64::NAN)))
        .collect()
}

/// Writes the records back: the metadata header of the first record, the
/// column-header row, and one row of numbers per wavelength.
fn csv_write(p: &Parsed, ids: &[String], delimiter: char) -> String {
    let mut out = write_meta_header(&header_meta(&p.records[0]));
    out.push_str(&write_header_row(&ids.to_vec(), delimiter));
    for (i, w) in p.table.wavelengths.iter().enumerate() {
        let mut row = format!("{}", number(w));
        for col in &p.table.columns {
            row.push(delimiter);
            let v = col[i].as_deref().map(number).unwrap_or(f64::NAN);
            row.push_str(&format!("{}", v));
        }
        out.push_str(&row);
        out.push('\n');
    }
    out
}

fn ids_of(p: &Parsed) -> Vec<String> {
    p.records.iter().map(|r| r.id.clone()).collect()
}

#[test]
fn single_column_single_spectrum() {
    let file = csv_parse(TSV_SINGLE, None).unwrap();
    assert_eq!(file.records.len(), 1);
    assert_eq!(file_kind(file.records.len()), FileKind::Single);
    assert_eq!(file.records[0].id, "sample_a");
    assert_eq!(points(&file, 0).len(), 3);
    assert_eq!(points(&file, 0)[0], (380.0, 0.041));
}

#[test]
fn multi_column_batch() {
    let file = csv_parse(TSV_BATCH, None).unwrap();
    assert_eq!(file.records.len(), 2);
    assert_eq!(file_kind(file.records.len()), FileKind::Batch);
    assert_eq!(file.records[0].id, "A");
    assert_eq!(file.records[1].id, "B");
}

#[test]
fn no_column_headers_auto_id() {
    let input = "Measurement_Type: reflectance\nDate: 2026-05-15\n380\t0.041\n390\t0.052\n";
    let file = csv_parse(input, None).unwrap();
    assert_eq!(file.records[0].id, "spectrum_1");
}

#[test]
fn metadata_parsed() {
    let input = "Measurement_Type: transmittance\n\
        Date: 2026-05-15\n\
        Title: My Filter\n\
        Illuminant: D65\n\
        Observer: CIE 1931 2 degree\n\
        wavelength_nm\tfilter\n\
        500\t0.5\n\
        510\t0.6\n";
    let file = csv_parse(input, None).unwrap();
    let sp = &file.records[0];
    assert!(matches!(sp.measurement_type, MeasurementType::Transmittance));
    assert_eq!(sp.title.as_deref(), Some("My Filter"));
    assert_eq!(sp.date, "2026-05-15");
    let cs = sp.color_science.as_ref().unwrap();
    assert_eq!(cs.illuminant.as_deref(), Some("D65"));
    assert_eq!(cs.cie_observer.as_deref(), Some("CIE 1931 2 degree"));
}

#[test]
fn csv_comma_delimiter() {
    let input = "Measurement_Type: reflectance\n\
        Date: 2026-05-15\n\
        wavelength_nm,A,B\n\
        380,0.041,0.089\n\
        390,0.052,0.092\n";
    let file = csv_parse(input, None).unwrap();
    assert_eq!(file.records.len(), 2);
    assert_eq!(file.records[0].id, "A");
    assert_eq!(file.records[1].id, "B");
}

#[test]
fn optional_blank_line_between_header_and_data() {
    let input =
        "Measurement_Type: reflectance\nDate: 2026-05-15\n\nwavelength_nm\tA\n380\t0.1\n390\t0.2\n";
    let file = csv_parse(input, None).unwrap();
    assert_eq!(file.records.len(), 1);
}

#[test]
fn round_trip_tsv() {
    let file1 = csv_parse(TSV_BATCH, None).unwrap();
    let tsv = csv_write(&file1, &ids_of(&file1), '\t');
    let file2 = csv_parse(&tsv, None).unwrap();
    assert_eq!(file1.records.len(), file2.records.len());
    assert_eq!(file1.records[0].id, file2.records[0].id);
    assert_eq!(file1.records[1].id, file2.records[1].id);
    assert_eq!(points(&file1, 0), points(&file2, 0));
}

#[test]
fn round_trip_csv() {
    let file1 = csv_parse(TSV_BATCH, None).unwrap();
    let csv = csv_write(&file1, &ids_of(&file1), ',');
    let file2 = csv_parse(&csv, None).unwrap();
    assert_eq!(file1.records.len(), file2.records.len());
    assert_eq!(file1.records[0].id, file2.records[0].id);
}

#[test]
fn error_on_no_data() {
    assert!(csv_parse("# just a comment\n", None).is_err());
}

#[test]
fn error_on_no_numeric_rows() {
    assert!(csv_parse("Title: foo\nwavelength_nm\tA\n", None).is_err());
}

#[test]
fn error_on_single_wavelength_row() {
    assert!(csv_parse(
        "Date: 2026-01-01\nMeasurement_Type: reflectance\nw\ts\n380\t0.1\n",
        None
    )
    .is_err());
}

#[test]
fn error_on_no_data_columns() {
    let input = "Date: 2026-05-15\nMeasurement_Type: reflectance\n380\n390\n";
    assert!(csv_parse(input, None).is_err());
}

#[test]
fn equals_separator_parsed_as_metadata() {
    let input =
        "Measurement_Type = reflectance\nDate = 2026-05-15\nwavelength_nm\ts\n380\t0.1\n390\t0.2\n";
    let file = csv_parse(input, None).unwrap();
    let sp = &file.records[0];
    assert!(matches!(sp.measurement_type, MeasurementType::Reflectance));
    assert_eq!(sp.date, "2026-05-15");
}

#[test]
fn known_key_tab_pair_parsed_as_metadata() {
    let input = "TITLE\tMy Sample\nDate: 2026-05-15\nMeasurement_Type: reflectance\nwavelength_nm\ts\n380\t0.1\n390\t0.2\n";
    let file = csv_parse(input, None).unwrap();
    assert_eq!(file.records[0].title.as_deref(), Some("My Sample"));
}

#[test]
fn metadata_operator_and_instrument() {
    let input = "Date: 2026-05-15\nMeasurement_Type: reflectance\n\
        Operator: Alice\nInstrument: i1Pro 3\nwavelength_nm\ts\n380\t0.1\n390\t0.2\n";
    let file = csv_parse(input, None).unwrap();
    let sp = &file.records[0];
    assert_eq!(sp.operator.as_deref(), Some("Alice"));
    let inst = sp.instrument.as_ref().unwrap();
    assert_eq!(inst.model.as_deref(), Some("i1Pro 3"));
}

#[test]
fn metadata_description_copyright_surface_backing() {
    let input = "Date: 2026-05-15\nMeasurement_Type: reflectance\n\
        Description: Test batch\nCopyright: © 2026 Lab\n\
        Surface: Matte\nSample_Backing: Black\n\
        wavelength_nm\ts\n380\t0.1\n390\t0.2\n";
    let file = csv_parse(input, None).unwrap();
    let sp = &file.records[0];
    assert_eq!(sp.description.as_deref(), Some("Test batch"));
    assert_eq!(sp.copyright.as_deref(), Some("© 2026 Lab"));
    assert_eq!(sp.surface.as_deref(), Some("Matte"));
    assert_eq!(sp.sample_backing.as_deref(), Some("Black"));
}

#[test]
fn metadata_notes_in_provenance() {
    let input = "Date: 2026-05-15\nMeasurement_Type: reflectance\n\
        Notes: measured twice\nwavelength_nm\ts\n380\t0.1\n390\t0.2\n";
    let file = csv_parse(input, None).unwrap();
    assert_eq!(
        file.records[0].provenance.notes.as_deref(),
        Some("measured twice")
    );
}

#[test]
fn unknown_key_goes_to_custom() {
    let input = "Date: 2026-05-15\nMeasurement_Type: reflectance\n\
        Batch_ID: B001\nwavelength_nm\ts\n380\t0.1\n390\t0.2\n";
    let file = csv_parse(input, None).unwrap();
    let custom = &file.records[0].custom;
    assert!(!custom.is_empty());
    assert_eq!(custom.get("batch_id").and_then(|v| v.as_str()), Some("B001"));
}

#[test]
fn measurement_type_absorbance() {
    let input = "Measurement_Type: absorbance\nDate: 2026-05-15\nw\ts\n380\t0.5\n390\t0.6\n";
    let file = csv_parse(input, None).unwrap();
    assert!(matches!(file.records[0].measurement_type, MeasurementType::Absorbance));
}

#[test]
fn measurement_type_irradiance() {
    let input = "Measurement_Type: irradiance\nDate: 2026-05-15\nw\ts\n380\t1.0\n390\t1.1\n";
    let file = csv_parse(input, None).unwrap();
    assert!(matches!(file.records[0].measurement_type, MeasurementType::Irradiance));
}

#[test]
fn measurement_type_radiance() {
    let input = "Measurement_Type: radiance\nDate: 2026-05-15\nw\ts\n380\t1.0\n390\t1.1\n";
    let file = csv_parse(input, None).unwrap();
    assert!(matches!(file.records[0].measurement_type, MeasurementType::Radiance));
}

#[test]
fn measurement_type_emission() {
    let input = "Measurement_Type: emission\nDate: 2026-05-15\nw\ts\n380\t1.0\n390\t1.1\n";
    let file = csv_parse(input, None).unwrap();
    assert!(matches!(file.records[0].measurement_type, MeasurementType::Emission));
}

#[test]
fn observer_10_degree() {
    let input = "Date: 2026-05-15\nMeasurement_Type: reflectance\n\
        Observer: CIE 1964 10 degree\nwavelength_nm\ts\n380\t0.1\n390\t0.2\n";
    let file = csv_parse(input, None).unwrap();
    let cs = file.records[0].color_science.as_ref().unwrap();
    assert_eq!(cs.cie_observer.as_deref(), Some("CIE 1964 10 degree"));
}

#[test]
fn observer_unrecognised_yields_no_color_science() {
    let input = "Date: 2026-05-15\nMeasurement_Type: reflectance\n\
        Observer: unknown\nwavelength_nm\ts\n380\t0.1\n390\t0.2\n";
    let file = csv_parse(input, None).unwrap();
    assert!(file.records[0].color_science.is_none());
}

#[test]
fn unrecognised_illuminant_dropped() {
    let input = "Date: 2026-05-15\nMeasurement_Type: reflectance\n\
        Illuminant: Tungsten\nwavelength_nm\ts\n380\t0.1\n390\t0.2\n";
    let file = csv_parse(input, None).unwrap();
    assert!(file.records[0].color_science.is_none());
}

#[test]
fn illuminant_case_insensitive() {
    let input = "Date: 2026-05-15\nMeasurement_Type: reflectance\n\
        Illuminant: d65\nwavelength_nm\ts\n380\t0.1\n390\t0.2\n";
    let file = csv_parse(input, None).unwrap();
    let cs = file.records[0].color_science.as_ref().unwrap();
    assert_eq!(cs.illuminant.as_deref(), Some("D65"));
}

#[test]
fn date_mm_dd_yyyy() {
    let input = "Date: 05/15/2026\nMeasurement_Type: reflectance\n\
        wavelength_nm\ts\n380\t0.1\n390\t0.2\n";
    let file = csv_parse(input, None).unwrap();
    assert_eq!(file.records[0].date, "2026-05-15");
}

#[test]
fn invalid_date_falls_back_to_default() {
    let input = "Date: not-a-date\nMeasurement_Type: reflectance\n\
        wavelength_nm\ts\n380\t0.1\n390\t0.2\n";
    let file = csv_parse(input, None).unwrap();
    assert_eq!(file.records[0].date, "1970-01-01");
}

#[test]
fn write_optional_metadata_fields_round_trip() {
    let input = "Date: 2026-05-15\nMeasurement_Type: reflectance\n\
        Title: My Sample\nOperator: Bob\nDescription: Test run\n\
        Copyright: © Lab\nSurface: Gloss\nSample_Backing: White\n\
        Instrument: CM-700d\nIlluminant: D50\nObserver: CIE 1964 10 degree\n\
        wavelength_nm\ts\n380\t0.1\n390\t0.2\n";
    let file1 = csv_parse(input, None).unwrap();
    let tsv = csv_write(&file1, &ids_of(&file1), '\t');
    let file2 = csv_parse(&tsv, None).unwrap();
    let sp1 = &file1.records[0];
    let sp2 = &file2.records[0];
    assert_eq!(sp1.title, sp2.title);
    assert_eq!(sp1.operator, sp2.operator);
    assert_eq!(sp1.description, sp2.description);
    assert_eq!(sp1.copyright, sp2.copyright);
    assert_eq!(sp1.surface, sp2.surface);
    assert_eq!(sp1.sample_backing, sp2.sample_backing);
    assert_eq!(
        sp1.instrument.as_ref().unwrap().model,
        sp2.instrument.as_ref().unwrap().model
    );
    assert_eq!(
        sp1.color_science.as_ref().unwrap().illuminant,
        sp2.color_science.as_ref().unwrap().illuminant
    );
    assert_eq!(
        sp1.color_science.as_ref().unwrap().cie_observer,
        sp2.color_science.as_ref().unwrap().cie_observer
    );
}

#[test]
fn csv_id_containing_comma_is_quoted() {
    let input = "Date: 2026-05-15\nMeasurement_Type: reflectance\n\
        wavelength_nm,patch A,patch B\n380,0.1,0.2\n390,0.3,0.4\n";
    let file1 = csv_parse(input, None).unwrap();
    let csv = csv_write(&file1, &ids_of(&file1), ',');
    assert!(!quote_field("plain", ',').contains('"'));
    assert_eq!(quote_field("a,b", ','), "\"a,b\"");
    assert_eq!(quote_field("say \"hi\"", ','), "\"say \"\"hi\"\"\"");
    let file2 = csv_parse(&csv, None).unwrap();
    assert_eq!(file1.records.len(), file2.records.len());
}

#[test]
fn fewer_column_headers_than_data_columns_padded() {
    let input = "Date: 2026-05-15\nMeasurement_Type: reflectance\n\
        wavelength_nm\tA\n\
        380\t0.1\t0.2\n\
        390\t0.3\t0.4\n";
    let file = csv_parse(input, None).unwrap();
    assert_eq!(file.records.len(), 2);
    assert_eq!(file.records[0].id, "A");
    assert_eq!(file.records[1].id, "spectrum_2");
}

#[test]
fn sample_id_parsed_into_metadata() {
    let input = "Date: 2026-05-15\nMeasurement_Type: reflectance\n\
        Sample_ID: SN-0042\nwavelength_nm\ts\n380\t0.1\n390\t0.2\n";
    let file = csv_parse(input, None).unwrap();
    assert_eq!(file.records[0].sample_id.as_deref(), Some("SN-0042"));
}

#[test]
fn sample_id_round_trips() {
    let input = "Date: 2026-05-15\nMeasurement_Type: reflectance\n\
        Sample_ID: SN-0042\nwavelength_nm\ts\n380\t0.1\n390\t0.2\n";
    let file1 = csv_parse(input, None).unwrap();
    let tsv = csv_write(&file1, &ids_of(&file1), '\t');
    let file2 = csv_parse(&tsv, None).unwrap();
    assert_eq!(file2.records[0].sample_id.as_deref(), Some("SN-0042"));
}

#[test]
fn notes_round_trip() {
    let input = "Date: 2026-05-15\nMeasurement_Type: reflectance\n\
        Notes: measured in triplicate\nwavelength_nm\ts\n380\t0.1\n390\t0.2\n";
    let file1 = csv_parse(input, None).unwrap();
    let tsv = csv_write(&file1, &ids_of(&file1), '\t');
    let file2 = csv_parse(&tsv, None).unwrap();
    assert_eq!(
        file2.records[0].provenance.notes.as_deref(),
        Some("measured in triplicate")
    );
}

#[test]
fn custom_fields_not_written_on_export() {
    let input = "Date: 2026-05-15\nMeasurement_Type: reflectance\n\
        Batch_ID: B001\nwavelength_nm\ts\n380\t0.1\n390\t0.2\n";
    let file1 = csv_parse(input, None).unwrap();
    assert!(!file1.records[0].custom.is_empty());
    let tsv = csv_write(&file1, &ids_of(&file1), '\t');
    assert!(!tsv.contains("Batch_ID"), "custom field should not be written");
    let file2 = csv_parse(&tsv, None).unwrap();
    assert!(file2.records[0].custom.is_empty());
}

#[test]
fn quoted_id_round_trips_through_csv() {
    let input = "Date: 2026-05-15\nMeasurement_Type: reflectance\n\
        wavelength_nm,patch A,patch B\n380,0.1,0.2\n390,0.3,0.4\n";
    let file = csv_parse(input, None).unwrap();
    let mut ids = ids_of(&file);
    ids[0] = "red,green".to_string();
    let csv = csv_write(&file, &ids, ',');
    assert!(csv.contains("\"red,green\""), "ID should be quoted in output");
    let file2 = csv_parse(&csv, None).unwrap();
    assert_eq!(file2.records[0].id, "red,green");
    assert_eq!(file2.records[1].id, "patch B");
}

#[test]
fn source_file_stored_in_provenance() {
    let file = csv_parse(TSV_SINGLE, Some("lab_data.tsv")).unwrap();
    let prov = &file.records[0].provenance;
    assert_eq!(prov.source_file.as_deref(), Some("lab_data.tsv"));
    assert_eq!(prov.source_format.as_deref(), Some("CSV/TSV"));
}

// ── the pieces of the reader and writer ─────────────────────────────────────

#[test]
fn detect_delimiter_prefers_tab_on_tie() {
    let lines = vec!["a\tb".to_string(), "c,d".to_string()];
    assert_eq!(detect_delimiter(&lines), '\t');
    let lines = vec!["a,b,c".to_string(), "d\te".to_string()];
    assert_eq!(detect_delimiter(&lines), ',');
}

#[test]
fn first_field_is_trimmed() {
    assert_eq!(first_field("  380 \t0.1", '\t'), "380");
    assert_eq!(first_field("", ','), "");
}

#[test]
fn split_fields_honours_quotes() {
    assert_eq!(split_fields("a, \"b,c\" ,d", ','), vec!["a", "b,c", "d"]);
    assert_eq!(split_fields("\"say \"\"hi\"\"\"", ','), vec!["say \"hi\""]);
    assert_eq!(split_fields("", ','), vec![""]);
}

#[test]
fn try_kv_forms() {
    assert_eq!(
        try_kv("Title: My Sample", '\t'),
        Some(("Title".to_string(), "My Sample".to_string()))
    );
    assert_eq!(
        try_kv("Date = 2026-05-15", '\t'),
        Some(("Date".to_string(), "2026-05-15".to_string()))
    );
    assert_eq!(
        try_kv("title\tMy Sample", '\t'),
        Some(("title".to_string(), "My Sample".to_string()))
    );
    assert_eq!(try_kv("Batch\tB1", '\t'), None);
    assert_eq!(try_kv("a,b: c", ','), None);
}

#[test]
fn parse_date_forms() {
    assert_eq!(parse_date("2026-05-15T10:00:00"), Some("2026-05-15".to_string()));
    assert_eq!(parse_date("5/7/2026"), Some("2026-05-07".to_string()));
    assert_eq!(parse_date("05/15/26"), None);
    assert_eq!(parse_date("not-a-date"), None);
}

#[test]
fn measurement_type_names_read_back() {
    let all = [
        MeasurementType::Reflectance,
        MeasurementType::Transmittance,
        MeasurementType::Absorbance,
        MeasurementType::Radiance,
        MeasurementType::Irradiance,
        MeasurementType::Emission,
        MeasurementType::Sensitivity,
    ];
    for mt in all {
        assert_eq!(parse_measurement_type(measurement_type_str(mt)), mt);
    }
    assert_eq!(parse_measurement_type("Response"), MeasurementType::Sensitivity);
    assert_eq!(parse_measurement_type("whatever"), MeasurementType::Reflectance);
}

#[test]
fn parse_observer_forms() {
    assert_eq!(parse_observer("10 deg"), Some("CIE 1964 10 degree".to_string()));
    assert_eq!(parse_observer("2°"), Some("CIE 1931 2 degree".to_string()));
    assert_eq!(parse_observer("none"), None);
}

#[test]
fn meta_header_round_trip_on_values() {
    let input = "Date: 2026-05-15\nMeasurement_Type: sensitivity\nTitle: T\nNotes: n\nw\ts\n1\t2\n3\t4\n";
    let file1 = csv_parse(input, None).unwrap();
    let header = write_meta_header(&file1.table.meta);
    assert_eq!(
        header,
        "Measurement_Type: sensitivity\nDate: 2026-05-15\nTitle: T\nNotes: n\n\n"
    );
}

#[test]
fn header_row_round_trip_on_values() {
    let ids = vec!["a b".to_string(), "x,y".to_string(), "q\"r".to_string()];
    let row = write_header_row(&ids, ',');
    assert_eq!(row, "wavelength_nm,a b,\"x,y\",\"q\"\"r\"\n");
    let fields = split_fields(row.trim_end_matches('\n'), ',');
    assert_eq!(fields, vec!["wavelength_nm", "a b", "x,y", "q\"r"]);
}

#[test]
fn date_prefix_inside_character_is_reported() {
    // Ten bytes into this ISO-shaped date falls inside the two-byte `é`.
    let input = "Date: 2026-05-1é\nMeasurement_Type: reflectance\nw\ts\n1\t2\n3\t4\n";
    assert!(matches!(
        csv_parse_table(input),
        Err(ImportError::DateSliceInsideChar)
    ));
}

#[test]
fn written_header_reads_back() {
    let input = "Date: 2026-05-15\nMeasurement_Type: emission\nTitle: Lamp\nOperator: Ann\n\
        Illuminant: d65\nObserver: 10 deg\nBatch_ID: B7\nw\ts\n380\t1\n390\t2\n";
    let first = csv_parse(input, None).unwrap();
    let meta = &first.table.meta;
    for d in ['\t', ','] {
        let header = write_meta_header(meta);
        let lines: Vec<String> = header
            .lines()
            .map(|l| l.to_string())
            .filter(|l| !l.trim().is_empty())
            .collect();
        let (back, col) = parse_pre_data(&lines, d).unwrap();
        assert!(col.is_none());
        assert_eq!(back.title, meta.title);
        assert_eq!(back.date, meta.date);
        assert_eq!(back.measurement_type, meta.measurement_type);
        assert_eq!(back.operator, meta.operator);
        assert_eq!(back.illuminant, meta.illuminant);
        assert_eq!(back.observer, meta.observer);
        assert!(back.custom.is_empty());
    }
}

#[test]
fn written_header_block_reads_back() {
    let input = "Date: 2026-05-15\nMeasurement_Type: radiance\nSample_ID: S-1\nw\ta\tb\n1\t2\t3\n4\t5\t6\n";
    let first = csv_parse(input, None).unwrap();
    let ids = vec!["x,y".to_string(), "".to_string(), "q \"z\"".to_string()];
    for d in ['\t', ','] {
        let mut text = write_meta_header(&first.table.meta);
        text.push_str(&write_header_row(&ids, d));
        text.push_str(&format!("1{d}2{d}3{d}4\n5{d}6{d}7{d}8\n"));
        let table = csv_parse_table(&text).unwrap();
        let mut expected = vec!["wavelength_nm".to_string()];
        expected.extend(ids.iter().cloned());
        assert_eq!(table.col_headers, Some(expected));
        assert_eq!(table.meta.sample_id.as_deref(), Some("S-1"));
        assert_eq!(table.meta.measurement_type, MeasurementType::Radiance);
    }
}

#[test]
fn header_row_starting_with_colon_is_read_as_metadata_under_tabs() {
    // The one shape the header block does not survive: behind a tab, a bare
    // first identifier starting with `: ` makes the row a `KEY: VALUE` line.
    let ids = vec![": x".to_string()];
    let mut text = "Date: 2026-05-15\n\n".to_string();
    text.push_str(&write_header_row(&ids, '\t'));
    text.push_str("1\t2\n3\t4\n");
    let table = csv_parse_table(&text).unwrap();
    assert_eq!(table.col_headers, None);
    assert_eq!(
        table.meta.custom.get("wavelength_nm").and_then(|v| v.as_str()),
        Some("x")
    );
}

#[test]
fn custom_values_shared_by_all_records() {
    let input = "Date: 2026-05-15\nLot: 9\nw\ta\tb\n1\t2\t3\n4\t5\t6\n";
    let file = csv_parse(input, None).unwrap();
    for r in &file.records {
        assert_eq!(r.custom.get("lot").and_then(|v| v.as_str()), Some("9"));
    }
}

#[test]
fn later_value_of_a_key_wins() {
    let input = "Title: one\nTitle = two\nLot: a\nlot: b\nw\ts\n1\t2\n3\t4\n";
    let file = csv_parse(input, None).unwrap();
    assert_eq!(file.records[0].title.as_deref(), Some("two"));
    assert_eq!(file.records[0].custom.get("lot").and_then(|v| v.as_str()), Some("b"));
    assert_eq!(file.records[0].custom.len(), 1);
}

#[test]
fn quoted_row_splits_back_into_its_fields() {
    for d in [',', '\t', ';'] {
        let fields = ["plain", " padded ", "a,b", "tab\there", "say \"hi\"", "\"", "", "x;y"];
        let row: Vec<String> = fields.iter().map(|f| quote_field(f, d)).collect();
        let line = row.join(&d.to_string());
        let expected: Vec<String> = fields.iter().map(|f| f.trim().to_string()).collect();
        assert_eq!(split_fields(&line, d), expected);
        for f in fields {
            assert_eq!(split_fields(&quote_field(f, d), d), vec![f.trim().to_string()]);
        }
    }
}

#[test]
fn line_without_quotes_splits_at_every_delimiter() {
    let line = " a ,b,, c\t,d ";
    let expected: Vec<String> = line.split(',').map(|f| f.trim().to_string()).collect();
    assert_eq!(split_fields(line, ','), expected);
    assert_eq!(split_fields("", ','), vec![String::new()]);
}

#[test]
fn parse_date_inside_character_is_none() {
    assert_eq!(parse_date("2014-05-1é"), None);
    assert_eq!(parse_date("2014-05-1é extra"), None);
    assert_eq!(parse_date("2014-05-éé"), Some("2014-05-é".to_string()));
}

#[test]
fn every_column_has_a_cell_per_wavelength() {
    let input = "wavelength_nm,a,b,c\n380,0.1,0.2,0.25\n390,0.3,x\n400,0.6,0.7,0.8\n";
    let table = csv_parse_table(input).unwrap();
    assert_eq!(table.wavelengths.len(), 3);
    assert_eq!(table.columns.len(), 3);
    for col in &table.columns {
        assert_eq!(col.len(), table.wavelengths.len());
    }
    assert_eq!(table.columns[1][1], None);
    assert_eq!(table.columns[2][1], None);
    assert_eq!(table.columns[2][0].as_deref(), Some("0.25"));
}

#[test]
fn measurement_type_short_forms_only_as_whole_value() {
    assert_eq!(parse_measurement_type("absolute reflectance"), MeasurementType::Reflectance);
    assert_eq!(parse_measurement_type("transflectance"), MeasurementType::Reflectance);
    assert_eq!(parse_measurement_type(" Trans "), MeasurementType::Transmittance);
    assert_eq!(parse_measurement_type("ABS"), MeasurementType::Absorbance);
    assert_eq!(parse_measurement_type("irrad"), MeasurementType::Irradiance);
    assert_eq!(parse_measurement_type("rad"), MeasurementType::Radiance);
    assert_eq!(parse_measurement_type("emiss"), MeasurementType::Emission);
    assert_eq!(parse_measurement_type("Transmissive"), MeasurementType::Reflectance);
    assert_eq!(parse_measurement_type("transmitted light"), MeasurementType::Transmittance);
    assert_eq!(parse_measurement_type("Absorbed"), MeasurementType::Absorbance);
    assert_eq!(parse_measurement_type("spectral irradiance"), MeasurementType::Irradiance);
    assert_eq!(parse_measurement_type("Emissive"), MeasurementType::Emission);
    assert_eq!(parse_measurement_type("spectral sensitivity"), MeasurementType::Sensitivity);
    assert_eq!(parse_measurement_type("response"), MeasurementType::Sensitivity);
    assert_eq!(parse_measurement_type("spectral response"), MeasurementType::Reflectance);
}
