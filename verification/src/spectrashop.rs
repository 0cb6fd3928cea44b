//! SpectraShop text-export files: data records built from a format block
//! and a data block, and the line-driven reading of a whole file.
use vstd::prelude::*;
use crate::date::{DateParse, date_slice_panics, parse_date_chars, parse_date_spec};
use crate::model::{
    clone_opt, custom_contains_key, custom_entries, custom_insert, custom_new, insert_absent,
    schema_error, CustomMap, ColorScienceHead, ColorScienceHeadV, ConditionsHead, ConditionsHeadV,
    ImportError, ImportErrorV, Instrument, InstrumentV, MeasurementType, ProvenanceHead,
    ProvenanceHeadV, RecordHead, RecordHeadV,
};
use crate::number::{decimal, decimal_chars, eq_ignore_case};
use crate::ss_text::{
    line_tokens, ss_apply_kv, ss_apply_kv_spec, ss_aperture_token, ss_float_chars,
    ss_float_token, ss_illuminant, ss_illuminant_of, ss_measurement_type,
    ss_measurement_type_of, ss_meta_empty, ss_observer, ss_observer_of, ss_split_kv,
    ss_split_kv_spec, ss_str, ss_str_spec, ss_tokenize_into, SsMeta, SsMetaV,
};
use crate::text::{
    append_chars, append_str, chars_of, eq_lit, is_whitespace, is_ws, lines, split_lines, string_of, sub_chars,
    to_lowercase, to_uppercase, trim, trim_chars, lower_case, upper_case,
};

verus! {

// ───────────────────────── records ─────────────────────────

/// What the fields of one record gather: the two identifier fields, the
/// wavelength and value tokens of the readable pairs, and custom values.
pub struct SsAcc {
    pub id1: Option<Seq<char>>,
    pub id2: Option<Seq<char>>,
    pub wls: Seq<Seq<char>>,
    pub vals: Seq<Seq<char>>,
    pub custom: Map<Seq<char>, Option<Seq<char>>>,
}

pub open spec fn ss_acc_empty() -> SsAcc {
    SsAcc { id1: None, id2: None, wls: seq![], vals: seq![], custom: Map::empty() }
}

/// The fields of a record read from field `i` on.  `SAMPLE_ID`/`SAMPLE_ID1`
/// give the identifier, `SAMPLE_NAME`/`SAMPLE_ID2` the label, `SAMPLE_ID3`
/// a custom pair; `SPECTRAL_NM` followed by `SPECTRAL_VAL` is one pair,
/// kept when both read as numbers; other fields become custom values under
/// their lowercased names.
pub open spec fn ss_fields_go(fs: Seq<Seq<char>>, vs: Seq<Seq<char>>, i: int, a: SsAcc) -> SsAcc
    decreases fs.len() - i,
{
    if i < 0 || i >= fs.len() {
        a
    } else {
        let f = fs[i];
        let v = vs[i];
        if f == "SAMPLE_ID"@ || f == "SAMPLE_ID1"@ {
            ss_fields_go(fs, vs, i + 1, SsAcc { id1: ss_str_spec(v), ..a })
        } else if f == "SAMPLE_NAME"@ || f == "SAMPLE_ID2"@ {
            ss_fields_go(fs, vs, i + 1, SsAcc { id2: ss_str_spec(v), ..a })
        } else if f == "SAMPLE_ID3"@ {
            match ss_str_spec(v) {
                Some(x) => ss_fields_go(
                    fs,
                    vs,
                    i + 1,
                    SsAcc { custom: a.custom.insert("sample_id3"@, Some(x)), ..a },
                ),
                None => ss_fields_go(fs, vs, i + 1, a),
            }
        } else if f == "SPECTRAL_NM"@ {
            if i + 1 < fs.len() && fs[i + 1] == "SPECTRAL_VAL"@ {
                match (ss_float_token(v), ss_float_token(vs[i + 1])) {
                    (Some(w), Some(x)) => ss_fields_go(
                        fs,
                        vs,
                        i + 2,
                        SsAcc { wls: a.wls.push(w), vals: a.vals.push(x), ..a },
                    ),
                    _ => ss_fields_go(fs, vs, i + 2, a),
                }
            } else {
                ss_fields_go(fs, vs, i + 1, a)
            }
        } else if f == "SPECTRAL_VAL"@ {
            ss_fields_go(fs, vs, i + 1, a)
        } else {
            match ss_str_spec(v) {
                Some(x) => ss_fields_go(
                    fs,
                    vs,
                    i + 1,
                    SsAcc { custom: a.custom.insert(lower_case(f), Some(x)), ..a },
                ),
                None => ss_fields_go(fs, vs, i + 1, a),
            }
        }
    }
}

/// A measurement filter, absent when it is `none` in any case.
pub open spec fn ss_filter(f: Option<Seq<char>>) -> Option<Seq<char>> {
    match f {
        Some(s) => if eq_ignore_case(s, seq!['n', 'o', 'n', 'e']) {
            None
        } else {
            Some(s)
        },
        None => None,
    }
}

pub open spec fn opt_insert_absent(
    c: Map<Seq<char>, Option<Seq<char>>>,
    k: Seq<char>,
    v: Option<Seq<char>>,
) -> Map<Seq<char>, Option<Seq<char>>> {
    match v {
        Some(x) => insert_absent(c, k, x),
        None => c,
    }
}

/// The record's custom values completed with the file-level fields that have
/// no field of their own; a pair of the record keeps its value.
pub open spec fn file_custom(c: Map<Seq<char>, Option<Seq<char>>>, m: SsMetaV) -> Map<
    Seq<char>,
    Option<Seq<char>>,
> {
    let c1 = opt_insert_absent(c, "manufacturer"@, m.manufacturer);
    let c2 = opt_insert_absent(c1, "material"@, m.material);
    let c3 = opt_insert_absent(c2, "model_num"@, m.model_num);
    let c4 = opt_insert_absent(c3, "serial"@, m.serial);
    let c5 = opt_insert_absent(c4, "prod_date"@, m.prod_date);
    opt_insert_absent(c5, "measurement_source"@, m.measurement_source)
}

/// The acquisition note and the note, joined by `; ` when both are present.
pub open spec fn ss_notes(m: SsMetaV) -> Option<Seq<char>> {
    match (m.acquire_note, m.note) {
        (Some(a), Some(b)) => Some(a + "; "@ + b),
        (Some(a), None) => Some(a),
        (None, Some(b)) => Some(b),
        (None, None) => None,
    }
}

/// The date of a record: the date the `CREATED` value gives, else 1970-01-01.
pub open spec fn ss_date(created: Option<Seq<char>>) -> Seq<char> {
    match created {
        Some(c) => match parse_date_spec(c) {
            Some(d) => d,
            None => "1970-01-01"@,
        },
        None => "1970-01-01"@,
    }
}

/// The measurement conditions of the file-level metadata, when any is given.
pub open spec fn ss_conditions(m: SsMetaV) -> Option<ConditionsHeadV> {
    let ap = match m.measurement_aperture {
        Some(x) => ss_aperture_token(x),
        None => None,
    };
    let f = ss_filter(m.measurement_filter);
    if m.measurement_geometry is Some || ap is Some || f is Some || m.nmeasure is Some {
        Some(
            ConditionsHeadV {
                averaging: m.nmeasure,
                geometry: m.measurement_geometry,
                aperture_mm: ap,
                filter: f,
            },
        )
    } else {
        None
    }
}

/// The colour science of the file-level metadata, when any is recognised.
pub open spec fn ss_color_science(m: SsMetaV) -> Option<ColorScienceHeadV> {
    let ill = match m.illuminant {
        Some(x) => ss_illuminant_of(x),
        None => None,
    };
    let obs = match m.observer {
        Some(x) => ss_observer_of(x),
        None => None,
    };
    if ill is Some || obs is Some {
        Some(ColorScienceHeadV { illuminant: ill, cie_observer: obs })
    } else {
        None
    }
}

/// The head of record number `idx` (counting from 0) of a file.
pub open spec fn ss_head(a: SsAcc, m: SsMetaV, idx: nat, src: Option<Seq<char>>) -> RecordHeadV {
    RecordHeadV {
        id: match a.id1 {
            Some(x) => x,
            None => decimal(idx + 1),
        },
        measurement_type: match m.spectrum_type {
            Some(t) => ss_measurement_type_of(t),
            None => MeasurementType::Reflectance,
        },
        date: ss_date(m.created),
        title: match a.id2 {
            Some(x) => Some(x),
            None => a.id1,
        },
        description: m.file_descriptor,
        sample_id: None,
        operator: m.originator,
        instrument: if m.instrumentation is Some || m.instrument_serial is Some {
            Some(
                InstrumentV {
                    manufacturer: None,
                    model: m.instrumentation,
                    serial_number: m.instrument_serial,
                    detector_type: None,
                    light_source: None,
                },
            )
        } else {
            None
        },
        conditions: ss_conditions(m),
        surface: m.surface,
        sample_backing: m.sample_backing,
        copyright: None,
        custom: file_custom(a.custom, m),
        color_science: ss_color_science(m),
        provenance: ProvenanceHeadV {
            software: Some("SpectraShop"@),
            software_version: m.sw_version,
            source_file: src,
            source_format: Some("SpectraShop Text"@),
            notes: ss_notes(m),
        },
    }
}

/// A record of the file: its head, and its wavelength and value tokens.
pub struct SsRecord {
    pub head: RecordHead,
    pub wavelengths: Vec<String>,
    pub values: Vec<String>,
}

impl View for SsRecord {
    type V = (RecordHeadV, Seq<Seq<char>>, Seq<Seq<char>>);

    open spec fn view(&self) -> (RecordHeadV, Seq<Seq<char>>, Seq<Seq<char>>) {
        (self.head@, self.wavelengths.deep_view(), self.values.deep_view())
    }
}

/// The error of a record with no readable wavelength/value pair.
pub open spec fn no_pairs_message(idx: nat) -> Seq<char> {
    "SpectraShop: record "@ + decimal(idx) + " has no SPECTRAL_NM/SPECTRAL_VAL pairs"@
}

/// The record of one data row: the row's fields, the file-level metadata
/// and the record's number; an error when no pair reads as numbers, and the
/// ten-byte date prefix error when the `CREATED` value gives one.
pub open spec fn ss_record_outcome(
    fs: Seq<Seq<char>>,
    vs: Seq<Seq<char>>,
    m: SsMetaV,
    idx: nat,
    src: Option<Seq<char>>,
) -> Result<(RecordHeadV, Seq<Seq<char>>, Seq<Seq<char>>), ImportErrorV> {
    let a = ss_fields_go(fs, vs, 0, ss_acc_empty());
    if a.wls.len() == 0 {
        Err(ImportErrorV::SchemaValidation(no_pairs_message(idx)))
    } else if (match m.created {
        Some(c) => date_slice_panics(c),
        None => false,
    }) {
        Err(ImportErrorV::DateSliceInsideChar)
    } else {
        Ok((ss_head(a, m, idx, src), a.wls, a.vals))
    }
}

struct Acc {
    id1: Option<Vec<char>>,
    id2: Option<Vec<char>>,
    wls: Vec<String>,
    vals: Vec<String>,
    custom: CustomMap,
}

spec fn acc_view(a: Acc) -> SsAcc {
    SsAcc {
        id1: match a.id1 {
            Some(v) => Some(v@),
            None => None,
        },
        id2: match a.id2 {
            Some(v) => Some(v@),
            None => None,
        },
        wls: a.wls.deep_view(),
        vals: a.vals.deep_view(),
        custom: custom_entries(a.custom),
    }
}

fn ss_str_vec(v: &Vec<char>) -> (r: Option<Vec<char>>)
    ensures
        match r {
            Some(u) => ss_str_spec(v@) == Some(u@),
            None => ss_str_spec(v@) is None,
        },
{
    let s = string_of(v);
    match ss_str(s.as_str()) {
        Some(u) => Some(chars_of(u.as_str())),
        None => None,
    }
}

fn ss_read_fields(fields: &Vec<String>, values: &Vec<String>) -> (a: Acc)
    requires
        values.len() >= fields.len(),
    ensures
        acc_view(a) == ss_fields_go(fields.deep_view(), values.deep_view(), 0, ss_acc_empty()),
{
    let ghost fs = fields.deep_view();
    let ghost vs = values.deep_view();
    let mut a = Acc { id1: None, id2: None, wls: Vec::new(), vals: Vec::new(), custom: custom_new() };
    assert(acc_view(a) =~= ss_acc_empty()) by {
        assert(a.wls.deep_view() =~= Seq::<Seq<char>>::empty());
        assert(a.vals.deep_view() =~= Seq::<Seq<char>>::empty());
    }
    let mut i: usize = 0;
    while i < fields.len()
        invariant
            0 <= i <= fields.len(),
            values.len() >= fields.len(),
            fs == fields.deep_view(),
            vs == values.deep_view(),
            ss_fields_go(fs, vs, 0, ss_acc_empty()) == ss_fields_go(fs, vs, i as int, acc_view(a)),
        decreases fields.len() - i,
    {
        let f = chars_of(fields[i].as_str());
        let v = chars_of(values[i].as_str());
        assert(fs[i as int] == f@ && vs[i as int] == v@);
        if eq_lit(&f, "SAMPLE_ID") || eq_lit(&f, "SAMPLE_ID1") {
            a.id1 = ss_str_vec(&v);
            i = i + 1;
        } else if eq_lit(&f, "SAMPLE_NAME") || eq_lit(&f, "SAMPLE_ID2") {
            a.id2 = ss_str_vec(&v);
            i = i + 1;
        } else if eq_lit(&f, "SAMPLE_ID3") {
            match ss_str_vec(&v) {
                Some(x) => {
                    custom_insert(&mut a.custom, string_of(&chars_of("sample_id3")), string_of(&x));
                },
                None => {},
            }
            i = i + 1;
        } else if eq_lit(&f, "SPECTRAL_NM") {
            let paired = if i + 1 < fields.len() {
                let g = chars_of(fields[i + 1].as_str());
                assert(fs[i + 1] == g@);
                eq_lit(&g, "SPECTRAL_VAL")
            } else {
                false
            };
            if paired {
                let w2 = chars_of(values[i + 1].as_str());
                assert(vs[i + 1] == w2@);
                match (ss_float_chars(&v), ss_float_chars(&w2)) {
                    (Some(w), Some(x)) => {
                        let ghost ow = a.wls.deep_view();
                        let ghost ov = a.vals.deep_view();
                        a.wls.push(string_of(&w));
                        a.vals.push(string_of(&x));
                        assert(a.wls.deep_view() =~= ow.push(w@));
                        assert(a.vals.deep_view() =~= ov.push(x@));
                    },
                    _ => {},
                }
                i = i + 2;
            } else {
                i = i + 1;
            }
        } else if eq_lit(&f, "SPECTRAL_VAL") {
            i = i + 1;
        } else {
            match ss_str_vec(&v) {
                Some(x) => {
                    let lower = to_lowercase(fields[i].as_str());
                    custom_insert(&mut a.custom, lower, string_of(&x));
                },
                None => {},
            }
            i = i + 1;
        }
    }
    a
}

fn opt_insert_absent_exec(c: &mut CustomMap, k: &str, v: &Option<String>)
    ensures
        custom_entries(*final(c)) == opt_insert_absent(custom_entries(*old(c)), k@, v.deep_view()),
{
    match v {
        Some(x) => {
            if !custom_contains_key(c, k) {
                custom_insert(c, string_of(&chars_of(k)), x.clone());
            }
        },
        None => {},
    }
}

fn ss_notes_exec(m: &SsMeta) -> (r: Option<String>)
    ensures
        r.deep_view() == ss_notes(m@),
{
    match (&m.acquire_note, &m.note) {
        (Some(a), Some(b)) => {
            let mut v = chars_of(a.as_str());
            append_str(&mut v, "; ");
            append_str(&mut v, b.as_str());
            Some(string_of(&v))
        },
        (Some(a), None) => Some(a.clone()),
        (None, Some(b)) => Some(b.clone()),
        (None, None) => None,
    }
}

fn ss_conditions_exec(m: &SsMeta) -> (r: Option<ConditionsHead>)
    ensures
        match r {
            Some(c) => ss_conditions(m@) == Some(c@),
            None => ss_conditions(m@) is None,
        },
{
    let ap = match &m.measurement_aperture {
        Some(x) => {
            let xv = chars_of(x.as_str());
            let w = crate::date::first_word_of(&xv);
            match ss_float_chars(&w) {
                Some(t) => Some(string_of(&t)),
                None => None,
            }
        },
        None => None,
    };
    let filter = match &m.measurement_filter {
        Some(s) => {
            let sv = chars_of(s.as_str());
            if crate::number::eq_ignore_case_from(&sv, 0, "none") {
                proof {
                    reveal_strlit("none");
                    assert(sv@.skip(0) =~= sv@);
                    assert("none"@ =~= seq!['n', 'o', 'n', 'e']);
                }
                None
            } else {
                proof {
                    reveal_strlit("none");
                    assert(sv@.skip(0) =~= sv@);
                    assert("none"@ =~= seq!['n', 'o', 'n', 'e']);
                }
                Some(s.clone())
            }
        },
        None => None,
    };
    if m.measurement_geometry.is_some() || ap.is_some() || filter.is_some() || m.nmeasure.is_some() {
        Some(
            ConditionsHead {
                averaging: m.nmeasure,
                geometry: clone_opt(&m.measurement_geometry),
                aperture_mm: ap,
                filter,
            },
        )
    } else {
        None
    }
}

fn ss_color_science_exec(m: &SsMeta) -> (r: Option<ColorScienceHead>)
    ensures
        match r {
            Some(c) => ss_color_science(m@) == Some(c@),
            None => ss_color_science(m@) is None,
        },
{
    let ill = match &m.illuminant {
        Some(x) => ss_illuminant(x.as_str()),
        None => None,
    };
    let obs = match &m.observer {
        Some(x) => ss_observer(x.as_str()),
        None => None,
    };
    if ill.is_some() || obs.is_some() {
        Some(ColorScienceHead { illuminant: ill, cie_observer: obs })
    } else {
        None
    }
}

fn opt_vec_string(o: &Option<Vec<char>>) -> (r: Option<String>)
    ensures
        r.deep_view() == match o {
            Some(v) => Some(v@),
            None => None::<Seq<char>>,
        },
{
    match o {
        Some(v) => Some(string_of(v)),
        None => None,
    }
}

fn opt_str_string(s: Option<&str>) -> (r: Option<String>)
    ensures
        r.deep_view() == crate::csv_text::opt_str_view(s),
{
    match s {
        Some(x) => Some(string_of(&chars_of(x))),
        None => None,
    }
}

/// Builds the record of one data row from the format's field names and
/// the row's values.
pub fn ss_build_record(
    fields: &Vec<String>,
    values: &Vec<String>,
    meta: &SsMeta,
    idx: usize,
    source_file: Option<&str>,
) -> (r: Result<SsRecord, ImportError>)
    requires
        values.len() >= fields.len(),
    ensures
        match r {
            Ok(rec) => ss_record_outcome(
                fields.deep_view(),
                values.deep_view(),
                meta@,
                idx as nat,
                crate::csv_text::opt_str_view(source_file),
            ) == Ok::<_, ImportErrorV>(rec@),
            Err(e) => ss_record_outcome(
                fields.deep_view(),
                values.deep_view(),
                meta@,
                idx as nat,
                crate::csv_text::opt_str_view(source_file),
            ) == Err::<(RecordHeadV, Seq<Seq<char>>, Seq<Seq<char>>), _>(e@),
        },
{
    let a = ss_read_fields(fields, values);
    if a.wls.len() == 0 {
        let mut msg = chars_of("SpectraShop: record ");
        let num = decimal_chars(idx as u128);
        append_chars(&mut msg, &num);
        append_str(&mut msg, " has no SPECTRAL_NM/SPECTRAL_VAL pairs");
        assert(msg@ =~= no_pairs_message(idx as nat));
        return Err(ImportError::SchemaValidation(string_of(&msg)));
    }
    let date = match &meta.created {
        Some(c) => {
            let cv = chars_of(c.as_str());
            match parse_date_chars(&cv) {
                DateParse::Date(d) => string_of(&d),
                DateParse::NoDate => string_of(&chars_of("1970-01-01")),
                DateParse::SliceInsideChar => {
                    return Err(ImportError::DateSliceInsideChar);
                },
            }
        },
        None => string_of(&chars_of("1970-01-01")),
    };
    let id = match &a.id1 {
        Some(x) => string_of(x),
        None => string_of(&decimal_chars(idx as u128 + 1)),
    };
    let title = match &a.id2 {
        Some(x) => Some(string_of(x)),
        None => opt_vec_string(&a.id1),
    };
    let measurement_type = match &meta.spectrum_type {
        Some(t) => ss_measurement_type(t.as_str()),
        None => MeasurementType::Reflectance,
    };
    let instrument = if meta.instrumentation.is_some() || meta.instrument_serial.is_some() {
        Some(
            Instrument {
                manufacturer: None,
                model: clone_opt(&meta.instrumentation),
                serial_number: clone_opt(&meta.instrument_serial),
                detector_type: None,
                light_source: None,
            },
        )
    } else {
        None
    };
    let mut custom = a.custom;
    opt_insert_absent_exec(&mut custom, "manufacturer", &meta.manufacturer);
    opt_insert_absent_exec(&mut custom, "material", &meta.material);
    opt_insert_absent_exec(&mut custom, "model_num", &meta.model_num);
    opt_insert_absent_exec(&mut custom, "serial", &meta.serial);
    opt_insert_absent_exec(&mut custom, "prod_date", &meta.prod_date);
    opt_insert_absent_exec(&mut custom, "measurement_source", &meta.measurement_source);
    let head = RecordHead {
        id,
        measurement_type,
        date,
        title,
        description: clone_opt(&meta.file_descriptor),
        sample_id: None,
        operator: clone_opt(&meta.originator),
        instrument,
        conditions: ss_conditions_exec(meta),
        surface: clone_opt(&meta.surface),
        sample_backing: clone_opt(&meta.sample_backing),
        copyright: None,
        custom,
        color_science: ss_color_science_exec(meta),
        provenance: ProvenanceHead {
            software: Some(string_of(&chars_of("SpectraShop"))),
            software_version: clone_opt(&meta.sw_version),
            source_file: opt_str_string(source_file),
            source_format: Some(string_of(&chars_of("SpectraShop Text"))),
            notes: ss_notes_exec(meta),
        },
    };
    Ok(SsRecord { head, wavelengths: a.wls, values: a.vals })
}

// ───────────────────────── whole files ─────────────────────────

/// A record as its view: head, wavelength tokens, value tokens.
pub type SsRecordV = (RecordHeadV, Seq<Seq<char>>, Seq<Seq<char>>);

pub open spec fn recs_view(v: Seq<SsRecord>) -> Seq<SsRecordV> {
    v.map_values(|r: SsRecord| r@)
}

/// The whitespace-separated words of `s` read from position `i` on, with
/// `cur` the word being read and `acc` the words already complete
/// (`str::split_whitespace`).
pub open spec fn words_go(s: Seq<char>, i: int, cur: Seq<char>, acc: Seq<Seq<char>>) -> Seq<Seq<char>>
    decreases s.len() - i,
{
    if i < 0 || i >= s.len() {
        if cur.len() > 0 {
            acc.push(cur)
        } else {
            acc
        }
    } else if is_ws(s[i]) {
        if cur.len() > 0 {
            words_go(s, i + 1, seq![], acc.push(cur))
        } else {
            words_go(s, i + 1, cur, acc)
        }
    } else {
        words_go(s, i + 1, cur.push(s[i]), acc)
    }
}

/// The whitespace-separated words of `s`.
pub open spec fn words(s: Seq<char>) -> Seq<Seq<char>> {
    words_go(s, 0, seq![], seq![])
}

/// The field names of a format line: its words, upper-cased.
pub open spec fn upper_words(s: Seq<char>) -> Seq<Seq<char>> {
    words(s).map_values(|w: Seq<char>| upper_case(w))
}

/// The records of one format/data section: each run of as many tokens as
/// there are fields is one record, numbered on from `recs.len()`.
pub open spec fn section_records(
    fs: Seq<Seq<char>>,
    d: Seq<Seq<char>>,
    m: SsMetaV,
    recs: Seq<SsRecordV>,
    src: Option<Seq<char>>,
) -> Result<Seq<SsRecordV>, ImportErrorV>
    decreases d.len(),
{
    if fs.len() == 0 || d.len() < fs.len() {
        Ok(recs)
    } else {
        match ss_record_outcome(fs, d.take(fs.len() as int), m, recs.len(), src) {
            Err(e) => Err(e),
            Ok(x) => section_records(fs, d.skip(fs.len() as int), m, recs.push(x), src),
        }
    }
}

/// Where the reading of a file stands after some of its lines.
pub struct SsState {
    pub meta: SsMetaV,
    pub in_format: bool,
    pub in_data: bool,
    pub format: Seq<Seq<char>>,
    pub data: Seq<Seq<char>>,
    pub records: Seq<SsRecordV>,
    pub saw_data: bool,
    pub any_parsed: bool,
}

pub open spec fn ss_state_start() -> SsState {
    SsState {
        meta: ss_meta_empty(),
        in_format: false,
        in_data: false,
        format: seq![],
        data: seq![],
        records: seq![],
        saw_data: false,
        any_parsed: false,
    }
}

/// The error of a section whose tokens do not fill whole records.
pub open spec fn token_count_message(n: nat, f: nat, idx: nat) -> Seq<char> {
    "SpectraShop: data token count ("@ + decimal(n) + ") is not a multiple of field count ("@
        + decimal(f) + ") in section ending near record "@ + decimal(idx)
}

/// The end of a data block: a section with fields and tokens becomes records.
pub open spec fn ss_end_data(st: SsState, src: Option<Seq<char>>) -> Result<SsState, ImportErrorV> {
    let st1 = SsState { in_data: false, ..st };
    if st.format.len() > 0 && st.data.len() > 0 {
        if st.data.len() % st.format.len() != 0 {
            Err(
                ImportErrorV::SchemaValidation(
                    token_count_message(st.data.len(), st.format.len(), st.records.len()),
                ),
            )
        } else {
            match section_records(st.format, st.data, st.meta, st.records, src) {
                Err(e) => Err(e),
                Ok(r) => Ok(SsState { records: r, any_parsed: true, ..st1 }),
            }
        }
    } else {
        Ok(st1)
    }
}

/// One line of a file.  Blank lines and `#` comments are skipped; the
/// section markers are recognised in any case; inside a format block the
/// words are field names, inside a data block the line gives tokens, and
/// elsewhere a line is a header keyword and value.
pub open spec fn ss_step(st: SsState, line: Seq<char>, src: Option<Seq<char>>) -> Result<
    SsState,
    ImportErrorV,
> {
    let t = trim(line);
    if t.len() == 0 || t[0] == '#' {
        Ok(st)
    } else {
        let u = upper_case(t);
        if u == "BEGIN_DATA_FORMAT"@ {
            Ok(SsState { format: seq![], in_format: true, ..st })
        } else if u == "END_DATA_FORMAT"@ {
            Ok(SsState { in_format: false, ..st })
        } else if u == "BEGIN_DATA"@ {
            Ok(SsState { data: seq![], in_data: true, saw_data: true, ..st })
        } else if u == "END_DATA"@ {
            ss_end_data(st, src)
        } else if st.in_format {
            Ok(SsState { format: st.format + upper_words(t), ..st })
        } else if st.in_data {
            Ok(SsState { data: st.data + line_tokens(t), ..st })
        } else {
            match ss_split_kv_spec(t) {
                Some((k, v)) => Ok(SsState { meta: ss_apply_kv_spec(st.meta, k, v), ..st }),
                None => Ok(st),
            }
        }
    }
}

/// The lines read one after the other; the first error stops the reading.
pub open spec fn ss_run(st: SsState, ls: Seq<Seq<char>>, src: Option<Seq<char>>) -> Result<
    SsState,
    ImportErrorV,
>
    decreases ls.len(),
{
    if ls.len() == 0 {
        Ok(st)
    } else {
        match ss_step(st, ls[0], src) {
            Err(e) => Err(e),
            Ok(s2) => ss_run(s2, ls.drop_first(), src),
        }
    }
}

pub open spec fn no_block_message() -> Seq<char> {
    "SpectraShop: no BEGIN_DATA/END_DATA block found"@
}

pub open spec fn empty_block_message() -> Seq<char> {
    "SpectraShop: BEGIN_DATA/END_DATA block present but contained no parseable records (check that BEGIN_DATA_FORMAT is also present and non-empty)"@
}

pub open spec fn no_records_message() -> Seq<char> {
    "SpectraShop: file contains no spectral records"@
}

/// The records of a whole file, or the error that reading it gives.
pub open spec fn ss_parse_outcome(input: Seq<char>, src: Option<Seq<char>>) -> Result<
    Seq<SsRecordV>,
    ImportErrorV,
> {
    match ss_run(ss_state_start(), lines(input), src) {
        Err(e) => Err(e),
        Ok(st) => if !st.saw_data {
            Err(ImportErrorV::SchemaValidation(no_block_message()))
        } else if !st.any_parsed {
            Err(ImportErrorV::SchemaValidation(empty_block_message()))
        } else if st.records.len() == 0 {
            Err(ImportErrorV::SchemaValidation(no_records_message()))
        } else {
            Ok(st.records)
        },
    }
}

fn sub_strings(v: &Vec<String>, from: usize, to: usize) -> (r: Vec<String>)
    requires
        from <= to <= v.len(),
    ensures
        r.deep_view() == v.deep_view().subrange(from as int, to as int),
{
    let mut r: Vec<String> = Vec::new();
    let mut i = from;
    while i < to
        invariant
            from <= i <= to <= v.len(),
            r.deep_view() == v.deep_view().subrange(from as int, i as int),
        decreases to - i,
    {
        let ghost o = r.deep_view();
        let x = v[i].clone();
        assert(x@ == v.deep_view()[i as int]);
        r.push(x);
        assert(r.deep_view() =~= o.push(x@));
        assert(r.deep_view() =~= v.deep_view().subrange(from as int, i + 1));
        i = i + 1;
    }
    r
}

/// Appends the upper-cased words of a format line to the field names.
fn upper_words_into(t: &Vec<char>, out: &mut Vec<String>)
    ensures
        final(out).deep_view() == old(out).deep_view() + upper_words(t@),
{
    let ghost acc: Seq<Seq<char>> = seq![];
    let mut cur: Vec<char> = Vec::new();
    let mut i: usize = 0;
    while i < t.len()
        invariant
            0 <= i <= t.len(),
            words(t@) == words_go(t@, i as int, cur@, acc),
            out.deep_view() == old(out).deep_view() + acc.map_values(|w: Seq<char>| upper_case(w)),
        decreases t.len() - i,
    {
        if is_whitespace(t[i]) {
            if cur.len() > 0 {
                let w = string_of(&cur);
                let u = to_uppercase(w.as_str());
                let ghost o = out.deep_view();
                out.push(u);
                proof {
                    assert(acc.push(cur@).map_values(|w: Seq<char>| upper_case(w))
                        =~= acc.map_values(|w: Seq<char>| upper_case(w)).push(upper_case(cur@)));
                    assert(out.deep_view() =~= o.push(u@));
                    acc = acc.push(cur@);
                }
                cur = Vec::new();
                assert(cur@ =~= Seq::<char>::empty());
            }
        } else {
            cur.push(t[i]);
        }
        i = i + 1;
    }
    if cur.len() > 0 {
        let w = string_of(&cur);
        let u = to_uppercase(w.as_str());
        let ghost o = out.deep_view();
        out.push(u);
        proof {
            assert(acc.push(cur@).map_values(|w: Seq<char>| upper_case(w))
                =~= acc.map_values(|w: Seq<char>| upper_case(w)).push(upper_case(cur@)));
            assert(out.deep_view() =~= o.push(u@));
            acc = acc.push(cur@);
        }
    }
    assert(out.deep_view() =~= old(out).deep_view() + upper_words(t@));
}

/// Builds the records of one section and appends them.
fn ss_section(
    format: &Vec<String>,
    data: &Vec<String>,
    meta: &SsMeta,
    records: &mut Vec<SsRecord>,
    source_file: Option<&str>,
) -> (r: Result<(), ImportError>)
    requires
        format.len() > 0,
    ensures
        match r {
            Ok(()) => section_records(
                format.deep_view(),
                data.deep_view(),
                meta@,
                recs_view(old(records)@),
                crate::csv_text::opt_str_view(source_file),
            ) == Ok::<Seq<SsRecordV>, ImportErrorV>(recs_view(final(records)@)),
            Err(e) => section_records(
                format.deep_view(),
                data.deep_view(),
                meta@,
                recs_view(old(records)@),
                crate::csv_text::opt_str_view(source_file),
            ) == Err::<Seq<SsRecordV>, ImportErrorV>(e@),
        },
{
    let ghost fs = format.deep_view();
    let ghost ds = data.deep_view();
    let ghost src = crate::csv_text::opt_str_view(source_file);
    let ghost r0 = recs_view(records@);
    let nf = format.len();
    let mut pos: usize = 0;
    assert(ds.skip(0) =~= ds);
    while data.len() - pos >= nf
        invariant
            pos <= data.len(),
            nf == format.len(),
            nf > 0,
            fs == format.deep_view(),
            ds == data.deep_view(),
            src == crate::csv_text::opt_str_view(source_file),
            r0 == recs_view(old(records)@),
            section_records(fs, ds, meta@, r0, src) == section_records(
                fs,
                ds.skip(pos as int),
                meta@,
                recs_view(records@),
                src,
            ),
        decreases data.len() - pos,
    {
        let row = sub_strings(data, pos, pos + nf);
        proof {
            assert(ds.skip(pos as int).take(nf as int) =~= ds.subrange(pos as int, pos + nf));
            assert(ds.skip(pos as int).skip(nf as int) =~= ds.skip(pos + nf));
        }
        let idx = records.len();
        match ss_build_record(format, &row, meta, idx, source_file) {
            Ok(rec) => {
                let ghost o = recs_view(records@);
                records.push(rec);
                assert(recs_view(records@) =~= o.push(rec@));
            },
            Err(e) => {
                assert(recs_view(records@).len() == records.len());
                assert(ds.skip(pos as int).len() >= fs.len());
                return Err(e);
            },
        }
        pos = pos + nf;
    }
    Ok(())
}

/// The exec counterpart of `SsState`.
struct SsReader {
    meta: SsMeta,
    in_format: bool,
    in_data: bool,
    format: Vec<String>,
    data: Vec<String>,
    records: Vec<SsRecord>,
    saw_data: bool,
    any_parsed: bool,
}

spec fn reader_view(p: SsReader) -> SsState {
    SsState {
        meta: p.meta@,
        in_format: p.in_format,
        in_data: p.in_data,
        format: p.format.deep_view(),
        data: p.data.deep_view(),
        records: recs_view(p.records@),
        saw_data: p.saw_data,
        any_parsed: p.any_parsed,
    }
}

fn token_count_error(n: usize, f: usize, idx: usize) -> (e: ImportError)
    ensures
        e@ == ImportErrorV::SchemaValidation(token_count_message(n as nat, f as nat, idx as nat)),
{
    let mut msg = chars_of("SpectraShop: data token count (");
    append_chars(&mut msg, &decimal_chars(n as u128));
    append_str(&mut msg, ") is not a multiple of field count (");
    append_chars(&mut msg, &decimal_chars(f as u128));
    append_str(&mut msg, ") in section ending near record ");
    append_chars(&mut msg, &decimal_chars(idx as u128));
    assert(msg@ =~= token_count_message(n as nat, f as nat, idx as nat));
    ImportError::SchemaValidation(string_of(&msg))
}

/// The end of a data block.
fn ss_read_end_data(p: &mut SsReader, source_file: Option<&str>) -> (r: Result<(), ImportError>)
    ensures
        match r {
            Ok(()) => ss_end_data(reader_view(*old(p)), crate::csv_text::opt_str_view(source_file))
                == Ok::<SsState, ImportErrorV>(reader_view(*final(p))),
            Err(e) => ss_end_data(reader_view(*old(p)), crate::csv_text::opt_str_view(source_file))
                == Err::<SsState, ImportErrorV>(e@),
        },
{
    p.in_data = false;
    if p.format.len() > 0 && p.data.len() > 0 {
        if p.data.len() % p.format.len() != 0 {
            return Err(token_count_error(p.data.len(), p.format.len(), p.records.len()));
        }
        let ghost before = reader_view(*p);
        let mut records = Vec::new();
        std::mem::swap(&mut records, &mut p.records);
        let res = ss_section(&p.format, &p.data, &p.meta, &mut records, source_file);
        p.records = records;
        match res {
            Ok(()) => {
                p.any_parsed = true;
                Ok(())
            },
            Err(e) => Err(e),
        }
    } else {
        Ok(())
    }
}

/// One line of a file.
fn ss_read_line(p: &mut SsReader, line: &str, source_file: Option<&str>) -> (r: Result<
    (),
    ImportError,
>)
    ensures
        match r {
            Ok(()) => ss_step(reader_view(*old(p)), line@, crate::csv_text::opt_str_view(source_file))
                == Ok::<SsState, ImportErrorV>(reader_view(*final(p))),
            Err(e) => ss_step(
                reader_view(*old(p)),
                line@,
                crate::csv_text::opt_str_view(source_file),
            ) == Err::<SsState, ImportErrorV>(e@),
        },
{
    let v = chars_of(line);
    let t = trim_chars(&v);
    if t.len() == 0 || t[0] == '#' {
        return Ok(());
    }
    let ts = string_of(&t);
    let u = to_uppercase(ts.as_str());
    let uv = chars_of(u.as_str());
    if eq_lit(&uv, "BEGIN_DATA_FORMAT") {
        p.format = Vec::new();
        p.in_format = true;
        assert(p.format.deep_view() =~= Seq::<Seq<char>>::empty());
        Ok(())
    } else if eq_lit(&uv, "END_DATA_FORMAT") {
        p.in_format = false;
        Ok(())
    } else if eq_lit(&uv, "BEGIN_DATA") {
        p.data = Vec::new();
        p.in_data = true;
        p.saw_data = true;
        assert(p.data.deep_view() =~= Seq::<Seq<char>>::empty());
        Ok(())
    } else if eq_lit(&uv, "END_DATA") {
        ss_read_end_data(p, source_file)
    } else if p.in_format {
        upper_words_into(&t, &mut p.format);
        Ok(())
    } else if p.in_data {
        ss_tokenize_into(ts.as_str(), &mut p.data);
        Ok(())
    } else {
        match ss_split_kv(ts.as_str()) {
            Some((k, val)) => {
                ss_apply_kv(&mut p.meta, k.as_str(), val.as_str());
                Ok(())
            },
            None => Ok(()),
        }
    }
}

/// Reads a SpectraShop text export: its header keywords, its format blocks
/// and its data blocks, into one record per data row.
pub fn ss_parse(input: &str, source_file: Option<&str>) -> (r: Result<Vec<SsRecord>, ImportError>)
    ensures
        match r {
            Ok(recs) => ss_parse_outcome(input@, crate::csv_text::opt_str_view(source_file))
                == Ok::<Seq<SsRecordV>, ImportErrorV>(recs_view(recs@)),
            Err(e) => ss_parse_outcome(input@, crate::csv_text::opt_str_view(source_file))
                == Err::<Seq<SsRecordV>, ImportErrorV>(e@),
        },
{
    let ghost src = crate::csv_text::opt_str_view(source_file);
    let ls = split_lines(input);
    let mut p = SsReader {
        meta: SsMeta::new(),
        in_format: false,
        in_data: false,
        format: Vec::new(),
        data: Vec::new(),
        records: Vec::new(),
        saw_data: false,
        any_parsed: false,
    };
    assert(reader_view(p) =~= ss_state_start()) by {
        assert(p.format.deep_view() =~= Seq::<Seq<char>>::empty());
        assert(p.data.deep_view() =~= Seq::<Seq<char>>::empty());
        assert(recs_view(p.records@) =~= Seq::<SsRecordV>::empty());
    }
    assert(ls.deep_view().skip(0) =~= ls.deep_view());
    let mut i: usize = 0;
    while i < ls.len()
        invariant
            i <= ls.len(),
            ls.deep_view() == lines(input@),
            src == crate::csv_text::opt_str_view(source_file),
            ss_run(ss_state_start(), lines(input@), src) == ss_run(
                reader_view(p),
                ls.deep_view().skip(i as int),
                src,
            ),
        decreases ls.len() - i,
    {
        proof {
            let t = ls.deep_view().skip(i as int);
            assert(t[0] == ls.deep_view()[i as int]);
            assert(t.drop_first() =~= ls.deep_view().skip(i + 1));
        }
        match ss_read_line(&mut p, ls[i].as_str(), source_file) {
            Err(e) => {
                return Err(e);
            },
            Ok(()) => {},
        }
        i = i + 1;
    }
    assert(ls.deep_view().skip(i as int) =~= Seq::<Seq<char>>::empty());
    if !p.saw_data {
        return Err(schema_error("SpectraShop: no BEGIN_DATA/END_DATA block found"));
    }
    if !p.any_parsed {
        return Err(
            schema_error(
                "SpectraShop: BEGIN_DATA/END_DATA block present but contained no parseable records (check that BEGIN_DATA_FORMAT is also present and non-empty)",
            ),
        );
    }
    if p.records.len() == 0 {
        return Err(schema_error("SpectraShop: file contains no spectral records"));
    }
    Ok(p.records)
}

// ───────────────────────── what a parse gives ─────────────────────────

/// A record holds at least one wavelength/value pair, as many wavelengths
/// as values.
pub open spec fn has_pairs(r: SsRecordV) -> bool {
    r.1.len() >= 1 && r.1.len() == r.2.len()
}

/// Every record holds pairs.
pub open spec fn all_have_pairs(rs: Seq<SsRecordV>) -> bool {
    forall|i: int| 0 <= i < rs.len() ==> has_pairs(#[trigger] rs[i])
}

proof fn lemma_fields_go_pairs(fs: Seq<Seq<char>>, vs: Seq<Seq<char>>, i: int, a: SsAcc)
    requires
        a.wls.len() == a.vals.len(),
    ensures
        ss_fields_go(fs, vs, i, a).wls.len() == ss_fields_go(fs, vs, i, a).vals.len(),
    decreases fs.len() - i,
{
    if i < 0 || i >= fs.len() {
    } else {
        let f = fs[i];
        let v = vs[i];
        if f == "SAMPLE_ID"@ || f == "SAMPLE_ID1"@ {
            lemma_fields_go_pairs(fs, vs, i + 1, SsAcc { id1: ss_str_spec(v), ..a });
        } else if f == "SAMPLE_NAME"@ || f == "SAMPLE_ID2"@ {
            lemma_fields_go_pairs(fs, vs, i + 1, SsAcc { id2: ss_str_spec(v), ..a });
        } else if f == "SAMPLE_ID3"@ {
            match ss_str_spec(v) {
                Some(x) => lemma_fields_go_pairs(
                    fs,
                    vs,
                    i + 1,
                    SsAcc { custom: a.custom.insert("sample_id3"@, Some(x)), ..a },
                ),
                None => lemma_fields_go_pairs(fs, vs, i + 1, a),
            }
        } else if f == "SPECTRAL_NM"@ {
            if i + 1 < fs.len() && fs[i + 1] == "SPECTRAL_VAL"@ {
                match (ss_float_token(v), ss_float_token(vs[i + 1])) {
                    (Some(w), Some(x)) => lemma_fields_go_pairs(
                        fs,
                        vs,
                        i + 2,
                        SsAcc { wls: a.wls.push(w), vals: a.vals.push(x), ..a },
                    ),
                    _ => lemma_fields_go_pairs(fs, vs, i + 2, a),
                }
            } else {
                lemma_fields_go_pairs(fs, vs, i + 1, a);
            }
        } else if f == "SPECTRAL_VAL"@ {
            lemma_fields_go_pairs(fs, vs, i + 1, a);
        } else {
            match ss_str_spec(v) {
                Some(x) => lemma_fields_go_pairs(
                    fs,
                    vs,
                    i + 1,
                    SsAcc { custom: a.custom.insert(lower_case(f), Some(x)), ..a },
                ),
                None => lemma_fields_go_pairs(fs, vs, i + 1, a),
            }
        }
    }
}

/// A record read from a row holds pairs.
proof fn lemma_record_pairs(
    fs: Seq<Seq<char>>,
    vs: Seq<Seq<char>>,
    m: SsMetaV,
    idx: nat,
    src: Option<Seq<char>>,
)
    ensures
        match ss_record_outcome(fs, vs, m, idx, src) {
            Ok(x) => has_pairs(x),
            Err(_) => true,
        },
{
    lemma_fields_go_pairs(fs, vs, 0, ss_acc_empty());
}

/// The records of a section: those already read are kept, one record is
/// added per whole row of `fs.len()` tokens, and each added record holds
/// pairs.
pub proof fn lemma_section_records_shape(
    fs: Seq<Seq<char>>,
    d: Seq<Seq<char>>,
    m: SsMetaV,
    recs: Seq<SsRecordV>,
    src: Option<Seq<char>>,
)
    requires
        fs.len() > 0,
    ensures
        match section_records(fs, d, m, recs, src) {
            Ok(r) => {
                &&& r.len() == recs.len() + d.len() / fs.len()
                &&& r.take(recs.len() as int) == recs
                &&& forall|i: int| recs.len() <= i < r.len() ==> has_pairs(#[trigger] r[i])
            },
            Err(_) => true,
        },
    decreases d.len(),
{
    let n = fs.len() as int;
    if d.len() < n {
        assert(d.len() / fs.len() == 0) by (nonlinear_arith)
            requires
                0 <= d.len() < fs.len(),
        ;
        assert(recs.take(recs.len() as int) =~= recs);
    } else {
        lemma_record_pairs(fs, d.take(n), m, recs.len(), src);
        match ss_record_outcome(fs, d.take(n), m, recs.len(), src) {
            Err(_) => {},
            Ok(x) => {
                let rest = d.skip(n);
                lemma_section_records_shape(fs, rest, m, recs.push(x), src);
                assert(rest.len() / fs.len() == d.len() / fs.len() - 1) by (nonlinear_arith)
                    requires
                        rest.len() == d.len() - fs.len(),
                        d.len() >= fs.len(),
                        fs.len() > 0,
                ;
                match section_records(fs, rest, m, recs.push(x), src) {
                    Ok(r) => {
                        assert(r.take(recs.len() + 1int) == recs.push(x));
                        assert(r.take(recs.len() as int) =~= recs) by {
                            assert forall|i: int| 0 <= i < recs.len() implies r.take(
                                recs.len() as int,
                            )[i] == recs[i] by {
                                assert(r.take(recs.len() + 1int)[i] == recs.push(x)[i]);
                            }
                        }
                        assert(r[recs.len() as int] == x) by {
                            assert(r.take(recs.len() + 1int)[recs.len() as int] == recs.push(x)[recs.len() as int]);
                        }
                    },
                    Err(_) => {},
                }
            },
        }
    }
}

/// The end of a data block adds one record per whole row of the section's
/// tokens, each holding pairs, after the records already read.
pub proof fn lemma_end_data_shape(st: SsState, src: Option<Seq<char>>)
    ensures
        match ss_end_data(st, src) {
            Ok(st2) => {
                &&& st2.records.take(st.records.len() as int) == st.records
                &&& st2.records.len() == st.records.len() + if st.format.len() > 0 {
                    st.data.len() / st.format.len()
                } else {
                    0
                }
                &&& forall|i: int|
                    st.records.len() <= i < st2.records.len() ==> has_pairs(#[trigger] st2.records[i])
            },
            Err(_) => true,
        },
{
    if st.format.len() > 0 && st.data.len() > 0 && st.data.len() % st.format.len() == 0 {
        lemma_section_records_shape(st.format, st.data, st.meta, st.records, src);
    } else {
        assert(st.records.take(st.records.len() as int) =~= st.records);
        if st.format.len() > 0 && st.data.len() == 0 {
            assert(st.data.len() / st.format.len() == 0);
        }
    }
}

proof fn lemma_run_pairs(st: SsState, ls: Seq<Seq<char>>, src: Option<Seq<char>>)
    requires
        all_have_pairs(st.records),
    ensures
        match ss_run(st, ls, src) {
            Ok(st2) => all_have_pairs(st2.records),
            Err(_) => true,
        },
    decreases ls.len(),
{
    if ls.len() > 0 {
        let t = trim(ls[0]);
        match ss_step(st, ls[0], src) {
            Err(_) => {},
            Ok(s2) => {
                if !(t.len() == 0 || t[0] == '#') && upper_case(t) == "END_DATA"@ {
                    lemma_end_data_shape(st, src);
                    assert forall|i: int| 0 <= i < s2.records.len() implies has_pairs(
                        #[trigger] s2.records[i],
                    ) by {
                        if i < st.records.len() {
                            assert(s2.records.take(st.records.len() as int)[i] == st.records[i]);
                        }
                    }
                }
                lemma_run_pairs(s2, ls.drop_first(), src);
            },
        }
    }
}

/// Every record that a successful parse gives holds at least one
/// wavelength/value pair, and as many wavelengths as values.
pub proof fn lemma_parsed_records_have_pairs(input: Seq<char>, src: Option<Seq<char>>)
    ensures
        match ss_parse_outcome(input, src) {
            Ok(recs) => recs.len() >= 1 && all_have_pairs(recs),
            Err(_) => true,
        },
{
    lemma_run_pairs(ss_state_start(), lines(input), src);
}

/// A row without a name field leaves the label unset.
proof fn lemma_fields_go_no_name(fs: Seq<Seq<char>>, vs: Seq<Seq<char>>, i: int, a: SsAcc)
    requires
        forall|j: int| 0 <= j < fs.len() ==> fs[j] != "SAMPLE_NAME"@ && fs[j] != "SAMPLE_ID2"@,
    ensures
        ss_fields_go(fs, vs, i, a).id2 == a.id2,
    decreases fs.len() - i,
{
    if i < 0 || i >= fs.len() {
    } else {
        let f = fs[i];
        let v = vs[i];
        if f == "SAMPLE_ID"@ || f == "SAMPLE_ID1"@ {
            lemma_fields_go_no_name(fs, vs, i + 1, SsAcc { id1: ss_str_spec(v), ..a });
        } else if f == "SAMPLE_NAME"@ || f == "SAMPLE_ID2"@ {
        } else if f == "SAMPLE_ID3"@ {
            match ss_str_spec(v) {
                Some(x) => lemma_fields_go_no_name(
                    fs,
                    vs,
                    i + 1,
                    SsAcc { custom: a.custom.insert("sample_id3"@, Some(x)), ..a },
                ),
                None => lemma_fields_go_no_name(fs, vs, i + 1, a),
            }
        } else if f == "SPECTRAL_NM"@ {
            if i + 1 < fs.len() && fs[i + 1] == "SPECTRAL_VAL"@ {
                match (ss_float_token(v), ss_float_token(vs[i + 1])) {
                    (Some(w), Some(x)) => lemma_fields_go_no_name(
                        fs,
                        vs,
                        i + 2,
                        SsAcc { wls: a.wls.push(w), vals: a.vals.push(x), ..a },
                    ),
                    _ => lemma_fields_go_no_name(fs, vs, i + 2, a),
                }
            } else {
                lemma_fields_go_no_name(fs, vs, i + 1, a);
            }
        } else if f == "SPECTRAL_VAL"@ {
            lemma_fields_go_no_name(fs, vs, i + 1, a);
        } else {
            match ss_str_spec(v) {
                Some(x) => lemma_fields_go_no_name(
                    fs,
                    vs,
                    i + 1,
                    SsAcc { custom: a.custom.insert(lower_case(f), Some(x)), ..a },
                ),
                None => lemma_fields_go_no_name(fs, vs, i + 1, a),
            }
        }
    }
}

/// When the format has no name field (`SAMPLE_NAME` or `SAMPLE_ID2`), a
/// record's title falls back to its identifier: whenever a `SAMPLE_ID`
/// value gives the record its id, the title is that same id, and
/// otherwise the record has no title and is numbered.
pub proof fn lemma_title_falls_back_to_id(
    fs: Seq<Seq<char>>,
    vs: Seq<Seq<char>>,
    m: SsMetaV,
    idx: nat,
    src: Option<Seq<char>>,
)
    requires
        forall|j: int| 0 <= j < fs.len() ==> fs[j] != "SAMPLE_NAME"@ && fs[j] != "SAMPLE_ID2"@,
    ensures
        match ss_record_outcome(fs, vs, m, idx, src) {
            Ok(x) => {
                &&& (ss_fields_go(fs, vs, 0, ss_acc_empty()).id1 is Some ==> x.0.title == Some(
                    x.0.id,
                ))
                &&& (x.0.title is None ==> x.0.id == decimal(idx + 1))
                &&& (x.0.title is Some ==> x.0.title == Some(x.0.id))
            },
            Err(_) => true,
        },
{
    lemma_fields_go_no_name(fs, vs, 0, ss_acc_empty());
}

} // verus!
