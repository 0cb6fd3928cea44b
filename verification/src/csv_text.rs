//! Generic CSV / TSV spectral text: the header block of metadata lines and
//! the data block of rows, read into metadata and numeric tokens, and the
//! metadata header written back.
//!
//! Files have two sections:
//!
//! 1. Header block: `KEY: VALUE` or `KEY = VALUE` lines, or
//!    `KEY<delimiter>VALUE` for a set of recognised keywords.  Lines starting
//!    with `#` and blank lines are ignored throughout.
//! 2. Data block: started by the first line whose first cell parses as a
//!    number (the wavelength in nm).  A non-numeric line before it with two
//!    or more fields is the column-header row.  First column = wavelength;
//!    each further column = one spectrum.
use vstd::prelude::*;
use crate::date::{DateParse, date_slice_panics, parse_date_chars, parse_date_spec};
use crate::fields::{
    contains_lit, find_seq, quote_chars, quote_field_spec, split_fields_chars,
    split_fields_spec,
};
use crate::model::{
    custom_clone, custom_entries, custom_insert, custom_new, measurement_type_name, schema_error,
    CustomMap, ImportError,
    ImportErrorV, Instrument, InstrumentV, MeasurementType, RecordHead, RecordHeadV,
};
use crate::number::{decimal, decimal_chars, is_float_literal, parses_as_float};
use crate::text::{
    before_char, chars_of, contains_seq, eq_lit, find, index_of_char, string_of, sub_chars,
    to_lowercase, to_uppercase, trim, trim_chars, lower_case, upper_case,
};

verus! {

// ───────────────────────── delimiter ─────────────────────────

/// Number of occurrences of `c` in `s`.
pub open spec fn count_char(s: Seq<char>, c: char) -> nat
    decreases s.len(),
{
    if s.len() == 0 {
        0
    } else {
        count_char(s.drop_last(), c) + if s.last() == c {
            1nat
        } else {
            0nat
        }
    }
}

/// Number of occurrences of `c` over all lines.
pub open spec fn count_char_lines(ls: Seq<Seq<char>>, c: char) -> nat
    decreases ls.len(),
{
    if ls.len() == 0 {
        0
    } else {
        count_char_lines(ls.drop_last(), c) + count_char(ls.last(), c)
    }
}

/// Tab when the lines hold at least as many tabs as commas, else comma.
pub open spec fn detect_delimiter_spec(ls: Seq<Seq<char>>) -> char {
    if count_char_lines(ls, '\t') >= count_char_lines(ls, ',') {
        '\t'
    } else {
        ','
    }
}

fn count_char_exec(v: &Vec<char>, c: char) -> (n: usize)
    ensures
        n == count_char(v@, c),
        n <= v.len(),
{
    let mut n: usize = 0;
    let mut i: usize = 0;
    while i < v.len()
        invariant
            0 <= i <= v.len(),
            n == count_char(v@.take(i as int), c),
            n <= i,
        decreases v.len() - i,
    {
        assert(v@.take(i + 1).drop_last() =~= v@.take(i as int));
        if v[i] == c {
            n = n + 1;
        }
        i = i + 1;
    }
    assert(v@.take(v.len() as int) =~= v@);
    n
}

/// The delimiter of a file: tab when its lines hold at least as many tabs as
/// commas, else comma.
pub fn detect_delimiter(lines: &Vec<String>) -> (d: char)
    ensures
        d == detect_delimiter_spec(lines.deep_view()),
{
    let ghost ls = lines.deep_view();
    let mut tabs: u128 = 0;
    let mut commas: u128 = 0;
    let mut i: usize = 0;
    while i < lines.len()
        invariant
            0 <= i <= lines.len(),
            ls == lines.deep_view(),
            tabs == count_char_lines(ls.take(i as int), '\t'),
            commas == count_char_lines(ls.take(i as int), ','),
            tabs <= i * 0x1_0000_0000_0000_0000u128,
            commas <= i * 0x1_0000_0000_0000_0000u128,
        decreases lines.len() - i,
    {
        let v = chars_of(lines[i].as_str());
        assert(ls.take(i + 1).drop_last() =~= ls.take(i as int));
        assert(ls[i as int] == v@);
        let t = count_char_exec(&v, '\t');
        let c = count_char_exec(&v, ',');
        tabs = tabs + t as u128;
        commas = commas + c as u128;
        i = i + 1;
    }
    assert(ls.take(lines.len() as int) =~= ls);
    if tabs >= commas {
        '\t'
    } else {
        ','
    }
}

// ───────────────────────── fields ─────────────────────────

/// The first cell of a line: the trimmed text before the first delimiter.
pub fn first_field(line: &str, delimiter: char) -> (r: String)
    ensures
        r@ == trim(before_char(line@, delimiter)),
{
    let v = chars_of(line);
    let k = index_of_char(&v, delimiter);
    let p = sub_chars(&v, 0, k);
    assert(p@ =~= before_char(v@, delimiter));
    let t = trim_chars(&p);
    string_of(&t)
}

/// The trimmed fields of a delimited line; a field in double quotes may hold
/// the delimiter, and a doubled quote inside it stands for one quote.
pub fn split_fields(line: &str, delimiter: char) -> (r: Vec<String>)
    ensures
        r.deep_view() == split_fields_spec(line@, delimiter),
{
    let v = chars_of(line);
    split_fields_chars(&v, delimiter)
}

/// A field as written to a delimited line: in double quotes, with quotes
/// doubled, when it holds the delimiter, a quote or a newline.
pub fn quote_field(s: &str, delimiter: char) -> (r: String)
    ensures
        r@ == quote_field_spec(s@, delimiter),
{
    let v = chars_of(s);
    let q = quote_chars(&v, delimiter);
    string_of(&q)
}

// ───────────────────────── key/value lines ─────────────────────────

/// Keys accepted as `KEY<delimiter>VALUE` metadata pairs, in upper case.
#[verifier::opaque]
pub open spec fn is_known_meta_key(k: Seq<char>) -> bool {
    ||| k == "TITLE"@
    ||| k == "NAME"@
    ||| k == "SAMPLE_NAME"@
    ||| k == "DATE"@
    ||| k == "CREATED"@
    ||| k == "MEASUREMENT_TYPE"@
    ||| k == "SPECTRUM_TYPE"@
    ||| k == "TYPE"@
    ||| k == "OPERATOR"@
    ||| k == "ORIGINATOR"@
    ||| k == "INSTRUMENT"@
    ||| k == "INSTRUMENTATION"@
    ||| k == "DESCRIPTION"@
    ||| k == "FILE_DESCRIPTOR"@
    ||| k == "COPYRIGHT"@
    ||| k == "SURFACE"@
    ||| k == "SAMPLE_BACKING"@
    ||| k == "ILLUMINANT"@
    ||| k == "OBSERVER"@
    ||| k == "SAMPLE_ID"@
    ||| k == "NOTES"@
    ||| k == "NOTE"@
    ||| k == "SOFTWARE"@
    ||| k == "SOURCE"@
    ||| k == "GEOMETRY"@
}

fn known_meta_key(k: &Vec<char>) -> (b: bool)
    ensures
        b == is_known_meta_key(k@),
{
    reveal(is_known_meta_key);
    eq_lit(k, "TITLE") || eq_lit(k, "NAME") || eq_lit(k, "SAMPLE_NAME") || eq_lit(k, "DATE")
        || eq_lit(k, "CREATED") || eq_lit(k, "MEASUREMENT_TYPE") || eq_lit(k, "SPECTRUM_TYPE")
        || eq_lit(k, "TYPE") || eq_lit(k, "OPERATOR") || eq_lit(k, "ORIGINATOR") || eq_lit(
        k,
        "INSTRUMENT",
    ) || eq_lit(k, "INSTRUMENTATION") || eq_lit(k, "DESCRIPTION") || eq_lit(k, "FILE_DESCRIPTOR")
        || eq_lit(k, "COPYRIGHT") || eq_lit(k, "SURFACE") || eq_lit(k, "SAMPLE_BACKING") || eq_lit(
        k,
        "ILLUMINANT",
    ) || eq_lit(k, "OBSERVER") || eq_lit(k, "SAMPLE_ID") || eq_lit(k, "NOTES") || eq_lit(k, "NOTE")
        || eq_lit(k, "SOFTWARE") || eq_lit(k, "SOURCE") || eq_lit(k, "GEOMETRY")
}

/// The label of the wavelength column is not a metadata keyword.
pub(crate) proof fn lemma_label_not_known()
    ensures
        !is_known_meta_key(upper_case("wavelength_nm"@)),
{
    reveal(is_known_meta_key);
    reveal_strlit("wavelength_nm");
    reveal_strlit("WAVELENGTH_NM");
    reveal_strlit("TITLE");
    reveal_strlit("NAME");
    reveal_strlit("SAMPLE_NAME");
    reveal_strlit("DATE");
    reveal_strlit("CREATED");
    reveal_strlit("MEASUREMENT_TYPE");
    reveal_strlit("SPECTRUM_TYPE");
    reveal_strlit("TYPE");
    reveal_strlit("OPERATOR");
    reveal_strlit("ORIGINATOR");
    reveal_strlit("INSTRUMENT");
    reveal_strlit("INSTRUMENTATION");
    reveal_strlit("DESCRIPTION");
    reveal_strlit("FILE_DESCRIPTOR");
    reveal_strlit("COPYRIGHT");
    reveal_strlit("SURFACE");
    reveal_strlit("SAMPLE_BACKING");
    reveal_strlit("ILLUMINANT");
    reveal_strlit("OBSERVER");
    reveal_strlit("SAMPLE_ID");
    reveal_strlit("NOTES");
    reveal_strlit("NOTE");
    reveal_strlit("SOFTWARE");
    reveal_strlit("SOURCE");
    reveal_strlit("GEOMETRY");
    assert(upper_case("wavelength_nm"@) =~= "WAVELENGTH_NM"@);
    assert("WAVELENGTH_NM"@[0] != "SPECTRUM_TYPE"@[0]);
}

/// A key and value that a separator splits a line into, both non-empty and
/// the key free of the delimiter.
pub open spec fn kv_ok(k: Seq<char>, v: Seq<char>, d: char) -> bool {
    k.len() > 0 && v.len() > 0 && !k.contains(d)
}

/// The key/value pair around the first occurrence of separator `sep`.
#[verifier::opaque]
pub open spec fn kv_around(l: Seq<char>, sep: Seq<char>) -> Option<(Seq<char>, Seq<char>)> {
    match find(l, sep) {
        Some(p) => Some((trim(l.take(p)), trim(l.skip(p + sep.len())))),
        None => None,
    }
}

/// A pair is present and acceptable.
pub open spec fn kv_some_ok(r: Option<(Seq<char>, Seq<char>)>, d: char) -> bool {
    match r {
        Some((k, v)) => kv_ok(k, v, d),
        None => false,
    }
}

/// A metadata line as a key/value pair: `KEY: VALUE`, then `KEY = VALUE`,
/// then `KEY<delimiter>VALUE` for a known key; `None` for any other line.
pub open spec fn try_kv_spec(l: Seq<char>, d: char) -> Option<(Seq<char>, Seq<char>)> {
    let colon = kv_around(l, seq![':', ' ']);
    let equals = kv_around(l, seq![' ', '=', ' ']);
    if kv_some_ok(colon, d) {
        colon
    } else if kv_some_ok(equals, d) {
        equals
    } else {
        known_key_pair(l, d)
    }
}

/// `KEY<delimiter>VALUE` where the trimmed key, upper-cased, is a known key.
pub open spec fn known_key_pair(l: Seq<char>, d: char) -> Option<(Seq<char>, Seq<char>)> {
    let p = crate::text::prefix_len(l, d) as int;
    if p < l.len() && is_known_meta_key(upper_case(trim(l.take(p)))) {
        Some((trim(l.take(p)), trim(l.skip(p + 1))))
    } else {
        None
    }
}

fn known_key_pair_exec(v: &Vec<char>, delimiter: char) -> (r: Option<(Vec<char>, Vec<char>)>)
    ensures
        match r {
            Some((k, w)) => known_key_pair(v@, delimiter) == Some((k@, w@)),
            None => known_key_pair(v@, delimiter) is None,
        },
{
    let p = index_of_char(v, delimiter);
    if p < v.len() {
        let k = trim_chars(&sub_chars(v, 0, p));
        assert(v@.take(p as int) =~= v@.subrange(0, p as int));
        let ks = string_of(&k);
        let up = to_uppercase(ks.as_str());
        let upv = chars_of(up.as_str());
        if known_meta_key(&upv) {
            let w = trim_chars(&sub_chars(v, p + 1, v.len()));
            assert(v@.skip(p + 1) =~= v@.subrange(p + 1, v.len() as int));
            return Some((k, w));
        }
    }
    None
}

fn kv_around_exec(v: &Vec<char>, sep: &Vec<char>) -> (r: Option<(Vec<char>, Vec<char>)>)
    ensures
        match r {
            Some((k, w)) => kv_around(v@, sep@) == Some((k@, w@)),
            None => kv_around(v@, sep@) is None,
        },
{
    reveal(kv_around);
    match find_seq(v, sep) {
        Some(p) => {
            let k = trim_chars(&sub_chars(v, 0, p));
            let w = trim_chars(&sub_chars(v, p + sep.len(), v.len()));
            assert(v@.take(p as int) =~= v@.subrange(0, p as int));
            assert(v@.skip(p + sep.len()) =~= v@.subrange(p + sep.len(), v.len() as int));
            Some((k, w))
        },
        None => None,
    }
}

fn kv_ok_exec(k: &Vec<char>, w: &Vec<char>, d: char) -> (b: bool)
    ensures
        b == kv_ok(k@, w@, d),
{
    k.len() > 0 && w.len() > 0 && !crate::text::contains_char(k, d)
}

/// `try_kv` on characters.
pub fn try_kv_chars(v: &Vec<char>, delimiter: char) -> (r: Option<(Vec<char>, Vec<char>)>)
    ensures
        match r {
            Some((k, w)) => try_kv_spec(v@, delimiter) == Some((k@, w@)),
            None => try_kv_spec(v@, delimiter) is None,
        },
{
    let mut colon: Vec<char> = Vec::new();
    colon.push(':');
    colon.push(' ');
    assert(colon@ =~= seq![':', ' ']);
    if let Some((k, w)) = kv_around_exec(v, &colon) {
        if kv_ok_exec(&k, &w, delimiter) {
            return Some((k, w));
        }
    }
    let mut equals: Vec<char> = Vec::new();
    equals.push(' ');
    equals.push('=');
    equals.push(' ');
    assert(equals@ =~= seq![' ', '=', ' ']);
    if let Some((k, w)) = kv_around_exec(v, &equals) {
        if kv_ok_exec(&k, &w, delimiter) {
            return Some((k, w));
        }
    }
    known_key_pair_exec(v, delimiter)
}

/// A metadata line as a key/value pair: `KEY: VALUE`, `KEY = VALUE`, or
/// `KEY<delimiter>VALUE` for a recognised keyword; `None` for a line that is
/// not metadata (such as the column-header row).
pub fn try_kv(line: &str, delimiter: char) -> (r: Option<(String, String)>)
    ensures
        match r {
            Some((k, w)) => try_kv_spec(line@, delimiter) == Some((k@, w@)),
            None => try_kv_spec(line@, delimiter) is None,
        },
{
    let v = chars_of(line);
    match try_kv_chars(&v, delimiter) {
        Some((k, w)) => Some((string_of(&k), string_of(&w))),
        None => None,
    }
}

// ───────────────────────── value readers ─────────────────────────

/// The measurement type a header value names, after lowercasing: one that
/// contains `transmit`, `absorb`, `irradiance`, `radiance`, `emission` or
/// `emissive`, or `sensitivity`, or that is, trimmed, exactly one of the
/// short forms `trans`, `abs`, `irrad`, `rad`, `emiss` or `response`;
/// anything else is reflectance.
pub open spec fn measurement_type_of(s: Seq<char>) -> MeasurementType {
    let l = lower_case(s);
    let w = trim(l);
    if contains_seq(l, "transmit"@) || w == "trans"@ {
        MeasurementType::Transmittance
    } else if contains_seq(l, "absorb"@) || w == "abs"@ {
        MeasurementType::Absorbance
    } else if contains_seq(l, "irradiance"@) || w == "irrad"@ {
        MeasurementType::Irradiance
    } else if contains_seq(l, "radiance"@) || w == "rad"@ {
        MeasurementType::Radiance
    } else if contains_seq(l, "emission"@) || contains_seq(l, "emissive"@) || w == "emiss"@ {
        MeasurementType::Emission
    } else if contains_seq(l, "sensitivity"@) || w == "response"@ {
        MeasurementType::Sensitivity
    } else {
        MeasurementType::Reflectance
    }
}

/// The measurement type a `Measurement_Type` value names; full names and,
/// as the whole value, the short forms `refl`, `trans`, `abs`, `rad`,
/// `irrad`, `emiss` and `response` are recognised, and anything else is
/// reflectance.
pub fn parse_measurement_type(s: &str) -> (r: MeasurementType)
    ensures
        r == measurement_type_of(s@),
{
    let lower = to_lowercase(s);
    let l = chars_of(lower.as_str());
    let w = trim_chars(&l);
    if contains_lit(&l, "transmit") || eq_lit(&w, "trans") {
        MeasurementType::Transmittance
    } else if contains_lit(&l, "absorb") || eq_lit(&w, "abs") {
        MeasurementType::Absorbance
    } else if contains_lit(&l, "irradiance") || eq_lit(&w, "irrad") {
        MeasurementType::Irradiance
    } else if contains_lit(&l, "radiance") || eq_lit(&w, "rad") {
        MeasurementType::Radiance
    } else if contains_lit(&l, "emission") || contains_lit(&l, "emissive") || eq_lit(&w, "emiss") {
        MeasurementType::Emission
    } else if contains_lit(&l, "sensitivity") || eq_lit(&w, "response") {
        MeasurementType::Sensitivity
    } else {
        MeasurementType::Reflectance
    }
}

/// The CIE observer an `Observer` value names: one mentioning `10` is the
/// 1964 10° observer, else one mentioning `2` the 1931 2° observer.
pub open spec fn observer_of(s: Seq<char>) -> Option<Seq<char>> {
    if contains_seq(s, "10"@) {
        Some("CIE 1964 10 degree"@)
    } else if s.contains('2') {
        Some("CIE 1931 2 degree"@)
    } else {
        None
    }
}

/// The CIE observer an `Observer` value names, if any.
pub fn parse_observer(s: &str) -> (r: Option<String>)
    ensures
        r.deep_view() == observer_of(s@),
{
    let v = chars_of(s);
    if contains_lit(&v, "10") {
        Some(string_of(&chars_of("CIE 1964 10 degree")))
    } else if crate::text::contains_char(&v, '2') {
        Some(string_of(&chars_of("CIE 1931 2 degree")))
    } else {
        None
    }
}

/// The name written for a measurement type.
pub fn measurement_type_str(mt: MeasurementType) -> (r: &'static str)
    ensures
        r@ == measurement_type_name(mt),
{
    match mt {
        MeasurementType::Reflectance => "reflectance",
        MeasurementType::Transmittance => "transmittance",
        MeasurementType::Absorbance => "absorbance",
        MeasurementType::Radiance => "radiance",
        MeasurementType::Irradiance => "irradiance",
        MeasurementType::Emission => "emission",
        MeasurementType::Sensitivity => "sensitivity",
    }
}

// ───────────────────────── header metadata ─────────────────────────

/// Metadata gathered from the header block.  `custom` holds the values of
/// unrecognised keys under their lowercased names.
pub struct CsvMeta {
    pub title: Option<String>,
    pub date: String,
    pub measurement_type: MeasurementType,
    pub operator: Option<String>,
    pub instrument_model: Option<String>,
    pub description: Option<String>,
    pub copyright: Option<String>,
    pub surface: Option<String>,
    pub sample_backing: Option<String>,
    pub sample_id: Option<String>,
    pub illuminant: Option<String>,
    pub observer: Option<String>,
    pub notes: Option<String>,
    pub custom: CustomMap,
}

pub struct CsvMetaV {
    pub title: Option<Seq<char>>,
    pub date: Seq<char>,
    pub measurement_type: MeasurementType,
    pub operator: Option<Seq<char>>,
    pub instrument_model: Option<Seq<char>>,
    pub description: Option<Seq<char>>,
    pub copyright: Option<Seq<char>>,
    pub surface: Option<Seq<char>>,
    pub sample_backing: Option<Seq<char>>,
    pub sample_id: Option<Seq<char>>,
    pub illuminant: Option<Seq<char>>,
    pub observer: Option<Seq<char>>,
    pub notes: Option<Seq<char>>,
    pub custom: Map<Seq<char>, Option<Seq<char>>>,
}

impl View for CsvMeta {
    type V = CsvMetaV;

    open spec fn view(&self) -> CsvMetaV {
        CsvMetaV {
            title: self.title.deep_view(),
            date: self.date@,
            measurement_type: self.measurement_type,
            operator: self.operator.deep_view(),
            instrument_model: self.instrument_model.deep_view(),
            description: self.description.deep_view(),
            copyright: self.copyright.deep_view(),
            surface: self.surface.deep_view(),
            sample_backing: self.sample_backing.deep_view(),
            sample_id: self.sample_id.deep_view(),
            illuminant: self.illuminant.deep_view(),
            observer: self.observer.deep_view(),
            notes: self.notes.deep_view(),
            custom: custom_entries(self.custom),
        }
    }
}

/// Metadata before any header line: dated 1970-01-01, reflectance.
pub open spec fn default_meta() -> CsvMetaV {
    CsvMetaV {
        title: None,
        date: "1970-01-01"@,
        measurement_type: MeasurementType::Reflectance,
        operator: None,
        instrument_model: None,
        description: None,
        copyright: None,
        surface: None,
        sample_backing: None,
        sample_id: None,
        illuminant: None,
        observer: None,
        notes: None,
        custom: Map::empty(),
    }
}

impl CsvMeta {
    /// Metadata before any header line.
    pub fn new() -> (m: CsvMeta)
        ensures
            m@ == default_meta(),
    {
        let m = CsvMeta {
            title: None,
            date: string_of(&chars_of("1970-01-01")),
            measurement_type: MeasurementType::Reflectance,
            operator: None,
            instrument_model: None,
            description: None,
            copyright: None,
            surface: None,
            sample_backing: None,
            sample_id: None,
            illuminant: None,
            observer: None,
            notes: None,
            custom: custom_new(),
        };
        m
    }
}

/// A lowercased key that names the date.
pub open spec fn is_date_key(lk: Seq<char>) -> bool {
    lk == "date"@ || lk == "created"@
}

/// The metadata after one header pair, matched by its lowercased key.
pub open spec fn apply_kv_spec(m: CsvMetaV, k: Seq<char>, v: Seq<char>) -> CsvMetaV {
    let lk = lower_case(k);
    if lk == "title"@ || lk == "name"@ || lk == "sample_name"@ {
        CsvMetaV { title: Some(v), ..m }
    } else if is_date_key(lk) {
        match parse_date_spec(v) {
            Some(d) => CsvMetaV { date: d, ..m },
            None => m,
        }
    } else if lk == "measurement_type"@ || lk == "spectrum_type"@ || lk == "type"@ {
        CsvMetaV { measurement_type: measurement_type_of(v), ..m }
    } else if lk == "operator"@ || lk == "originator"@ {
        CsvMetaV { operator: Some(v), ..m }
    } else if lk == "instrument"@ || lk == "instrumentation"@ {
        CsvMetaV { instrument_model: Some(v), ..m }
    } else if lk == "description"@ || lk == "file_descriptor"@ {
        CsvMetaV { description: Some(v), ..m }
    } else if lk == "copyright"@ {
        CsvMetaV { copyright: Some(v), ..m }
    } else if lk == "surface"@ {
        CsvMetaV { surface: Some(v), ..m }
    } else if lk == "sample_backing"@ {
        CsvMetaV { sample_backing: Some(v), ..m }
    } else if lk == "sample_id"@ {
        CsvMetaV { sample_id: Some(v), ..m }
    } else if lk == "illuminant"@ {
        CsvMetaV { illuminant: Some(v), ..m }
    } else if lk == "observer"@ {
        CsvMetaV { observer: Some(v), ..m }
    } else if lk == "notes"@ || lk == "note"@ {
        CsvMetaV { notes: Some(v), ..m }
    } else {
        CsvMetaV { custom: m.custom.insert(lk, Some(v)), ..m }
    }
}

/// Applies one header key/value pair to the metadata: recognised keys
/// (case-insensitive) set their field, and any other key is kept in
/// `custom` under its lowercased name.
pub fn apply_kv(key: &str, value: &str, meta: &mut CsvMeta)
    ensures
        final(meta)@ == apply_kv_spec(old(meta)@, key@, value@),
{
    let lower = to_lowercase(key);
    let lk = chars_of(lower.as_str());
    let v = chars_of(value);
    if eq_lit(&lk, "title") || eq_lit(&lk, "name") || eq_lit(&lk, "sample_name") {
        meta.title = crate::model::some_string(&v);
    } else if eq_lit(&lk, "date") || eq_lit(&lk, "created") {
        match parse_date_chars(&v) {
            DateParse::Date(d) => {
                meta.date = string_of(&d);
            },
            _ => {},
        }
    } else if eq_lit(&lk, "measurement_type") || eq_lit(&lk, "spectrum_type") || eq_lit(&lk, "type") {
        meta.measurement_type = parse_measurement_type(value);
    } else if eq_lit(&lk, "operator") || eq_lit(&lk, "originator") {
        meta.operator = crate::model::some_string(&v);
    } else if eq_lit(&lk, "instrument") || eq_lit(&lk, "instrumentation") {
        meta.instrument_model = crate::model::some_string(&v);
    } else if eq_lit(&lk, "description") || eq_lit(&lk, "file_descriptor") {
        meta.description = crate::model::some_string(&v);
    } else if eq_lit(&lk, "copyright") {
        meta.copyright = crate::model::some_string(&v);
    } else if eq_lit(&lk, "surface") {
        meta.surface = crate::model::some_string(&v);
    } else if eq_lit(&lk, "sample_backing") {
        meta.sample_backing = crate::model::some_string(&v);
    } else if eq_lit(&lk, "sample_id") {
        meta.sample_id = crate::model::some_string(&v);
    } else if eq_lit(&lk, "illuminant") {
        meta.illuminant = crate::model::some_string(&v);
    } else if eq_lit(&lk, "observer") {
        meta.observer = crate::model::some_string(&v);
    } else if eq_lit(&lk, "notes") || eq_lit(&lk, "note") {
        meta.notes = crate::model::some_string(&v);
    } else {
        custom_insert(&mut meta.custom, string_of(&lk), string_of(&v));
    }
}

/// The header block folded line by line: a metadata line is applied to the
/// metadata, and any other line with two or more fields becomes the
/// column-header row (the last such line wins).  `None` when a date value's
/// ten-byte prefix would end inside a character.
pub open spec fn pre_data_go(ls: Seq<Seq<char>>, d: char) -> Option<(CsvMetaV, Option<Seq<Seq<char>>>)>
    decreases ls.len(),
{
    if ls.len() == 0 {
        Some((default_meta(), None))
    } else {
        match pre_data_go(ls.drop_last(), d) {
            None => None,
            Some((m, h)) => {
                let l = ls.last();
                match try_kv_spec(l, d) {
                    Some((k, v)) => if is_date_key(lower_case(k)) && date_slice_panics(v) {
                        None
                    } else {
                        Some((apply_kv_spec(m, k, v), h))
                    },
                    None => {
                        let f = split_fields_spec(l, d);
                        if f.len() >= 2 {
                            Some((m, Some(f)))
                        } else {
                            Some((m, h))
                        }
                    },
                }
            },
        }
    }
}

/// The header block: its metadata and the optional column-header row.
pub fn parse_pre_data(pre_data: &Vec<String>, delimiter: char) -> (r: Result<
    (CsvMeta, Option<Vec<String>>),
    ImportError,
>)
    ensures
        match r {
            Ok((m, h)) => pre_data_go(pre_data.deep_view(), delimiter) == Some((m@, h.deep_view())),
            Err(e) => pre_data_go(pre_data.deep_view(), delimiter) is None && e@
                == ImportErrorV::DateSliceInsideChar,
        },
{
    let ghost ls = pre_data.deep_view();
    let mut meta = CsvMeta::new();
    let mut col_headers: Option<Vec<String>> = None;
    let mut i: usize = 0;
    assert(ls.take(0) =~= Seq::<Seq<char>>::empty());
    while i < pre_data.len()
        invariant
            0 <= i <= pre_data.len(),
            ls == pre_data.deep_view(),
            pre_data_go(ls.take(i as int), delimiter) == Some((meta@, col_headers.deep_view())),
        decreases pre_data.len() - i,
    {
        let line = pre_data[i].as_str();
        assert(ls.take(i + 1).drop_last() =~= ls.take(i as int));
        assert(ls.take(i + 1).last() == line@);
        match try_kv(line, delimiter) {
            Some((key, value)) => {
                let lower = to_lowercase(key.as_str());
                let lk = chars_of(lower.as_str());
                if (eq_lit(&lk, "date") || eq_lit(&lk, "created")) && !crate::date::date_slice_ok(
                    value.as_str(),
                ) {
                    proof {
                        lemma_pre_data_none(ls, delimiter, i + 1);
                    }
                    return Err(ImportError::DateSliceInsideChar);
                }
                apply_kv(key.as_str(), value.as_str(), &mut meta);
            },
            None => {
                let fields = split_fields(line, delimiter);
                if fields.len() >= 2 {
                    col_headers = Some(fields);
                }
            },
        }
        i = i + 1;
    }
    assert(ls.take(pre_data.len() as int) =~= ls);
    Ok((meta, col_headers))
}

proof fn lemma_pre_data_none(ls: Seq<Seq<char>>, d: char, i: int)
    requires
        0 < i <= ls.len(),
        pre_data_go(ls.take(i), d) is None,
    ensures
        pre_data_go(ls, d) is None,
    decreases ls.len() - i,
{
    if i < ls.len() {
        assert(ls.take(i + 1).drop_last() =~= ls.take(i));
        lemma_pre_data_none(ls, d, i + 1);
    } else {
        assert(ls.take(i) =~= ls);
    }
}

// ───────────────────────── data block ─────────────────────────

/// Not blank, and not a `#` comment.
pub open spec fn is_meaningful(l: Seq<char>) -> bool {
    let t = trim(l);
    t.len() > 0 && t[0] != '#'
}

/// The lines that are not blank and not comments.
pub open spec fn meaningful(ls: Seq<Seq<char>>) -> Seq<Seq<char>>
    decreases ls.len(),
{
    if ls.len() == 0 {
        seq![]
    } else {
        let r = meaningful(ls.drop_last());
        if is_meaningful(ls.last()) {
            r.push(ls.last())
        } else {
            r
        }
    }
}

/// The line's first cell parses as a number.
pub open spec fn is_data_line(l: Seq<char>, d: char) -> bool {
    is_float_literal(trim(before_char(l, d)))
}

/// Index of the first data line, if any.
pub open spec fn data_start(ls: Seq<Seq<char>>, d: char) -> Option<int> {
    if exists|i: int| 0 <= i < ls.len() && is_data_line(ls[i], d) {
        Some(
            choose|i: int|
                0 <= i < ls.len() && is_data_line(ls[i], d) && forall|j: int|
                    0 <= j < i ==> !is_data_line(ls[j], d),
        )
    } else {
        None
    }
}

/// Fields whose first field parses as a number.
pub open spec fn is_data_row(f: Seq<Seq<char>>) -> bool {
    f.len() > 0 && is_float_literal(f[0])
}

/// The fields of the data lines whose first field parses as a number.
pub open spec fn data_rows(ls: Seq<Seq<char>>, d: char) -> Seq<Seq<Seq<char>>>
    decreases ls.len(),
{
    if ls.len() == 0 {
        seq![]
    } else {
        let r = data_rows(ls.drop_last(), d);
        let f = split_fields_spec(ls.last(), d);
        if is_data_row(f) {
            r.push(f)
        } else {
            r
        }
    }
}

/// The value token of field `j`: present when it parses as a number, absent
/// (not a number) otherwise, and absent when the row is short.
pub open spec fn cell(r: Seq<Seq<char>>, j: int) -> Option<Seq<char>> {
    if 0 <= j < r.len() && is_float_literal(r[j]) {
        Some(r[j])
    } else {
        None
    }
}

/// Number of data columns: fields after the wavelength in the first row.
pub open spec fn n_columns(rows: Seq<Seq<Seq<char>>>) -> nat {
    if rows.len() > 0 && rows[0].len() > 0 {
        (rows[0].len() - 1) as nat
    } else {
        0
    }
}

/// Data column `c` (the field after the wavelength is column 0).
pub open spec fn column(rows: Seq<Seq<Seq<char>>>, c: int) -> Seq<Option<Seq<char>>> {
    rows.map_values(|r: Seq<Seq<char>>| cell(r, c + 1))
}

/// The wavelength tokens, one per data row.
pub open spec fn wavelength_tokens(rows: Seq<Seq<Seq<char>>>) -> Seq<Seq<char>> {
    rows.map_values(|r: Seq<Seq<char>>| r[0])
}

/// The lines of the text that are not blank and not comments.
pub fn meaningful_lines(input: &str) -> (r: Vec<String>)
    ensures
        r.deep_view() == meaningful(crate::text::lines(input@)),
{
    let all = crate::text::split_lines(input);
    let ghost ls = all.deep_view();
    let mut r: Vec<String> = Vec::new();
    let mut i: usize = 0;
    assert(ls.take(0) =~= Seq::<Seq<char>>::empty());
    assert(r.deep_view() =~= Seq::<Seq<char>>::empty());
    while i < all.len()
        invariant
            0 <= i <= all.len(),
            ls == all.deep_view(),
            r.deep_view() == meaningful(ls.take(i as int)),
        decreases all.len() - i,
    {
        assert(ls.take(i + 1).drop_last() =~= ls.take(i as int));
        let v = chars_of(all[i].as_str());
        assert(ls.take(i + 1).last() == v@);
        let t = trim_chars(&v);
        if t.len() > 0 && t[0] != '#' {
            let ghost old_r = r.deep_view();
            r.push(all[i].clone());
            assert(r.deep_view() =~= old_r.push(v@));
        }
        i = i + 1;
    }
    assert(ls.take(all.len() as int) =~= ls);
    r
}

fn find_data_start(ls: &Vec<String>, d: char) -> (r: Option<usize>)
    ensures
        match r {
            Some(k) => k < ls.len() && data_start(ls.deep_view(), d) == Some(k as int),
            None => data_start(ls.deep_view(), d) is None,
        },
{
    let ghost lv = ls.deep_view();
    let mut i: usize = 0;
    while i < ls.len()
        invariant
            0 <= i <= ls.len(),
            lv == ls.deep_view(),
            forall|j: int| 0 <= j < i ==> !is_data_line(lv[j], d),
        decreases ls.len() - i,
    {
        let f = first_field(ls[i].as_str(), d);
        let fv = chars_of(f.as_str());
        assert(lv[i as int] == ls[i as int]@);
        if parses_as_float(&fv) {
            proof {
                let w = choose|j: int|
                    0 <= j < lv.len() && is_data_line(lv[j], d) && forall|m: int|
                        0 <= m < j ==> !is_data_line(lv[m], d);
                if w < i {
                } else if w > i {
                }
            }
            return Some(i);
        }
        i = i + 1;
    }
    None
}

fn cell_exec(r: &Vec<String>, j: usize) -> (c: Option<String>)
    ensures
        c.deep_view() == cell(r.deep_view(), j as int),
{
    if j < r.len() {
        let v = chars_of(r[j].as_str());
        assert(r.deep_view()[j as int] == v@);
        if parses_as_float(&v) {
            return Some(r[j].clone());
        }
    }
    None
}

/// The data block: its rows of fields whose first field parses as a number.
pub fn parse_data_rows(data_lines: &Vec<String>, delimiter: char) -> (rows: Vec<Vec<String>>)
    ensures
        rows.deep_view() == data_rows(data_lines.deep_view(), delimiter),
{
    let ghost ls = data_lines.deep_view();
    let mut rows: Vec<Vec<String>> = Vec::new();
    let mut i: usize = 0;
    assert(ls.take(0) =~= Seq::<Seq<char>>::empty());
    assert(rows.deep_view() =~= Seq::<Seq<Seq<char>>>::empty());
    while i < data_lines.len()
        invariant
            0 <= i <= data_lines.len(),
            ls == data_lines.deep_view(),
            rows.deep_view() == data_rows(ls.take(i as int), delimiter),
        decreases data_lines.len() - i,
    {
        assert(ls.take(i + 1).drop_last() =~= ls.take(i as int));
        assert(ls.take(i + 1).last() == data_lines[i as int]@);
        let fields = split_fields(data_lines[i].as_str(), delimiter);
        if fields.len() > 0 {
            let f0 = chars_of(fields[0].as_str());
            assert(fields.deep_view()[0] == f0@);
            if parses_as_float(&f0) {
                let ghost old_r = rows.deep_view();
                let ghost fv = fields.deep_view();
                rows.push(fields);
                assert(rows.deep_view() =~= old_r.push(fv));
            }
        }
        i = i + 1;
    }
    assert(ls.take(data_lines.len() as int) =~= ls);
    rows
}

/// The wavelength tokens and the data columns of the rows.
pub fn rows_to_columns(rows: &Vec<Vec<String>>) -> (r: (Vec<String>, Vec<Vec<Option<String>>>))
    requires
        forall|i: int| 0 <= i < rows.len() ==> is_data_row(#[trigger] rows.deep_view()[i]),
    ensures
        r.0.deep_view() == wavelength_tokens(rows.deep_view()),
        r.1.len() == n_columns(rows.deep_view()),
        forall|c: int|
            0 <= c < r.1.len() ==> #[trigger] r.1[c].deep_view() == column(rows.deep_view(), c),
{
    let ghost rv = rows.deep_view();
    let mut wls: Vec<String> = Vec::new();
    let mut i: usize = 0;
    while i < rows.len()
        invariant
            0 <= i <= rows.len(),
            rv == rows.deep_view(),
            forall|k: int| 0 <= k < rows.len() ==> is_data_row(#[trigger] rv[k]),
            wls.deep_view() == wavelength_tokens(rv).take(i as int),
        decreases rows.len() - i,
    {
        assert(rv[i as int] == rows[i as int].deep_view());
        assert(is_data_row(rv[i as int]));
        let ghost old_w = wls.deep_view();
        let x = rows[i][0].clone();
        assert(x@ == rv[i as int][0]);
        wls.push(x);
        assert(wls.deep_view() =~= old_w.push(x@));
        assert(wavelength_tokens(rv).take(i + 1) =~= wavelength_tokens(rv).take(i as int).push(
            rv[i as int][0],
        ));
        i = i + 1;
    }
    assert(wavelength_tokens(rv).take(rows.len() as int) =~= wavelength_tokens(rv));
    let n: usize = if rows.len() > 0 && rows[0].len() > 0 {
        rows[0].len() - 1
    } else {
        0
    };
    assert(n == n_columns(rv)) by {
        if rows.len() > 0 {
            assert(rv[0].len() == rows[0].len());
        }
    }
    let mut cols: Vec<Vec<Option<String>>> = Vec::new();
    let mut c: usize = 0;
    while c < n
        invariant
            0 <= c <= n,
            n == n_columns(rv),
            rv == rows.deep_view(),
            cols.len() == c,
            forall|k: int| 0 <= k < c ==> #[trigger] cols[k].deep_view() == column(rv, k),
        decreases n - c,
    {
        let mut col: Vec<Option<String>> = Vec::new();
        let mut j: usize = 0;
        while j < rows.len()
            invariant
                0 <= j <= rows.len(),
                c < n,
                rv == rows.deep_view(),
                col.deep_view() == column(rv, c as int).take(j as int),
            decreases rows.len() - j,
        {
            assert(rv[j as int] == rows[j as int].deep_view());
            let x = cell_exec(&rows[j], c + 1);
            let ghost old_c = col.deep_view();
            let ghost xv = x.deep_view();
            col.push(x);
            assert(col.deep_view() =~= old_c.push(xv));
            assert(column(rv, c as int).take(j + 1) =~= column(rv, c as int).take(j as int).push(
                cell(rv[j as int], c + 1),
            ));
            j = j + 1;
        }
        assert(column(rv, c as int).take(rows.len() as int) =~= column(rv, c as int));
        cols.push(col);
        c = c + 1;
    }
    (wls, cols)
}

/// Data lines are rows whose first field parses as a number.
proof fn lemma_data_rows_are_data(ls: Seq<Seq<char>>, d: char)
    ensures
        forall|i: int|
            0 <= i < data_rows(ls, d).len() ==> is_data_row(#[trigger] data_rows(ls, d)[i]),
    decreases ls.len(),
{
    if ls.len() > 0 {
        lemma_data_rows_are_data(ls.drop_last(), d);
        let r = data_rows(ls.drop_last(), d);
        assert forall|i: int| 0 <= i < data_rows(ls, d).len() implies is_data_row(
            #[trigger] data_rows(ls, d)[i],
        ) by {
            if i < r.len() {
                assert(data_rows(ls, d)[i] == r[i]);
            }
        }
    }
}

// ───────────────────────── reading a file ─────────────────────────

/// A delimited file read into its delimiter, header metadata, optional
/// column-header row, wavelength tokens and data columns.
pub struct CsvTable {
    pub delimiter: char,
    pub meta: CsvMeta,
    pub col_headers: Option<Vec<String>>,
    pub wavelengths: Vec<String>,
    pub columns: Vec<Vec<Option<String>>>,
}

/// The structure of a delimited file: its delimiter, header metadata,
/// column-header row and data rows; or the error it gives.
pub open spec fn table_outcome(s: Seq<char>) -> Result<
    (char, CsvMetaV, Option<Seq<Seq<char>>>, Seq<Seq<Seq<char>>>),
    ImportErrorV,
> {
    let ml = meaningful(crate::text::lines(s));
    if ml.len() == 0 {
        Err(ImportErrorV::SchemaValidation("CSV/TSV: file contains no data"@))
    } else {
        let d = detect_delimiter_spec(ml);
        match data_start(ml, d) {
            None => Err(
                ImportErrorV::SchemaValidation(
                    "CSV/TSV: no data rows found (no line whose first cell is a number)"@,
                ),
            ),
            Some(k) => match pre_data_go(ml.take(k), d) {
                None => Err(ImportErrorV::DateSliceInsideChar),
                Some((m, h)) => {
                    let rows = data_rows(ml.skip(k), d);
                    if rows.len() < 2 {
                        Err(
                            ImportErrorV::SchemaValidation(
                                "CSV/TSV: at least 2 wavelength rows are required"@,
                            ),
                        )
                    } else {
                        Ok((d, m, h, rows))
                    }
                },
            },
        }
    }
}

/// The table holds what `table_outcome` gives.
pub open spec fn table_matches(
    t: CsvTable,
    d: char,
    m: CsvMetaV,
    h: Option<Seq<Seq<char>>>,
    rows: Seq<Seq<Seq<char>>>,
) -> bool {
    &&& t.delimiter == d
    &&& t.meta@ == m
    &&& t.col_headers.deep_view() == h
    &&& t.wavelengths.deep_view() == wavelength_tokens(rows)
    &&& t.columns.len() == n_columns(rows)
    &&& forall|c: int| 0 <= c < t.columns.len() ==> #[trigger] t.columns[c].deep_view() == column(rows, c)
}

/// Reads a delimited spectral text into its table: blank and `#` lines are
/// dropped, the delimiter is detected, the first line whose first cell is a
/// number starts the data block, the lines before it are the header block.
/// At least two data rows are required.
pub fn csv_parse_table(input: &str) -> (r: Result<CsvTable, ImportError>)
    ensures
        match r {
            Ok(t) => match table_outcome(input@) {
                Ok((d, m, h, rows)) => table_matches(t, d, m, h, rows),
                Err(_) => false,
            },
            Err(e) => table_outcome(input@) == Err::<
                (char, CsvMetaV, Option<Seq<Seq<char>>>, Seq<Seq<Seq<char>>>),
                ImportErrorV,
            >(e@),
        },
{
    let meaningful = meaningful_lines(input);
    if meaningful.len() == 0 {
        return Err(schema_error("CSV/TSV: file contains no data"));
    }
    let delimiter = detect_delimiter(&meaningful);
    let start = match find_data_start(&meaningful, delimiter) {
        Some(k) => k,
        None => {
            return Err(
                schema_error("CSV/TSV: no data rows found (no line whose first cell is a number)"),
            );
        },
    };
    let ghost ml = meaningful.deep_view();
    let mut pre: Vec<String> = Vec::new();
    let mut data: Vec<String> = Vec::new();
    let mut i: usize = 0;
    while i < meaningful.len()
        invariant
            0 <= i <= meaningful.len(),
            start < meaningful.len(),
            ml == meaningful.deep_view(),
            i <= start ==> pre.deep_view() == ml.take(i as int) && data.len() == 0,
            i > start ==> pre.deep_view() == ml.take(start as int) && data.deep_view() == ml.subrange(
                start as int,
                i as int,
            ),
        decreases meaningful.len() - i,
    {
        let l = meaningful[i].clone();
        if i < start {
            let ghost o = pre.deep_view();
            pre.push(l);
            assert(pre.deep_view() =~= o.push(ml[i as int]));
            assert(ml.take(i + 1) =~= ml.take(i as int).push(ml[i as int]));
        } else {
            let ghost o = data.deep_view();
            data.push(l);
            assert(data.deep_view() =~= o.push(ml[i as int]));
            assert(ml.subrange(start as int, i + 1) =~= ml.subrange(start as int, i as int).push(
                ml[i as int],
            ));
            if i == start {
                assert(o =~= Seq::<Seq<char>>::empty());
            }
        }
        i = i + 1;
    }
    assert(data.deep_view() =~= ml.skip(start as int));
    let (meta, col_headers) = match parse_pre_data(&pre, delimiter) {
        Ok(x) => x,
        Err(e) => {
            return Err(e);
        },
    };
    let rows = parse_data_rows(&data, delimiter);
    if rows.len() < 2 {
        return Err(schema_error("CSV/TSV: at least 2 wavelength rows are required"));
    }
    proof {
        lemma_data_rows_are_data(data.deep_view(), delimiter);
    }
    let (wavelengths, columns) = rows_to_columns(&rows);
    Ok(CsvTable { delimiter, meta, col_headers, wavelengths, columns })
}

// ───────────────────────── records ─────────────────────────

/// The trimmed, non-empty entries, in order.
pub open spec fn nonempty_trimmed(h: Seq<Seq<char>>) -> Seq<Seq<char>>
    decreases h.len(),
{
    if h.len() == 0 {
        seq![]
    } else {
        let r = nonempty_trimmed(h.drop_last());
        if trim(h.last()).len() > 0 {
            r.push(trim(h.last()))
        } else {
            r
        }
    }
}

/// The identifier given to the `k`-th column that has no name.
pub open spec fn auto_id(k: nat) -> Seq<char> {
    "spectrum_"@ + decimal(k)
}

/// The identifiers of `n` columns: the non-empty names of the header row
/// after the wavelength label, completed with `spectrum_<k>` for the
/// remaining columns (`k` counting from 1 over all columns).
pub open spec fn record_ids(h: Option<Seq<Seq<char>>>, n: nat) -> Seq<Seq<char>> {
    let base = match h {
        Some(hs) => if hs.len() > 0 {
            nonempty_trimmed(hs.skip(1))
        } else {
            seq![]
        },
        None => seq![],
    };
    if base.len() >= n {
        base.take(n as int)
    } else {
        base + Seq::new((n - base.len()) as nat, |j: int| auto_id((base.len() + j + 1) as nat))
    }
}

/// The illuminant of a header value: its upper-case form when that is an
/// illuminant code of the format.
pub open spec fn csv_illuminant(v: Option<Seq<char>>) -> Option<Seq<char>> {
    match v {
        Some(s) => if crate::model::is_allowed_illuminant(upper_case(s)) {
            Some(upper_case(s))
        } else {
            None
        },
        None => None,
    }
}

pub open spec fn opt_observer(v: Option<Seq<char>>) -> Option<Seq<char>> {
    match v {
        Some(s) => observer_of(s),
        None => None,
    }
}

pub open spec fn opt_str_view(s: Option<&str>) -> Option<Seq<char>> {
    match s {
        Some(x) => Some(x@),
        None => None,
    }
}

/// The record of one data column with identifier `id`.
pub open spec fn build_record_spec(id: Seq<char>, m: CsvMetaV, source: Option<Seq<char>>) -> RecordHeadV {
    let ill = csv_illuminant(m.illuminant);
    let obs = opt_observer(m.observer);
    RecordHeadV {
        id: id,
        measurement_type: m.measurement_type,
        date: m.date,
        title: m.title,
        description: m.description,
        sample_id: m.sample_id,
        operator: m.operator,
        instrument: match m.instrument_model {
            Some(x) => Some(
                InstrumentV {
                    manufacturer: None,
                    model: Some(x),
                    serial_number: None,
                    detector_type: None,
                    light_source: None,
                },
            ),
            None => None,
        },
        conditions: None,
        surface: m.surface,
        sample_backing: m.sample_backing,
        copyright: m.copyright,
        custom: m.custom,
        color_science: if ill is Some || obs is Some {
            Some(crate::model::ColorScienceHeadV { illuminant: ill, cie_observer: obs })
        } else {
            None
        },
        provenance: crate::model::ProvenanceHeadV {
            software: None,
            software_version: None,
            source_file: source,
            source_format: Some("CSV/TSV"@),
            notes: m.notes,
        },
    }
}

fn opt_str_to_string(s: Option<&str>) -> (r: Option<String>)
    ensures
        r.deep_view() == opt_str_view(s),
{
    match s {
        Some(x) => Some(string_of(&chars_of(x))),
        None => None,
    }
}

/// The record of one data column: the header metadata, with the instrument
/// model, a recognised illuminant (upper-cased) and observer, and the source
/// recorded as CSV/TSV.
pub fn build_record(id: String, meta: &CsvMeta, source_file: Option<&str>) -> (r: RecordHead)
    ensures
        r@ == build_record_spec(id@, meta@, opt_str_view(source_file)),
{
    let instrument = match &meta.instrument_model {
        Some(m) => Some(
            Instrument {
                manufacturer: None,
                model: Some(m.clone()),
                serial_number: None,
                detector_type: None,
                light_source: None,
            },
        ),
        None => None,
    };
    let illuminant = match &meta.illuminant {
        Some(s) => {
            let up = to_uppercase(s.as_str());
            let upv = chars_of(up.as_str());
            if crate::model::allowed_illuminant(&upv) {
                Some(up)
            } else {
                None
            }
        },
        None => None,
    };
    let observer = match &meta.observer {
        Some(s) => parse_observer(s.as_str()),
        None => None,
    };
    let color_science = if illuminant.is_some() || observer.is_some() {
        Some(crate::model::ColorScienceHead { illuminant, cie_observer: observer })
    } else {
        None
    };
    RecordHead {
        id,
        measurement_type: meta.measurement_type,
        date: meta.date.clone(),
        title: crate::model::clone_opt(&meta.title),
        description: crate::model::clone_opt(&meta.description),
        sample_id: crate::model::clone_opt(&meta.sample_id),
        operator: crate::model::clone_opt(&meta.operator),
        instrument,
        conditions: None,
        surface: crate::model::clone_opt(&meta.surface),
        sample_backing: crate::model::clone_opt(&meta.sample_backing),
        copyright: crate::model::clone_opt(&meta.copyright),
        custom: custom_clone(&meta.custom),
        color_science,
        provenance: crate::model::ProvenanceHead {
            software: None,
            software_version: None,
            source_file: opt_str_to_string(source_file),
            source_format: Some(string_of(&chars_of("CSV/TSV"))),
            notes: crate::model::clone_opt(&meta.notes),
        },
    }
}

fn base_ids(h: &Option<Vec<String>>) -> (r: Vec<String>)
    ensures
        r.deep_view() == match h.deep_view() {
            Some(hs) => if hs.len() > 0 {
                nonempty_trimmed(hs.skip(1))
            } else {
                seq![]
            },
            None => seq![],
        },
{
    let mut r: Vec<String> = Vec::new();
    match h {
        Some(hs) => {
            let ghost hv = hs.deep_view();
            if hs.len() == 0 {
                assert(r.deep_view() =~= Seq::<Seq<char>>::empty());
                return r;
            }
            let mut i: usize = 1;
            assert(hv.skip(1).take(0) =~= Seq::<Seq<char>>::empty());
            assert(r.deep_view() =~= Seq::<Seq<char>>::empty());
            while i < hs.len()
                invariant
                    1 <= i <= hs.len(),
                    hv == hs.deep_view(),
                    r.deep_view() == nonempty_trimmed(hv.skip(1).take(i - 1)),
                decreases hs.len() - i,
            {
                let t = trim_chars(&chars_of(hs[i].as_str()));
                assert(hv.skip(1).take(i as int).drop_last() =~= hv.skip(1).take(i - 1));
                assert(hv.skip(1).take(i as int).last() == hs[i as int]@);
                if t.len() > 0 {
                    let ghost o = r.deep_view();
                    r.push(string_of(&t));
                    assert(r.deep_view() =~= o.push(t@));
                }
                i = i + 1;
            }
            assert(hv.skip(1).take(hs.len() - 1) =~= hv.skip(1));
            r
        },
        None => {
            assert(r.deep_view() =~= Seq::<Seq<char>>::empty());
            r
        },
    }
}

/// The identifiers of the `n` data columns.
pub fn record_ids_exec(h: &Option<Vec<String>>, n: usize) -> (r: Vec<String>)
    ensures
        r.deep_view() == record_ids(h.deep_view(), n as nat),
{
    let base = base_ids(h);
    let ghost bv = base.deep_view();
    let mut r: Vec<String> = Vec::new();
    let mut i: usize = 0;
    let m = if base.len() < n {
        base.len()
    } else {
        n
    };
    while i < m
        invariant
            0 <= i <= m,
            m <= base.len(),
            m <= n,
            bv == base.deep_view(),
            r.deep_view() == bv.take(i as int),
        decreases m - i,
    {
        let ghost o = r.deep_view();
        r.push(base[i].clone());
        assert(r.deep_view() =~= o.push(bv[i as int]));
        assert(bv.take(i + 1) =~= bv.take(i as int).push(bv[i as int]));
        i = i + 1;
    }
    if base.len() >= n {
        return r;
    }
    let ghost pad = Seq::new((n - bv.len()) as nat, |j: int| auto_id((bv.len() + j + 1) as nat));
    assert(bv.take(m as int) =~= bv);
    while r.len() < n
        invariant
            bv.len() <= r.len() <= n,
            bv.len() < n,
            pad == Seq::new((n - bv.len()) as nat, |j: int| auto_id((bv.len() + j + 1) as nat)),
            r.deep_view() == bv + pad.take(r.len() - bv.len()),
        decreases n - r.len(),
    {
        let k = r.len() + 1;
        let mut id = chars_of("spectrum_");
        let num = decimal_chars(k as u128);
        crate::text::append_chars(&mut id, &num);
        let ghost o = r.deep_view();
        let ghost j = r.len() - bv.len();
        assert(pad[j] == auto_id(k as nat));
        r.push(string_of(&id));
        assert(r.deep_view() =~= o.push(id@));
        assert(pad.take(j + 1) =~= pad.take(j).push(pad[j]));
    }
    assert(pad.take(n - bv.len()) =~= pad);
    r
}

/// One record per data column, identified by the column-header row or by
/// `spectrum_<k>`; an error when the file has no data column.
pub fn csv_build_records(table: &CsvTable, source_file: Option<&str>) -> (r: Result<
    Vec<RecordHead>,
    ImportError,
>)
    ensures
        match r {
            Ok(v) => table.columns.len() > 0 && v.len() == table.columns.len() && forall|j: int|
                0 <= j < v.len() ==> (#[trigger] v[j])@ == build_record_spec(
                    record_ids(table.col_headers.deep_view(), table.columns.len() as nat)[j],
                    table.meta@,
                    opt_str_view(source_file),
                ),
            Err(e) => table.columns.len() == 0 && e@ == ImportErrorV::SchemaValidation(
                "CSV/TSV: no spectral data columns found (need at least 2 columns)"@,
            ),
        },
{
    let n = table.columns.len();
    if n == 0 {
        return Err(schema_error("CSV/TSV: no spectral data columns found (need at least 2 columns)"));
    }
    let ids = record_ids_exec(&table.col_headers, n);
    let ghost iv = ids.deep_view();
    assert(iv.len() == n);
    let mut out: Vec<RecordHead> = Vec::new();
    let mut j: usize = 0;
    while j < n
        invariant
            0 <= j <= n,
            n == table.columns.len(),
            iv == ids.deep_view(),
            iv == record_ids(table.col_headers.deep_view(), n as nat),
            iv.len() == n,
            out.len() == j,
            forall|k: int|
                0 <= k < j ==> (#[trigger] out[k])@ == build_record_spec(
                    iv[k],
                    table.meta@,
                    opt_str_view(source_file),
                ),
        decreases n - j,
    {
        let id = ids[j].clone();
        let rec = build_record(id, &table.meta, source_file);
        out.push(rec);
        j = j + 1;
    }
    Ok(out)
}

// ───────────────────────── writing ─────────────────────────

/// A `KEY: VALUE` metadata line.
pub open spec fn meta_line(key: Seq<char>, v: Seq<char>) -> Seq<char> {
    key + seq![':', ' '] + v + seq!['\n']
}

/// A metadata line for a value that is present, else nothing.
pub open spec fn opt_meta_line(key: Seq<char>, v: Option<Seq<char>>) -> Seq<char> {
    match v {
        Some(x) => meta_line(key, x),
        None => seq![],
    }
}

/// The metadata header written before the data: type and date, then each
/// present field, then a blank line.
pub open spec fn meta_header(m: CsvMetaV) -> Seq<char> {
    meta_line("Measurement_Type"@, measurement_type_name(m.measurement_type)) + meta_line(
        "Date"@,
        m.date,
    ) + opt_meta_line("Title"@, m.title) + opt_meta_line("Operator"@, m.operator) + opt_meta_line(
        "Description"@,
        m.description,
    ) + opt_meta_line("Copyright"@, m.copyright) + opt_meta_line("Surface"@, m.surface)
        + opt_meta_line("Sample_Backing"@, m.sample_backing) + opt_meta_line(
        "Instrument"@,
        m.instrument_model,
    ) + opt_meta_line("Sample_ID"@, m.sample_id) + opt_meta_line("Illuminant"@, m.illuminant)
        + opt_meta_line("Observer"@, m.observer) + opt_meta_line("Notes"@, m.notes) + seq!['\n']
}

fn push_meta_line(out: &mut Vec<char>, key: &str, v: &Vec<char>)
    ensures
        final(out)@ == old(out)@ + meta_line(key@, v@),
{
    crate::text::append_str(out, key);
    out.push(':');
    out.push(' ');
    crate::text::append_chars(out, v);
    out.push('\n');
    assert(out@ =~= old(out)@ + meta_line(key@, v@));
}

fn push_opt_meta_line(out: &mut Vec<char>, key: &str, v: &Option<String>)
    ensures
        final(out)@ == old(out)@ + opt_meta_line(key@, v.deep_view()),
{
    match v {
        Some(x) => {
            let xv = chars_of(x.as_str());
            push_meta_line(out, key, &xv);
        },
        None => {
            assert(out@ =~= old(out)@ + opt_meta_line(key@, v.deep_view()));
        },
    }
}

/// The metadata written for a record: its own fields, the model of its
/// instrument, its illuminant and observer, and the notes of its provenance.
pub open spec fn header_meta_spec(h: RecordHeadV) -> CsvMetaV {
    CsvMetaV {
        title: h.title,
        date: h.date,
        measurement_type: h.measurement_type,
        operator: h.operator,
        instrument_model: match h.instrument {
            Some(i) => i.model,
            None => None,
        },
        description: h.description,
        copyright: h.copyright,
        surface: h.surface,
        sample_backing: h.sample_backing,
        sample_id: h.sample_id,
        illuminant: match h.color_science {
            Some(c) => c.illuminant,
            None => None,
        },
        observer: match h.color_science {
            Some(c) => c.cie_observer,
            None => None,
        },
        notes: h.provenance.notes,
        custom: Map::empty(),
    }
}

/// The metadata to write before the data of a file whose first record is
/// `head`.
pub fn header_meta(head: &RecordHead) -> (m: CsvMeta)
    ensures
        m@ == header_meta_spec(head@),
{
    let m = CsvMeta {
        title: crate::model::clone_opt(&head.title),
        date: head.date.clone(),
        measurement_type: head.measurement_type,
        operator: crate::model::clone_opt(&head.operator),
        instrument_model: match &head.instrument {
            Some(i) => crate::model::clone_opt(&i.model),
            None => None,
        },
        description: crate::model::clone_opt(&head.description),
        copyright: crate::model::clone_opt(&head.copyright),
        surface: crate::model::clone_opt(&head.surface),
        sample_backing: crate::model::clone_opt(&head.sample_backing),
        sample_id: crate::model::clone_opt(&head.sample_id),
        illuminant: match &head.color_science {
            Some(c) => crate::model::clone_opt(&c.illuminant),
            None => None,
        },
        observer: match &head.color_science {
            Some(c) => crate::model::clone_opt(&c.cie_observer),
            None => None,
        },
        notes: crate::model::clone_opt(&head.provenance.notes),
        custom: custom_new(),
    };
    m
}

/// The metadata header of a file: `KEY: VALUE` lines for the measurement
/// type, date and each present field, then a blank line.
pub fn write_meta_header(meta: &CsvMeta) -> (r: String)
    ensures
        r@ == meta_header(meta@),
{
    let mut out: Vec<char> = Vec::new();
    let mt = chars_of(measurement_type_str(meta.measurement_type));
    push_meta_line(&mut out, "Measurement_Type", &mt);
    let date = chars_of(meta.date.as_str());
    push_meta_line(&mut out, "Date", &date);
    push_opt_meta_line(&mut out, "Title", &meta.title);
    push_opt_meta_line(&mut out, "Operator", &meta.operator);
    push_opt_meta_line(&mut out, "Description", &meta.description);
    push_opt_meta_line(&mut out, "Copyright", &meta.copyright);
    push_opt_meta_line(&mut out, "Surface", &meta.surface);
    push_opt_meta_line(&mut out, "Sample_Backing", &meta.sample_backing);
    push_opt_meta_line(&mut out, "Instrument", &meta.instrument_model);
    push_opt_meta_line(&mut out, "Sample_ID", &meta.sample_id);
    push_opt_meta_line(&mut out, "Illuminant", &meta.illuminant);
    push_opt_meta_line(&mut out, "Observer", &meta.observer);
    push_opt_meta_line(&mut out, "Notes", &meta.notes);
    out.push('\n');
    assert(out@ =~= meta_header(meta@));
    string_of(&out)
}

/// The delimited, quoted identifiers after the wavelength label.
pub open spec fn id_cells(ids: Seq<Seq<char>>, d: char) -> Seq<char>
    decreases ids.len(),
{
    if ids.len() == 0 {
        seq![]
    } else {
        id_cells(ids.drop_last(), d) + seq![d] + quote_field_spec(ids.last(), d)
    }
}

/// The column-header row: `wavelength_nm`, then each identifier quoted as
/// needed, separated by the delimiter, and a newline.
pub open spec fn header_row(ids: Seq<Seq<char>>, d: char) -> Seq<char> {
    "wavelength_nm"@ + id_cells(ids, d) + seq!['\n']
}

/// The column-header row for spectra with identifiers `ids`.
pub fn write_header_row(ids: &Vec<String>, delimiter: char) -> (r: String)
    ensures
        r@ == header_row(ids.deep_view(), delimiter),
{
    let ghost iv = ids.deep_view();
    let mut cells: Vec<char> = Vec::new();
    let mut i: usize = 0;
    assert(iv.take(0) =~= Seq::<Seq<char>>::empty());
    while i < ids.len()
        invariant
            0 <= i <= ids.len(),
            iv == ids.deep_view(),
            cells@ == id_cells(iv.take(i as int), delimiter),
        decreases ids.len() - i,
    {
        assert(iv.take(i + 1).drop_last() =~= iv.take(i as int));
        assert(iv.take(i + 1).last() == ids[i as int]@);
        let q = quote_chars(&chars_of(ids[i].as_str()), delimiter);
        cells.push(delimiter);
        crate::text::append_chars(&mut cells, &q);
        i = i + 1;
    }
    assert(iv.take(ids.len() as int) =~= iv);
    let mut out = chars_of("wavelength_nm");
    crate::text::append_chars(&mut out, &cells);
    out.push('\n');
    assert(out@ =~= header_row(iv, delimiter));
    string_of(&out)
}

/// A delimited text that reads as a table holds at least two data rows, one
/// wavelength text per row, and one column of value cells per data column
/// with one cell per row; so every spectrum of the file, one per column,
/// shares the one wavelength list and has a cell for each wavelength.
pub proof fn lemma_csv_table_shape(s: Seq<char>, t: CsvTable)
    requires
        match table_outcome(s) {
            Ok((d, m, h, rows)) => table_matches(t, d, m, h, rows),
            Err(_) => false,
        },
    ensures
        t.wavelengths.len() >= 2,
        forall|c: int| 0 <= c < t.columns.len() ==> (#[trigger] t.columns[c]).len() == t.wavelengths.len(),
{
    let rows = table_outcome(s)->Ok_0.3;
    assert(t.wavelengths.deep_view().len() == t.wavelengths.len());
    assert forall|c: int| 0 <= c < t.columns.len() implies (#[trigger] t.columns[c]).len()
        == t.wavelengths.len() by {
        assert(t.columns[c].deep_view() == column(rows, c));
        assert(t.columns[c].deep_view().len() == t.columns[c].len());
    }
}

} // verus!
