//! SpectraShop text-export format: the value readers and the file-level
//! metadata of the header lines.
//!
//! The SpectraShop format is proprietary to Robin Myers Imaging; its
//! specification is published to allow third-party readers and writers.
use vstd::prelude::*;
use crate::date::{word_len, first_word};
use crate::fields::contains_lit;
use crate::model::allowed_illuminant;
use crate::number::{is_float_literal, parse_u32, parse_u32_spec, parses_as_float};
use crate::text::{
    chars_of, contains_seq, eq_lit, is_whitespace, is_ws, prefix_len, string_of, sub_chars, to_lowercase,
    to_uppercase, trim, trim_chars, trim_start, lower_case, upper_case,
};

verus! {

// ───────────────────────── value readers ─────────────────────────

/// `t` without one pair of surrounding double quotes.
pub open spec fn unquote(t: Seq<char>) -> Seq<char> {
    if t.len() >= 2 && t[0] == '"' && t.last() == '"' {
        t.subrange(1, t.len() - 1)
    } else {
        t
    }
}

/// A header value: trimmed, unquoted, and absent when empty.
pub open spec fn ss_str_spec(s: Seq<char>) -> Option<Seq<char>> {
    let u = unquote(trim(s));
    if u.len() == 0 {
        None
    } else {
        Some(u)
    }
}

fn ss_str_chars(v: &Vec<char>) -> (r: Option<Vec<char>>)
    ensures
        match r {
            Some(u) => ss_str_spec(v@) == Some(u@),
            None => ss_str_spec(v@) is None,
        },
{
    let t = trim_chars(v);
    let u = if t.len() >= 2 && t[0] == '"' && t[t.len() - 1] == '"' {
        sub_chars(&t, 1, t.len() - 1)
    } else {
        t
    };
    if u.len() == 0 {
        None
    } else {
        Some(u)
    }
}

/// Strips surrounding whitespace and one pair of double quotes; `None` for
/// an empty result.
pub fn ss_str(s: &str) -> (r: Option<String>)
    ensures
        r.deep_view() == ss_str_spec(s@),
{
    let v = chars_of(s);
    match ss_str_chars(&v) {
        Some(u) => Some(string_of(&u)),
        None => None,
    }
}

/// Index of the first whitespace character, if any.
pub open spec fn first_ws(s: Seq<char>) -> Option<int> {
    if word_len(s) < s.len() {
        Some(word_len(s) as int)
    } else {
        None
    }
}

/// A header line as `(KEYWORD, value)`: the keyword ends at the first tab,
/// or else at the first whitespace; it is trimmed and upper-cased, and the
/// trimmed rest is the value.  `None` when there is no separator or the
/// keyword is empty.
pub open spec fn ss_split_kv_spec(l: Seq<char>) -> Option<(Seq<char>, Seq<char>)> {
    let p = prefix_len(l, '\t') as int;
    let sep = if p < l.len() {
        Some(p)
    } else {
        first_ws(l)
    };
    match sep {
        None => None,
        Some(k) => {
            let key = upper_case(trim(l.take(k)));
            if key.len() == 0 {
                None
            } else {
                Some((key, trim(l.skip(k))))
            }
        },
    }
}

proof fn lemma_word_len_le(s: Seq<char>)
    ensures
        word_len(s) <= s.len(),
    decreases s.len(),
{
    if s.len() > 0 {
        lemma_word_len_le(s.drop_first());
    }
}

proof fn lemma_word_len_is(s: Seq<char>, n: int)
    requires
        0 <= n <= s.len(),
        forall|k: int| 0 <= k < n ==> !is_ws(s[k]),
        n == s.len() || is_ws(s[n]),
    ensures
        word_len(s) == n,
    decreases n,
{
    if n > 0 {
        lemma_word_len_is(s.drop_first(), n - 1);
    }
}

/// Index of the first whitespace character, or `v.len()`.
fn first_ws_index(v: &Vec<char>) -> (k: usize)
    ensures
        k == word_len(v@),
        k <= v.len(),
{
    let mut i: usize = 0;
    while i < v.len() && !is_whitespace(v[i])
        invariant
            0 <= i <= v.len(),
            forall|k: int| 0 <= k < i ==> !is_ws(v@[k]),
        decreases v.len() - i,
    {
        i = i + 1;
    }
    proof {
        lemma_word_len_is(v@, i as int);
    }
    i
}

/// Splits a header line into an upper-cased keyword and its value.
pub fn ss_split_kv(line: &str) -> (r: Option<(String, String)>)
    ensures
        match r {
            Some((k, v)) => ss_split_kv_spec(line@) == Some((k@, v@)),
            None => ss_split_kv_spec(line@) is None,
        },
{
    let v = chars_of(line);
    let p = crate::text::index_of_char(&v, '\t');
    let sep = if p < v.len() {
        p
    } else {
        let w = first_ws_index(&v);
        if w >= v.len() {
            return None;
        }
        w
    };
    let k = trim_chars(&sub_chars(&v, 0, sep));
    assert(v@.take(sep as int) =~= v@.subrange(0, sep as int));
    let ks = string_of(&k);
    let key = to_uppercase(ks.as_str());
    if key.as_str().is_empty() {
        return None;
    }
    let rest = trim_chars(&sub_chars(&v, sep, v.len()));
    assert(v@.skip(sep as int) =~= v@.subrange(sep as int, v.len() as int));
    Some((key, string_of(&rest)))
}

/// `t` with each comma replaced by a dot.
pub open spec fn commas_to_dots(t: Seq<char>) -> Seq<char> {
    t.map_values(|c: char| if c == ',' { '.' } else { c })
}

/// A number token of the format: trimmed, with a comma accepted as the
/// decimal separator; present when it then parses as a number.
pub open spec fn ss_float_token(s: Seq<char>) -> Option<Seq<char>> {
    let t = commas_to_dots(trim(s));
    if is_float_literal(t) {
        Some(t)
    } else {
        None
    }
}

/// The number token of a value, if it reads as a number.
pub fn ss_float_chars(v: &Vec<char>) -> (r: Option<Vec<char>>)
    ensures
        match r {
            Some(t) => ss_float_token(v@) == Some(t@),
            None => ss_float_token(v@) is None,
        },
{
    let t = trim_chars(v);
    let mut u: Vec<char> = Vec::new();
    let mut i: usize = 0;
    while i < t.len()
        invariant
            0 <= i <= t.len(),
            u@ == commas_to_dots(t@).take(i as int),
        decreases t.len() - i,
    {
        if t[i] == ',' {
            u.push('.');
        } else {
            u.push(t[i]);
        }
        i = i + 1;
        assert(u@ =~= commas_to_dots(t@).take(i as int));
    }
    assert(commas_to_dots(t@).take(t.len() as int) =~= commas_to_dots(t@));
    if parses_as_float(&u) {
        Some(u)
    } else {
        None
    }
}

/// The aperture token of a value such as `4 mm` or `4,5 mm`: its first
/// word read as a number; `None` for a value such as `LAV`.
pub open spec fn ss_aperture_token(s: Seq<char>) -> Option<Seq<char>> {
    ss_float_token(first_word(s))
}

/// The measurement type of a `SPECTRUM_TYPE` value.
pub open spec fn ss_measurement_type_of(s: Seq<char>) -> crate::model::MeasurementType {
    let l = lower_case(trim(s));
    if contains_seq(l, "transmis"@) {
        crate::model::MeasurementType::Transmittance
    } else if contains_seq(l, "emissive"@) || contains_seq(l, "irradiance"@) {
        crate::model::MeasurementType::Irradiance
    } else {
        crate::model::MeasurementType::Reflectance
    }
}

/// Maps a `SPECTRUM_TYPE` value to a measurement type: transmissive,
/// emissive or irradiance values, else reflectance.
pub fn ss_measurement_type(s: &str) -> (r: crate::model::MeasurementType)
    ensures
        r == ss_measurement_type_of(s@),
{
    let t = string_of(&trim_chars(&chars_of(s)));
    let lower = to_lowercase(t.as_str());
    let l = chars_of(lower.as_str());
    if contains_lit(&l, "transmis") {
        crate::model::MeasurementType::Transmittance
    } else if contains_lit(&l, "emissive") || contains_lit(&l, "irradiance") {
        crate::model::MeasurementType::Irradiance
    } else {
        crate::model::MeasurementType::Reflectance
    }
}

/// The CIE observer of an `OBSERVER` value: `10` names the 1964 10°
/// observer, else `2` the 1931 2° observer.
pub open spec fn ss_observer_of(s: Seq<char>) -> Option<Seq<char>> {
    let l = lower_case(trim(s));
    if contains_seq(l, "10"@) {
        Some("CIE 1964 10 degree"@)
    } else if contains_seq(l, "2"@) {
        Some("CIE 1931 2 degree"@)
    } else {
        None
    }
}

/// Maps an `OBSERVER` value to a CIE observer name.
pub fn ss_observer(s: &str) -> (r: Option<String>)
    ensures
        r.deep_view() == ss_observer_of(s@),
{
    let t = string_of(&trim_chars(&chars_of(s)));
    let lower = to_lowercase(t.as_str());
    let l = chars_of(lower.as_str());
    if contains_lit(&l, "10") {
        Some(string_of(&chars_of("CIE 1964 10 degree")))
    } else if contains_lit(&l, "2") {
        Some(string_of(&chars_of("CIE 1931 2 degree")))
    } else {
        None
    }
}

/// The illuminant of an `ILLUMINANT` value: a code of the format other than
/// `custom`, taken as it is.
pub open spec fn ss_illuminant_of(s: Seq<char>) -> Option<Seq<char>> {
    if crate::model::is_allowed_illuminant(s) && s != "custom"@ {
        Some(s)
    } else {
        None
    }
}

/// Maps an `ILLUMINANT` value to an illuminant code, if recognised.
pub fn ss_illuminant(s: &str) -> (r: Option<String>)
    ensures
        r.deep_view() == ss_illuminant_of(s@),
{
    let v = chars_of(s);
    if allowed_illuminant(&v) && !eq_lit(&v, "custom") {
        Some(string_of(&v))
    } else {
        None
    }
}

/// Parses a date from ISO 8601 (`YYYY-MM-DD...`) or `MM/DD/YYYY` form.
pub fn ss_parse_date(s: &str) -> (r: Option<String>)
    ensures
        r.deep_view() == crate::date::parse_date_spec(s@),
{
    crate::date::parse_date(s)
}

// ───────────────────────── data tokens ─────────────────────────

/// The pieces of `s` between occurrences of `c` (`str::split`).
pub open spec fn split_on(s: Seq<char>, c: char) -> Seq<Seq<char>>
    decreases s.len(),
{
    let k = prefix_len(s, c) as int;
    if k >= s.len() {
        seq![s]
    } else {
        seq![s.take(k)] + split_on(s.skip(k + 1), c)
    }
}

/// The token of one tab-separated field: none for an empty field, else the
/// trimmed field without one pair of surrounding quotes; none when trimming
/// leaves nothing.
pub open spec fn field_token(f: Seq<char>) -> Option<Seq<char>> {
    if f.len() == 0 {
        None
    } else {
        let s = trim(f);
        if s.len() >= 2 && s[0] == '"' && s.last() == '"' {
            Some(s.subrange(1, s.len() - 1))
        } else if s.len() > 0 {
            Some(s)
        } else {
            None
        }
    }
}

/// The tokens of the fields, in order.
pub open spec fn tokens_of(fs: Seq<Seq<char>>) -> Seq<Seq<char>>
    decreases fs.len(),
{
    if fs.len() == 0 {
        seq![]
    } else {
        let r = tokens_of(fs.drop_last());
        match field_token(fs.last()) {
            Some(t) => r.push(t),
            None => r,
        }
    }
}

/// The tokens of a data line.
pub open spec fn line_tokens(l: Seq<char>) -> Seq<Seq<char>> {
    tokens_of(split_on(l, '\t'))
}

proof fn lemma_tokens_of_append(a: Seq<Seq<char>>, f: Seq<char>)
    ensures
        tokens_of(a + seq![f]) == match field_token(f) {
            Some(t) => tokens_of(a).push(t),
            None => tokens_of(a),
        },
{
    assert((a + seq![f]).drop_last() =~= a);
}

proof fn lemma_split_on_take(s: Seq<char>, c: char, start: int, i: int)
    requires
        0 <= start <= i < s.len(),
        s[i] == c,
        forall|k: int| start <= k < i ==> s[k] != c,
    ensures
        split_on(s.skip(start), c) == seq![s.subrange(start, i)] + split_on(s.skip(i + 1), c),
{
    let t = s.skip(start);
    crate::text::lemma_prefix_len(t, c, i - start);
    assert(t.take(i - start) =~= s.subrange(start, i));
    assert(t.skip(i - start + 1) =~= s.skip(i + 1));
}

proof fn lemma_split_on_last(s: Seq<char>, c: char, start: int)
    requires
        0 <= start <= s.len(),
        forall|k: int| start <= k < s.len() ==> s[k] != c,
    ensures
        split_on(s.skip(start), c) == seq![s.skip(start)],
{
    let t = s.skip(start);
    crate::text::lemma_prefix_len(t, c, t.len() as int);
}

fn field_token_exec(f: &Vec<char>) -> (r: Option<Vec<char>>)
    ensures
        match r {
            Some(t) => field_token(f@) == Some(t@),
            None => field_token(f@) is None,
        },
{
    if f.len() == 0 {
        return None;
    }
    let s = trim_chars(f);
    if s.len() >= 2 && s[0] == '"' && s[s.len() - 1] == '"' {
        Some(sub_chars(&s, 1, s.len() - 1))
    } else if s.len() > 0 {
        Some(s)
    } else {
        None
    }
}

/// Appends the tokens of a data line: its tab-separated fields, skipping
/// empty fields and stripping one pair of surrounding quotes from each.
pub fn ss_tokenize_into(line: &str, tokens: &mut Vec<String>)
    ensures
        final(tokens).deep_view() == old(tokens).deep_view() + line_tokens(line@),
{
    let v = chars_of(line);
    let ghost fields_done: Seq<Seq<char>> = seq![];
    let mut start: usize = 0;
    let mut i: usize = 0;
    assert(v@.skip(0) =~= v@);
    while i < v.len()
        invariant
            0 <= start <= i <= v.len(),
            v@ == line@,
            split_on(v@, '\t') == fields_done + split_on(v@.skip(start as int), '\t'),
            tokens.deep_view() == old(tokens).deep_view() + tokens_of(fields_done),
            forall|k: int| start <= k < i ==> v@[k] != '\t',
        decreases v.len() - i,
    {
        if v[i] == '\t' {
            let f = sub_chars(&v, start, i);
            proof {
                lemma_split_on_take(v@, '\t', start as int, i as int);
                lemma_tokens_of_append(fields_done, f@);
                assert(fields_done + (seq![f@] + split_on(v@.skip(i + 1), '\t')) =~= (fields_done
                    + seq![f@]) + split_on(v@.skip(i + 1), '\t'));
            }
            match field_token_exec(&f) {
                Some(t) => {
                    let ghost o = tokens.deep_view();
                    tokens.push(string_of(&t));
                    assert(tokens.deep_view() =~= o.push(t@));
                },
                None => {},
            }
            proof {
                fields_done = fields_done + seq![f@];
            }
            start = i + 1;
        }
        i = i + 1;
    }
    let f = sub_chars(&v, start, v.len());
    proof {
        lemma_split_on_last(v@, '\t', start as int);
        assert(f@ =~= v@.skip(start as int));
        lemma_tokens_of_append(fields_done, f@);
    }
    match field_token_exec(&f) {
        Some(t) => {
            let ghost o = tokens.deep_view();
            tokens.push(string_of(&t));
            assert(tokens.deep_view() =~= o.push(t@));
        },
        None => {},
    }
}

/// The pieces of `v` between occurrences of `c` (`str::split`).
pub fn split_char(v: &Vec<char>, c: char) -> (r: Vec<Vec<char>>)
    ensures
        r.deep_view() == split_on(v@, c),
{
    let ghost done: Seq<Seq<char>> = seq![];
    let mut r: Vec<Vec<char>> = Vec::new();
    let mut start: usize = 0;
    let mut i: usize = 0;
    assert(v@.skip(0) =~= v@);
    while i < v.len()
        invariant
            0 <= start <= i <= v.len(),
            split_on(v@, c) == r.deep_view() + split_on(v@.skip(start as int), c),
            forall|k: int| start <= k < i ==> v@[k] != c,
        decreases v.len() - i,
    {
        if v[i] == c {
            let f = sub_chars(v, start, i);
            proof {
                lemma_split_on_take(v@, c, start as int, i as int);
            }
            let ghost o = r.deep_view();
            assert(f.deep_view() =~= f@);
            r.push(f);
            proof {
                assert(r.deep_view() =~= o.push(f@));
                assert(o + (seq![f@] + split_on(v@.skip(i + 1), c)) =~= o.push(f@) + split_on(
                    v@.skip(i + 1),
                    c,
                ));
            }
            start = i + 1;
        }
        i = i + 1;
    }
    let f = sub_chars(v, start, v.len());
    proof {
        lemma_split_on_last(v@, c, start as int);
        assert(f@ =~= v@.skip(start as int));
    }
    let ghost o = r.deep_view();
    assert(f.deep_view() =~= f@);
    r.push(f);
    assert(r.deep_view() =~= o.push(f@));
    r
}

// ───────────────────────── file-level metadata ─────────────────────────

/// File-level metadata of the header lines.
pub struct SsMeta {
    pub file_descriptor: Option<String>,
    pub spectrum_type: Option<String>,
    pub created: Option<String>,
    pub originator: Option<String>,
    pub acquire_note: Option<String>,
    pub note: Option<String>,
    pub illuminant: Option<String>,
    pub observer: Option<String>,
    pub instrumentation: Option<String>,
    pub instrument_serial: Option<String>,
    pub measurement_geometry: Option<String>,
    pub measurement_source: Option<String>,
    pub measurement_aperture: Option<String>,
    pub measurement_filter: Option<String>,
    pub sample_backing: Option<String>,
    pub surface: Option<String>,
    pub manufacturer: Option<String>,
    pub material: Option<String>,
    pub model_num: Option<String>,
    pub prod_date: Option<String>,
    pub serial: Option<String>,
    pub nmeasure: Option<u32>,
    pub sw_version: Option<String>,
}

pub struct SsMetaV {
    pub file_descriptor: Option<Seq<char>>,
    pub spectrum_type: Option<Seq<char>>,
    pub created: Option<Seq<char>>,
    pub originator: Option<Seq<char>>,
    pub acquire_note: Option<Seq<char>>,
    pub note: Option<Seq<char>>,
    pub illuminant: Option<Seq<char>>,
    pub observer: Option<Seq<char>>,
    pub instrumentation: Option<Seq<char>>,
    pub instrument_serial: Option<Seq<char>>,
    pub measurement_geometry: Option<Seq<char>>,
    pub measurement_source: Option<Seq<char>>,
    pub measurement_aperture: Option<Seq<char>>,
    pub measurement_filter: Option<Seq<char>>,
    pub sample_backing: Option<Seq<char>>,
    pub surface: Option<Seq<char>>,
    pub manufacturer: Option<Seq<char>>,
    pub material: Option<Seq<char>>,
    pub model_num: Option<Seq<char>>,
    pub prod_date: Option<Seq<char>>,
    pub serial: Option<Seq<char>>,
    pub nmeasure: Option<u32>,
    pub sw_version: Option<Seq<char>>,
}

impl View for SsMeta {
    type V = SsMetaV;

    open spec fn view(&self) -> SsMetaV {
        SsMetaV {
            file_descriptor: self.file_descriptor.deep_view(),
            spectrum_type: self.spectrum_type.deep_view(),
            created: self.created.deep_view(),
            originator: self.originator.deep_view(),
            acquire_note: self.acquire_note.deep_view(),
            note: self.note.deep_view(),
            illuminant: self.illuminant.deep_view(),
            observer: self.observer.deep_view(),
            instrumentation: self.instrumentation.deep_view(),
            instrument_serial: self.instrument_serial.deep_view(),
            measurement_geometry: self.measurement_geometry.deep_view(),
            measurement_source: self.measurement_source.deep_view(),
            measurement_aperture: self.measurement_aperture.deep_view(),
            measurement_filter: self.measurement_filter.deep_view(),
            sample_backing: self.sample_backing.deep_view(),
            surface: self.surface.deep_view(),
            manufacturer: self.manufacturer.deep_view(),
            material: self.material.deep_view(),
            model_num: self.model_num.deep_view(),
            prod_date: self.prod_date.deep_view(),
            serial: self.serial.deep_view(),
            nmeasure: self.nmeasure,
            sw_version: self.sw_version.deep_view(),
        }
    }
}

/// Metadata before any header line: everything absent.
pub open spec fn ss_meta_empty() -> SsMetaV {
    SsMetaV {
        file_descriptor: None,
        spectrum_type: None,
        created: None,
        originator: None,
        acquire_note: None,
        note: None,
        illuminant: None,
        observer: None,
        instrumentation: None,
        instrument_serial: None,
        measurement_geometry: None,
        measurement_source: None,
        measurement_aperture: None,
        measurement_filter: None,
        sample_backing: None,
        surface: None,
        manufacturer: None,
        material: None,
        model_num: None,
        prod_date: None,
        serial: None,
        nmeasure: None,
        sw_version: None,
    }
}

impl SsMeta {
    /// Metadata before any header line.
    pub fn new() -> (m: SsMeta)
        ensures
            m@ == ss_meta_empty(),
    {
        SsMeta {
            file_descriptor: None,
            spectrum_type: None,
            created: None,
            originator: None,
            acquire_note: None,
            note: None,
            illuminant: None,
            observer: None,
            instrumentation: None,
            instrument_serial: None,
            measurement_geometry: None,
            measurement_source: None,
            measurement_aperture: None,
            measurement_filter: None,
            sample_backing: None,
            surface: None,
            manufacturer: None,
            material: None,
            model_num: None,
            prod_date: None,
            serial: None,
            nmeasure: None,
            sw_version: None,
        }
    }
}

/// The measurement count of an `NMEASUREMENTS` value.
pub open spec fn nmeasure_of(v: Seq<char>) -> Option<u32> {
    let s = match ss_str_spec(v) {
        Some(x) => x,
        None => v,
    };
    parse_u32_spec(trim(s))
}

/// The metadata after one header keyword and value.
pub open spec fn ss_apply_kv_spec(m: SsMetaV, k: Seq<char>, v: Seq<char>) -> SsMetaV {
    let sv = ss_str_spec(v);
    if k == "SPECTRASHOP"@ {
        if m.sw_version is None {
            SsMetaV { sw_version: sv, ..m }
        } else {
            m
        }
    } else if k == "FILE_DESCRIPTOR"@ {
        SsMetaV { file_descriptor: sv, ..m }
    } else if k == "SPECTRUM_TYPE"@ {
        SsMetaV { spectrum_type: sv, ..m }
    } else if k == "CREATED"@ {
        SsMetaV { created: sv, ..m }
    } else if k == "ORIGINATOR"@ {
        SsMetaV { originator: sv, ..m }
    } else if k == "ACQUIRE_NOTE"@ {
        SsMetaV { acquire_note: sv, ..m }
    } else if k == "NOTE"@ {
        SsMetaV { note: sv, ..m }
    } else if k == "ILLUMINANT"@ {
        SsMetaV { illuminant: sv, ..m }
    } else if k == "OBSERVER"@ {
        SsMetaV { observer: sv, ..m }
    } else if k == "INSTRUMENTATION"@ {
        SsMetaV { instrumentation: sv, ..m }
    } else if k == "INSTRUMENT_SERIAL"@ || k == "INSTRUMENT_SERIAL_NUMBER"@ {
        SsMetaV { instrument_serial: sv, ..m }
    } else if k == "MEASUREMENT_GEOMETRY"@ {
        SsMetaV { measurement_geometry: sv, ..m }
    } else if k == "MEASUREMENT_SOURCE"@ {
        SsMetaV { measurement_source: sv, ..m }
    } else if k == "MEASUREMENT_APERTURE"@ {
        SsMetaV { measurement_aperture: sv, ..m }
    } else if k == "MEASUREMENT_FILTER"@ {
        SsMetaV { measurement_filter: sv, ..m }
    } else if k == "SAMPLE_BACKING"@ {
        SsMetaV { sample_backing: sv, ..m }
    } else if k == "SURFACE"@ {
        SsMetaV { surface: sv, ..m }
    } else if k == "MANUFACTURER"@ {
        SsMetaV { manufacturer: sv, ..m }
    } else if k == "MATERIAL"@ {
        SsMetaV { material: sv, ..m }
    } else if k == "MODEL"@ || k == "MODEL_NUM"@ {
        SsMetaV { model_num: sv, ..m }
    } else if k == "PROD_DATE"@ {
        SsMetaV { prod_date: sv, ..m }
    } else if k == "SERIAL"@ {
        SsMetaV { serial: sv, ..m }
    } else if k == "NMEASUREMENTS"@ || k == "NMEASURE"@ {
        SsMetaV { nmeasure: nmeasure_of(v), ..m }
    } else if k == "SW_VERSION"@ {
        SsMetaV { sw_version: sv, ..m }
    } else {
        m
    }
}

fn opt_vec_to_string(o: Option<Vec<char>>) -> (r: Option<String>)
    ensures
        r.deep_view() == match o {
            Some(v) => Some(v@),
            None => None::<Seq<char>>,
        },
{
    match o {
        Some(v) => Some(string_of(&v)),
        None => None,
    }
}

/// Applies one header keyword and value to the file-level metadata;
/// unrecognised keywords are ignored.
pub fn ss_apply_kv(meta: &mut SsMeta, key: &str, value: &str)
    ensures
        final(meta)@ == ss_apply_kv_spec(old(meta)@, key@, value@),
{
    let k = chars_of(key);
    let v = chars_of(value);
    let sv = ss_str_chars(&v);
    let ghost svv = ss_str_spec(value@);
    if eq_lit(&k, "SPECTRASHOP") {
        if meta.sw_version.is_none() {
            meta.sw_version = opt_vec_to_string(sv);
        }
    } else if eq_lit(&k, "FILE_DESCRIPTOR") {
        meta.file_descriptor = opt_vec_to_string(sv);
    } else if eq_lit(&k, "SPECTRUM_TYPE") {
        meta.spectrum_type = opt_vec_to_string(sv);
    } else if eq_lit(&k, "CREATED") {
        meta.created = opt_vec_to_string(sv);
    } else if eq_lit(&k, "ORIGINATOR") {
        meta.originator = opt_vec_to_string(sv);
    } else if eq_lit(&k, "ACQUIRE_NOTE") {
        meta.acquire_note = opt_vec_to_string(sv);
    } else if eq_lit(&k, "NOTE") {
        meta.note = opt_vec_to_string(sv);
    } else if eq_lit(&k, "ILLUMINANT") {
        meta.illuminant = opt_vec_to_string(sv);
    } else if eq_lit(&k, "OBSERVER") {
        meta.observer = opt_vec_to_string(sv);
    } else if eq_lit(&k, "INSTRUMENTATION") {
        meta.instrumentation = opt_vec_to_string(sv);
    } else if eq_lit(&k, "INSTRUMENT_SERIAL") || eq_lit(&k, "INSTRUMENT_SERIAL_NUMBER") {
        meta.instrument_serial = opt_vec_to_string(sv);
    } else if eq_lit(&k, "MEASUREMENT_GEOMETRY") {
        meta.measurement_geometry = opt_vec_to_string(sv);
    } else if eq_lit(&k, "MEASUREMENT_SOURCE") {
        meta.measurement_source = opt_vec_to_string(sv);
    } else if eq_lit(&k, "MEASUREMENT_APERTURE") {
        meta.measurement_aperture = opt_vec_to_string(sv);
    } else if eq_lit(&k, "MEASUREMENT_FILTER") {
        meta.measurement_filter = opt_vec_to_string(sv);
    } else if eq_lit(&k, "SAMPLE_BACKING") {
        meta.sample_backing = opt_vec_to_string(sv);
    } else if eq_lit(&k, "SURFACE") {
        meta.surface = opt_vec_to_string(sv);
    } else if eq_lit(&k, "MANUFACTURER") {
        meta.manufacturer = opt_vec_to_string(sv);
    } else if eq_lit(&k, "MATERIAL") {
        meta.material = opt_vec_to_string(sv);
    } else if eq_lit(&k, "MODEL") || eq_lit(&k, "MODEL_NUM") {
        meta.model_num = opt_vec_to_string(sv);
    } else if eq_lit(&k, "PROD_DATE") {
        meta.prod_date = opt_vec_to_string(sv);
    } else if eq_lit(&k, "SERIAL") {
        meta.serial = opt_vec_to_string(sv);
    } else if eq_lit(&k, "NMEASUREMENTS") || eq_lit(&k, "NMEASURE") {
        let s = match sv {
            Some(x) => x,
            None => v,
        };
        let t = trim_chars(&s);
        meta.nmeasure = parse_u32(&t);
    } else if eq_lit(&k, "SW_VERSION") {
        meta.sw_version = opt_vec_to_string(sv);
    }
}

} // verus!
