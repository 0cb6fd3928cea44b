//! What writing and reading again preserve: the metadata header, the
//! column-header row, and the names of measurement types.
use vstd::prelude::*;
use crate::csv_text::{
    apply_kv_spec, default_meta, is_date_key, is_meaningful, measurement_type_of, meaningful,
    meta_header, meta_line, opt_meta_line, pre_data_go, try_kv_spec, kv_around, kv_ok, CsvMetaV,
    header_row, id_cells, kv_some_ok, known_key_pair, lemma_label_not_known, header_meta_spec,
};
use crate::date::{date_slice_panics, parse_date_spec};
use crate::fields::{escape_quotes, needs_quotes, quote_field_spec, split_fields_spec, split_go};
use crate::model::{MeasurementType, measurement_type_name, RecordHeadV};
use crate::ss_text::split_on;
use crate::text::{
    contains_seq, find, is_ascii_seq, is_ws, lines, lower_case, occurs_at, prefix_len, strip_cr, trim, trim_end,
    trim_start, lemma_prefix_len,
};

verus! {

/// `p` does not occur in `l` when no position of `l` starts with `p`'s
/// first two characters.
proof fn lemma_no_pair(l: Seq<char>, p: Seq<char>)
    requires
        p.len() >= 2,
        forall|i: int| 0 <= i < l.len() - 1 ==> !(#[trigger] l[i] == p[0] && l[i + 1] == p[1]),
    ensures
        !contains_seq(l, p),
{
    assert forall|i: int| !occurs_at(l, p, i) by {
        if occurs_at(l, p, i) {
            assert(l.subrange(i, i + p.len())[0] == p[0]);
            assert(l.subrange(i, i + p.len())[1] == p[1]);
        }
    }
}

/// The name written for a measurement type reads back as that type.
pub proof fn lemma_measurement_type_name_round_trip(mt: MeasurementType)
    ensures
        measurement_type_of(measurement_type_name(mt)) == mt,
{
    reveal_strlit("reflectance");
    reveal_strlit("transmittance");
    reveal_strlit("absorbance");
    reveal_strlit("radiance");
    reveal_strlit("irradiance");
    reveal_strlit("emission");
    reveal_strlit("sensitivity");
    reveal_strlit("transmit");
    reveal_strlit("absorb");
    reveal_strlit("emissive");
    reveal_strlit("trans");
    reveal_strlit("abs");
    reveal_strlit("irrad");
    reveal_strlit("rad");
    reveal_strlit("emiss");
    reveal_strlit("response");
    let l = measurement_type_name(mt);
    assert(lower_case(l) =~= l);
    lemma_trim_id(l);
    assert(l.len() >= 8);
    match mt {
        MeasurementType::Reflectance => {
            lemma_no_pair(l, "transmit"@);
            lemma_no_pair(l, "absorb"@);
            lemma_no_pair(l, "irradiance"@);
            lemma_no_pair(l, "radiance"@);
            lemma_no_pair(l, "emission"@);
            lemma_no_pair(l, "emissive"@);
            lemma_no_pair(l, "sensitivity"@);
            assert(l != "response"@);
        },
        MeasurementType::Transmittance => {
            assert(l.subrange(0, 8) =~= "transmit"@);
            assert(occurs_at(l, "transmit"@, 0));
        },
        MeasurementType::Absorbance => {
            lemma_no_pair(l, "transmit"@);
            assert(l.subrange(0, 6) =~= "absorb"@);
            assert(occurs_at(l, "absorb"@, 0));
        },
        MeasurementType::Radiance => {
            lemma_no_pair(l, "transmit"@);
            lemma_no_pair(l, "absorb"@);
            lemma_no_pair(l, "irradiance"@);
            assert(l.subrange(0, 8) =~= "radiance"@);
            assert(occurs_at(l, "radiance"@, 0));
        },
        MeasurementType::Irradiance => {
            lemma_no_pair(l, "transmit"@);
            lemma_no_pair(l, "absorb"@);
            assert(l.subrange(0, 10) =~= "irradiance"@);
            assert(occurs_at(l, "irradiance"@, 0));
        },
        MeasurementType::Emission => {
            lemma_no_pair(l, "transmit"@);
            lemma_no_pair(l, "absorb"@);
            lemma_no_pair(l, "irradiance"@);
            lemma_no_pair(l, "radiance"@);
            assert(l.subrange(0, 8) =~= "emission"@);
            assert(occurs_at(l, "emission"@, 0));
        },
        MeasurementType::Sensitivity => {
            lemma_no_pair(l, "transmit"@);
            lemma_no_pair(l, "absorb"@);
            lemma_no_pair(l, "irradiance"@);
            lemma_no_pair(l, "radiance"@);
            lemma_no_pair(l, "emission"@);
            lemma_no_pair(l, "emissive"@);
            assert(l.subrange(0, 11) =~= "sensitivity"@);
            assert(occurs_at(l, "sensitivity"@, 0));
        },
    }
}


// ───────────────────────── text of lines ─────────────────────────

/// The lines, each followed by a line end.
pub open spec fn body(ls: Seq<Seq<char>>) -> Seq<char>
    decreases ls.len(),
{
    if ls.len() == 0 {
        seq![]
    } else {
        body(ls.drop_last()) + ls.last() + seq!['\n']
    }
}

proof fn lemma_body_push(ls: Seq<Seq<char>>, l: Seq<char>)
    ensures
        body(ls.push(l)) == body(ls) + l + seq!['\n'],
{
    assert(ls.push(l).drop_last() =~= ls);
}

/// Text with no whitespace at either end is its own trim.
proof fn lemma_trim_id(s: Seq<char>)
    requires
        s.len() > 0 ==> !is_ws(s[0]) && !is_ws(s.last()),
    ensures
        trim(s) == s,
{
    assert(trim_start(s) == s);
}

/// A line free of line ends, followed by one, is the first line.
proof fn lemma_lines_cons(l: Seq<char>, rest: Seq<char>)
    requires
        !l.contains('\n'),
        strip_cr(l) == l,
    ensures
        lines(l + seq!['\n'] + rest) == seq![l] + lines(rest),
{
    let s = l + seq!['\n'] + rest;
    assert forall|k: int| 0 <= k < l.len() implies s[k] != '\n' by {
        assert(s[k] == l[k]);
    }
    lemma_prefix_len(s, '\n', l.len() as int);
    assert(s.take(l.len() as int) =~= l);
    assert(s.skip(l.len() as int + 1) =~= rest);
}

/// Reading back the text of lines free of line ends gives the lines.
proof fn lemma_lines_body(ls: Seq<Seq<char>>, rest: Seq<char>)
    requires
        forall|i: int| 0 <= i < ls.len() ==> !(#[trigger] ls[i]).contains('\n') && strip_cr(ls[i]) == ls[i],
    ensures
        lines(body(ls) + rest) == ls + lines(rest),
    decreases ls.len(),
{
    if ls.len() == 0 {
        assert(body(ls) + rest =~= rest);
        assert(ls + lines(rest) =~= lines(rest));
    } else {
        let a = ls.drop_last();
        let l = ls.last();
        assert(body(ls) + rest =~= body(a) + (l + seq!['\n'] + rest));
        assert forall|i: int| 0 <= i < a.len() implies !(#[trigger] a[i]).contains('\n') && strip_cr(a[i]) == a[i] by {
            assert(a[i] == ls[i]);
        }
        lemma_lines_body(a, l + seq!['\n'] + rest);
        lemma_lines_cons(l, rest);
        assert(a + (seq![l] + lines(rest)) =~= ls + lines(rest));
    }
}

/// Lines that are all meaningful are kept as they are.
proof fn lemma_meaningful_all(ls: Seq<Seq<char>>)
    requires
        forall|i: int| 0 <= i < ls.len() ==> is_meaningful(#[trigger] ls[i]),
    ensures
        meaningful(ls) == ls,
    decreases ls.len(),
{
    if ls.len() > 0 {
        let a = ls.drop_last();
        assert forall|i: int| 0 <= i < a.len() implies is_meaningful(#[trigger] a[i]) by {
            assert(a[i] == ls[i]);
        }
        lemma_meaningful_all(a);
        assert(a.push(ls.last()) =~= ls);
    }
}

/// The first occurrence of `p` in `s` is at `i`.
proof fn lemma_find_at(s: Seq<char>, p: Seq<char>, i: int)
    requires
        occurs_at(s, p, i),
        forall|j: int| 0 <= j < i ==> !occurs_at(s, p, j),
    ensures
        find(s, p) == Some(i),
{
    assert(contains_seq(s, p));
    let c = choose|k: int| occurs_at(s, p, k) && forall|j: int| 0 <= j < k ==> !occurs_at(s, p, j);
    if c < i {
        assert(!occurs_at(s, p, c));
    } else if c > i {
        assert(!occurs_at(s, p, i));
    }
}


// ───────────────────────── one metadata line ─────────────────────────

/// A `KEY: VALUE` line without its line end.
pub open spec fn key_line(k: Seq<char>, v: Seq<char>) -> Seq<char> {
    k + seq![':', ' '] + v
}

/// A key made of ASCII letters and underscores.
pub open spec fn plain_key(k: Seq<char>) -> bool {
    k.len() > 0 && forall|i: int|
        0 <= i < k.len() ==> ('A' <= #[trigger] k[i] <= 'Z') || ('a' <= k[i] <= 'z') || k[i] == '_'
}

/// A value that reads back as itself from a metadata line: not empty, no
/// whitespace at either end, and no line end.
pub open spec fn clean_value(v: Seq<char>) -> bool {
    v.len() > 0 && trim(v) == v && !v.contains('\n')
}

pub open spec fn clean_opt(o: Option<Seq<char>>) -> bool {
    match o {
        Some(v) => clean_value(v),
        None => true,
    }
}

proof fn lemma_clean_ends(v: Seq<char>)
    requires
        clean_value(v),
    ensures
        !is_ws(v[0]),
        !is_ws(v.last()),
{
    if is_ws(v[0]) {
        assert(trim_start(v) == trim_start(v.drop_first()));
        lemma_trim_start_len(v.drop_first());
        lemma_trim_end_len(trim_start(v));
    }
    if is_ws(v.last()) {
        lemma_trim_end_last(trim_start(v), v);
    }
}

proof fn lemma_trim_start_len(s: Seq<char>)
    ensures
        trim_start(s).len() <= s.len(),
    decreases s.len(),
{
    if s.len() > 0 && is_ws(s[0]) {
        lemma_trim_start_len(s.drop_first());
    }
}

proof fn lemma_trim_end_len(s: Seq<char>)
    ensures
        trim_end(s).len() <= s.len(),
    decreases s.len(),
{
    if s.len() > 0 && is_ws(s.last()) {
        lemma_trim_end_len(s.drop_last());
    }
}

/// Trimming never ends in whitespace.
proof fn lemma_trim_end_not_ws(s: Seq<char>)
    ensures
        trim_end(s).len() > 0 ==> !is_ws(trim_end(s).last()),
    decreases s.len(),
{
    if s.len() > 0 && is_ws(s.last()) {
        lemma_trim_end_not_ws(s.drop_last());
    }
}

/// Trimming never starts with whitespace.
proof fn lemma_trim_start_not_ws(s: Seq<char>)
    ensures
        trim_start(s).len() > 0 ==> !is_ws(trim_start(s)[0]),
    decreases s.len(),
{
    if s.len() > 0 && is_ws(s[0]) {
        lemma_trim_start_not_ws(s.drop_first());
    }
}

proof fn lemma_trim_end_last(t: Seq<char>, v: Seq<char>)
    requires
        trim_end(t) == v,
        v.len() > 0,
    ensures
        !is_ws(v.last()),
{
    lemma_trim_end_not_ws(t);
}


/// The pair around a separator found at `p`.
proof fn lemma_kv_around_at(l: Seq<char>, sep: Seq<char>, p: int)
    requires
        find(l, sep) == Some(p),
    ensures
        kv_around(l, sep) == Some((trim(l.take(p)), trim(l.skip(p + sep.len())))),
{
    reveal(kv_around);
}

/// No pair around a separator that does not occur.
proof fn lemma_kv_around_none(l: Seq<char>, sep: Seq<char>)
    requires
        find(l, sep) is None,
    ensures
        kv_around(l, sep) is None,
{
    reveal(kv_around);
}

/// The separator of a `KEY: VALUE` line is first found right after the key.
proof fn lemma_key_line_find(k: Seq<char>, v: Seq<char>)
    requires
        plain_key(k),
    ensures
        find(key_line(k, v), seq![':', ' ']) == Some(k.len() as int),
{
    let l = key_line(k, v);
    let sep = seq![':', ' '];
    let n = k.len() as int;
    assert(l.subrange(n, n + 2) =~= sep);
    assert forall|j: int| 0 <= j < n implies !occurs_at(l, sep, j) by {
        assert(l[j] == k[j]);
        if occurs_at(l, sep, j) {
            assert(l.subrange(j, j + 2)[0] == sep[0]);
        }
    }
    lemma_find_at(l, sep, n);
}

/// A plain key is its own trimmed form.
proof fn lemma_plain_key_trim(k: Seq<char>)
    requires
        plain_key(k),
    ensures
        trim(k) == k,
{
    let n = k.len() as int;
    let a = k[0];
    let b = k.last();
    assert(('A' <= a <= 'Z') || ('a' <= a <= 'z') || a == '_');
    assert(b == k[n - 1]);
    assert(('A' <= b <= 'Z') || ('a' <= b <= 'z') || b == '_');
    lemma_trim_id(k);
}

/// The pair around a separator found at `p`, once both sides are known
/// trimmed.
proof fn lemma_kv_around_parts(l: Seq<char>, sep: Seq<char>, p: int, a: Seq<char>, b: Seq<char>)
    requires
        find(l, sep) == Some(p),
        trim(l.take(p)) == a,
        trim(l.skip(p + sep.len())) == b,
    ensures
        kv_around(l, sep) == Some((a, b)),
{
    lemma_kv_around_at(l, sep, p);
}

proof fn lemma_key_line_colon(k: Seq<char>, v: Seq<char>)
    requires
        plain_key(k),
        clean_value(v),
    ensures
        kv_around(key_line(k, v), seq![':', ' ']) == Some((k, v)),
{
    let l = key_line(k, v);
    let sep = seq![':', ' '];
    let n = k.len() as int;
    lemma_plain_key_trim(k);
    assert(l.take(n) =~= k);
    assert(l.skip(n + 2) =~= v);
    assert(sep.len() == 2);
    assert(trim(l.take(n)) == k);
    assert(trim(l.skip(n + sep.len())) == v);
    assert(kv_around(l, sep) == Some((k, v))) by {
        lemma_key_line_find(k, v);
        lemma_kv_around_parts(l, sep, n, k, v);
    }
}

proof fn lemma_plain_key_no(k: Seq<char>, c: char)
    requires
        plain_key(k),
        !('A' <= c <= 'Z'),
        !('a' <= c <= 'z'),
        c != '_',
    ensures
        !k.contains(c),
{
    if k.contains(c) {
        let i = choose|i: int| 0 <= i < k.len() && k[i] == c;
        assert(('A' <= k[i] <= 'Z') || ('a' <= k[i] <= 'z') || k[i] == '_');
    }
}

proof fn lemma_key_line_shape(k: Seq<char>, v: Seq<char>)
    requires
        plain_key(k),
        clean_value(v),
    ensures
        is_meaningful(key_line(k, v)),
        !key_line(k, v).contains('\n'),
        strip_cr(key_line(k, v)) == key_line(k, v),
{
    let l = key_line(k, v);
    let n = k.len() as int;
    lemma_clean_ends(v);
    assert(l.last() == v.last());
    assert(l[0] == k[0]);
    assert(('A' <= k[0] <= 'Z') || ('a' <= k[0] <= 'z') || k[0] == '_');
    lemma_trim_id(l);
    lemma_plain_key_no(k, '\n');
    if l.contains('\n') {
        let i = choose|i: int| 0 <= i < l.len() && l[i] == '\n';
        if i < n {
            assert(l[i] == k[i]);
        } else if i >= n + 2 {
            assert(l[i] == v[i - n - 2]);
        }
    }
}

/// A `KEY: VALUE` line is read as its key and value.
proof fn lemma_try_kv_key_line(k: Seq<char>, v: Seq<char>, d: char)
    requires
        plain_key(k),
        clean_value(v),
        d == ',' || d == '\t',
    ensures
        try_kv_spec(key_line(k, v), d) == Some((k, v)),
{
    lemma_key_line_colon(k, v);
    lemma_plain_key_no(k, d);
}


// ───────────────────────── the keys written ─────────────────────────

proof fn lemma_apply_measurement_type(m: CsvMetaV, v: Seq<char>)
    ensures
        apply_kv_spec(m, "Measurement_Type"@, v) == (CsvMetaV { measurement_type: measurement_type_of(v), ..m }),
        !is_date_key(lower_case("Measurement_Type"@)),
        plain_key("Measurement_Type"@),
{
    reveal_strlit("Measurement_Type");
    reveal_strlit("measurement_type");
    reveal_strlit("title");
    reveal_strlit("name");
    reveal_strlit("sample_name");
    reveal_strlit("date");
    reveal_strlit("created");
    assert(lower_case("Measurement_Type"@) =~= "measurement_type"@);
}

proof fn lemma_apply_date(m: CsvMetaV, v: Seq<char>)
    ensures
        is_date_key(lower_case("Date"@)),
        apply_kv_spec(m, "Date"@, v) == match parse_date_spec(v) {
            Some(x) => (CsvMetaV { date: x, ..m }),
            None => m,
        },
        plain_key("Date"@),
{
    reveal_strlit("Date");
    reveal_strlit("date");
    reveal_strlit("title");
    reveal_strlit("name");
    reveal_strlit("sample_name");
    assert(lower_case("Date"@) =~= "date"@);
    assert("date"@[0] != "name"@[0]);
}

proof fn lemma_apply_title(m: CsvMetaV, v: Seq<char>)
    ensures
        apply_kv_spec(m, "Title"@, v) == (CsvMetaV { title: Some(v), ..m }),
        !is_date_key(lower_case("Title"@)),
        plain_key("Title"@),
{
    reveal_strlit("Title");
    reveal_strlit("title");
    assert(lower_case("Title"@) =~= "title"@);
    reveal_strlit("date");
    reveal_strlit("created");
}

proof fn lemma_apply_operator(m: CsvMetaV, v: Seq<char>)
    ensures
        apply_kv_spec(m, "Operator"@, v) == (CsvMetaV { operator: Some(v), ..m }),
        !is_date_key(lower_case("Operator"@)),
        plain_key("Operator"@),
{
    reveal_strlit("Operator");
    reveal_strlit("operator");
    reveal_strlit("title");
    reveal_strlit("name");
    reveal_strlit("sample_name");
    reveal_strlit("date");
    reveal_strlit("created");
    reveal_strlit("measurement_type");
    reveal_strlit("spectrum_type");
    reveal_strlit("type");
    assert(lower_case("Operator"@) =~= "operator"@);
}

proof fn lemma_apply_description(m: CsvMetaV, v: Seq<char>)
    ensures
        apply_kv_spec(m, "Description"@, v) == (CsvMetaV { description: Some(v), ..m }),
        !is_date_key(lower_case("Description"@)),
        plain_key("Description"@),
{
    reveal_strlit("Description");
    reveal_strlit("description");
    reveal_strlit("title");
    reveal_strlit("name");
    reveal_strlit("sample_name");
    reveal_strlit("date");
    reveal_strlit("created");
    reveal_strlit("measurement_type");
    reveal_strlit("spectrum_type");
    reveal_strlit("type");
    reveal_strlit("operator");
    reveal_strlit("originator");
    reveal_strlit("instrument");
    reveal_strlit("instrumentation");
    assert(lower_case("Description"@) =~= "description"@);
    assert("description"@[0] != "sample_name"@[0]);
}

proof fn lemma_apply_copyright(m: CsvMetaV, v: Seq<char>)
    ensures
        apply_kv_spec(m, "Copyright"@, v) == (CsvMetaV { copyright: Some(v), ..m }),
        !is_date_key(lower_case("Copyright"@)),
        plain_key("Copyright"@),
{
    reveal_strlit("Copyright");
    reveal_strlit("copyright");
    reveal_strlit("title");
    reveal_strlit("name");
    reveal_strlit("sample_name");
    reveal_strlit("date");
    reveal_strlit("created");
    reveal_strlit("measurement_type");
    reveal_strlit("spectrum_type");
    reveal_strlit("type");
    reveal_strlit("operator");
    reveal_strlit("originator");
    reveal_strlit("instrument");
    reveal_strlit("instrumentation");
    reveal_strlit("description");
    reveal_strlit("file_descriptor");
    assert(lower_case("Copyright"@) =~= "copyright"@);
}

proof fn lemma_apply_surface(m: CsvMetaV, v: Seq<char>)
    ensures
        apply_kv_spec(m, "Surface"@, v) == (CsvMetaV { surface: Some(v), ..m }),
        !is_date_key(lower_case("Surface"@)),
        plain_key("Surface"@),
{
    reveal_strlit("Surface");
    reveal_strlit("surface");
    reveal_strlit("title");
    reveal_strlit("name");
    reveal_strlit("sample_name");
    reveal_strlit("date");
    reveal_strlit("created");
    reveal_strlit("measurement_type");
    reveal_strlit("spectrum_type");
    reveal_strlit("type");
    reveal_strlit("operator");
    reveal_strlit("originator");
    reveal_strlit("instrument");
    reveal_strlit("instrumentation");
    reveal_strlit("description");
    reveal_strlit("file_descriptor");
    reveal_strlit("copyright");
    assert(lower_case("Surface"@) =~= "surface"@);
    assert("surface"@[0] != "created"@[0]);
    assert("surface"@[0] != "created"@[0]);
}

proof fn lemma_apply_sample_backing(m: CsvMetaV, v: Seq<char>)
    ensures
        apply_kv_spec(m, "Sample_Backing"@, v) == (CsvMetaV { sample_backing: Some(v), ..m }),
        !is_date_key(lower_case("Sample_Backing"@)),
        plain_key("Sample_Backing"@),
{
    reveal_strlit("Sample_Backing");
    reveal_strlit("sample_backing");
    reveal_strlit("title");
    reveal_strlit("name");
    reveal_strlit("sample_name");
    reveal_strlit("date");
    reveal_strlit("created");
    reveal_strlit("measurement_type");
    reveal_strlit("spectrum_type");
    reveal_strlit("type");
    reveal_strlit("operator");
    reveal_strlit("originator");
    reveal_strlit("instrument");
    reveal_strlit("instrumentation");
    reveal_strlit("description");
    reveal_strlit("file_descriptor");
    reveal_strlit("copyright");
    reveal_strlit("surface");
    assert(lower_case("Sample_Backing"@) =~= "sample_backing"@);
}

proof fn lemma_apply_instrument(m: CsvMetaV, v: Seq<char>)
    ensures
        apply_kv_spec(m, "Instrument"@, v) == (CsvMetaV { instrument_model: Some(v), ..m }),
        !is_date_key(lower_case("Instrument"@)),
        plain_key("Instrument"@),
{
    reveal_strlit("Instrument");
    reveal_strlit("instrument");
    reveal_strlit("title");
    reveal_strlit("name");
    reveal_strlit("sample_name");
    reveal_strlit("date");
    reveal_strlit("created");
    reveal_strlit("measurement_type");
    reveal_strlit("spectrum_type");
    reveal_strlit("type");
    reveal_strlit("operator");
    reveal_strlit("originator");
    assert(lower_case("Instrument"@) =~= "instrument"@);
    assert("instrument"@[0] != "originator"@[0]);
}

proof fn lemma_apply_sample_id(m: CsvMetaV, v: Seq<char>)
    ensures
        apply_kv_spec(m, "Sample_ID"@, v) == (CsvMetaV { sample_id: Some(v), ..m }),
        !is_date_key(lower_case("Sample_ID"@)),
        plain_key("Sample_ID"@),
{
    reveal_strlit("Sample_ID");
    reveal_strlit("sample_id");
    reveal_strlit("title");
    reveal_strlit("name");
    reveal_strlit("sample_name");
    reveal_strlit("date");
    reveal_strlit("created");
    reveal_strlit("measurement_type");
    reveal_strlit("spectrum_type");
    reveal_strlit("type");
    reveal_strlit("operator");
    reveal_strlit("originator");
    reveal_strlit("instrument");
    reveal_strlit("instrumentation");
    reveal_strlit("description");
    reveal_strlit("file_descriptor");
    reveal_strlit("copyright");
    reveal_strlit("surface");
    reveal_strlit("sample_backing");
    assert(lower_case("Sample_ID"@) =~= "sample_id"@);
    assert("sample_id"@[0] != "copyright"@[0]);
}

proof fn lemma_apply_illuminant(m: CsvMetaV, v: Seq<char>)
    ensures
        apply_kv_spec(m, "Illuminant"@, v) == (CsvMetaV { illuminant: Some(v), ..m }),
        !is_date_key(lower_case("Illuminant"@)),
        plain_key("Illuminant"@),
{
    reveal_strlit("Illuminant");
    reveal_strlit("illuminant");
    reveal_strlit("title");
    reveal_strlit("name");
    reveal_strlit("sample_name");
    reveal_strlit("date");
    reveal_strlit("created");
    reveal_strlit("measurement_type");
    reveal_strlit("spectrum_type");
    reveal_strlit("type");
    reveal_strlit("operator");
    reveal_strlit("originator");
    reveal_strlit("instrument");
    reveal_strlit("instrumentation");
    reveal_strlit("description");
    reveal_strlit("file_descriptor");
    reveal_strlit("copyright");
    reveal_strlit("surface");
    reveal_strlit("sample_backing");
    reveal_strlit("sample_id");
    assert(lower_case("Illuminant"@) =~= "illuminant"@);
    assert("illuminant"@[0] != "originator"@[0]);
    assert("illuminant"@[1] != "instrument"@[1]);
}

proof fn lemma_apply_observer(m: CsvMetaV, v: Seq<char>)
    ensures
        apply_kv_spec(m, "Observer"@, v) == (CsvMetaV { observer: Some(v), ..m }),
        !is_date_key(lower_case("Observer"@)),
        plain_key("Observer"@),
{
    reveal_strlit("Observer");
    reveal_strlit("observer");
    reveal_strlit("title");
    reveal_strlit("name");
    reveal_strlit("sample_name");
    reveal_strlit("date");
    reveal_strlit("created");
    reveal_strlit("measurement_type");
    reveal_strlit("spectrum_type");
    reveal_strlit("type");
    reveal_strlit("operator");
    reveal_strlit("originator");
    reveal_strlit("instrument");
    reveal_strlit("instrumentation");
    reveal_strlit("description");
    reveal_strlit("file_descriptor");
    reveal_strlit("copyright");
    reveal_strlit("surface");
    reveal_strlit("sample_backing");
    reveal_strlit("sample_id");
    reveal_strlit("illuminant");
    assert(lower_case("Observer"@) =~= "observer"@);
    assert("observer"@[1] != "operator"@[1]);
}

proof fn lemma_apply_notes(m: CsvMetaV, v: Seq<char>)
    ensures
        apply_kv_spec(m, "Notes"@, v) == (CsvMetaV { notes: Some(v), ..m }),
        !is_date_key(lower_case("Notes"@)),
        plain_key("Notes"@),
{
    reveal_strlit("Notes");
    reveal_strlit("notes");
    reveal_strlit("title");
    reveal_strlit("name");
    reveal_strlit("sample_name");
    reveal_strlit("date");
    reveal_strlit("created");
    reveal_strlit("measurement_type");
    reveal_strlit("spectrum_type");
    reveal_strlit("type");
    reveal_strlit("operator");
    reveal_strlit("originator");
    reveal_strlit("instrument");
    reveal_strlit("instrumentation");
    reveal_strlit("description");
    reveal_strlit("file_descriptor");
    reveal_strlit("copyright");
    reveal_strlit("surface");
    reveal_strlit("sample_backing");
    reveal_strlit("sample_id");
    reveal_strlit("illuminant");
    reveal_strlit("observer");
    assert(lower_case("Notes"@) =~= "notes"@);
    assert("notes"@[0] != "title"@[0]);
}

/// Plain keys are clean values.
proof fn lemma_plain_clean(k: Seq<char>)
    requires
        plain_key(k),
    ensures
        clean_value(k),
{
    assert(('A' <= k[0] <= 'Z') || ('a' <= k[0] <= 'z') || k[0] == '_');
    assert(('A' <= k[k.len() - 1] <= 'Z') || ('a' <= k[k.len() - 1] <= 'z') || k[k.len() - 1] == '_');
    lemma_trim_id(k);
    lemma_plain_key_no(k, '\n');
}

/// The names of measurement types are plain words.
proof fn lemma_name_plain(mt: MeasurementType)
    ensures
        plain_key(measurement_type_name(mt)),
{
    reveal_strlit("reflectance");
    reveal_strlit("transmittance");
    reveal_strlit("absorbance");
    reveal_strlit("radiance");
    reveal_strlit("irradiance");
    reveal_strlit("emission");
    reveal_strlit("sensitivity");
}


// ───────────────────────── the whole header ─────────────────────────

/// The lines followed by a `KEY: VALUE` line when the value is present.
pub open spec fn push_opt(ls: Seq<Seq<char>>, k: Seq<char>, o: Option<Seq<char>>) -> Seq<Seq<char>> {
    match o {
        Some(v) => ls.push(key_line(k, v)),
        None => ls,
    }
}

/// The lines of the metadata header, without their line ends.
pub open spec fn header_lines(m: CsvMetaV) -> Seq<Seq<char>> {
    let l0 = seq![
        key_line("Measurement_Type"@, measurement_type_name(m.measurement_type)),
        key_line("Date"@, m.date),
    ];
    let l1 = push_opt(l0, "Title"@, m.title);
    let l2 = push_opt(l1, "Operator"@, m.operator);
    let l3 = push_opt(l2, "Description"@, m.description);
    let l4 = push_opt(l3, "Copyright"@, m.copyright);
    let l5 = push_opt(l4, "Surface"@, m.surface);
    let l6 = push_opt(l5, "Sample_Backing"@, m.sample_backing);
    let l7 = push_opt(l6, "Instrument"@, m.instrument_model);
    let l8 = push_opt(l7, "Sample_ID"@, m.sample_id);
    let l9 = push_opt(l8, "Illuminant"@, m.illuminant);
    let l10 = push_opt(l9, "Observer"@, m.observer);
    let l11 = push_opt(l10, "Notes"@, m.notes);
    l11
}

/// Metadata whose header reads back as itself: every present value clean,
/// and a date that the date reader gives back unchanged.
pub open spec fn clean_header(m: CsvMetaV) -> bool {
    &&& clean_value(m.date)
    &&& parse_date_spec(m.date) == Some(m.date)
    &&& !date_slice_panics(m.date)
    &&& clean_opt(m.title) && clean_opt(m.operator) && clean_opt(m.description) && clean_opt(m.copyright) && clean_opt(m.surface) && clean_opt(m.sample_backing) && clean_opt(m.instrument_model) && clean_opt(m.sample_id) && clean_opt(m.illuminant) && clean_opt(m.observer) && clean_opt(m.notes)
}

proof fn lemma_body_push_opt(ls: Seq<Seq<char>>, k: Seq<char>, o: Option<Seq<char>>)
    ensures
        body(push_opt(ls, k, o)) == body(ls) + opt_meta_line(k, o),
{
    match o {
        Some(v) => {
            lemma_body_push(ls, key_line(k, v));
            assert(body(ls) + key_line(k, v) + seq!['\n'] =~= body(ls) + meta_line(k, v));
        },
        None => {
            assert(body(ls) + opt_meta_line(k, o) =~= body(ls));
        },
    }
}

/// The header text is its lines, each with a line end, and a blank line.
proof fn lemma_header_text(m: CsvMetaV)
    ensures
        meta_header(m) == body(header_lines(m)) + seq!['\n'],
{
    let l0 = seq![
        key_line("Measurement_Type"@, measurement_type_name(m.measurement_type)),
        key_line("Date"@, m.date),
    ];
    let l1 = push_opt(l0, "Title"@, m.title);
    let l2 = push_opt(l1, "Operator"@, m.operator);
    let l3 = push_opt(l2, "Description"@, m.description);
    let l4 = push_opt(l3, "Copyright"@, m.copyright);
    let l5 = push_opt(l4, "Surface"@, m.surface);
    let l6 = push_opt(l5, "Sample_Backing"@, m.sample_backing);
    let l7 = push_opt(l6, "Instrument"@, m.instrument_model);
    let l8 = push_opt(l7, "Sample_ID"@, m.sample_id);
    let l9 = push_opt(l8, "Illuminant"@, m.illuminant);
    let l10 = push_opt(l9, "Observer"@, m.observer);
    let l11 = push_opt(l10, "Notes"@, m.notes);
    let mt = key_line("Measurement_Type"@, measurement_type_name(m.measurement_type));
    let dt = key_line("Date"@, m.date);
    assert(l0 == seq![].push(mt).push(dt)) by {
        assert(l0 =~= seq![].push(mt).push(dt));
    }
    lemma_body_push(seq![], mt);
    lemma_body_push(seq![].push(mt), dt);
    let b0 = meta_line("Measurement_Type"@, measurement_type_name(m.measurement_type)) + meta_line(
        "Date"@,
        m.date,
    );
    assert(body(l0) =~= b0);
    lemma_body_push_opt(l0, "Title"@, m.title);
    lemma_body_push_opt(l1, "Operator"@, m.operator);
    lemma_body_push_opt(l2, "Description"@, m.description);
    lemma_body_push_opt(l3, "Copyright"@, m.copyright);
    lemma_body_push_opt(l4, "Surface"@, m.surface);
    lemma_body_push_opt(l5, "Sample_Backing"@, m.sample_backing);
    lemma_body_push_opt(l6, "Instrument"@, m.instrument_model);
    lemma_body_push_opt(l7, "Sample_ID"@, m.sample_id);
    lemma_body_push_opt(l8, "Illuminant"@, m.illuminant);
    lemma_body_push_opt(l9, "Observer"@, m.observer);
    lemma_body_push_opt(l10, "Notes"@, m.notes);
    assert(meta_header(m) =~= body(l11) + seq!['\n']);
}

/// The header block, read line by line from the start.
proof fn lemma_pre_data_push(ls: Seq<Seq<char>>, l: Seq<char>, d: char)
    ensures
        pre_data_go(ls.push(l), d) == match pre_data_go(ls, d) {
            None => None,
            Some((m, h)) => match try_kv_spec(l, d) {
                Some((k, v)) => if is_date_key(lower_case(k)) && date_slice_panics(v) {
                    None
                } else {
                    Some((apply_kv_spec(m, k, v), h))
                },
                None => {
                    let f = crate::fields::split_fields_spec(l, d);
                    if f.len() >= 2 {
                        Some((m, Some(f)))
                    } else {
                        Some((m, h))
                    }
                },
            },
        },
{
    assert(ls.push(l).drop_last() =~= ls);
}


/// Each line is free of line ends and carriage returns, and meaningful.
pub open spec fn good_lines(ls: Seq<Seq<char>>) -> bool {
    forall|i: int|
        0 <= i < ls.len() ==> !(#[trigger] ls[i]).contains('\n') && strip_cr(ls[i]) == ls[i]
            && is_meaningful(ls[i])
}

proof fn lemma_good_push(ls: Seq<Seq<char>>, k: Seq<char>, v: Seq<char>)
    requires
        good_lines(ls),
        plain_key(k),
        clean_value(v),
    ensures
        good_lines(ls.push(key_line(k, v))),
{
    lemma_key_line_shape(k, v);
    let r = ls.push(key_line(k, v));
    assert forall|i: int| 0 <= i < r.len() implies !(#[trigger] r[i]).contains('\n') && strip_cr(
        r[i],
    ) == r[i] && is_meaningful(r[i]) by {
        if i < ls.len() {
            assert(r[i] == ls[i]);
        }
    }
}

proof fn lemma_good_push_opt(ls: Seq<Seq<char>>, k: Seq<char>, o: Option<Seq<char>>)
    requires
        good_lines(ls),
        plain_key(k),
        clean_opt(o),
    ensures
        good_lines(push_opt(ls, k, o)),
{
    match o {
        Some(v) => lemma_good_push(ls, k, v),
        None => {},
    }
}

proof fn lemma_pre_data_push_opt(
    ls: Seq<Seq<char>>,
    k: Seq<char>,
    o: Option<Seq<char>>,
    d: char,
    ms: CsvMetaV,
)
    requires
        pre_data_go(ls, d) == Some((ms, None::<Seq<Seq<char>>>)),
        plain_key(k),
        clean_opt(o),
        !is_date_key(lower_case(k)),
        d == ',' || d == '\t',
    ensures
        pre_data_go(push_opt(ls, k, o), d) == Some(
            (
                match o {
                    Some(v) => apply_kv_spec(ms, k, v),
                    None => ms,
                },
                None::<Seq<Seq<char>>>,
            ),
        ),
{
    match o {
        Some(v) => {
            lemma_try_kv_key_line(k, v, d);
            lemma_pre_data_push(ls, key_line(k, v), d);
        },
        None => {},
    }
}

/// The first two lines set the measurement type and the date.
proof fn lemma_pre_data_first(m: CsvMetaV, d: char)
    requires
        d == ',' || d == '\t',
        clean_header(m),
    ensures
        pre_data_go(
            seq![
                key_line("Measurement_Type"@, measurement_type_name(m.measurement_type)),
                key_line("Date"@, m.date),
            ],
            d,
        ) == Some(
            (
                (CsvMetaV { measurement_type: m.measurement_type, date: m.date, ..default_meta() }),
                None::<Seq<Seq<char>>>,
            ),
        ),
{
    let name = measurement_type_name(m.measurement_type);
    let mt = key_line("Measurement_Type"@, name);
    let dt = key_line("Date"@, m.date);
    lemma_name_plain(m.measurement_type);
    lemma_plain_clean(name);
    lemma_measurement_type_name_round_trip(m.measurement_type);
    lemma_apply_measurement_type(default_meta(), name);
    lemma_apply_date(CsvMetaV { measurement_type: m.measurement_type, ..default_meta() }, m.date);
    lemma_try_kv_key_line("Measurement_Type"@, name, d);
    lemma_try_kv_key_line("Date"@, m.date, d);
    assert(seq![mt, dt] =~= seq![].push(mt).push(dt));
    lemma_pre_data_push(seq![], mt, d);
    lemma_pre_data_push(seq![].push(mt), dt, d);
}

proof fn lemma_step_title(ls: Seq<Seq<char>>, ms: CsvMetaV, o: Option<Seq<char>>, d: char)
    requires
        pre_data_go(ls, d) == Some((ms, None::<Seq<Seq<char>>>)),
        ms.title is None,
        clean_opt(o),
        d == ',' || d == '\t',
    ensures
        pre_data_go(push_opt(ls, "Title"@, o), d) == Some(
            ((CsvMetaV { title: o, ..ms }), None::<Seq<Seq<char>>>),
        ),
{
    lemma_apply_title(ms, seq![]);
    match o {
        Some(v) => lemma_apply_title(ms, v),
        None => {},
    }
    lemma_pre_data_push_opt(ls, "Title"@, o, d, ms);
}

proof fn lemma_step_operator(ls: Seq<Seq<char>>, ms: CsvMetaV, o: Option<Seq<char>>, d: char)
    requires
        pre_data_go(ls, d) == Some((ms, None::<Seq<Seq<char>>>)),
        ms.operator is None,
        clean_opt(o),
        d == ',' || d == '\t',
    ensures
        pre_data_go(push_opt(ls, "Operator"@, o), d) == Some(
            ((CsvMetaV { operator: o, ..ms }), None::<Seq<Seq<char>>>),
        ),
{
    lemma_apply_operator(ms, seq![]);
    match o {
        Some(v) => lemma_apply_operator(ms, v),
        None => {},
    }
    lemma_pre_data_push_opt(ls, "Operator"@, o, d, ms);
}

proof fn lemma_step_description(ls: Seq<Seq<char>>, ms: CsvMetaV, o: Option<Seq<char>>, d: char)
    requires
        pre_data_go(ls, d) == Some((ms, None::<Seq<Seq<char>>>)),
        ms.description is None,
        clean_opt(o),
        d == ',' || d == '\t',
    ensures
        pre_data_go(push_opt(ls, "Description"@, o), d) == Some(
            ((CsvMetaV { description: o, ..ms }), None::<Seq<Seq<char>>>),
        ),
{
    lemma_apply_description(ms, seq![]);
    match o {
        Some(v) => lemma_apply_description(ms, v),
        None => {},
    }
    lemma_pre_data_push_opt(ls, "Description"@, o, d, ms);
}

proof fn lemma_step_copyright(ls: Seq<Seq<char>>, ms: CsvMetaV, o: Option<Seq<char>>, d: char)
    requires
        pre_data_go(ls, d) == Some((ms, None::<Seq<Seq<char>>>)),
        ms.copyright is None,
        clean_opt(o),
        d == ',' || d == '\t',
    ensures
        pre_data_go(push_opt(ls, "Copyright"@, o), d) == Some(
            ((CsvMetaV { copyright: o, ..ms }), None::<Seq<Seq<char>>>),
        ),
{
    lemma_apply_copyright(ms, seq![]);
    match o {
        Some(v) => lemma_apply_copyright(ms, v),
        None => {},
    }
    lemma_pre_data_push_opt(ls, "Copyright"@, o, d, ms);
}

proof fn lemma_step_surface(ls: Seq<Seq<char>>, ms: CsvMetaV, o: Option<Seq<char>>, d: char)
    requires
        pre_data_go(ls, d) == Some((ms, None::<Seq<Seq<char>>>)),
        ms.surface is None,
        clean_opt(o),
        d == ',' || d == '\t',
    ensures
        pre_data_go(push_opt(ls, "Surface"@, o), d) == Some(
            ((CsvMetaV { surface: o, ..ms }), None::<Seq<Seq<char>>>),
        ),
{
    lemma_apply_surface(ms, seq![]);
    match o {
        Some(v) => lemma_apply_surface(ms, v),
        None => {},
    }
    lemma_pre_data_push_opt(ls, "Surface"@, o, d, ms);
}

proof fn lemma_step_sample_backing(ls: Seq<Seq<char>>, ms: CsvMetaV, o: Option<Seq<char>>, d: char)
    requires
        pre_data_go(ls, d) == Some((ms, None::<Seq<Seq<char>>>)),
        ms.sample_backing is None,
        clean_opt(o),
        d == ',' || d == '\t',
    ensures
        pre_data_go(push_opt(ls, "Sample_Backing"@, o), d) == Some(
            ((CsvMetaV { sample_backing: o, ..ms }), None::<Seq<Seq<char>>>),
        ),
{
    lemma_apply_sample_backing(ms, seq![]);
    match o {
        Some(v) => lemma_apply_sample_backing(ms, v),
        None => {},
    }
    lemma_pre_data_push_opt(ls, "Sample_Backing"@, o, d, ms);
}

proof fn lemma_step_instrument(ls: Seq<Seq<char>>, ms: CsvMetaV, o: Option<Seq<char>>, d: char)
    requires
        pre_data_go(ls, d) == Some((ms, None::<Seq<Seq<char>>>)),
        ms.instrument_model is None,
        clean_opt(o),
        d == ',' || d == '\t',
    ensures
        pre_data_go(push_opt(ls, "Instrument"@, o), d) == Some(
            ((CsvMetaV { instrument_model: o, ..ms }), None::<Seq<Seq<char>>>),
        ),
{
    lemma_apply_instrument(ms, seq![]);
    match o {
        Some(v) => lemma_apply_instrument(ms, v),
        None => {},
    }
    lemma_pre_data_push_opt(ls, "Instrument"@, o, d, ms);
}

proof fn lemma_step_sample_id(ls: Seq<Seq<char>>, ms: CsvMetaV, o: Option<Seq<char>>, d: char)
    requires
        pre_data_go(ls, d) == Some((ms, None::<Seq<Seq<char>>>)),
        ms.sample_id is None,
        clean_opt(o),
        d == ',' || d == '\t',
    ensures
        pre_data_go(push_opt(ls, "Sample_ID"@, o), d) == Some(
            ((CsvMetaV { sample_id: o, ..ms }), None::<Seq<Seq<char>>>),
        ),
{
    lemma_apply_sample_id(ms, seq![]);
    match o {
        Some(v) => lemma_apply_sample_id(ms, v),
        None => {},
    }
    lemma_pre_data_push_opt(ls, "Sample_ID"@, o, d, ms);
}

proof fn lemma_step_illuminant(ls: Seq<Seq<char>>, ms: CsvMetaV, o: Option<Seq<char>>, d: char)
    requires
        pre_data_go(ls, d) == Some((ms, None::<Seq<Seq<char>>>)),
        ms.illuminant is None,
        clean_opt(o),
        d == ',' || d == '\t',
    ensures
        pre_data_go(push_opt(ls, "Illuminant"@, o), d) == Some(
            ((CsvMetaV { illuminant: o, ..ms }), None::<Seq<Seq<char>>>),
        ),
{
    lemma_apply_illuminant(ms, seq![]);
    match o {
        Some(v) => lemma_apply_illuminant(ms, v),
        None => {},
    }
    lemma_pre_data_push_opt(ls, "Illuminant"@, o, d, ms);
}

proof fn lemma_step_observer(ls: Seq<Seq<char>>, ms: CsvMetaV, o: Option<Seq<char>>, d: char)
    requires
        pre_data_go(ls, d) == Some((ms, None::<Seq<Seq<char>>>)),
        ms.observer is None,
        clean_opt(o),
        d == ',' || d == '\t',
    ensures
        pre_data_go(push_opt(ls, "Observer"@, o), d) == Some(
            ((CsvMetaV { observer: o, ..ms }), None::<Seq<Seq<char>>>),
        ),
{
    lemma_apply_observer(ms, seq![]);
    match o {
        Some(v) => lemma_apply_observer(ms, v),
        None => {},
    }
    lemma_pre_data_push_opt(ls, "Observer"@, o, d, ms);
}

proof fn lemma_step_notes(ls: Seq<Seq<char>>, ms: CsvMetaV, o: Option<Seq<char>>, d: char)
    requires
        pre_data_go(ls, d) == Some((ms, None::<Seq<Seq<char>>>)),
        ms.notes is None,
        clean_opt(o),
        d == ',' || d == '\t',
    ensures
        pre_data_go(push_opt(ls, "Notes"@, o), d) == Some(
            ((CsvMetaV { notes: o, ..ms }), None::<Seq<Seq<char>>>),
        ),
{
    lemma_apply_notes(ms, seq![]);
    match o {
        Some(v) => lemma_apply_notes(ms, v),
        None => {},
    }
    lemma_pre_data_push_opt(ls, "Notes"@, o, d, ms);
}

/// Reading the header lines gives the metadata.
proof fn lemma_pre_data_header_lines(m: CsvMetaV, d: char)
    requires
        d == ',' || d == '\t',
        clean_header(m),
    ensures
        pre_data_go(header_lines(m), d) == Some(
            ((CsvMetaV { custom: Map::empty(), ..m }), None::<Seq<Seq<char>>>),
        ),
{
    let l0 = seq![
        key_line("Measurement_Type"@, measurement_type_name(m.measurement_type)),
        key_line("Date"@, m.date),
    ];
    let l1 = push_opt(l0, "Title"@, m.title);
    let l2 = push_opt(l1, "Operator"@, m.operator);
    let l3 = push_opt(l2, "Description"@, m.description);
    let l4 = push_opt(l3, "Copyright"@, m.copyright);
    let l5 = push_opt(l4, "Surface"@, m.surface);
    let l6 = push_opt(l5, "Sample_Backing"@, m.sample_backing);
    let l7 = push_opt(l6, "Instrument"@, m.instrument_model);
    let l8 = push_opt(l7, "Sample_ID"@, m.sample_id);
    let l9 = push_opt(l8, "Illuminant"@, m.illuminant);
    let l10 = push_opt(l9, "Observer"@, m.observer);
    let l11 = push_opt(l10, "Notes"@, m.notes);
    lemma_pre_data_first(m, d);
    let s0 = CsvMetaV { measurement_type: m.measurement_type, date: m.date, ..default_meta() };
    let s1 = CsvMetaV { title: m.title, ..s0 };
    lemma_step_title(l0, s0, m.title, d);
    let s2 = CsvMetaV { operator: m.operator, ..s1 };
    lemma_step_operator(l1, s1, m.operator, d);
    let s3 = CsvMetaV { description: m.description, ..s2 };
    lemma_step_description(l2, s2, m.description, d);
    let s4 = CsvMetaV { copyright: m.copyright, ..s3 };
    lemma_step_copyright(l3, s3, m.copyright, d);
    let s5 = CsvMetaV { surface: m.surface, ..s4 };
    lemma_step_surface(l4, s4, m.surface, d);
    let s6 = CsvMetaV { sample_backing: m.sample_backing, ..s5 };
    lemma_step_sample_backing(l5, s5, m.sample_backing, d);
    let s7 = CsvMetaV { instrument_model: m.instrument_model, ..s6 };
    lemma_step_instrument(l6, s6, m.instrument_model, d);
    let s8 = CsvMetaV { sample_id: m.sample_id, ..s7 };
    lemma_step_sample_id(l7, s7, m.sample_id, d);
    let s9 = CsvMetaV { illuminant: m.illuminant, ..s8 };
    lemma_step_illuminant(l8, s8, m.illuminant, d);
    let s10 = CsvMetaV { observer: m.observer, ..s9 };
    lemma_step_observer(l9, s9, m.observer, d);
    let s11 = CsvMetaV { notes: m.notes, ..s10 };
    lemma_step_notes(l10, s10, m.notes, d);
    assert(s11 == CsvMetaV { custom: Map::empty(), ..m });
}

/// The header lines are all free of line ends and meaningful.
proof fn lemma_header_lines_good(m: CsvMetaV)
    requires
        clean_header(m),
    ensures
        good_lines(header_lines(m)),
{
    let l0 = seq![
        key_line("Measurement_Type"@, measurement_type_name(m.measurement_type)),
        key_line("Date"@, m.date),
    ];
    let l1 = push_opt(l0, "Title"@, m.title);
    let l2 = push_opt(l1, "Operator"@, m.operator);
    let l3 = push_opt(l2, "Description"@, m.description);
    let l4 = push_opt(l3, "Copyright"@, m.copyright);
    let l5 = push_opt(l4, "Surface"@, m.surface);
    let l6 = push_opt(l5, "Sample_Backing"@, m.sample_backing);
    let l7 = push_opt(l6, "Instrument"@, m.instrument_model);
    let l8 = push_opt(l7, "Sample_ID"@, m.sample_id);
    let l9 = push_opt(l8, "Illuminant"@, m.illuminant);
    let l10 = push_opt(l9, "Observer"@, m.observer);
    let l11 = push_opt(l10, "Notes"@, m.notes);
    let name = measurement_type_name(m.measurement_type);
    let mt = key_line("Measurement_Type"@, name);
    lemma_name_plain(m.measurement_type);
    lemma_plain_clean(name);
    lemma_apply_measurement_type(default_meta(), name);
    lemma_apply_date(default_meta(), m.date);
    assert(good_lines(seq![]));
    lemma_good_push(seq![], "Measurement_Type"@, name);
    lemma_good_push(seq![].push(mt), "Date"@, m.date);
    assert(l0 =~= seq![].push(mt).push(key_line("Date"@, m.date)));
    lemma_apply_title(default_meta(), seq![]);
    lemma_good_push_opt(l0, "Title"@, m.title);
    lemma_apply_operator(default_meta(), seq![]);
    lemma_good_push_opt(l1, "Operator"@, m.operator);
    lemma_apply_description(default_meta(), seq![]);
    lemma_good_push_opt(l2, "Description"@, m.description);
    lemma_apply_copyright(default_meta(), seq![]);
    lemma_good_push_opt(l3, "Copyright"@, m.copyright);
    lemma_apply_surface(default_meta(), seq![]);
    lemma_good_push_opt(l4, "Surface"@, m.surface);
    lemma_apply_sample_backing(default_meta(), seq![]);
    lemma_good_push_opt(l5, "Sample_Backing"@, m.sample_backing);
    lemma_apply_instrument(default_meta(), seq![]);
    lemma_good_push_opt(l6, "Instrument"@, m.instrument_model);
    lemma_apply_sample_id(default_meta(), seq![]);
    lemma_good_push_opt(l7, "Sample_ID"@, m.sample_id);
    lemma_apply_illuminant(default_meta(), seq![]);
    lemma_good_push_opt(l8, "Illuminant"@, m.illuminant);
    lemma_apply_observer(default_meta(), seq![]);
    lemma_good_push_opt(l9, "Observer"@, m.observer);
    lemma_apply_notes(default_meta(), seq![]);
    lemma_good_push_opt(l10, "Notes"@, m.notes);
}

/// The meaningful lines of the header text are the header lines.
proof fn lemma_header_meaningful(m: CsvMetaV)
    requires
        clean_header(m),
    ensures
        meaningful(lines(meta_header(m))) == header_lines(m),
{
    let hl = header_lines(m);
    lemma_header_lines_good(m);
    lemma_header_text(m);
    lemma_lines_body(hl, seq!['\n']);
    lemma_lines_cons(seq![], seq![]);
    assert(Seq::<char>::empty() + seq!['\n'] + Seq::<char>::empty() =~= seq!['\n']);
    assert(lines(seq!['\n']) =~= seq![Seq::<char>::empty()]);
    lemma_meaningful_all(hl);
    let all = hl + seq![Seq::<char>::empty()];
    assert(all.drop_last() =~= hl);
    assert(!is_meaningful(Seq::<char>::empty()));
}

/// Writing the metadata header and reading it back gives the metadata, with
/// no column-header row; custom pairs are not written, so none come back.
pub proof fn lemma_meta_header_round_trip(m: CsvMetaV, d: char)
    requires
        d == ',' || d == '\t',
        clean_header(m),
    ensures
        pre_data_go(meaningful(lines(meta_header(m))), d) == Some(
            ((CsvMetaV { custom: Map::empty(), ..m }), None::<Seq<Seq<char>>>),
        ),
{
    lemma_header_meaningful(m);
    lemma_pre_data_header_lines(m, d);
}


// ───────────────────────── the column-header row ─────────────────────────

/// Characters that are neither quotes nor the delimiter are taken as they are.
proof fn lemma_split_plain(
    s: Seq<char>,
    d: char,
    i: int,
    j: int,
    cur: Seq<char>,
    acc: Seq<Seq<char>>,
)
    requires
        0 <= i <= j <= s.len(),
        forall|k: int| i <= k < j ==> s[k] != '"' && s[k] != d,
    ensures
        split_go(s, d, i, false, cur, acc) == split_go(s, d, j, false, cur + s.subrange(i, j), acc),
    decreases j - i,
{
    if i == j {
        assert(cur + s.subrange(i, j) =~= cur);
    } else {
        lemma_split_plain(s, d, i + 1, j, cur.push(s[i]), acc);
        assert(cur.push(s[i]) + s.subrange(i + 1, j) =~= cur + s.subrange(i, j));
    }
}

proof fn lemma_escape_append(a: Seq<char>, b: Seq<char>)
    ensures
        escape_quotes(a + b) == escape_quotes(a) + escape_quotes(b),
    decreases b.len(),
{
    if b.len() == 0 {
        assert(a + b =~= a);
        assert(escape_quotes(b) =~= Seq::<char>::empty());
        assert(escape_quotes(a) + escape_quotes(b) =~= escape_quotes(a));
    } else {
        lemma_escape_append(a, b.drop_last());
        assert((a + b).drop_last() =~= a + b.drop_last());
        assert((a + b).last() == b.last());
    }
}

proof fn lemma_escape_cons(c: char, x: Seq<char>)
    ensures
        escape_quotes(seq![c] + x) == (if c == '"' {
            seq!['"', '"']
        } else {
            seq![c]
        }) + escape_quotes(x),
{
    lemma_escape_append(seq![c], x);
    assert(seq![c].drop_last() =~= Seq::<char>::empty());
    assert(escape_quotes(Seq::<char>::empty()) =~= Seq::<char>::empty());
    assert(seq![c].last() == c);
    assert(escape_quotes(seq![c]) =~= (if c == '"' {
        seq!['"', '"']
    } else {
        seq![c]
    }));
}

/// A quoted section: the escaped text and its closing quote give the text.
proof fn lemma_split_quoted(
    s: Seq<char>,
    d: char,
    i: int,
    x: Seq<char>,
    cur: Seq<char>,
    acc: Seq<Seq<char>>,
)
    requires
        0 <= i,
        i + escape_quotes(x).len() < s.len(),
        s.subrange(i, i + escape_quotes(x).len()) == escape_quotes(x),
        s[i + escape_quotes(x).len()] == '"',
        i + escape_quotes(x).len() + 1 == s.len() || s[i + escape_quotes(x).len() + 1] != '"',
    ensures
        split_go(s, d, i, true, cur, acc) == split_go(
            s,
            d,
            i + escape_quotes(x).len() + 1,
            false,
            cur + x,
            acc,
        ),
    decreases x.len(),
{
    let e = escape_quotes(x);
    if x.len() == 0 {
        assert(cur + x =~= cur);
    } else {
        let c = x[0];
        let r = x.drop_first();
        assert(x =~= seq![c] + r);
        lemma_escape_cons(c, r);
        let er = escape_quotes(r);
        if c == '"' {
            assert(s[i] == e[0]);
            assert(s[i + 1] == e[1]);
            assert(s.subrange(i + 2, i + 2 + er.len()) =~= er) by {
                assert forall|k: int| 0 <= k < er.len() implies s.subrange(i + 2, i + 2 + er.len())[k]
                    == er[k] by {
                    assert(s.subrange(i, i + e.len())[k + 2] == e[k + 2]);
                }
            }
            lemma_split_quoted(s, d, i + 2, r, cur.push('"'), acc);
            assert(cur.push('"') + r =~= cur + x);
        } else {
            assert(s[i] == e[0]);
            assert(s.subrange(i + 1, i + 1 + er.len()) =~= er) by {
                assert forall|k: int| 0 <= k < er.len() implies s.subrange(i + 1, i + 1 + er.len())[k]
                    == er[k] by {
                    assert(s.subrange(i, i + e.len())[k + 1] == e[k + 1]);
                }
            }
            lemma_split_quoted(s, d, i + 1, r, cur.push(c), acc);
            assert(cur.push(c) + r =~= cur + x);
        }
    }
}

proof fn lemma_id_cells_append(a: Seq<Seq<char>>, b: Seq<Seq<char>>, d: char)
    ensures
        id_cells(a + b, d) == id_cells(a, d) + id_cells(b, d),
    decreases b.len(),
{
    if b.len() == 0 {
        assert(a + b =~= a);
        assert(id_cells(a, d) + id_cells(b, d) =~= id_cells(a, d));
    } else {
        lemma_id_cells_append(a, b.drop_last(), d);
        assert((a + b).drop_last() =~= a + b.drop_last());
        assert((a + b).last() == b.last());
    }
}

/// A row of fields, each quoted as needed, joined by the delimiter.
pub open spec fn quoted_row(fs: Seq<Seq<char>>, d: char) -> Seq<char> {
    if fs.len() == 0 {
        seq![]
    } else {
        quote_field_spec(fs[0], d) + id_cells(fs.drop_first(), d)
    }
}

/// Each field trimmed.
pub open spec fn trim_all(fs: Seq<Seq<char>>) -> Seq<Seq<char>> {
    fs.map_values(|f: Seq<char>| trim(f))
}

proof fn lemma_id_cells_cons(x: Seq<char>, rest: Seq<Seq<char>>, d: char)
    ensures
        id_cells(seq![x] + rest, d) == seq![d] + quote_field_spec(x, d) + id_cells(rest, d),
{
    lemma_id_cells_append(seq![x], rest, d);
    assert(seq![x].drop_last() =~= Seq::<Seq<char>>::empty());
    assert(id_cells(Seq::<Seq<char>>::empty(), d) =~= Seq::<char>::empty());
    assert(seq![x].last() == x);
    assert(id_cells(seq![x], d) =~= seq![d] + quote_field_spec(x, d));
}

/// The cells after a field, each led by the delimiter, read back as their
/// fields, trimmed.
proof fn lemma_split_cells(
    s: Seq<char>,
    d: char,
    i: int,
    ids: Seq<Seq<char>>,
    cur: Seq<char>,
    acc: Seq<Seq<char>>,
)
    requires
        d != '"',
        0 <= i <= s.len(),
        s.skip(i) == id_cells(ids, d),
    ensures
        split_go(s, d, i, false, cur, acc) == acc.push(trim(cur)) + trim_all(ids),
    decreases ids.len(), 1int,
{
    if ids.len() == 0 {
        assert(s.skip(i).len() == 0);
        assert(acc.push(trim(cur)) + trim_all(ids) =~= acc.push(trim(cur)));
    } else {
        let x = ids[0];
        let rest = ids.drop_first();
        assert(ids =~= seq![x] + rest);
        lemma_id_cells_cons(x, rest, d);
        let t = s.skip(i);
        assert(t.len() > 0);
        assert(s[i] == t[0]);
        assert(s[i] == d);
        assert(s.skip(i + 1) =~= quoted_row(ids, d)) by {
            assert(quoted_row(ids, d) =~= quote_field_spec(x, d) + id_cells(rest, d));
            assert forall|k: int| 0 <= k < s.skip(i + 1).len() implies s.skip(i + 1)[k]
                == t.drop_first()[k] by {}
            assert(t.drop_first() =~= quote_field_spec(x, d) + id_cells(rest, d));
        }
        lemma_split_row(s, d, i + 1, ids, acc.push(trim(cur)));
        assert(split_go(s, d, i, false, cur, acc) == split_go(
            s,
            d,
            i + 1,
            false,
            seq![],
            acc.push(trim(cur)),
        ));
    }
}

/// A row of quoted fields, read from position `i`, gives its fields,
/// trimmed.
proof fn lemma_split_row(
    s: Seq<char>,
    d: char,
    i: int,
    fs: Seq<Seq<char>>,
    acc: Seq<Seq<char>>,
)
    requires
        d != '"',
        fs.len() > 0,
        0 <= i <= s.len(),
        s.skip(i) == quoted_row(fs, d),
    ensures
        split_go(s, d, i, false, seq![], acc) == acc + trim_all(fs),
    decreases fs.len(), 0int,
{
    let x = fs[0];
    let rest = fs.drop_first();
    let q = quote_field_spec(x, d);
    let t = s.skip(i);
    assert(t =~= q + id_cells(rest, d));
    let j = i + q.len();
    assert(s.skip(j) =~= id_cells(rest, d)) by {
        assert forall|k: int| 0 <= k < s.skip(j).len() implies s.skip(j)[k] == id_cells(
            rest,
            d,
        )[k] by {
            assert(t[k + q.len()] == s[j + k]);
        }
    }
    if needs_quotes(x, d) {
        let e = escape_quotes(x);
        assert(q =~= seq!['"'] + e + seq!['"']);
        assert(s[i] == t[0]);
        assert(s.subrange(i + 1, i + 1 + e.len()) =~= e) by {
            assert forall|k: int| 0 <= k < e.len() implies s.subrange(i + 1, i + 1 + e.len())[k]
                == e[k] by {
                assert(t[k + 1] == s[i + 1 + k]);
            }
        }
        assert(s[i + 1 + e.len()] == t[1 + e.len() as int]);
        if j < s.len() {
            assert(s[j] == s.skip(j)[0]);
            assert(id_cells(rest, d)[0] == d) by {
                let y = rest[0];
                let r2 = rest.drop_first();
                assert(rest =~= seq![y] + r2);
                lemma_id_cells_cons(y, r2, d);
            }
        }
        lemma_split_quoted(s, d, i + 1, x, seq![], acc);
        assert(Seq::<char>::empty() + x =~= x);
        assert(s[i] == '"');
        assert(i + 1 + e.len() + 1 == j);
        assert(split_go(s, d, i, false, seq![], acc) == split_go(s, d, i + 1, true, seq![], acc));
    } else {
        assert(q == x);
        assert forall|k: int| i <= k < j implies s[k] != '"' && s[k] != d by {
            assert(s[k] == t[k - i]);
            assert(t[k - i] == x[k - i]);
            if s[k] == '"' {
                assert(x.contains('"'));
            }
            if s[k] == d {
                assert(x.contains(d));
            }
        }
        lemma_split_plain(s, d, i, j, seq![], acc);
        assert forall|k: int| 0 <= k < x.len() implies s.subrange(i, j)[k] == x[k] by {
            assert(s[i + k] == t[k]);
        }
        assert(Seq::<char>::empty() + s.subrange(i, j) =~= x);
    }
    assert(split_go(s, d, i, false, seq![], acc) == split_go(s, d, j, false, x, acc));
    lemma_split_cells(s, d, j, rest, x, acc);
    assert(acc.push(trim(x)) + trim_all(rest) =~= acc + trim_all(fs));
}

/// Splitting a row made by quoting each field as needed and joining the
/// fields with the delimiter gives back the fields, trimmed.
pub proof fn lemma_quoted_row_round_trip(fs: Seq<Seq<char>>, d: char)
    requires
        d != '"',
        fs.len() > 0,
    ensures
        split_fields_spec(quoted_row(fs, d), d) == trim_all(fs),
{
    let s = quoted_row(fs, d);
    assert(s.skip(0) =~= s);
    lemma_split_row(s, d, 0, fs, seq![]);
    assert(Seq::<Seq<char>>::empty() + trim_all(fs) =~= trim_all(fs));
}

/// A single quoted field reads back as the field, trimmed.
pub proof fn lemma_quote_field_round_trip(f: Seq<char>, d: char)
    requires
        d != '"',
    ensures
        split_fields_spec(quote_field_spec(f, d), d) == seq![trim(f)],
{
    lemma_quoted_row_round_trip(seq![f], d);
    assert(seq![f].drop_first() =~= Seq::<Seq<char>>::empty());
    assert(id_cells(Seq::<Seq<char>>::empty(), d) =~= Seq::<char>::empty());
    assert(quoted_row(seq![f], d) =~= quote_field_spec(f, d));
    assert(trim_all(seq![f]) =~= seq![trim(f)]);
}

/// The index where the first `c` stands, or the length.
proof fn lemma_prefix_len_props(s: Seq<char>, c: char)
    ensures
        prefix_len(s, c) <= s.len(),
        forall|k: int| 0 <= k < prefix_len(s, c) ==> s[k] != c,
        prefix_len(s, c) == s.len() || s[prefix_len(s, c) as int] == c,
    decreases s.len(),
{
    if s.len() > 0 && s[0] != c {
        lemma_prefix_len_props(s.drop_first(), c);
        assert forall|k: int| 0 <= k < prefix_len(s, c) implies s[k] != c by {
            if k > 0 {
                assert(s[k] == s.drop_first()[k - 1]);
            }
        }
    }
}

/// Without quotes, a line read from position `i` splits at every
/// delimiter.
proof fn lemma_split_unquoted(s: Seq<char>, d: char, i: int, acc: Seq<Seq<char>>)
    requires
        0 <= i <= s.len(),
        !s.contains('"'),
    ensures
        split_go(s, d, i, false, seq![], acc) == acc + trim_all(split_on(s.skip(i), d)),
    decreases s.len() - i,
{
    let t = s.skip(i);
    let k = prefix_len(t, d) as int;
    lemma_prefix_len_props(t, d);
    assert forall|m: int| i <= m < i + k implies s[m] != '"' && s[m] != d by {
        assert(s[m] == t[m - i]);
        if s[m] == '"' {
            assert(s.contains('"'));
        }
    }
    lemma_split_plain(s, d, i, i + k, seq![], acc);
    assert(Seq::<char>::empty() + s.subrange(i, i + k) =~= t.take(k));
    if k >= t.len() {
        assert(t.take(k) =~= t);
        assert(split_on(t, d) == seq![t]);
        assert(acc.push(trim(t)) =~= acc + trim_all(seq![t]));
    } else {
        assert(s[i + k] == t[k]);
        lemma_split_unquoted(s, d, i + k + 1, acc.push(trim(t.take(k))));
        assert(s.skip(i + k + 1) =~= t.skip(k + 1));
        assert(split_on(t, d) == seq![t.take(k)] + split_on(t.skip(k + 1), d));
        assert(acc.push(trim(t.take(k))) + trim_all(split_on(t.skip(k + 1), d)) =~= acc
            + trim_all(seq![t.take(k)] + split_on(t.skip(k + 1), d)));
    }
}

/// A line without quotes splits at every delimiter, each piece trimmed.
pub proof fn lemma_split_without_quotes(s: Seq<char>, d: char)
    requires
        !s.contains('"'),
    ensures
        split_fields_spec(s, d) == trim_all(split_on(s, d)),
{
    lemma_split_unquoted(s, d, 0, seq![]);
    assert(s.skip(0) =~= s);
    assert(Seq::<Seq<char>>::empty() + trim_all(split_on(s, d)) =~= trim_all(split_on(s, d)));
}

/// Splitting the written column-header row gives back the wavelength label
/// and the identifiers, when no identifier has whitespace at either end.
pub proof fn lemma_header_row_round_trip(ids: Seq<Seq<char>>, d: char)
    requires
        d == ',' || d == '\t',
        forall|k: int| 0 <= k < ids.len() ==> trim(#[trigger] ids[k]) == ids[k],
    ensures
        split_fields_spec(header_row(ids, d).drop_last(), d) == seq!["wavelength_nm"@] + ids,
{
    reveal_strlit("wavelength_nm");
    let w = "wavelength_nm"@;
    let s = header_row(ids, d).drop_last();
    assert(s =~= w + id_cells(ids, d));
    lemma_split_plain(s, d, 0, w.len() as int, seq![], seq![]);
    assert(Seq::<char>::empty() + s.subrange(0, w.len() as int) =~= w);
    assert(s.skip(w.len() as int) =~= id_cells(ids, d));
    lemma_split_cells(s, d, w.len() as int, ids, w, seq![]);
    lemma_trim_id(w);
    assert(trim_all(ids) =~= ids);
    assert(seq![].push(w) + ids =~= seq![w] + ids);
}


// ───────────────────────── the header block ─────────────────────────

/// A first occurrence exists once some occurrence does.
proof fn lemma_first_occurrence(s: Seq<char>, p: Seq<char>, i: int)
    requires
        occurs_at(s, p, i),
    ensures
        exists|k: int| occurs_at(s, p, k) && forall|j: int| 0 <= j < k ==> !occurs_at(s, p, j),
    decreases i,
{
    if exists|j: int| 0 <= j < i && occurs_at(s, p, j) {
        let j = choose|j: int| 0 <= j < i && occurs_at(s, p, j);
        lemma_first_occurrence(s, p, j);
    } else {
        assert(occurs_at(s, p, i) && forall|j: int| 0 <= j < i ==> !occurs_at(s, p, j));
    }
}

/// What `find` gives is an occurrence.
proof fn lemma_find_occurs(s: Seq<char>, p: Seq<char>)
    ensures
        match find(s, p) {
            Some(x) => occurs_at(s, p, x),
            None => !contains_seq(s, p),
        },
{
    if contains_seq(s, p) {
        let i = choose|i: int| occurs_at(s, p, i);
        lemma_first_occurrence(s, p, i);
    }
}

/// Trimming keeps a character that is not whitespace, in its place, when
/// the text does not start with whitespace.
proof fn lemma_trim_keeps(s: Seq<char>, j: int)
    requires
        0 <= j < s.len(),
        !is_ws(s[0]),
        !is_ws(s[j]),
    ensures
        j < trim(s).len(),
        trim(s)[j] == s[j],
{
    assert(trim_start(s) == s);
    lemma_trim_end_keeps(s, j);
}

proof fn lemma_trim_end_keeps(s: Seq<char>, j: int)
    requires
        0 <= j < s.len(),
        !is_ws(s[j]),
    ensures
        j < trim_end(s).len(),
        trim_end(s)[j] == s[j],
    decreases s.len(),
{
    if is_ws(s.last()) {
        lemma_trim_end_keeps(s.drop_last(), j);
    }
}

/// The cells of the identifiers, read from the front.
pub open spec fn cells_front(ids: Seq<Seq<char>>, d: char) -> Seq<char>
    decreases ids.len(),
{
    if ids.len() == 0 {
        seq![]
    } else {
        seq![d] + quote_field_spec(ids[0], d) + cells_front(ids.drop_first(), d)
    }
}

proof fn lemma_cells_front(ids: Seq<Seq<char>>, d: char)
    ensures
        id_cells(ids, d) == cells_front(ids, d),
    decreases ids.len(),
{
    if ids.len() > 0 {
        let x = ids[0];
        let rest = ids.drop_first();
        assert(ids =~= seq![x] + rest);
        lemma_id_cells_append(seq![x], rest, d);
        assert(seq![x].drop_last() =~= Seq::<Seq<char>>::empty());
        assert(id_cells(Seq::<Seq<char>>::empty(), d) =~= Seq::<char>::empty());
        assert(seq![x].last() == x);
        assert(id_cells(seq![x], d) =~= seq![d] + quote_field_spec(x, d));
        lemma_cells_front(rest, d);
    }
}

/// The first identifier that is not empty, if any.
pub open spec fn first_nonempty(ids: Seq<Seq<char>>) -> Option<Seq<char>>
    decreases ids.len(),
{
    if ids.len() == 0 {
        None
    } else if ids[0].len() > 0 {
        Some(ids[0])
    } else {
        first_nonempty(ids.drop_first())
    }
}

/// An identifier written as it is that begins with `: `.
pub open spec fn bare_colon_start(x: Seq<char>, d: char) -> bool {
    x.len() >= 2 && x[0] == ':' && x[1] == ' ' && !needs_quotes(x, d)
}

/// A written cell does not start with whitespace.
proof fn lemma_quoted_start(x: Seq<char>, d: char)
    requires
        x.len() > 0,
        trim(x) == x,
    ensures
        quote_field_spec(x, d).len() > 0,
        !is_ws(quote_field_spec(x, d)[0]),
        needs_quotes(x, d) ==> quote_field_spec(x, d)[0] == '"',
        !needs_quotes(x, d) ==> quote_field_spec(x, d) == x,
{
    lemma_trim_start_not_ws(x);
    lemma_trim_end_len(trim_start(x));
    lemma_trim_start_len(x);
    assert(trim_start(x).len() > 0);
    if is_ws(x[0]) {
        assert(trim_start(x) == trim_start(x.drop_first()));
        lemma_trim_start_len(x.drop_first());
    }
}

/// Behind a tab delimiter, the whitespace at the start of the cells is
/// tabs only, and `: ` right after it begins a bare identifier.
proof fn lemma_cells_tab_prefix(ids: Seq<Seq<char>>, p: int)
    requires
        forall|k: int| 0 <= k < ids.len() ==> trim(#[trigger] ids[k]) == ids[k],
        0 <= p < cells_front(ids, '\t').len(),
        forall|j: int| 0 <= j < p ==> is_ws(#[trigger] cells_front(ids, '\t')[j]),
    ensures
        is_ws(cells_front(ids, '\t')[p]) ==> cells_front(ids, '\t')[p] == '\t',
        p + 1 < cells_front(ids, '\t').len() && cells_front(ids, '\t')[p] == ':'
            && cells_front(ids, '\t')[p + 1] == ' ' ==> match first_nonempty(ids) {
            Some(x) => bare_colon_start(x, '\t'),
            None => false,
        },
    decreases ids.len(),
{
    let c = cells_front(ids, '\t');
    let x = ids[0];
    let rest = ids.drop_first();
    let q = quote_field_spec(x, '\t');
    assert(c =~= seq!['\t'] + q + cells_front(rest, '\t'));
    assert(c[0] == '\t');
    if x.len() == 0 {
        assert(q =~= x);
        assert(c =~= seq!['\t'] + cells_front(rest, '\t'));
        if p > 0 {
            assert forall|k: int| 0 <= k < rest.len() implies trim(#[trigger] rest[k]) == rest[k] by {
                assert(rest[k] == ids[k + 1]);
            }
            assert forall|j: int| 0 <= j < p - 1 implies is_ws(#[trigger] cells_front(rest, '\t')[j]) by {
                assert(cells_front(rest, '\t')[j] == c[j + 1]);
            }
            assert(cells_front(rest, '\t')[p - 1] == c[p]);
            if p < c.len() - 1 {
                assert(cells_front(rest, '\t')[p] == c[p + 1]);
            }
            lemma_cells_tab_prefix(rest, p - 1);
        }
    } else {
        lemma_quoted_start(x, '\t');
        assert(c[1] == q[0]);
        if p >= 2 {
            assert(is_ws(c[1]));
        }
        if p == 1 && p + 1 < c.len() && c[1] == ':' && c[2] == ' ' {
            assert(c[2] == q[1]);
            assert(first_nonempty(ids) == Some(x));
        }
    }
}


/// A separator found in the column-header row lies after the delimiter
/// that follows the label.
proof fn lemma_row_sep_after_label(ids: Seq<Seq<char>>, d: char, sep: Seq<char>, p: int)
    requires
        d == ',' || d == '\t',
        sep == seq![':', ' '] || sep == seq![' ', '=', ' '],
        occurs_at("wavelength_nm"@ + id_cells(ids, d), sep, p),
    ensures
        p > 13,
        ids.len() > 0,
        ("wavelength_nm"@ + id_cells(ids, d))[13] == d,
{
    reveal_strlit("wavelength_nm");
    let w = "wavelength_nm"@;
    let c = id_cells(ids, d);
    let row = w + c;
    lemma_cells_front(ids, d);
    assert(row.subrange(p, p + sep.len())[0] == sep[0]);
    assert(row[p] == sep[0]);
    if p < 13 {
        assert(row[p] == w[p]);
    }
    assert(c.len() > 0);
    assert(c =~= seq![d] + quote_field_spec(ids[0], d) + cells_front(ids.drop_first(), d));
    assert(row[13] == c[0]);
}

/// With a tab delimiter, a separator found in the column-header row has a
/// character that is not whitespace between the label's tab and itself.
proof fn lemma_row_tab_sep(ids: Seq<Seq<char>>, sep: Seq<char>, p: int)
    requires
        forall|k: int| 0 <= k < ids.len() ==> trim(#[trigger] ids[k]) == ids[k],
        match first_nonempty(ids) {
            Some(x) => !bare_colon_start(x, '\t'),
            None => true,
        },
        sep == seq![':', ' '] || sep == seq![' ', '=', ' '],
        occurs_at("wavelength_nm"@ + id_cells(ids, '\t'), sep, p),
        p > 13,
    ensures
        exists|j: int| 14 <= j < p && !is_ws(("wavelength_nm"@ + id_cells(ids, '\t'))[j]),
{
    reveal_strlit("wavelength_nm");
    let w = "wavelength_nm"@;
    let c = id_cells(ids, '\t');
    let row = w + c;
    lemma_cells_front(ids, '\t');
    if !exists|j: int| 14 <= j < p && !is_ws(row[j]) {
        let pc = p - 13;
        assert forall|j: int| 0 <= j < pc implies is_ws(#[trigger] cells_front(ids, '\t')[j]) by {
            assert(row[j + 13] == c[j]);
            if j > 0 {
                assert(14 <= j + 13 < p);
            }
            assert(c[0] == '\t') by {
                assert(c =~= seq!['\t'] + quote_field_spec(ids[0], '\t') + cells_front(
                    ids.drop_first(),
                    '\t',
                ));
            }
        }
        assert(row.subrange(p, p + sep.len())[0] == sep[0]);
        assert(row.subrange(p, p + sep.len())[1] == sep[1]);
        assert(c[pc] == row[p]);
        assert(c[pc + 1] == row[p + 1]);
        lemma_cells_tab_prefix(ids, pc);
    }
}

/// A key cut from text that starts with a letter keeps a character that
/// is not whitespace, and any character before one that is not.
proof fn lemma_key_keeps(row: Seq<char>, p: int, i: int, j: int)
    requires
        0 <= i <= j < p <= row.len(),
        !is_ws(row[0]),
        !is_ws(row[j]),
    ensures
        trim(row.take(p)).contains(row[i]),
{
    let t = row.take(p);
    assert(t[0] == row[0]);
    assert(t[j] == row[j]);
    assert(t[i] == row[i]);
    lemma_trim_keeps(t, j);
    assert(trim_start(t) == t);
    lemma_trim_end_prefix(t);
    assert(trim(t) == trim_end(t));
    let n = trim_end(t).len() as int;
    lemma_trim_end_len(t);
    assert(j < n);
    assert(t.take(n)[i] == t[i]);
    assert(trim(t)[i] == row[i]);
}

/// The key before a separator found in the column-header row keeps the
/// delimiter that follows the label.
proof fn lemma_row_key_found(ids: Seq<Seq<char>>, d: char, sep: Seq<char>, p: int)
    requires
        d == ',' || d == '\t',
        forall|k: int| 0 <= k < ids.len() ==> trim(#[trigger] ids[k]) == ids[k],
        d == '\t' ==> match first_nonempty(ids) {
            Some(x) => !bare_colon_start(x, '\t'),
            None => true,
        },
        sep == seq![':', ' '] || sep == seq![' ', '=', ' '],
        occurs_at("wavelength_nm"@ + id_cells(ids, d), sep, p),
    ensures
        trim(("wavelength_nm"@ + id_cells(ids, d)).take(p)).contains(d),
{
    let row = "wavelength_nm"@ + id_cells(ids, d);
    lemma_row_sep_after_label(ids, d, sep, p);
    reveal_strlit("wavelength_nm");
    assert(row[0] == 'w');
    if d == ',' {
        lemma_key_keeps(row, p, 13, 13);
    } else {
        lemma_row_tab_sep(ids, sep, p);
        let j = choose|j: int| 14 <= j < p && !is_ws(row[j]);
        lemma_key_keeps(row, p, 13, j);
    }
}

/// The key before a separator in the column-header row keeps the delimiter
/// that follows the label.
proof fn lemma_row_key_has_delimiter(ids: Seq<Seq<char>>, d: char, sep: Seq<char>)
    requires
        d == ',' || d == '\t',
        forall|k: int| 0 <= k < ids.len() ==> trim(#[trigger] ids[k]) == ids[k],
        d == '\t' ==> match first_nonempty(ids) {
            Some(x) => !bare_colon_start(x, '\t'),
            None => true,
        },
        sep == seq![':', ' '] || sep == seq![' ', '=', ' '],
    ensures
        !kv_some_ok(kv_around("wavelength_nm"@ + id_cells(ids, d), sep), d),
{
    let row = "wavelength_nm"@ + id_cells(ids, d);
    lemma_find_occurs(row, sep);
    match find(row, sep) {
        None => {
            lemma_kv_around_none(row, sep);
        },
        Some(p) => {
            lemma_kv_around_at(row, sep, p);
            lemma_row_key_found(ids, d, sep, p);
        },
    }
}

/// Trimming the end keeps a prefix of the text.
proof fn lemma_trim_end_prefix(s: Seq<char>)
    ensures
        trim_end(s) == s.take(trim_end(s).len() as int),
    decreases s.len(),
{
    if s.len() > 0 && is_ws(s.last()) {
        lemma_trim_end_prefix(s.drop_last());
        lemma_trim_end_len(s.drop_last());
        assert(s.drop_last().take(trim_end(s).len() as int) =~= s.take(trim_end(s).len() as int));
    } else {
        assert(s.take(s.len() as int) =~= s);
    }
}


/// The column-header row is not read as a metadata line.
proof fn lemma_row_not_kv(ids: Seq<Seq<char>>, d: char)
    requires
        d == ',' || d == '\t',
        forall|k: int| 0 <= k < ids.len() ==> trim(#[trigger] ids[k]) == ids[k],
        d == '\t' ==> match first_nonempty(ids) {
            Some(x) => !bare_colon_start(x, '\t'),
            None => true,
        },
    ensures
        try_kv_spec("wavelength_nm"@ + id_cells(ids, d), d) is None,
{
    let w = "wavelength_nm"@;
    let row = w + id_cells(ids, d);
    lemma_row_key_has_delimiter(ids, d, seq![':', ' ']);
    lemma_row_key_has_delimiter(ids, d, seq![' ', '=', ' ']);
    reveal_strlit("wavelength_nm");
    lemma_cells_front(ids, d);
    assert forall|k: int| 0 <= k < 13 implies row[k] != d by {
        assert(row[k] == w[k]);
    }
    if ids.len() > 0 {
        assert(id_cells(ids, d) =~= seq![d] + quote_field_spec(ids[0], d) + cells_front(
            ids.drop_first(),
            d,
        ));
        assert(row[13] == d);
        lemma_prefix_len(row, d, 13);
        assert(row.take(13) =~= w);
        lemma_trim_id(w);
        lemma_label_not_known();
    } else {
        assert(row =~= w);
        lemma_prefix_len(row, d, 13);
    }
    assert(known_key_pair(row, d) is None);
}

proof fn lemma_escape_no(x: Seq<char>, c: char)
    requires
        !x.contains(c),
        c != '"',
    ensures
        !escape_quotes(x).contains(c),
    decreases x.len(),
{
    if x.len() > 0 {
        assert(!x.drop_last().contains(c)) by {
            if x.drop_last().contains(c) {
                let i = choose|i: int| 0 <= i < x.drop_last().len() && x.drop_last()[i] == c;
                assert(x[i] == c);
            }
        }
        lemma_escape_no(x.drop_last(), c);
        let e = escape_quotes(x.drop_last());
        let tail = if x.last() == '"' {
            seq!['"', '"']
        } else {
            seq![x.last()]
        };
        assert(escape_quotes(x) == e + tail);
        if escape_quotes(x).contains(c) {
            let i = choose|i: int| 0 <= i < escape_quotes(x).len() && escape_quotes(x)[i] == c;
            if i < e.len() {
                assert(escape_quotes(x)[i] == e[i]);
            } else {
                assert(escape_quotes(x)[i] == tail[i - e.len()]);
                assert(x[x.len() - 1] == x.last());
            }
        }
    }
}

/// The cells hold no line end, and do not end with a carriage return.
proof fn lemma_cells_shape(ids: Seq<Seq<char>>, d: char)
    requires
        d == ',' || d == '\t',
        forall|k: int| 0 <= k < ids.len() ==> trim(#[trigger] ids[k]) == ids[k] && !ids[k].contains('\n'),
    ensures
        !cells_front(ids, d).contains('\n'),
        cells_front(ids, d).len() > 0 ==> cells_front(ids, d).last() != '\r',
    decreases ids.len(),
{
    if ids.len() > 0 {
        let x = ids[0];
        let rest = ids.drop_first();
        let q = quote_field_spec(x, d);
        let r = cells_front(rest, d);
        let c = cells_front(ids, d);
        assert forall|k: int| 0 <= k < rest.len() implies trim(#[trigger] rest[k]) == rest[k]
            && !rest[k].contains('\n') by {
            assert(rest[k] == ids[k + 1]);
        }
        lemma_cells_shape(rest, d);
        assert(c == seq![d] + q + r);
        if needs_quotes(x, d) {
            lemma_escape_no(x, '\n');
            assert(q == seq!['"'] + escape_quotes(x) + seq!['"']);
        }
        assert(!q.contains('\n')) by {
            if q.contains('\n') {
                let i = choose|i: int| 0 <= i < q.len() && q[i] == '\n';
                if needs_quotes(x, d) {
                    if 0 < i < q.len() - 1 {
                        assert(q[i] == escape_quotes(x)[i - 1]);
                    }
                } else {
                    assert(q[i] == x[i]);
                }
            }
        }
        if c.contains('\n') {
            let i = choose|i: int| 0 <= i < c.len() && c[i] == '\n';
            if 1 <= i < 1 + q.len() {
                assert(c[i] == q[i - 1]);
            } else if i >= 1 + q.len() {
                assert(c[i] == r[i - 1 - q.len()]);
            }
        }
        if r.len() > 0 {
            assert(c.last() == r.last());
        } else if q.len() > 0 {
            assert(c.last() == q.last());
            if needs_quotes(x, d) {
            } else {
                assert(q == x);
                lemma_clean_ends(x);
            }
        } else {
            assert(c.last() == d);
        }
    }
}

/// The column-header row, without its line end, is one meaningful line.
proof fn lemma_row_shape(ids: Seq<Seq<char>>, d: char)
    requires
        d == ',' || d == '\t',
        forall|k: int| 0 <= k < ids.len() ==> trim(#[trigger] ids[k]) == ids[k] && !ids[k].contains('\n'),
    ensures
        !("wavelength_nm"@ + id_cells(ids, d)).contains('\n'),
        strip_cr("wavelength_nm"@ + id_cells(ids, d)) == "wavelength_nm"@ + id_cells(ids, d),
        is_meaningful("wavelength_nm"@ + id_cells(ids, d)),
{
    reveal_strlit("wavelength_nm");
    let w = "wavelength_nm"@;
    let c = id_cells(ids, d);
    let row = w + c;
    lemma_cells_front(ids, d);
    lemma_cells_shape(ids, d);
    if row.contains('\n') {
        let i = choose|i: int| 0 <= i < row.len() && row[i] == '\n';
        if i < 13 {
            assert(row[i] == w[i]);
        } else {
            assert(row[i] == c[i - 13]);
        }
    }
    if c.len() > 0 {
        assert(row.last() == c.last());
    } else {
        assert(row.last() == w.last());
    }
    assert(row[0] == 'w');
    lemma_trim_keeps(row, 0);
}

/// Writing the metadata header and the column-header row and reading the
/// header block back gives the metadata and, as the column-header row, the
/// wavelength label followed by the identifiers.  Identifiers have no
/// whitespace at either end and no line end; with a tab delimiter, the first
/// identifier that is not empty does not begin with `: ` unquoted, which
/// would make the row read as a metadata line.
pub proof fn lemma_header_block_round_trip(m: CsvMetaV, ids: Seq<Seq<char>>, d: char)
    requires
        d == ',' || d == '\t',
        clean_header(m),
        ids.len() > 0,
        forall|k: int| 0 <= k < ids.len() ==> trim(#[trigger] ids[k]) == ids[k] && !ids[k].contains('\n'),
        d == '\t' ==> match first_nonempty(ids) {
            Some(x) => !bare_colon_start(x, '\t'),
            None => true,
        },
    ensures
        pre_data_go(meaningful(lines(meta_header(m) + header_row(ids, d))), d) == Some(
            ((CsvMetaV { custom: Map::empty(), ..m }), Some(seq!["wavelength_nm"@] + ids)),
        ),
{
    let hl = header_lines(m);
    let w = "wavelength_nm"@;
    let row = w + id_cells(ids, d);
    let nl = seq!['\n'];
    lemma_header_text(m);
    lemma_header_lines_good(m);
    lemma_row_shape(ids, d);
    assert(header_row(ids, d) =~= row + nl);
    assert(meta_header(m) + header_row(ids, d) =~= body(hl) + (nl + (row + nl)));
    lemma_lines_body(hl, nl + (row + nl));
    lemma_lines_cons(seq![], row + nl);
    assert(Seq::<char>::empty() + nl + (row + nl) =~= nl + (row + nl));
    lemma_lines_cons(row, seq![]);
    assert(row + nl + Seq::<char>::empty() =~= row + nl);
    assert(lines(Seq::<char>::empty()) =~= Seq::<Seq<char>>::empty());
    let all = hl + seq![Seq::<char>::empty()] + seq![row];
    assert(lines(meta_header(m) + header_row(ids, d)) =~= all);
    assert(all.drop_last() =~= hl + seq![Seq::<char>::empty()]);
    assert((hl + seq![Seq::<char>::empty()]).drop_last() =~= hl);
    assert(!is_meaningful(Seq::<char>::empty()));
    lemma_meaningful_all(hl);
    let hb = hl + seq![Seq::<char>::empty()];
    assert(hb.last() == Seq::<char>::empty());
    assert(meaningful(hb) == meaningful(hl));
    assert(all.last() == row);
    assert(meaningful(all) == meaningful(hb).push(row));
    assert(meaningful(all) =~= hl.push(row));
    lemma_pre_data_header_lines(m, d);
    lemma_pre_data_push(hl, row, d);
    lemma_row_not_kv(ids, d);
    assert forall|k: int| 0 <= k < ids.len() implies trim(#[trigger] ids[k]) == ids[k] by {}
    lemma_header_row_round_trip(ids, d);
    assert(header_row(ids, d).drop_last() =~= row);
}

// ───────────────────────── header keys and exported records ─────────────────────────

/// `Created` names the date as `Date` does: for any metadata and value, the
/// pair under a key that lowercases to `created` leaves the metadata as the
/// same value under `Date` would; a value that reads as a date becomes the
/// date, and any other value changes nothing.
pub proof fn lemma_created_is_date(m: CsvMetaV, k: Seq<char>, v: Seq<char>)
    requires
        lower_case(k) == "created"@,
    ensures
        apply_kv_spec(m, k, v) == apply_kv_spec(m, "Date"@, v),
        match parse_date_spec(v) {
            Some(d) => apply_kv_spec(m, k, v) == (CsvMetaV { date: d, ..m }),
            None => apply_kv_spec(m, k, v) == m,
        },
{
    reveal_strlit("Date");
    reveal_strlit("date");
    reveal_strlit("created");
    reveal_strlit("title");
    reveal_strlit("name");
    reveal_strlit("sample_name");
    let lk = lower_case(k);
    assert(lk.len() == 7 && "title"@.len() == 5 && "name"@.len() == 4 && "sample_name"@.len() == 11);
    assert(lk != "title"@ && lk != "name"@ && lk != "sample_name"@);
    assert(is_date_key(lk));
    let dk = "Date"@;
    assert(dk =~= seq!['D', 'a', 't', 'e']);
    assert(is_ascii_seq(dk)) by {
        assert forall|i: int| 0 <= i < dk.len() implies (dk[i] as u32) < 128 by {}
    }
    assert(lower_case(dk) =~= "date"@);
    assert("date"@.len() == 4 && lower_case(dk).len() == 4);
    assert(lower_case(dk) != "name"@) by {
        assert("name"@[0] == 'n' && lower_case(dk)[0] == 'd');
    }
    assert(is_date_key(lower_case(dk)));
    assert(lower_case(dk) != "title"@ && lower_case(dk) != "name"@ && lower_case(dk)
        != "sample_name"@);
}

/// The header written for a record reads back as that record's metadata:
/// measurement type, date and each field it writes, when every value
/// written is clean.
pub proof fn lemma_record_header_round_trip(h: RecordHeadV, d: char)
    requires
        d == ',' || d == '\t',
        clean_header(header_meta_spec(h)),
    ensures
        match pre_data_go(meaningful(lines(meta_header(header_meta_spec(h)))), d) {
            Some((m, cols)) => {
                &&& m.measurement_type == h.measurement_type
                &&& m.date == h.date
                &&& m.title == h.title
                &&& m.operator == h.operator
                &&& m.description == h.description
                &&& m.copyright == h.copyright
                &&& m.surface == h.surface
                &&& m.sample_backing == h.sample_backing
                &&& m.sample_id == h.sample_id
                &&& m.notes == h.provenance.notes
                &&& m.instrument_model == match h.instrument {
                    Some(i) => i.model,
                    None => None,
                }
                &&& m.illuminant == match h.color_science {
                    Some(c) => c.illuminant,
                    None => None,
                }
                &&& m.observer == match h.color_science {
                    Some(c) => c.cie_observer,
                    None => None,
                }
                &&& m.custom == Map::<Seq<char>, Option<Seq<char>>>::empty()
                &&& cols is None
            },
            None => false,
        },
{
    lemma_meta_header_round_trip(header_meta_spec(h), d);
}

} // verus!
