//! Structural validation of a UV-Vis JSON document before it is read into
//! records: required fields, their types, the allowed enumeration values and
//! the minimum array sizes.  Every problem found is reported, one message per
//! line.
//!
//! A document is held as a `JsonValue`: numbers are kept as the text
//! `serde_json` writes for them, and the checks read only their sign.
use vstd::prelude::*;
use crate::model::{allowed_illuminant, is_allowed_illuminant, ImportError, ImportErrorV};
use crate::number::{decimal, decimal_chars, parse_u32, parse_u32_spec};
use crate::ss_text::{split_char, split_on};
use crate::text::{append_chars, append_str, chars_of, contains_seq, eq_lit, occurs_at, string_of};

verus! {

/// The sign of a JSON number.
#[derive(PartialEq, Eq, Structural, Clone, Copy, Debug)]
pub enum NumberSign {
    Negative,
    Zero,
    Positive,
}

/// A JSON value.  A number is its text; an object is its members in order.
pub enum JsonValue {
    Null,
    Bool(bool),
    Number(String),
    Str(String),
    Array(Vec<JsonValue>),
    Object(Vec<(String, JsonValue)>),
}

/// The value of the first member of `o` named `k` (`Map::get`).
pub open spec fn field_at(o: Seq<(String, JsonValue)>, k: Seq<char>) -> Option<JsonValue>
    decreases o.len(),
{
    if o.len() == 0 {
        None
    } else if o[0].0@ == k {
        Some(o[0].1)
    } else {
        field_at(o.drop_first(), k)
    }
}

/// `o` has a member named `k`.
pub open spec fn has_field(o: Seq<(String, JsonValue)>, k: Seq<char>) -> bool {
    field_at(o, k) is Some
}

/// The member of `o` named `k`.
pub fn get_field<'a>(o: &'a Vec<(String, JsonValue)>, k: &str) -> (r: Option<&'a JsonValue>)
    ensures
        match r {
            Some(x) => field_at(o@, k@) == Some(*x),
            None => field_at(o@, k@) is None,
        },
{
    let mut i: usize = 0;
    assert(o@.skip(0) =~= o@);
    while i < o.len()
        invariant
            0 <= i <= o.len(),
            field_at(o@, k@) == field_at(o@.skip(i as int), k@),
        decreases o.len() - i,
    {
        proof {
            let t = o@.skip(i as int);
            assert(t[0] == o@[i as int]);
            assert(t.drop_first() =~= o@.skip(i + 1));
        }
        let name = chars_of(o[i].0.as_str());
        if eq_lit(&name, k) {
            return Some(&o[i].1);
        }
        i = i + 1;
    }
    None
}

/// Some digit other than `0` comes before the exponent.
pub open spec fn nonzero_mantissa(t: Seq<char>) -> bool
    decreases t.len(),
{
    if t.len() == 0 || t[0] == 'e' || t[0] == 'E' {
        false
    } else if '1' <= t[0] && t[0] <= '9' {
        true
    } else {
        nonzero_mantissa(t.drop_first())
    }
}

/// The sign of the number written `t`: zero when every digit before the
/// exponent is `0`, else negative when it starts with `-`, else positive.
pub open spec fn number_sign(t: Seq<char>) -> NumberSign {
    if !nonzero_mantissa(t) {
        NumberSign::Zero
    } else if t.len() > 0 && t[0] == '-' {
        NumberSign::Negative
    } else {
        NumberSign::Positive
    }
}

fn nonzero_mantissa_exec(t: &Vec<char>) -> (b: bool)
    ensures
        b == nonzero_mantissa(t@),
{
    let mut i: usize = 0;
    assert(t@.skip(0) =~= t@);
    while i < t.len()
        invariant
            0 <= i <= t.len(),
            nonzero_mantissa(t@) == nonzero_mantissa(t@.skip(i as int)),
        decreases t.len() - i,
    {
        let c = t[i];
        assert(t@.skip(i as int)[0] == c);
        if c == 'e' || c == 'E' {
            return false;
        }
        if '1' <= c && c <= '9' {
            return true;
        }
        assert(t@.skip(i as int).drop_first() =~= t@.skip(i + 1));
        i = i + 1;
    }
    false
}

/// The sign of the number written `s`.
pub fn number_sign_of(s: &str) -> (r: NumberSign)
    ensures
        r == number_sign(s@),
{
    let t = chars_of(s);
    if !nonzero_mantissa_exec(&t) {
        NumberSign::Zero
    } else if t[0] == '-' {
        NumberSign::Negative
    } else {
        NumberSign::Positive
    }
}

/// `v` is a number of the given sign.
pub open spec fn is_number_of_sign(v: JsonValue, s: NumberSign) -> bool {
    match v {
        JsonValue::Number(t) => number_sign(t@) == s,
        _ => false,
    }
}

/// Every item is a number.
pub open spec fn all_numbers(items: Seq<JsonValue>) -> bool {
    forall|i: int| 0 <= i < items.len() ==> items[i] is Number
}

/// Some item is a negative number.
pub open spec fn any_negative(items: Seq<JsonValue>) -> bool {
    exists|i: int| 0 <= i < items.len() && is_number_of_sign(items[i], NumberSign::Negative)
}

fn all_numbers_exec(items: &Vec<JsonValue>) -> (b: bool)
    ensures
        b == all_numbers(items@),
{
    let mut i: usize = 0;
    while i < items.len()
        invariant
            0 <= i <= items.len(),
            forall|j: int| 0 <= j < i ==> items@[j] is Number,
        decreases items.len() - i,
    {
        match &items[i] {
            JsonValue::Number(_) => {},
            _ => {
                return false;
            },
        }
        i = i + 1;
    }
    true
}

fn any_negative_exec(items: &Vec<JsonValue>) -> (b: bool)
    ensures
        b == any_negative(items@),
{
    let mut i: usize = 0;
    while i < items.len()
        invariant
            0 <= i <= items.len(),
            forall|j: int| 0 <= j < i ==> !is_number_of_sign(items@[j], NumberSign::Negative),
        decreases items.len() - i,
    {
        match &items[i] {
            JsonValue::Number(s) => {
                if number_sign_of(s.as_str()) == NumberSign::Negative {
                    return true;
                }
            },
            _ => {},
        }
        i = i + 1;
    }
    false
}

// ───────────────────────── messages ─────────────────────────

fn push_msg(errors: &mut Vec<String>, m: &Vec<char>)
    ensures
        final(errors).deep_view() == old(errors).deep_view().push(m@),
{
    let s = string_of(m);
    let ghost o = errors.deep_view();
    errors.push(s);
    assert(errors.deep_view() =~= o.push(m@));
}

/// `a` followed by `b`.
fn cat(a: &Vec<char>, b: &str) -> (r: Vec<char>)
    ensures
        r@ == a@ + b@,
{
    let mut r = a.clone();
    append_str(&mut r, b);
    r
}

pub open spec fn missing_field(path: Seq<char>, key: Seq<char>) -> Seq<char> {
    path + ": missing required field '"@ + key + "'"@
}

/// A message about member `key` of the object at `path`.
pub open spec fn member_says(path: Seq<char>, key: Seq<char>, tail: Seq<char>) -> Seq<char> {
    path + "."@ + key + tail
}

fn missing_field_exec(path: &Vec<char>, key: &str) -> (r: Vec<char>)
    ensures
        r@ == missing_field(path@, key@),
{
    let mut r = cat(path, ": missing required field '");
    append_str(&mut r, key);
    append_str(&mut r, "'");
    assert(r@ =~= missing_field(path@, key@));
    r
}

fn member_says_exec(path: &Vec<char>, key: &str, tail: &str) -> (r: Vec<char>)
    ensures
        r@ == member_says(path@, key@, tail@),
{
    let mut r = cat(path, ".");
    append_str(&mut r, key);
    append_str(&mut r, tail);
    assert(r@ =~= member_says(path@, key@, tail@));
    r
}

/// `path.key 'value'` followed by `tail`.
pub open spec fn quoted_value(path: Seq<char>, key: Seq<char>, s: Seq<char>, tail: Seq<char>) -> Seq<
    char,
> {
    path + "."@ + key + " '"@ + s + "'"@ + tail
}

fn quoted_value_exec(path: &Vec<char>, key: &str, s: &str, tail: &str) -> (r: Vec<char>)
    ensures
        r@ == quoted_value(path@, key@, s@, tail@),
{
    let mut r = cat(path, ".");
    append_str(&mut r, key);
    append_str(&mut r, " '");
    append_str(&mut r, s);
    append_str(&mut r, "'");
    append_str(&mut r, tail);
    assert(r@ =~= quoted_value(path@, key@, s@, tail@));
    r
}

// ───────────────────────── field checks ─────────────────────────

/// A required string member.
pub open spec fn require_string_errors(o: Seq<(String, JsonValue)>, key: Seq<char>, path: Seq<char>) -> Seq<
    Seq<char>,
> {
    match field_at(o, key) {
        None => seq![missing_field(path, key)],
        Some(JsonValue::Str(_)) => seq![],
        Some(_) => seq![member_says(path, key, " must be a string"@)],
    }
}

/// Reports a required string member that is missing or not a string.
pub fn require_string(
    obj: &Vec<(String, JsonValue)>,
    key: &str,
    path: &Vec<char>,
    errors: &mut Vec<String>,
)
    ensures
        final(errors).deep_view() == old(errors).deep_view() + require_string_errors(
            obj@,
            key@,
            path@,
        ),
{
    let ghost o = errors.deep_view();
    match get_field(obj, key) {
        None => {
            push_msg(errors, &missing_field_exec(path, key));
        },
        Some(JsonValue::Str(_)) => {},
        Some(_) => {
            push_msg(errors, &member_says_exec(path, key, " must be a string"));
        },
    }
    assert(errors.deep_view() =~= o + require_string_errors(obj@, key@, path@));
}

/// A required object member: its members, or the error it gives.
pub open spec fn required_object(o: Seq<(String, JsonValue)>, key: Seq<char>, path: Seq<char>) -> Result<
    Seq<(String, JsonValue)>,
    Seq<char>,
> {
    match field_at(o, key) {
        None => Err(missing_field(path, key)),
        Some(JsonValue::Object(m)) => Ok(m@),
        Some(_) => Err(member_says(path, key, " must be an object"@)),
    }
}

/// Returns a required object member, or reports it missing or not an object.
pub fn require_object<'a>(
    obj: &'a Vec<(String, JsonValue)>,
    key: &str,
    path: &Vec<char>,
    errors: &mut Vec<String>,
) -> (r: Option<&'a Vec<(String, JsonValue)>>)
    ensures
        match r {
            Some(m) => required_object(obj@, key@, path@) == Ok::<_, Seq<char>>(m@)
                && final(errors).deep_view() == old(errors).deep_view(),
            None => required_object(obj@, key@, path@) is Err && final(errors).deep_view()
                == old(errors).deep_view().push(required_object(obj@, key@, path@)->Err_0),
        },
{
    match get_field(obj, key) {
        None => {
            push_msg(errors, &missing_field_exec(path, key));
            None
        },
        Some(JsonValue::Object(m)) => Some(m),
        Some(_) => {
            push_msg(errors, &member_says_exec(path, key, " must be an object"));
            None
        },
    }
}

// ───────────────────────── spectrum parts ─────────────────────────

/// The measurement types of the format.
pub open spec fn is_allowed_measurement_type(s: Seq<char>) -> bool {
    s == "reflectance"@ || s == "transmittance"@ || s == "absorbance"@ || s == "radiance"@ || s
        == "irradiance"@ || s == "emission"@ || s == "sensitivity"@
}

fn allowed_measurement_type(s: &str) -> (b: bool)
    ensures
        b == is_allowed_measurement_type(s@),
{
    let v = chars_of(s);
    eq_lit(&v, "reflectance") || eq_lit(&v, "transmittance") || eq_lit(&v, "absorbance")
        || eq_lit(&v, "radiance") || eq_lit(&v, "irradiance") || eq_lit(&v, "emission") || eq_lit(
        &v,
        "sensitivity",
    )
}

/// The CIE observers of the format.
pub open spec fn is_allowed_observer(s: Seq<char>) -> bool {
    s == "CIE 1931 2 degree"@ || s == "CIE 1964 10 degree"@ || s == "CIE 2015 2 degree"@ || s
        == "CIE 2015 10 degree"@
}

fn allowed_observer(s: &str) -> (b: bool)
    ensures
        b == is_allowed_observer(s@),
{
    let v = chars_of(s);
    eq_lit(&v, "CIE 1931 2 degree") || eq_lit(&v, "CIE 1964 10 degree") || eq_lit(
        &v,
        "CIE 2015 2 degree",
    ) || eq_lit(&v, "CIE 2015 10 degree")
}

/// The problems of a `metadata` object.
pub open spec fn metadata_errors(o: Seq<(String, JsonValue)>, path: Seq<char>) -> Seq<Seq<char>> {
    let mt = match field_at(o, "measurement_type"@) {
        None => seq![missing_field(path, "measurement_type"@)],
        Some(JsonValue::Str(s)) => if is_allowed_measurement_type(s@) {
            seq![]
        } else {
            seq![
                quoted_value(
                    path,
                    "measurement_type"@,
                    s@,
                    " is not allowed. Must be one of: reflectance, transmittance, absorbance, radiance, irradiance, emission, sensitivity"@,
                ),
            ]
        },
        Some(_) => seq![member_says(path, "measurement_type"@, " must be a string"@)],
    };
    mt + require_string_errors(o, "date"@, path)
}

/// Reports the problems of a `metadata` object.
pub fn validate_metadata(obj: &Vec<(String, JsonValue)>, path: &Vec<char>, errors: &mut Vec<String>)
    ensures
        final(errors).deep_view() == old(errors).deep_view() + metadata_errors(obj@, path@),
{
    let ghost o = errors.deep_view();
    match get_field(obj, "measurement_type") {
        None => {
            push_msg(errors, &missing_field_exec(path, "measurement_type"));
        },
        Some(JsonValue::Str(s)) => {
            if !allowed_measurement_type(s.as_str()) {
                push_msg(
                    errors,
                    &quoted_value_exec(
                        path,
                        "measurement_type",
                        s.as_str(),
                        " is not allowed. Must be one of: reflectance, transmittance, absorbance, radiance, irradiance, emission, sensitivity",
                    ),
                );
            }
        },
        Some(_) => {
            push_msg(errors, &member_says_exec(path, "measurement_type", " must be a string"));
        },
    }
    let ghost o2 = errors.deep_view();
    require_string(obj, "date", path, errors);
    assert(errors.deep_view() =~= o + metadata_errors(obj@, path@));
}

/// The problems of an array that must hold at least two numbers.
pub open spec fn number_array_errors(items: Seq<JsonValue>, path: Seq<char>, key: Seq<char>) -> Seq<
    Seq<char>,
> {
    (if items.len() < 2 {
        seq![member_says(path, key, " must have at least 2 elements"@)]
    } else {
        seq![]
    }) + (if !all_numbers(items) {
        seq![member_says(path, key, " must contain only numbers"@)]
    } else {
        seq![]
    })
}

fn number_array_check(items: &Vec<JsonValue>, path: &Vec<char>, key: &str, errors: &mut Vec<String>)
    ensures
        final(errors).deep_view() == old(errors).deep_view() + number_array_errors(
            items@,
            path@,
            key@,
        ),
{
    let ghost o = errors.deep_view();
    if items.len() < 2 {
        push_msg(errors, &member_says_exec(path, key, " must have at least 2 elements"));
    }
    if !all_numbers_exec(items) {
        push_msg(errors, &member_says_exec(path, key, " must contain only numbers"));
    }
    assert(errors.deep_view() =~= o + number_array_errors(items@, path@, key@));
}

/// The problems of one field of a `range_nm` object.
pub open spec fn range_field_errors(r: Seq<(String, JsonValue)>, path: Seq<char>, f: Seq<char>) -> Seq<
    Seq<char>,
> {
    match field_at(r, f) {
        None => seq![path + ".range_nm: missing required field '"@ + f + "'"@],
        Some(JsonValue::Number(_)) => seq![],
        Some(_) => seq![path + ".range_nm."@ + f + " must be a number"@],
    }
}

fn range_field_check(r: &Vec<(String, JsonValue)>, path: &Vec<char>, f: &str, errors: &mut Vec<String>)
    ensures
        final(errors).deep_view() == old(errors).deep_view() + range_field_errors(r@, path@, f@),
{
    let ghost o = errors.deep_view();
    match get_field(r, f) {
        None => {
            let mut m = cat(path, ".range_nm: missing required field '");
            append_str(&mut m, f);
            append_str(&mut m, "'");
            push_msg(errors, &m);
        },
        Some(JsonValue::Number(_)) => {},
        Some(_) => {
            let mut m = cat(path, ".range_nm.");
            append_str(&mut m, f);
            append_str(&mut m, " must be a number");
            push_msg(errors, &m);
        },
    }
    assert(errors.deep_view() =~= o + range_field_errors(r@, path@, f@));
}

/// The problems of a `range_nm` object.
pub open spec fn range_errors(r: Seq<(String, JsonValue)>, path: Seq<char>) -> Seq<Seq<char>> {
    range_field_errors(r, path, "start"@) + range_field_errors(r, path, "end"@) + range_field_errors(
        r,
        path,
        "interval"@,
    ) + match field_at(r, "interval"@) {
        Some(JsonValue::Number(s)) => if number_sign(s@) != NumberSign::Positive {
            seq![path + ".range_nm.interval must be positive"@]
        } else {
            seq![]
        },
        _ => seq![],
    }
}

/// The problems of a `wavelength_axis` object: exactly one of `values_nm`
/// and `range_nm`, the first an array of at least two numbers, the second
/// an object of three numbers with a positive interval.
pub open spec fn wavelength_axis_errors(o: Seq<(String, JsonValue)>, path: Seq<char>) -> Seq<
    Seq<char>,
> {
    let hv = has_field(o, "values_nm"@);
    let hr = has_field(o, "range_nm"@);
    if !hv && !hr {
        seq![
            path
                + ": exactly one of 'values_nm' or 'range_nm' must be present (neither found)"@,
        ]
    } else if hv && hr {
        seq![path + ": exactly one of 'values_nm' or 'range_nm' must be present (both found)"@]
    } else if hv {
        match field_at(o, "values_nm"@) {
            Some(JsonValue::Array(items)) => number_array_errors(items@, path, "values_nm"@),
            _ => seq![member_says(path, "values_nm"@, " must be an array"@)],
        }
    } else {
        match field_at(o, "range_nm"@) {
            Some(JsonValue::Object(r)) => range_errors(r@, path),
            _ => seq![member_says(path, "range_nm"@, " must be an object"@)],
        }
    }
}

/// Reports the problems of a `wavelength_axis` object.
pub fn validate_wavelength_axis(
    obj: &Vec<(String, JsonValue)>,
    path: &Vec<char>,
    errors: &mut Vec<String>,
)
    ensures
        final(errors).deep_view() == old(errors).deep_view() + wavelength_axis_errors(obj@, path@),
{
    let ghost o = errors.deep_view();
    let values = get_field(obj, "values_nm");
    let range = get_field(obj, "range_nm");
    match (values, range) {
        (None, None) => {
            push_msg(
                errors,
                &cat(
                    path,
                    ": exactly one of 'values_nm' or 'range_nm' must be present (neither found)",
                ),
            );
        },
        (Some(_), Some(_)) => {
            push_msg(
                errors,
                &cat(path, ": exactly one of 'values_nm' or 'range_nm' must be present (both found)"),
            );
        },
        (Some(v), None) => {
            match v {
                JsonValue::Array(items) => {
                    number_array_check(items, path, "values_nm", errors);
                },
                _ => {
                    push_msg(errors, &member_says_exec(path, "values_nm", " must be an array"));
                },
            }
        },
        (None, Some(r)) => {
            match r {
                JsonValue::Object(fields) => {
                    range_field_check(fields, path, "start", errors);
                    range_field_check(fields, path, "end", errors);
                    range_field_check(fields, path, "interval", errors);
                    match get_field(fields, "interval") {
                        Some(JsonValue::Number(s)) => {
                            if number_sign_of(s.as_str()) != NumberSign::Positive {
                                push_msg(
                                    errors,
                                    &cat(path, ".range_nm.interval must be positive"),
                                );
                            }
                        },
                        _ => {},
                    }
                },
                _ => {
                    push_msg(errors, &member_says_exec(path, "range_nm", " must be an object"));
                },
            }
        },
    }
    assert(errors.deep_view() =~= o + wavelength_axis_errors(obj@, path@));
}

/// The problems of a `spectral_data` object: `values` an array of at least
/// two numbers; `uncertainty`, when present, an array of non-negative
/// numbers; `scale`, when present, `fractional` or `percent`.
pub open spec fn spectral_data_errors(o: Seq<(String, JsonValue)>, path: Seq<char>) -> Seq<
    Seq<char>,
> {
    let vals = match field_at(o, "values"@) {
        None => seq![missing_field(path, "values"@)],
        Some(JsonValue::Array(items)) => number_array_errors(items@, path, "values"@),
        Some(_) => seq![member_says(path, "values"@, " must be an array"@)],
    };
    let unc = match field_at(o, "uncertainty"@) {
        None => seq![],
        Some(JsonValue::Array(items)) => if !all_numbers(items@) {
            seq![member_says(path, "uncertainty"@, " must contain only numbers"@)]
        } else if any_negative(items@) {
            seq![member_says(path, "uncertainty"@, " values must be non-negative"@)]
        } else {
            seq![]
        },
        Some(_) => seq![member_says(path, "uncertainty"@, " must be an array"@)],
    };
    let scale = match field_at(o, "scale"@) {
        None => seq![],
        Some(JsonValue::Str(s)) => if s@ != "fractional"@ && s@ != "percent"@ {
            seq![
                member_says(path, "scale"@, " must be 'fractional' or 'percent', got '"@) + s@
                    + "'"@,
            ]
        } else {
            seq![]
        },
        Some(_) => seq![member_says(path, "scale"@, " must be a string"@)],
    };
    vals + unc + scale
}

/// Reports the problems of a `spectral_data` object.
pub fn validate_spectral_data(
    obj: &Vec<(String, JsonValue)>,
    path: &Vec<char>,
    errors: &mut Vec<String>,
)
    ensures
        final(errors).deep_view() == old(errors).deep_view() + spectral_data_errors(obj@, path@),
{
    let ghost o = errors.deep_view();
    match get_field(obj, "values") {
        None => {
            push_msg(errors, &missing_field_exec(path, "values"));
        },
        Some(JsonValue::Array(items)) => {
            number_array_check(items, path, "values", errors);
        },
        Some(_) => {
            push_msg(errors, &member_says_exec(path, "values", " must be an array"));
        },
    }
    let ghost o1 = errors.deep_view();
    match get_field(obj, "uncertainty") {
        None => {},
        Some(JsonValue::Array(items)) => {
            if !all_numbers_exec(items) {
                push_msg(errors, &member_says_exec(path, "uncertainty", " must contain only numbers"));
            } else if any_negative_exec(items) {
                push_msg(
                    errors,
                    &member_says_exec(path, "uncertainty", " values must be non-negative"),
                );
            }
        },
        Some(_) => {
            push_msg(errors, &member_says_exec(path, "uncertainty", " must be an array"));
        },
    }
    let ghost o2 = errors.deep_view();
    match get_field(obj, "scale") {
        None => {},
        Some(JsonValue::Str(s)) => {
            let sv = chars_of(s.as_str());
            if !eq_lit(&sv, "fractional") && !eq_lit(&sv, "percent") {
                let mut m = member_says_exec(
                    path,
                    "scale",
                    " must be 'fractional' or 'percent', got '",
                );
                append_str(&mut m, s.as_str());
                append_str(&mut m, "'");
                push_msg(errors, &m);
            }
        },
        Some(_) => {
            push_msg(errors, &member_says_exec(path, "scale", " must be a string"));
        },
    }
    assert(errors.deep_view() =~= o + spectral_data_errors(obj@, path@));
}

/// The problems of a `color_science` object: `illuminant` and
/// `cie_observer`, when present, among the allowed values.
pub open spec fn color_science_errors(o: Seq<(String, JsonValue)>, path: Seq<char>) -> Seq<
    Seq<char>,
> {
    let ill = match field_at(o, "illuminant"@) {
        None => seq![],
        Some(JsonValue::Str(s)) => if is_allowed_illuminant(s@) {
            seq![]
        } else {
            seq![quoted_value(path, "illuminant"@, s@, " is not a recognised CIE illuminant"@)]
        },
        Some(_) => seq![member_says(path, "illuminant"@, " must be a string"@)],
    };
    let obs = match field_at(o, "cie_observer"@) {
        None => seq![],
        Some(JsonValue::Str(s)) => if is_allowed_observer(s@) {
            seq![]
        } else {
            seq![
                quoted_value(
                    path,
                    "cie_observer"@,
                    s@,
                    " not recognised. Must be one of: CIE 1931 2 degree, CIE 1964 10 degree, CIE 2015 2 degree, CIE 2015 10 degree"@,
                ),
            ]
        },
        Some(_) => seq![member_says(path, "cie_observer"@, " must be a string"@)],
    };
    ill + obs
}

/// Reports the problems of a `color_science` object.
pub fn validate_color_science(
    obj: &Vec<(String, JsonValue)>,
    path: &Vec<char>,
    errors: &mut Vec<String>,
)
    ensures
        final(errors).deep_view() == old(errors).deep_view() + color_science_errors(obj@, path@),
{
    let ghost o = errors.deep_view();
    match get_field(obj, "illuminant") {
        None => {},
        Some(JsonValue::Str(s)) => {
            if !allowed_illuminant(&chars_of(s.as_str())) {
                push_msg(
                    errors,
                    &quoted_value_exec(
                        path,
                        "illuminant",
                        s.as_str(),
                        " is not a recognised CIE illuminant",
                    ),
                );
            }
        },
        Some(_) => {
            push_msg(errors, &member_says_exec(path, "illuminant", " must be a string"));
        },
    }
    match get_field(obj, "cie_observer") {
        None => {},
        Some(JsonValue::Str(s)) => {
            if !allowed_observer(s.as_str()) {
                push_msg(
                    errors,
                    &quoted_value_exec(
                        path,
                        "cie_observer",
                        s.as_str(),
                        " not recognised. Must be one of: CIE 1931 2 degree, CIE 1964 10 degree, CIE 2015 2 degree, CIE 2015 10 degree",
                    ),
                );
            }
        },
        Some(_) => {
            push_msg(errors, &member_says_exec(path, "cie_observer", " must be a string"));
        },
    }
    assert(errors.deep_view() =~= o + color_science_errors(obj@, path@));
}

// ───────────────────────── spectra and documents ─────────────────────────

/// The problems of the `metadata` member of a spectrum.
pub open spec fn metadata_part_errors(o: Seq<(String, JsonValue)>, path: Seq<char>) -> Seq<Seq<char>> {
    match required_object(o, "metadata"@, path) {
        Ok(m) => metadata_errors(m, path + "."@ + "metadata"@),
        Err(e) => seq![e],
    }
}

/// The problems of the `wavelength_axis` member of a spectrum.
pub open spec fn axis_part_errors(o: Seq<(String, JsonValue)>, path: Seq<char>) -> Seq<Seq<char>> {
    match required_object(o, "wavelength_axis"@, path) {
        Ok(m) => wavelength_axis_errors(m, path + "."@ + "wavelength_axis"@),
        Err(e) => seq![e],
    }
}

/// The problems of the `spectral_data` member of a spectrum.
pub open spec fn data_part_errors(o: Seq<(String, JsonValue)>, path: Seq<char>) -> Seq<Seq<char>> {
    match required_object(o, "spectral_data"@, path) {
        Ok(m) => spectral_data_errors(m, path + "."@ + "spectral_data"@),
        Err(e) => seq![e],
    }
}

/// The problems of the optional `color_science` member of a spectrum.
pub open spec fn color_part_errors(o: Seq<(String, JsonValue)>, path: Seq<char>) -> Seq<Seq<char>> {
    match field_at(o, "color_science"@) {
        None => seq![],
        Some(JsonValue::Object(c)) => color_science_errors(c@, path + ".color_science"@),
        Some(_) => seq![path + ".color_science must be an object"@],
    }
}

/// The problems of one spectrum: a string `id`, objects `metadata`,
/// `wavelength_axis` and `spectral_data`, and an optional `color_science`
/// object, each part checked in turn.
pub open spec fn spectrum_errors(v: JsonValue, path: Seq<char>) -> Seq<Seq<char>> {
    match v {
        JsonValue::Object(o) => require_string_errors(o@, "id"@, path) + metadata_part_errors(
            o@,
            path,
        ) + axis_part_errors(o@, path) + data_part_errors(o@, path) + color_part_errors(o@, path),
        _ => seq![path + ": must be an object"@],
    }
}

fn metadata_part(obj: &Vec<(String, JsonValue)>, path: &Vec<char>, errors: &mut Vec<String>)
    ensures
        final(errors).deep_view() == old(errors).deep_view() + metadata_part_errors(obj@, path@),
{
    let ghost e0 = errors.deep_view();
    match require_object(obj, "metadata", path, errors) {
        Some(m) => {
            validate_metadata(m, &cat(&cat(path, "."), "metadata"), errors);
        },
        None => {},
    }
    assert(errors.deep_view() =~= e0 + metadata_part_errors(obj@, path@));
}

fn axis_part(obj: &Vec<(String, JsonValue)>, path: &Vec<char>, errors: &mut Vec<String>)
    ensures
        final(errors).deep_view() == old(errors).deep_view() + axis_part_errors(obj@, path@),
{
    let ghost e0 = errors.deep_view();
    match require_object(obj, "wavelength_axis", path, errors) {
        Some(m) => {
            validate_wavelength_axis(m, &cat(&cat(path, "."), "wavelength_axis"), errors);
        },
        None => {},
    }
    assert(errors.deep_view() =~= e0 + axis_part_errors(obj@, path@));
}

fn data_part(obj: &Vec<(String, JsonValue)>, path: &Vec<char>, errors: &mut Vec<String>)
    ensures
        final(errors).deep_view() == old(errors).deep_view() + data_part_errors(obj@, path@),
{
    let ghost e0 = errors.deep_view();
    match require_object(obj, "spectral_data", path, errors) {
        Some(m) => {
            validate_spectral_data(m, &cat(&cat(path, "."), "spectral_data"), errors);
        },
        None => {},
    }
    assert(errors.deep_view() =~= e0 + data_part_errors(obj@, path@));
}

fn color_part(obj: &Vec<(String, JsonValue)>, path: &Vec<char>, errors: &mut Vec<String>)
    ensures
        final(errors).deep_view() == old(errors).deep_view() + color_part_errors(obj@, path@),
{
    let ghost e0 = errors.deep_view();
    match get_field(obj, "color_science") {
        None => {},
        Some(JsonValue::Object(c)) => {
            validate_color_science(c, &cat(path, ".color_science"), errors);
        },
        Some(_) => {
            push_msg(errors, &cat(path, ".color_science must be an object"));
        },
    }
    assert(errors.deep_view() =~= e0 + color_part_errors(obj@, path@));
}

/// Reports the problems of one spectrum.
pub fn validate_spectrum(v: &JsonValue, path: &Vec<char>, errors: &mut Vec<String>)
    ensures
        final(errors).deep_view() == old(errors).deep_view() + spectrum_errors(*v, path@),
{
    let ghost e0 = errors.deep_view();
    let obj = match v {
        JsonValue::Object(o) => o,
        _ => {
            push_msg(errors, &cat(path, ": must be an object"));
            assert(errors.deep_view() =~= e0 + spectrum_errors(*v, path@));
            return;
        },
    };
    require_string(obj, "id", path, errors);
    metadata_part(obj, path, errors);
    axis_part(obj, path, errors);
    data_part(obj, path, errors);
    color_part(obj, path, errors);
    assert(errors.deep_view() =~= e0 + spectrum_errors(*v, path@));
}

/// The path of item `i` of the `spectra` array.
pub open spec fn item_path(i: nat) -> Seq<char> {
    "spectra["@ + decimal(i) + "]"@
}

/// The problems of the spectra of a batch from item `i` on.
pub open spec fn spectra_errors(items: Seq<JsonValue>, i: int) -> Seq<Seq<char>>
    decreases items.len() - i,
{
    if i < 0 || i >= items.len() {
        seq![]
    } else {
        spectrum_errors(items[i], item_path(i as nat)) + spectra_errors(items, i + 1)
    }
}

/// `schema_version` is three dot-separated unsigned numbers.
pub open spec fn is_semver(s: Seq<char>) -> bool {
    let parts = split_on(s, '.');
    parts.len() == 3 && forall|i: int| 0 <= i < 3 ==> parse_u32_spec(#[trigger] parts[i]) is Some
}

fn semver(s: &str) -> (b: bool)
    ensures
        b == is_semver(s@),
{
    let parts = split_char(&chars_of(s), '.');
    if parts.len() != 3 {
        return false;
    }
    let ghost ps = parts.deep_view();
    assert(ps[0] == parts[0]@ && ps[1] == parts[1]@ && ps[2] == parts[2]@);
    let a = parse_u32(&parts[0]).is_some();
    let b = parse_u32(&parts[1]).is_some();
    let c = parse_u32(&parts[2]).is_some();
    assert((a && b && c) == is_semver(s@)) by {
        if a && b && c {
            assert forall|i: int| 0 <= i < 3 implies parse_u32_spec(#[trigger] ps[i]) is Some by {
                if i == 0 {
                } else if i == 1 {
                } else {
                }
            }
        } else if !a {
            assert(parse_u32_spec(ps[0]) is None);
        } else if !b {
            assert(parse_u32_spec(ps[1]) is None);
        } else {
            assert(parse_u32_spec(ps[2]) is None);
        }
    }
    a && b && c
}

/// The problems of the `schema_version` member.
pub open spec fn version_errors(o: Seq<(String, JsonValue)>) -> Seq<Seq<char>> {
    match field_at(o, "schema_version"@) {
        None => seq!["Missing required field: schema_version"@],
        Some(JsonValue::Str(s)) => if is_semver(s@) {
            seq![]
        } else {
            seq!["schema_version '"@ + s@ + "' does not look like semver (e.g. 1.0.0)"@]
        },
        Some(_) => seq!["schema_version must be a string"@],
    }
}

/// `single` or `batch`.
pub open spec fn is_file_type(s: Seq<char>) -> bool {
    s == "single"@ || s == "batch"@
}

/// The problems of the `file_type` member.
pub open spec fn file_type_errors(o: Seq<(String, JsonValue)>) -> Seq<Seq<char>> {
    match field_at(o, "file_type"@) {
        None => seq!["Missing required field: file_type"@],
        Some(JsonValue::Str(s)) => if is_file_type(s@) {
            seq![]
        } else {
            seq!["file_type must be 'single' or 'batch', got '"@ + s@ + "'"@]
        },
        Some(_) => seq!["file_type must be a string"@],
    }
}

/// The problems of a single-spectrum document's body.
pub open spec fn single_errors(o: Seq<(String, JsonValue)>) -> Seq<Seq<char>> {
    (match field_at(o, "spectrum"@) {
        None => seq!["Single file must have a 'spectrum' field"@],
        Some(sp) => spectrum_errors(sp, "spectrum"@),
    }) + if has_field(o, "spectra"@) {
        seq!["Single file must not have a 'spectra' array (use file_type='batch')"@]
    } else {
        seq![]
    }
}

/// The problems of a batch document's body.
pub open spec fn batch_errors(o: Seq<(String, JsonValue)>) -> Seq<Seq<char>> {
    (match field_at(o, "spectra"@) {
        None => seq!["Batch file must have a 'spectra' array"@],
        Some(JsonValue::Array(items)) => (if items@.len() == 0 {
            seq!["'spectra' array must not be empty"@]
        } else {
            seq![]
        }) + spectra_errors(items@, 0),
        Some(_) => seq!["'spectra' must be an array"@],
    }) + if has_field(o, "spectrum"@) {
        seq!["Batch file must not have a 'spectrum' field"@]
    } else {
        seq![]
    }
}

/// All problems of a document object, in the order they are found.
pub open spec fn document_errors(o: Seq<(String, JsonValue)>) -> Seq<Seq<char>> {
    version_errors(o) + file_type_errors(o) + match field_at(o, "file_type"@) {
        Some(JsonValue::Str(s)) => if s@ == "single"@ {
            single_errors(o)
        } else if s@ == "batch"@ {
            batch_errors(o)
        } else {
            seq![]
        },
        _ => seq![],
    }
}

/// The messages, one per line.
pub open spec fn join_lines(e: Seq<Seq<char>>) -> Seq<char>
    decreases e.len(),
{
    if e.len() == 0 {
        seq![]
    } else if e.len() == 1 {
        e[0]
    } else {
        join_lines(e.drop_last()) + seq!['\n'] + e.last()
    }
}

/// The outcome of validating a document: success when it is an object with
/// no problem, else all its problems, one per line.
pub open spec fn schema_outcome(v: JsonValue) -> Result<(), ImportErrorV> {
    match v {
        JsonValue::Object(o) => if document_errors(o@).len() == 0 {
            Ok(())
        } else {
            Err(ImportErrorV::SchemaValidation(join_lines(document_errors(o@))))
        },
        _ => Err(ImportErrorV::SchemaValidation("Root value must be a JSON object."@)),
    }
}

fn version_check(obj: &Vec<(String, JsonValue)>, errors: &mut Vec<String>)
    ensures
        final(errors).deep_view() == old(errors).deep_view() + version_errors(obj@),
{
    let ghost e0 = errors.deep_view();
    match get_field(obj, "schema_version") {
        None => {
            push_msg(errors, &chars_of("Missing required field: schema_version"));
        },
        Some(JsonValue::Str(s)) => {
            if !semver(s.as_str()) {
                let mut m = chars_of("schema_version '");
                append_str(&mut m, s.as_str());
                append_str(&mut m, "' does not look like semver (e.g. 1.0.0)");
                push_msg(errors, &m);
            }
        },
        Some(_) => {
            push_msg(errors, &chars_of("schema_version must be a string"));
        },
    }
    assert(errors.deep_view() =~= e0 + version_errors(obj@));
}

fn file_type_check(obj: &Vec<(String, JsonValue)>, errors: &mut Vec<String>)
    ensures
        final(errors).deep_view() == old(errors).deep_view() + file_type_errors(obj@),
{
    let ghost e0 = errors.deep_view();
    match get_field(obj, "file_type") {
        None => {
            push_msg(errors, &chars_of("Missing required field: file_type"));
        },
        Some(JsonValue::Str(s)) => {
            let sv = chars_of(s.as_str());
            if !eq_lit(&sv, "single") && !eq_lit(&sv, "batch") {
                let mut m = chars_of("file_type must be 'single' or 'batch', got '");
                append_str(&mut m, s.as_str());
                append_str(&mut m, "'");
                push_msg(errors, &m);
            }
        },
        Some(_) => {
            push_msg(errors, &chars_of("file_type must be a string"));
        },
    }
    assert(errors.deep_view() =~= e0 + file_type_errors(obj@));
}

fn spectra_check(items: &Vec<JsonValue>, errors: &mut Vec<String>)
    ensures
        final(errors).deep_view() == old(errors).deep_view() + spectra_errors(items@, 0),
{
    let ghost e0 = errors.deep_view();
    let mut i: usize = 0;
    assert(e0 + spectra_errors(items@, 0) =~= errors.deep_view() + spectra_errors(items@, 0));
    while i < items.len()
        invariant
            0 <= i <= items.len(),
            e0 + spectra_errors(items@, 0) == errors.deep_view() + spectra_errors(items@, i as int),
        decreases items.len() - i,
    {
        let mut path = chars_of("spectra[");
        append_chars(&mut path, &decimal_chars(i as u128));
        append_str(&mut path, "]");
        assert(path@ =~= item_path(i as nat));
        let ghost before = errors.deep_view();
        validate_spectrum(&items[i], &path, errors);
        assert(before + spectra_errors(items@, i as int) =~= errors.deep_view() + spectra_errors(
            items@,
            i + 1,
        ));
        i = i + 1;
    }
    assert(errors.deep_view() + spectra_errors(items@, i as int) =~= errors.deep_view());
}

fn single_check(obj: &Vec<(String, JsonValue)>, errors: &mut Vec<String>)
    ensures
        final(errors).deep_view() == old(errors).deep_view() + single_errors(obj@),
{
    let ghost e0 = errors.deep_view();
    match get_field(obj, "spectrum") {
        None => {
            push_msg(errors, &chars_of("Single file must have a 'spectrum' field"));
        },
        Some(sp) => {
            validate_spectrum(sp, &chars_of("spectrum"), errors);
        },
    }
    if get_field(obj, "spectra").is_some() {
        push_msg(
            errors,
            &chars_of("Single file must not have a 'spectra' array (use file_type='batch')"),
        );
    }
    assert(errors.deep_view() =~= e0 + single_errors(obj@));
}

fn batch_check(obj: &Vec<(String, JsonValue)>, errors: &mut Vec<String>)
    ensures
        final(errors).deep_view() == old(errors).deep_view() + batch_errors(obj@),
{
    let ghost e0 = errors.deep_view();
    match get_field(obj, "spectra") {
        None => {
            push_msg(errors, &chars_of("Batch file must have a 'spectra' array"));
        },
        Some(JsonValue::Array(items)) => {
            if items.len() == 0 {
                push_msg(errors, &chars_of("'spectra' array must not be empty"));
            }
            spectra_check(items, errors);
        },
        Some(_) => {
            push_msg(errors, &chars_of("'spectra' must be an array"));
        },
    }
    if get_field(obj, "spectrum").is_some() {
        push_msg(errors, &chars_of("Batch file must not have a 'spectrum' field"));
    }
    assert(errors.deep_view() =~= e0 + batch_errors(obj@));
}

/// The messages joined by line breaks.
pub fn join_lines_exec(e: &Vec<String>) -> (r: String)
    ensures
        r@ == join_lines(e.deep_view()),
{
    let mut out: Vec<char> = Vec::new();
    let mut i: usize = 0;
    while i < e.len()
        invariant
            0 <= i <= e.len(),
            out@ == join_lines(e.deep_view().take(i as int)),
        decreases e.len() - i,
    {
        let ghost t = e.deep_view().take(i + 1);
        assert(t.drop_last() =~= e.deep_view().take(i as int));
        assert(t.last() == e[i as int]@);
        if i > 0 {
            out.push('\n');
        }
        append_chars(&mut out, &chars_of(e[i].as_str()));
        assert(out@ =~= join_lines(t));
        i = i + 1;
    }
    assert(e.deep_view().take(i as int) =~= e.deep_view());
    string_of(&out)
}

/// Checks the structure of a document: its version, its file type, and
/// each spectrum's required parts, types and allowed values.  All problems
/// are reported together, one per line.
pub fn validate_schema(v: &JsonValue) -> (r: Result<(), ImportError>)
    ensures
        match r {
            Ok(()) => schema_outcome(*v) == Ok::<(), ImportErrorV>(()),
            Err(e) => schema_outcome(*v) == Err::<(), ImportErrorV>(e@),
        },
{
    let obj = match v {
        JsonValue::Object(o) => o,
        _ => {
            return Err(crate::model::schema_error("Root value must be a JSON object."));
        },
    };
    let mut errors: Vec<String> = Vec::new();
    assert(errors.deep_view() =~= Seq::<Seq<char>>::empty());
    version_check(obj, &mut errors);
    file_type_check(obj, &mut errors);
    let ghost e2 = errors.deep_view();
    match get_field(obj, "file_type") {
        Some(JsonValue::Str(s)) => {
            let sv = chars_of(s.as_str());
            if eq_lit(&sv, "single") {
                single_check(obj, &mut errors);
            } else if eq_lit(&sv, "batch") {
                batch_check(obj, &mut errors);
            }
        },
        _ => {},
    }
    assert(errors.deep_view() =~= document_errors(obj@));
    if errors.len() == 0 {
        Ok(())
    } else {
        Err(ImportError::SchemaValidation(join_lines_exec(&errors)))
    }
}


// ───────────────────────── JSON text ─────────────────────────

/// The document a JSON text holds, each number as `serde_json` writes it
/// and each object's members in the order `serde_json` keeps them; none
/// when the text is not JSON.
pub uninterp spec fn json_text_value(text: Seq<char>) -> Option<JsonValue>;

/// A parsed `serde_json::Value` as a `JsonValue`, variant by variant; a
/// number becomes the text its `Display` writes.
#[verifier::external_body]
fn json_value_of(v: serde_json::Value) -> JsonValue {
    match v {
        serde_json::Value::Null => JsonValue::Null,
        serde_json::Value::Bool(b) => JsonValue::Bool(b),
        serde_json::Value::Number(n) => JsonValue::Number(n.to_string()),
        serde_json::Value::String(s) => JsonValue::Str(s),
        serde_json::Value::Array(a) => JsonValue::Array(a.into_iter().map(json_value_of).collect()),
        serde_json::Value::Object(m) => JsonValue::Object(
            m.into_iter().map(|(k, x)| (k, json_value_of(x))).collect(),
        ),
    }
}

/// Calls `serde_json::from_str` for a `serde_json::Value`: the document
/// the text holds, or the error `serde_json` reports for text that is not
/// JSON.  The outcome depends on the text alone.
#[verifier::external_body]
fn parse_json_text(text: &str) -> (r: Result<JsonValue, serde_json::Error>)
    ensures
        match r {
            Ok(v) => json_text_value(text@) == Some(v),
            Err(_) => json_text_value(text@) is None,
        },
{
    serde_json::from_str::<serde_json::Value>(text).map(json_value_of)
}

/// Checks a JSON text: text that is not JSON is refused with the parser's
/// error, and a document is checked as `validate_schema` does.
pub fn validate_json_text(text: &str) -> (r: Result<(), ImportError>)
    ensures
        match json_text_value(text@) {
            None => r is Err && r->Err_0 is Json,
            Some(v) => match r {
                Ok(()) => schema_outcome(v) == Ok::<(), ImportErrorV>(()),
                Err(e) => schema_outcome(v) == Err::<(), ImportErrorV>(e@),
            },
        },
{
    match parse_json_text(text) {
        Ok(v) => validate_schema(&v),
        Err(e) => Err(ImportError::Json(e)),
    }
}

/// Each message is a line of the joined text.
pub proof fn lemma_join_lines_contains(e: Seq<Seq<char>>, i: int)
    requires
        0 <= i < e.len(),
    ensures
        contains_seq(join_lines(e), e[i]),
    decreases e.len(),
{
    let j = join_lines(e);
    if e.len() == 1 {
        assert(j.subrange(0, e[0].len() as int) =~= e[0]);
        assert(occurs_at(j, e[i], 0));
    } else {
        let a = e.drop_last();
        let ja = join_lines(a);
        assert(j == ja + seq!['\n'] + e.last());
        if i == e.len() - 1 {
            let k: int = ja.len() as int + 1;
            assert(j.subrange(k, k + e[i].len()) =~= e[i]);
            assert(occurs_at(j, e[i], k));
        } else {
            assert(a[i] == e[i]);
            lemma_join_lines_contains(a, i);
            let k = choose|k: int| occurs_at(ja, a[i], k);
            assert(j.subrange(k, k + e[i].len()) =~= ja.subrange(k, k + e[i].len()));
            assert(occurs_at(j, e[i], k));
        }
    }
}

/// All problems of a document are reported together: validation fails, and
/// each problem found is in the message.
pub proof fn lemma_every_problem_reported(v: JsonValue, i: int)
    requires
        v is Object,
        0 <= i < document_errors(v->Object_0@).len(),
    ensures
        match schema_outcome(v) {
            Err(ImportErrorV::SchemaValidation(msg)) => contains_seq(msg, document_errors(v->Object_0@)[i]),
            _ => false,
        },
{
    lemma_join_lines_contains(document_errors(v->Object_0@), i);
}

/// Every measurement type passes the metadata checks by its name: a
/// metadata object whose `measurement_type` is the name of a type and whose
/// `date` is a string has no problem.
pub proof fn lemma_every_measurement_type_allowed(
    o: Seq<(String, JsonValue)>,
    path: Seq<char>,
    mt: crate::model::MeasurementType,
)
    requires
        field_at(o, "measurement_type"@) is Some,
        field_at(o, "measurement_type"@)->Some_0 is Str,
        field_at(o, "measurement_type"@)->Some_0->Str_0@ == crate::model::measurement_type_name(mt),
        field_at(o, "date"@) is Some,
        field_at(o, "date"@)->Some_0 is Str,
    ensures
        metadata_errors(o, path) == Seq::<Seq<char>>::empty(),
{
    let s = field_at(o, "measurement_type"@)->Some_0->Str_0@;
    assert(is_allowed_measurement_type(s));
    assert(seq![] + Seq::<Seq<char>>::empty() =~= Seq::<Seq<char>>::empty());
}

} // verus!
