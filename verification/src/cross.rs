//! Consistency checks across the fields of a spectrum, once its structure is
//! known to be valid: matching point counts, increasing wavelengths,
//! reflectance and transmittance values within `[0, 1]` on the fractional
//! scale and within `[0, 100]` on the percent scale, and a custom illuminant
//! that comes with its distribution.
//!
//! The numeric facts (point counts of the wavelength axis, whether it
//! increases, which values fall outside `[0, 1]` and `[0, 100]`) are measured
//! by the caller
//! and handed over as `SpectrumFacts`; this module decides what is reported.
use vstd::prelude::*;
use crate::model::MeasurementType;
use crate::number::{decimal, decimal_chars};
use crate::schema::{join_lines, lemma_join_lines_contains};
use crate::text::contains_seq;
use crate::text::{append_chars, append_str, chars_of, eq_lit, string_of};

verus! {

/// What the cross-field checks read of one spectrum.
pub struct SpectrumFacts {
    pub id: String,
    /// Points of the wavelength axis.
    pub n_wavelengths: usize,
    /// Points of `spectral_data.values`.
    pub n_values: usize,
    /// Points of `spectral_data.uncertainty`, when present.
    pub n_uncertainty: Option<usize>,
    /// Each wavelength is below the next.
    pub wavelengths_increasing: bool,
    pub measurement_type: MeasurementType,
    /// `spectral_data.scale`, when present.
    pub scale: Option<String>,
    /// Values outside `[0, 1]`.
    pub n_out_of_range: usize,
    /// The first value outside `[0, 1]`, as written in messages.
    pub first_offender: String,
    /// Values outside `[0, 100]`.
    pub n_out_of_percent_range: usize,
    /// The first value outside `[0, 100]`, as written in messages.
    pub first_percent_offender: String,
    /// `color_science.illuminant`, when present.
    pub illuminant: Option<String>,
    /// Lengths of `illuminant_custom_sd.wavelengths_nm` and `.values`, when
    /// a custom distribution is present.
    pub custom_sd_lengths: Option<(usize, usize)>,
}

/// The name of a measurement type as its debug form writes it.
pub open spec fn type_debug_name(mt: MeasurementType) -> Seq<char> {
    match mt {
        MeasurementType::Reflectance => "Reflectance"@,
        MeasurementType::Transmittance => "Transmittance"@,
        MeasurementType::Absorbance => "Absorbance"@,
        MeasurementType::Radiance => "Radiance"@,
        MeasurementType::Irradiance => "Irradiance"@,
        MeasurementType::Emission => "Emission"@,
        MeasurementType::Sensitivity => "Sensitivity"@,
    }
}

fn type_debug_str(mt: MeasurementType) -> (r: &'static str)
    ensures
        r@ == type_debug_name(mt),
{
    match mt {
        MeasurementType::Reflectance => "Reflectance",
        MeasurementType::Transmittance => "Transmittance",
        MeasurementType::Absorbance => "Absorbance",
        MeasurementType::Radiance => "Radiance",
        MeasurementType::Irradiance => "Irradiance",
        MeasurementType::Emission => "Emission",
        MeasurementType::Sensitivity => "Sensitivity",
    }
}

/// `SpectrumRecord '<id>': ` before each message about a spectrum.
pub open spec fn about(id: Seq<char>) -> Seq<char> {
    "SpectrumRecord '"@ + id + "': "@
}

/// Reflectance and transmittance values are held to a range.
pub open spec fn is_bounded_type(mt: MeasurementType) -> bool {
    mt == MeasurementType::Reflectance || mt == MeasurementType::Transmittance
}

/// Values are held to `[0, 1]`: reflectance or transmittance on the
/// fractional scale, which is the scale when none is given.
pub open spec fn is_bounded(f: SpectrumFacts) -> bool {
    is_bounded_type(f.measurement_type) && match f.scale {
        Some(s) => s@ == "fractional"@,
        None => true,
    }
}

/// Values are held to `[0, 100]`: reflectance or transmittance on the
/// percent scale.
pub open spec fn is_percent_bounded(f: SpectrumFacts) -> bool {
    is_bounded_type(f.measurement_type) && match f.scale {
        Some(s) => s@ == "percent"@,
        None => false,
    }
}

/// The point-count problems of a spectrum.
pub open spec fn count_errors(f: SpectrumFacts) -> Seq<Seq<char>> {
    let id = f.id@;
    (if f.n_wavelengths != f.n_values {
        seq![
            about(id) + "wavelength_axis has "@ + decimal(f.n_wavelengths as nat)
                + " points but spectral_data.values has "@ + decimal(f.n_values as nat)
                + " — must match."@,
        ]
    } else {
        seq![]
    }) + match f.n_uncertainty {
        Some(u) => if u != f.n_values {
            seq![
                about(id) + "spectral_data.uncertainty has "@ + decimal(u as nat)
                    + " points but spectral_data.values has "@ + decimal(f.n_values as nat)
                    + " — must match."@,
            ]
        } else {
            seq![]
        },
        None => seq![],
    }
}

/// The wavelength-order and value-range problems of a spectrum.
pub open spec fn value_errors(f: SpectrumFacts) -> Seq<Seq<char>> {
    let id = f.id@;
    (if !f.wavelengths_increasing {
        seq![about(id) + "wavelength_axis is not strictly increasing."@]
    } else {
        seq![]
    }) + (if is_bounded(f) && f.n_out_of_range > 0 {
        seq![
            about(id) + "measurement_type="@ + type_debug_name(f.measurement_type)
                + ", scale='fractional' but "@ + decimal(f.n_out_of_range as nat)
                + " value(s) fall outside [0,1]. First offender: "@ + f.first_offender@,
        ]
    } else {
        seq![]
    }) + if is_percent_bounded(f) && f.n_out_of_percent_range > 0 {
        seq![
            about(id) + "measurement_type="@ + type_debug_name(f.measurement_type)
                + ", scale='percent' but "@ + decimal(f.n_out_of_percent_range as nat)
                + " value(s) fall outside [0,100]. First offender: "@
                + f.first_percent_offender@,
        ]
    } else {
        seq![]
    }
}

/// The custom-illuminant problems of a spectrum.
pub open spec fn illuminant_errors(f: SpectrumFacts) -> Seq<Seq<char>> {
    let id = f.id@;
    (if f.illuminant.deep_view() == Some("custom"@) && f.custom_sd_lengths is None {
        seq![
            about(id)
                + "color_science.illuminant is 'custom' but illuminant_custom_sd is missing."@,
        ]
    } else {
        seq![]
    }) + match f.custom_sd_lengths {
        Some((a, b)) => if a != b {
            seq![
                about(id) + "illuminant_custom_sd.wavelengths_nm ("@ + decimal(a as nat)
                    + ") and .values ("@ + decimal(b as nat) + ") must have equal length."@,
            ]
        } else {
            seq![]
        },
        None => seq![],
    }
}

/// The problems of one spectrum, in the order they are checked.
pub open spec fn facts_errors(f: SpectrumFacts) -> Seq<Seq<char>> {
    count_errors(f) + value_errors(f) + illuminant_errors(f)
}

/// The problems of the spectra from number `i` on.
pub open spec fn all_facts_errors(fs: Seq<SpectrumFacts>, i: int) -> Seq<Seq<char>>
    decreases fs.len() - i,
{
    if i < 0 || i >= fs.len() {
        seq![]
    } else {
        facts_errors(fs[i]) + all_facts_errors(fs, i + 1)
    }
}

fn push_msg(errors: &mut Vec<String>, m: &Vec<char>)
    ensures
        final(errors).deep_view() == old(errors).deep_view().push(m@),
{
    let s = string_of(m);
    let ghost o = errors.deep_view();
    errors.push(s);
    assert(errors.deep_view() =~= o.push(m@));
}

fn about_exec(id: &String) -> (r: Vec<char>)
    ensures
        r@ == about(id@),
{
    let mut r = chars_of("SpectrumRecord '");
    append_str(&mut r, id.as_str());
    append_str(&mut r, "': ");
    assert(r@ =~= about(id@));
    r
}

fn count_message(id: &String, what: &str, n: usize, values: usize) -> (r: Vec<char>)
    ensures
        r@ == about(id@) + what@ + decimal(n as nat) + " points but spectral_data.values has "@
            + decimal(values as nat) + " — must match."@,
{
    let mut r = about_exec(id);
    append_str(&mut r, what);
    append_chars(&mut r, &decimal_chars(n as u128));
    append_str(&mut r, " points but spectral_data.values has ");
    append_chars(&mut r, &decimal_chars(values as u128));
    append_str(&mut r, " — must match.");
    assert(r@ =~= about(id@) + what@ + decimal(n as nat) + " points but spectral_data.values has "@
        + decimal(values as nat) + " — must match."@);
    r
}

fn counts_check(f: &SpectrumFacts, errors: &mut Vec<String>)
    ensures
        final(errors).deep_view() == old(errors).deep_view() + count_errors(*f),
{
    let ghost e0 = errors.deep_view();
    if f.n_wavelengths != f.n_values {
        push_msg(
            errors,
            &count_message(&f.id, "wavelength_axis has ", f.n_wavelengths, f.n_values),
        );
    }
    match f.n_uncertainty {
        Some(u) => {
            if u != f.n_values {
                push_msg(
                    errors,
                    &count_message(&f.id, "spectral_data.uncertainty has ", u, f.n_values),
                );
            }
        },
        None => {},
    }
    assert(errors.deep_view() =~= e0 + count_errors(*f));
}

fn bounded_exec(f: &SpectrumFacts) -> (b: (bool, bool))
    ensures
        b.0 == is_bounded(*f),
        b.1 == is_percent_bounded(*f),
{
    let typed = match f.measurement_type {
        MeasurementType::Reflectance | MeasurementType::Transmittance => true,
        _ => false,
    };
    match &f.scale {
        Some(s) => {
            let cs = chars_of(s.as_str());
            (typed && eq_lit(&cs, "fractional"), typed && eq_lit(&cs, "percent"))
        },
        None => (typed, false),
    }
}

fn values_check(f: &SpectrumFacts, errors: &mut Vec<String>)
    ensures
        final(errors).deep_view() == old(errors).deep_view() + value_errors(*f),
{
    let ghost e0 = errors.deep_view();
    if !f.wavelengths_increasing {
        let mut m = about_exec(&f.id);
        append_str(&mut m, "wavelength_axis is not strictly increasing.");
        push_msg(errors, &m);
    }
    let (fractional, percent) = bounded_exec(f);
    if fractional && f.n_out_of_range > 0 {
        let mut m = about_exec(&f.id);
        append_str(&mut m, "measurement_type=");
        append_str(&mut m, type_debug_str(f.measurement_type));
        append_str(&mut m, ", scale='fractional' but ");
        append_chars(&mut m, &decimal_chars(f.n_out_of_range as u128));
        append_str(&mut m, " value(s) fall outside [0,1]. First offender: ");
        append_str(&mut m, f.first_offender.as_str());
        push_msg(errors, &m);
    }
    if percent && f.n_out_of_percent_range > 0 {
        let mut m = about_exec(&f.id);
        append_str(&mut m, "measurement_type=");
        append_str(&mut m, type_debug_str(f.measurement_type));
        append_str(&mut m, ", scale='percent' but ");
        append_chars(&mut m, &decimal_chars(f.n_out_of_percent_range as u128));
        append_str(&mut m, " value(s) fall outside [0,100]. First offender: ");
        append_str(&mut m, f.first_percent_offender.as_str());
        push_msg(errors, &m);
    }
    assert(errors.deep_view() =~= e0 + value_errors(*f));
}

fn illuminant_check(f: &SpectrumFacts, errors: &mut Vec<String>)
    ensures
        final(errors).deep_view() == old(errors).deep_view() + illuminant_errors(*f),
{
    let ghost e0 = errors.deep_view();
    let custom = match &f.illuminant {
        Some(s) => eq_lit(&chars_of(s.as_str()), "custom"),
        None => false,
    };
    if custom && f.custom_sd_lengths.is_none() {
        let mut m = about_exec(&f.id);
        append_str(
            &mut m,
            "color_science.illuminant is 'custom' but illuminant_custom_sd is missing.",
        );
        push_msg(errors, &m);
    }
    match f.custom_sd_lengths {
        Some((a, b)) => {
            if a != b {
                let mut m = about_exec(&f.id);
                append_str(&mut m, "illuminant_custom_sd.wavelengths_nm (");
                append_chars(&mut m, &decimal_chars(a as u128));
                append_str(&mut m, ") and .values (");
                append_chars(&mut m, &decimal_chars(b as u128));
                append_str(&mut m, ") must have equal length.");
                push_msg(errors, &m);
            }
        },
        None => {},
    }
    assert(errors.deep_view() =~= e0 + illuminant_errors(*f));
}

/// Reports the problems of one spectrum.
pub fn check_facts(f: &SpectrumFacts, errors: &mut Vec<String>)
    ensures
        final(errors).deep_view() == old(errors).deep_view() + facts_errors(*f),
{
    let ghost e0 = errors.deep_view();
    counts_check(f, errors);
    values_check(f, errors);
    illuminant_check(f, errors);
    assert(errors.deep_view() =~= e0 + facts_errors(*f));
}

/// The outcome of the cross-field checks: success when no spectrum has a
/// problem, else all problems, one per line.
pub open spec fn cross_outcome(fs: Seq<SpectrumFacts>) -> Result<(), Seq<char>> {
    if all_facts_errors(fs, 0).len() == 0 {
        Ok(())
    } else {
        Err(join_lines(all_facts_errors(fs, 0)))
    }
}

/// Runs the cross-field checks over the spectra of a file.
pub fn validate_cross_fields(facts: &Vec<SpectrumFacts>) -> (r: Result<(), String>)
    ensures
        match r {
            Ok(()) => cross_outcome(facts@) == Ok::<(), Seq<char>>(()),
            Err(msg) => cross_outcome(facts@) == Err::<(), Seq<char>>(msg@),
        },
{
    let mut errors: Vec<String> = Vec::new();
    let mut i: usize = 0;
    assert(errors.deep_view() =~= Seq::<Seq<char>>::empty());
    assert(all_facts_errors(facts@, 0) =~= errors.deep_view() + all_facts_errors(facts@, 0));
    while i < facts.len()
        invariant
            0 <= i <= facts.len(),
            all_facts_errors(facts@, 0) == errors.deep_view() + all_facts_errors(facts@, i as int),
        decreases facts.len() - i,
    {
        let ghost before = errors.deep_view();
        check_facts(&facts[i], &mut errors);
        assert(before + all_facts_errors(facts@, i as int) =~= errors.deep_view()
            + all_facts_errors(facts@, i + 1));
        i = i + 1;
    }
    assert(errors.deep_view() + all_facts_errors(facts@, i as int) =~= errors.deep_view());
    if errors.len() == 0 {
        Ok(())
    } else {
        Err(crate::schema::join_lines_exec(&errors))
    }
}


/// All cross-field problems are reported together: the checks fail, and
/// each problem of each spectrum is in the message.
pub proof fn lemma_every_cross_problem_reported(fs: Seq<SpectrumFacts>, i: int)
    requires
        0 <= i < all_facts_errors(fs, 0).len(),
    ensures
        match cross_outcome(fs) {
            Err(msg) => contains_seq(msg, all_facts_errors(fs, 0)[i]),
            Ok(()) => false,
        },
{
    lemma_join_lines_contains(all_facts_errors(fs, 0), i);
}

/// For every spectrum, an explicit `fractional` scale is checked as an
/// absent scale is; so reflectance or transmittance with values outside
/// `[0, 1]` on that scale is reported.
pub proof fn lemma_fractional_scale_is_default(f: SpectrumFacts)
    requires
        f.scale is Some,
        f.scale->Some_0@ == "fractional"@,
    ensures
        facts_errors(f) == facts_errors(SpectrumFacts { scale: None, ..f }),
        is_bounded_type(f.measurement_type) && f.n_out_of_range > 0 ==> facts_errors(f).len() > 0,
{
    reveal_strlit("fractional");
    reveal_strlit("percent");
    assert("fractional"@.len() != "percent"@.len());
    let g = SpectrumFacts { scale: None, ..f };
    assert(is_bounded(f) == is_bounded(g));
    assert(!is_percent_bounded(f) && !is_percent_bounded(g));
    assert(value_errors(f) =~= value_errors(g));
}

/// A spectrum passes the cross-field checks exactly when its point counts
/// match, its wavelengths increase, reflectance and transmittance values
/// lie in `[0, 1]` on the fractional scale (also when no scale is given)
/// and in `[0, 100]` on the percent scale, and a custom illuminant comes
/// with a distribution of matching lengths.
pub proof fn lemma_cross_checks_pass_iff(f: SpectrumFacts)
    ensures
        facts_errors(f).len() == 0 <==> {
            &&& f.n_wavelengths == f.n_values
            &&& (f.n_uncertainty is Some ==> f.n_uncertainty->Some_0 == f.n_values)
            &&& f.wavelengths_increasing
            &&& (is_bounded_type(f.measurement_type) && (f.scale is None || f.scale->Some_0@
                == "fractional"@) ==> f.n_out_of_range == 0)
            &&& (is_bounded_type(f.measurement_type) && f.scale is Some && f.scale->Some_0@
                == "percent"@ ==> f.n_out_of_percent_range == 0)
            &&& (f.illuminant.deep_view() == Some("custom"@) ==> f.custom_sd_lengths is Some)
            &&& (f.custom_sd_lengths is Some ==> f.custom_sd_lengths->Some_0.0
                == f.custom_sd_lengths->Some_0.1)
        },
{
    assert(facts_errors(f).len() == count_errors(f).len() + value_errors(f).len()
        + illuminant_errors(f).len());
}

} // verus!
