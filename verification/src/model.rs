//! The measured quantity, instrument and resampling kinds, and the parts of
//! a spectrum record that text importers fill in.
use vstd::prelude::*;
use crate::text::eq_lit;

verus! {

/// The physical quantity measured.
#[derive(Debug, Clone, Copy, PartialEq, Eq, Structural)]
pub enum MeasurementType {
    Reflectance,
    Transmittance,
    Absorbance,
    Radiance,
    Irradiance,
    Emission,
    /// Dimensionless spectral sensitivity or response function: colour matching
    /// functions, cone fundamentals, luminous efficiency, action spectra.
    Sensitivity,
}

/// The snake_case name of a measurement type, as the JSON format writes it.
pub open spec fn measurement_type_name(mt: MeasurementType) -> Seq<char> {
    match mt {
        MeasurementType::Reflectance => "reflectance"@,
        MeasurementType::Transmittance => "transmittance"@,
        MeasurementType::Absorbance => "absorbance"@,
        MeasurementType::Radiance => "radiance"@,
        MeasurementType::Irradiance => "irradiance"@,
        MeasurementType::Emission => "emission"@,
        MeasurementType::Sensitivity => "sensitivity"@,
    }
}

/// Whether the specular component is included or excluded.
#[derive(Debug, Clone, Copy, PartialEq, Eq, Structural)]
pub enum SpecularComponent {
    Included,
    Excluded,
    NotApplicable,
}

/// The JSON name of a specular component setting.
pub open spec fn specular_component_name(s: SpecularComponent) -> Seq<char> {
    match s {
        SpecularComponent::Included => "included"@,
        SpecularComponent::Excluded => "excluded"@,
        SpecularComponent::NotApplicable => "not applicable"@,
    }
}

impl SpecularComponent {
    /// The JSON name of this setting.
    pub fn name(&self) -> (r: &'static str)
        ensures
            r@ == specular_component_name(*self),
    {
        match self {
            SpecularComponent::Included => "included",
            SpecularComponent::Excluded => "excluded",
            SpecularComponent::NotApplicable => "not applicable",
        }
    }
}

/// Method used when resampling a spectrum to a new wavelength axis.
#[derive(Debug, Clone, Copy, PartialEq, Eq, Structural)]
pub enum ResampleMethod {
    /// Linear interpolation between adjacent input samples, clamped to the
    /// end values outside the input range.
    Linear,
    /// Rectangular-window averaging over half a target step on each side,
    /// falling back to linear interpolation for an empty window.
    BoxcarAverage,
    /// Gaussian-kernel weighted average over three standard deviations,
    /// falling back to linear interpolation for an empty window.
    Gaussian,
}

/// The words that name a resampling method in a processing step.
pub open spec fn resample_method_name(m: ResampleMethod) -> Seq<char> {
    match m {
        ResampleMethod::Linear => "linear interpolation"@,
        ResampleMethod::BoxcarAverage => "boxcar average"@,
        ResampleMethod::Gaussian => "gaussian"@,
    }
}

impl ResampleMethod {
    /// The words that name this method in a processing step.
    pub fn method_name(&self) -> (r: &'static str)
        ensures
            r@ == resample_method_name(*self),
    {
        match self {
            ResampleMethod::Linear => "linear interpolation",
            ResampleMethod::BoxcarAverage => "boxcar average",
            ResampleMethod::Gaussian => "gaussian",
        }
    }
}

/// Minimal instrument identification.
pub struct Instrument {
    pub manufacturer: Option<String>,
    pub model: Option<String>,
    pub serial_number: Option<String>,
    pub detector_type: Option<String>,
    pub light_source: Option<String>,
}

/// The text of an instrument description.
pub struct InstrumentV {
    pub manufacturer: Option<Seq<char>>,
    pub model: Option<Seq<char>>,
    pub serial_number: Option<Seq<char>>,
    pub detector_type: Option<Seq<char>>,
    pub light_source: Option<Seq<char>>,
}

impl View for Instrument {
    type V = InstrumentV;

    open spec fn view(&self) -> InstrumentV {
        InstrumentV {
            manufacturer: self.manufacturer.deep_view(),
            model: self.model.deep_view(),
            serial_number: self.serial_number.deep_view(),
            detector_type: self.detector_type.deep_view(),
            light_source: self.light_source.deep_view(),
        }
    }
}

/// A copy of an optional string.
pub fn clone_opt(o: &Option<String>) -> (r: Option<String>)
    ensures
        r.deep_view() == o.deep_view(),
{
    match o {
        Some(s) => Some(s.clone()),
        None => None,
    }
}

/// `Some` of the text `v`.
pub fn some_string(v: &Vec<char>) -> (r: Option<String>)
    ensures
        r.deep_view() == Some(v@),
{
    Some(crate::text::string_of(v))
}

// ───────────────────────── custom metadata ─────────────────────────

#[verifier::external_type_specification]
#[verifier::external_body]
pub struct ExJsonValue(serde_json::Value);

#[verifier::external_type_specification]
#[verifier::external_body]
pub struct ExJsonError(serde_json::Error);

#[verifier::external_type_specification]
#[verifier::external_body]
#[verifier::reject_recursive_types(K)]
#[verifier::reject_recursive_types(V)]
pub struct ExJsonMap<K, V>(serde_json::Map<K, V>);

/// Custom metadata: a JSON object of string values.
pub type CustomMap = serde_json::Map<String, serde_json::Value>;

/// What a JSON object holds: for each key, its value when that is a string,
/// or `None` for a value of another kind.
pub uninterp spec fn custom_entries(m: serde_json::Map<String, serde_json::Value>) -> Map<
    Seq<char>,
    Option<Seq<char>>,
>;

/// No custom metadata.
pub open spec fn no_custom() -> Map<Seq<char>, Option<Seq<char>>> {
    Map::empty()
}

/// Calls `serde_json::Map::new`, which makes an empty map.
#[verifier::external_body]
pub(crate) fn custom_new() -> (m: CustomMap)
    ensures
        custom_entries(m) == no_custom(),
{
    serde_json::Map::new()
}

/// Calls `serde_json::Map::insert` with the string value `v`: the key then
/// maps to `v`, replacing any value it had; the other keys keep theirs.
#[verifier::external_body]
pub(crate) fn custom_insert(m: &mut CustomMap, k: String, v: String)
    ensures
        custom_entries(*final(m)) == custom_entries(*old(m)).insert(k@, Some(v@)),
{
    m.insert(k, serde_json::Value::String(v));
}

/// Calls `serde_json::Map::contains_key`: whether some value is stored
/// under the key.
#[verifier::external_body]
pub(crate) fn custom_contains_key(m: &CustomMap, k: &str) -> (b: bool)
    ensures
        b == custom_entries(*m).dom().contains(k@),
{
    m.contains_key(k)
}

/// Calls `Clone::clone` of `serde_json::Map`, which copies every entry.
#[verifier::external_body]
pub(crate) fn custom_clone(m: &CustomMap) -> (r: CustomMap)
    ensures
        custom_entries(r) == custom_entries(*m),
{
    m.clone()
}

/// Sets `k` to `v` only when `k` is not yet present.
pub open spec fn insert_absent(c: Map<Seq<char>, Option<Seq<char>>>, k: Seq<char>, v: Seq<char>) -> Map<
    Seq<char>,
    Option<Seq<char>>,
> {
    if c.dom().contains(k) {
        c
    } else {
        c.insert(k, Some(v))
    }
}

/// Measurement conditions a text importer fills in.  The aperture is kept
/// as the token to be read as a number in millimetres.
pub struct ConditionsHead {
    pub averaging: Option<u32>,
    pub geometry: Option<String>,
    pub aperture_mm: Option<String>,
    pub filter: Option<String>,
}

pub struct ConditionsHeadV {
    pub averaging: Option<u32>,
    pub geometry: Option<Seq<char>>,
    pub aperture_mm: Option<Seq<char>>,
    pub filter: Option<Seq<char>>,
}

impl View for ConditionsHead {
    type V = ConditionsHeadV;

    open spec fn view(&self) -> ConditionsHeadV {
        ConditionsHeadV {
            averaging: self.averaging,
            geometry: self.geometry.deep_view(),
            aperture_mm: self.aperture_mm.deep_view(),
            filter: self.filter.deep_view(),
        }
    }
}

/// Illuminant and observer of a record.
pub struct ColorScienceHead {
    pub illuminant: Option<String>,
    pub cie_observer: Option<String>,
}

pub struct ColorScienceHeadV {
    pub illuminant: Option<Seq<char>>,
    pub cie_observer: Option<Seq<char>>,
}

impl View for ColorScienceHead {
    type V = ColorScienceHeadV;

    open spec fn view(&self) -> ColorScienceHeadV {
        ColorScienceHeadV {
            illuminant: self.illuminant.deep_view(),
            cie_observer: self.cie_observer.deep_view(),
        }
    }
}

/// Where a record came from.
pub struct ProvenanceHead {
    pub software: Option<String>,
    pub software_version: Option<String>,
    pub source_file: Option<String>,
    pub source_format: Option<String>,
    pub notes: Option<String>,
}

pub struct ProvenanceHeadV {
    pub software: Option<Seq<char>>,
    pub software_version: Option<Seq<char>>,
    pub source_file: Option<Seq<char>>,
    pub source_format: Option<Seq<char>>,
    pub notes: Option<Seq<char>>,
}

impl View for ProvenanceHead {
    type V = ProvenanceHeadV;

    open spec fn view(&self) -> ProvenanceHeadV {
        ProvenanceHeadV {
            software: self.software.deep_view(),
            software_version: self.software_version.deep_view(),
            source_file: self.source_file.deep_view(),
            source_format: self.source_format.deep_view(),
            notes: self.notes.deep_view(),
        }
    }
}

/// Everything of a spectrum record but its numbers: identity, metadata,
/// colour science and provenance, as a text importer fills them in.
/// `custom` holds the custom metadata; empty means none.
pub struct RecordHead {
    pub id: String,
    pub measurement_type: MeasurementType,
    pub date: String,
    pub title: Option<String>,
    pub description: Option<String>,
    pub sample_id: Option<String>,
    pub operator: Option<String>,
    pub instrument: Option<Instrument>,
    pub conditions: Option<ConditionsHead>,
    pub surface: Option<String>,
    pub sample_backing: Option<String>,
    pub copyright: Option<String>,
    pub custom: CustomMap,
    pub color_science: Option<ColorScienceHead>,
    pub provenance: ProvenanceHead,
}

pub struct RecordHeadV {
    pub id: Seq<char>,
    pub measurement_type: MeasurementType,
    pub date: Seq<char>,
    pub title: Option<Seq<char>>,
    pub description: Option<Seq<char>>,
    pub sample_id: Option<Seq<char>>,
    pub operator: Option<Seq<char>>,
    pub instrument: Option<InstrumentV>,
    pub conditions: Option<ConditionsHeadV>,
    pub surface: Option<Seq<char>>,
    pub sample_backing: Option<Seq<char>>,
    pub copyright: Option<Seq<char>>,
    pub custom: Map<Seq<char>, Option<Seq<char>>>,
    pub color_science: Option<ColorScienceHeadV>,
    pub provenance: ProvenanceHeadV,
}

impl View for RecordHead {
    type V = RecordHeadV;

    open spec fn view(&self) -> RecordHeadV {
        RecordHeadV {
            id: self.id@,
            measurement_type: self.measurement_type,
            date: self.date@,
            title: self.title.deep_view(),
            description: self.description.deep_view(),
            sample_id: self.sample_id.deep_view(),
            operator: self.operator.deep_view(),
            instrument: match self.instrument {
                Some(i) => Some(i@),
                None => None,
            },
            conditions: match self.conditions {
                Some(c) => Some(c@),
                None => None,
            },
            surface: self.surface.deep_view(),
            sample_backing: self.sample_backing.deep_view(),
            copyright: self.copyright.deep_view(),
            custom: custom_entries(self.custom),
            color_science: match self.color_science {
                Some(c) => Some(c@),
                None => None,
            },
            provenance: self.provenance@,
        }
    }
}

/// Whether a file holds one spectrum or a batch of them.
#[derive(PartialEq, Eq, Structural, Clone, Copy, Debug)]
pub enum FileKind {
    Single,
    Batch,
}

/// The kind of file that imported records make: one record is a
/// single-spectrum file, any other number a batch.
pub fn file_kind(n_records: usize) -> (k: FileKind)
    ensures
        (k == FileKind::Single) <==> n_records == 1,
{
    if n_records == 1 {
        FileKind::Single
    } else {
        FileKind::Batch
    }
}

/// Errors of the text importers.
#[derive(Debug)]
pub enum ImportError {
    /// The text does not have the structure of the format.
    SchemaValidation(String),
    /// A date's ten-byte prefix ends inside a character: the prefix is not
    /// text, and reading the date stops there.
    DateSliceInsideChar,
    /// The text is not JSON, as `serde_json` reports it.
    Json(serde_json::Error),
}

pub enum ImportErrorV {
    SchemaValidation(Seq<char>),
    DateSliceInsideChar,
    Json,
}

impl View for ImportError {
    type V = ImportErrorV;

    open spec fn view(&self) -> ImportErrorV {
        match self {
            ImportError::SchemaValidation(m) => ImportErrorV::SchemaValidation(m@),
            ImportError::DateSliceInsideChar => ImportErrorV::DateSliceInsideChar,
            ImportError::Json(_) => ImportErrorV::Json,
        }
    }
}

/// A schema error with the given message.
pub fn schema_error(msg: &str) -> (e: ImportError)
    ensures
        e@ == ImportErrorV::SchemaValidation(msg@),
{
    ImportError::SchemaValidation(crate::text::string_of(&crate::text::chars_of(msg)))
}

/// The illuminant codes of the format.
#[verifier::opaque]
pub open spec fn is_allowed_illuminant(s: Seq<char>) -> bool {
    ||| s == "D65"@
    ||| s == "D50"@
    ||| s == "D55"@
    ||| s == "D75"@
    ||| s == "A"@
    ||| s == "B"@
    ||| s == "C"@
    ||| s == "F1"@
    ||| s == "F2"@
    ||| s == "F3"@
    ||| s == "F4"@
    ||| s == "F5"@
    ||| s == "F6"@
    ||| s == "F7"@
    ||| s == "F8"@
    ||| s == "F9"@
    ||| s == "F10"@
    ||| s == "F11"@
    ||| s == "F12"@
    ||| s == "LED-B1"@
    ||| s == "LED-B2"@
    ||| s == "LED-B3"@
    ||| s == "LED-B4"@
    ||| s == "LED-B5"@
    ||| s == "LED-BH1"@
    ||| s == "LED-RGB1"@
    ||| s == "LED-V1"@
    ||| s == "LED-V2"@
    ||| s == "custom"@
}

/// `s` is one of the illuminant codes of the format.
pub fn allowed_illuminant(s: &Vec<char>) -> (b: bool)
    ensures
        b == is_allowed_illuminant(s@),
{
    reveal(is_allowed_illuminant);
    eq_lit(s, "D65") || eq_lit(s, "D50") || eq_lit(s, "D55") || eq_lit(s, "D75") || eq_lit(s, "A")
        || eq_lit(s, "B") || eq_lit(s, "C") || eq_lit(s, "F1") || eq_lit(s, "F2") || eq_lit(s, "F3")
        || eq_lit(s, "F4") || eq_lit(s, "F5") || eq_lit(s, "F6") || eq_lit(s, "F7") || eq_lit(s, "F8")
        || eq_lit(s, "F9") || eq_lit(s, "F10") || eq_lit(s, "F11") || eq_lit(s, "F12") || eq_lit(
        s,
        "LED-B1",
    ) || eq_lit(s, "LED-B2") || eq_lit(s, "LED-B3") || eq_lit(s, "LED-B4") || eq_lit(s, "LED-B5")
        || eq_lit(s, "LED-BH1") || eq_lit(s, "LED-RGB1") || eq_lit(s, "LED-V1") || eq_lit(s, "LED-V2")
        || eq_lit(s, "custom")
}

} // verus!
