# spectral_io

Reading, writing and validating optical spectral data files: a JSON format
for UV-Vis and visible-range measurements, generic CSV/TSV text with a
`KEY: VALUE` metadata header, and the SpectraShop text export.

The text layer is a library verified with Verus (`src/`): every function
states what it returns in its `ensures`, over spec functions of the
character sequences it reads and writes. Numbers stay text there: a value is
kept as a token that the floating-point grammar accepts, and is read as a
number by the caller.

## Layout

`src/` (verified)

- `text` — trimming, line splitting, character helpers; `str::to_lowercase`
  and `str::to_uppercase` are called behind trusted wrappers.
- `number` — the floating-point token grammar, `u32` parsing, decimal forms.
- `fields` — delimited fields with double quotes, and quoting for writing.
- `date` — ISO and `MM/DD/YYYY` dates, with the UTF-8 byte model that decides
  where a ten-byte date prefix ends.
- `model` — measurement types, instruments, the parts of a record a text
  importer fills in, errors; custom metadata is a `serde_json::Map` behind
  trusted wrappers.
- `csv_text` — the CSV/TSV reader (header block, data block, records) and the
  header writer.
- `ss_text`, `spectrashop` — SpectraShop header keywords, data tokens, records
  and the line-driven reading of a whole file.
- `schema` — structural validation of a JSON document, and of a JSON text
  read by `serde_json::from_str` behind a trusted wrapper.
- `cross` — the cross-field checks, over facts measured by the caller.
- `round_trip` — proofs that written headers and quoted rows read back as
  written.

`app/` (ordinary Rust): the serde data model with its floating-point numbers,
the typed serde read of a checked JSON text, file access, the numeric parts (wavelength grids, value ranges,
resampling), and the Python bindings.

`tests/` run the library on concrete files and values.
