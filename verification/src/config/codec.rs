//! Bounded UTF-8 TOML decoding and canonical encoding.
use vstd::prelude::*;
use vstd::utf8::{decode_utf8, encode_utf8, valid_utf8};
use crate::config::document::{
    TomlModel, TomlValue, float_renderable, lemma_literal_table_writable, literal_entries, literal_table, parse_document,
    render_document, renderable, renderable_table, table_model, toml_document, toml_pretty,
};
use crate::config::migration::{MigrationError, migrate_to_current, migration, migration_message, version_route};
use crate::config::model::{
    AppConfig, ConfigModel, ConfigValidationError, config_problem, valid_scale_bits, window_problem,
};
use crate::config::schema::{
    binding_document, bindings_document, bounds_document, config_document, config_schema, read_config,
    ui_document, window_document, write_config,
};
use crate::config::text_form::{canonical_text, canonicalize};
use crate::text::{concat2, concat3, decimal, string_from_chars};

verus! {

/// Largest accepted configuration document, in bytes.
pub const MAX_CONFIG_BYTES: usize = 1048576;

/// Message of a document that parses as TOML but does not fit the schema.
pub const SCHEMA_MISMATCH: &'static str = "the document does not match the configuration schema";

/// Config decoding or encoding failure without raw document contents.
#[derive(Debug)]
pub enum ConfigCodecError {
    SizeLimit,
    Utf8,
    Parse(String),
    Migration(MigrationError),
    Validation(ConfigValidationError),
    Encode(String),
}

/// The mathematical form of a [`ConfigCodecError`].
pub enum CodecFailure {
    SizeLimit,
    Utf8,
    Parse(Seq<char>),
    Migration(MigrationError),
    Validation(ConfigValidationError),
    Encode(Seq<char>),
}

impl View for ConfigCodecError {
    type V = CodecFailure;

    open spec fn view(&self) -> CodecFailure {
        match self {
            ConfigCodecError::SizeLimit => CodecFailure::SizeLimit,
            ConfigCodecError::Utf8 => CodecFailure::Utf8,
            ConfigCodecError::Parse(m) => CodecFailure::Parse(m@),
            ConfigCodecError::Migration(e) => CodecFailure::Migration(*e),
            ConfigCodecError::Validation(e) => CodecFailure::Validation(*e),
            ConfigCodecError::Encode(m) => CodecFailure::Encode(m@),
        }
    }
}

/// The message of a codec failure.
pub open spec fn codec_message(error: CodecFailure) -> Seq<char> {
    match error {
        CodecFailure::SizeLimit => "configuration exceeds the "@ + decimal(MAX_CONFIG_BYTES as nat) + "-byte limit"@,
        CodecFailure::Utf8 => "configuration is not valid UTF-8"@,
        CodecFailure::Parse(m) => "configuration TOML could not be parsed: "@ + m,
        CodecFailure::Migration(e) => migration_message(e),
        CodecFailure::Validation(e) => e.field@ + ": "@ + e.reason@,
        CodecFailure::Encode(m) => "configuration could not be encoded: "@ + m,
    }
}

impl ConfigCodecError {
    /// The message of this failure; it never holds document contents.
    pub fn message(&self) -> (text: String)
        ensures
            text@ == codec_message(self@),
    {
        match self {
            ConfigCodecError::SizeLimit => concat3(
                "configuration exceeds the ",
                crate::text::decimal_string(MAX_CONFIG_BYTES as u64).as_str(),
                "-byte limit",
            ),
            ConfigCodecError::Utf8 => String::from_str("configuration is not valid UTF-8"),
            ConfigCodecError::Parse(m) => concat2("configuration TOML could not be parsed: ", m.as_str()),
            ConfigCodecError::Migration(e) => e.message(),
            ConfigCodecError::Validation(e) => concat3(e.field, ": ", e.reason),
            ConfigCodecError::Encode(m) => concat2("configuration could not be encoded: ", m.as_str()),
        }
    }
}

/// The model of a decoding result.
pub open spec fn decoded(result: Result<AppConfig, ConfigCodecError>) -> Result<ConfigModel, CodecFailure> {
    match result {
        Ok(c) => Ok(c@),
        Err(e) => Err(e@),
    }
}

/// The model of an encoding result.
pub open spec fn encoded(result: Result<Vec<u8>, ConfigCodecError>) -> Result<Seq<u8>, CodecFailure> {
    match result {
        Ok(bytes) => Ok(bytes@),
        Err(e) => Err(e@),
    }
}

/// The validation failure for `config`, if any, is reported by `result`.
pub open spec fn validation_reported<T>(config: ConfigModel, result: Result<T, CodecFailure>) -> bool {
    match config_problem(config) {
        Some(p) => result matches Err(CodecFailure::Validation(e)) && e.reports(p),
        None => true,
    }
}

/// What decoding `bytes` gives: the size limit, UTF-8, TOML syntax, version
/// routing, the schema and validation are checked in that order.
pub open spec fn decode_spec(bytes: Seq<u8>, result: Result<ConfigModel, CodecFailure>) -> bool {
    if bytes.len() > MAX_CONFIG_BYTES {
        result == Err::<ConfigModel, CodecFailure>(CodecFailure::SizeLimit)
    } else if !valid_utf8(bytes) {
        result == Err::<ConfigModel, CodecFailure>(CodecFailure::Utf8)
    } else {
        match toml_document(decode_utf8(bytes)) {
            Err(m) => result == Err::<ConfigModel, CodecFailure>(CodecFailure::Parse(m)),
            Ok(t) => match version_route(t) {
                Err(e) => result == Err::<ConfigModel, CodecFailure>(CodecFailure::Migration(e)),
                Ok(_) => match config_schema(t) {
                    None => result == Err::<ConfigModel, CodecFailure>(CodecFailure::Parse(SCHEMA_MISMATCH@)),
                    Some(c) => if config_problem(c) is Some {
                        validation_reported(c, result)
                    } else {
                        result == Ok::<ConfigModel, CodecFailure>(c)
                    },
                },
            },
        }
    }
}

/// What encoding `config` gives: validation first, then the canonical form
/// of the TOML text written for its document, as UTF-8.
pub open spec fn encode_spec(config: ConfigModel, result: Result<Seq<u8>, CodecFailure>) -> bool {
    if config_problem(config) is Some {
        validation_reported(config, result)
    } else {
        match toml_pretty(literal_table(config_document(config))) {
            Err(m) => result == Err::<Seq<u8>, CodecFailure>(CodecFailure::Encode(m)),
            Ok(text) => result == Ok::<Seq<u8>, CodecFailure>(encode_utf8(canonical_text(text))),
        }
    }
}

/// Reads `bytes` as UTF-8 with `std::str::from_utf8`: text exactly when the
/// bytes are well-formed UTF-8, and then the characters they encode.
#[verifier::external_body]
pub(crate) fn utf8_text(bytes: &[u8]) -> (text: Option<&str>)
    ensures
        text is Some <==> valid_utf8(bytes@),
        text matches Some(s) ==> s@ == decode_utf8(bytes@),
{
    std::str::from_utf8(bytes).ok()
}

/// Decodes, version-routes, defaults and validates one complete document.
pub fn decode(bytes: &[u8]) -> (result: Result<AppConfig, ConfigCodecError>)
    ensures
        decode_spec(bytes@, decoded(result)),
{
    if bytes.len() > MAX_CONFIG_BYTES {
        return Err(ConfigCodecError::SizeLimit);
    }
    let text = match utf8_text(bytes) {
        Some(text) => text,
        None => return Err(ConfigCodecError::Utf8),
    };
    let entries = match parse_document(text) {
        Ok(entries) => entries,
        Err(message) => return Err(ConfigCodecError::Parse(message)),
    };
    let ghost t = table_model(entries@);
    proof { crate::config::document::lemma_table_value_model(entries); }
    let entries = match migrate_to_current(TomlValue::Table(entries)) {
        Err(error) => return Err(ConfigCodecError::Migration(error)),
        Ok(TomlValue::Table(entries)) => {
            proof { crate::config::document::lemma_table_value_model(entries); }
            entries
        },
        Ok(_) => {
            return Err(ConfigCodecError::Parse(String::from_str(SCHEMA_MISMATCH)));
        },
    };
    assert(table_model(entries@) == t);
    let config = match read_config(&entries) {
        Some(config) => config,
        None => return Err(ConfigCodecError::Parse(String::from_str(SCHEMA_MISMATCH))),
    };
    match config.validate() {
        Err(error) => Err(ConfigCodecError::Validation(error)),
        Ok(()) => Ok(config),
    }
}

proof fn lemma_scale_renderable(bits: u64)
    requires
        valid_scale_bits(bits),
    ensures
        float_renderable(bits),
{
    assert(0x3FE0_0000_0000_0000u64 / 0x10_0000_0000_0000u64 == 1022);
    assert(1022 <= bits / 0x10_0000_0000_0000u64 <= 1026) by (nonlinear_arith)
        requires
            0x3FE0_0000_0000_0000u64 <= bits <= 0x4020_0000_0000_0000u64;
}

proof fn lemma_document_renderable(config: ConfigModel)
    requires
        window_problem(config.window) is None,
    ensures
        renderable_table(config_document(config)),
{
    let w = window_document(config.window);
    match config.window.bounds {
        Some(b) => {
            lemma_scale_renderable(b.scale_factor_bits);
            let bd = bounds_document(b);
            assert(renderable(bd[4].1));
            assert forall|i: int| 0 <= i < bd.len() implies renderable(#[trigger] bd[i].1) by {}
            assert(renderable(TomlModel::Table(bd)));
            assert(renderable(w[0].1));
        },
        None => {},
    }
    assert forall|i: int| 0 <= i < w.len() implies renderable(#[trigger] w[i].1) by {}
    let u = ui_document(config.ui);
    assert forall|i: int| 0 <= i < u.len() implies renderable(#[trigger] u[i].1) by {}
    let k = bindings_document(config.keymap);
    assert forall|i: int| 0 <= i < k.len() implies renderable(#[trigger] k[i].1) by {
        let b = binding_document(config.keymap[i].1);
        assert forall|j: int| 0 <= j < b.len() implies renderable(#[trigger] b[j].1) by {}
    }
    let km = seq![("bindings"@, TomlModel::Table(k))];
    assert(renderable(km[0].1));
    assert forall|i: int| 0 <= i < km.len() implies renderable(#[trigger] km[i].1) by {}
    let d = config_document(config);
    assert(renderable(d[1].1));
    assert(renderable(d[2].1));
    assert(renderable(d[3].1));
    assert forall|i: int| 0 <= i < d.len() implies renderable(#[trigger] d[i].1) by {}
}

/// Encodes canonical UTF-8 TOML with LF endings and exactly one final newline.
pub fn encode(config: &AppConfig) -> (result: Result<Vec<u8>, ConfigCodecError>)
    ensures
        encode_spec(config@, encoded(result)),
{
    match config.validate() {
        Err(error) => return Err(ConfigCodecError::Validation(error)),
        Ok(()) => {},
    }
    let doc = write_config(config);
    proof {
        lemma_document_renderable(config@);
        lemma_literal_table_writable(config_document(config@));
    }
    let written = literal_entries(&doc);
    let text = match render_document(&written) {
        Ok(text) => text,
        Err(message) => return Err(ConfigCodecError::Encode(message)),
    };
    let chars = canonicalize(text.as_str());
    let canonical = string_from_chars(&chars);
    Ok(canonical.as_str().as_bytes_vec())
}

} // verus!
