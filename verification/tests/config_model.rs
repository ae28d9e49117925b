use wubilex::config::text_form::canonicalize;
use wubilex::config::codec::{decode, encode, ConfigCodecError, MAX_CONFIG_BYTES};
use wubilex::config::document::{float_literal, literal_entries, TomlValue};
use wubilex::config::migration::{migrate_to_current, MigrationError};
use wubilex::config::model::{AppConfig, BindingOverride, KeymapConfig, WindowBounds, MAX_KEYMAP_OVERRIDES};

fn bits(value: f64) -> u64 {
    value.to_bits()
}

#[test]
fn defaults_are_valid_and_unbound_is_distinct_from_absence() {
    let mut config = AppConfig::default();
    config.keymap.insert("shell.search".to_owned(), BindingOverride::Unbound);
    assert!(config.validate().is_ok());
    assert_ne!(config.keymap, KeymapConfig::default());
}

#[test]
fn validation_rejects_non_finite_bounds_and_unbounded_keymap_values() {
    let mut config = AppConfig::default();
    config.window.bounds =
        Some(WindowBounds { x: 0, y: 0, width: 800, height: 600, scale_factor_bits: bits(f64::NAN) });
    assert_eq!(config.validate().expect_err("NaN must fail").field, "window.bounds.scaleFactor");

    let mut config = AppConfig::default();
    config
        .keymap
        .insert("INVALID".to_owned(), BindingOverride::Custom { accelerator: "Ctrl+K".to_owned() });
    assert_eq!(config.validate().expect_err("invalid id must fail").field, "keymap.bindings.actionId");
}

#[test]
fn every_bounded_field_accepts_edges_and_rejects_values_beyond_them() {
    let mut config = AppConfig::default();
    config.window.bounds =
        Some(WindowBounds { x: -1_000_000, y: 1_000_000, width: 1, height: 32_768, scale_factor_bits: bits(0.5) });
    config.keymap.insert("a".repeat(96), BindingOverride::Custom { accelerator: "x".repeat(128) });
    assert!(config.validate().is_ok());

    for bounds in [
        WindowBounds { x: -1_000_001, y: 0, width: 1, height: 1, scale_factor_bits: bits(1.0) },
        WindowBounds { x: 0, y: 1_000_001, width: 1, height: 1, scale_factor_bits: bits(1.0) },
        WindowBounds { x: 0, y: 0, width: 32_769, height: 1, scale_factor_bits: bits(1.0) },
        WindowBounds { x: 0, y: 0, width: 1, height: 1, scale_factor_bits: bits(8.01) },
    ] {
        let mut invalid = AppConfig::default();
        invalid.window.bounds = Some(bounds);
        assert!(invalid.validate().is_err());
    }

    for (action_id, accelerator) in [
        (String::new(), "Ctrl+A".to_owned()),
        ("a".repeat(97), "Ctrl+A".to_owned()),
        ("Uppercase".to_owned(), "Ctrl+A".to_owned()),
        ("valid.action".to_owned(), String::new()),
        ("valid.action".to_owned(), "x".repeat(129)),
        ("valid.action".to_owned(), "Ctrl+\nA".to_owned()),
    ] {
        let mut invalid = AppConfig::default();
        invalid.keymap.insert(action_id, BindingOverride::Custom { accelerator });
        assert!(invalid.validate().is_err());
    }

    let mut too_many = AppConfig::default();
    for index in 0..=MAX_KEYMAP_OVERRIDES {
        too_many.keymap.insert(format!("action.{index}"), BindingOverride::Unbound);
    }
    assert_eq!(too_many.validate().expect_err("too many overrides must fail").field, "keymap.bindings");
}

#[test]
fn keymap_keeps_one_entry_per_action_in_key_order() {
    let mut keymap = KeymapConfig::new();
    keymap.insert("z.action".to_owned(), BindingOverride::Unbound);
    keymap.insert("a.action".to_owned(), BindingOverride::Unbound);
    keymap.insert("z.action".to_owned(), BindingOverride::Custom { accelerator: "Ctrl+Z".to_owned() });
    assert_eq!(keymap.len(), 2);
    assert_eq!(keymap.entry(0).action_id, "a.action");
    assert_eq!(keymap.entry(1).binding, BindingOverride::Custom { accelerator: "Ctrl+Z".to_owned() });
}

#[test]
fn canonical_roundtrip_is_deterministic_and_lf_stable() {
    let mut config = AppConfig::default();
    config.keymap.insert("z.action".to_owned(), BindingOverride::Unbound);
    config.keymap.insert("a.action".to_owned(), BindingOverride::Custom { accelerator: "Ctrl+A".to_owned() });
    let first = encode(&config).expect("encode config");
    let second = encode(&decode(&first).expect("decode config")).expect("re-encode config");
    assert_eq!(first, second);
    assert!(!first.contains(&b'\r'));
    assert_eq!(first.last(), Some(&b'\n'));
    assert!(!first.ends_with(b"\n\n"));
    let text = std::str::from_utf8(&first).expect("UTF-8 output");
    assert!(text.find("a.action").expect("a key") < text.find("z.action").expect("z key"));
}

#[test]
fn missing_groups_default_but_unknown_fields_and_versions_fail() {
    let minimal = decode(b"schemaVersion = 1\n").expect("defaultable fields");
    assert_eq!(minimal, AppConfig::default());

    assert!(matches!(decode(b"schemaVersion = 1\nunknown = true\n"), Err(ConfigCodecError::Parse(_))));
    assert!(matches!(decode(b"schemaVersion = 2\n"), Err(ConfigCodecError::Migration(_))));
    assert!(matches!(decode(&vec![b'x'; MAX_CONFIG_BYTES + 1]), Err(ConfigCodecError::SizeLimit)));
}

#[test]
fn invalid_enum_and_numeric_ranges_fail_without_partial_defaults() {
    assert!(decode(b"schemaVersion = 1\n[ui]\ntheme = 'blue'\n").is_err());
    assert!(decode(
        b"schemaVersion = 1\n[window]\n[window.bounds]\nx=0\ny=0\nwidth=0\nheight=600\nscaleFactor=1.0\n"
    )
    .is_err());
}

#[test]
fn decode_reads_every_group_and_integer_scale_factors() {
    let config = decode(
        b"schemaVersion = 1\n[window]\nmaximized = true\ncloseAction = 'exit'\n[window.bounds]\nx=-5\ny=7\nwidth=1024\nheight=640\nscaleFactor=2\n[ui]\ntheme='dark'\ndensity='compact'\nlocale='zh-CN'\nsidebarCollapsed=true\nonboardingVersion=3\n[keymap.bindings]\n'b.x' = { kind = 'unbound', note = 1 }\n'a.x' = { kind = 'custom', accelerator = 'Ctrl+A' }\n",
    )
    .expect("complete document");
    let bounds = config.window.bounds.expect("bounds");
    assert_eq!((bounds.x, bounds.y, bounds.width, bounds.height), (-5, 7, 1024, 640));
    assert_eq!(bounds.scale_factor_bits, 2.0f64.to_bits());
    assert!(config.window.maximized);
    assert_eq!(config.ui.onboarding_version, 3);
    assert_eq!(config.keymap.len(), 2);
    assert_eq!(config.keymap.entry(0).action_id, "a.x");
    assert!(matches!(decode(b"schemaVersion = 1\n[keymap.bindings]\n'a.x' = { kind = 'custom', accelerator = 'A', extra = 1 }\n"), Err(ConfigCodecError::Parse(_))));
    assert!(matches!(decode(b"schemaVersion = 1\nwindow = 3\n"), Err(ConfigCodecError::Parse(_))));
    assert!(matches!(decode(&[0xff, 0xfe]), Err(ConfigCodecError::Utf8)));
    assert!(matches!(decode(b"not = [toml"), Err(ConfigCodecError::Parse(_))));
    assert!(matches!(decode(b"schemaVersion = 1\n[window.bounds]\nx=0\ny=0\nwidth=10\nheight=10\nscaleFactor=9.0\n"), Err(ConfigCodecError::Validation(_))));
}

#[test]
fn encoded_text_is_canonical_toml() {
    let mut config = AppConfig::default();
    config.window.bounds =
        Some(WindowBounds { x: 10, y: 20, width: 1024, height: 640, scale_factor_bits: bits(1.25) });
    let bytes = encode(&config).expect("encode");
    let text = String::from_utf8(bytes.clone()).expect("UTF-8");
    assert!(text.starts_with("schemaVersion = 1\n"));
    assert!(text.contains("scaleFactor = 1.25"));
    assert!(text.lines().all(|line| line == line.trim_end()));
    assert_eq!(decode(&bytes).expect("decode"), config);

    let mut invalid = AppConfig::default();
    invalid.schema_version = 2;
    assert!(matches!(encode(&invalid), Err(ConfigCodecError::Validation(_))));
}

#[test]
fn float_literals_are_exact_decimal_expansions() {
    assert_eq!(float_literal(bits(0.5)).as_deref(), Some("0.5"));
    assert_eq!(float_literal(bits(1.0)).as_deref(), Some("1.0"));
    assert_eq!(float_literal(bits(1.25)).as_deref(), Some("1.25"));
    assert_eq!(float_literal(bits(8.0)).as_deref(), Some("8.0"));
    assert_eq!(float_literal(0).as_deref(), Some("0.0"));
    let text = float_literal(bits(1.1)).expect("renderable");
    assert_eq!(text.parse::<f64>().expect("number").to_bits(), bits(1.1));
    assert_eq!(float_literal(bits(-1.0)), None);
    assert_eq!(float_literal(bits(f64::NAN)), None);
    assert_eq!(float_literal(bits(1e300)), None);
}

fn table(entries: Vec<(&str, TomlValue)>) -> TomlValue {
    TomlValue::Table(entries.into_iter().map(|(k, v)| (k.to_owned(), v)).collect())
}

#[test]
fn v1_has_no_fictional_predecessor_or_transition() {
    let current = table(vec![("schemaVersion", TomlValue::Integer(1))]);
    assert!(migrate_to_current(current).is_ok());

    for (source, expected) in [
        (table(vec![("window", table(vec![]))]), MigrationError::Missing),
        (table(vec![("schemaVersion", TomlValue::Integer(0))]), MigrationError::Invalid),
        (table(vec![("schemaVersion", TomlValue::Integer(2))]), MigrationError::Future(2)),
    ] {
        assert_eq!(migrate_to_current(source).err(), Some(expected));
    }
    assert_eq!(migrate_to_current(table(vec![("schemaVersion", TomlValue::Integer(-1))])).err(), Some(MigrationError::Invalid));
    assert_eq!(migrate_to_current(TomlValue::Integer(1)).err(), Some(MigrationError::Missing));
    assert_eq!(MigrationError::Future(2).message(), "schema version 2 is newer than this application");
}

#[test]
fn canonical_text_is_lf_only_single_newline_and_a_fixed_point() {
    for text in ["a \r\n\r\nb\t\r\r\n\n\n", "", "\n\n", "  \r\n", "x", "schemaVersion = 1\r\n[ui]\r\n"] {
        let once: String = canonicalize(text).into_iter().collect();
        assert!(!once.contains('\r'), "{text:?}");
        assert!(once.ends_with('\n') && !once.ends_with("\n\n"), "{text:?}");
        let twice: String = canonicalize(&once).into_iter().collect();
        assert_eq!(twice, once, "{text:?}");
    }
    let canonical: String = canonicalize("a \r\n\r\nb\t\r\r\n\n\n").into_iter().collect();
    assert_eq!(canonical, "a\n\nb\n");
    let empty: String = canonicalize("  \r\n").into_iter().collect();
    assert_eq!(empty, "\n");
}

#[test]
fn floats_are_handed_to_the_writer_as_exact_literals() {
    let entries = vec![
        ("scale".to_owned(), TomlValue::Float(bits(1.5))),
        (
            "nested".to_owned(),
            TomlValue::Table(vec![("items".to_owned(), TomlValue::Array(vec![TomlValue::Float(bits(0.75)), TomlValue::Integer(3)]))]),
        ),
        ("name".to_owned(), TomlValue::String("x".to_owned())),
    ];
    let written = literal_entries(&entries);
    assert_eq!(written.len(), 3);
    assert!(matches!(&written[0], (key, TomlValue::FloatLiteral(text)) if key == "scale" && text == "1.5"));
    match &written[1].1 {
        TomlValue::Table(inner) => match &inner[0].1 {
            TomlValue::Array(items) => {
                assert!(matches!(&items[0], TomlValue::FloatLiteral(text) if text == "0.75"));
                assert!(matches!(&items[1], TomlValue::Integer(3)));
            }
            other => panic!("unexpected {other:?}"),
        },
        other => panic!("unexpected {other:?}"),
    }
    assert!(matches!(&written[2].1, TomlValue::String(text) if text == "x"));
}
