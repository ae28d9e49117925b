//! The version 1 document schema: how a TOML table maps to an [`AppConfig`]
//! and back. Keys are camelCase, unknown keys are refused, absent groups and
//! fields take their defaults and the keymap is keyed by action id.
use vstd::prelude::*;
use crate::config::document::{
    TomlModel, TomlValue, find, float_bits_of_int, int_float_bits, keys_within, lemma_table_value_model,
    lookup, only_keys, table_model,
};
use crate::config::model::{
    AppConfig, AppLocale, BindingModel, BindingOverride, CloseAction, ConfigModel, Density, KeymapConfig,
    ThemePreference, UiConfig, WindowBounds, WindowConfig, default_ui, default_window, inserted,
    lemma_insert_position, sorted_keys,
};
use crate::config::order::lex_less;
use crate::text::str_eq;

verus! {

/// A `u32` field value.
pub open spec fn schema_u32(value: TomlModel) -> Option<u32> {
    match value {
        TomlModel::Integer(i) => if 0 <= i <= u32::MAX { Some(i as u32) } else { None },
        _ => None,
    }
}

/// An `i32` field value.
pub open spec fn schema_i32(value: TomlModel) -> Option<i32> {
    match value {
        TomlModel::Integer(i) => if i32::MIN <= i <= i32::MAX { Some(i as i32) } else { None },
        _ => None,
    }
}

/// A boolean field value.
pub open spec fn schema_bool(value: TomlModel) -> Option<bool> {
    match value {
        TomlModel::Boolean(b) => Some(b),
        _ => None,
    }
}

/// A float field value, by its bits; an integer is read as the nearest double.
pub open spec fn schema_float_bits(value: TomlModel) -> Option<u64> {
    match value {
        TomlModel::Float(bits) => Some(bits),
        TomlModel::Integer(i) => Some(float_bits_of_int(i)),
        _ => None,
    }
}

/// The name of a close action.
pub open spec fn close_action_name(action: CloseAction) -> Seq<char> {
    match action {
        CloseAction::MinimizeToTray => "minimizeToTray"@,
        CloseAction::Exit => "exit"@,
    }
}

/// The close-action names of a window table: `"exit"` reads as exiting and
/// `"minimizeToTray"` as minimizing to the tray (as does a missing field),
/// each action is written under that same name, and a value that reads as
/// an action is that action's name.
pub proof fn lemma_close_action_names(t: Seq<(Seq<char>, TomlModel)>, value: TomlModel)
    ensures
        close_action_name(CloseAction::Exit) == "exit"@,
        close_action_name(CloseAction::MinimizeToTray) == "minimizeToTray"@,
        schema_close_action(value) is Some ==> value == TomlModel::String(close_action_name(schema_close_action(value)->0)),
        window_schema(t) is Some && lookup(t, "closeAction"@) == Some(TomlModel::String("exit"@))
            ==> window_schema(t)->0.close_action == CloseAction::Exit,
        window_schema(t) is Some && lookup(t, "closeAction"@) == Some(TomlModel::String("minimizeToTray"@))
            ==> window_schema(t)->0.close_action == CloseAction::MinimizeToTray,
        window_schema(t) is Some && lookup(t, "closeAction"@) is None
            ==> window_schema(t)->0.close_action == CloseAction::MinimizeToTray,
{
    reveal_strlit("exit");
    reveal_strlit("minimizeToTray");
    assert("exit"@ != "minimizeToTray"@) by {
        assert("exit"@[0] != "minimizeToTray"@[0]);
    }
}

/// The name of a theme preference.
pub open spec fn theme_name(theme: ThemePreference) -> Seq<char> {
    match theme {
        ThemePreference::System => "system"@,
        ThemePreference::Light => "light"@,
        ThemePreference::Dark => "dark"@,
    }
}

/// The name of a density.
pub open spec fn density_name(density: Density) -> Seq<char> {
    match density {
        Density::Standard => "standard"@,
        Density::Compact => "compact"@,
    }
}

/// The name of a locale.
pub open spec fn locale_name(locale: AppLocale) -> Seq<char> {
    match locale {
        AppLocale::ZhCn => "zh-CN"@,
    }
}

/// A close-action field value.
pub open spec fn schema_close_action(value: TomlModel) -> Option<CloseAction> {
    match value {
        TomlModel::String(s) => if s == "minimizeToTray"@ {
            Some(CloseAction::MinimizeToTray)
        } else if s == "exit"@ {
            Some(CloseAction::Exit)
        } else {
            None
        },
        _ => None,
    }
}

/// A theme field value.
pub open spec fn schema_theme(value: TomlModel) -> Option<ThemePreference> {
    match value {
        TomlModel::String(s) => if s == "system"@ {
            Some(ThemePreference::System)
        } else if s == "light"@ {
            Some(ThemePreference::Light)
        } else if s == "dark"@ {
            Some(ThemePreference::Dark)
        } else {
            None
        },
        _ => None,
    }
}

/// A density field value.
pub open spec fn schema_density(value: TomlModel) -> Option<Density> {
    match value {
        TomlModel::String(s) => if s == "standard"@ {
            Some(Density::Standard)
        } else if s == "compact"@ {
            Some(Density::Compact)
        } else {
            None
        },
        _ => None,
    }
}

/// A locale field value.
pub open spec fn schema_locale(value: TomlModel) -> Option<AppLocale> {
    match value {
        TomlModel::String(s) => if s == "zh-CN"@ { Some(AppLocale::ZhCn) } else { None },
        _ => None,
    }
}

/// A field read with `read`: `default` when absent.
pub open spec fn optional<T>(found: Option<TomlModel>, read: spec_fn(TomlModel) -> Option<T>, default: T) -> Option<T> {
    match found {
        None => Some(default),
        Some(v) => read(v),
    }
}

/// A field read with `read` that must be present.
pub open spec fn required<T>(found: Option<TomlModel>, read: spec_fn(TomlModel) -> Option<T>) -> Option<T> {
    match found {
        None => None,
        Some(v) => read(v),
    }
}

/// The keys of saved window bounds.
pub open spec fn bounds_keys() -> Seq<Seq<char>> {
    seq!["x"@, "y"@, "width"@, "height"@, "scaleFactor"@]
}

/// Saved window bounds: every field present.
pub open spec fn bounds_schema(t: Seq<(Seq<char>, TomlModel)>) -> Option<WindowBounds> {
    if !keys_within(t, bounds_keys()) {
        None
    } else {
        match (
            required(lookup(t, "x"@), |v| schema_i32(v)),
            required(lookup(t, "y"@), |v| schema_i32(v)),
            required(lookup(t, "width"@), |v| schema_u32(v)),
            required(lookup(t, "height"@), |v| schema_u32(v)),
            required(lookup(t, "scaleFactor"@), |v| schema_float_bits(v)),
        ) {
            (Some(x), Some(y), Some(width), Some(height), Some(bits)) => Some(
                WindowBounds { x, y, width, height, scale_factor_bits: bits },
            ),
            _ => None,
        }
    }
}

/// The keys of the window group.
pub open spec fn window_keys() -> Seq<Seq<char>> {
    seq!["bounds"@, "maximized"@, "closeAction"@]
}

/// The saved bounds field: absent means none saved.
pub open spec fn schema_bounds_field(found: Option<TomlModel>) -> Option<Option<WindowBounds>> {
    match found {
        None => Some(None),
        Some(TomlModel::Table(b)) => match bounds_schema(b) {
            Some(bounds) => Some(Some(bounds)),
            None => None,
        },
        Some(_) => None,
    }
}

/// The window group.
pub open spec fn window_schema(t: Seq<(Seq<char>, TomlModel)>) -> Option<WindowConfig> {
    if !keys_within(t, window_keys()) {
        None
    } else {
        match (
            schema_bounds_field(lookup(t, "bounds"@)),
            optional(lookup(t, "maximized"@), |v| schema_bool(v), false),
            optional(lookup(t, "closeAction"@), |v| schema_close_action(v), CloseAction::MinimizeToTray),
        ) {
            (Some(bounds), Some(maximized), Some(close_action)) => Some(WindowConfig { bounds, maximized, close_action }),
            _ => None,
        }
    }
}

/// The keys of the ui group.
pub open spec fn ui_keys() -> Seq<Seq<char>> {
    seq!["theme"@, "density"@, "locale"@, "sidebarCollapsed"@, "onboardingVersion"@]
}

/// The ui group.
pub open spec fn ui_schema(t: Seq<(Seq<char>, TomlModel)>) -> Option<UiConfig> {
    if !keys_within(t, ui_keys()) {
        None
    } else {
        match (
            optional(lookup(t, "theme"@), |v| schema_theme(v), ThemePreference::System),
            optional(lookup(t, "density"@), |v| schema_density(v), Density::Standard),
            optional(lookup(t, "locale"@), |v| schema_locale(v), AppLocale::ZhCn),
            optional(lookup(t, "sidebarCollapsed"@), |v| schema_bool(v), false),
            optional(lookup(t, "onboardingVersion"@), |v| schema_u32(v), 0u32),
        ) {
            (Some(theme), Some(density), Some(locale), Some(sidebar_collapsed), Some(onboarding_version)) => Some(
                UiConfig { theme, density, locale, sidebar_collapsed, onboarding_version },
            ),
            _ => None,
        }
    }
}

/// One keymap override: a table tagged by `kind`. A custom binding holds
/// exactly `kind` and `accelerator`; an unbound one ignores other keys.
pub open spec fn binding_schema(value: TomlModel) -> Option<BindingModel> {
    match value {
        TomlModel::Table(e) => match lookup(e, "kind"@) {
            Some(TomlModel::String(kind)) => if kind == "custom"@ {
                if !keys_within(e, seq!["kind"@, "accelerator"@]) {
                    None
                } else {
                    match lookup(e, "accelerator"@) {
                        Some(TomlModel::String(a)) => Some(BindingModel::Custom(a)),
                        _ => None,
                    }
                }
            } else if kind == "unbound"@ {
                Some(BindingModel::Unbound)
            } else {
                None
            },
            _ => None,
        },
        _ => None,
    }
}

/// The overrides of the first `n` entries, each inserted by action id.
pub open spec fn bindings_schema(t: Seq<(Seq<char>, TomlModel)>, n: nat) -> Option<Seq<(Seq<char>, BindingModel)>>
    decreases n,
{
    if n == 0 {
        Some(Seq::empty())
    } else {
        match bindings_schema(t, (n - 1) as nat) {
            None => None,
            Some(before) => match binding_schema(t[n - 1].1) {
                None => None,
                Some(b) => Some(inserted(before, t[n - 1].0, b)),
            },
        }
    }
}

/// The keymap group.
pub open spec fn keymap_schema(t: Seq<(Seq<char>, TomlModel)>) -> Option<Seq<(Seq<char>, BindingModel)>> {
    if !keys_within(t, seq!["bindings"@]) {
        None
    } else {
        match lookup(t, "bindings"@) {
            None => Some(Seq::empty()),
            Some(TomlModel::Table(b)) => bindings_schema(b, b.len()),
            Some(_) => None,
        }
    }
}

/// The keys of a document.
pub open spec fn config_keys() -> Seq<Seq<char>> {
    seq!["schemaVersion"@, "window"@, "ui"@, "keymap"@]
}

/// A group: its default when absent, else a table read by `read`.
pub open spec fn group<T>(found: Option<TomlModel>, read: spec_fn(Seq<(Seq<char>, TomlModel)>) -> Option<T>, default: T) -> Option<T> {
    match found {
        None => Some(default),
        Some(TomlModel::Table(t)) => read(t),
        Some(_) => None,
    }
}

/// A whole document.
pub open spec fn config_schema(t: Seq<(Seq<char>, TomlModel)>) -> Option<ConfigModel> {
    if !keys_within(t, config_keys()) {
        None
    } else {
        match (
            required(lookup(t, "schemaVersion"@), |v| schema_u32(v)),
            group(lookup(t, "window"@), |w| window_schema(w), default_window()),
            group(lookup(t, "ui"@), |u| ui_schema(u), default_ui()),
            group(lookup(t, "keymap"@), |k| keymap_schema(k), Seq::<(Seq<char>, BindingModel)>::empty()),
        ) {
            (Some(schema_version), Some(window), Some(ui), Some(keymap)) => Some(
                ConfigModel { schema_version, window, ui, keymap },
            ),
            _ => None,
        }
    }
}

} // verus!

verus! {

fn read_u32(value: &TomlValue) -> (r: Option<u32>)
    ensures
        r == schema_u32(value@),
{
    match value {
        TomlValue::Integer(i) => if 0 <= *i && *i <= 0xFFFF_FFFF { Some(*i as u32) } else { None },
        _ => None,
    }
}

fn read_i32(value: &TomlValue) -> (r: Option<i32>)
    ensures
        r == schema_i32(value@),
{
    match value {
        TomlValue::Integer(i) => if -0x8000_0000 <= *i && *i <= 0x7FFF_FFFF { Some(*i as i32) } else { None },
        _ => None,
    }
}

fn read_bool(value: &TomlValue) -> (r: Option<bool>)
    ensures
        r == schema_bool(value@),
{
    match value {
        TomlValue::Boolean(b) => Some(*b),
        _ => None,
    }
}

fn read_float_bits(value: &TomlValue) -> (r: Option<u64>)
    ensures
        r == schema_float_bits(value@),
{
    match value {
        TomlValue::Float(bits) => Some(*bits),
        TomlValue::Integer(i) => Some(int_float_bits(*i)),
        _ => None,
    }
}

fn read_close_action(value: &TomlValue) -> (r: Option<CloseAction>)
    ensures
        r == schema_close_action(value@),
{
    match value {
        TomlValue::String(s) => if str_eq(s.as_str(), "minimizeToTray") {
            Some(CloseAction::MinimizeToTray)
        } else if str_eq(s.as_str(), "exit") {
            Some(CloseAction::Exit)
        } else {
            None
        },
        _ => None,
    }
}

fn read_theme(value: &TomlValue) -> (r: Option<ThemePreference>)
    ensures
        r == schema_theme(value@),
{
    match value {
        TomlValue::String(s) => if str_eq(s.as_str(), "system") {
            Some(ThemePreference::System)
        } else if str_eq(s.as_str(), "light") {
            Some(ThemePreference::Light)
        } else if str_eq(s.as_str(), "dark") {
            Some(ThemePreference::Dark)
        } else {
            None
        },
        _ => None,
    }
}

fn read_density(value: &TomlValue) -> (r: Option<Density>)
    ensures
        r == schema_density(value@),
{
    match value {
        TomlValue::String(s) => if str_eq(s.as_str(), "standard") {
            Some(Density::Standard)
        } else if str_eq(s.as_str(), "compact") {
            Some(Density::Compact)
        } else {
            None
        },
        _ => None,
    }
}

fn read_locale(value: &TomlValue) -> (r: Option<AppLocale>)
    ensures
        r == schema_locale(value@),
{
    match value {
        TomlValue::String(s) => if str_eq(s.as_str(), "zh-CN") { Some(AppLocale::ZhCn) } else { None },
        _ => None,
    }
}

fn read_bounds(entries: &Vec<(String, TomlValue)>) -> (r: Option<WindowBounds>)
    ensures
        r == bounds_schema(table_model(entries@)),
{
    let allowed = vec!["x", "y", "width", "height", "scaleFactor"];
    assert(allowed@.map_values(|a: &str| a@) =~= bounds_keys());
    if !only_keys(entries, &allowed) {
        return None;
    }
    let x = match find(entries, "x") { Some(v) => read_i32(v), None => None };
    let y = match find(entries, "y") { Some(v) => read_i32(v), None => None };
    let width = match find(entries, "width") { Some(v) => read_u32(v), None => None };
    let height = match find(entries, "height") { Some(v) => read_u32(v), None => None };
    let bits = match find(entries, "scaleFactor") { Some(v) => read_float_bits(v), None => None };
    match (x, y, width, height, bits) {
        (Some(x), Some(y), Some(width), Some(height), Some(bits)) => Some(
            WindowBounds { x, y, width, height, scale_factor_bits: bits },
        ),
        _ => None,
    }
}

fn read_window(entries: &Vec<(String, TomlValue)>) -> (r: Option<WindowConfig>)
    ensures
        r == window_schema(table_model(entries@)),
{
    let allowed = vec!["bounds", "maximized", "closeAction"];
    assert(allowed@.map_values(|a: &str| a@) =~= window_keys());
    if !only_keys(entries, &allowed) {
        return None;
    }
    let bounds: Option<Option<WindowBounds>> = match find(entries, "bounds") {
        None => Some(None),
        Some(TomlValue::Table(b)) => {
            proof { lemma_table_value_model(*b); }
            match read_bounds(b) {
                Some(bounds) => Some(Some(bounds)),
                None => None,
            }
        },
        Some(_) => None,
    };
    let maximized = match find(entries, "maximized") { None => Some(false), Some(v) => read_bool(v) };
    let close_action = match find(entries, "closeAction") {
        None => Some(CloseAction::MinimizeToTray),
        Some(v) => read_close_action(v),
    };
    match (bounds, maximized, close_action) {
        (Some(bounds), Some(maximized), Some(close_action)) => Some(WindowConfig { bounds, maximized, close_action }),
        _ => None,
    }
}

fn read_ui(entries: &Vec<(String, TomlValue)>) -> (r: Option<UiConfig>)
    ensures
        r == ui_schema(table_model(entries@)),
{
    let allowed = vec!["theme", "density", "locale", "sidebarCollapsed", "onboardingVersion"];
    assert(allowed@.map_values(|a: &str| a@) =~= ui_keys());
    if !only_keys(entries, &allowed) {
        return None;
    }
    let theme = match find(entries, "theme") { None => Some(ThemePreference::System), Some(v) => read_theme(v) };
    let density = match find(entries, "density") { None => Some(Density::Standard), Some(v) => read_density(v) };
    let locale = match find(entries, "locale") { None => Some(AppLocale::ZhCn), Some(v) => read_locale(v) };
    let sidebar_collapsed = match find(entries, "sidebarCollapsed") { None => Some(false), Some(v) => read_bool(v) };
    let onboarding_version = match find(entries, "onboardingVersion") { None => Some(0u32), Some(v) => read_u32(v) };
    match (theme, density, locale, sidebar_collapsed, onboarding_version) {
        (Some(theme), Some(density), Some(locale), Some(sidebar_collapsed), Some(onboarding_version)) => Some(
            UiConfig { theme, density, locale, sidebar_collapsed, onboarding_version },
        ),
        _ => None,
    }
}

} // verus!

verus! {

fn read_binding(value: &TomlValue) -> (r: Option<BindingOverride>)
    ensures
        match r {
            Some(b) => binding_schema(value@) == Some(b@),
            None => binding_schema(value@) is None,
        },
{
    match value {
        TomlValue::Table(e) => {
            proof { lemma_table_value_model(*e); }
            match find(e, "kind") {
                Some(TomlValue::String(kind)) => {
                    if str_eq(kind.as_str(), "custom") {
                        let allowed = vec!["kind", "accelerator"];
                        assert(allowed@.map_values(|a: &str| a@) =~= seq!["kind"@, "accelerator"@]);
                        if !only_keys(e, &allowed) {
                            return None;
                        }
                        match find(e, "accelerator") {
                            Some(TomlValue::String(a)) => Some(BindingOverride::Custom { accelerator: a.clone() }),
                            _ => None,
                        }
                    } else if str_eq(kind.as_str(), "unbound") {
                        Some(BindingOverride::Unbound)
                    } else {
                        None
                    }
                },
                _ => None,
            }
        },
        _ => None,
    }
}

fn read_bindings(entries: &Vec<(String, TomlValue)>) -> (r: Option<KeymapConfig>)
    ensures
        match r {
            Some(k) => bindings_schema(table_model(entries@), entries@.len()) == Some(k@),
            None => bindings_schema(table_model(entries@), entries@.len()) is None,
        },
{
    let ghost t = table_model(entries@);
    let n = entries.len();
    let mut keymap = KeymapConfig::new();
    let mut i: usize = 0;
    while i < n
        invariant
            n == entries@.len(),
            t == table_model(entries@),
            i <= n,
            bindings_schema(t, i as nat) == Some(keymap@),
        decreases n - i,
    {
        match read_binding(&entries[i].1) {
            None => {
                proof { lemma_bindings_fail(t, (i + 1) as nat, n as nat); }
                return None;
            },
            Some(binding) => {
                keymap.insert(entries[i].0.clone(), binding);
            },
        }
        i += 1;
    }
    Some(keymap)
}

proof fn lemma_bindings_fail(t: Seq<(Seq<char>, TomlModel)>, i: nat, n: nat)
    requires
        i <= n,
        bindings_schema(t, i) is None,
    ensures
        bindings_schema(t, n) is None,
    decreases n - i,
{
    if i < n {
        lemma_bindings_fail(t, i + 1, n);
    }
}

fn read_keymap(entries: &Vec<(String, TomlValue)>) -> (r: Option<KeymapConfig>)
    ensures
        match r {
            Some(k) => keymap_schema(table_model(entries@)) == Some(k@),
            None => keymap_schema(table_model(entries@)) is None,
        },
{
    let allowed = vec!["bindings"];
    assert(allowed@.map_values(|a: &str| a@) =~= seq!["bindings"@]);
    if !only_keys(entries, &allowed) {
        return None;
    }
    match find(entries, "bindings") {
        None => Some(KeymapConfig::new()),
        Some(TomlValue::Table(b)) => {
            proof { lemma_table_value_model(*b); }
            read_bindings(b)
        },
        Some(_) => None,
    }
}

/// Reads a whole document into a configuration, or `None` where it does
/// not fit the schema.
pub fn read_config(entries: &Vec<(String, TomlValue)>) -> (r: Option<AppConfig>)
    ensures
        match r {
            Some(c) => config_schema(table_model(entries@)) == Some(c@),
            None => config_schema(table_model(entries@)) is None,
        },
{
    let allowed = vec!["schemaVersion", "window", "ui", "keymap"];
    assert(allowed@.map_values(|a: &str| a@) =~= config_keys());
    if !only_keys(entries, &allowed) {
        return None;
    }
    let schema_version = match find(entries, "schemaVersion") { Some(v) => read_u32(v), None => None };
    let window = match find(entries, "window") {
        None => Some(WindowConfig::default()),
        Some(TomlValue::Table(w)) => {
            proof { lemma_table_value_model(*w); }
            read_window(w)
        },
        Some(_) => None,
    };
    let ui = match find(entries, "ui") {
        None => Some(UiConfig::default()),
        Some(TomlValue::Table(u)) => {
            proof { lemma_table_value_model(*u); }
            read_ui(u)
        },
        Some(_) => None,
    };
    let keymap = match find(entries, "keymap") {
        None => Some(KeymapConfig::new()),
        Some(TomlValue::Table(k)) => {
            proof { lemma_table_value_model(*k); }
            read_keymap(k)
        },
        Some(_) => None,
    };
    match (schema_version, window, ui, keymap) {
        (Some(schema_version), Some(window), Some(ui), Some(keymap)) => Some(
            AppConfig { schema_version, window, ui, keymap },
        ),
        _ => None,
    }
}

} // verus!

verus! {

/// The document of saved window bounds.
pub open spec fn bounds_document(b: WindowBounds) -> Seq<(Seq<char>, TomlModel)> {
    seq![
        ("x"@, TomlModel::Integer(b.x as i64)),
        ("y"@, TomlModel::Integer(b.y as i64)),
        ("width"@, TomlModel::Integer(b.width as i64)),
        ("height"@, TomlModel::Integer(b.height as i64)),
        ("scaleFactor"@, TomlModel::Float(b.scale_factor_bits)),
    ]
}

/// The document of the window group; bounds are left out when none are saved.
pub open spec fn window_document(w: WindowConfig) -> Seq<(Seq<char>, TomlModel)> {
    let rest = seq![
        ("maximized"@, TomlModel::Boolean(w.maximized)),
        ("closeAction"@, TomlModel::String(close_action_name(w.close_action))),
    ];
    match w.bounds {
        Some(b) => seq![("bounds"@, TomlModel::Table(bounds_document(b)))] + rest,
        None => rest,
    }
}

/// The document of the ui group.
pub open spec fn ui_document(u: UiConfig) -> Seq<(Seq<char>, TomlModel)> {
    seq![
        ("theme"@, TomlModel::String(theme_name(u.theme))),
        ("density"@, TomlModel::String(density_name(u.density))),
        ("locale"@, TomlModel::String(locale_name(u.locale))),
        ("sidebarCollapsed"@, TomlModel::Boolean(u.sidebar_collapsed)),
        ("onboardingVersion"@, TomlModel::Integer(u.onboarding_version as i64)),
    ]
}

/// The document of one override: its `kind` tag first.
pub open spec fn binding_document(b: BindingModel) -> Seq<(Seq<char>, TomlModel)> {
    match b {
        BindingModel::Custom(a) => seq![("kind"@, TomlModel::String("custom"@)), ("accelerator"@, TomlModel::String(a))],
        BindingModel::Unbound => seq![("kind"@, TomlModel::String("unbound"@))],
    }
}

/// The document of the overrides, in key order.
pub open spec fn bindings_document(k: Seq<(Seq<char>, BindingModel)>) -> Seq<(Seq<char>, TomlModel)> {
    Seq::new(k.len(), |i: int| (k[i].0, TomlModel::Table(binding_document(k[i].1))))
}

/// The document of a configuration, groups in declaration order.
pub open spec fn config_document(c: ConfigModel) -> Seq<(Seq<char>, TomlModel)> {
    seq![
        ("schemaVersion"@, TomlModel::Integer(c.schema_version as i64)),
        ("window"@, TomlModel::Table(window_document(c.window))),
        ("ui"@, TomlModel::Table(ui_document(c.ui))),
        ("keymap"@, TomlModel::Table(seq![("bindings"@, TomlModel::Table(bindings_document(c.keymap)))])),
    ]
}

fn table(entries: Vec<(String, TomlValue)>) -> (value: TomlValue)
    ensures
        value@ == TomlModel::Table(table_model(entries@)),
{
    proof { lemma_table_value_model(entries); }
    TomlValue::Table(entries)
}

fn entry(key: &str, value: TomlValue) -> (e: (String, TomlValue))
    ensures
        e.0@ == key@,
        e.1@ == value@,
{
    (String::from_str(key), value)
}

fn text_value(s: &str) -> (value: TomlValue)
    ensures
        value@ == TomlModel::String(s@),
{
    TomlValue::String(String::from_str(s))
}

fn write_bounds(b: WindowBounds) -> (doc: Vec<(String, TomlValue)>)
    ensures
        table_model(doc@) == bounds_document(b),
{
    let doc = vec![
        entry("x", TomlValue::Integer(b.x as i64)),
        entry("y", TomlValue::Integer(b.y as i64)),
        entry("width", TomlValue::Integer(b.width as i64)),
        entry("height", TomlValue::Integer(b.height as i64)),
        entry("scaleFactor", TomlValue::Float(b.scale_factor_bits)),
    ];
    assert(table_model(doc@) =~= bounds_document(b));
    doc
}

fn close_action_text(action: CloseAction) -> (s: &'static str)
    ensures
        s@ == close_action_name(action),
{
    match action {
        CloseAction::MinimizeToTray => "minimizeToTray",
        CloseAction::Exit => "exit",
    }
}

fn write_window(w: WindowConfig) -> (doc: Vec<(String, TomlValue)>)
    ensures
        table_model(doc@) == window_document(w),
{
    let mut doc: Vec<(String, TomlValue)> = Vec::new();
    match w.bounds {
        Some(b) => doc.push(entry("bounds", table(write_bounds(b)))),
        None => {},
    }
    doc.push(entry("maximized", TomlValue::Boolean(w.maximized)));
    doc.push(entry("closeAction", text_value(close_action_text(w.close_action))));
    assert(table_model(doc@) =~= window_document(w));
    doc
}

fn theme_text(theme: ThemePreference) -> (s: &'static str)
    ensures
        s@ == theme_name(theme),
{
    match theme {
        ThemePreference::System => "system",
        ThemePreference::Light => "light",
        ThemePreference::Dark => "dark",
    }
}

fn density_text(density: Density) -> (s: &'static str)
    ensures
        s@ == density_name(density),
{
    match density {
        Density::Standard => "standard",
        Density::Compact => "compact",
    }
}

fn locale_text(locale: AppLocale) -> (s: &'static str)
    ensures
        s@ == locale_name(locale),
{
    match locale {
        AppLocale::ZhCn => "zh-CN",
    }
}

fn write_ui(u: UiConfig) -> (doc: Vec<(String, TomlValue)>)
    ensures
        table_model(doc@) == ui_document(u),
{
    let doc = vec![
        entry("theme", text_value(theme_text(u.theme))),
        entry("density", text_value(density_text(u.density))),
        entry("locale", text_value(locale_text(u.locale))),
        entry("sidebarCollapsed", TomlValue::Boolean(u.sidebar_collapsed)),
        entry("onboardingVersion", TomlValue::Integer(u.onboarding_version as i64)),
    ];
    assert(table_model(doc@) =~= ui_document(u));
    doc
}

fn write_binding(b: &BindingOverride) -> (doc: Vec<(String, TomlValue)>)
    ensures
        table_model(doc@) == binding_document(b@),
{
    let doc = match b {
        BindingOverride::Custom { accelerator } => vec![
            entry("kind", text_value("custom")),
            entry("accelerator", text_value(accelerator.as_str())),
        ],
        BindingOverride::Unbound => vec![entry("kind", text_value("unbound"))],
    };
    assert(table_model(doc@) =~= binding_document(b@));
    doc
}

fn write_bindings(keymap: &KeymapConfig) -> (doc: Vec<(String, TomlValue)>)
    ensures
        table_model(doc@) == bindings_document(keymap@),
{
    let n = keymap.len();
    let mut doc: Vec<(String, TomlValue)> = Vec::new();
    let mut i: usize = 0;
    while i < n
        invariant
            n == keymap@.len(),
            i <= n,
            table_model(doc@) == bindings_document(keymap@).take(i as int),
        decreases n - i,
    {
        let binding = keymap.entry(i);
        let value = table(write_binding(&binding.binding));
        let key = binding.action_id.clone();
        assert(key@ == keymap@[i as int].0 && binding.binding@ == keymap@[i as int].1);
        let ghost before = doc@;
        assert(bindings_document(keymap@).len() == n);
        assert(table_model(before).len() == before.len());
        doc.push((key, value));
        assert(doc@ == before.push((key, value)));
        assert(before.len() == i);
        assert(value@ == TomlModel::Table(binding_document(keymap@[i as int].1)));
        assert(doc@[i as int].0@ == keymap@[i as int].0);
        assert(doc@[i as int].1@ == value@);
        assert(table_model(doc@)[i as int] == (doc@[i as int].0@, doc@[i as int].1@));
        assert(table_model(doc@)[i as int] == bindings_document(keymap@)[i as int]);
        assert(table_model(doc@) =~= bindings_document(keymap@).take(i + 1));
        i += 1;
    }
    assert(bindings_document(keymap@).take(n as int) =~= bindings_document(keymap@));
    doc
}

/// Writes the document of a configuration.
pub fn write_config(config: &AppConfig) -> (doc: Vec<(String, TomlValue)>)
    ensures
        table_model(doc@) == config_document(config@),
{
    let bindings = vec![entry("bindings", table(write_bindings(&config.keymap)))];
    let doc = vec![
        entry("schemaVersion", TomlValue::Integer(config.schema_version as i64)),
        entry("window", table(write_window(config.window))),
        entry("ui", table(write_ui(config.ui))),
        entry("keymap", table(bindings)),
    ];
    assert(table_model(bindings@) =~= seq![("bindings"@, TomlModel::Table(bindings_document(config.keymap@)))]);
    assert(table_model(doc@) =~= config_document(config@));
    doc
}

} // verus!

verus! {

/// No entry before position `i` is stored under `key`.
spec fn fresh_before(t: Seq<(Seq<char>, TomlModel)>, i: int, key: Seq<char>) -> bool
    decreases i,
{
    if i <= 0 {
        true
    } else {
        t[i - 1].0 != key && fresh_before(t, i - 1, key)
    }
}

proof fn lemma_lookup_at(t: Seq<(Seq<char>, TomlModel)>, i: int)
    requires
        0 <= i < t.len(),
        fresh_before(t, i, t[i].0),
    ensures
        lookup(t, t[i].0) == Some(t[i].1),
    decreases i,
{
    if i > 0 {
        assert forall|j: int| 0 <= j < i implies t[j].0 != t[i].0 by {
            lemma_fresh_before(t, i, t[i].0, j);
        }
        let d = t.drop_first();
        assert forall|j: int| 0 <= j <= i - 1 implies #[trigger] fresh_before(d, j, t[i].0) by {
            lemma_fresh_from(d, j, t[i].0);
        }
        lemma_lookup_at(d, i - 1);
    }
}

proof fn lemma_fresh_before(t: Seq<(Seq<char>, TomlModel)>, i: int, key: Seq<char>, j: int)
    requires
        fresh_before(t, i, key),
        0 <= j < i,
    ensures
        t[j].0 != key,
    decreases i,
{
    if j < i - 1 {
        lemma_fresh_before(t, i - 1, key, j);
    }
}

proof fn lemma_fresh_from(t: Seq<(Seq<char>, TomlModel)>, i: int, key: Seq<char>)
    requires
        forall|j: int| 0 <= j < i ==> t[j].0 != key,
    ensures
        fresh_before(t, i, key),
    decreases i,
{
    if i > 0 {
        lemma_fresh_from(t, i - 1, key);
    }
}

proof fn lemma_lookup_absent(t: Seq<(Seq<char>, TomlModel)>, key: Seq<char>)
    requires
        forall|j: int| 0 <= j < t.len() ==> t[j].0 != key,
    ensures
        lookup(t, key) is None,
    decreases t.len(),
{
    if t.len() > 0 {
        lemma_lookup_absent(t.drop_first(), key);
    }
}


proof fn lemma_bounds_round_trip(b: WindowBounds)
    ensures
        bounds_schema(bounds_document(b)) == Some(b),
{
    reveal_with_fuel(fresh_before, 6);
    reveal_strlit("x");
    assert("x"@.len() == 1);
    reveal_strlit("y");
    assert("y"@.len() == 1);
    reveal_strlit("width");
    assert("width"@.len() == 5);
    reveal_strlit("height");
    assert("height"@.len() == 6);
    reveal_strlit("scaleFactor");
    assert("scaleFactor"@.len() == 11);
    assert("x"@[0] != "y"@[0]);
    let t = bounds_document(b);
    assert(keys_within(t, bounds_keys()));
    lemma_lookup_at(t, 0);
    lemma_lookup_at(t, 1);
    lemma_lookup_at(t, 2);
    lemma_lookup_at(t, 3);
    lemma_lookup_at(t, 4);
}

proof fn lemma_window_round_trip(w: WindowConfig)
    ensures
        window_schema(window_document(w)) == Some(w),
{
    reveal_with_fuel(fresh_before, 4);
    reveal_strlit("bounds");
    assert("bounds"@.len() == 6);
    reveal_strlit("maximized");
    assert("maximized"@.len() == 9);
    reveal_strlit("closeAction");
    assert("closeAction"@.len() == 11);
    reveal_strlit("minimizeToTray");
    assert("minimizeToTray"@.len() == 14);
    reveal_strlit("exit");
    assert("exit"@.len() == 4);
    let t = window_document(w);
    assert(keys_within(t, window_keys()));
    match w.bounds {
        Some(b) => {
            lemma_bounds_round_trip(b);
            lemma_lookup_at(t, 0);
            lemma_lookup_at(t, 1);
            lemma_lookup_at(t, 2);
        },
        None => {
            assert forall|j: int| 0 <= j < t.len() implies t[j].0 != "bounds"@ by {
                if j == 0 {} else {}
            }
            lemma_lookup_absent(t, "bounds"@);
            lemma_lookup_at(t, 0);
            lemma_lookup_at(t, 1);
        },
    }
}

proof fn lemma_ui_round_trip(u: UiConfig)
    ensures
        ui_schema(ui_document(u)) == Some(u),
{
    reveal_with_fuel(fresh_before, 6);
    reveal_strlit("theme");
    assert("theme"@.len() == 5);
    reveal_strlit("density");
    assert("density"@.len() == 7);
    reveal_strlit("locale");
    assert("locale"@.len() == 6);
    reveal_strlit("sidebarCollapsed");
    assert("sidebarCollapsed"@.len() == 16);
    reveal_strlit("onboardingVersion");
    assert("onboardingVersion"@.len() == 17);
    reveal_strlit("system");
    assert("system"@.len() == 6);
    reveal_strlit("light");
    assert("light"@.len() == 5);
    reveal_strlit("dark");
    assert("dark"@.len() == 4);
    reveal_strlit("standard");
    assert("standard"@.len() == 8);
    reveal_strlit("compact");
    assert("compact"@.len() == 7);
    reveal_strlit("zh-CN");
    assert("zh-CN"@.len() == 5);
    let t = ui_document(u);
    assert(keys_within(t, ui_keys()));
    lemma_lookup_at(t, 0);
    lemma_lookup_at(t, 1);
    lemma_lookup_at(t, 2);
    lemma_lookup_at(t, 3);
    lemma_lookup_at(t, 4);
}

proof fn lemma_binding_round_trip(b: BindingModel)
    ensures
        binding_schema(TomlModel::Table(binding_document(b))) == Some(b),
{
    reveal_strlit("kind");
    assert("kind"@.len() == 4);
    reveal_strlit("accelerator");
    assert("accelerator"@.len() == 11);
    reveal_strlit("custom");
    assert("custom"@.len() == 6);
    reveal_strlit("unbound");
    assert("unbound"@.len() == 7);
    reveal_with_fuel(fresh_before, 3);
    let t = binding_document(b);
    lemma_lookup_at(t, 0);
    match b {
        BindingModel::Custom(_) => {
            assert(keys_within(t, seq!["kind"@, "accelerator"@]));
            lemma_lookup_at(t, 1);
        },
        BindingModel::Unbound => {},
    }
}

proof fn lemma_bindings_round_trip(k: Seq<(Seq<char>, BindingModel)>, n: nat)
    requires
        sorted_keys(k),
        n <= k.len(),
    ensures
        bindings_schema(bindings_document(k), n) == Some(k.take(n as int)),
    decreases n,
{
    if n == 0 {
        assert(k.take(0) =~= Seq::<(Seq<char>, BindingModel)>::empty());
    } else {
        let m = (n - 1) as nat;
        lemma_bindings_round_trip(k, m);
        lemma_binding_round_trip(k[m as int].1);
        let before = k.take(m as int);
        assert(sorted_keys(before));
        assert forall|j: int| 0 <= j < m implies lex_less(#[trigger] before[j].0, k[m as int].0) by {
            assert(before[j] == k[j]);
        }
        lemma_insert_position(before, k[m as int].0, k[m as int].1, m as int);
        assert(before.insert(m as int, (k[m as int].0, k[m as int].1)) =~= k.take(n as int));
    }
}

proof fn lemma_keymap_round_trip(k: Seq<(Seq<char>, BindingModel)>)
    requires
        sorted_keys(k),
    ensures
        keymap_schema(seq![("bindings"@, TomlModel::Table(bindings_document(k)))]) == Some(k),
{
    reveal_strlit("bindings");
    assert("bindings"@.len() == 8);
    let t = seq![("bindings"@, TomlModel::Table(bindings_document(k)))];
    assert(t[0].0 == seq!["bindings"@][0]);
    assert(keys_within(t, seq!["bindings"@]));
    lemma_lookup_at(t, 0);
    lemma_bindings_round_trip(k, k.len());
    assert(k.take(k.len() as int) =~= k);
}

/// Reading the document written for a configuration gives the configuration
/// back: the schema mapping loses nothing and invents nothing.
pub proof fn lemma_schema_round_trip(c: ConfigModel)
    requires
        sorted_keys(c.keymap),
    ensures
        config_schema(config_document(c)) == Some(c),
{
    reveal_strlit("schemaVersion");
    assert("schemaVersion"@.len() == 13);
    reveal_strlit("window");
    assert("window"@.len() == 6);
    reveal_strlit("ui");
    assert("ui"@.len() == 2);
    reveal_strlit("keymap");
    assert("keymap"@.len() == 6);
    assert("window"@[0] != "keymap"@[0]);
    reveal_with_fuel(fresh_before, 5);
    let t = config_document(c);
    assert(keys_within(t, config_keys()));
    lemma_lookup_at(t, 0);
    lemma_lookup_at(t, 1);
    lemma_lookup_at(t, 2);
    lemma_lookup_at(t, 3);
    lemma_window_round_trip(c.window);
    lemma_ui_round_trip(c.ui);
    lemma_keymap_round_trip(c.keymap);
}

} // verus!
