//! Schema v1 configuration types, defaults and bounded validation.
use vstd::prelude::*;
use crate::config::order::{Comparison, compare_str, lex_less, lemma_lex_transitive, lemma_lex_trichotomy};
use crate::launch::{char_is_control, is_control};

verus! {

/// The schema version this application reads and writes.
pub const CURRENT_SCHEMA_VERSION: u32 = 1;
/// Most keymap overrides a document may hold.
pub const MAX_KEYMAP_OVERRIDES: usize = 512;

/// Bit pattern of the `f64` value 0.5.
pub const MIN_SCALE_FACTOR_BITS: u64 = 0x3FE0_0000_0000_0000;
/// Bit pattern of the `f64` value 8.0.
pub const MAX_SCALE_FACTOR_BITS: u64 = 0x4020_0000_0000_0000;

/// Whether the IEEE-754 `f64` with these bits is finite and within
/// `0.5..=8.0`. Non-negative finite doubles order like their bit patterns;
/// negative values, infinities and NaN have bit patterns above 8.0's.
pub open spec fn valid_scale_bits(bits: u64) -> bool {
    MIN_SCALE_FACTOR_BITS <= bits <= MAX_SCALE_FACTOR_BITS
}

/// Exec form of [`valid_scale_bits`].
pub fn scale_factor_is_valid(bits: u64) -> (valid: bool)
    ensures
        valid == valid_scale_bits(bits),
{
    MIN_SCALE_FACTOR_BITS <= bits && bits <= MAX_SCALE_FACTOR_BITS
}

/// Saved logical window rectangle; the scale factor is kept as the bit
/// pattern of its `f64` value.
#[derive(Clone, Copy, Debug, PartialEq, Eq, Structural)]
pub struct WindowBounds {
    pub x: i32,
    pub y: i32,
    pub width: u32,
    pub height: u32,
    pub scale_factor_bits: u64,
}

/// Close-button behaviour.
#[derive(Clone, Copy, Debug, PartialEq, Eq, Structural)]
pub enum CloseAction {
    MinimizeToTray,
    Exit,
}

/// Durable window preferences.
#[derive(Clone, Copy, Debug, PartialEq, Eq, Structural)]
pub struct WindowConfig {
    pub bounds: Option<WindowBounds>,
    pub maximized: bool,
    pub close_action: CloseAction,
}

/// Theme preference.
#[derive(Clone, Copy, Debug, PartialEq, Eq, Structural)]
pub enum ThemePreference {
    System,
    Light,
    Dark,
}

/// Interface density preference.
#[derive(Clone, Copy, Debug, PartialEq, Eq, Structural)]
pub enum Density {
    Standard,
    Compact,
}

/// Supported application locale.
#[derive(Clone, Copy, Debug, PartialEq, Eq, Structural)]
pub enum AppLocale {
    ZhCn,
}

/// Durable user-interface preferences.
#[derive(Clone, Copy, Debug, PartialEq, Eq, Structural)]
pub struct UiConfig {
    pub theme: ThemePreference,
    pub density: Density,
    pub locale: AppLocale,
    pub sidebar_collapsed: bool,
    pub onboarding_version: u32,
}

/// A custom binding, or an explicitly cleared action binding.
#[derive(Debug, PartialEq, Eq)]
pub enum BindingOverride {
    Custom { accelerator: String },
    Unbound,
}

/// Mathematical form of a binding override.
pub enum BindingModel {
    Custom(Seq<char>),
    Unbound,
}

impl View for BindingOverride {
    type V = BindingModel;

    open spec fn view(&self) -> BindingModel {
        match self {
            BindingOverride::Custom { accelerator } => BindingModel::Custom(accelerator@),
            BindingOverride::Unbound => BindingModel::Unbound,
        }
    }
}

impl Clone for BindingOverride {
    fn clone(&self) -> (copy: Self)
        ensures
            copy@ == self@,
    {
        match self {
            BindingOverride::Custom { accelerator } => BindingOverride::Custom { accelerator: accelerator.clone() },
            BindingOverride::Unbound => BindingOverride::Unbound,
        }
    }
}

/// One keymap override.
#[derive(Debug, PartialEq, Eq)]
pub struct KeyBinding {
    pub action_id: String,
    pub binding: BindingOverride,
}

impl View for KeyBinding {
    type V = (Seq<char>, BindingModel);

    open spec fn view(&self) -> (Seq<char>, BindingModel) {
        (self.action_id@, self.binding@)
    }
}

impl Clone for KeyBinding {
    fn clone(&self) -> (copy: Self)
        ensures
            copy@ == self@,
    {
        KeyBinding { action_id: self.action_id.clone(), binding: self.binding.clone() }
    }
}

/// Whether the keys of `entries` strictly increase.
pub open spec fn sorted_keys(entries: Seq<(Seq<char>, BindingModel)>) -> bool {
    forall|i: int, j: int| 0 <= i < j < entries.len() ==> lex_less(#[trigger] entries[i].0, #[trigger] entries[j].0)
}

/// Durable keymap overrides, ordered by action id like a `BTreeMap`.
#[derive(Debug, PartialEq, Eq)]
pub struct KeymapConfig {
    bindings: Vec<KeyBinding>,
}

impl View for KeymapConfig {
    type V = Seq<(Seq<char>, BindingModel)>;

    closed spec fn view(&self) -> Seq<(Seq<char>, BindingModel)> {
        self.bindings@.map_values(|b: KeyBinding| b@)
    }
}

impl KeymapConfig {
    #[verifier::type_invariant]
    spec fn sorted(&self) -> bool {
        sorted_keys(self@)
    }

    /// An empty keymap.
    pub fn new() -> (keymap: Self)
        ensures
            keymap@ == Seq::<(Seq<char>, BindingModel)>::empty(),
    {
        let keymap = KeymapConfig { bindings: Vec::new() };
        assert(keymap@ =~= Seq::<(Seq<char>, BindingModel)>::empty());
        keymap
    }

    /// Number of overrides.
    pub fn len(&self) -> (n: usize)
        ensures
            n == self@.len(),
    {
        self.bindings.len()
    }

    /// Whether no override is held.
    pub fn is_empty(&self) -> (empty: bool)
        ensures
            empty == (self@.len() == 0),
    {
        self.bindings.len() == 0
    }

    /// The override at position `index` in key order.
    pub fn entry(&self, index: usize) -> (entry: &KeyBinding)
        requires
            index < self@.len(),
        ensures
            entry@ == self@[index as int],
    {
        &self.bindings[index]
    }

    /// Inserts or replaces the override of `action_id`, keeping key order.
    pub fn insert(&mut self, action_id: String, binding: BindingOverride)
        ensures
            final(self)@ == inserted(old(self)@, action_id@, binding@),
    {
        proof { use_type_invariant(&*self); }
        let ghost before = self@;
        let mut bindings: Vec<KeyBinding> = Vec::new();
        std::mem::swap(&mut bindings, &mut self.bindings);
        assert(bindings@.map_values(|b: KeyBinding| b@) == before);
        let n = bindings.len();
        let mut i: usize = 0;
        while i < n
            invariant
                n == bindings@.len(),
                before == bindings@.map_values(|b: KeyBinding| b@),
                before == old(self)@,
                sorted_keys(before),
                i <= n,
                forall|j: int| 0 <= j < i ==> lex_less(#[trigger] before[j].0, action_id@),
            decreases n - i,
        {
            let c = compare_str(bindings[i].action_id.as_str(), action_id.as_str());
            assert(before[i as int] == bindings@[i as int]@);
            match c {
                Comparison::Less => {},
                Comparison::Equal => {
                    let ghost key = action_id@;
                    let ghost model = binding@;
                    let entry = KeyBinding { action_id, binding };
                    bindings.set(i, entry);
                    proof {
                        assert(bindings@.map_values(|b: KeyBinding| b@) =~= before.update(i as int, (key, model)));
                        lemma_insert_position(before, key, model, i as int);
                    }
                    self.bindings = bindings;
                    return;
                },
                Comparison::Greater => {
                    let ghost key = action_id@;
                    let ghost model = binding@;
                    let entry = KeyBinding { action_id, binding };
                    bindings.insert(i, entry);
                    proof {
                        assert(bindings@.map_values(|b: KeyBinding| b@) =~= before.insert(i as int, (key, model)));
                        lemma_insert_position(before, key, model, i as int);
                    }
                    self.bindings = bindings;
                    return;
                },
            }
            i += 1;
        }
        let ghost key = action_id@;
        let ghost model = binding@;
        bindings.push(KeyBinding { action_id, binding });
        proof {
            assert(bindings@.map_values(|b: KeyBinding| b@) =~= before.push((key, model)));
            lemma_insert_position(before, key, model, n as int);
        }
        self.bindings = bindings;
    }
}

impl Clone for KeymapConfig {
    fn clone(&self) -> (copy: Self)
        ensures
            copy@ == self@,
    {
        proof { use_type_invariant(self); }
        let bindings = self.bindings.clone();
        assert(bindings@.map_values(|b: KeyBinding| b@) =~= self@);
        KeymapConfig { bindings }
    }
}

impl Default for KeymapConfig {
    fn default() -> (keymap: Self)
        ensures
            keymap@ == Seq::<(Seq<char>, BindingModel)>::empty(),
    {
        KeymapConfig::new()
    }
}

impl Default for WindowConfig {
    fn default() -> (window: Self)
        ensures
            window == default_window(),
    {
        WindowConfig { bounds: None, maximized: false, close_action: CloseAction::MinimizeToTray }
    }
}

impl Default for UiConfig {
    fn default() -> (ui: Self)
        ensures
            ui == default_ui(),
    {
        UiConfig {
            theme: ThemePreference::System,
            density: Density::Standard,
            locale: AppLocale::ZhCn,
            sidebar_collapsed: false,
            onboarding_version: 0,
        }
    }
}

impl Default for CloseAction {
    fn default() -> (action: Self)
        ensures
            action == CloseAction::MinimizeToTray,
    {
        CloseAction::MinimizeToTray
    }
}

impl Default for ThemePreference {
    fn default() -> (theme: Self)
        ensures
            theme == ThemePreference::System,
    {
        ThemePreference::System
    }
}

impl Default for Density {
    fn default() -> (density: Self)
        ensures
            density == Density::Standard,
    {
        Density::Standard
    }
}

impl Default for AppLocale {
    fn default() -> (locale: Self)
        ensures
            locale == AppLocale::ZhCn,
    {
        AppLocale::ZhCn
    }
}

/// The default window preferences.
pub open spec fn default_window() -> WindowConfig {
    WindowConfig { bounds: None, maximized: false, close_action: CloseAction::MinimizeToTray }
}

/// The default interface preferences.
pub open spec fn default_ui() -> UiConfig {
    UiConfig {
        theme: ThemePreference::System,
        density: Density::Standard,
        locale: AppLocale::ZhCn,
        sidebar_collapsed: false,
        onboarding_version: 0,
    }
}

/// Complete versioned application configuration.
#[derive(Debug, PartialEq, Eq)]
pub struct AppConfig {
    pub schema_version: u32,
    pub window: WindowConfig,
    pub ui: UiConfig,
    pub keymap: KeymapConfig,
}

/// Mathematical form of a configuration.
pub struct ConfigModel {
    pub schema_version: u32,
    pub window: WindowConfig,
    pub ui: UiConfig,
    pub keymap: Seq<(Seq<char>, BindingModel)>,
}

impl View for AppConfig {
    type V = ConfigModel;

    open spec fn view(&self) -> ConfigModel {
        ConfigModel { schema_version: self.schema_version, window: self.window, ui: self.ui, keymap: self.keymap@ }
    }
}

impl Clone for AppConfig {
    fn clone(&self) -> (copy: Self)
        ensures
            copy@ == self@,
    {
        AppConfig { schema_version: self.schema_version, window: self.window, ui: self.ui, keymap: self.keymap.clone() }
    }
}

/// The default configuration.
pub open spec fn default_config() -> ConfigModel {
    ConfigModel {
        schema_version: CURRENT_SCHEMA_VERSION,
        window: default_window(),
        ui: default_ui(),
        keymap: Seq::empty(),
    }
}

impl Default for AppConfig {
    fn default() -> (config: Self)
        ensures
            config@ == default_config(),
    {
        AppConfig {
            schema_version: CURRENT_SCHEMA_VERSION,
            window: WindowConfig::default(),
            ui: UiConfig::default(),
            keymap: KeymapConfig::new(),
        }
    }
}

/// Which bounded field a configuration violates.
#[derive(Clone, Copy, Debug, PartialEq, Eq, Structural)]
pub enum ConfigProblem {
    SchemaVersion,
    WindowPosition,
    WindowSize,
    WindowScaleFactor,
    KeymapCount,
    KeymapActionId,
    KeymapAccelerator,
}

/// The field name reported for a problem.
pub open spec fn problem_field(problem: ConfigProblem) -> Seq<char> {
    match problem {
        ConfigProblem::SchemaVersion => "schemaVersion"@,
        ConfigProblem::WindowPosition => "window.bounds.position"@,
        ConfigProblem::WindowSize => "window.bounds.size"@,
        ConfigProblem::WindowScaleFactor => "window.bounds.scaleFactor"@,
        ConfigProblem::KeymapCount => "keymap.bindings"@,
        ConfigProblem::KeymapActionId => "keymap.bindings.actionId"@,
        ConfigProblem::KeymapAccelerator => "keymap.bindings.accelerator"@,
    }
}

/// The reason reported for a problem.
pub open spec fn problem_reason(problem: ConfigProblem) -> Seq<char> {
    match problem {
        ConfigProblem::SchemaVersion => "version does not match the current schema"@,
        ConfigProblem::WindowPosition => "coordinates are outside the supported range"@,
        ConfigProblem::WindowSize => "dimensions are outside the supported range"@,
        ConfigProblem::WindowScaleFactor => "scale factor is outside the supported range"@,
        ConfigProblem::KeymapCount => "too many keymap overrides"@,
        ConfigProblem::KeymapActionId => "action id has an invalid shape"@,
        ConfigProblem::KeymapAccelerator => "accelerator has an invalid shape"@,
    }
}

/// A bounded schema validation failure that does not expose values.
#[derive(Clone, Copy, Debug, PartialEq, Eq)]
pub struct ConfigValidationError {
    pub field: &'static str,
    pub reason: &'static str,
}

impl ConfigValidationError {
    /// Whether this error reports `problem`.
    pub open spec fn reports(self, problem: ConfigProblem) -> bool {
        self.field@ == problem_field(problem) && self.reason@ == problem_reason(problem)
    }

    /// The error that reports `problem`.
    pub fn new(problem: ConfigProblem) -> (error: Self)
        ensures
            error.reports(problem),
    {
        match problem {
            ConfigProblem::SchemaVersion => ConfigValidationError { field: "schemaVersion", reason: "version does not match the current schema" },
            ConfigProblem::WindowPosition => ConfigValidationError { field: "window.bounds.position", reason: "coordinates are outside the supported range" },
            ConfigProblem::WindowSize => ConfigValidationError { field: "window.bounds.size", reason: "dimensions are outside the supported range" },
            ConfigProblem::WindowScaleFactor => ConfigValidationError { field: "window.bounds.scaleFactor", reason: "scale factor is outside the supported range" },
            ConfigProblem::KeymapCount => ConfigValidationError { field: "keymap.bindings", reason: "too many keymap overrides" },
            ConfigProblem::KeymapActionId => ConfigValidationError { field: "keymap.bindings.actionId", reason: "action id has an invalid shape" },
            ConfigProblem::KeymapAccelerator => ConfigValidationError { field: "keymap.bindings.accelerator", reason: "accelerator has an invalid shape" },
        }
    }
}

/// Characters allowed in an action id.
pub open spec fn action_id_char(c: char) -> bool {
    ('a' <= c <= 'z') || ('0' <= c <= '9') || c == '.' || c == '_' || c == '-'
}

/// An action id: 1 to 96 characters from [`action_id_char`] (all ASCII, so
/// characters and UTF-8 bytes coincide).
pub open spec fn valid_action_id(id: Seq<char>) -> bool {
    1 <= id.len() <= 96 && forall|i: int| 0 <= i < id.len() ==> action_id_char(#[trigger] id[i])
}

/// An accelerator: 1 to 128 characters, none of them a control character.
pub open spec fn valid_accelerator(accelerator: Seq<char>) -> bool {
    1 <= accelerator.len() <= 128 && forall|i: int| 0 <= i < accelerator.len() ==> !is_control(#[trigger] accelerator[i])
}

/// The problem of one keymap entry, if any.
pub open spec fn entry_problem(entry: (Seq<char>, BindingModel)) -> Option<ConfigProblem> {
    if !valid_action_id(entry.0) {
        Some(ConfigProblem::KeymapActionId)
    } else {
        match entry.1 {
            BindingModel::Custom(accelerator) => if valid_accelerator(accelerator) {
                None
            } else {
                Some(ConfigProblem::KeymapAccelerator)
            },
            BindingModel::Unbound => None,
        }
    }
}

/// The problem of the first faulty entry from `i` on, in key order.
pub open spec fn entries_problem(entries: Seq<(Seq<char>, BindingModel)>, i: int) -> Option<ConfigProblem>
    decreases entries.len() - i,
{
    if i < 0 || i >= entries.len() {
        None
    } else {
        match entry_problem(entries[i]) {
            Some(problem) => Some(problem),
            None => entries_problem(entries, i + 1),
        }
    }
}

/// The problem of a keymap: too many overrides, then the first faulty entry.
pub open spec fn keymap_problem(entries: Seq<(Seq<char>, BindingModel)>) -> Option<ConfigProblem> {
    if entries.len() > MAX_KEYMAP_OVERRIDES {
        Some(ConfigProblem::KeymapCount)
    } else {
        entries_problem(entries, 0)
    }
}

/// The problem of the window preferences, if bounds are saved.
pub open spec fn window_problem(window: WindowConfig) -> Option<ConfigProblem> {
    match window.bounds {
        None => None,
        Some(b) => if !(-1_000_000 <= b.x <= 1_000_000 && -1_000_000 <= b.y <= 1_000_000) {
            Some(ConfigProblem::WindowPosition)
        } else if !(1 <= b.width <= 32_768 && 1 <= b.height <= 32_768) {
            Some(ConfigProblem::WindowSize)
        } else if !valid_scale_bits(b.scale_factor_bits) {
            Some(ConfigProblem::WindowScaleFactor)
        } else {
            None
        },
    }
}

/// The first problem of a configuration: version, window, then keymap.
pub open spec fn config_problem(config: ConfigModel) -> Option<ConfigProblem> {
    if config.schema_version != CURRENT_SCHEMA_VERSION {
        Some(ConfigProblem::SchemaVersion)
    } else if window_problem(config.window) is Some {
        window_problem(config.window)
    } else {
        keymap_problem(config.keymap)
    }
}

/// Whether a configuration satisfies every bound.
pub open spec fn valid_config(config: ConfigModel) -> bool {
    config_problem(config) is None
}

/// The validation outcome for a problem.
pub open spec fn outcome(problem: Option<ConfigProblem>, result: Result<(), ConfigValidationError>) -> bool {
    match problem {
        None => result is Ok,
        Some(p) => result matches Err(e) && e.reports(p),
    }
}

fn action_id_is_valid(id: &str) -> (valid: bool)
    ensures
        valid == valid_action_id(id@),
{
    let n = id.unicode_len();
    if n < 1 || n > 96 {
        return false;
    }
    let mut i: usize = 0;
    while i < n
        invariant
            n == id@.len(),
            i <= n,
            forall|j: int| 0 <= j < i ==> action_id_char(#[trigger] id@[j]),
        decreases n - i,
    {
        let c = id.get_char(i);
        if !(('a' <= c && c <= 'z') || ('0' <= c && c <= '9') || c == '.' || c == '_' || c == '-') {
            assert(!action_id_char(id@[i as int]));
            return false;
        }
        i += 1;
    }
    true
}

fn accelerator_is_valid(accelerator: &str) -> (valid: bool)
    ensures
        valid == valid_accelerator(accelerator@),
{
    let n = accelerator.unicode_len();
    if n < 1 || n > 128 {
        return false;
    }
    let mut i: usize = 0;
    while i < n
        invariant
            n == accelerator@.len(),
            i <= n,
            forall|j: int| 0 <= j < i ==> !is_control(#[trigger] accelerator@[j]),
        decreases n - i,
    {
        let c = accelerator.get_char(i);
        if char_is_control(c) {
            assert(is_control(accelerator@[i as int]));
            return false;
        }
        i += 1;
    }
    true
}

impl KeymapConfig {
    /// Checks the override count and then each override in key order.
    pub fn validate(&self) -> (result: Result<(), ConfigValidationError>)
        ensures
            outcome(keymap_problem(self@), result),
    {
        let n = self.bindings.len();
        if n > MAX_KEYMAP_OVERRIDES {
            return Err(ConfigValidationError::new(ConfigProblem::KeymapCount));
        }
        let ghost entries = self@;
        let mut i: usize = 0;
        while i < n
            invariant
                n == self.bindings@.len(),
                entries == self@,
                entries == self.bindings@.map_values(|b: KeyBinding| b@),
                i <= n,
                n <= MAX_KEYMAP_OVERRIDES,
                keymap_problem(entries) == entries_problem(entries, i as int),
            decreases n - i,
        {
            let entry = &self.bindings[i];
            assert(entries[i as int] == entry@);
            if !action_id_is_valid(entry.action_id.as_str()) {
                assert(entry_problem(entries[i as int]) == Some(ConfigProblem::KeymapActionId));
                return Err(ConfigValidationError::new(ConfigProblem::KeymapActionId));
            }
            match &entry.binding {
                BindingOverride::Custom { accelerator } => {
                    if !accelerator_is_valid(accelerator.as_str()) {
                        assert(entry_problem(entries[i as int]) == Some(ConfigProblem::KeymapAccelerator));
                        return Err(ConfigValidationError::new(ConfigProblem::KeymapAccelerator));
                    }
                },
                BindingOverride::Unbound => {},
            }
            assert(entry_problem(entries[i as int]) is None);
            i += 1;
        }
        Ok(())
    }
}

impl WindowConfig {
    /// Checks saved bounds: position, then size, then scale factor.
    pub fn validate(&self) -> (result: Result<(), ConfigValidationError>)
        ensures
            outcome(window_problem(*self), result),
    {
        match self.bounds {
            None => Ok(()),
            Some(b) => {
                if !(-1_000_000 <= b.x && b.x <= 1_000_000 && -1_000_000 <= b.y && b.y <= 1_000_000) {
                    Err(ConfigValidationError::new(ConfigProblem::WindowPosition))
                } else if !(1 <= b.width && b.width <= 32_768 && 1 <= b.height && b.height <= 32_768) {
                    Err(ConfigValidationError::new(ConfigProblem::WindowSize))
                } else if !scale_factor_is_valid(b.scale_factor_bits) {
                    Err(ConfigValidationError::new(ConfigProblem::WindowScaleFactor))
                } else {
                    Ok(())
                }
            },
        }
    }
}

impl AppConfig {
    /// Checks the schema version, the window bounds and the keymap.
    pub fn validate(&self) -> (result: Result<(), ConfigValidationError>)
        ensures
            outcome(config_problem(self@), result),
    {
        if self.schema_version != CURRENT_SCHEMA_VERSION {
            return Err(ConfigValidationError::new(ConfigProblem::SchemaVersion));
        }
        match self.window.validate() {
            Err(error) => return Err(error),
            Ok(()) => {},
        }
        self.keymap.validate()
    }
}

/// The default configuration satisfies every bound.
pub proof fn lemma_default_is_valid()
    ensures
        valid_config(default_config()),
{
}

/// Whether `p` is where `key` belongs: every earlier key sorts before it
/// and the key at `p`, if any, does not.
pub open spec fn is_insert_position(entries: Seq<(Seq<char>, BindingModel)>, key: Seq<char>, p: int) -> bool {
    &&& 0 <= p <= entries.len()
    &&& forall|j: int| 0 <= j < p ==> lex_less(#[trigger] entries[j].0, key)
    &&& p < entries.len() ==> !lex_less(entries[p].0, key)
}

/// `entries` with `key` mapped to `binding`, keys kept in order (the
/// semantics of `BTreeMap::insert`).
pub open spec fn inserted(
    entries: Seq<(Seq<char>, BindingModel)>,
    key: Seq<char>,
    binding: BindingModel,
) -> Seq<(Seq<char>, BindingModel)> {
    let p = choose|p: int| is_insert_position(entries, key, p);
    if p < entries.len() && entries[p].0 == key {
        entries.update(p, (key, binding))
    } else {
        entries.insert(p, (key, binding))
    }
}

pub proof fn lemma_insert_position(
    entries: Seq<(Seq<char>, BindingModel)>,
    key: Seq<char>,
    binding: BindingModel,
    i: int,
)
    requires
        sorted_keys(entries),
        0 <= i <= entries.len(),
        forall|j: int| 0 <= j < i ==> lex_less(#[trigger] entries[j].0, key),
        i < entries.len() ==> !lex_less(entries[i].0, key),
    ensures
        inserted(entries, key, binding) == if i < entries.len() && entries[i].0 == key {
            entries.update(i, (key, binding))
        } else {
            entries.insert(i, (key, binding))
        },
        sorted_keys(inserted(entries, key, binding)),
{
    assert(is_insert_position(entries, key, i));
    let p = choose|p: int| is_insert_position(entries, key, p);
    if p < i {
        assert(lex_less(entries[p].0, key));
    }
    if i < p {
        assert(lex_less(entries[i].0, key));
    }
    assert(p == i);
    if i < entries.len() && entries[i].0 == key {
        let r = entries.update(i, (key, binding));
        assert forall|a: int, b: int| 0 <= a < b < r.len() implies lex_less(#[trigger] r[a].0, #[trigger] r[b].0) by {
            assert(r[a].0 == entries[a].0);
            assert(r[b].0 == entries[b].0);
        }
    } else {
        let r = entries.insert(i, (key, binding));
        if i < entries.len() {
            lemma_lex_trichotomy(entries[i].0, key);
            assert(lex_less(key, entries[i].0));
        }
        assert forall|a: int, b: int| 0 <= a < b < r.len() implies lex_less(#[trigger] r[a].0, #[trigger] r[b].0) by {
            if b < i {
                assert(r[a].0 == entries[a].0 && r[b].0 == entries[b].0);
            } else if b == i {
                assert(r[a].0 == entries[a].0);
            } else if a == i {
                assert(r[b].0 == entries[b - 1].0);
                if b - 1 > i {
                    lemma_lex_transitive(key, entries[i].0, entries[b - 1].0);
                }
            } else if a < i {
                assert(r[a].0 == entries[a].0 && r[b].0 == entries[b - 1].0);
            } else {
                assert(r[a].0 == entries[a - 1].0 && r[b].0 == entries[b - 1].0);
            }
        }
    }
}

} // verus!
