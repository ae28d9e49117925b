//! Fixed first-frame projection of durable UI preferences into the WebView.
use vstd::prelude::*;
use crate::config::model::{Density, ThemePreference, UiConfig};
use crate::config::schema::{density_name, locale_name, theme_name};

verus! {

/// Opening of the first-frame script, up to the theme preference.
pub const SCRIPT_OPEN: &'static str = "(()=>{if(window.top!==window.self){return;}const preference=\"";
/// Between the theme preference and the density.
pub const SCRIPT_DENSITY: &'static str = "\";const density=\"";
/// Between the density and the locale.
pub const SCRIPT_LOCALE: &'static str = "\";const locale=\"";
/// The rest of the script: applies the attributes once the root exists.
pub const SCRIPT_BODY: &'static str = r#"";const apply=()=>{const root=document.documentElement;if(!root){return false;}const dark=preference==="dark"||(preference==="system"&&window.matchMedia("(prefers-color-scheme: dark)").matches);root.setAttribute("data-theme",preference);root.setAttribute("data-density",density);root.setAttribute("lang",locale);root.classList.toggle("dark",dark);root.style.colorScheme=preference==="system"?"light dark":preference;return true;};if(apply()){return;}const observer=new MutationObserver(()=>{if(apply()){observer.disconnect();}});observer.observe(document,{childList:true});})();"#;

/// The native window theme to use from the first frame.
#[derive(Clone, Copy, Debug, PartialEq, Eq, Structural)]
pub enum NativeTheme {
    Light,
    Dark,
}

/// Closed projection used before frontend JavaScript starts: only the three
/// closed literals of the preferences ever reach the script.
#[derive(Debug)]
pub struct UiBootstrap {
    pub script: String,
    pub native_theme: Option<NativeTheme>,
    pub background: Option<(u8, u8, u8, u8)>,
}

/// The script for a UI configuration.
pub open spec fn bootstrap_script(config: UiConfig) -> Seq<char> {
    SCRIPT_OPEN@ + theme_name(config.theme) + SCRIPT_DENSITY@ + density_name(config.density) + SCRIPT_LOCALE@
        + locale_name(config.locale) + SCRIPT_BODY@
}

/// The native theme for a preference: none for `System`.
pub open spec fn native_theme_for(theme: ThemePreference) -> Option<NativeTheme> {
    match theme {
        ThemePreference::System => None,
        ThemePreference::Light => Some(NativeTheme::Light),
        ThemePreference::Dark => Some(NativeTheme::Dark),
    }
}

/// The window background for a preference: none for `System`.
pub open spec fn background_for(theme: ThemePreference) -> Option<(u8, u8, u8, u8)> {
    match theme {
        ThemePreference::System => None,
        ThemePreference::Light => Some((255u8, 255u8, 255u8, 255u8)),
        ThemePreference::Dark => Some((22u8, 25u8, 29u8, 255u8)),
    }
}

impl UiBootstrap {
    /// The projection of a UI configuration.
    pub fn from_config(config: &UiConfig) -> (bootstrap: Self)
        ensures
            bootstrap.script@ == bootstrap_script(*config),
            bootstrap.native_theme == native_theme_for(config.theme),
            bootstrap.background == background_for(config.theme),
    {
        let theme = match config.theme {
            ThemePreference::System => "system",
            ThemePreference::Light => "light",
            ThemePreference::Dark => "dark",
        };
        let density = match config.density {
            Density::Standard => "standard",
            Density::Compact => "compact",
        };
        let locale = "zh-CN";
        let mut script = String::from_str(SCRIPT_OPEN);
        script.append(theme);
        script.append(SCRIPT_DENSITY);
        script.append(density);
        script.append(SCRIPT_LOCALE);
        script.append(locale);
        script.append(SCRIPT_BODY);
        let (native_theme, background) = match config.theme {
            ThemePreference::System => (None, None),
            ThemePreference::Light => (Some(NativeTheme::Light), Some((255u8, 255u8, 255u8, 255u8))),
            ThemePreference::Dark => (Some(NativeTheme::Dark), Some((22u8, 25u8, 29u8, 255u8))),
        };
        UiBootstrap { script, native_theme, background }
    }

    /// The first-frame script.
    pub fn script(&self) -> (script: &str)
        ensures
            script@ == self.script@,
    {
        self.script.as_str()
    }
}

} // verus!
