//! UI text translations for German and English.
//!
//! Voice acting and cast data keep their original language; this module only
//! covers engine-drawn UI text (menus, HUD labels, overlays, dev menu).

use vstd::prelude::*;
use crate::text::str_eq;

verus! {

/// Supported UI languages
#[derive(Debug, Clone, Copy, PartialEq, Eq, Structural)]
pub enum Language {
    German,
    English,
}

impl Language {
    /// Cycle to the next language
    pub fn next(self) -> (r: Self)
        ensures
            r == (match self {
                Language::German => Language::English,
                Language::English => Language::German,
            }),
    {
        match self {
            Language::German => Language::English,
            Language::English => Language::German,
        }
    }

    /// Short display code of the language
    pub open spec fn code_text(self) -> Seq<char> {
        match self {
            Language::German => "DE"@,
            Language::English => "EN"@,
        }
    }

    /// Short display code
    pub fn code(&self) -> (r: &'static str)
        ensures
            r@ == self.code_text(),
    {
        match self {
            Language::German => "DE",
            Language::English => "EN",
        }
    }
}

/// The UI text for `key` in `lang`; "???" for a key that has no entry.
pub open spec fn ui_text(lang: Language, key: Seq<char>) -> Seq<char> {
    if key == "pause_title"@ {
        if lang is German { "= PAUSE ="@ } else { "= PAUSED ="@ }
    } else if key == "menu_resume"@ {
        if lang is German { "Weiterspielen"@ } else { "Resume"@ }
    } else if key == "menu_fullscreen"@ {
        if lang is German { "Vollbild umschalten"@ } else { "Toggle Fullscreen"@ }
    } else if key == "menu_detail_noise"@ {
        if lang is German { "Detail-Rauschen"@ } else { "Detail Noise"@ }
    } else if key == "menu_quit"@ {
        if lang is German { "Beenden"@ } else { "Quit"@ }
    } else if key == "pause_hint"@ {
        if lang is German { "Pfeiltasten + Enter | Esc"@ } else { "Arrow keys + Enter | Esc"@ }
    } else if key == "lang_label"@ {
        if lang is German { "Sprache: Deutsch"@ } else { "Language: English"@ }
    } else if key == "road_legal"@ {
        if lang is German { "Fahrtauglich!"@ } else { "Road legal!"@ }
    } else if key == "not_road_legal"@ {
        if lang is German { "Noch nicht fahrtauglich"@ } else { "Not road legal yet"@ }
    } else if key == "dev_title"@ {
        if lang is German { "~ DEV MENU ~"@ } else { "~ DEV MENU ~"@ }
    } else if key == "dev_hint"@ {
        if lang is German { "Up/Down + Enter | Klick | 5x# schliesst"@ } else { "Up/Down + Enter | Click | 5x# to close"@ }
    } else if key == "dev_infinite_fuel"@ {
        if lang is German { "Unendlich Benzin"@ } else { "Infinite Fuel"@ }
    } else if key == "dev_noclip"@ {
        if lang is German { "Noclip (durch Waende)"@ } else { "Noclip (through walls)"@ }
    } else if key == "dev_hitboxes"@ {
        if lang is German { "Hitboxen anzeigen"@ } else { "Show Hitboxes"@ }
    } else if key == "dev_skip_dialog"@ {
        if lang is German { "Dialoge ueberspringen"@ } else { "Skip Dialogs"@ }
    } else if key == "dev_meme"@ {
        if lang is German { "Meme-Modus"@ } else { "Meme Mode"@ }
    } else if key == "dev_detail_noise"@ {
        if lang is German { "Detail-Rauschen"@ } else { "Detail Noise"@ }
    } else if key == "dev_goto_garage"@ {
        if lang is German { "-> Werkstatt"@ } else { "-> Workshop"@ }
    } else if key == "dev_goto_yard"@ {
        if lang is German { "-> Hof"@ } else { "-> Yard"@ }
    } else if key == "dev_goto_world"@ {
        if lang is German { "-> Weltkarte"@ } else { "-> World Map"@ }
    } else if key == "dev_goto_carshow"@ {
        if lang is German { "-> Autoshow"@ } else { "-> Car Show"@ }
    } else if key == "dev_goto_junkyard"@ {
        if lang is German { "-> Schrottplatz"@ } else { "-> Junkyard"@ }
    } else if key == "dev_refuel"@ {
        if lang is German { "Tank auffuellen"@ } else { "Refuel Tank"@ }
    } else if key == "dev_figge"@ {
        if lang is German { "Figge in Werkstatt"@ } else { "Figge in Workshop"@ }
    } else if key == "dev_close"@ {
        if lang is German { "Schliessen"@ } else { "Close"@ }
    } else {
        "???"@
    }
}

/// All translatable UI strings, looked up by key.
/// Returns the translated string or "???" if the key is not found.
pub fn t(lang: Language, key: &str) -> (r: &'static str)
    ensures
        r@ == ui_text(lang, key@),
{
    let german = match lang {
        Language::German => true,
        Language::English => false,
    };
    if str_eq(key, "pause_title") {
        if german { "= PAUSE =" } else { "= PAUSED =" }
    } else if str_eq(key, "menu_resume") {
        if german { "Weiterspielen" } else { "Resume" }
    } else if str_eq(key, "menu_fullscreen") {
        if german { "Vollbild umschalten" } else { "Toggle Fullscreen" }
    } else if str_eq(key, "menu_detail_noise") {
        if german { "Detail-Rauschen" } else { "Detail Noise" }
    } else if str_eq(key, "menu_quit") {
        if german { "Beenden" } else { "Quit" }
    } else if str_eq(key, "pause_hint") {
        if german { "Pfeiltasten + Enter | Esc" } else { "Arrow keys + Enter | Esc" }
    } else if str_eq(key, "lang_label") {
        if german { "Sprache: Deutsch" } else { "Language: English" }
    } else if str_eq(key, "road_legal") {
        if german { "Fahrtauglich!" } else { "Road legal!" }
    } else if str_eq(key, "not_road_legal") {
        if german { "Noch nicht fahrtauglich" } else { "Not road legal yet" }
    } else if str_eq(key, "dev_title") {
        if german { "~ DEV MENU ~" } else { "~ DEV MENU ~" }
    } else if str_eq(key, "dev_hint") {
        if german { "Up/Down + Enter | Klick | 5x# schliesst" } else { "Up/Down + Enter | Click | 5x# to close" }
    } else if str_eq(key, "dev_infinite_fuel") {
        if german { "Unendlich Benzin" } else { "Infinite Fuel" }
    } else if str_eq(key, "dev_noclip") {
        if german { "Noclip (durch Waende)" } else { "Noclip (through walls)" }
    } else if str_eq(key, "dev_hitboxes") {
        if german { "Hitboxen anzeigen" } else { "Show Hitboxes" }
    } else if str_eq(key, "dev_skip_dialog") {
        if german { "Dialoge ueberspringen" } else { "Skip Dialogs" }
    } else if str_eq(key, "dev_meme") {
        if german { "Meme-Modus" } else { "Meme Mode" }
    } else if str_eq(key, "dev_detail_noise") {
        if german { "Detail-Rauschen" } else { "Detail Noise" }
    } else if str_eq(key, "dev_goto_garage") {
        if german { "-> Werkstatt" } else { "-> Workshop" }
    } else if str_eq(key, "dev_goto_yard") {
        if german { "-> Hof" } else { "-> Yard" }
    } else if str_eq(key, "dev_goto_world") {
        if german { "-> Weltkarte" } else { "-> World Map" }
    } else if str_eq(key, "dev_goto_carshow") {
        if german { "-> Autoshow" } else { "-> Car Show" }
    } else if str_eq(key, "dev_goto_junkyard") {
        if german { "-> Schrottplatz" } else { "-> Junkyard" }
    } else if str_eq(key, "dev_refuel") {
        if german { "Tank auffuellen" } else { "Refuel Tank" }
    } else if str_eq(key, "dev_figge") {
        if german { "Figge in Werkstatt" } else { "Figge in Workshop" }
    } else if str_eq(key, "dev_close") {
        if german { "Schliessen" } else { "Close" }
    } else {
        "???"
    }
}

} // verus!
