//! What the translation popup shows: the record kept for it and the ones
//! sent to it while a translation is under way, after it, or when it fails.
use vstd::prelude::*;
use crate::config::opt_view;
use crate::translation::TranslationPayload;

verus! {

broadcast use vstd::string::group_string_axioms;

/// The record the popup window reads.
#[derive(Debug)]
pub struct PopupPayload {
    pub surface: String,
    pub source: String,
    pub target: String,
    pub latency: u64,
    pub provider: String,
    /// The selection shortcut; some records sent to the window leave it out.
    pub shortcut: Option<String>,
    pub source_lang: String,
    pub target_lang: String,
}

/// The character view of a popup record.
pub struct PopupModel {
    pub surface: Seq<char>,
    pub source: Seq<char>,
    pub target: Seq<char>,
    pub latency: u64,
    pub provider: Seq<char>,
    pub shortcut: Option<Seq<char>>,
    pub source_lang: Seq<char>,
    pub target_lang: Seq<char>,
}

impl View for PopupPayload {
    type V = PopupModel;

    open spec fn view(&self) -> PopupModel {
        PopupModel {
            surface: self.surface@,
            source: self.source@,
            target: self.target@,
            latency: self.latency,
            provider: self.provider@,
            shortcut: opt_view(self.shortcut),
            source_lang: self.source_lang@,
            target_lang: self.target_lang@,
        }
    }
}

impl Clone for PopupPayload {
    fn clone(&self) -> (r: Self)
        ensures
            r@ == self@,
    {
        PopupPayload {
            surface: self.surface.clone(),
            source: self.source.clone(),
            target: self.target.clone(),
            latency: self.latency,
            provider: self.provider.clone(),
            shortcut: crate::config::clone_opt_string(&self.shortcut),
            source_lang: self.source_lang.clone(),
            target_lang: self.target_lang.clone(),
        }
    }
}

/// The text shown while a translation is under way.
pub open spec fn spec_pending_text() -> Seq<char> {
    "翻译中..."@
}

/// A popup record for the default direction (`auto` to `zh-CN`), with no latency.
pub open spec fn spec_auto_popup(
    source: Seq<char>,
    target: Seq<char>,
    provider: Seq<char>,
    shortcut: Option<Seq<char>>,
) -> PopupModel {
    PopupModel {
        surface: "popup"@,
        source,
        target,
        latency: 0,
        provider,
        shortcut,
        source_lang: "auto"@,
        target_lang: "zh-CN"@,
    }
}

fn auto_popup(source: String, target: String, provider: String, shortcut: Option<String>) -> (r: PopupPayload)
    ensures
        r@ == spec_auto_popup(source@, target@, provider@, opt_view(shortcut)),
{
    PopupPayload {
        surface: "popup".to_string(),
        source,
        target,
        latency: 0,
        provider,
        shortcut,
        source_lang: "auto".to_string(),
        target_lang: "zh-CN".to_string(),
    }
}

impl PopupPayload {
    /// The record shown when no selected text could be read.
    pub fn selection_error(message: String, shortcut: String) -> (r: PopupPayload)
        ensures
            r@ == spec_auto_popup(Seq::<char>::empty(), message@, "selection"@, Some(shortcut@)),
    {
        auto_popup(String::new(), message, "selection".to_string(), Some(shortcut))
    }

    /// The record shown while the text is being translated by a provider.
    pub fn pending(source: String, provider_name: String, shortcut: Option<String>) -> (r: PopupPayload)
        ensures
            r@ == spec_auto_popup(source@, spec_pending_text(), provider_name@, opt_view(shortcut)),
    {
        auto_popup(source, "翻译中...".to_string(), provider_name, shortcut)
    }

    /// The record shown when the translation failed.
    pub fn translation_error(message: String, provider_name: String, shortcut: String) -> (r: PopupPayload)
        ensures
            r@ == spec_auto_popup(Seq::<char>::empty(), message@, provider_name@, Some(shortcut@)),
    {
        auto_popup(String::new(), message, provider_name, Some(shortcut))
    }

    /// The record shown with a finished translation.
    pub fn translated(payload: &TranslationPayload, shortcut: String) -> (r: PopupPayload)
        ensures
            r@ == (PopupModel {
                surface: "popup"@,
                source: payload.source@,
                target: payload.target@,
                latency: payload.latency,
                provider: payload.provider@,
                shortcut: Some(shortcut@),
                source_lang: payload.source_lang@,
                target_lang: payload.target_lang@,
            }),
    {
        PopupPayload {
            surface: "popup".to_string(),
            source: payload.source.clone(),
            target: payload.target.clone(),
            latency: payload.latency,
            provider: payload.provider.clone(),
            shortcut: Some(shortcut),
            source_lang: payload.source_lang.clone(),
            target_lang: payload.target_lang.clone(),
        }
    }
}

} // verus!
