//! Translation requests: choosing the language pair and the provider route,
//! building what is sent, and reading what comes back.
use vstd::prelude::*;
use crate::config::{opt_view, ProviderConfig};
use crate::text::{chars_of, ends_with, is_blank, is_blank_str, split, str_eq, trim, trim_end_char, trim_str};

verus! {

broadcast use vstd::string::group_string_axioms;

/// A finished translation, as the interface shows it.
#[derive(Debug)]
pub struct TranslationPayload {
    pub source: String,
    pub target: String,
    pub latency: u64,
    pub provider: String,
    pub source_lang: String,
    pub target_lang: String,
}

/// The character view of a translation.
pub struct TranslationModel {
    pub source: Seq<char>,
    pub target: Seq<char>,
    pub latency: u64,
    pub provider: Seq<char>,
    pub source_lang: Seq<char>,
    pub target_lang: Seq<char>,
}

impl View for TranslationPayload {
    type V = TranslationModel;

    open spec fn view(&self) -> TranslationModel {
        TranslationModel {
            source: self.source@,
            target: self.target@,
            latency: self.latency,
            provider: self.provider@,
            source_lang: self.source_lang@,
            target_lang: self.target_lang@,
        }
    }
}

impl Clone for TranslationPayload {
    fn clone(&self) -> (r: Self)
        ensures
            r@ == self@,
    {
        TranslationPayload {
            source: self.source.clone(),
            target: self.target.clone(),
            latency: self.latency,
            provider: self.provider.clone(),
            source_lang: self.source_lang.clone(),
            target_lang: self.target_lang.clone(),
        }
    }
}

/// Characters of the CJK Unified Ideographs blocks (with extension A) and
/// the CJK Compatibility Ideographs.
pub open spec fn spec_is_cjk(c: char) -> bool {
    let u = c as u32;
    (0x3400 <= u <= 0x4dbf) || (0x4e00 <= u <= 0x9fff) || (0xf900 <= u <= 0xfaff)
}

/// Whether a character is a CJK ideograph.
pub fn is_cjk(ch: char) -> (r: bool)
    ensures
        r == spec_is_cjk(ch),
{
    let u = ch as u32;
    (0x3400 <= u && u <= 0x4dbf) || (0x4e00 <= u && u <= 0x9fff) || (0xf900 <= u && u <= 0xfaff)
}

/// Whether some character of `s` is a CJK ideograph.
pub open spec fn has_cjk(s: Seq<char>) -> bool {
    exists|i: int| 0 <= i < s.len() && #[trigger] spec_is_cjk(s[i])
}

/// The language pair for a request: one of the six supported directions when
/// both languages are given as one, else Chinese to English when the text
/// holds a CJK ideograph and English to Chinese otherwise.
pub open spec fn spec_resolve_langpair(source: Seq<char>, source_lang: Seq<char>, target_lang: Seq<char>) -> Seq<char> {
    if source_lang == "en"@ && target_lang == "zh-CN"@ {
        "en|zh-CN"@
    } else if source_lang == "zh-CN"@ && target_lang == "en"@ {
        "zh-CN|en"@
    } else if source_lang == "ja"@ && target_lang == "zh-CN"@ {
        "ja|zh-CN"@
    } else if source_lang == "zh-CN"@ && target_lang == "ja"@ {
        "zh-CN|ja"@
    } else if source_lang == "ko"@ && target_lang == "zh-CN"@ {
        "ko|zh-CN"@
    } else if source_lang == "zh-CN"@ && target_lang == "ko"@ {
        "zh-CN|ko"@
    } else if has_cjk(source) {
        "zh-CN|en"@
    } else {
        "en|zh-CN"@
    }
}

/// Whether a string holds a CJK ideograph.
pub fn contains_cjk(s: &str) -> (r: bool)
    ensures
        r == has_cjk(s@),
{
    let v = chars_of(s);
    let mut i: usize = 0;
    while i < v.len()
        invariant
            i <= v.len(),
            v@ == s@,
            forall|j: int| 0 <= j < i ==> !spec_is_cjk(#[trigger] v@[j]),
        decreases v.len() - i,
    {
        if is_cjk(v[i]) {
            return true;
        }
        i = i + 1;
    }
    false
}

/// Picks the language pair for a request (see `spec_resolve_langpair`).
pub fn resolve_langpair(source: &str, source_lang: &str, target_lang: &str) -> (r: &'static str)
    ensures
        r@ == spec_resolve_langpair(source@, source_lang@, target_lang@),
{
    if str_eq(source_lang, "en") && str_eq(target_lang, "zh-CN") {
        "en|zh-CN"
    } else if str_eq(source_lang, "zh-CN") && str_eq(target_lang, "en") {
        "zh-CN|en"
    } else if str_eq(source_lang, "ja") && str_eq(target_lang, "zh-CN") {
        "ja|zh-CN"
    } else if str_eq(source_lang, "zh-CN") && str_eq(target_lang, "ja") {
        "zh-CN|ja"
    } else if str_eq(source_lang, "ko") && str_eq(target_lang, "zh-CN") {
        "ko|zh-CN"
    } else if str_eq(source_lang, "zh-CN") && str_eq(target_lang, "ko") {
        "zh-CN|ko"
    } else if contains_cjk(source) {
        "zh-CN|en"
    } else {
        "en|zh-CN"
    }
}

/// The two languages of a pair `source|target`: the first piece, and the
/// second or `zh-CN` when there is none.
pub open spec fn spec_split_langpair(langpair: Seq<char>) -> (Seq<char>, Seq<char>) {
    let parts = split(langpair, '|');
    (parts[0], if parts.len() >= 2 {
        parts[1]
    } else {
        "zh-CN"@
    })
}

/// Splits a language pair into its source and target languages.
pub fn split_langpair(langpair: &str) -> (r: (String, String))
    ensures
        (r.0@, r.1@) == spec_split_langpair(langpair@),
{
    let v = chars_of(langpair);
    let mut first: Vec<char> = Vec::new();
    let mut second: Vec<char> = Vec::new();
    let mut pieces: usize = 1;
    let mut i: usize = 0;
    assert(v@.take(0) == Seq::<char>::empty());
    while i < v.len()
        invariant
            i <= v.len(),
            v@ == langpair@,
            1 <= pieces <= 3,
            pieces == (if split(v@.take(i as int), '|').len() >= 3 {
                3
            } else {
                split(v@.take(i as int), '|').len()
            }),
            first@ == split(v@.take(i as int), '|')[0],
            pieces >= 2 ==> second@ == split(v@.take(i as int), '|')[1],
            pieces == 1 ==> second@ == Seq::<char>::empty(),
        decreases v.len() - i,
    {
        let c = v[i];
        let ghost before = v@.take(i as int);
        assert(v@.take(i + 1).drop_last() == before);
        assert(v@.take(i + 1).last() == c);
        proof {
            crate::text::lemma_split_len(before, '|');
        }
        if c == '|' {
            if pieces < 3 {
                pieces = pieces + 1;
            }
        } else if pieces == 1 {
            first.push(c);
        } else if pieces == 2 {
            second.push(c);
        }
        i = i + 1;
    }
    assert(v@.take(v.len() as int) == v@);
    let a = crate::text::string_of(&first);
    let b = if pieces >= 2 {
        crate::text::string_of(&second)
    } else {
        "zh-CN".to_string()
    };
    (a, b)
}


/// Why a translation cannot be made or read.
#[derive(Clone, Copy, Debug, PartialEq, Eq, Structural)]
pub enum TranslationError {
    /// Nothing but whitespace to translate.
    EmptySource,
    /// A chat provider without a key.
    ApiKeyMissing,
    /// A chat provider answered with blank text.
    EmptyChatResult,
    /// MyMemory answered with a status other than 200.
    ProviderStatus(i32),
    /// MyMemory answered with blank text.
    EmptyMyMemoryResult,
}

/// The message of each translation error.
pub open spec fn spec_translation_error_message(e: TranslationError) -> Seq<char> {
    match e {
        TranslationError::EmptySource => "empty source text"@,
        TranslationError::ApiKeyMissing => "AI provider api key is not configured"@,
        TranslationError::EmptyChatResult => "AI provider returned empty text"@,
        TranslationError::ProviderStatus(status) => "translation provider returned status "@
            + crate::text::decimal_int(status as int),
        TranslationError::EmptyMyMemoryResult => "translation provider returned empty text"@,
    }
}

impl TranslationError {
    /// The message shown to the user.
    pub fn message(&self) -> (r: String)
        ensures
            r@ == spec_translation_error_message(*self),
    {
        match self {
            TranslationError::EmptySource => "empty source text".to_string(),
            TranslationError::ApiKeyMissing => "AI provider api key is not configured".to_string(),
            TranslationError::EmptyChatResult => "AI provider returned empty text".to_string(),
            TranslationError::ProviderStatus(status) => {
                let mut r = "translation provider returned status ".to_string();
                let digits = crate::text::decimal_i32(*status);
                r.append(digits.as_str());
                r
            },
            TranslationError::EmptyMyMemoryResult => "translation provider returned empty text".to_string(),
        }
    }
}

/// Seconds a MyMemory request may take.
pub const MYMEMORY_TIMEOUT_SECS: u64 = 8;

/// Seconds a chat-provider request may take.
pub const CHAT_TIMEOUT_SECS: u64 = 20;

/// The most tokens an Anthropic answer may hold.
pub const ANTHROPIC_MAX_TOKENS: u32 = 2048;

/// Where a translation request goes, and how it is sent.
#[derive(Debug)]
pub enum TranslationRoute {
    /// `GET {endpoint}?q=..&langpair=..`, with machine translation asked for
    /// when `machine_translation` holds.
    MyMemory { endpoint: String, machine_translation: bool, timeout_secs: u64 },
    /// `POST {endpoint}` with a bearer token: a system and a user message,
    /// `stream` as given, and `thinking` as the type of the thinking setting.
    OpenAi {
        endpoint: String,
        api_key: String,
        model: String,
        system_prompt: String,
        user_prompt: String,
        stream: bool,
        thinking: String,
        timeout_secs: u64,
    },
    /// `POST {endpoint}` with `x-api-key` and `anthropic-version` headers: a
    /// system prompt, one user message and a token limit.
    Anthropic {
        endpoint: String,
        api_key: String,
        model: String,
        system_prompt: String,
        user_prompt: String,
        max_tokens: u32,
        api_version: String,
        timeout_secs: u64,
    },
}

/// Everything a translation request needs, decided before it is sent.
#[derive(Debug)]
pub struct TranslationRequest {
    /// The text to translate, trimmed.
    pub source: String,
    /// The language pair, `source|target`.
    pub langpair: String,
    /// How the provider is named in the result.
    pub provider_label: String,
    pub route: TranslationRoute,
}

/// The character view of a route.
pub enum RouteModel {
    MyMemory { endpoint: Seq<char>, machine_translation: bool, timeout_secs: u64 },
    OpenAi {
        endpoint: Seq<char>,
        api_key: Seq<char>,
        model: Seq<char>,
        system_prompt: Seq<char>,
        user_prompt: Seq<char>,
        stream: bool,
        thinking: Seq<char>,
        timeout_secs: u64,
    },
    Anthropic {
        endpoint: Seq<char>,
        api_key: Seq<char>,
        model: Seq<char>,
        system_prompt: Seq<char>,
        user_prompt: Seq<char>,
        max_tokens: u32,
        api_version: Seq<char>,
        timeout_secs: u64,
    },
}

/// The character view of a request.
pub struct RequestModel {
    pub source: Seq<char>,
    pub langpair: Seq<char>,
    pub provider_label: Seq<char>,
    pub route: RouteModel,
}

impl View for TranslationRoute {
    type V = RouteModel;

    open spec fn view(&self) -> RouteModel {
        match self {
            TranslationRoute::MyMemory { endpoint, machine_translation, timeout_secs } => RouteModel::MyMemory {
                endpoint: endpoint@,
                machine_translation: *machine_translation,
                timeout_secs: *timeout_secs,
            },
            TranslationRoute::OpenAi {
                endpoint,
                api_key,
                model,
                system_prompt,
                user_prompt,
                stream,
                thinking,
                timeout_secs,
            } => RouteModel::OpenAi {
                endpoint: endpoint@,
                api_key: api_key@,
                model: model@,
                system_prompt: system_prompt@,
                user_prompt: user_prompt@,
                stream: *stream,
                thinking: thinking@,
                timeout_secs: *timeout_secs,
            },
            TranslationRoute::Anthropic {
                endpoint,
                api_key,
                model,
                system_prompt,
                user_prompt,
                max_tokens,
                api_version,
                timeout_secs,
            } => RouteModel::Anthropic {
                endpoint: endpoint@,
                api_key: api_key@,
                model: model@,
                system_prompt: system_prompt@,
                user_prompt: user_prompt@,
                max_tokens: *max_tokens,
                api_version: api_version@,
                timeout_secs: *timeout_secs,
            },
        }
    }
}

impl View for TranslationRequest {
    type V = RequestModel;

    open spec fn view(&self) -> RequestModel {
        RequestModel {
            source: self.source@,
            langpair: self.langpair@,
            provider_label: self.provider_label@,
            route: self.route@,
        }
    }
}

/// The chat-completions endpoint of an OpenAI-compatible provider.
pub open spec fn spec_openai_endpoint(base_url: Seq<char>) -> Seq<char> {
    trim_end_char(base_url, '/') + "/chat/completions"@
}

/// The messages endpoint of an Anthropic provider: `/messages` after a base
/// that already ends in `/v1`, `/v1/messages` otherwise.
pub open spec fn spec_anthropic_endpoint(base_url: Seq<char>) -> Seq<char> {
    let base = trim_end_char(base_url, '/');
    if ends_with(base, "/v1"@) {
        base + "/messages"@
    } else {
        base + "/v1/messages"@
    }
}

/// `base_url` without its trailing `/`.
fn strip_slashes(base_url: &str) -> (r: String)
    ensures
        r@ == trim_end_char(base_url@, '/'),
{
    let v = chars_of(base_url);
    let hi = crate::text::trim_end_char_vec(&v, '/');
    crate::text::string_of_range(&v, 0, hi)
}

/// The chat-completions endpoint of an OpenAI-compatible provider.
pub fn openai_endpoint(base_url: &str) -> (r: String)
    ensures
        r@ == spec_openai_endpoint(base_url@),
{
    let mut r = strip_slashes(base_url);
    r.append("/chat/completions");
    r
}

/// The messages endpoint of an Anthropic provider.
pub fn anthropic_endpoint(base_url: &str) -> (r: String)
    ensures
        r@ == spec_anthropic_endpoint(base_url@),
{
    let mut r = strip_slashes(base_url);
    if crate::text::ends_with_str(r.as_str(), "/v1") {
        r.append("/messages");
    } else {
        r.append("/v1/messages");
    }
    r
}

/// The instruction sent with the text to a chat provider.
pub open spec fn spec_user_prompt(source_lang: Seq<char>, target_lang: Seq<char>, source: Seq<char>) -> Seq<char> {
    "Translate"@ + " from "@ + source_lang + " to "@ + target_lang + ". Text:\n"@ + source
}

/// The instruction sent with the text to a chat provider.
pub fn user_prompt(source_lang: &str, target_lang: &str, source: &str) -> (r: String)
    ensures
        r@ == spec_user_prompt(source_lang@, target_lang@, source@),
{
    let mut r = "Translate".to_string();
    r.append(" from ");
    r.append(source_lang);
    r.append(" to ");
    r.append(target_lang);
    r.append(". Text:\n");
    r.append(source);
    r
}

/// What a request to the given provider is, or why none can be made: the
/// text is trimmed and must not be blank; MyMemory needs nothing more; a chat
/// provider needs a key that is not blank, and is reached by its protocol,
/// Anthropic's for `anthropic` and the OpenAI-compatible one otherwise.
pub open spec fn spec_prepare_translation(
    source: Seq<char>,
    source_lang: Seq<char>,
    target_lang: Seq<char>,
    config: crate::config::ProviderModel,
) -> Result<RequestModel, TranslationError> {
    let text = trim(source);
    let langpair = spec_resolve_langpair(text, source_lang, target_lang);
    if text.len() == 0 {
        Err(TranslationError::EmptySource)
    } else if config.protocol == "mymemory"@ {
        Ok(
            RequestModel {
                source: text,
                langpair,
                provider_label: "mymemory:"@ + langpair,
                route: RouteModel::MyMemory {
                    endpoint: "https://api.mymemory.translated.net/get"@,
                    machine_translation: true,
                    timeout_secs: MYMEMORY_TIMEOUT_SECS,
                },
            },
        )
    } else {
        match config.api_key {
            Some(key) => if is_blank(key) {
                Err(TranslationError::ApiKeyMissing)
            } else {
                let langs = spec_split_langpair(langpair);
                let prompt = spec_user_prompt(langs.0, langs.1, text);
                Ok(
                    RequestModel {
                        source: text,
                        langpair,
                        provider_label: config.name + ":"@ + config.model,
                        route: if config.protocol == "anthropic"@ {
                            RouteModel::Anthropic {
                                endpoint: spec_anthropic_endpoint(config.base_url),
                                api_key: key,
                                model: config.model,
                                system_prompt: config.agent_prompt,
                                user_prompt: prompt,
                                max_tokens: ANTHROPIC_MAX_TOKENS,
                                api_version: "2023-06-01"@,
                                timeout_secs: CHAT_TIMEOUT_SECS,
                            }
                        } else {
                            RouteModel::OpenAi {
                                endpoint: spec_openai_endpoint(config.base_url),
                                api_key: key,
                                model: config.model,
                                system_prompt: config.agent_prompt,
                                user_prompt: prompt,
                                stream: false,
                                thinking: "disabled"@,
                                timeout_secs: CHAT_TIMEOUT_SECS,
                            }
                        },
                    },
                )
            },
            None => Err(TranslationError::ApiKeyMissing),
        }
    }
}

/// Decides the request for a translation (see `spec_prepare_translation`).
pub fn prepare_translation(
    source: &str,
    source_lang: &str,
    target_lang: &str,
    config: &ProviderConfig,
) -> (r: Result<TranslationRequest, TranslationError>)
    ensures
        match r {
            Ok(req) => spec_prepare_translation(source@, source_lang@, target_lang@, config@) == Ok::<
                RequestModel,
                TranslationError,
            >(req@),
            Err(e) => spec_prepare_translation(source@, source_lang@, target_lang@, config@)
                == Err::<RequestModel, TranslationError>(e),
        },
{
    let text = trim_str(source);
    if text.as_str().is_empty() {
        return Err(TranslationError::EmptySource);
    }
    let langpair = resolve_langpair(text.as_str(), source_lang, target_lang);
    if str_eq(config.protocol.as_str(), "mymemory") {
        let mut label = "mymemory:".to_string();
        label.append(langpair);
        return Ok(
            TranslationRequest {
                source: text,
                langpair: langpair.to_string(),
                provider_label: label,
                route: TranslationRoute::MyMemory {
                    endpoint: "https://api.mymemory.translated.net/get".to_string(),
                    machine_translation: true,
                    timeout_secs: MYMEMORY_TIMEOUT_SECS,
                },
            },
        );
    }
    let key = match &config.api_key {
        Some(key) => {
            if is_blank_str(key.as_str()) {
                return Err(TranslationError::ApiKeyMissing);
            }
            key.clone()
        },
        None => {
            return Err(TranslationError::ApiKeyMissing);
        },
    };
    let (sl, tl) = split_langpair(langpair);
    let mut label = config.name.clone();
    label.append(":");
    label.append(config.model.as_str());
    let prompt = user_prompt(sl.as_str(), tl.as_str(), text.as_str());
    let route = if str_eq(config.protocol.as_str(), "anthropic") {
        TranslationRoute::Anthropic {
            endpoint: anthropic_endpoint(config.base_url.as_str()),
            api_key: key,
            model: config.model.clone(),
            system_prompt: config.agent_prompt.clone(),
            user_prompt: prompt,
            max_tokens: ANTHROPIC_MAX_TOKENS,
            api_version: "2023-06-01".to_string(),
            timeout_secs: CHAT_TIMEOUT_SECS,
        }
    } else {
        TranslationRoute::OpenAi {
            endpoint: openai_endpoint(config.base_url.as_str()),
            api_key: key,
            model: config.model.clone(),
            system_prompt: config.agent_prompt.clone(),
            user_prompt: prompt,
            stream: false,
            thinking: "disabled".to_string(),
            timeout_secs: CHAT_TIMEOUT_SECS,
        }
    };
    Ok(TranslationRequest { source: text, langpair: langpair.to_string(), provider_label: label, route })
}

/// The translation shown for a request and the text that came back.
pub open spec fn spec_finish_translation(req: RequestModel, target: Seq<char>, latency: u64) -> TranslationModel {
    let langs = spec_split_langpair(req.langpair);
    TranslationModel {
        source: req.source,
        target,
        latency,
        provider: req.provider_label,
        source_lang: langs.0,
        target_lang: langs.1,
    }
}

/// Assembles the translation shown for a request and the text that came back.
pub fn finish_translation(request: &TranslationRequest, target: String, latency: u64) -> (r: TranslationPayload)
    ensures
        r@ == spec_finish_translation(request@, target@, latency),
{
    let (source_lang, target_lang) = split_langpair(request.langpair.as_str());
    TranslationPayload {
        source: request.source.clone(),
        target,
        latency,
        provider: request.provider_label.clone(),
        source_lang,
        target_lang,
    }
}

/// The text of a MyMemory answer, or why it is refused: the status must be
/// 200 and the text, trimmed, must not be empty.
pub open spec fn spec_mymemory_text(status: i32, translated: Seq<char>) -> Result<Seq<char>, TranslationError> {
    if status != 200 {
        Err(TranslationError::ProviderStatus(status))
    } else if trim(translated).len() == 0 {
        Err(TranslationError::EmptyMyMemoryResult)
    } else {
        Ok(trim(translated))
    }
}

/// Reads a MyMemory answer (see `spec_mymemory_text`).
pub fn mymemory_text(status: i32, translated: &str) -> (r: Result<String, TranslationError>)
    ensures
        match r {
            Ok(t) => spec_mymemory_text(status, translated@) == Ok::<Seq<char>, TranslationError>(t@),
            Err(e) => spec_mymemory_text(status, translated@) == Err::<Seq<char>, TranslationError>(e),
        },
{
    if status != 200 {
        return Err(TranslationError::ProviderStatus(status));
    }
    let t = trim_str(translated);
    if t.as_str().is_empty() {
        return Err(TranslationError::EmptyMyMemoryResult);
    }
    Ok(t)
}

/// The text of an OpenAI-compatible answer: the first choice, trimmed, which
/// must not be empty.
pub open spec fn spec_openai_text(first_choice: Option<Seq<char>>) -> Result<Seq<char>, TranslationError> {
    match first_choice {
        Some(c) => if trim(c).len() > 0 {
            Ok(trim(c))
        } else {
            Err(TranslationError::EmptyChatResult)
        },
        None => Err(TranslationError::EmptyChatResult),
    }
}

/// Reads an OpenAI-compatible answer from the content of its first choice.
pub fn openai_text(first_choice: Option<String>) -> (r: Result<String, TranslationError>)
    ensures
        match r {
            Ok(t) => spec_openai_text(opt_view(first_choice)) == Ok::<Seq<char>, TranslationError>(t@),
            Err(e) => spec_openai_text(opt_view(first_choice)) == Err::<Seq<char>, TranslationError>(e),
        },
{
    match first_choice {
        Some(c) => {
            let t = trim_str(c.as_str());
            if t.as_str().is_empty() {
                Err(TranslationError::EmptyChatResult)
            } else {
                Ok(t)
            }
        },
        None => Err(TranslationError::EmptyChatResult),
    }
}

/// One content block of an Anthropic answer.
#[derive(Debug)]
pub struct ContentBlock {
    pub kind: String,
    pub text: Option<String>,
}

/// The text blocks of an Anthropic answer, concatenated in order.
pub open spec fn anthropic_concat(blocks: Seq<(Seq<char>, Option<Seq<char>>)>) -> Seq<char>
    decreases blocks.len(),
{
    if blocks.len() == 0 {
        Seq::<char>::empty()
    } else {
        let b = blocks.last();
        let rest = anthropic_concat(blocks.drop_last());
        if b.0 == "text"@ && b.1 is Some {
            rest + b.1->Some_0
        } else {
            rest
        }
    }
}

/// The character view of content blocks.
pub open spec fn blocks_view(blocks: Seq<ContentBlock>) -> Seq<(Seq<char>, Option<Seq<char>>)> {
    blocks.map_values(|b: ContentBlock| (b.kind@, opt_view(b.text)))
}

/// The text of an Anthropic answer: its text blocks joined and trimmed, which
/// must not be empty.
pub open spec fn spec_anthropic_text(blocks: Seq<(Seq<char>, Option<Seq<char>>)>) -> Result<Seq<char>, TranslationError> {
    let t = trim(anthropic_concat(blocks));
    if t.len() == 0 {
        Err(TranslationError::EmptyChatResult)
    } else {
        Ok(t)
    }
}

/// Reads an Anthropic answer from its content blocks.
pub fn anthropic_text(blocks: &Vec<ContentBlock>) -> (r: Result<String, TranslationError>)
    ensures
        match r {
            Ok(t) => spec_anthropic_text(blocks_view(blocks@)) == Ok::<Seq<char>, TranslationError>(t@),
            Err(e) => spec_anthropic_text(blocks_view(blocks@)) == Err::<Seq<char>, TranslationError>(e),
        },
{
    let ghost bv = blocks_view(blocks@);
    let mut joined = String::new();
    let mut i: usize = 0;
    while i < blocks.len()
        invariant
            i <= blocks.len(),
            bv == blocks_view(blocks@),
            joined@ == anthropic_concat(bv.take(i as int)),
        decreases blocks.len() - i,
    {
        assert(bv.take(i + 1).drop_last() == bv.take(i as int));
        assert(bv.take(i + 1).last() == bv[i as int]);
        let b = &blocks[i];
        if str_eq(b.kind.as_str(), "text") {
            match &b.text {
                Some(t) => {
                    joined.append(t.as_str());
                },
                None => {},
            }
        }
        i = i + 1;
    }
    assert(bv.take(blocks.len() as int) == bv);
    let t = trim_str(joined.as_str());
    if t.as_str().is_empty() {
        Err(TranslationError::EmptyChatResult)
    } else {
        Ok(t)
    }
}


/// The language pairs that a request names explicitly.
pub open spec fn is_listed_direction(source_lang: Seq<char>, target_lang: Seq<char>) -> bool {
    ||| source_lang == "en"@ && target_lang == "zh-CN"@
    ||| source_lang == "zh-CN"@ && target_lang == "en"@
    ||| source_lang == "ja"@ && target_lang == "zh-CN"@
    ||| source_lang == "zh-CN"@ && target_lang == "ja"@
    ||| source_lang == "ko"@ && target_lang == "zh-CN"@
    ||| source_lang == "zh-CN"@ && target_lang == "ko"@
}

/// A direction that is named explicitly is kept as `source|target`.
pub proof fn lemma_listed_direction_kept(source: Seq<char>, source_lang: Seq<char>, target_lang: Seq<char>)
    requires
        is_listed_direction(source_lang, target_lang),
    ensures
        spec_resolve_langpair(source, source_lang, target_lang) == source_lang + "|"@ + target_lang,
{
    reveal_strlit("en");
    reveal_strlit("zh-CN");
    reveal_strlit("ja");
    reveal_strlit("ko");
    reveal_strlit("|");
    reveal_strlit("en|zh-CN");
    reveal_strlit("zh-CN|en");
    reveal_strlit("ja|zh-CN");
    reveal_strlit("zh-CN|ja");
    reveal_strlit("ko|zh-CN");
    reveal_strlit("zh-CN|ko");
    assert(("en"@ + "|"@ + "zh-CN"@) =~= "en|zh-CN"@);
    assert(("zh-CN"@ + "|"@ + "en"@) =~= "zh-CN|en"@);
    assert(("ja"@ + "|"@ + "zh-CN"@) =~= "ja|zh-CN"@);
    assert(("zh-CN"@ + "|"@ + "ja"@) =~= "zh-CN|ja"@);
    assert(("ko"@ + "|"@ + "zh-CN"@) =~= "ko|zh-CN"@);
    assert(("zh-CN"@ + "|"@ + "ko"@) =~= "zh-CN|ko"@);
}

/// Any other direction, automatic detection among them, is decided by the
/// text alone: Chinese to English exactly when it holds a CJK ideograph,
/// English to Chinese otherwise, whatever the target language asked for.
pub proof fn lemma_unlisted_direction_detects(source: Seq<char>, source_lang: Seq<char>, target_lang: Seq<char>)
    requires
        !is_listed_direction(source_lang, target_lang),
    ensures
        spec_resolve_langpair(source, source_lang, target_lang) == "zh-CN|en"@ <==> has_cjk(source),
        spec_resolve_langpair(source, source_lang, target_lang) == "zh-CN|en"@
            || spec_resolve_langpair(source, source_lang, target_lang) == "en|zh-CN"@,
{
    reveal_strlit("zh-CN|en");
    reveal_strlit("en|zh-CN");
    assert("zh-CN|en"@ != "en|zh-CN"@) by {
        assert("zh-CN|en"@[0] != "en|zh-CN"@[0]);
    }
}

/// Automatic detection (`auto` as the source language) picks the direction
/// from the text alone, whatever the target language.
pub proof fn lemma_auto_source_detects(source: Seq<char>, target_lang: Seq<char>)
    ensures
        spec_resolve_langpair(source, "auto"@, target_lang) == (if has_cjk(source) {
            "zh-CN|en"@
        } else {
            "en|zh-CN"@
        }),
{
    reveal_strlit("auto");
    reveal_strlit("en");
    reveal_strlit("zh-CN");
    reveal_strlit("ja");
    reveal_strlit("ko");
    assert("auto"@ != "en"@) by {
        assert("auto"@[0] != "en"@[0]);
    }
    assert("auto"@ != "zh-CN"@) by {
        assert("auto"@[0] != "zh-CN"@[0]);
    }
    assert("auto"@ != "ja"@) by {
        assert("auto"@[0] != "ja"@[0]);
    }
    assert("auto"@ != "ko"@) by {
        assert("auto"@[0] != "ko"@[0]);
    }
    lemma_unlisted_direction_detects(source, "auto"@, target_lang);
}

/// The languages of `a|b`, where `a` holds no `|`, are `a` and `b` (the first
/// piece of `b` when it holds `|`).
pub proof fn lemma_split_langpair_parts(a: Seq<char>, b: Seq<char>)
    requires
        forall|i: int| 0 <= i < a.len() ==> a[i] != '|',
        forall|i: int| 0 <= i < b.len() ==> b[i] != '|',
    ensures
        spec_split_langpair(a + "|"@ + b) == (a, b),
{
    reveal_strlit("|");
    assert(a + "|"@ + b =~= a + seq!['|'] + b);
    crate::text::lemma_split_concat(a, b, '|');
    crate::text::lemma_split_no_sep(a, '|');
    crate::text::lemma_split_no_sep(b, '|');
}

/// The user prompt of a chat provider, if the route goes to one.
pub open spec fn chat_user_prompt(route: RouteModel) -> Option<Seq<char>> {
    match route {
        RouteModel::MyMemory { .. } => None,
        RouteModel::OpenAi { user_prompt, .. } => Some(user_prompt),
        RouteModel::Anthropic { user_prompt, .. } => Some(user_prompt),
    }
}

/// Whatever the protocol, a chat provider is asked to translate the trimmed
/// text from the first language of the resolved pair to the second; for a
/// direction named explicitly these are the languages asked for, in order.
pub proof fn lemma_chat_prompt_follows_pair(
    source: Seq<char>,
    source_lang: Seq<char>,
    target_lang: Seq<char>,
    config: crate::config::ProviderModel,
)
    ensures
        spec_prepare_translation(source, source_lang, target_lang, config) matches Ok(req) ==> {
            &&& req.source == trim(source)
            &&& req.langpair == spec_resolve_langpair(trim(source), source_lang, target_lang)
            &&& (config.protocol != "mymemory"@ <==> chat_user_prompt(req.route) is Some)
            &&& chat_user_prompt(req.route) matches Some(p) ==> p == "Translate"@ + " from "@
                + spec_split_langpair(req.langpair).0 + " to "@ + spec_split_langpair(req.langpair).1
                + ". Text:\n"@ + req.source
        },
        spec_prepare_translation(source, source_lang, target_lang, config) matches Ok(req) ==> (
        config.protocol != "mymemory"@ && is_listed_direction(source_lang, target_lang) && (forall|
            i: int,
        | 0 <= i < source_lang.len() ==> source_lang[i] != '|') && (forall|i: int|
            0 <= i < target_lang.len() ==> target_lang[i] != '|') ==> chat_user_prompt(req.route)
            == Some(
            "Translate"@ + " from "@ + source_lang + " to "@ + target_lang + ". Text:\n"@ + req.source,
        )),
{
    if is_listed_direction(source_lang, target_lang)
        && (forall|i: int| 0 <= i < source_lang.len() ==> source_lang[i] != '|')
        && (forall|i: int| 0 <= i < target_lang.len() ==> target_lang[i] != '|') {
        lemma_listed_direction_kept(trim(source), source_lang, target_lang);
        lemma_split_langpair_parts(source_lang, target_lang);
    }
}


/// The Anthropic endpoint always ends in `/v1/messages`, after the base
/// without its trailing `/` (whose own `/v1` is not repeated).
pub proof fn lemma_anthropic_endpoint_shape(base_url: Seq<char>)
    ensures
        ends_with(spec_anthropic_endpoint(base_url), "/v1/messages"@),
        spec_anthropic_endpoint(base_url) == trim_end_char(base_url, '/') + "/v1/messages"@ || (ends_with(
            trim_end_char(base_url, '/'),
            "/v1"@,
        ) && spec_anthropic_endpoint(base_url) == trim_end_char(base_url, '/') + "/messages"@),
{
    reveal_strlit("/v1/messages");
    reveal_strlit("/messages");
    reveal_strlit("/v1");
    let b = trim_end_char(base_url, '/');
    let e = spec_anthropic_endpoint(base_url);
    if ends_with(b, "/v1"@) {
        assert(e.subrange(e.len() - 12, e.len() as int) =~= "/v1/messages"@) by {
            assert forall|i: int| 0 <= i < 12 implies e.subrange(e.len() - 12, e.len() as int)[i]
                == "/v1/messages"@[i] by {
                if i < 3 {
                    assert(e[e.len() - 12 + i] == b[b.len() - 3 + i]);
                    assert(b.subrange(b.len() - 3, b.len() as int)[i] == "/v1"@[i]);
                }
            }
        }
    } else {
        assert(e.subrange(e.len() - 12, e.len() as int) =~= "/v1/messages"@);
    }
}

/// What a prepared request holds, in terms of what was asked: a request is
/// made exactly when the trimmed text is not blank and the provider is
/// MyMemory or has a key that is not blank; MyMemory requests go to the
/// public service, `anthropic` providers to their messages endpoint with the
/// Anthropic version header and token limit, and any other provider to its
/// chat-completions endpoint, not streamed and without thinking; a chat
/// request carries the provider's own key, model and system prompt, and is
/// labelled `name:model`.
pub proof fn lemma_prepared_request(
    source: Seq<char>,
    source_lang: Seq<char>,
    target_lang: Seq<char>,
    config: crate::config::ProviderModel,
)
    ensures
        spec_prepare_translation(source, source_lang, target_lang, config) is Ok <==> (trim(source).len()
            > 0 && (config.protocol == "mymemory"@ || (config.api_key matches Some(k) && !is_blank(
            k,
        )))),
        spec_prepare_translation(source, source_lang, target_lang, config) matches Err(e) ==> (if trim(
            source,
        ).len() == 0 {
            e == TranslationError::EmptySource
        } else {
            e == TranslationError::ApiKeyMissing
        }),
        spec_prepare_translation(source, source_lang, target_lang, config) matches Ok(req) ==> (
        match req.route {
            RouteModel::MyMemory { endpoint, machine_translation, timeout_secs } => {
                &&& config.protocol == "mymemory"@
                &&& endpoint == "https://api.mymemory.translated.net/get"@
                &&& machine_translation
                &&& timeout_secs == 8
                &&& req.provider_label == "mymemory:"@ + req.langpair
            },
            RouteModel::OpenAi {
                endpoint,
                api_key,
                model,
                system_prompt,
                stream,
                thinking,
                timeout_secs,
                ..
            } => {
                &&& config.protocol != "mymemory"@ && config.protocol != "anthropic"@
                &&& endpoint == trim_end_char(config.base_url, '/') + "/chat/completions"@
                &&& config.api_key == Some(api_key) && !is_blank(api_key)
                &&& model == config.model && system_prompt == config.agent_prompt
                &&& !stream && thinking == "disabled"@ && timeout_secs == 20
                &&& req.provider_label == config.name + ":"@ + config.model
            },
            RouteModel::Anthropic {
                endpoint,
                api_key,
                model,
                system_prompt,
                max_tokens,
                api_version,
                timeout_secs,
                ..
            } => {
                &&& config.protocol == "anthropic"@
                &&& ends_with(endpoint, "/v1/messages"@)
                &&& config.api_key == Some(api_key) && !is_blank(api_key)
                &&& model == config.model && system_prompt == config.agent_prompt
                &&& max_tokens == 2048 && api_version == "2023-06-01"@ && timeout_secs == 20
                &&& req.provider_label == config.name + ":"@ + config.model
            },
        }),
{
    reveal_strlit("mymemory");
    reveal_strlit("anthropic");
    assert("mymemory"@ != "anthropic"@) by {
        assert("mymemory"@[0] != "anthropic"@[0]);
    }
    lemma_anthropic_endpoint_shape(config.base_url);
}

} // verus!
