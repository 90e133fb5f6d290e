//! Configuration loaded from the user's script, and the prompt built from
//! it.
//!
//! A script may export a `config` object with two optional sections: AI
//! parameters (model, credential, endpoint base, sampling temperature,
//! response-length cap) and shell parameters (prompt template, continuation
//! template, history depth, mode-toggle key). Missing leaves take their
//! documented defaults; a malformed export falls back to the default
//! configuration rather than failing the shell.

use vstd::prelude::*;
use crate::json::{Json, JsonVal};
use crate::agent::obj_lookup;
use crate::text::{bytes_of, byte_vec, copy_bytes, all_digits, dec_val, parse_dec_u64, spec_trim, trim_bytes};
use vstd::string::StrSliceExecFns;
use vstd::string::StringSliceAdditionalSpecFns;

verus! {

/// Whether plain text goes to the model or straight to the shell.
#[derive(Clone, Copy, Debug, PartialEq, Eq, Structural)]
pub enum ShellMode {
    Agent,
    Command,
}

/// The lower-case form of an ASCII byte.
pub open spec fn ascii_lower(b: u8) -> u8 {
    if 0x41 <= b <= 0x5a {
        (b + 0x20) as u8
    } else {
        b
    }
}

/// Whether two byte sequences agree up to ASCII case.
pub open spec fn ascii_eq_nocase(a: Seq<u8>, b: Seq<u8>) -> bool {
    a.len() == b.len() && forall|i: int|
        0 <= i < a.len() ==> ascii_lower(#[trigger] a[i]) == ascii_lower(#[trigger] b[i])
}

/// The mode a spelling names: `command` in any ASCII case is command mode,
/// anything else is agent mode.
pub open spec fn spec_mode_from(s: Seq<u8>) -> ShellMode {
    if ascii_eq_nocase(s, bytes_of("command")) {
        ShellMode::Command
    } else {
        ShellMode::Agent
    }
}

/// The spelling of a mode.
pub open spec fn spec_mode_str(m: ShellMode) -> Seq<u8> {
    match m {
        ShellMode::Agent => bytes_of("agent"),
        ShellMode::Command => bytes_of("command"),
    }
}

impl ShellMode {
    /// The spelling of this mode.
    pub fn as_str(&self) -> (r: &'static str)
        ensures
            r.spec_bytes() == spec_mode_str(*self),
    {
        match self {
            ShellMode::Agent => "agent",
            ShellMode::Command => "command",
        }
    }

    /// Reads a mode from its spelling, in any ASCII case; unknown spellings
    /// mean agent mode.
    pub fn from_str(s: &str) -> (r: ShellMode)
        ensures
            r == spec_mode_from(s.spec_bytes()),
    {
        let b = s.as_bytes_vec();
        let pat = byte_vec("command");
        if b.len() != pat.len() {
            return ShellMode::Agent;
        }
        let mut i: usize = 0;
        while i < b.len()
            invariant
                0 <= i <= b.len(),
                b.len() == pat.len(),
                b@ == s.spec_bytes(),
                pat@ == bytes_of("command"),
                forall|j: int|
                    0 <= j < i ==> ascii_lower(#[trigger] b@[j]) == ascii_lower(
                        #[trigger] pat@[j],
                    ),
            decreases b.len() - i,
        {
            let x = b[i];
            let lx: u8 = if 0x41 <= x && x <= 0x5a {
                x + 0x20
            } else {
                x
            };
            let y = pat[i];
            let ly: u8 = if 0x41 <= y && y <= 0x5a {
                y + 0x20
            } else {
                y
            };
            if lx != ly {
                return ShellMode::Agent;
            }
            i = i + 1;
        }
        ShellMode::Command
    }

    /// The opposite mode.
    pub fn toggled(&self) -> (r: ShellMode)
        ensures
            *self == ShellMode::Agent ==> r == ShellMode::Command,
            *self == ShellMode::Command ==> r == ShellMode::Agent,
    {
        match self {
            ShellMode::Agent => ShellMode::Command,
            ShellMode::Command => ShellMode::Agent,
        }
    }
}

/// Remembers that the mode-toggle key was pressed, until asked.
pub struct ModeToggleHandler {
    pub toggled: bool,
}

impl ModeToggleHandler {
    /// A handler with no pending toggle.
    pub fn new() -> (r: ModeToggleHandler)
        ensures
            r.toggled == false,
    {
        ModeToggleHandler { toggled: false }
    }

    /// Reads and clears the pending toggle.
    pub fn check_toggle(&mut self) -> (r: bool)
        ensures
            r == old(self).toggled,
            final(self).toggled == false,
    {
        let was = self.toggled;
        self.toggled = false;
        was
    }

    /// Records that the toggle key was pressed.
    pub fn set_toggle(&mut self)
        ensures
            final(self).toggled == true,
    {
        self.toggled = true;
    }
}

/// The AI section of a configuration: model identifier, credential,
/// endpoint base, sampling temperature (kept as the literal the script
/// spelled), response-length cap.
pub struct TypeScriptAiConfig {
    pub model: Option<Vec<u8>>,
    pub api_key: Option<Vec<u8>>,
    pub base_url: Option<Vec<u8>>,
    pub temperature: Option<Vec<u8>>,
    pub max_tokens: Option<u32>,
}

/// The shell section of a configuration: prompt template, history depth,
/// continuation template, mode-toggle key.
pub struct TypeScriptShellConfig {
    pub prompt: Option<Vec<u8>>,
    pub history_size: Option<u64>,
    pub multiline_continuation: Option<Vec<u8>>,
    pub mode_toggle_key: Option<Vec<u8>>,
}

/// A whole configuration: both sections optional.
pub struct TypeScriptConfig {
    pub ai: Option<TypeScriptAiConfig>,
    pub shell: Option<TypeScriptShellConfig>,
}

/// The configuration under its everyday name.
pub type Config = TypeScriptConfig;

/// The model of the AI section.
pub struct AiVal {
    pub model: Option<Seq<u8>>,
    pub api_key: Option<Seq<u8>>,
    pub base_url: Option<Seq<u8>>,
    pub temperature: Option<Seq<u8>>,
    pub max_tokens: Option<u32>,
}

/// The model of the shell section.
pub struct ShellVal {
    pub prompt: Option<Seq<u8>>,
    pub history_size: Option<u64>,
    pub multiline_continuation: Option<Seq<u8>>,
    pub mode_toggle_key: Option<Seq<u8>>,
}

/// The model of a whole configuration.
pub struct ConfigVal {
    pub ai: Option<AiVal>,
    pub shell: Option<ShellVal>,
}

/// The view of an optional byte vector.
pub open spec fn opt_bytes(o: Option<Vec<u8>>) -> Option<Seq<u8>> {
    match o {
        Option::Some(v) => Option::Some(v@),
        Option::None => Option::None,
    }
}

/// The model of an executable AI section.
pub open spec fn ai_model(c: TypeScriptAiConfig) -> AiVal {
    AiVal {
        model: opt_bytes(c.model),
        api_key: opt_bytes(c.api_key),
        base_url: opt_bytes(c.base_url),
        temperature: opt_bytes(c.temperature),
        max_tokens: c.max_tokens,
    }
}

/// The model of an executable shell section.
pub open spec fn shell_model(c: TypeScriptShellConfig) -> ShellVal {
    ShellVal {
        prompt: opt_bytes(c.prompt),
        history_size: c.history_size,
        multiline_continuation: opt_bytes(c.multiline_continuation),
        mode_toggle_key: opt_bytes(c.mode_toggle_key),
    }
}

/// The model of an executable configuration.
pub open spec fn config_model(c: TypeScriptConfig) -> ConfigVal {
    ConfigVal {
        ai: match c.ai {
            Option::Some(a) => Option::Some(ai_model(a)),
            Option::None => Option::None,
        },
        shell: match c.shell {
            Option::Some(s) => Option::Some(shell_model(s)),
            Option::None => Option::None,
        },
    }
}

/// The documented default for every AI leaf, in one place: model
/// `gpt-3.5-turbo`, the public endpoint base, temperature `0.7`, a
/// 1000-token response cap — and no credential, which stays absent until
/// the script sets one.
pub open spec fn default_ai() -> AiVal {
    AiVal {
        model: Option::Some(bytes_of("gpt-3.5-turbo")),
        api_key: Option::None,
        base_url: Option::Some(bytes_of("https://api.openai.com/v1")),
        temperature: Option::Some(bytes_of("0.7")),
        max_tokens: Option::Some(1000u32),
    }
}

/// The documented default for every shell leaf, in one place: prompt
/// `aish> `, a history depth of 1000, continuation `... `, toggle key
/// `esc-x`.
pub open spec fn default_shell() -> ShellVal {
    ShellVal {
        prompt: Option::Some(bytes_of("aish> ")),
        history_size: Option::Some(1000u64),
        multiline_continuation: Option::Some(bytes_of("... ")),
        mode_toggle_key: Option::Some(bytes_of("esc-x")),
    }
}

/// A configuration with every unspecified leaf filled from the documented
/// defaults: a missing section becomes the whole default section, and a
/// present section keeps what it set while each unset leaf takes its one
/// default. The credential is the one leaf whose default is to stay
/// absent.
pub open spec fn spec_with_defaults(c: ConfigVal) -> ConfigVal {
    ConfigVal {
        ai: Option::Some(
            match c.ai {
                Option::None => default_ai(),
                Option::Some(a) => AiVal {
                    model: if a.model is Some {
                        a.model
                    } else {
                        default_ai().model
                    },
                    api_key: a.api_key,
                    base_url: if a.base_url is Some {
                        a.base_url
                    } else {
                        default_ai().base_url
                    },
                    temperature: if a.temperature is Some {
                        a.temperature
                    } else {
                        default_ai().temperature
                    },
                    max_tokens: if a.max_tokens is Some {
                        a.max_tokens
                    } else {
                        default_ai().max_tokens
                    },
                },
            },
        ),
        shell: Option::Some(
            match c.shell {
                Option::None => default_shell(),
                Option::Some(s) => ShellVal {
                    prompt: if s.prompt is Some {
                        s.prompt
                    } else {
                        default_shell().prompt
                    },
                    history_size: if s.history_size is Some {
                        s.history_size
                    } else {
                        default_shell().history_size
                    },
                    multiline_continuation: if s.multiline_continuation is Some {
                        s.multiline_continuation
                    } else {
                        default_shell().multiline_continuation
                    },
                    mode_toggle_key: if s.mode_toggle_key is Some {
                        s.mode_toggle_key
                    } else {
                        default_shell().mode_toggle_key
                    },
                },
            },
        ),
    }
}

/// The configuration used when the script exports none: every leaf at its
/// documented default.
pub open spec fn spec_default_config() -> ConfigVal {
    spec_with_defaults(ConfigVal { ai: Option::None, shell: Option::None })
}

/// Reads an optional string field: absent or null means none; a string is
/// kept; any other type spoils the section.
pub open spec fn spec_str_field(m: Seq<(Seq<u8>, JsonVal)>, k: Seq<u8>) -> Option<
    Option<Seq<u8>>,
> {
    match obj_lookup(m, k) {
        Option::None => Option::Some(Option::None),
        Option::Some(JsonVal::Null) => Option::Some(Option::None),
        Option::Some(JsonVal::Str(s)) => Option::Some(Option::Some(s)),
        Option::Some(_) => Option::None,
    }
}

/// Reads an optional nonnegative integer field below the given bound:
/// absent or null means none; an all-digit number literal in range is
/// kept; anything else spoils the section.
pub open spec fn spec_int_field(m: Seq<(Seq<u8>, JsonVal)>, k: Seq<u8>, bound: int) -> Option<
    Option<int>,
> {
    match obj_lookup(m, k) {
        Option::None => Option::Some(Option::None),
        Option::Some(JsonVal::Null) => Option::Some(Option::None),
        Option::Some(JsonVal::Num(lit)) => {
            if lit.len() > 0 && all_digits(lit) && dec_val(lit) <= bound {
                Option::Some(Option::Some(dec_val(lit)))
            } else {
                Option::None
            }
        },
        Option::Some(_) => Option::None,
    }
}

/// Reads an optional number field, keeping the literal: absent or null
/// means none; a number is kept as spelled; anything else spoils the
/// section.
pub open spec fn spec_num_field(m: Seq<(Seq<u8>, JsonVal)>, k: Seq<u8>) -> Option<
    Option<Seq<u8>>,
> {
    match obj_lookup(m, k) {
        Option::None => Option::Some(Option::None),
        Option::Some(JsonVal::Null) => Option::Some(Option::None),
        Option::Some(JsonVal::Num(lit)) => Option::Some(Option::Some(lit)),
        Option::Some(_) => Option::None,
    }
}

/// The AI section read from its JSON value.
pub open spec fn spec_ai_of(v: JsonVal) -> Option<AiVal> {
    if v is Obj {
        let m = v->Obj_0;
        let model = spec_str_field(m, bytes_of("model"));
        let api_key = spec_str_field(m, bytes_of("api_key"));
        let base_url = spec_str_field(m, bytes_of("base_url"));
        let temperature = spec_num_field(m, bytes_of("temperature"));
        let max_tokens = spec_int_field(m, bytes_of("max_tokens"), 0xffffffff);
        if model is Some && api_key is Some && base_url is Some && temperature is Some
            && max_tokens is Some {
            Option::Some(
                AiVal {
                    model: model->Some_0,
                    api_key: api_key->Some_0,
                    base_url: base_url->Some_0,
                    temperature: temperature->Some_0,
                    max_tokens: match max_tokens->Some_0 {
                        Option::Some(n) => Option::Some(n as u32),
                        Option::None => Option::None,
                    },
                },
            )
        } else {
            Option::None
        }
    } else {
        Option::None
    }
}

/// The shell section read from its JSON value.
pub open spec fn spec_shell_of(v: JsonVal) -> Option<ShellVal> {
    if v is Obj {
        let m = v->Obj_0;
        let prompt = spec_str_field(m, bytes_of("prompt"));
        let history_size = spec_int_field(m, bytes_of("history_size"), 0xffffffffffffffff);
        let multiline_continuation = spec_str_field(m, bytes_of("multiline_continuation"));
        let mode_toggle_key = spec_str_field(m, bytes_of("mode_toggle_key"));
        if prompt is Some && history_size is Some && multiline_continuation is Some
            && mode_toggle_key is Some {
            Option::Some(
                ShellVal {
                    prompt: prompt->Some_0,
                    history_size: match history_size->Some_0 {
                        Option::Some(n) => Option::Some(n as u64),
                        Option::None => Option::None,
                    },
                    multiline_continuation: multiline_continuation->Some_0,
                    mode_toggle_key: mode_toggle_key->Some_0,
                },
            )
        } else {
            Option::None
        }
    } else {
        Option::None
    }
}

/// Reads an optional string field of a section object.
fn get_str_field(m: &Vec<(Vec<u8>, Json)>, k: &str) -> (r: Option<Option<Vec<u8>>>)
    ensures
        r is None ==> spec_str_field(crate::json::view_members(m@), bytes_of(k)) is None,
        r matches Some(o) ==> spec_str_field(crate::json::view_members(m@), bytes_of(k))
            == Option::Some(opt_bytes(o)),
{
    match crate::agent::json_obj_get(m, k) {
        None => Some(None),
        Some(Json::Null) => Some(None),
        Some(Json::Str(s)) => Some(Some(copy_bytes(s))),
        Some(_) => None,
    }
}

/// Reads an optional nonnegative integer field of a section object.
fn get_int_field(m: &Vec<(Vec<u8>, Json)>, k: &str, bound: u64) -> (r: Option<Option<u64>>)
    ensures
        r is None ==> spec_int_field(crate::json::view_members(m@), bytes_of(k), bound as int)
            is None,
        r matches Some(o) ==> spec_int_field(crate::json::view_members(m@), bytes_of(k), bound as int)
            matches Some(so) && (o is Some <==> so is Some) && (o matches Some(n) ==> so->Some_0
            == n as int),
{
    match crate::agent::json_obj_get(m, k) {
        None => Some(None),
        Some(Json::Null) => Some(None),
        Some(Json::Num(lit)) => {
            match parse_dec_u64(lit) {
                Some(v) => {
                    if v <= bound {
                        Some(Some(v))
                    } else {
                        None
                    }
                },
                None => {
                    proof {
                        if lit@.len() > 0 && all_digits(lit@) {
                            crate::text::lemma_dec_val_nonneg(lit@);
                        }
                    }
                    None
                },
            }
        },
        Some(_) => None,
    }
}

/// Reads an optional number field of a section object, keeping its
/// spelling.
fn get_num_field(m: &Vec<(Vec<u8>, Json)>, k: &str) -> (r: Option<Option<Vec<u8>>>)
    ensures
        r is None ==> spec_num_field(crate::json::view_members(m@), bytes_of(k)) is None,
        r matches Some(o) ==> spec_num_field(crate::json::view_members(m@), bytes_of(k))
            == Option::Some(opt_bytes(o)),
{
    match crate::agent::json_obj_get(m, k) {
        None => Some(None),
        Some(Json::Null) => Some(None),
        Some(Json::Num(lit)) => Some(Some(copy_bytes(lit))),
        Some(_) => None,
    }
}

/// A whole configuration read from the script's `config` export. Each
/// section is absent when missing or null; a malformed section or a
/// non-object export spoils the whole read.
pub open spec fn spec_config_of(v: JsonVal) -> Option<ConfigVal> {
    if v is Obj {
        let m = v->Obj_0;
        let ai_v = obj_lookup(m, bytes_of("ai"));
        let shell_v = obj_lookup(m, bytes_of("shell"));
        let ai = if ai_v is None || ai_v->Some_0 is Null {
            Option::Some(Option::None)
        } else {
            match spec_ai_of(ai_v->Some_0) {
                Option::Some(a) => Option::Some(Option::Some(a)),
                Option::None => Option::None,
            }
        };
        let shell = if shell_v is None || shell_v->Some_0 is Null {
            Option::Some(Option::None)
        } else {
            match spec_shell_of(shell_v->Some_0) {
                Option::Some(s) => Option::Some(Option::Some(s)),
                Option::None => Option::None,
            }
        };
        if ai is Some && shell is Some {
            Option::Some(ConfigVal { ai: ai->Some_0, shell: shell->Some_0 })
        } else {
            Option::None
        }
    } else {
        Option::None
    }
}

/// Reads the AI section from its JSON value.
fn ai_from_json(v: &Json) -> (r: Option<TypeScriptAiConfig>)
    ensures
        r is None ==> spec_ai_of(v@) is None,
        r matches Some(c) ==> spec_ai_of(v@) == Option::Some(ai_model(c)),
{
    let m = match v {
        Json::Obj(m) => m,
        _ => {
            return None;
        },
    };
    let model = match get_str_field(m, "model") {
        None => {
            return None;
        },
        Some(x) => x,
    };
    let api_key = match get_str_field(m, "api_key") {
        None => {
            return None;
        },
        Some(x) => x,
    };
    let base_url = match get_str_field(m, "base_url") {
        None => {
            return None;
        },
        Some(x) => x,
    };
    let temperature = match get_num_field(m, "temperature") {
        None => {
            return None;
        },
        Some(x) => x,
    };
    let max_tokens: Option<u32> = match get_int_field(m, "max_tokens", 0xffffffff) {
        None => {
            return None;
        },
        Some(None) => None,
        Some(Some(n)) => Some(n as u32),
    };
    Some(TypeScriptAiConfig { model, api_key, base_url, temperature, max_tokens })
}

/// Reads the shell section from its JSON value.
fn shell_from_json(v: &Json) -> (r: Option<TypeScriptShellConfig>)
    ensures
        r is None ==> spec_shell_of(v@) is None,
        r matches Some(c) ==> spec_shell_of(v@) == Option::Some(shell_model(c)),
{
    let m = match v {
        Json::Obj(m) => m,
        _ => {
            return None;
        },
    };
    let prompt = match get_str_field(m, "prompt") {
        None => {
            return None;
        },
        Some(x) => x,
    };
    let history_size: Option<u64> = match get_int_field(m, "history_size", 0xffffffffffffffff) {
        None => {
            return None;
        },
        Some(x) => x,
    };
    let multiline_continuation = match get_str_field(m, "multiline_continuation") {
        None => {
            return None;
        },
        Some(x) => x,
    };
    let mode_toggle_key = match get_str_field(m, "mode_toggle_key") {
        None => {
            return None;
        },
        Some(x) => x,
    };
    Some(TypeScriptShellConfig { prompt, history_size, multiline_continuation, mode_toggle_key })
}

/// Reads a whole configuration from the script's `config` export.
pub fn config_from_json(v: &Json) -> (r: Option<TypeScriptConfig>)
    ensures
        r is None ==> spec_config_of(v@) is None,
        r matches Some(c) ==> spec_config_of(v@) == Option::Some(config_model(c)),
{
    let m = match v {
        Json::Obj(m) => m,
        _ => {
            return None;
        },
    };
    let ai: Option<TypeScriptAiConfig> = match crate::agent::json_obj_get(m, "ai") {
        None => None,
        Some(Json::Null) => None,
        Some(other) => {
            match ai_from_json(other) {
                None => {
                    return None;
                },
                Some(a) => Some(a),
            }
        },
    };
    let shell: Option<TypeScriptShellConfig> = match crate::agent::json_obj_get(m, "shell") {
        None => None,
        Some(Json::Null) => None,
        Some(other) => {
            match shell_from_json(other) {
                None => {
                    return None;
                },
                Some(s) => Some(s),
            }
        },
    };
    Some(TypeScriptConfig { ai, shell })
}

impl Default for TypeScriptConfig {
    /// The documented default configuration.
    fn default() -> (r: TypeScriptConfig)
        ensures
            config_model(r) == spec_default_config(),
    {
        TypeScriptConfig {
            ai: Some(
                TypeScriptAiConfig {
                    model: Some(byte_vec("gpt-3.5-turbo")),
                    api_key: None,
                    base_url: Some(byte_vec("https://api.openai.com/v1")),
                    temperature: Some(byte_vec("0.7")),
                    max_tokens: Some(1000),
                },
            ),
            shell: Some(
                TypeScriptShellConfig {
                    prompt: Some(byte_vec("aish> ")),
                    history_size: Some(1000),
                    multiline_continuation: Some(byte_vec("... ")),
                    mode_toggle_key: Some(byte_vec("esc-x")),
                },
            ),
        }
    }
}

impl TypeScriptConfig {
    /// This configuration with every unspecified leaf filled from the
    /// documented defaults.
    pub fn with_defaults(self) -> (r: TypeScriptConfig)
        ensures
            config_model(r) == spec_with_defaults(config_model(self)),
    {
        let ai = match self.ai {
            None => TypeScriptAiConfig {
                model: Some(byte_vec("gpt-3.5-turbo")),
                api_key: None,
                base_url: Some(byte_vec("https://api.openai.com/v1")),
                temperature: Some(byte_vec("0.7")),
                max_tokens: Some(1000),
            },
            Some(a) => TypeScriptAiConfig {
                model: match a.model {
                    Some(mb) => Some(mb),
                    None => Some(byte_vec("gpt-3.5-turbo")),
                },
                api_key: a.api_key,
                base_url: match a.base_url {
                    Some(b) => Some(b),
                    None => Some(byte_vec("https://api.openai.com/v1")),
                },
                temperature: match a.temperature {
                    Some(t) => Some(t),
                    None => Some(byte_vec("0.7")),
                },
                max_tokens: match a.max_tokens {
                    Some(n) => Some(n),
                    None => Some(1000),
                },
            },
        };
        let shell = match self.shell {
            None => TypeScriptShellConfig {
                prompt: Some(byte_vec("aish> ")),
                history_size: Some(1000),
                multiline_continuation: Some(byte_vec("... ")),
                mode_toggle_key: Some(byte_vec("esc-x")),
            },
            Some(s) => TypeScriptShellConfig {
                prompt: match s.prompt {
                    Some(p) => Some(p),
                    None => Some(byte_vec("aish> ")),
                },
                history_size: match s.history_size {
                    Some(h) => Some(h),
                    None => Some(1000),
                },
                multiline_continuation: match s.multiline_continuation {
                    Some(p) => Some(p),
                    None => Some(byte_vec("... ")),
                },
                mode_toggle_key: match s.mode_toggle_key {
                    Some(k) => Some(k),
                    None => Some(byte_vec("esc-x")),
                },
            },
        };
        TypeScriptConfig { ai: Some(ai), shell: Some(shell) }
    }

    /// The configuration a script export yields: on a well-formed `config`
    /// object, every leaf the export specifies is kept exactly and every
    /// unspecified leaf takes its one documented default; on a malformed
    /// or missing export the whole default configuration is used — a bad
    /// export never fails the shell.
    pub fn from_export(export: Option<&Json>) -> (r: TypeScriptConfig)
        ensures
            (match export {
                Some(v) => spec_config_of(v@) matches Some(c) && config_model(r)
                    == spec_with_defaults(c),
                None => false,
            }) || ((match export {
                Some(v) => spec_config_of(v@) is None,
                None => true,
            }) && config_model(r) == spec_default_config()),
    {
        match export {
            Some(v) => match config_from_json(v) {
                Some(c) => c.with_defaults(),
                None => TypeScriptConfig::default(),
            },
            None => TypeScriptConfig::default(),
        }
    }

    /// The model identifier the agent uses: the configured one, else the
    /// same documented default the loader fills in.
    pub fn effective_model(&self) -> (r: Vec<u8>)
        ensures
            r@ == (match config_model(*self).ai {
                Option::Some(a) => match a.model {
                    Option::Some(mb) => mb,
                    Option::None => bytes_of("gpt-3.5-turbo"),
                },
                Option::None => bytes_of("gpt-3.5-turbo"),
            }),
    {
        match &self.ai {
            Some(a) => match &a.model {
                Some(mb) => copy_bytes(mb),
                None => byte_vec("gpt-3.5-turbo"),
            },
            None => byte_vec("gpt-3.5-turbo"),
        }
    }

    /// The endpoint base the agent posts to: the configured one, else the
    /// public endpoint.
    pub fn effective_base_url(&self) -> (r: Vec<u8>)
        ensures
            r@ == (match config_model(*self).ai {
                Option::Some(a) => match a.base_url {
                    Option::Some(b) => b,
                    Option::None => bytes_of("https://api.openai.com/v1"),
                },
                Option::None => bytes_of("https://api.openai.com/v1"),
            }),
    {
        match &self.ai {
            Some(a) => match &a.base_url {
                Some(b) => copy_bytes(b),
                None => byte_vec("https://api.openai.com/v1"),
            },
            None => byte_vec("https://api.openai.com/v1"),
        }
    }

    /// The sampling temperature literal the agent sends: the configured
    /// spelling, else `0.7`.
    pub fn effective_temperature(&self) -> (r: Vec<u8>)
        ensures
            r@ == (match config_model(*self).ai {
                Option::Some(a) => match a.temperature {
                    Option::Some(t) => t,
                    Option::None => bytes_of("0.7"),
                },
                Option::None => bytes_of("0.7"),
            }),
    {
        match &self.ai {
            Some(a) => match &a.temperature {
                Some(t) => copy_bytes(t),
                None => byte_vec("0.7"),
            },
            None => byte_vec("0.7"),
        }
    }

    /// The response-length cap the agent sends: the configured one, else
    /// 1000.
    pub fn effective_max_tokens(&self) -> (r: u64)
        ensures
            r == (match config_model(*self).ai {
                Option::Some(a) => match a.max_tokens {
                    Option::Some(n) => n as u64,
                    Option::None => 1000u64,
                },
                Option::None => 1000u64,
            }),
    {
        match &self.ai {
            Some(a) => match a.max_tokens {
                Some(n) => n as u64,
                None => 1000,
            },
            None => 1000,
        }
    }

    /// The configured credential, when there is one.
    pub fn api_key(&self) -> (r: Option<Vec<u8>>)
        ensures
            (r is Some <==> (config_model(*self).ai matches Option::Some(a) && a.api_key
                is Some)),
            r matches Some(k) ==> k@ == config_model(*self).ai->Some_0.api_key->Some_0,
    {
        match &self.ai {
            Some(a) => match &a.api_key {
                Some(k) => Some(copy_bytes(k)),
                None => None,
            },
            None => None,
        }
    }

}

impl Config {
    /// The prompt template for new input: the configured one, else
    /// `aish> `. Its variable and escape expansion belongs to the
    /// template expander the shell front end brings along.
    pub fn get_prompt(&self) -> (r: Vec<u8>)
        ensures
            r@ == (match config_model(*self).shell {
                Option::Some(s) => match s.prompt {
                    Option::Some(p) => p,
                    Option::None => bytes_of("aish> "),
                },
                Option::None => bytes_of("aish> "),
            }),
    {
        match &self.shell {
            Some(s) => match &s.prompt {
                Some(p) => copy_bytes(p),
                None => byte_vec("aish> "),
            },
            None => byte_vec("aish> "),
        }
    }

    /// The prompt template for continuation lines: the configured one, else
    /// `... `. Expansion belongs to the same collaborator as `get_prompt`.
    pub fn get_continuation_prompt(&self) -> (r: Vec<u8>)
        ensures
            r@ == (match config_model(*self).shell {
                Option::Some(s) => match s.multiline_continuation {
                    Option::Some(p) => p,
                    Option::None => bytes_of("... "),
                },
                Option::None => bytes_of("... "),
            }),
    {
        match &self.shell {
            Some(s) => match &s.multiline_continuation {
                Some(p) => copy_bytes(p),
                None => byte_vec("... "),
            },
            None => byte_vec("... "),
        }
    }
}

/// What one line of input asks of the shell.
pub enum InputAction {
    /// Leave the shell.
    Exit,
    /// Show the help text.
    Help,
    /// Run this as a shell command.
    RunCommand(Vec<u8>),
    /// Hand this to the model as a request.
    AskModel(Vec<u8>),
    /// Nothing to do.
    Nothing,
}

/// The model of an input action.
pub enum InputActionVal {
    Exit,
    Help,
    RunCommand(Seq<u8>),
    AskModel(Seq<u8>),
    Nothing,
}

/// The model of one executable action.
pub open spec fn action_model(a: InputAction) -> InputActionVal {
    match a {
        InputAction::Exit => InputActionVal::Exit,
        InputAction::Help => InputActionVal::Help,
        InputAction::RunCommand(c) => InputActionVal::RunCommand(c@),
        InputAction::AskModel(p) => InputActionVal::AskModel(p@),
        InputAction::Nothing => InputActionVal::Nothing,
    }
}

/// How one input line is routed: `exit` and `quit` leave, `help` explains;
/// in agent mode a `$` prefix runs the rest as a command and anything else
/// goes to the model; in command mode everything runs as a command. Blank
/// input asks nothing.
pub open spec fn spec_route(mode: ShellMode, input: Seq<u8>) -> InputActionVal {
    let t = spec_trim(input);
    if t == bytes_of("exit") || t == bytes_of("quit") {
        InputActionVal::Exit
    } else if t == bytes_of("help") {
        InputActionVal::Help
    } else if t.len() == 0 {
        InputActionVal::Nothing
    } else {
        match mode {
            ShellMode::Agent => {
                if t[0] == 0x24 {
                    let cmd = spec_trim(t.skip(1));
                    if cmd.len() == 0 {
                        InputActionVal::Nothing
                    } else {
                        InputActionVal::RunCommand(cmd)
                    }
                } else {
                    InputActionVal::AskModel(t)
                }
            },
            ShellMode::Command => InputActionVal::RunCommand(t),
        }
    }
}

/// Routes one input line.
pub fn route_input(mode: ShellMode, input: &Vec<u8>) -> (r: InputAction)
    ensures
        action_model(r) == spec_route(mode, input@),
{
    let t = trim_bytes(input);
    if crate::text::bytes_eq_str(&t, "exit") || crate::text::bytes_eq_str(&t, "quit") {
        return InputAction::Exit;
    }
    if crate::text::bytes_eq_str(&t, "help") {
        return InputAction::Help;
    }
    if t.len() == 0 {
        return InputAction::Nothing;
    }
    match mode {
        ShellMode::Agent => {
            if t[0] == 0x24 {
                let mut rest: Vec<u8> = Vec::new();
                let mut i: usize = 1;
                while i < t.len()
                    invariant
                        1 <= i <= t@.len(),
                        rest@ == t@.subrange(1, i as int),
                    decreases t.len() - i,
                {
                    rest.push(t[i]);
                    proof {
                        assert(t@.subrange(1, i + 1) =~= t@.subrange(1, i as int) + seq![
                            t@[i as int],
                        ]);
                    }
                    i = i + 1;
                }
                proof {
                    assert(rest@ =~= t@.skip(1));
                }
                let cmd = trim_bytes(&rest);
                if cmd.len() == 0 {
                    InputAction::Nothing
                } else {
                    InputAction::RunCommand(cmd)
                }
            } else {
                InputAction::AskModel(t)
            }
        },
        ShellMode::Command => InputAction::RunCommand(t),
    }
}

} // verus!