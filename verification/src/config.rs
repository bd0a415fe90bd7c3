//! Configuration from environment variables, and what each feature needs of it.

use vstd::prelude::*;

use crate::text::{
    CharClass, ascii_lowered, chars_of, decimal, decimals_read_back, end_len, extend, is_blank,
    lower_ascii, numbers_are_read_with_their_sign, part, pieces, read_signed, read_unsigned,
    same_text, signed_value, spells, split_pieces, string_of, strip_ends, text_views, to_decimal,
    trimmed, unsigned_value, without_end,
};

verus! {

pub const DEFAULT_OUTPUT_SAMPLE_RATE: u32 = 48_000;

pub const DEFAULT_TERA_API_BASE: &'static str = "https://tera.asheservices.online/v1";

pub const DEFAULT_LLM_MODEL: &'static str = "gemini-latest";

pub const DEFAULT_ACTIVITY_CAPTURE_INTERVAL: u64 = 10;

pub const DEFAULT_ACTIVITY_MAX_FRAME_GAP_S: u64 = 30;

pub const DEFAULT_ACTIVITY_BLOCK_MINUTES: u64 = 10;

pub const DEFAULT_ACTIVITY_MAX_FRAMES_PER_CALL: usize = 100;

pub const DEFAULT_ACTIVITY_MIN_ACTIVE_SECONDS: u64 = 30;

pub const DEFAULT_FRAME_RETENTION_MINUTES: u64 = 30;

pub const DEFAULT_CONTEXT_BLOCKS: usize = 6;

pub const DEFAULT_CONTEXT_SUMMARY_MAX_CHARS: usize = 1_500;

pub const DEFAULT_DAILY_REPORT_GRACE_MINUTES: u64 = 15;

pub const DEFAULT_ARCHIVE_PLAINTEXT_DAYS: u64 = 2;

pub const DEFAULT_ARCHIVE_SCAN_MINUTES: u64 = 5;

/// The value of the first variable called `name`.
pub open spec fn variable(vars: Seq<(Seq<char>, Seq<char>)>, name: Seq<char>) -> Option<Seq<char>>
    decreases vars.len(),
{
    if vars.len() == 0 {
        None
    } else if vars[0].0 == name {
        Some(vars[0].1)
    } else {
        variable(vars.drop_first(), name)
    }
}

pub open spec fn variable_views(vars: Seq<(String, String)>) -> Seq<(Seq<char>, Seq<char>)> {
    vars.map_values(|v: (String, String)| (v.0@, v.1@))
}

pub open spec fn option_view(value: Option<String>) -> Option<Seq<char>> {
    match value {
        Some(text) => Some(text@),
        None => None,
    }
}

/// The environment as name and value pairs; the first of a name counts.
pub struct Environment {
    pub vars: Vec<(String, String)>,
}

impl View for Environment {
    type V = Seq<(Seq<char>, Seq<char>)>;

    open spec fn view(&self) -> Seq<(Seq<char>, Seq<char>)> {
        variable_views(self.vars@)
    }
}

impl Environment {
    pub fn var(&self, name: &str) -> (r: Option<String>)
        ensures
            option_view(r) == variable(self@, name@),
    {
        let ghost views = self@;
        let mut i: usize = 0;
        assert(views.skip(0) =~= views);
        while i < self.vars.len()
            invariant
                i <= self.vars@.len(),
                views == self@,
                views.len() == self.vars@.len(),
                variable(views, name@) == variable(views.skip(i as int), name@),
            decreases self.vars@.len() - i,
        {
            assert(views.skip(i as int).drop_first() =~= views.skip(i + 1));
            assert(views.skip(i as int)[0] == (self.vars@[i as int].0@, self.vars@[i as int].1@));
            if same_text(&self.vars[i].0, name) {
                return Some(self.vars[i].1.clone());
            }
            i += 1;
        }
        None
    }

    pub fn var_or(&self, name: &str, default: &str) -> (r: String)
        ensures
            r@ == text_or(self@, name@, default@),
    {
        match self.var(name) {
            Some(value) => value,
            None => default.to_owned(),
        }
    }
}

/// A variable, or `default` where it is not set.
pub open spec fn text_or(
    vars: Seq<(Seq<char>, Seq<char>)>,
    name: Seq<char>,
    default: Seq<char>,
) -> Seq<char> {
    match variable(vars, name) {
        Some(value) => value,
        None => default,
    }
}

/// A variable that is not blank, or `default`.
pub open spec fn filled_or(
    vars: Seq<(Seq<char>, Seq<char>)>,
    name: Seq<char>,
    default: Seq<char>,
) -> Seq<char> {
    match variable(vars, name) {
        Some(value) => if trimmed(value).len() > 0 {
            value
        } else {
            default
        },
        None => default,
    }
}

/// A variable as a number of at most `max`, or `default` where it is not one.
pub open spec fn number_or(
    vars: Seq<(Seq<char>, Seq<char>)>,
    name: Seq<char>,
    max: nat,
    default: nat,
) -> nat {
    match variable(vars, name) {
        Some(value) => match unsigned_value(trimmed(value), max) {
            Some(n) => n,
            None => default,
        },
        None => default,
    }
}

pub open spec fn signed_or(
    vars: Seq<(Seq<char>, Seq<char>)>,
    name: Seq<char>,
    default: int,
) -> int {
    match variable(vars, name) {
        Some(value) => match signed_value(trimmed(value)) {
            Some(n) => n,
            None => default,
        },
        None => default,
    }
}

/// A switch: on and off in four spellings each, otherwise `default`.
pub open spec fn switch_or(
    vars: Seq<(Seq<char>, Seq<char>)>,
    name: Seq<char>,
    default: bool,
) -> bool {
    let word = match variable(vars, name) {
        Some(value) => ascii_lowered(trimmed(value)),
        None => Seq::empty(),
    };
    if word == "1"@ || word == "true"@ || word == "yes"@ || word == "on"@ {
        true
    } else if word == "0"@ || word == "false"@ || word == "no"@ || word == "off"@ {
        false
    } else {
        default
    }
}

/// The entries that are not blank, trimmed and in lowercase.
pub open spec fn entries_of(parts: Seq<Seq<char>>) -> Seq<Seq<char>>
    decreases parts.len(),
{
    if parts.len() == 0 {
        Seq::empty()
    } else {
        let before = entries_of(parts.drop_last());
        let entry = trimmed(parts.last());
        if entry.len() == 0 {
            before
        } else {
            before.push(ascii_lowered(entry))
        }
    }
}

/// A list separated by semicolons.
pub open spec fn list_at(vars: Seq<(Seq<char>, Seq<char>)>, name: Seq<char>) -> Seq<Seq<char>> {
    match variable(vars, name) {
        Some(value) => entries_of(pieces(value, ';')),
        None => Seq::empty(),
    }
}

/// The model of a feature: its own, the shared one, or the default.
pub open spec fn model_of(feature: Option<Seq<char>>, shared: Option<Seq<char>>) -> Seq<char> {
    match (feature, shared) {
        (Some(model), _) => model,
        (None, Some(model)) => model,
        (None, None) => DEFAULT_LLM_MODEL@,
    }
}

pub open spec fn at_least(n: nat, floor: nat) -> nat {
    if n < floor {
        floor
    } else {
        n
    }
}

pub fn read_u64(env: &Environment, name: &str, default: u64) -> (r: u64)
    ensures
        r == number_or(env@, name@, u64::MAX as nat, default as nat),
{
    match env.var(name) {
        Some(value) => match read_unsigned(
            &strip_ends(&chars_of(&value), CharClass::WhiteSpace),
            u64::MAX,
        ) {
            Some(n) => n,
            None => default,
        },
        None => default,
    }
}

pub fn read_u32(env: &Environment, name: &str, default: u32) -> (r: u32)
    ensures
        r == number_or(env@, name@, u32::MAX as nat, default as nat),
{
    match env.var(name) {
        Some(value) => match read_unsigned(
            &strip_ends(&chars_of(&value), CharClass::WhiteSpace),
            u32::MAX as u64,
        ) {
            Some(n) => n as u32,
            None => default,
        },
        None => default,
    }
}

pub fn read_usize(env: &Environment, name: &str, default: usize) -> (r: usize)
    ensures
        r == number_or(env@, name@, usize::MAX as nat, default as nat),
{
    match env.var(name) {
        Some(value) => match read_unsigned(
            &strip_ends(&chars_of(&value), CharClass::WhiteSpace),
            usize::MAX as u64,
        ) {
            Some(n) => n as usize,
            None => default,
        },
        None => default,
    }
}

pub fn read_i32(env: &Environment, name: &str, default: i32) -> (r: i32)
    ensures
        r == signed_or(env@, name@, default as int),
{
    match env.var(name) {
        Some(value) => match read_signed(&strip_ends(&chars_of(&value), CharClass::WhiteSpace)) {
            Some(n) => n,
            None => default,
        },
        None => default,
    }
}

pub fn read_bool(env: &Environment, name: &str, default: bool) -> (r: bool)
    ensures
        r == switch_or(env@, name@, default),
{
    let word: Vec<char> = match env.var(name) {
        Some(value) => lower_ascii(&strip_ends(&chars_of(&value), CharClass::WhiteSpace)),
        None => Vec::new(),
    };
    if spells(&word, "1") || spells(&word, "true") || spells(&word, "yes") || spells(&word, "on") {
        true
    } else if spells(&word, "0") || spells(&word, "false") || spells(&word, "no") || spells(
        &word,
        "off",
    ) {
        false
    } else {
        default
    }
}

pub open spec fn string_views(texts: Seq<String>) -> Seq<Seq<char>> {
    texts.map_values(|t: String| t@)
}

pub fn read_list(env: &Environment, name: &str) -> (r: Vec<String>)
    ensures
        string_views(r@) == list_at(env@, name@),
{
    let mut out: Vec<String> = Vec::new();
    assert(string_views(out@) =~= Seq::empty());
    let value: String = match env.var(name) {
        Some(value) => value,
        None => {
            return out;
        },
    };
    let parts: Vec<Vec<char>> = split_pieces(&chars_of(&value), ';');
    let ghost views = pieces(value@, ';');
    let mut i: usize = 0;
    while i < parts.len()
        invariant
            i <= parts@.len(),
            views == text_views(parts@),
            string_views(out@) == entries_of(views.take(i as int)),
        decreases parts@.len() - i,
    {
        assert(views.take(i + 1).drop_last() =~= views.take(i as int));
        assert(views.take(i + 1).last() == parts@[i as int]@);
        let entry: Vec<char> = strip_ends(&parts[i], CharClass::WhiteSpace);
        if entry.len() > 0 {
            let ghost before = out@;
            let text: String = string_of(&lower_ascii(&entry));
            out.push(text);
            assert(string_views(out@) =~= string_views(before).push(text@));
        }
        i += 1;
    }
    assert(views.take(i as int) =~= views);
    out
}

pub fn read_output_sample_rate(env: &Environment) -> (r: u32)
    ensures
        r == number_or(
            env@,
            "ASHE_OUTPUT_SAMPLE_RATE"@,
            u32::MAX as nat,
            DEFAULT_OUTPUT_SAMPLE_RATE as nat,
        ),
{
    read_u32(env, "ASHE_OUTPUT_SAMPLE_RATE", DEFAULT_OUTPUT_SAMPLE_RATE)
}

/// The model of a feature: its own, the shared one, or the default.
pub fn resolve_llm_model(feature_model: Option<String>, tera_model: Option<String>) -> (r: String)
    ensures
        r@ == model_of(option_view(feature_model), option_view(tera_model)),
{
    match feature_model {
        Some(model) => model,
        None => match tera_model {
            Some(model) => model,
            None => DEFAULT_LLM_MODEL.to_owned(),
        },
    }
}

pub fn read_llm_model(env: &Environment, name: &str) -> (r: String)
    ensures
        r@ == model_of(variable(env@, name@), variable(env@, "TERA_MODEL"@)),
{
    resolve_llm_model(env.var(name), env.var("TERA_MODEL"))
}

/// The reasoning effort asked for; an empty one counts as none.
pub open spec fn effort_of(value: Option<Seq<char>>) -> Option<Seq<char>> {
    match value {
        Some(effort) => if effort.len() > 0 {
            Some(effort)
        } else {
            None
        },
        None => None,
    }
}

fn read_effort(value: Option<String>) -> (r: Option<String>)
    ensures
        option_view(r) == effort_of(option_view(value)),
{
    match value {
        Some(effort) => if chars_of(&effort).len() > 0 {
            Some(effort)
        } else {
            None
        },
        None => None,
    }
}

fn read_filled_var(env: &Environment, name: &str, default: &str) -> (r: String)
    ensures
        r@ == filled_or(env@, name@, default@),
{
    match env.var(name) {
        Some(value) => if !is_blank(&value) {
            value
        } else {
            default.to_owned()
        },
        None => default.to_owned(),
    }
}

fn raise_u64(n: u64, floor: u64) -> (r: u64)
    ensures
        r == at_least(n as nat, floor as nat),
{
    if n < floor {
        floor
    } else {
        n
    }
}

fn raise_usize(n: usize, floor: usize) -> (r: usize)
    ensures
        r == at_least(n as nat, floor as nat),
{
    if n < floor {
        floor
    } else {
        n
    }
}

/// The configuration, without the settings that are fractions.
#[derive(Clone, Debug)]
pub struct AppConfig {
    pub fal_api_key: String,
    pub fal_language: String,
    pub stt_backend: String,
    pub stt_token: String,
    pub spoken_punctuation: bool,
    pub output_sample_rate: u32,
    pub tera_api_key: String,
    pub tera_api_base: String,
    pub grammar_model: String,
    pub question_model: String,
    pub journal_model: String,
    pub llm_reasoning_effort: Option<String>,
    pub activity_enabled: bool,
    pub activity_artifacts_dir: String,
    pub activity_capture_interval: u64,
    pub activity_block_minutes: u64,
    pub activity_monitor: i32,
    pub activity_max_frame_gap_s: u64,
    pub activity_max_frames_per_call: usize,
    pub activity_min_active_seconds: u64,
    pub activity_denylist: Vec<String>,
    pub activity_frame_retention_minutes: u64,
    pub activity_context_blocks: usize,
    pub activity_context_summary_max_chars: usize,
    pub daily_report_enabled: bool,
    pub daily_report_grace_minutes: u64,
    pub archive_recipient_json: String,
    pub archive_plaintext_days: u64,
    pub archive_scan_minutes: u64,
    pub worker_base_url: String,
    pub archive_upload_token: String,
    pub paste_upload_token: String,
}

/// What an `AppConfig` holds.
pub struct ConfigView {
    pub fal_api_key: Seq<char>,
    pub fal_language: Seq<char>,
    pub stt_backend: Seq<char>,
    pub stt_token: Seq<char>,
    pub spoken_punctuation: bool,
    pub output_sample_rate: nat,
    pub tera_api_key: Seq<char>,
    pub tera_api_base: Seq<char>,
    pub grammar_model: Seq<char>,
    pub question_model: Seq<char>,
    pub journal_model: Seq<char>,
    pub llm_reasoning_effort: Option<Seq<char>>,
    pub activity_enabled: bool,
    pub activity_artifacts_dir: Seq<char>,
    pub activity_capture_interval: nat,
    pub activity_block_minutes: nat,
    pub activity_monitor: int,
    pub activity_max_frame_gap_s: nat,
    pub activity_max_frames_per_call: nat,
    pub activity_min_active_seconds: nat,
    pub activity_denylist: Seq<Seq<char>>,
    pub activity_frame_retention_minutes: nat,
    pub activity_context_blocks: nat,
    pub activity_context_summary_max_chars: nat,
    pub daily_report_enabled: bool,
    pub daily_report_grace_minutes: nat,
    pub archive_recipient_json: Seq<char>,
    pub archive_plaintext_days: nat,
    pub archive_scan_minutes: nat,
    pub worker_base_url: Seq<char>,
    pub archive_upload_token: Seq<char>,
    pub paste_upload_token: Seq<char>,
}

impl View for AppConfig {
    type V = ConfigView;

    open spec fn view(&self) -> ConfigView {
        ConfigView {
            fal_api_key: self.fal_api_key@,
            fal_language: self.fal_language@,
            stt_backend: self.stt_backend@,
            stt_token: self.stt_token@,
            spoken_punctuation: self.spoken_punctuation,
            output_sample_rate: self.output_sample_rate as nat,
            tera_api_key: self.tera_api_key@,
            tera_api_base: self.tera_api_base@,
            grammar_model: self.grammar_model@,
            question_model: self.question_model@,
            journal_model: self.journal_model@,
            llm_reasoning_effort: option_view(self.llm_reasoning_effort),
            activity_enabled: self.activity_enabled,
            activity_artifacts_dir: self.activity_artifacts_dir@,
            activity_capture_interval: self.activity_capture_interval as nat,
            activity_block_minutes: self.activity_block_minutes as nat,
            activity_monitor: self.activity_monitor as int,
            activity_max_frame_gap_s: self.activity_max_frame_gap_s as nat,
            activity_max_frames_per_call: self.activity_max_frames_per_call as nat,
            activity_min_active_seconds: self.activity_min_active_seconds as nat,
            activity_denylist: string_views(self.activity_denylist@),
            activity_frame_retention_minutes: self.activity_frame_retention_minutes as nat,
            activity_context_blocks: self.activity_context_blocks as nat,
            activity_context_summary_max_chars: self.activity_context_summary_max_chars as nat,
            daily_report_enabled: self.daily_report_enabled,
            daily_report_grace_minutes: self.daily_report_grace_minutes as nat,
            archive_recipient_json: self.archive_recipient_json@,
            archive_plaintext_days: self.archive_plaintext_days as nat,
            archive_scan_minutes: self.archive_scan_minutes as nat,
            worker_base_url: self.worker_base_url@,
            archive_upload_token: self.archive_upload_token@,
            paste_upload_token: self.paste_upload_token@,
        }
    }
}

/// The configuration that an environment asks for, with the artifact
/// directory and the archive recipient to use where it names none.
pub open spec fn configured(
    env: Seq<(Seq<char>, Seq<char>)>,
    artifacts_dir: Seq<char>,
    archive_recipient: Seq<char>,
) -> ConfigView {
    ConfigView {
        fal_api_key: text_or(env, "FAL_KEY"@, ""@),
        fal_language: text_or(env, "FAL_LANGUAGE"@, "eng"@),
        stt_backend: text_or(env, "ASHE_STT_BACKEND"@, "fal"@),
        stt_token: text_or(env, "ASHE_STT_TOKEN"@, ""@),
        spoken_punctuation: switch_or(env, "ASHE_SPOKEN_PUNCTUATION"@, true),
        output_sample_rate: number_or(
            env,
            "ASHE_OUTPUT_SAMPLE_RATE"@,
            u32::MAX as nat,
            DEFAULT_OUTPUT_SAMPLE_RATE as nat,
        ),
        tera_api_key: text_or(env, "TERA_API_KEY"@, ""@),
        tera_api_base: text_or(env, "TERA_API_BASE"@, DEFAULT_TERA_API_BASE@),
        grammar_model: model_of(variable(env, "TERA_GRAMMAR_MODEL"@), variable(env, "TERA_MODEL"@)),
        question_model: model_of(
            variable(env, "TERA_QUESTION_MODEL"@),
            variable(env, "TERA_MODEL"@),
        ),
        journal_model: model_of(variable(env, "TERA_JOURNAL_MODEL"@), variable(env, "TERA_MODEL"@)),
        llm_reasoning_effort: effort_of(variable(env, "TERA_LLM_REASONING_EFFORT"@)),
        activity_enabled: switch_or(env, "ASHE_ACTIVITY_ENABLED"@, true),
        activity_artifacts_dir: filled_or(env, "ASHE_ARTIFACTS_DIR"@, artifacts_dir),
        activity_capture_interval: at_least(
            number_or(
                env,
                "ASHE_CAPTURE_INTERVAL"@,
                u64::MAX as nat,
                DEFAULT_ACTIVITY_CAPTURE_INTERVAL as nat,
            ),
            1,
        ),
        activity_block_minutes: at_least(
            number_or(
                env,
                "ASHE_BLOCK_MINUTES"@,
                u64::MAX as nat,
                DEFAULT_ACTIVITY_BLOCK_MINUTES as nat,
            ),
            1,
        ),
        activity_monitor: signed_or(env, "ASHE_MONITOR"@, 1),
        activity_max_frame_gap_s: at_least(
            number_or(
                env,
                "ASHE_MAX_FRAME_GAP_S"@,
                u64::MAX as nat,
                DEFAULT_ACTIVITY_MAX_FRAME_GAP_S as nat,
            ),
            at_least(
                number_or(
                    env,
                    "ASHE_CAPTURE_INTERVAL"@,
                    u64::MAX as nat,
                    DEFAULT_ACTIVITY_CAPTURE_INTERVAL as nat,
                ),
                1,
            ),
        ),
        activity_max_frames_per_call: at_least(
            number_or(
                env,
                "ASHE_MAX_FRAMES_PER_CALL"@,
                usize::MAX as nat,
                DEFAULT_ACTIVITY_MAX_FRAMES_PER_CALL as nat,
            ),
            2,
        ),
        activity_min_active_seconds: number_or(
            env,
            "ASHE_MIN_ACTIVE_SECONDS"@,
            u64::MAX as nat,
            DEFAULT_ACTIVITY_MIN_ACTIVE_SECONDS as nat,
        ),
        activity_denylist: list_at(env, "ASHE_DENYLIST"@),
        activity_frame_retention_minutes: number_or(
            env,
            "ASHE_FRAME_RETENTION_MINUTES"@,
            u64::MAX as nat,
            DEFAULT_FRAME_RETENTION_MINUTES as nat,
        ),
        activity_context_blocks: number_or(
            env,
            "ASHE_CONTEXT_BLOCKS"@,
            usize::MAX as nat,
            DEFAULT_CONTEXT_BLOCKS as nat,
        ),
        activity_context_summary_max_chars: at_least(
            number_or(
                env,
                "ASHE_MAX_SUMMARY_CHARS"@,
                usize::MAX as nat,
                DEFAULT_CONTEXT_SUMMARY_MAX_CHARS as nat,
            ),
            1,
        ),
        daily_report_enabled: switch_or(env, "ASHE_DAILY_REPORT_ENABLED"@, true),
        daily_report_grace_minutes: number_or(
            env,
            "ASHE_DAILY_REPORT_GRACE_MINUTES"@,
            u64::MAX as nat,
            DEFAULT_DAILY_REPORT_GRACE_MINUTES as nat,
        ),
        archive_recipient_json: filled_or(env, "ASHE_ARCHIVE_RECIPIENT_JSON"@, archive_recipient),
        archive_plaintext_days: at_least(
            number_or(
                env,
                "ASHE_ARCHIVE_PLAINTEXT_DAYS"@,
                u64::MAX as nat,
                DEFAULT_ARCHIVE_PLAINTEXT_DAYS as nat,
            ),
            2,
        ),
        archive_scan_minutes: at_least(
            number_or(
                env,
                "ASHE_ARCHIVE_SCAN_MINUTES"@,
                u64::MAX as nat,
                DEFAULT_ARCHIVE_SCAN_MINUTES as nat,
            ),
            1,
        ),
        worker_base_url: text_or(env, "ASHE_WORKER_BASE_URL"@, ""@),
        archive_upload_token: text_or(env, "ASHE_ARCHIVE_UPLOAD_TOKEN"@, ""@),
        paste_upload_token: text_or(env, "ASHE_PASTE_UPLOAD_TOKEN"@, ""@),
    }
}

impl AppConfig {
    /// Read the configuration from the environment.
    pub fn load(env: &Environment, artifacts_dir: &str, archive_recipient: &str) -> (r: Self)
        ensures
            r@ == configured(env@, artifacts_dir@, archive_recipient@),
    {
        let capture_interval: u64 = raise_u64(
            read_u64(env, "ASHE_CAPTURE_INTERVAL", DEFAULT_ACTIVITY_CAPTURE_INTERVAL),
            1,
        );
        AppConfig {
            fal_api_key: env.var_or("FAL_KEY", ""),
            fal_language: env.var_or("FAL_LANGUAGE", "eng"),
            stt_backend: env.var_or("ASHE_STT_BACKEND", "fal"),
            stt_token: env.var_or("ASHE_STT_TOKEN", ""),
            spoken_punctuation: read_bool(env, "ASHE_SPOKEN_PUNCTUATION", true),
            output_sample_rate: read_output_sample_rate(env),
            tera_api_key: env.var_or("TERA_API_KEY", ""),
            tera_api_base: env.var_or("TERA_API_BASE", DEFAULT_TERA_API_BASE),
            grammar_model: read_llm_model(env, "TERA_GRAMMAR_MODEL"),
            question_model: read_llm_model(env, "TERA_QUESTION_MODEL"),
            journal_model: read_llm_model(env, "TERA_JOURNAL_MODEL"),
            llm_reasoning_effort: read_effort(env.var("TERA_LLM_REASONING_EFFORT")),
            activity_enabled: read_bool(env, "ASHE_ACTIVITY_ENABLED", true),
            activity_artifacts_dir: read_filled_var(env, "ASHE_ARTIFACTS_DIR", artifacts_dir),
            activity_capture_interval: capture_interval,
            activity_block_minutes: raise_u64(
                read_u64(env, "ASHE_BLOCK_MINUTES", DEFAULT_ACTIVITY_BLOCK_MINUTES),
                1,
            ),
            activity_monitor: read_i32(env, "ASHE_MONITOR", 1),
            activity_max_frame_gap_s: raise_u64(
                read_u64(env, "ASHE_MAX_FRAME_GAP_S", DEFAULT_ACTIVITY_MAX_FRAME_GAP_S),
                capture_interval,
            ),
            activity_max_frames_per_call: raise_usize(
                read_usize(env, "ASHE_MAX_FRAMES_PER_CALL", DEFAULT_ACTIVITY_MAX_FRAMES_PER_CALL),
                2,
            ),
            activity_min_active_seconds: read_u64(
                env,
                "ASHE_MIN_ACTIVE_SECONDS",
                DEFAULT_ACTIVITY_MIN_ACTIVE_SECONDS,
            ),
            activity_denylist: read_list(env, "ASHE_DENYLIST"),
            activity_frame_retention_minutes: read_u64(
                env,
                "ASHE_FRAME_RETENTION_MINUTES",
                DEFAULT_FRAME_RETENTION_MINUTES,
            ),
            activity_context_blocks: read_usize(env, "ASHE_CONTEXT_BLOCKS", DEFAULT_CONTEXT_BLOCKS),
            activity_context_summary_max_chars: raise_usize(
                read_usize(env, "ASHE_MAX_SUMMARY_CHARS", DEFAULT_CONTEXT_SUMMARY_MAX_CHARS),
                1,
            ),
            daily_report_enabled: read_bool(env, "ASHE_DAILY_REPORT_ENABLED", true),
            daily_report_grace_minutes: read_u64(
                env,
                "ASHE_DAILY_REPORT_GRACE_MINUTES",
                DEFAULT_DAILY_REPORT_GRACE_MINUTES,
            ),
            archive_recipient_json: read_filled_var(
                env,
                "ASHE_ARCHIVE_RECIPIENT_JSON",
                archive_recipient,
            ),
            archive_plaintext_days: raise_u64(
                read_u64(env, "ASHE_ARCHIVE_PLAINTEXT_DAYS", DEFAULT_ARCHIVE_PLAINTEXT_DAYS),
                2,
            ),
            archive_scan_minutes: raise_u64(
                read_u64(env, "ASHE_ARCHIVE_SCAN_MINUTES", DEFAULT_ARCHIVE_SCAN_MINUTES),
                1,
            ),
            worker_base_url: env.var_or("ASHE_WORKER_BASE_URL", ""),
            archive_upload_token: env.var_or("ASHE_ARCHIVE_UPLOAD_TOKEN", ""),
            paste_upload_token: env.var_or("ASHE_PASTE_UPLOAD_TOKEN", ""),
        }
    }
}

/// The features that use a language model.
#[derive(Clone, Copy, Debug, PartialEq, Eq, Structural)]
pub enum Feature {
    Grammar,
    Question,
    Journal,
}

/// What a configuration lacks.
#[derive(Clone, Copy, Debug, PartialEq, Eq, Structural)]
pub enum ConfigError {
    SampleRateOutOfRange,
    FalKeyMissing,
    SttTokenMissing,
    TeraKeyMissing,
    TeraBaseEmpty,
    ModelEmpty(Feature),
    WorkerBaseMissing,
    WorkerBaseInvalid,
    WorkerBaseNotHttps,
    WorkerBaseNotOrigin,
    RouteNotAbsolute,
    PasteTokenMissing,
}

impl ConfigError {
    pub open spec fn text(self) -> Seq<char> {
        match self {
            ConfigError::SampleRateOutOfRange =>
                "ASHE_OUTPUT_SAMPLE_RATE must be between 8000 and 192000"@,
            ConfigError::FalKeyMissing => "FAL_KEY is missing"@,
            ConfigError::SttTokenMissing => "ASHE_STT_TOKEN is missing"@,
            ConfigError::TeraKeyMissing => "TERA_API_KEY is missing"@,
            ConfigError::TeraBaseEmpty => "TERA_API_BASE is empty"@,
            ConfigError::ModelEmpty(Feature::Grammar) => "TERA_GRAMMAR_MODEL is empty"@,
            ConfigError::ModelEmpty(Feature::Question) => "TERA_QUESTION_MODEL is empty"@,
            ConfigError::ModelEmpty(Feature::Journal) => "TERA_JOURNAL_MODEL is empty"@,
            ConfigError::WorkerBaseMissing => "ASHE_WORKER_BASE_URL is missing"@,
            ConfigError::WorkerBaseInvalid => "ASHE_WORKER_BASE_URL is not a valid URL"@,
            ConfigError::WorkerBaseNotHttps => "ASHE_WORKER_BASE_URL must use HTTPS"@,
            ConfigError::WorkerBaseNotOrigin =>
                "ASHE_WORKER_BASE_URL must contain only an HTTPS origin"@,
            ConfigError::RouteNotAbsolute => "worker endpoint route must start with '/'"@,
            ConfigError::PasteTokenMissing => "ASHE_PASTE_UPLOAD_TOKEN is missing"@,
        }
    }

    pub fn message(&self) -> (r: &'static str)
        ensures
            r@ == self.text(),
    {
        match self {
            ConfigError::SampleRateOutOfRange =>
                "ASHE_OUTPUT_SAMPLE_RATE must be between 8000 and 192000",
            ConfigError::FalKeyMissing => "FAL_KEY is missing",
            ConfigError::SttTokenMissing => "ASHE_STT_TOKEN is missing",
            ConfigError::TeraKeyMissing => "TERA_API_KEY is missing",
            ConfigError::TeraBaseEmpty => "TERA_API_BASE is empty",
            ConfigError::ModelEmpty(Feature::Grammar) => "TERA_GRAMMAR_MODEL is empty",
            ConfigError::ModelEmpty(Feature::Question) => "TERA_QUESTION_MODEL is empty",
            ConfigError::ModelEmpty(Feature::Journal) => "TERA_JOURNAL_MODEL is empty",
            ConfigError::WorkerBaseMissing => "ASHE_WORKER_BASE_URL is missing",
            ConfigError::WorkerBaseInvalid => "ASHE_WORKER_BASE_URL is not a valid URL",
            ConfigError::WorkerBaseNotHttps => "ASHE_WORKER_BASE_URL must use HTTPS",
            ConfigError::WorkerBaseNotOrigin =>
                "ASHE_WORKER_BASE_URL must contain only an HTTPS origin",
            ConfigError::RouteNotAbsolute => "worker endpoint route must start with '/'",
            ConfigError::PasteTokenMissing => "ASHE_PASTE_UPLOAD_TOKEN is missing",
        }
    }
}

/// The parts of a URL.
#[derive(Debug, PartialEq)]
pub struct UrlParts {
    pub scheme: String,
    pub username: String,
    pub password: Option<String>,
    pub path: String,
    pub query: Option<String>,
    pub fragment: Option<String>,
}

/// What a `UrlParts` holds.
pub struct UrlPartsView {
    pub scheme: Seq<char>,
    pub username: Seq<char>,
    pub password: Option<Seq<char>>,
    pub path: Seq<char>,
    pub query: Option<Seq<char>>,
    pub fragment: Option<Seq<char>>,
}

impl View for UrlParts {
    type V = UrlPartsView;

    open spec fn view(&self) -> UrlPartsView {
        UrlPartsView {
            scheme: self.scheme@,
            username: self.username@,
            password: option_view(self.password),
            path: self.path@,
            query: option_view(self.query),
            fragment: option_view(self.fragment),
        }
    }
}

/// The parts of the URL that a text spells, or `None` where it spells none.
pub uninterp spec fn url_parts(text: Seq<char>) -> Option<UrlPartsView>;

/// `reqwest::Url::parse` and the accessors of its result. The contract names
/// the parts: they are a function of the text.
#[verifier::external_body]
fn parse_url(text: &str) -> (r: Option<UrlParts>)
    ensures
        match r {
            Some(parts) => url_parts(text@) == Some(parts@),
            None => url_parts(text@) is None,
        },
{
    let url = reqwest::Url::parse(text).ok()?;
    Some(UrlParts {
        scheme: url.scheme().to_string(),
        username: url.username().to_string(),
        password: url.password().map(|part| part.to_string()),
        path: url.path().to_string(),
        query: url.query().map(|part| part.to_string()),
        fragment: url.fragment().map(|part| part.to_string()),
    })
}

/// The base URL as it is used: trimmed, without trailing slashes.
pub open spec fn base_of(base_url: Seq<char>) -> Seq<char> {
    without_end(trimmed(base_url), CharClass::Slash)
}

/// Whether a URL is nothing but an origin.
pub open spec fn bare_origin(parts: UrlPartsView) -> bool {
    &&& parts.username.len() == 0
    &&& parts.password is None
    &&& parts.query is None
    &&& parts.fragment is None
    &&& parts.path == "/"@
}

/// The endpoint for a route under a base URL with the given parts, or what
/// is wrong with the base URL or the route.
pub open spec fn endpoint_of(
    base: Seq<char>,
    parts: Option<UrlPartsView>,
    route: Seq<char>,
) -> Result<Seq<char>, ConfigError> {
    if base.len() == 0 {
        Err(ConfigError::WorkerBaseMissing)
    } else {
        match parts {
            None => Err(ConfigError::WorkerBaseInvalid),
            Some(parts) => if parts.scheme != "https"@ {
                Err(ConfigError::WorkerBaseNotHttps)
            } else if !bare_origin(parts) {
                Err(ConfigError::WorkerBaseNotOrigin)
            } else if route.len() == 0 || route[0] != '/' {
                Err(ConfigError::RouteNotAbsolute)
            } else {
                Ok(base + route)
            },
        }
    }
}

pub open spec fn text_result(r: Result<String, ConfigError>) -> Result<Seq<char>, ConfigError> {
    match r {
        Ok(text) => Ok(text@),
        Err(e) => Err(e),
    }
}

/// The endpoint for a route, given the parts of the base URL.
pub fn endpoint_from(base: &[char], parts: Option<&UrlParts>, route: &str) -> (r: Result<
    String,
    ConfigError,
>)
    ensures
        text_result(r) == endpoint_of(
            base@,
            match parts {
                Some(parts) => Some(parts@),
                None => None,
            },
            route@,
        ),
{
    if base.len() == 0 {
        return Err(ConfigError::WorkerBaseMissing);
    }
    let parts: &UrlParts = match parts {
        Some(parts) => parts,
        None => {
            return Err(ConfigError::WorkerBaseInvalid);
        },
    };
    if !same_text(&parts.scheme, "https") {
        return Err(ConfigError::WorkerBaseNotHttps);
    }
    if chars_of(&parts.username).len() > 0 || parts.password.is_some() || parts.query.is_some()
        || parts.fragment.is_some() || !same_text(&parts.path, "/") {
        return Err(ConfigError::WorkerBaseNotOrigin);
    }
    let route: Vec<char> = chars_of(route);
    if route.len() == 0 || route[0] != '/' {
        return Err(ConfigError::RouteNotAbsolute);
    }
    let mut out: Vec<char> = part(base, 0, base.len());
    assert(out@ =~= base@);
    extend(&mut out, &route);
    Ok(string_of(&out))
}

/// The endpoint for a route under the worker's base URL, which must be a bare
/// HTTPS origin.
pub fn worker_endpoint_url(base_url: &str, route: &str) -> (r: Result<String, ConfigError>)
    ensures
        text_result(r) == endpoint_of(base_of(base_url@), url_parts(base_of(base_url@)), route@),
{
    let trimmed_base: Vec<char> = strip_ends(&chars_of(base_url), CharClass::WhiteSpace);
    let end: usize = end_len(&trimmed_base, CharClass::Slash);
    let base: Vec<char> = part(&trimmed_base, 0, end);
    assert(base@ =~= base_of(base_url@));
    let parts: Option<UrlParts> = parse_url(&string_of(&base));
    endpoint_from(&base, parts.as_ref(), route)
}

/// What dictation through the self-hosted engine lacks.
pub open spec fn self_hosted_problem(c: ConfigView) -> Option<ConfigError> {
    match endpoint_of(
        base_of(c.worker_base_url),
        url_parts(base_of(c.worker_base_url)),
        "/v1/stt/transcribe"@,
    ) {
        Err(e) => Some(e),
        Ok(_) => if trimmed(c.stt_token).len() == 0 {
            Some(ConfigError::SttTokenMissing)
        } else {
            None
        },
    }
}

pub open spec fn self_hosted(c: ConfigView) -> bool {
    ascii_lowered(trimmed(c.stt_backend)) == "selfhosted"@
}

/// What dictation lacks.
pub open spec fn dictation_problem(c: ConfigView) -> Option<ConfigError> {
    if !(8_000 <= c.output_sample_rate <= 192_000) {
        Some(ConfigError::SampleRateOutOfRange)
    } else if self_hosted(c) {
        self_hosted_problem(c)
    } else if trimmed(c.fal_api_key).len() == 0 {
        Some(ConfigError::FalKeyMissing)
    } else {
        None
    }
}

/// What a language-model feature lacks: its own model and the shared access
/// count, never another feature's model.
pub open spec fn feature_problem(c: ConfigView, feature: Feature) -> Option<ConfigError> {
    let model = match feature {
        Feature::Grammar => c.grammar_model,
        Feature::Question => c.question_model,
        Feature::Journal => c.journal_model,
    };
    if trimmed(c.tera_api_key).len() == 0 {
        Some(ConfigError::TeraKeyMissing)
    } else if trimmed(c.tera_api_base).len() == 0 {
        Some(ConfigError::TeraBaseEmpty)
    } else if trimmed(model).len() == 0 {
        Some(ConfigError::ModelEmpty(feature))
    } else {
        None
    }
}

/// What the image upload lacks.
pub open spec fn paste_problem(c: ConfigView) -> Option<ConfigError> {
    match endpoint_of(
        base_of(c.worker_base_url),
        url_parts(base_of(c.worker_base_url)),
        "/v1/pastes"@,
    ) {
        Err(e) => Some(e),
        Ok(_) => if trimmed(c.paste_upload_token).len() == 0 {
            Some(ConfigError::PasteTokenMissing)
        } else {
            None
        },
    }
}

pub open spec fn problem_of(r: Result<(), ConfigError>) -> Option<ConfigError> {
    match r {
        Ok(_) => None,
        Err(e) => Some(e),
    }
}

/// `true` or `false`.
pub open spec fn truth(b: bool) -> Seq<char> {
    if b {
        "true"@
    } else {
        "false"@
    }
}

pub open spec fn present(text: Seq<char>) -> bool {
    trimmed(text).len() > 0
}

fn truth_text(b: bool) -> (r: &'static str)
    ensures
        r@ == truth(b),
{
    if b {
        "true"
    } else {
        "false"
    }
}

fn add_field(out: &mut Vec<char>, label: &str, value: &[char])
    ensures
        final(out)@ == old(out)@ + label@ + value@,
{
    extend(out, &chars_of(label));
    extend(out, value);
}

fn add_truth(out: &mut Vec<char>, label: &str, value: bool)
    ensures
        final(out)@ == old(out)@ + label@ + truth(value),
{
    add_field(out, label, &chars_of(truth_text(value)));
}

fn add_number(out: &mut Vec<char>, label: &str, value: u64)
    ensures
        final(out)@ == old(out)@ + label@ + decimal(value as nat),
{
    add_field(out, label, &to_decimal(value));
}

/// One line for the log: the settings that explain what the program does,
/// and which credentials are there, but none of them.
pub open spec fn summary_of(c: ConfigView) -> Seq<char> {
    "language="@ + (if present(c.fal_language) {
        c.fal_language
    } else {
        "auto"@
    }) + " stt_backend="@ + trimmed(c.stt_backend) + " output_sample_rate="@ + decimal(
        c.output_sample_rate,
    ) + " fal_api_key_present="@ + truth(present(c.fal_api_key)) + " grammar_model="@
        + c.grammar_model + " question_model="@ + c.question_model + " journal_model="@
        + c.journal_model + " tera_api_key_present="@ + truth(present(c.tera_api_key))
        + " reasoning_effort_present="@ + truth(c.llm_reasoning_effort is Some)
        + " activity_enabled="@ + truth(c.activity_enabled) + " activity_artifacts="@
        + c.activity_artifacts_dir + " activity_capture_interval="@ + decimal(
        c.activity_capture_interval,
    ) + "s activity_max_frame_gap="@ + decimal(c.activity_max_frame_gap_s) + "s context_blocks="@
        + decimal(c.activity_context_blocks) + " summary_max_chars="@ + decimal(
        c.activity_context_summary_max_chars,
    ) + " daily_report_enabled="@ + truth(c.daily_report_enabled) + " daily_grace_minutes="@
        + decimal(c.daily_report_grace_minutes) + " archive_recipient_present="@ + truth(
        present(c.archive_recipient_json),
    ) + " archive_plaintext_days="@ + decimal(c.archive_plaintext_days)
        + " archive_upload_configured="@ + truth(
        present(c.worker_base_url) && present(c.archive_upload_token),
    ) + " paste_upload_configured="@ + truth(
        present(c.worker_base_url) && present(c.paste_upload_token),
    )
}

impl AppConfig {
    pub fn use_self_hosted_stt(&self) -> (r: bool)
        ensures
            r == self_hosted(self@),
    {
        spells(
            &lower_ascii(&strip_ends(&chars_of(&self.stt_backend), CharClass::WhiteSpace)),
            "selfhosted",
        )
    }

    pub fn worker_endpoint(&self, route: &str) -> (r: Result<String, ConfigError>)
        ensures
            text_result(r) == endpoint_of(
                base_of(self@.worker_base_url),
                url_parts(base_of(self@.worker_base_url)),
                route@,
            ),
    {
        worker_endpoint_url(&self.worker_base_url, route)
    }

    pub fn validate_for_self_hosted_stt(&self) -> (r: Result<(), ConfigError>)
        ensures
            problem_of(r) == self_hosted_problem(self@),
    {
        match self.worker_endpoint("/v1/stt/transcribe") {
            Err(e) => Err(e),
            Ok(_) => if is_blank(&self.stt_token) {
                Err(ConfigError::SttTokenMissing)
            } else {
                Ok(())
            },
        }
    }

    pub fn validate_for_dictation(&self) -> (r: Result<(), ConfigError>)
        ensures
            problem_of(r) == dictation_problem(self@),
    {
        if self.output_sample_rate < 8_000 || self.output_sample_rate > 192_000 {
            return Err(ConfigError::SampleRateOutOfRange);
        }
        if self.use_self_hosted_stt() {
            return self.validate_for_self_hosted_stt();
        }
        if is_blank(&self.fal_api_key) {
            return Err(ConfigError::FalKeyMissing);
        }
        Ok(())
    }

    fn validate_llm_model(&self, model: &str, feature: Feature) -> (r: Result<(), ConfigError>)
        requires
            model@ == match feature {
                Feature::Grammar => self@.grammar_model,
                Feature::Question => self@.question_model,
                Feature::Journal => self@.journal_model,
            },
        ensures
            problem_of(r) == feature_problem(self@, feature),
    {
        if is_blank(&self.tera_api_key) {
            return Err(ConfigError::TeraKeyMissing);
        }
        if is_blank(&self.tera_api_base) {
            return Err(ConfigError::TeraBaseEmpty);
        }
        if is_blank(model) {
            return Err(ConfigError::ModelEmpty(feature));
        }
        Ok(())
    }

    pub fn validate_for_grammar(&self) -> (r: Result<(), ConfigError>)
        ensures
            problem_of(r) == feature_problem(self@, Feature::Grammar),
    {
        self.validate_llm_model(&self.grammar_model, Feature::Grammar)
    }

    pub fn validate_for_question(&self) -> (r: Result<(), ConfigError>)
        ensures
            problem_of(r) == feature_problem(self@, Feature::Question),
    {
        self.validate_llm_model(&self.question_model, Feature::Question)
    }

    pub fn validate_for_journal(&self) -> (r: Result<(), ConfigError>)
        ensures
            problem_of(r) == feature_problem(self@, Feature::Journal),
    {
        self.validate_llm_model(&self.journal_model, Feature::Journal)
    }

    pub fn validate_for_paste(&self) -> (r: Result<(), ConfigError>)
        ensures
            problem_of(r) == paste_problem(self@),
    {
        match self.worker_endpoint("/v1/pastes") {
            Err(e) => Err(e),
            Ok(_) => if is_blank(&self.paste_upload_token) {
                Err(ConfigError::PasteTokenMissing)
            } else {
                Ok(())
            },
        }
    }

    /// One line for the log, without any credential.
    pub fn log_summary(&self) -> (r: String)
        ensures
            r@ == summary_of(self@),
    {
        let mut out: Vec<char> = chars_of("language=");
        if is_blank(&self.fal_language) {
            extend(&mut out, &chars_of("auto"));
        } else {
            extend(&mut out, &chars_of(&self.fal_language));
        }
        add_field(
            &mut out,
            " stt_backend=",
            &strip_ends(&chars_of(&self.stt_backend), CharClass::WhiteSpace),
        );
        add_number(&mut out, " output_sample_rate=", self.output_sample_rate as u64);
        add_truth(&mut out, " fal_api_key_present=", !is_blank(&self.fal_api_key));
        add_field(&mut out, " grammar_model=", &chars_of(&self.grammar_model));
        add_field(&mut out, " question_model=", &chars_of(&self.question_model));
        add_field(&mut out, " journal_model=", &chars_of(&self.journal_model));
        add_truth(&mut out, " tera_api_key_present=", !is_blank(&self.tera_api_key));
        add_truth(&mut out, " reasoning_effort_present=", self.llm_reasoning_effort.is_some());
        add_truth(&mut out, " activity_enabled=", self.activity_enabled);
        add_field(&mut out, " activity_artifacts=", &chars_of(&self.activity_artifacts_dir));
        add_number(&mut out, " activity_capture_interval=", self.activity_capture_interval);
        add_number(&mut out, "s activity_max_frame_gap=", self.activity_max_frame_gap_s);
        add_number(&mut out, "s context_blocks=", self.activity_context_blocks as u64);
        add_number(
            &mut out,
            " summary_max_chars=",
            self.activity_context_summary_max_chars as u64,
        );
        add_truth(&mut out, " daily_report_enabled=", self.daily_report_enabled);
        add_number(&mut out, " daily_grace_minutes=", self.daily_report_grace_minutes);
        add_truth(
            &mut out,
            " archive_recipient_present=",
            !is_blank(&self.archive_recipient_json),
        );
        add_number(&mut out, " archive_plaintext_days=", self.archive_plaintext_days);
        let worker: bool = !is_blank(&self.worker_base_url);
        add_truth(
            &mut out,
            " archive_upload_configured=",
            worker && !is_blank(&self.archive_upload_token),
        );
        add_truth(
            &mut out,
            " paste_upload_configured=",
            worker && !is_blank(&self.paste_upload_token),
        );
        string_of(&out)
    }
}

/// Features are validated on their own: another feature's model does not
/// matter.
pub proof fn features_are_independent(a: ConfigView, b: ConfigView, feature: Feature)
    requires
        a.tera_api_key == b.tera_api_key,
        a.tera_api_base == b.tera_api_base,
        feature is Grammar ==> a.grammar_model == b.grammar_model,
        feature is Question ==> a.question_model == b.question_model,
        feature is Journal ==> a.journal_model == b.journal_model,
    ensures
        feature_problem(a, feature) == feature_problem(b, feature),
{
}

/// The log line is the same whatever the credentials, the archive recipient,
/// the worker's address and the reasoning effort are, as long as the same ones
/// are there: it never shows one.
pub proof fn summary_hides_credentials(a: ConfigView, b: ConfigView)
    requires
        b == (ConfigView {
            fal_api_key: b.fal_api_key,
            stt_token: b.stt_token,
            tera_api_key: b.tera_api_key,
            archive_upload_token: b.archive_upload_token,
            paste_upload_token: b.paste_upload_token,
            archive_recipient_json: b.archive_recipient_json,
            worker_base_url: b.worker_base_url,
            llm_reasoning_effort: b.llm_reasoning_effort,
            ..a
        }),
        present(a.fal_api_key) == present(b.fal_api_key),
        present(a.tera_api_key) == present(b.tera_api_key),
        present(a.archive_upload_token) == present(b.archive_upload_token),
        present(a.paste_upload_token) == present(b.paste_upload_token),
        present(a.archive_recipient_json) == present(b.archive_recipient_json),
        present(a.worker_base_url) == present(b.worker_base_url),
        a.llm_reasoning_effort is Some == b.llm_reasoning_effort is Some,
    ensures
        summary_of(a) == summary_of(b),
{
}

/// Whatever the environment says, the intervals and limits stay usable.
pub proof fn settings_stay_in_range(
    env: Seq<(Seq<char>, Seq<char>)>,
    artifacts_dir: Seq<char>,
    archive_recipient: Seq<char>,
)
    ensures
        ({
            let c = configured(env, artifacts_dir, archive_recipient);
            &&& c.activity_capture_interval >= 1
            &&& c.activity_max_frame_gap_s >= c.activity_capture_interval
            &&& c.activity_block_minutes >= 1
            &&& c.activity_max_frames_per_call >= 2
            &&& c.activity_context_summary_max_chars >= 1
            &&& c.archive_plaintext_days >= 2
            &&& c.archive_scan_minutes >= 1
        }),
{
}

/// An endpoint is the base URL followed by the route, and comes only from a
/// bare HTTPS origin.
pub proof fn endpoints_derive_from_one_origin(
    base_url: Seq<char>,
    parts: Option<UrlPartsView>,
    route: Seq<char>,
)
    requires
        endpoint_of(base_of(base_url), parts, route) is Ok,
    ensures
        endpoint_of(base_of(base_url), parts, route)->Ok_0 == base_of(base_url) + route,
        parts is Some && parts->0.scheme == "https"@ && bare_origin(parts->0),
        route[0] == '/',
        base_of(base_url).last() != '/',
{
    crate::text::without_end_is_prefix(trimmed(base_url), CharClass::Slash);
}

/// The first variable of a name counts, and a name that no variable has is not
/// set.
pub proof fn first_variables_count(
    vars: Seq<(Seq<char>, Seq<char>)>,
    name: Seq<char>,
    value: Seq<char>,
    other: Seq<char>,
)
    ensures
        variable(Seq::empty(), name) is None,
        variable(seq![(name, value)] + vars, name) == Some(value),
        other != name ==> variable(seq![(other, value)] + vars, name) == variable(vars, name),
{
    assert((seq![(name, value)] + vars)[0].0 == name);
    assert((seq![(other, value)] + vars).drop_first() =~= vars);
}

/// A text setting is its variable as it is, or its default where that is not
/// set: no credential has one, dictation is in English through the queue, and
/// the language model is reached at its usual address.
pub proof fn texts_are_taken_as_they_are(
    env: Seq<(Seq<char>, Seq<char>)>,
    artifacts_dir: Seq<char>,
    archive_recipient: Seq<char>,
)
    ensures
        ({
            let c = configured(env, artifacts_dir, archive_recipient);
            let or_empty = |name: Seq<char>|
                match variable(env, name) {
                    Some(value) => value,
                    None => Seq::empty(),
                };
            &&& c.fal_api_key == or_empty("FAL_KEY"@)
            &&& c.stt_token == or_empty("ASHE_STT_TOKEN"@)
            &&& c.tera_api_key == or_empty("TERA_API_KEY"@)
            &&& c.worker_base_url == or_empty("ASHE_WORKER_BASE_URL"@)
            &&& c.archive_upload_token == or_empty("ASHE_ARCHIVE_UPLOAD_TOKEN"@)
            &&& c.paste_upload_token == or_empty("ASHE_PASTE_UPLOAD_TOKEN"@)
            &&& variable(env, "FAL_LANGUAGE"@) == Some(c.fal_language) || (variable(
                env,
                "FAL_LANGUAGE"@,
            ) is None && c.fal_language == "eng"@)
            &&& variable(env, "ASHE_STT_BACKEND"@) == Some(c.stt_backend) || (variable(
                env,
                "ASHE_STT_BACKEND"@,
            ) is None && c.stt_backend == "fal"@)
            &&& variable(env, "TERA_API_BASE"@) == Some(c.tera_api_base) || (variable(
                env,
                "TERA_API_BASE"@,
            ) is None && c.tera_api_base == "https://tera.asheservices.online/v1"@)
            &&& c.llm_reasoning_effort matches Some(effort) ==> effort.len() > 0 && variable(
                env,
                "TERA_LLM_REASONING_EFFORT"@,
            ) == Some(effort)
            &&& c.llm_reasoning_effort is None ==> or_empty("TERA_LLM_REASONING_EFFORT"@).len()
                == 0
        }),
{
    reveal_strlit("");
    assert(""@ =~= Seq::empty());
}

/// A path or recipient that is blank counts as not set.
pub proof fn blank_settings_are_replaced(
    env: Seq<(Seq<char>, Seq<char>)>,
    artifacts_dir: Seq<char>,
    archive_recipient: Seq<char>,
)
    ensures
        ({
            let c = configured(env, artifacts_dir, archive_recipient);
            let set = |name: Seq<char>| variable(env, name) matches Some(v) && trimmed(v).len() > 0;
            &&& set("ASHE_ARTIFACTS_DIR"@) ==> variable(env, "ASHE_ARTIFACTS_DIR"@) == Some(
                c.activity_artifacts_dir,
            )
            &&& !set("ASHE_ARTIFACTS_DIR"@) ==> c.activity_artifacts_dir == artifacts_dir
            &&& set("ASHE_ARCHIVE_RECIPIENT_JSON"@) ==> variable(
                env,
                "ASHE_ARCHIVE_RECIPIENT_JSON"@,
            ) == Some(c.archive_recipient_json)
            &&& !set("ASHE_ARCHIVE_RECIPIENT_JSON"@) ==> c.archive_recipient_json
                == archive_recipient
        }),
{
}

/// Each feature uses the model named for it, or else the shared one, or else
/// the default one; no feature uses the model named for another.
pub proof fn models_are_set_apart(
    env: Seq<(Seq<char>, Seq<char>)>,
    artifacts_dir: Seq<char>,
    archive_recipient: Seq<char>,
)
    ensures
        ({
            let c = configured(env, artifacts_dir, archive_recipient);
            let shared = match variable(env, "TERA_MODEL"@) {
                Some(model) => model,
                None => "gemini-latest"@,
            };
            let used = |own: Seq<char>|
                match variable(env, own) {
                    Some(model) => model,
                    None => shared,
                };
            &&& c.grammar_model == used("TERA_GRAMMAR_MODEL"@)
            &&& c.question_model == used("TERA_QUESTION_MODEL"@)
            &&& c.journal_model == used("TERA_JOURNAL_MODEL"@)
        }),
{
}

/// A switch is on for `1`, `true`, `yes` and `on`, off for `0`, `false`, `no`
/// and `off`, in any case and with white space around it, and as it is by
/// default for anything else or where it is not set. Spoken punctuation,
/// activity tracking and the daily report are on by default.
pub proof fn switches_are_read_in_any_case(
    env: Seq<(Seq<char>, Seq<char>)>,
    name: Seq<char>,
    default: bool,
    artifacts_dir: Seq<char>,
    archive_recipient: Seq<char>,
)
    ensures
        ({
            let on = switch_or(env, name, default);
            let says = |word: Seq<char>|
                variable(env, name) matches Some(value) && ascii_lowered(trimmed(value)) == word;
            let yes = says("1"@) || says("true"@) || says("yes"@) || says("on"@);
            let no = says("0"@) || says("false"@) || says("no"@) || says("off"@);
            &&& yes ==> on
            &&& no ==> !on
            &&& !yes && !no ==> on == default
        }),
        ({
            let c = configured(env, artifacts_dir, archive_recipient);
            &&& c.spoken_punctuation == switch_or(env, "ASHE_SPOKEN_PUNCTUATION"@, true)
            &&& c.activity_enabled == switch_or(env, "ASHE_ACTIVITY_ENABLED"@, true)
            &&& c.daily_report_enabled == switch_or(env, "ASHE_DAILY_REPORT_ENABLED"@, true)
        }),
{
    reveal_strlit("1");
    reveal_strlit("true");
    reveal_strlit("yes");
    reveal_strlit("on");
    reveal_strlit("0");
    reveal_strlit("false");
    reveal_strlit("no");
    reveal_strlit("off");
    assert("1"@.len() == 1 && "1"@[0] == '1' && "0"@.len() == 1 && "0"@[0] == '0');
    assert("yes"@.len() == 3 && "yes"@[0] == 'y' && "off"@.len() == 3 && "off"@[0] == 'o');
    assert("on"@.len() == 2 && "on"@[0] == 'o' && "no"@.len() == 2 && "no"@[0] == 'n');
    assert("true"@.len() == 4 && "false"@.len() == 5);
}

/// A number is read as it is written, up to its largest value, and anything
/// else counts as not set.
pub proof fn numbers_are_read_as_written(
    env: Seq<(Seq<char>, Seq<char>)>,
    name: Seq<char>,
    max: nat,
    default: nat,
    n: nat,
)
    ensures
        variable(env, name) == Some(decimal(n)) && n <= max ==> number_or(env, name, max, default)
            == n,
        variable(env, name) == Some(decimal(n)) && n > max ==> number_or(env, name, max, default)
            == default,
        variable(env, name) is None ==> number_or(env, name, max, default) == default,
        default <= max ==> number_or(env, name, max, default) <= max,
        variable(env, name) == Some(decimal(n)) && n <= 0x7fff_ffff ==> signed_or(env, name, -1)
            == n,
        variable(env, name) == Some(seq!['-'] + decimal(n)) && n <= 0x7fff_ffff ==> signed_or(
            env,
            name,
            1,
        ) == -n,
{
    numbers_are_read_with_their_sign(n, max);
    decimals_read_back(n);
    digits_are_not_trimmed(decimal(n));
    digits_are_not_trimmed(seq!['-'] + decimal(n));
}

proof fn digits_are_not_trimmed(s: Seq<char>)
    requires
        s.len() > 0,
        '!' <= s[0] <= '~',
        '!' <= s.last() <= '~',
    ensures
        trimmed(s) == s,
{
}

/// The settings that are numbers, from what the environment says of each:
/// seconds between frames, minutes to a block, days of plain text and the
/// like, raised to what is still usable.
pub proof fn numeric_settings_have_their_defaults(
    env: Seq<(Seq<char>, Seq<char>)>,
    artifacts_dir: Seq<char>,
    archive_recipient: Seq<char>,
)
    ensures
        ({
            let c = configured(env, artifacts_dir, archive_recipient);
            let unset = |name: Seq<char>| variable(env, name) is None;
            &&& unset("ASHE_OUTPUT_SAMPLE_RATE"@) ==> c.output_sample_rate == 48_000
            &&& unset("ASHE_CAPTURE_INTERVAL"@) ==> c.activity_capture_interval == 10
            &&& unset("ASHE_BLOCK_MINUTES"@) ==> c.activity_block_minutes == 10
            &&& unset("ASHE_MONITOR"@) ==> c.activity_monitor == 1
            &&& unset("ASHE_MAX_FRAME_GAP_S"@) ==> c.activity_max_frame_gap_s == if
                c.activity_capture_interval > 30 {
                c.activity_capture_interval
            } else {
                30
            }
            &&& unset("ASHE_MAX_FRAMES_PER_CALL"@) ==> c.activity_max_frames_per_call == 100
            &&& unset("ASHE_MIN_ACTIVE_SECONDS"@) ==> c.activity_min_active_seconds == 30
            &&& unset("ASHE_FRAME_RETENTION_MINUTES"@) ==> c.activity_frame_retention_minutes == 30
            &&& unset("ASHE_CONTEXT_BLOCKS"@) ==> c.activity_context_blocks == 6
            &&& unset("ASHE_MAX_SUMMARY_CHARS"@) ==> c.activity_context_summary_max_chars == 1_500
            &&& unset("ASHE_DAILY_REPORT_GRACE_MINUTES"@) ==> c.daily_report_grace_minutes == 15
            &&& unset("ASHE_ARCHIVE_PLAINTEXT_DAYS"@) ==> c.archive_plaintext_days == 2
            &&& unset("ASHE_ARCHIVE_SCAN_MINUTES"@) ==> c.archive_scan_minutes == 5
            &&& unset("ASHE_DENYLIST"@) ==> c.activity_denylist.len() == 0
        }),
{
}

/// A number in the environment is used where it is usable, and the least
/// usable one in its place where it is less.
pub proof fn numeric_settings_follow_the_environment(
    env: Seq<(Seq<char>, Seq<char>)>,
    artifacts_dir: Seq<char>,
    archive_recipient: Seq<char>,
    n: nat,
)
    requires
        n <= u32::MAX,
    ensures
        ({
            let c = configured(env, artifacts_dir, archive_recipient);
            let says = |name: Seq<char>| variable(env, name) == Some(decimal(n));
            let least = |floor: nat|
                if n < floor {
                    floor
                } else {
                    n
                };
            &&& says("ASHE_OUTPUT_SAMPLE_RATE"@) ==> c.output_sample_rate == n
            &&& says("ASHE_CAPTURE_INTERVAL"@) ==> c.activity_capture_interval == least(1)
            &&& says("ASHE_BLOCK_MINUTES"@) ==> c.activity_block_minutes == least(1)
            &&& says("ASHE_MONITOR"@) && n <= 0x7fff_ffff ==> c.activity_monitor == n
            &&& says("ASHE_MAX_FRAME_GAP_S"@) ==> c.activity_max_frame_gap_s == least(
                c.activity_capture_interval,
            )
            &&& says("ASHE_MAX_FRAMES_PER_CALL"@) ==> c.activity_max_frames_per_call == least(2)
            &&& says("ASHE_MIN_ACTIVE_SECONDS"@) ==> c.activity_min_active_seconds == n
            &&& says("ASHE_FRAME_RETENTION_MINUTES"@) ==> c.activity_frame_retention_minutes == n
            &&& says("ASHE_CONTEXT_BLOCKS"@) ==> c.activity_context_blocks == n
            &&& says("ASHE_MAX_SUMMARY_CHARS"@) ==> c.activity_context_summary_max_chars == least(
                1,
            )
            &&& says("ASHE_DAILY_REPORT_GRACE_MINUTES"@) ==> c.daily_report_grace_minutes == n
            &&& says("ASHE_ARCHIVE_PLAINTEXT_DAYS"@) ==> c.archive_plaintext_days == least(2)
            &&& says("ASHE_ARCHIVE_SCAN_MINUTES"@) ==> c.archive_scan_minutes == least(1)
        }),
{
    decimals_read_back(n);
    digits_are_not_trimmed(decimal(n));
    numbers_are_read_with_their_sign(n, u32::MAX as nat);
    numbers_are_read_with_their_sign(n, u64::MAX as nat);
    numbers_are_read_with_their_sign(n, usize::MAX as nat);
}

/// The entries of a list keep their order; each is trimmed and in lowercase,
/// and blank ones are left out.
pub proof fn lists_hold_their_entries(parts: Seq<Seq<char>>, part: Seq<char>)
    ensures
        entries_of(Seq::empty()).len() == 0,
        trimmed(part).len() == 0 ==> entries_of(parts.push(part)) == entries_of(parts),
        trimmed(part).len() > 0 ==> entries_of(parts.push(part)) == entries_of(parts).push(
            ascii_lowered(trimmed(part)),
        ),
{
    assert(parts.push(part).drop_last() =~= parts);
}

/// The denylist is the list of its variable, separated by semicolons.
pub proof fn denylists_are_separated_by_semicolons(
    env: Seq<(Seq<char>, Seq<char>)>,
    artifacts_dir: Seq<char>,
    archive_recipient: Seq<char>,
    value: Seq<char>,
)
    requires
        variable(env, "ASHE_DENYLIST"@) == Some(value),
    ensures
        configured(env, artifacts_dir, archive_recipient).activity_denylist == entries_of(
            pieces(value, ';'),
        ),
        !value.contains(';') && trimmed(value).len() > 0 ==> configured(
            env,
            artifacts_dir,
            archive_recipient,
        ).activity_denylist == seq![ascii_lowered(trimmed(value))],
{
    if !value.contains(';') {
        unsplit_text_is_one_piece(value, ';');
        lists_hold_their_entries(Seq::empty(), value);
        assert(Seq::empty().push(value) =~= seq![value]);
        assert(entries_of(Seq::empty()).push(ascii_lowered(trimmed(value))) =~= seq![
            ascii_lowered(trimmed(value)),
        ]);
    }
}

proof fn unsplit_text_is_one_piece(s: Seq<char>, separator: char)
    requires
        !s.contains(separator),
    ensures
        pieces(s, separator) == seq![s],
    decreases s.len(),
{
    if s.len() > 0 {
        let rest = s.drop_last();
        assert(s[s.len() - 1] != separator);
        assert(!rest.contains(separator)) by {
            if rest.contains(separator) {
                let i = choose|i: int| 0 <= i < rest.len() && rest[i] == separator;
                assert(s[i] == separator);
            }
        }
        unsplit_text_is_one_piece(rest, separator);
        assert(rest.push(s.last()) =~= s);
        assert(pieces(s, separator) =~= seq![s]);
    } else {
        assert(s =~= Seq::empty());
        assert(pieces(s, separator) =~= seq![s]);
    }
}

/// Dictation can start exactly with a rate from 8000 to 192000 and a key for
/// its engine: the queue's, or, where the engine is self-hosted, a token and a
/// worker to send to.
pub proof fn dictation_needs_a_rate_and_a_key(c: ConfigView)
    ensures
        ({
            let rate = 8_000 <= c.output_sample_rate <= 192_000;
            let own = ascii_lowered(trimmed(c.stt_backend)) == "selfhosted"@;
            let base = base_of(c.worker_base_url);
            let worker = base.len() > 0 && (url_parts(base) matches Some(parts) && parts.scheme
                == "https"@ && bare_origin(parts));
            &&& dictation_problem(c) is None <==> rate && (if own {
                worker && trimmed(c.stt_token).len() > 0
            } else {
                trimmed(c.fal_api_key).len() > 0
            })
            &&& !rate <==> dictation_problem(c) == Some(ConfigError::SampleRateOutOfRange)
            &&& dictation_problem(c) == Some(ConfigError::FalKeyMissing) <==> rate && !own
                && trimmed(c.fal_api_key).len() == 0
            &&& dictation_problem(c) == Some(ConfigError::SttTokenMissing) <==> rate && own
                && worker && trimmed(c.stt_token).len() == 0
        }),
{
    reveal_strlit("/v1/stt/transcribe");
    assert("/v1/stt/transcribe"@[0] == '/');
}

/// A feature of the language model can run exactly with the key, the address
/// and its own model, and the first that is missing is named.
pub proof fn features_need_a_key_and_a_model(c: ConfigView, feature: Feature)
    ensures
        ({
            let model = match feature {
                Feature::Grammar => c.grammar_model,
                Feature::Question => c.question_model,
                Feature::Journal => c.journal_model,
            };
            let key = trimmed(c.tera_api_key).len() > 0;
            let address = trimmed(c.tera_api_base).len() > 0;
            let named = trimmed(model).len() > 0;
            &&& feature_problem(c, feature) is None <==> key && address && named
            &&& !key <==> feature_problem(c, feature) == Some(ConfigError::TeraKeyMissing)
            &&& key && !address <==> feature_problem(c, feature) == Some(ConfigError::TeraBaseEmpty)
            &&& key && address && !named <==> feature_problem(c, feature) == Some(
                ConfigError::ModelEmpty(feature),
            )
        }),
{
}

/// Images can be uploaded exactly with a worker to send to and a token.
pub proof fn uploads_need_a_worker_and_a_token(c: ConfigView)
    ensures
        ({
            let base = base_of(c.worker_base_url);
            let worker = base.len() > 0 && (url_parts(base) matches Some(parts) && parts.scheme
                == "https"@ && bare_origin(parts));
            &&& paste_problem(c) is None <==> worker && trimmed(c.paste_upload_token).len() > 0
            &&& paste_problem(c) == Some(ConfigError::PasteTokenMissing) <==> worker && trimmed(
                c.paste_upload_token,
            ).len() == 0
            &&& paste_problem(c) == Some(ConfigError::WorkerBaseMissing) <==> base.len() == 0
        }),
{
    reveal_strlit("/v1/pastes");
    assert("/v1/pastes"@[0] == '/');
}

/// What is wrong with a worker's address is told in order: that there is none,
/// that it is no URL, that it is not HTTPS, or that it says more than an
/// origin. Only then does the route count.
pub proof fn worker_addresses_are_origins(
    base: Seq<char>,
    parts: Option<UrlPartsView>,
    route: Seq<char>,
)
    ensures
        ({
            let outcome = endpoint_of(base, parts, route);
            let fails = |e: ConfigError| outcome == Err::<Seq<char>, ConfigError>(e);
            let secure = parts matches Some(p) && p.scheme == "https"@;
            let bare = parts matches Some(p) && p.username.len() == 0 && p.password is None
                && p.query is None && p.fragment is None && p.path == "/"@;
            &&& base.len() == 0 <==> fails(ConfigError::WorkerBaseMissing)
            &&& base.len() > 0 && parts is None <==> fails(ConfigError::WorkerBaseInvalid)
            &&& base.len() > 0 && parts is Some && !secure <==> fails(
                ConfigError::WorkerBaseNotHttps,
            )
            &&& base.len() > 0 && secure && !bare <==> fails(ConfigError::WorkerBaseNotOrigin)
            &&& base.len() > 0 && secure && bare && (route.len() == 0 || route[0] != '/')
                <==> fails(ConfigError::RouteNotAbsolute)
            &&& base.len() > 0 && secure && bare && route.len() > 0 && route[0] == '/'
                <==> outcome == Ok::<Seq<char>, ConfigError>(base + route)
        }),
{
}

} // verus!
