//! How the broker is configured: by flags, by environment variables, and by
//! defaults, in this order.
use crate::gpu::VramSource;
use crate::text::{chars_of, parse_u64};
use vstd::prelude::*;

verus! {

/// What a value of a setting has to be.
#[derive(Debug, Clone, Copy, PartialEq, Eq, Structural)]
pub enum Kind {
    Text,
    Path,
    Port,
    Number,
    Source,
}

/// A setting: its flag without the leading dashes, what stands for its value in
/// texts, the environment variable that stands in for the flag, what it means,
/// what its value has to be, and whether it needs one.
#[derive(Debug, Clone, Copy)]
pub struct Setting {
    pub flag: &'static str,
    pub value_name: &'static str,
    pub variable: &'static str,
    pub help: &'static str,
    pub kind: Kind,
    pub required: bool,
}

#[derive(Debug, Clone)]
pub struct BrokerConfig {
    /// Port to bind on 127.0.0.1.
    pub port: u16,
    /// Base URL of the `llama-server` that is shared.
    pub llama_server_url: String,
    /// Directory of the KV-cache store.
    pub kvcache_store_path: String,
    /// Size at which the KV-cache store evicts.
    pub kvcache_max_bytes: u64,
    /// How long a request may wait for a slot.
    pub queue_timeout_secs: u64,
    /// How long a client may wait for the GPU lock.
    pub gpu_lock_queue_timeout_secs: u64,
    /// How long a lease of the GPU lock may be held before it is reaped.
    pub gpu_lock_max_hold_secs: u64,
    /// Where VRAM is read from.
    pub vram_source: VramSource,
}

/// Why there is no configuration.
#[derive(Debug, Clone)]
pub enum ConfigError {
    /// The command line is not understood, lacks something, or asks for help:
    /// what to print, and the status to exit with.
    Usage { text: String, exit_code: i32 },
    /// The setting at this place in the table has a value that is none.
    Invalid(usize),
    /// The setting at this place in the table is required.
    Missing(usize),
}

// The places of the settings in their table.

pub const PORT: usize = 0;

pub const LLAMA_SERVER_URL: usize = 1;

pub const KVCACHE_STORE_PATH: usize = 2;

pub const KVCACHE_MAX_BYTES: usize = 3;

pub const QUEUE_TIMEOUT_SECS: usize = 4;

pub const GPU_LOCK_QUEUE_TIMEOUT_SECS: usize = 5;

pub const GPU_LOCK_MAX_HOLD_SECS: usize = 6;

pub const VRAM_SOURCE: usize = 7;

pub const SETTINGS: usize = 8;

// ---------------------------------------------------------------------------
// Model
// ---------------------------------------------------------------------------

pub ghost struct BrokerConfigView {
    pub port: u16,
    pub llama_server_url: Seq<char>,
    pub kvcache_store_path: Seq<char>,
    pub kvcache_max_bytes: u64,
    pub queue_timeout_secs: u64,
    pub gpu_lock_queue_timeout_secs: u64,
    pub gpu_lock_max_hold_secs: u64,
    pub vram_source: VramSource,
}

impl View for BrokerConfig {
    type V = BrokerConfigView;

    open spec fn view(&self) -> BrokerConfigView {
        BrokerConfigView {
            port: self.port,
            llama_server_url: self.llama_server_url@,
            kvcache_store_path: self.kvcache_store_path@,
            kvcache_max_bytes: self.kvcache_max_bytes,
            queue_timeout_secs: self.queue_timeout_secs,
            gpu_lock_queue_timeout_secs: self.gpu_lock_queue_timeout_secs,
            gpu_lock_max_hold_secs: self.gpu_lock_max_hold_secs,
            vram_source: self.vram_source,
        }
    }
}

pub ghost struct SettingView {
    pub flag: Seq<char>,
    pub value_name: Seq<char>,
    pub variable: Seq<char>,
    pub help: Seq<char>,
    pub kind: Kind,
    pub required: bool,
}

impl View for Setting {
    type V = SettingView;

    open spec fn view(&self) -> SettingView {
        SettingView {
            flag: self.flag@,
            value_name: self.value_name@,
            variable: self.variable@,
            help: self.help@,
            kind: self.kind,
            required: self.required,
        }
    }
}

/// The texts of a list of optional values.
pub open spec fn value_views(values: Seq<Option<String>>) -> Seq<Option<Seq<char>>> {
    values.map_values(|value: Option<String>| crate::scheduler::text_model(value))
}

/// The texts of a list of arguments.
pub open spec fn argument_views(argv: Seq<String>) -> Seq<Seq<char>> {
    argv.map_values(|argument: String| argument@)
}

/// The views of a list of settings.
pub open spec fn setting_views(settings: Seq<Setting>) -> Seq<SettingView> {
    settings.map_values(|setting: Setting| setting@)
}

/// Flags that can stand beside each other and beside the `--help` that is
/// always there.
pub open spec fn proper_flags(settings: Seq<SettingView>) -> bool {
    &&& forall|k: int|
        0 <= k < settings.len() ==> {
            &&& (#[trigger] settings[k]).flag.len() > 0
            &&& settings[k].flag[0] != '-'
            &&& settings[k].flag != "help"@
        }
    &&& forall|k: int, l: int|
        0 <= k < l < settings.len() ==> (#[trigger] settings[k]).flag != (
        #[trigger] settings[l]).flag
}

/// The table of the settings.
pub open spec fn table() -> Seq<SettingView> {
    seq![
        SettingView {
            flag: "port"@,
            value_name: "PORT"@,
            variable: "AIVYX_BROKER_PORT"@,
            help: "Port to bind on 127.0.0.1 [default: 8899]"@,
            kind: Kind::Port,
            required: false,
        },
        SettingView {
            flag: "llama-server-url"@,
            value_name: "LLAMA_SERVER_URL"@,
            variable: "AIVYX_BROKER_LLAMA_SERVER_URL"@,
            help: "Base URL of the llama-server to share"@,
            kind: Kind::Text,
            required: true,
        },
        SettingView {
            flag: "kvcache-store-path"@,
            value_name: "KVCACHE_STORE_PATH"@,
            variable: "AIVYX_BROKER_KVCACHE_STORE_PATH"@,
            help: "Directory of the shared KV-cache store"@,
            kind: Kind::Path,
            required: true,
        },
        SettingView {
            flag: "kvcache-max-bytes"@,
            value_name: "KVCACHE_MAX_BYTES"@,
            variable: "AIVYX_BROKER_KVCACHE_MAX_BYTES"@,
            help: "Bytes that the KV-cache store may hold before it evicts [default: 10737418240]"@,
            kind: Kind::Number,
            required: false,
        },
        SettingView {
            flag: "queue-timeout-secs"@,
            value_name: "QUEUE_TIMEOUT_SECS"@,
            variable: "AIVYX_BROKER_QUEUE_TIMEOUT_SECS"@,
            help: "How long a request may wait for a free slot [default: 60]"@,
            kind: Kind::Number,
            required: false,
        },
        SettingView {
            flag: "gpu-lock-queue-timeout-secs"@,
            value_name: "GPU_LOCK_QUEUE_TIMEOUT_SECS"@,
            variable: "AIVYX_BROKER_GPU_LOCK_QUEUE_TIMEOUT_SECS"@,
            help: "How long a client may wait for the GPU lock [default: 300]"@,
            kind: Kind::Number,
            required: false,
        },
        SettingView {
            flag: "gpu-lock-max-hold-secs"@,
            value_name: "GPU_LOCK_MAX_HOLD_SECS"@,
            variable: "AIVYX_BROKER_GPU_LOCK_MAX_HOLD_SECS"@,
            help: "How long a GPU lock lease may be held before it is reaped [default: 900]"@,
            kind: Kind::Number,
            required: false,
        },
        SettingView {
            flag: "vram-source"@,
            value_name: "VRAM_SOURCE"@,
            variable: "AIVYX_BROKER_VRAM_SOURCE"@,
            help: "Where VRAM is read from: auto, nvidia, amd or none [default: auto]"@,
            kind: Kind::Source,
            required: false,
        },
    ]
}

/// A text that a setting of this kind takes for a value.
pub open spec fn is_value(kind: Kind, text: Seq<char>) -> bool {
    match kind {
        Kind::Text => true,
        Kind::Path => text.len() > 0,
        Kind::Port => port_of(Some(text)) is Some,
        Kind::Number => number_of(Some(text), 0) is Some,
        Kind::Source => vram_source_of(Some(text)) is Some,
    }
}

/// What `clap` makes of the arguments (the first is the program's name) when
/// each of the settings is an option with one value, which has to be one of
/// the setting's kind: the value of each setting, as far as it was given, or
/// nothing if the arguments are not taken.
pub uninterp spec fn clap_values(
    settings: Seq<SettingView>,
    argv: Seq<Seq<char>>,
) -> Option<Seq<Option<Seq<char>>>>;

/// The status that `clap` exits with on arguments that it does not take: 0
/// where they ask for help, and 2 otherwise.
pub uninterp spec fn clap_exit_code(settings: Seq<SettingView>, argv: Seq<Seq<char>>) -> i32;

/// What `clap` prints on arguments that it does not take.
pub uninterp spec fn clap_text(settings: Seq<SettingView>, argv: Seq<Seq<char>>) -> Seq<char>;

/// The values that count: what the command line says, or else the environment.
pub open spec fn effective(
    command_line: Seq<Option<Seq<char>>>,
    environment: Seq<Option<Seq<char>>>,
) -> Seq<Option<Seq<char>>> {
    Seq::new(
        SETTINGS as nat,
        |k: int|
            if command_line[k] is Some {
                command_line[k]
            } else {
                environment[k]
            },
    )
}

/// A setting that is a number: its default if there is no value, and nothing
/// if the value is no number.
pub open spec fn number_of(value: Option<Seq<char>>, default: u64) -> Option<u64> {
    match value {
        Some(text) => crate::text::decimal_u64(text),
        None => Some(default),
    }
}

/// A port number, which may have a sign in front.
pub open spec fn port_of(value: Option<Seq<char>>) -> Option<u16> {
    match value {
        Some(text) => {
            let digits = if text.len() > 0 && text[0] == '-' {
                text.drop_first()
            } else {
                crate::text::unsigned_part(text)
            };
            let n = crate::text::decimal_value(digits);
            if digits.len() == 0 || !crate::text::all_digits(digits) {
                None
            } else if text[0] == '-' && n != 0 || n > u16::MAX {
                None
            } else {
                Some(n as u16)
            }
        },
        None => Some(8899),
    }
}

pub open spec fn vram_source_of(value: Option<Seq<char>>) -> Option<VramSource> {
    match value {
        Some(text) => if text == "auto"@ {
            Some(VramSource::Auto)
        } else if text == "nvidia"@ {
            Some(VramSource::Nvidia)
        } else if text == "amd"@ {
            Some(VramSource::Amd)
        } else if text == "none"@ {
            Some(VramSource::Off)
        } else {
            None
        },
        None => Some(VramSource::Auto),
    }
}

/// The first setting from place `k` on whose value is none.
pub open spec fn first_invalid_from(values: Seq<Option<Seq<char>>>, k: nat) -> Option<usize>
    decreases SETTINGS - k,
{
    if k >= SETTINGS {
        None
    } else if values[k as int] is Some && !is_value(
        table()[k as int].kind,
        values[k as int]->0,
    ) {
        Some(k as usize)
    } else {
        first_invalid_from(values, k + 1)
    }
}

/// The first setting whose value is none, in the order of the table.
pub open spec fn first_invalid(values: Seq<Option<Seq<char>>>) -> Option<usize> {
    first_invalid_from(values, 0)
}

/// The first required setting without a value, in the order of the table.
pub open spec fn first_missing(values: Seq<Option<Seq<char>>>) -> Option<usize> {
    if values[LLAMA_SERVER_URL as int] is None {
        Some(LLAMA_SERVER_URL)
    } else if values[KVCACHE_STORE_PATH as int] is None {
        Some(KVCACHE_STORE_PATH)
    } else {
        None
    }
}

/// The configuration that these values come to, if all of them are valid and
/// none is missing.
pub open spec fn config_of(values: Seq<Option<Seq<char>>>) -> BrokerConfigView {
    BrokerConfigView {
        port: port_of(values[PORT as int])->0,
        llama_server_url: values[LLAMA_SERVER_URL as int]->0,
        kvcache_store_path: values[KVCACHE_STORE_PATH as int]->0,
        kvcache_max_bytes: number_of(values[KVCACHE_MAX_BYTES as int], 10737418240)->0,
        queue_timeout_secs: number_of(values[QUEUE_TIMEOUT_SECS as int], 60)->0,
        gpu_lock_queue_timeout_secs: number_of(
            values[GPU_LOCK_QUEUE_TIMEOUT_SECS as int],
            300,
        )->0,
        gpu_lock_max_hold_secs: number_of(values[GPU_LOCK_MAX_HOLD_SECS as int], 900)->0,
        vram_source: vram_source_of(values[VRAM_SOURCE as int])->0,
    }
}

/// What the values come to: an error for the first that is invalid, then for
/// the first that is missing, and else the configuration.
pub open spec fn is_outcome(
    r: Result<BrokerConfig, ConfigError>,
    values: Seq<Option<Seq<char>>>,
) -> bool {
    match r {
        Ok(config) => {
            &&& first_invalid(values) is None
            &&& first_missing(values) is None
            &&& config@ == config_of(values)
        },
        Err(ConfigError::Invalid(k)) => first_invalid(values) == Some(k),
        Err(ConfigError::Missing(k)) => {
            &&& first_invalid(values) is None
            &&& first_missing(values) == Some(k)
        },
        Err(ConfigError::Usage { .. }) => false,
    }
}

/// What is asked of the command line beside this environment. A required
/// setting has to stand there only if the environment has no value for it; and
/// where the environment has a value that is none, nothing has to: that value
/// is complained of first, should it count.
pub open spec fn asked(environment: Seq<Option<Seq<char>>>) -> Seq<SettingView> {
    Seq::new(
        SETTINGS as nat,
        |k: int|
            SettingView {
                required: table()[k].required && environment[k] is None && first_invalid(
                    environment,
                ) is None,
                ..table()[k]
            },
    )
}

// ---------------------------------------------------------------------------
// The command line
// ---------------------------------------------------------------------------

/// What is wrong with a text that is no value of its kind.
pub open spec fn complaint_of(kind: Kind) -> Seq<char> {
    match kind {
        Kind::Text => "not a text"@,
        Kind::Path => "not a path"@,
        Kind::Port => "not a number from 0 to 65535"@,
        Kind::Number => "not a number from 0 to 18446744073709551615"@,
        Kind::Source => "not one of auto, nvidia, amd, none"@,
    }
}

/// Takes a text for a value of this kind, as it is, or says what is wrong.
fn accept(kind: Kind, text: &str) -> (r: Result<String, String>)
    ensures
        match r {
            Ok(value) => is_value(kind, text@) && value@ == text@,
            Err(complaint) => !is_value(kind, text@) && complaint@ == complaint_of(kind),
        },
{
    if takes(kind, text) {
        return Ok(String::from_str(text));
    }
    Err(
        String::from_str(
            match kind {
                Kind::Text => "not a text",
                Kind::Path => "not a path",
                Kind::Port => "not a number from 0 to 65535",
                Kind::Number => "not a number from 0 to 18446744073709551615",
                Kind::Source => "not one of auto, nvidia, amd, none",
            },
        ),
    )
}

/// Calls `clap::Command::try_get_matches_from` on a command that has one
/// option for each of the settings, with a single value that `accept` has to
/// take, and reads the options' values with `clap::ArgMatches::get_one`, or
/// the text and the exit status with the `to_string` and `exit_code` of
/// `clap::Error`. Which values it finds, when it finds none, and the text and
/// the status then are left to names. Claimed besides is that it hands out
/// only values that were accepted, and that the status is 0 or 2. The call
/// panics on flags that `clap` does not allow.
#[verifier::external_body]
fn parse_command_line(settings: &Vec<Setting>, argv: &Vec<String>) -> (r: Result<
    Vec<Option<String>>,
    ConfigError,
>)
    requires
        proper_flags(setting_views(settings@)),
    ensures
        match r {
            Ok(values) => {
                &&& clap_values(setting_views(settings@), argument_views(argv@)) == Some(
                    value_views(values@),
                )
                &&& values@.len() == settings@.len()
                &&& forall|k: int|
                    0 <= k < values@.len() ==> (#[trigger] values@[k] matches Some(value)
                        ==> is_value(settings@[k].kind, value@))
            },
            Err(error) => {
                &&& clap_values(setting_views(settings@), argument_views(argv@)) is None
                &&& error matches ConfigError::Usage { text, exit_code }
                &&& text@ == clap_text(setting_views(settings@), argument_views(argv@))
                &&& exit_code == clap_exit_code(setting_views(settings@), argument_views(argv@))
                &&& exit_code == 0 || exit_code == 2
            },
        },
{
    let mut c = clap::Command::new("aivyx-broker").about(
        "Multi-process GPU-slot scheduling broker",
    );
    for s in settings {
        let kind = s.kind;
        let a = clap::Arg::new(s.flag).long(s.flag).value_name(s.value_name).help(s.help);
        let v = a.required(s.required).value_parser(move |text: &str| accept(kind, text));
        c = c.arg(v);
    }
    match c.try_get_matches_from(argv) {
        Ok(found) => Ok(settings.iter().map(|s| found.get_one::<String>(s.flag).cloned()).collect()),
        Err(e) => Err(ConfigError::Usage { text: e.to_string(), exit_code: e.exit_code() }),
    }
}

proof fn lemma_flags_are_proper()
    ensures
        proper_flags(table()),
{
    reveal_strlit("help");
    reveal_strlit("port");
    reveal_strlit("llama-server-url");
    reveal_strlit("kvcache-store-path");
    reveal_strlit("kvcache-max-bytes");
    reveal_strlit("queue-timeout-secs");
    reveal_strlit("gpu-lock-queue-timeout-secs");
    reveal_strlit("gpu-lock-max-hold-secs");
    reveal_strlit("vram-source");
    let t = table();
    assert(t[0].flag.len() == 4 && t[0].flag[0] == 'p');
    assert(t[1].flag.len() == 16 && t[1].flag[0] == 'l');
    assert(t[2].flag.len() == 18 && t[2].flag[0] == 'k');
    assert(t[3].flag.len() == 17 && t[3].flag[0] == 'k');
    assert(t[4].flag.len() == 18 && t[4].flag[0] == 'q');
    assert(t[5].flag.len() == 27 && t[5].flag[0] == 'g');
    assert(t[6].flag.len() == 22 && t[6].flag[0] == 'g');
    assert(t[7].flag.len() == 11 && t[7].flag[0] == 'v');
    assert("help"@.len() == 4 && "help"@[0] == 'h');
}

/// The table of the settings.
pub fn settings() -> (r: Vec<Setting>)
    ensures
        setting_views(r@) == table(),
{
    let settings = vec![
        Setting {
            flag: "port",
            value_name: "PORT",
            variable: "AIVYX_BROKER_PORT",
            help: "Port to bind on 127.0.0.1 [default: 8899]",
            kind: Kind::Port,
            required: false,
        },
        Setting {
            flag: "llama-server-url",
            value_name: "LLAMA_SERVER_URL",
            variable: "AIVYX_BROKER_LLAMA_SERVER_URL",
            help: "Base URL of the llama-server to share",
            kind: Kind::Text,
            required: true,
        },
        Setting {
            flag: "kvcache-store-path",
            value_name: "KVCACHE_STORE_PATH",
            variable: "AIVYX_BROKER_KVCACHE_STORE_PATH",
            help: "Directory of the shared KV-cache store",
            kind: Kind::Path,
            required: true,
        },
        Setting {
            flag: "kvcache-max-bytes",
            value_name: "KVCACHE_MAX_BYTES",
            variable: "AIVYX_BROKER_KVCACHE_MAX_BYTES",
            help: "Bytes that the KV-cache store may hold before it evicts [default: 10737418240]",
            kind: Kind::Number,
            required: false,
        },
        Setting {
            flag: "queue-timeout-secs",
            value_name: "QUEUE_TIMEOUT_SECS",
            variable: "AIVYX_BROKER_QUEUE_TIMEOUT_SECS",
            help: "How long a request may wait for a free slot [default: 60]",
            kind: Kind::Number,
            required: false,
        },
        Setting {
            flag: "gpu-lock-queue-timeout-secs",
            value_name: "GPU_LOCK_QUEUE_TIMEOUT_SECS",
            variable: "AIVYX_BROKER_GPU_LOCK_QUEUE_TIMEOUT_SECS",
            help: "How long a client may wait for the GPU lock [default: 300]",
            kind: Kind::Number,
            required: false,
        },
        Setting {
            flag: "gpu-lock-max-hold-secs",
            value_name: "GPU_LOCK_MAX_HOLD_SECS",
            variable: "AIVYX_BROKER_GPU_LOCK_MAX_HOLD_SECS",
            help: "How long a GPU lock lease may be held before it is reaped [default: 900]",
            kind: Kind::Number,
            required: false,
        },
        Setting {
            flag: "vram-source",
            value_name: "VRAM_SOURCE",
            variable: "AIVYX_BROKER_VRAM_SOURCE",
            help: "Where VRAM is read from: auto, nvidia, amd or none [default: auto]",
            kind: Kind::Source,
            required: false,
        },
    ];
    assert(setting_views(settings@) =~= table());
    settings
}

/// The settings as they are asked of the command line beside this environment.
fn settings_beside(environment: &Vec<Option<String>>) -> (r: Vec<Setting>)
    requires
        environment@.len() == SETTINGS,
    ensures
        setting_views(r@) == asked(value_views(environment@)),
        r@.len() == SETTINGS,
{
    let ghost values = value_views(environment@);
    let sound = find_invalid(environment).is_none();
    let mut settings = settings();
    assert(setting_views(settings@).len() == SETTINGS);
    let mut i: usize = 0;
    while i < settings.len()
        invariant
            i <= settings@.len() == SETTINGS,
            environment@.len() == SETTINGS,
            values == value_views(environment@),
            sound == (first_invalid(values) is None),
            forall|k: int|
                0 <= k < SETTINGS ==> (#[trigger] settings@[k])@ == (if k < i {
                    asked(values)[k]
                } else {
                    table()[k]
                }),
        decreases settings@.len() - i,
    {
        let mut setting = settings[i];
        setting.required = setting.required && environment[i].is_none() && sound;
        assert(values[i as int] == crate::scheduler::text_model(environment@[i as int]));
        settings.set(i, setting);
        i = i + 1;
    }
    assert(setting_views(settings@) =~= asked(values));
    settings
}

// ---------------------------------------------------------------------------
// Values
// ---------------------------------------------------------------------------

/// Whether a setting of this kind takes the text for a value.
fn takes(kind: Kind, text: &str) -> (r: bool)
    ensures
        r == is_value(kind, text@),
{
    let value = Some(String::from_str(text));
    match kind {
        Kind::Text => true,
        Kind::Path => !text.is_empty(),
        Kind::Port => parse_port(&value).is_some(),
        Kind::Number => parse_number(&value, 0).is_some(),
        Kind::Source => parse_vram_source(&value).is_some(),
    }
}

/// The first setting whose value is none.
fn find_invalid(values: &Vec<Option<String>>) -> (r: Option<usize>)
    requires
        values@.len() == SETTINGS,
    ensures
        r == first_invalid(value_views(values@)),
        r is None ==> forall|k: int|
            0 <= k < SETTINGS ==> (#[trigger] value_views(values@)[k] matches Some(text)
                ==> is_value(table()[k].kind, text)),
{
    let ghost views = value_views(values@);
    let settings = settings();
    assert(setting_views(settings@).len() == SETTINGS);
    let mut k: usize = 0;
    while k < SETTINGS
        invariant
            k <= SETTINGS,
            values@.len() == SETTINGS,
            settings@.len() == SETTINGS,
            setting_views(settings@) == table(),
            views == value_views(values@),
            first_invalid(views) == first_invalid_from(views, k as nat),
            forall|j: int|
                0 <= j < k ==> (#[trigger] views[j] matches Some(text) ==> is_value(
                    table()[j].kind,
                    text,
                )),
        decreases SETTINGS - k,
    {
        assert(views[k as int] == crate::scheduler::text_model(values@[k as int]));
        assert(setting_views(settings@)[k as int] == settings@[k as int]@);
        if let Some(text) = &values[k] {
            if !takes(settings[k].kind, text.as_str()) {
                return Some(k);
            }
        }
        k = k + 1;
    }
    None
}

/// The values that count.
fn merge(
    command_line: &Vec<Option<String>>,
    environment: &Vec<Option<String>>,
) -> (r: Vec<Option<String>>)
    requires
        command_line@.len() == SETTINGS,
        environment@.len() == SETTINGS,
    ensures
        r@.len() == SETTINGS,
        value_views(r@) == effective(value_views(command_line@), value_views(environment@)),
{
    let ghost wanted = effective(value_views(command_line@), value_views(environment@));
    let mut values: Vec<Option<String>> = Vec::new();
    let mut k: usize = 0;
    while k < SETTINGS
        invariant
            k <= SETTINGS,
            command_line@.len() == SETTINGS,
            environment@.len() == SETTINGS,
            wanted == effective(value_views(command_line@), value_views(environment@)),
            values@.len() == k,
            forall|j: int|
                0 <= j < k ==> crate::scheduler::text_model(#[trigger] values@[j]) == wanted[j],
        decreases SETTINGS - k,
    {
        values.push(pick(command_line, environment, k));
        k = k + 1;
    }
    assert(value_views(values@) =~= wanted);
    values
}

/// What the command line says of a setting, or else the environment.
fn pick(
    command_line: &Vec<Option<String>>,
    environment: &Vec<Option<String>>,
    k: usize,
) -> (r: Option<String>)
    requires
        command_line@.len() == SETTINGS,
        environment@.len() == SETTINGS,
        k < SETTINGS,
    ensures
        crate::scheduler::text_model(r) == effective(
            value_views(command_line@),
            value_views(environment@),
        )[k as int],
{
    match &command_line[k] {
        Some(value) => Some(value.clone()),
        None => match &environment[k] {
            Some(value) => Some(value.clone()),
            None => None,
        },
    }
}

/// A setting that is a number.
fn parse_number(value: &Option<String>, default: u64) -> (r: Option<u64>)
    ensures
        r == number_of(crate::scheduler::text_model(*value), default),
{
    match value {
        Some(text) => parse_u64(&chars_of(text.as_str())),
        None => Some(default),
    }
}

/// A port number, which may have a sign in front.
fn parse_port(value: &Option<String>) -> (r: Option<u16>)
    ensures
        r == port_of(crate::scheduler::text_model(*value)),
{
    match value {
        Some(text) => {
            let chars = chars_of(text.as_str());
            if chars.len() > 0 && chars[0] == '-' {
                let mut rest: Vec<char> = Vec::new();
                let mut i: usize = 1;
                while i < chars.len()
                    invariant
                        1 <= i <= chars@.len(),
                        chars@ == text@,
                        rest@ == chars@.subrange(1, i as int),
                    decreases chars@.len() - i,
                {
                    rest.push(chars[i]);
                    i = i + 1;
                    assert(rest@ =~= chars@.subrange(1, i as int));
                }
                assert(rest@ =~= text@.drop_first());
                if rest.len() > 0 && rest[0] == '+' {
                    assert(!crate::text::is_digit(text@.drop_first()[0]));
                    return None;
                }
                match parse_u64(&rest) {
                    Some(0) => Some(0),
                    _ => None,
                }
            } else {
                match parse_u64(&chars) {
                    Some(n) => if n <= 0xffff {
                        Some(n as u16)
                    } else {
                        None
                    },
                    None => None,
                }
            }
        },
        None => Some(8899),
    }
}

fn parse_vram_source(value: &Option<String>) -> (r: Option<VramSource>)
    ensures
        r == vram_source_of(crate::scheduler::text_model(*value)),
{
    match value {
        Some(text) => if *text == String::from_str("auto") {
            Some(VramSource::Auto)
        } else if *text == String::from_str("nvidia") {
            Some(VramSource::Nvidia)
        } else if *text == String::from_str("amd") {
            Some(VramSource::Amd)
        } else if *text == String::from_str("none") {
            Some(VramSource::Off)
        } else {
            None
        },
        None => Some(VramSource::Auto),
    }
}

impl ConfigError {
    /// What to print.
    pub fn message(&self) -> (r: String)
        ensures
            r@ == match self {
                ConfigError::Usage { text, .. } => text@,
                ConfigError::Invalid(k) => "error: invalid value for --"@ + (if *k < SETTINGS {
                    table()[*k as int].flag
                } else {
                    Seq::empty()
                }),
                ConfigError::Missing(k) => "error: a value is required for --"@ + (if *k
                    < SETTINGS {
                    table()[*k as int].flag
                } else {
                    Seq::empty()
                }),
            },
    {
        match self {
            ConfigError::Usage { text, .. } => text.clone(),
            ConfigError::Invalid(k) => naming("error: invalid value for --", *k),
            ConfigError::Missing(k) => naming("error: a value is required for --", *k),
        }
    }

    /// The status to exit with.
    pub fn exit_code(&self) -> (r: i32)
        ensures
            r == match self {
                ConfigError::Usage { exit_code, .. } => *exit_code,
                _ => 2,
            },
    {
        match self {
            ConfigError::Usage { exit_code, .. } => *exit_code,
            _ => 2,
        }
    }
}

/// `text` with the flag at place `k` of the table behind it.
fn naming(text: &str, k: usize) -> (r: String)
    ensures
        r@ == text@ + (if k < SETTINGS {
            table()[k as int].flag
        } else {
            Seq::empty()
        }),
{
    let settings = settings();
    assert(setting_views(settings@).len() == SETTINGS);
    if k < settings.len() {
        assert(setting_views(settings@)[k as int] == settings@[k as int]@);
        String::from_str(text).concat(settings[k].flag)
    } else {
        assert(text@ + Seq::<char>::empty() =~= text@);
        String::from_str(text)
    }
}

impl BrokerConfig {
    /// The configuration that the values of the settings come to, in the order
    /// of their table. What the command line says takes precedence over the
    /// environment, and both over the defaults.
    pub fn from_values(
        command_line: &Vec<Option<String>>,
        environment: &Vec<Option<String>>,
    ) -> (r: Result<BrokerConfig, ConfigError>)
        requires
            command_line@.len() == SETTINGS,
            environment@.len() == SETTINGS,
        ensures
            is_outcome(r, effective(value_views(command_line@), value_views(environment@))),
    {
        let values = merge(command_line, environment);
        let ghost views = value_views(values@);
        if let Some(k) = find_invalid(&values) {
            return Err(ConfigError::Invalid(k));
        }
        assert forall|k: int| 0 <= k < SETTINGS implies #[trigger] views[k]
            == crate::scheduler::text_model(values@[k]) by {}
        match (
            parse_port(&values[PORT]),
            parse_number(&values[KVCACHE_MAX_BYTES], 10737418240),
            parse_number(&values[QUEUE_TIMEOUT_SECS], 60),
            parse_number(&values[GPU_LOCK_QUEUE_TIMEOUT_SECS], 300),
            parse_number(&values[GPU_LOCK_MAX_HOLD_SECS], 900),
            parse_vram_source(&values[VRAM_SOURCE]),
        ) {
            (
                Some(port),
                Some(kvcache_max_bytes),
                Some(queue_timeout_secs),
                Some(gpu_lock_queue_timeout_secs),
                Some(gpu_lock_max_hold_secs),
                Some(vram_source),
            ) => match (&values[LLAMA_SERVER_URL], &values[KVCACHE_STORE_PATH]) {
                (Some(url), Some(path)) => Ok(
                    BrokerConfig {
                        port,
                        llama_server_url: url.clone(),
                        kvcache_store_path: path.clone(),
                        kvcache_max_bytes,
                        queue_timeout_secs,
                        gpu_lock_queue_timeout_secs,
                        gpu_lock_max_hold_secs,
                        vram_source,
                    },
                ),
                (None, _) => Err(ConfigError::Missing(LLAMA_SERVER_URL)),
                (_, None) => Err(ConfigError::Missing(KVCACHE_STORE_PATH)),
            },
            // Every value was found to be one of its kind.
            _ => Err(ConfigError::Missing(PORT)),
        }
    }

    /// The configuration that a command line comes to, the program's name
    /// first, where the environment holds these values for the settings.
    ///
    /// Everything on the command line is looked at in its order, then the
    /// environment, and then whether something is missing. Whatever is found
    /// first decides.
    pub fn parse_from(argv: &Vec<String>, environment: &Vec<Option<String>>) -> (r: Result<
        BrokerConfig,
        ConfigError,
    >)
        requires
            environment@.len() == SETTINGS,
        ensures
            ({
                let settings = asked(value_views(environment@));
                match clap_values(settings, argument_views(argv@)) {
                    Some(values) => {
                        &&& values.len() == SETTINGS
                        &&& is_outcome(r, effective(values, value_views(environment@)))
                        &&& r matches Err(ConfigError::Invalid(k)) ==> values[k as int] is None
                    },
                    None => {
                        &&& r matches Err(ConfigError::Usage { text, exit_code })
                        &&& text@ == clap_text(settings, argument_views(argv@))
                        &&& exit_code == clap_exit_code(settings, argument_views(argv@))
                        &&& exit_code == 0 || exit_code == 2
                    },
                }
            }),
    {
        let settings = settings_beside(environment);
        proof {
            lemma_flags_are_proper();
            let views = asked(value_views(environment@));
            assert forall|k: int| 0 <= k < views.len() implies {
                &&& (#[trigger] views[k]).flag.len() > 0
                &&& views[k].flag[0] != '-'
                &&& views[k].flag != "help"@
            } by {
                assert(views[k].flag == table()[k].flag);
            }
            assert forall|k: int, l: int| 0 <= k < l < views.len() implies (
            #[trigger] views[k]).flag != (#[trigger] views[l]).flag by {
                assert(views[k].flag == table()[k].flag && views[l].flag == table()[l].flag);
            }
        }
        match parse_command_line(&settings, argv) {
            Ok(values) => {
                let r = BrokerConfig::from_values(&values, environment);
                proof {
                    let views = value_views(values@);
                    if let Err(ConfigError::Invalid(k)) = r {
                        lemma_first_invalid_is_invalid(
                            effective(views, value_views(environment@)),
                            0,
                        );
                        assert(views[k as int] == crate::scheduler::text_model(
                            values@[k as int],
                        ));
                        assert(setting_views(settings@)[k as int].kind
                            == table()[k as int].kind);
                    }
                }
                r
            },
            Err(error) => Err(error),
        }
    }
}

proof fn lemma_first_invalid_is_invalid(values: Seq<Option<Seq<char>>>, k: nat)
    ensures
        first_invalid_from(values, k) matches Some(found) ==> {
            &&& k <= found < SETTINGS
            &&& values[found as int] is Some
            &&& !is_value(table()[found as int].kind, values[found as int]->0)
        },
    decreases SETTINGS - k,
{
    if k < SETTINGS {
        lemma_first_invalid_is_invalid(values, k + 1);
    }
}

/// The command line takes precedence over the environment, and whatever the
/// command line sets, the environment is not asked.
pub proof fn law_the_command_line_takes_precedence(
    command_line: Seq<Option<Seq<char>>>,
    environment: Seq<Option<Seq<char>>>,
    other: Seq<Option<Seq<char>>>,
    k: int,
)
    requires
        0 <= k < SETTINGS,
        command_line[k] is Some,
    ensures
        effective(command_line, environment)[k] == command_line[k],
        effective(command_line, other)[k] == effective(command_line, environment)[k],
{
}

/// Where only the two required settings have values, everything else has its
/// default.
pub proof fn law_everything_else_has_a_default(
    values: Seq<Option<Seq<char>>>,
    url: Seq<char>,
    path: Seq<char>,
)
    requires
        values.len() == SETTINGS,
        values[LLAMA_SERVER_URL as int] == Some(url),
        values[KVCACHE_STORE_PATH as int] == Some(path),
        path.len() > 0,
        forall|k: int|
            0 <= k < SETTINGS && k != LLAMA_SERVER_URL && k != KVCACHE_STORE_PATH
                ==> #[trigger] values[k] is None,
    ensures
        first_invalid(values) is None,
        first_missing(values) is None,
        config_of(values) == (BrokerConfigView {
            port: 8899,
            llama_server_url: url,
            kvcache_store_path: path,
            kvcache_max_bytes: 10737418240,
            queue_timeout_secs: 60,
            gpu_lock_queue_timeout_secs: 300,
            gpu_lock_max_hold_secs: 900,
            vram_source: VramSource::Auto,
        }),
{
    assert forall|k: int| 0 <= k < SETTINGS && (#[trigger] values[k]) is Some implies is_value(
        table()[k].kind,
        values[k]->0,
    ) by {}
    reveal_with_fuel(first_invalid_from, 9);
}

} // verus!
