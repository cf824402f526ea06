//! What holds of the configuration as a whole.
use crate::config::{BrokerConfig, ConfigError, Kind, Setting};
use crate::gpu::VramSource;
use vstd::prelude::*;

verus! {

/// Whatever the command line leaves open, the environment decides, for every
/// setting alike; and what neither sets has no value.
pub proof fn law_the_environment_stands_in_for_the_command_line(
    command_line: Seq<Option<Seq<char>>>,
    environment: Seq<Option<Seq<char>>>,
)
    ensures
        crate::config::effective(command_line, environment).len() == 8,
        forall|k: int|
            0 <= k < 8 && command_line[k] is None ==> #[trigger] crate::config::effective(
                command_line,
                environment,
            )[k] == environment[k],
        forall|k: int|
            0 <= k < 8 && command_line[k] is Some ==> #[trigger] crate::config::effective(
                command_line,
                environment,
            )[k] == command_line[k],
{
}

/// What is read of values, arguments and settings is what they hold, each at
/// its place.
pub proof fn law_lists_are_read_item_by_item(
    values: Seq<Option<String>>,
    argv: Seq<String>,
    settings: Seq<Setting>,
    k: int,
)
    ensures
        crate::config::value_views(values).len() == values.len(),
        0 <= k < values.len() && values[k] is None ==> crate::config::value_views(values)[k]
            is None,
        0 <= k < values.len() && values[k] is Some ==> crate::config::value_views(values)[k]
            == Some(values[k]->0@),
        crate::config::argument_views(argv).len() == argv.len(),
        0 <= k < argv.len() ==> crate::config::argument_views(argv)[k] == argv[k]@,
        crate::config::setting_views(settings).len() == settings.len(),
        0 <= k < settings.len() ==> {
            let view = crate::config::setting_views(settings)[k];
            &&& view.flag == settings[k].flag@
            &&& view.value_name == settings[k].value_name@
            &&& view.variable == settings[k].variable@
            &&& view.help == settings[k].help@
            &&& view.kind == settings[k].kind
            &&& view.required == settings[k].required
        },
{
}

/// What is a port: up to 65535, in digits, behind a `+` or without; behind a
/// `-` only zero; nothing else. Without a value it is 8899.
pub proof fn law_what_is_a_port(digits: Seq<char>, text: Seq<char>, i: int)
    requires
        digits.len() > 0,
        forall|j: int|
            0 <= j < digits.len() ==> '0' as int <= (#[trigger] digits[j]) as int <= '9' as int,
    ensures
        ({
            let n = crate::text::decimal_value(digits);
            let plain = crate::config::port_of(Some(digits));
            let plus = crate::config::port_of(Some(seq!['+'] + digits));
            let minus = crate::config::port_of(Some(seq!['-'] + digits));
            &&& n <= 65535 ==> plain is Some && plain->0 as int == n && plus == plain
            &&& n > 65535 ==> plain is None && plus is None
            &&& n == 0 ==> minus == Some(0u16)
            &&& n > 0 ==> minus is None
        }),
        0 < i < text.len() && !('0' as int <= text[i] as int <= '9' as int)
            ==> crate::config::port_of(Some(text)) is None,
        text.len() > 0 && !('0' as int <= text[0] as int <= '9' as int) && text[0] != '+'
            && text[0] != '-' ==> crate::config::port_of(Some(text)) is None,
        text.len() == 0 ==> crate::config::port_of(Some(text)) is None,
        text.len() == 1 && (text[0] == '+' || text[0] == '-') ==> crate::config::port_of(
            Some(text),
        ) is None,
        crate::config::port_of(None) == Some(8899u16),
{
    let plus = seq!['+'] + digits;
    let minus = seq!['-'] + digits;
    assert(plus.drop_first() =~= digits);
    assert(minus.drop_first() =~= digits);
    assert('0' as int <= digits[0] as int <= '9' as int);
    assert(crate::text::all_digits(digits));
    if 0 < i < text.len() && !('0' as int <= text[i] as int <= '9' as int) {
        assert(text.drop_first()[i - 1] == text[i]);
        assert(!crate::text::is_digit(text.drop_first()[i - 1]));
        assert(!crate::text::is_digit(text[i]));
    }
    if text.len() > 0 && !('0' as int <= text[0] as int <= '9' as int) && text[0] != '+' && text[0]
        != '-' {
        assert(!crate::text::is_digit(text[0]));
    }
}

/// What is a number setting: a number that a `u64` can hold, worth itself, or
/// the default if there is no value.
pub proof fn law_what_is_a_number_setting(text: Seq<char>, default: u64)
    ensures
        crate::config::number_of(None, default) == Some(default),
        crate::text::decimal(text) is None ==> crate::config::number_of(Some(text), default)
            is None,
        crate::text::decimal(text) matches Some(n) ==> {
            let number = crate::config::number_of(Some(text), default);
            &&& n <= u64::MAX ==> number is Some && number->0 as int == n
            &&& n > u64::MAX ==> number is None
        },
{
}

proof fn lemma_source_names_differ()
    ensures
        "auto"@ != "nvidia"@,
        "auto"@ != "amd"@,
        "auto"@ != "none"@,
        "nvidia"@ != "amd"@,
        "nvidia"@ != "none"@,
        "amd"@ != "none"@,
{
    reveal_strlit("auto");
    reveal_strlit("nvidia");
    reveal_strlit("amd");
    reveal_strlit("none");
    assert("auto"@.len() == 4 && "auto"@[0] == 'a');
    assert("nvidia"@.len() == 6);
    assert("amd"@.len() == 3);
    assert("none"@.len() == 4 && "none"@[0] == 'n');
}

/// The VRAM sources go by their names, and by no others. Without a value the
/// source is found out.
pub proof fn law_what_is_a_source(text: Seq<char>)
    ensures
        crate::config::vram_source_of(None) == Some(VramSource::Auto),
        crate::config::vram_source_of(Some(text)) == Some(VramSource::Auto) <==> text == "auto"@,
        crate::config::vram_source_of(Some(text)) == Some(VramSource::Nvidia) <==> text
            == "nvidia"@,
        crate::config::vram_source_of(Some(text)) == Some(VramSource::Amd) <==> text == "amd"@,
        crate::config::vram_source_of(Some(text)) == Some(VramSource::Off) <==> text == "none"@,
{
    lemma_source_names_differ();
}

/// What a setting takes for a value: any text, any path but the empty one, and
/// of the other kinds what can be made sense of.
pub proof fn law_what_a_setting_takes(text: Seq<char>)
    ensures
        crate::config::is_value(Kind::Text, text),
        crate::config::is_value(Kind::Path, text) <==> text.len() > 0,
        crate::config::is_value(Kind::Port, text) <==> crate::config::port_of(Some(text)) is Some,
        crate::config::is_value(Kind::Number, text) <==> crate::text::decimal_u64(text) is Some,
        crate::config::is_value(Kind::Source, text) <==> text == "auto"@ || text == "nvidia"@
            || text == "amd"@ || text == "none"@,
{
}

/// The settings: their flags, their variables, what their values are, and that
/// exactly the server's address and the store's directory need one.
pub proof fn law_the_settings()
    ensures
        crate::config::table().len() == 8,
        crate::config::table()[0].flag == "port"@,
        crate::config::table()[1].flag == "llama-server-url"@,
        crate::config::table()[2].flag == "kvcache-store-path"@,
        crate::config::table()[3].flag == "kvcache-max-bytes"@,
        crate::config::table()[4].flag == "queue-timeout-secs"@,
        crate::config::table()[5].flag == "gpu-lock-queue-timeout-secs"@,
        crate::config::table()[6].flag == "gpu-lock-max-hold-secs"@,
        crate::config::table()[7].flag == "vram-source"@,
        crate::config::table()[0].variable == "AIVYX_BROKER_PORT"@,
        crate::config::table()[1].variable == "AIVYX_BROKER_LLAMA_SERVER_URL"@,
        crate::config::table()[2].variable == "AIVYX_BROKER_KVCACHE_STORE_PATH"@,
        crate::config::table()[3].variable == "AIVYX_BROKER_KVCACHE_MAX_BYTES"@,
        crate::config::table()[4].variable == "AIVYX_BROKER_QUEUE_TIMEOUT_SECS"@,
        crate::config::table()[5].variable == "AIVYX_BROKER_GPU_LOCK_QUEUE_TIMEOUT_SECS"@,
        crate::config::table()[6].variable == "AIVYX_BROKER_GPU_LOCK_MAX_HOLD_SECS"@,
        crate::config::table()[7].variable == "AIVYX_BROKER_VRAM_SOURCE"@,
        crate::config::table()[0].kind == Kind::Port,
        crate::config::table()[1].kind == Kind::Text,
        crate::config::table()[2].kind == Kind::Path,
        forall|k: int|
            3 <= k < 7 ==> (#[trigger] crate::config::table()[k]).kind == Kind::Number,
        crate::config::table()[7].kind == Kind::Source,
        forall|k: int|
            0 <= k < 8 ==> ((#[trigger] crate::config::table()[k]).required <==> k == 1 || k == 2),
{
}

/// The value at place `k` is none of its kind.
pub open spec fn is_invalid(values: Seq<Option<Seq<char>>>, k: int) -> bool {
    values[k] is Some && !crate::config::is_value(crate::config::table()[k].kind, values[k]->0)
}

/// A required setting has no value at place `k`.
pub open spec fn is_missing(values: Seq<Option<Seq<char>>>, k: int) -> bool {
    values[k] is None && crate::config::table()[k].required
}

proof fn lemma_first_invalid_from(values: Seq<Option<Seq<char>>>, k: nat)
    ensures
        match crate::config::first_invalid_from(values, k) {
            Some(found) => {
                &&& k <= found < 8
                &&& is_invalid(values, found as int)
                &&& forall|j: int| k <= j < found ==> !#[trigger] is_invalid(values, j)
            },
            None => forall|j: int| k <= j < 8 ==> !#[trigger] is_invalid(values, j),
        },
    decreases 8 - k,
{
    if k < 8 {
        lemma_first_invalid_from(values, k + 1);
    }
}

/// Of several invalid values the first is complained of, of several missing
/// ones too; and there is no complaint only if there is no reason.
pub proof fn law_the_first_complaint_counts(values: Seq<Option<Seq<char>>>)
    ensures
        match crate::config::first_invalid(values) {
            Some(found) => {
                &&& found < 8
                &&& is_invalid(values, found as int)
                &&& forall|j: int| 0 <= j < found ==> !#[trigger] is_invalid(values, j)
            },
            None => forall|j: int| 0 <= j < 8 ==> !#[trigger] is_invalid(values, j),
        },
        match crate::config::first_missing(values) {
            Some(found) => {
                &&& found < 8
                &&& is_missing(values, found as int)
                &&& forall|j: int| 0 <= j < found ==> !#[trigger] is_missing(values, j)
            },
            None => forall|j: int| 0 <= j < 8 ==> !#[trigger] is_missing(values, j),
        },
{
    lemma_first_invalid_from(values, 0);
}

/// There is a configuration exactly if no value is invalid and none is missing;
/// an invalid value is complained of before a missing one.
pub proof fn law_when_there_is_a_configuration(
    r: Result<BrokerConfig, ConfigError>,
    values: Seq<Option<Seq<char>>>,
)
    requires
        crate::config::is_outcome(r, values),
    ensures
        match r {
            Ok(_) => forall|j: int|
                0 <= j < 8 ==> !#[trigger] is_invalid(values, j) && !is_missing(values, j),
            Err(ConfigError::Invalid(found)) => {
                &&& found < 8
                &&& is_invalid(values, found as int)
                &&& forall|j: int| 0 <= j < found ==> !#[trigger] is_invalid(values, j)
            },
            Err(ConfigError::Missing(found)) => {
                &&& found < 8
                &&& is_missing(values, found as int)
                &&& forall|j: int| 0 <= j < 8 ==> !#[trigger] is_invalid(values, j)
                &&& forall|j: int| 0 <= j < found ==> !#[trigger] is_missing(values, j)
            },
            Err(ConfigError::Usage { .. }) => false,
        },
{
    law_the_first_complaint_counts(values);
    if r is Ok {
        assert forall|j: int| 0 <= j < 8 implies !#[trigger] is_invalid(values, j) && !is_missing(
            values,
            j,
        ) by {
            assert(!is_missing(values, j));
        }
    }
}

/// Every part of a configuration comes from its own setting and from no other:
/// the texts as they are, the numbers for what they are worth, and what has no
/// value by its default.
pub proof fn law_every_setting_counts_for_its_own_part(
    r: Result<BrokerConfig, ConfigError>,
    values: Seq<Option<Seq<char>>>,
)
    requires
        crate::config::is_outcome(r, values),
    ensures
        r matches Ok(config) ==> {
            &&& crate::config::port_of(values[0]) == Some(config.port)
            &&& values[1] == Some(config.llama_server_url@)
            &&& values[2] == Some(config.kvcache_store_path@)
            &&& values[3] is None ==> config.kvcache_max_bytes == 10737418240
            &&& values[3] matches Some(text) ==> crate::text::decimal_u64(text) == Some(
                config.kvcache_max_bytes,
            )
            &&& values[4] is None ==> config.queue_timeout_secs == 60
            &&& values[4] matches Some(text) ==> crate::text::decimal_u64(text) == Some(
                config.queue_timeout_secs,
            )
            &&& values[5] is None ==> config.gpu_lock_queue_timeout_secs == 300
            &&& values[5] matches Some(text) ==> crate::text::decimal_u64(text) == Some(
                config.gpu_lock_queue_timeout_secs,
            )
            &&& values[6] is None ==> config.gpu_lock_max_hold_secs == 900
            &&& values[6] matches Some(text) ==> crate::text::decimal_u64(text) == Some(
                config.gpu_lock_max_hold_secs,
            )
            &&& crate::config::vram_source_of(values[7]) == Some(config.vram_source)
        },
{
    law_when_there_is_a_configuration(r, values);
    if r is Ok {
        assert(!is_invalid(values, 0));
        assert(!is_invalid(values, 1) && !is_missing(values, 1));
        assert(!is_invalid(values, 2) && !is_missing(values, 2));
        assert(!is_invalid(values, 3));
        assert(!is_invalid(values, 4));
        assert(!is_invalid(values, 5));
        assert(!is_invalid(values, 6));
        assert(!is_invalid(values, 7));
    }
}

/// The same values always come to the same: the same configuration, or the same
/// complaint.
pub proof fn law_the_outcome_is_determined(
    a: Result<BrokerConfig, ConfigError>,
    b: Result<BrokerConfig, ConfigError>,
    values: Seq<Option<Seq<char>>>,
)
    requires
        crate::config::is_outcome(a, values),
        crate::config::is_outcome(b, values),
    ensures
        match (a, b) {
            (Ok(c), Ok(d)) => {
                &&& c.port == d.port
                &&& c.llama_server_url@ == d.llama_server_url@
                &&& c.kvcache_store_path@ == d.kvcache_store_path@
                &&& c.kvcache_max_bytes == d.kvcache_max_bytes
                &&& c.queue_timeout_secs == d.queue_timeout_secs
                &&& c.gpu_lock_queue_timeout_secs == d.gpu_lock_queue_timeout_secs
                &&& c.gpu_lock_max_hold_secs == d.gpu_lock_max_hold_secs
                &&& c.vram_source == d.vram_source
            },
            (Err(ConfigError::Invalid(k)), Err(ConfigError::Invalid(l))) => k == l,
            (Err(ConfigError::Missing(k)), Err(ConfigError::Missing(l))) => k == l,
            _ => false,
        },
{
    law_when_there_is_a_configuration(a, values);
    law_when_there_is_a_configuration(b, values);
    law_every_setting_counts_for_its_own_part(a, values);
    law_every_setting_counts_for_its_own_part(b, values);
}

/// What is asked of the command line is the table, but that a required setting
/// need not stand there if the environment has a value for it, nor if it has an
/// invalid value for any.
pub proof fn law_what_is_asked_of_the_command_line(environment: Seq<Option<Seq<char>>>, k: int)
    requires
        0 <= k < 8,
    ensures
        ({
            let setting = crate::config::asked(environment)[k];
            &&& crate::config::asked(environment).len() == 8
            &&& setting.flag == crate::config::table()[k].flag
            &&& setting.value_name == crate::config::table()[k].value_name
            &&& setting.variable == crate::config::table()[k].variable
            &&& setting.help == crate::config::table()[k].help
            &&& setting.kind == crate::config::table()[k].kind
            &&& setting.required <==> {
                &&& is_missing(environment, k)
                &&& forall|j: int| 0 <= j < 8 ==> !#[trigger] is_invalid(environment, j)
            }
        }),
{
    law_the_first_complaint_counts(environment);
}

/// What is wrong with a text is said in terms of its kind.
pub proof fn law_complaints_say_what_is_expected()
    ensures
        crate::config::complaint_of(Kind::Text) == "not a text"@,
        crate::config::complaint_of(Kind::Path) == "not a path"@,
        crate::config::complaint_of(Kind::Port) == "not a number from 0 to 65535"@,
        crate::config::complaint_of(Kind::Number) == "not a number from 0 to 18446744073709551615"@,
        crate::config::complaint_of(Kind::Source) == "not one of auto, nvidia, amd, none"@,
{
}

} // verus!
