//! Settings of the extension.
//!
//! | ini name                    | default | environment                 |
//! |-----------------------------|---------|-----------------------------|
//! | `hi_kafka.log_level`        | `info`  | `HI_KAFKA_LOG_LEVEL`        |
//! | `hi_kafka.log_file`         | (empty) | `HI_KAFKA_LOG_FILE`         |
//! | `hi_kafka.drain_timeout_ms` | `10000` | `HI_KAFKA_DRAIN_TIMEOUT_MS` |
//! | `hi_kafka.metrics_addr`     | (empty) | `HI_KAFKA_METRICS_ADDR`     |
//!
//! The environment comes first, then `php.ini`, then the default. Reading the two is
//! left to the caller, who passes what it found as a [`Source`].

use crate::text::{parse_u64, push_decimal};
use vstd::prelude::*;

verus! {

pub const INI_LOG_LEVEL: &'static str = "hi_kafka.log_level";

pub const INI_LOG_FILE: &'static str = "hi_kafka.log_file";

pub const INI_DRAIN_TIMEOUT_MS: &'static str = "hi_kafka.drain_timeout_ms";

pub const INI_METRICS_ADDR: &'static str = "hi_kafka.metrics_addr";

pub const ENV_LOG_LEVEL: &'static str = "HI_KAFKA_LOG_LEVEL";

pub const ENV_LOG_FILE: &'static str = "HI_KAFKA_LOG_FILE";

pub const ENV_DRAIN_TIMEOUT_MS: &'static str = "HI_KAFKA_DRAIN_TIMEOUT_MS";

pub const ENV_METRICS_ADDR: &'static str = "HI_KAFKA_METRICS_ADDR";

pub const DEFAULT_LOG_LEVEL: &'static str = "info";

pub const DEFAULT_LOG_FILE: &'static str = "";

pub const DEFAULT_DRAIN_TIMEOUT_MS: u64 = 10_000;

pub const DEFAULT_METRICS_ADDR: &'static str = "";

/// What the environment and `php.ini` hold for one setting.
#[derive(Debug)]
pub struct Source {
    pub env: Option<String>,
    pub ini: Option<String>,
}

/// The text of a value that is there and not empty.
pub open spec fn given(value: Option<String>) -> Option<Seq<char>> {
    match value {
        Some(s) if s@.len() > 0 => Some(s@),
        _ => None,
    }
}

impl Source {
    /// The text that counts: that of the environment, else that of `php.ini`.
    pub open spec fn text(self) -> Option<Seq<char>> {
        match given(self.env) {
            Some(t) => Some(t),
            None => given(self.ini),
        }
    }

    /// The number that counts: that of the environment where it is one, else that of
    /// `php.ini`.
    pub open spec fn number(self) -> Option<nat> {
        match number_in(self.env) {
            Some(n) => Some(n),
            None => number_in(self.ini),
        }
    }
}

/// The number that a value writes.
pub open spec fn number_in(value: Option<String>) -> Option<nat> {
    match value {
        Some(s) => crate::text::parse_unsigned(s@, u64::MAX as nat),
        None => None,
    }
}

/// The names and defaults of the settings, in the order in which they are registered.
pub fn ini_entries() -> (r: Vec<(String, String)>)
    ensures
        r@.len() == 4,
        r@[0].0@ == INI_LOG_LEVEL@ && r@[0].1@ == DEFAULT_LOG_LEVEL@,
        r@[1].0@ == INI_LOG_FILE@ && r@[1].1@ == DEFAULT_LOG_FILE@,
        r@[2].0@ == INI_DRAIN_TIMEOUT_MS@ && r@[2].1@ == crate::text::decimal(
            DEFAULT_DRAIN_TIMEOUT_MS as nat,
        ),
        r@[3].0@ == INI_METRICS_ADDR@ && r@[3].1@ == DEFAULT_METRICS_ADDR@,
{
    let mut drain = String::new();
    push_decimal(&mut drain, DEFAULT_DRAIN_TIMEOUT_MS);
    let mut r: Vec<(String, String)> = Vec::new();
    r.push((INI_LOG_LEVEL.to_owned(), DEFAULT_LOG_LEVEL.to_owned()));
    r.push((INI_LOG_FILE.to_owned(), DEFAULT_LOG_FILE.to_owned()));
    r.push((INI_DRAIN_TIMEOUT_MS.to_owned(), drain));
    r.push((INI_METRICS_ADDR.to_owned(), DEFAULT_METRICS_ADDR.to_owned()));
    r
}

/// A value, unless it is empty.
fn ini_str(value: &Option<String>) -> (r: Option<String>)
    ensures
        match r {
            Some(s) => given(*value) == Some(s@),
            None => given(*value) is None,
        },
{
    match value {
        Some(s) => {
            if s.as_str().is_empty() {
                None
            } else {
                Some(s.clone())
            }
        },
        None => None,
    }
}

/// The setting, or `default` where none is given.
fn resolve_str(source: &Source, default: &str) -> (r: String)
    ensures
        r@ == (match source.text() {
            Some(t) => t,
            None => default@,
        }),
{
    match resolve_opt_str(source) {
        Some(s) => s,
        None => default.to_owned(),
    }
}

/// The setting, if one is given.
fn resolve_opt_str(source: &Source) -> (r: Option<String>)
    ensures
        match r {
            Some(s) => source.text() == Some(s@),
            None => source.text() is None,
        },
{
    match ini_str(&source.env) {
        Some(s) => Some(s),
        None => ini_str(&source.ini),
    }
}

/// The log level of the worker.
pub fn log_level(source: &Source) -> (r: String)
    ensures
        r@ == (match source.text() {
            Some(t) => t,
            None => DEFAULT_LOG_LEVEL@,
        }),
{
    resolve_str(source, DEFAULT_LOG_LEVEL)
}

/// The file that the worker logs to, if not to standard error.
pub fn log_file(source: &Source) -> (r: Option<String>)
    ensures
        match r {
            Some(s) => source.text() == Some(s@),
            None => source.text() is None,
        },
{
    resolve_opt_str(source)
}

/// How long the worker finishes what it has begun once it is told to stop.
pub fn drain_timeout_ms(source: &Source) -> (r: u64)
    ensures
        r == (match source.number() {
            Some(n) => n,
            None => DEFAULT_DRAIN_TIMEOUT_MS as nat,
        }),
{
    match &source.env {
        Some(s) => match parse_u64(s) {
            Some(n) => {
                return n;
            },
            None => {},
        },
        None => {},
    }
    match ini_str(&source.ini) {
        Some(s) => match parse_u64(&s) {
            Some(n) => n,
            None => DEFAULT_DRAIN_TIMEOUT_MS,
        },
        None => DEFAULT_DRAIN_TIMEOUT_MS,
    }
}

/// Where the worker serves its metrics; nowhere unless an address is given that
/// `parse` can read.
pub fn metrics_addr<A, P: FnOnce(&str) -> Option<A>>(source: &Source, parse: P) -> (r: Option<A>)
    requires
        source.text() matches Some(t) ==> forall|s: &str| s@ == t ==> call_requires(parse, (s,)),
    ensures
        match source.text() {
            Some(t) => exists|s: &str| s@ == t && #[trigger] call_ensures(parse, (s,), r),
            None => r is None,
        },
{
    match resolve_opt_str(source) {
        Some(s) => parse(s.as_str()),
        None => None,
    }
}

/// The environment overrides `php.ini`, whatever that holds.
pub proof fn law_env_wins(env: String, ini: Option<String>)
    requires
        env@.len() > 0,
    ensures
        (Source { env: Some(env), ini }).text() == Some(env@),
        number_in(Some(env)) is Some ==> (Source { env: Some(env), ini }).number() == number_in(
            Some(env),
        ),
{
}

/// The default that is registered for the drain timeout reads as the default itself.
pub proof fn law_registered_drain_default(registered: String)
    requires
        registered@ == crate::text::decimal(DEFAULT_DRAIN_TIMEOUT_MS as nat),
    ensures
        (Source { env: None, ini: Some(registered) }).number() == Some(
            DEFAULT_DRAIN_TIMEOUT_MS as nat,
        ),
{
    crate::text::law_decimal_round_trip(DEFAULT_DRAIN_TIMEOUT_MS as nat, u64::MAX as nat);
}

/// A setting is what the environment holds where that is of use, else what `php.ini` holds,
/// else missing. A text is of use where it is not empty, a number where it can be read.
pub proof fn law_sources_count_in_order(env: Option<String>, ini: Option<String>)
    ensures
        ({
            let source = Source { env, ini };
            let set = |v: Option<String>| v is Some && v->0@.len() > 0;
            let number = |v: Option<String>|
                v is Some && crate::text::parse_unsigned(v->0@, u64::MAX as nat) is Some;
            &&& set(env) ==> source.text() == Some(env->0@)
            &&& !set(env) && set(ini) ==> source.text() == Some(ini->0@)
            &&& !set(env) && !set(ini) ==> source.text() is None
            &&& number(env) ==> source.number() == crate::text::parse_unsigned(
                env->0@,
                u64::MAX as nat,
            )
            &&& !number(env) && number(ini) ==> source.number() == crate::text::parse_unsigned(
                ini->0@,
                u64::MAX as nat,
            )
            &&& !number(env) && !number(ini) ==> source.number() is None
        }),
{
}

/// The settings go by their documented names and defaults.
pub proof fn law_documented_names()
    ensures
        INI_LOG_LEVEL@ == "hi_kafka.log_level"@ && ENV_LOG_LEVEL@ == "HI_KAFKA_LOG_LEVEL"@,
        INI_LOG_FILE@ == "hi_kafka.log_file"@ && ENV_LOG_FILE@ == "HI_KAFKA_LOG_FILE"@,
        INI_DRAIN_TIMEOUT_MS@ == "hi_kafka.drain_timeout_ms"@ && ENV_DRAIN_TIMEOUT_MS@
            == "HI_KAFKA_DRAIN_TIMEOUT_MS"@,
        INI_METRICS_ADDR@ == "hi_kafka.metrics_addr"@ && ENV_METRICS_ADDR@
            == "HI_KAFKA_METRICS_ADDR"@,
        DEFAULT_LOG_LEVEL@ == "info"@ && DEFAULT_LOG_FILE@ == ""@ && DEFAULT_METRICS_ADDR@ == ""@,
        DEFAULT_DRAIN_TIMEOUT_MS == 10_000,
{
}

} // verus!
