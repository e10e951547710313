//! Process configuration: plain data read once at startup, and the small
//! derivations the rest of the process needs from it (connection addresses,
//! the worker-pool size).

use vstd::prelude::*;
use vstd::string::StringExecFns;

verus! {

/// How log lines are rendered.
#[derive(Clone, Copy, Debug)]
pub enum LogFormat {
    Text,
    Json,
}

/// Log/telemetry settings.
#[derive(Clone, Debug)]
pub struct TracingConfig {
    pub level: String,
    pub format: LogFormat,
    pub with_level: bool,
    pub with_target: bool,
    pub with_thread_ids: bool,
    pub with_line_number: bool,
    pub with_file: bool,
}

/// How the queue stream retains messages.
#[derive(Clone, Copy, Debug)]
pub enum RetentionPolicyDef {
    Limits,
    Interest,
    WorkQueue,
}

/// What the queue stream discards when full.
#[derive(Clone, Copy, Debug)]
pub enum DiscardPolicyDef {
    Old,
    New,
}

/// Where the queue stream stores its messages.
#[derive(Clone, Copy, Debug)]
pub enum StorageTypeDef {
    Memory,
    File,
}

/// Provisioning settings for the queue stream.
#[derive(Clone, Debug)]
pub struct NatsStreamConfig {
    pub name: String,
    pub retention: RetentionPolicyDef,
    pub discard: DiscardPolicyDef,
    pub storage: StorageTypeDef,
    pub no_ack: bool,
    pub max_consumers: u32,
    pub max_age: String,
    pub create_if_missing: bool,
}

impl NatsStreamConfig {
    /// Whether the stream should be created when it does not exist yet.
    pub fn need_create(&self) -> (r: bool)
        ensures
            r == self.create_if_missing,
    {
        self.create_if_missing
    }
}

/// Whether the queue stream should be provisioned: either the lookup failed
/// because the stream does not exist, or configuration asks for creation
/// outright.
pub fn should_create_stream(lookup_error: &str, need_create: bool) -> (r: bool)
    ensures
        r == (crate::classify::has_substring(lookup_error@, "stream not found"@) || need_create),
{
    crate::classify::contains_substring(lookup_error, "stream not found") || need_create
}

/// Message-queue connection and subscription settings.
#[derive(Clone, Debug)]
pub struct NatsConfig {
    pub client_port: u16,
    pub server_port: u16,
    pub username: String,
    pub password: String,
    pub host: String,
    pub queue: String,
    pub subject: String,
    pub consumer_name: String,
    pub stream_config: NatsStreamConfig,
}

/// Analytics-sink connection settings.
#[derive(Clone, Debug)]
pub struct ClickHouseConfig {
    pub host: String,
    pub port: u16,
    pub database: String,
    pub user: String,
    pub password: String,
}

/// Batch thresholds and the worker-pool override.
#[derive(Clone, Copy, Debug)]
pub struct BatcherConfig {
    pub max_rows: usize,
    pub max_bytes: usize,
    pub flush_interval_ms: u64,
    pub workers: Option<usize>,
}

/// Everything the process reads at startup.
#[derive(Clone, Debug)]
pub struct AppConfig {
    pub tracing: TracingConfig,
    pub nats: NatsConfig,
    pub clickhouse: ClickHouseConfig,
    pub batcher: BatcherConfig,
}

/// The character for one decimal digit.
pub open spec fn digit_char(d: int) -> char {
    if d == 0 {
        '0'
    } else if d == 1 {
        '1'
    } else if d == 2 {
        '2'
    } else if d == 3 {
        '3'
    } else if d == 4 {
        '4'
    } else if d == 5 {
        '5'
    } else if d == 6 {
        '6'
    } else if d == 7 {
        '7'
    } else if d == 8 {
        '8'
    } else {
        '9'
    }
}

/// The decimal rendering of a non-negative number, most significant digit
/// first, without leading zeros (a single zero for 0).
pub open spec fn dec_digits(n: int) -> Seq<char>
    decreases n,
{
    if n < 10 {
        seq![digit_char(n)]
    } else {
        dec_digits(n / 10).push(digit_char(n % 10))
    }
}

/// One decimal digit as a string slice.
fn digit_str(d: u16) -> (r: &'static str)
    requires
        d < 10,
    ensures
        r@ == seq![digit_char(d as int)],
{
    let r = match d {
        0 => "0",
        1 => "1",
        2 => "2",
        3 => "3",
        4 => "4",
        5 => "5",
        6 => "6",
        7 => "7",
        8 => "8",
        _ => "9",
    };
    proof {
        reveal_strlit("0");
        reveal_strlit("1");
        reveal_strlit("2");
        reveal_strlit("3");
        reveal_strlit("4");
        reveal_strlit("5");
        reveal_strlit("6");
        reveal_strlit("7");
        reveal_strlit("8");
        reveal_strlit("9");
        assert(r@ =~= seq![digit_char(d as int)]);
    }
    r
}

/// Appends the decimal rendering of `n` to `out`.
fn push_decimal(n: u16, out: &mut String)
    ensures
        final(out)@ == old(out)@ + dec_digits(n as int),
    decreases n,
{
    if n >= 10 {
        push_decimal(n / 10, out);
        out.append(digit_str(n % 10));
        proof {
            assert(final(out)@ =~= old(out)@ + dec_digits(n as int));
        }
    } else {
        out.append(digit_str(n));
        proof {
            assert(final(out)@ =~= old(out)@ + dec_digits(n as int));
        }
    }
}

impl NatsConfig {
    /// The queue connection address: scheme, host and client port.
    pub fn get_addr(&self) -> (r: String)
        ensures
            r@ == "nats://"@ + self.host@ + ":"@ + dec_digits(self.client_port as int),
    {
        let mut s = String::from_str("nats://");
        s.append(self.host.as_str());
        s.append(":");
        push_decimal(self.client_port, &mut s);
        proof {
            assert(s@ =~= "nats://"@ + self.host@ + ":"@ + dec_digits(self.client_port as int));
        }
        s
    }
}

impl ClickHouseConfig {
    /// The sink's HTTP endpoint: scheme, host, port and trailing slash.
    pub fn base_url(&self) -> (r: String)
        ensures
            r@ == "http://"@ + self.host@ + ":"@ + dec_digits(self.port as int) + "/"@,
    {
        let mut s = String::from_str("http://");
        s.append(self.host.as_str());
        s.append(":");
        push_decimal(self.port, &mut s);
        s.append("/");
        proof {
            assert(s@ =~= "http://"@ + self.host@ + ":"@ + dec_digits(self.port as int) + "/"@);
        }
        s
    }
}

/// The size of the worker pool: an explicit override wins; otherwise four
/// workers per unit of hardware parallelism, clamped to [8, 256]; a fixed
/// fallback when parallelism cannot be probed.
pub fn worker_count(explicit: Option<usize>, parallelism: Option<usize>) -> (r: usize)
    ensures
        match explicit {
            Some(w) => r == w,
            None => match parallelism {
                Some(p) => r == if 4 * p < 8 {
                    8int
                } else if 4 * p > 256 {
                    256int
                } else {
                    4 * p as int
                },
                None => r == 32,
            },
        },
{
    match explicit {
        Some(w) => w,
        None => match parallelism {
            Some(p) => {
                if p >= 64 {
                    256
                } else {
                    let c = 4 * p;
                    if c < 8 {
                        8
                    } else {
                        c
                    }
                }
            },
            None => 32,
        },
    }
}

} // verus!
