//! Logging settings and the log sessions the clients keep on disk.
use vstd::prelude::*;
pub use crate::redact::{redact_emails, redact_log_line};
use crate::config::{is_config_dir, join, join_path, Config};
use crate::custom_field::{nearest_f64, nearest_f64_of};
use crate::text::{chars_of, decimal, digit_char, push_decimal, push_decimal_wide, push_seq, string_of};

verus! {

/// Log output format.
#[derive(Debug, Clone, Copy, PartialEq, Eq, Structural)]
pub enum LogFormat {
    /// Structured JSON (one object per line).
    Json,
    /// Human-readable pretty format.
    Pretty,
}

impl Default for LogFormat {
    fn default() -> (r: Self)
        ensures
            r == LogFormat::Json,
    {
        LogFormat::Json
    }
}

/// Logging configuration persisted in `config.toml` under `[logging]`.
#[derive(Debug, Clone)]
pub struct LoggingConfig {
    /// Number of days to retain log files before automatic cleanup.
    pub retention_days: u32,
    /// Default log output format for file logging.
    pub format: LogFormat,
    /// Default log level (overridden by `CLICKUP_LOG` env var).
    pub level: String,
}

/// Default number of days to retain log files before cleanup.
pub fn default_retention_days() -> (r: u32)
    ensures
        r == 7,
{
    7
}

/// The default log level.
pub fn default_level() -> (r: String)
    ensures
        r@ == "info"@,
{
    string_of(&chars_of("info"))
}

impl Default for LoggingConfig {
    fn default() -> (r: Self)
        ensures
            r.retention_days == 7,
            r.format == LogFormat::Json,
            r.level@ == "info"@,
    {
        LoggingConfig { retention_days: default_retention_days(), format: LogFormat::default(), level: default_level() }
    }
}

/// Returns the log directory path (`~/.config/clickup-rs/logs/`).
pub fn log_dir() -> (r: String)
    ensures
        exists|d: Seq<char>| is_config_dir(d) && r@ == join_path(d, "logs"@),
{
    let d = Config::config_dir();
    join(d.as_str(), "logs")
}

/// Information about a single log session file.
#[derive(Debug, Clone)]
pub struct LogSessionInfo {
    /// The log file name (e.g., `cli-2026-03-25T22-30-00.log`).
    pub filename: String,
    /// Full path to the log file.
    pub path: String,
    /// The binary that created this log (e.g., `cli`, `tui`).
    pub binary: String,
    /// File size in bytes.
    pub size: u64,
    /// Last modification time, in nanoseconds since the Unix epoch.
    pub modified_nanos: u128,
}

/// The age of a session modified at `modified` (nanoseconds since the Unix
/// epoch) at the time `now` (likewise): seconds, minutes, hours or days ago,
/// rounded down, or "unknown" for a time in the future.
pub open spec fn age_text(modified: u128, now: Option<u128>) -> Seq<char> {
    match now {
        Some(n) if n >= modified => {
            let secs: nat = ((n - modified) / 1_000_000_000) as nat;
            if secs < 60 {
                decimal(secs) + "s ago"@
            } else if secs < 3600 {
                decimal(secs / 60) + "m ago"@
            } else if secs < 86400 {
                decimal(secs / 3600) + "h ago"@
            } else {
                decimal(secs / 86400) + "d ago"@
            }
        },
        _ => "unknown"@,
    }
}

/// Calls `SystemTime::now` and reads it as nanoseconds since the Unix epoch
/// (negative before it). The clock is outside the program, so nothing is
/// claimed of the value.
#[verifier::external_body]
pub(crate) fn now_unix_nanos() -> i128 {
    match std::time::SystemTime::now().duration_since(std::time::UNIX_EPOCH) {
        Ok(d) => d.as_nanos() as i128,
        Err(e) => -(e.duration().as_nanos() as i128),
    }
}

/// `n` rounded half to even after dividing by `d`.
pub open spec fn div_round_even(n: nat, d: nat) -> nat {
    let q = n / d;
    let r = n % d;
    if r * 2 > d || (r * 2 == d && q % 2 == 1) { q + 1 } else { q }
}

/// `size` bytes in `unit`-byte units with one decimal, as `{:.1}` prints the
/// `f64` `size as f64 / unit` (`unit` a power of two, so that only the
/// conversion of `size` rounds).
pub open spec fn one_decimal(size: u64, unit: nat) -> Seq<char> {
    let tenths = div_round_even(nearest_f64(size as nat) * 10, unit);
    decimal(tenths / 10) + "."@ + seq![digit_char(tenths % 10)]
}

/// The size of a session file in bytes, KB or MB.
pub open spec fn size_text(size: u64) -> Seq<char> {
    if size < 1024 {
        decimal(size as nat) + " B"@
    } else if size < 1024 * 1024 {
        one_decimal(size, 1024) + " KB"@
    } else {
        one_decimal(size, 1024 * 1024) + " MB"@
    }
}

/// The part of a log file name before its first `-`: the binary that wrote it.
pub open spec fn binary_of(filename: Seq<char>) -> Seq<char>
    decreases filename.len(),
{
    if filename.len() == 0 || filename[0] == '-' {
        Seq::empty()
    } else {
        seq![filename[0]] + binary_of(filename.drop_first())
    }
}

/// Appends `size` in `unit`-byte units with one decimal.
fn push_one_decimal(out: &mut Vec<char>, size: u64, unit: u128)
    requires
        unit == 1024 || unit == 1024 * 1024,
    ensures
        final(out)@ == old(out)@ + one_decimal(size, unit as nat),
{
    let m = nearest_f64_of(size);
    let n = m * 10;
    let q = n / unit;
    let r = n % unit;
    let tenths: u128 = if r * 2 > unit || (r * 2 == unit && q % 2 == 1) { q + 1 } else { q };
    push_decimal_wide(out, tenths / 10);
    out.push('.');
    let d = (tenths % 10) as u64;
    crate::text::push_decimal(out, d);
    proof {
        assert(decimal(d as nat) == seq![digit_char(d as nat)]);
        reveal_strlit(".");
    }
}

impl LogSessionInfo {
    /// A session record for the file `filename` at `path`, of `size` bytes,
    /// modified at `modified_nanos`; its binary is read from the file name.
    pub fn new(filename: String, path: String, size: u64, modified_nanos: u128) -> (r: Self)
        ensures
            r.filename@ == filename@,
            r.path@ == path@,
            r.binary@ == binary_of(filename@),
            r.size == size,
            r.modified_nanos == modified_nanos,
    {
        let cs = chars_of(filename.as_str());
        let mut out: Vec<char> = Vec::new();
        let mut i: usize = 0;
        proof {
            assert(cs@.subrange(0, cs@.len() as int) =~= cs@);
            assert(out@ + binary_of(cs@) =~= binary_of(cs@));
        }
        while i < cs.len() && cs[i] != '-'
            invariant
                i <= cs.len(),
                cs@ == filename@,
                out@ == cs@.subrange(0, i as int),
                binary_of(filename@) == out@ + binary_of(cs@.subrange(i as int, cs@.len() as int)),
            decreases cs.len() - i,
        {
            proof {
                let rest = cs@.subrange(i as int, cs@.len() as int);
                assert(rest.drop_first() =~= cs@.subrange(i + 1, cs@.len() as int));
                assert(out@.push(cs@[i as int]) + binary_of(rest.drop_first()) =~= out@ + (seq![rest[0]] + binary_of(rest.drop_first())));
            }
            out.push(cs[i]);
            i += 1;
        }
        proof {
            let rest = cs@.subrange(i as int, cs@.len() as int);
            assert(binary_of(rest) =~= Seq::<char>::empty());
            assert(out@ + Seq::<char>::empty() =~= out@);
        }
        LogSessionInfo { filename, path, binary: string_of(&out), size, modified_nanos }
    }

    /// The age of the session at `now` (nanoseconds since the Unix epoch, or
    /// `None` before the epoch).
    pub fn age_string_at(&self, now: Option<u128>) -> (r: String)
        ensures
            r@ == age_text(self.modified_nanos, now),
    {
        let mut out: Vec<char> = Vec::new();
        match now {
            Some(n) => {
                if n < self.modified_nanos {
                    return string_of(&chars_of("unknown"));
                }
                let secs: u128 = (n - self.modified_nanos) / 1_000_000_000;
                if secs < 60 {
                    push_decimal_wide(&mut out, secs);
                    push_seq(&mut out, &chars_of("s ago"));
                } else if secs < 3600 {
                    push_decimal_wide(&mut out, secs / 60);
                    push_seq(&mut out, &chars_of("m ago"));
                } else if secs < 86400 {
                    push_decimal_wide(&mut out, secs / 3600);
                    push_seq(&mut out, &chars_of("h ago"));
                } else {
                    push_decimal_wide(&mut out, secs / 86400);
                    push_seq(&mut out, &chars_of("d ago"));
                }
                string_of(&out)
            },
            None => string_of(&chars_of("unknown")),
        }
    }

    /// Returns a human-readable age string (e.g., "2h ago", "3d ago"), at the
    /// current time.
    pub fn age_string(&self) -> (r: String)
        ensures
            exists|now: Option<u128>| r@ == age_text(self.modified_nanos, now),
    {
        let now = now_unix_nanos();
        self.age_string_at(if now >= 0 { Some(now as u128) } else { None })
    }

    /// Returns a human-readable size string (e.g., "1.2 KB", "3.4 MB").
    pub fn size_string(&self) -> (r: String)
        ensures
            r@ == size_text(self.size),
    {
        byte_size_text(self.size)
    }
}

/// A number of bytes as text: bytes below 1 KiB, else KiB or MiB with one
/// decimal.
pub fn byte_size_text(size: u64) -> (r: String)
    ensures
        r@ == size_text(size),
{
    let mut out: Vec<char> = Vec::new();
    if size < 1024 {
        push_decimal(&mut out, size);
        push_seq(&mut out, &chars_of(" B"));
    } else if size < 1024 * 1024 {
        push_one_decimal(&mut out, size, 1024);
        push_seq(&mut out, &chars_of(" KB"));
    } else {
        push_one_decimal(&mut out, size, 1024 * 1024);
        push_seq(&mut out, &chars_of(" MB"));
    }
    string_of(&out)
}

/// A log file modified at `modified_secs` (Unix time) is older than the
/// retention period of `retention_days` days at `now_nanos` (nanoseconds since
/// the Unix epoch).
pub open spec fn expired(modified_secs: u64, now_nanos: u128, retention_days: u32) -> bool {
    (modified_secs as int) * 1_000_000_000 < (now_nanos as int) - (retention_days as int) * 86_400_000_000_000
}

/// Whether a log file is old enough for cleanup.
pub fn is_expired(modified_secs: u64, now_nanos: u128, retention_days: u32) -> (r: bool)
    ensures
        r == expired(modified_secs, now_nanos, retention_days),
{
    let lhs: u128 = modified_secs as u128 * 1_000_000_000;
    let keep: u128 = retention_days as u128 * 86_400_000_000_000;
    now_nanos >= keep && lhs < now_nanos - keep
}

/// Calls `uuid::Uuid::new_v4` and prints it in the simple format, which the
/// crate documents as 32 lower-case hexadecimal digits. The digits are random.
#[verifier::external_body]
fn random_uuid_simple() -> (r: String)
    ensures
        r@.len() == 32,
        forall|i: int| 0 <= i < 32 ==> is_lower_hex(#[trigger] r@[i]),
{
    uuid::Uuid::new_v4().as_simple().to_string()
}

/// A lower-case hexadecimal digit.
pub open spec fn is_lower_hex(c: char) -> bool {
    ('0' <= c && c <= '9') || ('a' <= c && c <= 'f')
}

/// Generates a short request ID for correlation: the first eight digits of
/// a random UUID.
pub fn generate_request_id() -> (r: String)
    ensures
        r@.len() == 8,
        forall|i: int| 0 <= i < 8 ==> is_lower_hex(#[trigger] r@[i]),
{
    let id = random_uuid_simple();
    let cs = chars_of(id.as_str());
    let mut out: Vec<char> = Vec::new();
    let mut i: usize = 0;
    while i < 8
        invariant
            i <= 8,
            cs@.len() == 32,
            forall|k: int| 0 <= k < 32 ==> is_lower_hex(#[trigger] cs@[k]),
            out@ == cs@.subrange(0, i as int),
        decreases 8 - i,
    {
        out.push(cs[i]);
        i += 1;
        proof { assert(out@ =~= cs@.subrange(0, i as int)); }
    }
    string_of(&out)
}

} // verus!
