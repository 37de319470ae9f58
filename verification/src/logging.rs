//! Log level names. Log lines are `[<iso8601>] [<level>] <msg>`.

use vstd::prelude::*;

use crate::number::{decimal_text, i64_to_string};
use crate::text::str_eq;
use crate::types::LogLevel;

verus! {

/// `trace`, `debug`, `warn`, `error` name their level; anything else is
/// `Info`.
pub open spec fn parse_log_level_spec(s: Seq<char>) -> LogLevel {
    if s == "trace"@ {
        LogLevel::Trace
    } else if s == "debug"@ {
        LogLevel::Debug
    } else if s == "warn"@ {
        LogLevel::Warn
    } else if s == "error"@ {
        LogLevel::Error
    } else {
        LogLevel::Info
    }
}

pub open spec fn log_level_name_spec(lv: LogLevel) -> Seq<char> {
    match lv {
        LogLevel::Trace => "trace"@,
        LogLevel::Debug => "debug"@,
        LogLevel::Info => "info"@,
        LogLevel::Warn => "warn"@,
        LogLevel::Error => "error"@,
    }
}

/// trace/debug/warn/error, anything else -> Info.
pub fn parse_log_level(s: &str) -> (lv: LogLevel)
    ensures
        lv == parse_log_level_spec(s@),
{
    if str_eq(s, "trace") {
        LogLevel::Trace
    } else if str_eq(s, "debug") {
        LogLevel::Debug
    } else if str_eq(s, "warn") {
        LogLevel::Warn
    } else if str_eq(s, "error") {
        LogLevel::Error
    } else {
        LogLevel::Info
    }
}

pub fn log_level_name(lv: LogLevel) -> (r: &'static str)
    ensures
        r@ == log_level_name_spec(lv),
{
    match lv {
        LogLevel::Trace => "trace",
        LogLevel::Debug => "debug",
        LogLevel::Info => "info",
        LogLevel::Warn => "warn",
        LogLevel::Error => "error",
    }
}

pub fn get_build_stamp() -> (r: String)
    ensures
        r@ == "rust build"@,
{
    "rust build".to_owned()
}

/// A message at `level` is written when it is at least as severe as the
/// logger's minimum level.
pub fn should_log(level: LogLevel, min_level: LogLevel) -> (r: bool)
    ensures
        r == (level.spec_rank() >= min_level.spec_rank()),
{
    level.rank() >= min_level.rank()
}

/// Parsing a level's name gives that level back.
pub proof fn law_log_level_name_roundtrip(lv: LogLevel)
    ensures
        parse_log_level_spec(log_level_name_spec(lv)) == lv,
{
    reveal_strlit("trace");
    reveal_strlit("debug");
    reveal_strlit("info");
    reveal_strlit("warn");
    reveal_strlit("error");
    assert("trace"@[0] != "debug"@[0] && "trace"@[0] != "warn"@[0] && "trace"@[0] != "error"@[0]);
    assert("debug"@[0] != "warn"@[0] && "debug"@[0] != "error"@[0]);
    assert("info"@[0] != "trace"@[0] && "info"@[0] != "debug"@[0] && "info"@[0] != "warn"@[0]
        && "info"@[0] != "error"@[0]);
    assert("warn"@[0] != "error"@[0]);
}

/// One log line: `[<timestamp>] [<level>] <msg>` and a newline.
pub fn format_log_line(timestamp: &str, level: LogLevel, msg: &str) -> (r: String)
    ensures
        r@ == "["@ + timestamp@ + "] ["@ + log_level_name_spec(level) + "] "@ + msg@ + "\n"@,
{
    let mut line = "[".to_owned();
    line.append(timestamp);
    line.append("] [");
    line.append(log_level_name(level));
    line.append("] ");
    line.append(msg);
    line.append("\n");
    line
}

/// The log file's name: `<stamp>_<pid>_<command>.log`, with `unknown`
/// for an empty command.
pub fn log_file_name(stamp: &str, pid: u32, command: &str) -> (r: String)
    ensures
        r@ == stamp@ + "_"@ + decimal_text(pid as int) + "_"@ + (if command@.len() == 0 {
            "unknown"@
        } else {
            command@
        }) + ".log"@,
{
    let mut name = stamp.to_owned();
    name.append("_");
    let pid_text = i64_to_string(pid as i64);
    name.append(pid_text.as_str());
    name.append("_");
    if command.is_empty() {
        name.append("unknown");
    } else {
        name.append(command);
    }
    name.append(".log");
    name
}

/// `Windows <major>.<minor> build <build>`.
pub fn os_version_text(major: u32, minor: u32, build: u32) -> (r: String)
    ensures
        r@ == "Windows "@ + decimal_text(major as int) + "."@ + decimal_text(minor as int)
            + " build "@ + decimal_text(build as int),
{
    let mut s = "Windows ".to_owned();
    let a = i64_to_string(major as i64);
    s.append(a.as_str());
    s.append(".");
    let b = i64_to_string(minor as i64);
    s.append(b.as_str());
    s.append(" build ");
    let c = i64_to_string(build as i64);
    s.append(c.as_str());
    s
}

} // verus!
