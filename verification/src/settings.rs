//! Process settings that carry meaning beyond the command line: the log
//! output forms and levels, and the streamed source's connection
//! configuration. Argument parsing itself is the surrounding program's job.
use vstd::prelude::*;

use crate::text::eq_str;

verus! {

/// The log output format.
#[derive(Clone, Copy, Debug, PartialEq, Eq, Structural)]
pub enum LogFormat {
    Text,
    TextColor,
    Json,
}

/// How much log output the process generates.
#[derive(Clone, Copy, Debug, PartialEq, Eq, Structural)]
pub enum LogLevel {
    Trace,
    Debug,
    Info,
    Warn,
    Error,
}

/// How a log format is written on the command line.
pub open spec fn spec_parse_log_format(s: Seq<char>) -> Option<LogFormat> {
    if s == "text"@ {
        Some(LogFormat::Text)
    } else if s == "text-color"@ {
        Some(LogFormat::TextColor)
    } else if s == "json"@ {
        Some(LogFormat::Json)
    } else {
        None
    }
}

/// How a log level is written on the command line.
pub open spec fn spec_parse_log_level(s: Seq<char>) -> Option<LogLevel> {
    if s == "trace"@ {
        Some(LogLevel::Trace)
    } else if s == "debug"@ {
        Some(LogLevel::Debug)
    } else if s == "info"@ {
        Some(LogLevel::Info)
    } else if s == "warn"@ {
        Some(LogLevel::Warn)
    } else if s == "error"@ {
        Some(LogLevel::Error)
    } else {
        None
    }
}

impl LogFormat {
    /// Parses the command-line form of a log format.
    pub fn from_param(s: &str) -> (r: Option<LogFormat>)
        ensures
            r == spec_parse_log_format(s@),
    {
        if eq_str(s, "text") {
            Some(LogFormat::Text)
        } else if eq_str(s, "text-color") {
            Some(LogFormat::TextColor)
        } else if eq_str(s, "json") {
            Some(LogFormat::Json)
        } else {
            None
        }
    }
}

impl LogLevel {
    /// Parses the command-line form of a log level.
    pub fn from_param(s: &str) -> (r: Option<LogLevel>)
        ensures
            r == spec_parse_log_level(s@),
    {
        if eq_str(s, "trace") {
            Some(LogLevel::Trace)
        } else if eq_str(s, "debug") {
            Some(LogLevel::Debug)
        } else if eq_str(s, "info") {
            Some(LogLevel::Info)
        } else if eq_str(s, "warn") {
            Some(LogLevel::Warn)
        } else if eq_str(s, "error") {
            Some(LogLevel::Error)
        } else {
            None
        }
    }
}

/// The streamed upstream source's connection configuration.
#[derive(Clone, Debug)]
pub struct Smm2UpstreamDbConfig {
    pub connection_string: String,
}

} // verus!
