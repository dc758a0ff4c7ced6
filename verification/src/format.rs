//! Per-node formatters.
//!
//! A formatter is a pure transform from the text rendered so far to new text;
//! a node applies its own formatter once and hands the result down to its
//! children, so nested nodes wrap each other's output.

use vstd::prelude::*;

use crate::level::Level;

verus! {

/// The transforms a dispatch node may apply to the rendered text.
///
/// The set is closed: each variant is a total function of the record's level
/// and the current text, so two identical log calls always render identically.
pub enum Formatter {
    /// Prepends `"[LEVEL] "`, with the record's severity name in upper case.
    LevelPrefix,
    /// Prepends a fixed string.
    Prefix(String),
    /// Appends a fixed string.
    Suffix(String),
}

/// Ghost mirror of [`Formatter`], over sequences of characters.
#[verifier::ext_equal]
pub enum FormatterModel {
    LevelPrefix,
    Prefix(Seq<char>),
    Suffix(Seq<char>),
}

/// Upper-case name of a severity, as it appears in `"[LEVEL] "` prefixes.
pub open spec fn level_name(l: Level) -> Seq<char> {
    match l {
        Level::Trace => "TRACE"@,
        Level::Debug => "DEBUG"@,
        Level::Info => "INFO"@,
        Level::Warn => "WARN"@,
        Level::Error => "ERROR"@,
    }
}

/// The `"[LEVEL] "` prefix for a severity.
pub open spec fn level_prefix(l: Level) -> Seq<char> {
    "["@ + level_name(l) + "] "@
}

/// What an optional formatter turns `text` into for a record of severity
/// `level`: the identity when absent, otherwise the variant's transform.
pub open spec fn format_applied(
    f: Option<FormatterModel>,
    level: Level,
    text: Seq<char>,
) -> Seq<char> {
    match f {
        None => text,
        Some(FormatterModel::LevelPrefix) => level_prefix(level) + text,
        Some(FormatterModel::Prefix(p)) => p + text,
        Some(FormatterModel::Suffix(s)) => text + s,
    }
}

impl Formatter {
    /// Ghost mirror of this formatter.
    pub open spec fn model(&self) -> FormatterModel {
        match self {
            Formatter::LevelPrefix => FormatterModel::LevelPrefix,
            Formatter::Prefix(p) => FormatterModel::Prefix(p@),
            Formatter::Suffix(s) => FormatterModel::Suffix(s@),
        }
    }
}

/// Ghost mirror of an optional formatter.
pub open spec fn formatter_model(f: &Option<Formatter>) -> Option<FormatterModel> {
    match f {
        None => None,
        Some(g) => Some(g.model()),
    }
}

/// Upper-case name of a severity, as executable code.
pub fn level_label(l: Level) -> (r: &'static str)
    ensures
        r@ == level_name(l),
{
    match l {
        Level::Trace => "TRACE",
        Level::Debug => "DEBUG",
        Level::Info => "INFO",
        Level::Warn => "WARN",
        Level::Error => "ERROR",
    }
}

/// Applies an optional formatter to the text rendered so far.
pub fn apply_formatter(f: &Option<Formatter>, level: Level, text: &String) -> (r: String)
    ensures
        r@ == format_applied(formatter_model(f), level, text@),
{
    match f {
        None => text.clone(),
        Some(Formatter::LevelPrefix) => {
            let mut out = String::from_str("[");
            out.append(level_label(level));
            out.append("] ");
            out.append(text.as_str());
            out
        },
        Some(Formatter::Prefix(p)) => {
            let mut out = p.clone();
            out.append(text.as_str());
            out
        },
        Some(Formatter::Suffix(s)) => {
            let mut out = text.clone();
            out.append(s.as_str());
            out
        },
    }
}

} // verus!
