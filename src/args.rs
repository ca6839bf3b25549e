//! The command-line options of the server, as plain values, and the choices
//! derived from them.

use crate::quotes::QuoteCategory;
use crate::server::{categories_spec, AllowedCategories};
use vstd::prelude::*;

verus! {

/// A Quote of the Day Protocol (RFC 865) server's options.
#[derive(Debug)]
pub struct Cli {
    /// Choose from all quotes, decorous and offensive.
    pub all: bool,
    /// The allowed categories; where given, this decides alone.
    pub categories: Option<AllowedCategories>,
    /// The directory to read quote files from.
    pub dir: String,
    /// The address to bind to.
    pub host: String,
    /// A file to write the log to as well.
    pub log_file: Option<String>,
    /// Choose only from offensive quotes.
    pub offensive: bool,
    /// The port to listen on.
    pub port: u16,
    /// Log less; ignored where `verbosity` is above zero.
    pub quiet: bool,
    /// How many times more verbose logging was asked for.
    pub verbosity: u8,
}

/// How much is logged.
#[derive(Debug, Clone, Copy, PartialEq, Eq, Structural)]
pub enum LogLevel {
    Error,
    Warn,
    Info,
    Debug,
    Trace,
}

/// The category choice the options make: an explicit choice first, then
/// "all", then "offensive", and decorous quotes alone where none is made.
pub open spec fn choice_spec(c: Cli) -> AllowedCategories {
    match c.categories {
        Some(a) => a,
        None => if c.all {
            AllowedCategories::All
        } else if c.offensive {
            AllowedCategories::Offensive
        } else {
            AllowedCategories::Decorous
        },
    }
}

/// The log level the options ask for: each `verbose` raises it a step above
/// warnings, up to trace; `quiet` lowers it to errors where none was given.
pub open spec fn level_spec(verbosity: u8, quiet: bool) -> LogLevel {
    if verbosity == 0 {
        if quiet {
            LogLevel::Error
        } else {
            LogLevel::Warn
        }
    } else if verbosity == 1 {
        LogLevel::Info
    } else if verbosity == 2 {
        LogLevel::Debug
    } else {
        LogLevel::Trace
    }
}

impl Cli {
    /// The categories of quotes the options allow.
    pub fn allowed_categories(&self) -> (r: Vec<QuoteCategory>)
        ensures
            r@ == categories_spec(choice_spec(*self)),
    {
        if let Some(categories) = self.categories {
            categories.as_category_vec()
        } else if self.all {
            AllowedCategories::All.as_category_vec()
        } else if self.offensive {
            AllowedCategories::Offensive.as_category_vec()
        } else {
            AllowedCategories::Decorous.as_category_vec()
        }
    }

    /// The log level the options ask for.
    pub fn verbosity(&self) -> (r: LogLevel)
        ensures
            r == level_spec(self.verbosity, self.quiet),
    {
        match self.verbosity {
            0 => if self.quiet {
                LogLevel::Error
            } else {
                LogLevel::Warn
            },
            1 => LogLevel::Info,
            2 => LogLevel::Debug,
            _ => LogLevel::Trace,
        }
    }
}

} // verus!
