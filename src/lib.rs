//! Infers the date/time format pattern (such as `%Y-%m-%d %H:%M:%S`) that a sample
//! timestamp is written in.
use vstd::prelude::*;

pub mod error;
pub mod grammar;
pub mod laws;
pub mod parser;

use grammar::inferred;

pub use error::DateTimeError;
pub use parser::{parse_sample_date, DateTimePart, Pattern};

verus! {

/// Infers the format pattern of `sample_date`, such as `%Y-%m-%d %H:%M:%S` for
/// `2020-10-09 15:24:50`; `None` when the sample does not start with a four-digit year.
pub fn infer_best(sample_date: &str) -> (r: Option<String>)
    ensures
        match r {
            Some(t) => inferred(sample_date@) == Some(t@),
            None => inferred(sample_date@) is None,
        },
{
    match parse_sample_date(sample_date) {
        Ok((_, pattern)) => Some(pattern.as_str()),
        Err(_) => None,
    }
}

} // verus!
