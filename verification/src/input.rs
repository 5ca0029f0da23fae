//! The kinds of input that can be read.

use crate::error::{Error, ErrorView};
use crate::text::same_text;
use vstd::prelude::*;

verus! {

/// The shape of the input records.
#[derive(Clone, Copy, Debug, PartialEq, Eq, Structural)]
#[non_exhaustive]
pub enum InputType {
    /// One JSON object per line, as the journal exports them.
    JournaldJson,
}

/// The name of [`InputType::JournaldJson`] in a configuration.
pub const JOURNALD_JSON: &'static str = "journald-json";

/// The input type that a configuration value names: `journald-json`,
/// written exactly so. Any other text is an invalid input type, reported as
/// it was given.
pub open spec fn input_type_of_text(s: Seq<char>) -> Result<InputType, ErrorView> {
    if s == JOURNALD_JSON@ {
        Ok(InputType::JournaldJson)
    } else {
        Err(ErrorView::InvalidInputType(s))
    }
}

impl InputType {
    /// The input type that `s` names, as [`input_type_of_text`] defines it.
    pub fn from_str(s: &str) -> (selected: Result<InputType, Error>)
        ensures
            match selected {
                Ok(input) => input_type_of_text(s@) == Ok::<InputType, ErrorView>(input),
                Err(e) => input_type_of_text(s@) == Err::<InputType, ErrorView>(e@),
            },
    {
        if same_text(s, JOURNALD_JSON) {
            Ok(InputType::JournaldJson)
        } else {
            Err(Error::InvalidInputType(String::from_str(s)))
        }
    }
}

} // verus!
