//! The client-side activity event and the record that is handed to the
//! persistence boundary.

use vstd::prelude::*;

verus! {

/// Details of one observed file activity (open, save, focus, typing).
#[derive(Clone, Copy, Debug, PartialEq, Eq)]
pub struct Event<'a> {
    pub file: &'a str,
    pub activity: &'a str,
    pub language: &'a str,
    pub project: &'a str,
    pub editor: &'a str,
    pub metadata: Option<&'a str>,
    pub duration: Option<i64>,
}

} // verus!
