//! Verified core of a command-line client for an error-tracking service's
//! REST API: configuration loading with an INI-style fallback parser, URL
//! path construction for the service's endpoints, and classification of
//! HTTP responses into results and errors.

pub mod api;
pub mod config;
pub mod ini;

use vstd::prelude::*;

verus! {

/// Spec view of an optional owned string as an optional character sequence.
pub open spec fn opt_view(o: Option<String>) -> Option<Seq<char>> {
    match o {
        Option::None => Option::<Seq<char>>::None,
        Option::Some(s) => Option::Some(s@),
    }
}

} // verus!
