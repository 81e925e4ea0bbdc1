//! Campaign engagement reports from an email-marketing service.
//!
//! A report generation walks a remote campaign listing, filters it by a
//! newsletter-type keyword, tallies ad clicks against caller-supplied
//! tracking URLs, and assembles, persists and exports the result. The
//! pipeline is a state machine in [`generator`]; the caller performs the
//! two HTTP requests and the file writes it asks for and hands the
//! outcomes back. Configuration and stored reports live in [`settings`]
//! and [`reports`]; exports in [`export`]; the JSON documents all of
//! them share in [`json`].
#![verifier::loop_isolation(false)]
use vstd::prelude::*;

pub mod clock;
pub mod dates;
pub mod export;
pub mod generator;
pub mod json;
pub mod mailchimp;
pub mod model;
pub mod validate;
pub mod progress;
pub mod reports;
pub mod settings;
pub mod text;

