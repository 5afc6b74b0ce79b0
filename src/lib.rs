//! Uploads one file to an S3-compatible bucket and hands back its public URL.
//!
//! The library holds the decisions: which settings file is used and what it
//! must hold, the key and URL of the uploaded object, and the order in which
//! a run checks its argument, the file, the settings, uploads and copies the
//! URL. The program around it carries out each action and reports back.
use vstd::prelude::*;

pub mod encoding;
pub mod object;
pub mod session;
pub mod settings;

verus! {

} // verus!
