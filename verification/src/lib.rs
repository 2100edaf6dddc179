//! Compiler from a declarative description of cyclic keybinding groups to the
//! flat `alias`/`bind` statements of a game engine's scripting console.
//!
//! The library is organised around a small pipeline: a JSON-shaped document
//! ([`json_value::JsonValue`]) is decoded into the configuration model
//! ([`keybind_switcher::KeybindSwitcher`]) or into a usage value
//! ([`json_usage::JsonUsage`]); the ring linker computes the circular
//! next/previous names of every command set; and the script emitter renders
//! the self-rewriting alias chain as text.

pub mod data;
pub mod error;
pub mod json_usage;
pub mod json_value;
pub mod keybind_switcher;
pub mod text;

use vstd::prelude::*;

use crate::error::Error;
use crate::error::ErrorKind;

verus! {

/// Capability shared by every emittable unit: produce the unit's canonical
/// console-script form, or fail with an error that names what is malformed.
///
/// Each implementor supplies its own validity predicate (`gen_ok`), the text
/// it renders when valid (`gen_text`), and the kind and message of the error
/// it reports when not (`gen_err_kind`, `gen_err_msg`); `generate` is then
/// pinned exactly to those four spec functions.
pub trait GenerateCommand: Sized {
    /// Whether `generate` succeeds on this value.
    spec fn gen_ok(&self) -> bool;

    /// The text `generate` returns when it succeeds.
    spec fn gen_text(&self) -> Seq<char>;

    /// The kind of the error `generate` returns when it fails.
    spec fn gen_err_kind(&self) -> ErrorKind;

    /// The message of the error `generate` returns when it fails.
    spec fn gen_err_msg(&self) -> Seq<char>;

    /// Render the canonical textual form of this unit, whole or not at all.
    fn generate(&self) -> (r: Result<String, Error>)
        ensures
            self.gen_ok() <==> r is Ok,
            r matches Ok(s) ==> s@ == self.gen_text(),
            r matches Err(e) ==> e.kind == self.gen_err_kind() && e.msg@ == self.gen_err_msg(),
    ;
}

} // verus!
