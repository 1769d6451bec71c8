//! Options that control a run: the input directory, the outputs, the
//! namespace, and whether anything is written.

use vstd::prelude::*;
use vstd::string::*;

verus! {

/// Options controlling how RON input is processed and code is emitted.
///
/// - `input`: directory of `.ron` files (scanned recursively).
/// - `out_ue`: directory for UE C++ code; `None` skips UE generation.
/// - `out_rust_file`: path of the single generated Rust file; `None` skips it.
/// - `namespace`: optional C++ namespace chain (e.g. `Game::DB`), outermost,
///   merged with any per-file namespace.
/// - `force`: overwrite existing files (outputs are always overwritten).
/// - `dry_run`: parse and validate only; write nothing.
#[derive(Debug, Clone)]
pub struct Options {
    pub input: String,
    pub out_ue: Option<String>,
    pub out_rust_file: Option<String>,
    pub namespace: Option<String>,
    pub force: bool,
    pub dry_run: bool,
}

/// Why options were refused.
#[derive(Debug)]
pub enum OptionsError {
    /// The input path is not an existing directory; it holds the path.
    InputNotDirectory(String),
    /// Neither output was chosen.
    NoOutputs,
}

impl Options {
    /// Checks the options, given whether `input` names an existing directory
    /// (a question for the file system, asked by the caller): the input must
    /// be a directory, and at least one of `out_ue` and `out_rust_file` must
    /// be given. The input is checked first.
    pub fn validate(&self, input_is_dir: bool) -> (r: Result<(), OptionsError>)
        ensures
            r is Ok <==> input_is_dir && (self.out_ue is Some || self.out_rust_file is Some),
            r matches Err(OptionsError::InputNotDirectory(p)) ==> !input_is_dir && p == self.input,
            r matches Err(OptionsError::NoOutputs) ==> input_is_dir && self.out_ue is None
                && self.out_rust_file is None,
    {
        if !input_is_dir {
            return Err(OptionsError::InputNotDirectory(self.input.clone()));
        }
        if self.out_ue.is_none() && self.out_rust_file.is_none() {
            return Err(OptionsError::NoOutputs);
        }
        Ok(())
    }
}

impl Options {
    /// Checks the options for a run, given whether `input` names an existing
    /// directory: the input must be a directory, and a run that writes
    /// (not a dry run) needs at least one of `out_ue` and `out_rust_file`.
    /// A dry run with no output is the validate-only run.
    pub fn check_run(&self, input_is_dir: bool) -> (r: Result<(), OptionsError>)
        ensures
            r is Ok <==> input_is_dir && (self.dry_run || self.out_ue is Some || self.out_rust_file is Some),
            r matches Err(OptionsError::InputNotDirectory(p)) ==> !input_is_dir && p == self.input,
            r matches Err(OptionsError::NoOutputs) ==> input_is_dir && !self.dry_run && self.out_ue is None
                && self.out_rust_file is None,
    {
        if !input_is_dir {
            return Err(OptionsError::InputNotDirectory(self.input.clone()));
        }
        if self.dry_run {
            return Ok(());
        }
        self.validate(input_is_dir)
    }
}

pub open spec fn options_error_text(e: OptionsError) -> Seq<char> {
    match e {
        OptionsError::InputNotDirectory(p) => "Input path must be an existing directory: "@ + p@,
        OptionsError::NoOutputs => "No outputs selected. Provide at least one of out_ue or out_rust_file"@,
    }
}

impl OptionsError {
    /// The text of the error.
    pub fn message(&self) -> (r: String)
        ensures
            r@ == options_error_text(*self),
    {
        match self {
            OptionsError::InputNotDirectory(p) => {
                let mut r = String::from_str("Input path must be an existing directory: ");
                r.append(p.as_str());
                r
            },
            OptionsError::NoOutputs => String::from_str(
                "No outputs selected. Provide at least one of out_ue or out_rust_file",
            ),
        }
    }
}

} // verus!
