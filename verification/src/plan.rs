//! Decisions of a run that need no file system: which reading of a file's
//! content holds, and how a dry run describes what it would generate.

use vstd::prelude::*;
use vstd::string::*;
use crate::model::{CppSpec, DataFile, DataSpec};
use crate::options::Options;
use crate::text::{decimal, push_decimal};

verus! {

/// A file's content is neither a `DataFile` nor a `DataSpec`.
#[derive(Debug)]
pub struct NotASchema;

impl NotASchema {
    /// The text of the error.
    pub fn message(&self) -> (r: String)
        ensures
            r@ == "Content is neither DataFile nor DataSpec"@,
    {
        String::from_str("Content is neither DataFile nor DataSpec")
    }
}

/// The type definitions of a file, given the outcome of reading its content
/// as a `DataFile` (several types) and as a `DataSpec` (one type): the
/// `DataFile` reading wins, then the `DataSpec` one.
pub fn select_specs(as_file: Option<DataFile>, as_spec: Option<DataSpec>) -> (r: Result<Vec<DataSpec>, NotASchema>)
    ensures
        match as_file {
            Some(f) => r == Ok::<Vec<DataSpec>, NotASchema>(f.types),
            None => match as_spec {
                Some(s) => r matches Ok(v) && v@ == seq![s],
                None => r is Err,
            },
        },
{
    if let Some(f) = as_file {
        return Ok(f.types);
    }
    if let Some(s) = as_spec {
        let mut v: Vec<DataSpec> = Vec::new();
        v.push(s);
        assert(v@ =~= seq![s]);
        return Ok(v);
    }
    Err(NotASchema)
}

/// `n` in decimal.
pub fn decimal_string(n: usize) -> (r: String)
    ensures
        r@ == decimal(n as nat),
{
    let mut s = String::new();
    push_decimal(&mut s, n as u64);
    assert(s@ =~= decimal(n as nat));
    s
}

/// What a dry run reports for a normalized type read from `source`:
/// `[dry-run] <type>: <n> record(s) from <source>`.
pub open spec fn dry_run_text(c: CppSpec, source: Seq<char>) -> Seq<char> {
    "[dry-run] "@ + c.name@ + ": "@ + decimal(c.records@.len()) + " record(s) from "@ + source
}

/// The dry run's report line for a normalized type (see `dry_run_text`).
pub fn dry_run_unit(c: &CppSpec, source: &str) -> (r: String)
    ensures
        r@ == dry_run_text(*c, source@),
{
    let mut r = String::from_str("[dry-run] ");
    r.append(c.name.as_str());
    r.append(": ");
    let n = decimal_string(c.records.len());
    r.append(n.as_str());
    r.append(" record(s) from ");
    r.append(source);
    r
}


/// No `.ron` file was found under the input directory; it holds the
/// directory.
#[derive(Debug)]
pub struct NoRonFiles {
    pub input: String,
}

impl NoRonFiles {
    /// The text of the error.
    pub fn message(&self) -> (r: String)
        ensures
            r@ == "No .ron files found under input directory: "@ + self.input@,
    {
        let mut r = String::from_str("No .ron files found under input directory: ");
        r.append(self.input.as_str());
        r
    }
}

/// A run needs at least one `.ron` file under its input directory.
pub fn check_found(count: usize, input: &str) -> (r: Result<(), NoRonFiles>)
    ensures
        r is Ok <==> count > 0,
        r matches Err(e) ==> e.input@ == input@,
{
    if count == 0 {
        Err(NoRonFiles { input: String::from_str(input) })
    } else {
        Ok(())
    }
}

/// The report line for what the UE generator produced: `UE: <unit>`.
pub fn ue_unit_line(unit: &str) -> (r: String)
    ensures
        r@ == "UE: "@ + unit@,
{
    let mut r = String::from_str("UE: ");
    r.append(unit);
    r
}

/// The report line for what the Rust generator produced: `Rust: <unit>`.
pub fn rust_unit_line(unit: &str) -> (r: String)
    ensures
        r@ == "Rust: "@ + unit@,
{
    let mut r = String::from_str("Rust: ");
    r.append(unit);
    r
}


/// Which output directories a run creates before reading any file: the UE
/// directory, and the directory that holds the Rust file. A dry run creates
/// none.
pub fn setup_actions(opts: &Options) -> (r: (bool, bool))
    ensures
        r.0 == (opts.out_ue is Some && !opts.dry_run),
        r.1 == (opts.out_rust_file is Some && !opts.dry_run),
{
    (opts.out_ue.is_some() && !opts.dry_run, opts.out_rust_file.is_some() && !opts.dry_run)
}

/// What a run does with one normalized type.
#[derive(Debug)]
pub enum SpecStep {
    /// Dry run: report this line and write nothing.
    Report(String),
    /// Keep the type for the Rust file, and generate its UE files when `ue`.
    Generate { ue: bool },
}

/// The step for a normalized type read from `source`: in a dry run its
/// report line, otherwise generation (UE files when `out_ue` is given).
pub fn spec_step(opts: &Options, c: &CppSpec, source: &str) -> (r: SpecStep)
    ensures
        opts.dry_run ==> (r matches SpecStep::Report(t) && t@ == dry_run_text(*c, source@)),
        !opts.dry_run ==> r == (SpecStep::Generate { ue: opts.out_ue is Some }),
{
    if opts.dry_run {
        SpecStep::Report(dry_run_unit(c, source))
    } else {
        SpecStep::Generate { ue: opts.out_ue.is_some() }
    }
}

/// Whether the Rust file is written, after every type has been read: only
/// outside a dry run, and only when `out_rust_file` is given.
pub fn rust_output_due(opts: &Options) -> (r: bool)
    ensures
        r == (!opts.dry_run && opts.out_rust_file is Some),
{
    !opts.dry_run && opts.out_rust_file.is_some()
}

} // verus!
