//! A run of the generator: from the sources of the modules to the block of
//! methods, and the line that reports it.

use crate::collect::{
    api_functions, lemma_invalid_module_fails, parse_api_functions, ModuleSource,
    ModuleSourceView,
};
use crate::error::{BuildError, BuildErrorView};
use crate::generate::{client_source, generate_client_impl, rendered};
use crate::source::parsed_source;
use crate::text::{decimal, decimal_text};
use vstd::prelude::*;
use vstd::string::*;

verus! {

/// What a run gives: the text of the block, and the number of functions that
/// it has a method for.
#[derive(Debug)]
pub struct GeneratedClient {
    pub code: String,
    pub functions: usize,
}

/// What a run on `modules` gives: the block and the number of its methods,
/// or the error that ended the run.
pub open spec fn client_of(modules: Seq<ModuleSourceView>) -> Result<
    (Seq<char>, nat),
    BuildErrorView,
> {
    match api_functions(modules) {
        Ok(functions) => match rendered(client_source(functions)) {
            Ok(code) => Ok((code, functions.len())),
            Err(error) => Err(error),
        },
        Err(error) => Err(error),
    }
}

/// Whether `r` is what a run on `modules` gives.
pub open spec fn is_run_result(r: Result<GeneratedClient, BuildError>, modules: Seq<ModuleSourceView>) -> bool {
    match r {
        Ok(client) => client_of(modules) == Ok::<(Seq<char>, nat), BuildErrorView>(
            (client.code@, client.functions as nat),
        ),
        Err(error) => client_of(modules) == Err::<(Seq<char>, nat), BuildErrorView>(error@),
    }
}

/// Runs the generator on the sources of the modules, in the order given.
///
/// Any error ends the run, and then there is no block: neither in part, nor
/// for the modules that have no fault.
pub fn generate_client(modules: &Vec<ModuleSource>) -> (r: Result<GeneratedClient, BuildError>)
    ensures
        is_run_result(r, modules.deep_view()),
{
    let functions = match parse_api_functions(modules) {
        Ok(functions) => functions,
        Err(error) => {
            return Err(error);
        },
    };
    match generate_client_impl(&functions) {
        Ok(code) => Ok(GeneratedClient { code, functions: functions.len() }),
        Err(error) => Err(error),
    }
}

/// Two runs on the same modules, in the same order, end alike: with the
/// same block and number, or with the same error.
pub proof fn lemma_runs_agree(
    modules: Seq<ModuleSourceView>,
    first: Result<GeneratedClient, BuildError>,
    second: Result<GeneratedClient, BuildError>,
)
    requires
        is_run_result(first, modules),
        is_run_result(second, modules),
    ensures
        match (first, second) {
            (Ok(a), Ok(b)) => a.code@ == b.code@ && a.functions == b.functions,
            (Err(a), Err(b)) => a@ == b@,
            _ => false,
        },
{
}

/// A module whose source is not valid Rust leaves the run without a block.
pub proof fn lemma_invalid_module_gives_no_client(
    modules: Seq<ModuleSourceView>,
    k: int,
    r: Result<GeneratedClient, BuildError>,
)
    requires
        0 <= k < modules.len(),
        parsed_source(modules[k].code) is Err,
        is_run_result(r, modules),
    ensures
        r matches Err(error) && error@ is Parse,
{
    lemma_invalid_module_fails(modules, k);
    lemma_parse_errors_only(modules);
}

/// Reading the modules fails only on a source that is not valid Rust.
proof fn lemma_parse_errors_only(modules: Seq<ModuleSourceView>)
    ensures
        api_functions(modules) matches Err(error) ==> error is Parse,
    decreases modules.len(),
{
    if modules.len() > 0 {
        lemma_parse_errors_only(modules.drop_last());
    }
}

/// The sentence that reports a run that gave methods for `count` functions.
pub open spec fn summary_text(count: nat) -> Seq<char> {
    "Generated client for "@ + decimal(count) + " API functions"@
}

/// Writes the sentence that reports a run.
pub fn summary(count: usize) -> (r: String)
    ensures
        r@ == summary_text(count as nat),
{
    let mut r = String::from_str("Generated client for ");
    r.append(decimal_text(count).as_str());
    r.append(" API functions");
    r
}

/// The line that shows `message` as a note of the build: a warning for
/// cargo that clears its line and starts with `info` in bold blue.
pub open spec fn info_line(message: Seq<char>) -> Seq<char> {
    "cargo:warning=\x1b[2K\r\x1b[1m\x1b[34minfo\x1b[0m: "@ + message
}

/// Writes the line that shows `message` as a note of the build.
pub fn build_info_line(message: &str) -> (r: String)
    ensures
        r@ == info_line(message@),
{
    let mut r = String::from_str("cargo:warning=\x1b[2K\r\x1b[1m\x1b[34minfo\x1b[0m: ");
    r.append(message);
    r
}

} // verus!
