//! What is said of a configuration file that could not be written, read or parsed.

use vstd::prelude::*;
use vstd::string::StringExecFns;

verus! {

/// What was being done with a configuration file.
#[derive(Clone, Copy, Debug, PartialEq, Eq, Structural)]
pub enum FileStep {
    Writing,
    Reading,
    Parsing,
}

/// The context of a failure at `step` on the file at `path`.
pub open spec fn context_text(step: FileStep, path: Seq<char>) -> Seq<char> {
    match step {
        FileStep::Writing => "writing compressor config to "@ + path,
        FileStep::Reading => "reading compressor config from "@ + path,
        FileStep::Parsing => "parsing compressor config at "@ + path,
    }
}

/// Writes the context of a failure at `step` on the file at `path`.
pub fn failure_context(step: FileStep, path: &str) -> (r: String)
    ensures
        r@ == context_text(step, path@),
{
    let mut context = String::from_str(
        match step {
            FileStep::Writing => "writing compressor config to ",
            FileStep::Reading => "reading compressor config from ",
            FileStep::Parsing => "parsing compressor config at ",
        },
    );
    context.append(path);
    context
}

/// The context of a failure says what was being done, and with which file: it ends with the path,
/// as it was given, and what stands before the path depends on the step alone.
pub proof fn context_names_the_step_and_the_file(step: FileStep, path: &str, r: String)
    requires
        call_ensures(failure_context, (step, path), r),
    ensures
        r@ == context_text(step, path@),
        r@ == (match step {
            FileStep::Writing => "writing compressor config to "@,
            FileStep::Reading => "reading compressor config from "@,
            FileStep::Parsing => "parsing compressor config at "@,
        }) + path@,
{
}

} // verus!
