//! The assembler: from source text to the binary image that the machine loads.

use vstd::prelude::*;

pub mod assembly_steps;
pub mod disassembly_steps;
pub mod grammar;
pub mod laws;
pub mod line;
pub mod symbols;
pub mod types;
pub mod writing;

use self::assembly_steps::{
    convert_to_bytes, remove_comments, resolve_labels, spec_bytes_result, spec_convert_to_bytes,
    spec_lines, spec_remove_comments, spec_resolve_labels, spec_tokenize, split_to_lines,
    tokenize,
};
use self::types::{AssemblyError, AssemblyErrorView};

verus! {

/// The image that the source text `source` assembles to, or the first error in it:
/// comments are removed, the text is split into lines, the lines become tokens,
/// labels are resolved, and the tokens are written out as bytes.
pub open spec fn spec_assemble(source: Seq<char>) -> Result<Seq<u8>, AssemblyErrorView> {
    match spec_tokenize(spec_lines(spec_remove_comments(source), 0)) {
        Err(e) => Err(e),
        Ok(tokens) => match spec_resolve_labels(tokens) {
            Err(e) => Err(e),
            Ok(resolved) => spec_convert_to_bytes(resolved),
        },
    }
}

/// Assembles a source text into the bytes of a binary image.
pub fn assemble(source: String) -> (r: Result<Vec<u8>, AssemblyError>)
    ensures
        spec_bytes_result(r) == spec_assemble(source@),
{
    let source_without_comments = remove_comments(source);
    let source_lines = split_to_lines(&source_without_comments);
    let tokens = tokenize(source_lines)?;
    let tokens = resolve_labels(tokens)?;
    convert_to_bytes(tokens)
}

} // verus!
