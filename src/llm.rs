//! The text transform: an instruction applied to the buffer's content.

use vstd::prelude::*;
use vstd::string::StringExecFns;

verus! {

/// What the transform answers for an instruction and a context.
pub open spec fn processed(instruction: Seq<char>, context: Seq<char>) -> Seq<char> {
    "Processed instruction: '"@ + instruction + "' with context: '"@ + context + "'"@
}

/// The transform model; it holds no state.
pub struct LlamaModel;

impl LlamaModel {
    pub fn new() -> (r: LlamaModel) {
        LlamaModel
    }

    /// The answer to `instruction` on `context`.
    pub fn process(&self, instruction: &str, context: String) -> (r: String)
        ensures
            r@ == processed(instruction@, context@),
    {
        let mut r = String::from_str("Processed instruction: '");
        r.append(instruction);
        r.append("' with context: '");
        r.append(context.as_str());
        r.append("'");
        r
    }
}

} // verus!
