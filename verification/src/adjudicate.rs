//! The prompt that asks the model to adjudicate a dispute between two sides.
use vstd::prelude::*;
use vstd::string::StringExecFns;

verus! {

/// A dispute to adjudicate: the problem and the two sides' statements.
#[derive(Debug, PartialEq, Eq)]
pub struct AdjudicateRequest {
    pub problem_text: String,
    pub side_a_text: String,
    pub side_b_text: String,
}

/// The instruction that opens every adjudication prompt.
pub open spec fn instruction() -> Seq<char> {
    "Adjudicate between two sides A and B and use the adjudicate function to provide your answer. Be as impartial as possible."@
}

/// The prompt for a dispute: the instruction, then the problem and each
/// side's statement, each under its heading.
pub open spec fn adjudicate_prompt_spec(problem: Seq<char>, side_a: Seq<char>, side_b: Seq<char>) -> Seq<
    char,
> {
    instruction() + "\n Problem: "@ + problem + " \n\n\n Side A: "@ + side_a + " \n\n\n Side B: "@
        + side_b
}

/// The prompt that asks the model to adjudicate `request`.
pub fn adjudicate_prompt(request: &AdjudicateRequest) -> (r: String)
    ensures
        r@ == adjudicate_prompt_spec(
            request.problem_text@,
            request.side_a_text@,
            request.side_b_text@,
        ),
{
    let mut prompt = String::from_str(
        "Adjudicate between two sides A and B and use the adjudicate function to provide your answer. Be as impartial as possible.",
    );
    prompt.append("\n Problem: ");
    prompt.append(request.problem_text.as_str());
    prompt.append(" \n\n\n Side A: ");
    prompt.append(request.side_a_text.as_str());
    prompt.append(" \n\n\n Side B: ");
    prompt.append(request.side_b_text.as_str());
    prompt
}

} // verus!
