use llmcache::adjudicate::adjudicate_prompt;
use llmcache::AdjudicateRequest;

#[test]
fn prompt_lays_out_the_dispute() {
    let request = AdjudicateRequest {
        problem_text: "Violets are red. Roses are blue.".to_string(),
        side_a_text: "Violets are more like purple.".to_string(),
        side_b_text: "Violets are more like burgundy.".to_string(),
    };
    assert_eq!(
        adjudicate_prompt(&request),
        "Adjudicate between two sides A and B and use the adjudicate function to provide your answer. Be as impartial as possible.\n Problem: Violets are red. Roses are blue. \n\n\n Side A: Violets are more like purple. \n\n\n Side B: Violets are more like burgundy."
    );
}
