use artefact_runtime::generate::{argmax, Generator};
use artefact_runtime::tokenizer::eos_or_default;

#[test]
fn argmax_takes_first_maximum() {
    assert_eq!(argmax(&vec![5, 9, 9]), 1);
    assert_eq!(argmax(&vec![7]), 0);
    assert_eq!(argmax(&vec![-3, -1, -2]), 1);
    assert_eq!(argmax(&vec![4, 4, 4]), 0);
}

// Order keys whose maximum sits at `winner` within a vocabulary of
// `vocab` entries, standing in for one chat-graph run.
fn stub_keys(vocab: usize, winner: usize) -> Vec<i64> {
    let mut keys = vec![0i64; vocab];
    keys[winner] = 100;
    keys
}

#[test]
fn immediate_eos_generates_empty_text() {
    let eos = 7u32;
    let mut gen = Generator::new(vec![1, 2, 3], 16, eos);
    assert!(gen.running());
    // The stub graph immediately selects the end-of-sequence token.
    let picked = gen.on_logits(&stub_keys(10, 7));
    assert_eq!(picked, None);
    assert!(!gen.running());
    assert_eq!(gen.text, "");
    assert_eq!(gen.tokens, vec![1, 2, 3]);
    assert_eq!(gen.steps, 0);
}

#[test]
fn budget_bounds_generation_exactly() {
    let max_tokens = 5;
    let mut gen = Generator::new(vec![1], max_tokens, 99);
    // The stub graph never selects the end-of-sequence token.
    while gen.running() {
        let picked = gen.on_logits(&stub_keys(10, 3));
        assert_eq!(picked, Some(3));
        gen.on_decoded("x");
    }
    assert_eq!(gen.steps, max_tokens);
    assert_eq!(gen.text, "xxxxx");
    assert_eq!(gen.tokens, vec![1, 3, 3, 3, 3, 3]);
}

#[test]
fn trailing_newline_stops_generation() {
    let mut gen = Generator::new(vec![1], 16, 99);
    let picked = gen.on_logits(&stub_keys(10, 4));
    assert_eq!(picked, Some(4));
    gen.on_decoded("done\n");
    assert!(!gen.running());
    assert_eq!(gen.text, "done\n");
    assert_eq!(gen.steps, 1);
}

#[test]
fn zero_budget_runs_no_step() {
    let gen = Generator::new(vec![1, 2], 0, 7);
    assert!(!gen.running());
    assert_eq!(gen.text, "");
}

#[test]
fn eos_falls_back_when_vocabulary_lacks_entry() {
    assert_eq!(eos_or_default(Some(5)), 5);
    assert_eq!(eos_or_default(None), 2);
}
