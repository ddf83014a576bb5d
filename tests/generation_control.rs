use std::collections::HashMap;

use sakila::generation::{
    BannedTokens, GenPhase, Generation, GenerationError, SetupError, SpecialTokens, Step,
};
use tokenizers::models::wordlevel::WordLevel;
use tokenizers::Tokenizer;

fn tokens(eos: u32, banned: Vec<u32>) -> SpecialTokens {
    SpecialTokens { eos_token: eos, banned: BannedTokens::from_ids(banned) }
}

#[test]
fn prefill_then_decode_positions() {
    let mut g = Generation::new(5, &tokens(0, vec![]));
    assert_eq!(g.begin(4), Step::Prefill { position: 0 });
    assert_eq!(g.accept(10), Ok(Step::Decode { token: 10, position: 4 }));
    assert_eq!(g.accept(11), Ok(Step::Decode { token: 11, position: 5 }));
    assert_eq!(g.accept(12), Ok(Step::Decode { token: 12, position: 6 }));
    assert_eq!(g.generated(), &vec![10, 11, 12]);
}

#[test]
fn stops_on_end_of_sequence() {
    let mut g = Generation::new(10, &tokens(99, vec![]));
    g.begin(3);
    assert_eq!(g.accept(5), Ok(Step::Decode { token: 5, position: 3 }));
    assert_eq!(g.accept(99), Ok(Step::Finished));
    assert_eq!(g.generated(), &vec![5, 99]);
    assert_eq!(g.phase(), GenPhase::Done);
}

#[test]
fn end_of_sequence_at_prefill_stops() {
    let mut g = Generation::new(10, &tokens(99, vec![]));
    g.begin(3);
    assert_eq!(g.accept(99), Ok(Step::Finished));
    assert_eq!(g.generated(), &vec![99]);
}

#[test]
fn stops_at_length_cap() {
    let mut g = Generation::new(3, &tokens(99, vec![]));
    g.begin(2);
    assert_eq!(g.accept(1), Ok(Step::Decode { token: 1, position: 2 }));
    assert_eq!(g.accept(2), Ok(Step::Decode { token: 2, position: 3 }));
    assert_eq!(g.accept(3), Ok(Step::Truncated));
    assert_eq!(g.generated().len(), 3);
}

#[test]
fn zero_length_cap_generates_nothing() {
    let mut g = Generation::new(0, &tokens(99, vec![]));
    assert_eq!(g.begin(2), Step::Truncated);
    assert!(g.generated().is_empty());
}

#[test]
fn banned_sample_is_refused() {
    let mut g = Generation::new(10, &tokens(99, vec![7, 8]));
    g.begin(1);
    assert_eq!(g.accept(1), Ok(Step::Decode { token: 1, position: 1 }));
    assert_eq!(g.accept(8), Err(GenerationError::BannedToken { token: 8 }));
    assert_eq!(g.generated(), &vec![1]);
    assert_eq!(g.phase(), GenPhase::Done);
}

#[test]
fn banned_lookups_skip_missing() {
    let b = BannedTokens::from_lookups(&vec![Some(3), None, Some(5)]);
    assert_eq!(b.ids(), &vec![3, 5]);
    assert!(b.contains(5));
    assert!(!b.contains(4));
}

#[test]
fn missing_end_of_sequence_fails_setup() {
    assert_eq!(
        SpecialTokens::from_lookups("<|im_end|>", None, &vec![Some(1)]),
        Err(SetupError::MissingToken { name: "<|im_end|>".to_string() })
    );
    assert_eq!(SpecialTokens::from_lookups("<|im_end|>", Some(2), &vec![None, Some(1)]), Ok(tokens(2, vec![1])));
}

#[test]
fn resolve_looks_up_vocabulary() {
    let mut vocab = HashMap::new();
    vocab.insert("[UNK]".to_string(), 0u32);
    vocab.insert("<end>".to_string(), 4u32);
    vocab.insert("<think>".to_string(), 6u32);
    let model = WordLevel::builder().vocab(vocab.into_iter().collect()).unk_token("[UNK]".to_string()).build().unwrap();
    let tok = Tokenizer::new(model);
    let names = vec!["<think>".to_string(), "<absent>".to_string()];
    assert_eq!(SpecialTokens::resolve(&tok, "<end>", &names), Ok(tokens(4, vec![6])));
    assert_eq!(
        SpecialTokens::resolve(&tok, "<stop>", &names),
        Err(SetupError::MissingToken { name: "<stop>".to_string() })
    );
}
