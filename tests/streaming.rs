use std::collections::HashMap;

use sakila::stream::StreamDecoder;
use tokenizers::models::wordlevel::WordLevel;
use tokenizers::Tokenizer;

fn word_tokenizer() -> Tokenizer {
    let mut vocab = HashMap::new();
    vocab.insert("[UNK]".to_string(), 0u32);
    vocab.insert("hello".to_string(), 1u32);
    vocab.insert("world".to_string(), 2u32);
    vocab.insert("again".to_string(), 3u32);
    let model = WordLevel::builder().vocab(vocab.into_iter().collect()).unk_token("[UNK]".to_string()).build().unwrap();
    Tokenizer::new(model)
}

#[test]
fn commit_emits_stable_growth() {
    let mut d = StreamDecoder::new();
    d.push(7);
    assert_eq!(d.context(), &[] as &[u32]);
    assert_eq!(d.window(), &[7u32][..]);
    assert_eq!(d.commit("", "Hel"), "Hel");
    d.push(8);
    assert_eq!(d.context(), &[7u32][..]);
    assert_eq!(d.window(), &[7u32, 8][..]);
    assert_eq!(d.commit("Hel", "Hello"), "lo");
    assert_eq!(d.context(), &[8u32][..]);
}

#[test]
fn commit_withholds_replacement_char() {
    let mut d = StreamDecoder::new();
    d.push(1);
    assert_eq!(d.commit("", "caf\u{FFFD}"), "");
    assert_eq!(d.window(), &[1u32][..]);
    d.push(2);
    assert_eq!(d.commit("", "café"), "café");
    assert_eq!(d.context(), &[1u32, 2][..]);
    assert_eq!(d.window(), &[1u32, 2][..]);
}

#[test]
fn commit_withholds_when_nothing_grew() {
    let mut d = StreamDecoder::new();
    d.push(1);
    assert_eq!(d.commit("", ""), "");
    assert_eq!(d.window(), &[1u32][..]);
}

#[test]
fn finish_emits_rest_even_if_unstable() {
    let mut d = StreamDecoder::new();
    d.push(1);
    d.commit("", "ab\u{FFFD}");
    assert_eq!(d.finish("", "ab\u{FFFD}"), "ab\u{FFFD}");
    assert_eq!(d.window(), &[] as &[u32]);
    let mut e = StreamDecoder::new();
    assert_eq!(e.finish("xyz", "xy"), "");
}

#[test]
fn fragments_join_to_full_decode() {
    let tok = word_tokenizer();
    let ids = [1u32, 2, 3, 1];
    let mut d = StreamDecoder::new();
    let mut shown = String::new();
    for &id in &ids {
        let fragment = d.on_token(&tok, id);
        assert!(!fragment.ends_with('\u{FFFD}'));
        shown.push_str(&fragment);
    }
    shown.push_str(&d.flush(&tok));
    assert_eq!(shown, tok.decode(&ids, true).unwrap());
    assert_eq!(shown, "hello world again hello");
}

#[test]
fn on_token_emits_each_word() {
    let tok = word_tokenizer();
    let mut d = StreamDecoder::new();
    assert_eq!(d.on_token(&tok, 1), "hello");
    assert_eq!(d.on_token(&tok, 2), " world");
    assert_eq!(d.flush(&tok), "");
}
