//! Streamed decoding: turns a growing token sequence into printable fragments
//! that never end inside an incomplete character.
use vstd::prelude::*;
use vstd::slice::slice_subrange;
use tokenizers::Tokenizer;

verus! {

#[verifier::external_type_specification]
#[verifier::external_body]
pub struct ExTokenizer(Tokenizer);

/// Relies on `Tokenizer::decode` with special tokens skipped; its error becomes `None`.
/// The outcome depends on the tokenizer and the ids alone.
#[verifier::external_body]
fn decode_ids(tokenizer: &Tokenizer, ids: &[u32]) -> (r: Option<String>)
    ensures
        r is Some <==> decoded_of(*tokenizer, ids@) is Some,
        r is Some ==> r->0@ == decoded_of(*tokenizer, ids@)->0,
{
    tokenizer.decode(ids, true).ok()
}

/// U+FFFD, what a decoder yields for an incomplete character.
pub open spec fn replacement_char() -> char {
    '\u{FFFD}'
}

/// The state of a stream: every token seen, and two boundaries. Text up to `cur` has
/// been emitted; the tokens from `prev` to `cur` are kept as decoding context.
pub struct StreamState {
    pub tokens: Seq<u32>,
    pub prev: nat,
    pub cur: nat,
}

impl StreamState {
    pub open spec fn wf(self) -> bool {
        self.prev <= self.cur <= self.tokens.len()
    }

    /// The tokens already emitted that are kept as context.
    pub open spec fn context(self) -> Seq<u32> {
        self.tokens.subrange(self.prev as int, self.cur as int)
    }

    /// The context and every token not emitted yet.
    pub open spec fn window(self) -> Seq<u32> {
        self.tokens.subrange(self.prev as int, self.tokens.len() as int)
    }
}

/// The state once token `t` has been recorded.
pub open spec fn with_token(s: StreamState, t: u32) -> StreamState {
    StreamState { tokens: s.tokens.push(t), ..s }
}

/// The state of a new or flushed stream.
pub open spec fn fresh_stream() -> StreamState {
    StreamState { tokens: Seq::empty(), prev: 0, cur: 0 }
}

/// Whether growing text may be shown: it got longer and does not end in U+FFFD.
pub open spec fn is_stable(prev_text: Seq<char>, cur_text: Seq<char>) -> bool {
    cur_text.len() > prev_text.len() && cur_text.last() != replacement_char()
}

/// Given the decoded context and the decoded window, the next state and the fragment
/// to emit: the window's text beyond the context's when stable, else nothing yet.
pub open spec fn commit_step(s: StreamState, prev_text: Seq<char>, cur_text: Seq<char>) -> (
    StreamState,
    Seq<char>,
) {
    if is_stable(prev_text, cur_text) {
        (
            StreamState { prev: s.cur, cur: s.tokens.len(), ..s },
            cur_text.subrange(prev_text.len() as int, cur_text.len() as int),
        )
    } else {
        (s, Seq::empty())
    }
}

/// What a flush emits: whatever the window's text has beyond the context's.
pub open spec fn flush_text(prev_text: Seq<char>, full_text: Seq<char>) -> Seq<char> {
    if full_text.len() > prev_text.len() {
        full_text.subrange(prev_text.len() as int, full_text.len() as int)
    } else {
        Seq::empty()
    }
}

/// The decoded context under a decoding function; an empty context is not decoded.
pub open spec fn context_text(s: StreamState, dec: spec_fn(Seq<u32>) -> Seq<char>) -> Seq<char> {
    if s.cur > s.prev {
        dec(s.context())
    } else {
        Seq::empty()
    }
}

/// One token arrives, under a decoding function.
pub open spec fn token_step(s: StreamState, t: u32, dec: spec_fn(Seq<u32>) -> Seq<char>) -> (
    StreamState,
    Seq<char>,
) {
    let s1 = with_token(s, t);
    commit_step(s1, context_text(s1, dec), dec(s1.window()))
}

/// The state after the tokens `ts` arrived one by one, and the text emitted meanwhile.
pub open spec fn run_stream(ts: Seq<u32>, dec: spec_fn(Seq<u32>) -> Seq<char>) -> (
    StreamState,
    Seq<char>,
)
    decreases ts.len(),
{
    if ts.len() == 0 {
        (fresh_stream(), Seq::empty())
    } else {
        let (s, out) = run_stream(ts.drop_last(), dec);
        let (s2, fragment) = token_step(s, ts.last(), dec);
        (s2, out + fragment)
    }
}

/// All the text a stream of `ts` emits, its final flush included.
pub open spec fn streamed_text(ts: Seq<u32>, dec: spec_fn(Seq<u32>) -> Seq<char>) -> Seq<char> {
    let (s, out) = run_stream(ts, dec);
    out + flush_text(context_text(s, dec), dec(s.window()))
}

/// Whether a text ends in U+FFFD, the mark of a character not yet complete.
pub open spec fn ends_incomplete(t: Seq<char>) -> bool {
    t.len() > 0 && t.last() == replacement_char()
}

/// A decoding function that gives no text for no tokens, and whose text for joined
/// sequences is the joined texts whenever the first text ends in a complete
/// character. Decoders that turn the joined bytes of the tokens into text, with
/// U+FFFD in place of an unfinished character, are of this kind; the first text may
/// then end in U+FFFD, and the joined text need not extend it.
pub open spec fn joins_after_complete_text(dec: spec_fn(Seq<u32>) -> Seq<char>) -> bool {
    &&& dec(Seq::<u32>::empty()) == Seq::<char>::empty()
    &&& forall|a: Seq<u32>, b: Seq<u32>|
        !ends_incomplete(dec(a)) ==> #[trigger] dec(a + b) == dec(a) + dec(b)
}

proof fn lemma_split(dec: spec_fn(Seq<u32>) -> Seq<char>, ts: Seq<u32>, i: int, j: int, k: int)
    requires
        joins_after_complete_text(dec),
        0 <= i <= j <= k <= ts.len(),
        !ends_incomplete(dec(ts.subrange(i, j))),
    ensures
        dec(ts.subrange(i, k)) == dec(ts.subrange(i, j)) + dec(ts.subrange(j, k)),
{
    assert(ts.subrange(i, j) + ts.subrange(j, k) =~= ts.subrange(i, k));
    assert(dec(ts.subrange(i, j) + ts.subrange(j, k)) == dec(ts.subrange(i, j)) + dec(
        ts.subrange(j, k),
    ));
}

proof fn lemma_run_stream(ts: Seq<u32>, dec: spec_fn(Seq<u32>) -> Seq<char>)
    requires
        joins_after_complete_text(dec),
    ensures
        ({
            let (s, out) = run_stream(ts, dec);
            &&& s.wf()
            &&& s.tokens == ts
            &&& out == dec(ts.subrange(0, s.cur as int))
            &&& !ends_incomplete(out)
            &&& !ends_incomplete(dec(s.context()))
            &&& context_text(s, dec) == dec(s.context())
        }),
    decreases ts.len(),
{
    if ts.len() == 0 {
        assert(ts.subrange(0, 0) =~= Seq::<u32>::empty());
        assert(fresh_stream().context() =~= Seq::<u32>::empty());
    } else {
        let init = ts.drop_last();
        lemma_run_stream(init, dec);
        let (s, out) = run_stream(init, dec);
        let s1 = with_token(s, ts.last());
        assert(s1.tokens =~= ts);
        let (p, c, n) = (s.prev as int, s.cur as int, ts.len() as int);
        assert(init.subrange(0, c) =~= ts.subrange(0, c));
        assert(s.context() =~= ts.subrange(p, c));
        assert(s1.context() =~= ts.subrange(p, c));
        assert(s1.window() =~= ts.subrange(p, n));
        lemma_split(dec, ts, p, c, n);
        let pt = context_text(s1, dec);
        let ct = dec(s1.window());
        if is_stable(pt, ct) {
            let d = dec(ts.subrange(c, n));
            assert(ct.subrange(pt.len() as int, ct.len() as int) =~= d);
            assert(d.last() == ct.last());
            lemma_split(dec, ts, 0, c, n);
            let s2 = commit_step(s1, pt, ct).0;
            assert(s2.context() =~= ts.subrange(c, n));
            assert(s2.cur > s2.prev);
            assert((out + d).last() == d.last());
        }
    }
}

/// Streaming loses and adds nothing: under a decoding function of the kind above, the
/// fragments emitted for a token sequence, the final flush included, join to the
/// decoding of the whole sequence.
pub proof fn lemma_stream_reassembles(ts: Seq<u32>, dec: spec_fn(Seq<u32>) -> Seq<char>)
    requires
        joins_after_complete_text(dec),
    ensures
        streamed_text(ts, dec) == dec(ts),
{
    lemma_run_stream(ts, dec);
    let (s, out) = run_stream(ts, dec);
    let (p, c, n) = (s.prev as int, s.cur as int, ts.len() as int);
    assert(s.window() =~= ts.subrange(p, n));
    lemma_split(dec, ts, p, c, n);
    lemma_split(dec, ts, 0, c, n);
    let pt = context_text(s, dec);
    let f = dec(s.window());
    if f.len() > pt.len() {
        assert(f.subrange(pt.len() as int, f.len() as int) =~= dec(ts.subrange(c, n)));
    } else {
        assert(dec(ts.subrange(c, n)) =~= Seq::<char>::empty());
    }
    assert(ts.subrange(0, n) =~= ts);
}

/// What `Tokenizer::decode`, skipping special tokens, returns for the ids; `None` when
/// it fails.
pub uninterp spec fn decoded_of(tokenizer: Tokenizer, ids: Seq<u32>) -> Option<Seq<char>>;

/// The decoded text, a failed decode counting as no text.
pub open spec fn decoded_text(tokenizer: Tokenizer, ids: Seq<u32>) -> Seq<char> {
    match decoded_of(tokenizer, ids) {
        Some(t) => t,
        None => Seq::empty(),
    }
}

/// Decoding with a given tokenizer, as a function of the ids.
pub open spec fn tokenizer_decoder(tokenizer: Tokenizer) -> spec_fn(Seq<u32>) -> Seq<char> {
    |ids: Seq<u32>| decoded_text(tokenizer, ids)
}

/// The streamed text of a tokenizer of the kind above is its decoding of all tokens.
pub proof fn lemma_tokenizer_stream_reassembles(tokenizer: Tokenizer, ts: Seq<u32>)
    requires
        joins_after_complete_text(tokenizer_decoder(tokenizer)),
    ensures
        streamed_text(ts, tokenizer_decoder(tokenizer)) == decoded_text(tokenizer, ts),
{
    lemma_stream_reassembles(ts, tokenizer_decoder(tokenizer));
}

/// An observer of generation, told of each token as it is sampled and of the end.
pub trait TokenCallback {
    fn on_token(&mut self, token_id: u32);

    fn flush(&mut self);
}

/// Turns tokens, as they are generated, into text fragments safe to show.
pub struct StreamDecoder {
    all_tokens: Vec<u32>,
    prev_index: usize,
    current_index: usize,
}

impl View for StreamDecoder {
    type V = StreamState;

    closed spec fn view(&self) -> StreamState {
        StreamState {
            tokens: self.all_tokens@,
            prev: self.prev_index as nat,
            cur: self.current_index as nat,
        }
    }
}

impl StreamDecoder {
    pub open spec fn wf(&self) -> bool {
        self@.wf()
    }

    /// An empty stream.
    pub fn new() -> (r: StreamDecoder)
        ensures
            r.wf(),
            r@ == fresh_stream(),
    {
        let r = StreamDecoder { all_tokens: Vec::new(), prev_index: 0, current_index: 0 };
        assert(r@.tokens =~= Seq::<u32>::empty());
        r
    }

    /// Records a new token; nothing is emitted yet.
    pub fn push(&mut self, token: u32)
        requires
            old(self).wf(),
        ensures
            final(self).wf(),
            final(self)@ == with_token(old(self)@, token),
    {
        self.all_tokens.push(token);
    }

    /// The tokens kept as decoding context.
    pub fn context(&self) -> (r: &[u32])
        requires
            self.wf(),
        ensures
            r@ == self@.context(),
    {
        slice_subrange(self.all_tokens.as_slice(), self.prev_index, self.current_index)
    }

    /// The context and the tokens not emitted yet.
    pub fn window(&self) -> (r: &[u32])
        requires
            self.wf(),
        ensures
            r@ == self@.window(),
    {
        slice_subrange(self.all_tokens.as_slice(), self.prev_index, self.all_tokens.len())
    }

    /// Given the decoded context and the decoded window, emits the new text if it is
    /// stable and moves the boundaries; otherwise emits nothing and waits.
    pub fn commit(&mut self, prev_text: &str, current_text: &str) -> (r: String)
        requires
            old(self).wf(),
        ensures
            final(self).wf(),
            (final(self)@, r@) == commit_step(old(self)@, prev_text@, current_text@),
            r@.len() > 0 ==> r@.last() != replacement_char(),
    {
        let p = prev_text.unicode_len();
        let c = current_text.unicode_len();
        if c > p && current_text.get_char(c - 1) != '\u{FFFD}' {
            let fragment = String::from_str(current_text.substring_char(p, c));
            self.prev_index = self.current_index;
            self.current_index = self.all_tokens.len();
            fragment
        } else {
            String::new()
        }
    }

    /// Given the decoded context and the decoded window, emits whatever is left
    /// and empties the stream.
    pub fn finish(&mut self, prev_text: &str, full_text: &str) -> (r: String)
        requires
            old(self).wf(),
        ensures
            final(self).wf(),
            final(self)@ == fresh_stream(),
            r@ == flush_text(prev_text@, full_text@),
    {
        let p = prev_text.unicode_len();
        let f = full_text.unicode_len();
        let r = if f > p {
            String::from_str(full_text.substring_char(p, f))
        } else {
            String::new()
        };
        self.all_tokens = Vec::new();
        self.prev_index = 0;
        self.current_index = 0;
        assert(self@.tokens =~= Seq::<u32>::empty());
        r
    }

    fn decoded_context(&self, tokenizer: &Tokenizer) -> (r: String)
        requires
            self.wf(),
        ensures
            r@ == context_text(self@, tokenizer_decoder(*tokenizer)),
    {
        if self.current_index > self.prev_index {
            match decode_ids(tokenizer, self.context()) {
                Some(t) => t,
                None => String::new(),
            }
        } else {
            String::new()
        }
    }

    fn decoded_window(&self, tokenizer: &Tokenizer) -> (r: String)
        requires
            self.wf(),
        ensures
            r@ == decoded_text(*tokenizer, self@.window()),
    {
        match decode_ids(tokenizer, self.window()) {
            Some(t) => t,
            None => String::new(),
        }
    }

    /// Takes a generated token and returns the text that can be shown now, which may
    /// be empty; a text that fails to decode counts as empty.
    pub fn on_token(&mut self, tokenizer: &Tokenizer, token: u32) -> (r: String)
        requires
            old(self).wf(),
        ensures
            final(self).wf(),
            (final(self)@, r@) == token_step(old(self)@, token, tokenizer_decoder(*tokenizer)),
            r@.len() > 0 ==> r@.last() != replacement_char(),
    {
        self.push(token);
        let prev_text = self.decoded_context(tokenizer);
        let current_text = self.decoded_window(tokenizer);
        let r = self.commit(prev_text.as_str(), current_text.as_str());
        r
    }

    /// Returns whatever text is left, shown even if it is not stable, and empties
    /// the stream.
    pub fn flush(&mut self, tokenizer: &Tokenizer) -> (r: String)
        requires
            old(self).wf(),
        ensures
            final(self).wf(),
            final(self)@ == fresh_stream(),
            r@ == flush_text(
                context_text(old(self)@, tokenizer_decoder(*tokenizer)),
                decoded_text(*tokenizer, old(self)@.window()),
            ),
    {
        let prev_text = self.decoded_context(tokenizer);
        let full_text = self.decoded_window(tokenizer);
        self.finish(prev_text.as_str(), full_text.as_str())
    }
}

} // verus!
