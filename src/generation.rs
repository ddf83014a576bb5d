//! Control of one generation: prefill, then one token at a time until the
//! end-of-sequence token or the length cap. The forward pass and the sampling are
//! done by the caller, which reports each sampled token.
use vstd::prelude::*;
use tokenizers::Tokenizer;

verus! {

/// What `Tokenizer::token_to_id` returns for a token string.
pub uninterp spec fn token_id_of(tokenizer: Tokenizer, token: Seq<char>) -> Option<u32>;

/// Relies on `Tokenizer::token_to_id`: the id of a token string, added tokens included,
/// or `None` when the vocabulary lacks it; it depends on the tokenizer and the string alone.
#[verifier::external_body]
fn token_id(tokenizer: &Tokenizer, token: &str) -> (r: Option<u32>)
    ensures
        r == token_id_of(*tokenizer, token@),
{
    tokenizer.token_to_id(token)
}

/// The ids found among lookups, in order.
pub open spec fn found_ids(lookups: Seq<Option<u32>>) -> Seq<u32>
    decreases lookups.len(),
{
    if lookups.len() == 0 {
        Seq::empty()
    } else {
        let rest = found_ids(lookups.drop_last());
        match lookups.last() {
            Some(id) => rest.push(id),
            None => rest,
        }
    }
}

/// Token ids that sampling must never yield.
#[derive(Clone, Debug, PartialEq, Eq)]
pub struct BannedTokens {
    ids: Vec<u32>,
}

impl View for BannedTokens {
    type V = Seq<u32>;

    closed spec fn view(&self) -> Seq<u32> {
        self.ids@
    }
}

impl BannedTokens {
    /// The set of the given ids.
    pub fn from_ids(ids: Vec<u32>) -> (r: BannedTokens)
        ensures
            r@ == ids@,
    {
        BannedTokens { ids }
    }

    /// The ids of the lookups that found one; a string missing from the vocabulary is skipped.
    pub fn from_lookups(lookups: &Vec<Option<u32>>) -> (r: BannedTokens)
        ensures
            r@ == found_ids(lookups@),
    {
        let mut ids: Vec<u32> = Vec::new();
        let n = lookups.len();
        let mut i: usize = 0;
        while i < n
            invariant
                n == lookups@.len(),
                i <= n,
                ids@ == found_ids(lookups@.subrange(0, i as int)),
            decreases n - i,
        {
            assert(lookups@.subrange(0, i + 1).drop_last() =~= lookups@.subrange(0, i as int));
            match lookups[i] {
                Some(id) => ids.push(id),
                None => {},
            }
            i = i + 1;
        }
        assert(lookups@.subrange(0, n as int) =~= lookups@);
        BannedTokens { ids }
    }

    /// Whether `id` is banned.
    pub fn contains(&self, id: u32) -> (r: bool)
        ensures
            r == self@.contains(id),
    {
        let n = self.ids.len();
        let mut i: usize = 0;
        while i < n
            invariant
                n == self.ids@.len(),
                i <= n,
                forall|k: int| 0 <= k < i ==> self.ids@[k] != id,
            decreases n - i,
        {
            if self.ids[i] == id {
                return true;
            }
            i = i + 1;
        }
        false
    }

    /// The ids.
    pub fn ids(&self) -> (r: &Vec<u32>)
        ensures
            r@ == self@,
    {
        &self.ids
    }
}

/// Why a setup failed.
#[derive(Clone, Debug, PartialEq, Eq)]
pub enum SetupError {
    /// A required token string is not in the vocabulary.
    MissingToken { name: String },
}

/// The token ids that generation is configured with.
#[derive(Clone, Debug, PartialEq, Eq)]
pub struct SpecialTokens {
    pub eos_token: u32,
    pub banned: BannedTokens,
}

impl SpecialTokens {
    /// From looked-up ids: the end-of-sequence token is required, banned strings
    /// missing from the vocabulary are skipped.
    pub fn from_lookups(eos_name: &str, eos: Option<u32>, banned: &Vec<Option<u32>>) -> (r: Result<
        SpecialTokens,
        SetupError,
    >)
        ensures
            eos is None <==> r is Err,
            r is Err ==> (match r {
                Err(SetupError::MissingToken { name }) => name@ == eos_name@,
                _ => false,
            }),
            r is Ok ==> r->Ok_0.eos_token == eos->0 && r->Ok_0.banned@ == found_ids(banned@),
    {
        match eos {
            None => Err(SetupError::MissingToken { name: String::from_str(eos_name) }),
            Some(id) => Ok(SpecialTokens { eos_token: id, banned: BannedTokens::from_lookups(banned) }),
        }
    }

    /// Looks the configured token strings up in the tokenizer's vocabulary.
    pub fn resolve(tokenizer: &Tokenizer, eos_name: &str, banned_names: &Vec<String>) -> (r: Result<
        SpecialTokens,
        SetupError,
    >)
        ensures
            r is Err <==> token_id_of(*tokenizer, eos_name@) is None,
            r is Err ==> (match r {
                Err(SetupError::MissingToken { name }) => name@ == eos_name@,
                _ => false,
            }),
            r is Ok ==> r->Ok_0.eos_token == token_id_of(*tokenizer, eos_name@)->0
                && r->Ok_0.banned@ == found_ids(
                banned_names@.map_values(|s: String| token_id_of(*tokenizer, s@)),
            ),
    {
        let mut lookups: Vec<Option<u32>> = Vec::new();
        let n = banned_names.len();
        let mut i: usize = 0;
        while i < n
            invariant
                n == banned_names@.len(),
                i <= n,
                lookups@ == banned_names@.subrange(0, i as int).map_values(
                    |s: String| token_id_of(*tokenizer, s@),
                ),
            decreases n - i,
        {
            lookups.push(token_id(tokenizer, banned_names[i].as_str()));
            i = i + 1;
            assert(lookups@ =~= banned_names@.subrange(0, i as int).map_values(
                |s: String| token_id_of(*tokenizer, s@),
            ));
        }
        assert(banned_names@.subrange(0, n as int) =~= banned_names@);
        SpecialTokens::from_lookups(eos_name, token_id(tokenizer, eos_name), &lookups)
    }
}

/// What the caller is to do next.
#[derive(Clone, Copy, Debug, PartialEq, Eq, Structural)]
pub enum Step {
    /// Run the whole prompt through the model at `position`, sample, and report the token.
    Prefill { position: usize },
    /// Run `token` alone through the model at `position`, sample, and report the token.
    Decode { token: u32, position: usize },
    /// The end-of-sequence token was sampled.
    Finished,
    /// The length cap was reached.
    Truncated,
}

/// Why a generation was stopped.
#[derive(Clone, Copy, Debug, PartialEq, Eq, Structural)]
pub enum GenerationError {
    /// The sampler yielded a banned token.
    BannedToken { token: u32 },
    /// Positions no longer fit in a machine word.
    PositionOverflow,
}

/// Where a generation stands.
#[derive(Clone, Copy, Debug, PartialEq, Eq, Structural)]
pub enum GenPhase {
    /// Not started.
    Ready,
    /// Waiting for the token sampled after the last forward pass.
    Sampling,
    /// Over, by a stop condition or an error.
    Done,
}

/// The state of a generation.
pub struct GenerationView {
    /// How many tokens the model's cache holds.
    pub position: nat,
    /// How many tokens the forward pass being sampled from submitted.
    pub pending: nat,
    pub generated: Seq<u32>,
    pub max_length: nat,
    pub eos_token: u32,
    pub banned: Seq<u32>,
    pub phase: GenPhase,
}

impl GenerationView {
    /// The invariant: never more than `max_length` tokens, none of them banned, and
    /// the end-of-sequence token, if any, last.
    pub open spec fn wf(self) -> bool {
        &&& self.generated.len() <= self.max_length
        &&& forall|i: int|
            0 <= i < self.generated.len() ==> !self.banned.contains(#[trigger] self.generated[i])
        &&& forall|i: int|
            0 <= i < self.generated.len() - 1 ==> #[trigger] self.generated[i] != self.eos_token
        &&& self.phase == GenPhase::Ready ==> self.generated.len() == 0 && self.position == 0
        &&& self.phase == GenPhase::Sampling ==> {
            &&& self.generated.len() < self.max_length
            &&& self.generated.len() > 0 ==> self.generated.last() != self.eos_token
        }
    }
}

/// One generation's control state.
pub struct Generation {
    position: usize,
    pending: usize,
    generated: Vec<u32>,
    max_length: usize,
    eos_token: u32,
    banned: BannedTokens,
    phase: GenPhase,
}

impl View for Generation {
    type V = GenerationView;

    closed spec fn view(&self) -> GenerationView {
        GenerationView {
            position: self.position as nat,
            pending: self.pending as nat,
            generated: self.generated@,
            max_length: self.max_length as nat,
            eos_token: self.eos_token,
            banned: self.banned@,
            phase: self.phase,
        }
    }
}

impl Generation {
    pub open spec fn wf(&self) -> bool {
        self@.wf()
    }

    /// A generation of at most `max_length` tokens.
    pub fn new(max_length: usize, tokens: &SpecialTokens) -> (r: Generation)
        ensures
            r.wf(),
            r@.position == 0,
            r@.generated.len() == 0,
            r@.max_length == max_length,
            r@.eos_token == tokens.eos_token,
            r@.banned == tokens.banned@,
            r@.phase == GenPhase::Ready,
    {
        Generation {
            position: 0,
            pending: 0,
            generated: Vec::new(),
            max_length,
            eos_token: tokens.eos_token,
            banned: BannedTokens { ids: tokens.banned.ids.clone() },
            phase: GenPhase::Ready,
        }
    }

    /// The tokens generated so far.
    pub fn generated(&self) -> (r: &Vec<u32>)
        ensures
            r@ == self@.generated,
    {
        &self.generated
    }

    /// Where the generation stands.
    pub fn phase(&self) -> (r: GenPhase)
        ensures
            r == self@.phase,
    {
        self.phase
    }

    /// Starts on a prompt of `prompt_len` tokens: asks for the prefill, or stops at
    /// once when no token may be generated.
    pub fn begin(&mut self, prompt_len: usize) -> (r: Step)
        requires
            old(self).wf(),
            old(self)@.phase == GenPhase::Ready,
        ensures
            final(self).wf(),
            final(self)@.generated == old(self)@.generated,
            old(self)@.max_length == 0 ==> r == Step::Truncated && final(self)@.phase
                == GenPhase::Done,
            old(self)@.max_length > 0 ==> r == (Step::Prefill { position: 0 }) && final(self)@
                == (GenerationView {
                pending: prompt_len as nat,
                phase: GenPhase::Sampling,
                ..old(self)@
            }),
    {
        if self.max_length == 0 {
            self.phase = GenPhase::Done;
            Step::Truncated
        } else {
            self.pending = prompt_len;
            self.phase = GenPhase::Sampling;
            Step::Prefill { position: self.position }
        }
    }

    /// Takes the token sampled after the last forward pass. A banned token stops the
    /// generation with an error; any other is appended, and the generation ends when
    /// it is the end-of-sequence token or the cap is reached, and goes on otherwise.
    pub fn accept(&mut self, token: u32) -> (r: Result<Step, GenerationError>)
        requires
            old(self).wf(),
            old(self)@.phase == GenPhase::Sampling,
        ensures
            final(self).wf(),
            final(self)@.max_length == old(self)@.max_length,
            final(self)@.eos_token == old(self)@.eos_token,
            final(self)@.banned == old(self)@.banned,
            r is Err ==> final(self)@.generated == old(self)@.generated && final(self)@.phase
                == GenPhase::Done,
            old(self)@.banned.contains(token) ==> r == Err::<Step, GenerationError>(
                GenerationError::BannedToken { token },
            ),
            !old(self)@.banned.contains(token) && old(self)@.position + old(self)@.pending
                > usize::MAX ==> r == Err::<Step, GenerationError>(
                GenerationError::PositionOverflow,
            ),
            !old(self)@.banned.contains(token) && old(self)@.position + old(self)@.pending
                <= usize::MAX ==> {
                &&& r is Ok
                &&& final(self)@.generated == old(self)@.generated.push(token)
                &&& final(self)@.position == old(self)@.position + old(self)@.pending
                &&& token == old(self)@.eos_token ==> r == Ok::<Step, GenerationError>(
                    Step::Finished,
                ) && final(self)@.phase == GenPhase::Done
                &&& token != old(self)@.eos_token && final(self)@.generated.len()
                    == old(self)@.max_length ==> r == Ok::<Step, GenerationError>(
                    Step::Truncated,
                ) && final(self)@.phase == GenPhase::Done
                &&& token != old(self)@.eos_token && final(self)@.generated.len()
                    < old(self)@.max_length ==> r == Ok::<Step, GenerationError>(
                    Step::Decode { token, position: final(self)@.position as usize },
                ) && final(self)@.phase == GenPhase::Sampling && final(self)@.pending == 1
            },
    {
        if self.banned.contains(token) {
            self.phase = GenPhase::Done;
            return Err(GenerationError::BannedToken { token });
        }
        if self.pending > usize::MAX - self.position {
            self.phase = GenPhase::Done;
            return Err(GenerationError::PositionOverflow);
        }
        let ghost before = self@;
        self.generated.push(token);
        self.position = self.position + self.pending;
        self.pending = 1;
        proof {
            assert forall|i: int| 0 <= i < self@.generated.len() implies !self@.banned.contains(
                #[trigger] self@.generated[i],
            ) by {
                if i < before.generated.len() {
                    assert(self@.generated[i] == before.generated[i]);
                }
            }
            assert forall|i: int| 0 <= i < self@.generated.len() - 1 implies #[trigger] self@.generated[i]
                != self@.eos_token by {
                assert(self@.generated[i] == before.generated[i]);
                if i == before.generated.len() - 1 {
                    assert(before.generated.last() == before.generated[i]);
                }
            }
        }
        if token == self.eos_token {
            self.phase = GenPhase::Done;
            Ok(Step::Finished)
        } else if self.generated.len() >= self.max_length {
            self.phase = GenPhase::Done;
            Ok(Step::Truncated)
        } else {
            Ok(Step::Decode { token, position: self.position })
        }
    }
}

} // verus!
