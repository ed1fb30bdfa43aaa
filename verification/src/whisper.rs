//! Speech recognition with Whisper: the decoding loop around the model. The
//! mel spectrogram, the encoder and decoder passes run outside and hand each
//! chosen token back.
use vstd::prelude::*;

verus! {

/// What transcription returns when the model is not loaded.
pub const NOT_LOADED_TRANSCRIPTION: &'static str =
    "[Transcrição] Modelo Whisper não carregado. Baixe o modelo para ativar.";

/// What transcription returns without running the model: the notice when
/// the model is not loaded, nothing for an empty recording; `None` when the
/// model is to run.
pub fn transcription_shortcut(loaded: bool, samples: usize) -> (r: Option<&'static str>)
    ensures
        !loaded ==> r == Some(NOT_LOADED_TRANSCRIPTION),
        loaded && samples == 0 ==> (r matches Some(t) && t@ == Seq::<char>::empty()),
        loaded && samples > 0 ==> r is None,
{
    if !loaded {
        Some(NOT_LOADED_TRANSCRIPTION)
    } else if samples == 0 {
        proof {
            reveal_strlit("");
        }
        Some("")
    } else {
        None
    }
}

/// The special tokens that start decoding.
pub struct PromptTokens {
    pub sot: u32,
    /// The token of the spoken language, when the tokenizer has one.
    pub language: Option<u32>,
    pub transcribe: u32,
    pub no_timestamps: u32,
}

/// The tokens decoding starts from: start of transcript, language (start of
/// transcript again when the tokenizer has no language token), transcribe,
/// no timestamps.
pub open spec fn initial_tokens(p: PromptTokens) -> Seq<u32> {
    seq![
        p.sot,
        match p.language {
            Some(l) => l,
            None => p.sot,
        },
        p.transcribe,
        p.no_timestamps,
    ]
}

/// The greedy decoding of one transcription.
pub struct WhisperDecoder {
    tokens: Vec<u32>,
    step: usize,
    sample_len: usize,
    max_positions: usize,
    eot: u32,
    finished: bool,
}

/// The abstract decoder: tokens so far, steps taken, the step budget (half
/// the model's positions), the positions limit, the end token, and whether
/// decoding is over.
pub ghost struct WhisperView {
    pub tokens: Seq<u32>,
    pub step: nat,
    pub sample_len: nat,
    pub max_positions: nat,
    pub eot: u32,
    pub finished: bool,
}

impl View for WhisperDecoder {
    type V = WhisperView;

    closed spec fn view(&self) -> WhisperView {
        WhisperView {
            tokens: self.tokens@,
            step: self.step as nat,
            sample_len: self.sample_len as nat,
            max_positions: self.max_positions as nat,
            eot: self.eot,
            finished: self.finished,
        }
    }
}

/// A decoder still running has steps left.
pub open spec fn within_steps(d: WhisperView) -> bool {
    &&& d.step <= d.sample_len
    &&& !d.finished ==> d.step < d.sample_len
}

/// The decoder after the model chose `token`: it is appended; decoding ends
/// at the end token, once the tokens outnumber the model's positions, or
/// when the step budget is spent.
pub open spec fn after_choice(d: WhisperView, token: u32) -> WhisperView {
    let tokens = d.tokens.push(token);
    WhisperView {
        tokens,
        step: d.step + 1,
        finished: token == d.eot || tokens.len() > d.max_positions || d.step + 1 >= d.sample_len,
        ..d
    }
}

impl WhisperDecoder {
    /// A decoder for a model with `max_target_positions` positions, whose
    /// end-of-text token is `eot`.
    pub fn new(prompt: PromptTokens, eot: u32, max_target_positions: usize) -> (r: Self)
        ensures
            r@.tokens == initial_tokens(prompt),
            r@.step == 0,
            r@.sample_len == max_target_positions / 2,
            r@.max_positions == max_target_positions,
            r@.eot == eot,
            r@.finished == (max_target_positions / 2 == 0),
            within_steps(r@),
    {
        let language = match prompt.language {
            Some(l) => l,
            None => prompt.sot,
        };
        let mut tokens: Vec<u32> = Vec::new();
        tokens.push(prompt.sot);
        tokens.push(language);
        tokens.push(prompt.transcribe);
        tokens.push(prompt.no_timestamps);
        let sample_len = max_target_positions / 2;
        WhisperDecoder {
            tokens,
            step: 0,
            sample_len,
            max_positions: max_target_positions,
            eot,
            finished: sample_len == 0,
        }
    }

    /// Whether decoding is over.
    pub fn is_finished(&self) -> (r: bool)
        ensures
            r == self@.finished,
    {
        self.finished
    }

    /// Whether this is the first decoder pass (which resets the model's
    /// cache).
    pub fn is_first_step(&self) -> (r: bool)
        ensures
            r == (self@.step == 0),
    {
        self.step == 0
    }

    /// All tokens so far.
    pub fn tokens(&self) -> (r: &Vec<u32>)
        ensures
            r@ == self@.tokens,
    {
        &self.tokens
    }

    /// Takes the token the model chose.
    pub fn accept(&mut self, token: u32)
        requires
            !old(self)@.finished,
            within_steps(old(self)@),
        ensures
            final(self)@ == after_choice(old(self)@, token),
            within_steps(final(self)@),
    {
        self.tokens.push(token);
        self.step = self.step + 1;
        self.finished = token == self.eot || self.tokens.len() > self.max_positions || self.step
            >= self.sample_len;
    }
}

/// A decoding step keeps every token chosen, in order; the end token ends
/// decoding; any other token lets it go on while the tokens fit the
/// model's positions and steps are left. Nothing else of the decoder
/// changes.
pub proof fn lemma_whisper_step(d: WhisperView, token: u32)
    ensures
        after_choice(d, token).tokens == d.tokens.push(token),
        after_choice(d, token).step == d.step + 1,
        token == d.eot ==> after_choice(d, token).finished,
        token != d.eot && d.tokens.len() + 1 <= d.max_positions && d.step + 1 < d.sample_len
            ==> !after_choice(d, token).finished,
        d.tokens.len() + 1 > d.max_positions || d.step + 1 >= d.sample_len ==> after_choice(
            d,
            token,
        ).finished,
        after_choice(d, token).eot == d.eot,
        after_choice(d, token).sample_len == d.sample_len,
        after_choice(d, token).max_positions == d.max_positions,
{
}

} // verus!
