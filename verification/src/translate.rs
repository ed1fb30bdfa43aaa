//! Translation with a chat-style language model: the prompt, the greedy
//! decoding loop and the clean-up of the generated text. The model's forward
//! pass and sampling run outside and hand each sampled token back.
use vstd::prelude::*;
use crate::text::{
    chars_of, string_of, contains, contains_chars, replace_all, replace_chars, same_text, trim,
    is_white_space, lemma_trim_no_leading,
    trim_chars,
};

verus! {

/// Most tokens generated for one translation.
pub const MAX_NEW_TOKENS: usize = 512;

/// The language name used in the prompt for a language code: English,
/// Portuguese or Spanish; English for any other code.
pub open spec fn language_name(code: Seq<char>) -> Seq<char> {
    if code == "pt"@ {
        "Portuguese"@
    } else if code == "es"@ {
        "Spanish"@
    } else {
        "English"@
    }
}

/// The prompt asking the model to translate `text` into `target`.
pub open spec fn prompt_text(text: Seq<char>, target: Seq<char>) -> Seq<char> {
    "<start_of_turn>user\nTranslate the following text to "@ + language_name(target) + ":\n\n"@
        + text + "<end_of_turn>\n<start_of_turn>model\n"@
}

/// A generated piece as text: the tokenizer's word-boundary markers
/// (U+2581 and U+0120) read as spaces.
pub open spec fn piece_text(piece: Seq<char>) -> Seq<char> {
    piece.map_values(|c: char| if c == '\u{2581}' || c == '\u{0120}' { ' ' } else { c })
}

/// A piece that ends the model's turn.
pub open spec fn ends_turn(text: Seq<char>) -> bool {
    contains(text, "<end_of_turn>"@) || contains(text, "<eos>"@)
}

/// The generated text without turn markers and surrounding whitespace.
pub open spec fn cleaned_output(out: Seq<char>) -> Seq<char> {
    trim(
        replace_all(
            replace_all(replace_all(out, "<start_of_turn>"@, Seq::empty()), "<end_of_turn>"@, Seq::empty()),
            "<eos>"@,
            Seq::empty(),
        ),
    )
}

/// The language name for the code `tgt_lang`.
pub fn target_language_name(tgt_lang: &str) -> (r: &'static str)
    ensures
        r@ == language_name(tgt_lang@),
{
    proof {
        reveal_strlit("en");
        reveal_strlit("pt");
        reveal_strlit("es");
        assert("en"@[0] != "pt"@[0]);
        assert("en"@[1] != "es"@[1]);
    }
    if same_text(tgt_lang, "en") {
        "English"
    } else if same_text(tgt_lang, "pt") {
        "Portuguese"
    } else if same_text(tgt_lang, "es") {
        "Spanish"
    } else {
        "English"
    }
}

/// The prompt for translating `text` into the language `tgt_lang`.
pub fn translation_prompt(text: &str, tgt_lang: &str) -> (r: String)
    ensures
        r@ == prompt_text(text@, tgt_lang@),
{
    String::from_str("<start_of_turn>user\nTranslate the following text to ").concat(
        target_language_name(tgt_lang),
    ).concat(":\n\n").concat(text).concat("<end_of_turn>\n<start_of_turn>model\n")
}

/// What is returned for `text` when no translation model is loaded.
pub fn untranslated(text: &str) -> (r: String)
    ensures
        r@ == "[Translator not loaded] "@ + text@,
{
    String::from_str("[Translator not loaded] ").concat(text)
}

/// A generated piece as text.
pub fn clean_piece(piece: &str) -> (r: Vec<char>)
    ensures
        r@ == piece_text(piece@),
{
    let v = chars_of(piece);
    let mut out: Vec<char> = Vec::new();
    let mut i: usize = 0;
    while i < v.len()
        invariant
            i <= v.len(),
            v@ == piece@,
            out@ == piece_text(v@.take(i as int)),
        decreases v.len() - i,
    {
        let c = v[i];
        out.push(
            if c == '\u{2581}' || c == '\u{0120}' {
                ' '
            } else {
                c
            },
        );
        i = i + 1;
        assert(out@ =~= piece_text(v@.take(i as int)));
    }
    assert(v@.take(v.len() as int) =~= v@);
    out
}

/// The text generated so far without turn markers, trimmed.
pub fn clean_output(out: &Vec<char>) -> (r: String)
    ensures
        r@ == cleaned_output(out@),
{
    let empty: Vec<char> = Vec::new();
    assert(empty@ =~= Seq::<char>::empty());
    let start = chars_of("<start_of_turn>");
    let end = chars_of("<end_of_turn>");
    let eos = chars_of("<eos>");
    proof {
        reveal_strlit("<start_of_turn>");
        reveal_strlit("<end_of_turn>");
        reveal_strlit("<eos>");
    }
    let a = replace_chars(out, &start, &empty);
    let b = replace_chars(&a, &end, &empty);
    let c = replace_chars(&b, &eos, &empty);
    string_of(&trim_chars(&c))
}

/// The greedy decoding of one translation.
pub struct TranslationDecoder {
    tokens: Vec<u32>,
    output: Vec<char>,
    step: usize,
    finished: bool,
}

/// The abstract decoder: the token sequence (prompt then generated tokens),
/// the text generated, the number of tokens generated, and whether decoding
/// is over.
pub ghost struct DecoderView {
    pub tokens: Seq<u32>,
    pub output: Seq<char>,
    pub step: nat,
    pub finished: bool,
}

impl View for TranslationDecoder {
    type V = DecoderView;

    closed spec fn view(&self) -> DecoderView {
        DecoderView {
            tokens: self.tokens@,
            output: self.output@,
            step: self.step as nat,
            finished: self.finished,
        }
    }
}

/// At most `MAX_NEW_TOKENS` tokens are generated: a decoder still running
/// has generated fewer.
pub open spec fn within_budget(d: DecoderView) -> bool {
    &&& d.step <= MAX_NEW_TOKENS
    &&& !d.finished ==> d.step < MAX_NEW_TOKENS
}

/// The decoder after the model produced `token`, whose text (if the
/// tokenizer has one) is `piece`: the token is appended; a piece that ends
/// the turn finishes decoding, any other piece's text is added to the
/// output; decoding also finishes after `MAX_NEW_TOKENS` tokens.
pub open spec fn after_token(d: DecoderView, token: u32, piece: Option<Seq<char>>) -> DecoderView {
    let ended = match piece {
        Some(p) => ends_turn(piece_text(p)),
        None => false,
    };
    DecoderView {
        tokens: d.tokens.push(token),
        output: match piece {
            Some(p) => if ended {
                d.output
            } else {
                d.output + piece_text(p)
            },
            None => d.output,
        },
        step: d.step + 1,
        finished: ended || d.step + 1 >= MAX_NEW_TOKENS,
    }
}

impl TranslationDecoder {
    /// A decoder for the tokens of the prompt.
    pub fn new(prompt_tokens: Vec<u32>) -> (r: Self)
        ensures
            r@.tokens == prompt_tokens@,
            r@.output == Seq::<char>::empty(),
            r@.step == 0,
            !r@.finished,
            within_budget(r@),
    {
        TranslationDecoder { tokens: prompt_tokens, output: Vec::new(), step: 0, finished: false }
    }

    /// Whether decoding is over.
    pub fn is_finished(&self) -> (r: bool)
        ensures
            r == self@.finished,
    {
        self.finished
    }

    /// All tokens so far.
    pub fn tokens(&self) -> (r: &Vec<u32>)
        ensures
            r@ == self@.tokens,
    {
        &self.tokens
    }

    /// The position from which tokens are fed to the model at this step:
    /// the whole prompt at the first step, then only the last token.
    pub fn input_start(&self) -> (r: usize)
        ensures
            r == (if self@.step > 0 {
                if self@.tokens.len() >= 1 {
                    self@.tokens.len() - 1
                } else {
                    0
                }
            } else {
                0
            }),
    {
        let context_size = if self.step > 0 {
            1
        } else {
            self.tokens.len()
        };
        if self.tokens.len() >= context_size {
            self.tokens.len() - context_size
        } else {
            0
        }
    }

    /// Takes the token the model produced and its text.
    pub fn accept(&mut self, token: u32, piece: Option<&str>)
        requires
            !old(self)@.finished,
            within_budget(old(self)@),
        ensures
            within_budget(final(self)@),
            final(self)@ == after_token(
                old(self)@,
                token,
                match piece {
                    Some(p) => Some(p@),
                    None => None,
                },
            ),
    {
        self.tokens.push(token);
        let mut ended = false;
        match piece {
            Some(p) => {
                let text = clean_piece(p);
                let end_turn = chars_of("<end_of_turn>");
                let eos = chars_of("<eos>");
                if contains_chars(&text, &end_turn) || contains_chars(&text, &eos) {
                    ended = true;
                } else {
                    let mut j: usize = 0;
                    let ghost base = self.output@;
                    let ghost step0 = self.step;
                    let ghost tokens0 = self.tokens@;
                    let ghost finished0 = self.finished;
                    while j < text.len()
                        invariant
                            j <= text.len(),
                            self.output@ == base + text@.take(j as int),
                            self.step == step0,
                            self.tokens@ == tokens0,
                            self.finished == finished0,
                        decreases text.len() - j,
                    {
                        self.output.push(text[j]);
                        j = j + 1;
                        assert(self.output@ =~= base + text@.take(j as int));
                    }
                    assert(text@.take(text.len() as int) =~= text@);
                }
            },
            None => {},
        }
        self.step = self.step + 1;
        self.finished = ended || self.step >= MAX_NEW_TOKENS;
    }

    /// Ends decoding early (the model failed at this step).
    pub fn abort(&mut self)
        requires
            within_budget(old(self)@),
        ensures
            within_budget(final(self)@),
            final(self)@ == (DecoderView { finished: true, ..old(self)@ }),
    {
        self.finished = true;
    }

    /// The translation: the generated text without markers, trimmed.
    pub fn result(&self) -> (r: String)
        ensures
            r@ == cleaned_output(self@.output),
    {
        clean_output(&self.output)
    }
}

/// Whatever was generated, the translation has no surrounding whitespace.
pub proof fn lemma_translation_trimmed(out: Seq<char>)
    ensures
        cleaned_output(out).len() > 0 ==> !is_white_space(cleaned_output(out)[0])
            && !is_white_space(cleaned_output(out).last()),
{
    lemma_trim_no_leading(
        replace_all(
            replace_all(replace_all(out, "<start_of_turn>"@, Seq::empty()), "<end_of_turn>"@, Seq::empty()),
            "<eos>"@,
            Seq::empty(),
        ),
    );
}

/// A piece whose text holds "<eos>" or "<end_of_turn>" ends decoding and
/// adds nothing to the output; any other piece adds its text; a token
/// without text adds nothing. Every token is kept, and a step counts.
pub proof fn lemma_decoding_step(d: DecoderView, token: u32, p: Seq<char>)
    ensures
        after_token(d, token, Some(p)).tokens == d.tokens.push(token),
        after_token(d, token, Some(p)).step == d.step + 1,
        contains(piece_text(p), "<eos>"@) || contains(piece_text(p), "<end_of_turn>"@) ==> {
            &&& after_token(d, token, Some(p)).finished
            &&& after_token(d, token, Some(p)).output == d.output
        },
        !contains(piece_text(p), "<eos>"@) && !contains(piece_text(p), "<end_of_turn>"@) ==> {
            &&& after_token(d, token, Some(p)).output == d.output + piece_text(p)
            &&& after_token(d, token, Some(p)).finished == (d.step + 1 >= MAX_NEW_TOKENS)
        },
        after_token(d, token, None).tokens == d.tokens.push(token),
        after_token(d, token, None).output == d.output,
        after_token(d, token, None).finished == (d.step + 1 >= MAX_NEW_TOKENS),
{
}

/// A piece's text is the piece with each word-boundary marker (U+2581,
/// U+0120) read as a space and every other character kept.
pub proof fn lemma_piece_text(p: Seq<char>)
    ensures
        piece_text(p).len() == p.len(),
        forall|i: int|
            0 <= i < p.len() ==> (#[trigger] piece_text(p)[i] == ' ' || piece_text(p)[i] == p[i])
                && (p[i] == '\u{2581}' ==> piece_text(p)[i] == ' ') && (p[i] == '\u{0120}'
                ==> piece_text(p)[i] == ' ') && (p[i] != '\u{2581}' && p[i] != '\u{0120}'
                ==> piece_text(p)[i] == p[i]),
{
}

/// The prompt names Portuguese for "pt", Spanish for "es" and English for
/// every other code, and it holds the text to translate after the
/// instruction and before the end of the user's turn.
pub proof fn lemma_prompt_language(text: Seq<char>, code: Seq<char>)
    ensures
        (language_name(code) == "Portuguese"@) <==> code == "pt"@,
        (language_name(code) == "Spanish"@) <==> code == "es"@,
        (language_name(code) == "English"@) <==> (code != "pt"@ && code != "es"@),
        prompt_text(text, code) == "<start_of_turn>user\nTranslate the following text to "@
            + language_name(code) + ":\n\n"@ + text + "<end_of_turn>\n<start_of_turn>model\n"@,
{
    reveal_strlit("Portuguese");
    reveal_strlit("Spanish");
    reveal_strlit("English");
    assert("Portuguese"@.len() == 10 && "Spanish"@.len() == 7 && "English"@.len() == 7);
    assert("Spanish"@[0] != "English"@[0]);
    reveal_strlit("pt");
    reveal_strlit("es");
    assert("pt"@[0] != "es"@[0]);
}

} // verus!
