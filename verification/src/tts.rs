//! Text and data preparation for speech synthesis: spelling numbers out in
//! English, choosing what to synthesise, and the header of the reference
//! recording handed to the synthesiser.
use vstd::prelude::*;
use crate::text::{
    chars_of, string_of, count_words, is_blank, replace_all, replace_chars, parse_u64,
    parse_u64_chars, word_count, trim,
};

verus! {

// ---------------------------------------------------------------------------
// Numbers in words
// ---------------------------------------------------------------------------

/// The English word for a digit 1 to 9.
pub open spec fn unit_word(d: nat) -> Seq<char> {
    if d == 1 {
        "one"@
    } else if d == 2 {
        "two"@
    } else if d == 3 {
        "three"@
    } else if d == 4 {
        "four"@
    } else if d == 5 {
        "five"@
    } else if d == 6 {
        "six"@
    } else if d == 7 {
        "seven"@
    } else if d == 8 {
        "eight"@
    } else {
        "nine"@
    }
}

/// The English word for 10 + `d`, `d` from 0 to 9.
pub open spec fn teen_word(d: nat) -> Seq<char> {
    if d == 0 {
        "ten"@
    } else if d == 1 {
        "eleven"@
    } else if d == 2 {
        "twelve"@
    } else if d == 3 {
        "thirteen"@
    } else if d == 4 {
        "fourteen"@
    } else if d == 5 {
        "fifteen"@
    } else if d == 6 {
        "sixteen"@
    } else if d == 7 {
        "seventeen"@
    } else if d == 8 {
        "eighteen"@
    } else {
        "nineteen"@
    }
}

/// The English word for 10 * `d`, `d` from 2 to 9.
pub open spec fn tens_word(d: nat) -> Seq<char> {
    if d == 2 {
        "twenty"@
    } else if d == 3 {
        "thirty"@
    } else if d == 4 {
        "forty"@
    } else if d == 5 {
        "fifty"@
    } else if d == 6 {
        "sixty"@
    } else if d == 7 {
        "seventy"@
    } else if d == 8 {
        "eighty"@
    } else {
        "ninety"@
    }
}

/// `n` spelled out in English, empty for zero: units, teens, hyphenated tens,
/// then hundreds, thousands, millions and billions, each group followed by
/// the rest when the rest is not zero.
pub open spec fn spoken(n: nat) -> Seq<char>
    decreases n,
{
    if n == 0 {
        Seq::<char>::empty()
    } else if n < 10 {
        unit_word(n)
    } else if n < 20 {
        teen_word((n - 10) as nat)
    } else if n < 100 {
        if n % 10 == 0 {
            tens_word(n / 10)
        } else {
            tens_word(n / 10) + "-"@ + unit_word(n % 10)
        }
    } else if n < 1000 {
        if n % 100 == 0 {
            unit_word(n / 100) + " hundred"@
        } else {
            unit_word(n / 100) + " hundred "@ + spoken(n % 100)
        }
    } else if n < 1_000_000 {
        if n % 1000 == 0 {
            spoken(n / 1000) + " thousand"@
        } else {
            spoken(n / 1000) + " thousand "@ + spoken(n % 1000)
        }
    } else if n < 1_000_000_000 {
        if n % 1_000_000 == 0 {
            spoken(n / 1_000_000) + " million"@
        } else {
            spoken(n / 1_000_000) + " million "@ + spoken(n % 1_000_000)
        }
    } else {
        if n % 1_000_000_000 == 0 {
            spoken(n / 1_000_000_000) + " billion"@
        } else {
            spoken(n / 1_000_000_000) + " billion "@ + spoken(n % 1_000_000_000)
        }
    }
}

/// The English words for `n`: "zero" for zero, else `spoken(n)`.
pub open spec fn number_words(n: nat) -> Seq<char> {
    if n == 0 {
        "zero"@
    } else {
        spoken(n)
    }
}

fn unit_str(d: u64) -> (r: &'static str)
    requires
        1 <= d <= 9,
    ensures
        r@ == unit_word(d as nat),
{
    if d == 1 {
        "one"
    } else if d == 2 {
        "two"
    } else if d == 3 {
        "three"
    } else if d == 4 {
        "four"
    } else if d == 5 {
        "five"
    } else if d == 6 {
        "six"
    } else if d == 7 {
        "seven"
    } else if d == 8 {
        "eight"
    } else {
        "nine"
    }
}

fn teen_str(d: u64) -> (r: &'static str)
    requires
        d <= 9,
    ensures
        r@ == teen_word(d as nat),
{
    if d == 0 {
        "ten"
    } else if d == 1 {
        "eleven"
    } else if d == 2 {
        "twelve"
    } else if d == 3 {
        "thirteen"
    } else if d == 4 {
        "fourteen"
    } else if d == 5 {
        "fifteen"
    } else if d == 6 {
        "sixteen"
    } else if d == 7 {
        "seventeen"
    } else if d == 8 {
        "eighteen"
    } else {
        "nineteen"
    }
}

fn tens_str(d: u64) -> (r: &'static str)
    requires
        2 <= d <= 9,
    ensures
        r@ == tens_word(d as nat),
{
    if d == 2 {
        "twenty"
    } else if d == 3 {
        "thirty"
    } else if d == 4 {
        "forty"
    } else if d == 5 {
        "fifty"
    } else if d == 6 {
        "sixty"
    } else if d == 7 {
        "seventy"
    } else if d == 8 {
        "eighty"
    } else {
        "ninety"
    }
}

/// `head` followed by `word` when `rest` is zero, else by `word_then_space`
/// and `rest` spelled out.
fn group_words(head: String, word: &str, word_then_space: &str, rest: u64) -> (r: String)
    requires
        rest < 1_000_000_000,
    ensures
        r@ == (if rest == 0 {
            head@ + word@
        } else {
            head@ + word_then_space@ + spoken(rest as nat)
        }),
    decreases rest, 1nat,
{
    if rest == 0 {
        head.concat(word)
    } else {
        let tail = spell(rest);
        head.concat(word_then_space).concat(tail.as_str())
    }
}

/// `n` spelled out in English, empty for zero.
fn spell(n: u64) -> (r: String)
    ensures
        r@ == spoken(n as nat),
    decreases n, 0nat,
{
    if n == 0 {
        String::new()
    } else if n < 10 {
        String::from_str(unit_str(n))
    } else if n < 20 {
        String::from_str(teen_str(n - 10))
    } else if n < 100 {
        let t = String::from_str(tens_str(n / 10));
        if n % 10 == 0 {
            t
        } else {
            t.concat("-").concat(unit_str(n % 10))
        }
    } else if n < 1000 {
        let h = String::from_str(unit_str(n / 100));
        if n % 100 == 0 {
            h.concat(" hundred")
        } else {
            let rest = spell(n % 100);
            h.concat(" hundred ").concat(rest.as_str())
        }
    } else if n < 1_000_000 {
        group_words(spell(n / 1000), " thousand", " thousand ", n % 1000)
    } else if n < 1_000_000_000 {
        group_words(spell(n / 1_000_000), " million", " million ", n % 1_000_000)
    } else {
        group_words(spell(n / 1_000_000_000), " billion", " billion ", n % 1_000_000_000)
    }
}

/// `n` spelled out in English words: "zero", "seven", "twenty-one",
/// "three hundred five", "two thousand", "one million one", ...
pub fn number_to_words_english(n: u64) -> (r: String)
    ensures
        r@ == number_words(n as nat),
{
    if n == 0 {
        String::from_str("zero")
    } else {
        spell(n)
    }
}

// ---------------------------------------------------------------------------
// Numbers inside text
// ---------------------------------------------------------------------------

/// The texts of the successive matches of the regular expression `\d+` in
/// `text`, as `regex::Regex::find_iter` finds them.
pub uninterp spec fn digit_runs(text: Seq<char>) -> Seq<Seq<char>>;

/// The views of a vector of strings.
pub open spec fn string_views(v: Seq<String>) -> Seq<Seq<char>> {
    v.map_values(|s: String| s@)
}

/// Calls `regex::Regex::find_iter` with the pattern `\d+` on `text` and
/// collects the text of each match. The contract names the result
/// (`digit_runs`); it claims no more of it.
#[verifier::external_body]
fn find_digit_runs(text: &str) -> (r: Vec<String>)
    ensures
        string_views(r@) == digit_runs(text@),
{
    let re = regex::Regex::new(r"\d+").unwrap();
    re.find_iter(text).map(|m| m.as_str().to_string()).collect()
}

/// `text` after each run in `runs`, taken in order, that reads as a `u64`
/// has had all its occurrences in the text so far replaced by its words.
/// A run that does not read as a `u64` changes nothing.
pub open spec fn spell_runs(text: Seq<char>, runs: Seq<Seq<char>>) -> Seq<char>
    decreases runs.len(),
{
    if runs.len() == 0 {
        text
    } else {
        let before = spell_runs(text, runs.drop_last());
        match parse_u64(runs.last()) {
            Some(v) => replace_all(before, runs.last(), number_words(v as nat)),
            None => before,
        }
    }
}

proof fn lemma_parsed_nonempty(s: Seq<char>)
    requires
        parse_u64(s) is Some,
    ensures
        s.len() > 0,
{
}

/// The text with the given digit runs spelled out, as `numbers_to_words`
/// does with the runs that the regular expression finds.
pub fn spell_out_runs(text: &str, runs: &Vec<String>) -> (r: String)
    ensures
        r@ == spell_runs(text@, string_views(runs@)),
{
    let mut result = chars_of(text);
    let mut i: usize = 0;
    while i < runs.len()
        invariant
            i <= runs.len(),
            result@ == spell_runs(text@, string_views(runs@).take(i as int)),
        decreases runs.len() - i,
    {
        let run = chars_of(runs[i].as_str());
        proof {
            let rs = string_views(runs@);
            assert(rs.take(i as int + 1).drop_last() =~= rs.take(i as int));
            assert(rs.take(i as int + 1).last() == run@);
        }
        match parse_u64_chars(&run) {
            Some(v) => {
                let words = chars_of(number_to_words_english(v).as_str());
                proof {
                    lemma_parsed_nonempty(run@);
                }
                result = replace_chars(&result, &run, &words);
            },
            None => {},
        }
        i = i + 1;
    }
    assert(string_views(runs@).take(runs.len() as int) =~= string_views(runs@));
    string_of(&result)
}

/// `text` with each decimal number found by the regular expression `\d+`
/// spelled out in English, one match after another (each replacing every
/// occurrence of its digits in the text so far).
pub fn numbers_to_words(text: &str) -> (r: String)
    ensures
        r@ == spell_runs(text@, digit_runs(text@)),
{
    let runs = find_digit_runs(text);
    spell_out_runs(text, &runs)
}

// ---------------------------------------------------------------------------
// What to synthesise
// ---------------------------------------------------------------------------

/// How a text is to be voiced.
pub enum SynthesisPlan {
    /// Nothing to say: no samples.
    Silence,
    /// No synthesis model: a placeholder tone as long as this many words.
    Placeholder { words: usize },
    /// Synthesise `text` (the input with numbers spelled out), cloning the
    /// voice of the last recording when `with_reference`.
    Speak { text: String, with_reference: bool },
}

/// How `text` is voiced, given whether the synthesis model is loaded and the
/// length of the last recording (if any): a blank text gives silence; without
/// the model, a placeholder as long as the text's words; with it, the text
/// with its numbers spelled out, with the recording as voice reference when
/// it holds more than 16000 samples.
pub fn plan_synthesis(text: &str, loaded: bool, reference_len: Option<usize>) -> (r: SynthesisPlan)
    ensures
        trim(text@).len() == 0 ==> r is Silence,
        trim(text@).len() > 0 && !loaded ==> (r matches SynthesisPlan::Placeholder { words }
            && words == word_count(text@)),
        trim(text@).len() > 0 && loaded ==> (r matches SynthesisPlan::Speak { text: t, with_reference }
            && t@ == spell_runs(text@, digit_runs(text@)) && with_reference == (match reference_len {
            Some(n) => n > 16000,
            None => false,
        })),
{
    if is_blank(text) {
        return SynthesisPlan::Silence;
    }
    if !loaded {
        return SynthesisPlan::Placeholder { words: count_words(text) };
    }
    let with_reference = match reference_len {
        Some(n) => n > 16000,
        None => false,
    };
    SynthesisPlan::Speak { text: numbers_to_words(text), with_reference }
}

// ---------------------------------------------------------------------------
// Reference recording header
// ---------------------------------------------------------------------------

/// Sample rate of the synthesiser and of its reference recordings.
pub const TTS_SAMPLE_RATE: u32 = 24000;

/// The four little-endian bytes of `x`.
pub open spec fn le32(x: u32) -> Seq<u8> {
    seq![(x % 256) as u8, ((x / 256) % 256) as u8, ((x / 65536) % 256) as u8, (x / 16777216) as u8]
}

/// The two little-endian bytes of `x`.
pub open spec fn le16(x: u16) -> Seq<u8> {
    seq![(x % 256) as u8, (x / 256) as u8]
}

/// The ASCII bytes of a four-letter chunk tag.
pub open spec fn tag(a: char, b: char, c: char, d: char) -> Seq<u8> {
    seq![a as u8, b as u8, c as u8, d as u8]
}

/// The 44-byte header of a WAV file holding `data_size` bytes of mono
/// 32-bit float samples at 24 kHz: RIFF size, `fmt ` chunk (format 3, one
/// channel, 24000 Hz, 96000 bytes per second, 4-byte blocks, 32 bits) and
/// `data` chunk size.
pub open spec fn wav_header_bytes(data_size: u32) -> Seq<u8> {
    tag('R', 'I', 'F', 'F') + le32((36 + data_size) as u32) + tag('W', 'A', 'V', 'E') + tag(
        'f',
        'm',
        't',
        ' ',
    ) + le32(16) + le16(3) + le16(1) + le32(TTS_SAMPLE_RATE) + le32(96000) + le16(4) + le16(32)
        + tag('d', 'a', 't', 'a') + le32(data_size)
}

fn push_le32(out: &mut Vec<u8>, x: u32)
    ensures
        final(out)@ == old(out)@ + le32(x),
{
    out.push((x % 256) as u8);
    out.push(((x / 256) % 256) as u8);
    out.push(((x / 65536) % 256) as u8);
    out.push((x / 16777216) as u8);
    assert(final(out)@ =~= old(out)@ + le32(x)) by {
        assert(x / 16777216 < 256);
    }
}

fn push_le16(out: &mut Vec<u8>, x: u16)
    ensures
        final(out)@ == old(out)@ + le16(x),
{
    out.push((x % 256) as u8);
    out.push((x / 256) as u8);
    assert(final(out)@ =~= old(out)@ + le16(x));
}

fn push_tag(out: &mut Vec<u8>, a: u8, b: u8, c: u8, d: u8)
    ensures
        final(out)@ == old(out)@ + seq![a, b, c, d],
{
    out.push(a);
    out.push(b);
    out.push(c);
    out.push(d);
    assert(final(out)@ =~= old(out)@ + seq![a, b, c, d]);
}

/// The header of the reference recording handed to the synthesiser, for
/// `num_samples` float samples (4 bytes each; sizes as 32-bit fields).
pub fn wav_header(num_samples: usize) -> (r: Vec<u8>)
    requires
        num_samples * 4 <= usize::MAX,
        ((num_samples * 4) as u32) + 36 <= u32::MAX,
    ensures
        r@ == wav_header_bytes((num_samples * 4) as u32),
        r@.len() == 44,
{
    let data_size = num_samples * 4;
    let data_field = data_size as u32;
    let file_size = 36 + data_field;
    let mut out: Vec<u8> = Vec::new();
    push_tag(&mut out, 82, 73, 70, 70);
    push_le32(&mut out, file_size);
    push_tag(&mut out, 87, 65, 86, 69);
    push_tag(&mut out, 102, 109, 116, 32);
    push_le32(&mut out, 16);
    push_le16(&mut out, 3);
    push_le16(&mut out, 1);
    push_le32(&mut out, TTS_SAMPLE_RATE);
    push_le32(&mut out, TTS_SAMPLE_RATE * 4);
    push_le16(&mut out, 4);
    push_le16(&mut out, 32);
    push_tag(&mut out, 100, 97, 116, 97);
    push_le32(&mut out, data_field);
    assert(out@ =~= wav_header_bytes(data_field));
    out
}

} // verus!
