//! Laws of the English number words of `tts`: their shape, and that
//! different numbers are spelled differently.
//!
//! The proofs read a spelling as a sequence of words (digits, teens, tens,
//! and the group words), joined by single spaces, or by a hyphen between a
//! tens word and a unit.
use vstd::prelude::*;
use crate::tts::{unit_word, teen_word, tens_word, spoken, number_words};

verus! {

/// One word of a spelled-out number.
pub ghost enum Term {
    Unit(nat),
    Teen(nat),
    Tens(nat),
    Hundred,
    Thousand,
    Million,
    Billion,
}

/// The text of a word.
pub open spec fn term_text(t: Term) -> Seq<char> {
    match t {
        Term::Unit(d) => unit_word(d),
        Term::Teen(d) => teen_word(d),
        Term::Tens(d) => tens_word(d),
        Term::Hundred => "hundred"@,
        Term::Thousand => "thousand"@,
        Term::Million => "million"@,
        Term::Billion => "billion"@,
    }
}

/// The words that occur: digits 1 to 9, teens 10 to 19, tens 20 to 90.
pub open spec fn valid_term(t: Term) -> bool {
    match t {
        Term::Unit(d) => 1 <= d <= 9,
        Term::Teen(d) => d <= 9,
        Term::Tens(d) => 2 <= d <= 9,
        _ => true,
    }
}

/// The separator between two words: a hyphen between tens and a unit, a
/// space otherwise.
pub open spec fn separator(a: Term, b: Term) -> char {
    if a is Tens && b is Unit {
        '-'
    } else {
        ' '
    }
}

/// The words joined by their separators.
pub open spec fn render(ts: Seq<Term>) -> Seq<char>
    decreases ts.len(),
{
    if ts.len() == 0 {
        Seq::<char>::empty()
    } else if ts.len() == 1 {
        term_text(ts[0])
    } else {
        term_text(ts[0]) + seq![separator(ts[0], ts[1])] + render(ts.drop_first())
    }
}

/// The words of `n`, none for zero.
pub open spec fn terms(n: nat) -> Seq<Term>
    decreases n,
{
    if n == 0 {
        Seq::<Term>::empty()
    } else if n < 10 {
        seq![Term::Unit(n)]
    } else if n < 20 {
        seq![Term::Teen((n - 10) as nat)]
    } else if n < 100 {
        if n % 10 == 0 {
            seq![Term::Tens(n / 10)]
        } else {
            seq![Term::Tens(n / 10), Term::Unit(n % 10)]
        }
    } else if n < 1000 {
        seq![Term::Unit(n / 100), Term::Hundred] + terms(n % 100)
    } else if n < 1_000_000 {
        terms(n / 1000) + seq![Term::Thousand] + terms(n % 1000)
    } else if n < 1_000_000_000 {
        terms(n / 1_000_000) + seq![Term::Million] + terms(n % 1_000_000)
    } else {
        terms(n / 1_000_000_000) + seq![Term::Billion] + terms(n % 1_000_000_000)
    }
}

proof fn lemma_render_append(a: Seq<Term>, b: Seq<Term>)
    requires
        a.len() > 0,
        b.len() > 0,
    ensures
        render(a + b) == render(a) + seq![separator(a.last(), b[0])] + render(b),
    decreases a.len(),
{
    if a.len() == 1 {
        assert((a + b).drop_first() =~= b);
        assert((a + b)[1] == b[0]);
    } else {
        lemma_render_append(a.drop_first(), b);
        assert((a + b).drop_first() =~= a.drop_first() + b);
        assert((a + b)[1] == a[1]);
        assert(a.drop_first().last() == a.last());
    }
}

proof fn lemma_group_literals()
    ensures
        " hundred"@ == seq![' '] + "hundred"@,
        " hundred "@ == seq![' '] + "hundred"@ + seq![' '],
        " thousand"@ == seq![' '] + "thousand"@,
        " thousand "@ == seq![' '] + "thousand"@ + seq![' '],
        " million"@ == seq![' '] + "million"@,
        " million "@ == seq![' '] + "million"@ + seq![' '],
        " billion"@ == seq![' '] + "billion"@,
        " billion "@ == seq![' '] + "billion"@ + seq![' '],
        "-"@ == seq!['-'],
{
    reveal_strlit(" hundred");
    reveal_strlit(" hundred ");
    reveal_strlit("hundred");
    reveal_strlit(" thousand");
    reveal_strlit(" thousand ");
    reveal_strlit("thousand");
    reveal_strlit(" million");
    reveal_strlit(" million ");
    reveal_strlit("million");
    reveal_strlit(" billion");
    reveal_strlit(" billion ");
    reveal_strlit("billion");
    reveal_strlit("-");
    assert(" hundred"@ =~= seq![' '] + "hundred"@);
    assert(" hundred "@ =~= seq![' '] + "hundred"@ + seq![' ']);
    assert(" thousand"@ =~= seq![' '] + "thousand"@);
    assert(" thousand "@ =~= seq![' '] + "thousand"@ + seq![' ']);
    assert(" million"@ =~= seq![' '] + "million"@);
    assert(" million "@ =~= seq![' '] + "million"@ + seq![' ']);
    assert(" billion"@ =~= seq![' '] + "billion"@);
    assert(" billion "@ =~= seq![' '] + "billion"@ + seq![' ']);
    assert("-"@ =~= seq!['-']);
}

/// A group `head`, its group word `g`, then the rest `tail` when there is
/// one, rendered.
proof fn lemma_render_group(head: Seq<Term>, g: Term, tail: Seq<Term>)
    requires
        head.len() > 0,
        !(g is Unit) && !(g is Tens),
    ensures
        render(head + seq![g]) == render(head) + seq![' '] + term_text(g),
        tail.len() > 0 ==> render(head + seq![g] + tail) == render(head) + seq![' '] + term_text(g)
            + seq![' '] + render(tail),
{
    lemma_render_append(head, seq![g]);
    if tail.len() > 0 {
        lemma_render_append(head + seq![g], tail);
        assert((head + seq![g]).last() == g);
    }
}

/// `spoken(n)` is the rendering of the words of `n`, all of them valid.
proof fn lemma_spoken_is_render(n: nat)
    ensures
        spoken(n) == render(terms(n)),
        n > 0 ==> terms(n).len() > 0,
        forall|i: int| 0 <= i < terms(n).len() ==> valid_term(#[trigger] terms(n)[i]),
    decreases n,
{
    lemma_group_literals();
    if n == 0 {
    } else if n < 10 {
    } else if n < 20 {
    } else if n < 100 {
        if n % 10 != 0 {
            let ts = seq![Term::Tens(n / 10), Term::Unit(n % 10)];
            assert(ts.drop_first() =~= seq![Term::Unit(n % 10)]);
            assert(render(ts.drop_first()) == unit_word(n % 10));
            assert(separator(ts[0], ts[1]) == '-');
            assert(render(ts) =~= tens_word(n / 10) + "-"@ + unit_word(n % 10));
        }
    } else if n < 1000 {
        let head = seq![Term::Unit(n / 100)];
        let r = n % 100;
        lemma_spoken_is_render(r);
        assert(seq![Term::Unit(n / 100), Term::Hundred] =~= head + seq![Term::Hundred]);
        lemma_render_group(head, Term::Hundred, terms(r));
        if r == 0 {
            assert(terms(n) =~= head + seq![Term::Hundred]);
        } else {
            assert(terms(n) =~= head + seq![Term::Hundred] + terms(r));
        }
        assert forall|i: int| 0 <= i < terms(n).len() implies valid_term(#[trigger] terms(n)[i]) by {
            if i >= 2 {
                assert(terms(n)[i] == terms(r)[i - 2]);
            }
        }
    } else {
        let d: nat = if n < 1_000_000 {
            1000
        } else if n < 1_000_000_000 {
            1_000_000
        } else {
            1_000_000_000
        };
        let g = if n < 1_000_000 {
            Term::Thousand
        } else if n < 1_000_000_000 {
            Term::Million
        } else {
            Term::Billion
        };
        let q = n / d;
        let r = n % d;
        assert(q > 0 && q < n);
        lemma_spoken_is_render(q);
        lemma_spoken_is_render(r);
        lemma_render_group(terms(q), g, terms(r));
        assert(terms(n) == terms(q) + seq![g] + terms(r));
        if r == 0 {
            assert(terms(r) =~= Seq::<Term>::empty());
            assert(terms(n) =~= terms(q) + seq![g]);
        }
        assert forall|i: int| 0 <= i < terms(n).len() implies valid_term(#[trigger] terms(n)[i]) by {
            let k = terms(q).len() as int;
            if i < k {
                assert(terms(n)[i] == terms(q)[i]);
            } else if i > k {
                assert(terms(n)[i] == terms(r)[i - k - 1]);
            }
        }
    }
}

/// A lower-case ASCII letter.
pub open spec fn is_letter(c: char) -> bool {
    'a' <= c && c <= 'z'
}

/// A space or a hyphen.
pub open spec fn is_separator(c: char) -> bool {
    c == ' ' || c == '-'
}

/// Words of lower-case letters joined by single spaces or hyphens: not
/// empty, starting and ending with a letter, no two separators in a row.
pub open spec fn well_spelled(s: Seq<char>) -> bool {
    &&& s.len() > 0
    &&& is_letter(s[0])
    &&& is_letter(s.last())
    &&& forall|i: int| 0 <= i < s.len() ==> is_letter(#[trigger] s[i]) || is_separator(s[i])
    &&& forall|i: int|
        0 <= i < s.len() - 1 ==> !(is_separator(#[trigger] s[i]) && is_separator(s[i + 1]))
}

/// Every character of `s` is a letter.
pub open spec fn all_letters(s: Seq<char>) -> bool {
    forall|i: int| 0 <= i < s.len() ==> is_letter(#[trigger] s[i])
}

proof fn lemma_unit_letters(d: nat)
    requires
        1 <= d <= 9,
    ensures
        unit_word(d).len() > 0,
        all_letters(unit_word(d)),
{
    reveal_strlit("one");
    reveal_strlit("two");
    reveal_strlit("three");
    reveal_strlit("four");
    reveal_strlit("five");
    reveal_strlit("six");
    reveal_strlit("seven");
    reveal_strlit("eight");
    reveal_strlit("nine");
}

proof fn lemma_teen_letters(d: nat)
    requires
        d <= 9,
    ensures
        teen_word(d).len() > 0,
        all_letters(teen_word(d)),
{
    reveal_strlit("ten");
    reveal_strlit("eleven");
    reveal_strlit("twelve");
    reveal_strlit("thirteen");
    reveal_strlit("fourteen");
    reveal_strlit("fifteen");
    reveal_strlit("sixteen");
    reveal_strlit("seventeen");
    reveal_strlit("eighteen");
    reveal_strlit("nineteen");
}

proof fn lemma_tens_letters(d: nat)
    requires
        2 <= d <= 9,
    ensures
        tens_word(d).len() > 0,
        all_letters(tens_word(d)),
{
    reveal_strlit("twenty");
    reveal_strlit("thirty");
    reveal_strlit("forty");
    reveal_strlit("fifty");
    reveal_strlit("sixty");
    reveal_strlit("seventy");
    reveal_strlit("eighty");
    reveal_strlit("ninety");
}

proof fn lemma_term_letters(t: Term)
    requires
        valid_term(t),
    ensures
        term_text(t).len() > 0,
        all_letters(term_text(t)),
{
    match t {
        Term::Unit(d) => lemma_unit_letters(d),
        Term::Teen(d) => lemma_teen_letters(d),
        Term::Tens(d) => lemma_tens_letters(d),
        Term::Hundred => {
            reveal_strlit("hundred");
        },
        Term::Thousand => {
            reveal_strlit("thousand");
        },
        Term::Million => {
            reveal_strlit("million");
        },
        Term::Billion => {
            reveal_strlit("billion");
        },
    }
}

proof fn lemma_render_well_spelled(ts: Seq<Term>)
    requires
        ts.len() > 0,
        forall|i: int| 0 <= i < ts.len() ==> valid_term(#[trigger] ts[i]),
    ensures
        well_spelled(render(ts)),
    decreases ts.len(),
{
    lemma_term_letters(ts[0]);
    if ts.len() > 1 {
        let rest = ts.drop_first();
        assert forall|i: int| 0 <= i < rest.len() implies valid_term(#[trigger] rest[i]) by {
            assert(rest[i] == ts[i + 1]);
        }
        lemma_render_well_spelled(rest);
        let w = term_text(ts[0]);
        let r = render(rest);
        let s = render(ts);
        assert(s == w + seq![separator(ts[0], ts[1])] + r);
        assert(s[0] == w[0]);
        assert(s.last() == r.last());
        assert forall|i: int| 0 <= i < s.len() implies is_letter(#[trigger] s[i]) || is_separator(
            s[i],
        ) by {
            if i < w.len() {
                assert(s[i] == w[i]);
            } else if i > w.len() {
                assert(s[i] == r[i - w.len() - 1]);
            }
        }
        assert forall|i: int| 0 <= i < s.len() - 1 implies !(is_separator(#[trigger] s[i])
            && is_separator(s[i + 1])) by {
            if i < w.len() {
                assert(s[i] == w[i]);
            } else if i == w.len() {
                assert(s[i + 1] == r[0]);
            } else {
                assert(s[i] == r[i - w.len() - 1]);
                assert(s[i + 1] == r[i - w.len()]);
            }
        }
    }
}

/// The English words of every number are lower-case words joined by
/// single spaces or hyphens: never empty, no space or hyphen at either
/// end, none doubled; and they are "zero" for zero and for no other number.
pub proof fn lemma_number_words_shape(n: nat)
    ensures
        well_spelled(number_words(n)),
        (number_words(n) == "zero"@) <==> (n == 0),
{
    if n == 0 {
        reveal_strlit("zero");
    } else {
        lemma_spoken_is_render(n);
        lemma_render_well_spelled(terms(n));
        lemma_not_zero(terms(n));
    }
}

proof fn reveal_number_words()
    ensures
        "one"@ == seq!['o', 'n', 'e'],
        "two"@ == seq!['t', 'w', 'o'],
        "three"@ == seq!['t', 'h', 'r', 'e', 'e'],
        "four"@ == seq!['f', 'o', 'u', 'r'],
        "five"@ == seq!['f', 'i', 'v', 'e'],
        "six"@ == seq!['s', 'i', 'x'],
        "seven"@ == seq!['s', 'e', 'v', 'e', 'n'],
        "eight"@ == seq!['e', 'i', 'g', 'h', 't'],
        "nine"@ == seq!['n', 'i', 'n', 'e'],
        "ten"@ == seq!['t', 'e', 'n'],
        "eleven"@ == seq!['e', 'l', 'e', 'v', 'e', 'n'],
        "twelve"@ == seq!['t', 'w', 'e', 'l', 'v', 'e'],
        "thirteen"@ == seq!['t', 'h', 'i', 'r', 't', 'e', 'e', 'n'],
        "fourteen"@ == seq!['f', 'o', 'u', 'r', 't', 'e', 'e', 'n'],
        "fifteen"@ == seq!['f', 'i', 'f', 't', 'e', 'e', 'n'],
        "sixteen"@ == seq!['s', 'i', 'x', 't', 'e', 'e', 'n'],
        "seventeen"@ == seq!['s', 'e', 'v', 'e', 'n', 't', 'e', 'e', 'n'],
        "eighteen"@ == seq!['e', 'i', 'g', 'h', 't', 'e', 'e', 'n'],
        "nineteen"@ == seq!['n', 'i', 'n', 'e', 't', 'e', 'e', 'n'],
        "twenty"@ == seq!['t', 'w', 'e', 'n', 't', 'y'],
        "thirty"@ == seq!['t', 'h', 'i', 'r', 't', 'y'],
        "forty"@ == seq!['f', 'o', 'r', 't', 'y'],
        "fifty"@ == seq!['f', 'i', 'f', 't', 'y'],
        "sixty"@ == seq!['s', 'i', 'x', 't', 'y'],
        "seventy"@ == seq!['s', 'e', 'v', 'e', 'n', 't', 'y'],
        "eighty"@ == seq!['e', 'i', 'g', 'h', 't', 'y'],
        "ninety"@ == seq!['n', 'i', 'n', 'e', 't', 'y'],
        "hundred"@ == seq!['h', 'u', 'n', 'd', 'r', 'e', 'd'],
        "thousand"@ == seq!['t', 'h', 'o', 'u', 's', 'a', 'n', 'd'],
        "million"@ == seq!['m', 'i', 'l', 'l', 'i', 'o', 'n'],
        "billion"@ == seq!['b', 'i', 'l', 'l', 'i', 'o', 'n'],
        "zero"@ == seq!['z', 'e', 'r', 'o'],
{
    reveal_strlit("one");
    reveal_strlit("two");
    reveal_strlit("three");
    reveal_strlit("four");
    reveal_strlit("five");
    reveal_strlit("six");
    reveal_strlit("seven");
    reveal_strlit("eight");
    reveal_strlit("nine");
    reveal_strlit("ten");
    reveal_strlit("eleven");
    reveal_strlit("twelve");
    reveal_strlit("thirteen");
    reveal_strlit("fourteen");
    reveal_strlit("fifteen");
    reveal_strlit("sixteen");
    reveal_strlit("seventeen");
    reveal_strlit("eighteen");
    reveal_strlit("nineteen");
    reveal_strlit("twenty");
    reveal_strlit("thirty");
    reveal_strlit("forty");
    reveal_strlit("fifty");
    reveal_strlit("sixty");
    reveal_strlit("seventy");
    reveal_strlit("eighty");
    reveal_strlit("ninety");
    reveal_strlit("hundred");
    reveal_strlit("thousand");
    reveal_strlit("million");
    reveal_strlit("billion");
    reveal_strlit("zero");
    assert("one"@ =~= seq!['o', 'n', 'e']);
    assert("two"@ =~= seq!['t', 'w', 'o']);
    assert("three"@ =~= seq!['t', 'h', 'r', 'e', 'e']);
    assert("four"@ =~= seq!['f', 'o', 'u', 'r']);
    assert("five"@ =~= seq!['f', 'i', 'v', 'e']);
    assert("six"@ =~= seq!['s', 'i', 'x']);
    assert("seven"@ =~= seq!['s', 'e', 'v', 'e', 'n']);
    assert("eight"@ =~= seq!['e', 'i', 'g', 'h', 't']);
    assert("nine"@ =~= seq!['n', 'i', 'n', 'e']);
    assert("ten"@ =~= seq!['t', 'e', 'n']);
    assert("eleven"@ =~= seq!['e', 'l', 'e', 'v', 'e', 'n']);
    assert("twelve"@ =~= seq!['t', 'w', 'e', 'l', 'v', 'e']);
    assert("thirteen"@ =~= seq!['t', 'h', 'i', 'r', 't', 'e', 'e', 'n']);
    assert("fourteen"@ =~= seq!['f', 'o', 'u', 'r', 't', 'e', 'e', 'n']);
    assert("fifteen"@ =~= seq!['f', 'i', 'f', 't', 'e', 'e', 'n']);
    assert("sixteen"@ =~= seq!['s', 'i', 'x', 't', 'e', 'e', 'n']);
    assert("seventeen"@ =~= seq!['s', 'e', 'v', 'e', 'n', 't', 'e', 'e', 'n']);
    assert("eighteen"@ =~= seq!['e', 'i', 'g', 'h', 't', 'e', 'e', 'n']);
    assert("nineteen"@ =~= seq!['n', 'i', 'n', 'e', 't', 'e', 'e', 'n']);
    assert("twenty"@ =~= seq!['t', 'w', 'e', 'n', 't', 'y']);
    assert("thirty"@ =~= seq!['t', 'h', 'i', 'r', 't', 'y']);
    assert("forty"@ =~= seq!['f', 'o', 'r', 't', 'y']);
    assert("fifty"@ =~= seq!['f', 'i', 'f', 't', 'y']);
    assert("sixty"@ =~= seq!['s', 'i', 'x', 't', 'y']);
    assert("seventy"@ =~= seq!['s', 'e', 'v', 'e', 'n', 't', 'y']);
    assert("eighty"@ =~= seq!['e', 'i', 'g', 'h', 't', 'y']);
    assert("ninety"@ =~= seq!['n', 'i', 'n', 'e', 't', 'y']);
    assert("hundred"@ =~= seq!['h', 'u', 'n', 'd', 'r', 'e', 'd']);
    assert("thousand"@ =~= seq!['t', 'h', 'o', 'u', 's', 'a', 'n', 'd']);
    assert("million"@ =~= seq!['m', 'i', 'l', 'l', 'i', 'o', 'n']);
    assert("billion"@ =~= seq!['b', 'i', 'l', 'l', 'i', 'o', 'n']);
    assert("zero"@ =~= seq!['z', 'e', 'r', 'o']);
}

/// Different words have different texts, and none of them is "zero".
proof fn lemma_term_text_injective(a: Term, b: Term)
    requires
        valid_term(a),
        valid_term(b),
    ensures
        term_text(a) == term_text(b) ==> a == b,
        term_text(a) != "zero"@,
{
    reveal_number_words();
    let x = term_text(a);
    let y = term_text(b);
    if x == y {
        assert(x.len() == y.len());
        assert(x[0] == y[0] && x[1] == y[1] && x[2] == y[2]);
        if x.len() > 3 {
            assert(x[3] == y[3]);
        }
    }
}

/// Two words followed by text that is empty or starts with a separator:
/// equal strings give equal words and equal rests.
proof fn lemma_word_prefix(x: Seq<char>, s1: Seq<char>, y: Seq<char>, s2: Seq<char>)
    requires
        all_letters(x),
        all_letters(y),
        s1.len() == 0 || is_separator(s1[0]),
        s2.len() == 0 || is_separator(s2[0]),
        x + s1 == y + s2,
    ensures
        x == y,
        s1 == s2,
{
    let whole = x + s1;
    if x.len() < y.len() {
        assert(whole[x.len() as int] == y[x.len() as int]);
        if s1.len() > 0 {
            assert(whole[x.len() as int] == s1[0]);
        }
        assert(false);
    } else if y.len() < x.len() {
        assert((y + s2)[y.len() as int] == x[y.len() as int]);
        if s2.len() > 0 {
            assert((y + s2)[y.len() as int] == s2[0]);
        }
        assert(false);
    }
    assert(x =~= whole.take(x.len() as int));
    assert(y =~= (y + s2).take(y.len() as int));
    assert(s1 =~= whole.skip(x.len() as int));
    assert(s2 =~= (y + s2).skip(y.len() as int));
}

/// What follows the first word of a rendering.
pub open spec fn render_tail(ts: Seq<Term>) -> Seq<char> {
    if ts.len() <= 1 {
        Seq::<char>::empty()
    } else {
        seq![separator(ts[0], ts[1])] + render(ts.drop_first())
    }
}

proof fn lemma_render_split(ts: Seq<Term>)
    requires
        ts.len() > 0,
    ensures
        render(ts) == term_text(ts[0]) + render_tail(ts),
{
    if ts.len() == 1 {
        assert(term_text(ts[0]) + Seq::<char>::empty() =~= term_text(ts[0]));
    }
}

/// Different word sequences render differently.
proof fn lemma_render_injective(a: Seq<Term>, b: Seq<Term>)
    requires
        a.len() > 0,
        b.len() > 0,
        forall|i: int| 0 <= i < a.len() ==> valid_term(#[trigger] a[i]),
        forall|i: int| 0 <= i < b.len() ==> valid_term(#[trigger] b[i]),
        render(a) == render(b),
    ensures
        a == b,
    decreases a.len(),
{
    lemma_render_split(a);
    lemma_render_split(b);
    lemma_term_letters(a[0]);
    lemma_term_letters(b[0]);
    lemma_word_prefix(term_text(a[0]), render_tail(a), term_text(b[0]), render_tail(b));
    lemma_term_text_injective(a[0], b[0]);
    if a.len() == 1 || b.len() == 1 {
        if a.len() > 1 {
            assert(render_tail(a).len() > 0);
        }
        if b.len() > 1 {
            assert(render_tail(b).len() > 0);
        }
        assert(a.len() == 1 && b.len() == 1);
        assert(a =~= b);
    } else {
        let ra = a.drop_first();
        let rb = b.drop_first();
        assert(render(ra) =~= render_tail(a).drop_first());
        assert(render(rb) =~= render_tail(b).drop_first());
        assert forall|i: int| 0 <= i < ra.len() implies valid_term(#[trigger] ra[i]) by {
            assert(ra[i] == a[i + 1]);
        }
        assert forall|i: int| 0 <= i < rb.len() implies valid_term(#[trigger] rb[i]) by {
            assert(rb[i] == b[i + 1]);
        }
        lemma_render_injective(ra, rb);
        assert(a =~= seq![a[0]] + ra);
        assert(b =~= seq![b[0]] + rb);
    }
}

/// The position of the last occurrence of `t` in `ts`, -1 when absent.
pub open spec fn last_pos(ts: Seq<Term>, t: Term) -> int
    decreases ts.len(),
{
    if ts.len() == 0 {
        -1
    } else if ts.last() == t {
        ts.len() - 1
    } else {
        last_pos(ts.drop_last(), t)
    }
}

/// The value of a digit, teen or tens word; zero for a group word.
pub open spec fn atom_value(t: Term) -> nat {
    match t {
        Term::Unit(d) => d,
        Term::Teen(d) => 10 + d,
        Term::Tens(d) => 10 * d,
        _ => 0,
    }
}

/// The sum of the values of the words.
pub open spec fn atoms_sum(ts: Seq<Term>) -> nat
    decreases ts.len(),
{
    if ts.len() == 0 {
        0
    } else {
        atoms_sum(ts.drop_last()) + atom_value(ts.last())
    }
}

/// The number a word sequence reads as: split at the last "billion", else
/// the last "million", "thousand" or "hundred", the part before it scaled
/// and the part after it added; words without a group word add up.
pub open spec fn value(ts: Seq<Term>) -> nat
    decreases ts.len(),
{
    let b = last_pos(ts, Term::Billion);
    let m = last_pos(ts, Term::Million);
    let k = last_pos(ts, Term::Thousand);
    let h = last_pos(ts, Term::Hundred);
    if 0 <= b < ts.len() {
        value(ts.take(b)) * 1_000_000_000 + value(ts.skip(b + 1))
    } else if 0 <= m < ts.len() {
        value(ts.take(m)) * 1_000_000 + value(ts.skip(m + 1))
    } else if 0 <= k < ts.len() {
        value(ts.take(k)) * 1000 + value(ts.skip(k + 1))
    } else if 0 <= h < ts.len() {
        value(ts.take(h)) * 100 + value(ts.skip(h + 1))
    } else {
        atoms_sum(ts)
    }
}

proof fn lemma_last_pos_absent(ts: Seq<Term>, t: Term)
    requires
        forall|i: int| 0 <= i < ts.len() ==> #[trigger] ts[i] != t,
    ensures
        last_pos(ts, t) == -1,
    decreases ts.len(),
{
    if ts.len() > 0 {
        let r = ts.drop_last();
        assert forall|i: int| 0 <= i < r.len() implies #[trigger] r[i] != t by {
            assert(r[i] == ts[i]);
        }
        lemma_last_pos_absent(r, t);
    }
}

proof fn lemma_last_pos_split(a: Seq<Term>, t: Term, b: Seq<Term>)
    requires
        forall|i: int| 0 <= i < b.len() ==> #[trigger] b[i] != t,
    ensures
        last_pos(a + seq![t] + b, t) == a.len(),
    decreases b.len(),
{
    if b.len() == 0 {
        assert(a + seq![t] + b =~= a.push(t));
    } else {
        let r = b.drop_last();
        assert forall|i: int| 0 <= i < r.len() implies #[trigger] r[i] != t by {
            assert(r[i] == b[i]);
        }
        lemma_last_pos_split(a, t, r);
        assert((a + seq![t] + b).drop_last() =~= a + seq![t] + r);
        assert((a + seq![t] + b).last() == b.last());
    }
}

/// Which group words the words of `n` can hold.
proof fn lemma_terms_below(n: nat)
    ensures
        forall|i: int|
            0 <= i < terms(n).len() ==> {
                &&& n < 1_000_000_000 ==> #[trigger] terms(n)[i] != Term::Billion
                &&& n < 1_000_000 ==> terms(n)[i] != Term::Million
                &&& n < 1000 ==> terms(n)[i] != Term::Thousand
                &&& n < 100 ==> terms(n)[i] != Term::Hundred
            },
    decreases n,
{
    if n < 100 {
    } else if n < 1000 {
        lemma_terms_below(n % 100);
        assert forall|i: int| 0 <= i < terms(n).len() implies terms(n)[i] != Term::Thousand
            && #[trigger] terms(n)[i] != Term::Million && terms(n)[i] != Term::Billion by {
            if i >= 2 {
                assert(terms(n)[i] == terms(n % 100)[i - 2]);
            }
        }
    } else {
        let d: nat = if n < 1_000_000 {
            1000
        } else if n < 1_000_000_000 {
            1_000_000
        } else {
            1_000_000_000
        };
        let q = n / d;
        let r = n % d;
        lemma_terms_below(q);
        lemma_terms_below(r);
        let k = terms(q).len() as int;
        assert forall|i: int| 0 <= i < terms(n).len() implies (n < 1_000_000_000
            ==> #[trigger] terms(n)[i] != Term::Billion) && (n < 1_000_000 ==> terms(n)[i]
            != Term::Million) by {
            if i < k {
                assert(terms(n)[i] == terms(q)[i]);
            } else if i > k {
                assert(terms(n)[i] == terms(r)[i - k - 1]);
            }
        }
    }
}

proof fn lemma_atoms_value(ts: Seq<Term>)
    requires
        forall|i: int|
            0 <= i < ts.len() ==> !(#[trigger] ts[i] is Billion) && !(ts[i] is Million) && !(
            ts[i] is Thousand) && !(ts[i] is Hundred),
    ensures
        value(ts) == atoms_sum(ts),
{
    lemma_last_pos_absent(ts, Term::Billion);
    lemma_last_pos_absent(ts, Term::Million);
    lemma_last_pos_absent(ts, Term::Thousand);
    lemma_last_pos_absent(ts, Term::Hundred);
}

/// The words of a number read back as that number.
proof fn lemma_value_of_terms(n: nat)
    ensures
        value(terms(n)) == n,
    decreases n,
{
    let ts = terms(n);
    if n < 100 {
        if n == 0 {
        } else if n < 20 || n % 10 == 0 {
            lemma_atoms_value(ts);
            assert(ts.drop_last() =~= Seq::<Term>::empty());
            assert(atoms_sum(ts.drop_last()) == 0);
            if n >= 20 {
                assert(10 * (n / 10) == n);
            }
            assert(atoms_sum(ts) == n);
        } else {
            lemma_atoms_value(ts);
            assert(ts.drop_last() =~= seq![Term::Tens(n / 10)]);
            assert(ts.drop_last().drop_last() =~= Seq::<Term>::empty());
            assert(atoms_sum(ts.drop_last().drop_last()) == 0);
            assert(atoms_sum(ts.drop_last()) == 10 * (n / 10));
            assert(ts.last() == Term::Unit(n % 10));
            assert(10 * (n / 10) + n % 10 == n);
            assert(atoms_sum(ts) == n);
        }
    } else if n < 1000 {
        let r = n % 100;
        let head = seq![Term::Unit(n / 100)];
        lemma_terms_below(r);
        lemma_value_of_terms(r);
        assert(ts =~= head + seq![Term::Hundred] + terms(r));
        assert forall|i: int| 0 <= i < ts.len() implies #[trigger] ts[i] != Term::Billion && ts[i]
            != Term::Million && ts[i] != Term::Thousand by {
            if i >= 2 {
                assert(ts[i] == terms(r)[i - 2]);
            }
        }
        lemma_last_pos_absent(ts, Term::Billion);
        lemma_last_pos_absent(ts, Term::Million);
        lemma_last_pos_absent(ts, Term::Thousand);
        lemma_last_pos_split(head, Term::Hundred, terms(r));
        assert(ts.take(1) =~= head);
        assert(ts.skip(2) =~= terms(r));
        lemma_atoms_value(head);
        assert(head.drop_last() =~= Seq::<Term>::empty());
        assert(atoms_sum(head.drop_last()) == 0);
        assert(value(head) == n / 100);
        assert(value(ts) == value(ts.take(1)) * 100 + value(ts.skip(2)));
    } else {
        let d: nat = if n < 1_000_000 {
            1000
        } else if n < 1_000_000_000 {
            1_000_000
        } else {
            1_000_000_000
        };
        let g = if n < 1_000_000 {
            Term::Thousand
        } else if n < 1_000_000_000 {
            Term::Million
        } else {
            Term::Billion
        };
        let q = n / d;
        let r = n % d;
        lemma_terms_below(q);
        lemma_terms_below(r);
        lemma_value_of_terms(q);
        lemma_value_of_terms(r);
        let k = terms(q).len() as int;
        assert(ts == terms(q) + seq![g] + terms(r));
        lemma_last_pos_split(terms(q), g, terms(r));
        assert(ts.take(k) =~= terms(q));
        assert(ts.skip(k + 1) =~= terms(r));
        if n < 1_000_000_000 {
            assert forall|i: int| 0 <= i < ts.len() implies #[trigger] ts[i] != Term::Billion by {
                if i < k {
                    assert(ts[i] == terms(q)[i]);
                } else if i > k {
                    assert(ts[i] == terms(r)[i - k - 1]);
                }
            }
            lemma_last_pos_absent(ts, Term::Billion);
        }
        if n < 1_000_000 {
            assert forall|i: int| 0 <= i < ts.len() implies #[trigger] ts[i] != Term::Million by {
                if i < k {
                    assert(ts[i] == terms(q)[i]);
                } else if i > k {
                    assert(ts[i] == terms(r)[i - k - 1]);
                }
            }
            lemma_last_pos_absent(ts, Term::Million);
        }
        assert(n == q * d + r);
        assert(value(ts) == n);
    }
}

/// Different numbers are spelled differently: the English words of a number
/// determine it.
pub proof fn lemma_number_words_one_to_one(n: nat, m: nat)
    requires
        n != m,
    ensures
        number_words(n) != number_words(m),
{
    reveal_strlit("zero");
    if n > 0 {
        lemma_spoken_is_render(n);
    }
    if m > 0 {
        lemma_spoken_is_render(m);
    }
    if n > 0 && m > 0 {
        if number_words(n) == number_words(m) {
            lemma_render_injective(terms(n), terms(m));
            lemma_value_of_terms(n);
            lemma_value_of_terms(m);
        }
    } else if n > 0 {
        lemma_not_zero(terms(n));
    } else {
        lemma_not_zero(terms(m));
    }
}

/// No number but zero is spelled "zero".
proof fn lemma_not_zero(ts: Seq<Term>)
    requires
        ts.len() > 0,
        forall|i: int| 0 <= i < ts.len() ==> valid_term(#[trigger] ts[i]),
    ensures
        render(ts) != "zero"@,
{
    reveal_strlit("zero");
    if render(ts) == "zero"@ {
        lemma_render_split(ts);
        lemma_term_letters(ts[0]);
        assert(all_letters("zero"@));
        assert("zero"@ == "zero"@ + Seq::<char>::empty());
        lemma_word_prefix(term_text(ts[0]), render_tail(ts), "zero"@, Seq::<char>::empty());
        lemma_term_text_injective(ts[0], ts[0]);
    }
}


/// The English words of the numbers one to nineteen and of the round tens.
pub proof fn lemma_number_words_dictionary()
    ensures
        number_words(1) == "one"@,
        number_words(2) == "two"@,
        number_words(3) == "three"@,
        number_words(4) == "four"@,
        number_words(5) == "five"@,
        number_words(6) == "six"@,
        number_words(7) == "seven"@,
        number_words(8) == "eight"@,
        number_words(9) == "nine"@,
        number_words(10) == "ten"@,
        number_words(11) == "eleven"@,
        number_words(12) == "twelve"@,
        number_words(13) == "thirteen"@,
        number_words(14) == "fourteen"@,
        number_words(15) == "fifteen"@,
        number_words(16) == "sixteen"@,
        number_words(17) == "seventeen"@,
        number_words(18) == "eighteen"@,
        number_words(19) == "nineteen"@,
        number_words(20) == "twenty"@,
        number_words(30) == "thirty"@,
        number_words(40) == "forty"@,
        number_words(50) == "fifty"@,
        number_words(60) == "sixty"@,
        number_words(70) == "seventy"@,
        number_words(80) == "eighty"@,
        number_words(90) == "ninety"@,
{
}

/// A two-digit number that is not a round ten is spoken as its round ten, a
/// hyphen and its last digit: 35 is "thirty" + "-" + "five".
pub proof fn lemma_number_words_hyphenated(n: nat)
    requires
        20 <= n < 100,
        n % 10 != 0,
    ensures
        number_words(n) == number_words((n - n % 10) as nat) + "-"@ + number_words(n % 10),
{
    let t = (n - n % 10) as nat;
    assert(t % 10 == 0 && t / 10 == n / 10 && 20 <= t < 100);
}

/// Hundreds and groups: a number of a thousand or more is the words of how
/// many billions, millions or thousands it holds, the group word, and the
/// words of the rest when the rest is not zero; from a hundred to 999 it is
/// the digit of the hundreds, "hundred", and the words of the rest.
pub proof fn lemma_number_words_groups(n: nat)
    requires
        100 <= n,
    ensures
        ({
            let (g, w) = if n < 1000 {
                (100nat, " hundred"@)
            } else if n < 1_000_000 {
                (1000nat, " thousand"@)
            } else if n < 1_000_000_000 {
                (1_000_000nat, " million"@)
            } else {
                (1_000_000_000nat, " billion"@)
            };
            number_words(n) == if n % g == 0 {
                number_words(n / g) + w
            } else {
                number_words(n / g) + w + " "@ + number_words(n % g)
            }
        }),
{
    reveal_strlit(" hundred ");
    reveal_strlit(" hundred");
    reveal_strlit(" thousand ");
    reveal_strlit(" thousand");
    reveal_strlit(" million ");
    reveal_strlit(" million");
    reveal_strlit(" billion ");
    reveal_strlit(" billion");
    reveal_strlit(" ");
    if n < 1000 {
        assert(1 <= n / 100 < 10);
        assert(" hundred "@ =~= " hundred"@ + " "@);
        if n % 100 != 0 {
            assert(number_words(n) =~= number_words(n / 100) + " hundred"@ + " "@ + number_words(n % 100));
        }
    } else if n < 1_000_000 {
        assert(n / 1000 >= 1);
        assert(" thousand "@ =~= " thousand"@ + " "@);
        if n % 1000 != 0 {
            assert(number_words(n) =~= number_words(n / 1000) + " thousand"@ + " "@ + number_words(n % 1000));
        }
    } else if n < 1_000_000_000 {
        assert(n / 1_000_000 >= 1);
        assert(" million "@ =~= " million"@ + " "@);
        if n % 1_000_000 != 0 {
            assert(number_words(n) =~= number_words(n / 1_000_000) + " million"@ + " "@ + number_words(n % 1_000_000));
        }
    } else {
        assert(n / 1_000_000_000 >= 1);
        assert(" billion "@ =~= " billion"@ + " "@);
        if n % 1_000_000_000 != 0 {
            assert(number_words(n) =~= number_words(n / 1_000_000_000) + " billion"@ + " "@ + number_words(n % 1_000_000_000));
        }
    }
}

} // verus!
