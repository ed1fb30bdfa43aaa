use voicy::tts::{
    number_to_words_english, numbers_to_words, plan_synthesis, spell_out_runs, wav_header,
    SynthesisPlan,
};

#[test]
fn small_numbers_in_words() {
    assert_eq!(number_to_words_english(0), "zero");
    assert_eq!(number_to_words_english(7), "seven");
    assert_eq!(number_to_words_english(13), "thirteen");
    assert_eq!(number_to_words_english(20), "twenty");
    assert_eq!(number_to_words_english(21), "twenty-one");
    assert_eq!(number_to_words_english(99), "ninety-nine");
}

#[test]
fn hundreds_and_groups_in_words() {
    assert_eq!(number_to_words_english(100), "one hundred");
    assert_eq!(number_to_words_english(105), "one hundred five");
    assert_eq!(number_to_words_english(999), "nine hundred ninety-nine");
    assert_eq!(number_to_words_english(1000), "one thousand");
    assert_eq!(number_to_words_english(1001), "one thousand one");
    assert_eq!(number_to_words_english(12345), "twelve thousand three hundred forty-five");
    assert_eq!(number_to_words_english(1_000_000), "one million");
    assert_eq!(number_to_words_english(2_000_003), "two million three");
    assert_eq!(number_to_words_english(1_000_000_000), "one billion");
    assert_eq!(number_to_words_english(1_000_001_000), "one billion one thousand");
    assert_eq!(number_to_words_english(7_000_000_000_000), "seven thousand billion");
}

#[test]
fn largest_number_in_words() {
    assert_eq!(
        number_to_words_english(u64::MAX),
        "eighteen billion four hundred forty-six million seven hundred forty-four thousand \
         seventy-three billion seven hundred nine million five hundred fifty-one thousand six \
         hundred fifteen"
    );
}

#[test]
fn numbers_in_text_are_spelled_out() {
    assert_eq!(numbers_to_words("I have 3 cats"), "I have three cats");
    assert_eq!(numbers_to_words("room 101, floor 2"), "room one hundred one, floor two");
    assert_eq!(numbers_to_words("no digits here"), "no digits here");
    assert_eq!(numbers_to_words(""), "");
}

#[test]
fn each_run_replaces_all_its_occurrences() {
    // The run "1" is replaced everywhere first, also inside "12".
    assert_eq!(numbers_to_words("1 and 12"), "one and one2");
}

#[test]
fn runs_too_large_are_kept() {
    assert_eq!(numbers_to_words("x 99999999999999999999 y"), "x 99999999999999999999 y");
}

#[test]
fn given_runs_are_spelled_in_order() {
    let runs = vec!["12".to_string(), "abc".to_string(), "1".to_string()];
    assert_eq!(spell_out_runs("1 and 12", &runs), "one and twelve");
    assert_eq!(spell_out_runs("1 and 12", &vec![]), "1 and 12");
}

#[test]
fn synthesis_plans() {
    assert!(matches!(plan_synthesis("   ", true, Some(50000)), SynthesisPlan::Silence));
    assert!(matches!(plan_synthesis("", false, None), SynthesisPlan::Silence));
    match plan_synthesis("hello there world", false, None) {
        SynthesisPlan::Placeholder { words } => assert_eq!(words, 3),
        _ => panic!("expected a placeholder"),
    }
    match plan_synthesis("call 911 now", true, Some(16001)) {
        SynthesisPlan::Speak { text, with_reference } => {
            assert_eq!(text, "call nine hundred eleven now");
            assert!(with_reference);
        }
        _ => panic!("expected speech"),
    }
    match plan_synthesis("ok", true, Some(16000)) {
        SynthesisPlan::Speak { with_reference, .. } => assert!(!with_reference),
        _ => panic!("expected speech"),
    }
    match plan_synthesis("ok", true, None) {
        SynthesisPlan::Speak { with_reference, .. } => assert!(!with_reference),
        _ => panic!("expected speech"),
    }
}

#[test]
fn wav_header_bytes() {
    let h = wav_header(10);
    assert_eq!(h.len(), 44);
    assert_eq!(&h[0..4], b"RIFF");
    assert_eq!(&h[4..8], &(36u32 + 40).to_le_bytes());
    assert_eq!(&h[8..12], b"WAVE");
    assert_eq!(&h[12..16], b"fmt ");
    assert_eq!(&h[16..20], &16u32.to_le_bytes());
    assert_eq!(&h[20..22], &3u16.to_le_bytes());
    assert_eq!(&h[22..24], &1u16.to_le_bytes());
    assert_eq!(&h[24..28], &24000u32.to_le_bytes());
    assert_eq!(&h[28..32], &96000u32.to_le_bytes());
    assert_eq!(&h[32..34], &4u16.to_le_bytes());
    assert_eq!(&h[34..36], &32u16.to_le_bytes());
    assert_eq!(&h[36..40], b"data");
    assert_eq!(&h[40..44], &40u32.to_le_bytes());
}

#[test]
fn wav_header_large_recording() {
    let h = wav_header(1_000_000);
    assert_eq!(&h[4..8], &4_000_036u32.to_le_bytes());
    assert_eq!(&h[40..44], &4_000_000u32.to_le_bytes());
}

fn is_well_spelled(s: &str) -> bool {
    let b = s.as_bytes();
    let letter = |c: u8| c.is_ascii_lowercase();
    let sep = |c: u8| c == b' ' || c == b'-';
    !b.is_empty()
        && letter(b[0])
        && letter(b[b.len() - 1])
        && b.iter().all(|&c| letter(c) || sep(c))
        && b.windows(2).all(|w| !(sep(w[0]) && sep(w[1])))
}

#[test]
fn number_words_are_well_spelled() {
    let samples: Vec<u64> = vec![
        0, 1, 9, 10, 15, 20, 40, 47, 100, 101, 110, 120, 999, 1000, 1001, 1020, 21_000,
        100_000, 1_000_000, 1_000_001, 7_000_000_000, 18_446_744_073_709_551_615,
    ];
    for n in samples {
        let w = number_to_words_english(n);
        assert!(is_well_spelled(&w), "{} gave {:?}", n, w);
        assert_eq!(w == "zero", n == 0);
    }
}

#[test]
fn different_numbers_give_different_words() {
    let mut seen: Vec<(u64, String)> = Vec::new();
    let mut n: u64 = 0;
    while n < 3000 {
        seen.push((n, number_to_words_english(n)));
        n += 1;
    }
    for big in [1_000_000u64, 1_000_000_000, 1_001_000, 2_000_000_000] {
        seen.push((big, number_to_words_english(big)));
    }
    let mut words: Vec<&String> = seen.iter().map(|(_, w)| w).collect();
    words.sort();
    let before = words.len();
    words.dedup();
    assert_eq!(words.len(), before);
}
