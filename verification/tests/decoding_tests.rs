use voicy::pipeline::{plan_translation, TranslationStep};
use voicy::translate::{
    clean_output, clean_piece, target_language_name, translation_prompt, untranslated,
    TranslationDecoder,
};
use voicy::whisper::{transcription_shortcut, PromptTokens, WhisperDecoder, NOT_LOADED_TRANSCRIPTION};

#[test]
fn language_names() {
    assert_eq!(target_language_name("en"), "English");
    assert_eq!(target_language_name("pt"), "Portuguese");
    assert_eq!(target_language_name("es"), "Spanish");
    assert_eq!(target_language_name("fr"), "English");
}

#[test]
fn prompt_layout() {
    assert_eq!(
        translation_prompt("Olá mundo", "en"),
        "<start_of_turn>user\nTranslate the following text to English:\n\nOlá mundo<end_of_turn>\n<start_of_turn>model\n"
    );
    assert_eq!(untranslated("Olá"), "[Translator not loaded] Olá");
}

#[test]
fn pieces_and_output_cleaning() {
    let p: String = clean_piece("\u{2581}Hello\u{0120}x").iter().collect();
    assert_eq!(p, " Hello x");
    let out: Vec<char> = "  <start_of_turn>Hi<eos> there<end_of_turn>  ".chars().collect();
    assert_eq!(clean_output(&out), "Hi there");
}

#[test]
fn translation_decoding_stops_at_end_of_turn() {
    let mut d = TranslationDecoder::new(vec![2, 10, 11]);
    assert_eq!(d.input_start(), 0);
    d.accept(100, Some("\u{2581}Hello"));
    assert_eq!(d.input_start(), 3);
    d.accept(101, None);
    d.accept(102, Some("\u{2581}world"));
    assert!(!d.is_finished());
    d.accept(1, Some("<end_of_turn>"));
    assert!(d.is_finished());
    assert_eq!(d.tokens(), &vec![2, 10, 11, 100, 101, 102, 1]);
    assert_eq!(d.result(), "Hello world");
}

#[test]
fn translation_decoding_budget() {
    let mut d = TranslationDecoder::new(vec![1]);
    let mut n = 0;
    while !d.is_finished() {
        d.accept(5, Some("a"));
        n += 1;
    }
    assert_eq!(n, 512);
    assert_eq!(d.result().len(), 512);
}

#[test]
fn translation_decoding_abort() {
    let mut d = TranslationDecoder::new(vec![1]);
    d.accept(5, Some(" ok "));
    d.abort();
    assert!(d.is_finished());
    assert_eq!(d.result(), "ok");
}

#[test]
fn whisper_decoding() {
    let prompt = PromptTokens { sot: 1, language: Some(2), transcribe: 3, no_timestamps: 4 };
    let mut d = WhisperDecoder::new(prompt, 9, 448);
    assert_eq!(d.tokens(), &vec![1, 2, 3, 4]);
    assert!(d.is_first_step());
    d.accept(50);
    assert!(!d.is_first_step());
    assert!(!d.is_finished());
    d.accept(9);
    assert!(d.is_finished());
    assert_eq!(d.tokens(), &vec![1, 2, 3, 4, 50, 9]);
}

#[test]
fn whisper_language_fallback_and_limits() {
    let prompt = PromptTokens { sot: 1, language: None, transcribe: 3, no_timestamps: 4 };
    let mut d = WhisperDecoder::new(prompt, 9, 6);
    assert_eq!(d.tokens(), &vec![1, 1, 3, 4]);
    d.accept(7);
    d.accept(7);
    assert!(!d.is_finished());
    d.accept(7);
    assert!(d.is_finished());
    let empty = WhisperDecoder::new(PromptTokens { sot: 1, language: None, transcribe: 3, no_timestamps: 4 }, 9, 1);
    assert!(empty.is_finished());
}

#[test]
fn whisper_positions_limit() {
    let prompt = PromptTokens { sot: 1, language: Some(2), transcribe: 3, no_timestamps: 4 };
    let mut d = WhisperDecoder::new(prompt, 9, 4);
    assert!(!d.is_finished());
    d.accept(7);
    assert!(d.is_finished());
    assert_eq!(d.tokens().len(), 5);
}

#[test]
fn transcription_shortcuts() {
    assert_eq!(transcription_shortcut(false, 100), Some(NOT_LOADED_TRANSCRIPTION));
    assert_eq!(transcription_shortcut(true, 0), Some(""));
    assert_eq!(transcription_shortcut(true, 1), None);
}

#[test]
fn translation_steps() {
    assert!(matches!(plan_translation("  ", false), TranslationStep::Skip));
    assert!(matches!(plan_translation("oi", true), TranslationStep::Translate));
    match plan_translation("oi", false) {
        TranslationStep::Missing(t) => assert_eq!(t, "No translator model loaded"),
        _ => panic!("expected the placeholder"),
    }
}
