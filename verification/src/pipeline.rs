//! The stages of turning a recording into translated speech, and what each
//! stage falls back to when its model is missing.
use vstd::prelude::*;
use crate::text::{is_blank, trim};

verus! {

/// Transcription used when no speech recognition model is loaded.
pub const NO_WHISPER_TEXT: &'static str = "No whisper model loaded";

/// Translation used when no translation model is loaded.
pub const NO_TRANSLATOR_TEXT: &'static str = "No translator model loaded";

/// What a run of the pipeline produced, with the time each stage took (ms).
#[derive(Clone, Debug)]
pub struct PipelineResult<S> {
    pub original_text: String,
    pub translated_text: String,
    pub audio_output: Vec<S>,
    pub stt_time: u32,
    pub translation_time: u32,
    pub tts_time: u32,
}

/// How the translation stage goes.
pub enum TranslationStep {
    /// Nothing was said: the translation is empty.
    Skip,
    /// Run the translation model on the transcription.
    Translate,
    /// No translation model: use this text.
    Missing(String),
}

/// The translation stage for a transcription, given whether a translation
/// model is loaded: a blank transcription is not translated.
pub fn plan_translation(transcription: &str, translator_loaded: bool) -> (r: TranslationStep)
    ensures
        trim(transcription@).len() == 0 ==> r is Skip,
        trim(transcription@).len() > 0 && translator_loaded ==> r is Translate,
        trim(transcription@).len() > 0 && !translator_loaded ==> (r matches TranslationStep::Missing(
            t,
        ) && t@ == NO_TRANSLATOR_TEXT@),
{
    if is_blank(transcription) {
        TranslationStep::Skip
    } else if translator_loaded {
        TranslationStep::Translate
    } else {
        TranslationStep::Missing(String::from_str(NO_TRANSLATOR_TEXT))
    }
}

} // verus!
