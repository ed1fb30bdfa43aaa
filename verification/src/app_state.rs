//! The application state and how each command changes it.
//!
//! Each command of the interface is a decision on this state: the work that
//! happens between the steps (opening the microphone, running the models)
//! is done outside, which hands the outcome back to the next step.
use vstd::prelude::*;
use crate::hardware::{HardwareInfo, opt_view};
use crate::text::same_text;

verus! {

/// How captured speech is used.
#[derive(Clone, Copy, Debug, PartialEq, Eq, Structural)]
pub enum OperationMode {
    Auto,
    Manual,
    Live,
    Transcription,
}

/// What the application is doing.
#[derive(Clone, Debug)]
pub enum AppStatus {
    Idle,
    Loading,
    Ready,
    Recording,
    Processing,
    Error(String),
}

/// The name of a mode, as the interface shows and sends it.
pub open spec fn mode_name(mode: OperationMode) -> Seq<char> {
    match mode {
        OperationMode::Auto => "auto"@,
        OperationMode::Manual => "manual"@,
        OperationMode::Live => "live"@,
        OperationMode::Transcription => "transcription"@,
    }
}

/// The mode with the given name, if any.
pub open spec fn mode_named(name: Seq<char>) -> Option<OperationMode> {
    if name == "auto"@ {
        Some(OperationMode::Auto)
    } else if name == "manual"@ {
        Some(OperationMode::Manual)
    } else if name == "live"@ {
        Some(OperationMode::Live)
    } else if name == "transcription"@ {
        Some(OperationMode::Transcription)
    } else {
        None
    }
}

/// The name of a status; an error has none (it is reported as an error).
pub open spec fn status_name(status: AppStatus) -> Option<Seq<char>> {
    match status {
        AppStatus::Idle => Some("idle"@),
        AppStatus::Loading => Some("loading"@),
        AppStatus::Ready => Some("ready"@),
        AppStatus::Recording => Some("recording"@),
        AppStatus::Processing => Some("processing"@),
        AppStatus::Error(_) => None,
    }
}

/// The name of `mode`.
pub fn mode_label(mode: OperationMode) -> (r: &'static str)
    ensures
        r@ == mode_name(mode),
{
    match mode {
        OperationMode::Auto => "auto",
        OperationMode::Manual => "manual",
        OperationMode::Live => "live",
        OperationMode::Transcription => "transcription",
    }
}

/// The mode named `name`, `None` for any other text.
pub fn parse_mode(name: &str) -> (r: Option<OperationMode>)
    ensures
        r == mode_named(name@),
{
    if same_text(name, "auto") {
        Some(OperationMode::Auto)
    } else if same_text(name, "manual") {
        Some(OperationMode::Manual)
    } else if same_text(name, "live") {
        Some(OperationMode::Live)
    } else if same_text(name, "transcription") {
        Some(OperationMode::Transcription)
    } else {
        None
    }
}

/// The name of `status`, `None` for an error.
pub fn status_label(status: &AppStatus) -> (r: Option<&'static str>)
    ensures
        match r {
            Some(s) => status_name(*status) == Some(s@),
            None => status_name(*status) is None,
        },
{
    match status {
        AppStatus::Idle => Some("idle"),
        AppStatus::Loading => Some("loading"),
        AppStatus::Ready => Some("ready"),
        AppStatus::Recording => Some("recording"),
        AppStatus::Processing => Some("processing"),
        AppStatus::Error(_) => None,
    }
}

/// The distinct names of the modes, and so the modes as named: a mode read
/// back from its own name is that mode.
pub proof fn lemma_mode_name_round_trip(mode: OperationMode)
    ensures
        mode_named(mode_name(mode)) == Some(mode),
{
    reveal_strlit("auto");
    reveal_strlit("manual");
    reveal_strlit("live");
    reveal_strlit("transcription");
    assert("auto"@.len() == 4);
    assert("manual"@.len() == 6);
    assert("live"@.len() == 4 && "live"@[0] != "auto"@[0]);
    assert("transcription"@.len() == 13);
}

/// What the interface shows of the state.
#[derive(Debug)]
pub struct StatusResponse {
    pub status: String,
    pub mode: String,
    pub has_cuda: bool,
    pub gpu_name: Option<String>,
    pub last_transcription: Option<String>,
    pub last_translation: Option<String>,
}

/// The names of the audio devices, for the device pickers.
pub struct AudioDevices {
    pub inputs: Vec<String>,
    pub outputs: Vec<String>,
}

/// The next step of starting a capture.
pub enum StartCapture {
    /// Open the microphone, then report with `capture_launched`.
    Launch,
    /// Reply with this; nothing more to do.
    Reply(Result<String, String>),
}

/// The next step of stopping a capture.
pub enum StopCapture {
    /// Run the recording through the pipeline (then report with
    /// `finish_processing`) and reply with this.
    Process(String),
    /// Reply with this; nothing more to do.
    Reply(Result<String, String>),
}

/// How processing a recording ended.
pub enum ProcessingOutcome {
    /// The pipeline gave the transcription and the translation.
    Done { original: String, translated: String },
    /// The pipeline failed with this message.
    Failed(String),
    /// There was no pipeline to run.
    NoPipeline,
}

/// The optional view of an optional string.
pub open spec fn text_of(s: Option<String>) -> Option<Seq<char>> {
    opt_view(s)
}

/// The state of the application: `C` is its configuration, `P` the loaded
/// pipeline and `A` the last synthesised audio.
pub struct AppStateData<C, P, A> {
    pub status: AppStatus,
    pub mode: OperationMode,
    pub source_language: String,
    pub target_language: String,
    pub hardware_info: HardwareInfo,
    pub config: C,
    pub last_transcription: Option<String>,
    pub last_translation: Option<String>,
    pub last_audio: Option<A>,
    pub pipeline: Option<P>,
    pub stt_time: u32,
    pub translation_time: u32,
    pub tts_time: u32,
}

/// `a` followed by `b`.
fn joined(a: &str, b: &str) -> (r: String)
    ensures
        r@ == a@ + b@,
{
    String::from_str(a).concat(b)
}

impl<C, P, A> AppStateData<C, P, A> {
    /// Everything but the status and the two texts shown is as in `other`.
    pub open spec fn same_settings(&self, other: &Self) -> bool {
        &&& self.mode == other.mode
        &&& self.source_language == other.source_language
        &&& self.target_language == other.target_language
        &&& self.hardware_info == other.hardware_info
        &&& self.config == other.config
        &&& self.last_audio == other.last_audio
        &&& self.pipeline == other.pipeline
        &&& self.stt_time == other.stt_time
        &&& self.translation_time == other.translation_time
        &&& self.tts_time == other.tts_time
    }

    /// The state at start-up, while the models load.
    pub fn new(hardware_info: HardwareInfo, config: C) -> (r: Self)
        ensures
            r.status is Loading,
            r.mode == OperationMode::Auto,
            r.source_language@ == "auto"@,
            r.target_language@ == "en"@,
            r.hardware_info == hardware_info,
            r.config == config,
            text_of(r.last_transcription) == Some("Carregando modelos..."@),
            text_of(r.last_translation) == Some("Aguarde..."@),
            r.last_audio is None,
            r.pipeline is None,
            r.stt_time == 0 && r.translation_time == 0 && r.tts_time == 0,
    {
        AppStateData {
            status: AppStatus::Loading,
            mode: OperationMode::Auto,
            source_language: String::from_str("auto"),
            target_language: String::from_str("en"),
            hardware_info,
            config,
            last_transcription: Some(String::from_str("Carregando modelos...")),
            last_translation: Some(String::from_str("Aguarde...")),
            last_audio: None,
            pipeline: None,
            stt_time: 0,
            translation_time: 0,
            tts_time: 0,
        }
    }

    /// What `get_status` reports: the names of status and mode with the
    /// hardware and the last texts; an error status is reported as the error
    /// "Error: <message>".
    pub fn status_response(&self) -> (r: Result<StatusResponse, String>)
        ensures
            r is Err <==> self.status is Error,
            r matches Err(e) ==> e@ == "Error: "@ + self.status->Error_0@,
            r matches Ok(s) ==> {
                &&& Some(s.status@) == status_name(self.status)
                &&& s.mode@ == mode_name(self.mode)
                &&& s.has_cuda == self.hardware_info.has_cuda
                &&& text_of(s.gpu_name) == text_of(self.hardware_info.gpu_name)
                &&& text_of(s.last_transcription) == text_of(self.last_transcription)
                &&& text_of(s.last_translation) == text_of(self.last_translation)
            },
    {
        let status = match &self.status {
            AppStatus::Error(e) => {
                return Err(joined("Error: ", e.as_str()));
            },
            other => match status_label(other) {
                Some(s) => String::from_str(s),
                None => String::new(),
            },
        };
        Ok(StatusResponse {
            status,
            mode: String::from_str(mode_label(self.mode)),
            has_cuda: self.hardware_info.has_cuda,
            gpu_name: self.hardware_info.gpu_name.clone(),
            last_transcription: self.last_transcription.clone(),
            last_translation: self.last_translation.clone(),
        })
    }

    /// Sets the language spoken into the microphone.
    pub fn set_source_language(&mut self, language: String) -> (r: Result<String, String>)
        ensures
            *final(self) == (AppStateData { source_language: language, ..*old(self) }),
            r matches Ok(m) && m@ == "Language set"@,
    {
        self.source_language = language;
        Ok(String::from_str("Language set"))
    }

    /// Sets the language to translate into.
    pub fn set_target_language(&mut self, language: String) -> (r: Result<String, String>)
        ensures
            *final(self) == (AppStateData { target_language: language, ..*old(self) }),
            r matches Ok(m) && m@ == "Language set"@,
    {
        self.target_language = language;
        Ok(String::from_str("Language set"))
    }

    /// Sets the mode by its name; an unknown name is refused and the mode
    /// kept.
    pub fn set_mode(&mut self, mode: &str) -> (r: Result<String, String>)
        ensures
            r is Ok <==> mode_named(mode@) is Some,
            r matches Ok(m) ==> m@ == "Mode set"@ && *final(self) == (AppStateData {
                mode: mode_named(mode@)->0,
                ..*old(self)
            }),
            r matches Err(e) ==> e@ == "Invalid mode"@ && *final(self) == *old(self),
    {
        match parse_mode(mode) {
            Some(m) => {
                self.mode = m;
                Ok(String::from_str("Mode set"))
            },
            None => Err(String::from_str("Invalid mode")),
        }
    }

    /// The configuration.
    pub fn get_config(&self) -> (r: &C)
        ensures
            *r == self.config,
    {
        &self.config
    }

    /// Replaces the configuration.
    pub fn save_config(&mut self, config: C) -> (r: Result<String, String>)
        ensures
            *final(self) == (AppStateData { config: config, ..*old(self) }),
            r matches Ok(m) && m@ == "Config saved"@,
    {
        self.config = config;
        Ok(String::from_str("Config saved"))
    }

    /// First step of `start_capture`: refused while capturing; otherwise the
    /// outcome of probing for an input device decides: a device found means
    /// the microphone is to be opened; none found, or a failed probe, is
    /// replied with an error and shown.
    pub fn start_capture(&mut self, capturing: bool, probe: Result<bool, String>) -> (r:
        StartCapture)
        ensures
            capturing ==> (r matches StartCapture::Reply(Err(e)) && e@ == "Already capturing"@),
            !capturing && probe == Ok::<bool, String>(true) ==> r is Launch,
            capturing || probe == Ok::<bool, String>(true) ==> *final(self) == *old(self),
            final(self).same_settings(old(self)),
            !capturing && probe == Ok::<bool, String>(false) ==> {
                &&& r matches StartCapture::Reply(Err(e)) && e@
                    == "Nenhum dispositivo de audio encontrado"@
                &&& text_of(final(self).last_transcription) == Some(
                    "⚠️ Nenhum microfone encontrado"@,
                )
                &&& text_of(final(self).last_translation) == Some(
                    "Verifique as conexoes de audio"@,
                )
            },
            !capturing && probe is Err ==> {
                &&& r matches StartCapture::Reply(Err(e)) && e@ == "Failed to start capture: "@
                    + probe->Err_0@
                &&& final(self).status matches AppStatus::Error(m) && m@ == probe->Err_0@
            },
            !(!capturing && probe is Err) ==> final(self).status == old(self).status,
            !capturing && probe is Err ==> final(self).last_transcription == old(
                self,
            ).last_transcription && final(self).last_translation == old(self).last_translation,
    {
        if capturing {
            return StartCapture::Reply(Err(String::from_str("Already capturing")));
        }
        match probe {
            Ok(true) => StartCapture::Launch,
            Ok(false) => {
                self.last_transcription = Some(String::from_str("⚠️ Nenhum microfone encontrado"));
                self.last_translation = Some(String::from_str("Verifique as conexoes de audio"));
                StartCapture::Reply(Err(String::from_str("Nenhum dispositivo de audio encontrado")))
            },
            Err(e) => {
                let reply = joined("Failed to start capture: ", e.as_str());
                self.status = AppStatus::Error(e);
                StartCapture::Reply(Err(reply))
            },
        }
    }

    /// Second step of `start_capture`, once the microphone was opened or
    /// failed to open.
    pub fn capture_launched(&mut self, launched: Result<(), String>) -> (r: Result<
        String,
        String,
    >)
        ensures
            launched is Ok ==> {
                &&& r matches Ok(m) && m@ == "Capture started"@
                &&& final(self).status is Recording
                &&& text_of(final(self).last_transcription) == Some("🎤 Capturando audio..."@)
                &&& text_of(final(self).last_translation) == Some("Gravando..."@)
            },
            launched is Err ==> {
                &&& r matches Err(e) && e == launched->Err_0
                &&& final(self).status == old(self).status
                &&& text_of(final(self).last_transcription) == Some(
                    "⚠️ Erro: "@ + launched->Err_0@,
                )
                &&& text_of(final(self).last_translation) == Some("Falha ao iniciar captura"@)
            },
            final(self).same_settings(old(self)),
    {
        match launched {
            Ok(()) => {
                self.status = AppStatus::Recording;
                self.last_transcription = Some(String::from_str("🎤 Capturando audio..."));
                self.last_translation = Some(String::from_str("Gravando..."));
                Ok(String::from_str("Capture started"))
            },
            Err(e) => {
                self.last_transcription = Some(joined("⚠️ Erro: ", e.as_str()));
                self.last_translation = Some(String::from_str("Falha ao iniciar captura"));
                Err(e)
            },
        }
    }

    /// `stop_capture`, once capture was stopped (with the number of samples
    /// recorded) or the stop was refused: a recording with samples goes to
    /// processing; an empty one, or a refused stop, leaves the state ready.
    pub fn capture_stopped(&mut self, stopped: Result<usize, String>) -> (r: StopCapture)
        ensures
            stopped is Err ==> {
                &&& r matches StopCapture::Reply(Err(e)) && e == stopped->Err_0
                &&& final(self).status is Ready
                &&& text_of(final(self).last_transcription) == Some("Erro: "@ + stopped->Err_0@)
                &&& final(self).last_translation == old(self).last_translation
            },
            stopped matches Ok(n) && n > 0 ==> {
                &&& r matches StopCapture::Process(m) && m@
                    == "Capture stopped and processing started"@
                &&& final(self).status is Processing
                &&& text_of(final(self).last_transcription) == Some("Processando áudio..."@)
                &&& final(self).last_translation == old(self).last_translation
            },
            stopped matches Ok(n) && n == 0 ==> {
                &&& r matches StopCapture::Reply(Ok(m)) && m@ == "Capture stopped (no audio)"@
                &&& final(self).status is Ready
                &&& text_of(final(self).last_transcription) == Some(
                    "Captura encerrada (sem áudio)"@,
                )
                &&& text_of(final(self).last_translation) == Some("Pronto para nova captura"@)
            },
            final(self).same_settings(old(self)),
    {
        match stopped {
            Err(e) => {
                self.status = AppStatus::Ready;
                self.last_transcription = Some(joined("Erro: ", e.as_str()));
                StopCapture::Reply(Err(e))
            },
            Ok(n) => {
                if n > 0 {
                    self.status = AppStatus::Processing;
                    self.last_transcription = Some(String::from_str("Processando áudio..."));
                    StopCapture::Process(String::from_str("Capture stopped and processing started"))
                } else {
                    self.status = AppStatus::Ready;
                    self.last_transcription = Some(
                        String::from_str("Captura encerrada (sem áudio)"),
                    );
                    self.last_translation = Some(String::from_str("Pronto para nova captura"));
                    StopCapture::Reply(Ok(String::from_str("Capture stopped (no audio)")))
                }
            },
        }
    }

    /// The end of processing a recording: the state is ready again and shows
    /// the texts, or the failure.
    pub fn finish_processing(&mut self, outcome: ProcessingOutcome)
        ensures
            final(self).status is Ready,
            outcome matches ProcessingOutcome::Done { original, translated } ==> {
                &&& text_of(final(self).last_transcription) == Some(original@)
                &&& text_of(final(self).last_translation) == Some(translated@)
            },
            outcome matches ProcessingOutcome::Failed(e) ==> {
                &&& text_of(final(self).last_transcription) == Some(
                    "Erro de processamento: "@ + e@,
                )
                &&& final(self).last_translation == old(self).last_translation
            },
            outcome is NoPipeline ==> {
                &&& text_of(final(self).last_transcription) == Some(
                    "Erro: Pipeline não inicializado"@,
                )
                &&& final(self).last_translation == old(self).last_translation
            },
            final(self).same_settings(old(self)),
    {
        self.status = AppStatus::Ready;
        match outcome {
            ProcessingOutcome::Done { original, translated } => {
                self.last_transcription = Some(original);
                self.last_translation = Some(translated);
            },
            ProcessingOutcome::Failed(e) => {
                self.last_transcription = Some(joined("Erro de processamento: ", e.as_str()));
            },
            ProcessingOutcome::NoPipeline => {
                self.last_transcription = Some(String::from_str("Erro: Pipeline não inicializado"));
            },
        }
    }

    /// The models loaded at start-up: the pipeline is kept and the state is
    /// ready.
    pub fn models_loaded(&mut self, pipeline: P)
        ensures
            final(self).pipeline == Some(pipeline),
            final(self).status is Ready,
            text_of(final(self).last_transcription) == Some("Sistema Pronto"@),
            text_of(final(self).last_translation) == Some("Modelos Carregados"@),
            (AppStateData { pipeline: old(self).pipeline, ..*final(self) }).same_settings(old(self)),
    {
        self.pipeline = Some(pipeline);
        self.status = AppStatus::Ready;
        self.last_transcription = Some(String::from_str("Sistema Pronto"));
        self.last_translation = Some(String::from_str("Modelos Carregados"));
    }

    /// The models failed to load at start-up.
    pub fn models_failed(&mut self, error: &str)
        ensures
            final(self).status matches AppStatus::Error(m) && m@ == "Model load failed: "@
                + error@,
            final(self).same_settings(old(self)),
            final(self).last_transcription == old(self).last_transcription,
            final(self).last_translation == old(self).last_translation,
    {
        self.status = AppStatus::Error(joined("Model load failed: ", error));
    }

    /// The end of `reload_models`: `None` when there was no pipeline to
    /// reload, else how the reload went.
    pub fn models_reloaded(&mut self, reloaded: Option<Result<(), String>>) -> (r: Result<
        String,
        String,
    >)
        ensures
            reloaded is None ==> (r matches Err(e) && e@ == "Pipeline not initialized"@),
            reloaded matches Some(Err(e)) ==> r == Err::<String, String>(e),
            reloaded matches Some(Ok(())) ==> {
                &&& r matches Ok(m) && m@ == "Reloaded"@
                &&& text_of(final(self).last_transcription) == Some("Sistema Pronto"@)
                &&& text_of(final(self).last_translation) == Some("Modelos Carregados e Prontos"@)
            },
            !(reloaded matches Some(Ok(()))) ==> *final(self) == *old(self),
            final(self).status == old(self).status,
            final(self).same_settings(old(self)),
    {
        match reloaded {
            None => Err(String::from_str("Pipeline not initialized")),
            Some(Err(e)) => Err(e),
            Some(Ok(())) => {
                self.last_transcription = Some(String::from_str("Sistema Pronto"));
                self.last_translation = Some(String::from_str("Modelos Carregados e Prontos"));
                Ok(String::from_str("Reloaded"))
            },
        }
    }
}

/// A mode set by its name is reported under that name: after a successful
/// `set_mode(name)`, the mode's name is `name`.
pub proof fn lemma_set_mode_reported(name: Seq<char>)
    requires
        mode_named(name) is Some,
    ensures
        mode_name(mode_named(name)->0) == name,
{
}

/// Each status is reported under its own name, and a name reported
/// belongs to that status only; an error has no name.
pub proof fn lemma_status_names(status: AppStatus)
    ensures
        (status is Idle) <==> status_name(status) == Some("idle"@),
        (status is Loading) <==> status_name(status) == Some("loading"@),
        (status is Ready) <==> status_name(status) == Some("ready"@),
        (status is Recording) <==> status_name(status) == Some("recording"@),
        (status is Processing) <==> status_name(status) == Some("processing"@),
        (status is Error) <==> status_name(status) is None,
{
    reveal_strlit("idle");
    reveal_strlit("loading");
    reveal_strlit("ready");
    reveal_strlit("recording");
    reveal_strlit("processing");
    assert("idle"@.len() == 4 && "ready"@.len() == 5 && "loading"@.len() == 7);
    assert("recording"@.len() == 9 && "processing"@.len() == 10);
}

/// The modes are named "auto", "manual", "live" and "transcription": each
/// of these names selects its own mode, no other text selects any, and each
/// mode is shown under its own name.
pub proof fn lemma_mode_names(name: Seq<char>, mode: OperationMode)
    ensures
        mode_named(name) == Some(OperationMode::Auto) <==> name == "auto"@,
        mode_named(name) == Some(OperationMode::Manual) <==> name == "manual"@,
        mode_named(name) == Some(OperationMode::Live) <==> name == "live"@,
        mode_named(name) == Some(OperationMode::Transcription) <==> name == "transcription"@,
        mode_named(name) is None <==> (name != "auto"@ && name != "manual"@ && name != "live"@
            && name != "transcription"@),
        (mode == OperationMode::Auto) <==> mode_name(mode) == "auto"@,
        (mode == OperationMode::Manual) <==> mode_name(mode) == "manual"@,
        (mode == OperationMode::Live) <==> mode_name(mode) == "live"@,
        (mode == OperationMode::Transcription) <==> mode_name(mode) == "transcription"@,
{
    reveal_strlit("auto");
    reveal_strlit("manual");
    reveal_strlit("live");
    reveal_strlit("transcription");
    assert("auto"@.len() == 4 && "manual"@.len() == 6 && "transcription"@.len() == 13);
    assert("live"@.len() == 4 && "live"@[0] != "auto"@[0]);
}

} // verus!
