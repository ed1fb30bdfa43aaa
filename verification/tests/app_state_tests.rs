use voicy::app_state::{
    mode_label, parse_mode, status_label, AppStateData, AppStatus, OperationMode,
    ProcessingOutcome, StartCapture, StopCapture,
};
use voicy::hardware::HardwareInfo;

fn state() -> AppStateData<u8, u8, u8> {
    AppStateData::new(HardwareInfo::detect_from(None, None, None, None, None), 0u8)
}

#[test]
fn start_up_state() {
    let st = state();
    assert!(matches!(st.status, AppStatus::Loading));
    assert_eq!(st.mode, OperationMode::Auto);
    assert_eq!(st.source_language, "auto");
    assert_eq!(st.target_language, "en");
    assert_eq!(st.last_transcription.as_deref(), Some("Carregando modelos..."));
    assert_eq!(st.last_translation.as_deref(), Some("Aguarde..."));
    assert!(st.pipeline.is_none());
}

#[test]
fn status_reported_by_name() {
    let mut st = state();
    st.models_loaded(1);
    let r = st.status_response().unwrap();
    assert_eq!(r.status, "ready");
    assert_eq!(r.mode, "auto");
    assert!(!r.has_cuda);
    assert_eq!(r.last_transcription.as_deref(), Some("Sistema Pronto"));
    assert_eq!(r.last_translation.as_deref(), Some("Modelos Carregados"));
}

#[test]
fn error_status_is_reported_as_error() {
    let mut st = state();
    st.models_failed("disk full");
    match &st.status {
        AppStatus::Error(m) => assert_eq!(m, "Model load failed: disk full"),
        _ => panic!("expected an error"),
    }
    assert_eq!(st.status_response().err(), Some("Error: Model load failed: disk full".to_string()));
}

#[test]
fn mode_names_round_trip() {
    for m in [OperationMode::Auto, OperationMode::Manual, OperationMode::Live, OperationMode::Transcription] {
        assert_eq!(parse_mode(mode_label(m)), Some(m));
    }
    assert_eq!(parse_mode("push-to-talk"), None);
    assert_eq!(status_label(&AppStatus::Idle), Some("idle"));
    assert_eq!(status_label(&AppStatus::Error("x".to_string())), None);
}

#[test]
fn setting_modes() {
    let mut st = state();
    assert_eq!(st.set_mode("live"), Ok("Mode set".to_string()));
    assert_eq!(st.mode, OperationMode::Live);
    assert_eq!(st.status_response().unwrap().mode, "live");
    assert_eq!(st.set_mode("LIVE"), Err("Invalid mode".to_string()));
    assert_eq!(st.mode, OperationMode::Live);
}

#[test]
fn setting_languages_and_config() {
    let mut st = state();
    assert_eq!(st.set_source_language("pt".to_string()), Ok("Language set".to_string()));
    assert_eq!(st.set_target_language("es".to_string()), Ok("Language set".to_string()));
    assert_eq!(st.source_language, "pt");
    assert_eq!(st.target_language, "es");
    assert_eq!(st.save_config(9), Ok("Config saved".to_string()));
    assert_eq!(*st.get_config(), 9);
}

#[test]
fn start_refused_while_capturing() {
    let mut st = state();
    match st.start_capture(true, Ok(true)) {
        StartCapture::Reply(r) => assert_eq!(r, Err("Already capturing".to_string())),
        StartCapture::Launch => panic!("must not launch"),
    }
}

#[test]
fn start_without_microphone() {
    let mut st = state();
    match st.start_capture(false, Ok(false)) {
        StartCapture::Reply(r) => assert_eq!(r, Err("Nenhum dispositivo de audio encontrado".to_string())),
        StartCapture::Launch => panic!("must not launch"),
    }
    assert_eq!(st.last_transcription.as_deref(), Some("⚠️ Nenhum microfone encontrado"));
    assert_eq!(st.last_translation.as_deref(), Some("Verifique as conexoes de audio"));
}

#[test]
fn start_with_failed_probe() {
    let mut st = state();
    match st.start_capture(false, Err("host error".to_string())) {
        StartCapture::Reply(r) => assert_eq!(r, Err("Failed to start capture: host error".to_string())),
        StartCapture::Launch => panic!("must not launch"),
    }
    assert!(matches!(&st.status, AppStatus::Error(m) if m == "host error"));
}

#[test]
fn start_and_launch() {
    let mut st = state();
    assert!(matches!(st.start_capture(false, Ok(true)), StartCapture::Launch));
    assert_eq!(st.capture_launched(Ok(())), Ok("Capture started".to_string()));
    assert!(matches!(st.status, AppStatus::Recording));
    assert_eq!(st.last_transcription.as_deref(), Some("🎤 Capturando audio..."));
    assert_eq!(st.last_translation.as_deref(), Some("Gravando..."));
}

#[test]
fn launch_failure_is_shown() {
    let mut st = state();
    assert_eq!(st.capture_launched(Err("no stream".to_string())), Err("no stream".to_string()));
    assert_eq!(st.last_transcription.as_deref(), Some("⚠️ Erro: no stream"));
    assert_eq!(st.last_translation.as_deref(), Some("Falha ao iniciar captura"));
    assert!(matches!(st.status, AppStatus::Loading));
}

#[test]
fn stop_with_samples_goes_to_processing() {
    let mut st = state();
    match st.capture_stopped(Ok(48000)) {
        StopCapture::Process(m) => assert_eq!(m, "Capture stopped and processing started"),
        StopCapture::Reply(_) => panic!("expected processing"),
    }
    assert!(matches!(st.status, AppStatus::Processing));
    assert_eq!(st.last_transcription.as_deref(), Some("Processando áudio..."));
    st.finish_processing(ProcessingOutcome::Done {
        original: "olá".to_string(),
        translated: "hello".to_string(),
    });
    assert!(matches!(st.status, AppStatus::Ready));
    assert_eq!(st.last_transcription.as_deref(), Some("olá"));
    assert_eq!(st.last_translation.as_deref(), Some("hello"));
}

#[test]
fn stop_without_samples() {
    let mut st = state();
    match st.capture_stopped(Ok(0)) {
        StopCapture::Reply(r) => assert_eq!(r, Ok("Capture stopped (no audio)".to_string())),
        StopCapture::Process(_) => panic!("nothing to process"),
    }
    assert!(matches!(st.status, AppStatus::Ready));
    assert_eq!(st.last_transcription.as_deref(), Some("Captura encerrada (sem áudio)"));
    assert_eq!(st.last_translation.as_deref(), Some("Pronto para nova captura"));
}

#[test]
fn refused_stop() {
    let mut st = state();
    match st.capture_stopped(Err("Capture not active".to_string())) {
        StopCapture::Reply(r) => assert_eq!(r, Err("Capture not active".to_string())),
        StopCapture::Process(_) => panic!("nothing to process"),
    }
    assert!(matches!(st.status, AppStatus::Ready));
    assert_eq!(st.last_transcription.as_deref(), Some("Erro: Capture not active"));
}

#[test]
fn processing_failures() {
    let mut st = state();
    st.finish_processing(ProcessingOutcome::Failed("boom".to_string()));
    assert_eq!(st.last_transcription.as_deref(), Some("Erro de processamento: boom"));
    st.finish_processing(ProcessingOutcome::NoPipeline);
    assert_eq!(st.last_transcription.as_deref(), Some("Erro: Pipeline não inicializado"));
    assert!(matches!(st.status, AppStatus::Ready));
}

#[test]
fn reloading_models() {
    let mut st = state();
    assert_eq!(st.models_reloaded(None), Err("Pipeline not initialized".to_string()));
    assert_eq!(st.models_reloaded(Some(Err("bad".to_string()))), Err("bad".to_string()));
    assert_eq!(st.last_transcription.as_deref(), Some("Carregando modelos..."));
    assert_eq!(st.models_reloaded(Some(Ok(()))), Ok("Reloaded".to_string()));
    assert_eq!(st.last_transcription.as_deref(), Some("Sistema Pronto"));
    assert_eq!(st.last_translation.as_deref(), Some("Modelos Carregados e Prontos"));
}
