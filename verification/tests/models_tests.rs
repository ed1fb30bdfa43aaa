use voicy::downloader::{
    folder_status, get_download_links, readiness_label, FolderScan, FolderState, ModelDownloader,
    ModelStatus,
};
use voicy::models::{device_label, DeviceKind, ModelManager};

fn scan(w: FolderState, t: FolderState, s: FolderState) -> FolderScan {
    FolderScan { whisper: w, translate: t, tts: s }
}

const MISSING: FolderState = FolderState { exists: false, entries: None };
const EMPTY: FolderState = FolderState { exists: true, entries: Some(0) };
const FULL: FolderState = FolderState { exists: true, entries: Some(3) };
const UNREADABLE: FolderState = FolderState { exists: true, entries: None };

#[test]
fn folder_statuses() {
    assert_eq!(folder_status(MISSING), ModelStatus::NotDownloaded);
    assert_eq!(folder_status(EMPTY), ModelStatus::NotDownloaded);
    assert_eq!(folder_status(UNREADABLE), ModelStatus::NotDownloaded);
    assert_eq!(folder_status(FULL), ModelStatus::Downloaded);
}

#[test]
fn downloader_keeps_its_path() {
    let d = ModelDownloader::new("/opt/voicy/models");
    assert_eq!(d.get_models_path(), "/opt/voicy/models");
}

#[test]
fn models_exist_when_any_folder_does() {
    let d = ModelDownloader::new("models");
    assert!(!d.check_models_exist(&scan(MISSING, MISSING, MISSING)));
    assert!(d.check_models_exist(&scan(MISSING, EMPTY, MISSING)));
    assert_eq!(readiness_label(true), "ready");
    assert_eq!(readiness_label(false), "not_downloaded");
}

#[test]
fn catalogue_with_statuses() {
    let d = ModelDownloader::new("models");
    let info = d.get_model_info(&scan(FULL, EMPTY, MISSING));
    assert_eq!(info.len(), 3);
    assert_eq!(info[0].name, "Whisper Large V3 Turbo");
    assert_eq!(info[0].folder, "whisper-large-v3-turbo");
    assert_eq!(info[0].expected_size_mb, 1500);
    assert_eq!(info[0].status, ModelStatus::Downloaded);
    assert_eq!(info[1].name, "TranslateGemma 4B");
    assert_eq!(info[1].folder, "translate-gemma-4b");
    assert_eq!(info[1].expected_size_mb, 8000);
    assert_eq!(info[1].status, ModelStatus::NotDownloaded);
    assert_eq!(info[2].name, "OmniVoice");
    assert_eq!(info[2].folder, "omnivoice");
    assert_eq!(info[2].expected_size_mb, 500);
    assert_eq!(info[2].description, "Text-to-Speech synthesis");
    assert_eq!(info[2].status, ModelStatus::NotDownloaded);
}

#[test]
fn download_links_match_catalogue_folders() {
    let links = get_download_links();
    let info = ModelDownloader::new("m").get_model_info(&scan(MISSING, MISSING, MISSING));
    assert_eq!(links.len(), 3);
    for i in 0..3 {
        assert_eq!(links[i].2, info[i].folder);
        assert_eq!(links[i].0, info[i].name);
    }
    assert!(links[0].1.ends_with("whisper-large-v3-turbo.Q5_K_M.gguf"));
    assert_eq!(
        links[1].1,
        "https://huggingface.co/mradermacher/translategemma-4b-it-GGUF/resolve/main/translategemma-4b-it.Q4_K_M.gguf"
    );
}

#[test]
fn manager_lifecycle() {
    let mut m: ModelManager<&str, u8, u16> = ModelManager::new();
    assert!(!m.is_loaded());
    assert!(m.get_whisper().is_none());
    assert_eq!(m.get_active_device(), "CPU");
    let r: Result<(), String> = m.load_models(|| Ok(("whisper", DeviceKind::Cuda)), || Ok(1), || Ok(2));
    assert_eq!(r, Ok(()));
    assert!(m.is_loaded());
    assert_eq!(m.get_whisper(), Some(&"whisper"));
    assert_eq!(m.get_translator(), Some(&1));
    assert_eq!(m.get_tts(), Some(&2));
    assert_eq!(m.get_active_device(), "CUDA");
    m.unload();
    assert!(!m.is_loaded());
    assert!(m.get_whisper().is_none() && m.get_translator().is_none() && m.get_tts().is_none());
    let d: ModelManager<u8, u8, u8> = ModelManager::default();
    assert!(!d.is_loaded());
    assert_eq!(device_label(DeviceKind::Cpu), "CPU");
}

#[test]
fn loading_stops_at_first_failure() {
    let mut m: ModelManager<&str, u8, u16> = ModelManager::new();
    let mut translator_called = false;
    let r: Result<(), String> = m.load_models(
        || Err("no whisper".to_string()),
        || {
            translator_called = true;
            Ok(1)
        },
        || Ok(2),
    );
    assert_eq!(r, Err("no whisper".to_string()));
    assert!(!translator_called);
    assert!(m.get_whisper().is_none() && !m.is_loaded());

    let r: Result<(), String> = m.load_models(|| Ok(("w", DeviceKind::Cpu)), || Ok(1), || Err("no tts".to_string()));
    assert_eq!(r, Err("no tts".to_string()));
    assert_eq!(m.get_whisper(), Some(&"w"));
    assert_eq!(m.get_translator(), Some(&1));
    assert!(m.get_tts().is_none());
    assert!(!m.is_loaded());
}

#[test]
fn failed_reload_keeps_loaded_models() {
    let mut m: ModelManager<&str, u8, u16> = ModelManager::new();
    let _: Result<(), String> = m.load_models(|| Ok(("a", DeviceKind::Cpu)), || Ok(1), || Ok(2));
    let r: Result<(), String> = m.load_models(|| Ok(("b", DeviceKind::Cuda)), || Err("x".to_string()), || Ok(3));
    assert_eq!(r, Err("x".to_string()));
    assert!(m.is_loaded());
    assert_eq!(m.get_whisper(), Some(&"b"));
    assert_eq!(m.get_translator(), Some(&1));
    assert_eq!(m.get_tts(), Some(&2));
}
