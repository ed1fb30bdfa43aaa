//! The catalogue of models: their folders under the models directory, where
//! to download them, and whether they are present.
use vstd::prelude::*;

verus! {

/// Folder of the speech recognition model.
pub const WHISPER_FOLDER: &'static str = "whisper-large-v3-turbo";

/// Folder of the translation model.
pub const TRANSLATE_FOLDER: &'static str = "translate-gemma-4b";

/// Folder of the speech synthesis model.
pub const TTS_FOLDER: &'static str = "omnivoice";

/// The model folders, in catalogue order.
pub open spec fn catalog_folders() -> Seq<Seq<char>> {
    seq![WHISPER_FOLDER@, TRANSLATE_FOLDER@, TTS_FOLDER@]
}

/// Whether a model is on disk.
#[derive(Clone, Copy, Debug, PartialEq, Eq, Structural)]
pub enum ModelStatus {
    NotDownloaded,
    Downloading,
    Downloaded,
    Error,
}

/// A model of the catalogue and its state.
#[derive(Clone, Debug)]
pub struct ModelInfo {
    pub name: String,
    pub folder: String,
    pub expected_size_mb: u32,
    pub description: String,
    pub status: ModelStatus,
}

/// What was found on disk for one model folder: whether it exists and, when
/// it could be listed, how many entries it holds.
#[derive(Clone, Copy, Debug, PartialEq, Eq, Structural)]
pub struct FolderState {
    pub exists: bool,
    pub entries: Option<usize>,
}

/// What was found on disk for the three model folders.
#[derive(Clone, Copy, Debug, PartialEq, Eq, Structural)]
pub struct FolderScan {
    pub whisper: FolderState,
    pub translate: FolderState,
    pub tts: FolderState,
}

/// A model counts as downloaded when its folder exists and lists at least
/// one entry.
pub open spec fn status_of(f: FolderState) -> ModelStatus {
    if f.exists && f.entries is Some && f.entries->0 > 0 {
        ModelStatus::Downloaded
    } else {
        ModelStatus::NotDownloaded
    }
}

/// The status of a model from what was found in its folder.
pub fn folder_status(f: FolderState) -> (r: ModelStatus)
    ensures
        r == status_of(f),
{
    match f.entries {
        Some(n) => if f.exists && n > 0 {
            ModelStatus::Downloaded
        } else {
            ModelStatus::NotDownloaded
        },
        None => ModelStatus::NotDownloaded,
    }
}

/// Knows where the models live.
pub struct ModelDownloader {
    models_path: String,
}

impl ModelDownloader {
    /// The directory the downloader works in.
    pub closed spec fn path(&self) -> Seq<char> {
        self.models_path@
    }

    /// A downloader for the models directory `models_path`.
    pub fn new(models_path: &str) -> (r: Self)
        ensures
            r.path() == models_path@,
    {
        ModelDownloader { models_path: String::from_str(models_path) }
    }

    /// The models directory.
    pub fn get_models_path(&self) -> (r: &str)
        ensures
            r@ == self.path(),
    {
        self.models_path.as_str()
    }

    /// Whether any of the model folders exists.
    pub fn check_models_exist(&self, scan: &FolderScan) -> (r: bool)
        ensures
            r == (scan.whisper.exists || scan.translate.exists || scan.tts.exists),
    {
        scan.whisper.exists || scan.translate.exists || scan.tts.exists
    }

    /// The catalogue, with each model's status from what was found in its
    /// folder.
    pub fn get_model_info(&self, scan: &FolderScan) -> (r: Vec<ModelInfo>)
        ensures
            r@.len() == 3,
            forall|i: int| 0 <= i < 3 ==> #[trigger] r@[i].folder@ == catalog_folders()[i],
            r@[0].name@ == "Whisper Large V3 Turbo"@,
            r@[0].expected_size_mb == 1500,
            r@[0].description@ == "Speech-to-Text transcription model"@,
            r@[0].status == status_of(scan.whisper),
            r@[1].name@ == "TranslateGemma 4B"@,
            r@[1].expected_size_mb == 8000,
            r@[1].description@ == "Machine translation model"@,
            r@[1].status == status_of(scan.translate),
            r@[2].name@ == "OmniVoice"@,
            r@[2].expected_size_mb == 500,
            r@[2].description@ == "Text-to-Speech synthesis"@,
            r@[2].status == status_of(scan.tts),
    {
        let mut r: Vec<ModelInfo> = Vec::new();
        r.push(
            ModelInfo {
                name: String::from_str("Whisper Large V3 Turbo"),
                folder: String::from_str(WHISPER_FOLDER),
                expected_size_mb: 1500,
                description: String::from_str("Speech-to-Text transcription model"),
                status: folder_status(scan.whisper),
            },
        );
        r.push(
            ModelInfo {
                name: String::from_str("TranslateGemma 4B"),
                folder: String::from_str(TRANSLATE_FOLDER),
                expected_size_mb: 8000,
                description: String::from_str("Machine translation model"),
                status: folder_status(scan.translate),
            },
        );
        r.push(
            ModelInfo {
                name: String::from_str("OmniVoice"),
                folder: String::from_str(TTS_FOLDER),
                expected_size_mb: 500,
                description: String::from_str("Text-to-Speech synthesis"),
                status: folder_status(scan.tts),
            },
        );
        r
    }
}

/// What `check_models_status` replies: "ready" when a model folder exists,
/// else "not_downloaded".
pub fn readiness_label(models_exist: bool) -> (r: &'static str)
    ensures
        r@ == (if models_exist {
            "ready"@
        } else {
            "not_downloaded"@
        }),
{
    if models_exist {
        "ready"
    } else {
        "not_downloaded"
    }
}

/// Name, URL and folder of each model's download, in catalogue order.
pub fn get_download_links() -> (r: Vec<(&'static str, &'static str, &'static str)>)
    ensures
        r@.len() == 3,
        forall|i: int| 0 <= i < 3 ==> #[trigger] r@[i].2@ == catalog_folders()[i],
        r@[0].0@ == "Whisper Large V3 Turbo"@,
        r@[0].1@
            == "https://huggingface.co/QuantFactory/Whisper-Large-V3-Turbo-GGUF/resolve/main/whisper-large-v3-turbo.Q5_K_M.gguf"@,
        r@[1].0@ == "TranslateGemma 4B"@,
        r@[1].1@
            == "https://huggingface.co/mradermacher/translategemma-4b-it-GGUF/resolve/main/translategemma-4b-it.Q4_K_M.gguf"@,
        r@[2].0@ == "OmniVoice"@,
        r@[2].1@
            == "https://huggingface.co/FerrisMind/omnivoice-gguf/resolve/main/omnivoice-q4_0.gguf"@,
{
    let mut r: Vec<(&'static str, &'static str, &'static str)> = Vec::new();
    r.push(
        (
            "Whisper Large V3 Turbo",
            "https://huggingface.co/QuantFactory/Whisper-Large-V3-Turbo-GGUF/resolve/main/whisper-large-v3-turbo.Q5_K_M.gguf",
            WHISPER_FOLDER,
        ),
    );
    r.push(
        (
            "TranslateGemma 4B",
            "https://huggingface.co/mradermacher/translategemma-4b-it-GGUF/resolve/main/translategemma-4b-it.Q4_K_M.gguf",
            TRANSLATE_FOLDER,
        ),
    );
    r.push(
        (
            "OmniVoice",
            "https://huggingface.co/FerrisMind/omnivoice-gguf/resolve/main/omnivoice-q4_0.gguf",
            TTS_FOLDER,
        ),
    );
    r
}

/// The download links and the catalogue list the same folders in the same
/// order, so a model's download lands in the folder its status is read
/// from.
pub proof fn lemma_links_match_catalog(
    links: Seq<(&'static str, &'static str, &'static str)>,
    infos: Seq<ModelInfo>,
)
    requires
        links.len() == 3,
        infos.len() == 3,
        forall|i: int| 0 <= i < 3 ==> #[trigger] links[i].2@ == catalog_folders()[i],
        forall|i: int| 0 <= i < 3 ==> #[trigger] infos[i].folder@ == catalog_folders()[i],
    ensures
        forall|i: int| 0 <= i < 3 ==> #[trigger] links[i].2@ == infos[i].folder@,
{
}

} // verus!
