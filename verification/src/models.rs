//! The Whisper model catalog and the model status values stored with each
//! model record.
use vstd::prelude::*;

use crate::clock::Timestamp;
use crate::text::{chars_of, eq_str, push_str, string_from_chars};

verus! {

pub const DEFAULT_MODEL_ID: &'static str = "small.en-q5_1";

pub const HUGGING_FACE_BASE_URL: &'static str = "https://huggingface.co/ggerganov/whisper.cpp/resolve/main";

#[derive(Debug, Clone, Copy, PartialEq, Eq, Structural)]
pub enum ModelStatus {
    NotDownloaded,
    Downloading,
    Downloaded,
    Selected,
    Loaded,
    Failed,
    UpdateAvailable,
}

pub open spec fn status_db_value(s: ModelStatus) -> Seq<char> {
    match s {
        ModelStatus::NotDownloaded => "not_downloaded"@,
        ModelStatus::Downloading => "downloading"@,
        ModelStatus::Downloaded => "downloaded"@,
        ModelStatus::Selected => "selected"@,
        ModelStatus::Loaded => "loaded"@,
        ModelStatus::Failed => "failed"@,
        ModelStatus::UpdateAvailable => "update_available"@,
    }
}

/// The status a stored value names; anything unrecognized reads as
/// NotDownloaded.
pub open spec fn status_from_db(v: Seq<char>) -> ModelStatus {
    if v == "downloading"@ {
        ModelStatus::Downloading
    } else if v == "downloaded"@ {
        ModelStatus::Downloaded
    } else if v == "selected"@ {
        ModelStatus::Selected
    } else if v == "loaded"@ {
        ModelStatus::Loaded
    } else if v == "failed"@ {
        ModelStatus::Failed
    } else if v == "update_available"@ {
        ModelStatus::UpdateAvailable
    } else {
        ModelStatus::NotDownloaded
    }
}

impl ModelStatus {
    pub fn as_db_value(self) -> (r: &'static str)
        ensures
            r@ == status_db_value(self),
    {
        match self {
            ModelStatus::NotDownloaded => "not_downloaded",
            ModelStatus::Downloading => "downloading",
            ModelStatus::Downloaded => "downloaded",
            ModelStatus::Selected => "selected",
            ModelStatus::Loaded => "loaded",
            ModelStatus::Failed => "failed",
            ModelStatus::UpdateAvailable => "update_available",
        }
    }

    pub fn from_db_value(value: &str) -> (r: Self)
        ensures
            r == status_from_db(value@),
    {
        let v = chars_of(value);
        if eq_str(&v, "downloading") {
            ModelStatus::Downloading
        } else if eq_str(&v, "downloaded") {
            ModelStatus::Downloaded
        } else if eq_str(&v, "selected") {
            ModelStatus::Selected
        } else if eq_str(&v, "loaded") {
            ModelStatus::Loaded
        } else if eq_str(&v, "failed") {
            ModelStatus::Failed
        } else if eq_str(&v, "update_available") {
            ModelStatus::UpdateAvailable
        } else {
            ModelStatus::NotDownloaded
        }
    }
}

/// Every status survives being stored and read back.
pub proof fn lemma_status_db_round_trip(s: ModelStatus)
    ensures
        status_from_db(status_db_value(s)) == s,
{
    reveal_strlit("not_downloaded");
    reveal_strlit("downloading");
    reveal_strlit("downloaded");
    reveal_strlit("selected");
    reveal_strlit("loaded");
    reveal_strlit("failed");
    reveal_strlit("update_available");
    let v = status_db_value(s);
    assert("downloading"@.len() == 11);
    assert("downloaded"@.len() == 10);
    assert("selected"@.len() == 8);
    assert("loaded"@.len() == 6);
    assert("failed"@.len() == 6);
    assert("update_available"@.len() == 16);
    assert("not_downloaded"@.len() == 14);
    assert("loaded"@[0] != "failed"@[0]);
    match s {
        ModelStatus::Loaded => {
            assert(v != "failed"@);
        },
        ModelStatus::Failed => {
            assert(v != "loaded"@);
        },
        _ => {},
    }
}

#[derive(Debug, Clone, Copy, PartialEq, Eq, Structural)]
pub enum ChecksumKind {
    Sha1,
}

#[derive(Debug, Clone)]
pub struct ModelChecksum {
    pub kind: ChecksumKind,
    pub value: String,
}

#[derive(Debug, Clone, Copy, PartialEq, Eq, Structural)]
pub enum ModelSource {
    AppData,
    ExternalCache,
}

#[derive(Debug, Clone, Copy)]
pub struct CatalogModel {
    pub id: &'static str,
    pub name: &'static str,
    pub filename: &'static str,
    pub disk_size_label: &'static str,
    pub expected_sha1: Option<&'static str>,
    /// Whether the model transcribes languages other than English; the `.en`
    /// builds are English-only.
    pub multilingual: bool,
}

/// A catalog entry as plain values: id, name, filename, size label, SHA-1,
/// multilingual.
pub type ModelView = (Seq<char>, Seq<char>, Seq<char>, Seq<char>, Option<Seq<char>>, bool);

pub open spec fn model_view(m: CatalogModel) -> ModelView {
    (
        m.id@,
        m.name@,
        m.filename@,
        m.disk_size_label@,
        match m.expected_sha1 {
            Some(s) => Some(s@),
            None => None,
        },
        m.multilingual,
    )
}

pub open spec fn catalog_views() -> Seq<ModelView> {
    seq![
        ("tiny.en"@, "Tiny English"@, "ggml-tiny.en.bin"@, "75 MiB"@, Some("c78c86eb1a8faa21b369bcd33207cc90d64ae9df"@), false),
        ("base.en"@, "Base English"@, "ggml-base.en.bin"@, "142 MiB"@, Some("137c40403d78fd54d454da0f9bd998f78703390c"@), false),
        ("small.en"@, "Small English"@, "ggml-small.en.bin"@, "466 MiB"@, Some("db8a495a91d927739e50b3fc1cc4c6b8f6c2d022"@), false),
        ("small.en-q5_1"@, "Small English Q5_1"@, "ggml-small.en-q5_1.bin"@, "181 MiB"@, Some("20f54878d608f94e4a8ee3ae56016571d47cba34"@), false),
        ("medium.en"@, "Medium English"@, "ggml-medium.en.bin"@, "1.5 GiB"@, Some("8c30f0e44ce9560643ebd10bbe50cd20eafd3723"@), false),
        ("tiny"@, "Tiny (Multilingual)"@, "ggml-tiny.bin"@, "75 MiB"@, None, true),
        ("base"@, "Base (Multilingual)"@, "ggml-base.bin"@, "142 MiB"@, None, true),
        ("small"@, "Small (Multilingual)"@, "ggml-small.bin"@, "466 MiB"@, None, true),
        ("medium"@, "Medium (Multilingual)"@, "ggml-medium.bin"@, "1.5 GiB"@, None, true),
        ("large-v3-turbo-q5_0"@, "Large v3 Turbo Q5_0 (Multilingual)"@, "ggml-large-v3-turbo-q5_0.bin"@, "547 MiB"@, Some("e050f7970618a659205450ad97eb95a18d69c9ee"@), true),
        ("large-v3-turbo"@, "Large v3 Turbo (Multilingual, max accuracy)"@, "ggml-large-v3-turbo.bin"@, "1.6 GiB"@, None, true),
    ]
}

fn entry(
    id: &'static str,
    name: &'static str,
    filename: &'static str,
    disk_size_label: &'static str,
    expected_sha1: Option<&'static str>,
    multilingual: bool,
) -> (m: CatalogModel)
    ensures
        m.id == id,
        m.name == name,
        m.filename == filename,
        m.disk_size_label == disk_size_label,
        m.expected_sha1 == expected_sha1,
        m.multilingual == multilingual,
{
    CatalogModel { id, name, filename, disk_size_label, expected_sha1, multilingual }
}

/// The offered models: the English-only `.en` builds first, then the
/// multilingual ones.
pub fn catalog() -> (r: Vec<CatalogModel>)
    ensures
        r@.map_values(|m: CatalogModel| model_view(m)) == catalog_views(),
{
    let mut r: Vec<CatalogModel> = Vec::new();
    r.push(entry("tiny.en", "Tiny English", "ggml-tiny.en.bin", "75 MiB", Some("c78c86eb1a8faa21b369bcd33207cc90d64ae9df"), false));
    r.push(entry("base.en", "Base English", "ggml-base.en.bin", "142 MiB", Some("137c40403d78fd54d454da0f9bd998f78703390c"), false));
    r.push(entry("small.en", "Small English", "ggml-small.en.bin", "466 MiB", Some("db8a495a91d927739e50b3fc1cc4c6b8f6c2d022"), false));
    r.push(entry(DEFAULT_MODEL_ID, "Small English Q5_1", "ggml-small.en-q5_1.bin", "181 MiB", Some("20f54878d608f94e4a8ee3ae56016571d47cba34"), false));
    r.push(entry("medium.en", "Medium English", "ggml-medium.en.bin", "1.5 GiB", Some("8c30f0e44ce9560643ebd10bbe50cd20eafd3723"), false));
    r.push(entry("tiny", "Tiny (Multilingual)", "ggml-tiny.bin", "75 MiB", None, true));
    r.push(entry("base", "Base (Multilingual)", "ggml-base.bin", "142 MiB", None, true));
    r.push(entry("small", "Small (Multilingual)", "ggml-small.bin", "466 MiB", None, true));
    r.push(entry("medium", "Medium (Multilingual)", "ggml-medium.bin", "1.5 GiB", None, true));
    r.push(entry("large-v3-turbo-q5_0", "Large v3 Turbo Q5_0 (Multilingual)", "ggml-large-v3-turbo-q5_0.bin", "547 MiB", Some("e050f7970618a659205450ad97eb95a18d69c9ee"), true));
    r.push(entry("large-v3-turbo", "Large v3 Turbo (Multilingual, max accuracy)", "ggml-large-v3-turbo.bin", "1.6 GiB", None, true));
    assert(r@.map_values(|m: CatalogModel| model_view(m)) =~= catalog_views());
    r
}

/// The catalog entry with the given id.
pub fn catalog_model(id: &str) -> (r: Option<CatalogModel>)
    ensures
        match r {
            Some(m) => model_view(m).0 == id@ && catalog_views().contains(model_view(m)),
            None => forall|i: int| 0 <= i < catalog_views().len() ==> catalog_views()[i].0 != id@,
        },
{
    let all = catalog();
    let ghost vs = all@.map_values(|m: CatalogModel| model_view(m));
    let wanted = chars_of(id);
    let mut i: usize = 0;
    while i < all.len()
        invariant
            vs == all@.map_values(|m: CatalogModel| model_view(m)),
            vs == catalog_views(),
            wanted@ == id@,
            i <= all.len(),
            forall|k: int| 0 <= k < i ==> vs[k].0 != id@,
        decreases all.len() - i,
    {
        let m = all[i];
        assert(vs[i as int] == model_view(m));
        if eq_str(&wanted, m.id) {
            return Some(m);
        }
        i = i + 1;
    }
    None
}

impl CatalogModel {
    /// "<Hugging Face base>/<filename>".
    pub fn download_url(self) -> (r: String)
        ensures
            r@ == HUGGING_FACE_BASE_URL@ + "/"@ + self.filename@,
    {
        let mut v = chars_of(HUGGING_FACE_BASE_URL);
        push_str(&mut v, "/");
        push_str(&mut v, self.filename);
        string_from_chars(&v)
    }

    /// The SHA-1 the download is checked against, when one is published.
    pub fn checksum(self) -> (r: Option<ModelChecksum>)
        ensures
            match (r, self.expected_sha1) {
                (Some(c), Some(s)) => c.kind == ChecksumKind::Sha1 && c.value@ == s@,
                (None, None) => true,
                _ => false,
            },
    {
        match self.expected_sha1 {
            Some(value) => Some(ModelChecksum { kind: ChecksumKind::Sha1, value: value.to_string() }),
            None => None,
        }
    }
}

/// The per-model row kept in the database.
#[derive(Debug, Clone)]
pub struct ModelRecord {
    pub id: String,
    pub name: String,
    pub filename: String,
    pub local_path: Option<String>,
    pub size_bytes: Option<u64>,
    pub status: ModelStatus,
    pub checksum: Option<String>,
    pub selected: bool,
    pub downloaded_at: Option<Timestamp>,
}

/// What the model list shows for one catalog entry.
#[derive(Debug, Clone)]
pub struct ModelInfo {
    pub id: String,
    pub name: String,
    pub filename: String,
    pub download_url: String,
    pub disk_size_label: String,
    pub local_path: Option<String>,
    pub source: Option<ModelSource>,
    pub size_bytes: Option<u64>,
    pub status: ModelStatus,
    pub checksum: Option<ModelChecksum>,
    pub selected: bool,
    pub downloaded_at: Option<Timestamp>,
    pub multilingual: bool,
}

} // verus!
