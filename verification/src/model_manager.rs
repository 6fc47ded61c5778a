//! Model downloads and selection: the registry of running downloads, the
//! status a catalog model is shown with, and the checks a finished download
//! must pass. Reading and writing model files is the caller's.
use vstd::prelude::*;

use crate::error::CommandError;
use crate::github_oauth::{lemma_lookup_without, lemma_without_bounded, lookup, without};
use crate::models::{catalog_model as find_catalog_model, catalog_views, model_view, CatalogModel, ModelStatus};
use crate::text::{chars_of, decimal, decimal_of, push_all, push_str, string_from_chars};

verus! {

/// The downloads in progress, keyed by model id, each with a cancel flag.
pub struct DownloadRegistry {
    active: Vec<(String, u64)>,
    next_flag: u64,
    cancelled: Vec<u64>,
}

impl DownloadRegistry {
    #[verifier::type_invariant]
    spec fn flags_issued(self) -> bool {
        &&& forall|i: int| 0 <= i < self.active@.len() ==> self.active@[i].1 < self.next_flag
        &&& forall|i: int| 0 <= i < self.cancelled@.len() ==> self.cancelled@[i] < self.next_flag
    }

    /// The cancel flag of the download of `model_id`, while it runs.
    pub closed spec fn download_of(self, model_id: Seq<char>) -> Option<u64> {
        lookup(self.active@, model_id)
    }

    pub closed spec fn flag_raised(self, flag: u64) -> bool {
        self.cancelled@.contains(flag)
    }

    pub closed spec fn flags_handed_out(self) -> u64 {
        self.next_flag
    }

    pub fn new() -> (r: Self)
        ensures
            forall|id: Seq<char>| r.download_of(id) is None,
            forall|flag: u64| !r.flag_raised(flag),
            r.flags_handed_out() == 0,
    {
        DownloadRegistry { active: Vec::new(), next_flag: 0, cancelled: Vec::new() }
    }

    fn find(&self, key: &String) -> (r: Option<u64>)
        ensures
            r == lookup(self.active@, key@),
    {
        let mut j: usize = self.active.len();
        assert(self.active@.take(j as int) == self.active@);
        while j > 0
            invariant
                j <= self.active.len(),
                lookup(self.active@, key@) == lookup(self.active@.take(j as int), key@),
            decreases j,
        {
            assert(self.active@.take(j as int).drop_last() == self.active@.take(j as int - 1));
            if self.active[j - 1].0 == *key {
                return Some(self.active[j - 1].1);
            }
            j = j - 1;
        }
        None
    }

    /// Registers a download of `model_id` and returns its lowered cancel
    /// flag; refused while that model is already downloading.
    pub fn start(&mut self, model_id: &str) -> (r: Result<u64, CommandError>)
        requires
            old(self).flags_handed_out() < u64::MAX,
        ensures
            old(self).download_of(model_id@) is Some ==> (r matches Err(e) && e.code@
                == "model_download_in_progress"@ && e.message@ == model_id@
                + " is already downloading."@) && *final(self) == *old(self),
            old(self).download_of(model_id@) is None ==> (r matches Ok(flag)
                && final(self).download_of(model_id@) == Some(flag) && !final(self).flag_raised(
                flag,
            )),
            forall|id: Seq<char>| id != model_id@ ==> final(self).download_of(id) == old(
                self,
            ).download_of(id),
            forall|f: u64| final(self).flag_raised(f) == old(self).flag_raised(f),
    {
        proof {
            use_type_invariant(&*self);
        }
        let key = model_id.to_string();
        if self.find(&key).is_some() {
            let mut m = chars_of(model_id);
            push_str(&mut m, " is already downloading.");
            return Err(CommandError::from_parts("model_download_in_progress", string_from_chars(&m)));
        }
        let flag = self.next_flag;
        let mut active = copy_entries(&self.active);
        let ghost pre = active@;
        let ghost key_view = key@;
        active.push((key, flag));
        assert(active@.drop_last() == pre);
        assert forall|id: Seq<char>| id != key_view implies #[trigger] lookup(active@, id) == lookup(
            old(self).active@,
            id,
        ) by {}
        assert forall|i: int| 0 <= i < active@.len() implies active@[i].1 < flag + 1 by {
            if i < pre.len() {
                assert(active@[i] == pre[i]);
            }
        }
        self.next_flag = flag + 1;
        self.active = active;
        assert(!self.cancelled@.contains(flag));
        Ok(flag)
    }

    /// Forgets the download of `model_id` once it ended.
    pub fn finish(&mut self, model_id: &str)
        ensures
            final(self).download_of(model_id@) is None,
            forall|id: Seq<char>| id != model_id@ ==> final(self).download_of(id) == old(
                self,
            ).download_of(id),
            forall|f: u64| final(self).flag_raised(f) == old(self).flag_raised(f),
            final(self).flags_handed_out() == old(self).flags_handed_out(),
    {
        proof {
            use_type_invariant(&*self);
        }
        let key = model_id.to_string();
        let mut kept: Vec<(String, u64)> = Vec::new();
        let mut i: usize = 0;
        while i < self.active.len()
            invariant
                i <= self.active.len(),
                kept@ == without(self.active@.take(i as int), key@),
            decreases self.active.len() - i,
        {
            assert(self.active@.take(i as int + 1).drop_last() == self.active@.take(i as int));
            if self.active[i].0 != key {
                kept.push((self.active[i].0.clone(), self.active[i].1));
            }
            i = i + 1;
        }
        assert(self.active@.take(self.active.len() as int) == self.active@);
        proof {
            lemma_without_bounded(self.active@, key@, self.next_flag);
            assert forall|id: Seq<char>| #[trigger] lookup(kept@, id) == if id == key@ {
                None
            } else {
                lookup(self.active@, id)
            } by {
                lemma_lookup_without(self.active@, key@, id);
            }
        }
        self.active = kept;
    }

    /// Raises the cancel flag of the running download of `model_id`;
    /// `false` when it is not downloading.
    pub fn cancel(&mut self, model_id: &str) -> (r: bool)
        ensures
            r == old(self).download_of(model_id@) is Some,
            forall|id: Seq<char>| final(self).download_of(id) == old(self).download_of(id),
            forall|f: u64| final(self).flag_raised(f) == (old(self).flag_raised(f) || old(
                self,
            ).download_of(model_id@) == Some(f)),
            final(self).flags_handed_out() == old(self).flags_handed_out(),
    {
        proof {
            use_type_invariant(&*self);
        }
        let key = model_id.to_string();
        match self.find(&key) {
            None => false,
            Some(flag) => {
                proof {
                    crate::github_oauth::lemma_lookup_bounded(self.active@, key@, self.next_flag);
                }
                let mut raised = self.cancelled.clone();
                raised.push(flag);
                let ghost before = self.cancelled@;
                self.cancelled = raised;
                assert forall|f: u64| self.cancelled@.contains(f) == (before.contains(f) || f
                    == flag) by {
                    if f == flag {
                        assert(self.cancelled@[self.cancelled@.len() - 1] == f);
                    }
                    if before.contains(f) {
                        let i = choose|i: int| 0 <= i < before.len() && before[i] == f;
                        assert(self.cancelled@[i] == f);
                    }
                    if self.cancelled@.contains(f) && f != flag {
                        let i = choose|i: int| 0 <= i < self.cancelled@.len() && self.cancelled@[i] == f;
                        assert(before[i] == f);
                    }
                }
                true
            },
        }
    }

    pub fn is_downloading(&self, model_id: &str) -> (r: bool)
        ensures
            r == self.download_of(model_id@) is Some,
    {
        let key = model_id.to_string();
        self.find(&key).is_some()
    }

    /// Whether the download holding `flag` was asked to stop.
    pub fn is_cancelled(&self, flag: u64) -> (r: bool)
        ensures
            r == self.flag_raised(flag),
    {
        let mut i: usize = 0;
        while i < self.cancelled.len()
            invariant
                i <= self.cancelled.len(),
                forall|j: int| 0 <= j < i ==> self.cancelled@[j] != flag,
            decreases self.cancelled.len() - i,
        {
            if self.cancelled[i] == flag {
                return true;
            }
            i = i + 1;
        }
        false
    }
}

fn copy_entries(v: &Vec<(String, u64)>) -> (r: Vec<(String, u64)>)
    ensures
        r@ == v@,
{
    let mut out: Vec<(String, u64)> = Vec::new();
    let mut i: usize = 0;
    while i < v.len()
        invariant
            i <= v.len(),
            out@ == v@.take(i as int),
        decreases v.len() - i,
    {
        out.push((v[i].0.clone(), v[i].1));
        assert(out@ =~= v@.take(i as int + 1));
        i = i + 1;
    }
    assert(v@.take(v.len() as int) == v@);
    out
}

impl Default for DownloadRegistry {
    fn default() -> (r: Self)
        ensures
            forall|id: Seq<char>| r.download_of(id) is None,
            forall|flag: u64| !r.flag_raised(flag),
    {
        DownloadRegistry::new()
    }
}

/// Asks the running download of `model_id` to stop; `Ok(false)` when that
/// model is not downloading.
pub fn request_cancel_download(downloads: &mut DownloadRegistry, model_id: &str) -> (r: Result<
    bool,
    CommandError,
>)
    ensures
        r == Ok::<bool, CommandError>(old(downloads).download_of(model_id@) is Some),
        forall|f: u64| final(downloads).flag_raised(f) == (old(downloads).flag_raised(f) || old(
            downloads,
        ).download_of(model_id@) == Some(f)),
        forall|id: Seq<char>| final(downloads).download_of(id) == old(downloads).download_of(id),
{
    Ok(downloads.cancel(model_id))
}

/// The status a catalog model is shown with: downloading wins, then a file
/// on disk (selected or not); otherwise a recorded failure stays visible.
pub open spec fn status_for(
    downloading: bool,
    file_present: bool,
    selected: bool,
    recorded: Option<ModelStatus>,
) -> ModelStatus {
    if downloading {
        ModelStatus::Downloading
    } else if file_present && selected {
        ModelStatus::Selected
    } else if file_present {
        ModelStatus::Downloaded
    } else if recorded == Some(ModelStatus::Failed) {
        ModelStatus::Failed
    } else {
        ModelStatus::NotDownloaded
    }
}

pub fn model_status(
    downloading: bool,
    file_present: bool,
    selected: bool,
    recorded: Option<ModelStatus>,
) -> (r: ModelStatus)
    ensures
        r == status_for(downloading, file_present, selected, recorded),
{
    if downloading {
        ModelStatus::Downloading
    } else if file_present && selected {
        ModelStatus::Selected
    } else if file_present {
        ModelStatus::Downloaded
    } else {
        match recorded {
            Some(ModelStatus::Failed) => ModelStatus::Failed,
            _ => ModelStatus::NotDownloaded,
        }
    }
}

/// The recorded status after a download ended: selected or downloaded on
/// success, not-downloaded when cancelled, failed otherwise.
pub fn status_after_download(outcome: &Result<(), CommandError>, selected: bool) -> (r: ModelStatus)
    ensures
        r == match outcome {
            Ok(()) => if selected {
                ModelStatus::Selected
            } else {
                ModelStatus::Downloaded
            },
            Err(e) => if e.code@ == "model_download_cancelled"@ {
                ModelStatus::NotDownloaded
            } else {
                ModelStatus::Failed
            },
        },
{
    match outcome {
        Ok(()) => if selected {
            ModelStatus::Selected
        } else {
            ModelStatus::Downloaded
        },
        Err(e) => if e.code == "model_download_cancelled".to_string() {
            ModelStatus::NotDownloaded
        } else {
            ModelStatus::Failed
        },
    }
}

/// The catalog entry for `model_id`, or `unknown_model`.
pub fn catalog_model(model_id: &str) -> (r: Result<CatalogModel, CommandError>)
    ensures
        match r {
            Ok(m) => model_view(m).0 == model_id@ && catalog_views().contains(model_view(m)),
            Err(e) => e.code@ == "unknown_model"@ && e.message@ == "Unknown Whisper model '"@
                + model_id@ + "'. Choose a model from the catalog."@ && forall|i: int|
                0 <= i < catalog_views().len() ==> catalog_views()[i].0 != model_id@,
        },
{
    match find_catalog_model(model_id) {
        Some(m) => Ok(m),
        None => {
            let mut msg = chars_of("Unknown Whisper model '");
            push_str(&mut msg, model_id);
            push_str(&mut msg, "'. Choose a model from the catalog.");
            Err(CommandError::from_parts("unknown_model", string_from_chars(&msg)))
        },
    }
}

/// The position of the smallest size among the models found on disk
/// (`None` for a model that is not there): the first of equal ones, `None`
/// when no model is there.
pub fn smallest_present(sizes: &Vec<Option<u64>>) -> (r: Option<usize>)
    ensures
        r is None <==> forall|i: int| 0 <= i < sizes.len() ==> sizes@[i] is None,
        r matches Some(p) ==> p < sizes.len() && sizes@[p as int] is Some && (forall|i: int|
            0 <= i < sizes.len() && sizes@[i] is Some ==> sizes@[p as int]->0 <= sizes@[i]->0)
            && (forall|i: int| 0 <= i < p && sizes@[i] is Some ==> sizes@[p as int]->0 < sizes@[i]->0),
{
    let mut best: Option<usize> = None;
    let mut i: usize = 0;
    while i < sizes.len()
        invariant
            i <= sizes.len(),
            best is None <==> forall|k: int| 0 <= k < i ==> sizes@[k] is None,
            best matches Some(p) ==> p < i && sizes@[p as int] is Some && (forall|k: int|
                0 <= k < i && sizes@[k] is Some ==> sizes@[p as int]->0 <= sizes@[k]->0) && (forall|k: int|
                0 <= k < p && sizes@[k] is Some ==> sizes@[p as int]->0 < sizes@[k]->0),
        decreases sizes.len() - i,
    {
        match sizes[i] {
            Some(size) => {
                let better = match best {
                    Some(p) => match sizes[p] {
                        Some(current) => size < current,
                        None => true,
                    },
                    None => true,
                };
                if better {
                    best = Some(i);
                }
            },
            None => {},
        }
        i = i + 1;
    }
    best
}

/// The refusal of a download the user cancelled.
pub fn download_cancelled(name: &str) -> (e: CommandError)
    ensures
        e.code@ == "model_download_cancelled"@,
        e.message@ == "Download for "@ + name@ + " was cancelled."@,
{
    let mut m = chars_of("Download for ");
    push_str(&mut m, name);
    push_str(&mut m, " was cancelled.");
    CommandError::from_parts("model_download_cancelled", string_from_chars(&m))
}

/// The checks a finished download must pass: the size the server announced,
/// then the catalog checksum.
pub fn verify_download(
    name: &str,
    total_bytes: Option<u64>,
    bytes_downloaded: u64,
    expected_sha1: Option<&str>,
    actual_sha1: &str,
) -> (r: Result<(), CommandError>)
    ensures
        match total_bytes {
            Some(total) if total != bytes_downloaded => r matches Err(e) && e.code@
                == "model_download_failed"@ && e.message@ == "Downloaded size for "@ + name@
                + " did not match the server response. Expected "@ + decimal_of(total as nat)
                + " bytes, got "@ + decimal_of(bytes_downloaded as nat) + " bytes."@,
            _ => match expected_sha1 {
                Some(expected) if expected@ != actual_sha1@ => r matches Err(e) && e.code@
                    == "model_checksum_mismatch"@ && e.message@ == "Downloaded "@ + name@
                    + " did not match the expected checksum. Retry the download."@,
                _ => r is Ok,
            },
        },
{
    match total_bytes {
        Some(total) => if total != bytes_downloaded {
            let mut m = chars_of("Downloaded size for ");
            push_str(&mut m, name);
            push_str(&mut m, " did not match the server response. Expected ");
            push_all(&mut m, &decimal(total));
            push_str(&mut m, " bytes, got ");
            push_all(&mut m, &decimal(bytes_downloaded));
            push_str(&mut m, " bytes.");
            return Err(CommandError::from_parts("model_download_failed", string_from_chars(&m)));
        },
        None => {},
    }
    match expected_sha1 {
        Some(expected) => if !crate::text::eq_str(&chars_of(actual_sha1), expected) {
            let mut m = chars_of("Downloaded ");
            push_str(&mut m, name);
            push_str(&mut m, " did not match the expected checksum. Retry the download.");
            return Err(CommandError::from_parts("model_checksum_mismatch", string_from_chars(&m)));
        },
        None => {},
    }
    Ok(())
}

/// A model file on disk whose SHA-1 is not the catalog's.
pub fn verify_file_checksum(name: &str, expected_sha1: Option<&str>, actual_sha1: &str) -> (r: Result<
    (),
    CommandError,
>)
    ensures
        match expected_sha1 {
            Some(expected) if expected@ != actual_sha1@ => r matches Err(e) && e.code@
                == "model_checksum_mismatch"@ && e.message@ == name@
                + " did not match the expected checksum. Re-download the model."@,
            _ => r is Ok,
        },
{
    match expected_sha1 {
        Some(expected) => if !crate::text::eq_str(&chars_of(actual_sha1), expected) {
            let mut m = chars_of(name);
            push_str(&mut m, " did not match the expected checksum. Re-download the model.");
            return Err(CommandError::from_parts("model_checksum_mismatch", string_from_chars(&m)));
        },
        None => {},
    }
    Ok(())
}

/// Where an interrupted download is kept: the model file name and `.part`.
pub fn partial_file_name(filename: &str) -> (r: String)
    ensures
        r@ == filename@ + ".part"@,
{
    let mut m = chars_of(filename);
    push_str(&mut m, ".part");
    string_from_chars(&m)
}

} // verus!
