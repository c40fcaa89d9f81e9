//! The artwork asset manager: stores images under a managed directory with a
//! caller-supplied canonical name, deletes them recoverably, and sweeps out
//! every managed image the caller no longer references.

use vstd::prelude::*;
use crate::fswalk::list_dir;
use crate::mime::{ContentKind, classification_of, classify_sniffed};
use crate::paths::{join_path, path_ext_spec, path_extension};
use crate::scan_core::opt_string_view;
use crate::sniff::sniff_path;
use crate::text::{concat3, seq_has_str, strings_have, strings_view};
use crate::trashbin::trash_delete;
use crate::webimg::{
    decode_image, ext_for_format, ext_of_format, guess_format_kind, guessed_format,
    http_get_bytes, save_image,
};

verus! {

/// Why an artwork operation failed.
pub enum ArtworkError {
    /// The fetch failed; the text is the underlying error.
    Fetch(String),
    /// The fetched bytes did not decode as an image.
    Decode(String),
    /// The fetched bytes sniffed as no storable image format.
    UnsupportedFormat,
    /// The decoded image could not be saved.
    Save(String),
    /// The artworks directory could not be listed.
    ReadDir(String),
}

impl ArtworkError {
    /// The human-readable error string handed to the front end.
    pub fn message(&self) -> (r: String)
        ensures
            match *self {
                ArtworkError::Fetch(ref m) => r@ == m@,
                ArtworkError::Decode(ref m) => r@ == m@,
                ArtworkError::UnsupportedFormat => r@ == "Invalid image format"@,
                ArtworkError::Save(ref m) => r@ == m@,
                ArtworkError::ReadDir(ref m) => r@ == m@,
            },
    {
        match self {
            ArtworkError::Fetch(m) => m.clone(),
            ArtworkError::Decode(m) => m.clone(),
            ArtworkError::UnsupportedFormat => "Invalid image format".to_owned(),
            ArtworkError::Save(m) => m.clone(),
            ArtworkError::ReadDir(m) => m.clone(),
        }
    }
}

/// The filename a locally copied image is stored under: the canonical name
/// with the source path's own extension — deliberately not sniffed, unlike a
/// download's. Nothing when the source path has no extension.
pub fn copy_local_target(src_pathname: &str, new_filename: &str) -> (r: Option<String>)
    ensures
        match path_ext_spec(src_pathname@) {
            Some(e) => r matches Some(f) && f@ == new_filename@ + "."@ + e,
            None => r matches None,
        },
{
    match path_extension(src_pathname) {
        Some(e) => Some(concat3(new_filename, ".", e.as_str())),
        None => None,
    }
}

/// Stores a fetched, already decoded image under the canonical name. The
/// extension is decided by sniffing the bytes' format: a format other than
/// png, jpeg, gif or webp is refused before anything is written, and with a
/// supported one the image is re-encoded at `<artworks_dir>/<name>.<ext>`,
/// where only the save itself can still fail.
pub fn store_fetched_image(
    artworks_dir: &str,
    bytes: &Vec<u8>,
    img: &image::DynamicImage,
    new_filename: &str,
) -> (r: Result<String, ArtworkError>)
    ensures
        ext_of_format(guessed_format(bytes@)) matches None ==> r matches Err(e) && e matches
            ArtworkError::UnsupportedFormat,
        ext_of_format(guessed_format(bytes@)) matches Some(ext) ==> match r {
            Ok(f) => f@ == new_filename@ + "."@ + ext,
            Err(e) => e matches ArtworkError::Save(_),
        },
{
    let ext = match ext_for_format(guess_format_kind(bytes.as_slice())) {
        Some(e) => e,
        None => { return Err(ArtworkError::UnsupportedFormat); },
    };
    let filename = concat3(new_filename, ".", ext);
    let dest = join_path(artworks_dir, filename.as_str());
    match save_image(img, dest.as_str()) {
        Ok(_) => Ok(filename),
        Err(m) => Err(ArtworkError::Save(m)),
    }
}

/// Downloads an image into the artworks directory. The bytes are fetched,
/// decoded to prove they are an image, and handed to `store_fetched_image`,
/// whose contract decides the stored extension — from the bytes, never from
/// the URL — and the refusal of an unsupported format. On success the
/// returned filename is the canonical name with the sniffed extension; every
/// failure is a fetch, decode, unsupported-format or save error. The
/// artworks directory must already exist.
pub fn download_image(artworks_dir: &str, src_url: &str, new_filename: &str) -> (r: Result<
    String,
    ArtworkError,
>)
    ensures
        match r {
            Ok(f) => {
                ||| f@ == new_filename@ + "."@ + "png"@
                ||| f@ == new_filename@ + "."@ + "jpg"@
                ||| f@ == new_filename@ + "."@ + "gif"@
                ||| f@ == new_filename@ + "."@ + "webp"@
            },
            Err(e) => {
                ||| e matches ArtworkError::Fetch(_)
                ||| e matches ArtworkError::Decode(_)
                ||| e matches ArtworkError::UnsupportedFormat
                ||| e matches ArtworkError::Save(_)
            },
        },
{
    let bytes = match http_get_bytes(src_url) {
        Ok(b) => b,
        Err(m) => { return Err(ArtworkError::Fetch(m)); },
    };
    let img = match decode_image(bytes.as_slice()) {
        Ok(i) => i,
        Err(m) => { return Err(ArtworkError::Decode(m)); },
    };
    store_fetched_image(artworks_dir, &bytes, &img, new_filename)
}

/// How an asset deletion went. Deletion is recoverable — the file moves to
/// the system trash — and a trash failure is reported, not raised.
pub enum DeleteStatus {
    /// No filename was given, so there was nothing to delete.
    NothingToDelete,
    /// The asset went to the trash.
    Deleted,
    /// The trash refused; the text is the underlying error.
    TrashFailed(String),
}

impl DeleteStatus {
    /// The human-readable status string handed to the front end.
    pub fn message(&self) -> (r: String)
        ensures
            match *self {
                DeleteStatus::NothingToDelete => r@ == "Nothing to delete"@,
                DeleteStatus::Deleted => r@ == "File deleted"@,
                DeleteStatus::TrashFailed(ref m) => r@ == m@,
            },
    {
        match self {
            DeleteStatus::NothingToDelete => "Nothing to delete".to_owned(),
            DeleteStatus::Deleted => "File deleted".to_owned(),
            DeleteStatus::TrashFailed(m) => m.clone(),
        }
    }
}

/// Deletes one asset from the artworks directory, to the system trash. With
/// no filename there is nothing to delete and the call succeeds trivially;
/// with one, the outcome reports — never raises — a trash failure.
pub fn delete_image(artworks_dir: &str, delete_filename: Option<&str>) -> (r: DeleteStatus)
    ensures
        delete_filename matches None <==> r matches DeleteStatus::NothingToDelete,
{
    match delete_filename {
        None => DeleteStatus::NothingToDelete,
        Some(f) => {
            let p = join_path(artworks_dir, f);
            match trash_delete(p.as_str()) {
                Ok(_) => DeleteStatus::Deleted,
                Err(m) => DeleteStatus::TrashFailed(m),
            }
        },
    }
}

/// The mathematical content of one artworks-directory entry.
pub ghost struct CandidateView {
    pub filename: Seq<char>,
    pub pathname: Seq<char>,
    pub mime: Option<Seq<char>>,
    pub is_file: bool,
}

/// One entry of the artworks directory, with its sniffed mime type.
pub struct ArtworkCandidate {
    pub filename: String,
    pub pathname: String,
    pub mime: Option<String>,
    pub is_file: bool,
}

impl View for ArtworkCandidate {
    type V = CandidateView;

    open spec fn view(&self) -> CandidateView {
        CandidateView {
            filename: self.filename@,
            pathname: self.pathname@,
            mime: opt_string_view(self.mime),
            is_file: self.is_file,
        }
    }
}

/// The views of a sequence of candidates.
pub open spec fn candidates_view(v: Seq<ArtworkCandidate>) -> Seq<CandidateView> {
    v.map_values(|c: ArtworkCandidate| c@)
}

/// Whether the sweep removes an entry: it is a regular file, its bytes sniff
/// as a managed image type, and its filename is not in the keep set.
/// Anything not recognized as an image is not managed artwork and is left
/// untouched, kept or not.
pub open spec fn sweepable(c: CandidateView, keep: Seq<Seq<char>>) -> bool {
    c.is_file && classification_of(c.mime) == Some(ContentKind::Image) && !seq_has_str(
        keep,
        c.filename,
    )
}

/// The indices of the entries the sweep removes, in listing order.
pub open spec fn sweep_indices(cands: Seq<CandidateView>, keep: Seq<Seq<char>>) -> Seq<int>
    decreases cands.len(),
{
    if cands.len() == 0 {
        Seq::<int>::empty()
    } else {
        let rest = sweep_indices(cands.drop_last(), keep);
        if sweepable(cands.last(), keep) {
            rest.push(cands.len() - 1)
        } else {
            rest
        }
    }
}

proof fn lemma_sweep_indices_step(cands: Seq<CandidateView>, keep: Seq<Seq<char>>, i: int)
    requires
        0 <= i < cands.len(),
    ensures
        sweep_indices(cands.take(i + 1), keep) == if sweepable(cands[i], keep) {
            sweep_indices(cands.take(i), keep).push(i)
        } else {
            sweep_indices(cands.take(i), keep)
        },
{
    assert(cands.take(i + 1).drop_last() =~= cands.take(i));
    assert(cands.take(i + 1).last() == cands[i]);
}

/// Picks the entries a sweep with this keep set removes: exactly the listed
/// regular files whose bytes sniff as a managed image type and whose
/// filenames the caller no longer references, in listing order.
pub fn select_unused(cands: &Vec<ArtworkCandidate>, keep: &Vec<String>) -> (r: Vec<usize>)
    ensures
        r@.map_values(|u: usize| u as int) == sweep_indices(candidates_view(cands@), strings_view(keep@)),
        forall|k: int| 0 <= k < r@.len() ==> (#[trigger] r@[k]) < cands@.len(),
{
    let ghost cv = candidates_view(cands@);
    let ghost kv = strings_view(keep@);
    let mut out: Vec<usize> = Vec::new();
    let mut i: usize = 0;
    proof {
        assert(cv.take(0) =~= Seq::<CandidateView>::empty());
        assert(out@.map_values(|u: usize| u as int) =~= Seq::<int>::empty());
    }
    while i < cands.len()
        invariant
            i <= cands@.len(),
            cv == candidates_view(cands@),
            kv == strings_view(keep@),
            out@.map_values(|u: usize| u as int) == sweep_indices(cv.take(i as int), kv),
            forall|k: int| 0 <= k < out@.len() ==> (#[trigger] out@[k]) < cands@.len(),
        decreases cands@.len() - i,
    {
        proof {
            lemma_sweep_indices_step(cv, kv, i as int);
            assert(cv[i as int] == cands@[i as int]@);
        }
        let c = &cands[i];
        let is_image = matches!(classify_sniffed(&c.mime), Some(ContentKind::Image));
        if c.is_file && is_image && !strings_have(keep, c.filename.as_str()) {
            out.push(i);
            proof {
                assert(out@.map_values(|u: usize| u as int) =~= sweep_indices(
                    cv.take(i + 1),
                    kv,
                ));
            }
        } else {
            proof {
                assert(!sweepable(cv[i as int], kv));
            }
        }
        i += 1;
    }
    proof {
        assert(cv.take(cands@.len() as int) =~= cv);
    }
    out
}

/// How a sweep ended: how many files went to the trash, and the trash error
/// that stopped it early, if one did. A trash failure is reported, not
/// raised, and the count covers what was deleted before it.
pub struct SweepOutcome {
    pub deleted: usize,
    pub warning: Option<String>,
}

/// Sweeps a listed set of candidates against the keep set: every sweepable
/// one — and only those — is moved to the trash, in listing order, until the
/// trash first refuses. The count covers exactly the successful deletions,
/// never more than the sweepable candidates; with no warning, every
/// sweepable candidate went to the trash; and with nothing sweepable the
/// sweep owes success, since no outside call is made at all.
pub fn sweep_artworks(cands: &Vec<ArtworkCandidate>, filenames_to_keep: &Vec<String>) -> (r:
    SweepOutcome)
    ensures
        r.deleted <= sweep_indices(candidates_view(cands@), strings_view(filenames_to_keep@)).len(),
        r.warning matches None ==> r.deleted == sweep_indices(
            candidates_view(cands@),
            strings_view(filenames_to_keep@),
        ).len(),
        sweep_indices(candidates_view(cands@), strings_view(filenames_to_keep@)).len() == 0 ==> (
        r.warning matches None && r.deleted == 0),
{
    let picked = select_unused(cands, filenames_to_keep);
    proof {
        assert(picked@.map_values(|u: usize| u as int).len() == picked@.len());
    }
    let mut deleted: usize = 0;
    let mut k: usize = 0;
    while k < picked.len()
        invariant
            deleted == k,
            k <= picked@.len(),
            picked@.len() == sweep_indices(
                candidates_view(cands@),
                strings_view(filenames_to_keep@),
            ).len(),
            forall|j: int| 0 <= j < picked@.len() ==> (#[trigger] picked@[j]) < cands@.len(),
        decreases picked@.len() - k,
    {
        let idx = picked[k];
        match trash_delete(cands[idx].pathname.as_str()) {
            Ok(_) => {
                deleted += 1;
            },
            Err(m) => {
                return SweepOutcome { deleted, warning: Some(m) };
            },
        }
        k += 1;
    }
    SweepOutcome { deleted, warning: None }
}

/// Reconciles the artworks directory against the authoritative keep set:
/// lists the directory, sniffs every regular file, and hands the candidates
/// to `sweep_artworks`. The only failure is the listing error, before
/// anything is deleted; on success the outcome satisfies the sweep's
/// contract over the listed candidates, returned as a ghost alongside it.
/// Files not recognized as images are never touched.
pub fn delete_unused_images(artworks_dir: &str, filenames_to_keep: &Vec<String>) -> (r: (
    Result<SweepOutcome, ArtworkError>,
    Ghost<Seq<CandidateView>>,
))
    ensures
        r.0 matches Err(e) ==> e matches ArtworkError::ReadDir(_),
        r.0 matches Ok(o) ==> {
            &&& o.deleted <= sweep_indices(r.1@, strings_view(filenames_to_keep@)).len()
            &&& (o.warning matches None ==> o.deleted == sweep_indices(
                r.1@,
                strings_view(filenames_to_keep@),
            ).len())
            &&& (sweep_indices(r.1@, strings_view(filenames_to_keep@)).len() == 0 ==> (
            o.warning matches None && o.deleted == 0))
        },
{
    let entries = match list_dir(artworks_dir) {
        Ok(v) => v,
        Err(m) => {
            return (Err(ArtworkError::ReadDir(m)), Ghost(Seq::<CandidateView>::empty()));
        },
    };
    let mut cands: Vec<ArtworkCandidate> = Vec::new();
    let mut i: usize = 0;
    while i < entries.len()
        decreases entries@.len() - i,
    {
        let e = &entries[i];
        let mime = if e.is_file {
            sniff_path(e.pathname.as_str())
        } else {
            None
        };
        cands.push(ArtworkCandidate {
            filename: e.name.clone(),
            pathname: e.pathname.clone(),
            mime,
            is_file: e.is_file,
        });
        i += 1;
    }
    let outcome = sweep_artworks(&cands, filenames_to_keep);
    (Ok(outcome), Ghost(candidates_view(cands@)))
}

} // verus!
