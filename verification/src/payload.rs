//! Keeping submitted material under names that its content decides.
use crate::config::{PayloadConfig, PayloadConfigView};
use crate::error::{Error, ErrorView, Model, Result};
use crate::text::{cat2, chars_of, hex, hex_digit, hex_text};
use vstd::prelude::*;

verus! {

/// The SHA-256 digest of bytes.
pub uninterp spec fn sha256_of(bytes: Seq<u8>) -> Seq<u8>;

/// `Sha256::digest` of the crate `sha2`: 32 bytes that depend on the input alone.
#[verifier::external_body]
fn sha256(bytes: &[u8]) -> (digest: Vec<u8>)
    ensures
        digest@ == sha256_of(bytes@),
        digest@.len() == 32,
{
    <sha2::Sha256 as sha2::Digest>::digest(bytes).to_vec()
}

/// Where material is kept, and how much of it at a time.
pub struct PayloadStore {
    pub config: PayloadConfig,
    pub max_bytes: usize,
}

/// Material that is kept.
#[derive(Debug)]
pub struct CapturedPayload {
    pub storage_id: String,
    pub sha256: String,
    pub size: usize,
    pub newly_stored: bool,
}

/// Under which names material is going to be kept.
#[derive(Debug)]
pub struct CapturePlan {
    pub storage_id: String,
    pub sha256: String,
    pub size: usize,
    pub file_name: String,
}

/// What stands at the place where material belongs.
#[derive(Clone, Copy, Debug, PartialEq, Eq, Structural)]
pub enum Stored {
    Absent,
    File(u64),
    Other,
}

/// What came of an attempt to give material its final name without replacing anything.
#[derive(Clone, Copy, Debug, PartialEq, Eq, Structural)]
pub enum Publication {
    Linked,
    Taken(Stored),
}

/// The model of a [`CapturedPayload`].
pub struct CapturedView {
    pub storage_id: Seq<char>,
    pub sha256: Seq<char>,
    pub size: usize,
    pub newly_stored: bool,
}

/// The model of a [`CapturePlan`].
pub struct PlanView {
    pub storage_id: Seq<char>,
    pub sha256: Seq<char>,
    pub size: usize,
    pub file_name: Seq<char>,
}

impl View for CapturedPayload {
    type V = CapturedView;

    open spec fn view(&self) -> CapturedView {
        CapturedView {
            storage_id: self.storage_id@,
            sha256: self.sha256@,
            size: self.size,
            newly_stored: self.newly_stored,
        }
    }
}

impl View for CapturePlan {
    type V = PlanView;

    open spec fn view(&self) -> PlanView {
        PlanView {
            storage_id: self.storage_id@,
            sha256: self.sha256@,
            size: self.size,
            file_name: self.file_name@,
        }
    }
}

// ---------------------------------------------------------------------------
// Names

/// Whether a character may stand in a generated name.
pub open spec fn name_char(c: char) -> bool {
    ('0' <= c && c <= '9') || ('a' <= c && c <= 'z') || ('A' <= c && c <= 'Z') || c == '-'
}

/// Whether a generated name names a file of the store and nothing else.
pub open spec fn safe_name(id: Seq<char>) -> bool {
    forall|i: int| 0 <= i < id.len() ==> name_char(#[trigger] id[i])
}

/// The file that a generated name stands for.
pub open spec fn file_of(id: Seq<char>) -> Model<Seq<char>> {
    if safe_name(id) {
        Ok(id + ".bin"@)
    } else {
        Err(ErrorView::Config("invalid generated payload identifier"@))
    }
}

/// The file that a generated name stands for, within the directory of the store.
pub fn safe_path(generated_id: &str) -> (result: Result<String>)
    ensures
        crate::error::outcome(result) == file_of(generated_id@),
{
    let chars = chars_of(generated_id);
    let mut i: usize = 0;
    while i < chars.len()
        invariant
            i <= chars@.len(),
            chars@ == generated_id@,
            forall|j: int| 0 <= j < i ==> name_char(#[trigger] chars@[j]),
        decreases chars.len() - i,
    {
        let c = chars[i];
        let good = ('0' <= c && c <= '9') || ('a' <= c && c <= 'z') || ('A' <= c && c <= 'Z') || c
            == '-';
        if !good {
            assert(!name_char(chars@[i as int]));
            return Err(Error::Config("invalid generated payload identifier".to_owned()));
        }
        i += 1;
    }
    Ok(cat2(generated_id, ".bin"))
}

/// The name of material with a digest.
pub open spec fn storage_id_of(digest: Seq<u8>) -> Seq<char> {
    "sha256-"@ + hex_text(digest)
}

proof fn lemma_hex_is_safe(bytes: Seq<u8>)
    ensures
        safe_name(hex_text(bytes)),
        hex_text(bytes).len() == 2 * bytes.len(),
    decreases bytes.len(),
{
    if bytes.len() > 0 {
        lemma_hex_is_safe(bytes.drop_last());
        let b = bytes.last();
        assert(name_char(hex_digit(b as int / 16)));
        assert(name_char(hex_digit(b as int % 16)));
    }
}

/// The names that digests give are safe, and tell the digest in 64 digits.
pub proof fn lemma_storage_ids_are_safe(digest: Seq<u8>)
    requires
        digest.len() == 32,
    ensures
        safe_name(storage_id_of(digest)),
        hex_text(digest).len() == 64,
{
    lemma_hex_is_safe(digest);
    reveal_strlit("sha256-");
    let id = storage_id_of(digest);
    assert forall|i: int| 0 <= i < id.len() implies name_char(#[trigger] id[i]) by {
        if i >= 7 {
            assert(id[i] == hex_text(digest)[i - 7]);
        }
    }
}

// ---------------------------------------------------------------------------
// Capturing

/// What a digest plans for material of a size.
pub open spec fn plan_for(digest: Seq<u8>, size: usize) -> PlanView {
    PlanView {
        storage_id: storage_id_of(digest),
        sha256: hex_text(digest),
        size,
        file_name: storage_id_of(digest) + ".bin"@,
    }
}

/// What is planned for material: nothing where none is kept, an error where it is too large,
/// and else a name that its content decides.
pub open spec fn planned(config: PayloadConfigView, max_bytes: usize, bytes: Seq<u8>) -> Model<
    Option<PlanView>,
> {
    if !config.enabled {
        Ok(None)
    } else if bytes.len() > max_bytes {
        Err(ErrorView::Limit("maximum captured payload size"@))
    } else {
        Ok(Some(plan_for(sha256_of(bytes), bytes.len() as usize)))
    }
}

/// The plan for material of a size with a digest.
pub fn plan_of_digest(digest: &[u8], size: usize) -> (plan: CapturePlan)
    ensures
        plan@ == plan_for(digest@, size),
{
    let text = hex(digest);
    let storage_id = cat2("sha256-", text.as_str());
    let file_name = cat2(storage_id.as_str(), ".bin");
    CapturePlan { storage_id, sha256: text, size, file_name }
}

impl PayloadStore {
    /// A store. Its directory is there, where it is enabled.
    pub fn new(config: PayloadConfig, max_bytes: usize) -> (store: PayloadStore)
        ensures
            store.config == config,
            store.max_bytes == max_bytes,
    {
        PayloadStore { config, max_bytes }
    }

    /// What is planned for material. The names that are planned are safe, and tell the digest
    /// in 64 digits.
    pub fn plan(&self, bytes: &[u8]) -> (result: Result<Option<CapturePlan>>)
        ensures
            match planned(self.config@, self.max_bytes, bytes@) {
                Ok(plan) => result is Ok && crate::text::opt_view(result->Ok_0) == plan,
                Err(error) => result is Err && result->Err_0@ == error,
            },
            result matches Ok(Some(plan)) ==> plan@.sha256.len() == 64 && safe_name(
                plan@.storage_id,
            ),
    {
        if !self.config.enabled {
            return Ok(None);
        }
        if bytes.len() > self.max_bytes {
            return Err(Error::Limit("maximum captured payload size"));
        }
        let digest = sha256(bytes);
        proof {
            lemma_storage_ids_are_safe(digest@);
        }
        Ok(Some(plan_of_digest(digest.as_slice(), bytes.len())))
    }
}

/// Whether material of a size is kept already, by what stands in its place. Anything there but
/// a file of that size is an error.
pub open spec fn kept(size: usize, stored: Stored, path: Seq<char>) -> Model<bool> {
    match stored {
        Stored::Absent => Ok(false),
        Stored::File(length) if length == size => Ok(true),
        _ => Err(ErrorView::Config("content-addressed payload path is corrupt: "@ + path)),
    }
}

/// Whether material is new in the store, by what came of naming it.
pub open spec fn published(size: usize, publication: Publication, path: Seq<char>) -> Model<bool> {
    match publication {
        Publication::Linked => Ok(true),
        Publication::Taken(stored) => match kept(size, stored, path) {
            Ok(true) => Ok(false),
            Ok(false) => Err(
                ErrorView::Config("content-addressed payload disappeared during capture"@),
            ),
            Err(error) => Err(error),
        },
    }
}

impl PlanView {
    /// The material as it is reported.
    pub open spec fn captured(self, newly_stored: bool) -> CapturedView {
        CapturedView {
            storage_id: self.storage_id,
            sha256: self.sha256,
            size: self.size,
            newly_stored,
        }
    }
}

impl CapturePlan {
    /// Whether the material is kept already, by what stands in its place.
    pub fn already_stored(&self, stored: Stored, path: &str) -> (result: Result<bool>)
        ensures
            match kept(self@.size, stored, path@) {
                Ok(yes) => result is Ok && result->Ok_0 == yes,
                Err(error) => result is Err && result->Err_0@ == error,
            },
    {
        match stored {
            Stored::Absent => Ok(false),
            Stored::File(length) if length == self.size as u64 => Ok(true),
            _ => Err(
                Error::Config(cat2("content-addressed payload path is corrupt: ", path)),
            ),
        }
    }

    /// Whether the material is new in the store, by what came of naming it.
    pub fn newly_stored(&self, publication: Publication, path: &str) -> (result: Result<bool>)
        ensures
            match published(self@.size, publication, path@) {
                Ok(yes) => result is Ok && result->Ok_0 == yes,
                Err(error) => result is Err && result->Err_0@ == error,
            },
    {
        match publication {
            Publication::Linked => Ok(true),
            Publication::Taken(stored) => {
                if self.already_stored(stored, path)? {
                    Ok(false)
                } else {
                    Err(
                        Error::Config(
                            "content-addressed payload disappeared during capture".to_owned(),
                        ),
                    )
                }
            },
        }
    }

    /// The material as it is reported.
    pub fn captured(self, newly_stored: bool) -> (payload: CapturedPayload)
        ensures
            payload@ == self@.captured(newly_stored),
    {
        CapturedPayload {
            storage_id: self.storage_id,
            sha256: self.sha256,
            size: self.size,
            newly_stored,
        }
    }
}

// ---------------------------------------------------------------------------
// Laws

/// Equal material has one place, whoever hands it over and whatever the limits are.
pub proof fn lemma_content_decides_place(
    config: PayloadConfigView,
    other: PayloadConfigView,
    max_bytes: usize,
    other_max: usize,
    bytes: Seq<u8>,
)
    requires
        planned(config, max_bytes, bytes) matches Ok(Some(_)),
        planned(other, other_max, bytes) matches Ok(Some(_)),
    ensures
        planned(config, max_bytes, bytes) == planned(other, other_max, bytes),
{
}

/// Of two captures of the same material that race, the one that finds the name taken by the
/// other reports material that is kept under the same name and not new.
pub proof fn lemma_second_capture_is_not_new(
    config: PayloadConfigView,
    max_bytes: usize,
    bytes: Seq<u8>,
    path: Seq<char>,
)
    requires
        planned(config, max_bytes, bytes) matches Ok(Some(_)),
    ensures
        planned(config, max_bytes, bytes) matches Ok(Some(plan)) && {
            let won = published(plan.size, Publication::Linked, path);
            let lost = published(
                plan.size,
                Publication::Taken(Stored::File(bytes.len() as u64)),
                path,
            );
            &&& won == Ok::<bool, ErrorView>(true)
            &&& lost == Ok::<bool, ErrorView>(false)
            &&& plan.captured(won->Ok_0).storage_id == plan.captured(lost->Ok_0).storage_id
        },
{
}

/// What stands under a name in a directory.
pub open spec fn found_in(files: Map<Seq<char>, Seq<u8>>, name: Seq<char>) -> Stored {
    if files.dom().contains(name) {
        Stored::File(files[name].len() as u64)
    } else {
        Stored::Absent
    }
}

/// What a capture reports and leaves of a directory that nobody else writes to: it looks for
/// the material, and gives it its name where it is not there.
pub open spec fn capture_into(
    files: Map<Seq<char>, Seq<u8>>,
    config: PayloadConfigView,
    max_bytes: usize,
    bytes: Seq<u8>,
    path: Seq<char>,
) -> (Model<Option<CapturedView>>, Map<Seq<char>, Seq<u8>>) {
    match planned(config, max_bytes, bytes) {
        Err(error) => (Err(error), files),
        Ok(None) => (Ok(None), files),
        Ok(Some(plan)) => match kept(plan.size, found_in(files, plan.file_name), path) {
            Err(error) => (Err(error), files),
            Ok(true) => (Ok(Some(plan.captured(false))), files),
            Ok(false) => match published(plan.size, Publication::Linked, path) {
                Err(error) => (Err(error), files),
                Ok(new) => (
                    Ok(Some(plan.captured(new))),
                    files.insert(plan.file_name, bytes),
                ),
            },
        },
    }
}

/// Material is kept once: what was captured is captured again under the same name, is not new
/// then, and changes nothing. It is new the first time exactly where its name was free, and
/// then it stands under its name, with all else as it was.
pub proof fn lemma_material_is_kept_once(
    files: Map<Seq<char>, Seq<u8>>,
    config: PayloadConfigView,
    max_bytes: usize,
    bytes: Seq<u8>,
    path: Seq<char>,
    later_path: Seq<char>,
)
    requires
        capture_into(files, config, max_bytes, bytes, path).0 matches Ok(Some(_)),
    ensures
        ({
            let (first, after) = capture_into(files, config, max_bytes, bytes, path);
            let (second, later) = capture_into(after, config, max_bytes, bytes, later_path);
            let c = first->Ok_0->0;
            let name = c.storage_id + ".bin"@;
            &&& second == Ok::<Option<CapturedView>, ErrorView>(
                Some(CapturedView { newly_stored: false, ..c }),
            )
            &&& later == after
            &&& c.size == bytes.len()
            &&& c.storage_id == "sha256-"@ + c.sha256
            &&& c.newly_stored == !files.dom().contains(name)
            &&& c.newly_stored ==> after == files.insert(name, bytes)
            &&& !c.newly_stored ==> after == files
        }),
{
}

/// Enabled, a store captures all material within its limit whose name is free.
pub proof fn lemma_fresh_material_is_kept(
    files: Map<Seq<char>, Seq<u8>>,
    config: PayloadConfigView,
    max_bytes: usize,
    bytes: Seq<u8>,
    path: Seq<char>,
)
    requires
        config.enabled,
        bytes.len() <= max_bytes,
    ensures
        planned(config, max_bytes, bytes) matches Ok(Some(plan)) && (!files.dom().contains(
            plan.file_name,
        ) ==> capture_into(files, config, max_bytes, bytes, path).0 == Ok::<
            Option<CapturedView>,
            ErrorView,
        >(Some(plan.captured(true)))),
{
}

} // verus!
