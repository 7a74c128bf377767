//! The per-install bearer secret that the OBS plugin presents to the agent:
//! 64 hexadecimal digits kept in an owner-only file of the application
//! support directory.

use crate::paths::{join_file_name, joined_path};
use crate::random::os_random_bytes;
use crate::secret::Secret;
use crate::text::{encode_hex_lower, hex_lower, is_hex_digit, push_str};
use std::path::PathBuf;
use vstd::prelude::*;
use vstd::string::*;

verus! {

pub const APP_SUPPORT_DIRECTORY_NAME: &'static str = "OBS-Telegram-Send";

pub const INSTALL_BEARER_FILE_NAME: &'static str = "loopback-install-bearer";

/// How many times a bearer file that is being written by another agent is
/// read before it is declared invalid.
pub const READ_RETRY_COUNT: usize = 10;

/// How long to wait between two such reads, in milliseconds.
pub const READ_RETRY_DELAY_MILLIS: u64 = 5;

#[derive(Debug, Clone, Copy, PartialEq, Eq, Structural)]
pub enum InstallBearerStoreError {
    Unavailable,
    InvalidStoredBearer,
}

/// A stored bearer is exactly 64 hexadecimal digits.
pub open spec fn valid_bearer_text(value: Seq<char>) -> bool {
    &&& value.len() == 64
    &&& forall|i: int| 0 <= i < value.len() ==> is_hex_digit(#[trigger] value[i])
}

/// The bearer a load takes from a stored text: the text itself where it is a
/// valid bearer, none otherwise.
pub open spec fn loaded_bearer(stored: Seq<char>) -> Option<Seq<char>> {
    if valid_bearer_text(stored) {
        Some(stored)
    } else {
        None
    }
}

/// Whether `value` is a well-formed bearer (64 hexadecimal digits).
pub fn valid_bearer(value: &str) -> (valid: bool)
    ensures
        valid == valid_bearer_text(value@),
{
    let n = value.unicode_len();
    if n != 64 {
        return false;
    }
    let mut i: usize = 0;
    while i < n
        invariant
            n == value@.len(),
            i <= n,
            forall|j: int| 0 <= j < i ==> is_hex_digit(#[trigger] value@[j]),
        decreases n - i,
    {
        let c = value.get_char(i);
        if !(('0' <= c && c <= '9') || ('a' <= c && c <= 'f') || ('A' <= c && c <= 'F')) {
            return false;
        }
        i = i + 1;
    }
    true
}

/// A new bearer: 32 bytes from the operating system's generator, in
/// lower-case hexadecimal. `None` where the generator failed.
pub fn generated_bearer() -> (bearer: Option<String>)
    ensures
        bearer matches Some(b) ==> exists|bytes: Seq<u8>|
            bytes.len() == 32 && b@ == hex_lower(bytes),
        bearer matches Some(b) ==> valid_bearer_text(b@),
{
    match os_random_bytes(32) {
        Some(bytes) => {
            proof {
                lemma_generated_bearer_is_valid(bytes@);
            }
            Some(encode_hex_lower(bytes.as_slice()))
        },
        None => None,
    }
}

/// Every bearer that `generated_bearer` can give is one that `valid_bearer`
/// accepts. With `after_read`, which accepts a valid stored bearer and hands
/// back its text unchanged, the bearer written by this agent is the one every
/// later start reads: it is stable across restarts.
pub proof fn lemma_generated_bearer_is_valid(bytes: Seq<u8>)
    requires
        bytes.len() == 32,
    ensures
        valid_bearer_text(hex_lower(bytes)),
{
    let h = hex_lower(bytes);
    assert forall|i: int| 0 <= i < h.len() implies is_hex_digit(#[trigger] h[i]) by {
        let b = bytes[i / 2];
        assert(b / 16 < 16) by (nonlinear_arith)
            requires
                b < 256,
        ;
    }
}

/// The bearer is stable across restarts: the text a creator stores loads as
/// itself, and every load of one stored text gives the same bearer, which
/// loads as itself again.
pub proof fn lemma_bearer_stable_across_restarts(bytes: Seq<u8>, stored: Seq<char>)
    requires
        bytes.len() == 32,
    ensures
        loaded_bearer(hex_lower(bytes)) == Some(hex_lower(bytes)),
        loaded_bearer(stored) matches Some(b) ==> b == stored && loaded_bearer(b) == Some(b),
{
    lemma_generated_bearer_is_valid(bytes);
}

/// The bearer a creator ends with, after linking its own bearer `own` to the
/// bearer path, where `stored` is what the path then holds.
pub open spec fn bearer_after_link(outcome: CreateOutcome, own: Seq<char>, stored: Seq<char>) -> Option<
    Seq<char>,
> {
    match outcome {
        CreateOutcome::Done => Some(own),
        CreateOutcome::AlreadyExists => loaded_bearer(stored),
        CreateOutcome::Failed => None,
    }
}

/// Concurrent creators end with one bearer. A link never replaces an existing
/// file, so the creator whose link succeeded stored the bearer `winner` that
/// the path holds; each creator that links first uses its own bearer, and
/// each that finds the path taken loads it. Every creator that ends with a
/// bearer ends with `winner`.
pub proof fn lemma_concurrent_creators_agree(
    outcomes: Seq<CreateOutcome>,
    owns: Seq<Seq<char>>,
    winner: Seq<char>,
)
    requires
        outcomes.len() == owns.len(),
        valid_bearer_text(winner),
        forall|i: int| 0 <= i < outcomes.len() && outcomes[i] == CreateOutcome::Done ==> owns[i] == winner,
    ensures
        forall|i: int|
            0 <= i < outcomes.len() ==> (#[trigger] bearer_after_link(outcomes[i], owns[i], winner)
                matches Some(b) ==> b == winner),
{
}

/// The name of the temporary file a new bearer is written to before it is
/// linked into place: `.loopback-install-bearer.tmp-` and 16 hexadecimal
/// digits.
pub open spec fn temporary_name_text(suffix: Seq<u8>) -> Seq<char> {
    "."@ + INSTALL_BEARER_FILE_NAME@ + ".tmp-"@ + hex_lower(suffix)
}

/// A fresh temporary file name with a random 64-bit suffix. `None` where the
/// operating system's generator failed.
pub fn temporary_file_name() -> (name: Option<String>)
    ensures
        name matches Some(n) ==> exists|suffix: Seq<u8>|
            suffix.len() == 8 && n@ == temporary_name_text(suffix),
{
    match os_random_bytes(8) {
        Some(bytes) => Some(temporary_name_from(bytes.as_slice())),
        None => None,
    }
}

/// The temporary file name with the given random suffix.
pub fn temporary_name_from(suffix: &[u8]) -> (name: String)
    requires
        suffix@.len() <= usize::MAX / 2,
    ensures
        name@ == temporary_name_text(suffix@),
{
    let mut name = String::new();
    push_str(&mut name, ".");
    push_str(&mut name, INSTALL_BEARER_FILE_NAME);
    push_str(&mut name, ".tmp-");
    let digits = encode_hex_lower(suffix);
    push_str(&mut name, digits.as_str());
    proof {
        assert(name@ =~= temporary_name_text(suffix@));
    }
    name
}

/// What a read of the bearer file came to.
pub enum BearerRead {
    Contents(String),
    NotFound,
    Failed,
}

/// What `load_or_create` does after a read.
pub enum LoadStep {
    /// The contents are a valid bearer: make the file owner-only and use it.
    Accept(Secret),
    /// The contents are not (yet) a valid bearer: wait and read again.
    RetryAfterDelay,
    /// There is no bearer yet: create one.
    Create,
    /// Give up with this error.
    Fail(InstallBearerStoreError),
}

/// The decision after read number `attempt` (from zero) of the bearer file.
/// A file whose contents are not a valid bearer may be being written by
/// another agent, so it is read again, up to `READ_RETRY_COUNT` reads in
/// all; then it is declared invalid.
pub fn after_read(attempt: usize, read: BearerRead) -> (step: LoadStep)
    requires
        attempt < READ_RETRY_COUNT,
    ensures
        match read {
            BearerRead::Contents(v) => if loaded_bearer(v@) is Some {
                step matches LoadStep::Accept(s) && Some(s@) == loaded_bearer(v@)
            } else if attempt + 1 < READ_RETRY_COUNT {
                step is RetryAfterDelay
            } else {
                step == LoadStep::Fail(InstallBearerStoreError::InvalidStoredBearer)
            },
            BearerRead::NotFound => step is Create,
            BearerRead::Failed => step == LoadStep::Fail(InstallBearerStoreError::Unavailable),
        },
{
    match read {
        BearerRead::Contents(value) => {
            if valid_bearer(value.as_str()) {
                LoadStep::Accept(Secret::new(value))
            } else if attempt + 1 < READ_RETRY_COUNT {
                LoadStep::RetryAfterDelay
            } else {
                LoadStep::Fail(InstallBearerStoreError::InvalidStoredBearer)
            }
        },
        BearerRead::NotFound => LoadStep::Create,
        BearerRead::Failed => LoadStep::Fail(InstallBearerStoreError::Unavailable),
    }
}

/// What an attempt to create a file came to.
#[derive(Debug, Clone, Copy, PartialEq, Eq, Structural)]
pub enum CreateOutcome {
    Done,
    AlreadyExists,
    Failed,
}

/// What `create_bearer` does after creating the temporary file.
#[derive(Debug, Clone, Copy, PartialEq, Eq, Structural)]
pub enum CreateStep {
    /// Write the bearer into the new temporary file.
    Write,
    /// The random name was taken: try again with another.
    TryAnotherName,
    Fail(InstallBearerStoreError),
}

pub fn after_create_temporary(outcome: CreateOutcome) -> (step: CreateStep)
    ensures
        step == match outcome {
            CreateOutcome::Done => CreateStep::Write,
            CreateOutcome::AlreadyExists => CreateStep::TryAnotherName,
            CreateOutcome::Failed => CreateStep::Fail(InstallBearerStoreError::Unavailable),
        },
{
    match outcome {
        CreateOutcome::Done => CreateStep::Write,
        CreateOutcome::AlreadyExists => CreateStep::TryAnotherName,
        CreateOutcome::Failed => CreateStep::Fail(InstallBearerStoreError::Unavailable),
    }
}

/// What `create_bearer` does after linking the written temporary file to the
/// bearer's path (a link never replaces an existing bearer).
#[derive(Debug, Clone, Copy, PartialEq, Eq, Structural)]
pub enum LinkStep {
    /// Remove the temporary name and use the new bearer.
    UseNewBearer,
    /// Another agent stored a bearer first: remove the temporary file and load
    /// that one.
    LoadExisting,
    /// Remove the temporary file and give up.
    Fail(InstallBearerStoreError),
}

pub fn after_link(outcome: CreateOutcome) -> (step: LinkStep)
    ensures
        step == match outcome {
            CreateOutcome::Done => LinkStep::UseNewBearer,
            CreateOutcome::AlreadyExists => LinkStep::LoadExisting,
            CreateOutcome::Failed => LinkStep::Fail(InstallBearerStoreError::Unavailable),
        },
{
    match outcome {
        CreateOutcome::Done => LinkStep::UseNewBearer,
        CreateOutcome::AlreadyExists => LinkStep::LoadExisting,
        CreateOutcome::Failed => LinkStep::Fail(InstallBearerStoreError::Unavailable),
    }
}

/// The agent's application support directory below the user's local data
/// directory `data_local_dir`.
pub fn application_support_at(data_local_dir: &PathBuf) -> (directory: PathBuf)
    ensures
        directory == joined_path(*data_local_dir, APP_SUPPORT_DIRECTORY_NAME@),
{
    join_file_name(data_local_dir, APP_SUPPORT_DIRECTORY_NAME)
}

/// Where the bearer is kept: a file in `directory`.
pub struct InstallBearerStore {
    directory: PathBuf,
}

impl InstallBearerStore {
    /// The store in the agent's application support directory, below the
    /// user's local data directory `data_local_dir`.
    pub fn in_app_support_at(data_local_dir: &PathBuf) -> (store: Self)
        ensures
            store.directory_spec() == joined_path(*data_local_dir, APP_SUPPORT_DIRECTORY_NAME@),
    {
        InstallBearerStore { directory: application_support_at(data_local_dir) }
    }

    pub closed spec fn directory_spec(&self) -> PathBuf {
        self.directory
    }

    /// The store in `directory`.
    pub fn at(directory: PathBuf) -> (store: Self)
        ensures
            store.directory_spec() == directory,
    {
        InstallBearerStore { directory }
    }

    /// The store's directory.
    pub fn directory(&self) -> (directory: &PathBuf)
        ensures
            *directory == self.directory_spec(),
    {
        &self.directory
    }

    /// The bearer file: `loopback-install-bearer` in the store's directory.
    pub fn path(&self) -> (path: PathBuf)
        ensures
            path == joined_path(self.directory_spec(), INSTALL_BEARER_FILE_NAME@),
    {
        join_file_name(&self.directory, INSTALL_BEARER_FILE_NAME)
    }

    /// A new temporary file in the store's directory, named by
    /// `temporary_file_name`.
    pub fn temporary_path(&self) -> (path: Option<PathBuf>)
        ensures
            path matches Some(p) ==> exists|suffix: Seq<u8>|
                suffix.len() == 8 && p == joined_path(
                    self.directory_spec(),
                    temporary_name_text(suffix),
                ),
    {
        match temporary_file_name() {
            Some(name) => Some(join_file_name(&self.directory, name.as_str())),
            None => None,
        }
    }
}

} // verus!
