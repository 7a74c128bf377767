//! Decisions and text of the Telegram Bot API client and of the local Bot API
//! server that the agent supervises.

use crate::config::{TelegramConfig, TelegramCredentials};
use crate::digest::{sha256_digest, sha256_of};
use crate::paths::{join_file_name, joined_path, path_text, path_text_lossy};
use crate::install_bearer::{application_support_at, APP_SUPPORT_DIRECTORY_NAME};
use crate::jobs::MAX_FILE_SIZE_BYTES;
use crate::secret::Secret;
use crate::text::{
    decimal_string, encode_hex_lower, hex_lower, parse_unsigned, parse_unsigned_in, decimal, push_decimal, push_str, signed_decimal, signed_decimal_string, str_equal,
    trim_end_slashes, trimmed_end_slashes,
};
use std::path::PathBuf;
use vstd::prelude::*;
use vstd::string::*;
use vstd::utf8::encode_utf8;

verus! {

pub const DEFAULT_BOT_API_ENDPOINT: &'static str = "http://127.0.0.1:8081";

pub const TELEGRAM_CLOUD_BOT_API_ENDPOINT: &'static str = "https://api.telegram.org";

pub const BOT_API_DATA_DIRECTORY_NAME: &'static str = "telegram-bot-api-data";

/// Why a Telegram operation other than an upload failed.
#[derive(Debug, Clone, Copy, PartialEq, Eq, Structural)]
pub enum TelegramError {
    ConfigurationUnavailable,
    ChatNotFound,
    FileTooLarge,
    RequestFailed,
}

/// Why an upload failed: rejected before any byte was sent, or sent without
/// a conclusive answer.
#[derive(Debug, Clone, Copy, PartialEq, Eq, Structural)]
pub enum UploadError {
    PreUploadRejected,
    TransportUncertain,
}

/// The sentence shown to the user for each error.
pub open spec fn error_text(error: TelegramError) -> Seq<char> {
    match error {
        TelegramError::ConfigurationUnavailable => "Telegram is not configured."@,
        TelegramError::ChatNotFound => "No Telegram chat was found. Send /start to the bot first."@,
        TelegramError::FileTooLarge => "The recording is larger than 2 GiB."@,
        TelegramError::RequestFailed => "Telegram could not complete the request."@,
    }
}

impl TelegramError {
    /// The sentence shown to the user (what the error displays as).
    pub fn message(&self) -> (text: String)
        ensures
            text@ == error_text(*self),
    {
        match self {
            TelegramError::ConfigurationUnavailable => String::from_str(
                "Telegram is not configured.",
            ),
            TelegramError::ChatNotFound => String::from_str(
                "No Telegram chat was found. Send /start to the bot first.",
            ),
            TelegramError::FileTooLarge => String::from_str("The recording is larger than 2 GiB."),
            TelegramError::RequestFailed => String::from_str(
                "Telegram could not complete the request.",
            ),
        }
    }
}

/// The address of a Bot API method: the endpoint without trailing slashes,
/// `/bot`, the token, `/` and the method.
pub open spec fn method_url_text(endpoint: Seq<char>, bot_token: Seq<char>, method: Seq<char>) -> Seq<
    char,
> {
    trim_end_slashes(endpoint) + "/bot"@ + bot_token + "/"@ + method
}

/// The address of the Bot API method `method` at `endpoint` for the bot
/// `bot_token`.
pub fn method_url(endpoint: &str, bot_token: &str, method: &str) -> (url: String)
    ensures
        url@ == method_url_text(endpoint@, bot_token@, method@),
{
    let mut url = trimmed_end_slashes(endpoint);
    push_str(&mut url, "/bot");
    push_str(&mut url, bot_token);
    push_str(&mut url, "/");
    push_str(&mut url, method);
    url
}

/// The endpoint of a local Bot API server listening on `port`.
pub open spec fn local_endpoint_text(port: u16) -> Seq<char> {
    "http://127.0.0.1:"@ + decimal(port as nat)
}

/// The endpoint of a local Bot API server listening on `port`.
pub fn local_endpoint(port: u16) -> (endpoint: String)
    ensures
        endpoint@ == local_endpoint_text(port),
{
    let mut endpoint = String::from_str("http://127.0.0.1:");
    push_decimal(&mut endpoint, port as u64);
    endpoint
}

/// The chat identifier as a form field value.
pub fn chat_id_text(chat_id: i64) -> (text: String)
    ensures
        text@ == signed_decimal(chat_id as int),
{
    signed_decimal_string(chat_id)
}

/// Whether a file extension names an MP4 recording, in any letter case.
pub open spec fn is_mp4_extension(extension: Seq<char>) -> bool {
    &&& extension.len() == 3
    &&& (extension[0] == 'm' || extension[0] == 'M')
    &&& (extension[1] == 'p' || extension[1] == 'P')
    &&& extension[2] == '4'
}

/// Whether a recording whose file extension is `extension` is sent as a
/// video: only MP4 is; anything else goes as a document.
pub fn sends_as_video(extension: Option<&str>) -> (video: bool)
    ensures
        video == (extension matches Some(e) && is_mp4_extension(e@)),
{
    match extension {
        Some(e) => {
            e.unicode_len() == 3 && {
                let a = e.get_char(0);
                let b = e.get_char(1);
                let c = e.get_char(2);
                (a == 'm' || a == 'M') && (b == 'p' || b == 'P') && c == '4'
            }
        },
        None => false,
    }
}

/// Only MP4 is sent as a video: an extension counts as MP4 exactly when it
/// spells `mp4` with each letter in either case; `mov`, `mkv`, `flv` and
/// every other extension are sent as documents.
pub proof fn lemma_only_mp4_is_sent_as_video(extension: Seq<char>)
    ensures
        is_mp4_extension(extension) <==> (extension.len() == 3 && forall|i: int|
            0 <= i < 3 ==> extension[i] == "mp4"@[i] || extension[i] == "MP4"@[i]),
{
    reveal_strlit("mp4");
    reveal_strlit("MP4");
    if extension.len() == 3 && forall|i: int|
        0 <= i < 3 ==> extension[i] == "mp4"@[i] || extension[i] == "MP4"@[i] {
        assert(extension[0] == "mp4"@[0] || extension[0] == "MP4"@[0]);
        assert(extension[1] == "mp4"@[1] || extension[1] == "MP4"@[1]);
        assert(extension[2] == "mp4"@[2] || extension[2] == "MP4"@[2]);
    }
}

/// The form field that carries the file, and the Bot API method.
pub open spec fn upload_target_text(video: bool) -> (Seq<char>, Seq<char>) {
    if video {
        ("video"@, "sendVideo"@)
    } else {
        ("document"@, "sendDocument"@)
    }
}

/// The form field and Bot API method of an upload.
pub fn upload_target(video: bool) -> (target: (&'static str, &'static str))
    ensures
        (target.0@, target.1@) == upload_target_text(video),
{
    if video {
        ("video", "sendVideo")
    } else {
        ("document", "sendDocument")
    }
}

/// A file over 2 GiB is refused before any byte is sent.
pub fn check_upload_size(size: u64) -> (result: Result<(), UploadError>)
    ensures
        result == (if size > MAX_FILE_SIZE_BYTES {
            Err(UploadError::PreUploadRejected)
        } else {
            Ok::<(), UploadError>(())
        }),
{
    if size > MAX_FILE_SIZE_BYTES {
        Err(UploadError::PreUploadRejected)
    } else {
        Ok(())
    }
}

/// An upload is sent only when Telegram answered the transfer with a success
/// status; any other end leaves it uncertain.
pub fn upload_result(transfer_answered: bool, success_status: bool) -> (result: Result<
    (),
    UploadError,
>)
    ensures
        result == (if transfer_answered && success_status {
            Ok::<(), UploadError>(())
        } else {
            Err(UploadError::TransportUncertain)
        }),
{
    if transfer_answered && success_status {
        Ok(())
    } else {
        Err(UploadError::TransportUncertain)
    }
}

/// What the chat detection reads of one update from `getUpdates`: the text of
/// its message, where the message has a text, and the message's chat
/// identifier, where it is an integer.
pub struct StartUpdate {
    pub text: Option<String>,
    pub chat_id: Option<i64>,
}

/// The message the user sends to the bot to reveal the chat: `/start` and the
/// nonce the wizard shows.
pub open spec fn start_command_text(nonce: Seq<char>) -> Seq<char> {
    "/start "@ + nonce
}

/// The chat of an update whose message is exactly `/start <nonce>`.
pub open spec fn start_chat(update: StartUpdate, nonce: Seq<char>) -> Option<i64> {
    match update.text {
        Some(t) => if t@ == start_command_text(nonce) {
            update.chat_id
        } else {
            None
        },
        None => None,
    }
}

/// The chat of the update, if its message is exactly `/start <nonce>`.
pub fn matching_start_chat(update: &StartUpdate, nonce: &str) -> (chat: Option<i64>)
    ensures
        chat == start_chat(*update, nonce@),
{
    match &update.text {
        Some(t) => {
            let mut expected = String::from_str("/start ");
            push_str(&mut expected, nonce);
            if str_equal(t.as_str(), expected.as_str()) {
                update.chat_id
            } else {
                None
            }
        },
        None => None,
    }
}

/// The chat of the first update, in order, that names one for `nonce`.
pub open spec fn first_start_chat(updates: Seq<StartUpdate>, nonce: Seq<char>) -> Option<i64>
    decreases updates.len(),
{
    if updates.len() == 0 {
        None
    } else {
        match start_chat(updates[0], nonce) {
            Some(c) => Some(c),
            None => first_start_chat(updates.drop_first(), nonce),
        }
    }
}

/// Whether update `u` is a `/start <nonce>` message from a chat with an
/// integer identifier.
pub open spec fn names_start_chat(u: StartUpdate, nonce: Seq<char>) -> bool {
    &&& u.text is Some
    &&& u.text->0@ == "/start "@ + nonce
    &&& u.chat_id is Some
}

/// Chat detection looks at every update, in order: where update `i` is the
/// first `/start <nonce>` message with an integer chat identifier, the chat
/// found is that update's chat, wherever `i` stands in the list (the only
/// update of a new bot included).
pub proof fn lemma_first_start_update_gives_its_chat(
    updates: Seq<StartUpdate>,
    nonce: Seq<char>,
    i: int,
)
    requires
        0 <= i < updates.len(),
        names_start_chat(updates[i], nonce),
        forall|j: int| 0 <= j < i ==> !names_start_chat(#[trigger] updates[j], nonce),
    ensures
        first_start_chat(updates, nonce) == updates[i].chat_id,
    decreases i,
{
    if i > 0 {
        let rest = updates.drop_first();
        assert(!names_start_chat(updates[0], nonce));
        assert forall|j: int| 0 <= j < i - 1 implies !names_start_chat(#[trigger] rest[j], nonce) by {
            assert(rest[j] == updates[j + 1]);
        }
        assert(rest[i - 1] == updates[i]);
        lemma_first_start_update_gives_its_chat(rest, nonce, i - 1);
    }
}

/// A detected chat always comes from a `/start <nonce>` message among the
/// updates, and where no update is one, no chat is found.
pub proof fn lemma_detected_chat_comes_from_a_start_update(
    updates: Seq<StartUpdate>,
    nonce: Seq<char>,
)
    ensures
        first_start_chat(updates, nonce) matches Some(c) ==> exists|i: int|
            0 <= i < updates.len() && names_start_chat(#[trigger] updates[i], nonce)
                && updates[i].chat_id == Some(c),
        (forall|i: int| 0 <= i < updates.len() ==> !names_start_chat(#[trigger] updates[i], nonce))
            ==> first_start_chat(updates, nonce) is None,
    decreases updates.len(),
{
    if updates.len() > 0 {
        let rest = updates.drop_first();
        lemma_detected_chat_comes_from_a_start_update(rest, nonce);
        if first_start_chat(updates, nonce) is Some && !names_start_chat(updates[0], nonce) {
            let i = choose|i: int|
                0 <= i < rest.len() && names_start_chat(#[trigger] rest[i], nonce)
                    && rest[i].chat_id == first_start_chat(updates, nonce);
            assert(rest[i] == updates[i + 1]);
        }
        if forall|i: int| 0 <= i < updates.len() ==> !names_start_chat(#[trigger] updates[i], nonce) {
            assert forall|i: int| 0 <= i < rest.len() implies !names_start_chat(#[trigger] rest[i], nonce) by {
                assert(rest[i] == updates[i + 1]);
            }
            assert(!names_start_chat(updates[0], nonce));
        }
    }
}

/// The chat named by `/start <nonce>` among the updates of `getUpdates`
/// (`None` where the answer held no list of updates).
pub fn detect_chat_in(updates: Option<&Vec<StartUpdate>>, nonce: &str) -> (result: Result<
    i64,
    TelegramError,
>)
    ensures
        result == match updates {
            None => Err(TelegramError::ChatNotFound),
            Some(u) => match first_start_chat(u@, nonce@) {
                Some(c) => Ok(c),
                None => Err(TelegramError::ChatNotFound),
            },
        },
{
    let list = match updates {
        None => return Err(TelegramError::ChatNotFound),
        Some(u) => u,
    };
    let mut i: usize = 0;
    assert(list@.skip(0) =~= list@);
    while i < list.len()
        invariant
            i <= list@.len(),
            first_start_chat(list@, nonce@) == first_start_chat(list@.skip(i as int), nonce@),
            updates == Some(list),
        decreases list@.len() - i,
    {
        let ghost rest = list@.skip(i as int);
        proof {
            assert(rest[0] == list@[i as int]);
            assert(rest.drop_first() =~= list@.skip(i + 1));
        }
        if let Some(chat) = matching_start_chat(&list[i], nonce) {
            assert(first_start_chat(rest, nonce@) == Some(chat));
            return Ok(chat);
        }
        i = i + 1;
    }
    proof {
        assert(list@.skip(i as int).len() == 0);
    }
    Err(TelegramError::ChatNotFound)
}

/// Whether a Bot API answer confirms a call: a success status and a JSON body
/// whose `ok` is `true`.
pub fn call_confirmed(success_status: bool, ok_field: Option<bool>) -> (confirmed: bool)
    ensures
        confirmed == (success_status && ok_field == Some(true)),
{
    success_status && match ok_field {
        Some(b) => b,
        None => false,
    }
}

/// Where the line that starts at `start` ends: at the first `\n` from there
/// on, or at the end of the text.
pub open spec fn line_end(s: Seq<char>, start: int) -> int
    decreases s.len() - start,
{
    if start >= s.len() || s[start] == '\n' {
        start
    } else {
        line_end(s, start + 1)
    }
}

/// A line of `s` starts at `start` (what `str::lines` yields: a text that
/// ends with `\n` has no empty line after it).
pub open spec fn is_line_start(s: Seq<char>, start: int) -> bool {
    &&& 0 <= start < s.len()
    &&& (start == 0 || s[start - 1] == '\n')
}

/// The line that starts at `start`, as `str::lines` yields it: without its
/// `\n`, and without a `\r` just before that `\n`.
pub open spec fn line_at(s: Seq<char>, start: int) -> Seq<char> {
    let e = line_end(s, start);
    if e < s.len() && e > start && s[e - 1] == '\r' {
        s.subrange(start, e - 1)
    } else {
        s.subrange(start, e)
    }
}

/// The process identifier on an `lsof -Fp` line: `p` and a number that fits
/// in 32 bits.
pub open spec fn listed_pid(line: Seq<char>) -> Option<nat> {
    if line.len() > 0 && line[0] == 'p' {
        parse_unsigned(line.drop_first(), 0xffff_ffff)
    } else {
        None
    }
}

/// The listener belongs to the child: `lsof` lists at least one process, and
/// every process it lists is the child.
pub open spec fn listener_owned(output: Seq<char>, child_pid: u32) -> bool {
    &&& exists|st: int| is_line_start(output, st) && (#[trigger] listed_pid(line_at(output, st))) is Some
    &&& forall|st: int|
        is_line_start(output, st) && (#[trigger] listed_pid(line_at(output, st))) is Some
            ==> listed_pid(line_at(output, st)) == Some(child_pid as nat)
}

/// Where the line that starts at `start` ends.
fn find_line_end(s: &str, start: usize) -> (end: usize)
    requires
        start <= s@.len(),
    ensures
        end as int == line_end(s@, start as int),
        start <= end <= s@.len(),
{
    let n = s.unicode_len();
    let mut e = start;
    while e < n && s.get_char(e) != '\n'
        invariant
            n == s@.len(),
            start <= e <= n,
            line_end(s@, start as int) == line_end(s@, e as int),
        decreases n - e,
    {
        e = e + 1;
    }
    e
}

/// Whether the `lsof -Fp` output names the child as the only process that
/// listens on the port, and names at least one.
pub fn listener_is_owned_by(child_pid: u32, lsof_output: &str) -> (owned: bool)
    ensures
        owned == listener_owned(lsof_output@, child_pid),
{
    let ghost s = lsof_output@;
    let n = lsof_output.unicode_len();
    let mut pos: usize = 0;
    let mut any = false;
    let mut all_match = true;
    while pos < n
        invariant
            n == s.len(),
            s == lsof_output@,
            pos <= n,
            pos < n ==> is_line_start(s, pos as int),
            any == exists|st: int|
                0 <= st < pos && is_line_start(s, st) && (#[trigger] listed_pid(line_at(s, st))) is Some,
            all_match == forall|st: int|
                0 <= st < pos && is_line_start(s, st) && (#[trigger] listed_pid(line_at(s, st))) is Some
                    ==> listed_pid(line_at(s, st)) == Some(child_pid as nat),
        decreases n - pos,
    {
        let e = find_line_end(lsof_output, pos);
        let stop = if e < n && e > pos && lsof_output.get_char(e - 1) == '\r' {
            e - 1
        } else {
            e
        };
        let pid = if stop > pos && lsof_output.get_char(pos) == 'p' {
            parse_unsigned_in(lsof_output, pos + 1, stop, 0xffff_ffff)
        } else {
            None
        };
        proof {
            let line = line_at(s, pos as int);
            assert(line =~= s.subrange(pos as int, stop as int));
            if line.len() > 0 && line[0] == 'p' {
                assert(line.drop_first() =~= s.subrange(pos + 1, stop as int));
            }
            assert(pid matches Some(p) ==> listed_pid(line) == Some(p as nat));
            assert(pid is None ==> listed_pid(line) is None);
        }
        let next = if e < n {
            e + 1
        } else {
            n
        };
        proof {
            lemma_no_line_start_inside(s, pos as int, e as int, next as int);
        }
        match pid {
            Some(p) => {
                any = true;
                if p != child_pid as u64 {
                    all_match = false;
                }
            },
            None => {},
        }
        proof {
            let line = line_at(s, pos as int);
            assert(forall|st: int|
                pos < st < next ==> !is_line_start(s, st));
            if any {
                if pid is Some {
                    assert(listed_pid(line_at(s, pos as int)) is Some);
                }
            }
        }
        pos = next;
    }
    any && all_match
}

/// No line starts strictly inside a line: between its start and the start of
/// the next line.
proof fn lemma_no_line_start_inside(s: Seq<char>, start: int, end: int, next: int)
    requires
        0 <= start <= end <= s.len(),
        end == line_end(s, start),
        next == if end < s.len() {
            end + 1
        } else {
            s.len() as int
        },
    ensures
        forall|st: int| start < st < next ==> !is_line_start(s, st),
        next < s.len() ==> is_line_start(s, next),
    decreases end - start,
{
    if start < end {
        assert(s[start] != '\n');
        lemma_no_line_start_inside(s, start + 1, end, next);
    } else {
        lemma_line_end_bounds(s, start);
    }
}

/// A line ends at or after its start, at a `\n` or at the end of the text.
proof fn lemma_line_end_bounds(s: Seq<char>, start: int)
    requires
        0 <= start <= s.len(),
    ensures
        start <= line_end(s, start) <= s.len(),
        line_end(s, start) < s.len() ==> s[line_end(s, start)] == '\n',
    decreases s.len() - start,
{
    if start < s.len() && s[start] != '\n' {
        lemma_line_end_bounds(s, start + 1);
    }
}

/// The big-endian bytes of a 32-bit number.
pub open spec fn be_bytes_u32(v: u32) -> Seq<u8> {
    seq![
        (v / 0x100_0000) as u8,
        ((v / 0x1_0000) % 0x100) as u8,
        ((v / 0x100) % 0x100) as u8,
        (v % 0x100) as u8,
    ]
}

/// What is hashed to fingerprint the Telegram app credentials: the
/// `api_id` in big-endian order, then the UTF-8 bytes of the `api_hash`.
pub open spec fn app_credentials_bytes(api_id: u32, api_hash: Seq<char>) -> Seq<u8> {
    be_bytes_u32(api_id) + encode_utf8(api_hash)
}

/// The SHA-256 fingerprint of the Telegram app credentials.
pub fn app_credentials_fingerprint(api_id: u32, api_hash: &Secret) -> (fingerprint: [u8; 32])
    ensures
        fingerprint@ == sha256_of(app_credentials_bytes(api_id, api_hash@)),
{
    let mut data: Vec<u8> = Vec::new();
    data.push((api_id / 0x100_0000) as u8);
    data.push(((api_id / 0x1_0000) % 0x100) as u8);
    data.push(((api_id / 0x100) % 0x100) as u8);
    data.push((api_id % 0x100) as u8);
    let hash_bytes = api_hash.expose_secret().as_bytes();
    data.extend_from_slice(hash_bytes);
    proof {
        assert(data@ =~= app_credentials_bytes(api_id, api_hash@));
    }
    sha256_digest(data.as_slice())
}

/// The fingerprint of a bot token: its SHA-256 digest in lower-case
/// hexadecimal. It names the migration marker, so the token itself is never
/// written to disk.
pub open spec fn token_fingerprint_text(bot_token: Seq<char>) -> Seq<char> {
    hex_lower(sha256_of(encode_utf8(bot_token)))
}

/// The fingerprint of a bot token.
pub fn token_fingerprint(bot_token: &Secret) -> (fingerprint: String)
    ensures
        fingerprint@ == token_fingerprint_text(bot_token@),
        fingerprint@.len() == 64,
        forall|i: int| 0 <= i < 64 ==> crate::text::is_hex_digit(#[trigger] fingerprint@[i]),
{
    let digest = sha256_digest(bot_token.expose_secret().as_bytes());
    proof {
        lemma_token_fingerprint_is_hex(bot_token@);
    }
    encode_hex_lower(&digest)
}

/// A token fingerprint is 64 hexadecimal digits: it never holds the token's
/// own text.
proof fn lemma_token_fingerprint_is_hex(bot_token: Seq<char>)
    requires
        sha256_of(encode_utf8(bot_token)).len() == 32,
    ensures
        token_fingerprint_text(bot_token).len() == 64,
        forall|i: int|
            0 <= i < 64 ==> crate::text::is_hex_digit(#[trigger] token_fingerprint_text(bot_token)[i]),
{
    let d = sha256_of(encode_utf8(bot_token));
    let h = hex_lower(d);
    assert forall|i: int| 0 <= i < 64 implies crate::text::is_hex_digit(#[trigger] h[i]) by {
        let b = d[i / 2];
        assert(b / 16 < 16) by (nonlinear_arith)
            requires
                b < 256,
        ;
    }
}

/// The directories of the local Bot API server: its data directory and the
/// temporary directory inside it.
pub struct BotApiDirectories {
    data: PathBuf,
    temporary: PathBuf,
}

impl BotApiDirectories {
    pub closed spec fn data_spec(&self) -> PathBuf {
        self.data
    }

    pub closed spec fn temporary_spec(&self) -> PathBuf {
        self.temporary
    }

    pub fn new(data: PathBuf, temporary: PathBuf) -> (directories: Self)
        ensures
            directories.data_spec() == data,
            directories.temporary_spec() == temporary,
    {
        BotApiDirectories { data, temporary }
    }

    pub fn data_dir(&self) -> (dir: &PathBuf)
        ensures
            *dir == self.data_spec(),
    {
        &self.data
    }

    pub fn temp_dir(&self) -> (dir: &PathBuf)
        ensures
            *dir == self.temporary_spec(),
    {
        &self.temporary
    }
}

/// The directories of the local Bot API server below the agent's application
/// support directory: `telegram-bot-api-data`, apart from the packaged
/// `telegram-bot-api` executable that lives there too, and `temp` inside it.
pub fn bot_api_directories_at(application_support: &PathBuf) -> (directories: BotApiDirectories)
    ensures
        directories.data_spec() == joined_path(*application_support, BOT_API_DATA_DIRECTORY_NAME@),
        directories.temporary_spec() == joined_path(directories.data_spec(), "temp"@),
{
    let data = join_file_name(application_support, BOT_API_DATA_DIRECTORY_NAME);
    let temporary = join_file_name(&data, "temp");
    BotApiDirectories::new(data, temporary)
}

/// The command line of the local Bot API server: local mode, listening on
/// the loopback address only, with its data and temporary directories.
pub open spec fn command_line_text(port: u16, data: Seq<char>, temporary: Seq<char>) -> Seq<
    Seq<char>,
> {
    seq![
        "--local"@,
        "--http-ip-address"@,
        "127.0.0.1"@,
        "--http-port"@,
        decimal(port as nat),
        "--dir"@,
        data,
        "--temp-dir"@,
        temporary,
    ]
}

/// The views of a list of strings.
pub open spec fn texts(strings: Seq<String>) -> Seq<Seq<char>> {
    strings.map_values(|s: String| s@)
}

/// The command line for the given port and directory texts.
pub fn command_line(port: u16, data: String, temporary: String) -> (arguments: Vec<String>)
    ensures
        texts(arguments@) == command_line_text(port, data@, temporary@),
{
    let mut arguments: Vec<String> = Vec::new();
    arguments.push(String::from_str("--local"));
    arguments.push(String::from_str("--http-ip-address"));
    arguments.push(String::from_str("127.0.0.1"));
    arguments.push(String::from_str("--http-port"));
    arguments.push(decimal_string(port as u64));
    arguments.push(String::from_str("--dir"));
    arguments.push(data);
    arguments.push(String::from_str("--temp-dir"));
    arguments.push(temporary);
    proof {
        assert(texts(arguments@) =~= command_line_text(port, data@, temporary@));
    }
    arguments
}

/// The command line of the local Bot API server, the directories rendered
/// as text (lossily where a path is not valid Unicode).
pub fn command_arguments(port: u16, directories: &BotApiDirectories) -> (arguments: Vec<String>)
    ensures
        texts(arguments@) == command_line_text(
            port,
            path_text(directories.data_spec()),
            path_text(directories.temporary_spec()),
        ),
{
    let data = path_text_lossy(directories.data_dir());
    let temporary = path_text_lossy(directories.temp_dir());
    command_line(port, data, temporary)
}

/// The directory, inside the Bot API data directory, that holds one marker
/// per bot token whose cloud `logOut` succeeded.
pub const CLOUD_MIGRATIONS_DIRECTORY_NAME: &'static str = "cloud-migrations";

/// The directory of migration markers, below the user's local data
/// directory: `OBS-Telegram-Send/telegram-bot-api-data/cloud-migrations`.
pub open spec fn migration_marker_directory_spec(data_local_dir: PathBuf) -> PathBuf {
    joined_path(
        joined_path(
            joined_path(data_local_dir, APP_SUPPORT_DIRECTORY_NAME@),
            BOT_API_DATA_DIRECTORY_NAME@,
        ),
        CLOUD_MIGRATIONS_DIRECTORY_NAME@,
    )
}

/// The directory of migration markers below `data_local_dir`.
pub fn migration_marker_directory_at(data_local_dir: &PathBuf) -> (directory: PathBuf)
    ensures
        directory == migration_marker_directory_spec(*data_local_dir),
{
    let support = application_support_at(data_local_dir);
    let data = join_file_name(&support, BOT_API_DATA_DIRECTORY_NAME);
    join_file_name(&data, CLOUD_MIGRATIONS_DIRECTORY_NAME)
}

/// The marker of a bot token: a file in the marker directory named by the
/// token's fingerprint, never by the token.
pub fn marker_path(marker_directory: &PathBuf, bot_token: &Secret) -> (path: PathBuf)
    ensures
        path == joined_path(*marker_directory, token_fingerprint_text(bot_token@)),
{
    let name = token_fingerprint(bot_token);
    join_file_name(marker_directory, name.as_str())
}

/// What a migration marker file holds. The token is never written.
pub const MIGRATION_MARKER_CONTENTS: &'static str = "cloud-logout-completed\n";

/// The Bot API method that releases a bot from Telegram's hosted server.
pub const CLOUD_LOGOUT_METHOD: &'static str = "logOut";

/// The next step of moving a bot from Telegram's hosted Bot API to the
/// local server.
#[derive(Debug, Clone, Copy, PartialEq, Eq, Structural)]
pub enum MigrationStep {
    /// Call the hosted `logOut` for the bot.
    CloudLogout,
    /// Record that `logOut` succeeded, in the token's marker file.
    WriteMarker,
    /// Start (or validate) the local server.
    StartLocal,
    Fail(TelegramError),
}

/// The first step: a marker means `logOut` already succeeded for this token,
/// so it is not repeated.
pub fn migration_first_step(marker_directory_ready: bool, marker_exists: bool) -> (step:
    MigrationStep)
    ensures
        step == (if !marker_directory_ready {
            MigrationStep::Fail(TelegramError::RequestFailed)
        } else if marker_exists {
            MigrationStep::StartLocal
        } else {
            MigrationStep::CloudLogout
        }),
{
    if !marker_directory_ready {
        MigrationStep::Fail(TelegramError::RequestFailed)
    } else if marker_exists {
        MigrationStep::StartLocal
    } else {
        MigrationStep::CloudLogout
    }
}

/// After the hosted `logOut`: only a confirmed logout is recorded; the local
/// server is started either way.
pub fn migration_after_logout(confirmed: bool) -> (step: MigrationStep)
    ensures
        step == (if confirmed {
            MigrationStep::WriteMarker
        } else {
            MigrationStep::StartLocal
        }),
{
    if confirmed {
        MigrationStep::WriteMarker
    } else {
        MigrationStep::StartLocal
    }
}

/// After writing the marker: a marker that could not be written stops the
/// migration.
pub fn migration_after_marker(written: bool) -> (step: MigrationStep)
    ensures
        step == (if written {
            MigrationStep::StartLocal
        } else {
            MigrationStep::Fail(TelegramError::RequestFailed)
        }),
{
    if written {
        MigrationStep::StartLocal
    } else {
        MigrationStep::Fail(TelegramError::RequestFailed)
    }
}

/// How many times `getMe` is tried on a starting server.
pub const GET_ME_ATTEMPTS: usize = 20;

/// The pause between two `getMe` tries, in milliseconds.
pub const GET_ME_RETRY_DELAY_MILLIS: u64 = 100;

/// The next step of a retried check.
#[derive(Debug, Clone, Copy, PartialEq, Eq, Structural)]
pub enum RetryStep {
    Done,
    RetryAfterDelay,
    Fail(TelegramError),
}

/// After `getMe` try number `attempt` (from zero): a confirmed answer ends
/// the validation; otherwise it is tried again, `GET_ME_ATTEMPTS` times in
/// all, with no pause after the last.
pub fn after_get_me(attempt: usize, confirmed: bool) -> (step: RetryStep)
    requires
        attempt < GET_ME_ATTEMPTS,
    ensures
        step == (if confirmed {
            RetryStep::Done
        } else if attempt + 1 < GET_ME_ATTEMPTS {
            RetryStep::RetryAfterDelay
        } else {
            RetryStep::Fail(TelegramError::RequestFailed)
        }),
{
    if confirmed {
        RetryStep::Done
    } else if attempt + 1 < GET_ME_ATTEMPTS {
        RetryStep::RetryAfterDelay
    } else {
        RetryStep::Fail(TelegramError::RequestFailed)
    }
}

/// How many times a starting server is checked for readiness.
pub const READINESS_ATTEMPTS: usize = 40;

/// The pause between two readiness checks, in milliseconds.
pub const READINESS_DELAY_MILLIS: u64 = 50;

#[derive(Debug, Clone, Copy, PartialEq, Eq, Structural)]
pub enum ReadinessStep {
    Ready,
    /// The server process ended: give up at once.
    Fail,
    WaitThenRetry,
    /// The last check failed: pause once more, then give up.
    WaitThenFail,
}

/// After readiness check number `attempt` (from zero) of a starting server.
pub fn after_readiness_check(attempt: usize, ready: bool, exited: bool) -> (step: ReadinessStep)
    requires
        attempt < READINESS_ATTEMPTS,
    ensures
        step == (if ready {
            ReadinessStep::Ready
        } else if exited {
            ReadinessStep::Fail
        } else if attempt + 1 < READINESS_ATTEMPTS {
            ReadinessStep::WaitThenRetry
        } else {
            ReadinessStep::WaitThenFail
        }),
{
    if ready {
        ReadinessStep::Ready
    } else if exited {
        ReadinessStep::Fail
    } else if attempt + 1 < READINESS_ATTEMPTS {
        ReadinessStep::WaitThenRetry
    } else {
        ReadinessStep::WaitThenFail
    }
}

/// What became of the check that the server's port listener is its own.
pub enum ListenerCheck {
    /// The platform has no `lsof`: not checked.
    Skipped,
    /// `lsof` could not run or failed.
    Failed,
    /// What `lsof -Fp` printed.
    Output(String),
}

/// Whether the local server is ready: its process still runs (`Some(false)`
/// for "not exited"; `None` where that could not be told), its port accepts
/// connections, and the listener on that port is the server itself.
pub open spec fn server_ready(
    exited: Option<bool>,
    connected: bool,
    listener: ListenerCheck,
    child_pid: u32,
) -> bool {
    &&& exited == Some(false)
    &&& connected
    &&& match listener {
        ListenerCheck::Skipped => true,
        ListenerCheck::Failed => false,
        ListenerCheck::Output(o) => listener_owned(o@, child_pid),
    }
}

/// The readiness verdict on a running local server.
pub fn readiness_verdict(
    exited: Option<bool>,
    connected: bool,
    listener: &ListenerCheck,
    child_pid: u32,
) -> (result: Result<(), TelegramError>)
    ensures
        result == (if server_ready(exited, connected, *listener, child_pid) {
            Ok::<(), TelegramError>(())
        } else {
            Err(TelegramError::RequestFailed)
        }),
{
    if !matches!(exited, Some(false)) || !connected {
        return Err(TelegramError::RequestFailed);
    }
    let owned = match listener {
        ListenerCheck::Skipped => true,
        ListenerCheck::Failed => false,
        ListenerCheck::Output(o) => listener_is_owned_by(child_pid, o.as_str()),
    };
    if owned {
        Ok(())
    } else {
        Err(TelegramError::RequestFailed)
    }
}

/// Where a gateway's credentials come from.
pub enum CredentialSource {
    /// The configuration stored in the system's credential store.
    Keychain,
    /// A configuration handed to the gateway.
    Supplied(TelegramConfig),
    /// The onboarding wizard's credentials: a bot, but no chat yet.
    Onboarding(TelegramCredentials),
}

impl CredentialSource {
    /// The configuration to send with, where the source holds one
    /// (`Ok(None)`: load it from the credential store). Onboarding
    /// credentials have no chat, so nothing can be sent with them.
    pub fn supplied_configuration(&self) -> (result: Result<Option<&TelegramConfig>, TelegramError>)
        ensures
            match self {
                CredentialSource::Keychain => result == Ok::<Option<&TelegramConfig>, TelegramError>(None),
                CredentialSource::Supplied(c) => result == Ok::<Option<&TelegramConfig>, TelegramError>(Some(c)),
                CredentialSource::Onboarding(_) => result == Err::<Option<&TelegramConfig>, TelegramError>(
                    TelegramError::ConfigurationUnavailable,
                ),
            },
    {
        match self {
            CredentialSource::Keychain => Ok(None),
            CredentialSource::Supplied(c) => Ok(Some(c)),
            CredentialSource::Onboarding(_) => Err(TelegramError::ConfigurationUnavailable),
        }
    }

    /// The bot token, where the source holds one (`None`: load the stored
    /// configuration for it).
    pub fn supplied_bot_token(&self) -> (token: Option<&Secret>)
        ensures
            match self {
                CredentialSource::Keychain => token is None,
                CredentialSource::Supplied(c) => token == Some(&c.bot_token),
                CredentialSource::Onboarding(c) => token == Some(&c.bot_token),
            },
    {
        match self {
            CredentialSource::Keychain => None,
            CredentialSource::Supplied(c) => Some(&c.bot_token),
            CredentialSource::Onboarding(c) => Some(&c.bot_token),
        }
    }
}

/// The `lsof` query for the process that listens on the server's TCP port:
/// numeric output, that port in the listening state, process identifiers
/// only.
pub open spec fn lsof_arguments_text(port: u16) -> Seq<Seq<char>> {
    seq!["-nP"@, "-iTCP:"@ + decimal(port as nat), "-sTCP:LISTEN"@, "-Fp"@]
}

/// The `lsof` arguments that list the listener of `port`.
pub fn lsof_arguments(port: u16) -> (arguments: Vec<String>)
    ensures
        texts(arguments@) == lsof_arguments_text(port),
{
    let mut port_filter = String::from_str("-iTCP:");
    push_decimal(&mut port_filter, port as u64);
    let mut arguments: Vec<String> = Vec::new();
    arguments.push(String::from_str("-nP"));
    arguments.push(port_filter);
    arguments.push(String::from_str("-sTCP:LISTEN"));
    arguments.push(String::from_str("-Fp"));
    proof {
        assert(texts(arguments@) =~= lsof_arguments_text(port));
    }
    arguments
}

} // verus!
