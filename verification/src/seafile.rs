//! The Seafile client's own logic: matching library names to libraries,
//! authorization values, download planning and byte ranges, resume offsets,
//! and the helpers that read server responses.
use vstd::prelude::*;

use crate::config::{Config, ConfigManager};
use crate::contract::{RemoteRef, ResolvedRemoteRef};
use crate::error::ThufsError;
use crate::headers::{content_range_total_seq, parse_filename_from_content_disposition, parse_total_bytes_from_content_range};
use crate::text::{str_eq, to_owned_string, trim, trim_end_char, trim_end_char_seq, trim_seq, trim_start_char, trim_start_char_seq, u64_to_decimal, decimal};
use crate::transfer::DownloadMode;

verus! {

/// The origin of every request.
pub open spec fn base_url_seq() -> Seq<char> {
    "https://cloud.tsinghua.edu.cn"@
}

/// Files at least this large are downloaded in parallel when the server allows it.
pub const PARALLEL_DOWNLOAD_THRESHOLD: u64 = 8388608;

/// A library (Seafile repository).
#[derive(Debug, Clone, PartialEq, Eq)]
pub struct Repository {
    pub id: String,
    pub name: String,
    pub mtime: Option<i64>,
}

/// The account behind the configured token.
#[derive(Debug, Clone, PartialEq, Eq)]
pub struct AccountInfo {
    pub login_id: Option<String>,
    pub is_staff: Option<bool>,
    pub name: Option<String>,
    pub email: String,
    pub contact_email: Option<String>,
    pub institution: Option<String>,
    pub department: Option<String>,
    pub space_usage: Option<String>,
    pub usage: Option<u64>,
    pub total: Option<u64>,
}

/// A directory to list, resolved to its library.
#[derive(Debug, Clone, PartialEq, Eq)]
pub struct ResolvedListTarget {
    pub repo_name: String,
    pub repo_id: String,
    pub path: String,
}

/// The metadata the server returns for an uploaded file.
#[derive(Debug, Clone, PartialEq, Eq)]
pub struct UploadedFile {
    pub name: String,
    pub id: Option<String>,
    pub size: Option<u64>,
}

/// Whether a download needs the token or may go without it.
#[derive(Debug, Clone, Copy, PartialEq, Eq, Structural)]
pub enum DownloadAuth {
    Required,
    Optional,
}

/// A public shared file ready to download.
#[derive(Debug, Clone, PartialEq, Eq)]
pub struct SharedFileDownload {
    pub token: String,
    pub file_name: String,
    pub download_link: String,
}

/// What a range probe told about a download.
#[derive(Debug, Clone, Copy, PartialEq, Eq, Structural)]
pub struct DownloadSupport {
    pub total_bytes: u64,
    pub accepts_ranges: bool,
}

/// The first thing a download does.
#[derive(Debug, Clone, Copy, PartialEq, Eq, Structural)]
pub enum DownloadStart {
    /// Download in one stream right away.
    Sequential,
    /// Probe whether the server serves byte ranges first.
    Probe,
}

/// What a download does after probing the server.
#[derive(Debug, Clone, Copy, PartialEq, Eq, Structural)]
pub enum DownloadAfterProbe {
    /// Download in one stream.
    Sequential,
    /// Download this many bytes in parallel ranges.
    Parallel(u64),
}

/// How a sequential download continues a partial file.
#[derive(Debug, Clone, Copy, PartialEq, Eq, Structural)]
pub struct ResumePlan {
    /// The server answered the range request: append to the partial file.
    pub resumed: bool,
    /// A partial file exists but the server sent everything: truncate it first.
    pub restart_from_zero: bool,
    /// Bytes already in place before the body is written.
    pub initial_bytes: u64,
    /// The expected final size, when the server announced a length.
    pub total: Option<u64>,
}

/// The Seafile client's own state: where its configuration lives.
#[derive(Debug, Clone)]
pub struct SeafileClient {
    config: ConfigManager,
}

/// The number of libraries in `repos` named `name`.
pub open spec fn count_named(repos: Seq<Repository>, name: Seq<char>) -> nat
    decreases repos.len(),
{
    if repos.len() == 0 {
        0
    } else {
        count_named(repos.drop_last(), name) + if repos.last().name@ == name {
            1nat
        } else {
            0nat
        }
    }
}

/// `Token <token>`, the value of the `Authorization` header.
pub open spec fn authorization_seq(token: Seq<char>) -> Seq<char> {
    "Token "@ + token
}

impl SeafileClient {
    /// A client that reads its token from `config`.
    pub fn new(config: ConfigManager) -> (res: SeafileClient)
        ensures
            res.config_path() == config.path_view(),
    {
        SeafileClient { config }
    }

    /// The configuration file this client reads.
    pub closed spec fn config_path(&self) -> Seq<char> {
        self.config.path_view()
    }

    /// The configuration manager of this client.
    pub fn config(&self) -> (res: &ConfigManager)
        ensures
            res.path_view() == self.config_path(),
    {
        &self.config
    }

    /// The origin of every request.
    pub fn base_url(&self) -> (res: &'static str)
        ensures
            res@ == base_url_seq(),
    {
        "https://cloud.tsinghua.edu.cn"
    }

    /// The library named exactly `repo_name`; not finding one, or finding several,
    /// is an error.
    pub fn find_repository<'a>(&self, repo_name: &str, repos: &'a [Repository]) -> (res: Result<
        &'a Repository,
        ThufsError,
    >)
        ensures
            match res {
                Ok(r) => count_named(repos@, repo_name@) == 1 && r.name@ == repo_name@ && repos@.contains(*r),
                Err(ThufsError::RepositoryNotFound(n)) => count_named(repos@, repo_name@) == 0 && n@ == repo_name@,
                Err(ThufsError::RepositoryAmbiguous(n)) => count_named(repos@, repo_name@) > 1 && n@ == repo_name@,
                Err(_) => false,
            },
    {
        let mut found: Option<usize> = None;
        let mut count: usize = 0;
        let mut i: usize = 0;
        while i < repos.len()
            invariant
                i <= repos@.len(),
                count == count_named(repos@.take(i as int), repo_name@),
                count <= i,
                count == 0 <==> found is None,
                found matches Some(k) ==> k < i && repos@[k as int].name@ == repo_name@,
            decreases repos@.len() - i,
        {
            proof {
                assert(repos@.take(i + 1).drop_last() =~= repos@.take(i as int));
                assert(repos@.take(i + 1).last() == repos@[i as int]);
            }
            if str_eq(repos[i].name.as_str(), repo_name) {
                if found.is_none() {
                    found = Some(i);
                }
                count = count + 1;
            }
            i = i + 1;
        }
        proof {
            assert(repos@.take(repos@.len() as int) =~= repos@);
        }
        match found {
            Some(k) => {
                if count == 1 {
                    Ok(&repos[k])
                } else {
                    Err(ThufsError::RepositoryAmbiguous(to_owned_string(repo_name)))
                }
            },
            None => Err(ThufsError::RepositoryNotFound(to_owned_string(repo_name))),
        }
    }

    /// The remote location with its library name matched to the library's id.
    pub fn resolve_remote_ref(&self, remote: &RemoteRef, repos: &[Repository]) -> (res: Result<
        ResolvedRemoteRef,
        ThufsError,
    >)
        ensures
            match res {
                Ok(r) => count_named(repos@, remote.repo@) == 1 && exists|k: int|
                    0 <= k < repos@.len() && repos@[k].name@ == remote.repo@ && r.repo_name@ == repos@[k].name@
                        && r.repo_id@ == repos@[k].id@ && r.path@ == remote.path@,
                Err(ThufsError::RepositoryNotFound(n)) => count_named(repos@, remote.repo@) == 0 && n@
                    == remote.repo@,
                Err(ThufsError::RepositoryAmbiguous(n)) => count_named(repos@, remote.repo@) > 1 && n@
                    == remote.repo@,
                Err(_) => false,
            },
    {
        let repo = self.find_repository(remote.repo.as_str(), repos)?;
        Ok(ResolvedRemoteRef::new(repo.name.clone(), repo.id.clone(), remote.path.clone()))
    }

    /// The directory to list, with its library name matched to the library's id.
    pub fn resolve_list_target(&self, remote: &RemoteRef, repos: &[Repository]) -> (res: Result<
        ResolvedListTarget,
        ThufsError,
    >)
        ensures
            match res {
                Ok(r) => count_named(repos@, remote.repo@) == 1 && exists|k: int|
                    0 <= k < repos@.len() && repos@[k].name@ == remote.repo@ && r.repo_name@ == repos@[k].name@
                        && r.repo_id@ == repos@[k].id@ && r.path@ == remote.path@,
                Err(ThufsError::RepositoryNotFound(n)) => count_named(repos@, remote.repo@) == 0 && n@
                    == remote.repo@,
                Err(ThufsError::RepositoryAmbiguous(n)) => count_named(repos@, remote.repo@) > 1 && n@
                    == remote.repo@,
                Err(_) => false,
            },
    {
        let resolved = self.resolve_remote_ref(remote, repos)?;
        Ok(ResolvedListTarget { repo_name: resolved.repo_name, repo_id: resolved.repo_id, path: resolved.path })
    }

    /// The `Authorization` header value for the configured token; without a token
    /// this is an error.
    pub fn auth_header_value(&self, config: &Config) -> (res: Result<String, ThufsError>)
        ensures
            match res {
                Ok(v) => config.token matches Some(t) && v@ == authorization_seq(t@),
                Err(e) => config.token is None && e == ThufsError::NoTokenConfigured,
            },
    {
        match &config.token {
            Some(token) => Ok(authorization_value(token.as_str())),
            None => Err(ThufsError::NoTokenConfigured),
        }
    }

    /// The `Authorization` header value when a token is configured.
    pub fn optional_auth_header_value(&self, config: &Config) -> (res: Option<String>)
        ensures
            match res {
                Some(v) => config.token matches Some(t) && v@ == authorization_seq(t@),
                None => config.token is None,
            },
    {
        match &config.token {
            Some(token) => Some(authorization_value(token.as_str())),
            None => None,
        }
    }

    /// The `Authorization` header value a download sends: required downloads fail
    /// without a token, optional ones go without.
    pub fn download_auth_header(&self, config: &Config, auth: DownloadAuth) -> (res: Result<Option<String>, ThufsError>)
        ensures
            match res {
                Ok(Some(v)) => config.token matches Some(t) && v@ == authorization_seq(t@),
                Ok(None) => auth == DownloadAuth::Optional && config.token is None,
                Err(e) => auth == DownloadAuth::Required && config.token is None && e == ThufsError::NoTokenConfigured,
            },
    {
        match auth {
            DownloadAuth::Required => match self.auth_header_value(config) {
                Ok(v) => Ok(Some(v)),
                Err(e) => Err(e),
            },
            DownloadAuth::Optional => Ok(self.optional_auth_header_value(config)),
        }
    }
}

/// `Token <token>`.
pub fn authorization_value(token: &str) -> (res: String)
    ensures
        res@ == authorization_seq(token@),
{
    String::from_str("Token ").concat(token)
}

/// The body of a plain-text endpoint: trimmed, then without surrounding quotes.
pub open spec fn text_response_seq(text: Seq<char>) -> Seq<char> {
    trim_end_char_seq(trim_start_char_seq(trim_seq(text), '"'), '"')
}

/// The body of a plain-text endpoint (see `text_response_seq`).
pub fn clean_text_response(text: &str) -> (res: String)
    ensures
        res@ == text_response_seq(text@),
{
    to_owned_string(trim_end_char(trim_start_char(trim(text), '"'), '"'))
}

/// The `path` query of a directory-detail request: `None` for the library root
/// (which has no detail), otherwise the path without leading `/`.
pub fn dir_detail_query(path: &str) -> (res: Option<String>)
    ensures
        match res {
            Some(q) => path@ != seq!['/'] && q@ == trim_start_char_seq(path@, '/'),
            None => path@ == seq!['/'],
        },
{
    let mut root = String::new();
    crate::text::push_char(&mut root, '/');
    proof {
        assert(root@ =~= seq!['/']);
    }
    if str_eq(path, root.as_str()) {
        None
    } else {
        Some(to_owned_string(trim_start_char(path, '/')))
    }
}

// ---------------------------------------------------------------------------
// Shared files.
// ---------------------------------------------------------------------------

/// The download link of a public shared file.
pub open spec fn shared_download_link_seq(token: Seq<char>) -> Seq<char> {
    base_url_seq() + "/f/"@ + token + "/?dl=1"@
}

/// The download link of a public shared file.
pub fn shared_download_link(token: &str) -> (res: String)
    ensures
        res@ == shared_download_link_seq(token@),
{
    String::from_str("https://cloud.tsinghua.edu.cn").concat("/f/").concat(token).concat("/?dl=1")
}

/// The file name announced by an optional `Content-Disposition` header.
pub open spec fn shared_file_name(disposition: Option<&str>) -> Option<Seq<char>> {
    match disposition {
        Some(v) => crate::headers::disposition_file_name(v@),
        None => None,
    }
}

/// A shared file named by the response's `Content-Disposition`; without a usable
/// file name the share cannot be downloaded.
pub fn shared_file_download(token: &str, disposition: Option<&str>) -> (res: Result<SharedFileDownload, ThufsError>)
    ensures
        match shared_file_name(disposition) {
            Some(n) => res matches Ok(d) && {
                &&& d.token@ == token@
                &&& d.download_link@ == shared_download_link_seq(token@)
                &&& d.file_name@ == n
            },
            None => res == Err::<SharedFileDownload, ThufsError>(ThufsError::SharedFilenameUnknown),
        },
{
    let file_name = match disposition {
        Some(v) => match parse_filename_from_content_disposition(v) {
            Some(name) => name,
            None => {
                return Err(ThufsError::SharedFilenameUnknown);
            },
        },
        None => {
            return Err(ThufsError::SharedFilenameUnknown);
        },
    };
    Ok(SharedFileDownload {
        token: to_owned_string(token),
        file_name,
        download_link: shared_download_link(token),
    })
}

// ---------------------------------------------------------------------------
// Download planning.
// ---------------------------------------------------------------------------

/// The first step of a download in `mode` onto a partial file of `existing_bytes`:
/// sequential mode downloads right away; the other modes probe the server for a
/// fresh file; a partial file continues sequentially, which parallel mode refuses.
pub fn download_start(mode: DownloadMode, existing_bytes: u64) -> (res: Result<DownloadStart, ThufsError>)
    ensures
        res == match mode {
            DownloadMode::Sequential => Ok(DownloadStart::Sequential),
            _ => if existing_bytes == 0 {
                Ok(DownloadStart::Probe)
            } else if mode == DownloadMode::Parallel {
                Err(ThufsError::ParallelDownloadNeedsFreshFile)
            } else {
                Ok(DownloadStart::Sequential)
            },
        },
{
    match mode {
        DownloadMode::Sequential => Ok(DownloadStart::Sequential),
        DownloadMode::Auto => {
            if existing_bytes == 0 {
                Ok(DownloadStart::Probe)
            } else {
                Ok(DownloadStart::Sequential)
            }
        },
        DownloadMode::Parallel => {
            if existing_bytes == 0 {
                Ok(DownloadStart::Probe)
            } else {
                Err(ThufsError::ParallelDownloadNeedsFreshFile)
            }
        },
    }
}

/// The step after a probe. Parallel mode downloads through byte ranges whenever
/// the server serves them, and refuses an endpoint without ranges (or a probe
/// that told nothing); automatic mode downloads in parallel a ranged endpoint
/// with at least `PARALLEL_DOWNLOAD_THRESHOLD` bytes and otherwise sequentially.
pub fn download_after_probe(mode: DownloadMode, support: Option<DownloadSupport>) -> (res: Result<
    DownloadAfterProbe,
    ThufsError,
>)
    ensures
        res == match support {
            Some(s) => if mode == DownloadMode::Parallel {
                if s.accepts_ranges {
                    Ok(DownloadAfterProbe::Parallel(s.total_bytes))
                } else {
                    Err(ThufsError::ParallelDownloadUnsupported)
                }
            } else if s.accepts_ranges && s.total_bytes >= PARALLEL_DOWNLOAD_THRESHOLD {
                Ok(DownloadAfterProbe::Parallel(s.total_bytes))
            } else {
                Ok(DownloadAfterProbe::Sequential)
            },
            None => if mode == DownloadMode::Parallel {
                Err(ThufsError::ParallelDownloadUnsupported)
            } else {
                Ok(DownloadAfterProbe::Sequential)
            },
        },
{
    match mode {
        DownloadMode::Parallel => match support {
            Some(s) => {
                if s.accepts_ranges {
                    Ok(DownloadAfterProbe::Parallel(s.total_bytes))
                } else {
                    Err(ThufsError::ParallelDownloadUnsupported)
                }
            },
            None => Err(ThufsError::ParallelDownloadUnsupported),
        },
        _ => match support {
            Some(s) => {
                if s.accepts_ranges && s.total_bytes >= PARALLEL_DOWNLOAD_THRESHOLD {
                    Ok(DownloadAfterProbe::Parallel(s.total_bytes))
                } else {
                    Ok(DownloadAfterProbe::Sequential)
                }
            },
            None => Ok(DownloadAfterProbe::Sequential),
        },
    }
}

/// Whether a failed parallel download falls back to a sequential one: only in
/// automatic mode.
pub fn falls_back_after_parallel_failure(mode: DownloadMode) -> (res: bool)
    ensures
        res == (mode == DownloadMode::Auto),
{
    match mode {
        DownloadMode::Auto => true,
        _ => false,
    }
}

/// What a range probe tells: a partial answer announces ranges and its total
/// (from `Content-Range`, else its length); a full answer its length (or 0)
/// without ranges; any other answer tells nothing.
pub fn download_support_from_probe(
    partial_content: bool,
    success: bool,
    content_range: Option<&str>,
    content_length: Option<u64>,
) -> (res: Result<Option<DownloadSupport>, ThufsError>)
    ensures
        partial_content ==> match res {
            Ok(Some(s)) => s.accepts_ranges && Some(s.total_bytes) == match content_range {
                Some(v) => match content_range_total_seq(v@) {
                    Some(t) => Some(t),
                    None => content_length,
                },
                None => content_length,
            },
            Ok(None) => false,
            Err(e) => e == ThufsError::RangeProbeWithoutLength && content_length is None && match content_range {
                Some(v) => content_range_total_seq(v@) is None,
                None => true,
            },
        },
        !partial_content && success ==> res == Ok::<Option<DownloadSupport>, ThufsError>(
            Some(
                DownloadSupport {
                    total_bytes: match content_length {
                        Some(l) => l,
                        None => 0,
                    },
                    accepts_ranges: false,
                },
            ),
        ),
        !partial_content && !success ==> res == Ok::<Option<DownloadSupport>, ThufsError>(None),
{
    if partial_content {
        let from_range = match content_range {
            Some(v) => parse_total_bytes_from_content_range(v),
            None => None,
        };
        let total = match from_range {
            Some(t) => t,
            None => match content_length {
                Some(l) => l,
                None => {
                    return Err(ThufsError::RangeProbeWithoutLength);
                },
            },
        };
        return Ok(Some(DownloadSupport { total_bytes: total, accepts_ranges: true }));
    }
    if success {
        let total = match content_length {
            Some(l) => l,
            None => 0,
        };
        return Ok(Some(DownloadSupport { total_bytes: total, accepts_ranges: false }));
    }
    Ok(None)
}

/// How a sequential download onto `existing_bytes` of partial file continues,
/// given whether the server answered with partial content and the body's length.
pub fn sequential_resume_plan(existing_bytes: u64, partial_content: bool, content_length: Option<u64>) -> (res:
    ResumePlan)
    requires
        content_length matches Some(l) ==> l + (if existing_bytes > 0 && partial_content {
            existing_bytes
        } else {
            0
        }) <= u64::MAX,
    ensures
        res.resumed == (existing_bytes > 0 && partial_content),
        res.restart_from_zero == (existing_bytes > 0 && !partial_content),
        res.initial_bytes == (if res.resumed {
            existing_bytes
        } else {
            0
        }),
        res.total == match content_length {
            Some(l) => Some((l + res.initial_bytes) as u64),
            None => None,
        },
{
    let resumed = existing_bytes > 0 && partial_content;
    let restart_from_zero = existing_bytes > 0 && !resumed;
    let initial_bytes = if resumed {
        existing_bytes
    } else {
        0
    };
    let total = match content_length {
        Some(l) => Some(l + initial_bytes),
        None => None,
    };
    ResumePlan { resumed, restart_from_zero, initial_bytes, total }
}

/// The `Range` header value that resumes a download after `existing_bytes`.
pub fn resume_range_header(existing_bytes: u64) -> (res: String)
    ensures
        res@ == "bytes="@ + decimal(existing_bytes as nat) + seq!['-'],
{
    let mut out = String::from_str("bytes=");
    out.append(u64_to_decimal(existing_bytes).as_str());
    crate::text::push_char(&mut out, '-');
    out
}

/// The `Range` header value of the byte range `start..=end`.
pub fn range_header(start: u64, end: u64) -> (res: String)
    ensures
        res@ == "bytes="@ + decimal(start as nat) + seq!['-'] + decimal(end as nat),
{
    let mut out = String::from_str("bytes=");
    out.append(u64_to_decimal(start).as_str());
    crate::text::push_char(&mut out, '-');
    out.append(u64_to_decimal(end).as_str());
    out
}

// ---------------------------------------------------------------------------
// Byte ranges of a parallel download.
// ---------------------------------------------------------------------------

/// `a / b` rounded up.
pub open spec fn div_ceil_nat(a: nat, b: nat) -> nat {
    if a % b == 0 {
        a / b
    } else {
        a / b + 1
    }
}

/// The size of each range: the total split into at most `parts` (at least 1) pieces.
pub open spec fn range_chunk(total: nat, parts: nat) -> nat {
    div_ceil_nat(total, if parts < 1 { 1 } else { parts })
}

/// How many ranges a download of `total` bytes is split into.
pub open spec fn range_count(total: nat, parts: nat) -> nat {
    if total == 0 {
        0
    } else {
        div_ceil_nat(total, range_chunk(total, parts))
    }
}

/// The `i`-th range (inclusive bounds).
pub open spec fn range_at(total: nat, parts: nat, i: nat) -> (nat, nat) {
    let c = range_chunk(total, parts);
    (i * c, ((if (i + 1) * c < total { (i + 1) * c } else { total }) - 1) as nat)
}

/// Proof of the facts about chunk sizes and counts the range split relies on.
proof fn lemma_range_facts(total: nat, parts: nat)
    requires
        total > 0,
    ensures
        range_chunk(total, parts) >= 1,
        range_chunk(total, parts) <= total,
        range_count(total, parts) >= 1,
        (range_count(total, parts) - 1) * range_chunk(total, parts) < total,
        range_count(total, parts) * range_chunk(total, parts) >= total,
        range_count(total, parts) <= (if parts < 1 { 1 } else { parts }),
{
    let p: nat = if parts < 1 { 1 } else { parts };
    let c = range_chunk(total, parts);
    let n = range_count(total, parts);
    assert(c >= 1 && c <= total && c * p >= total) by (nonlinear_arith)
        requires
            p >= 1,
            total > 0,
            c == div_ceil_nat(total, p),
    {
        assert(total == p * (total / p) + total % p);
        assert(total % p < p);
        assert(total / p <= total);
    }
    assert(n >= 1 && (n - 1) * c < total && n * c >= total) by (nonlinear_arith)
        requires
            c >= 1,
            total > 0,
            n == div_ceil_nat(total, c),
    {
        assert(total == c * (total / c) + total % c);
        assert(total % c < c);
    }
    assert(n <= p) by (nonlinear_arith)
        requires
            c >= 1,
            c * p >= total,
            (n - 1) * c < total,
            n >= 1,
    ;
}

/// Splits `total_bytes` into at most `parts` consecutive inclusive byte ranges of
/// equal size (the last may be shorter), for a parallel download.
pub fn split_download_ranges(total_bytes: u64, parts: usize) -> (res: Vec<(u64, u64)>)
    ensures
        res@.len() == range_count(total_bytes as nat, parts as nat),
        forall|i: int|
            0 <= i < res@.len() ==> (#[trigger] res@[i]).0 == range_at(total_bytes as nat, parts as nat, i as nat).0
                && res@[i].1 == range_at(total_bytes as nat, parts as nat, i as nat).1,
{
    if total_bytes == 0 {
        return Vec::new();
    }
    let p: u64 = if parts < 1 {
        1
    } else {
        parts as u64
    };
    proof {
        assert(total_bytes % p != 0 ==> total_bytes / p < total_bytes) by (nonlinear_arith)
            requires
                p >= 1,
                total_bytes > 0,
        {
            if total_bytes % p != 0 {
                assert(p != 1);
                assert(total_bytes == p * (total_bytes / p) + total_bytes % p);
            }
        }
    }
    let chunk: u64 = if total_bytes % p == 0 {
        total_bytes / p
    } else {
        total_bytes / p + 1
    };
    let ghost total = total_bytes as nat;
    let ghost count = range_count(total, parts as nat);
    proof {
        lemma_range_facts(total, parts as nat);
    }
    let mut ranges: Vec<(u64, u64)> = Vec::new();
    let mut start: u64 = 0;
    proof {
        assert(ranges@.len() * chunk == 0) by (nonlinear_arith)
            requires
                ranges@.len() == 0,
        ;
    }
    while start < total_bytes
        invariant
            chunk == range_chunk(total, parts as nat),
            chunk >= 1,
            total == total_bytes,
            count == range_count(total, parts as nat),
            (count - 1) * chunk < total,
            count * chunk >= total,
            ranges@.len() <= count,
            start == ranges@.len() * chunk || (start == total && ranges@.len() == count),
            start <= total,
            start < total ==> ranges@.len() < count,
            forall|i: int|
                0 <= i < ranges@.len() ==> (#[trigger] ranges@[i]).0 == range_at(total, parts as nat, i as nat).0
                    && ranges@[i].1 == range_at(total, parts as nat, i as nat).1,
        decreases total_bytes - start,
    {
        let ghost k = ranges@.len();
        proof {
            assert(start == k * chunk);
            assert((k + 1) * chunk == k * chunk + chunk) by (nonlinear_arith);
        }
        let next = if total_bytes - start > chunk {
            start + chunk
        } else {
            total_bytes
        };
        let end = next - 1;
        ranges.push((start, end));
        proof {
            if start + chunk >= total_bytes {
                assert(k + 1 == count) by (nonlinear_arith)
                    requires
                        (k + 1) * chunk >= total,
                        (count - 1) * chunk < total,
                        k < count,
                        chunk >= 1,
                {
                    if k + 1 < count {
                        assert((k + 1) * chunk <= (count - 1) * chunk);
                    }
                }
            } else {
                assert(k + 1 < count) by (nonlinear_arith)
                    requires
                        (k + 1) * chunk < total,
                        count * chunk >= total,
                        chunk >= 1,
                {
                    if k + 1 >= count {
                        assert((k + 1) * chunk >= count * chunk);
                    }
                }
            }
        }
        start = next;
    }
    proof {
        if ranges@.len() < count {
            assert(start == ranges@.len() * chunk);
            assert(ranges@.len() * chunk < total) by (nonlinear_arith)
                requires
                    ranges@.len() < count,
                    (count - 1) * chunk < total,
                    chunk >= 1,
            {
                assert(ranges@.len() * chunk <= (count - 1) * chunk);
            }
        }
    }
    ranges
}

/// Law: the ranges of a parallel download cover every byte exactly once, in order:
/// the first starts at 0, each starts right after the one before, none is empty,
/// the last ends at the final byte, and there are at most `parts` of them.
pub proof fn law_ranges_tile(total: nat, parts: nat)
    requires
        total > 0,
    ensures
        range_at(total, parts, 0).0 == 0,
        forall|i: nat| i < range_count(total, parts) ==> (#[trigger] range_at(total, parts, i)).0 <= range_at(total, parts, i).1,
        forall|i: nat|
            i + 1 < range_count(total, parts) ==> (#[trigger] range_at(total, parts, i + 1)).0 == range_at(total, parts, i).1 + 1,
        range_at(total, parts, (range_count(total, parts) - 1) as nat).1 == total - 1,
        range_count(total, parts) <= (if parts < 1 { 1 } else { parts }),
{
    lemma_range_facts(total, parts);
    let c = range_chunk(total, parts);
    let n = range_count(total, parts);
    assert(0 * c == 0) by (nonlinear_arith);
    assert forall|i: nat| i < n implies (#[trigger] range_at(total, parts, i)).0 <= range_at(total, parts, i).1 by {
        assert(i * c < total) by (nonlinear_arith)
            requires
                i < n,
                (n - 1) * c < total,
                c >= 1,
        {
            assert(i * c <= (n - 1) * c);
        }
        assert((i + 1) * c == i * c + c) by (nonlinear_arith);
    }
    assert forall|i: nat| i + 1 < n implies (#[trigger] range_at(total, parts, i + 1)).0 == range_at(total, parts, i).1 + 1 by {
        assert((i + 1) * c < total && (i + 1) * c >= 1) by (nonlinear_arith)
            requires
                i + 1 < n,
                (n - 1) * c < total,
                c >= 1,
        {
            assert((i + 1) * c <= (n - 1) * c);
        }
        assert(range_at(total, parts, i).1 == (i + 1) * c - 1);
        assert(range_at(total, parts, i + 1).0 == (i + 1) * c);
    }
    assert(((n - 1) as nat + 1) * c >= total);
}


// ---------------------------------------------------------------------------
// Libraries by name, directories and uploads.
// ---------------------------------------------------------------------------

/// The first library named `name`, if any.
pub open spec fn first_named(repos: Seq<Repository>, name: Seq<char>) -> Option<Repository>
    decreases repos.len(),
{
    if repos.len() == 0 {
        None
    } else if repos[0].name@ == name {
        Some(repos[0])
    } else {
        first_named(repos.drop_first(), name)
    }
}

/// The first library named `name`, if any (a push or `mkrepo` reuses it rather
/// than creating another).
pub fn first_repository_named<'a>(repos: &'a [Repository], name: &str) -> (res: Option<&'a Repository>)
    ensures
        match res {
            Some(r) => first_named(repos@, name@) == Some(*r),
            None => first_named(repos@, name@) is None,
        },
{
    let mut i: usize = 0;
    proof {
        assert(repos@.skip(0) =~= repos@);
    }
    while i < repos.len()
        invariant
            i <= repos@.len(),
            first_named(repos@, name@) == first_named(repos@.skip(i as int), name@),
        decreases repos@.len() - i,
    {
        if str_eq(repos[i].name.as_str(), name) {
            return Some(&repos[i]);
        }
        proof {
            assert(repos@.skip(i as int).drop_first() =~= repos@.skip(i + 1));
        }
        i = i + 1;
    }
    None
}

/// Whether a directory must be created on the server: not for the library root
/// or a blank path.
pub fn needs_directory_creation(path: &str) -> (res: bool)
    ensures
        res == !(path@ == seq!['/'] || trim_seq(path@).len() == 0),
{
    let mut root = String::new();
    crate::text::push_char(&mut root, '/');
    proof {
        assert(root@ =~= seq!['/']);
    }
    !(str_eq(path, root.as_str()) || trim(path).unicode_len() == 0)
}

/// Where an upload resumes: after the bytes the server already holds, at most
/// the whole file.
pub fn upload_start(uploaded_bytes: u64, total_bytes: u64) -> (res: u64)
    ensures
        res == if uploaded_bytes < total_bytes {
            uploaded_bytes
        } else {
            total_bytes
        },
{
    if uploaded_bytes < total_bytes {
        uploaded_bytes
    } else {
        total_bytes
    }
}

/// The `Content-Range` header of a resumed upload: `bytes <start>-<last>/<total>`,
/// where `last` is the final byte (0 for an empty file).
pub fn upload_content_range(start: u64, total_bytes: u64) -> (res: String)
    ensures
        res@ == "bytes "@ + decimal(start as nat) + seq!['-'] + decimal(
            if total_bytes > 0 {
                (total_bytes - 1) as nat
            } else {
                0
            },
        ) + seq!['/'] + decimal(total_bytes as nat),
{
    let last: u64 = if total_bytes > 0 {
        total_bytes - 1
    } else {
        0
    };
    let mut out = String::from_str("bytes ");
    out.append(u64_to_decimal(start).as_str());
    crate::text::push_char(&mut out, '-');
    out.append(u64_to_decimal(last).as_str());
    crate::text::push_char(&mut out, '/');
    out.append(u64_to_decimal(total_bytes).as_str());
    out
}

/// The `Content-Disposition` header of a resumed upload.
pub fn upload_disposition(target_name: &str) -> (res: String)
    ensures
        res@ == "attachment; filename=\""@ + target_name@ + "\""@,
{
    String::from_str("attachment; filename=\"").concat(target_name).concat("\"")
}

/// The upload form's `replace` field.
pub fn replace_flag(replace: bool) -> (res: &'static str)
    ensures
        res@ == if replace {
            "1"@
        } else {
            "0"@
        },
{
    if replace {
        "1"
    } else {
        "0"
    }
}

/// The address an upload is posted to: the upload link, asking for a JSON answer.
pub fn upload_request_url(upload_link: &str) -> (res: String)
    ensures
        res@ == upload_link@ + "?ret-json=1"@,
{
    to_owned_string(upload_link).concat("?ret-json=1")
}

/// The uploaded file's metadata: the first entry of the server's answer to an
/// upload (or, with `update`, to an update); an answer without one is an error.
pub fn first_uploaded(uploaded: Vec<UploadedFile>, update: bool) -> (res: Result<UploadedFile, ThufsError>)
    ensures
        uploaded@.len() > 0 ==> res == Ok::<UploadedFile, ThufsError>(uploaded@[0]),
        uploaded@.len() == 0 && !update ==> res == Err::<UploadedFile, ThufsError>(ThufsError::UploadWithoutMetadata),
        uploaded@.len() == 0 && update ==> res == Err::<UploadedFile, ThufsError>(ThufsError::UpdateWithoutMetadata),
{
    let mut uploaded = uploaded;
    if uploaded.len() == 0 {
        if update {
            Err(ThufsError::UpdateWithoutMetadata)
        } else {
            Err(ThufsError::UploadWithoutMetadata)
        }
    } else {
        Ok(uploaded.remove(0))
    }
}


// ---------------------------------------------------------------------------
// Endpoints.
// ---------------------------------------------------------------------------

/// The endpoints that belong to one library.
#[derive(Debug, Clone, Copy, PartialEq, Eq, Structural)]
pub enum RepoEndpoint {
    /// Directory listing and creation.
    Dir,
    /// The link to upload new files with.
    UploadLink,
    /// The link to replace a file with.
    UpdateLink,
    /// The download link of a file.
    File,
    /// The details of a file.
    FileDetail,
    /// The details of a directory.
    DirDetail,
    /// How much of an interrupted upload the server holds.
    UploadedBytes,
}

/// The path of a library endpoint: `<api>/repos/<repo_id>/<rest>`.
pub open spec fn repo_endpoint_seq(kind: RepoEndpoint, repo_id: Seq<char>) -> Seq<char> {
    let (api, rest) = match kind {
        RepoEndpoint::Dir => ("/api2"@, "/dir/"@),
        RepoEndpoint::UploadLink => ("/api2"@, "/upload-link/"@),
        RepoEndpoint::UpdateLink => ("/api2"@, "/update-link/"@),
        RepoEndpoint::File => ("/api2"@, "/file/"@),
        RepoEndpoint::FileDetail => ("/api2"@, "/file/detail/"@),
        RepoEndpoint::DirDetail => ("/api/v2.1"@, "/dir/detail/"@),
        RepoEndpoint::UploadedBytes => ("/api/v2.1"@, "/file-uploaded-bytes/"@),
    };
    base_url_seq() + api + "/repos/"@ + repo_id + rest
}

/// The address of a library endpoint (see `repo_endpoint_seq`).
pub fn repo_endpoint_url(kind: RepoEndpoint, repo_id: &str) -> (res: String)
    ensures
        res@ == repo_endpoint_seq(kind, repo_id@),
{
    let (api, rest) = match kind {
        RepoEndpoint::Dir => ("/api2", "/dir/"),
        RepoEndpoint::UploadLink => ("/api2", "/upload-link/"),
        RepoEndpoint::UpdateLink => ("/api2", "/update-link/"),
        RepoEndpoint::File => ("/api2", "/file/"),
        RepoEndpoint::FileDetail => ("/api2", "/file/detail/"),
        RepoEndpoint::DirDetail => ("/api/v2.1", "/dir/detail/"),
        RepoEndpoint::UploadedBytes => ("/api/v2.1", "/file-uploaded-bytes/"),
    };
    String::from_str("https://cloud.tsinghua.edu.cn").concat(api).concat("/repos/").concat(repo_id).concat(rest)
}

/// The address of the library list (and of library creation).
pub fn repos_url() -> (res: String)
    ensures
        res@ == base_url_seq() + "/api2/repos/"@,
{
    String::from_str("https://cloud.tsinghua.edu.cn").concat("/api2/repos/")
}

/// The address of the account information.
pub fn account_info_url() -> (res: String)
    ensures
        res@ == base_url_seq() + "/api2/account/info/"@,
{
    String::from_str("https://cloud.tsinghua.edu.cn").concat("/api2/account/info/")
}

/// The address of the share-link list (and of share-link creation).
pub fn share_links_url() -> (res: String)
    ensures
        res@ == base_url_seq() + "/api/v2.1/share-links/"@,
{
    String::from_str("https://cloud.tsinghua.edu.cn").concat("/api/v2.1/share-links/")
}

/// The address of one share link, by its token.
pub fn share_link_url(token: &str) -> (res: String)
    ensures
        res@ == base_url_seq() + "/api/v2.1/share-links/"@ + token@ + "/"@,
{
    String::from_str("https://cloud.tsinghua.edu.cn").concat("/api/v2.1/share-links/").concat(token).concat("/")
}

} // verus!
