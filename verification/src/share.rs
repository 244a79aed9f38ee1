//! Share links: hashcodes and share URLs, share options, the URL of a link, and
//! the paged listing of links.
use vstd::prelude::*;

use crate::contract::{join_seq, split_once_seq, ResolvedRemoteRef};
use crate::error::ThufsError;
use crate::text::{
    is_whitespace, decimal, has_prefix, has_suffix, push_char, strip_prefix, to_owned_string, trim, trim_seq, trim_start_char,
    trim_start_char_seq, u64_to_decimal,
};

verus! {

/// The origin of THU Cloud Drive URLs, with its trailing `/`.
pub open spec fn cloud_origin() -> Seq<char> {
    "https://cloud.tsinghua.edu.cn/"@
}

/// A share link as the server reports it.
#[derive(Debug, Clone, PartialEq, Eq)]
pub struct ShareLink {
    pub link: Option<String>,
    pub token: Option<String>,
    pub path: Option<String>,
    pub repo_id: Option<String>,
    pub repo_name: Option<String>,
    pub obj_name: Option<String>,
    pub is_dir: Option<bool>,
    pub ctime: Option<String>,
    pub expire_date: Option<String>,
    pub view_cnt: Option<u64>,
    pub expire_days: Option<u32>,
}

/// A request to create a share link.
#[derive(Debug, Clone, PartialEq, Eq)]
pub struct ShareLinkRequest {
    pub repo_id: String,
    pub path: String,
    pub password: Option<String>,
    pub expire_days: Option<u32>,
}

/// Options of a new share link.
#[derive(Debug, Clone)]
pub struct ShareOptions {
    pub password: Option<String>,
    pub expire_days: Option<u32>,
}

/// A created share link as reported to users.
#[derive(Debug, Clone, PartialEq, Eq)]
pub struct ShareResult {
    pub repo: String,
    pub remote_path: String,
    pub link: String,
    pub url: String,
    pub token: Option<String>,
    pub expires_in_days: Option<u32>,
    pub password_protected: bool,
}

/// One listed share link.
#[derive(Debug, Clone, PartialEq, Eq)]
pub struct ShareItem {
    pub repo: Option<String>,
    pub repo_id: Option<String>,
    pub path: Option<String>,
    pub token: Option<String>,
    pub link: String,
    pub url: String,
    pub is_dir: Option<bool>,
    pub created_at: Option<String>,
    pub expire_date: Option<String>,
    pub view_count: Option<u64>,
}

/// One page of listed share links.
#[derive(Debug, Clone, PartialEq, Eq)]
pub struct ShareListResult {
    pub repo: Option<String>,
    pub path: Option<String>,
    pub page: usize,
    pub per_page: usize,
    pub total: usize,
    pub has_more: bool,
    pub shares: Vec<ShareItem>,
}

/// A deleted share link.
#[derive(Debug, Clone, PartialEq, Eq)]
pub struct UnshareResult {
    pub token: String,
    pub removed: bool,
}

/// The hashcode of a public share.
#[derive(Debug, Clone, PartialEq, Eq)]
pub struct ShareRef {
    pub token: String,
}

/// The view of an optional string.
pub open spec fn opt_view(o: Option<String>) -> Option<Seq<char>> {
    match o {
        Some(s) => Some(s@),
        None => None,
    }
}

/// Index of the first character of `s` that occurs in `stops`, if any.
pub open spec fn first_stop_index(s: Seq<char>, stops: Seq<char>) -> Option<int> {
    if exists|i: int| 0 <= i < s.len() && stops.contains(s[i]) {
        Some(
            choose|i: int|
                0 <= i < s.len() && stops.contains(s[i]) && forall|j: int| 0 <= j < i ==> !stops.contains(s[j]),
        )
    } else {
        None
    }
}

/// The part of `s` before its first character that occurs in `stops`.
pub open spec fn before_stops(s: Seq<char>, stops: Seq<char>) -> Seq<char> {
    match first_stop_index(s, stops) {
        Some(i) => s.take(i),
        None => s,
    }
}

/// A character a share hashcode may hold: ASCII letters and digits, `-` and `_`.
pub open spec fn is_hashcode_char(c: char) -> bool {
    ('a' <= c && c <= 'z') || ('A' <= c && c <= 'Z') || ('0' <= c && c <= '9') || c == '-' || c == '_'
}

/// The hashcode `input` names: the part before any `?`, `#` or `/`, trimmed.
pub open spec fn share_token_seq(input: Seq<char>) -> Result<Seq<char>, ThufsError> {
    let t = trim_seq(before_stops(input, "?#/"@));
    if t.len() == 0 {
        Err(ThufsError::ShareHashcodeEmpty)
    } else if exists|i: int| 0 <= i < t.len() && !is_hashcode_char(t[i]) {
        Err(ThufsError::ShareHashcodeUnsupported)
    } else {
        Ok(t)
    }
}

/// The hashcode of a THU Cloud Drive share URL (`http` or `https`, kind `f` or `d`);
/// `Ok(None)` for anything that is not such a URL.
pub open spec fn share_url_token_seq(input: Seq<char>) -> Result<Option<Seq<char>>, ThufsError> {
    let rem = if has_prefix(input, cloud_origin()) {
        Some(input.skip(cloud_origin().len() as int))
    } else if has_prefix(input, "http://cloud.tsinghua.edu.cn/"@) {
        Some(input.skip("http://cloud.tsinghua.edu.cn/"@.len() as int))
    } else {
        None
    };
    match rem {
        None => Ok(None),
        Some(r) => {
            let r2 = trim_start_char_seq(before_stops(r, "#?"@), '/');
            let kind = split_once_seq(r2, '/').0;
            let token = split_once_seq(split_once_seq(r2, '/').1, '/').0;
            if kind != seq!['f'] && kind != seq!['d'] {
                Ok(None)
            } else if token.len() == 0 {
                Err(ThufsError::ShareMissingHashcode)
            } else {
                match share_token_seq(token) {
                    Ok(t) => Ok(Some(t)),
                    Err(e) => Err(e),
                }
            }
        },
    }
}

/// The share a download argument names: a share URL always, a bare hashcode only
/// with `--share`; `Ok(None)` when it names no share.
pub open spec fn share_ref_seq(input: Seq<char>, from_share: bool) -> Result<Option<Seq<char>>, ThufsError> {
    let t = trim_seq(input);
    if t.len() == 0 {
        Ok(None)
    } else {
        match share_url_token_seq(t) {
            Err(e) => Err(e),
            Ok(Some(token)) => Ok(Some(token)),
            Ok(None) => if from_share {
                match share_token_seq(t) {
                    Ok(token) => Ok(Some(token)),
                    Err(e) => Err(e),
                }
            } else {
                Ok(None)
            },
        }
    }
}

/// The view of an optional string, or the empty string when absent.
pub open spec fn opt_or_empty(o: Option<String>) -> Seq<char> {
    match o {
        Some(s) => s@,
        None => Seq::empty(),
    }
}

/// The URL of a share link: its `link` when non-empty, otherwise the URL built from
/// its token, of kind `d` for directories (or, when unknown, for paths ending in
/// `/`) and `f` for files.
pub open spec fn share_url_seq(share: ShareLink, path: Seq<char>) -> Seq<char> {
    if share.link is Some && share.link->0@.len() > 0 {
        share.link->0@
    } else {
        let token = opt_or_empty(share.token);
        let is_dir = match share.is_dir {
            Some(b) => b,
            None => has_suffix(path, seq!['/']),
        };
        let kind = if is_dir {
            'd'
        } else {
            'f'
        };
        cloud_origin().push(kind).push('/') + token.push('/')
    }
}

/// Index of the first character of `s` that occurs in `stops`.
pub fn find_any_of(s: &str, stops: &str) -> (res: Option<usize>)
    ensures
        match res {
            Some(i) => i < s@.len() && first_stop_index(s@, stops@) == Some(i as int),
            None => first_stop_index(s@, stops@) is None,
        },
{
    let n = s.unicode_len();
    let m = stops.unicode_len();
    let mut i: usize = 0;
    while i < n
        invariant
            n == s@.len(),
            m == stops@.len(),
            i <= n,
            forall|j: int| 0 <= j < i ==> !stops@.contains(#[trigger] s@[j]),
        decreases n - i,
    {
        let c = s.get_char(i);
        let mut k: usize = 0;
        while k < m
            invariant
                m == stops@.len(),
                n == s@.len(),
                i < n,
                c == s@[i as int],
                forall|j: int| 0 <= j < i ==> !stops@.contains(#[trigger] s@[j]),
                k <= m,
                forall|j: int| 0 <= j < k ==> stops@[j] != c,
            decreases m - k,
        {
            if stops.get_char(k) == c {
                proof {
                    assert(stops@[k as int] == c);
                    assert(stops@.contains(s@[i as int]));
                    let w = choose|w: int|
                        0 <= w < s@.len() && stops@.contains(s@[w]) && forall|j: int| 0 <= j < w ==> !stops@.contains(s@[j]);
                    assert(0 <= w < s@.len() && stops@.contains(s@[w]) && forall|j: int| 0 <= j < w ==> !stops@.contains(s@[j]));
                    if w < i {
                        assert(!stops@.contains(s@[w]));
                    }
                    if i < w {
                        assert(!stops@.contains(s@[i as int]));
                    }
                }
                return Some(i);
            }
            k = k + 1;
        }
        proof {
            assert(!stops@.contains(c));
        }
        i = i + 1;
    }
    None
}

/// The part of `s` before its first character that occurs in `stops`.
fn before_any_of<'a>(s: &'a str, stops: &str) -> (res: &'a str)
    ensures
        res@ == before_stops(s@, stops@),
{
    match find_any_of(s, stops) {
        Some(i) => s.substring_char(0, i),
        None => s,
    }
}

/// Whether `c` may appear in a share hashcode.
fn hashcode_char(c: char) -> (res: bool)
    ensures
        res == is_hashcode_char(c),
{
    ('a' <= c && c <= 'z') || ('A' <= c && c <= 'Z') || ('0' <= c && c <= '9') || c == '-' || c == '_'
}

/// The hashcode `input` names (see `share_token_seq`).
pub fn parse_share_token(input: &str) -> (res: Result<String, ThufsError>)
    ensures
        match res {
            Ok(t) => share_token_seq(input@) == Ok::<Seq<char>, ThufsError>(t@),
            Err(e) => share_token_seq(input@) == Err::<Seq<char>, ThufsError>(e),
        },
{
    let token = trim(before_any_of(input, "?#/"));
    let n = token.unicode_len();
    if n == 0 {
        return Err(ThufsError::ShareHashcodeEmpty);
    }
    let mut i: usize = 0;
    while i < n
        invariant
            n == token@.len(),
            token@ == trim_seq(before_stops(input@, "?#/"@)),
            i <= n,
            forall|j: int| 0 <= j < i ==> is_hashcode_char(#[trigger] token@[j]),
        decreases n - i,
    {
        if !hashcode_char(token.get_char(i)) {
            proof {
                let t = trim_seq(before_stops(input@, "?#/"@));
                assert(token@ == t);
                assert(!is_hashcode_char(t[i as int]));
                assert(exists|j: int| 0 <= j < t.len() && !is_hashcode_char(t[j]));
            }
            return Err(ThufsError::ShareHashcodeUnsupported);
        }
        i = i + 1;
    }
    Ok(to_owned_string(token))
}

/// Splits at the first `c`: the part before it and the part after it (empty when
/// `c` does not occur).
fn split_once<'a>(s: &'a str, c: char) -> (res: (&'a str, &'a str))
    ensures
        (res.0@, res.1@) == split_once_seq(s@, c),
{
    let n = s.unicode_len();
    match crate::text::find_char(s, c) {
        Some(i) => (s.substring_char(0, i), s.substring_char(i + 1, n)),
        None => {
            proof {
                assert(s@.subrange(n as int, n as int) =~= Seq::<char>::empty());
            }
            (s, s.substring_char(n, n))
        },
    }
}

/// The hashcode of a share URL (see `share_url_token_seq`).
pub fn parse_share_url(input: &str) -> (res: Result<Option<String>, ThufsError>)
    ensures
        match res {
            Ok(t) => share_url_token_seq(input@) == Ok::<Option<Seq<char>>, ThufsError>(opt_view(t)),
            Err(e) => share_url_token_seq(input@) == Err::<Option<Seq<char>>, ThufsError>(e),
        },
{
    let remainder = match strip_prefix(input, "https://cloud.tsinghua.edu.cn/") {
        Some(r) => r,
        None => match strip_prefix(input, "http://cloud.tsinghua.edu.cn/") {
            Some(r) => r,
            None => {
                return Ok(None);
            },
        },
    };
    let remainder = trim_start_char(before_any_of(remainder, "#?"), '/');
    let (kind, rest) = split_once(remainder, '/');
    let (token, _) = split_once(rest, '/');
    let is_kind = if kind.unicode_len() == 1 {
        let c = kind.get_char(0);
        proof {
            if c == 'f' {
                assert(kind@ =~= seq!['f']);
            }
            if c == 'd' {
                assert(kind@ =~= seq!['d']);
            }
        }
        c == 'f' || c == 'd'
    } else {
        false
    };
    proof {
        if kind@ == seq!['f'] || kind@ == seq!['d'] {
            assert(kind@.len() == 1);
        }
    }
    if !is_kind {
        return Ok(None);
    }
    if token.unicode_len() == 0 {
        return Err(ThufsError::ShareMissingHashcode);
    }
    match parse_share_token(token) {
        Ok(t) => Ok(Some(t)),
        Err(e) => Err(e),
    }
}

/// The share a download argument names (see `share_ref_seq`).
pub fn parse_share_ref(input: &str, from_share: bool) -> (res: Result<Option<ShareRef>, ThufsError>)
    ensures
        match res {
            Ok(Some(r)) => share_ref_seq(input@, from_share) == Ok::<Option<Seq<char>>, ThufsError>(Some(r.token@)),
            Ok(None) => share_ref_seq(input@, from_share) == Ok::<Option<Seq<char>>, ThufsError>(None),
            Err(e) => share_ref_seq(input@, from_share) == Err::<Option<Seq<char>>, ThufsError>(e),
        },
{
    let trimmed = trim(input);
    if trimmed.unicode_len() == 0 {
        return Ok(None);
    }
    match parse_share_url(trimmed) {
        Err(e) => Err(e),
        Ok(Some(token)) => Ok(Some(ShareRef { token })),
        Ok(None) => {
            if from_share {
                match parse_share_token(trimmed) {
                    Ok(token) => Ok(Some(ShareRef { token })),
                    Err(e) => Err(e),
                }
            } else {
                Ok(None)
            }
        },
    }
}

/// An exact copy of an optional string.
pub fn clone_opt_string(o: &Option<String>) -> (res: Option<String>)
    ensures
        res == *o,
{
    match o {
        Some(s) => Some(s.clone()),
        None => None,
    }
}

/// The URL of a share link (see `share_url_seq`).
pub fn share_url(share: &ShareLink, path: &str) -> (res: String)
    ensures
        res@ == share_url_seq(*share, path@),
{
    match &share.link {
        Some(link) => {
            if link.unicode_len() > 0 {
                return link.clone();
            }
        },
        None => {},
    }
    let mut slash = String::new();
    push_char(&mut slash, '/');
    proof {
        assert(slash@ =~= seq!['/']);
    }
    let is_dir = match share.is_dir {
        Some(b) => b,
        None => crate::text::ends_with(path, slash.as_str()),
    };
    let mut out = String::from_str("https://cloud.tsinghua.edu.cn/");
    push_char(&mut out, if is_dir {
        'd'
    } else {
        'f'
    });
    push_char(&mut out, '/');
    match &share.token {
        Some(t) => out.append(t.as_str()),
        None => {},
    }
    push_char(&mut out, '/');
    proof {
        let token = opt_or_empty(share.token);
        let kind = if is_dir {
            'd'
        } else {
            'f'
        };
        assert(out@ =~= cloud_origin().push(kind).push('/') + token.push('/'));
    }
    out
}

/// Checks share options: a password must not be empty, an expiration must be at
/// least one day.
pub fn validate_options(options: &ShareOptions) -> (res: Result<(), ThufsError>)
    ensures
        match res {
            Ok(()) => !(options.password is Some && options.password->0@.len() == 0) && options.expire_days != Some(0u32),
            Err(e) => if options.password is Some && options.password->0@.len() == 0 {
                e == ThufsError::EmptySharePassword
            } else {
                options.expire_days == Some(0u32) && e == ThufsError::ShareExpirationTooShort
            },
        },
{
    match &options.password {
        Some(p) => {
            if p.unicode_len() == 0 {
                return Err(ThufsError::EmptySharePassword);
            }
        },
        None => {},
    }
    match options.expire_days {
        Some(d) => {
            if d == 0 {
                return Err(ThufsError::ShareExpirationTooShort);
            }
        },
        None => {},
    }
    Ok(())
}

/// The request that creates a share link for a resolved remote path.
pub fn share_link_request(resolved: &ResolvedRemoteRef, options: &ShareOptions) -> (res: ShareLinkRequest)
    ensures
        res.repo_id@ == resolved.repo_id@,
        res.path@ == resolved.path@,
        res.password == options.password,
        res.expire_days == options.expire_days,
{
    ShareLinkRequest {
        repo_id: resolved.repo_id.clone(),
        path: resolved.path.clone(),
        password: clone_opt_string(&options.password),
        expire_days: options.expire_days,
    }
}

/// The report of a created share link: its URL (for the link's own path, or the
/// requested one when the server gave none), its token, its expiry (the server's,
/// else the requested one) and whether a non-empty password protects it.
pub fn share_result(resolved: &ResolvedRemoteRef, created: &ShareLink, options: &ShareOptions) -> (res: ShareResult)
    ensures
        res.repo@ == resolved.repo_name@,
        res.remote_path@ == resolved.path@,
        res.url@ == share_url_seq(
            *created,
            match created.path {
                Some(p) => p@,
                None => resolved.path@,
            },
        ),
        res.link@ == res.url@,
        res.token == created.token,
        res.expires_in_days == match created.expire_days {
            Some(d) => Some(d),
            None => options.expire_days,
        },
        res.password_protected == (options.password is Some && options.password->0@.len() > 0),
{
    let url = match &created.path {
        Some(p) => share_url(created, p.as_str()),
        None => share_url(created, resolved.path.as_str()),
    };
    let expires_in_days = match created.expire_days {
        Some(d) => Some(d),
        None => options.expire_days,
    };
    let password_protected = match &options.password {
        Some(p) => p.unicode_len() > 0,
        None => false,
    };
    ShareResult {
        repo: resolved.repo_name.clone(),
        remote_path: resolved.path.clone(),
        link: url.clone(),
        url,
        token: clone_opt_string(&created.token),
        expires_in_days,
        password_protected,
    }
}

/// The token `unshare` deletes: the argument trimmed, which must not be empty.
pub fn unshare_token(token: &str) -> (res: Result<String, ThufsError>)
    ensures
        match res {
            Ok(t) => t@ == trim_seq(token@) && t@.len() > 0,
            Err(e) => trim_seq(token@).len() == 0 && e == ThufsError::EmptyShareToken,
        },
{
    let t = trim(token);
    if t.unicode_len() == 0 {
        return Err(ThufsError::EmptyShareToken);
    }
    Ok(to_owned_string(t))
}

/// The report of a deleted share link.
pub fn unshare_result(token: String) -> (res: UnshareResult)
    ensures
        res.token@ == token@,
        res.removed,
{
    UnshareResult { token, removed: true }
}

// ---------------------------------------------------------------------------
// Paged listings.
// ---------------------------------------------------------------------------

/// The first index of the page shown (pages and page sizes below 1 count as 1).
pub open spec fn page_start(page: nat, per_page: nat, all: bool) -> nat {
    if all {
        0
    } else {
        ((if page < 1 { 1 } else { page }) - 1) as nat * (if per_page < 1 { 1 } else { per_page })
    }
}

/// One past the last index of the page shown.
pub open spec fn page_end(total: nat, page: nat, per_page: nat, all: bool) -> nat {
    if all {
        total
    } else {
        let e = page_start(page, per_page, false) + (if per_page < 1 { 1 } else { per_page });
        if e < total {
            e
        } else {
            total
        }
    }
}

/// The listed form of one share link, with `repo` as the fallback library name.
pub open spec fn share_item_of(share: ShareLink, repo: Option<String>, item: ShareItem) -> bool {
    let path = match share.path {
        Some(p) => p@,
        None => seq!['/'],
    };
    &&& item.repo == (match share.repo_name {
        Some(r) => Some(r),
        None => repo,
    })
    &&& item.repo_id == share.repo_id
    &&& item.path == share.path
    &&& item.token == share.token
    &&& item.link@ == share_url_seq(share, path)
    &&& item.url@ == item.link@
    &&& item.is_dir == share.is_dir
    &&& item.created_at == share.ctime
    &&& item.expire_date == share.expire_date
    &&& item.view_count == share.view_cnt
}

/// The listed form of one share link.
fn share_item(share: &ShareLink, repo: &Option<String>) -> (res: ShareItem)
    ensures
        share_item_of(*share, *repo, res),
{
    let mut root = String::new();
    push_char(&mut root, '/');
    proof {
        assert(root@ =~= seq!['/']);
    }
    let url = match &share.path {
        Some(p) => share_url(share, p.as_str()),
        None => share_url(share, root.as_str()),
    };
    ShareItem {
        repo: match &share.repo_name {
            Some(r) => Some(r.clone()),
            None => clone_opt_string(repo),
        },
        repo_id: clone_opt_string(&share.repo_id),
        path: clone_opt_string(&share.path),
        token: clone_opt_string(&share.token),
        link: url.clone(),
        url,
        is_dir: share.is_dir,
        created_at: clone_opt_string(&share.ctime),
        expire_date: clone_opt_string(&share.expire_date),
        view_count: share.view_cnt,
    }
}

/// One page of share links: page `page` (at least 1) of size `per_page` (at least
/// 1), or every link with `all`.
pub fn page_share_links(
    repo: Option<String>,
    path: Option<String>,
    links: &Vec<ShareLink>,
    page: usize,
    per_page: usize,
    all: bool,
) -> (res: ShareListResult)
    requires
        all || (if page < 1 { 1 } else { page }) * (if per_page < 1 { 1 } else { per_page }) <= usize::MAX,
    ensures
        res.repo == repo,
        res.path == path,
        res.page == (if page < 1 { 1 } else { page }),
        res.per_page == (if all {
            if links@.len() < 1 { 1 } else { links@.len() as int }
        } else {
            if per_page < 1 { 1 } else { per_page as int }
        }),
        res.total == links@.len(),
        res.has_more == (!all && page_end(links@.len(), page as nat, per_page as nat, false) < links@.len()),
        page_start(page as nat, per_page as nat, all) >= links@.len() ==> res.shares@.len() == 0,
        page_start(page as nat, per_page as nat, all) < links@.len() ==> {
            let start = page_start(page as nat, per_page as nat, all) as int;
            let end = page_end(links@.len(), page as nat, per_page as nat, all) as int;
            &&& res.shares@.len() == end - start
            &&& forall|i: int| 0 <= i < end - start ==> share_item_of(links@[start + i], repo, #[trigger] res.shares@[i])
        },
{
    let page = if page < 1 {
        1
    } else {
        page
    };
    let per_page = if per_page < 1 {
        1
    } else {
        per_page
    };
    let total = links.len();
    let start = if all {
        0
    } else {
        proof {
            assert((page - 1) * per_page <= page * per_page) by (nonlinear_arith)
                requires
                    page >= 1,
                    per_page >= 1,
            ;
            assert(page * per_page == (page - 1) * per_page + per_page) by (nonlinear_arith);
        }
        (page - 1) * per_page
    };
    let end = if all {
        total
    } else {
        if start + per_page < total {
            start + per_page
        } else {
            total
        }
    };
    let has_more = !all && end < total;
    let mut shares: Vec<ShareItem> = Vec::new();
    if start < total {
        let mut i = start;
        while i < end
            invariant
                start <= i <= end,
                end <= total,
                total == links@.len(),
                shares@.len() == i - start,
                forall|k: int| 0 <= k < i - start ==> share_item_of(links@[start + k], repo, #[trigger] shares@[k]),
            decreases end - i,
        {
            let item = share_item(&links[i], &repo);
            shares.push(item);
            i = i + 1;
        }
    }
    ShareListResult {
        repo,
        path,
        page,
        per_page: if all {
            if total < 1 {
                1
            } else {
                total
            }
        } else {
            per_page
        },
        total,
        has_more,
        shares,
    }
}

/// Law: consecutive pages tile the list. Page `p` ends where page `p + 1` starts,
/// and a page reports more links exactly when the next page is not empty.
pub proof fn law_pages_tile(total: nat, page: nat, per_page: nat)
    requires
        page >= 1,
        per_page >= 1,
    ensures
        page_start(page + 1, per_page, false) == page_start(page, per_page, false) + per_page,
        (page_end(total, page, per_page, false) < total) <==> (page_start(page + 1, per_page, false) < total),
{
    assert(page * per_page == (page - 1) * per_page + per_page) by (nonlinear_arith);
}

/// `"true"` or `"false"`.
pub open spec fn bool_text(b: bool) -> Seq<char> {
    if b {
        "true"@
    } else {
        "false"@
    }
}

/// The view of an optional string, or `-` when absent.
pub open spec fn or_dash(o: Option<String>) -> Seq<char> {
    match o {
        Some(s) => s@,
        None => seq!['-'],
    }
}

/// The human line of one listed share: token, library (or its id), path and URL,
/// separated by tabs, `-` standing for what is missing.
pub open spec fn share_line(item: ShareItem) -> Seq<char> {
    let repo = match item.repo {
        Some(r) => r@,
        None => or_dash(item.repo_id),
    };
    or_dash(item.token).push('\t') + repo.push('\t') + or_dash(item.path).push('\t') + item.url@
}

/// The header line of a share listing.
pub open spec fn share_header(result: ShareListResult) -> Seq<char> {
    "share links page="@ + decimal(result.page as nat) + " per_page="@ + decimal(result.per_page as nat)
        + " total="@ + decimal(result.total as nat) + " has_more="@ + bool_text(result.has_more)
}

/// The human rendering of a share listing.
pub open spec fn shares_human_seq(result: ShareListResult) -> Seq<char> {
    if result.shares@.len() == 0 {
        "No share links found"@
    } else {
        join_seq(
            seq![share_header(result)] + Seq::new(result.shares@.len(), |i: int| share_line(result.shares@[i])),
            '\n',
        )
    }
}

/// Appends an optional string, or `-` when absent.
fn push_or_dash(out: &mut String, o: &Option<String>)
    ensures
        final(out)@ == old(out)@ + or_dash(*o),
{
    match o {
        Some(s) => out.append(s.as_str()),
        None => push_char(out, '-'),
    }
}

/// The human line of one listed share (see `share_line`).
fn format_share_line(item: &ShareItem) -> (res: String)
    ensures
        res@ == share_line(*item),
{
    let mut out = String::new();
    push_or_dash(&mut out, &item.token);
    push_char(&mut out, '\t');
    match &item.repo {
        Some(r) => out.append(r.as_str()),
        None => push_or_dash(&mut out, &item.repo_id),
    }
    push_char(&mut out, '\t');
    push_or_dash(&mut out, &item.path);
    push_char(&mut out, '\t');
    out.append(item.url.as_str());
    proof {
        assert(out@ =~= share_line(*item));
    }
    out
}

/// The human rendering of a share listing (see `shares_human_seq`).
pub fn format_human(result: &ShareListResult) -> (res: String)
    ensures
        res@ == shares_human_seq(*result),
{
    if result.shares.len() == 0 {
        return String::from_str("No share links found");
    }
    let mut header = String::from_str("share links page=");
    header.append(u64_to_decimal(result.page as u64).as_str());
    header.append(" per_page=");
    header.append(u64_to_decimal(result.per_page as u64).as_str());
    header.append(" total=");
    header.append(u64_to_decimal(result.total as u64).as_str());
    header.append(" has_more=");
    header.append(if result.has_more {
        "true"
    } else {
        "false"
    });
    let mut lines: Vec<String> = Vec::new();
    lines.push(header);
    let ghost share_lines = Seq::new(result.shares@.len(), |k: int| share_line(result.shares@[k]));
    let mut i: usize = 0;
    while i < result.shares.len()
        invariant
            i <= result.shares@.len(),
            share_lines == Seq::new(result.shares@.len(), |k: int| share_line(result.shares@[k])),
            lines@.map_values(|l: String| l@) =~= seq![share_header(*result)] + share_lines.take(i as int),
        decreases result.shares@.len() - i,
    {
        let line = format_share_line(&result.shares[i]);
        let ghost before = lines@;
        lines.push(line);
        proof {
            assert(lines@.map_values(|l: String| l@) =~= before.map_values(|l: String| l@).push(
                share_line(result.shares@[i as int]),
            ));
            assert(share_lines.take(i + 1) =~= share_lines.take(i as int).push(share_line(result.shares@[i as int])));
        }
        i = i + 1;
    }
    proof {
        assert(share_lines.take(result.shares@.len() as int) =~= share_lines);
    }
    crate::listing::join_lines(&lines)
}


/// The views of form or query fields.
pub open spec fn field_views(fields: Seq<(String, String)>) -> Seq<(Seq<char>, Seq<char>)> {
    fields.map_values(|f: (String, String)| (f.0@, f.1@))
}

/// The form that creates a share link: `repo_id` and `path`, then `password`
/// and `expire_days` when they are set.
pub open spec fn share_link_form_seq(request: ShareLinkRequest) -> Seq<(Seq<char>, Seq<char>)> {
    let base = seq![("repo_id"@, request.repo_id@), ("path"@, request.path@)];
    let with_password = match request.password {
        Some(p) => base.push(("password"@, p@)),
        None => base,
    };
    match request.expire_days {
        Some(d) => with_password.push(("expire_days"@, decimal(d as nat))),
        None => with_password,
    }
}

/// The form fields of a share-link request (see `share_link_form_seq`).
pub fn share_link_form(request: &ShareLinkRequest) -> (res: Vec<(String, String)>)
    ensures
        field_views(res@) == share_link_form_seq(*request),
{
    let mut form: Vec<(String, String)> = Vec::new();
    form.push((String::from_str("repo_id"), request.repo_id.clone()));
    form.push((String::from_str("path"), request.path.clone()));
    match &request.password {
        Some(p) => {
            form.push((String::from_str("password"), p.clone()));
        },
        None => {},
    }
    match request.expire_days {
        Some(d) => {
            form.push((String::from_str("expire_days"), u64_to_decimal(d as u64)));
        },
        None => {},
    }
    proof {
        assert(field_views(form@) =~= share_link_form_seq(*request));
    }
    form
}

/// The query that lists the share links of a library: `repo_id`, then `path`
/// when given.
pub fn share_links_query(repo_id: &str, path: Option<&str>) -> (res: Vec<(String, String)>)
    ensures
        field_views(res@) == match path {
            Some(p) => seq![("repo_id"@, repo_id@), ("path"@, p@)],
            None => seq![("repo_id"@, repo_id@)],
        },
{
    let mut query: Vec<(String, String)> = Vec::new();
    query.push((String::from_str("repo_id"), to_owned_string(repo_id)));
    match path {
        Some(p) => {
            query.push((String::from_str("path"), to_owned_string(p)));
        },
        None => {},
    }
    proof {
        assert(field_views(query@) =~= match path {
            Some(p) => seq![("repo_id"@, repo_id@), ("path"@, p@)],
            None => seq![("repo_id"@, repo_id@)],
        });
    }
    query
}


/// Proof that a prefix without `?` or `#` is kept by a text that goes on with one.
proof fn lemma_prefix_before_stop(input: Seq<char>, sep: char, q: Seq<char>, origin: Seq<char>)
    requires
        sep == '?' || sep == '#',
        !origin.contains('?'),
        !origin.contains('#'),
    ensures
        has_prefix(input.push(sep) + q, origin) == has_prefix(input, origin),
        has_prefix(input, origin) ==> (input.push(sep) + q).skip(origin.len() as int) == input.skip(
            origin.len() as int,
        ).push(sep) + q,
{
    let x = input.push(sep) + q;
    if has_prefix(input, origin) {
        assert(x.subrange(0, origin.len() as int) =~= input.subrange(0, origin.len() as int));
        assert(x.skip(origin.len() as int) =~= input.skip(origin.len() as int).push(sep) + q);
    } else if has_prefix(x, origin) {
        if origin.len() <= input.len() {
            assert(x.subrange(0, origin.len() as int) =~= input.subrange(0, origin.len() as int));
        } else {
            let k = input.len() as int;
            assert(x[k] == sep);
            assert(origin[k] == x.subrange(0, origin.len() as int)[k]);
            assert(origin.contains(origin[k]));
        }
    }
}

/// Proof that the text before the first stop character ends where a stop
/// character follows a text without any.
proof fn lemma_before_stops_at(r: Seq<char>, sep: char, q: Seq<char>, stops: Seq<char>)
    requires
        stops.contains(sep),
        forall|i: int| 0 <= i < r.len() ==> !stops.contains(#[trigger] r[i]),
    ensures
        before_stops(r.push(sep) + q, stops) == r,
        before_stops(r, stops) == r,
{
    let x = r.push(sep) + q;
    let n = r.len() as int;
    assert(x[n] == sep);
    assert(0 <= n < x.len() && stops.contains(x[n]) && forall|j: int| 0 <= j < n ==> !stops.contains(x[j])) by {
        assert forall|j: int| 0 <= j < n implies !stops.contains(x[j]) by {
            assert(x[j] == r[j]);
        }
    }
    let i = choose|i: int| 0 <= i < x.len() && stops.contains(x[i]) && forall|j: int| 0 <= j < i ==> !stops.contains(x[j]);
    if i < n {
        assert(x[i] == r[i]);
    } else if i > n {
        assert(!stops.contains(x[n]));
    }
    assert(first_stop_index(x, stops) == Some(n));
    assert(x.take(n) =~= r);
    assert(!(exists|i: int| 0 <= i < r.len() && stops.contains(r[i])));
}

/// Law: a query string or fragment after a share URL is ignored: the URL names
/// the same share (or the same error) with `?...` or `#...` appended as without.
#[verifier::spinoff_prover]
#[verifier::rlimit(40)]
pub proof fn law_share_url_ignores_query(input: Seq<char>, sep: char, q: Seq<char>)
    requires
        sep == '?' || sep == '#',
        !input.contains('?'),
        !input.contains('#'),
    ensures
        share_url_token_seq(input.push(sep) + q) == share_url_token_seq(input),
{
    reveal_strlit("https://cloud.tsinghua.edu.cn/");
    reveal_strlit("http://cloud.tsinghua.edu.cn/");
    reveal_strlit("#?");
    let https = cloud_origin();
    let http = "http://cloud.tsinghua.edu.cn/"@;
    assert(!https.contains('?') && !https.contains('#')) by {
        assert forall|i: int| 0 <= i < https.len() implies https[i] != '?' && https[i] != '#' by {
        }
    }
    assert(!http.contains('?') && !http.contains('#')) by {
        assert forall|i: int| 0 <= i < http.len() implies http[i] != '?' && http[i] != '#' by {
        }
    }
    lemma_prefix_before_stop(input, sep, q, https);
    lemma_prefix_before_stop(input, sep, q, http);
    let stops = "#?"@;
    assert(stops.contains(sep)) by {
        if sep == '#' {
            assert(stops[0] == '#');
        } else {
            assert(stops[1] == '?');
        }
    }
    let origin = if has_prefix(input, https) {
        https
    } else {
        http
    };
    if has_prefix(input, https) || has_prefix(input, http) {
        let r = input.skip(origin.len() as int);
        assert forall|i: int| 0 <= i < r.len() implies !stops.contains(#[trigger] r[i]) by {
            assert(r[i] == input[i + origin.len()]);
            assert(input.contains(input[i + origin.len()]));
            if stops.contains(r[i]) {
                let k = choose|k: int| 0 <= k < stops.len() && stops[k] == r[i];
                assert(k == 0 || k == 1);
            }
        }
        lemma_before_stops_at(r, sep, q, stops);
    }
}


impl UnshareResult {
    /// The line `unshare` reports.
    pub fn summary(&self) -> (res: String)
        ensures
            res@ == "Deleted share link "@ + self.token@,
    {
        String::from_str("Deleted share link ").concat(self.token.as_str())
    }
}


/// Proof that a text holding none of the stop characters is kept whole.
proof fn lemma_before_stops_none(s: Seq<char>, stops: Seq<char>)
    requires
        forall|i: int| 0 <= i < s.len() ==> !stops.contains(#[trigger] s[i]),
    ensures
        before_stops(s, stops) == s,
{
    assert(!(exists|i: int| 0 <= i < s.len() && stops.contains(s[i])));
}

/// Proof that trimming keeps a text without whitespace.
proof fn lemma_trim_without_whitespace(s: Seq<char>)
    requires
        forall|i: int| 0 <= i < s.len() ==> !is_whitespace(#[trigger] s[i]),
    ensures
        trim_seq(s) == s,
{
    if s.len() > 0 {
        assert(!is_whitespace(s[0]));
        assert(!is_whitespace(s.last()));
    }
}

/// Law: the URL built for a share link that the server gave no URL for is read
/// back, by the download command, as that link's token.
#[verifier::spinoff_prover]
#[verifier::rlimit(40)]
pub proof fn law_share_url_round_trip(share: ShareLink, path: Seq<char>)
    requires
        !(share.link is Some && share.link->0@.len() > 0),
        share.token is Some,
        share.token->0@.len() > 0,
        forall|i: int| 0 <= i < share.token->0@.len() ==> is_hashcode_char(#[trigger] share.token->0@[i]),
    ensures
        share_url_token_seq(share_url_seq(share, path)) == Ok::<Option<Seq<char>>, ThufsError>(
            Some(share.token->0@),
        ),
{
    reveal_strlit("https://cloud.tsinghua.edu.cn/");
    reveal_strlit("#?");
    reveal_strlit("?#/");
    let t = share.token->0@;
    let o = cloud_origin();
    let u = share_url_seq(share, path);
    let is_dir = match share.is_dir {
        Some(b) => b,
        None => has_suffix(path, seq!['/']),
    };
    let kind = if is_dir {
        'd'
    } else {
        'f'
    };
    assert(opt_or_empty(share.token) == t);
    assert(u == o.push(kind).push('/') + t.push('/'));
    assert(u.subrange(0, o.len() as int) =~= o);
    assert(has_prefix(u, o));
    let r = u.skip(o.len() as int);
    assert(r =~= seq![kind, '/'] + t.push('/'));
    assert forall|i: int| 0 <= i < r.len() implies !"#?"@.contains(#[trigger] r[i]) by {
        if "#?"@.contains(r[i]) {
            let k = choose|k: int| 0 <= k < "#?"@.len() && "#?"@[k] == r[i];
            if i >= 2 && i < r.len() - 1 {
                assert(r[i] == t[i - 2]);
                assert(is_hashcode_char(t[i - 2]));
            }
            assert(k == 0 || k == 1);
        }
    }
    lemma_before_stops_none(r, "#?"@);
    assert(trim_start_char_seq(r, '/') == r);
    crate::text::lemma_first_index_of(r, '/', 1);
    assert(split_once_seq(r, '/').0 =~= seq![kind]);
    assert(split_once_seq(r, '/').1 =~= t.push('/'));
    let rest = t.push('/');
    assert forall|j: int| 0 <= j < t.len() implies rest[j] != '/' by {
        assert(rest[j] == t[j]);
        assert(is_hashcode_char(t[j]));
    }
    crate::text::lemma_first_index_of(rest, '/', t.len() as int);
    assert(split_once_seq(rest, '/').0 =~= t);
    assert(seq![kind] == seq!['f'] || seq![kind] == seq!['d']);
    assert forall|i: int| 0 <= i < t.len() implies !"?#/"@.contains(#[trigger] t[i]) by {
        assert(is_hashcode_char(t[i]));
        if "?#/"@.contains(t[i]) {
            let k = choose|k: int| 0 <= k < "?#/"@.len() && "?#/"@[k] == t[i];
            assert(k == 0 || k == 1 || k == 2);
        }
    }
    lemma_before_stops_none(t, "?#/"@);
    assert forall|i: int| 0 <= i < t.len() implies !is_whitespace(#[trigger] t[i]) by {
        assert(is_hashcode_char(t[i]));
    }
    lemma_trim_without_whitespace(t);
}

} // verus!
