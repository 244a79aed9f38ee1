//! Remote path syntax: `repo:<library>/<path>`, default-library shorthand, and
//! the canonical form of a path inside a library.
use vstd::prelude::*;

use crate::error::ThufsError;
use crate::text::{
    contains_char, find_char, first_index_of, has_prefix, is_whitespace, push_char, strip_prefix, to_owned_string,
    trim, trim_end_seq, trim_seq, trim_start_seq,
};

verus! {

/// A remote location: a library name and a normalized path inside it.
#[derive(Debug, Clone, PartialEq, Eq)]
pub struct RemoteRef {
    pub repo: String,
    pub path: String,
}

/// A remote location whose library name has been matched to a library id.
#[derive(Debug, Clone, PartialEq, Eq)]
pub struct ResolvedRemoteRef {
    pub repo_name: String,
    pub repo_id: String,
    pub path: String,
}

/// The pieces of `s` between the occurrences of `sep`, as `str::split(sep)` gives them.
/// There is always at least one piece; `""` splits into one empty piece.
pub open spec fn split_seq(s: Seq<char>, sep: char) -> Seq<Seq<char>>
    decreases s.len(),
{
    if s.len() == 0 {
        seq![Seq::<char>::empty()]
    } else {
        let prev = split_seq(s.drop_last(), sep);
        if s.last() == sep {
            prev.push(Seq::<char>::empty())
        } else {
            prev.update(prev.len() - 1, prev.last().push(s.last()))
        }
    }
}

/// A path segment that survives normalization: non-empty and not `.`.
pub open spec fn is_kept_segment(seg: Seq<char>) -> bool {
    seg.len() > 0 && seg != seq!['.']
}

/// The segments that survive normalization, in order.
pub open spec fn kept_segments(segs: Seq<Seq<char>>) -> Seq<Seq<char>>
    decreases segs.len(),
{
    if segs.len() == 0 {
        Seq::empty()
    } else {
        let prev = kept_segments(segs.drop_last());
        if is_kept_segment(segs.last()) {
            prev.push(segs.last())
        } else {
            prev
        }
    }
}

/// The segments joined with `sep` between neighbours.
pub open spec fn join_seq(segs: Seq<Seq<char>>, sep: char) -> Seq<char>
    decreases segs.len(),
{
    if segs.len() == 0 {
        Seq::empty()
    } else if segs.len() == 1 {
        segs[0]
    } else {
        join_seq(segs.drop_last(), sep).push(sep) + segs.last()
    }
}

/// The canonical form of a path inside a library: `/` followed by its non-empty,
/// non-`.` segments joined by `/`.
pub open spec fn normalize_path_seq(path: Seq<char>) -> Seq<char> {
    seq!['/'] + join_seq(kept_segments(split_seq(path, '/')), '/')
}

/// `s.splitn(2, c)` as a pair; the second part is empty when `c` does not occur.
pub open spec fn split_once_seq(s: Seq<char>, c: char) -> (Seq<char>, Seq<char>) {
    match first_index_of(s, c) {
        Some(i) => (s.take(i), s.skip(i + 1)),
        None => (s, Seq::empty()),
    }
}

/// The library and path of the explicit form `<library>/<path>` (after `repo:`).
pub open spec fn split_repo_and_path_seq(input: Seq<char>) -> Result<(Seq<char>, Seq<char>), ThufsError> {
    let repo = trim_seq(split_once_seq(input, '/').0);
    let path = trim_seq(split_once_seq(input, '/').1);
    if repo.len() == 0 {
        Err(ThufsError::MissingRepoName)
    } else if path.len() == 0 {
        Err(ThufsError::MissingRemoteFilePath)
    } else {
        Ok((repo, path))
    }
}

/// The view of an optional string argument.
pub open spec fn opt_str_view(o: Option<&str>) -> Option<Seq<char>> {
    match o {
        Some(s) => Some(s@),
        None => None,
    }
}

/// A default library that counts: present and not blank.
pub open spec fn usable_default(default_repo: Option<Seq<char>>) -> bool {
    default_repo is Some && trim_seq(default_repo->0).len() > 0
}

/// What `RemoteRef::parse` gives: the library and the normalized path, or the error.
pub open spec fn parse_remote_seq(input: Seq<char>, default_repo: Option<Seq<char>>) -> Result<
    (Seq<char>, Seq<char>),
    ThufsError,
> {
    let t = trim_seq(input);
    if t.len() == 0 {
        Err(ThufsError::EmptyRemotePath)
    } else if has_prefix(t, "repo:"@) {
        match split_repo_and_path_seq(t.skip(5)) {
            Ok((repo, path)) => Ok((repo, normalize_path_seq(path))),
            Err(e) => Err(e),
        }
    } else if usable_default(default_repo) {
        Ok((default_repo->0, normalize_path_seq(t)))
    } else {
        Err(ThufsError::DefaultRepoRequired)
    }
}

/// What `RemoteRef::parse_list_target` gives: like `parse_remote_seq`, but a bare
/// library name (explicit `repo:<library>`, or without `/` when no default library is
/// set) names the library root `/`.
pub open spec fn parse_list_target_seq(input: Seq<char>, default_repo: Option<Seq<char>>) -> Result<
    (Seq<char>, Seq<char>),
    ThufsError,
> {
    let t = trim_seq(input);
    if t.len() == 0 {
        Err(ThufsError::EmptyRemotePath)
    } else if has_prefix(t, "repo:"@) {
        if !t.skip(5).contains('/') {
            let repo = trim_seq(t.skip(5));
            if repo.len() == 0 {
                Err(ThufsError::MissingRepoName)
            } else {
                Ok((repo, seq!['/']))
            }
        } else {
            parse_remote_seq(t, default_repo)
        }
    } else if default_repo is None && !t.contains('/') {
        Ok((t, seq!['/']))
    } else {
        parse_remote_seq(t, default_repo)
    }
}

/// The view of a parse result: library and path views, or the error.
pub open spec fn remote_result_view(r: Result<RemoteRef, ThufsError>) -> Result<(Seq<char>, Seq<char>), ThufsError> {
    match r {
        Ok(v) => Ok((v.repo@, v.path@)),
        Err(e) => Err(e),
    }
}

/// Proof that `split_seq` never yields an empty list of pieces.
pub proof fn lemma_split_nonempty(s: Seq<char>, sep: char)
    ensures
        split_seq(s, sep).len() >= 1,
    decreases s.len(),
{
    if s.len() > 0 {
        lemma_split_nonempty(s.drop_last(), sep);
    }
}

/// Proof of how joining grows when one more segment is appended.
proof fn lemma_join_push(segs: Seq<Seq<char>>, x: Seq<char>, sep: char)
    ensures
        join_seq(segs.push(x), sep) == if segs.len() == 0 {
            x
        } else {
            join_seq(segs, sep).push(sep) + x
        },
{
    assert(segs.push(x).drop_last() =~= segs);
    if segs.len() == 0 {
        assert(segs.push(x)[0] == x);
    }
}

/// Whether a segment survives normalization.
fn keep_segment(seg: &str) -> (res: bool)
    ensures
        res == is_kept_segment(seg@),
{
    let n = seg.unicode_len();
    if n == 0 {
        return false;
    }
    if n == 1 && seg.get_char(0) == '.' {
        proof {
            assert(seg@ =~= seq!['.']);
        }
        return false;
    }
    proof {
        if seg@ == seq!['.'] {
            assert(seg@[0] == '.');
        }
    }
    true
}

/// Appends one more surviving segment to a normalized path under construction.
fn push_segment(out: &mut String, joined_any: bool, seg: &str)
    ensures
        final(out)@ == if joined_any {
            old(out)@.push('/') + seg@
        } else {
            old(out)@ + seg@
        },
{
    if joined_any {
        push_char(out, '/');
    }
    out.append(seg);
}

/// The canonical form of a path inside a library (see `normalize_path_seq`).
pub fn normalize_remote_path(path: &str) -> (res: String)
    ensures
        res@ == normalize_path_seq(path@),
{
    let n = path.unicode_len();
    let mut out = String::new();
    push_char(&mut out, '/');
    let mut joined_any = false;
    let mut start: usize = 0;
    let mut i: usize = 0;
    proof {
        assert(path@.take(0) =~= Seq::<char>::empty());
        assert(kept_segments(split_seq(path@.take(0), '/').drop_last()) =~= Seq::<Seq<char>>::empty());
        assert(out@ =~= seq!['/'] + join_seq(Seq::<Seq<char>>::empty(), '/'));
        assert(path@.subrange(0, 0) =~= Seq::<char>::empty());
    }
    while i < n
        invariant
            n == path@.len(),
            start <= i <= n,
            split_seq(path@.take(i as int), '/').len() >= 1,
            split_seq(path@.take(i as int), '/').last() == path@.subrange(start as int, i as int),
            out@ == seq!['/'] + join_seq(
                kept_segments(split_seq(path@.take(i as int), '/').drop_last()),
                '/',
            ),
            joined_any == (kept_segments(split_seq(path@.take(i as int), '/').drop_last()).len()
                > 0),
        decreases n - i,
    {
        let ghost segs = split_seq(path@.take(i as int), '/');
        let c = path.get_char(i);
        proof {
            assert(path@.take(i + 1).drop_last() =~= path@.take(i as int));
            assert(path@.take(i + 1).last() == c);
            lemma_split_nonempty(path@.take(i + 1), '/');
        }
        if c == '/' {
            let seg = path.substring_char(start, i);
            let keep = keep_segment(seg);
            proof {
                let segs2 = split_seq(path@.take(i + 1), '/');
                assert(segs2 == segs.push(Seq::<char>::empty()));
                assert(segs2.drop_last() =~= segs);
                assert(segs.drop_last().push(segs.last()) =~= segs);
                lemma_join_push(kept_segments(segs.drop_last()), seg@, '/');
                assert(path@.subrange(i + 1, i + 1) =~= Seq::<char>::empty());
            }
            if keep {
                push_segment(&mut out, joined_any, seg);
                proof {
                    assert(out@ =~= seq!['/'] + join_seq(kept_segments(segs), '/'));
                }
                joined_any = true;
            }
            start = i + 1;
        } else {
            proof {
                let segs2 = split_seq(path@.take(i + 1), '/');
                assert(segs2 == segs.update(segs.len() - 1, segs.last().push(c)));
                assert(segs2.drop_last() =~= segs.drop_last());
                assert(segs2.last() =~= path@.subrange(start as int, i + 1));
            }
        }
        i = i + 1;
    }
    let seg = path.substring_char(start, n);
    let keep = keep_segment(seg);
    proof {
        let segs = split_seq(path@.take(n as int), '/');
        assert(path@.take(n as int) =~= path@);
        assert(segs.drop_last().push(segs.last()) =~= segs);
        lemma_join_push(kept_segments(segs.drop_last()), seg@, '/');
    }
    if keep {
        push_segment(&mut out, joined_any, seg);
        proof {
            assert(out@ =~= seq!['/'] + join_seq(kept_segments(split_seq(path@, '/')), '/'));
        }
    }
    out
}

/// Splits the explicit form `<library>/<path>` at its first `/`, trimming both parts.
pub fn split_repo_and_path(input: &str) -> (res: Result<(&str, &str), ThufsError>)
    ensures
        match res {
            Ok((r, p)) => split_repo_and_path_seq(input@) == Ok::<(Seq<char>, Seq<char>), ThufsError>((r@, p@)),
            Err(e) => split_repo_and_path_seq(input@) == Err::<(Seq<char>, Seq<char>), ThufsError>(e),
        },
{
    let n = input.unicode_len();
    let (repo_raw, path_raw) = match find_char(input, '/') {
        Some(i) => (input.substring_char(0, i), input.substring_char(i + 1, n)),
        None => {
            proof {
                assert(input@.subrange(n as int, n as int) =~= Seq::<char>::empty());
            }
            (input, input.substring_char(n, n))
        },
    };
    proof {
        assert(split_once_seq(input@, '/').0 =~= repo_raw@);
        assert(split_once_seq(input@, '/').1 =~= path_raw@);
    }
    let repo = trim(repo_raw);
    let path = trim(path_raw);
    if repo.unicode_len() == 0 {
        return Err(ThufsError::MissingRepoName);
    }
    if path.unicode_len() == 0 {
        return Err(ThufsError::MissingRemoteFilePath);
    }
    Ok((repo, path))
}

impl ResolvedRemoteRef {
    /// A resolved remote location from its three parts.
    pub fn new(repo_name: String, repo_id: String, path: String) -> (res: Self)
        ensures
            res.repo_name@ == repo_name@,
            res.repo_id@ == repo_id@,
            res.path@ == path@,
    {
        ResolvedRemoteRef { repo_name, repo_id, path }
    }
}

impl RemoteRef {
    /// Parses `repo:<library>/<path>`, or a shorthand path inside the default library.
    pub fn parse(input: &str, default_repo: Option<&str>) -> (res: Result<RemoteRef, ThufsError>)
        ensures
            remote_result_view(res) == parse_remote_seq(input@, opt_str_view(default_repo)),
    {
        let trimmed = trim(input);
        if trimmed.unicode_len() == 0 {
            return Err(ThufsError::EmptyRemotePath);
        }
        if let Some(explicit) = strip_prefix(trimmed, "repo:") {
            proof {
                reveal_strlit("repo:");
            }
            match split_repo_and_path(explicit) {
                Ok((repo, path)) => {
                    return Ok(RemoteRef { repo: to_owned_string(repo), path: normalize_remote_path(path) });
                },
                Err(e) => {
                    return Err(e);
                },
            }
        }
        proof {
            reveal_strlit("repo:");
        }
        match default_repo {
            Some(repo) => {
                if trim(repo).unicode_len() > 0 {
                    return Ok(RemoteRef { repo: to_owned_string(repo), path: normalize_remote_path(trimmed) });
                }
            },
            None => {},
        }
        Err(ThufsError::DefaultRepoRequired)
    }

    /// Parses a listing target: like `parse`, but a bare library name names its root.
    pub fn parse_list_target(input: &str, default_repo: Option<&str>) -> (res: Result<RemoteRef, ThufsError>)
        ensures
            remote_result_view(res) == parse_list_target_seq(input@, opt_str_view(default_repo)),
    {
        let trimmed = trim(input);
        if trimmed.unicode_len() == 0 {
            return Err(ThufsError::EmptyRemotePath);
        }
        proof {
            reveal_strlit("repo:");
        }
        if let Some(explicit) = strip_prefix(trimmed, "repo:") {
            if !contains_char(explicit, '/') {
                let repo = trim(explicit);
                if repo.unicode_len() == 0 {
                    return Err(ThufsError::MissingRepoName);
                }
                let mut root = String::new();
                push_char(&mut root, '/');
                proof {
                    assert(root@ =~= seq!['/']);
                }
                return Ok(RemoteRef { repo: to_owned_string(repo), path: root });
            }
            let res = Self::parse(trimmed, default_repo);
            proof {
                assert(trim_seq(trimmed@) == trim_seq(input@)) by {
                    lemma_trim_idempotent(input@);
                }
            }
            return res;
        }
        if default_repo.is_none() && !contains_char(trimmed, '/') {
            let mut root = String::new();
            push_char(&mut root, '/');
            proof {
                assert(root@ =~= seq!['/']);
            }
            return Ok(RemoteRef { repo: to_owned_string(trimmed), path: root });
        }
        let res = Self::parse(trimmed, default_repo);
        proof {
            lemma_trim_idempotent(input@);
        }
        res
    }
}

/// Proof that trimming twice is trimming once.
pub proof fn lemma_trim_idempotent(s: Seq<char>)
    ensures
        trim_seq(trim_seq(s)) == trim_seq(s),
{
    lemma_trim_start_of_trimmed(s);
    lemma_trim_end_keeps_start(trim_start_seq(s));
    lemma_trim_end_idempotent(trim_start_seq(s));
}

/// Proof that `trim_start_seq` leaves no leading whitespace.
proof fn lemma_trim_start_of_trimmed(s: Seq<char>)
    ensures
        trim_start_seq(s).len() == 0 || !is_whitespace(trim_start_seq(s)[0]),
    decreases s.len(),
{
    if s.len() > 0 && is_whitespace(s[0]) {
        lemma_trim_start_of_trimmed(s.drop_first());
    }
}

/// Proof that `trim_end_seq` keeps a non-whitespace first character in place.
proof fn lemma_trim_end_keeps_start(s: Seq<char>)
    requires
        s.len() == 0 || !is_whitespace(s[0]),
    ensures
        trim_end_seq(s).len() == 0 || !is_whitespace(trim_end_seq(s)[0]),
        trim_start_seq(trim_end_seq(s)) == trim_end_seq(s),
    decreases s.len(),
{
    if s.len() > 0 && is_whitespace(s.last()) {
        let t = s.drop_last();
        lemma_trim_end_keeps_start(t);
    }
}

/// Proof that `trim_end_seq` leaves no trailing whitespace, so a second pass changes nothing.
proof fn lemma_trim_end_idempotent(s: Seq<char>)
    ensures
        trim_end_seq(trim_end_seq(s)) == trim_end_seq(s),
    decreases s.len(),
{
    if s.len() > 0 && is_whitespace(s.last()) {
        lemma_trim_end_idempotent(s.drop_last());
    }
}


/// Proof that a piece of `split_seq` never holds the separator.
proof fn lemma_split_pieces_free(s: Seq<char>, sep: char)
    ensures
        forall|k: int| 0 <= k < split_seq(s, sep).len() ==> !(#[trigger] split_seq(s, sep)[k]).contains(sep),
    decreases s.len(),
{
    lemma_split_nonempty(s, sep);
    if s.len() > 0 {
        let prev = split_seq(s.drop_last(), sep);
        lemma_split_pieces_free(s.drop_last(), sep);
        lemma_split_nonempty(s.drop_last(), sep);
        if s.last() != sep {
            let last = prev.last().push(s.last());
            assert forall|k: int| 0 <= k < split_seq(s, sep).len() implies !(#[trigger] split_seq(s, sep)[k]).contains(sep) by {
                if k == prev.len() - 1 {
                    if last.contains(sep) {
                        let j = choose|j: int| 0 <= j < last.len() && last[j] == sep;
                        if j < prev.last().len() {
                            assert(prev.last()[j] == sep);
                            assert(prev[prev.len() - 1].contains(sep));
                        }
                    }
                } else {
                    assert(split_seq(s, sep)[k] == prev[k]);
                }
            }
        } else {
            assert forall|k: int| 0 <= k < split_seq(s, sep).len() implies !(#[trigger] split_seq(s, sep)[k]).contains(sep) by {
                if k < prev.len() {
                    assert(split_seq(s, sep)[k] == prev[k]);
                }
            }
        }
    }
}

/// Proof that a string without the separator splits into itself alone.
pub proof fn lemma_split_single(x: Seq<char>, sep: char)
    requires
        !x.contains(sep),
    ensures
        split_seq(x, sep) == seq![x],
    decreases x.len(),
{
    if x.len() > 0 {
        assert(!x.drop_last().contains(sep)) by {
            if x.drop_last().contains(sep) {
                let j = choose|j: int| 0 <= j < x.drop_last().len() && x.drop_last()[j] == sep;
                assert(x[j] == sep);
            }
        }
        lemma_split_single(x.drop_last(), sep);
        assert(x.last() != sep) by {
            assert(x[x.len() - 1] == x.last());
        }
        assert(x.drop_last().push(x.last()) =~= x);
        assert(seq![x.drop_last()].update(0, x.drop_last().push(x.last())) =~= seq![x]);
    } else {
        assert(x =~= Seq::<char>::empty());
    }
}

/// Proof that splitting at a separator splits each side on its own.
pub proof fn lemma_split_concat(a: Seq<char>, b: Seq<char>, sep: char)
    ensures
        split_seq(a.push(sep) + b, sep) == split_seq(a, sep) + split_seq(b, sep),
    decreases b.len(),
{
    lemma_split_nonempty(b, sep);
    lemma_split_nonempty(a, sep);
    if b.len() == 0 {
        assert(a.push(sep) + b =~= a.push(sep));
        assert(a.push(sep).drop_last() =~= a);
        assert(split_seq(a, sep).push(Seq::<char>::empty()) =~= split_seq(a, sep) + seq![Seq::<char>::empty()]);
    } else {
        let b1 = b.drop_last();
        lemma_split_concat(a, b1, sep);
        lemma_split_nonempty(b1, sep);
        let whole = a.push(sep) + b;
        assert(whole.drop_last() =~= a.push(sep) + b1);
        assert(whole.last() == b.last());
        let left = split_seq(a, sep);
        let right = split_seq(b1, sep);
        if b.last() == sep {
            assert((left + right).push(Seq::<char>::empty()) =~= left + right.push(Seq::<char>::empty()));
        } else {
            let joined = left + right;
            assert(joined.last() == right.last());
            assert(joined.update(joined.len() - 1, joined.last().push(b.last())) =~= left + right.update(
                right.len() - 1,
                right.last().push(b.last()),
            ));
        }
    }
}

/// Proof that joining pieces without the separator and splitting again gives the pieces back.
proof fn lemma_split_join(segs: Seq<Seq<char>>, sep: char)
    requires
        segs.len() >= 1,
        forall|k: int| 0 <= k < segs.len() ==> !(#[trigger] segs[k]).contains(sep),
    ensures
        split_seq(join_seq(segs, sep), sep) == segs,
    decreases segs.len(),
{
    if segs.len() == 1 {
        lemma_split_single(segs[0], sep);
        assert(seq![segs[0]] =~= segs);
    } else {
        let init = segs.drop_last();
        assert forall|k: int| 0 <= k < init.len() implies !(#[trigger] init[k]).contains(sep) by {
            assert(init[k] == segs[k]);
        }
        lemma_split_join(init, sep);
        assert(segs.last() == segs[segs.len() - 1]);
        lemma_split_single(segs.last(), sep);
        lemma_split_concat(join_seq(init, sep), segs.last(), sep);
        assert(init + seq![segs.last()] =~= segs);
    }
}

/// Proof that every segment `kept_segments` returns is a kept piece of its input.
proof fn lemma_kept_members(segs: Seq<Seq<char>>, sep: char)
    requires
        forall|k: int| 0 <= k < segs.len() ==> !(#[trigger] segs[k]).contains(sep),
    ensures
        forall|k: int| 0 <= k < kept_segments(segs).len() ==> !(#[trigger] kept_segments(segs)[k]).contains(sep)
            && is_kept_segment(kept_segments(segs)[k]),
    decreases segs.len(),
{
    if segs.len() > 0 {
        let init = segs.drop_last();
        assert forall|k: int| 0 <= k < init.len() implies !(#[trigger] init[k]).contains(sep) by {
            assert(init[k] == segs[k]);
        }
        lemma_kept_members(init, sep);
        assert(segs.last() == segs[segs.len() - 1]);
        let prev = kept_segments(init);
        assert forall|k: int| 0 <= k < kept_segments(segs).len() implies !(#[trigger] kept_segments(segs)[k]).contains(sep)
            && is_kept_segment(kept_segments(segs)[k]) by {
            if k < prev.len() {
                assert(kept_segments(segs)[k] == prev[k]);
            }
        }
    }
}

/// Proof that appending only kept segments keeps them all.
proof fn lemma_kept_append(prefix: Seq<Seq<char>>, segs: Seq<Seq<char>>)
    requires
        forall|k: int| 0 <= k < segs.len() ==> is_kept_segment(#[trigger] segs[k]),
    ensures
        kept_segments(prefix + segs) == kept_segments(prefix) + segs,
    decreases segs.len(),
{
    if segs.len() == 0 {
        assert(prefix + segs =~= prefix);
        assert(kept_segments(prefix) + segs =~= kept_segments(prefix));
    } else {
        let init = segs.drop_last();
        assert forall|k: int| 0 <= k < init.len() implies is_kept_segment(#[trigger] init[k]) by {
            assert(init[k] == segs[k]);
        }
        lemma_kept_append(prefix, init);
        assert((prefix + segs).drop_last() =~= prefix + init);
        assert((prefix + segs).last() == segs.last());
        assert(segs.last() == segs[segs.len() - 1]);
        assert((kept_segments(prefix) + init).push(segs.last()) =~= kept_segments(prefix) + segs);
    }
}

/// Law: normalizing a path that is already normalized changes nothing, so the
/// canonical form of a remote path is stable.
pub proof fn law_normalize_idempotent(path: Seq<char>)
    ensures
        normalize_path_seq(normalize_path_seq(path)) == normalize_path_seq(path),
{
    reveal_with_fuel(kept_segments, 3);
    let segs = split_seq(path, '/');
    let kept = kept_segments(segs);
    lemma_split_pieces_free(path, '/');
    lemma_kept_members(segs, '/');
    let norm = normalize_path_seq(path);
    let empty = Seq::<char>::empty();
    assert(norm =~= empty.push('/') + join_seq(kept, '/'));
    lemma_split_concat(empty, join_seq(kept, '/'), '/');
    assert(split_seq(empty, '/') == seq![empty]);
    if kept.len() == 0 {
        assert(join_seq(kept, '/') == empty);
        assert(split_seq(norm, '/') =~= seq![empty, empty]);
        assert(seq![empty, empty].drop_last() =~= seq![empty]);
        assert(seq![empty].drop_last() =~= Seq::<Seq<char>>::empty());
        assert(kept_segments(seq![empty, empty]) =~= Seq::<Seq<char>>::empty());
    } else {
        lemma_split_join(kept, '/');
        assert(split_seq(norm, '/') == seq![empty] + kept);
        lemma_kept_append(seq![empty], kept);
        assert(seq![empty].drop_last() =~= Seq::<Seq<char>>::empty());
        assert(kept_segments(seq![empty]) =~= Seq::<Seq<char>>::empty());
        assert(Seq::<Seq<char>>::empty() + kept =~= kept);
    }
}

/// Law: the explicit `repo:` form does not depend on the configured default library.
pub proof fn law_explicit_form_ignores_default(input: Seq<char>, d1: Option<Seq<char>>, d2: Option<Seq<char>>)
    requires
        has_prefix(trim_seq(input), "repo:"@),
    ensures
        parse_remote_seq(input, d1) == parse_remote_seq(input, d2),
        parse_list_target_seq(input, d1) == parse_list_target_seq(input, d2),
{
    reveal_strlit("repo:");
    lemma_trim_idempotent(input);
}


/// Proof that normalization distributes over concatenated segment lists.
proof fn lemma_kept_concat(a: Seq<Seq<char>>, b: Seq<Seq<char>>)
    ensures
        kept_segments(a + b) == kept_segments(a) + kept_segments(b),
    decreases b.len(),
{
    if b.len() == 0 {
        assert(a + b =~= a);
        assert(kept_segments(a) + kept_segments(b) =~= kept_segments(a));
    } else {
        let init = b.drop_last();
        lemma_kept_concat(a, init);
        assert((a + b).drop_last() =~= a + init);
        assert((a + b).last() == b.last());
        if is_kept_segment(b.last()) {
            assert((kept_segments(a) + kept_segments(init)).push(b.last()) =~= kept_segments(a) + kept_segments(
                init,
            ).push(b.last()));
        }
    }
}

/// Proof that a leading `/` does not change the canonical form of a path.
proof fn lemma_normalize_leading_slash(x: Seq<char>)
    ensures
        normalize_path_seq(seq!['/'] + x) == normalize_path_seq(x),
{
    let empty = Seq::<char>::empty();
    assert(seq!['/'] + x =~= empty.push('/') + x);
    lemma_split_concat(empty, x, '/');
    assert(split_seq(empty, '/') == seq![empty]);
    lemma_kept_concat(seq![empty], split_seq(x, '/'));
    reveal_with_fuel(kept_segments, 2);
    assert(seq![empty].drop_last() =~= Seq::<Seq<char>>::empty());
    assert(kept_segments(seq![empty]) =~= Seq::<Seq<char>>::empty());
    assert(Seq::<Seq<char>>::empty() + kept_segments(split_seq(x, '/')) =~= kept_segments(split_seq(x, '/')));
}

/// Proof that trimming keeps a text whose first and last characters are not
/// whitespace.
proof fn lemma_trim_keeps_ends(s: Seq<char>)
    requires
        s.len() > 0,
        !is_whitespace(s[0]),
        !is_whitespace(s.last()),
    ensures
        trim_seq(s) == s,
{
}

/// Proof that the explicit form of a plain library name and a path without
/// whitespace parses to that library and the path's canonical form.
proof fn lemma_explicit_form_parses(repo: Seq<char>, x: Seq<char>)
    requires
        x.len() > 0,
        forall|i: int| 0 <= i < x.len() ==> !is_whitespace(#[trigger] x[i]),
        repo.len() > 0,
        trim_seq(repo) == repo,
        !repo.contains('/'),
    ensures
        parse_remote_seq("repo:"@ + repo + (seq!['/'] + x), None) == Ok::<(Seq<char>, Seq<char>), ThufsError>(
            (repo, normalize_path_seq(x)),
        ),
{
    reveal_strlit("repo:");
    let path = seq!['/'] + x;
    let u = "repo:"@ + repo + path;
    assert(u[0] == 'r');
    assert(u.last() == x.last());
    assert(!is_whitespace(x[x.len() - 1]));
    lemma_trim_keeps_ends(u);
    assert(u.subrange(0, 5) =~= "repo:"@);
    let rest = u.skip(5);
    assert(rest =~= repo + path);
    assert forall|j: int| 0 <= j < repo.len() implies rest[j] != '/' by {
        assert(rest[j] == repo[j]);
        if repo[j] == '/' {
            assert(repo.contains('/'));
        }
    }
    crate::text::lemma_first_index_of(rest, '/', repo.len() as int);
    assert(split_once_seq(rest, '/').0 =~= repo);
    assert(split_once_seq(rest, '/').1 =~= x);
    assert(!is_whitespace(x[0]));
    lemma_trim_keeps_ends(x);
}

/// Proof that a path `RemoteRef::parse` gives is in canonical form.
proof fn lemma_parsed_path_canonical(input: Seq<char>, default_repo: Option<Seq<char>>, repo: Seq<char>, path: Seq<char>)
    requires
        parse_remote_seq(input, default_repo) == Ok::<(Seq<char>, Seq<char>), ThufsError>((repo, path)),
    ensures
        normalize_path_seq(path) == path,
        path.len() > 0,
        path[0] == '/',
{
    let t = trim_seq(input);
    let p0 = if has_prefix(t, "repo:"@) {
        match split_repo_and_path_seq(t.skip(5)) {
            Ok(pair) => pair.1,
            Err(_) => t,
        }
    } else {
        t
    };
    assert(path == normalize_path_seq(p0));
    law_normalize_idempotent(p0);
}

/// Law: a parsed remote location is parsed back unchanged from its explicit form
/// `repo:<library><path>`, with or without a default library, provided the
/// library name is a plain name (non-empty, trimmed, without `/`) and the path
/// names more than the root and holds no whitespace.
pub proof fn law_explicit_form_reparses(input: Seq<char>, default_repo: Option<Seq<char>>, repo: Seq<char>, path: Seq<char>)
    requires
        parse_remote_seq(input, default_repo) == Ok::<(Seq<char>, Seq<char>), ThufsError>((repo, path)),
        path != seq!['/'],
        forall|i: int| 0 <= i < path.len() ==> !is_whitespace(#[trigger] path[i]),
        repo.len() > 0,
        trim_seq(repo) == repo,
        !repo.contains('/'),
    ensures
        parse_remote_seq("repo:"@ + repo + path, None) == Ok::<(Seq<char>, Seq<char>), ThufsError>((repo, path)),
{
    lemma_parsed_path_canonical(input, default_repo, repo, path);
    let x = path.skip(1);
    assert(path =~= seq!['/'] + x);
    assert(x.len() > 0);
    assert forall|i: int| 0 <= i < x.len() implies !is_whitespace(#[trigger] x[i]) by {
        assert(x[i] == path[i + 1]);
    }
    lemma_normalize_leading_slash(x);
    lemma_explicit_form_parses(repo, x);
}

} // verus!
