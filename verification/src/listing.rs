//! Directory listings: entries as the server reports them, and their rendering.
use vstd::prelude::*;

use crate::contract::{join_seq, opt_str_view, parse_list_target_seq, RemoteRef};
use crate::error::ThufsError;
use crate::paths::{last_component_seq, lemma_last_component_after};
use crate::transfer::{format_size, format_size_seq};
use crate::seafile::{count_named, Repository, ResolvedListTarget, SeafileClient};
use crate::text::{has_prefix, push_char, str_eq, to_owned_string, trim_end_char, trim_end_char_seq};

verus! {

/// Whether a listing entry is a file or a directory.
#[derive(Debug, Clone, Copy, PartialEq, Eq, Structural)]
pub enum EntryKind {
    File,
    Dir,
}

/// One entry of a remote directory.
#[derive(Debug, Clone, PartialEq, Eq)]
pub struct DirectoryEntry {
    pub name: String,
    pub path: String,
    pub kind: EntryKind,
    pub size: Option<u64>,
    pub updated_at: Option<String>,
}

/// The fields of one listing item as the server's JSON gives them: the `name`
/// string, the `type` string and the `size` number, each absent when the JSON
/// holds no value of that type.
#[derive(Debug, Clone, PartialEq, Eq)]
pub struct RawDirectoryItem {
    pub name: Option<String>,
    pub kind: Option<String>,
    pub size: Option<u64>,
}

/// One listed item as shown to users.
#[derive(Debug, Clone, PartialEq, Eq)]
pub struct ListItem {
    pub name: String,
    pub path: String,
    pub kind: String,
    pub size: Option<u64>,
}

/// A listed directory.
#[derive(Debug, Clone, PartialEq, Eq)]
pub struct ListResult {
    pub repo: String,
    pub path: String,
    pub items: Vec<ListItem>,
}

/// The full path of entry `name` inside directory `dir`.
pub open spec fn entry_full_path(dir: Seq<char>, name: Seq<char>) -> Seq<char> {
    if dir == seq!['/'] {
        seq!['/'] + name
    } else {
        trim_end_char_seq(dir, '/').push('/') + name
    }
}

/// The kind an item has: a directory exactly when its `type` is `dir`.
pub open spec fn raw_kind(kind: Option<String>) -> EntryKind {
    match kind {
        Some(k) => if k@ == "dir"@ {
            EntryKind::Dir
        } else {
            EntryKind::File
        },
        None => EntryKind::File,
    }
}

/// Entry `e` is what raw item `raw` becomes inside directory `dir`.
pub open spec fn entry_from_raw(dir: Seq<char>, raw: RawDirectoryItem, e: DirectoryEntry) -> bool {
    &&& raw.name is Some
    &&& e.name@ == raw.name->0@
    &&& e.path@ == entry_full_path(dir, raw.name->0@)
    &&& e.kind == raw_kind(raw.kind)
    &&& e.size == raw.size
    &&& e.updated_at is None
}

/// The `kind` string of a listed item.
pub open spec fn kind_label(kind: EntryKind) -> Seq<char> {
    match kind {
        EntryKind::File => "file"@,
        EntryKind::Dir => "dir"@,
    }
}

/// The human line for one listed item: `d` or `f`, its path with a leading `/`,
/// and its size when known, in B, KB, MB and so on (see `format_size_seq`).
pub open spec fn item_line(item: ListItem) -> Seq<char> {
    let tag = if item.kind@ == "dir"@ {
        seq!['d']
    } else {
        seq!['f']
    };
    let path = if has_prefix(item.path@, seq!['/']) {
        item.path@
    } else {
        seq!['/'] + item.path@
    };
    let base = tag.push(' ') + path;
    match item.size {
        Some(size) => base.push(' ') + format_size_seq(size as nat),
        None => base,
    }
}

/// The human rendering of a listing: the directory, then one line per item.
pub open spec fn list_human_seq(result: ListResult) -> Seq<char> {
    join_seq(
        seq![result.repo@ + result.path@] + Seq::new(result.items@.len(), |i: int| item_line(result.items@[i])),
        '\n',
    )
}

/// The full path of entry `name` inside directory `dir`.
pub fn join_entry_path(dir: &str, name: &str) -> (res: String)
    ensures
        res@ == entry_full_path(dir@, name@),
{
    let mut root = String::new();
    push_char(&mut root, '/');
    proof {
        assert(root@ =~= seq!['/']);
    }
    if str_eq(dir, root.as_str()) {
        root.append(name);
        root
    } else {
        let mut out = to_owned_string(trim_end_char(dir, '/'));
        push_char(&mut out, '/');
        out.append(name);
        out
    }
}

/// Turns the items of a listing of `dir_path` into entries; the first item without a
/// name makes the whole listing fail.
pub fn parse_directory_entries(dir_path: &str, items: &[RawDirectoryItem]) -> (res: Result<
    Vec<DirectoryEntry>,
    ThufsError,
>)
    ensures
        match res {
            Ok(entries) => {
                &&& entries@.len() == items@.len()
                &&& forall|i: int| 0 <= i < items@.len() ==> entry_from_raw(dir_path@, items@[i], #[trigger] entries@[i])
            },
            Err(e) => {
                &&& e == ThufsError::DirectoryEntryMissingName
                &&& exists|i: int| 0 <= i < items@.len() && (#[trigger] items@[i]).name is None
            },
        },
{
    let mut entries: Vec<DirectoryEntry> = Vec::new();
    let mut i: usize = 0;
    proof {
        reveal_strlit("dir");
    }
    while i < items.len()
        invariant
            i <= items@.len(),
            entries@.len() == i,
            forall|k: int| 0 <= k < i ==> entry_from_raw(dir_path@, items@[k], #[trigger] entries@[k]),
        decreases items@.len() - i,
    {
        let item = &items[i];
        let name = match &item.name {
            Some(n) => n,
            None => {
                return Err(ThufsError::DirectoryEntryMissingName);
            },
        };
        let kind = match &item.kind {
            Some(k) => if str_eq(k.as_str(), "dir") {
                EntryKind::Dir
            } else {
                EntryKind::File
            },
            None => EntryKind::File,
        };
        let path = join_entry_path(dir_path, name.as_str());
        let entry = DirectoryEntry {
            name: to_owned_string(name.as_str()),
            path,
            kind,
            size: item.size,
            updated_at: None,
        };
        entries.push(entry);
        i = i + 1;
    }
    Ok(entries)
}

impl ListItem {
    /// The listed form of a directory entry.
    pub fn from_entry(entry: DirectoryEntry) -> (res: ListItem)
        ensures
            res.name@ == entry.name@,
            res.path@ == entry.path@,
            res.kind@ == kind_label(entry.kind),
            res.size == entry.size,
    {
        let kind = match entry.kind {
            EntryKind::File => String::from_str("file"),
            EntryKind::Dir => String::from_str("dir"),
        };
        ListItem { name: entry.name, path: entry.path, kind, size: entry.size }
    }
}

/// The human line for one listed item (see `item_line`).
pub fn format_item_line(item: &ListItem) -> (res: String)
    ensures
        res@ == item_line(*item),
{
    proof {
        reveal_strlit("dir");
    }
    let mut line = String::new();
    if str_eq(item.kind.as_str(), "dir") {
        push_char(&mut line, 'd');
    } else {
        push_char(&mut line, 'f');
    }
    push_char(&mut line, ' ');
    let mut slash = String::new();
    push_char(&mut slash, '/');
    proof {
        assert(slash@ =~= seq!['/']);
    }
    if !crate::text::starts_with(item.path.as_str(), slash.as_str()) {
        push_char(&mut line, '/');
    }
    line.append(item.path.as_str());
    match item.size {
        Some(size) => {
            push_char(&mut line, ' ');
            line.append(format_size(size).as_str());
        },
        None => {},
    }
    proof {
        let tag = if item.kind@ == "dir"@ {
            seq!['d']
        } else {
            seq!['f']
        };
        if has_prefix(item.path@, seq!['/']) {
            assert(line@ =~= item_line(*item)) by {
                assert(tag.push(' ') + item.path@ =~= tag.push(' ') + item.path@);
            }
        } else {
            assert(tag.push(' ').push('/') + item.path@ =~= tag.push(' ') + (seq!['/'] + item.path@));
        }
    }
    line
}

/// Joins `lines` with newlines between neighbours.
pub fn join_lines(lines: &Vec<String>) -> (res: String)
    ensures
        res@ == join_seq(lines@.map_values(|l: String| l@), '\n'),
{
    let ghost views = lines@.map_values(|l: String| l@);
    let mut out = String::new();
    let mut i: usize = 0;
    proof {
        assert(views.take(0) =~= Seq::<Seq<char>>::empty());
    }
    while i < lines.len()
        invariant
            i <= lines@.len(),
            views == lines@.map_values(|l: String| l@),
            out@ == join_seq(views.take(i as int), '\n'),
        decreases lines@.len() - i,
    {
        proof {
            assert(views.take(i + 1).drop_last() =~= views.take(i as int));
            assert(views.take(i + 1).last() == lines@[i as int]@);
        }
        if i > 0 {
            push_char(&mut out, '\n');
        } else {
            proof {
                assert(views.take(1) =~= seq![lines@[0]@]);
            }
        }
        out.append(lines[i].as_str());
        i = i + 1;
    }
    proof {
        assert(views.take(lines@.len() as int) =~= views);
    }
    out
}

/// The human rendering of a listing (see `list_human_seq`).
pub fn format_list_human(result: &ListResult) -> (res: String)
    ensures
        res@ == list_human_seq(*result),
{
    let mut lines: Vec<String> = Vec::new();
    let header = String::from_str(result.repo.as_str()).concat(result.path.as_str());
    lines.push(header);
    let mut i: usize = 0;
    let ghost item_lines = Seq::new(result.items@.len(), |k: int| item_line(result.items@[k]));
    while i < result.items.len()
        invariant
            i <= result.items@.len(),
            item_lines == Seq::new(result.items@.len(), |k: int| item_line(result.items@[k])),
            lines@.map_values(|l: String| l@) =~= seq![result.repo@ + result.path@] + item_lines.take(i as int),
        decreases result.items@.len() - i,
    {
        let line = format_item_line(&result.items[i]);
        let ghost before = lines@;
        lines.push(line);
        proof {
            assert(lines@.map_values(|l: String| l@) =~= before.map_values(|l: String| l@).push(
                item_line(result.items@[i as int]),
            ));
            assert(item_lines.take(i + 1) =~= item_lines.take(i as int).push(item_line(result.items@[i as int])));
        }
        i = i + 1;
    }
    proof {
        assert(item_lines.take(result.items@.len() as int) =~= item_lines);
    }
    join_lines(&lines)
}


/// The listing command.
#[derive(Debug, Clone)]
pub struct ListService {
    client: SeafileClient,
}

/// `target` is what listing `remote` resolves to among `repos`, or the error.
pub open spec fn list_target_ok(
    remote: Seq<char>,
    default_repo: Option<Seq<char>>,
    repos: Seq<Repository>,
    res: Result<ResolvedListTarget, ThufsError>,
) -> bool {
    match parse_list_target_seq(remote, default_repo) {
        Err(e) => res == Err::<ResolvedListTarget, ThufsError>(e),
        Ok((repo, path)) => match res {
            Ok(t) => count_named(repos, repo) == 1 && exists|k: int|
                0 <= k < repos.len() && repos[k].name@ == repo && t.repo_name@ == repos[k].name@ && t.repo_id@
                    == repos[k].id@ && t.path@ == path,
            Err(ThufsError::RepositoryNotFound(n)) => count_named(repos, repo) == 0 && n@ == repo,
            Err(ThufsError::RepositoryAmbiguous(n)) => count_named(repos, repo) > 1 && n@ == repo,
            Err(_) => false,
        },
    }
}

/// The listed items are the entries, in order.
pub open spec fn items_of_entries(items: Seq<ListItem>, entries: Seq<DirectoryEntry>) -> bool {
    &&& items.len() == entries.len()
    &&& forall|i: int|
        0 <= i < items.len() ==> {
            &&& (#[trigger] items[i]).name@ == entries[i].name@
            &&& items[i].path@ == entries[i].path@
            &&& items[i].kind@ == kind_label(entries[i].kind)
            &&& items[i].size == entries[i].size
        }
}

impl ListService {
    /// The listing command of `client`.
    pub fn new(client: SeafileClient) -> (res: ListService)
        ensures
            res.client_config_path() == client.config_path(),
    {
        ListService { client }
    }

    /// The configuration file the command's client reads.
    pub closed spec fn client_config_path(&self) -> Seq<char> {
        self.client.config_path()
    }

    /// The directory that listing `remote` names, resolved among the libraries
    /// `repositories` (see `list_target_ok`).
    pub fn target(&self, remote: &str, default_repo: Option<&str>, repositories: &[Repository]) -> (res: Result<
        ResolvedListTarget,
        ThufsError,
    >)
        ensures
            list_target_ok(remote@, opt_str_view(default_repo), repositories@, res),
    {
        let parsed = RemoteRef::parse_list_target(remote, default_repo)?;
        self.client.resolve_list_target(&parsed, repositories)
    }

    /// The listing of a resolved directory with the given entries.
    pub fn result(&self, target: ResolvedListTarget, entries: &[DirectoryEntry]) -> (res: ListResult)
        ensures
            res.repo@ == target.repo_name@,
            res.path@ == target.path@,
            items_of_entries(res.items@, entries@),
    {
        let mut items: Vec<ListItem> = Vec::new();
        let mut i: usize = 0;
        while i < entries.len()
            invariant
                i <= entries@.len(),
                items_of_entries(items@, entries@.take(i as int)),
            decreases entries@.len() - i,
        {
            let entry = &entries[i];
            let kind = match entry.kind {
                EntryKind::File => String::from_str("file"),
                EntryKind::Dir => String::from_str("dir"),
            };
            let ghost before = items@;
            items.push(ListItem { name: entry.name.clone(), path: entry.path.clone(), kind, size: entry.size });
            proof {
                assert(items@ == before.push(items@[i as int]));
                assert(entries@.take(i + 1) =~= entries@.take(i as int).push(entries@[i as int]));
            }
            i = i + 1;
        }
        proof {
            assert(entries@.take(entries@.len() as int) =~= entries@);
        }
        ListResult { repo: target.repo_name, path: target.path, items }
    }

    /// Lists `remote` among the given libraries, with the given entries for the
    /// directory it names.
    pub fn list_with_repositories(
        &self,
        remote: &str,
        default_repo: Option<&str>,
        repositories: &[Repository],
        entries: &[DirectoryEntry],
    ) -> (res: Result<ListResult, ThufsError>)
        ensures
            match res {
                Ok(r) => exists|t: ResolvedListTarget|
                    list_target_ok(remote@, opt_str_view(default_repo), repositories@, Ok(t)) && r.repo@
                        == t.repo_name@ && r.path@ == t.path@ && items_of_entries(r.items@, entries@),
                Err(e) => list_target_ok(remote@, opt_str_view(default_repo), repositories@, Err(e)),
            },
    {
        let target = self.target(remote, default_repo, repositories)?;
        Ok(self.result(target, entries))
    }

    /// The human rendering of a listing: the directory, then one line per item
    /// (see `list_human_seq`).
    pub fn format_human(result: &ListResult) -> (res: String)
        ensures
            res@ == list_human_seq(*result),
    {
        format_list_human(result)
    }
}


/// Law: a listed entry sits in the listed directory. Its path's last component
/// is its name, and what comes before the last `/` is the directory without its
/// trailing slashes (nothing, for the library root).
pub proof fn law_entry_inside_directory(dir: Seq<char>, raw: RawDirectoryItem, e: DirectoryEntry)
    requires
        entry_from_raw(dir, raw, e),
        !e.name@.contains('/'),
    ensures
        last_component_seq(e.path@) == e.name@,
        e.path@.len() > e.name@.len(),
        e.path@.take(e.path@.len() - e.name@.len() - 1) == if dir == seq!['/'] {
            Seq::<char>::empty()
        } else {
            trim_end_char_seq(dir, '/')
        },
{
    let name = e.name@;
    let parent = if dir == seq!['/'] {
        Seq::<char>::empty()
    } else {
        trim_end_char_seq(dir, '/')
    };
    assert(e.path@ =~= parent.push('/') + name);
    lemma_last_component_after(parent, name);
    assert(e.path@.take(e.path@.len() - name.len() - 1) =~= parent);
}

} // verus!
