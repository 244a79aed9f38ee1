//! Names and paths of transfer targets: file-name stems and extensions, the
//! `-(n)` sibling names that resolve conflicts, and remote parent/name splits.
use vstd::prelude::*;
use vstd::set_lib::{lemma_int_range, lemma_len_subset, lemma_map_size, set_int_range};

use crate::error::ThufsError;
use crate::listing::DirectoryEntry;
use crate::text::{
    decimal, last_index_of, lemma_last_index_found, lemma_decimal_injective, push_char, rfind_char, str_eq,
    to_owned_string, trim, trim_end_char, trim_end_char_seq, trim_seq, u64_to_decimal,
};

verus! {

/// `name.rsplit_once('.')` when the stem is non-empty: stem and extension;
/// otherwise the whole name and an empty extension.
pub open spec fn split_filename_seq(name: Seq<char>) -> (Seq<char>, Seq<char>) {
    match last_index_of(name, '.') {
        Some(i) => if i > 0 {
            (name.take(i), name.skip(i + 1))
        } else {
            (name, Seq::empty())
        },
        None => (name, Seq::empty()),
    }
}

/// The sibling name `<stem>-(<index>)` or `<stem>-(<index>).<ext>`.
pub open spec fn candidate_seq(stem: Seq<char>, ext: Seq<char>, index: nat) -> Seq<char> {
    let base = stem + seq!['-', '('] + decimal(index) + seq![')'];
    if ext.len() == 0 {
        base
    } else {
        base.push('.') + ext
    }
}

/// The `index`-th sibling name derived from `name`.
pub open spec fn sibling_name_seq(name: Seq<char>, index: nat) -> Seq<char> {
    candidate_seq(split_filename_seq(name).0, split_filename_seq(name).1, index)
}

/// The names of listing entries.
pub open spec fn entry_names(entries: Seq<DirectoryEntry>) -> Seq<Seq<char>> {
    entries.map_values(|e: DirectoryEntry| e.name@)
}

/// `res` is `name`'s `k`-th sibling, the first one that `taken` does not hold.
pub open spec fn is_first_free_sibling_among(name: Seq<char>, taken: Seq<Seq<char>>, res: Seq<char>) -> bool {
    exists|k: nat|
        k >= 1 && res == sibling_name_seq(name, k) && !taken.contains(res) && forall|j: nat|
            1 <= j < k ==> taken.contains(#[trigger] sibling_name_seq(name, j))
}

/// `next_available_name` gives `name`'s `k`-th sibling, the first one no entry uses.
pub open spec fn is_first_free_sibling(name: Seq<char>, entries: Seq<DirectoryEntry>, res: Seq<char>) -> bool {
    is_first_free_sibling_among(name, entry_names(entries), res)
}

/// The views of a list of strings.
pub open spec fn string_views(names: Seq<String>) -> Seq<Seq<char>> {
    names.map_values(|n: String| n@)
}

/// The last path component of a remote path (the part after its last `/`).
pub open spec fn last_component_seq(path: Seq<char>) -> Seq<char> {
    match last_index_of(path, '/') {
        Some(i) => path.skip(i + 1),
        None => path,
    }
}

/// `split_parent_and_name`: the parent directory and the file name of a trimmed
/// remote path, split at its last `/`; `None` when it has no `/` or ends with one.
pub open spec fn split_parent_and_name_seq(path: Seq<char>) -> Option<(Seq<char>, Seq<char>)> {
    let t = trim_seq(path);
    match last_index_of(t, '/') {
        Some(i) => if i + 1 == t.len() {
            None
        } else if i == 0 {
            Some((seq!['/'], t.skip(1)))
        } else {
            Some((t.take(i), t.skip(i + 1)))
        },
        None => None,
    }
}

/// `join_remote_path`: `name` inside remote directory `parent`.
pub open spec fn join_remote_path_seq(parent: Seq<char>, name: Seq<char>) -> Seq<char> {
    if parent == seq!['/'] {
        seq!['/'] + name
    } else {
        trim_end_char_seq(parent, '/').push('/') + name
    }
}

/// Splits a file name into stem and extension (see `split_filename_seq`).
pub fn split_filename(name: &str) -> (res: (&str, &str))
    ensures
        (res.0@, res.1@) == split_filename_seq(name@),
{
    let n = name.unicode_len();
    match rfind_char(name, '.') {
        Some(i) => {
            if i > 0 {
                (name.substring_char(0, i), name.substring_char(i + 1, n))
            } else {
                proof {
                    assert(name@.subrange(n as int, n as int) =~= Seq::<char>::empty());
                }
                (name, name.substring_char(n, n))
            }
        },
        None => {
            proof {
                assert(name@.subrange(n as int, n as int) =~= Seq::<char>::empty());
            }
            (name, name.substring_char(n, n))
        },
    }
}

/// The sibling name `<stem>-(<index>)[.<ext>]`.
pub fn candidate_name(stem: &str, ext: &str, index: u64) -> (res: String)
    ensures
        res@ == candidate_seq(stem@, ext@, index as nat),
{
    let mut out = to_owned_string(stem);
    push_char(&mut out, '-');
    push_char(&mut out, '(');
    out.append(u64_to_decimal(index).as_str());
    push_char(&mut out, ')');
    if ext.unicode_len() > 0 {
        push_char(&mut out, '.');
        out.append(ext);
    }
    proof {
        assert(stem@.push('-').push('(') =~= stem@ + seq!['-', '(']);
    }
    out
}

/// The `index`-th sibling name of `name`, as the uniquify policy names a copy.
pub fn sibling_name(name: &str, index: u64) -> (res: String)
    ensures
        res@ == sibling_name_seq(name@, index as nat),
{
    let (stem, ext) = split_filename(name);
    candidate_name(stem, ext, index)
}

/// Proof that different indices give different sibling names.
pub proof fn lemma_candidate_injective(stem: Seq<char>, ext: Seq<char>, a: nat, b: nat)
    requires
        candidate_seq(stem, ext, a) == candidate_seq(stem, ext, b),
    ensures
        a == b,
{
    let da = decimal(a);
    let db = decimal(b);
    let p = stem + seq!['-', '('];
    let ca = candidate_seq(stem, ext, a);
    let cb = candidate_seq(stem, ext, b);
    let tail: int = if ext.len() == 0 {
        0
    } else {
        1 + ext.len() as int
    };
    assert(ca.len() == p.len() + da.len() + 1 + tail);
    assert(cb.len() == p.len() + db.len() + 1 + tail);
    assert(da.len() == db.len());
    assert(ca.subrange(p.len() as int, (p.len() + da.len()) as int) =~= da);
    assert(cb.subrange(p.len() as int, (p.len() + db.len()) as int) =~= db);
    lemma_decimal_injective(a, b);
}

/// Proof that `k - 1` distinct used sibling names fit among the entries' names.
proof fn lemma_used_siblings_bound(name: Seq<char>, names: Seq<Seq<char>>, k: nat)
    requires
        k >= 1,
        forall|j: nat| 1 <= j < k ==> names.contains(#[trigger] sibling_name_seq(name, j)),
    ensures
        k - 1 <= names.len(),
{
    let stem = split_filename_seq(name).0;
    let ext = split_filename_seq(name).1;
    let x = set_int_range(1, k as int);
    let f = |j: int| candidate_seq(stem, ext, j as nat);
    lemma_int_range(1, k as int);
    assert(vstd::relations::injective_on(f, x)) by {
        assert forall|a: int, b: int| x.contains(a) && x.contains(b) && #[trigger] f(a) == #[trigger] f(b) implies a
            == b by {
            lemma_candidate_injective(stem, ext, a as nat, b as nat);
        }
    }
    let y = x.map(f);
    lemma_map_size(x, y, f);
    let all = names.to_set();
    assert(y.subset_of(all)) by {
        assert forall|s: Seq<char>| y.contains(s) implies all.contains(s) by {
            let j = choose|j: int| x.contains(j) && f(j) == s;
            assert(names.contains(sibling_name_seq(name, j as nat)));
        }
    }
    names.lemma_cardinality_of_set();
    lemma_len_subset(y, all);
}

/// Whether `names` holds `name`.
fn names_contain(names: &Vec<String>, name: &str) -> (res: bool)
    ensures
        res == string_views(names@).contains(name@),
{
    let mut i: usize = 0;
    while i < names.len()
        invariant
            i <= names@.len(),
            forall|k: int| 0 <= k < i ==> (#[trigger] names@[k])@ != name@,
        decreases names@.len() - i,
    {
        if str_eq(names[i].as_str(), name) {
            proof {
                assert(string_views(names@)[i as int] == name@);
            }
            return true;
        }
        i = i + 1;
    }
    proof {
        if string_views(names@).contains(name@) {
            let k = choose|k: int| 0 <= k < string_views(names@).len() && string_views(names@)[k] == name@;
            assert(names@[k]@ == name@);
        }
    }
    false
}

/// The first sibling name of `name` that `taken` does not hold: `report-(1).pdf`,
/// then `report-(2).pdf`, and so on.
pub fn first_free_sibling(name: &str, taken: &Vec<String>) -> (res: String)
    requires
        taken@.len() < u64::MAX,
    ensures
        is_first_free_sibling_among(name@, string_views(taken@), res@),
{
    let (stem, ext) = split_filename(name);
    let ghost names = string_views(taken@);
    let mut index: u64 = 1;
    loop
        invariant
            (stem@, ext@) == split_filename_seq(name@),
            names == string_views(taken@),
            taken@.len() < u64::MAX,
            index >= 1,
            forall|j: nat| 1 <= j < index ==> names.contains(#[trigger] sibling_name_seq(name@, j)),
        decreases taken@.len() + 1 - index,
    {
        proof {
            lemma_used_siblings_bound(name@, names, index as nat);
        }
        let candidate = candidate_name(stem, ext, index);
        if !names_contain(taken, candidate.as_str()) {
            proof {
                assert(candidate@ == sibling_name_seq(name@, index as nat));
            }
            return candidate;
        }
        proof {
            assert(candidate@ == sibling_name_seq(name@, index as nat));
            assert forall|j: nat| 1 <= j < index + 1 implies names.contains(#[trigger] sibling_name_seq(name@, j)) by {
                if j == index as nat {
                }
            }
            lemma_used_siblings_bound(name@, names, (index + 1) as nat);
        }
        index = index + 1;
    }
}

/// The names of listing entries, in order.
pub fn entry_name_list(entries: &[DirectoryEntry]) -> (res: Vec<String>)
    ensures
        string_views(res@) == entry_names(entries@),
{
    let mut out: Vec<String> = Vec::new();
    let mut i: usize = 0;
    while i < entries.len()
        invariant
            i <= entries@.len(),
            string_views(out@) == entry_names(entries@).take(i as int),
        decreases entries@.len() - i,
    {
        let ghost before = out@;
        out.push(entries[i].name.clone());
        proof {
            assert(string_views(out@) =~= string_views(before).push(entries@[i as int].name@));
            assert(entry_names(entries@).take(i + 1) =~= entry_names(entries@).take(i as int).push(
                entries@[i as int].name@,
            ));
        }
        i = i + 1;
    }
    proof {
        assert(entry_names(entries@).take(entries@.len() as int) =~= entry_names(entries@));
    }
    out
}

/// The first sibling name of `target_name` that no listing entry uses: `report-(1).pdf`,
/// then `report-(2).pdf`, and so on.
pub fn next_available_name(target_name: &str, entries: &[DirectoryEntry]) -> (res: String)
    requires
        entries@.len() < u64::MAX,
    ensures
        is_first_free_sibling(target_name@, entries@, res@),
{
    let names = entry_name_list(entries);
    proof {
        assert(string_views(names@).len() == entry_names(entries@).len());
    }
    first_free_sibling(target_name, &names)
}

/// The last component of a remote path; an empty one means the path names no file.
pub fn remote_filename(remote_path: &str) -> (res: Result<&str, ThufsError>)
    ensures
        match res {
            Ok(name) => name@ == last_component_seq(remote_path@) && name@.len() > 0,
            Err(e) => {
                &&& last_component_seq(remote_path@).len() == 0
                &&& e matches ThufsError::RemoteNotAFile(p)
                &&& p@ == remote_path@
            },
        },
{
    let n = remote_path.unicode_len();
    let name = match rfind_char(remote_path, '/') {
        Some(i) => remote_path.substring_char(i + 1, n),
        None => remote_path,
    };
    if name.unicode_len() == 0 {
        Err(ThufsError::RemoteNotAFile(to_owned_string(remote_path)))
    } else {
        Ok(name)
    }
}

/// Splits a remote file path into its parent directory and its file name.
pub fn split_parent_and_name(path: &str) -> (res: Result<(&str, &str), ThufsError>)
    ensures
        match res {
            Ok((parent, name)) => split_parent_and_name_seq(path@) == Some((parent@, name@)),
            Err(ThufsError::RemoteNotAFile(p)) => {
                &&& split_parent_and_name_seq(path@) is None
                &&& last_index_of(trim_seq(path@), '/') is Some
                &&& p@ == trim_seq(path@)
            },
            Err(ThufsError::RemotePathInvalid(p)) => {
                &&& last_index_of(trim_seq(path@), '/') is None
                &&& p@ == trim_seq(path@)
            },
            Err(_) => false,
        },
{
    let normalized = trim(path);
    let n = normalized.unicode_len();
    let idx = match rfind_char(normalized, '/') {
        Some(i) => i,
        None => {
            return Err(ThufsError::RemotePathInvalid(to_owned_string(normalized)));
        },
    };
    if idx + 1 == n {
        return Err(ThufsError::RemoteNotAFile(to_owned_string(normalized)));
    }
    let name = normalized.substring_char(idx + 1, n);
    if idx == 0 {
        proof {
            reveal_strlit("/");
        }
        Ok(("/", name))
    } else {
        Ok((normalized.substring_char(0, idx), name))
    }
}

/// `name` inside remote directory `parent`.
pub fn join_remote_path(parent: &str, name: &str) -> (res: String)
    ensures
        res@ == join_remote_path_seq(parent@, name@),
{
    let mut root = String::new();
    push_char(&mut root, '/');
    proof {
        assert(root@ =~= seq!['/']);
    }
    if str_eq(parent, root.as_str()) {
        root.append(name);
        root
    } else {
        let mut out = to_owned_string(trim_end_char(parent, '/'));
        push_char(&mut out, '/');
        out.append(name);
        out
    }
}


/// Law: joining the parent and the name that splitting a remote path gives yields
/// the (trimmed) path again, unless the split ate a doubled `/` before the name.
pub proof fn law_split_then_join(path: Seq<char>, parent: Seq<char>, name: Seq<char>)
    requires
        split_parent_and_name_seq(path) == Some((parent, name)),
        parent == seq!['/'] ==> trim_seq(path) == seq!['/'] + name,
        parent != seq!['/'] ==> trim_end_char_seq(parent, '/') == parent,
    ensures
        join_remote_path_seq(parent, name) == trim_seq(path),
{
    let t = trim_seq(path);
    lemma_last_index_found(t, '/');
    let i = last_index_of(t, '/')->0;
    if parent != seq!['/'] {
        assert(i != 0);
        assert(parent == t.take(i));
        assert(name == t.skip(i + 1));
        assert(t =~= t.take(i).push('/') + t.skip(i + 1));
    } else {
        assert(join_remote_path_seq(parent, name) == seq!['/'] + name);
    }
}


/// Proof that a path made of a prefix, `/` and a name without `/` has that name
/// as its last component, and the prefix before it.
pub proof fn lemma_last_component_after(prefix: Seq<char>, name: Seq<char>)
    requires
        !name.contains('/'),
    ensures
        last_component_seq(prefix.push('/') + name) == name,
        last_index_of(prefix.push('/') + name, '/') == Some(prefix.len() as int),
{
    let p = prefix.push('/') + name;
    let k = prefix.len() as int;
    assert(p[k] == '/');
    assert forall|j: int| k < j < p.len() implies p[j] != '/' by {
        assert(p[j] == name[j - k - 1]);
        if p[j] == '/' {
            assert(name.contains('/'));
        }
    }
    crate::text::lemma_last_index_of(p, '/', k);
    assert(p.skip(k + 1) =~= name);
}

} // verus!
