//! The account views: the summary of the account behind the token, and the list
//! of its libraries in name order.
use vstd::prelude::*;
use vstd::utf8::encode_utf8;

use crate::contract::join_seq;
use crate::listing::join_lines;
use crate::seafile::{AccountInfo, Repository, SeafileClient};
use crate::text::{decimal, str_eq, u64_to_decimal};

verus! {

/// The account summary a command reports.
#[derive(Debug, Clone, PartialEq, Eq)]
pub struct AccountInfoResult {
    pub login_id: Option<String>,
    pub name: Option<String>,
    pub email: String,
    pub contact_email: Option<String>,
    pub is_staff: Option<bool>,
    pub usage: Option<u64>,
    pub total: Option<u64>,
    pub space_usage: Option<String>,
    pub institution: Option<String>,
    pub department: Option<String>,
}

/// One library in a listing of libraries.
#[derive(Debug, Clone, PartialEq, Eq)]
pub struct RepoItem {
    pub id: String,
    pub name: String,
}

/// The libraries of the account.
#[derive(Debug, Clone, PartialEq, Eq)]
pub struct RepoListResult {
    pub repos: Vec<RepoItem>,
}

/// The account commands.
#[derive(Debug, Clone)]
pub struct AccountService {
    client: SeafileClient,
}

/// Byte-wise lexicographic order, the order of `str`'s `Ord`.
pub open spec fn bytes_lt(a: Seq<u8>, b: Seq<u8>) -> bool
    decreases a.len(),
{
    if a.len() == 0 {
        b.len() > 0
    } else if b.len() == 0 {
        false
    } else if a[0] != b[0] {
        a[0] < b[0]
    } else {
        bytes_lt(a.drop_first(), b.drop_first())
    }
}

/// `x` comes before `y`: by name, then by id, each compared as strings.
pub open spec fn repo_item_lt(x: RepoItem, y: RepoItem) -> bool {
    ||| bytes_lt(encode_utf8(x.name@), encode_utf8(y.name@))
    ||| x.name@ == y.name@ && bytes_lt(encode_utf8(x.id@), encode_utf8(y.id@))
}

/// No item comes before one that precedes it.
pub open spec fn repo_items_sorted(s: Seq<RepoItem>) -> bool {
    forall|i: int, j: int| 0 <= i < j < s.len() ==> !repo_item_lt(#[trigger] s[j], #[trigger] s[i])
}

/// The listing item of a library.
pub open spec fn repo_item_of(r: Repository) -> (Seq<char>, Seq<char>) {
    (r.id@, r.name@)
}

/// The (id, name) views of listing items.
pub open spec fn repo_item_views(s: Seq<RepoItem>) -> Seq<(Seq<char>, Seq<char>)> {
    s.map_values(|r: RepoItem| (r.id@, r.name@))
}

/// Proof that the byte order is transitive.
pub proof fn lemma_bytes_lt_transitive(a: Seq<u8>, b: Seq<u8>, c: Seq<u8>)
    requires
        bytes_lt(a, b),
        bytes_lt(b, c),
    ensures
        bytes_lt(a, c),
    decreases a.len(),
{
    if a.len() > 0 && b.len() > 0 && c.len() > 0 && a[0] == b[0] && b[0] == c[0] {
        lemma_bytes_lt_transitive(a.drop_first(), b.drop_first(), c.drop_first());
    }
}

/// Proof that no byte string comes before itself.
pub proof fn lemma_bytes_lt_irreflexive(a: Seq<u8>)
    ensures
        !bytes_lt(a, a),
    decreases a.len(),
{
    if a.len() > 0 {
        lemma_bytes_lt_irreflexive(a.drop_first());
    }
}

/// Proof that no library item comes before itself.
pub proof fn lemma_repo_item_lt_irreflexive(x: RepoItem)
    ensures
        !repo_item_lt(x, x),
{
    lemma_bytes_lt_irreflexive(encode_utf8(x.name@));
    lemma_bytes_lt_irreflexive(encode_utf8(x.id@));
}

/// Proof that the library order is transitive.
pub proof fn lemma_repo_item_lt_transitive(x: RepoItem, y: RepoItem, z: RepoItem)
    requires
        repo_item_lt(x, y),
        repo_item_lt(y, z),
    ensures
        repo_item_lt(x, z),
{
    let (nx, ny, nz) = (encode_utf8(x.name@), encode_utf8(y.name@), encode_utf8(z.name@));
    if bytes_lt(nx, ny) && bytes_lt(ny, nz) {
        lemma_bytes_lt_transitive(nx, ny, nz);
    } else if !bytes_lt(nx, ny) && !bytes_lt(ny, nz) {
        lemma_bytes_lt_transitive(encode_utf8(x.id@), encode_utf8(y.id@), encode_utf8(z.id@));
    }
}

/// Whether byte string `a` comes before `b`.
fn bytes_less(a: &[u8], b: &[u8]) -> (res: bool)
    ensures
        res == bytes_lt(a@, b@),
{
    let mut i: usize = 0;
    proof {
        assert(a@.skip(0) =~= a@);
        assert(b@.skip(0) =~= b@);
    }
    while i < a.len() && i < b.len()
        invariant
            i <= a@.len(),
            i <= b@.len(),
            bytes_lt(a@, b@) == bytes_lt(a@.skip(i as int), b@.skip(i as int)),
        decreases a@.len() - i,
    {
        if a[i] != b[i] {
            return a[i] < b[i];
        }
        proof {
            assert(a@.skip(i as int).drop_first() =~= a@.skip(i + 1));
            assert(b@.skip(i as int).drop_first() =~= b@.skip(i + 1));
        }
        i = i + 1;
    }
    i == a.len() && i < b.len()
}

/// Whether library item `x` comes before `y` (see `repo_item_lt`).
fn repo_item_less(x: &RepoItem, y: &RepoItem) -> (res: bool)
    ensures
        res == repo_item_lt(*x, *y),
{
    if bytes_less(x.name.as_str().as_bytes(), y.name.as_str().as_bytes()) {
        true
    } else {
        str_eq(x.name.as_str(), y.name.as_str()) && bytes_less(x.id.as_str().as_bytes(), y.id.as_str().as_bytes())
    }
}

/// The libraries as listing items, sorted by name and then by id.
pub fn sorted_repo_items(repos: &Vec<Repository>) -> (res: Vec<RepoItem>)
    ensures
        repo_items_sorted(res@),
        repo_item_views(res@).to_multiset() == repos@.map_values(|r: Repository| repo_item_of(r)).to_multiset(),
{
    let ghost input = repos@.map_values(|r: Repository| repo_item_of(r));
    let mut out: Vec<RepoItem> = Vec::new();
    let mut i: usize = 0;
    proof {
        assert(input.take(0) =~= Seq::<(Seq<char>, Seq<char>)>::empty());
        assert(repo_item_views(out@) =~= Seq::<(Seq<char>, Seq<char>)>::empty());
    }
    while i < repos.len()
        invariant
            i <= repos@.len(),
            input == repos@.map_values(|r: Repository| repo_item_of(r)),
            repo_items_sorted(out@),
            repo_item_views(out@).to_multiset() == input.take(i as int).to_multiset(),
        decreases repos@.len() - i,
    {
        let item = RepoItem { id: repos[i].id.clone(), name: repos[i].name.clone() };
        let mut p: usize = 0;
        while p < out.len() && !repo_item_less(&item, &out[p])
            invariant
                p <= out@.len(),
                forall|k: int| 0 <= k < p ==> !repo_item_lt(item, #[trigger] out@[k]),
            decreases out@.len() - p,
        {
            p = p + 1;
        }
        let ghost before = out@;
        out.insert(p, item);
        proof {
            assert(out@ =~= before.insert(p as int, item));
            assert forall|a: int, b: int| 0 <= a < b < out@.len() implies !repo_item_lt(
                #[trigger] out@[b],
                #[trigger] out@[a],
            ) by {
                if a < p && b == p {
                } else if a == p && b > p {
                    if repo_item_lt(out@[b], item) {
                        lemma_repo_item_lt_transitive(out@[b], item, before[p as int]);
                        if b - 1 == p {
                            lemma_repo_item_lt_irreflexive(before[p as int]);
                        } else {
                            assert(!repo_item_lt(before[b - 1], before[p as int]));
                        }
                    }
                } else if a < p && b > p {
                    assert(!repo_item_lt(before[b - 1], before[a]));
                } else if b < p {
                    assert(!repo_item_lt(before[b], before[a]));
                } else {
                    assert(!repo_item_lt(before[b - 1], before[a - 1]));
                }
            }
            assert(repo_item_views(out@) =~= repo_item_views(before).insert(p as int, (item.id@, item.name@)));
            vstd::seq_lib::to_multiset_insert(repo_item_views(before), p as int, (item.id@, item.name@));
            assert(input.take(i + 1) =~= input.take(i as int).push(input[i as int]));
            vstd::seq_lib::to_multiset_build(input.take(i as int), input[i as int]);
            assert(input[i as int] == (item.id@, item.name@));
        }
        i = i + 1;
    }
    proof {
        assert(input.take(repos@.len() as int) =~= input);
    }
    out
}

/// `value`, or `fallback` when it is absent.
pub open spec fn or_text(value: Option<String>, fallback: Seq<char>) -> Seq<char> {
    match value {
        Some(v) => v@,
        None => fallback,
    }
}

/// The usage shown for an account: `usage/total (space)`, `usage/total`, `usage`
/// or `unknown`.
pub open spec fn usage_text(usage: Option<u64>, total: Option<u64>, space: Option<String>) -> Seq<char> {
    match (usage, total) {
        (Some(u), Some(t)) => match space {
            Some(s) => decimal(u as nat) + "/"@ + decimal(t as nat) + " ("@ + s@ + ")"@,
            None => decimal(u as nat) + "/"@ + decimal(t as nat),
        },
        (Some(u), None) => decimal(u as nat),
        _ => "unknown"@,
    }
}

/// Whether the account is staff: `yes`, `no` or `unknown`.
pub open spec fn staff_text(is_staff: Option<bool>) -> Seq<char> {
    match is_staff {
        Some(true) => "yes"@,
        Some(false) => "no"@,
        None => "unknown"@,
    }
}

/// The lines of the account summary.
pub open spec fn account_info_lines(info: AccountInfoResult) -> Seq<Seq<char>> {
    seq![
        "Login ID: "@ + or_text(info.login_id, "not set"@),
        "Name: "@ + or_text(info.name, "not set"@),
        "Email: "@ + info.email@,
        "Contact email: "@ + or_text(info.contact_email, "not set"@),
        "Institution: "@ + or_text(info.institution, "not set"@),
        "Department: "@ + or_text(info.department, "not set"@),
        "Staff: "@ + staff_text(info.is_staff),
        "Usage: "@ + usage_text(info.usage, info.total, info.space_usage),
    ]
}

/// The listing of libraries: one `name<TAB>id` line each, or a fixed sentence
/// when there are none.
pub open spec fn repositories_text(repos: Seq<RepoItem>) -> Seq<char> {
    if repos.len() == 0 {
        "No repositories found"@
    } else {
        join_seq(Seq::new(repos.len(), |i: int| repos[i].name@ + "\t"@ + repos[i].id@), '\n')
    }
}

/// `label` followed by `value`, or by `not set` when it is absent.
fn labelled(label: &str, value: &Option<String>) -> (res: String)
    ensures
        res@ == label@ + or_text(*value, "not set"@),
{
    let out = String::from_str(label);
    match value {
        Some(v) => out.concat(v.as_str()),
        None => out.concat("not set"),
    }
}

/// The usage line's value (see `usage_text`).
fn usage_value(usage: Option<u64>, total: Option<u64>, space: &Option<String>) -> (res: String)
    ensures
        res@ == usage_text(usage, total, *space),
{
    match (usage, total) {
        (Some(u), Some(t)) => {
            let out = u64_to_decimal(u).concat("/").concat(u64_to_decimal(t).as_str());
            match space {
                Some(s) => out.concat(" (").concat(s.as_str()).concat(")"),
                None => out,
            }
        },
        (Some(u), None) => u64_to_decimal(u),
        _ => String::from_str("unknown"),
    }
}

impl AccountService {
    /// The account commands of `client`.
    pub fn new(client: SeafileClient) -> (res: AccountService)
        ensures
            res.client_config_path() == client.config_path(),
    {
        AccountService { client }
    }

    /// The configuration file the account commands read.
    pub closed spec fn client_config_path(&self) -> Seq<char> {
        self.client.config_path()
    }

    /// The account summary for the account information the server returned.
    pub fn account_info(&self, info: AccountInfo) -> (res: AccountInfoResult)
        ensures
            res.login_id == info.login_id,
            res.name == info.name,
            res.email == info.email,
            res.contact_email == info.contact_email,
            res.is_staff == info.is_staff,
            res.usage == info.usage,
            res.total == info.total,
            res.space_usage == info.space_usage,
            res.institution == info.institution,
            res.department == info.department,
    {
        AccountInfoResult {
            login_id: info.login_id,
            name: info.name,
            email: info.email,
            contact_email: info.contact_email,
            is_staff: info.is_staff,
            usage: info.usage,
            total: info.total,
            space_usage: info.space_usage,
            institution: info.institution,
            department: info.department,
        }
    }

    /// The libraries the server returned, as listing items sorted by name and
    /// then by id.
    pub fn repositories(&self, repos: Vec<Repository>) -> (res: RepoListResult)
        ensures
            repo_items_sorted(res.repos@),
            repo_item_views(res.repos@).to_multiset() == repos@.map_values(|r: Repository| repo_item_of(r)).to_multiset(),
    {
        RepoListResult { repos: sorted_repo_items(&repos) }
    }

    /// The account summary, one `Label: value` line per field.
    pub fn format_account_info(info: &AccountInfoResult) -> (res: String)
        ensures
            res@ == join_seq(account_info_lines(*info), '\n'),
    {
        let staff = match info.is_staff {
            Some(true) => "yes",
            Some(false) => "no",
            None => "unknown",
        };
        let mut lines: Vec<String> = Vec::new();
        lines.push(labelled("Login ID: ", &info.login_id));
        lines.push(labelled("Name: ", &info.name));
        lines.push(String::from_str("Email: ").concat(info.email.as_str()));
        lines.push(labelled("Contact email: ", &info.contact_email));
        lines.push(labelled("Institution: ", &info.institution));
        lines.push(labelled("Department: ", &info.department));
        lines.push(String::from_str("Staff: ").concat(staff));
        lines.push(String::from_str("Usage: ").concat(usage_value(info.usage, info.total, &info.space_usage).as_str()));
        proof {
            assert(lines@.map_values(|l: String| l@) =~= account_info_lines(*info));
        }
        join_lines(&lines)
    }

    /// The libraries, one `name<TAB>id` line each (see `repositories_text`).
    pub fn format_repositories(result: &RepoListResult) -> (res: String)
        ensures
            res@ == repositories_text(result.repos@),
    {
        if result.repos.len() == 0 {
            return String::from_str("No repositories found");
        }
        let ghost wanted = Seq::new(result.repos@.len(), |i: int| result.repos@[i].name@ + "\t"@ + result.repos@[i].id@);
        let mut lines: Vec<String> = Vec::new();
        let mut i: usize = 0;
        while i < result.repos.len()
            invariant
                i <= result.repos@.len(),
                wanted == Seq::new(result.repos@.len(), |i: int| result.repos@[i].name@ + "\t"@ + result.repos@[i].id@),
                lines@.map_values(|l: String| l@) == wanted.take(i as int),
            decreases result.repos@.len() - i,
        {
            let repo = &result.repos[i];
            let line = repo.name.clone().concat("\t").concat(repo.id.as_str());
            let ghost old_lines = lines@;
            lines.push(line);
            proof {
                assert(line@ == wanted[i as int]);
                assert(lines@.map_values(|l: String| l@) =~= old_lines.map_values(|l: String| l@).push(line@));
                assert(wanted.take(i + 1) =~= wanted.take(i as int).push(wanted[i as int]));
            }
            i = i + 1;
        }
        proof {
            assert(wanted.take(result.repos@.len() as int) =~= wanted);
        }
        join_lines(&lines)
    }
}

} // verus!
