//! Transfer options (conflict policy, download mode, progress mode), their
//! keywords, and the human rendering of byte counts.
use vstd::arithmetic::div_mod::lemma_div_denominator;
use vstd::prelude::*;

use crate::error::ThufsError;
use crate::text::{ascii_lower_seq, decimal, eq_ascii_lowercase, push_char, to_owned_string, trim, trim_seq, u64_to_decimal};

verus! {

/// What to do when a transfer target already exists.
#[derive(Debug, Clone, Copy, PartialEq, Eq, Structural)]
pub enum ConflictPolicy {
    Prompt,
    Overwrite,
    Uniquify,
    Fail,
}

/// How a download is carried out.
#[derive(Debug, Clone, Copy, PartialEq, Eq, Structural)]
pub enum DownloadMode {
    Auto,
    Parallel,
    Sequential,
}

/// How transfer progress is reported.
#[derive(Debug, Clone, Copy, PartialEq, Eq, Structural)]
pub enum ProgressMode {
    Auto,
    Jsonl,
    /// No progress output (the `none` keyword).
    Off,
}

/// The download mode a lower-cased keyword names.
pub open spec fn download_mode_keyword(k: Seq<char>) -> Option<DownloadMode> {
    if k == "auto"@ {
        Some(DownloadMode::Auto)
    } else if k == "parallel"@ {
        Some(DownloadMode::Parallel)
    } else if k == "sequential"@ {
        Some(DownloadMode::Sequential)
    } else {
        None
    }
}

/// The progress mode a lower-cased keyword names.
pub open spec fn progress_mode_keyword(k: Seq<char>) -> Option<ProgressMode> {
    if k == "auto"@ {
        Some(ProgressMode::Auto)
    } else if k == "jsonl"@ {
        Some(ProgressMode::Jsonl)
    } else if k == "none"@ {
        Some(ProgressMode::Off)
    } else {
        None
    }
}

/// The conflict policy a lower-cased keyword names.
pub open spec fn conflict_policy_keyword(k: Seq<char>) -> Option<ConflictPolicy> {
    if k == "prompt"@ {
        Some(ConflictPolicy::Prompt)
    } else if k == "overwrite"@ {
        Some(ConflictPolicy::Overwrite)
    } else if k == "uniquify"@ {
        Some(ConflictPolicy::Uniquify)
    } else if k == "fail"@ {
        Some(ConflictPolicy::Fail)
    } else {
        None
    }
}

/// A keyword as the parsers read it: trimmed and ASCII lower-cased.
pub open spec fn keyword_of(value: Seq<char>) -> Seq<char> {
    ascii_lower_seq(trim_seq(value))
}

impl Default for DownloadMode {
    /// Downloads are sequential unless asked otherwise.
    fn default() -> (res: Self)
        ensures
            res == DownloadMode::Sequential,
    {
        DownloadMode::Sequential
    }
}

impl DownloadMode {
    /// Reads `auto`, `parallel` or `sequential`, ignoring case and surrounding whitespace.
    pub fn parse_keyword(value: &str) -> (res: Result<DownloadMode, ThufsError>)
        ensures
            match res {
                Ok(m) => download_mode_keyword(keyword_of(value@)) == Some(m),
                Err(e) => {
                    &&& download_mode_keyword(keyword_of(value@)) is None
                    &&& e matches ThufsError::InvalidDownloadMode(v)
                    &&& v@ == value@
                },
            },
    {
        let t = trim(value);
        if eq_ascii_lowercase(t, "auto") {
            Ok(DownloadMode::Auto)
        } else if eq_ascii_lowercase(t, "parallel") {
            Ok(DownloadMode::Parallel)
        } else if eq_ascii_lowercase(t, "sequential") {
            Ok(DownloadMode::Sequential)
        } else {
            Err(ThufsError::InvalidDownloadMode(to_owned_string(value)))
        }
    }
}

impl ProgressMode {
    /// Reads `auto`, `jsonl` or `none`, ignoring case and surrounding whitespace.
    pub fn parse_keyword(value: &str) -> (res: Result<ProgressMode, ThufsError>)
        ensures
            match res {
                Ok(m) => progress_mode_keyword(keyword_of(value@)) == Some(m),
                Err(e) => {
                    &&& progress_mode_keyword(keyword_of(value@)) is None
                    &&& e matches ThufsError::InvalidProgressMode(v)
                    &&& v@ == value@
                },
            },
    {
        let t = trim(value);
        if eq_ascii_lowercase(t, "auto") {
            Ok(ProgressMode::Auto)
        } else if eq_ascii_lowercase(t, "jsonl") {
            Ok(ProgressMode::Jsonl)
        } else if eq_ascii_lowercase(t, "none") {
            Ok(ProgressMode::Off)
        } else {
            Err(ThufsError::InvalidProgressMode(to_owned_string(value)))
        }
    }
}

impl ConflictPolicy {
    /// Reads `prompt`, `overwrite`, `uniquify` or `fail`, ignoring case and
    /// surrounding whitespace.
    pub fn parse_keyword(value: &str) -> (res: Result<ConflictPolicy, ThufsError>)
        ensures
            match res {
                Ok(p) => conflict_policy_keyword(keyword_of(value@)) == Some(p),
                Err(e) => {
                    &&& conflict_policy_keyword(keyword_of(value@)) is None
                    &&& e matches ThufsError::InvalidConflictPolicy(v)
                    &&& v@ == value@
                },
            },
    {
        let t = trim(value);
        if eq_ascii_lowercase(t, "prompt") {
            Ok(ConflictPolicy::Prompt)
        } else if eq_ascii_lowercase(t, "overwrite") {
            Ok(ConflictPolicy::Overwrite)
        } else if eq_ascii_lowercase(t, "uniquify") {
            Ok(ConflictPolicy::Uniquify)
        } else if eq_ascii_lowercase(t, "fail") {
            Ok(ConflictPolicy::Fail)
        } else {
            Err(ThufsError::InvalidConflictPolicy(to_owned_string(value)))
        }
    }
}

/// The conflict policy the command-line options select: `--conflict` wins, then the
/// legacy flags `--overwrite`, `--rename` and `--fail`; the default is uniquify.
pub fn conflict_policy_from_options(conflict: Option<&str>, overwrite: bool, rename: bool, fail: bool) -> (res: Result<
    ConflictPolicy,
    ThufsError,
>)
    ensures
        match conflict {
            Some(v) => match res {
                Ok(p) => conflict_policy_keyword(keyword_of(v@)) == Some(p),
                Err(e) => {
                    &&& conflict_policy_keyword(keyword_of(v@)) is None
                    &&& e matches ThufsError::InvalidConflictPolicy(w)
                    &&& w@ == v@
                },
            },
            None => res == Ok::<ConflictPolicy, ThufsError>(
                if overwrite {
                    ConflictPolicy::Overwrite
                } else if rename {
                    ConflictPolicy::Uniquify
                } else if fail {
                    ConflictPolicy::Fail
                } else {
                    ConflictPolicy::Uniquify
                },
            ),
        },
{
    match conflict {
        Some(v) => ConflictPolicy::parse_keyword(v),
        None => {
            if overwrite {
                Ok(ConflictPolicy::Overwrite)
            } else if rename {
                Ok(ConflictPolicy::Uniquify)
            } else if fail {
                Ok(ConflictPolicy::Fail)
            } else {
                Ok(ConflictPolicy::Uniquify)
            }
        },
    }
}

/// The progress mode the `--progress` option selects; `auto` when it is absent.
pub fn progress_mode_from_option(progress: Option<&str>) -> (res: Result<ProgressMode, ThufsError>)
    ensures
        match progress {
            Some(v) => match res {
                Ok(m) => progress_mode_keyword(keyword_of(v@)) == Some(m),
                Err(e) => {
                    &&& progress_mode_keyword(keyword_of(v@)) is None
                    &&& e matches ThufsError::InvalidProgressMode(w)
                    &&& w@ == v@
                },
            },
            None => res == Ok::<ProgressMode, ThufsError>(ProgressMode::Auto),
        },
{
    match progress {
        Some(v) => ProgressMode::parse_keyword(v),
        None => Ok(ProgressMode::Auto),
    }
}

/// The policy a conflict is actually resolved with: an interactive prompt is not
/// offered, so `Prompt` resolves to `Uniquify`; every other policy stands.
pub fn resolve_conflict_policy(policy: ConflictPolicy) -> (res: ConflictPolicy)
    ensures
        res == match policy {
            ConflictPolicy::Prompt => ConflictPolicy::Uniquify,
            p => p,
        },
{
    match policy {
        ConflictPolicy::Prompt => ConflictPolicy::Uniquify,
        p => p,
    }
}

// ---------------------------------------------------------------------------
// Byte counts for humans.
// ---------------------------------------------------------------------------

/// 2^53: below it every integer is an exact `f64`.
pub open spec fn f64_exact_limit() -> nat {
    0x20_0000_0000_0000
}

/// `2^e`.
pub open spec fn pow2_nat(e: nat) -> nat
    decreases e,
{
    if e == 0 {
        1
    } else {
        2 * pow2_nat((e - 1) as nat)
    }
}

/// `1024^k`.
pub open spec fn pow1024(k: nat) -> nat
    decreases k,
{
    if k == 0 {
        1
    } else {
        1024 * pow1024((k - 1) as nat)
    }
}

/// How many low bits of `b` an `f64` cannot hold (its bit length beyond 53).
pub open spec fn f64_shift(b: nat) -> nat
    decreases b,
{
    if b < f64_exact_limit() {
        0
    } else {
        1 + f64_shift(b / 2)
    }
}

/// `num / den` rounded to the nearest integer, ties to even.
pub open spec fn round_half_even(num: nat, den: nat) -> nat {
    let q = num / den;
    let r = num % den;
    if 2 * r > den || (2 * r == den && q % 2 == 1) {
        q + 1
    } else {
        q
    }
}

/// The `f64` nearest to `b` (ties to even), as `b as f64` gives it.
pub open spec fn f64_nearest(b: nat) -> nat {
    round_half_even(b, pow2_nat(f64_shift(b))) * pow2_nat(f64_shift(b))
}

/// The unit index `format_size` settles on, counting up from `k`: it steps up while
/// the value is at least 1024 and a larger unit exists.
pub open spec fn unit_index_from(f: nat, k: nat) -> nat
    decreases 5 - k,
{
    if k < 5 && f >= pow1024(k + 1) {
        unit_index_from(f, k + 1)
    } else {
        k
    }
}

/// The unit names `B`, `KB`, `MB`, `GB`, `TB`, `PB`.
pub open spec fn size_unit(k: nat) -> Seq<char> {
    if k == 0 {
        seq!['B']
    } else if k == 1 {
        seq!['K', 'B']
    } else if k == 2 {
        seq!['M', 'B']
    } else if k == 3 {
        seq!['G', 'B']
    } else if k == 4 {
        seq!['T', 'B']
    } else {
        seq!['P', 'B']
    }
}

/// The human rendering of a byte count: exact bytes below 1 KB; otherwise the
/// value in the largest unit up to PB, without decimals when it is at least 10 or
/// whole, else with one decimal (rounding half to even, on the value as an `f64`).
pub open spec fn format_size_seq(bytes: nat) -> Seq<char> {
    let f = f64_nearest(bytes);
    let k = unit_index_from(f, 0);
    let d = pow1024(k);
    if k == 0 {
        decimal(bytes) + seq![' '] + size_unit(0)
    } else if f / d >= 10 || f % d == 0 {
        decimal(round_half_even(f, d)) + seq![' '] + size_unit(k)
    } else {
        let n = round_half_even(10 * f, d);
        decimal(n / 10) + seq!['.'] + decimal(n % 10) + seq![' '] + size_unit(k)
    }
}

/// `num / den` rounded to the nearest integer, ties to even.
fn round_half_even_u128(num: u128, den: u128) -> (res: u128)
    requires
        den > 0,
        num / den < u128::MAX,
    ensures
        res == round_half_even(num as nat, den as nat),
{
    let q = num / den;
    let r = num % den;
    if r > den - r || (r == den - r && q % 2 == 1) {
        q + 1
    } else {
        q
    }
}

/// The unit name for index `k`.
fn push_unit(out: &mut String, k: u64)
    requires
        k <= 5,
    ensures
        final(out)@ == old(out)@ + size_unit(k as nat),
{
    if k == 0 {
        push_char(out, 'B');
    } else {
        if k == 1 {
            push_char(out, 'K');
        } else if k == 2 {
            push_char(out, 'M');
        } else if k == 3 {
            push_char(out, 'G');
        } else if k == 4 {
            push_char(out, 'T');
        } else {
            push_char(out, 'P');
        }
        push_char(out, 'B');
    }
    proof {
        assert(final(out)@ =~= old(out)@ + size_unit(k as nat));
    }
}

/// Proof that `2^k * 2^(64-k) == 2^64` for `k <= 64`.
proof fn lemma_pow2_split(k: nat)
    requires
        k <= 64,
    ensures
        pow2_nat(k) * pow2_nat((64 - k) as nat) == pow2_nat(64),
    decreases k,
{
    if k > 0 {
        let j = (k - 1) as nat;
        lemma_pow2_split(j);
        let a = pow2_nat(j);
        let b = pow2_nat((64 - k) as nat);
        let c = pow2_nat((64 - j) as nat);
        assert(pow2_nat(k) == 2 * a);
        assert(c == 2 * b);
        assert(a * c == pow2_nat(64));
        assert((2 * a) * b == a * c) by (nonlinear_arith)
            requires
                c == 2 * b,
        ;
        assert(pow2_nat(k) * b == (2 * a) * b);
    } else {
        assert(pow2_nat(k) == 1);
        assert((64 - k) as nat == 64);
        let x = pow2_nat(64);
        assert(1 * x == x);
    }
}

/// Proof of the values of `2^64` and `1024^0` through `1024^5`.
proof fn lemma_power_values()
    ensures
        pow2_nat(64) == 0x1_0000_0000_0000_0000,
        pow1024(0) == 1,
        pow1024(1) == 1024,
        pow1024(2) == 1048576,
        pow1024(3) == 1073741824,
        pow1024(4) == 1099511627776,
        pow1024(5) == 1125899906842624,
{
    reveal_with_fuel(pow2_nat, 65);
    reveal_with_fuel(pow1024, 6);
}

/// Proof that rounding the quotient up still fits: `(bytes / p + 1) * p <= 2^64`
/// when `p` divides `2^64`.
proof fn lemma_round_up_fits(bytes: nat, p: nat, m: nat)
    requires
        p >= 1,
        p * m == 0x1_0000_0000_0000_0000,
        bytes < 0x1_0000_0000_0000_0000,
    ensures
        (bytes / p + 1) * p <= 0x1_0000_0000_0000_0000,
{
    let q = bytes / p;
    vstd::arithmetic::div_mod::lemma_fundamental_div_mod(bytes as int, p as int);
    assert(q * p <= bytes);
    assert(q < m) by (nonlinear_arith)
        requires
            q * p <= bytes,
            bytes < p * m,
            p >= 1,
    ;
    assert((q + 1) * p <= 0x1_0000_0000_0000_0000) by (nonlinear_arith)
        requires
            q + 1 <= m,
            p * m == 0x1_0000_0000_0000_0000,
    ;
}

/// The `f64` nearest to `bytes` (see `f64_nearest`).
fn nearest_f64_value(bytes: u64) -> (res: u128)
    ensures
        res == f64_nearest(bytes as nat),
        res <= 0x1_0000_0000_0000_0000,
        bytes >= 1024 ==> res >= 1024,
{
    let mut t: u64 = bytes;
    let mut p: u64 = 1;
    let ghost mut k: nat = 0;
    while t >= 0x20_0000_0000_0000
        invariant
            p == pow2_nat(k),
            p >= 1,
            k <= 12,
            t as nat == bytes as nat / p as nat,
            f64_shift(bytes as nat) == k + f64_shift(t as nat),
            p < 0x1000,
            p == 1 || bytes >= 0x20_0000_0000_0000,
        decreases t,
    {
        proof {
            lemma_div_denominator(bytes as int, p as int, 2);
            vstd::arithmetic::div_mod::lemma_fundamental_div_mod(bytes as int, p as int);
            assert(p < 0x800) by (nonlinear_arith)
                requires
                    (t as nat) * (p as nat) <= bytes as nat,
                    t >= 0x20_0000_0000_0000,
                    bytes <= u64::MAX,
            ;
            if k >= 11 {
                assert(pow2_nat(11) == 0x800) by {
                    reveal_with_fuel(pow2_nat, 12);
                }
                lemma_pow2_monotone(11, k);
            }
        }
        t = t / 2;
        p = p * 2;
        proof {
            k = k + 1;
        }
    }
    let q = (bytes / p) as u128;
    let r = (bytes % p) as u128;
    let pp = p as u128;
    proof {
        vstd::arithmetic::div_mod::lemma_fundamental_div_mod(bytes as int, p as int);
        lemma_pow2_split(k);
        lemma_power_values();
        lemma_round_up_fits(bytes as nat, p as nat, pow2_nat((64 - k) as nat));
        assert(q * pp <= bytes) by (nonlinear_arith)
            requires
                q * pp + r == bytes,
                r >= 0,
        ;
    }
    let rounded = if r > pp - r || (r == pp - r && q % 2 == 1) {
        q + 1
    } else {
        q
    };
    proof {
        assert(rounded == round_half_even(bytes as nat, p as nat));
        assert(rounded * pp <= 0x1_0000_0000_0000_0000) by (nonlinear_arith)
            requires
                rounded <= q + 1,
                (q + 1) * pp <= 0x1_0000_0000_0000_0000,
                pp >= 1,
        ;
        if bytes >= 1024 {
            if p == 1 {
                assert(rounded == bytes);
            } else {
                assert(rounded * pp >= 1024) by (nonlinear_arith)
                    requires
                        rounded >= q,
                        q * pp + r == bytes,
                        r < pp,
                        pp < 0x1000,
                        bytes >= 0x20_0000_0000_0000,
                ;
            }
        }
    }
    rounded * pp
}

/// Proof that `2^a <= 2^b` for `a <= b`.
proof fn lemma_pow2_monotone(a: nat, b: nat)
    requires
        a <= b,
    ensures
        pow2_nat(a) <= pow2_nat(b),
    decreases b,
{
    if a < b {
        lemma_pow2_monotone(a, (b - 1) as nat);
    }
}

/// The human rendering of a byte count (see `format_size_seq`), e.g. `512 B`,
/// `1.5 KB`, `10 MB`.
pub fn format_size(bytes: u64) -> (res: String)
    ensures
        res@ == format_size_seq(bytes as nat),
{
    let f = nearest_f64_value(bytes);
    let mut d: u128 = 1;
    let mut k: u64 = 0;
    proof {
        lemma_power_values();
    }
    while k < 5 && f >= d * 1024
        invariant
            k <= 5,
            d == pow1024(k as nat),
            d <= 1125899906842624,
            k > 0 ==> f >= d,
            unit_index_from(f as nat, 0) == unit_index_from(f as nat, k as nat),
            f <= 0x1_0000_0000_0000_0000,
            pow1024(5) == 1125899906842624,
            pow1024(4) == 1099511627776,
        decreases 5 - k,
    {
        proof {
            assert(pow1024((k + 1) as nat) == 1024 * pow1024(k as nat));
            if k < 4 {
                lemma_pow1024_monotone((k + 1) as nat, 5);
            }
        }
        d = d * 1024;
        k = k + 1;
    }
    proof {
        assert(unit_index_from(f as nat, k as nat) == k);
    }
    let mut out = String::new();
    if k == 0 {
        proof {
            assert(f < 1024);
        }
        out = u64_to_decimal(bytes);
        push_char(&mut out, ' ');
        push_unit(&mut out, 0);
        return out;
    }
    let whole = f / d;
    let rem = f % d;
    proof {
        assert(d >= 1024) by {
            lemma_pow1024_monotone(1, k as nat);
        }
    }
    if whole >= 10 || rem == 0 {
        let n = round_half_even_u128(f, d);
        proof {
            assert(n <= f / d + 1);
            assert(n <= 0x40_0000_0000_0001) by (nonlinear_arith)
                requires
                    n <= f / d + 1,
                    d >= 1024,
                    f <= 0x1_0000_0000_0000_0000,
            ;
        }
        out = u64_to_decimal(n as u64);
        push_char(&mut out, ' ');
        push_unit(&mut out, k);
        out
    } else {
        let n = round_half_even_u128(10 * f, d);
        proof {
            assert(n <= (10 * f) / (d as int) + 1);
            assert(n <= 110) by (nonlinear_arith)
                requires
                    n <= (10 * f) / (d as int) + 1,
                    f / d < 10,
                    d >= 1,
            ;
        }
        out = u64_to_decimal((n / 10) as u64);
        push_char(&mut out, '.');
        out.append(u64_to_decimal((n % 10) as u64).as_str());
        push_char(&mut out, ' ');
        push_unit(&mut out, k);
        out
    }
}

/// Proof that `1024^a <= 1024^b` for `a <= b`.
proof fn lemma_pow1024_monotone(a: nat, b: nat)
    requires
        a <= b,
    ensures
        pow1024(a) <= pow1024(b),
    decreases b,
{
    if a < b {
        lemma_pow1024_monotone(a, (b - 1) as nat);
    }
}


/// How a progress event changes the count of transferred bytes.
#[derive(Debug, Clone, Copy, PartialEq, Eq, Structural)]
pub enum ProgressUpdate {
    /// The count stays.
    Keep,
    /// The count becomes the given value.
    Position(u64),
    /// The count grows by the given value, stopping at `u64::MAX`.
    Advance(u64),
}

/// The state behind JSON-lines progress events.
#[derive(Debug, Clone, PartialEq, Eq)]
pub struct JsonlProgressState {
    pub operation: String,
    pub path: String,
    pub total_bytes: Option<u64>,
    pub last_transferred: u64,
}

/// The transferred-byte count after `update`.
pub open spec fn updated_transferred(last: u64, update: ProgressUpdate) -> u64 {
    match update {
        ProgressUpdate::Keep => last,
        ProgressUpdate::Position(v) => v,
        ProgressUpdate::Advance(d) => if last + d > u64::MAX {
            u64::MAX
        } else {
            (last + d) as u64
        },
    }
}

impl JsonlProgressState {
    /// The state of a new JSON-lines reporter: nothing transferred yet.
    pub fn new(operation: String, path: String, total_bytes: Option<u64>) -> (res: JsonlProgressState)
        ensures
            res.operation == operation,
            res.path == path,
            res.total_bytes == total_bytes,
            res.last_transferred == 0,
    {
        JsonlProgressState { operation, path, total_bytes, last_transferred: 0 }
    }

    /// Applies a progress update to the transferred-byte count; the rest stays.
    pub fn apply(&mut self, update: ProgressUpdate)
        ensures
            final(self).last_transferred == updated_transferred(old(self).last_transferred, update),
            final(self).operation == old(self).operation,
            final(self).path == old(self).path,
            final(self).total_bytes == old(self).total_bytes,
    {
        match update {
            ProgressUpdate::Keep => {},
            ProgressUpdate::Position(v) => {
                self.last_transferred = v;
            },
            ProgressUpdate::Advance(d) => {
                self.last_transferred = self.last_transferred.saturating_add(d);
            },
        }
    }
}


/// The option keyword that names a conflict policy.
pub open spec fn conflict_policy_name(p: ConflictPolicy) -> Seq<char> {
    match p {
        ConflictPolicy::Prompt => "prompt"@,
        ConflictPolicy::Overwrite => "overwrite"@,
        ConflictPolicy::Uniquify => "uniquify"@,
        ConflictPolicy::Fail => "fail"@,
    }
}

/// The option keyword that names a download mode.
pub open spec fn download_mode_name(m: DownloadMode) -> Seq<char> {
    match m {
        DownloadMode::Auto => "auto"@,
        DownloadMode::Parallel => "parallel"@,
        DownloadMode::Sequential => "sequential"@,
    }
}

/// The option keyword that names a progress mode.
pub open spec fn progress_mode_name(m: ProgressMode) -> Seq<char> {
    match m {
        ProgressMode::Auto => "auto"@,
        ProgressMode::Jsonl => "jsonl"@,
        ProgressMode::Off => "none"@,
    }
}

/// Law: `--conflict` reads a keyword as the policy of that name and nothing
/// else: a keyword names policy `p` exactly when it is `p`'s name, so the four
/// names pick four different policies.
pub proof fn law_conflict_keywords_name_their_policy(k: Seq<char>, p: ConflictPolicy, q: ConflictPolicy)
    ensures
        conflict_policy_keyword(k) == Some(p) <==> k == conflict_policy_name(p),
        conflict_policy_name(p) == conflict_policy_name(q) ==> p == q,
{
    reveal_strlit("prompt");
    reveal_strlit("overwrite");
    reveal_strlit("uniquify");
    reveal_strlit("fail");
    let names = seq!["prompt"@, "overwrite"@, "uniquify"@, "fail"@];
    assert forall|i: int, j: int| 0 <= i < j < 4 implies names[i] != names[j] by {
        assert(names[i].len() != names[j].len());
    }
    assert(names[0] != names[1] && names[0] != names[2] && names[0] != names[3]);
    assert(names[1] != names[2] && names[1] != names[3] && names[2] != names[3]);
}

/// Law: `--mode` reads a keyword as the download mode of that name and nothing
/// else: a keyword names mode `m` exactly when it is `m`'s name, so the three
/// names pick three different modes.
pub proof fn law_download_keywords_name_their_mode(k: Seq<char>, m: DownloadMode, n: DownloadMode)
    ensures
        download_mode_keyword(k) == Some(m) <==> k == download_mode_name(m),
        download_mode_name(m) == download_mode_name(n) ==> m == n,
{
    reveal_strlit("auto");
    reveal_strlit("parallel");
    reveal_strlit("sequential");
    assert("auto"@.len() != "parallel"@.len());
    assert("auto"@.len() != "sequential"@.len());
    assert("parallel"@.len() != "sequential"@.len());
    assert("auto"@ != "parallel"@ && "auto"@ != "sequential"@ && "parallel"@ != "sequential"@);
}

/// Law: `--progress` reads a keyword as the progress mode of that name and
/// nothing else (`none` turns progress off); the three names pick three
/// different modes.
pub proof fn law_progress_keywords_name_their_mode(k: Seq<char>, m: ProgressMode, n: ProgressMode)
    ensures
        progress_mode_keyword(k) == Some(m) <==> k == progress_mode_name(m),
        progress_mode_name(m) == progress_mode_name(n) ==> m == n,
{
    reveal_strlit("auto");
    reveal_strlit("jsonl");
    reveal_strlit("none");
    assert("auto"@[0] != "none"@[0]);
    assert("auto"@.len() != "jsonl"@.len());
    assert("none"@.len() != "jsonl"@.len());
    assert("auto"@ != "jsonl"@ && "auto"@ != "none"@ && "jsonl"@ != "none"@);
}

} // verus!
