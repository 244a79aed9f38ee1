//! HTTP header values that the transfer logic reads: `Content-Range` totals,
//! `Content-Disposition` file names, and the percent-encoding inside them.
use vstd::prelude::*;
use vstd::utf8::{decode_utf8, encode_utf8, valid_utf8};

use crate::text::{find_char, first_index_of, has_prefix, rfind_char, strip_prefix, trim, trim_end_char, trim_end_char_seq, trim_seq};

verus! {

/// The value of a hexadecimal digit byte, if it is one.
pub open spec fn hex_digit_value(b: u8) -> Option<u8> {
    if 48 <= b <= 57 {
        Some((b - 48) as u8)
    } else if 97 <= b <= 102 {
        Some((b - 87) as u8)
    } else if 65 <= b <= 70 {
        Some((b - 55) as u8)
    } else {
        None
    }
}

/// The bytes that percent-decoding gives: `%XY` with two hex digits becomes the
/// byte `0xXY`, `+` becomes a space, and every other byte stays.
pub open spec fn percent_decode_bytes(b: Seq<u8>) -> Seq<u8>
    decreases b.len(),
{
    if b.len() == 0 {
        Seq::empty()
    } else if b[0] == 37 && 2 < b.len() && hex_digit_value(b[1]) is Some && hex_digit_value(b[2]) is Some {
        seq![(hex_digit_value(b[1])->0 * 16 + hex_digit_value(b[2])->0) as u8] + percent_decode_bytes(b.skip(3))
    } else {
        seq![if b[0] == 43 {
            32u8
        } else {
            b[0]
        }] + percent_decode_bytes(b.skip(1))
    }
}

/// What `String::from_utf8_lossy` makes of a byte sequence.
pub uninterp spec fn utf8_lossy(bytes: Seq<u8>) -> Seq<char>;

/// `String::from_utf8_lossy`. The contract names its result `utf8_lossy(bytes)`
/// and states what std documents: valid UTF-8 decodes unchanged. How invalid
/// sequences are replaced by U+FFFD is left unsaid.
#[verifier::external_body]
fn from_utf8_lossy(bytes: &[u8]) -> (res: String)
    ensures
        res@ == utf8_lossy(bytes@),
        valid_utf8(bytes@) ==> res@ == decode_utf8(bytes@),
{
    String::from_utf8_lossy(bytes).into_owned()
}

/// The decimal value of a sequence of ASCII digit characters.
pub open spec fn digits_value(d: Seq<char>) -> nat
    decreases d.len(),
{
    if d.len() == 0 {
        0
    } else {
        digits_value(d.drop_last()) * 10 + ((d.last() as u32) - 48) as nat
    }
}

/// Every character of `d` is an ASCII digit.
pub open spec fn all_digits(d: Seq<char>) -> bool {
    forall|i: int| 0 <= i < d.len() ==> '0' <= #[trigger] d[i] && d[i] <= '9'
}

/// What `str::parse::<u64>` accepts: an optional `+`, then one or more ASCII digits
/// whose value fits in a `u64`.
pub open spec fn parse_u64_seq(s: Seq<char>) -> Option<u64> {
    let d = if s.len() > 0 && s[0] == '+' {
        s.skip(1)
    } else {
        s
    };
    if d.len() > 0 && all_digits(d) && digits_value(d) <= u64::MAX {
        Some(digits_value(d) as u64)
    } else {
        None
    }
}

/// The total length in a `Content-Range` value: the number after its last `/`.
pub open spec fn content_range_total_seq(v: Seq<char>) -> Option<u64> {
    match crate::text::last_index_of(v, '/') {
        Some(i) => parse_u64_seq(v.skip(i + 1)),
        None => None,
    }
}

/// The file name that one `;`-separated part of a `Content-Disposition` value gives:
/// the text after `filename*=UTF-8''`, `filename="` or `filename=`, without trailing quotes.
#[verifier::opaque]
pub open spec fn disposition_part_name(part: Seq<char>) -> Option<Seq<char>> {
    let t = trim_seq(part);
    if has_prefix(t, "filename*=UTF-8''"@) {
        Some(trim_end_char_seq(t.skip("filename*=UTF-8''"@.len() as int), '"'))
    } else if has_prefix(t, "filename=\""@) {
        Some(trim_end_char_seq(t.skip("filename=\""@.len() as int), '"'))
    } else if has_prefix(t, "filename="@) {
        Some(trim_end_char_seq(t.skip("filename="@.len() as int), '"'))
    } else {
        None
    }
}

/// The name given by the first `;`-separated part of `v` that names a file.
#[verifier::opaque]
pub open spec fn first_disposition_name(v: Seq<char>) -> Option<Seq<char>>
    decreases v.len(),
{
    match crate::text::first_index_of(v, ';') {
        Some(i) => match disposition_part_name(v.take(i)) {
            Some(n) => Some(n),
            None => if 0 <= i < v.len() {
                first_disposition_name(v.skip(i + 1))
            } else {
                None
            },
        },
        None => disposition_part_name(v),
    }
}

/// The value of a hexadecimal digit byte.
pub fn hex_value(byte: u8) -> (res: Option<u8>)
    ensures
        res == hex_digit_value(byte),
{
    if 48 <= byte && byte <= 57 {
        Some(byte - 48)
    } else if 97 <= byte && byte <= 102 {
        Some(byte - 87)
    } else if 65 <= byte && byte <= 70 {
        Some(byte - 55)
    } else {
        None
    }
}

/// The bytes of `value` with `%XX` escapes decoded and `+` read as a space.
pub fn percent_decoded_bytes(value: &str) -> (res: Vec<u8>)
    ensures
        res@ == percent_decode_bytes(encode_utf8(value@)),
{
    let bytes = value.as_bytes();
    let ghost b = bytes@;
    let mut decoded: Vec<u8> = Vec::new();
    let mut index: usize = 0;
    proof {
        assert(b.skip(0) =~= b);
    }
    while index < bytes.len()
        invariant
            b == bytes@,
            index <= b.len(),
            decoded@ + percent_decode_bytes(b.skip(index as int)) == percent_decode_bytes(b),
        decreases b.len() - index,
    {
        let ghost rest = b.skip(index as int);
        if bytes[index] == 37 && bytes.len() - index > 2 {
            match (hex_value(bytes[index + 1]), hex_value(bytes[index + 2])) {
                (Some(high), Some(low)) => {
                    proof {
                        assert(rest[0] == 37 && rest[1] == bytes@[index + 1] && rest[2] == bytes@[index + 2]);
                        assert(rest.skip(3) =~= b.skip(index + 3));
                        assert(decoded@.push((high * 16 + low) as u8) + percent_decode_bytes(rest.skip(3))
                            =~= decoded@ + percent_decode_bytes(rest));
                    }
                    decoded.push(high * 16 + low);
                    index = index + 3;
                    continue;
                },
                _ => {},
            }
        }
        let c = if bytes[index] == 43 {
            32u8
        } else {
            bytes[index]
        };
        proof {
            assert(rest[0] == bytes@[index as int]);
            assert(rest.skip(1) =~= b.skip(index + 1));
            assert(decoded@.push(c) + percent_decode_bytes(rest.skip(1)) =~= decoded@ + percent_decode_bytes(rest));
        }
        decoded.push(c);
        index = index + 1;
    }
    proof {
        assert(b.skip(b.len() as int) =~= Seq::<u8>::empty());
        assert(decoded@ + Seq::<u8>::empty() =~= decoded@);
    }
    decoded
}

/// Percent-decodes `value`'s UTF-8 bytes and reads the result as UTF-8, replacing
/// invalid sequences as `String::from_utf8_lossy` does.
pub fn percent_decode(value: &str) -> (res: String)
    ensures
        res@ == utf8_lossy(percent_decode_bytes(encode_utf8(value@))),
        valid_utf8(percent_decode_bytes(encode_utf8(value@))) ==> res@ == decode_utf8(
            percent_decode_bytes(encode_utf8(value@)),
        ),
{
    let decoded = percent_decoded_bytes(value);
    from_utf8_lossy(decoded.as_slice())
}

/// Proof that the value of a digit prefix never exceeds the value of the whole.
proof fn lemma_digits_value_monotone(d: Seq<char>, i: int)
    requires
        0 <= i <= d.len(),
        all_digits(d),
    ensures
        digits_value(d.take(i)) <= digits_value(d),
    decreases d.len() - i,
{
    if i < d.len() {
        lemma_digits_value_monotone(d, i + 1);
        assert(d.take(i + 1).drop_last() =~= d.take(i));
        assert('0' <= d[i] && d[i] <= '9');
    } else {
        assert(d.take(i) =~= d);
    }
}

/// Parses a `u64` the way `str::parse::<u64>` does.
pub fn parse_u64(s: &str) -> (res: Option<u64>)
    ensures
        res == parse_u64_seq(s@),
{
    let n = s.unicode_len();
    let mut i: usize = 0;
    if n > 0 && s.get_char(0) == '+' {
        i = 1;
    }
    let ghost d = if s@.len() > 0 && s@[0] == '+' {
        s@.skip(1)
    } else {
        s@
    };
    let first = i;
    if first == n {
        proof {
            assert(d.len() == 0);
        }
        return None;
    }
    let mut acc: u64 = 0;
    proof {
        assert(d.take(0) =~= Seq::<char>::empty());
    }
    while i < n
        invariant
            n == s@.len(),
            first <= i <= n,
            first < n,
            d == s@.skip(first as int),
            d == (if s@.len() > 0 && s@[0] == '+' {
                s@.skip(1)
            } else {
                s@
            }),
            forall|k: int| first <= k < i ==> '0' <= #[trigger] s@[k] && s@[k] <= '9',
            acc as nat == digits_value(d.take(i - first)),
        decreases n - i,
    {
        let c = s.get_char(i);
        if !('0' <= c && c <= '9') {
            proof {
                assert(d[i - first] == c);
                assert(!all_digits(d));
            }
            return None;
        }
        let dv: u64 = (c as u32 - 48) as u64;
        proof {
            assert(d.take(i - first + 1).drop_last() =~= d.take(i - first));
            assert(d.take(i - first + 1).last() == c);
        }
        let next = match acc.checked_mul(10) {
            Some(m) => m.checked_add(dv),
            None => None,
        };
        match next {
            Some(v) => {
                acc = v;
            },
            None => {
                proof {
                    assert(digits_value(d.take(i - first + 1)) == acc * 10 + dv);
                    if all_digits(d) {
                        lemma_digits_value_monotone(d, i - first + 1);
                    }
                }
                return None;
            },
        }
        i = i + 1;
    }
    proof {
        assert(d.take(n - first) =~= d);
        assert forall|k: int| 0 <= k < d.len() implies '0' <= #[trigger] d[k] && d[k] <= '9' by {
            assert(d[k] == s@[first + k]);
        }
    }
    Some(acc)
}

/// The total length announced by a `Content-Range` value such as `bytes 0-0/12345`.
pub fn parse_total_bytes_from_content_range(header_value: &str) -> (res: Option<u64>)
    ensures
        res == content_range_total_seq(header_value@),
{
    let n = header_value.unicode_len();
    match rfind_char(header_value, '/') {
        Some(i) => parse_u64(header_value.substring_char(i + 1, n)),
        None => None,
    }
}

/// The file name of one `;`-separated part of a `Content-Disposition` value.
fn disposition_name(part: &str) -> (res: Option<&str>)
    ensures
        match res {
            Some(n) => disposition_part_name(part@) == Some(n@),
            None => disposition_part_name(part@) is None,
        },
{
    proof {
        reveal(disposition_part_name);
    }
    let t = trim(part);
    if let Some(rest) = strip_prefix(t, "filename*=UTF-8''") {
        return Some(trim_end_char(rest, '"'));
    }
    if let Some(rest) = strip_prefix(t, "filename=\"") {
        return Some(trim_end_char(rest, '"'));
    }
    if let Some(rest) = strip_prefix(t, "filename=") {
        return Some(trim_end_char(rest, '"'));
    }
    None
}

/// Proof of how the first naming part is found: a part that names a file ends the
/// search, any other part is skipped together with its `;`.
proof fn lemma_first_disposition_step(v: Seq<char>, i: int)
    requires
        first_index_of(v, ';') == Some(i),
        0 <= i < v.len(),
    ensures
        disposition_part_name(v.take(i)) is Some ==> first_disposition_name(v) == disposition_part_name(v.take(i)),
        disposition_part_name(v.take(i)) is None ==> first_disposition_name(v) == first_disposition_name(v.skip(i + 1)),
{
    reveal(first_disposition_name);
}

/// Proof that without any `;` the whole value is the only part.
proof fn lemma_first_disposition_last(v: Seq<char>)
    requires
        first_index_of(v, ';') is None,
    ensures
        first_disposition_name(v) == disposition_part_name(v),
{
    reveal(first_disposition_name);
}

/// The file name given by the first part of a `Content-Disposition` value that names one.
#[verifier::rlimit(100)]
#[verifier::spinoff_prover]
fn find_disposition_name(value: &str) -> (res: Option<&str>)
    ensures
        match res {
            Some(n) => first_disposition_name(value@) == Some(n@),
            None => first_disposition_name(value@) is None,
        },
{
    let n = value.unicode_len();
    let mut start: usize = 0;
    proof {
        assert(value@.skip(0) =~= value@);
    }
    loop
        invariant
            n == value@.len(),
            start <= n,
            first_disposition_name(value@) == first_disposition_name(value@.skip(start as int)),
        decreases n - start,
    {
        let rest = value.substring_char(start, n);
        proof {
            assert(rest@ =~= value@.skip(start as int));
        }
        match find_char(rest, ';') {
            Some(i) => {
                let part = rest.substring_char(0, i);
                proof {
                    lemma_first_disposition_step(rest@, i as int);
                }
                match disposition_name(part) {
                    Some(name) => {
                        return Some(name);
                    },
                    None => {
                        proof {
                            assert(rest@.skip(i + 1) =~= value@.skip(start + i + 1));
                        }
                        start = start + i + 1;
                    },
                }
            },
            None => {
                proof {
                    lemma_first_disposition_last(rest@);
                }
                return disposition_name(rest);
            },
        }
    }
}

/// The file name a `Content-Disposition` value announces, percent-decoded; `None`
/// when no part names a file or the decoded name is empty.
pub open spec fn disposition_file_name(value: Seq<char>) -> Option<Seq<char>> {
    match first_disposition_name(value) {
        Some(n) => {
            let decoded = utf8_lossy(percent_decode_bytes(encode_utf8(n)));
            if decoded.len() > 0 {
                Some(decoded)
            } else {
                None
            }
        },
        None => None,
    }
}

/// The file name a `Content-Disposition` value announces, percent-decoded; `None`
/// when no part names a file or the decoded name is empty.
pub fn parse_filename_from_content_disposition(value: &str) -> (res: Option<String>)
    ensures
        match disposition_file_name(value@) {
            Some(n) => res matches Some(r) && r@ == n,
            None => res is None,
        },
        match first_disposition_name(value@) {
            Some(n) => valid_utf8(percent_decode_bytes(encode_utf8(n))) ==> disposition_file_name(value@) == (if decode_utf8(
                percent_decode_bytes(encode_utf8(n)),
            ).len() > 0 {
                Some(decode_utf8(percent_decode_bytes(encode_utf8(n))))
            } else {
                None
            }),
            None => true,
        },
{
    match find_disposition_name(value) {
        Some(name) => {
            let decoded = percent_decode(name);
            if decoded.unicode_len() == 0 {
                None
            } else {
                Some(decoded)
            }
        },
        None => None,
    }
}

} // verus!
