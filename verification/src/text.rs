//! Small text routines: searching a message for a word, reading numbers and flags from
//! configuration values, and writing a number in decimal.
//!
//! Contracts speak of a string's UTF-8 bytes. A byte of a multi-byte character is never an
//! ASCII digit, sign or letter, so reading bytes loses nothing.

use vstd::prelude::*;
use vstd::string::StringExecFns;
use vstd::string::StringSliceAdditionalSpecFns;

verus! {

/// Whether `needle` stands in `hay` at byte offset `at`.
pub open spec fn occurs_at(needle: Seq<u8>, hay: Seq<u8>, at: int) -> bool {
    &&& 0 <= at
    &&& at + needle.len() <= hay.len()
    &&& hay.subrange(at, at + needle.len()) == needle
}

/// Whether `needle` stands somewhere in `hay`.
pub open spec fn occurs_in(needle: Seq<u8>, hay: Seq<u8>) -> bool {
    exists|at: int| occurs_at(needle, hay, at)
}

/// Whether the bytes of `needle` occur in `hay`.
pub fn bytes_contain(hay: &[u8], needle: &[u8]) -> (found: bool)
    ensures
        found == occurs_in(needle@, hay@),
{
    let n = needle.len();
    let h = hay.len();
    if n > h {
        assert forall|at: int| !occurs_at(needle@, hay@, at) by {}
        return false;
    }
    let last = h - n;
    let mut i: usize = 0;
    while i <= last
        invariant
            n == needle@.len(),
            h == hay@.len(),
            n <= h,
            last == h - n,
            i <= last + 1,
            forall|at: int| 0 <= at < i ==> !occurs_at(needle@, hay@, at),
        decreases last + 1 - i,
    {
        let mut j: usize = 0;
        while j < n && hay[i + j] == needle[j]
            invariant
                n == needle@.len(),
                h == hay@.len(),
                i + n <= h,
                j <= n,
                forall|t: int| 0 <= t < j ==> hay@[i + t] == needle@[t],
            decreases n - j,
        {
            j = j + 1;
        }
        if j == n {
            assert(hay@.subrange(i as int, i + n) =~= needle@);
            assert(occurs_at(needle@, hay@, i as int));
            return true;
        }
        assert(!occurs_at(needle@, hay@, i as int)) by {
            if occurs_at(needle@, hay@, i as int) {
                assert(hay@.subrange(i as int, i + n)[j as int] == hay@[i + j]);
            }
        }
        i = i + 1;
    }
    assert forall|at: int| !occurs_at(needle@, hay@, at) by {}
    false
}

/// Whether `needle` occurs in `hay`, as `str::contains` tells it.
pub fn str_contains(hay: &str, needle: &str) -> (found: bool)
    ensures
        found == occurs_in(needle.spec_bytes(), hay.spec_bytes()),
{
    bytes_contain(hay.as_bytes(), needle.as_bytes())
}

/// Whether the two byte strings are the same.
pub fn bytes_equal(a: &[u8], b: &[u8]) -> (same: bool)
    ensures
        same == (a@ == b@),
{
    if a.len() != b.len() {
        return false;
    }
    let mut i: usize = 0;
    while i < a.len()
        invariant
            a@.len() == b@.len(),
            i <= a@.len(),
            forall|t: int| 0 <= t < i ==> a@[t] == b@[t],
        decreases a@.len() - i,
    {
        if a[i] != b[i] {
            return false;
        }
        i = i + 1;
    }
    assert(a@ =~= b@);
    true
}

/// An ASCII digit.
pub open spec fn is_digit(b: u8) -> bool {
    48 <= b <= 57
}

/// Whether every byte is an ASCII digit.
pub open spec fn all_digits(bytes: Seq<u8>) -> bool {
    forall|i: int| 0 <= i < bytes.len() ==> is_digit(#[trigger] bytes[i])
}

/// The number that a run of ASCII digits writes in decimal.
pub open spec fn digits_value(bytes: Seq<u8>) -> nat
    decreases bytes.len(),
{
    if bytes.len() == 0 {
        0
    } else {
        digits_value(bytes.drop_last()) * 10 + (bytes.last() - 48) as nat
    }
}

/// The text without one leading plus sign.
pub open spec fn unsigned_body(bytes: Seq<u8>) -> Seq<u8> {
    if bytes.len() > 0 && bytes[0] == 43 {
        bytes.drop_first()
    } else {
        bytes
    }
}

/// The number that a text denotes as an unsigned integer of at most `max`: an optional plus
/// sign, then at least one digit and nothing else. Any other text, and a number above `max`,
/// denotes nothing.
pub open spec fn parsed_unsigned(bytes: Seq<u8>, max: nat) -> Option<nat> {
    let body = unsigned_body(bytes);
    if body.len() > 0 && all_digits(body) && digits_value(body) <= max {
        Some(digits_value(body))
    } else {
        None
    }
}

/// A run of digits denotes at least what any of its beginnings denotes.
pub proof fn lemma_digits_value_grows(bytes: Seq<u8>, k: int)
    requires
        all_digits(bytes),
        0 <= k <= bytes.len(),
    ensures
        digits_value(bytes.subrange(0, k)) <= digits_value(bytes),
    decreases bytes.len(),
{
    if k == bytes.len() {
        assert(bytes.subrange(0, k) =~= bytes);
    } else {
        let head = bytes.drop_last();
        assert(head.subrange(0, k) =~= bytes.subrange(0, k));
        assert forall|i: int| 0 <= i < head.len() implies is_digit(#[trigger] head[i]) by {
            assert(head[i] == bytes[i]);
        }
        lemma_digits_value_grows(head, k);
        assert(is_digit(bytes[bytes.len() - 1]));
    }
}

/// Reads an unsigned integer as `str::parse::<u64>` does.
pub fn parse_u64(s: &str) -> (value: Option<u64>)
    ensures
        (match value {
            Some(v) => Some(v as nat),
            None => None::<nat>,
        }) == parsed_unsigned(s.spec_bytes(), u64::MAX as nat),
{
    let bytes = s.as_bytes();
    let len = bytes.len();
    let start: usize = if len > 0 && bytes[0] == 43 {
        1
    } else {
        0
    };
    let ghost body = unsigned_body(bytes@);
    assert(body =~= bytes@.subrange(start as int, len as int));
    if start == len {
        return None;
    }
    let mut acc: u64 = 0;
    let mut i: usize = start;
    while i < len
        invariant
            start <= i <= len,
            len == bytes@.len(),
            bytes@ == s.spec_bytes(),
            body == unsigned_body(bytes@),
            body == bytes@.subrange(start as int, len as int),
            all_digits(body.subrange(0, i - start)),
            acc == digits_value(body.subrange(0, i - start)),
        decreases len - i,
    {
        let b = bytes[i];
        let ghost upto = body.subrange(0, i - start);
        let ghost next = body.subrange(0, i + 1 - start);
        assert(next.drop_last() =~= upto);
        assert(next.last() == b);
        if b < 48 || b > 57 {
            assert(!all_digits(body)) by {
                assert(body[i - start] == b);
            }
            return None;
        }
        assert(all_digits(next)) by {
            assert forall|t: int| 0 <= t < next.len() implies is_digit(#[trigger] next[t]) by {
                if t < upto.len() {
                    assert(next[t] == upto[t]);
                }
            }
        }
        let digit: u64 = (b - 48) as u64;
        let grown = match acc.checked_mul(10) {
            Some(tens) => tens.checked_add(digit),
            None => None,
        };
        match grown {
            Some(v) => {
                acc = v;
            },
            None => {
                proof {
                    assert(digits_value(next) > u64::MAX);
                    if all_digits(body) {
                        lemma_digits_value_grows(body, i + 1 - start);
                    }
                }
                return None;
            },
        }
        i = i + 1;
    }
    assert(body.subrange(0, len - start) =~= body);
    Some(acc)
}

/// Reads an unsigned integer as `str::parse::<u32>` does.
pub fn parse_u32(s: &str) -> (value: Option<u32>)
    ensures
        (match value {
            Some(v) => Some(v as nat),
            None => None::<nat>,
        }) == parsed_unsigned(s.spec_bytes(), u32::MAX as nat),
{
    match parse_u64(s) {
        Some(v) => if v <= u32::MAX as u64 {
            Some(v as u32)
        } else {
            None
        },
        None => None,
    }
}

/// Reads an unsigned integer as `str::parse::<usize>` does.
pub fn parse_usize(s: &str) -> (value: Option<usize>)
    ensures
        (match value {
            Some(v) => Some(v as nat),
            None => None::<nat>,
        }) == parsed_unsigned(s.spec_bytes(), usize::MAX as nat),
{
    match parse_u64(s) {
        Some(v) => if v <= usize::MAX as u64 {
            Some(v as usize)
        } else {
            None
        },
        None => None,
    }
}

/// The bytes of `true`.
pub open spec fn true_bytes() -> Seq<u8> {
    seq![116u8, 114u8, 117u8, 101u8]
}

/// The bytes of `false`.
pub open spec fn false_bytes() -> Seq<u8> {
    seq![102u8, 97u8, 108u8, 115u8, 101u8]
}

/// The flag that a text denotes: `true`, `false`, or nothing.
pub open spec fn parsed_flag(bytes: Seq<u8>) -> Option<bool> {
    if bytes == true_bytes() {
        Some(true)
    } else if bytes == false_bytes() {
        Some(false)
    } else {
        None
    }
}

/// Reads a flag as `str::parse::<bool>` does.
pub fn parse_bool(s: &str) -> (value: Option<bool>)
    ensures
        value == parsed_flag(s.spec_bytes()),
{
    let b = s.as_bytes();
    if b.len() == 4 && b[0] == 116 && b[1] == 114 && b[2] == 117 && b[3] == 101 {
        assert(b@ =~= true_bytes());
        Some(true)
    } else if b.len() == 5 && b[0] == 102 && b[1] == 97 && b[2] == 108 && b[3] == 115 && b[4]
        == 101 {
        assert(b@ =~= false_bytes());
        Some(false)
    } else {
        assert(b@ != true_bytes()) by {
            if b@ == true_bytes() {
                assert(b@.len() == 4);
                assert(b@[0] == 116 && b@[1] == 114 && b@[2] == 117 && b@[3] == 101);
            }
        }
        assert(b@ != false_bytes()) by {
            if b@ == false_bytes() {
                assert(b@.len() == 5);
                assert(b@[0] == 102 && b@[1] == 97 && b@[2] == 108 && b@[3] == 115 && b@[4]
                    == 101);
            }
        }
        None
    }
}

/// The text of one decimal digit; of 9 for anything above.
pub open spec fn digit_text(d: nat) -> Seq<char> {
    if d == 0 {
        "0"@
    } else if d == 1 {
        "1"@
    } else if d == 2 {
        "2"@
    } else if d == 3 {
        "3"@
    } else if d == 4 {
        "4"@
    } else if d == 5 {
        "5"@
    } else if d == 6 {
        "6"@
    } else if d == 7 {
        "7"@
    } else if d == 8 {
        "8"@
    } else {
        "9"@
    }
}

/// A number written in decimal, without leading zeros.
pub open spec fn decimal_text(n: nat) -> Seq<char>
    decreases n,
{
    if n < 10 {
        digit_text(n)
    } else {
        decimal_text(n / 10) + digit_text(n % 10)
    }
}

/// The text of the digit `d`; of 9 for anything above.
pub fn digit_str(d: u64) -> (text: &'static str)
    ensures
        text@ == digit_text(d as nat),
{
    if d == 0 {
        "0"
    } else if d == 1 {
        "1"
    } else if d == 2 {
        "2"
    } else if d == 3 {
        "3"
    } else if d == 4 {
        "4"
    } else if d == 5 {
        "5"
    } else if d == 6 {
        "6"
    } else if d == 7 {
        "7"
    } else if d == 8 {
        "8"
    } else {
        "9"
    }
}

/// Appends `n` in decimal to `out`.
pub fn push_decimal(out: &mut String, n: u64)
    ensures
        final(out)@ == old(out)@ + decimal_text(n as nat),
    decreases n,
{
    if n >= 10 {
        push_decimal(out, n / 10);
    }
    out.append(digit_str(n % 10));
    assert(final(out)@ =~= old(out)@ + decimal_text(n as nat));
}

/// `n` in decimal.
pub fn decimal_string(n: u64) -> (text: String)
    ensures
        text@ == decimal_text(n as nat),
{
    let mut out = String::new();
    push_decimal(&mut out, n);
    assert(out@ =~= decimal_text(n as nat));
    out
}

/// `left`, then `right`.
pub fn join(left: &str, right: &str) -> (text: String)
    ensures
        text@ == left@ + right@,
{
    let mut out = String::from_str(left);
    out.append(right);
    out
}

} // verus!
