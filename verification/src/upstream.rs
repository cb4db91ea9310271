//! Upstreams: which one a URL points at, and the breaker that each of them has.
//!
//! Every job that targets an upstream shares its breaker, so a breaker is looked up by the
//! upstream's key and lives as long as the registry does.

use crate::circuit_breaker::{BreakerView, CircuitBreaker, CircuitBreakerConfig};
use vstd::prelude::*;
use vstd::string::{StrSliceExecFns, StringExecFns, StringSliceAdditionalSpecFns};

verus! {

/// Whether `://` stands in `url` at `i`.
pub open spec fn mark_at(url: Seq<char>, i: int) -> bool {
    &&& 0 <= i
    &&& i + 3 <= url.len()
    &&& url[i] == ':'
    &&& url[i + 1] == '/'
    &&& url[i + 2] == '/'
}

/// A character that ends the part of a URL that names the upstream.
pub open spec fn is_stop(c: char) -> bool {
    c == '/' || c == '?' || c == '#'
}

/// Where the first `/`, `?` or `#` at or after `from` stands; the length of `url` where
/// there is none.
pub open spec fn stop_from(url: Seq<char>, from: int) -> int
    decreases url.len() - from,
{
    if from < 0 || from >= url.len() {
        url.len() as int
    } else if is_stop(url[from]) {
        from
    } else {
        stop_from(url, from + 1)
    }
}

/// Where the part of `url` that names the upstream ends. Where the first `/` of the URL
/// belongs to the `://` that ends a scheme, the part runs on to the first `/`, `?` or `#`
/// after that; otherwise it ends at the first of these that there is.
pub open spec fn key_end(url: Seq<char>) -> int {
    let first = stop_from(url, 0);
    if mark_at(url, first - 1) {
        stop_from(url, first + 2)
    } else {
        first
    }
}

/// The key of the upstream that `url` points at: scheme, host and port as they are written.
pub open spec fn upstream_of(url: Seq<char>) -> Seq<char> {
    url.subrange(0, key_end(url))
}

/// A stop found from `from` on stands at `from` or later, and none stands between.
pub proof fn lemma_stop_from_in_range(url: Seq<char>, from: int)
    requires
        0 <= from,
    ensures
        from <= stop_from(url, from) || stop_from(url, from) == url.len(),
        stop_from(url, from) <= url.len(),
        stop_from(url, from) < url.len() ==> is_stop(url[stop_from(url, from)]),
        forall|j: int| from <= j < stop_from(url, from) ==> !is_stop(url[j]),
    decreases url.len() - from,
{
    if from >= url.len() {
    } else if is_stop(url[from]) {
    } else {
        lemma_stop_from_in_range(url, from + 1);
    }
}

/// The first stop at or after `from` is where a search finds it: at a stop with none
/// between `from` and it, or at the end with none at all.
pub proof fn lemma_stop_from_is(url: Seq<char>, from: int, at: int)
    requires
        0 <= from <= at <= url.len(),
        forall|j: int| from <= j < at ==> !is_stop(url[j]),
        at < url.len() ==> is_stop(url[at]),
    ensures
        stop_from(url, from) == at,
    decreases at - from,
{
    if from < at {
        lemma_stop_from_is(url, from + 1, at);
    }
}

/// Two ASCII characters are the same exactly when their codes are.
pub proof fn lemma_ascii_code(c: char, d: char)
    requires
        (c as nat) < 128,
        (d as nat) < 128,
    ensures
        (c == d) <==> (c as u8 == d as u8),
{
}

/// The character of `url` at `i`, found fast where the URL is ASCII and by decoding from the
/// start where it is not.
fn char_at(url: &str, ascii: bool, i: usize) -> (c: char)
    requires
        ascii == url.is_ascii(),
        i < url@.len(),
    ensures
        c == url@[i as int],
{
    if ascii {
        let code = url.get_ascii(i);
        proof {
            vstd::utf8::is_ascii_chars_nat_bound(url@);
        }
        let c = code as char;
        assert(c == url@[i as int]) by {
            lemma_ascii_code(c, url@[i as int]);
        }
        c
    } else {
        url.get_char(i)
    }
}

/// Where the first stop of `url` at or after `from` stands.
fn find_stop(url: &str, ascii: bool, len: usize, from: usize) -> (at: usize)
    requires
        ascii == url.is_ascii(),
        len == url@.len(),
        from <= len,
    ensures
        at == stop_from(url@, from as int),
        from <= at <= len,
{
    let mut at: usize = from;
    let mut stopped = false;
    while !stopped && at < len
        invariant
            ascii == url.is_ascii(),
            len == url@.len(),
            from <= at <= len,
            stop_from(url@, from as int) == stop_from(url@, at as int),
            stopped ==> at < len && is_stop(url@[at as int]),
        decreases
                len - at + (if stopped {
                    0int
                } else {
                    1int
                }),
    {
        let c = char_at(url, ascii, at);
        if c == '/' || c == '?' || c == '#' {
            stopped = true;
        } else {
            at = at + 1;
        }
    }
    at
}

/// The key of the upstream that `url` points at.
pub fn upstream_key(url: &str) -> (key: String)
    ensures
        key@ == upstream_of(url@),
{
    let ascii = url.is_ascii();
    let len: usize = if ascii {
        proof {
            vstd::utf8::is_ascii_chars_encode_utf8(url@);
            assert(url.spec_bytes() == vstd::utf8::encode_utf8(url@));
        }
        url.as_bytes().len()
    } else {
        url.unicode_len()
    };
    let first = find_stop(url, ascii, len, 0);
    let scheme = first >= 1 && len - first >= 2 && char_at(url, ascii, first - 1) == ':'
        && char_at(url, ascii, first) == '/' && char_at(url, ascii, first + 1) == '/';
    assert(scheme == mark_at(url@, first - 1));
    let end = if scheme {
        find_stop(url, ascii, len, first + 2)
    } else {
        first
    };
    if ascii {
        String::from_str(url.substring_ascii(0, end))
    } else {
        String::from_str(url.substring_char(0, end))
    }
}

/// Whether the text begins with `//`.
pub open spec fn begins_with_slashes(rest: Seq<char>) -> bool {
    rest.len() >= 2 && rest[0] == '/' && rest[1] == '/'
}

/// All URLs of one upstream have one key: whatever path, query or fragment is put after the
/// key of a URL, the key of the result is the same. The rest begins with `/`, `?` or `#`, as
/// what follows the upstream's part of a URL does, and not with `//`.
pub proof fn lemma_key_ignores_the_rest(url: Seq<char>, rest: Seq<char>)
    requires
        rest.len() > 0 ==> is_stop(rest[0]),
        !begins_with_slashes(rest),
    ensures
        upstream_of(upstream_of(url) + rest) == upstream_of(url),
{
    let key = upstream_of(url);
    let whole = key + rest;
    lemma_stop_from_in_range(url, 0);
    let first = stop_from(url, 0);
    let end = key_end(url);
    if mark_at(url, first - 1) {
        lemma_stop_from_in_range(url, first + 2);
        assert(key.len() == end);
        assert forall|j: int| 0 <= j < end implies whole[j] == url[j] by {}
        lemma_stop_from_is(whole, 0, first);
        assert(mark_at(whole, first - 1));
        lemma_stop_from_is(whole, first + 2, end);
    } else {
        assert(end == first);
        assert(key.len() == end);
        assert forall|j: int| 0 <= j < end implies whole[j] == url[j] by {}
        lemma_stop_from_is(whole, 0, end);
        if mark_at(whole, end - 1) {
            assert(whole[end] == rest[0] && whole[end + 1] == rest[1]);
        }
    }
    assert(key_end(whole) == end);
    assert(whole.subrange(0, end) =~= key);
}

/// The breaker that a run of entries holds for `key`: that of the first entry with this
/// key, none where no entry has it.
pub open spec fn lookup(entries: Seq<(String, CircuitBreaker)>, key: Seq<char>) -> Option<
    BreakerView,
>
    decreases entries.len(),
{
    if entries.len() == 0 {
        None
    } else if entries[0].0@ == key {
        Some(entries[0].1@)
    } else {
        lookup(entries.drop_first(), key)
    }
}

/// The breakers of the upstreams seen so far.
pub struct BreakerRegistry {
    config: CircuitBreakerConfig,
    entries: Vec<(String, CircuitBreaker)>,
}

impl BreakerRegistry {
    /// The configuration that the breaker of a new upstream gets.
    pub closed spec fn config(&self) -> CircuitBreakerConfig {
        self.config
    }

    /// The breaker of the upstream with the given key: the one last stored for it, or a
    /// fresh one where none was.
    pub closed spec fn breaker_of(&self, key: Seq<char>) -> BreakerView {
        match lookup(self.entries@, key) {
            Some(b) => b,
            None => BreakerView::fresh(self.config),
        }
    }

    /// A registry that has seen no upstream.
    pub fn new(config: CircuitBreakerConfig) -> (r: BreakerRegistry)
        ensures
            r.config() == config,
            forall|key: Seq<char>| #[trigger] r.breaker_of(key) == BreakerView::fresh(config),
    {
        BreakerRegistry { config, entries: Vec::new() }
    }

    /// Where the first entry with `key` stands; the number of entries where there is none.
    fn position(&self, key: &String) -> (i: usize)
        ensures
            i <= self.entries@.len(),
            i < self.entries@.len() ==> self.entries@[i as int].0@ == key@ && lookup(
                self.entries@,
                key@,
            ) == Some(self.entries@[i as int].1@),
            i == self.entries@.len() ==> lookup(self.entries@, key@) is None,
            forall|j: int| 0 <= j < i ==> self.entries@[j].0@ != key@,
    {
        let n = self.entries.len();
        let mut i: usize = 0;
        while i < n
            invariant
                n == self.entries@.len(),
                i <= n,
                forall|j: int| 0 <= j < i ==> self.entries@[j].0@ != key@,
            decreases n - i,
        {
            if self.entries[i].0 == *key {
                proof {
                    lemma_lookup_finds_first(self.entries@, key@, i as int);
                }
                return i;
            }
            i = i + 1;
        }
        proof {
            lemma_lookup_misses(self.entries@, key@);
        }
        n
    }

    /// The breaker of the upstream with the given key, as it stands now.
    pub fn get(&self, key: &String) -> (b: CircuitBreaker)
        ensures
            b@ == self.breaker_of(key@),
    {
        let i = self.position(key);
        if i < self.entries.len() {
            self.entries[i].1
        } else {
            CircuitBreaker::with_config(self.config)
        }
    }

    /// Stores the breaker of the upstream with the given key. No other upstream's breaker
    /// changes.
    pub fn set(&mut self, key: &String, breaker: CircuitBreaker)
        ensures
            final(self).config() == old(self).config(),
            final(self).breaker_of(key@) == breaker@,
            forall|other: Seq<char>|
                other != key@ ==> #[trigger] final(self).breaker_of(other) == old(self).breaker_of(
                    other,
                ),
    {
        let i = self.position(key);
        let ghost before = self.entries@;
        if i < self.entries.len() {
            let name = self.entries[i].0.clone();
            self.entries.set(i, (name, breaker));
            proof {
                let after = self.entries@;
                assert forall|other: Seq<char>| other != key@ implies lookup(after, other)
                    == lookup(before, other) by {
                    lemma_lookup_ignores_other_keys(before, after, key@, other, i as int);
                }
                lemma_lookup_finds_first(after, key@, i as int);
            }
        } else {
            self.entries.push((key.clone(), breaker));
            proof {
                let after = self.entries@;
                assert forall|other: Seq<char>| other != key@ implies lookup(after, other)
                    == lookup(before, other) by {
                    lemma_lookup_after_push(before, (*key, breaker), other);
                    assert(after =~= before.push((*key, breaker)));
                }
                assert(after =~= before.push((*key, breaker)));
                lemma_lookup_finds_first(after, key@, i as int);
            }
        }
    }

    /// Upstreams that have a breaker of their own by now.
    pub fn len(&self) -> (n: usize)
        ensures
            n == self.known(),
    {
        self.entries.len()
    }

    /// Upstreams that have a breaker of their own by now.
    pub closed spec fn known(&self) -> nat {
        self.entries@.len()
    }
}

/// The first entry with a key is the one a lookup finds.
pub proof fn lemma_lookup_finds_first(
    entries: Seq<(String, CircuitBreaker)>,
    key: Seq<char>,
    i: int,
)
    requires
        0 <= i < entries.len(),
        entries[i].0@ == key,
        forall|j: int| 0 <= j < i ==> entries[j].0@ != key,
    ensures
        lookup(entries, key) == Some(entries[i].1@),
    decreases i,
{
    if i > 0 {
        let rest = entries.drop_first();
        assert(rest[i - 1] == entries[i]);
        assert forall|j: int| 0 <= j < i - 1 implies rest[j].0@ != key by {
            assert(rest[j] == entries[j + 1]);
        }
        lemma_lookup_finds_first(rest, key, i - 1);
    }
}

/// A lookup for a key that no entry has finds nothing.
pub proof fn lemma_lookup_misses(entries: Seq<(String, CircuitBreaker)>, key: Seq<char>)
    requires
        forall|j: int| 0 <= j < entries.len() ==> entries[j].0@ != key,
    ensures
        lookup(entries, key) is None,
    decreases entries.len(),
{
    if entries.len() > 0 {
        let rest = entries.drop_first();
        assert forall|j: int| 0 <= j < rest.len() implies rest[j].0@ != key by {
            assert(rest[j] == entries[j + 1]);
        }
        lemma_lookup_misses(rest, key);
    }
}

/// Replacing the breaker of one entry changes no lookup for another key.
pub proof fn lemma_lookup_ignores_other_keys(
    before: Seq<(String, CircuitBreaker)>,
    after: Seq<(String, CircuitBreaker)>,
    key: Seq<char>,
    other: Seq<char>,
    i: int,
)
    requires
        0 <= i < before.len(),
        after.len() == before.len(),
        before[i].0@ == key,
        after[i].0@ == key,
        other != key,
        forall|j: int| 0 <= j < before.len() && j != i ==> after[j] == before[j],
    ensures
        lookup(after, other) == lookup(before, other),
    decreases before.len(),
{
    let b = before.drop_first();
    let a = after.drop_first();
    if i == 0 {
        assert(a =~= b) by {
            assert forall|j: int| 0 <= j < b.len() implies a[j] == b[j] by {
                assert(a[j] == after[j + 1] && b[j] == before[j + 1]);
            }
        }
    } else {
        assert(after[0] == before[0]);
        assert forall|j: int| 0 <= j < b.len() && j != i - 1 implies a[j] == b[j] by {
            assert(a[j] == after[j + 1] && b[j] == before[j + 1]);
        }
        assert(b[i - 1] == before[i] && a[i - 1] == after[i]);
        lemma_lookup_ignores_other_keys(b, a, key, other, i - 1);
    }
}

/// An entry added at the end changes no lookup for another key.
pub proof fn lemma_lookup_after_push(
    entries: Seq<(String, CircuitBreaker)>,
    entry: (String, CircuitBreaker),
    other: Seq<char>,
)
    requires
        entry.0@ != other,
    ensures
        lookup(entries.push(entry), other) == lookup(entries, other),
    decreases entries.len(),
{
    let pushed = entries.push(entry);
    if entries.len() == 0 {
        assert(pushed[0] == entry);
        assert(pushed.drop_first().len() == 0);
        assert(lookup(pushed.drop_first(), other) is None);
        assert(lookup(pushed, other) == lookup(pushed.drop_first(), other));
    } else {
        assert(pushed[0] == entries[0]);
        assert(pushed.drop_first() =~= entries.drop_first().push(entry));
        lemma_lookup_after_push(entries.drop_first(), entry, other);
        if entries[0].0@ != other {
            assert(lookup(pushed, other) == lookup(pushed.drop_first(), other));
            assert(lookup(entries, other) == lookup(entries.drop_first(), other));
        }
    }
}

} // verus!
