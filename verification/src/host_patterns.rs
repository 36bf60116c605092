//! OpenSSH `known_hosts` host patterns: wildcard matching, negation,
//! hashed host names and recovery of a concrete `(host, port)` from a plain
//! pattern.
use hmac::Mac;
use vstd::prelude::*;
use vstd::string::*;
use crate::decimal::{parse_unsigned, parse_unsigned_chars};
use crate::text::{
    ascii_lower_seq, chars_of, contains_char, has_char, lower_chars, slice_range, string_of, trim,
    trim_chars,
};

verus! {

/// Wildcard match of `pattern` against `candidate`, byte by byte: `*`
/// matches any run of bytes (the empty one too) and `?` exactly one byte.
/// Stated over prefixes, which is how the matcher fills its table.
pub open spec fn glob_match(pattern: Seq<u8>, candidate: Seq<u8>) -> bool
    decreases pattern.len(), candidate.len(),
{
    if pattern.len() == 0 {
        candidate.len() == 0
    } else if pattern.last() == 42u8 {
        glob_match(pattern.drop_last(), candidate) || (candidate.len() > 0 && glob_match(
            pattern,
            candidate.drop_last(),
        ))
    } else if pattern.last() == 63u8 {
        candidate.len() > 0 && glob_match(pattern.drop_last(), candidate.drop_last())
    } else {
        candidate.len() > 0 && candidate.last() == pattern.last() && glob_match(
            pattern.drop_last(),
            candidate.drop_last(),
        )
    }
}

/// Glob matching of the UTF-8 bytes of two texts.
pub fn glob_matches(pattern: &str, candidate: &str) -> (r: bool)
    ensures
        r == glob_match(pattern.spec_bytes(), candidate.spec_bytes()),
{
    glob_match_bytes(pattern.as_bytes(), candidate.as_bytes())
}

/// Glob matching over byte strings, one table row per pattern prefix.
pub fn glob_match_bytes(pattern: &[u8], candidate: &[u8]) -> (r: bool)
    ensures
        r == glob_match(pattern@, candidate@),
{
    let ghost p = pattern@;
    let ghost c = candidate@;
    let n = candidate.len();
    // row[k] == glob_match(p[..i], c[..k])
    let mut row: Vec<bool> = Vec::new();
    row.push(true);
    let mut k: usize = 0;
    while k < n
        invariant
            k <= n,
            n == c.len(),
            row@.len() == k + 1,
            row@[0] == glob_match(p.subrange(0, 0), c.subrange(0, 0)),
            forall|j: int| 1 <= j <= k ==> row@[j] == glob_match(p.subrange(0, 0), c.subrange(0, j)),
        decreases n - k,
    {
        row.push(false);
        k = k + 1;
    }
    let mut i: usize = 0;
    while i < pattern.len()
        invariant
            i <= p.len(),
            p == pattern@,
            c == candidate@,
            n == c.len(),
            row@.len() == n + 1,
            forall|j: int|
                0 <= j <= n ==> #[trigger] row@[j] == glob_match(p.subrange(0, i as int), c.subrange(0, j)),
        decreases p.len() - i,
    {
        let byte = pattern[i];
        let ghost pi = p.subrange(0, i as int);
        let ghost pn = p.subrange(0, i + 1);
        assert(pn.drop_last() == pi);
        assert(pn.last() == byte);
        let mut next: Vec<bool> = Vec::new();
        let first = byte == 42u8 && row[0];
        proof {
            assert(c.subrange(0, 0).len() == 0);
        }
        next.push(first);
        let mut j: usize = 0;
        while j < n
            invariant
                j <= n,
                n == c.len(),
                c == candidate@,
                row@.len() == n + 1,
                next@.len() == j + 1,
                pn.drop_last() == pi,
                pn.last() == byte,
                pn.len() > 0,
                forall|t: int|
                    0 <= t <= n ==> #[trigger] row@[t] == glob_match(pi, c.subrange(0, t)),
                forall|t: int|
                    0 <= t <= j ==> #[trigger] next@[t] == glob_match(pn, c.subrange(0, t)),
            decreases n - j,
        {
            let ghost cj = c.subrange(0, j + 1);
            assert(cj.drop_last() == c.subrange(0, j as int));
            assert(cj.last() == candidate[j as int]);
            let value = if byte == 42u8 {
                row[j + 1] || next[j]
            } else if byte == 63u8 {
                row[j]
            } else {
                row[j] && byte == candidate[j]
            };
            assert(value == glob_match(pn, cj));
            next.push(value);
            j = j + 1;
        }
        row = next;
        i = i + 1;
    }
    assert(p.subrange(0, p.len() as int) == p);
    assert(c.subrange(0, n as int) == c);
    row[n]
}

/// Whether a pattern names one concrete host: not empty, not negated, not
/// hashed and without wildcards.
pub open spec fn is_concrete_pattern(p: Seq<char>) -> bool {
    p.len() > 0 && p[0] != '!' && p[0] != '|' && !has_char(p, '*') && !has_char(p, '?')
}

/// The position of the first `c` in `s`, if any.
pub open spec fn first_index_of(s: Seq<char>, c: char) -> Option<int> {
    if has_char(s, c) {
        Some(choose|i: int| 0 <= i < s.len() && s[i] == c && forall|j: int| 0 <= j < i ==> s[j] != c)
    } else {
        None
    }
}

/// The `(host, port)` named by a trimmed concrete pattern, before the
/// final check that the host is not empty.
pub open spec fn bracketed_identity(p: Seq<char>) -> Option<(Seq<char>, nat)> {
    let rest = p.drop_first();
    match first_index_of(rest, ']') {
        None => None,
        Some(close) => {
            let host = rest.subrange(0, close);
            let remainder = rest.subrange(close + 1, rest.len() as int);
            if remainder.len() > 0 && remainder[0] == ':' {
                match parse_unsigned(remainder.drop_first(), 65535) {
                    Some(port) => Some((host, port)),
                    None => None,
                }
            } else {
                Some((host, 22nat))
            }
        },
    }
}

/// The concrete `(host, port)` of an OpenSSH host pattern: `host` means
/// port 22, `[host]:port` an explicit port and `[host]` port 22.  Hashed,
/// negated, wildcard and bare `host:port` patterns name no single host.
pub open spec fn pattern_identity(pattern: Seq<char>) -> Option<(Seq<char>, nat)> {
    let p = trim(pattern);
    if !is_concrete_pattern(p) {
        None
    } else {
        let candidate = if p[0] == '[' {
            bracketed_identity(p)
        } else if has_char(p, ':') {
            None
        } else {
            Some((p, 22nat))
        };
        match candidate {
            Some((host, port)) => if host.len() > 0 {
                Some((host, port))
            } else {
                None
            },
            None => None,
        }
    }
}

/// Position of the first `c` in `v`.
fn find_char(v: &[char], c: char) -> (r: Option<usize>)
    ensures
        r is None <==> first_index_of(v@, c) is None,
        r matches Some(k) ==> first_index_of(v@, c) == Some(k as int) && k < v@.len(),
{
    let mut i: usize = 0;
    while i < v.len()
        invariant
            i <= v.len(),
            forall|j: int| 0 <= j < i ==> v@[j] != c,
        decreases v.len() - i,
    {
        if v[i] == c {
            let ghost w = choose|k: int|
                0 <= k < v@.len() && v@[k] == c && forall|j: int| 0 <= j < k ==> v@[j] != c;
            assert(has_char(v@, c));
            assert(w == i) by {
                if w < i {
                } else if w > i {
                }
            }
            return Some(i);
        }
        i = i + 1;
    }
    None
}

/// Recovers a concrete `(host, port)` from an OpenSSH `known_hosts`
/// pattern, or `None` for hashed names, wildcards, negations and ambiguous
/// forms (a bare `host:port` without brackets is taken for an IPv6 literal).
pub fn known_host_pattern_to_identity(pattern: &str) -> (r: Option<(String, u16)>)
    ensures
        match pattern_identity(pattern@) {
            Some((host, port)) => r matches Some((h, q)) && h@ == host && q as nat == port,
            None => r is None,
        },
{
    let raw = chars_of(pattern);
    let p = trim_chars(raw.as_slice());
    assert(p@ == trim(pattern@));
    if p.len() == 0 || p[0] == '!' || p[0] == '|' || contains_char(p.as_slice(), '*')
        || contains_char(p.as_slice(), '?') {
        return None;
    }
    let host: Vec<char>;
    let port: u16;
    if p[0] == '[' {
        let rest = slice_range(p.as_slice(), 1, p.len());
        assert(rest@ == p@.drop_first());
        match find_char(rest.as_slice(), ']') {
            None => {
                return None;
            },
            Some(close) => {
                let remainder = slice_range(rest.as_slice(), close + 1, rest.len());
                if remainder.len() > 0 && remainder[0] == ':' {
                    let digits = slice_range(remainder.as_slice(), 1, remainder.len());
                    assert(digits@ == remainder@.drop_first());
                    match parse_unsigned_chars(digits.as_slice(), 65535) {
                        Some(value) => {
                            port = value as u16;
                        },
                        None => {
                            return None;
                        },
                    }
                } else {
                    port = 22;
                }
                host = slice_range(rest.as_slice(), 0, close);
            },
        }
    } else {
        if contains_char(p.as_slice(), ':') {
            return None;
        }
        host = p;
        port = 22;
    }
    if host.len() == 0 {
        return None;
    }
    Some((string_of(host.as_slice()), port))
}

/// The name of the keyed hash that OpenSSH uses for hashed host names:
/// HMAC-SHA1 of `data` under `salt`, compared with `hash`.
pub uninterp spec fn hmac_sha1_matches(salt: Seq<u8>, data: Seq<u8>, hash: Seq<u8>) -> bool;

/// HMAC-SHA1 verification (crates `hmac` and `sha1`): `Hmac::<Sha1>` keyed
/// with `salt`, fed `data`, checked against `hash` with `verify_slice`.
/// The contract only names the result; it depends on the three byte strings
/// alone.  HMAC accepts keys of every length, so keying cannot fail.
#[verifier::external_body]
fn hmac_sha1_verify(salt: &[u8], data: &[u8], hash: &[u8]) -> (r: bool)
    ensures
        r == hmac_sha1_matches(salt@, data@, hash@),
{
    match hmac::Hmac::<sha1::Sha1>::new_from_slice(salt) {
        Ok(mut mac) => {
            mac.update(data);
            mac.verify_slice(hash).is_ok()
        },
        Err(_) => false,
    }
}

/// The host part of a `known_hosts` line.
pub enum KnownHostPatterns {
    /// Comma-separated plain patterns, each possibly negated with `!`.
    Patterns(Vec<String>),
    /// An OpenSSH hashed host name `|1|salt|hash`.
    HashedName { salt: Vec<u8>, hash: Vec<u8> },
}

/// A plain pattern split into its negation flag and the pattern proper.
pub open spec fn split_negation(p: Seq<char>) -> (bool, Seq<char>) {
    if p.len() > 0 && p[0] == '!' {
        (true, p.drop_first())
    } else {
        (false, p)
    }
}

/// Whether one plain pattern (negation already removed) matches a
/// candidate, both compared in ASCII lower case.
pub open spec fn plain_pattern_matches(pattern: Seq<char>, candidate: Seq<char>) -> bool {
    glob_match(
        vstd::utf8::encode_utf8(ascii_lower_seq(pattern)),
        vstd::utf8::encode_utf8(ascii_lower_seq(candidate)),
    )
}

/// Whether a list of patterns admits a candidate: some non-negated pattern
/// matches and no negated one does.
pub open spec fn patterns_match(patterns: Seq<Seq<char>>, candidate: Seq<char>) -> bool {
    &&& exists|i: int|
        0 <= i < patterns.len() && !split_negation(#[trigger] patterns[i]).0
            && plain_pattern_matches(split_negation(patterns[i]).1, candidate)
    &&& forall|i: int|
        0 <= i < patterns.len() && split_negation(#[trigger] patterns[i]).0 ==> !plain_pattern_matches(
            split_negation(patterns[i]).1,
            candidate,
        )
}

/// The views of a list of strings.
pub open spec fn string_views(v: Seq<String>) -> Seq<Seq<char>> {
    Seq::new(v.len(), |i: int| v[i]@)
}

/// The mathematical value of the host part of a `known_hosts` line.
pub enum PatternsView {
    Plain(Seq<Seq<char>>),
    Hashed { salt: Seq<u8>, hash: Seq<u8> },
}

impl View for KnownHostPatterns {
    type V = PatternsView;

    open spec fn view(&self) -> PatternsView {
        match self {
            KnownHostPatterns::Patterns(list) => PatternsView::Plain(string_views(list@)),
            KnownHostPatterns::HashedName { salt, hash } => PatternsView::Hashed {
                salt: salt@,
                hash: hash@,
            },
        }
    }
}

/// Whether the host part of a `known_hosts` line admits a candidate host
/// (`host` or `[host]:port`).
pub open spec fn known_hosts_admit(patterns: PatternsView, candidate: Seq<char>) -> bool {
    match patterns {
        PatternsView::Plain(list) => patterns_match(list, candidate),
        PatternsView::Hashed { salt, hash } => hmac_sha1_matches(
            salt,
            vstd::utf8::encode_utf8(candidate),
            hash,
        ),
    }
}

/// ASCII-lower-cased UTF-8 bytes of a text.
fn lower_bytes(s: &str) -> (r: Vec<u8>)
    ensures
        r@ == vstd::utf8::encode_utf8(ascii_lower_seq(s@)),
{
    let v = chars_of(s);
    let lowered = lower_chars(v.as_slice());
    let text = string_of(lowered.as_slice());
    let bytes = text.as_str().as_bytes();
    vstd::slice::slice_to_vec(bytes)
}

/// Whether one plain pattern matches a candidate.
fn plain_matches(pattern: &[char], candidate_lower: &[u8], ghost_candidate: Ghost<Seq<char>>) -> (r:
    bool)
    requires
        candidate_lower@ == vstd::utf8::encode_utf8(ascii_lower_seq(ghost_candidate@)),
    ensures
        r == plain_pattern_matches(pattern@, ghost_candidate@),
{
    let text = string_of(pattern);
    let p = lower_bytes(text.as_str());
    glob_match_bytes(p.as_slice(), candidate_lower)
}

/// Whether a list of plain patterns admits a candidate host.
fn patterns_list_match(list: &Vec<String>, candidate: &str) -> (r: bool)
    ensures
        r == patterns_match(string_views(list@), candidate@),
{
    let candidate_lower = lower_bytes(candidate);
    let mut positive_match = false;
    let mut i: usize = 0;
    while i < list.len()
        invariant
            i <= list@.len(),
            candidate_lower@ == vstd::utf8::encode_utf8(ascii_lower_seq(candidate@)),
            positive_match == exists|k: int|
                0 <= k < i && !split_negation(#[trigger] list@[k]@).0
                    && plain_pattern_matches(split_negation(list@[k]@).1, candidate@),
            forall|k: int|
                0 <= k < i && split_negation(#[trigger] list@[k]@).0
                    ==> !plain_pattern_matches(split_negation(list@[k]@).1, candidate@),
        decreases list.len() - i,
    {
        let chars = chars_of(list[i].as_str());
        let negated = chars.len() > 0 && chars[0] == '!';
        let body = if negated {
            slice_range(chars.as_slice(), 1, chars.len())
        } else {
            chars
        };
        assert(split_negation(list@[i as int]@) == (negated, body@));
        if plain_matches(body.as_slice(), candidate_lower.as_slice(), Ghost(candidate@)) {
            if negated {
                let ghost views = string_views(list@);
                assert(views[i as int] == list@[i as int]@);
                assert(split_negation(views[i as int]).0);
                assert(plain_pattern_matches(split_negation(views[i as int]).1, candidate@));
                return false;
            }
            positive_match = true;
        }
        i = i + 1;
    }
    proof {
        let views = string_views(list@);
        if positive_match {
            let k = choose|k: int|
                0 <= k < list@.len() && !split_negation(#[trigger] list@[k]@).0
                    && plain_pattern_matches(split_negation(list@[k]@).1, candidate@);
            assert(views[k] == list@[k]@);
        } else {
            assert forall|k: int|
                0 <= k < views.len() && !split_negation(#[trigger] views[k]).0
                implies !plain_pattern_matches(split_negation(views[k]).1, candidate@) by {
                assert(views[k] == list@[k]@);
            }
        }
        assert forall|k: int|
            0 <= k < views.len() && split_negation(#[trigger] views[k]).0
            implies !plain_pattern_matches(split_negation(views[k]).1, candidate@) by {
            assert(views[k] == list@[k]@);
        }
    }
    positive_match
}

/// Whether the host part of a `known_hosts` line admits a candidate host.
pub fn known_hosts_match(patterns: &KnownHostPatterns, candidate: &str) -> (r: bool)
    ensures
        r == known_hosts_admit(patterns@, candidate@),
{
    match patterns {
        KnownHostPatterns::Patterns(list) => patterns_list_match(list, candidate),
        KnownHostPatterns::HashedName { salt, hash } => {
            let bytes = candidate.as_bytes();
            hmac_sha1_verify(salt.as_slice(), bytes, hash.as_slice())
        },
    }
}

} // verus!
