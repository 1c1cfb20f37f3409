//! String utilities for the script host: validation, case conversion,
//! trimming, padding, search and replacement, splitting, and slicing — all
//! by characters.
//!
//! The Unicode character classes and case mappings come from the standard
//! library behind named, trusted predicates; everything built on them is
//! verified.

use vstd::prelude::*;
use crate::text::{
    chars_vec, nonempty_from, push_char, spec_matches_at, spec_find_sub, find_sub,
    lemma_find_sub, spec_nonempty_parts, spec_split_char, string_from_chars, spec_lower_char,
    spec_upper_char, lower_char, upper_char,
};
use vstd::string::StringSliceAdditionalSpecFns;

verus! {

pub uninterp spec fn is_ws_char(c: char) -> bool;

/// Relies on `char::is_whitespace`: the Unicode white-space property, a
/// function of the character alone.
#[verifier::external_body]
fn char_is_whitespace(c: char) -> (r: bool)
    ensures
        r == is_ws_char(c),
{
    c.is_whitespace()
}

pub uninterp spec fn is_alpha_char(c: char) -> bool;

/// Relies on `char::is_alphabetic`: the Unicode alphabetic property, a
/// function of the character alone.
#[verifier::external_body]
fn char_is_alphabetic(c: char) -> (r: bool)
    ensures
        r == is_alpha_char(c),
{
    c.is_alphabetic()
}

pub uninterp spec fn is_alnum_char(c: char) -> bool;

/// Relies on `char::is_alphanumeric`: the Unicode alphanumeric property, a
/// function of the character alone.
#[verifier::external_body]
fn char_is_alphanumeric(c: char) -> (r: bool)
    ensures
        r == is_alnum_char(c),
{
    c.is_alphanumeric()
}

pub uninterp spec fn is_upper_char(c: char) -> bool;

/// Relies on `char::is_uppercase`: the Unicode uppercase property, a
/// function of the character alone.
#[verifier::external_body]
fn char_is_uppercase(c: char) -> (r: bool)
    ensures
        r == is_upper_char(c),
{
    c.is_uppercase()
}

pub uninterp spec fn is_lower_char(c: char) -> bool;

/// Relies on `char::is_lowercase`: the Unicode lowercase property, a
/// function of the character alone.
#[verifier::external_body]
fn char_is_lowercase(c: char) -> (r: bool)
    ensures
        r == is_lower_char(c),
{
    c.is_lowercase()
}

pub uninterp spec fn upper_of(s: Seq<char>) -> Seq<char>;

/// Relies on `str::to_uppercase`: the Unicode uppercase mapping, a function
/// of the characters alone; an empty string stays empty.
#[verifier::external_body]
fn str_upper(s: &str) -> (r: String)
    ensures
        r@ == upper_of(s@),
        s@.len() == 0 ==> r@.len() == 0,
{
    s.to_uppercase()
}

pub uninterp spec fn lower_of(s: Seq<char>) -> Seq<char>;

/// Relies on `str::to_lowercase`: the Unicode lowercase mapping, a function
/// of the characters alone; an empty string stays empty.
#[verifier::external_body]
fn str_lower(s: &str) -> (r: String)
    ensures
        r@ == lower_of(s@),
        s@.len() == 0 ==> r@.len() == 0,
{
    s.to_lowercase()
}

pub uninterp spec fn char_upper_of(c: char) -> Seq<char>;

/// Relies on `char::to_uppercase`: the Unicode uppercase expansion of one
/// character (possibly several characters), a function of it alone.
#[verifier::external_body]
fn char_upper_str(c: char) -> (r: String)
    ensures
        r@ == char_upper_of(c),
{
    c.to_uppercase().to_string()
}

/// An ASCII decimal digit.
pub open spec fn is_digit_char(c: char) -> bool {
    48 <= c as u32 && c as u32 <= 57
}

/// `s` repeated `k` times.
pub open spec fn spec_repeat_str(s: Seq<char>, k: int) -> Seq<char>
    decreases k,
{
    if k <= 0 {
        Seq::<char>::empty()
    } else {
        spec_repeat_str(s, k - 1) + s
    }
}

/// String utilities, character-based throughout.
pub struct Str;

impl Str {
    pub fn new() -> Str {
        Str
    }

    /// Whether `s` has no characters.
    #[allow(non_snake_case)]
    pub fn isEmpty(&self, s: &str) -> (r: bool)
        ensures
            r == (s@.len() == 0),
    {
        s.is_empty()
    }

    /// Whether `s` is empty or all white space.
    #[allow(non_snake_case)]
    pub fn isBlank(&self, s: &str) -> (r: bool)
        ensures
            r == forall|i: int| 0 <= i < s@.len() ==> is_ws_char(#[trigger] s@[i]),
    {
        let n = s.unicode_len();
        let mut i: usize = 0;
        while i < n
            invariant
                n == s@.len(),
                i <= n,
                forall|j: int| 0 <= j < i ==> is_ws_char(#[trigger] s@[j]),
            decreases n - i,
        {
            if !char_is_whitespace(s.get_char(i)) {
                return false;
            }
            i = i + 1;
        }
        true
    }

    /// Whether `s` is non-empty and all ASCII digits.
    #[allow(non_snake_case)]
    pub fn isNumeric(&self, s: &str) -> (r: bool)
        ensures
            r == (s@.len() > 0 && forall|i: int|
                0 <= i < s@.len() ==> is_digit_char(#[trigger] s@[i])),
    {
        let n = s.unicode_len();
        if n == 0 {
            return false;
        }
        let mut i: usize = 0;
        while i < n
            invariant
                n == s@.len(),
                i <= n,
                forall|j: int| 0 <= j < i ==> is_digit_char(#[trigger] s@[j]),
            decreases n - i,
        {
            let c = s.get_char(i);
            if !(48 <= c as u32 && c as u32 <= 57) {
                return false;
            }
            i = i + 1;
        }
        true
    }

    /// Whether `s` is non-empty and all alphabetic.
    #[allow(non_snake_case)]
    pub fn isAlpha(&self, s: &str) -> (r: bool)
        ensures
            r == (s@.len() > 0 && forall|i: int|
                0 <= i < s@.len() ==> is_alpha_char(#[trigger] s@[i])),
    {
        let n = s.unicode_len();
        if n == 0 {
            return false;
        }
        let mut i: usize = 0;
        while i < n
            invariant
                n == s@.len(),
                i <= n,
                forall|j: int| 0 <= j < i ==> is_alpha_char(#[trigger] s@[j]),
            decreases n - i,
        {
            if !char_is_alphabetic(s.get_char(i)) {
                return false;
            }
            i = i + 1;
        }
        true
    }

    /// Whether `s` is non-empty and all alphanumeric.
    #[allow(non_snake_case)]
    pub fn isAlphaNumeric(&self, s: &str) -> (r: bool)
        ensures
            r == (s@.len() > 0 && forall|i: int|
                0 <= i < s@.len() ==> is_alnum_char(#[trigger] s@[i])),
    {
        let n = s.unicode_len();
        if n == 0 {
            return false;
        }
        let mut i: usize = 0;
        while i < n
            invariant
                n == s@.len(),
                i <= n,
                forall|j: int| 0 <= j < i ==> is_alnum_char(#[trigger] s@[j]),
            decreases n - i,
        {
            if !char_is_alphanumeric(s.get_char(i)) {
                return false;
            }
            i = i + 1;
        }
        true
    }

    /// Whether `s` is non-empty and no alphabetic character is lowercase.
    #[allow(non_snake_case)]
    pub fn isUpper(&self, s: &str) -> (r: bool)
        ensures
            r == (s@.len() > 0 && forall|i: int|
                0 <= i < s@.len() ==> (!is_alpha_char(#[trigger] s@[i]) || is_upper_char(s@[i]))),
    {
        let n = s.unicode_len();
        if n == 0 {
            return false;
        }
        let mut i: usize = 0;
        while i < n
            invariant
                n == s@.len(),
                i <= n,
                forall|j: int|
                    0 <= j < i ==> (!is_alpha_char(#[trigger] s@[j]) || is_upper_char(s@[j])),
            decreases n - i,
        {
            let c = s.get_char(i);
            if char_is_alphabetic(c) && !char_is_uppercase(c) {
                return false;
            }
            i = i + 1;
        }
        true
    }

    /// Whether `s` is non-empty and no alphabetic character is uppercase.
    #[allow(non_snake_case)]
    pub fn isLower(&self, s: &str) -> (r: bool)
        ensures
            r == (s@.len() > 0 && forall|i: int|
                0 <= i < s@.len() ==> (!is_alpha_char(#[trigger] s@[i]) || is_lower_char(s@[i]))),
    {
        let n = s.unicode_len();
        if n == 0 {
            return false;
        }
        let mut i: usize = 0;
        while i < n
            invariant
                n == s@.len(),
                i <= n,
                forall|j: int|
                    0 <= j < i ==> (!is_alpha_char(#[trigger] s@[j]) || is_lower_char(s@[j])),
            decreases n - i,
        {
            let c = s.get_char(i);
            if char_is_alphabetic(c) && !char_is_lowercase(c) {
                return false;
            }
            i = i + 1;
        }
        true
    }

    /// The Unicode uppercase form of `s`.
    #[allow(non_snake_case)]
    pub fn toUpper(&self, s: &str) -> (r: String)
        ensures
            r@ == upper_of(s@),
    {
        str_upper(s)
    }

    /// The Unicode lowercase form of `s`.
    #[allow(non_snake_case)]
    pub fn toLower(&self, s: &str) -> (r: String)
        ensures
            r@ == lower_of(s@),
    {
        str_lower(s)
    }

    /// The first character uppercased (by the full Unicode expansion), the
    /// rest unchanged.
    pub fn capitalize(&self, s: &str) -> (r: String)
        ensures
            r@ == if s@.len() == 0 {
                Seq::<char>::empty()
            } else {
                char_upper_of(s@[0]) + s@.drop_first()
            },
    {
        let n = s.unicode_len();
        if n == 0 {
            String::new()
        } else {
            let mut r = char_upper_str(s.get_char(0));
            r.append(s.substring_char(1, n));
            proof {
                assert(s@.subrange(1, n as int) =~= s@.drop_first());
            }
            r
        }
    }

    /// The characters of `s` in reverse order.
    pub fn reverse(&self, s: &str) -> (r: String)
        ensures
            r@ == s@.reverse(),
    {
        let n = s.unicode_len();
        let mut r = String::new();
        let mut i: usize = 0;
        while i < n
            invariant
                n == s@.len(),
                i <= n,
                r@.len() == i,
                forall|j: int| 0 <= j < i ==> #[trigger] r@[j] == s@[n - 1 - j],
            decreases n - i,
        {
            push_char(&mut r, s.get_char(n - 1 - i));
            i = i + 1;
        }
        proof {
            assert(r@ =~= s@.reverse());
        }
        r
    }

    /// `s` repeated `count` times.
    pub fn repeat(&self, s: &str, count: usize) -> (r: String)
        ensures
            r@ == spec_repeat_str(s@, count as int),
    {
        let mut r = String::new();
        let mut i: usize = 0;
        while i < count
            invariant
                i <= count,
                r@ == spec_repeat_str(s@, i as int),
            decreases count - i,
        {
            r.append(s);
            i = i + 1;
        }
        r
    }

    /// The single-character strings of `s`, in order.
    pub fn chars(&self, s: &str) -> (r: Vec<String>)
        ensures
            r.deep_view() == s@.map_values(|c: char| seq![c]),
    {
        let n = s.unicode_len();
        let mut r: Vec<String> = Vec::new();
        let mut i: usize = 0;
        while i < n
            invariant
                n == s@.len(),
                i <= n,
                r@.len() == i,
                forall|j: int| 0 <= j < i ==> #[trigger] r@[j]@ == seq![s@[j]],
            decreases n - i,
        {
            let mut one = String::new();
            push_char(&mut one, s.get_char(i));
            r.push(one);
            i = i + 1;
        }
        proof {
            assert(r.deep_view() =~= s@.map_values(|c: char| seq![c]));
        }
        r
    }

    /// The characters of `s` from `start` on.
    pub fn slice(&self, s: &str, start: usize) -> (r: String)
        ensures
            r@ == s@.skip(vstd::math::min(start as int, s@.len() as int)),
    {
        let n = s.unicode_len();
        let from = if start < n {
            start
        } else {
            n
        };
        let r = String::from_str(s.substring_char(from, n));
        proof {
            assert(s@.subrange(from as int, n as int) =~= s@.skip(
                vstd::math::min(start as int, s@.len() as int),
            ));
        }
        r
    }

    /// The characters of `s` from `start` (inclusive) to `end` (exclusive),
    /// both clamped; empty when `start >= end`.
    #[allow(non_snake_case)]
    pub fn sliceRange(&self, s: &str, start: usize, end: usize) -> (r: String)
        ensures
            r@ == if start >= end {
                Seq::<char>::empty()
            } else {
                s@.subrange(
                    vstd::math::min(start as int, s@.len() as int),
                    vstd::math::min(end as int, s@.len() as int),
                )
            },
    {
        if start >= end {
            return String::new();
        }
        let n = s.unicode_len();
        let from = if start < n {
            start
        } else {
            n
        };
        let to = if end < n {
            end
        } else {
            n
        };
        String::from_str(s.substring_char(from, to))
    }

    /// The single character at `index`, or the empty string.
    pub fn at(&self, s: &str, index: usize) -> (r: String)
        ensures
            r@ == if index < s@.len() {
                seq![s@[index as int]]
            } else {
                Seq::<char>::empty()
            },
    {
        let n = s.unicode_len();
        if index < n {
            let mut r = String::new();
            push_char(&mut r, s.get_char(index));
            proof {
                assert(r@ =~= seq![s@[index as int]]);
            }
            r
        } else {
            String::new()
        }
    }

    /// The number of characters of `s`.
    pub fn length(&self, s: &str) -> (r: usize)
        ensures
            r == s@.len(),
    {
        s.unicode_len()
    }

    /// The number of bytes of `s` in UTF-8.
    #[allow(non_snake_case)]
    pub fn byteLength(&self, s: &str) -> (r: usize)
        ensures
            r == s.spec_bytes().len() as usize,
    {
        s.len()
    }
}


/// How many leading characters of `s` are white space.
pub open spec fn spec_ws_prefix(s: Seq<char>) -> nat
    decreases s.len(),
{
    if s.len() > 0 && is_ws_char(s[0]) {
        1 + spec_ws_prefix(s.drop_first())
    } else {
        0
    }
}

/// What [`spec_ws_prefix`] means.
pub proof fn lemma_ws_prefix(s: Seq<char>)
    ensures
        spec_ws_prefix(s) <= s.len(),
        forall|k: int| 0 <= k < spec_ws_prefix(s) ==> is_ws_char(#[trigger] s[k]),
        spec_ws_prefix(s) < s.len() ==> !is_ws_char(s[spec_ws_prefix(s) as int]),
    decreases s.len(),
{
    if s.len() > 0 && is_ws_char(s[0]) {
        lemma_ws_prefix(s.drop_first());
        assert forall|k: int| 0 <= k < spec_ws_prefix(s) implies is_ws_char(#[trigger] s[k]) by {
            if k > 0 {
                assert(is_ws_char(s.drop_first()[k - 1]));
            }
        }
    }
}

/// How many trailing characters of `s` are white space.
pub open spec fn spec_ws_suffix(s: Seq<char>) -> nat
    decreases s.len(),
{
    if s.len() > 0 && is_ws_char(s.last()) {
        1 + spec_ws_suffix(s.drop_last())
    } else {
        0
    }
}

/// What [`spec_ws_suffix`] means.
pub proof fn lemma_ws_suffix(s: Seq<char>)
    ensures
        spec_ws_suffix(s) <= s.len(),
        forall|k: int| s.len() - spec_ws_suffix(s) <= k < s.len() ==> is_ws_char(#[trigger] s[k]),
        spec_ws_suffix(s) < s.len() ==> !is_ws_char(
            s[s.len() - 1 - spec_ws_suffix(s) as int],
        ),
    decreases s.len(),
{
    if s.len() > 0 && is_ws_char(s.last()) {
        lemma_ws_suffix(s.drop_last());
        assert forall|k: int| s.len() - spec_ws_suffix(s) <= k < s.len() implies is_ws_char(
            #[trigger] s[k],
        ) by {
            if k < s.len() - 1 {
                assert(is_ws_char(s.drop_last()[k]));
            }
        }
    }
}

/// `s` without its leading white space.
pub open spec fn spec_trim_start(s: Seq<char>) -> Seq<char> {
    s.skip(spec_ws_prefix(s) as int)
}

/// `s` without its trailing white space.
pub open spec fn spec_trim_end(s: Seq<char>) -> Seq<char> {
    s.take(s.len() - spec_ws_suffix(s) as int)
}

/// `s` without leading and trailing white space.
pub open spec fn spec_trim(s: Seq<char>) -> Seq<char> {
    spec_trim_end(spec_trim_start(s))
}

/// The characters of `s` that repeat `pad` from its start, `k` of them.
pub open spec fn spec_fill(pad: Seq<char>, k: int) -> Seq<char> {
    Seq::new(
        if k <= 0 {
            0
        } else {
            k as nat
        },
        |i: int| pad[i % (pad.len() as int)],
    )
}

impl Str {
    /// Index of the first non-white-space character, or the length.
    fn first_non_ws(s: &str) -> (r: usize)
        ensures
            r == spec_ws_prefix(s@),
    {
        proof {
            lemma_ws_prefix(s@);
        }
        let n = s.unicode_len();
        let mut i: usize = 0;
        while i < n
            invariant
                n == s@.len(),
                i <= n,
                forall|j: int| 0 <= j < i ==> is_ws_char(#[trigger] s@[j]),
            decreases n - i,
        {
            if !char_is_whitespace(s.get_char(i)) {
                proof {
                    lemma_ws_prefix(s@);
                    if spec_ws_prefix(s@) < i {
                        assert(is_ws_char(s@[spec_ws_prefix(s@) as int]));
                        assert(!is_ws_char(s@[spec_ws_prefix(s@) as int]));
                    }
                    if spec_ws_prefix(s@) > i {
                        assert(is_ws_char(s@[i as int]));
                    }
                }
                return i;
            }
            i = i + 1;
        }
        proof {
            lemma_ws_prefix(s@);
            if spec_ws_prefix(s@) < n {
                assert(is_ws_char(s@[spec_ws_prefix(s@) as int]));
                assert(!is_ws_char(s@[spec_ws_prefix(s@) as int]));
            }
        }
        n
    }

    /// One past the index of the last non-white-space character, or zero.
    fn end_non_ws(s: &str) -> (r: usize)
        ensures
            r == s@.len() - spec_ws_suffix(s@),
    {
        proof {
            lemma_ws_suffix(s@);
        }
        let n = s.unicode_len();
        let mut i: usize = n;
        while i > 0
            invariant
                n == s@.len(),
                i <= n,
                forall|j: int| i <= j < n ==> is_ws_char(#[trigger] s@[j]),
            decreases i,
        {
            if !char_is_whitespace(s.get_char(i - 1)) {
                proof {
                    lemma_ws_suffix(s@);
                    let q = spec_ws_suffix(s@) as int;
                    if q > n - i {
                        assert(is_ws_char(s@[i - 1]));
                    }
                    if q < n - i {
                        assert(!is_ws_char(s@[n - 1 - q]));
                        assert(is_ws_char(s@[n - 1 - q]));
                    }
                }
                return i;
            }
            i = i - 1;
        }
        proof {
            lemma_ws_suffix(s@);
            let q = spec_ws_suffix(s@) as int;
            if q < n {
                assert(!is_ws_char(s@[n - 1 - q]));
                assert(is_ws_char(s@[n - 1 - q]));
            }
        }
        0
    }

    /// `s` without leading and trailing white space.
    pub fn trim(&self, s: &str) -> (r: String)
        ensures
            r@ == spec_trim(s@),
    {
        let n = s.unicode_len();
        let start = Self::first_non_ws(s);
        let end = Self::end_non_ws(s);
        proof {
            lemma_ws_prefix(s@);
            lemma_ws_suffix(s@);
        }
        if start >= end {
            proof {
                let t = spec_trim_start(s@);
                lemma_ws_suffix(t);
                if spec_ws_suffix(t) < t.len() {
                    let k = t.len() - 1 - spec_ws_suffix(t) as int;
                    assert(t[k] == s@[start + k]);
                    assert(is_ws_char(s@[start + k]));
                }
                assert(spec_trim(s@) =~= Seq::<char>::empty());
            }
            String::new()
        } else {
            let r = String::from_str(s.substring_char(start, end));
            proof {
                let t = spec_trim_start(s@);
                lemma_ws_suffix(t);
                let q = spec_ws_suffix(t) as int;
                if q > t.len() - (end - start) {
                    assert(t[end - start - 1] == s@[end - 1]);
                    assert(is_ws_char(s@[end - 1]));
                }
                if q < t.len() - (end - start) {
                    assert(t[t.len() - 1 - q] == s@[start + t.len() - 1 - q]);
                    assert(is_ws_char(s@[start + t.len() - 1 - q]));
                    assert(!is_ws_char(t[t.len() - 1 - q]));
                }
                assert(s@.subrange(start as int, end as int) =~= spec_trim(s@));
            }
            r
        }
    }

    /// `s` without leading white space.
    #[allow(non_snake_case)]
    pub fn trimStart(&self, s: &str) -> (r: String)
        ensures
            r@ == spec_trim_start(s@),
    {
        let n = s.unicode_len();
        let start = Self::first_non_ws(s);
        proof {
            lemma_ws_prefix(s@);
        }
        let r = String::from_str(s.substring_char(start, n));
        proof {
            assert(s@.subrange(start as int, n as int) =~= spec_trim_start(s@));
        }
        r
    }

    /// `s` without trailing white space.
    #[allow(non_snake_case)]
    pub fn trimEnd(&self, s: &str) -> (r: String)
        ensures
            r@ == spec_trim_end(s@),
    {
        let end = Self::end_non_ws(s);
        proof {
            lemma_ws_suffix(s@);
        }
        let r = String::from_str(s.substring_char(0, end));
        proof {
            assert(s@.subrange(0, end as int) =~= spec_trim_end(s@));
        }
        r
    }

    /// `s` left-padded with the repetition of `pad` up to `length`
    /// characters; unchanged when long enough or when `pad` is empty.
    #[allow(non_snake_case)]
    pub fn padStart(&self, s: &str, length: usize, pad: &str) -> (r: String)
        ensures
            r@ == if s@.len() >= length || pad@.len() == 0 {
                s@
            } else {
                spec_fill(pad@, length - s@.len()) + s@
            },
    {
        let n = s.unicode_len();
        let plen = pad.unicode_len();
        if n >= length || plen == 0 {
            return String::from_str(s);
        }
        let pv = chars_vec(pad);
        let k = length - n;
        let mut r = String::new();
        let mut i: usize = 0;
        while i < k
            invariant
                plen == pad@.len(),
                plen > 0,
                pv@ == pad@,
                i <= k,
                r@.len() == i,
                forall|j: int| 0 <= j < i ==> #[trigger] r@[j] == pad@[j % (plen as int)],
            decreases k - i,
        {
            push_char(&mut r, pv[i % plen]);
            i = i + 1;
        }
        r.append(s);
        proof {
            assert(r@ =~= spec_fill(pad@, length - s@.len()) + s@);
        }
        r
    }

    /// `s` right-padded with the repetition of `pad` up to `length`
    /// characters; unchanged when long enough or when `pad` is empty.
    #[allow(non_snake_case)]
    pub fn padEnd(&self, s: &str, length: usize, pad: &str) -> (r: String)
        ensures
            r@ == if s@.len() >= length || pad@.len() == 0 {
                s@
            } else {
                s@ + spec_fill(pad@, length - s@.len())
            },
    {
        let n = s.unicode_len();
        let plen = pad.unicode_len();
        if n >= length || plen == 0 {
            return String::from_str(s);
        }
        let pv = chars_vec(pad);
        let k = length - n;
        let mut r = String::from_str(s);
        let mut i: usize = 0;
        while i < k
            invariant
                plen == pad@.len(),
                plen > 0,
                pv@ == pad@,
                i <= k,
                r@.len() == s@.len() + i,
                r@.subrange(0, s@.len() as int) == s@,
                forall|j: int|
                    0 <= j < i ==> #[trigger] r@[s@.len() + j] == pad@[j % (plen as int)],
            decreases k - i,
        {
            push_char(&mut r, pv[i % plen]);
            i = i + 1;
            proof {
                assert(r@.subrange(0, s@.len() as int) =~= s@);
            }
        }
        proof {
            assert forall|idx: int| 0 <= idx < r@.len() implies r@[idx] == (s@ + spec_fill(
                pad@,
                length - s@.len(),
            ))[idx] by {
                if idx < s@.len() {
                    assert(r@.subrange(0, s@.len() as int)[idx] == s@[idx]);
                } else {
                    let j = idx - s@.len();
                    assert(r@[s@.len() + j] == pad@[j % (plen as int)]);
                }
            }
            assert(r@ =~= s@ + spec_fill(pad@, length - s@.len()));
        }
        r
    }
}


/// Index of the first white-space character, or the length.
pub open spec fn spec_ws_at(s: Seq<char>) -> nat
    decreases s.len(),
{
    if s.len() == 0 {
        0
    } else if is_ws_char(s[0]) {
        0
    } else {
        1 + spec_ws_at(s.drop_first())
    }
}

/// What [`spec_ws_at`] means.
pub proof fn lemma_ws_at(s: Seq<char>)
    ensures
        spec_ws_at(s) <= s.len(),
        spec_ws_at(s) < s.len() ==> is_ws_char(s[spec_ws_at(s) as int]),
        forall|j: int| 0 <= j < spec_ws_at(s) ==> !is_ws_char(#[trigger] s[j]),
    decreases s.len(),
{
    if s.len() == 0 {
    } else if is_ws_char(s[0]) {
    } else {
        lemma_ws_at(s.drop_first());
        assert forall|j: int| 0 <= j < spec_ws_at(s) implies !is_ws_char(#[trigger] s[j]) by {
            if j > 0 {
                assert(!is_ws_char(s.drop_first()[j - 1]));
            }
        }
    }
}

/// The pieces of `s` between single white-space characters.
pub open spec fn spec_split_ws(s: Seq<char>) -> Seq<Seq<char>>
    decreases s.len(),
{
    let i = spec_ws_at(s);
    if i >= s.len() {
        seq![s]
    } else {
        seq![s.take(i as int)] + spec_split_ws(s.skip(i as int + 1))
    }
}

/// The white-space-separated words of `s`: the non-empty pieces.
pub open spec fn spec_words(s: Seq<char>) -> Seq<Seq<char>> {
    spec_nonempty_parts(spec_split_ws(s))
}

/// First white-space position in `v`, if any.
fn find_ws(v: &Vec<char>) -> (r: Option<usize>)
    ensures
        match r {
            Some(i) => i == spec_ws_at(v@) && i < v@.len() && is_ws_char(v@[i as int]),
            None => spec_ws_at(v@) == v@.len(),
        },
{
    let mut i: usize = 0;
    while i < v.len()
        invariant
            i <= v@.len(),
            forall|j: int| 0 <= j < i ==> !is_ws_char(#[trigger] v@[j]),
        decreases v@.len() - i,
    {
        if char_is_whitespace(v[i]) {
            proof {
                lemma_ws_at(v@);
                if spec_ws_at(v@) < i {
                    assert(!is_ws_char(v@[spec_ws_at(v@) as int]));
                    assert(is_ws_char(v@[spec_ws_at(v@) as int]));
                }
                if spec_ws_at(v@) > i {
                    assert(!is_ws_char(v@[i as int]));
                }
            }
            return Some(i);
        }
        i = i + 1;
    }
    proof {
        lemma_ws_at(v@);
        if spec_ws_at(v@) < v@.len() {
            assert(!is_ws_char(v@[spec_ws_at(v@) as int]));
            assert(is_ws_char(v@[spec_ws_at(v@) as int]));
        }
    }
    None
}

/// Splits the characters of `v` at single white-space characters.
fn split_ws_chars(v: &Vec<char>) -> (r: Vec<String>)
    ensures
        r.deep_view() == spec_split_ws(v@),
    decreases v@.len(),
{
    proof {
        lemma_ws_at(v@);
    }
    match find_ws(v) {
        None => {
            let mut r: Vec<String> = Vec::new();
            r.push(string_from_chars(v));
            proof {
                assert(r.deep_view() =~= spec_split_ws(v@));
            }
            r
        },
        Some(i) => {
            let n = v.len();
            let mut head: Vec<char> = Vec::new();
            let mut j: usize = 0;
            while j < i
                invariant
                    j <= i < v@.len(),
                    head@ == v@.subrange(0, j as int),
                decreases i - j,
            {
                head.push(v[j]);
                j = j + 1;
                proof {
                    assert(head@ =~= v@.subrange(0, j as int));
                }
            }
            let mut tail: Vec<char> = Vec::new();
            let mut k: usize = i + 1;
            while k < n
                invariant
                    n == v@.len(),
                    i + 1 <= k <= n,
                    tail@ == v@.subrange(i + 1, k as int),
                decreases n - k,
            {
                tail.push(v[k]);
                k = k + 1;
                proof {
                    assert(tail@ =~= v@.subrange(i + 1, k as int));
                }
            }
            proof {
                assert(tail@ =~= v@.skip(i + 1));
                assert(head@ =~= v@.take(i as int));
            }
            let rest = split_ws_chars(&tail);
            let mut r: Vec<String> = Vec::new();
            r.push(string_from_chars(&head));
            let mut m: usize = 0;
            while m < rest.len()
                invariant
                    m <= rest@.len(),
                    r@.len() == 1 + m,
                    r@[0]@ == v@.take(spec_ws_at(v@) as int),
                    forall|t: int| 0 <= t < m ==> #[trigger] r@[1 + t]@ == rest.deep_view()[t],
                decreases rest@.len() - m,
            {
                r.push(rest[m].clone());
                m = m + 1;
            }
            proof {
                assert forall|t: int| 0 <= t < r.deep_view().len() implies r.deep_view()[t]
                    == spec_split_ws(v@)[t] by {
                    if t > 0 {
                        let tt = t - 1;
                        assert(r@[1 + tt]@ == rest.deep_view()[tt]);
                    }
                }
                assert(r.deep_view() =~= spec_split_ws(v@));
            }
            r
        },
    }
}

/// One line piece with a trailing carriage return removed.
pub open spec fn spec_line_of(p: Seq<char>) -> Seq<char> {
    if p.len() > 0 && p.last() == '\r' {
        p.drop_last()
    } else {
        p
    }
}

/// The lines of `s`: pieces split at newlines, each inner piece stripped of
/// one trailing carriage return, without a final empty piece.
pub open spec fn spec_lines(s: Seq<char>) -> Seq<Seq<char>> {
    let ps = spec_split_char(s, '\n');
    if ps.last().len() == 0 {
        ps.drop_last().map_values(|p: Seq<char>| spec_line_of(p))
    } else {
        ps.drop_last().map_values(|p: Seq<char>| spec_line_of(p)).push(ps.last())
    }
}

/// The pieces of `s` between occurrences of a non-empty separator.
pub open spec fn spec_split_str(s: Seq<char>, sep: Seq<char>) -> Seq<Seq<char>>
    decreases s.len(),
{
    if sep.len() == 0 {
        seq![s]
    } else {
        match spec_find_sub(s, sep) {
            None => seq![s],
            Some(i) => {
                let j = vstd::math::min((i + sep.len()) as int, s.len() as int);
                if j < 1 {
                    seq![s]
                } else {
                    seq![s.take(i as int)] + spec_split_str(s.skip(j), sep)
                }
            },
        }
    }
}

/// At most `k` pieces of `s` between occurrences of a non-empty separator;
/// the last piece keeps any further separators.
pub open spec fn spec_splitn(s: Seq<char>, sep: Seq<char>, k: int) -> Seq<Seq<char>>
    decreases s.len(),
{
    if sep.len() == 0 || k <= 1 {
        seq![s]
    } else {
        match spec_find_sub(s, sep) {
            None => seq![s],
            Some(i) => {
                let j = vstd::math::min((i + sep.len()) as int, s.len() as int);
                if j < 1 {
                    seq![s]
                } else {
                    seq![s.take(i as int)] + spec_splitn(s.skip(j), sep, k - 1)
                }
            },
        }
    }
}

fn split_by(s: &str, sep: &str) -> (r: Vec<String>)
    requires
        sep@.len() > 0,
    ensures
        r.deep_view() == spec_split_str(s@, sep@),
    decreases s@.len(),
{
    let v = chars_vec(s);
    let p = chars_vec(sep);
    let n = v.len();
    let m = p.len();
    match find_sub(&v, &p) {
        None => {
            let mut r: Vec<String> = Vec::new();
            r.push(String::from_str(s));
            proof {
                assert(r.deep_view() =~= spec_split_str(s@, sep@));
            }
            r
        },
        Some(i) => {
            proof {
                lemma_find_sub(s@, sep@);
                assert(spec_matches_at(s@, sep@, i as int));
            }
            let head = String::from_str(s.substring_char(0, i));
            let tail = s.substring_char(i + m, n);
            let rest = split_by(tail, sep);
            let mut r: Vec<String> = Vec::new();
            r.push(head);
            let mut t: usize = 0;
            while t < rest.len()
                invariant
                    t <= rest@.len(),
                    r@.len() == 1 + t,
                    r@[0]@ == s@.subrange(0, i as int),
                    forall|w: int| 0 <= w < t ==> #[trigger] r@[1 + w]@ == rest.deep_view()[w],
                decreases rest@.len() - t,
            {
                r.push(rest[t].clone());
                t = t + 1;
            }
            proof {
                assert(tail@ =~= s@.skip(i + m));
                assert(s@.subrange(0, i as int) =~= s@.take(i as int));
                assert forall|w: int| 0 <= w < r.deep_view().len() implies r.deep_view()[w]
                    == spec_split_str(s@, sep@)[w] by {
                    if w > 0 {
                        let ww = w - 1;
                        assert(r@[1 + ww]@ == rest.deep_view()[ww]);
                    }
                }
                assert(r.deep_view() =~= spec_split_str(s@, sep@));
            }
            r
        },
    }
}

fn splitn_by(s: &str, sep: &str, k: usize) -> (r: Vec<String>)
    requires
        sep@.len() > 0,
    ensures
        r.deep_view() == spec_splitn(s@, sep@, k as int),
    decreases s@.len(),
{
    let v = chars_vec(s);
    let p = chars_vec(sep);
    let n = v.len();
    let m = p.len();
    if k <= 1 {
        let mut r: Vec<String> = Vec::new();
        r.push(String::from_str(s));
        proof {
            assert(r.deep_view() =~= spec_splitn(s@, sep@, k as int));
        }
        return r;
    }
    match find_sub(&v, &p) {
        None => {
            let mut r: Vec<String> = Vec::new();
            r.push(String::from_str(s));
            proof {
                assert(r.deep_view() =~= spec_splitn(s@, sep@, k as int));
            }
            r
        },
        Some(i) => {
            proof {
                lemma_find_sub(s@, sep@);
                assert(spec_matches_at(s@, sep@, i as int));
            }
            let head = String::from_str(s.substring_char(0, i));
            let tail = s.substring_char(i + m, n);
            let rest = splitn_by(tail, sep, k - 1);
            let mut r: Vec<String> = Vec::new();
            r.push(head);
            let mut t: usize = 0;
            while t < rest.len()
                invariant
                    t <= rest@.len(),
                    r@.len() == 1 + t,
                    r@[0]@ == s@.subrange(0, i as int),
                    forall|w: int| 0 <= w < t ==> #[trigger] r@[1 + w]@ == rest.deep_view()[w],
                decreases rest@.len() - t,
            {
                r.push(rest[t].clone());
                t = t + 1;
            }
            proof {
                assert(tail@ =~= s@.skip(i + m));
                assert(s@.subrange(0, i as int) =~= s@.take(i as int));
                assert forall|w: int| 0 <= w < r.deep_view().len() implies r.deep_view()[w]
                    == spec_splitn(s@, sep@, k as int)[w] by {
                    if w > 0 {
                        let ww = w - 1;
                        assert(r@[1 + ww]@ == rest.deep_view()[ww]);
                    }
                }
                assert(r.deep_view() =~= spec_splitn(s@, sep@, k as int));
            }
            r
        },
    }
}

impl Str {
    /// The white-space-separated words of `s`.
    pub fn words(&self, s: &str) -> (r: Vec<String>)
        ensures
            r.deep_view() == spec_words(s@),
    {
        let v = chars_vec(s);
        let parts = split_ws_chars(&v);
        let r = nonempty_from(&parts, 0);
        proof {
            assert(parts.deep_view().skip(0) =~= parts.deep_view());
        }
        r
    }

    /// The lines of `s`, split at newlines, with carriage returns before
    /// newlines removed and no final empty line.
    pub fn lines(&self, s: &str) -> (r: Vec<String>)
        ensures
            r.deep_view() == spec_lines(s@),
    {
        let pieces = crate::text::split_char_str(s, '\n');
        let total = pieces.len();
        proof {
            crate::text::lemma_split_char_len(s@, '\n');
        }
        let mut r: Vec<String> = Vec::new();
        let mut i: usize = 0;
        while i < total - 1
            invariant
                total == pieces@.len(),
                total >= 1,
                i <= total - 1,
                r@.len() == i,
                forall|j: int|
                    0 <= j < i ==> #[trigger] r@[j]@ == spec_line_of(pieces.deep_view()[j]),
            decreases total - 1 - i,
        {
            let piece = &pieces[i];
            let n = piece.as_str().unicode_len();
            if n > 0 && piece.as_str().get_char(n - 1) == '\r' {
                let stripped = String::from_str(piece.as_str().substring_char(0, n - 1));
                proof {
                    assert(piece@.subrange(0, n - 1) =~= piece@.drop_last());
                }
                r.push(stripped);
            } else {
                r.push(piece.clone());
            }
            i = i + 1;
        }
        let last = &pieces[total - 1];
        if !last.as_str().is_empty() {
            r.push(last.clone());
        }
        proof {
            assert(pieces.deep_view().last() == pieces.deep_view()[total - 1]);
            assert(r.deep_view() =~= spec_lines(s@));
        }
        r
    }

    /// The pieces of `s` between occurrences of `sep`; an empty separator
    /// splits into single characters.
    pub fn split(&self, s: &str, sep: &str) -> (r: Vec<String>)
        ensures
            sep@.len() == 0 ==> r.deep_view() == s@.map_values(|c: char| seq![c]),
            sep@.len() > 0 ==> r.deep_view() == spec_split_str(s@, sep@),
    {
        if sep.is_empty() {
            self.chars(s)
        } else {
            split_by(s, sep)
        }
    }

    /// At most `limit` (at least one) pieces of `s` between occurrences of
    /// `sep`, the last keeping the rest; an empty separator yields the first
    /// `limit` characters.
    #[allow(non_snake_case)]
    pub fn splitLimit(&self, s: &str, sep: &str, limit: usize) -> (r: Vec<String>)
        ensures
            sep@.len() == 0 ==> r.deep_view() == s@.take(
                vstd::math::min(
                    vstd::math::max(limit as int, 1),
                    s@.len() as int,
                ),
            ).map_values(|c: char| seq![c]),
            sep@.len() > 0 ==> r.deep_view() == spec_splitn(
                s@,
                sep@,
                vstd::math::max(limit as int, 1),
            ),
    {
        let lim: usize = if limit < 1 {
            1
        } else {
            limit
        };
        if sep.is_empty() {
            let n = s.unicode_len();
            let upto = if lim < n {
                lim
            } else {
                n
            };
            let mut r: Vec<String> = Vec::new();
            let mut i: usize = 0;
            while i < upto
                invariant
                    n == s@.len(),
                    i <= upto <= n,
                    r@.len() == i,
                    forall|j: int| 0 <= j < i ==> #[trigger] r@[j]@ == seq![s@[j]],
                decreases upto - i,
            {
                let mut one = String::new();
                push_char(&mut one, s.get_char(i));
                r.push(one);
                i = i + 1;
            }
            proof {
                assert(r.deep_view() =~= s@.take(
                    vstd::math::min(
                        vstd::math::max(limit as int, 1),
                        s@.len() as int,
                    ),
                ).map_values(|c: char| seq![c]));
            }
            r
        } else {
            splitn_by(s, sep, lim)
        }
    }
}


/// The position of the last occurrence of `pat` in `s`, if any.
pub open spec fn spec_rfind_sub(s: Seq<char>, pat: Seq<char>) -> Option<nat>
    decreases s.len(),
{
    if pat.len() > s.len() {
        None
    } else if spec_matches_at(s, pat, s.len() - pat.len()) {
        Some((s.len() - pat.len()) as nat)
    } else if s.len() == 0 {
        None
    } else {
        spec_rfind_sub(s.drop_last(), pat)
    }
}

/// Matches away from the end survive dropping the last character.
pub proof fn lemma_matches_drop_last(s: Seq<char>, pat: Seq<char>, j: int)
    requires
        s.len() > 0,
        0 <= j,
        j + pat.len() <= s.len() - 1,
    ensures
        spec_matches_at(s.drop_last(), pat, j) == spec_matches_at(s, pat, j),
{
    assert(s.drop_last().subrange(j, j + pat.len()) =~= s.subrange(j, j + pat.len()));
}

/// What [`spec_rfind_sub`] means: a found position is the last match, and
/// `None` means no position matches.
pub proof fn lemma_rfind_sub(s: Seq<char>, pat: Seq<char>)
    ensures
        match spec_rfind_sub(s, pat) {
            Some(i) => spec_matches_at(s, pat, i as int) && forall|j: int|
                i < j ==> !spec_matches_at(s, pat, j),
            None => forall|j: int| !spec_matches_at(s, pat, j),
        },
    decreases s.len(),
{
    if pat.len() > s.len() {
    } else if spec_matches_at(s, pat, s.len() - pat.len()) {
        assert forall|j: int| s.len() - pat.len() < j implies !spec_matches_at(s, pat, j) by {}
    } else if s.len() == 0 {
        assert forall|j: int| !spec_matches_at(s, pat, j) by {
            if 0 <= j && j + pat.len() <= s.len() {
                assert(j == 0 && pat.len() == 0);
                assert(s.subrange(0, 0) =~= pat);
            }
        }
    } else {
        lemma_rfind_sub(s.drop_last(), pat);
        match spec_rfind_sub(s.drop_last(), pat) {
            Some(i) => {
                lemma_matches_drop_last(s, pat, i as int);
                assert forall|j: int| i < j implies !spec_matches_at(s, pat, j) by {
                    if 0 <= j && j + pat.len() <= s.len() - 1 {
                        lemma_matches_drop_last(s, pat, j);
                    }
                }
            },
            None => {
                assert forall|j: int| !spec_matches_at(s, pat, j) by {
                    if 0 <= j && j + pat.len() <= s.len() - 1 {
                        lemma_matches_drop_last(s, pat, j);
                    }
                }
            },
        }
    }
}

/// How many non-overlapping occurrences of `sub` sit in `s`, scanned from
/// the left; zero for an empty `sub`.
pub open spec fn spec_count_sub(s: Seq<char>, sub: Seq<char>) -> nat
    decreases s.len(),
{
    if sub.len() == 0 {
        0
    } else {
        match spec_find_sub(s, sub) {
            None => 0,
            Some(i) => {
                let j = vstd::math::min((i + sub.len()) as int, s.len() as int);
                if j < 1 {
                    0
                } else {
                    1 + spec_count_sub(s.skip(j), sub)
                }
            },
        }
    }
}

/// Counting consumes at least one character per occurrence.
pub proof fn lemma_count_le_len(s: Seq<char>, sub: Seq<char>)
    ensures
        spec_count_sub(s, sub) <= s.len(),
    decreases s.len(),
{
    if sub.len() == 0 {
    } else {
        match spec_find_sub(s, sub) {
            None => {},
            Some(i) => {
                let j = vstd::math::min((i + sub.len()) as int, s.len() as int);
                if j >= 1 {
                    lemma_count_le_len(s.skip(j), sub);
                }
            },
        }
    }
}

fn count_by(s: &str, sub: &str) -> (r: usize)
    requires
        sub@.len() > 0,
    ensures
        r == spec_count_sub(s@, sub@),
        r <= s@.len(),
    decreases s@.len(),
{
    proof {
        lemma_count_le_len(s@, sub@);
    }
    let v = chars_vec(s);
    let p = chars_vec(sub);
    let n = v.len();
    let m = p.len();
    match find_sub(&v, &p) {
        None => 0,
        Some(i) => {
            proof {
                lemma_find_sub(s@, sub@);
                assert(spec_matches_at(s@, sub@, i as int));
            }
            let tail = s.substring_char(i + m, n);
            proof {
                assert(tail@ =~= s@.skip(i + m));
            }
            let c = count_by(tail, sub);
            1 + c
        },
    }
}

/// All non-overlapping occurrences of a non-empty `old` replaced by `new`,
/// scanning from the left.
pub open spec fn spec_replace_all(s: Seq<char>, old_s: Seq<char>, new_s: Seq<char>) -> Seq<char>
    decreases s.len(),
{
    if old_s.len() == 0 {
        s
    } else {
        match spec_find_sub(s, old_s) {
            None => s,
            Some(i) => {
                let j = vstd::math::min((i + old_s.len()) as int, s.len() as int);
                if j < 1 {
                    s
                } else {
                    s.take(i as int) + new_s + spec_replace_all(s.skip(j), old_s, new_s)
                }
            },
        }
    }
}

/// `new` inserted before every character of `s` and at the end: what
/// replacing the empty pattern everywhere produces.
pub open spec fn spec_interleave(s: Seq<char>, new_s: Seq<char>) -> Seq<char>
    decreases s.len(),
{
    if s.len() == 0 {
        new_s
    } else {
        new_s + seq![s[0]] + spec_interleave(s.drop_first(), new_s)
    }
}

fn replace_all_by(s: &str, old_s: &str, new_s: &str) -> (r: String)
    requires
        old_s@.len() > 0,
    ensures
        r@ == spec_replace_all(s@, old_s@, new_s@),
    decreases s@.len(),
{
    let v = chars_vec(s);
    let p = chars_vec(old_s);
    let n = v.len();
    let m = p.len();
    match find_sub(&v, &p) {
        None => String::from_str(s),
        Some(i) => {
            proof {
                lemma_find_sub(s@, old_s@);
                assert(spec_matches_at(s@, old_s@, i as int));
            }
            let mut r = String::from_str(s.substring_char(0, i));
            r.append(new_s);
            let tail = s.substring_char(i + m, n);
            proof {
                assert(tail@ =~= s@.skip(i + m));
                assert(s@.subrange(0, i as int) =~= s@.take(i as int));
            }
            let rest = replace_all_by(tail, old_s, new_s);
            r.append(rest.as_str());
            r
        },
    }
}

fn interleave_by(s: &str, new_s: &str) -> (r: String)
    ensures
        r@ == spec_interleave(s@, new_s@),
    decreases s@.len(),
{
    let n = s.unicode_len();
    if n == 0 {
        String::from_str(new_s)
    } else {
        let mut r = String::from_str(new_s);
        push_char(&mut r, s.get_char(0));
        let tail = s.substring_char(1, n);
        proof {
            assert(tail@ =~= s@.drop_first());
        }
        let rest = interleave_by(tail, new_s);
        r.append(rest.as_str());
        proof {
            assert(r@ =~= spec_interleave(s@, new_s@));
        }
        r
    }
}

/// The camel-case fold: the text built so far, whether the next letter is
/// to be capitalized, and whether no letter has been written yet.
pub open spec fn spec_camel(s: Seq<char>) -> (Seq<char>, bool, bool)
    decreases s.len(),
{
    if s.len() == 0 {
        (Seq::<char>::empty(), false, true)
    } else {
        let prev = spec_camel(s.drop_last());
        let c = s.last();
        if c == '_' || c == '-' || c == ' ' {
            (prev.0, true, prev.2)
        } else if is_alnum_char(c) {
            if prev.2 {
                (prev.0.push(spec_lower_char(c)), prev.1, false)
            } else if prev.1 {
                (prev.0.push(spec_upper_char(c)), false, prev.2)
            } else {
                (prev.0.push(spec_lower_char(c)), prev.1, prev.2)
            }
        } else {
            prev
        }
    }
}

/// The snake-case fold: the text built so far and whether the previous kept
/// character was lowercase.
pub open spec fn spec_snake(s: Seq<char>) -> (Seq<char>, bool)
    decreases s.len(),
{
    if s.len() == 0 {
        (Seq::<char>::empty(), false)
    } else {
        let prev = spec_snake(s.drop_last());
        let c = s.last();
        if c == ' ' || c == '-' {
            (
                if prev.0.len() > 0 && prev.0.last() != '_' {
                    prev.0.push('_')
                } else {
                    prev.0
                },
                false,
            )
        } else if is_upper_char(c) {
            (
                (if prev.1 {
                    prev.0.push('_')
                } else {
                    prev.0
                }).push(spec_lower_char(c)),
                false,
            )
        } else if is_alnum_char(c) {
            (prev.0.push(c), is_lower_char(c))
        } else {
            prev
        }
    }
}

/// The kebab-case fold, as the snake-case fold with dashes.
pub open spec fn spec_kebab(s: Seq<char>) -> (Seq<char>, bool)
    decreases s.len(),
{
    if s.len() == 0 {
        (Seq::<char>::empty(), false)
    } else {
        let prev = spec_kebab(s.drop_last());
        let c = s.last();
        if c == ' ' || c == '_' {
            (
                if prev.0.len() > 0 && prev.0.last() != '-' {
                    prev.0.push('-')
                } else {
                    prev.0
                },
                false,
            )
        } else if is_upper_char(c) {
            (
                (if prev.1 {
                    prev.0.push('-')
                } else {
                    prev.0
                }).push(spec_lower_char(c)),
                false,
            )
        } else if is_alnum_char(c) {
            (prev.0.push(c), is_lower_char(c))
        } else {
            prev
        }
    }
}

impl Str {
    /// Whether `sub` occurs in `s`.
    pub fn contains(&self, s: &str, sub: &str) -> (r: bool)
        ensures
            r == (spec_find_sub(s@, sub@) is Some),
    {
        let v = chars_vec(s);
        let p = chars_vec(sub);
        find_sub(&v, &p).is_some()
    }

    /// Whether `s` begins with `prefix`.
    #[allow(non_snake_case)]
    pub fn startsWith(&self, s: &str, prefix: &str) -> (r: bool)
        ensures
            r == spec_matches_at(s@, prefix@, 0),
    {
        let n = s.unicode_len();
        let m = prefix.unicode_len();
        if m > n {
            return false;
        }
        let mut k: usize = 0;
        while k < m
            invariant
                n == s@.len(),
                m == prefix@.len(),
                m <= n,
                k <= m,
                forall|j: int| 0 <= j < k ==> s@[j] == prefix@[j],
            decreases m - k,
        {
            if s.get_char(k) != prefix.get_char(k) {
                proof {
                    if spec_matches_at(s@, prefix@, 0) {
                        assert(s@.subrange(0, m as int)[k as int] == prefix@[k as int]);
                    }
                }
                return false;
            }
            k = k + 1;
        }
        proof {
            assert(s@.subrange(0, m as int) =~= prefix@);
        }
        true
    }

    /// Whether `s` ends with `suffix`.
    #[allow(non_snake_case)]
    pub fn endsWith(&self, s: &str, suffix: &str) -> (r: bool)
        ensures
            r == spec_matches_at(s@, suffix@, s@.len() - suffix@.len()),
    {
        let n = s.unicode_len();
        let m = suffix.unicode_len();
        if m > n {
            return false;
        }
        let base = n - m;
        let mut k: usize = 0;
        while k < m
            invariant
                n == s@.len(),
                m == suffix@.len(),
                m <= n,
                base == n - m,
                k <= m,
                forall|j: int| 0 <= j < k ==> s@[base + j] == suffix@[j],
            decreases m - k,
        {
            if s.get_char(base + k) != suffix.get_char(k) {
                proof {
                    if spec_matches_at(s@, suffix@, n - m) {
                        assert(s@.subrange(base as int, n as int)[k as int]
                            == suffix@[k as int]);
                    }
                }
                return false;
            }
            k = k + 1;
        }
        proof {
            assert(s@.subrange(base as int, n as int) =~= suffix@);
        }
        true
    }

    /// The character position of the first occurrence of `sub`, if any.
    #[allow(non_snake_case)]
    pub fn indexOf(&self, s: &str, sub: &str) -> (r: Option<usize>)
        ensures
            match r {
                Some(i) => Some(i as nat) == spec_find_sub(s@, sub@),
                None => spec_find_sub(s@, sub@) is None,
            },
    {
        let v = chars_vec(s);
        let p = chars_vec(sub);
        find_sub(&v, &p)
    }

    /// The character position of the last occurrence of `sub`, if any.
    #[allow(non_snake_case)]
    pub fn lastIndexOf(&self, s: &str, sub: &str) -> (r: Option<usize>)
        ensures
            match r {
                Some(i) => Some(i as nat) == spec_rfind_sub(s@, sub@),
                None => spec_rfind_sub(s@, sub@) is None,
            },
    {
        proof {
            lemma_rfind_sub(s@, sub@);
        }
        let v = chars_vec(s);
        let p = chars_vec(sub);
        let n = v.len();
        let m = p.len();
        if m > n {
            proof {
                if spec_rfind_sub(s@, sub@) is Some {
                    let i = spec_rfind_sub(s@, sub@).unwrap();
                    assert(spec_matches_at(s@, sub@, i as int));
                }
            }
            return None;
        }
        if m == 0 {
            proof {
                assert(s@.subrange(n as int, n as int) =~= sub@);
                assert(spec_matches_at(s@, sub@, n as int));
            }
            return Some(n);
        }
        let mut i: usize = n - m + 1;
        while i > 0
            invariant
                n == s@.len(),
                m == sub@.len(),
                m <= n,
                v@ == s@,
                p@ == sub@,
                i <= n - m + 1,
                forall|j: int| i <= j ==> !spec_matches_at(s@, sub@, j),
            decreases i,
        {
            let pos = i - 1;
            let mut k: usize = 0;
            let mut all_eq = true;
            while k < m
                invariant
                    n == s@.len(),
                    m == sub@.len(),
                    v@ == s@,
                    p@ == sub@,
                    pos + m <= n,
                    k <= m,
                    all_eq == (s@.subrange(pos as int, pos + k) =~= sub@.subrange(0, k as int)),
                decreases m - k,
            {
                if v[pos + k] != p[k] {
                    all_eq = false;
                    proof {
                        assert(s@.subrange(pos as int, pos + k + 1)[k as int] != sub@.subrange(
                            0,
                            k as int + 1,
                        )[k as int]);
                    }
                } else {
                    proof {
                        if all_eq {
                            assert(s@.subrange(pos as int, pos + k + 1) =~= s@.subrange(
                                pos as int,
                                pos + k,
                            ).push(s@[pos + k]));
                            assert(sub@.subrange(0, k as int + 1) =~= sub@.subrange(
                                0,
                                k as int,
                            ).push(sub@[k as int]));
                        } else {
                            let w = choose|w: int|
                                0 <= w < k && s@.subrange(pos as int, pos + k)[w]
                                    != sub@.subrange(0, k as int)[w];
                            assert(s@.subrange(pos as int, pos + k + 1)[w] != sub@.subrange(
                                0,
                                k as int + 1,
                            )[w]);
                        }
                    }
                }
                k = k + 1;
            }
            if all_eq {
                proof {
                    lemma_rfind_sub(s@, sub@);
                    assert(sub@.subrange(0, m as int) =~= sub@);
                    assert(spec_matches_at(s@, sub@, pos as int));
                    match spec_rfind_sub(s@, sub@) {
                        Some(f) => {
                            if f > pos {
                                assert(!spec_matches_at(s@, sub@, f as int));
                            }
                            if f < pos {
                                assert(!spec_matches_at(s@, sub@, pos as int));
                            }
                        },
                        None => {
                            assert(!spec_matches_at(s@, sub@, pos as int));
                        },
                    }
                }
                return Some(pos);
            }
            proof {
                assert(sub@.subrange(0, m as int) =~= sub@);
            }
            i = i - 1;
        }
        proof {
            lemma_rfind_sub(s@, sub@);
            if spec_rfind_sub(s@, sub@) is Some {
                let f = spec_rfind_sub(s@, sub@).unwrap();
                assert(spec_matches_at(s@, sub@, f as int));
                assert(false);
            }
        }
        None
    }

    /// How many non-overlapping occurrences of `sub` sit in `s`; zero for an
    /// empty `sub`.
    pub fn count(&self, s: &str, sub: &str) -> (r: usize)
        ensures
            r == spec_count_sub(s@, sub@),
    {
        if sub.is_empty() {
            0
        } else {
            count_by(s, sub)
        }
    }

    /// `s` with its first occurrence of `old_s` (if any) replaced by
    /// `new_s`.
    pub fn replace(&self, s: &str, old_s: &str, new_s: &str) -> (r: String)
        ensures
            r@ == crate::text::spec_replace_first(s@, old_s@, new_s@),
    {
        crate::text::replace_first(s, old_s, new_s)
    }

    /// `s` with every non-overlapping occurrence of `old_s` replaced by
    /// `new_s`; an empty `old_s` matches before every character and at the
    /// end.
    #[allow(non_snake_case)]
    pub fn replaceAll(&self, s: &str, old_s: &str, new_s: &str) -> (r: String)
        ensures
            old_s@.len() == 0 ==> r@ == spec_interleave(s@, new_s@),
            old_s@.len() > 0 ==> r@ == spec_replace_all(s@, old_s@, new_s@),
    {
        if old_s.is_empty() {
            interleave_by(s, new_s)
        } else {
            replace_all_by(s, old_s, new_s)
        }
    }

    /// `s` shortened to `length` characters, the last three replaced by
    /// `...` when there is room for them.
    pub fn truncate(&self, s: &str, length: usize) -> (r: String)
        ensures
            r@ == if s@.len() <= length {
                s@
            } else if length <= 3 {
                s@.take(length as int)
            } else {
                s@.take(length - 3) + "..."@
            },
    {
        let n = s.unicode_len();
        if n <= length {
            return String::from_str(s);
        }
        if length <= 3 {
            return String::from_str(s.substring_char(0, length));
        }
        let mut r = String::from_str(s.substring_char(0, length - 3));
        r.append("...");
        proof {
            assert(r@ =~= s@.take(length - 3) + "..."@);
        }
        r
    }

    /// `s` shortened to `length` characters, ending in `ellipsis` when there
    /// is room for it.
    #[allow(non_snake_case)]
    pub fn truncateWith(&self, s: &str, length: usize, ellipsis: &str) -> (r: String)
        ensures
            r@ == if s@.len() <= length {
                s@
            } else if length <= ellipsis@.len() {
                s@.take(length as int)
            } else {
                s@.take(length - ellipsis@.len()) + ellipsis@
            },
    {
        let n = s.unicode_len();
        if n <= length {
            return String::from_str(s);
        }
        let e = ellipsis.unicode_len();
        if length <= e {
            return String::from_str(s.substring_char(0, length));
        }
        let mut r = String::from_str(s.substring_char(0, length - e));
        r.append(ellipsis);
        proof {
            assert(r@ =~= s@.take(length - ellipsis@.len()) + ellipsis@);
        }
        r
    }

    /// `s` in camel case: separators drop and capitalize the next letter,
    /// the first kept letter is lowercased, everything else keeps only
    /// alphanumerics with ASCII case adjustment.
    #[allow(non_snake_case)]
    pub fn camelCase(&self, s: &str) -> (r: String)
        ensures
            r@ == spec_camel(s@).0,
    {
        let n = s.unicode_len();
        let mut acc: Vec<char> = Vec::new();
        let mut capitalize_next = false;
        let mut first = true;
        let mut i: usize = 0;
        while i < n
            invariant
                n == s@.len(),
                i <= n,
                (acc@, capitalize_next, first) == spec_camel(s@.take(i as int)),
            decreases n - i,
        {
            proof {
                assert(s@.take(i + 1).drop_last() =~= s@.take(i as int));
                assert(s@.take(i + 1).last() == s@[i as int]);
            }
            let c = s.get_char(i);
            if c == '_' || c == '-' || c == ' ' {
                capitalize_next = true;
            } else if char_is_alphanumeric(c) {
                if first {
                    acc.push(lower_char(c));
                    first = false;
                } else if capitalize_next {
                    acc.push(upper_char(c));
                    capitalize_next = false;
                } else {
                    acc.push(lower_char(c));
                }
            }
            i = i + 1;
        }
        proof {
            assert(s@.take(n as int) =~= s@);
        }
        string_from_chars(&acc)
    }

    /// `s` in snake case: spaces and dashes become single underscores, a
    /// lower-to-upper boundary inserts one, uppercase letters lower.
    #[allow(non_snake_case)]
    pub fn snakeCase(&self, s: &str) -> (r: String)
        ensures
            r@ == spec_snake(s@).0,
    {
        let n = s.unicode_len();
        let mut acc: Vec<char> = Vec::new();
        let mut prev_was_lower = false;
        let mut i: usize = 0;
        while i < n
            invariant
                n == s@.len(),
                i <= n,
                (acc@, prev_was_lower) == spec_snake(s@.take(i as int)),
            decreases n - i,
        {
            proof {
                assert(s@.take(i + 1).drop_last() =~= s@.take(i as int));
                assert(s@.take(i + 1).last() == s@[i as int]);
            }
            let c = s.get_char(i);
            if c == ' ' || c == '-' {
                if acc.len() > 0 && acc[acc.len() - 1] != '_' {
                    acc.push('_');
                }
                prev_was_lower = false;
            } else if char_is_uppercase(c) {
                if prev_was_lower {
                    acc.push('_');
                }
                acc.push(lower_char(c));
                prev_was_lower = false;
            } else if char_is_alphanumeric(c) {
                acc.push(c);
                prev_was_lower = char_is_lowercase(c);
            }
            i = i + 1;
        }
        proof {
            assert(s@.take(n as int) =~= s@);
        }
        string_from_chars(&acc)
    }

    /// `s` in kebab case: spaces and underscores become single dashes, a
    /// lower-to-upper boundary inserts one, uppercase letters lower.
    #[allow(non_snake_case)]
    pub fn kebabCase(&self, s: &str) -> (r: String)
        ensures
            r@ == spec_kebab(s@).0,
    {
        let n = s.unicode_len();
        let mut acc: Vec<char> = Vec::new();
        let mut prev_was_lower = false;
        let mut i: usize = 0;
        while i < n
            invariant
                n == s@.len(),
                i <= n,
                (acc@, prev_was_lower) == spec_kebab(s@.take(i as int)),
            decreases n - i,
        {
            proof {
                assert(s@.take(i + 1).drop_last() =~= s@.take(i as int));
                assert(s@.take(i + 1).last() == s@[i as int]);
            }
            let c = s.get_char(i);
            if c == ' ' || c == '_' {
                if acc.len() > 0 && acc[acc.len() - 1] != '-' {
                    acc.push('-');
                }
                prev_was_lower = false;
            } else if char_is_uppercase(c) {
                if prev_was_lower {
                    acc.push('-');
                }
                acc.push(lower_char(c));
                prev_was_lower = false;
            } else if char_is_alphanumeric(c) {
                acc.push(c);
                prev_was_lower = char_is_lowercase(c);
            }
            i = i + 1;
        }
        proof {
            assert(s@.take(n as int) =~= s@);
        }
        string_from_chars(&acc)
    }
}

} // verus!
