//! Small verified text helpers shared across the library: character
//! vectors, decimal rendering, and zero-padding.

use vstd::prelude::*;

verus! {

/// Relies on `String::push`: appends the given character to the end of the
/// string.
#[verifier::external_body]
pub fn push_char(s: &mut String, c: char)
    ensures
        final(s)@ == old(s)@.push(c),
{
    s.push(c)
}

/// The characters of `s`, as a vector.
pub fn chars_vec(s: &str) -> (v: Vec<char>)
    ensures
        v@ == s@,
{
    let n = s.unicode_len();
    let mut v: Vec<char> = Vec::new();
    let mut i: usize = 0;
    while i < n
        invariant
            n == s@.len(),
            i <= n,
            v@ == s@.subrange(0, i as int),
        decreases n - i,
    {
        v.push(s.get_char(i));
        i = i + 1;
        proof {
            assert(v@ =~= s@.subrange(0, i as int));
        }
    }
    proof {
        assert(v@ =~= s@);
    }
    v
}

/// The string holding exactly the characters of `v`.
pub fn string_from_chars(v: &Vec<char>) -> (s: String)
    ensures
        s@ == v@,
{
    let mut s = String::new();
    let mut i: usize = 0;
    while i < v.len()
        invariant
            i <= v@.len(),
            s@ == v@.subrange(0, i as int),
        decreases v@.len() - i,
    {
        push_char(&mut s, v[i]);
        i = i + 1;
        proof {
            assert(s@ =~= v@.subrange(0, i as int));
        }
    }
    proof {
        assert(s@ =~= v@);
    }
    s
}

/// The ASCII digit for `d` (meaningful for `0 <= d < 10`).
pub open spec fn spec_digit(d: int) -> char {
    ((48 + d) as u8) as char
}

/// The decimal rendering of `n`, most significant digit first, no sign and
/// no leading zero (except for `0` itself).
pub open spec fn spec_dec(n: nat) -> Seq<char>
    decreases n,
{
    if n < 10 {
        seq![spec_digit(n as int)]
    } else {
        spec_dec(n / 10).push(spec_digit((n % 10) as int))
    }
}

/// Renders `n` in decimal.
pub fn u64_dec_string(n: u64) -> (s: String)
    ensures
        s@ == spec_dec(n as nat),
    decreases n,
{
    if n < 10 {
        let mut s = String::new();
        push_char(&mut s, ((48 + (n as u8)) as u8) as char);
        s
    } else {
        let mut s = u64_dec_string(n / 10);
        push_char(&mut s, ((48 + ((n % 10) as u8)) as u8) as char);
        s
    }
}

/// `k` copies of `c` (empty when `k <= 0`).
pub open spec fn spec_repeat_char(c: char, k: int) -> Seq<char>
    decreases k,
{
    if k <= 0 {
        Seq::<char>::empty()
    } else {
        spec_repeat_char(c, k - 1).push(c)
    }
}

/// A string of `k` copies of `c`.
pub fn repeat_char(c: char, k: usize) -> (s: String)
    ensures
        s@ == spec_repeat_char(c, k as int),
{
    let mut s = String::new();
    let mut i: usize = 0;
    while i < k
        invariant
            i <= k,
            s@ == spec_repeat_char(c, i as int),
        decreases k - i,
    {
        push_char(&mut s, c);
        i = i + 1;
    }
    s
}

/// The decimal rendering of `n`, zero-padded on the left to at least `w`
/// characters.
pub open spec fn spec_dec_pad(n: nat, w: int) -> Seq<char> {
    spec_repeat_char('0', w - spec_dec(n).len()) + spec_dec(n)
}

/// Renders `n` in decimal, left-padded with zeros to at least `w` characters.
pub fn u64_dec_pad_string(n: u64, w: usize) -> (s: String)
    ensures
        s@ == spec_dec_pad(n as nat, w as int),
{
    let digits = u64_dec_string(n);
    let len = digits.as_str().unicode_len();
    let mut s = if len < w {
        repeat_char('0', w - len)
    } else {
        String::new()
    };
    proof {
        assert(s@ =~= spec_repeat_char('0', w - spec_dec(n as nat).len()));
    }
    s.append(digits.as_str());
    s
}


/// ASCII lowering of one character: `A`–`Z` shift to `a`–`z`, everything
/// else is unchanged.
pub open spec fn spec_lower_char(c: char) -> char {
    if 65 <= c as u32 && c as u32 <= 90 {
        ((c as u8) + 32) as char
    } else {
        c
    }
}

/// ASCII raising of one character: `a`–`z` shift to `A`–`Z`, everything
/// else is unchanged.
pub open spec fn spec_upper_char(c: char) -> char {
    if 97 <= c as u32 && c as u32 <= 122 {
        ((c as u8) - 32) as char
    } else {
        c
    }
}

/// Lowers one character, ASCII only.
pub fn lower_char(c: char) -> (r: char)
    ensures
        r == spec_lower_char(c),
{
    if 65 <= c as u32 && c as u32 <= 90 {
        ((c as u8) + 32) as char
    } else {
        c
    }
}

/// Raises one character, ASCII only.
pub fn upper_char(c: char) -> (r: char)
    ensures
        r == spec_upper_char(c),
{
    if 97 <= c as u32 && c as u32 <= 122 {
        ((c as u8) - 32) as char
    } else {
        c
    }
}

/// ASCII lowering of a whole string.
pub open spec fn spec_ascii_lower(s: Seq<char>) -> Seq<char> {
    s.map_values(|c: char| spec_lower_char(c))
}

/// ASCII raising of a whole string.
pub open spec fn spec_ascii_upper(s: Seq<char>) -> Seq<char> {
    s.map_values(|c: char| spec_upper_char(c))
}

/// Lowers a string, ASCII only.
pub fn ascii_lower(s: &str) -> (r: String)
    ensures
        r@ == spec_ascii_lower(s@),
{
    let n = s.unicode_len();
    let mut r = String::new();
    let mut i: usize = 0;
    while i < n
        invariant
            n == s@.len(),
            i <= n,
            r@.len() == i,
            forall|j: int| 0 <= j < i ==> #[trigger] r@[j] == spec_lower_char(s@[j]),
        decreases n - i,
    {
        push_char(&mut r, lower_char(s.get_char(i)));
        i = i + 1;
    }
    proof {
        assert(r@ =~= spec_ascii_lower(s@));
    }
    r
}

/// Raises a string, ASCII only.
pub fn ascii_upper(s: &str) -> (r: String)
    ensures
        r@ == spec_ascii_upper(s@),
{
    let n = s.unicode_len();
    let mut r = String::new();
    let mut i: usize = 0;
    while i < n
        invariant
            n == s@.len(),
            i <= n,
            r@.len() == i,
            forall|j: int| 0 <= j < i ==> #[trigger] r@[j] == spec_upper_char(s@[j]),
        decreases n - i,
    {
        push_char(&mut r, upper_char(s.get_char(i)));
        i = i + 1;
    }
    proof {
        assert(r@ =~= spec_ascii_upper(s@));
    }
    r
}

/// Whether two strings agree up to ASCII case.
pub fn eq_ignore_ascii_case(a: &str, b: &str) -> (r: bool)
    ensures
        r == (spec_ascii_lower(a@) == spec_ascii_lower(b@)),
{
    let la = ascii_lower(a);
    let lb = ascii_lower(b);
    la == lb
}


/// Index of the first occurrence of `c` in `s`, or `s.len()` when absent.
pub open spec fn spec_char_at(s: Seq<char>, c: char) -> nat
    decreases s.len(),
{
    if s.len() == 0 {
        0
    } else if s[0] == c {
        0
    } else {
        1 + spec_char_at(s.drop_first(), c)
    }
}

/// What [`spec_char_at`] means: it is in bounds, it points at `c` when `c`
/// occurs, and nothing before it is `c`.
pub proof fn lemma_char_at(s: Seq<char>, c: char)
    ensures
        spec_char_at(s, c) <= s.len(),
        spec_char_at(s, c) < s.len() ==> s[spec_char_at(s, c) as int] == c,
        forall|j: int| 0 <= j < spec_char_at(s, c) ==> s[j] != c,
    decreases s.len(),
{
    if s.len() == 0 {
    } else if s[0] == c {
    } else {
        lemma_char_at(s.drop_first(), c);
        assert forall|j: int| 0 <= j < spec_char_at(s, c) implies s[j] != c by {
            if j > 0 {
                assert(s.drop_first()[j - 1] != c);
            }
        }
    }
}

/// First index of `c` in `v`, if any.
pub fn find_char(v: &Vec<char>, c: char) -> (r: Option<usize>)
    ensures
        match r {
            Some(i) => i == spec_char_at(v@, c) && i < v@.len() && v@[i as int] == c,
            None => spec_char_at(v@, c) == v@.len(),
        },
{
    let mut i: usize = 0;
    while i < v.len()
        invariant
            i <= v@.len(),
            forall|j: int| 0 <= j < i ==> v@[j] != c,
        decreases v@.len() - i,
    {
        if v[i] == c {
            proof {
                lemma_char_at(v@, c);
                if spec_char_at(v@, c) < i {
                    assert(v@[spec_char_at(v@, c) as int] == c);
                    assert(false);
                }
                if spec_char_at(v@, c) > i {
                    assert(v@[i as int] != c);
                    assert(false);
                }
            }
            return Some(i);
        }
        i = i + 1;
    }
    proof {
        lemma_char_at(v@, c);
        if spec_char_at(v@, c) < v@.len() {
            assert(v@[spec_char_at(v@, c) as int] == c);
            assert(false);
        }
    }
    None
}

/// The pieces of `s` between occurrences of `sep`: always at least one
/// piece, and one more piece for every separator.
pub open spec fn spec_split_char(s: Seq<char>, sep: char) -> Seq<Seq<char>>
    decreases s.len(),
{
    let i = spec_char_at(s, sep);
    if i >= s.len() {
        seq![s]
    } else {
        seq![s.take(i as int)] + spec_split_char(s.skip(i as int + 1), sep)
    }
}


/// A split always has at least one piece.
pub proof fn lemma_split_char_len(s: Seq<char>, sep: char)
    ensures
        spec_split_char(s, sep).len() >= 1,
{
}
/// Splits the characters of `v` on `sep`.
pub fn split_chars(v: &Vec<char>, sep: char) -> (r: Vec<String>)
    ensures
        r.deep_view() == spec_split_char(v@, sep),
    decreases v@.len(),
{
    proof {
        lemma_char_at(v@, sep);
    }
    match find_char(v, sep) {
        None => {
            let mut r: Vec<String> = Vec::new();
            r.push(string_from_chars(v));
            proof {
                assert(r.deep_view() =~= spec_split_char(v@, sep));
            }
            r
        },
        Some(i) => {
            let n = v.len();
            let mut head: Vec<char> = Vec::new();
            let mut j: usize = 0;
            while j < i
                invariant
                    j <= i < v@.len(),
                    head@ == v@.subrange(0, j as int),
                decreases i - j,
            {
                head.push(v[j]);
                j = j + 1;
                proof {
                    assert(head@ =~= v@.subrange(0, j as int));
                }
            }
            let mut tail: Vec<char> = Vec::new();
            let mut k: usize = i + 1;
            while k < v.len()
                invariant
                    i + 1 <= k <= v@.len(),
                    tail@ == v@.subrange(i + 1, k as int),
                decreases v@.len() - k,
            {
                tail.push(v[k]);
                k = k + 1;
                proof {
                    assert(tail@ =~= v@.subrange(i + 1, k as int));
                }
            }
            proof {
                assert(tail@ =~= v@.skip(i + 1));
                assert(head@ =~= v@.take(i as int));
            }
            let rest = split_chars(&tail, sep);
            let mut r: Vec<String> = Vec::new();
            r.push(string_from_chars(&head));
            let mut m: usize = 0;
            while m < rest.len()
                invariant
                    m <= rest@.len(),
                    r@.len() == 1 + m,
                    r@[0]@ == v@.take(spec_char_at(v@, sep) as int),
                    forall|t: int| 0 <= t < m ==> #[trigger] r@[1 + t]@ == rest.deep_view()[t],
                decreases rest@.len() - m,
            {
                r.push(rest[m].clone());
                m = m + 1;
            }
            proof {
                assert forall|t: int| 0 <= t < r.deep_view().len() implies r.deep_view()[t]
                    == spec_split_char(v@, sep)[t] by {
                    if t > 0 {
                        let tt = t - 1;
                        assert(r@[1 + tt]@ == rest.deep_view()[tt]);
                    }
                }
                assert(r.deep_view() =~= spec_split_char(v@, sep));
            }
            r
        },
    }
}

/// Splits a string on `sep`.
pub fn split_char_str(s: &str, sep: char) -> (r: Vec<String>)
    ensures
        r.deep_view() == spec_split_char(s@, sep),
{
    let v = chars_vec(s);
    split_chars(&v, sep)
}

/// The pieces joined with `sep` between them.
pub open spec fn spec_join(parts: Seq<Seq<char>>, sep: Seq<char>) -> Seq<char>
    decreases parts.len(),
{
    if parts.len() == 0 {
        Seq::<char>::empty()
    } else if parts.len() == 1 {
        parts[0]
    } else {
        parts[0] + sep + spec_join(parts.drop_first(), sep)
    }
}

fn join_from(parts: &Vec<String>, sep: &str, i: usize) -> (r: String)
    requires
        i <= parts@.len(),
    ensures
        r@ == spec_join(parts.deep_view().skip(i as int), sep@),
    decreases parts@.len() - i,
{
    if i == parts.len() {
        proof {
            assert(parts.deep_view().skip(i as int) =~= Seq::<Seq<char>>::empty());
        }
        String::new()
    } else if i + 1 == parts.len() {
        proof {
            assert(parts.deep_view().skip(i as int).len() == 1);
            assert(parts.deep_view().skip(i as int)[0] == parts@[i as int]@);
        }
        parts[i].clone()
    } else {
        let mut r = parts[i].clone();
        r.append(sep);
        let rest = join_from(parts, sep, i + 1);
        r.append(rest.as_str());
        proof {
            assert(parts.deep_view().skip(i as int).drop_first() =~= parts.deep_view().skip(
                i as int + 1,
            ));
            assert(parts.deep_view().skip(i as int)[0] == parts@[i as int]@);
        }
        r
    }
}

/// Joins the strings of `parts` with `sep` between them.
pub fn join_with(parts: &Vec<String>, sep: &str) -> (r: String)
    ensures
        r@ == spec_join(parts.deep_view(), sep@),
{
    let r = join_from(parts, sep, 0);
    proof {
        assert(parts.deep_view().skip(0) =~= parts.deep_view());
    }
    r
}


/// `pat` occurs in `s` at position `i`.
pub open spec fn spec_matches_at(s: Seq<char>, pat: Seq<char>, i: int) -> bool {
    0 <= i && i + pat.len() <= s.len() && s.subrange(i, i + pat.len()) == pat
}

/// The position of the first occurrence of `pat` in `s`, if any.
pub open spec fn spec_find_sub(s: Seq<char>, pat: Seq<char>) -> Option<nat>
    decreases s.len(),
{
    if spec_matches_at(s, pat, 0) {
        Some(0 as nat)
    } else if s.len() == 0 {
        None
    } else {
        match spec_find_sub(s.drop_first(), pat) {
            Some(i) => Some((i + 1) as nat),
            None => None,
        }
    }
}

/// Occurrences in the tail of `s` sit one position later in `s` itself.
pub proof fn lemma_matches_shift(s: Seq<char>, pat: Seq<char>, i: int)
    requires
        s.len() > 0,
        0 <= i,
    ensures
        spec_matches_at(s.drop_first(), pat, i) == spec_matches_at(s, pat, i + 1),
{
    if i + pat.len() <= s.len() - 1 {
        assert(s.drop_first().subrange(i, i + pat.len()) =~= s.subrange(i + 1, i + 1 + pat.len()));
    }
}

/// What [`spec_find_sub`] means: a found position is the first match, and
/// `None` means no position matches.
pub proof fn lemma_find_sub(s: Seq<char>, pat: Seq<char>)
    ensures
        match spec_find_sub(s, pat) {
            Some(i) => spec_matches_at(s, pat, i as int) && forall|j: int|
                0 <= j < i ==> !spec_matches_at(s, pat, j),
            None => forall|j: int| !spec_matches_at(s, pat, j),
        },
    decreases s.len(),
{
    if spec_matches_at(s, pat, 0) {
    } else if s.len() == 0 {
        assert forall|j: int| !spec_matches_at(s, pat, j) by {
            if 0 <= j && j + pat.len() <= s.len() {
                assert(s.subrange(j, j + pat.len()) =~= pat || s.subrange(j, j + pat.len())
                    != pat);
                if s.subrange(j, j + pat.len()) == pat {
                    assert(j == 0 && pat.len() == 0);
                }
            }
        }
    } else {
        lemma_find_sub(s.drop_first(), pat);
        match spec_find_sub(s.drop_first(), pat) {
            Some(i) => {
                lemma_matches_shift(s, pat, i as int);
                assert forall|j: int| 0 <= j < i + 1 implies !spec_matches_at(s, pat, j) by {
                    if j > 0 {
                        lemma_matches_shift(s, pat, j - 1);
                    }
                }
            },
            None => {
                assert forall|j: int| !spec_matches_at(s, pat, j) by {
                    if j > 0 {
                        lemma_matches_shift(s, pat, j - 1);
                    }
                }
            },
        }
    }
}

/// First position of `pat` in `v`, if any.
pub fn find_sub(v: &Vec<char>, pat: &Vec<char>) -> (r: Option<usize>)
    ensures
        match r {
            Some(i) => Some(i as nat) == spec_find_sub(v@, pat@),
            None => spec_find_sub(v@, pat@) is None,
        },
{
    proof {
        lemma_find_sub(v@, pat@);
    }
    let n = v.len();
    let m = pat.len();
    if m > n {
        proof {
            if spec_find_sub(v@, pat@) is Some {
                let i = spec_find_sub(v@, pat@).unwrap();
                assert(spec_matches_at(v@, pat@, i as int));
            }
        }
        return None;
    }
    let mut i: usize = 0;
    while i <= n - m
        invariant
            m <= n == v@.len(),
            m == pat@.len(),
            i <= n - m + 1,
            forall|j: int| 0 <= j < i ==> !spec_matches_at(v@, pat@, j),
        decreases n - i,
    {
        let mut k: usize = 0;
        let mut all_eq = true;
        while k < m
            invariant
                m <= n == v@.len(),
                m == pat@.len(),
                i + m <= n,
                k <= m,
                all_eq == (v@.subrange(i as int, i + k) =~= pat@.subrange(0, k as int)),
            decreases m - k,
        {
            if v[i + k] != pat[k] {
                all_eq = false;
                proof {
                    assert(v@.subrange(i as int, i + k + 1)[k as int] != pat@.subrange(
                        0,
                        k as int + 1,
                    )[k as int]);
                }
            } else {
                proof {
                    if all_eq {
                        assert(v@.subrange(i as int, i + k + 1) =~= v@.subrange(
                            i as int,
                            i + k,
                        ).push(v@[i + k]));
                        assert(pat@.subrange(0, k as int + 1) =~= pat@.subrange(0, k as int).push(
                            pat@[k as int],
                        ));
                    } else {
                        let w = choose|w: int|
                            0 <= w < k && v@.subrange(i as int, i + k)[w] != pat@.subrange(
                                0,
                                k as int,
                            )[w];
                        assert(v@.subrange(i as int, i + k + 1)[w] != pat@.subrange(
                            0,
                            k as int + 1,
                        )[w]);
                    }
                }
            }
            k = k + 1;
        }
        if all_eq {
            proof {
                assert(pat@.subrange(0, m as int) =~= pat@);
                assert(spec_matches_at(v@, pat@, i as int));
                lemma_find_sub(v@, pat@);
                match spec_find_sub(v@, pat@) {
                    Some(f) => {
                        if f < i {
                            assert(!spec_matches_at(v@, pat@, f as int));
                        }
                        if f > i {
                            assert(!spec_matches_at(v@, pat@, i as int));
                        }
                    },
                    None => {
                        assert(!spec_matches_at(v@, pat@, i as int));
                    },
                }
            }
            return Some(i);
        }
        i = i + 1;
    }
    proof {
        if spec_find_sub(v@, pat@) is Some {
            let f = spec_find_sub(v@, pat@).unwrap();
            assert(spec_matches_at(v@, pat@, f as int));
            assert(false);
        }
    }
    None
}

/// `s` with the first occurrence of `pat` (if any) replaced by `with_text`.
pub open spec fn spec_replace_first(s: Seq<char>, pat: Seq<char>, with_text: Seq<char>) -> Seq<
    char,
> {
    match spec_find_sub(s, pat) {
        Some(i) => s.take(i as int) + with_text + s.skip(i + pat.len() as int),
        None => s,
    }
}

/// Replaces the first occurrence of `pat` in `s` by `with_text`; `s`
/// unchanged when `pat` does not occur.
pub fn replace_first(s: &str, pat: &str, with_text: &str) -> (r: String)
    ensures
        r@ == spec_replace_first(s@, pat@, with_text@),
{
    let v = chars_vec(s);
    let p = chars_vec(pat);
    let n = v.len();
    let m = p.len();
    match find_sub(&v, &p) {
        Some(i) => {
            proof {
                lemma_find_sub(s@, pat@);
                assert(spec_matches_at(s@, pat@, i as int));
            }
            let mut r = String::new();
            let head = s.substring_char(0, i);
            r.append(head);
            r.append(with_text);
            let tail = s.substring_char(i + m, n);
            r.append(tail);
            proof {
                assert(s@.subrange(0, i as int) =~= s@.take(i as int));
                assert(s@.subrange(i + m, n as int) =~= s@.skip(i + m));
                assert(r@ =~= spec_replace_first(s@, pat@, with_text@));
            }
            r
        },
        None => String::from_str(s),
    }
}

/// The non-empty elements of `parts`, in order.
pub open spec fn spec_nonempty_parts(parts: Seq<Seq<char>>) -> Seq<Seq<char>>
    decreases parts.len(),
{
    if parts.len() == 0 {
        Seq::<Seq<char>>::empty()
    } else if parts[0].len() != 0 {
        seq![parts[0]] + spec_nonempty_parts(parts.drop_first())
    } else {
        spec_nonempty_parts(parts.drop_first())
    }
}

pub(crate) fn nonempty_from(pieces: &Vec<String>, i: usize) -> (r: Vec<String>)
    requires
        i <= pieces@.len(),
    ensures
        r.deep_view() == spec_nonempty_parts(pieces.deep_view().skip(i as int)),
    decreases pieces@.len() - i,
{
    if i == pieces.len() {
        proof {
            assert(pieces.deep_view().skip(i as int) =~= Seq::<Seq<char>>::empty());
        }
        Vec::new()
    } else {
        proof {
            assert(pieces.deep_view().skip(i as int)[0] == pieces.deep_view()[i as int]);
            assert(pieces.deep_view().skip(i as int).drop_first() =~= pieces.deep_view().skip(
                i as int + 1,
            ));
        }
        let mut rest = nonempty_from(pieces, i + 1);
        if !pieces[i].as_str().is_empty() {
            let mut r: Vec<String> = Vec::new();
            r.push(pieces[i].clone());
            r.append(&mut rest);
            proof {
                assert(r.deep_view() =~= spec_nonempty_parts(pieces.deep_view().skip(i as int)));
            }
            r
        } else {
            rest
        }
    }
}


} // verus!
