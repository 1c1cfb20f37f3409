//! Text diffing and patching: unified patches with path headers, patch
//! application, and the colored, line-numbered rendering of a diff.
//!
//! The diff and patch computations themselves come from outside crates;
//! everything that frames, counts, numbers and colors their results is
//! verified against the change records they hand back.

use vstd::prelude::*;
use crate::text::{
    ascii_lower, push_char, repeat_char, spec_ascii_lower, spec_dec, spec_repeat_char,
    spec_replace_first, replace_first, u64_dec_string,
};

verus! {

#[verifier::external_type_specification]
#[verifier::external_body]
pub struct ExChangeTag(similar::ChangeTag);

#[verifier::external_type_specification]
#[verifier::external_body]
pub struct ExAlgorithm(similar::Algorithm);

#[verifier::external_type_specification]
#[verifier::external_body]
#[verifier::reject_recursive_types(T)]
pub struct ExChange<T>(similar::Change<T>);

/// What one change record does: keeps, removes, or inserts its text.
pub enum DiffTag {
    Equal,
    Delete,
    Insert,
}

/// One change record of a computed diff, reduced to plain values.
pub struct DiffChange {
    pub tag: DiffTag,
    pub old_index: Option<usize>,
    pub new_index: Option<usize>,
    pub text: String,
}

/// Diff granularity.
pub enum DiffMode {
    Line,
    Word,
    Char,
}

/// Diff algorithm.
pub enum DiffAlgo {
    Myers,
    Patience,
    Lcs,
}

/// All change indices name one slice of one input text, and a slice takes at
/// least one byte, so every index stays below `usize::MAX`.
pub open spec fn bounded_changes(cs: Seq<DiffChange>) -> bool {
    forall|i: int|
        0 <= i < cs.len() ==> (match #[trigger] cs[i].old_index {
            Some(v) => v < usize::MAX,
            None => true,
        } && match cs[i].new_index {
            Some(v) => v < usize::MAX,
            None => true,
        })
}

/// Relies on `similar::ChangeTag`'s variant list: one arm per variant.
#[verifier::external_body]
fn tag_of(t: similar::ChangeTag) -> (r: DiffTag) {
    match t {
        similar::ChangeTag::Equal => DiffTag::Equal,
        similar::ChangeTag::Delete => DiffTag::Delete,
        similar::ChangeTag::Insert => DiffTag::Insert,
    }
}

/// Relies on the variant list of `similar::Algorithm`: one arm per choice.
#[verifier::external_body]
fn algorithm_of(algo: &DiffAlgo) -> (r: similar::Algorithm) {
    match algo {
        DiffAlgo::Patience => similar::Algorithm::Patience,
        DiffAlgo::Lcs => similar::Algorithm::Lcs,
        DiffAlgo::Myers => similar::Algorithm::Myers,
    }
}

/// Relies on the accessors of `similar::Change`: one change record reduced
/// to plain values, moving data only.
#[verifier::external_body]
fn change_of(c: &similar::Change<&str>) -> (r: DiffChange) {
    DiffChange {
        tag: tag_of(c.tag()),
        old_index: c.old_index(),
        new_index: c.new_index(),
        text: c.value().to_string(),
    }
}

/// Relies on `similar::TextDiff` (`configure`, `algorithm`, `diff_lines` /
/// `diff_words` / `diff_chars`, `iter_all_changes`) and on the accessors of
/// its `Change` records: every change of the diff, in order, as plain
/// values.  Each index names one slice of an input text, and a slice takes
/// at least one byte of it, so indices stay below `usize::MAX`.
#[verifier::external_body]
fn diff_changes(before: &str, after: &str, mode: &DiffMode, algo: &DiffAlgo) -> (r: Vec<
    DiffChange,
>)
    ensures
        bounded_changes(r@),
{
    let mut cfg = similar::TextDiff::configure();
    cfg.algorithm(algorithm_of(algo));
    let diff = match mode {
        DiffMode::Word => cfg.diff_words(before, after),
        DiffMode::Char => cfg.diff_chars(before, after),
        DiffMode::Line => cfg.diff_lines(before, after),
    };
    diff.iter_all_changes().map(|c| change_of(&c)).collect()
}

/// Relies on `similar::TextDiff::grouped_ops(2)` and `iter_changes`: the
/// change records of a line diff, grouped with two lines of context, each
/// group's operations flattened in order.  Indices stay below `usize::MAX`
/// as in [`diff_changes`].
#[verifier::external_body]
fn diff_groups(before: &str, after: &str, algo: &DiffAlgo) -> (r: Vec<Vec<DiffChange>>)
    ensures
        forall|i: int| 0 <= i < r@.len() ==> bounded_changes(#[trigger] r@[i]@),
{
    let mut cfg = similar::TextDiff::configure();
    cfg.algorithm(algorithm_of(algo));
    let diff = cfg.diff_lines(before, after);
    diff.grouped_ops(2).iter().map(|group|
        group.iter().flat_map(|op| diff.iter_changes(op).map(|c| change_of(&c))).collect()
    ).collect()
}

pub uninterp spec fn patch_text_of(before: Seq<char>, after: Seq<char>) -> Seq<char>;

/// Relies on `diffy::create_patch` and its patch's `Display`: the unified
/// diff text of the two inputs, a function of them alone, beginning with
/// the default `--- original` and `+++ modified` headers.
#[verifier::external_body]
fn patch_text(before: &str, after: &str) -> (r: String)
    ensures
        r@ == patch_text_of(before@, after@),
{
    diffy::create_patch(before, after).to_string()
}

pub uninterp spec fn patch_color_text_of(before: Seq<char>, after: Seq<char>) -> Seq<char>;

/// Relies on `diffy::create_patch` and `diffy::PatchFormatter::with_color`:
/// the ANSI-colored unified diff text, a function of the inputs alone.
#[verifier::external_body]
fn patch_text_color(before: &str, after: &str) -> (r: String)
    ensures
        r@ == patch_color_text_of(before@, after@),
{
    let patch = diffy::create_patch(before, after);
    let formatter = diffy::PatchFormatter::new().with_color();
    format!("{}", formatter.fmt_patch(&patch))
}

pub uninterp spec fn apply_patch_of(base: Seq<char>, patch: Seq<char>) -> Result<
    Seq<char>,
    Seq<char>,
>;

/// Relies on `diffy::Patch::from_str` and `diffy::apply`: the patched text,
/// or the parse or application error rendered as a string — a function of
/// the two inputs alone.
#[verifier::external_body]
fn apply_patch(base: &str, patch_input: &str) -> (r: Result<String, String>)
    ensures
        match r {
            Ok(s) => apply_patch_of(base@, patch_input@) == Ok::<Seq<char>, Seq<char>>(s@),
            Err(e) => apply_patch_of(base@, patch_input@) == Err::<Seq<char>, Seq<char>>(e@),
        },
{
    match diffy::Patch::from_str(patch_input) {
        Ok(p) => match diffy::apply(base, &p) {
            Ok(s) => Ok(s),
            Err(e) => Err(e.to_string()),
        },
        Err(e) => Err(e.to_string()),
    }
}

/// An empty path displays as `file`.
pub open spec fn spec_pretty_path(path: Seq<char>) -> Seq<char> {
    if path.len() == 0 {
        "file"@
    } else {
        path
    }
}

/// The display form of a path: `file` when it is empty.
pub fn pretty_path(path: &str) -> (r: String)
    ensures
        r@ == spec_pretty_path(path@),
{
    if path.is_empty() {
        String::from_str("file")
    } else {
        String::from_str(path)
    }
}

/// The canonical granularity name: `word`, `char`, or `line`.
pub open spec fn spec_granularity(name: Seq<char>) -> Seq<char> {
    let low = spec_ascii_lower(name);
    if low == "word"@ {
        "word"@
    } else if low == "char"@ {
        "char"@
    } else {
        "line"@
    }
}

/// Canonical granularity name, ASCII case-insensitive; anything unknown
/// means `line`.
pub fn granularity_name(name: &str) -> (r: &'static str)
    ensures
        r@ == spec_granularity(name@),
{
    let low = ascii_lower(name);
    if low == String::from_str("word") {
        "word"
    } else if low == String::from_str("char") {
        "char"
    } else {
        "line"
    }
}

/// The canonical algorithm name: `patience`, `lcs`, or `myers`.
pub open spec fn spec_algorithm(name: Seq<char>) -> Seq<char> {
    let low = spec_ascii_lower(name);
    if low == "patience"@ {
        "patience"@
    } else if low == "lcs"@ {
        "lcs"@
    } else {
        "myers"@
    }
}

/// Canonical algorithm name, ASCII case-insensitive; anything unknown means
/// `myers`.
pub fn algorithm_name(name: &str) -> (r: &'static str)
    ensures
        r@ == spec_algorithm(name@),
{
    let low = ascii_lower(name);
    if low == String::from_str("patience") {
        "patience"
    } else if low == String::from_str("lcs") {
        "lcs"
    } else {
        "myers"
    }
}

/// The granularity as a mode value.
pub open spec fn spec_mode(name: Seq<char>) -> DiffMode {
    if spec_granularity(name) == "word"@ {
        DiffMode::Word
    } else if spec_granularity(name) == "char"@ {
        DiffMode::Char
    } else {
        DiffMode::Line
    }
}

fn mode_of(name: &str) -> (m: DiffMode)
    ensures
        m == spec_mode(name@),
{
    let low = ascii_lower(name);
    proof {
        reveal_strlit("word");
        reveal_strlit("char");
        reveal_strlit("line");
        assert("char"@[0] == 'c' && "word"@[0] == 'w' && "line"@[0] == 'l');
        assert("char"@ != "word"@ && "line"@ != "word"@ && "line"@ != "char"@);
    }
    if low == String::from_str("word") {
        DiffMode::Word
    } else if low == String::from_str("char") {
        DiffMode::Char
    } else {
        DiffMode::Line
    }
}

/// The algorithm as an algorithm value.
pub open spec fn spec_algo(name: Seq<char>) -> DiffAlgo {
    if spec_algorithm(name) == "patience"@ {
        DiffAlgo::Patience
    } else if spec_algorithm(name) == "lcs"@ {
        DiffAlgo::Lcs
    } else {
        DiffAlgo::Myers
    }
}

fn algo_of(name: &str) -> (a: DiffAlgo)
    ensures
        a == spec_algo(name@),
{
    let low = ascii_lower(name);
    proof {
        reveal_strlit("patience");
        reveal_strlit("lcs");
        reveal_strlit("myers");
        assert("patience"@.len() == 8 && "lcs"@.len() == 3 && "myers"@.len() == 5);
        assert("lcs"@ != "patience"@ && "myers"@ != "patience"@ && "myers"@ != "lcs"@);
    }
    if low == String::from_str("patience") {
        DiffAlgo::Patience
    } else if low == String::from_str("lcs") {
        DiffAlgo::Lcs
    } else {
        DiffAlgo::Myers
    }
}

/// A trailing newline removed, if there is one.
pub open spec fn spec_strip_newline(s: Seq<char>) -> Seq<char> {
    if s.len() > 0 && s.last() == '\n' {
        s.drop_last()
    } else {
        s
    }
}

/// Removes one trailing newline.
pub fn strip_newline(value: &str) -> (r: &str)
    ensures
        r@ == spec_strip_newline(value@),
{
    let n = value.unicode_len();
    if n > 0 && value.get_char(n - 1) == '\n' {
        let r = value.substring_char(0, n - 1);
        proof {
            assert(value@.subrange(0, n - 1) =~= value@.drop_last());
        }
        r
    } else {
        value
    }
}

/// A line number (the index plus one) right-aligned in `width` columns, or
/// `width` spaces for no number.
pub open spec fn spec_format_line_number(idx: Option<usize>, width: int) -> Seq<char> {
    match idx {
        Some(v) => spec_repeat_char(' ', width - spec_dec((v + 1) as nat).len()) + spec_dec(
            (v + 1) as nat,
        ),
        None => spec_repeat_char(' ', width),
    }
}

/// Renders one line-number column.
pub fn format_line_number(idx: Option<usize>, width: usize) -> (r: String)
    requires
        match idx {
            Some(v) => v < usize::MAX,
            None => true,
        },
    ensures
        r@ == spec_format_line_number(idx, width as int),
{
    match idx {
        Some(v) => {
            let digits = u64_dec_string((v as u64) + 1);
            let dlen = digits.as_str().unicode_len();
            let mut r = if dlen < width {
                repeat_char(' ', width - dlen)
            } else {
                String::new()
            };
            proof {
                assert(r@ =~= spec_repeat_char(
                    ' ',
                    width - spec_dec((v + 1) as nat).len(),
                ));
            }
            r.append(digits.as_str());
            r
        },
        None => repeat_char(' ', width),
    }
}

/// A patch with its default headers rewritten to carry the display path.
pub open spec fn spec_with_path_headers(patch: Seq<char>, path: Seq<char>) -> Seq<char> {
    let p = spec_pretty_path(path);
    spec_replace_first(
        spec_replace_first(patch, "--- original"@, "--- a/"@ + p),
        "+++ modified"@,
        "+++ b/"@ + p,
    )
}

/// Rewrites the first `--- original` and `+++ modified` headers of a patch
/// to name the given path.
pub fn with_path_headers(patch: String, path: &str) -> (r: String)
    ensures
        r@ == spec_with_path_headers(patch@, path@),
{
    let p = pretty_path(path);
    let mut old_header = String::from_str("--- a/");
    old_header.append(p.as_str());
    let mut new_header = String::from_str("+++ b/");
    new_header.append(p.as_str());
    let step = replace_first(patch.as_str(), "--- original", old_header.as_str());
    replace_first(step.as_str(), "+++ modified", new_header.as_str())
}

/// The tallies of a change list: inserted count, deleted count, and the
/// largest old and new line numbers seen (at least 1).
pub open spec fn spec_diff_counts(cs: Seq<DiffChange>) -> (nat, nat, nat, nat)
    decreases cs.len(),
{
    if cs.len() == 0 {
        (0 as nat, 0 as nat, 1 as nat, 1 as nat)
    } else {
        let prev = spec_diff_counts(cs.drop_last());
        let c = cs.last();
        let mo = match c.old_index {
            Some(v) => if v + 1 > prev.2 {
                (v + 1) as nat
            } else {
                prev.2
            },
            None => prev.2,
        };
        let mn = match c.new_index {
            Some(v) => if v + 1 > prev.3 {
                (v + 1) as nat
            } else {
                prev.3
            },
            None => prev.3,
        };
        match c.tag {
            DiffTag::Insert => ((prev.0 + 1) as nat, prev.1, mo, mn),
            DiffTag::Delete => (prev.0, (prev.1 + 1) as nat, mo, mn),
            DiffTag::Equal => (prev.0, prev.1, mo, mn),
        }
    }
}

/// Tallies a change list.
fn diff_counts(cs: &Vec<DiffChange>) -> (r: (usize, usize, usize, usize))
    requires
        bounded_changes(cs@),
    ensures
        (r.0 as nat, r.1 as nat, r.2 as nat, r.3 as nat) == spec_diff_counts(cs@),
{
    let mut added: usize = 0;
    let mut removed: usize = 0;
    let mut max_old: usize = 1;
    let mut max_new: usize = 1;
    let mut i: usize = 0;
    while i < cs.len()
        invariant
            bounded_changes(cs@),
            i <= cs@.len(),
            added + removed <= i,
            (added as nat, removed as nat, max_old as nat, max_new as nat) == spec_diff_counts(
                cs@.take(i as int),
            ),
        decreases cs@.len() - i,
    {
        proof {
            assert(cs@.take(i + 1).drop_last() =~= cs@.take(i as int));
            assert(cs@.take(i + 1).last() == cs@[i as int]);
        }
        match cs[i].old_index {
            Some(v) => {
                if v + 1 > max_old {
                    max_old = v + 1;
                }
            },
            None => {},
        }
        match cs[i].new_index {
            Some(v) => {
                if v + 1 > max_new {
                    max_new = v + 1;
                }
            },
            None => {},
        }
        match cs[i].tag {
            DiffTag::Insert => {
                added = added + 1;
            },
            DiffTag::Delete => {
                removed = removed + 1;
            },
            DiffTag::Equal => {},
        }
        i = i + 1;
    }
    proof {
        assert(cs@.take(cs@.len() as int) =~= cs@);
    }
    (added, removed, max_old, max_new)
}

/// The summary header of a rendered diff.
pub open spec fn spec_diff_header(
    path: Seq<char>,
    added: nat,
    removed: nat,
    mode: Seq<char>,
    algo: Seq<char>,
) -> Seq<char> {
    "• Edited "@ + path + " (\x1b[32m+"@ + spec_dec(added) + "\x1b[0m \x1b[31m-"@ + spec_dec(
        removed,
    ) + "\x1b[0m) ["@ + mode + "/"@ + algo + "]\n"@
}

fn diff_header(path: &str, added: usize, removed: usize, mode: &str, algo: &str) -> (r: String)
    ensures
        r@ == spec_diff_header(path@, added as nat, removed as nat, mode@, algo@),
{
    let mut r = String::from_str("• Edited ");
    r.append(path);
    r.append(" (\x1b[32m+");
    let a = u64_dec_string(added as u64);
    r.append(a.as_str());
    r.append("\x1b[0m \x1b[31m-");
    let d = u64_dec_string(removed as u64);
    r.append(d.as_str());
    r.append("\x1b[0m) [");
    r.append(mode);
    r.append("/");
    r.append(algo);
    r.append("]\n");
    proof {
        assert(r@ =~= spec_diff_header(path@, added as nat, removed as nat, mode@, algo@));
    }
    r
}

/// The line-number pair a change displays: deletions show only the old
/// number, insertions only the new, context both.
pub open spec fn spec_display_indices(c: DiffChange) -> (Option<usize>, Option<usize>) {
    match c.tag {
        DiffTag::Delete => (c.old_index, None),
        DiffTag::Insert => (None, c.new_index),
        DiffTag::Equal => (c.old_index, c.new_index),
    }
}

/// One rendered line of the line-mode diff: dimmed number columns, then the
/// change text behind its sign and color.
pub open spec fn spec_render_line_change(c: DiffChange, w: int) -> Seq<char> {
    let on = spec_format_line_number(spec_display_indices(c).0, w);
    let nn = spec_format_line_number(spec_display_indices(c).1, w);
    let text = spec_strip_newline(c.text@);
    "  \x1b[90m"@ + on + "\x1b[0m \x1b[90m"@ + nn + "\x1b[0m "@ + (match c.tag {
        DiffTag::Delete => if text.len() == 0 {
            "\x1b[31m-\x1b[0m\n"@
        } else {
            "\x1b[31m-"@ + text + "\x1b[0m\n"@
        },
        DiffTag::Insert => if text.len() == 0 {
            "\x1b[32m+\x1b[0m\n"@
        } else {
            "\x1b[32m+"@ + text + "\x1b[0m\n"@
        },
        DiffTag::Equal => if text.len() == 0 {
            " \n"@
        } else {
            " "@ + text + "\n"@
        },
    })
}

fn render_line_change(c: &DiffChange, w: usize) -> (r: String)
    requires
        match c.old_index {
            Some(v) => v < usize::MAX,
            None => true,
        },
        match c.new_index {
            Some(v) => v < usize::MAX,
            None => true,
        },
    ensures
        r@ == spec_render_line_change(*c, w as int),
{
    let (oi, ni): (Option<usize>, Option<usize>) = match c.tag {
        DiffTag::Delete => (c.old_index, None),
        DiffTag::Insert => (None, c.new_index),
        DiffTag::Equal => (c.old_index, c.new_index),
    };
    let on = format_line_number(oi, w);
    let nn = format_line_number(ni, w);
    let text = strip_newline(c.text.as_str());
    let mut r = String::from_str("  \x1b[90m");
    r.append(on.as_str());
    r.append("\x1b[0m \x1b[90m");
    r.append(nn.as_str());
    r.append("\x1b[0m ");
    match c.tag {
        DiffTag::Delete => {
            if text.is_empty() {
                r.append("\x1b[31m-\x1b[0m\n");
            } else {
                r.append("\x1b[31m-");
                r.append(text);
                r.append("\x1b[0m\n");
            }
        },
        DiffTag::Insert => {
            if text.is_empty() {
                r.append("\x1b[32m+\x1b[0m\n");
            } else {
                r.append("\x1b[32m+");
                r.append(text);
                r.append("\x1b[0m\n");
            }
        },
        DiffTag::Equal => {
            if text.is_empty() {
                r.append(" \n");
            } else {
                r.append(" ");
                r.append(text);
                r.append("\n");
            }
        },
    }
    proof {
        assert(r@ =~= spec_render_line_change(*c, w as int));
    }
    r
}

/// A rendered group: its changes one after the other.
pub open spec fn spec_render_group(g: Seq<DiffChange>, w: int) -> Seq<char>
    decreases g.len(),
{
    if g.len() == 0 {
        Seq::<char>::empty()
    } else {
        spec_render_group(g.drop_last(), w) + spec_render_line_change(g.last(), w)
    }
}

/// The elision marker between groups.
pub open spec fn spec_elision(indent: int) -> Seq<char> {
    spec_repeat_char(' ', indent) + "\x1b[90m⋮\x1b[0m\n"@
}

/// All rendered groups, separated by elision markers.
pub open spec fn spec_render_groups(gs: Seq<Vec<DiffChange>>, w: int, indent: int) -> Seq<char>
    decreases gs.len(),
{
    if gs.len() == 0 {
        Seq::<char>::empty()
    } else {
        spec_render_groups(gs.drop_last(), w, indent) + (if gs.len() > 1 {
            spec_elision(indent)
        } else {
            Seq::<char>::empty()
        }) + spec_render_group(gs.last()@, w)
    }
}

/// One change of the inline (word or character) rendering: deletions red,
/// insertions green, context plain.
pub open spec fn spec_render_inline_change(c: DiffChange) -> Seq<char> {
    match c.tag {
        DiffTag::Delete => "\x1b[31m"@ + c.text@ + "\x1b[0m"@,
        DiffTag::Insert => "\x1b[32m"@ + c.text@ + "\x1b[0m"@,
        DiffTag::Equal => c.text@,
    }
}

/// All changes of the inline rendering, one after the other.
pub open spec fn spec_render_inline(cs: Seq<DiffChange>) -> Seq<char>
    decreases cs.len(),
{
    if cs.len() == 0 {
        Seq::<char>::empty()
    } else {
        spec_render_inline(cs.drop_last()) + spec_render_inline_change(cs.last())
    }
}

/// A newline appended unless the text already ends with one.
pub open spec fn spec_ensure_newline(s: Seq<char>) -> Seq<char> {
    if s.len() > 0 && s.last() == '\n' {
        s
    } else {
        s.push('\n')
    }
}

/// The whole line-mode rendering: header, then the groups.
pub open spec fn spec_pretty_line_doc(
    path: Seq<char>,
    cs: Seq<DiffChange>,
    gs: Seq<Vec<DiffChange>>,
    mode: Seq<char>,
    algo: Seq<char>,
) -> Seq<char> {
    let counts = spec_diff_counts(cs);
    let w = spec_dec(if counts.2 > counts.3 {
        counts.2
    } else {
        counts.3
    }).len() as int;
    spec_diff_header(path, counts.0, counts.1, mode, algo) + spec_render_groups(
        gs,
        w,
        2 + w + 1 + w + 1,
    )
}

/// The whole inline rendering: header, granularity note, then the token
/// stream, closed by a newline.
pub open spec fn spec_pretty_inline_doc(
    path: Seq<char>,
    cs: Seq<DiffChange>,
    mode: Seq<char>,
    algo: Seq<char>,
) -> Seq<char> {
    let counts = spec_diff_counts(cs);
    spec_ensure_newline(
        spec_diff_header(path, counts.0, counts.1, mode, algo) + "    \x1b[90mGranularity: "@
            + mode + " (inline token view)\x1b[0m\n"@ + "    "@ + spec_render_inline(cs),
    )
}

/// Powers of ten.
pub open spec fn pow10(k: nat) -> nat
    decreases k,
{
    if k == 0 {
        1
    } else {
        10 * pow10((k - 1) as nat)
    }
}

/// A number below `10^k` renders in at most `k` digits.
pub proof fn lemma_dec_len(n: nat, k: nat)
    requires
        1 <= k,
        n < pow10(k),
    ensures
        spec_dec(n).len() <= k,
    decreases k,
{
    if n < 10 {
    } else {
        assert(pow10(k) == 10 * pow10((k - 1) as nat));
        lemma_dec_len(n / 10, (k - 1) as nat);
    }
}

/// The number-column width for the given maxima.
fn number_width(max_old: usize, max_new: usize) -> (w: usize)
    ensures
        w as int == spec_dec(if max_old > max_new {
            max_old as nat
        } else {
            max_new as nat
        }).len(),
        w <= 20,
{
    let m: usize = if max_old > max_new {
        max_old
    } else {
        max_new
    };
    let digits = u64_dec_string(m as u64);
    proof {
        assert(pow10(0) == 1);
        assert(pow10(1) == 10);
        assert(pow10(2) == 100);
        assert(pow10(3) == 1000);
        assert(pow10(4) == 10000);
        assert(pow10(5) == 100000);
        assert(pow10(6) == 1000000);
        assert(pow10(7) == 10000000);
        assert(pow10(8) == 100000000);
        assert(pow10(9) == 1000000000);
        assert(pow10(10) == 10000000000);
        assert(pow10(11) == 100000000000);
        assert(pow10(12) == 1000000000000);
        assert(pow10(13) == 10000000000000);
        assert(pow10(14) == 100000000000000);
        assert(pow10(15) == 1000000000000000);
        assert(pow10(16) == 10000000000000000);
        assert(pow10(17) == 100000000000000000);
        assert(pow10(18) == 1000000000000000000);
        assert(pow10(19) == 10000000000000000000);
        assert(pow10(20) == 100000000000000000000);
        lemma_dec_len(m as nat, 20);
    }
    digits.as_str().unicode_len()
}

fn render_groups(gs: &Vec<Vec<DiffChange>>, w: usize, indent: usize) -> (r: String)
    requires
        forall|i: int| 0 <= i < gs@.len() ==> bounded_changes(#[trigger] gs@[i]@),
    ensures
        r@ == spec_render_groups(gs@, w as int, indent as int),
{
    let mut r = String::new();
    let mut i: usize = 0;
    while i < gs.len()
        invariant
            forall|t: int| 0 <= t < gs@.len() ==> bounded_changes(#[trigger] gs@[t]@),
            i <= gs@.len(),
            r@ == spec_render_groups(gs@.take(i as int), w as int, indent as int),
        decreases gs@.len() - i,
    {
        proof {
            assert(gs@.take(i + 1).drop_last() =~= gs@.take(i as int));
            assert(gs@.take(i + 1).last() == gs@[i as int]);
        }
        if i > 0 {
            let pad = repeat_char(' ', indent);
            r.append(pad.as_str());
            r.append("\x1b[90m⋮\x1b[0m\n");
        }
        let group = &gs[i];
        let mut j: usize = 0;
        while j < group.len()
            invariant
                bounded_changes(group@),
                group@ == gs@[i as int]@,
                i < gs@.len(),
                j <= group@.len(),
                r@ == spec_render_groups(gs@.take(i as int), w as int, indent as int) + (if i
                    > 0 {
                    spec_elision(indent as int)
                } else {
                    Seq::<char>::empty()
                }) + spec_render_group(group@.take(j as int), w as int),
            decreases group@.len() - j,
        {
            proof {
                assert(group@.take(j + 1).drop_last() =~= group@.take(j as int));
                assert(group@.take(j + 1).last() == group@[j as int]);
            }
            let line = render_line_change(&group[j], w);
            r.append(line.as_str());
            j = j + 1;
        }
        proof {
            assert(group@.take(group@.len() as int) =~= group@);
        }
        i = i + 1;
    }
    proof {
        assert(gs@.take(gs@.len() as int) =~= gs@);
    }
    r
}

fn render_inline(cs: &Vec<DiffChange>) -> (r: String)
    ensures
        r@ == spec_render_inline(cs@),
{
    let mut r = String::new();
    let mut i: usize = 0;
    while i < cs.len()
        invariant
            i <= cs@.len(),
            r@ == spec_render_inline(cs@.take(i as int)),
        decreases cs@.len() - i,
    {
        proof {
            assert(cs@.take(i + 1).drop_last() =~= cs@.take(i as int));
            assert(cs@.take(i + 1).last() == cs@[i as int]);
        }
        match cs[i].tag {
            DiffTag::Delete => {
                r.append("\x1b[31m");
                r.append(cs[i].text.as_str());
                r.append("\x1b[0m");
            },
            DiffTag::Insert => {
                r.append("\x1b[32m");
                r.append(cs[i].text.as_str());
                r.append("\x1b[0m");
            },
            DiffTag::Equal => {
                r.append(cs[i].text.as_str());
            },
        }
        proof {
            assert(r@ =~= spec_render_inline(cs@.take(i + 1)));
        }
        i = i + 1;
    }
    proof {
        assert(cs@.take(cs@.len() as int) =~= cs@);
    }
    r
}

/// The colored diff rendering the host shows: for some change list (and, in
/// line mode, grouping) that the diff engine computed for these inputs.
pub struct DiffUtil;

impl DiffUtil {
    pub fn new() -> DiffUtil {
        DiffUtil
    }

    /// Renders a colored diff of `before` and `after`: line mode shows
    /// numbered, grouped lines with elisions; word and char modes show the
    /// inline token stream.
    pub fn pretty(
        &self,
        path: &str,
        before: &str,
        after: &str,
        granularity: &str,
        algorithm: &str,
    ) -> (r: String)
        ensures
            spec_granularity(granularity@) == "line"@ ==> exists|
                cs: Seq<DiffChange>,
                gs: Seq<Vec<DiffChange>>,
            |
                #![auto]
                r@ == spec_pretty_line_doc(
                    spec_pretty_path(path@),
                    cs,
                    gs,
                    spec_granularity(granularity@),
                    spec_algorithm(algorithm@),
                ),
            spec_granularity(granularity@) != "line"@ ==> exists|cs: Seq<DiffChange>|
                #![auto]
                r@ == spec_pretty_inline_doc(
                    spec_pretty_path(path@),
                    cs,
                    spec_granularity(granularity@),
                    spec_algorithm(algorithm@),
                ),
    {
        let p = pretty_path(path);
        let mode = granularity_name(granularity);
        let algo = algorithm_name(algorithm);
        let mode_v = mode_of(granularity);
        let algo_v = algo_of(algorithm);
        let changes = diff_changes(before, after, &mode_v, &algo_v);
        let counts = diff_counts(&changes);
        let header = diff_header(p.as_str(), counts.0, counts.1, mode, algo);
        let is_line = match mode_v {
            DiffMode::Line => true,
            _ => false,
        };
        proof {
            reveal_strlit("word");
            reveal_strlit("char");
            reveal_strlit("line");
            assert("word"@[0] == 'w' && "char"@[0] == 'c' && "line"@[0] == 'l');
            assert("word"@ != "line"@ && "char"@ != "line"@);
        }
        if is_line {
            let w = number_width(counts.2, counts.3);
            let indent = 2 + w + 1 + w + 1;
            let groups = diff_groups(before, after, &algo_v);
            let body = render_groups(&groups, w, indent);
            let mut r = header;
            r.append(body.as_str());
            proof {
                assert(r@ =~= spec_pretty_line_doc(p@, changes@, groups@, mode@, algo@));
                assert(r@ == spec_pretty_line_doc(
                    spec_pretty_path(path@),
                    changes@,
                    groups@,
                    spec_granularity(granularity@),
                    spec_algorithm(algorithm@),
                ));
            }
            r
        } else {
            let mut r = header;
            r.append("    \x1b[90mGranularity: ");
            r.append(mode);
            r.append(" (inline token view)\x1b[0m\n");
            r.append("    ");
            let body = render_inline(&changes);
            r.append(body.as_str());
            let n = r.as_str().unicode_len();
            if n == 0 || r.as_str().get_char(n - 1) != '\n' {
                push_char(&mut r, '\n');
            }
            proof {
                assert(r@ =~= spec_pretty_inline_doc(p@, changes@, mode@, algo@));
                assert(r@ == spec_pretty_inline_doc(
                    spec_pretty_path(path@),
                    changes@,
                    spec_granularity(granularity@),
                    spec_algorithm(algorithm@),
                ));
            }
            r
        }
    }

    /// A unified patch from `before` to `after`, its headers carrying the
    /// display path.
    pub fn patch(&self, path: &str, before: &str, after: &str) -> (r: String)
        ensures
            r@ == spec_with_path_headers(patch_text_of(before@, after@), path@),
    {
        let text = patch_text(before, after);
        with_path_headers(text, path)
    }

    /// The colored unified patch, its headers carrying the display path.
    #[allow(non_snake_case)]
    pub fn patchColor(&self, path: &str, before: &str, after: &str) -> (r: String)
        ensures
            r@ == spec_with_path_headers(patch_color_text_of(before@, after@), path@),
    {
        let text = patch_text_color(before, after);
        with_path_headers(text, path)
    }

    /// Applies a unified patch to `base`: `["ok", result]` on success,
    /// `["error", message]` when the patch cannot be parsed or applied.
    #[allow(non_snake_case)]
    pub fn applyPatchResult(&self, base: &str, patch_input: &str) -> (r: Vec<String>)
        ensures
            match apply_patch_of(base@, patch_input@) {
                Ok(s) => r.deep_view() =~= seq!["ok"@, s],
                Err(e) => r.deep_view() =~= seq!["error"@, e],
            },
    {
        let mut r: Vec<String> = Vec::new();
        match apply_patch(base, patch_input) {
            Ok(text) => {
                r.push(String::from_str("ok"));
                r.push(text);
            },
            Err(message) => {
                r.push(String::from_str("error"));
                r.push(message);
            },
        }
        r
    }
}

} // verus!
