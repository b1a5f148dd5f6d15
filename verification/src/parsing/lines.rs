//! What all the file parsers share: blank lines are skipped, and an error
//! names the file, the line and its number.
use vstd::prelude::*;

use crate::error::{HrdfError, ParsingError, ParsingErrorV};
use crate::scan::{Scan, ScanError};
use crate::text::{chars_of, trim, trim_bounds};

verus! {

/// A line that holds nothing but whitespace.
pub open spec fn blank(line: Seq<char>) -> bool {
    trim(line).len() == 0
}

/// Whether `line` holds nothing but whitespace.
pub fn is_blank(line: &str) -> (r: bool)
    ensures
        r == blank(line@),
{
    let s = chars_of(line);
    let (a, b) = trim_bounds(s.as_slice(), 0, s.len());
    assert(s@.subrange(0, s@.len() as int) =~= s@);
    a == b
}

/// The error of a whole scan, once it did not succeed.
pub open spec fn scan_failure<T>(r: Scan<T>) -> ScanError {
    match r {
        Scan::Incomplete => ScanError::Incomplete,
        _ => ScanError::Error,
    }
}

/// The error for line `line_number` of `file`, which reads `line`.
pub fn line_error(error: ParsingError, file: &str, line: &str, line_number: usize) -> (r: HrdfError)
    ensures
        r matches HrdfError::Parsing { error: e, file: f, line: l, line_number: n } && e == error
            && f@ == file@ && l@ == line@ && n == line_number,
{
    HrdfError::Parsing {
        error,
        file: String::from_str(file),
        line: String::from_str(line),
        line_number,
    }
}


/// The texts of the lines.
pub open spec fn texts(lines: Seq<String>) -> Seq<Seq<char>> {
    lines.map_values(|l: String| l@)
}

/// What the first `n` lines give when each non-blank line makes one item
/// under the next id (1, 2, 3, ...): the items by id and the last id given;
/// or the number of the first line that does not read, and why.  `item`
/// reads a line into the item with the given id.
pub open spec fn numbered<V>(
    lines: Seq<Seq<char>>,
    n: nat,
    item: spec_fn(Seq<char>, i32) -> Result<V, ParsingErrorV>,
) -> Result<(Map<i32, V>, int), (nat, ParsingErrorV)>
    decreases n,
{
    if n == 0 {
        Ok((Map::empty(), 0))
    } else {
        match numbered(lines, (n - 1) as nat, item) {
            Err(e) => Err(e),
            Ok((m, c)) => if blank(lines[n - 1]) {
                Ok((m, c))
            } else {
                match item(lines[n - 1], (c + 1) as i32) {
                    Ok(v) => Ok((m.insert((c + 1) as i32, v), c + 1)),
                    Err(e) => Err(((n - 1) as nat, e)),
                }
            },
        }
    }
}

/// Once a line does not read, later lines change nothing.
pub proof fn lemma_numbered_error_stays<V>(
    lines: Seq<Seq<char>>,
    n: nat,
    m: nat,
    item: spec_fn(Seq<char>, i32) -> Result<V, ParsingErrorV>,
)
    requires
        n <= m,
        numbered(lines, n, item) is Err,
    ensures
        numbered(lines, m, item) == numbered(lines, n, item),
    decreases m - n,
{
    if n < m {
        lemma_numbered_error_stays(lines, n, (m - 1) as nat, item);
    }
}

/// The ids given are 1 up to the last one, each once.
pub proof fn lemma_numbered_ids<V>(
    lines: Seq<Seq<char>>,
    n: nat,
    item: spec_fn(Seq<char>, i32) -> Result<V, ParsingErrorV>,
)
    requires
        n < i32::MAX,
    ensures
        numbered(lines, n, item) matches Ok((m, c)) ==> 0 <= c <= n && forall|k: i32|
            #[trigger] m.contains_key(k) <==> 1 <= k <= c,
    decreases n,
{
    if n > 0 {
        lemma_numbered_ids(lines, (n - 1) as nat, item);
        match numbered(lines, (n - 1) as nat, item) {
            Ok((m, c)) => {
                if !blank(lines[n - 1]) {
                    match item(lines[n - 1], (c + 1) as i32) {
                        Ok(v) => {
                            assert(((c + 1) as i32) as int == c + 1);
                            assert forall|k: i32| #[trigger] m.insert((c + 1) as i32, v).contains_key(k) <==> 1 <= k <= c + 1 by {
                                if k == c + 1 {
                                    assert(k == (c + 1) as i32);
                                }
                            }
                        },
                        Err(_) => {},
                    }
                }
            },
            Err(_) => {},
        }
    }
}

/// The error of a file's line: the file, the line, its number and why.
pub open spec fn file_error(e: HrdfError, why: ParsingErrorV, file: Seq<char>, line: Seq<char>, n: nat) -> bool {
    e matches HrdfError::Parsing { error, file: f, line: l, line_number }
        && error.deep_view() == why && f@ == file && l@ == line && line_number == n
}


/// The state that the first `n` lines give from `st`, each non-blank line
/// changing it by `step`; or the number of the first line that does not
/// read, and why.
pub open spec fn fold_lines<S>(
    st: S,
    lines: Seq<Seq<char>>,
    n: nat,
    step: spec_fn(S, Seq<char>) -> Result<S, ParsingErrorV>,
) -> Result<S, (nat, ParsingErrorV)>
    decreases n,
{
    if n == 0 {
        Ok(st)
    } else {
        match fold_lines(st, lines, (n - 1) as nat, step) {
            Err(e) => Err(e),
            Ok(s1) => if blank(lines[n - 1]) {
                Ok(s1)
            } else {
                match step(s1, lines[n - 1]) {
                    Ok(s2) => Ok(s2),
                    Err(e) => Err(((n - 1) as nat, e)),
                }
            },
        }
    }
}

/// Once a line does not read, later lines change nothing.
pub proof fn lemma_fold_lines_error_stays<S>(
    st: S,
    lines: Seq<Seq<char>>,
    n: nat,
    m: nat,
    step: spec_fn(S, Seq<char>) -> Result<S, ParsingErrorV>,
)
    requires
        n <= m,
        fold_lines(st, lines, n, step) is Err,
    ensures
        fold_lines(st, lines, m, step) == fold_lines(st, lines, n, step),
    decreases m - n,
{
    if n < m {
        lemma_fold_lines_error_stays(st, lines, n, (m - 1) as nat, step);
    }
}

/// Two outcomes of folding lines, one over `lines` and one over `lines`
/// without its blank line `k`: the same state, or the same error at the same
/// line (one number lower past `k`).
pub open spec fn same_outcome_without<S>(
    a: Result<S, (nat, ParsingErrorV)>,
    b: Result<S, (nat, ParsingErrorV)>,
    k: nat,
) -> bool {
    match (a, b) {
        (Ok(x), Ok(y)) => x == y,
        (Err((i, e)), Err((j, f))) => e == f && i != k && (if i < k { j == i } else { j == i - 1 }),
        _ => false,
    }
}

/// A blank line changes nothing: the lines without it give the same state,
/// or the same error.
pub proof fn lemma_fold_lines_blank_line<S>(
    st: S,
    lines: Seq<Seq<char>>,
    k: nat,
    n: nat,
    step: spec_fn(S, Seq<char>) -> Result<S, ParsingErrorV>,
)
    requires
        k < n <= lines.len(),
        blank(lines[k as int]),
    ensures
        same_outcome_without(fold_lines(st, lines, n, step), fold_lines(st, lines.remove(k as int), (n - 1) as nat, step), k),
    decreases n,
{
    let rest = lines.remove(k as int);
    if n == k + 1 {
        lemma_fold_lines_same_prefix(st, lines, rest, k, step);
        lemma_fold_lines_error_index(st, lines, k, step);
    } else {
        lemma_fold_lines_blank_line(st, lines, k, (n - 1) as nat, step);
        assert(rest[n - 2] == lines[n - 1]);
    }
}

/// The line of an error is one of the lines folded.
pub proof fn lemma_fold_lines_error_index<S>(
    st: S,
    lines: Seq<Seq<char>>,
    n: nat,
    step: spec_fn(S, Seq<char>) -> Result<S, ParsingErrorV>,
)
    ensures
        fold_lines(st, lines, n, step) matches Err((i, _)) ==> i < n,
    decreases n,
{
    if n > 0 {
        lemma_fold_lines_error_index(st, lines, (n - 1) as nat, step);
    }
}

/// Lines that agree on their first `n` give the same outcome for them.
pub proof fn lemma_fold_lines_same_prefix<S>(
    st: S,
    a: Seq<Seq<char>>,
    b: Seq<Seq<char>>,
    n: nat,
    step: spec_fn(S, Seq<char>) -> Result<S, ParsingErrorV>,
)
    requires
        n <= a.len(),
        n <= b.len(),
        forall|i: int| 0 <= i < n ==> a[i] == b[i],
    ensures
        fold_lines(st, a, n, step) == fold_lines(st, b, n, step),
    decreases n,
{
    if n > 0 {
        lemma_fold_lines_same_prefix(st, a, b, (n - 1) as nat, step);
        assert(a[n - 1] == b[n - 1]);
    }
}

/// A blank line changes nothing in numbered items either: the lines without
/// it give the same items under the same ids, or the same error.
pub proof fn lemma_numbered_blank_line<V>(
    lines: Seq<Seq<char>>,
    k: nat,
    n: nat,
    item: spec_fn(Seq<char>, i32) -> Result<V, ParsingErrorV>,
)
    requires
        k < n <= lines.len(),
        blank(lines[k as int]),
    ensures
        same_outcome_without(numbered(lines, n, item), numbered(lines.remove(k as int), (n - 1) as nat, item), k),
    decreases n,
{
    let rest = lines.remove(k as int);
    if n == k + 1 {
        lemma_numbered_same_prefix(lines, rest, k, item);
        lemma_numbered_error_index(lines, k, item);
    } else {
        lemma_numbered_blank_line(lines, k, (n - 1) as nat, item);
        assert(rest[n - 2] == lines[n - 1]);
    }
}

proof fn lemma_numbered_same_prefix<V>(
    a: Seq<Seq<char>>,
    b: Seq<Seq<char>>,
    n: nat,
    item: spec_fn(Seq<char>, i32) -> Result<V, ParsingErrorV>,
)
    requires
        n <= a.len(),
        n <= b.len(),
        forall|i: int| 0 <= i < n ==> a[i] == b[i],
    ensures
        numbered(a, n, item) == numbered(b, n, item),
    decreases n,
{
    if n > 0 {
        lemma_numbered_same_prefix(a, b, (n - 1) as nat, item);
        assert(a[n - 1] == b[n - 1]);
    }
}

proof fn lemma_numbered_error_index<V>(
    lines: Seq<Seq<char>>,
    n: nat,
    item: spec_fn(Seq<char>, i32) -> Result<V, ParsingErrorV>,
)
    ensures
        numbered(lines, n, item) matches Err((i, _)) ==> i < n,
    decreases n,
{
    if n > 0 {
        lemma_numbered_error_index(lines, (n - 1) as nat, item);
    }
}

} // verus!
