use vstd::prelude::*;
use crate::ini::index_from;
use crate::literal::{is_digit, is_digit_char};
use crate::text::{is_ws, is_ws_char, copy_range, append_chars};

verus! {

/// `p` occurs in `t` at index `i`.
pub open spec fn occurs_at(t: Seq<char>, p: Seq<char>, i: int) -> bool {
    0 <= i && i + p.len() <= t.len() && t.subrange(i, i + p.len()) == p
}

/// The first index at or after `i` that holds no whitespace, or `t.len()`.
pub open spec fn skip_ws(t: Seq<char>, i: int) -> int
    decreases t.len() - i,
{
    if 0 <= i < t.len() && is_ws(t[i]) {
        skip_ws(t, i + 1)
    } else {
        i
    }
}

/// The first index at or after `i` that holds no digit, or `t.len()`.
pub open spec fn digits_end(t: Seq<char>, i: int) -> int
    decreases t.len() - i,
{
    if 0 <= i < t.len() && is_digit(t[i]) {
        digits_end(t, i + 1)
    } else {
        i
    }
}

/// The first index at or after `i` that holds neither a digit nor `.`, or `t.len()`.
pub open spec fn number_end(t: Seq<char>, i: int) -> int
    decreases t.len() - i,
{
    if 0 <= i < t.len() && (is_digit(t[i]) || t[i] == '.') {
        number_end(t, i + 1)
    } else {
        i
    }
}

/// Where the name `p` is assigned at `i` (`p`, blanks, `=`): the index of the `=`.
pub open spec fn assign_eq(t: Seq<char>, p: Seq<char>, i: int) -> Option<int> {
    if occurs_at(t, p, i) {
        let e = skip_ws(t, i + p.len());
        if e < t.len() && t[e] == '=' {
            Some(e)
        } else {
            None
        }
    } else {
        None
    }
}

/// The index of the `}` that closes the brace opened before `j`, where `depth`
/// braces are open at `j`.
pub open spec fn close_from(t: Seq<char>, j: int, depth: nat) -> Option<int>
    decreases t.len() - j,
{
    if j < 0 || j >= t.len() {
        None
    } else if t[j] == '{' {
        close_from(t, j + 1, depth + 1)
    } else if t[j] == '}' {
        if depth <= 1 {
            Some(j)
        } else {
            close_from(t, j + 1, (depth - 1) as nat)
        }
    } else {
        close_from(t, j + 1, depth)
    }
}

/// The quoted string, or chain of quoted strings joined by `..`, that starts at
/// `v`: its characters without the quotes, and the index just past it.
pub open spec fn str_chain(t: Seq<char>, v: int) -> Option<(Seq<char>, int)>
    decreases t.len() - v,
{
    if 0 <= v < t.len() && t[v] == '"' {
        let q = index_from(t, '"', v + 1);
        if q < t.len() {
            let seg = t.subrange(v + 1, q);
            let w = skip_ws(t, q + 1);
            let w2 = skip_ws(t, w + 2);
            if occurs_at(t, seq!['.', '.'], w) && v < w2 <= t.len() {
                match str_chain(t, w2) {
                    Some(rest) => Some((seg + rest.0, rest.1)),
                    None => Some((seg, q + 1)),
                }
            } else {
                Some((seg, q + 1))
            }
        } else {
            None
        }
    } else {
        None
    }
}

/// The kinds of value that a settings text assigns.
#[derive(Debug, Clone, Copy, PartialEq, Eq, Structural)]
pub enum LitKind {
    /// An optional `-` and digits.
    Int,
    /// `true` or `false`.
    Bool,
    /// A quoted string, or several joined by `..`.
    Str,
    /// An optional `-` and a run of digits and dots.
    Num,
    /// A brace-delimited table, braces balanced.
    Block,
}

/// The index just past the literal of kind `k` that starts at `v`.
pub open spec fn lit_end(t: Seq<char>, k: LitKind, v: int) -> Option<int> {
    match k {
        LitKind::Int => {
            let d = if 0 <= v < t.len() && t[v] == '-' { v + 1 } else { v };
            let e = digits_end(t, d);
            if e > d { Some(e) } else { None }
        },
        LitKind::Bool => if occurs_at(t, "true"@, v) {
            Some(v + 4)
        } else if occurs_at(t, "false"@, v) {
            Some(v + 5)
        } else {
            None
        },
        LitKind::Str => match str_chain(t, v) {
            Some(c) => Some(c.1),
            None => None,
        },
        LitKind::Num => {
            let d = if 0 <= v < t.len() && t[v] == '-' { v + 1 } else { v };
            let e = number_end(t, d);
            if e > d { Some(e) } else { None }
        },
        LitKind::Block => if 0 <= v < t.len() && t[v] == '{' {
            match close_from(t, v + 1, 1) {
                Some(c) => Some(c + 1),
                None => None,
            }
        } else {
            None
        },
    }
}

/// The span of the literal of kind `k` assigned to `p` at `i`, within `t[..end]`.
pub open spec fn lit_at(t: Seq<char>, p: Seq<char>, k: LitKind, i: int, end: int) -> Option<
    (int, int),
> {
    match assign_eq(t, p, i) {
        Some(e) => {
            let v = skip_ws(t, e + 1);
            match lit_end(t, k, v) {
                Some(x) => if x <= end { Some((v, x)) } else { None },
                None => None,
            }
        },
        None => None,
    }
}

/// The span of the first literal of kind `k` assigned to `p` at an index from
/// `i` on, within `t[..end]`.
pub open spec fn first_lit(t: Seq<char>, p: Seq<char>, k: LitKind, i: int, end: int) -> Option<
    (int, int),
>
    decreases end - i,
{
    if i < 0 || i >= end {
        None
    } else {
        match lit_at(t, p, k, i, end) {
            Some(s) => Some(s),
            None => first_lit(t, p, k, i + 1, end),
        }
    }
}

/// The first index at or after `i` that holds no whitespace.
pub fn skip_ws_exec(t: &[char], i: usize) -> (r: usize)
    requires
        i <= t@.len(),
    ensures
        r == skip_ws(t@, i as int),
        i <= r <= t@.len(),
{
    let mut j = i;
    while j < t.len() && is_ws_char(t[j])
        invariant
            i <= j <= t@.len(),
            skip_ws(t@, i as int) == skip_ws(t@, j as int),
        decreases t@.len() - j,
    {
        j = j + 1;
    }
    j
}

fn digits_end_exec(t: &[char], i: usize) -> (r: usize)
    requires
        i <= t@.len(),
    ensures
        r == digits_end(t@, i as int),
        i <= r <= t@.len(),
{
    let mut j = i;
    while j < t.len() && is_digit_char(t[j])
        invariant
            i <= j <= t@.len(),
            digits_end(t@, i as int) == digits_end(t@, j as int),
        decreases t@.len() - j,
    {
        j = j + 1;
    }
    j
}

fn number_end_exec(t: &[char], i: usize) -> (r: usize)
    requires
        i <= t@.len(),
    ensures
        r == number_end(t@, i as int),
        i <= r <= t@.len(),
{
    let mut j = i;
    while j < t.len() && (is_digit_char(t[j]) || t[j] == '.')
        invariant
            i <= j <= t@.len(),
            number_end(t@, i as int) == number_end(t@, j as int),
        decreases t@.len() - j,
    {
        j = j + 1;
    }
    j
}

/// Whether `p` occurs in `t` at `i`.
pub fn occurs_at_exec(t: &[char], p: &[char], i: usize) -> (r: bool)
    ensures
        r == occurs_at(t@, p@, i as int),
{
    let tl = t.len();
    if i > tl || p.len() > tl - i {
        return false;
    }
    let mut j: usize = 0;
    while j < p.len()
        invariant
            tl == t@.len(),
            i <= t@.len(),
            i + p@.len() <= t@.len(),
            j <= p@.len(),
            forall|m: int| 0 <= m < j ==> t@[i + m] == p@[m],
        decreases p@.len() - j,
    {
        if t[i + j] != p[j] {
            assert(t@.subrange(i as int, i + p@.len())[j as int] != p@[j as int]);
            return false;
        }
        j = j + 1;
    }
    assert(t@.subrange(i as int, i + p@.len()) =~= p@);
    true
}

/// The index of the `=` where the name `p` is assigned at `i`.
pub fn assign_eq_exec(t: &[char], p: &[char], i: usize) -> (r: Option<usize>)
    ensures
        match r {
            Some(e) => assign_eq(t@, p@, i as int) == Some(e as int) && i + p@.len() <= e < t@.len(),
            None => assign_eq(t@, p@, i as int) is None,
        },
{
    let tl = t.len();
    if occurs_at_exec(t, p, i) {
        assert(i + p@.len() <= tl);
        let e = skip_ws_exec(t, i + p.len());
        proof {
            lemma_skip_ws_ge(t@, i + p@.len());
        }
        if e < t.len() && t[e] == '=' {
            Some(e)
        } else {
            None
        }
    } else {
        None
    }
}

/// The first index at or after `i` that holds `c`, or `t.len()`.
pub fn index_from_at(t: &[char], c: char, i: usize) -> (r: usize)
    requires
        i <= t@.len(),
    ensures
        r == index_from(t@, c, i as int),
        i <= r <= t@.len(),
{
    let mut j = i;
    while j < t.len() && t[j] != c
        invariant
            i <= j <= t@.len(),
            index_from(t@, c, i as int) == index_from(t@, c, j as int),
        decreases t@.len() - j,
    {
        j = j + 1;
    }
    j
}

/// The index of the `}` that closes a brace opened just before `j0`.
pub fn close_exec(t: &[char], j0: usize) -> (r: Option<usize>)
    requires
        1 <= j0 <= t@.len(),
    ensures
        match r {
            Some(c) => close_from(t@, j0 as int, 1) == Some(c as int) && j0 <= c < t@.len(),
            None => close_from(t@, j0 as int, 1) is None,
        },
{
    let tl = t.len();
    let mut j = j0;
    let mut depth: usize = 1;
    while j < t.len()
        invariant
            tl == t@.len(),
            1 <= j0 <= j <= t@.len(),
            1 <= depth <= j - j0 + 1,
            close_from(t@, j0 as int, 1) == close_from(t@, j as int, depth as nat),
        decreases t@.len() - j,
    {
        if t[j] == '{' {
            assert(depth + 1 <= j + 1);
            depth = depth + 1;
        } else if t[j] == '}' {
            if depth <= 1 {
                return Some(j);
            }
            depth = depth - 1;
        }
        j = j + 1;
    }
    None
}

/// Reads the string, or chain of strings joined by `..`, that starts at `v`.
pub fn str_chain_exec(t: &[char], v: usize) -> (r: Option<(Vec<char>, usize)>)
    requires
        v <= t@.len(),
    ensures
        match r {
            Some(c) => str_chain(t@, v as int) == Some((c.0@, c.1 as int)) && c.1 <= t@.len(),
            None => str_chain(t@, v as int) is None,
        },
    decreases t@.len() - v,
{
    if v < t.len() && t[v] == '"' {
        let q = index_from_at(t, '"', v + 1);
        if q < t.len() {
            let seg = copy_range(t, v + 1, q);
            let w = skip_ws_exec(t, q + 1);
            let dots = occurs_at_exec(t, &['.', '.'], w);
            assert(seq!['.', '.'] =~= [ '.', '.' ]@);
            if dots {
                let w2 = skip_ws_exec(t, w + 2);
                match str_chain_exec(t, w2) {
                    Some(rest) => {
                        let mut all = seg;
                        append_chars(&mut all, rest.0.as_slice());
                        Some((all, rest.1))
                    },
                    None => Some((seg, q + 1)),
                }
            } else {
                Some((seg, q + 1))
            }
        } else {
            None
        }
    } else {
        None
    }
}

/// The index just past the literal of kind `k` that starts at `v`.
pub fn lit_end_exec(t: &[char], k: LitKind, v: usize) -> (r: Option<usize>)
    requires
        v <= t@.len(),
    ensures
        match r {
            Some(x) => lit_end(t@, k, v as int) == Some(x as int) && x <= t@.len(),
            None => lit_end(t@, k, v as int) is None,
        },
{
    let tl = t.len();
    match k {
        LitKind::Int => {
            let d = if v < t.len() && t[v] == '-' { v + 1 } else { v };
            let e = digits_end_exec(t, d);
            if e > d { Some(e) } else { None }
        },
        LitKind::Bool => {
            let tr = crate::text::chars_of("true");
            let fa = crate::text::chars_of("false");
            proof {
                reveal_strlit("true");
                reveal_strlit("false");
            }
            assert(tr@.len() == 4 && fa@.len() == 5);
            if occurs_at_exec(t, tr.as_slice(), v) {
                Some(v + 4)
            } else if occurs_at_exec(t, fa.as_slice(), v) {
                Some(v + 5)
            } else {
                None
            }
        },
        LitKind::Str => match str_chain_exec(t, v) {
            Some(c) => Some(c.1),
            None => None,
        },
        LitKind::Num => {
            let d = if v < t.len() && t[v] == '-' { v + 1 } else { v };
            let e = number_end_exec(t, d);
            if e > d { Some(e) } else { None }
        },
        LitKind::Block => {
            if v < t.len() && t[v] == '{' {
                match close_exec(t, v + 1) {
                    Some(c) => Some(c + 1),
                    None => None,
                }
            } else {
                None
            }
        },
    }
}

/// Finds the first literal of kind `k` assigned to `p` at an index in `i..end`
/// and ending within `t[..end]`.
pub fn first_lit_exec(t: &[char], p: &[char], k: LitKind, i: usize, end: usize) -> (r: Option<
    (usize, usize),
>)
    requires
        i <= end <= t@.len(),
    ensures
        match r {
            Some(s) => first_lit(t@, p@, k, i as int, end as int) == Some((s.0 as int, s.1 as int))
                && s.0 <= s.1 <= end,
            None => first_lit(t@, p@, k, i as int, end as int) is None,
        },
{
    let tl = t.len();
    let mut j = i;
    while j < end
        invariant
            tl == t@.len(),
            i <= j <= end <= t@.len(),
            first_lit(t@, p@, k, i as int, end as int) == first_lit(t@, p@, k, j as int, end as int),
        decreases end - j,
    {
        match assign_eq_exec(t, p, j) {
            Some(e) => {
                let v = skip_ws_exec(t, e + 1);
                match lit_end_exec(t, k, v) {
                    Some(x) => {
                        if x <= end {
                            proof {
                                lemma_lit_start(t@, k, v as int);
                            }
                            return Some((v, x));
                        }
                    },
                    None => {},
                }
            },
            None => {},
        }
        j = j + 1;
    }
    None
}

/// Skipping whitespace never moves backwards.
pub proof fn lemma_skip_ws_ge(t: Seq<char>, i: int)
    ensures
        skip_ws(t, i) >= i,
    decreases t.len() - i,
{
    if 0 <= i < t.len() && is_ws(t[i]) {
        lemma_skip_ws_ge(t, i + 1);
    }
}

/// A literal ends after it starts.
pub proof fn lemma_lit_start(t: Seq<char>, k: LitKind, v: int)
    requires
        0 <= v,
        lit_end(t, k, v) is Some,
    ensures
        v <= lit_end(t, k, v)->0,
{
    match k {
        LitKind::Str => {
            lemma_chain_end(t, v);
        },
        LitKind::Block => {
            lemma_close_after(t, v + 1, 1);
        },
        _ => {},
    }
}

proof fn lemma_chain_end(t: Seq<char>, v: int)
    requires
        str_chain(t, v) is Some,
    ensures
        v < str_chain(t, v).unwrap().1,
    decreases t.len() - v,
{
    let q = index_from(t, '"', v + 1);
    lemma_index_from_ge(t, '"', v + 1);
    let w = skip_ws(t, q + 1);
    let w2 = skip_ws(t, w + 2);
    if occurs_at(t, seq!['.', '.'], w) && v < w2 <= t.len() {
        if str_chain(t, w2) is Some {
            lemma_chain_end(t, w2);
        }
    }
}

/// A search for `c` ends at or after its start, on a `c` where it finds one.
pub proof fn lemma_index_from_ge(t: Seq<char>, c: char, i: int)
    requires
        0 <= i <= t.len(),
    ensures
        index_from(t, c, i) >= i,
        index_from(t, c, i) < t.len() ==> t[index_from(t, c, i)] == c,
    decreases t.len() - i,
{
    if i < t.len() && t[i] != c {
        lemma_index_from_ge(t, c, i + 1);
    }
}

/// A closing brace lies after the search start, inside the text.
pub proof fn lemma_close_after(t: Seq<char>, j: int, depth: nat)
    requires
        close_from(t, j, depth) is Some,
    ensures
        j <= close_from(t, j, depth)->0 < t.len(),
        t[close_from(t, j, depth)->0] == '}',
    decreases t.len() - j,
{
    if t[j] == '{' {
        lemma_close_after(t, j + 1, depth + 1);
    } else if t[j] == '}' {
        if depth > 1 {
            lemma_close_after(t, j + 1, (depth - 1) as nat);
        }
    } else {
        lemma_close_after(t, j + 1, depth);
    }
}

} // verus!
