use vstd::prelude::*;
use crate::lines::{split_lines, join_lines, views, split_lines_exec, join_lines_exec, lemma_split_len};
use crate::error::ConfigError;
use crate::text::{trim, trim_range, copy_range, append_chars};

verus! {

/// The first index at or after `i` where `s` holds `c`, or `s.len()`.
pub open spec fn index_from(s: Seq<char>, c: char, i: int) -> int
    decreases s.len() - i,
{
    if i >= s.len() {
        s.len() as int
    } else if s[i] == c {
        i
    } else {
        index_from(s, c, i + 1)
    }
}

/// A trimmed line of the form `[name]`.
pub open spec fn is_header(l: Seq<char>) -> bool {
    l.len() >= 2 && l[0] == '[' && l.last() == ']'
}

/// The section that a header line opens.
pub open spec fn header_of(line: Seq<char>) -> Option<Seq<char>> {
    let l = trim(line);
    if is_header(l) {
        Some(l.subrange(1, l.len() - 1))
    } else {
        None
    }
}

/// The trimmed key and value of a `key = value` line; blank lines, comment lines
/// (first non-blank character `#`), headers and lines without `=` have none.
/// The key ends at the first `=`.
pub open spec fn entry_of(line: Seq<char>) -> Option<(Seq<char>, Seq<char>)> {
    let l = trim(line);
    if is_header(l) || l.len() == 0 || l[0] == '#' {
        None
    } else {
        let e = index_from(l, '=', 0);
        if e < l.len() {
            Some((trim(l.subrange(0, e)), trim(l.subrange(e + 1, l.len() as int))))
        } else {
            None
        }
    }
}

/// The section in force at line `i`: the one that the last header before it opened.
pub open spec fn section_at(ls: Seq<Seq<char>>, i: int) -> Option<Seq<char>>
    decreases i,
{
    if i <= 0 {
        None
    } else {
        match header_of(ls[i - 1]) {
            Some(h) => Some(h),
            None => section_at(ls, i - 1),
        }
    }
}

/// The view of an optional character vector.
pub open spec fn opt_view(o: Option<Vec<char>>) -> Option<Seq<char>> {
    match o {
        Some(v) => Some(v@),
        None => None,
    }
}

/// Whether `a` and `b` hold the same characters.
pub fn chars_eq(a: &[char], b: &[char]) -> (r: bool)
    ensures
        r == (a@ == b@),
{
    if a.len() != b.len() {
        return false;
    }
    let mut i: usize = 0;
    while i < a.len()
        invariant
            a@.len() == b@.len(),
            i <= a@.len(),
            forall|j: int| 0 <= j < i ==> a@[j] == b@[j],
        decreases a@.len() - i,
    {
        if a[i] != b[i] {
            return false;
        }
        i = i + 1;
    }
    assert(a@ =~= b@);
    true
}

fn index_from_exec(s: &[char], c: char) -> (r: usize)
    ensures
        r == index_from(s@, c, 0),
{
    let mut i: usize = 0;
    while i < s.len() && s[i] != c
        invariant
            i <= s@.len(),
            index_from(s@, c, 0) == index_from(s@, c, i as int),
        decreases s@.len() - i,
    {
        i = i + 1;
    }
    i
}

fn header_exec(line: &[char]) -> (r: Option<Vec<char>>)
    ensures
        opt_view(r) == header_of(line@),
{
    let l = trim_range(line, 0, line.len());
    assert(line@.subrange(0, line@.len() as int) =~= line@);
    let n = l.len();
    if n >= 2 && l[0] == '[' && l[n - 1] == ']' {
        Some(copy_range(l.as_slice(), 1, n - 1))
    } else {
        None
    }
}

fn entry_exec(line: &[char]) -> (r: Option<(Vec<char>, Vec<char>)>)
    ensures
        match r {
            Some(p) => entry_of(line@) == Some((p.0@, p.1@)),
            None => entry_of(line@) is None,
        },
{
    let l = trim_range(line, 0, line.len());
    assert(line@.subrange(0, line@.len() as int) =~= line@);
    let n = l.len();
    if (n >= 2 && l[0] == '[' && l[n - 1] == ']') || n == 0 || l[0] == '#' {
        return None;
    }
    let e = index_from_exec(l.as_slice(), '=');
    if e < n {
        let k = trim_range(l.as_slice(), 0, e);
        let v = trim_range(l.as_slice(), e + 1, n);
        Some((k, v))
    } else {
        None
    }
}

/// One edit of an INI text: in section `.0`, give key `.1` the value text `.2`.
pub type IniEdit = (Vec<char>, Vec<char>, Vec<char>);

/// The views of a list of edits.
pub open spec fn edits_view(e: Seq<IniEdit>) -> Seq<(Seq<char>, Seq<char>, Seq<char>)> {
    e.map_values(|x: IniEdit| (x.0@, x.1@, x.2@))
}

/// The value text of the first edit at or after `j` for key `k` in section `s`.
pub open spec fn edit_from(
    edits: Seq<(Seq<char>, Seq<char>, Seq<char>)>,
    s: Seq<char>,
    k: Seq<char>,
    j: int,
) -> Option<Seq<char>>
    decreases edits.len() - j,
{
    if j < 0 || j >= edits.len() {
        None
    } else if edits[j].0 == s && edits[j].1 == k {
        Some(edits[j].2)
    } else {
        edit_from(edits, s, k, j + 1)
    }
}

/// A `\r` that ends `line`, kept when the line is rewritten.
pub open spec fn line_end_cr(line: Seq<char>) -> Seq<char> {
    if line.len() > 0 && line.last() == '\r' {
        seq!['\r']
    } else {
        Seq::empty()
    }
}

/// The text that replaces line `i` of `ls` under `edits`, where an edit names
/// its key in its section: `key = value`.
pub open spec fn rewrite_of(
    ls: Seq<Seq<char>>,
    i: int,
    edits: Seq<(Seq<char>, Seq<char>, Seq<char>)>,
) -> Option<Seq<char>> {
    match section_at(ls, i) {
        Some(s) => match entry_of(ls[i]) {
            Some(e) => match edit_from(edits, s, e.0, 0) {
                Some(v) => Some(e.0 + seq![' ', '=', ' '] + v + line_end_cr(ls[i])),
                None => None,
            },
            None => None,
        },
        None => None,
    }
}

/// Line `i` after the edits.
pub open spec fn updated_line(
    ls: Seq<Seq<char>>,
    i: int,
    edits: Seq<(Seq<char>, Seq<char>, Seq<char>)>,
) -> Seq<char> {
    match rewrite_of(ls, i, edits) {
        Some(n) => n,
        None => ls[i],
    }
}

/// Some line of `ls` is rewritten by `edits`.
pub open spec fn some_line_rewritten(
    ls: Seq<Seq<char>>,
    edits: Seq<(Seq<char>, Seq<char>, Seq<char>)>,
) -> bool {
    exists|i: int| 0 <= i < ls.len() && (#[trigger] rewrite_of(ls, i, edits)) is Some
}

/// `t` with every line that an edit names rewritten, all others kept as they are;
/// an error where no line is named.
pub open spec fn ini_update(
    t: Seq<char>,
    edits: Seq<(Seq<char>, Seq<char>, Seq<char>)>,
) -> Result<Seq<char>, ConfigError> {
    let ls = split_lines(t);
    if some_line_rewritten(ls, edits) {
        Ok(join_lines(Seq::new(ls.len(), |i: int| updated_line(ls, i, edits))))
    } else {
        Err(ConfigError::NoMatchingKeys)
    }
}

fn edit_lookup(edits: &Vec<IniEdit>, s: &[char], k: &[char]) -> (r: Option<usize>)
    ensures
        match r {
            Some(j) => j < edits@.len() && edit_from(edits_view(edits@), s@, k@, 0) == Some(
                edits@[j as int].2@,
            ),
            None => edit_from(edits_view(edits@), s@, k@, 0) is None,
        },
{
    let ghost ev = edits_view(edits@);
    let mut j: usize = 0;
    while j < edits.len()
        invariant
            j <= edits@.len(),
            ev == edits_view(edits@),
            edit_from(ev, s@, k@, 0) == edit_from(ev, s@, k@, j as int),
        decreases edits@.len() - j,
    {
        if chars_eq(edits[j].0.as_slice(), s) && chars_eq(edits[j].1.as_slice(), k) {
            return Some(j);
        }
        j = j + 1;
    }
    None
}

/// Applies `edits` to the INI text `t`.
pub fn update_ini(t: &[char], edits: &Vec<IniEdit>) -> (r: Result<Vec<char>, ConfigError>)
    ensures
        match r {
            Ok(v) => ini_update(t@, edits_view(edits@)) == Ok::<Seq<char>, ConfigError>(v@),
            Err(e) => ini_update(t@, edits_view(edits@)) == Err::<Seq<char>, ConfigError>(e),
        },
{
    let ghost ev = edits_view(edits@);
    let lines = split_lines_exec(t);
    let ghost ls = split_lines(t@);
    let mut out: Vec<Vec<char>> = Vec::new();
    let mut cur: Option<Vec<char>> = None;
    let mut changed = false;
    let mut i: usize = 0;
    while i < lines.len()
        invariant
            views(lines@) == ls,
            ev == edits_view(edits@),
            i <= lines@.len(),
            opt_view(cur) == section_at(ls, i as int),
            views(out@) == Seq::new(i as nat, |j: int| updated_line(ls, j, ev)),
            changed == exists|j: int| 0 <= j < i && (#[trigger] rewrite_of(ls, j, ev)) is Some,
        decreases lines@.len() - i,
    {
        let line = lines[i].as_slice();
        assert(line@ == ls[i as int]);
        let h = header_exec(line);
        let mut new_line: Vec<char> = copy_range(line, 0, line.len());
        assert(line@.subrange(0, line@.len() as int) =~= line@);
        match h {
            Some(name) => {
                cur = Some(name);
            },
            None => {
                match &cur {
                    Some(sec) => {
                        match entry_exec(line) {
                            Some(kv) => {
                                match edit_lookup(edits, sec.as_slice(), kv.0.as_slice()) {
                                    Some(j) => {
                                        let mut n = copy_range(kv.0.as_slice(), 0, kv.0.len());
                                        assert(kv.0@.subrange(0, kv.0@.len() as int) =~= kv.0@);
                                        n.push(' ');
                                        n.push('=');
                                        n.push(' ');
                                        append_chars(&mut n, edits[j].2.as_slice());
                                        if line.len() > 0 && line[line.len() - 1] == '\r' {
                                            n.push('\r');
                                        }
                                        assert(n@ =~= kv.0@ + seq![' ', '=', ' '] + edits@[j as int].2@
                                            + line_end_cr(ls[i as int]));
                                        new_line = n;
                                        changed = true;
                                    },
                                    None => {},
                                }
                            },
                            None => {},
                        }
                    },
                    None => {},
                }
            },
        }
        assert(new_line@ == updated_line(ls, i as int, ev));
        let ghost nl = new_line;
        let ghost prev = out@;
        out.push(new_line);
        assert(out@ =~= prev.push(nl));
        assert(views(out@) =~= views(prev).push(nl@));
        assert(views(out@) =~= Seq::new((i + 1) as nat, |j: int| updated_line(ls, j, ev)));
        i = i + 1;
    }
    proof {
        lemma_split_len(t@);
    }
    if !changed {
        return Err(ConfigError::NoMatchingKeys);
    }
    let joined = join_lines_exec(&out);
    assert(views(out@) =~= Seq::new(ls.len(), |j: int| updated_line(ls, j, ev)));
    Ok(joined)
}

/// Line `i` of `ls` is a `key = value` line for key `k` in section `s`.
pub open spec fn entry_in(ls: Seq<Seq<char>>, i: int, s: Seq<char>, k: Seq<char>) -> bool {
    section_at(ls, i) == Some(s) && entry_of(ls[i]) is Some && entry_of(ls[i]).unwrap().0 == k
}

/// The value of the last line among the first `n` of `ls` that sets key `k` in
/// section `s`.
pub open spec fn last_value(ls: Seq<Seq<char>>, s: Seq<char>, k: Seq<char>, n: int) -> Option<
    Seq<char>,
>
    decreases n,
{
    if n <= 0 {
        None
    } else if entry_in(ls, n - 1, s, k) {
        Some(entry_of(ls[n - 1]).unwrap().1)
    } else {
        last_value(ls, s, k, n - 1)
    }
}

/// The value that the INI text `t` gives key `k` of section `s`: that of the
/// last line that sets it.
pub open spec fn ini_value(t: Seq<char>, s: Seq<char>, k: Seq<char>) -> Option<Seq<char>> {
    last_value(split_lines(t), s, k, split_lines(t).len() as int)
}

/// The views of a list of (section, key) pairs.
pub open spec fn keys_view(v: Seq<(Vec<char>, Vec<char>)>) -> Seq<(Seq<char>, Seq<char>)> {
    v.map_values(|p: (Vec<char>, Vec<char>)| (p.0@, p.1@))
}

/// For each (section, key) of `keys`, the value that `t` gives it.
pub fn lookup_ini(t: &[char], keys: &Vec<(Vec<char>, Vec<char>)>) -> (r: Vec<Option<Vec<char>>>)
    ensures
        r@.len() == keys@.len(),
        forall|j: int|
            0 <= j < keys@.len() ==> opt_view(#[trigger] r@[j]) == ini_value(
                t@,
                keys_view(keys@)[j].0,
                keys_view(keys@)[j].1,
            ),
{
    let lines = split_lines_exec(t);
    let ghost ls = split_lines(t@);
    let mut res: Vec<Option<Vec<char>>> = Vec::new();
    let mut j: usize = 0;
    while j < keys.len()
        invariant
            j <= keys@.len(),
            res@.len() == j,
            forall|m: int| 0 <= m < j ==> (#[trigger] res@[m]) is None,
        decreases keys@.len() - j,
    {
        res.push(None);
        j = j + 1;
    }
    let mut cur: Option<Vec<char>> = None;
    let mut i: usize = 0;
    while i < lines.len()
        invariant
            views(lines@) == ls,
            i <= lines@.len(),
            res@.len() == keys@.len(),
            opt_view(cur) == section_at(ls, i as int),
            forall|m: int|
                0 <= m < keys@.len() ==> opt_view(#[trigger] res@[m]) == last_value(
                    ls,
                    keys@[m].0@,
                    keys@[m].1@,
                    i as int,
                ),
        decreases lines@.len() - i,
    {
        let line = lines[i].as_slice();
        assert(line@ == ls[i as int]);
        match header_exec(line) {
            Some(name) => {
                cur = Some(name);
            },
            None => {
                match &cur {
                    Some(sec) => {
                        match entry_exec(line) {
                            Some(kv) => {
                                let mut m: usize = 0;
                                while m < keys.len()
                                    invariant
                                        views(lines@) == ls,
                                        i < lines@.len(),
                                        line@ == ls[i as int],
                                        m <= keys@.len(),
                                        res@.len() == keys@.len(),
                                        section_at(ls, i as int) == Some(sec@),
                                        entry_of(ls[i as int]) == Some((kv.0@, kv.1@)),
                                        forall|q: int|
                                            m <= q < keys@.len() ==> opt_view(#[trigger] res@[q])
                                                == last_value(
                                                ls,
                                                keys@[q].0@,
                                                keys@[q].1@,
                                                i as int,
                                            ),
                                        forall|q: int|
                                            0 <= q < m ==> opt_view(#[trigger] res@[q])
                                                == last_value(
                                                ls,
                                                keys@[q].0@,
                                                keys@[q].1@,
                                                i + 1,
                                            ),
                                    decreases keys@.len() - m,
                                {
                                    if chars_eq(keys[m].0.as_slice(), sec.as_slice())
                                        && chars_eq(keys[m].1.as_slice(), kv.0.as_slice()) {
                                        let v = copy_range(kv.1.as_slice(), 0, kv.1.len());
                                        assert(kv.1@.subrange(0, kv.1@.len() as int) =~= kv.1@);
                                        res.set(m, Some(v));
                                    }
                                    m = m + 1;
                                }
                            },
                            None => {},
                        }
                    },
                    None => {},
                }
            },
        }
        i = i + 1;
    }
    res
}

} // verus!
