use vstd::prelude::*;
use crate::error::ConfigError;
use crate::ini::{chars_eq, index_from};
use crate::lines::{split_lines, split_lines_exec, views};
use crate::literal::{Decimal, int_in, is_decimal, is_decimal_range, parse_i64, signed_value};
use crate::text::{chars_of, copy_range, string_of, trim, trim_range};

verus! {

/// `s` with every leading `c` removed.
pub open spec fn strip_start(s: Seq<char>, c: char) -> Seq<char>
    decreases s.len(),
{
    if s.len() > 0 && s[0] == c {
        strip_start(s.drop_first(), c)
    } else {
        s
    }
}

/// `s` with every trailing `c` removed.
pub open spec fn strip_end(s: Seq<char>, c: char) -> Seq<char>
    decreases s.len(),
{
    if s.len() > 0 && s.last() == c {
        strip_end(s.drop_last(), c)
    } else {
        s
    }
}

/// `s` without the double quotes, then the single quotes, at its ends.
pub open spec fn unquote(s: Seq<char>) -> Seq<char> {
    strip_end(strip_start(strip_end(strip_start(s, '"'), '"'), '\''), '\'')
}

/// A value of a free-form settings file, read by its shape.
#[derive(Debug, Clone)]
pub enum OpenMwValue {
    Integer(i64),
    Float(Decimal),
    Bool(bool),
    Text(String),
}

/// A value of a free-form settings file, as the contracts see it.
pub enum OpenMwView {
    Integer(int),
    Float(Seq<char>),
    Bool(bool),
    Text(Seq<char>),
}

impl View for OpenMwValue {
    type V = OpenMwView;

    open spec fn view(&self) -> OpenMwView {
        match self {
            OpenMwValue::Integer(n) => OpenMwView::Integer(*n as int),
            OpenMwValue::Float(d) => OpenMwView::Float(d@),
            OpenMwValue::Bool(b) => OpenMwView::Bool(*b),
            OpenMwValue::Text(s) => OpenMwView::Text(s@),
        }
    }
}

/// What a value text reads as: a 64-bit integer where it is one, else a decimal
/// number, else `true` or `false`, else text.
pub open spec fn value_of(x: Seq<char>) -> OpenMwView {
    match int_in(signed_value(x), i64::MIN as int, i64::MAX as int) {
        Some(n) => OpenMwView::Integer(n),
        None => if is_decimal(x) {
            OpenMwView::Float(x)
        } else if x == "true"@ {
            OpenMwView::Bool(true)
        } else if x == "false"@ {
            OpenMwView::Bool(false)
        } else {
            OpenMwView::Text(x)
        },
    }
}

/// The key and value that a line sets: a non-blank line that does not start with
/// `#` and holds `=`; the key ends at the first `=`.
pub open spec fn line_setting(line: Seq<char>) -> Option<(Seq<char>, OpenMwView)> {
    let l = trim(line);
    if l.len() == 0 || l[0] == '#' {
        None
    } else {
        let e = index_from(l, '=', 0);
        if e < l.len() {
            Some((trim(l.subrange(0, e)), value_of(unquote(trim(l.subrange(e + 1, l.len() as int))))))
        } else {
            None
        }
    }
}

/// The index of the entry of key `k` in `es`, or `es.len()`.
pub open spec fn key_index(es: Seq<(Seq<char>, OpenMwView)>, k: Seq<char>, i: int) -> int
    decreases es.len() - i,
{
    if i < 0 || i >= es.len() {
        es.len() as int
    } else if es[i].0 == k {
        i
    } else {
        key_index(es, k, i + 1)
    }
}

/// `es` with key `k` set to `v`: its entry replaced where it has one, else a new
/// entry at the end.
pub open spec fn upsert(es: Seq<(Seq<char>, OpenMwView)>, k: Seq<char>, v: OpenMwView) -> Seq<
    (Seq<char>, OpenMwView),
> {
    let j = key_index(es, k, 0);
    if 0 <= j < es.len() {
        es.update(j, (k, v))
    } else {
        es.push((k, v))
    }
}

/// The settings of the first `n` lines of `ls`, each key once, in the order of
/// first appearance, with the value of its last line.
pub open spec fn settings_of_lines(ls: Seq<Seq<char>>, n: int) -> Seq<(Seq<char>, OpenMwView)>
    decreases n,
{
    if n <= 0 {
        Seq::empty()
    } else {
        let prev = settings_of_lines(ls, n - 1);
        match line_setting(ls[n - 1]) {
            Some(s) => upsert(prev, s.0, s.1),
            None => prev,
        }
    }
}

/// The settings of the free-form text `t`.
pub open spec fn openmw_settings(t: Seq<char>) -> Seq<(Seq<char>, OpenMwView)> {
    settings_of_lines(split_lines(t), split_lines(t).len() as int)
}

/// The views of a list of settings.
pub open spec fn entries_view(v: Seq<(String, OpenMwValue)>) -> Seq<(Seq<char>, OpenMwView)> {
    v.map_values(|e: (String, OpenMwValue)| (e.0@, e.1@))
}

fn strip_range(s: &[char], a: usize, b: usize, c: char) -> (r: Vec<char>)
    requires
        a <= b <= s@.len(),
    ensures
        r@ == strip_end(strip_start(s@.subrange(a as int, b as int), c), c),
{
    let mut lo = a;
    while lo < b && s[lo] == c
        invariant
            a <= lo <= b <= s@.len(),
            strip_start(s@.subrange(a as int, b as int), c) == strip_start(
                s@.subrange(lo as int, b as int),
                c,
            ),
        decreases b - lo,
    {
        assert(s@.subrange(lo as int, b as int).drop_first() =~= s@.subrange(lo + 1, b as int));
        lo = lo + 1;
    }
    let mut hi = b;
    while hi > lo && s[hi - 1] == c
        invariant
            a <= lo <= hi <= b <= s@.len(),
            strip_end(strip_start(s@.subrange(a as int, b as int), c), c) == strip_end(
                s@.subrange(lo as int, hi as int),
                c,
            ),
        decreases hi - lo,
    {
        assert(s@.subrange(lo as int, hi as int).drop_last() =~= s@.subrange(lo as int, hi - 1));
        hi = hi - 1;
    }
    copy_range(s, lo, hi)
}

fn value_exec(x: &[char]) -> (r: OpenMwValue)
    ensures
        r@ == value_of(x@),
{
    assert(x@.subrange(0, x@.len() as int) =~= x@);
    match parse_i64(x, 0, x.len()) {
        Some(n) => OpenMwValue::Integer(n),
        None => {
            if is_decimal_range(x, 0, x.len()) {
                match Decimal::from_chars(x) {
                    Some(d) => OpenMwValue::Float(d),
                    None => OpenMwValue::Text(string_of(x)),
                }
            } else {
                let t = chars_of("true");
                let f = chars_of("false");
                if chars_eq(x, t.as_slice()) {
                    OpenMwValue::Bool(true)
                } else if chars_eq(x, f.as_slice()) {
                    OpenMwValue::Bool(false)
                } else {
                    OpenMwValue::Text(string_of(x))
                }
            }
        },
    }
}

fn line_setting_exec(line: &[char]) -> (r: Option<(String, OpenMwValue)>)
    ensures
        match r {
            Some(e) => line_setting(line@) == Some((e.0@, e.1@)),
            None => line_setting(line@) is None,
        },
{
    let l = trim_range(line, 0, line.len());
    assert(line@.subrange(0, line@.len() as int) =~= line@);
    let n = l.len();
    if n == 0 || l[0] == '#' {
        return None;
    }
    let mut e: usize = 0;
    while e < n && l[e] != '='
        invariant
            n == l@.len(),
            e <= n,
            index_from(l@, '=', 0) == index_from(l@, '=', e as int),
        decreases n - e,
    {
        e = e + 1;
    }
    if e >= n {
        return None;
    }
    let k = trim_range(l.as_slice(), 0, e);
    let v = trim_range(l.as_slice(), e + 1, n);
    let v1 = strip_range(v.as_slice(), 0, v.len(), '"');
    assert(v@.subrange(0, v@.len() as int) =~= v@);
    let v2 = strip_range(v1.as_slice(), 0, v1.len(), '\'');
    assert(v1@.subrange(0, v1@.len() as int) =~= v1@);
    Some((string_of(k.as_slice()), value_exec(v2.as_slice())))
}

/// Reads a free-form `key = value` settings file into its settings: each key
/// once, in the order in which keys first appear, with the value of its last
/// line. Quotes around a value are dropped, and the value is read as an integer,
/// else a decimal number, else `true` or `false`, else as text. Blank lines and
/// `#` comments are skipped; section headers hold no `=` and are skipped too.
pub fn parse_openmw_config(content: &str) -> (r: Result<Vec<(String, OpenMwValue)>, ConfigError>)
    ensures
        r is Ok,
        entries_view(r->Ok_0@) == openmw_settings(content@),
{
    let t = chars_of(content);
    let lines = split_lines_exec(t.as_slice());
    let ghost ls = split_lines(t@);
    let mut out: Vec<(String, OpenMwValue)> = Vec::new();
    let mut i: usize = 0;
    assert(entries_view(out@) =~= Seq::<(Seq<char>, OpenMwView)>::empty());
    while i < lines.len()
        invariant
            views(lines@) == ls,
            i <= lines@.len(),
            entries_view(out@) == settings_of_lines(ls, i as int),
        decreases lines@.len() - i,
    {
        let line = lines[i].as_slice();
        assert(line@ == ls[i as int]);
        match line_setting_exec(line) {
            Some(e) => {
                let ghost es = entries_view(out@);
                let mut j: usize = 0;
                while j < out.len()
                    invariant
                        es == entries_view(out@),
                        j <= out@.len(),
                        key_index(es, e.0@, 0) == key_index(es, e.0@, j as int),
                    ensures
                        j <= out@.len(),
                        key_index(es, e.0@, 0) == key_index(es, e.0@, j as int),
                        j < out@.len() ==> es[j as int].0 == e.0@,
                    decreases out@.len() - j,
                {
                    if chars_eq(chars_of(out[j].0.as_str()).as_slice(), chars_of(e.0.as_str()).as_slice()) {
                        break;
                    }
                    j = j + 1;
                }
                let ghost v = (e.0@, e.1@);
                if j < out.len() {
                    assert(key_index(es, e.0@, 0) == j);
                    out.set(j, e);
                    assert(entries_view(out@) =~= es.update(j as int, v));
                } else {
                    out.push(e);
                    assert(entries_view(out@) =~= es.push(v));
                }
            },
            None => {},
        }
        i = i + 1;
    }
    Ok(out)
}

} // verus!
