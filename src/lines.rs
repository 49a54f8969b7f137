use vstd::prelude::*;

verus! {

/// The lines of `t`: the pieces between `\n` characters, in order. A text of
/// `n` newlines has `n + 1` lines; the last one is empty when `t` ends with `\n`.
pub open spec fn split_lines(t: Seq<char>) -> Seq<Seq<char>>
    decreases t.len(),
{
    if t.len() == 0 {
        seq![Seq::empty()]
    } else {
        let p = split_lines(t.drop_last());
        if t.last() == '\n' {
            p.push(Seq::empty())
        } else {
            p.update(p.len() - 1, p.last().push(t.last()))
        }
    }
}

/// The lines `ls` joined by `\n`.
pub open spec fn join_lines(ls: Seq<Seq<char>>) -> Seq<char>
    decreases ls.len(),
{
    if ls.len() <= 1 {
        if ls.len() == 1 { ls[0] } else { Seq::empty() }
    } else {
        join_lines(ls.drop_last()) + seq!['\n'] + ls.last()
    }
}

/// The views of a sequence of character vectors.
pub open spec fn views(v: Seq<Vec<char>>) -> Seq<Seq<char>> {
    v.map_values(|l: Vec<char>| l@)
}

/// Every text has at least one line.
pub proof fn lemma_split_len(t: Seq<char>)
    ensures
        split_lines(t).len() >= 1,
    decreases t.len(),
{
    if t.len() > 0 {
        lemma_split_len(t.drop_last());
    }
}

/// Joining the lines of a text gives the text back.
pub proof fn lemma_join_split(t: Seq<char>)
    ensures
        join_lines(split_lines(t)) == t,
    decreases t.len(),
{
    if t.len() > 0 {
        let u = t.drop_last();
        lemma_join_split(u);
        lemma_split_len(u);
        let p = split_lines(u);
        if t.last() == '\n' {
            assert(split_lines(t).drop_last() =~= p);
            assert(t =~= join_lines(p) + seq!['\n'] + Seq::<char>::empty());
        } else {
            let q = split_lines(t);
            assert(q.drop_last() =~= p.drop_last());
            if p.len() == 1 {
                assert(t =~= u.push(t.last()));
            } else {
                assert(join_lines(p) == join_lines(p.drop_last()) + seq!['\n'] + p.last());
                assert(q.last() == p.last().push(t.last()));
                assert(t =~= u.push(t.last()));
                assert(t =~= join_lines(q.drop_last()) + seq!['\n'] + q.last());
            }
        }
    }
}

/// Splits `t` into its lines.
pub fn split_lines_exec(t: &[char]) -> (r: Vec<Vec<char>>)
    ensures
        views(r@) == split_lines(t@),
{
    let mut lines: Vec<Vec<char>> = Vec::new();
    let mut cur: Vec<char> = Vec::new();
    let mut i: usize = 0;
    assert(views(lines@).push(cur@) =~= split_lines(t@.subrange(0, 0)));
    while i < t.len()
        invariant
            i <= t@.len(),
            views(lines@).push(cur@) == split_lines(t@.subrange(0, i as int)),
        decreases t@.len() - i,
    {
        let ghost before = views(lines@).push(cur@);
        assert(t@.subrange(0, i + 1).drop_last() =~= t@.subrange(0, i as int));
        if t[i] == '\n' {
            let done = cur;
            lines.push(done);
            cur = Vec::new();
            assert(views(lines@).push(cur@) =~= before.push(Seq::empty()));
        } else {
            cur.push(t[i]);
            assert(views(lines@).push(cur@) =~= before.update(
                before.len() - 1,
                before.last().push(t@[i as int]),
            ));
        }
        i = i + 1;
    }
    assert(t@.subrange(0, t@.len() as int) =~= t@);
    lines.push(cur);
    lines
}

/// Joins `ls` with `\n` between lines.
pub fn join_lines_exec(ls: &Vec<Vec<char>>) -> (r: Vec<char>)
    ensures
        r@ == join_lines(views(ls@)),
{
    let mut out: Vec<char> = Vec::new();
    let mut i: usize = 0;
    while i < ls.len()
        invariant
            i <= ls@.len(),
            out@ == join_lines(views(ls@).subrange(0, i as int)),
        decreases ls@.len() - i,
    {
        let ghost pre = views(ls@).subrange(0, i as int);
        let ghost post = views(ls@).subrange(0, i + 1);
        assert(post.drop_last() =~= pre);
        if i > 0 {
            out.push('\n');
        }
        crate::text::append_chars(&mut out, ls[i].as_slice());
        assert(out@ =~= join_lines(post));
        i = i + 1;
    }
    assert(views(ls@).subrange(0, ls@.len() as int) =~= views(ls@));
    out
}

} // verus!
