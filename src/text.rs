//! Lines of text as sequences of code points: splitting on newlines, joining
//! with newlines, and the conversions between `String` and `Vec<char>`.

use vstd::prelude::*;

verus! {

/// `s` holds no newline.
pub open spec fn no_newline(s: Seq<char>) -> bool {
    forall|i: int| 0 <= i < s.len() ==> s[i] != '\n'
}

/// The lines joined by a single newline, with none after the last.
pub open spec fn join_lines(ls: Seq<Seq<char>>) -> Seq<char>
    decreases ls.len(),
{
    if ls.len() == 0 {
        Seq::empty()
    } else if ls.len() == 1 {
        ls[0]
    } else {
        join_lines(ls.drop_last()) + seq!['\n'] + ls.last()
    }
}

/// The pieces of `s` between newlines; always at least one piece.
pub open spec fn split_lines(s: Seq<char>) -> Seq<Seq<char>>
    decreases s.len(),
{
    if s.len() == 0 {
        seq![Seq::empty()]
    } else {
        let p = split_lines(s.drop_last());
        if s.last() == '\n' {
            p.push(Seq::empty())
        } else {
            p.update(p.len() - 1, p.last().push(s.last()))
        }
    }
}

/// The lines of a text: the pieces between newlines, where a newline that
/// ends the text closes the last line instead of opening an empty one.
pub open spec fn lines_of(s: Seq<char>) -> Seq<Seq<char>> {
    if s.len() > 0 && s.last() == '\n' {
        split_lines(s.drop_last())
    } else {
        split_lines(s)
    }
}

/// Relies on `String::push`: appends one character.
#[verifier::external_body]
pub(crate) fn push_char(s: &mut String, c: char)
    ensures
        final(s)@ == old(s)@.push(c),
{
    s.push(c)
}

/// The characters as a `String`.
pub fn string_of(cs: &Vec<char>) -> (r: String)
    ensures
        r@ == cs@,
{
    let mut r = String::new();
    let mut i: usize = 0;
    while i < cs.len()
        invariant
            i <= cs@.len(),
            r@ == cs@.take(i as int),
        decreases cs@.len() - i,
    {
        push_char(&mut r, cs[i]);
        i = i + 1;
        assert(r@ =~= cs@.take(i as int));
    }
    assert(cs@.take(cs@.len() as int) =~= cs@);
    r
}

/// The characters of `s`.
pub fn chars_of(s: &str) -> (r: Vec<char>)
    ensures
        r@ == s@,
{
    let mut r: Vec<char> = Vec::new();
    for c in it: s.chars()
        invariant
            r@ == it.seq().take(it.index() as int),
    {
        r.push(c);
    }
    r
}

/// Every piece of a split holds no newline, and there is at least one.
pub proof fn lemma_split_lines_plain(s: Seq<char>)
    ensures
        split_lines(s).len() >= 1,
        forall|i: int| 0 <= i < split_lines(s).len() ==> no_newline(#[trigger] split_lines(s)[i]),
    decreases s.len(),
{
    if s.len() > 0 {
        lemma_split_lines_plain(s.drop_last());
        let p = split_lines(s.drop_last());
        if s.last() != '\n' {
            assert(no_newline(p.last()));
            assert(no_newline(p.last().push(s.last())));
        }
    }
}

/// Appending text without a newline extends the last piece.
pub proof fn lemma_split_lines_extend(a: Seq<char>, b: Seq<char>)
    requires
        no_newline(b),
    ensures
        split_lines(a + b) == split_lines(a).update(
            split_lines(a).len() - 1,
            split_lines(a).last() + b,
        ),
    decreases b.len(),
{
    lemma_split_lines_plain(a);
    if b.len() == 0 {
        assert(a + b =~= a);
        assert(split_lines(a).last() + b =~= split_lines(a).last());
        assert(split_lines(a).update(split_lines(a).len() - 1, split_lines(a).last())
            =~= split_lines(a));
    } else {
        let b0 = b.drop_last();
        assert((a + b).drop_last() =~= a + b0);
        assert((a + b).last() == b.last());
        lemma_split_lines_extend(a, b0);
        assert(split_lines(a).last() + b0 + seq![b.last()] =~= split_lines(a).last() + b);
        assert((split_lines(a).last() + b0).push(b.last()) =~= split_lines(a).last() + b0 + seq![b.last()]);
        assert(split_lines(a + b) =~= split_lines(a).update(
            split_lines(a).len() - 1,
            split_lines(a).last() + b,
        ));
    }
}

/// Splitting the join of lines without newlines gives the lines back.
pub proof fn lemma_split_join(ls: Seq<Seq<char>>)
    requires
        ls.len() >= 1,
        forall|i: int| 0 <= i < ls.len() ==> no_newline(#[trigger] ls[i]),
    ensures
        split_lines(join_lines(ls)) == ls,
    decreases ls.len(),
{
    if ls.len() == 1 {
        lemma_split_lines_extend(Seq::empty(), ls[0]);
        assert(Seq::<char>::empty() + ls[0] =~= ls[0]);
        assert(split_lines(join_lines(ls)) =~= ls);
    } else {
        let init = ls.drop_last();
        assert forall|i: int| 0 <= i < init.len() implies no_newline(#[trigger] init[i]) by {
            assert(init[i] == ls[i]);
        }
        lemma_split_join(init);
        let a = join_lines(init) + seq!['\n'];
        assert(a.drop_last() =~= join_lines(init));
        assert(no_newline(ls[ls.len() - 1]));
        lemma_split_lines_extend(a, ls.last());
        assert(split_lines(a) == init.push(Seq::empty()));
        assert(Seq::<char>::empty() + ls.last() =~= ls.last());
        assert(split_lines(join_lines(ls)) =~= ls);
    }
}

/// The join ends with a newline exactly when there are two or more lines
/// and the last is empty.
pub proof fn lemma_join_ends_with_newline(ls: Seq<Seq<char>>)
    requires
        ls.len() >= 1,
        forall|i: int| 0 <= i < ls.len() ==> no_newline(#[trigger] ls[i]),
    ensures
        (join_lines(ls).len() > 0 && join_lines(ls).last() == '\n') <==> (ls.len() > 1
            && ls.last().len() == 0),
{
    assert(no_newline(ls[ls.len() - 1]));
    if ls.len() > 1 {
        let j = join_lines(ls.drop_last()) + seq!['\n'];
        assert(join_lines(ls) == j + ls.last());
        if ls.last().len() == 0 {
            assert(j + ls.last() =~= j);
        } else {
            assert((j + ls.last()).last() == ls.last().last());
        }
    }
}

/// The lines of the join of lines without newlines are those lines, unless
/// the last of two or more is empty: then the join ends with a newline, which
/// closes the line before instead.
pub proof fn lemma_lines_of_join(ls: Seq<Seq<char>>)
    requires
        ls.len() >= 1,
        forall|i: int| 0 <= i < ls.len() ==> no_newline(#[trigger] ls[i]),
        !(ls.len() > 1 && ls.last().len() == 0),
    ensures
        lines_of(join_lines(ls)) == ls,
{
    lemma_join_ends_with_newline(ls);
    lemma_split_join(ls);
}

/// The lines of a text, each as a vector of characters.
pub fn lines_from(text: &str) -> (r: Vec<Vec<char>>)
    ensures
        r@.map_values(|l: Vec<char>| l@) == lines_of(text@),
{
    let cs = chars_of(text);
    let mut done: Vec<Vec<char>> = Vec::new();
    let mut cur: Vec<char> = Vec::new();
    let mut i: usize = 0;
    while i < cs.len()
        invariant
            i <= cs@.len(),
            cs@ == text@,
            done@.map_values(|l: Vec<char>| l@).push(cur@) == split_lines(cs@.take(i as int)),
        decreases cs@.len() - i,
    {
        let c = cs[i];
        let ghost pre = cs@.take(i as int);
        assert(cs@.take(i + 1).drop_last() =~= pre);
        if c == '\n' {
            let old_cur = cur;
            cur = Vec::new();
            done.push(old_cur);
            assert(done@.map_values(|l: Vec<char>| l@).push(cur@) =~= split_lines(cs@.take(i + 1)));
        } else {
            let ghost old_done = done@.map_values(|l: Vec<char>| l@);
            cur.push(c);
            assert(done@.map_values(|l: Vec<char>| l@).push(cur@) =~= split_lines(cs@.take(i + 1)));
        }
        i = i + 1;
    }
    assert(cs@.take(cs@.len() as int) =~= cs@);
    if i > 0 && cs[i - 1] == '\n' {
        let ghost d = done@.map_values(|l: Vec<char>| l@);
        assert(split_lines(cs@) == split_lines(cs@.drop_last()).push(Seq::empty()));
        assert(d.push(cur@) == split_lines(cs@));
        assert(d =~= d.push(cur@).drop_last());
        assert(done@.map_values(|l: Vec<char>| l@) =~= lines_of(text@));
    } else {
        done.push(cur);
        assert(done@.map_values(|l: Vec<char>| l@) =~= lines_of(text@));
    }
    done
}

} // verus!
