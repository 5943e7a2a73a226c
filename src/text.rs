//! Character-level building blocks shared by every renderer.
use vstd::prelude::*;

verus! {

/// Relies on `String::push`: the character is appended at the end.
pub assume_specification[ String::push ](s: &mut String, ch: char)
    ensures
        final(s)@ == old(s)@.push(ch),
;

/// `n` copies of `c`.
pub open spec fn repeat_char(c: char, n: nat) -> Seq<char> {
    Seq::new(n, |_i: int| c)
}

/// `n` blanks.
pub open spec fn spaces(n: nat) -> Seq<char> {
    repeat_char(' ', n)
}

/// `n`, capped at the largest `usize`.
pub open spec fn capped(n: nat) -> nat {
    if n > usize::MAX {
        usize::MAX as nat
    } else {
        n
    }
}

/// `a - b`, or zero when `b` is larger.
pub open spec fn gap(a: nat, b: nat) -> nat {
    if a >= b {
        (a - b) as nat
    } else {
        0
    }
}

/// `s` followed by blanks up to `width` characters (left-justified); unchanged when already
/// as long.
pub open spec fn pad_right(s: Seq<char>, width: nat) -> Seq<char> {
    s + spaces(gap(width, s.len()))
}

/// One printed line: `left`, the body, `right`, and a line break.
pub open spec fn framed_line(left: char, body: Seq<char>, right: char) -> Seq<char> {
    seq![left] + body + seq![right, '\n']
}

/// The parts in order with `sep` between neighbours and not after the last.
pub open spec fn join_with(parts: Seq<Seq<char>>, sep: char) -> Seq<char>
    decreases parts.len(),
{
    if parts.len() == 0 {
        Seq::empty()
    } else if parts.len() == 1 {
        parts[0]
    } else {
        join_with(parts.drop_last(), sep) + seq![sep] + parts.last()
    }
}

/// The lines one after another.
pub open spec fn concat_lines(lines: Seq<Seq<char>>) -> Seq<char>
    decreases lines.len(),
{
    if lines.len() == 0 {
        Seq::empty()
    } else {
        concat_lines(lines.drop_last()) + lines.last()
    }
}

/// Appends `n` copies of `c` to `s`.
pub fn push_repeat(s: &mut String, c: char, n: usize)
    ensures
        final(s)@ == old(s)@ + repeat_char(c, n as nat),
{
    let mut i: usize = 0;
    while i < n
        invariant
            i <= n,
            s@ == old(s)@ + repeat_char(c, i as nat),
        decreases n - i,
    {
        s.push(c);
        i = i + 1;
        assert(s@ =~= old(s)@ + repeat_char(c, i as nat));
    }
}

/// Appends the characters of `t` to `s`.
pub fn push_all(s: &mut String, t: &str)
    ensures
        final(s)@ == old(s)@ + t@,
{
    let ghost start = s@;
    for c in it: t.chars()
        invariant
            it.seq() == t@,
            s@ == start + t@.take(it.index() as int),
    {
        s.push(c);
        assert(s@ =~= start + t@.take(it.index() as int + 1));
    }
    assert(t@.take(t@.len() as int) =~= t@);
}

/// Appends `t` and then blanks up to `width` characters in all.
pub fn push_padded(s: &mut String, t: &str, width: usize)
    ensures
        final(s)@ == old(s)@ + pad_right(t@, width as nat),
{
    push_all(s, t);
    let n = t.unicode_len();
    if n < width {
        push_repeat(s, ' ', width - n);
    } else {
        push_repeat(s, ' ', 0);
    }
    assert(final(s)@ =~= old(s)@ + pad_right(t@, width as nat)) by {
        assert(repeat_char(' ', 0) =~= Seq::empty());
    }
}

/// Joining one more part adds the separator and the part, except for the first part.
pub proof fn lemma_join_step(parts: Seq<Seq<char>>, i: int, sep: char)
    requires
        0 <= i < parts.len(),
    ensures
        join_with(parts.take(i + 1), sep) == if i == 0 {
            parts[0]
        } else {
            join_with(parts.take(i), sep) + seq![sep] + parts[i]
        },
{
    assert(parts.take(i + 1).drop_last() =~= parts.take(i));
}

/// Concatenating one more line appends it.
pub proof fn lemma_concat_step(lines: Seq<Seq<char>>, i: int)
    requires
        0 <= i < lines.len(),
    ensures
        concat_lines(lines.take(i + 1)) == concat_lines(lines.take(i)) + lines[i],
{
    assert(lines.take(i + 1).drop_last() =~= lines.take(i));
}

/// Concatenating two runs of lines is concatenating each and joining the results.
pub proof fn lemma_concat_append(a: Seq<Seq<char>>, b: Seq<Seq<char>>)
    ensures
        concat_lines(a + b) == concat_lines(a) + concat_lines(b),
    decreases b.len(),
{
    if b.len() == 0 {
        assert(a + b =~= a);
    } else {
        assert((a + b).drop_last() =~= a + b.drop_last());
        lemma_concat_append(a, b.drop_last());
        assert(concat_lines(a + b) =~= concat_lines(a) + concat_lines(b));
    }
}

/// One line concatenated is that line.
pub proof fn lemma_concat_single(l: Seq<char>)
    ensures
        concat_lines(seq![l]) == l,
{
    assert(seq![l].drop_last() =~= Seq::<Seq<char>>::empty());
    assert(concat_lines(Seq::<Seq<char>>::empty()) == Seq::<char>::empty());
    assert(Seq::<char>::empty() + l =~= l);
}

} // verus!
