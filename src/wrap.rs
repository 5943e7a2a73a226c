//! Display widths, line and word splitting, and greedy word wrapping.
use vstd::prelude::*;
use crate::text::{capped, push_all};

verus! {

/// Characters that take two terminal columns: emoji and pictographs, supplemental symbols and
/// pictographs, dingbats, miscellaneous symbols, CJK symbols and punctuation.
pub open spec fn is_wide(c: char) -> bool {
    let u = c as u32;
    (0x1F300 <= u <= 0x1F9FF) || (0x1FA70 <= u <= 0x1FAFF) || (0x2700 <= u <= 0x27BF) || (0x2600 <= u
        <= 0x26FF) || (0x3000 <= u <= 0x303F)
}

/// The characters with the Unicode White_Space property.
pub open spec fn is_space(c: char) -> bool {
    let u = c as u32;
    (0x9 <= u <= 0xD) || u == 0x20 || u == 0x85 || u == 0xA0 || u == 0x1680 || (0x2000 <= u <= 0x200A)
        || u == 0x2028 || u == 0x2029 || u == 0x202F || u == 0x205F || u == 0x3000
}

/// The columns one character takes.
pub open spec fn char_width(c: char) -> nat {
    if is_wide(c) {
        2
    } else {
        1
    }
}

/// The columns a text takes.
pub open spec fn display_width(s: Seq<char>) -> nat
    decreases s.len(),
{
    if s.len() == 0 {
        0
    } else {
        display_width(s.drop_last()) + char_width(s.last())
    }
}

/// The pieces of `s` between line breaks, found so far, and the piece still open.
pub open spec fn lines_state(s: Seq<char>) -> (Seq<Seq<char>>, Seq<char>)
    decreases s.len(),
{
    if s.len() == 0 {
        (Seq::empty(), Seq::empty())
    } else {
        let (done, cur) = lines_state(s.drop_last());
        if s.last() == '\n' {
            (done.push(without_cr(cur)), Seq::empty())
        } else {
            (done, cur.push(s.last()))
        }
    }
}

/// A line without the carriage return that ends it, if one does.
pub open spec fn without_cr(p: Seq<char>) -> Seq<char> {
    if p.len() > 0 && p.last() == '\r' {
        p.drop_last()
    } else {
        p
    }
}

/// The lines of `s`: split at each `\n` (dropping a `\r` just before it), with no empty
/// line after a final `\n`.
pub open spec fn split_lines(s: Seq<char>) -> Seq<Seq<char>> {
    let (done, cur) = lines_state(s);
    if cur.len() > 0 {
        done.push(cur)
    } else {
        done
    }
}

/// The words of `s` found so far, and the word still open.
pub open spec fn words_state(s: Seq<char>) -> (Seq<Seq<char>>, Seq<char>)
    decreases s.len(),
{
    if s.len() == 0 {
        (Seq::empty(), Seq::empty())
    } else {
        let (done, cur) = words_state(s.drop_last());
        if is_space(s.last()) {
            (if cur.len() > 0 {
                done.push(cur)
            } else {
                done
            }, Seq::empty())
        } else {
            (done, cur.push(s.last()))
        }
    }
}

/// The maximal runs of non-blank characters of `s`, in order.
pub open spec fn words(s: Seq<char>) -> Seq<Seq<char>> {
    let (done, cur) = words_state(s);
    if cur.len() > 0 {
        done.push(cur)
    } else {
        done
    }
}

/// Greedy packing of `ws` into lines of at most `max` columns, a blank between words: the
/// finished lines and the line being filled. A word that does not fit on the current line
/// starts the next one, even when it is wider than `max` alone.
pub open spec fn pack(ws: Seq<Seq<char>>, max: nat) -> (Seq<Seq<char>>, Seq<char>)
    decreases ws.len(),
{
    if ws.len() == 0 {
        (Seq::empty(), Seq::empty())
    } else {
        let (done, cur) = pack(ws.drop_last(), max);
        let w = ws.last();
        let cw = display_width(cur);
        let sp: nat = if cw > 0 {
            1
        } else {
            0
        };
        if cw + sp + display_width(w) <= max {
            (done, if cw > 0 {
                cur + seq![' '] + w
            } else {
                cur + w
            })
        } else {
            (if cur.len() > 0 {
                done.push(cur)
            } else {
                done
            }, w)
        }
    }
}

/// One line wrapped to `max` columns; a line without words (empty or all blanks) gives one
/// empty line.
pub open spec fn wrap_line(line: Seq<char>, max: nat) -> Seq<Seq<char>> {
    let (done, cur) = pack(words(line), max);
    let out = if cur.len() > 0 {
        done.push(cur)
    } else {
        done
    };
    if out.len() == 0 {
        seq![Seq::empty()]
    } else {
        out
    }
}

/// The groups one after another.
pub open spec fn flatten(groups: Seq<Seq<Seq<char>>>) -> Seq<Seq<char>>
    decreases groups.len(),
{
    if groups.len() == 0 {
        Seq::empty()
    } else {
        flatten(groups.drop_last()) + groups.last()
    }
}

/// Every line of `text` wrapped to `max` columns, in order.
pub open spec fn wrapped(text: Seq<char>, max: nat) -> Seq<Seq<char>> {
    flatten(split_lines(text).map_values(|l: Seq<char>| wrap_line(l, max)))
}

/// A single word: at least one character and no blank.
pub open spec fn is_word(s: Seq<char>) -> bool {
    s.len() > 0 && forall|i: int| 0 <= i < s.len() ==> !is_space(#[trigger] s[i])
}

/// A wrapped line is within `max` columns, or is a single word too wide to fit alone.
pub open spec fn fits_or_word(l: Seq<char>, max: nat) -> bool {
    display_width(l) <= max || is_word(l)
}

/// Every word found so far is a word, and the open one has no blank.
pub proof fn lemma_words_state_are_words(s: Seq<char>)
    ensures
        forall|k: int| 0 <= k < words_state(s).0.len() ==> is_word(#[trigger] words_state(s).0[k]),
        forall|i: int| 0 <= i < words_state(s).1.len() ==> !is_space(#[trigger] words_state(s).1[i]),
    decreases s.len(),
{
    if s.len() > 0 {
        lemma_words_state_are_words(s.drop_last());
        let (d, c) = words_state(s.drop_last());
        let ch = s.last();
        if is_space(ch) {
            if c.len() > 0 {
                assert(is_word(c));
                assert forall|k: int| 0 <= k < d.push(c).len() implies is_word(#[trigger] d.push(c)[k]) by {
                    if k < d.len() {
                        assert(d.push(c)[k] == d[k]);
                    }
                }
            }
        } else {
            assert forall|i: int| 0 <= i < c.push(ch).len() implies !is_space(#[trigger] c.push(ch)[i]) by {
                if i < c.len() {
                    assert(c.push(ch)[i] == c[i]);
                }
            }
        }
    }
}

/// Every line that greedy packing yields fits, or is a single word.
pub proof fn lemma_pack_fits(ws: Seq<Seq<char>>, max: nat)
    requires
        forall|k: int| 0 <= k < ws.len() ==> is_word(#[trigger] ws[k]),
    ensures
        forall|k: int| 0 <= k < pack(ws, max).0.len() ==> fits_or_word(#[trigger] pack(ws, max).0[k], max),
        fits_or_word(pack(ws, max).1, max),
    decreases ws.len(),
{
    if ws.len() > 0 {
        let w = ws.last();
        assert(is_word(w));
        assert forall|k: int| 0 <= k < ws.len() - 1 implies is_word(#[trigger] ws.drop_last()[k]) by {
            assert(ws.drop_last()[k] == ws[k]);
        }
        lemma_pack_fits(ws.drop_last(), max);
        let (d, c) = pack(ws.drop_last(), max);
        let cw = display_width(c);
        let sp: nat = if cw > 0 {
            1
        } else {
            0
        };
        if cw + sp + display_width(w) <= max {
            if cw > 0 {
                lemma_display_width_concat(c, seq![' ']);
                lemma_display_width_single(' ');
                lemma_display_width_concat(c + seq![' '], w);
            } else {
                lemma_display_width_concat(c, w);
            }
        } else if c.len() > 0 {
            assert forall|k: int| 0 <= k < d.push(c).len() implies fits_or_word(#[trigger] d.push(c)[k], max) by {
                if k < d.len() {
                    assert(d.push(c)[k] == d[k]);
                }
            }
        }
    }
}

/// Each line that wrapping one line yields fits in `max` columns, or is a single word too
/// wide to fit alone.
pub proof fn lemma_wrap_line_fits(line: Seq<char>, max: nat)
    ensures
        forall|k: int| 0 <= k < wrap_line(line, max).len() ==> fits_or_word(#[trigger] wrap_line(line, max)[k], max),
{
    let ws = words(line);
    lemma_words_state_are_words(line);
    let (d, c) = words_state(line);
    assert forall|k: int| 0 <= k < ws.len() implies is_word(#[trigger] ws[k]) by {
        if k < d.len() {
            assert(ws[k] == d[k]);
        } else {
            assert(ws[k] == c);
        }
    }
    lemma_pack_fits(ws, max);
    assert(display_width(Seq::<char>::empty()) == 0);
}

/// Each line that wrapping a whole text yields fits in `max` columns, or is a single word
/// too wide to fit alone.
pub proof fn lemma_wrapped_fits(text: Seq<char>, max: nat)
    ensures
        forall|k: int| 0 <= k < wrapped(text, max).len() ==> fits_or_word(#[trigger] wrapped(text, max)[k], max),
{
    let groups = split_lines(text).map_values(|l: Seq<char>| wrap_line(l, max));
    assert forall|g: int| 0 <= g < groups.len() implies forall|k: int|
        0 <= k < (#[trigger] groups[g]).len() ==> fits_or_word(groups[g][k], max) by {
        lemma_wrap_line_fits(split_lines(text)[g], max);
    }
    lemma_flatten_fits(groups, max);
}

/// Flattening keeps a property that holds of every line of every group.
proof fn lemma_flatten_fits(groups: Seq<Seq<Seq<char>>>, max: nat)
    requires
        forall|g: int| 0 <= g < groups.len() ==> forall|k: int|
            0 <= k < (#[trigger] groups[g]).len() ==> fits_or_word(groups[g][k], max),
    ensures
        forall|k: int| 0 <= k < flatten(groups).len() ==> fits_or_word(#[trigger] flatten(groups)[k], max),
    decreases groups.len(),
{
    if groups.len() > 0 {
        let init = groups.drop_last();
        assert forall|g: int| 0 <= g < init.len() implies forall|k: int|
            0 <= k < (#[trigger] init[g]).len() ==> fits_or_word(init[g][k], max) by {
            assert(init[g] == groups[g]);
        }
        lemma_flatten_fits(init, max);
        let f = flatten(init);
        let last = groups.last();
        assert(groups[groups.len() - 1] == last);
        assert forall|k: int| 0 <= k < flatten(groups).len() implies fits_or_word(#[trigger] flatten(groups)[k], max) by {
            if k < f.len() {
                assert(flatten(groups)[k] == f[k]);
            } else {
                assert(flatten(groups)[k] == last[k - f.len()]);
            }
        }
    }
}

/// Blanks are one column each.
pub proof fn lemma_display_width_spaces(n: nat)
    ensures
        display_width(crate::text::spaces(n)) == n,
    decreases n,
{
    if n > 0 {
        assert(crate::text::spaces(n).drop_last() =~= crate::text::spaces((n - 1) as nat));
        lemma_display_width_spaces((n - 1) as nat);
    } else {
        assert(crate::text::spaces(n).len() == 0);
    }
}

/// Whether `c` takes two columns.
pub fn is_wide_char(c: char) -> (r: bool)
    ensures
        r == is_wide(c),
{
    let u = c as u32;
    (0x1F300 <= u && u <= 0x1F9FF) || (0x1FA70 <= u && u <= 0x1FAFF) || (0x2700 <= u && u <= 0x27BF)
        || (0x2600 <= u && u <= 0x26FF) || (0x3000 <= u && u <= 0x303F)
}

/// Whether `c` is blank.
pub fn is_space_char(c: char) -> (r: bool)
    ensures
        r == is_space(c),
{
    let u = c as u32;
    (0x9 <= u && u <= 0xD) || u == 0x20 || u == 0x85 || u == 0xA0 || u == 0x1680 || (0x2000 <= u && u
        <= 0x200A) || u == 0x2028 || u == 0x2029 || u == 0x202F || u == 0x205F || u == 0x3000
}

/// The display width of a concatenation is the sum of the widths.
pub proof fn lemma_display_width_concat(a: Seq<char>, b: Seq<char>)
    ensures
        display_width(a + b) == display_width(a) + display_width(b),
    decreases b.len(),
{
    if b.len() == 0 {
        assert(a + b =~= a);
    } else {
        assert((a + b).drop_last() =~= a + b.drop_last());
        lemma_display_width_concat(a, b.drop_last());
    }
}

/// One character is as wide as its width.
pub proof fn lemma_display_width_single(c: char)
    ensures
        display_width(seq![c]) == char_width(c),
{
    assert(seq![c].drop_last() =~= Seq::<char>::empty());
    assert(seq![c].last() == c);
    assert(display_width(Seq::<char>::empty()) == 0);
}

/// A text is at least as wide as it is long and at most twice as wide.
pub proof fn lemma_display_width_len(s: Seq<char>)
    ensures
        display_width(s) >= s.len(),
        display_width(s) <= 2 * s.len(),
    decreases s.len(),
{
    if s.len() > 0 {
        lemma_display_width_len(s.drop_last());
    }
}

/// The display width of `text`, capped at the largest `usize`.
pub fn width_of(text: &str) -> (r: usize)
    ensures
        r == capped(display_width(text@)),
{
    let mut total: usize = 0;
    for c in it: text.chars()
        invariant
            it.seq() == text@,
            total == capped(display_width(text@.take(it.index() as int))),
    {
        proof {
            assert(text@.take(it.index() as int + 1).drop_last() =~= text@.take(it.index() as int));
        }
        let w: usize = if is_wide_char(c) {
            2
        } else {
            1
        };
        total = total.saturating_add(w);
    }
    proof {
        assert(text@.take(text@.len() as int) =~= text@);
    }
    total
}

/// Splits `text` into its lines.
pub fn lines_of(text: &str) -> (r: Vec<String>)
    ensures
        r.deep_view() == split_lines(text@),
{
    let mut done: Vec<String> = Vec::new();
    let mut cur = String::new();
    for c in it: text.chars()
        invariant
            it.seq() == text@,
            (done.deep_view(), cur@) == lines_state(text@.take(it.index() as int)),
    {
        proof {
            assert(text@.take(it.index() as int + 1).drop_last() =~= text@.take(it.index() as int));
        }
        if c == '\n' {
            let line = strip_cr(cur);
            done.push(line);
            cur = String::new();
            proof {
                assert(done.deep_view() =~= lines_state(text@.take(it.index() as int)).0.push(line@));
            }
        } else {
            cur.push(c);
        }
    }
    proof {
        assert(text@.take(text@.len() as int) =~= text@);
    }
    if cur.as_str().unicode_len() > 0 {
        let ghost before = done.deep_view();
        done.push(cur);
        proof {
            assert(done.deep_view() =~= before.push(cur@));
        }
    }
    done
}

/// `line` without a final carriage return.
fn strip_cr(line: String) -> (r: String)
    ensures
        r@ == without_cr(line@),
{
    let n = line.as_str().unicode_len();
    if n > 0 && line.as_str().get_char(n - 1) == '\r' {
        let mut r = String::new();
        push_all(&mut r, line.as_str().substring_char(0, n - 1));
        assert(r@ =~= line@.drop_last());
        r
    } else {
        line
    }
}

/// Splits `line` into its words.
pub fn words_of(line: &str) -> (r: Vec<String>)
    ensures
        r.deep_view() == words(line@),
{
    let mut done: Vec<String> = Vec::new();
    let mut cur = String::new();
    let mut cur_len: usize = 0;
    for c in it: line.chars()
        invariant
            it.seq() == line@,
            (done.deep_view(), cur@) == words_state(line@.take(it.index() as int)),
            cur_len == 0 <==> cur@.len() == 0,
    {
        proof {
            assert(line@.take(it.index() as int + 1).drop_last() =~= line@.take(it.index() as int));
        }
        if is_space_char(c) {
            if cur_len > 0 {
                let ghost before = done.deep_view();
                done.push(cur);
                proof {
                    assert(done.deep_view() =~= before.push(cur@));
                }
            }
            cur = String::new();
            cur_len = 0;
        } else {
            cur.push(c);
            cur_len = 1;
        }
    }
    proof {
        assert(line@.take(line@.len() as int) =~= line@);
    }
    if cur_len > 0 {
        let ghost before = done.deep_view();
        done.push(cur);
        proof {
            assert(done.deep_view() =~= before.push(cur@));
        }
    }
    done
}

/// Wraps one line to `max` columns.
pub fn wrap_one_line(line: &str, max: usize) -> (r: Vec<String>)
    requires
        max < usize::MAX,
    ensures
        r.deep_view() == wrap_line(line@, max as nat),
{
    let ws = words_of(line);
    let ghost wv = ws.deep_view();
    let mut done: Vec<String> = Vec::new();
    let mut cur = String::new();
    let mut cur_w: usize = 0;
    let mut k: usize = 0;
    while k < ws.len()
        invariant
            max < usize::MAX,
            k <= ws.len(),
            wv == ws.deep_view(),
            (done.deep_view(), cur@) == pack(wv.take(k as int), max as nat),
            cur_w == capped(display_width(cur@)),
        decreases ws.len() - k,
    {
        proof {
            assert(wv.take(k as int + 1).drop_last() =~= wv.take(k as int));
            assert(wv[k as int] == ws[k as int]@);
            lemma_display_width_len(cur@);
        }
        let w = ws[k].as_str();
        let ww = width_of(w);
        let sp: usize = if cur_w > 0 {
            1
        } else {
            0
        };
        if cur_w <= max && sp <= max - cur_w && ww <= max - cur_w - sp {
            let ghost old_cur = cur@;
            assert(cur_w == display_width(old_cur));
            assert(ww == display_width(w@));
            if cur_w > 0 {
                cur.push(' ');
                cur_w = cur_w + 1;
                proof {
                    assert(cur@ =~= old_cur + seq![' ']);
                    lemma_display_width_concat(old_cur, seq![' ']);
                    lemma_display_width_single(' ');
                }
            }
            let ghost mid = cur@;
            push_all(&mut cur, w);
            proof {
                lemma_display_width_concat(mid, w@);
            }
            cur_w = cur_w + ww;
            assert(cur_w == display_width(cur@));
        } else {
            if cur_w > 0 {
                let ghost before = done.deep_view();
                done.push(cur);
                proof {
                    assert(done.deep_view() =~= before.push(cur@));
                }
            }
            cur = String::new();
            push_all(&mut cur, w);
            cur_w = ww;
            assert(cur@ =~= w@);
        }
        k = k + 1;
    }
    proof {
        assert(wv.take(ws.len() as int) =~= wv);
        lemma_display_width_len(cur@);
    }
    if cur_w > 0 {
        let ghost before = done.deep_view();
        done.push(cur);
        proof {
            assert(done.deep_view() =~= before.push(cur@));
        }
    }
    if done.len() == 0 {
        let empty = String::new();
        done.push(empty);
        proof {
            assert(done.deep_view() =~= seq![Seq::<char>::empty()]);
        }
    }
    done
}

/// Wraps every line of `text` to `max` columns.
pub fn wrap_all(text: &str, max: usize) -> (r: Vec<String>)
    requires
        max < usize::MAX,
    ensures
        r.deep_view() == wrapped(text@, max as nat),
{
    let lines = lines_of(text);
    let ghost groups = lines.deep_view().map_values(|l: Seq<char>| wrap_line(l, max as nat));
    let mut out: Vec<String> = Vec::new();
    let mut k: usize = 0;
    while k < lines.len()
        invariant
            max < usize::MAX,
            k <= lines.len(),
            groups == lines.deep_view().map_values(|l: Seq<char>| wrap_line(l, max as nat)),
            out.deep_view() == flatten(groups.take(k as int)),
        decreases lines.len() - k,
    {
        proof {
            assert(groups.take(k as int + 1).drop_last() =~= groups.take(k as int));
        }
        let part = wrap_one_line(lines[k].as_str(), max);
        let ghost before = out.deep_view();
        let mut j: usize = 0;
        while j < part.len()
            invariant
                j <= part.len(),
                out.deep_view() == before + part.deep_view().take(j as int),
            decreases part.len() - j,
        {
            let mut s = String::new();
            push_all(&mut s, part[j].as_str());
            let ghost prev = out.deep_view();
            out.push(s);
            proof {
                assert(out.deep_view() =~= prev.push(s@));
            }
            proof {
                assert(part.deep_view()[j as int] == part[j as int]@);
                assert(part.deep_view().take(j as int + 1) =~= part.deep_view().take(j as int).push(s@));
            }
            j = j + 1;
            proof {
                assert(out.deep_view() =~= before + part.deep_view().take(j as int));
            }
        }
        proof {
            assert(part.deep_view().take(part.len() as int) =~= part.deep_view());
            assert(groups[k as int] == wrap_line(lines[k as int]@, max as nat));
        }
        k = k + 1;
    }
    proof {
        assert(groups.take(lines.len() as int) =~= groups);
    }
    out
}

} // verus!
