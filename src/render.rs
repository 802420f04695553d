//! Rendering a finished rocket: every row of every part, centred within the
//! widest row.

use vstd::prelude::*;
use vstd::std_specs::iter::IteratorSpec;
use crate::catalog::{part, spec_part, PART_COUNT};

verus! {

broadcast use {vstd::string::axiom_spec_iter, vstd::string::next_postcondition};

/// The characters of `s`, in order.
pub fn chars_of(s: &str) -> (r: Vec<char>)
    ensures
        r@ == s@,
{
    let mut it = s.chars();
    let mut r: Vec<char> = Vec::new();
    loop
        invariant
            r@ + it.remaining() == s@,
        ensures
            r@ == s@,
        decreases s@.len() - r@.len(),
    {
        match it.next() {
            Some(c) => {
                r.push(c);
            },
            None => {
                assert(r@ + it.remaining() == s@);
                assert(it.remaining().len() == 0);
                assert(r@ =~= s@);
                break;
            },
        }
    }
    r
}

/// Splits text at each line break; text without a line break is one row.
pub open spec fn split_lines(s: Seq<char>) -> Seq<Seq<char>>
    decreases s.len(),
{
    if s.len() == 0 {
        seq![Seq::<char>::empty()]
    } else {
        let prev = split_lines(s.drop_last());
        if s.last() == '\n' {
            prev.push(Seq::<char>::empty())
        } else {
            prev.update(prev.len() - 1, prev.last().push(s.last()))
        }
    }
}

/// The rows of catalog part `id`'s shape.
pub open spec fn part_rows(id: usize) -> Seq<Seq<char>> {
    split_lines(spec_part(id as int).shape@)
}

/// All rows of a sequence of parts, top to bottom.
pub open spec fn rocket_rows(s: Seq<usize>) -> Seq<Seq<char>>
    decreases s.len(),
{
    if s.len() == 0 {
        Seq::empty()
    } else {
        rocket_rows(s.drop_last()) + part_rows(s.last())
    }
}

/// The length of the longest row (zero when there is none).
pub open spec fn max_row_width(rows: Seq<Seq<char>>) -> int
    decreases rows.len(),
{
    if rows.len() == 0 {
        0
    } else {
        let m = max_row_width(rows.drop_last());
        if rows.last().len() > m {
            rows.last().len() as int
        } else {
            m
        }
    }
}

/// Spaces in front of a row of length `len` centred within `width`: half the
/// slack, rounded up.
pub open spec fn left_pad(width: int, len: int) -> int {
    (width - len + 1) / 2
}

/// A row as printed, with its left padding.
pub open spec fn padded_row(row: Seq<char>, width: int) -> Seq<char> {
    Seq::new(left_pad(width, row.len() as int) as nat, |_i: int| ' ') + row
}

/// Each row padded, followed by a line break.
pub open spec fn rendered(rows: Seq<Seq<char>>, width: int) -> Seq<char>
    decreases rows.len(),
{
    if rows.len() == 0 {
        Seq::empty()
    } else {
        rendered(rows.drop_last(), width) + padded_row(rows.last(), width).push('\n')
    }
}

/// The picture of a sequence of parts: all their rows centred within the
/// widest one.
pub open spec fn spec_render(s: Seq<usize>) -> Seq<char> {
    rendered(rocket_rows(s), max_row_width(rocket_rows(s)))
}

/// The contents of a list of rows.
pub open spec fn views(rows: Seq<Vec<char>>) -> Seq<Seq<char>> {
    rows.map_values(|r: Vec<char>| r@)
}

proof fn lemma_split_nonempty(s: Seq<char>)
    ensures
        split_lines(s).len() >= 1,
    decreases s.len(),
{
    if s.len() > 0 {
        lemma_split_nonempty(s.drop_last());
    }
}

/// Appends the rows of `text` to `rows`.
fn push_split(text: &Vec<char>, rows: &mut Vec<Vec<char>>)
    ensures
        views(final(rows)@) == views(old(rows)@) + split_lines(text@),
{
    let ghost start = views(rows@);
    let mut cur: Vec<char> = Vec::new();
    let mut i: usize = 0;
    proof {
        assert(text@.take(0) =~= Seq::<char>::empty());
        assert(views(rows@) + split_lines(text@.take(0)).drop_last() =~= start);
    }
    while i < text.len()
        invariant
            i <= text.len(),
            split_lines(text@.take(i as int)).len() >= 1,
            views(rows@) == start + split_lines(text@.take(i as int)).drop_last(),
            cur@ == split_lines(text@.take(i as int)).last(),
        decreases text.len() - i,
    {
        let c = text[i];
        let ghost prev = split_lines(text@.take(i as int));
        let ghost before = rows@;
        assert(text@.take(i + 1).drop_last() =~= text@.take(i as int));
        if c == '\n' {
            rows.push(cur);
            cur = Vec::new();
            proof {
                assert(views(rows@) =~= views(before).push(prev.last()));
                assert(split_lines(text@.take(i + 1)) == prev.push(Seq::<char>::empty()));
                assert(views(rows@) =~= start + split_lines(text@.take(i + 1)).drop_last());
            }
        } else {
            cur.push(c);
            proof {
                assert(views(rows@) =~= views(before));
                assert(split_lines(text@.take(i + 1)) == prev.update(prev.len() - 1, prev.last().push(c)));
                assert(views(rows@) =~= start + split_lines(text@.take(i + 1)).drop_last());
            }
        }
        i += 1;
    }
    let ghost before = rows@;
    rows.push(cur);
    proof {
        assert(text@.take(i as int) =~= text@);
        assert(views(rows@) =~= views(before).push(cur@));
        assert(views(rows@) =~= start + split_lines(text@));
    }
}

/// All rows of the parts `ids`, top to bottom.
fn collect_rows(ids: &Vec<usize>) -> (rows: Vec<Vec<char>>)
    requires
        forall|i: int| 0 <= i < ids.len() ==> ids[i] < PART_COUNT,
    ensures
        views(rows@) == rocket_rows(ids@),
{
    let mut rows: Vec<Vec<char>> = Vec::new();
    let mut i: usize = 0;
    proof {
        assert(ids@.take(0) =~= Seq::<usize>::empty());
        assert(views(rows@) =~= Seq::<Seq<char>>::empty());
    }
    while i < ids.len()
        invariant
            i <= ids.len(),
            forall|k: int| 0 <= k < ids.len() ==> ids[k] < PART_COUNT,
            views(rows@) == rocket_rows(ids@.take(i as int)),
        decreases ids.len() - i,
    {
        let p = part(ids[i]);
        let text = chars_of(p.shape);
        push_split(&text, &mut rows);
        assert(ids@.take(i + 1).drop_last() =~= ids@.take(i as int));
        i += 1;
    }
    assert(ids@.take(i as int) =~= ids@);
    rows
}

/// The length of the longest of `rows`.
fn widest(rows: &Vec<Vec<char>>) -> (w: usize)
    ensures
        w == max_row_width(views(rows@)),
{
    let mut w: usize = 0;
    let mut i: usize = 0;
    proof {
        assert(views(rows@).take(0) =~= Seq::<Seq<char>>::empty());
    }
    while i < rows.len()
        invariant
            i <= rows.len(),
            w == max_row_width(views(rows@).take(i as int)),
        decreases rows.len() - i,
    {
        assert(views(rows@).take(i + 1).drop_last() =~= views(rows@).take(i as int));
        assert(views(rows@).take(i + 1).last() == rows[i as int]@);
        if rows[i].len() > w {
            w = rows[i].len();
        }
        i += 1;
    }
    assert(views(rows@).take(i as int) =~= views(rows@));
    w
}

pub(crate) proof fn lemma_widest_bounds(rows: Seq<Seq<char>>, i: int)
    requires
        0 <= i < rows.len(),
    ensures
        rows[i].len() <= max_row_width(rows),
    decreases rows.len(),
{
    if i < rows.len() - 1 {
        lemma_widest_bounds(rows.drop_last(), i);
    }
}

/// Relies on `String`'s `FromIterator<char>`: the characters, in order.
#[verifier::external_body]
fn string_of(chars: &Vec<char>) -> (r: String)
    ensures
        r@ == chars@,
{
    chars.iter().collect()
}

/// The picture of the parts `ids`: each row of each part, left-padded to be
/// centred within the widest row, and followed by a line break.
pub fn render_parts(ids: &Vec<usize>) -> (r: String)
    requires
        forall|i: int| 0 <= i < ids.len() ==> ids[i] < PART_COUNT,
    ensures
        r@ == spec_render(ids@),
{
    let rows = collect_rows(ids);
    let w = widest(&rows);
    let ghost all = views(rows@);
    let mut out: Vec<char> = Vec::new();
    let mut i: usize = 0;
    proof {
        assert(all.take(0) =~= Seq::<Seq<char>>::empty());
    }
    while i < rows.len()
        invariant
            i <= rows.len(),
            all == views(rows@),
            w == max_row_width(all),
            out@ == rendered(all.take(i as int), w as int),
        decreases rows.len() - i,
    {
        let row = &rows[i];
        proof {
            lemma_widest_bounds(all, i as int);
            assert(all[i as int] == row@);
        }
        let slack = w - row.len();
        let pad = slack / 2 + slack % 2;
        assert(pad == left_pad(w as int, row.len() as int));
        let ghost start = out@;
        let mut j: usize = 0;
        while j < pad
            invariant
                j <= pad,
                out@ == start + Seq::new(j as nat, |_k: int| ' '),
            decreases pad - j,
        {
            out.push(' ');
            assert(out@ =~= start + Seq::new((j + 1) as nat, |_k: int| ' '));
            j += 1;
        }
        let mut j: usize = 0;
        while j < row.len()
            invariant
                j <= row.len(),
                out@ == start + Seq::new(pad as nat, |_k: int| ' ') + row@.take(j as int),
            decreases row.len() - j,
        {
            out.push(row[j]);
            assert(out@ =~= start + Seq::new(pad as nat, |_k: int| ' ') + row@.take(j + 1));
            j += 1;
        }
        out.push('\n');
        proof {
            assert(row@.take(row.len() as int) =~= row@);
            assert(all.take(i + 1).drop_last() =~= all.take(i as int));
            assert(all.take(i + 1).last() == row@);
            assert(out@ =~= rendered(all.take(i + 1), w as int));
        }
        i += 1;
    }
    assert(all.take(i as int) =~= all);
    string_of(&out)
}

} // verus!
