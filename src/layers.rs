use vstd::prelude::*;
use vstd::string::StrSliceExecFns;

verus! {

/// The characters with the Unicode `White_Space` property.
pub open spec fn white_space(c: char) -> bool {
    let u = c as u32;
    ||| 0x9 <= u <= 0xD
    ||| u == 0x20
    ||| u == 0x85
    ||| u == 0xA0
    ||| u == 0x1680
    ||| 0x2000 <= u <= 0x200A
    ||| u == 0x2028
    ||| u == 0x2029
    ||| u == 0x202F
    ||| u == 0x205F
    ||| u == 0x3000
}

/// Relies on `char::is_whitespace`, which tests the Unicode `White_Space`
/// property.
#[verifier::external_body]
pub(crate) fn is_whitespace(c: char) -> (r: bool)
    ensures
        r == white_space(c),
{
    c.is_whitespace()
}

/// The pieces of `s` between `'\n'` separators: `n` separators give `n + 1`
/// pieces.
pub open spec fn split_lines(s: Seq<char>) -> Seq<Seq<char>>
    decreases s.len(),
{
    if s.len() == 0 {
        seq![Seq::<char>::empty()]
    } else {
        let init = split_lines(s.drop_last());
        if s.last() == '\n' {
            init.push(Seq::<char>::empty())
        } else {
            init.update(init.len() - 1, init.last().push(s.last()))
        }
    }
}

/// `line` without its trailing `'\r'` characters.
pub open spec fn strip_cr(line: Seq<char>) -> Seq<char>
    decreases line.len(),
{
    if line.len() > 0 && line.last() == '\r' {
        strip_cr(line.drop_last())
    } else {
        line
    }
}

/// A line made of white space only (the empty line included).
pub open spec fn blank(line: Seq<char>) -> bool {
    forall|k: int| 0 <= k < line.len() ==> white_space(#[trigger] line[k])
}

/// Number of blank lines at the start of `ls`.
pub open spec fn leading_blank(ls: Seq<Seq<char>>) -> nat
    decreases ls.len(),
{
    if ls.len() == 0 {
        0
    } else if blank(ls[0]) {
        1 + leading_blank(ls.drop_first())
    } else {
        0
    }
}

/// Number of blank lines at the end of `ls`.
pub open spec fn trailing_blank(ls: Seq<Seq<char>>) -> nat
    decreases ls.len(),
{
    if ls.len() == 0 {
        0
    } else if blank(ls.last()) {
        1 + trailing_blank(ls.drop_last())
    } else {
        0
    }
}

/// The rows of a layer text: its lines without trailing carriage returns,
/// with the blank lines before the first and after the last non-blank one
/// dropped.
pub open spec fn layer_rows(text: Seq<char>) -> Seq<Seq<char>> {
    let ls = split_lines(text).map_values(|l: Seq<char>| strip_cr(l));
    let a = leading_blank(ls);
    if a == ls.len() {
        seq![]
    } else {
        ls.subrange(a as int, ls.len() - trailing_blank(ls))
    }
}

/// Length of the longest row.
pub open spec fn widest(rows: Seq<Seq<char>>) -> nat
    decreases rows.len(),
{
    if rows.len() == 0 {
        0
    } else {
        let m = widest(rows.drop_last());
        if rows.last().len() > m {
            rows.last().len()
        } else {
            m
        }
    }
}

/// The character at column `c` of row `r`, rows being padded with spaces to
/// the widest one.
pub open spec fn padded_cell(rows: Seq<Seq<char>>, r: int, c: int) -> char {
    if c < rows[r].len() {
        rows[r][c]
    } else {
        ' '
    }
}

pub open spec fn deep(v: Seq<Vec<char>>) -> Seq<Seq<char>> {
    v.map_values(|l: Vec<char>| l@)
}

proof fn lemma_leading(ls: Seq<Seq<char>>, a: int)
    requires
        0 <= a <= ls.len(),
        forall|k: int| 0 <= k < a ==> blank(#[trigger] ls[k]),
        a == ls.len() || !blank(ls[a]),
    ensures
        leading_blank(ls) == a,
    decreases a,
{
    if a > 0 {
        assert(blank(ls[0]));
        let rest = ls.drop_first();
        assert forall|k: int| 0 <= k < a - 1 implies blank(#[trigger] rest[k]) by {
            assert(rest[k] == ls[k + 1]);
        }
        lemma_leading(rest, a - 1);
    }
}

proof fn lemma_trailing(ls: Seq<Seq<char>>, b: int)
    requires
        0 <= b <= ls.len(),
        forall|k: int| b <= k < ls.len() ==> blank(#[trigger] ls[k]),
        b == 0 || !blank(ls[b - 1]),
    ensures
        trailing_blank(ls) == ls.len() - b,
    decreases ls.len() - b,
{
    if b < ls.len() {
        assert(blank(ls.last()));
        let rest = ls.drop_last();
        assert forall|k: int| b <= k < rest.len() implies blank(#[trigger] rest[k]) by {
            assert(rest[k] == ls[k]);
        }
        lemma_trailing(rest, b);
    }
}

proof fn lemma_widest(rows: Seq<Seq<char>>, r: int)
    requires
        0 <= r < rows.len(),
    ensures
        rows[r].len() <= widest(rows),
    decreases rows.len(),
{
    if r < rows.len() - 1 {
        assert(rows.drop_last()[r] == rows[r]);
        lemma_widest(rows.drop_last(), r);
    }
}

/// The pieces of `text` between `'\n'` separators.
fn split_text(text: &str) -> (r: Vec<Vec<char>>)
    ensures
        deep(r@) == split_lines(text@),
{
    let n = text.unicode_len();
    let mut lines: Vec<Vec<char>> = Vec::new();
    let mut cur: Vec<char> = Vec::new();
    let mut i: usize = 0;
    while i < n
        invariant
            n == text@.len(),
            i <= n,
            deep(lines@).push(cur@) == split_lines(text@.take(i as int)),
        decreases n - i,
    {
        let c = text.get_char(i);
        let ghost prefix = text@.take(i as int);
        assert(text@.take(i + 1).drop_last() =~= prefix);
        if c == '\n' {
            let done = cur;
            lines.push(done);
            cur = Vec::new();
            assert(deep(lines@).push(cur@) =~= split_lines(prefix).push(Seq::<char>::empty()));
        } else {
            cur.push(c);
            assert(deep(lines@).push(cur@) =~= split_lines(prefix).update(
                split_lines(prefix).len() - 1,
                split_lines(prefix).last().push(c),
            ));
        }
        i = i + 1;
    }
    lines.push(cur);
    assert(text@.take(n as int) =~= text@);
    assert(deep(lines@) =~= split_lines(text@));
    lines
}

/// Drops the trailing `'\r'` characters of `line`.
fn strip_carriage_returns(line: &mut Vec<char>)
    ensures
        final(line)@ == strip_cr(old(line)@),
{
    while line.len() > 0 && line[line.len() - 1] == '\r'
        invariant
            strip_cr(line@) == strip_cr(old(line)@),
        decreases line@.len(),
    {
        let ghost before = line@;
        line.pop();
        assert(line@ =~= before.drop_last());
    }
}

fn is_blank(line: &Vec<char>) -> (r: bool)
    ensures
        r == blank(line@),
{
    let mut k: usize = 0;
    while k < line.len()
        invariant
            k <= line@.len(),
            forall|q: int| 0 <= q < k ==> white_space(#[trigger] line@[q]),
        decreases line@.len() - k,
    {
        if !is_whitespace(line[k]) {
            return false;
        }
        k = k + 1;
    }
    true
}

/// The rows of a layer text: its lines (split at `'\n'`, trailing `'\r'`
/// removed) without the blank lines that come before the first non-blank line
/// or after the last one.
pub fn rows_of_layer(text: &str) -> (r: Vec<Vec<char>>)
    ensures
        deep(r@) == layer_rows(text@),
{
    let pieces = split_text(text);
    let ghost ls = split_lines(text@).map_values(|l: Seq<char>| strip_cr(l));
    let mut lines: Vec<Vec<char>> = Vec::new();
    let mut p = pieces;
    let n = p.len();
    let mut i: usize = 0;
    while i < n
        invariant
            n == p@.len(),
            i <= n,
            deep(p@) == split_lines(text@),
            ls == split_lines(text@).map_values(|l: Seq<char>| strip_cr(l)),
            lines@.len() == i,
            forall|k: int| 0 <= k < i ==> (#[trigger] lines@[k])@ == ls[k],
        decreases n - i,
    {
        let mut line = p[i].clone();
        assert(line@ == deep(p@)[i as int]);
        strip_carriage_returns(&mut line);
        lines.push(line);
        i = i + 1;
    }
    assert(deep(lines@) =~= ls);
    let mut a: usize = 0;
    while a < n && is_blank(&lines[a])
        invariant
            a <= n,
            n == lines@.len(),
            deep(lines@) == ls,
            forall|k: int| 0 <= k < a ==> blank(#[trigger] ls[k]),
        decreases n - a,
    {
        assert(lines@[a as int]@ == ls[a as int]);
        a = a + 1;
    }
    if a < n {
        assert(lines@[a as int]@ == ls[a as int]);
    }
    proof {
        lemma_leading(ls, a as int);
    }
    if a == n {
        let empty: Vec<Vec<char>> = Vec::new();
        assert(deep(empty@) =~= layer_rows(text@));
        return empty;
    }
    let mut b: usize = n;
    while b > a + 1 && is_blank(&lines[b - 1])
        invariant
            a < b <= n,
            n == lines@.len(),
            deep(lines@) == ls,
            !blank(ls[a as int]),
            forall|k: int| b <= k < n ==> blank(#[trigger] ls[k]),
        decreases b,
    {
        assert(lines@[b - 1]@ == ls[b - 1]);
        b = b - 1;
    }
    assert(lines@[b - 1]@ == ls[b - 1]);
    proof {
        lemma_trailing(ls, b as int);
    }
    let mut out: Vec<Vec<char>> = Vec::new();
    let mut k: usize = a;
    while k < b
        invariant
            a <= k <= b,
            b <= n,
            n == lines@.len(),
            deep(lines@) == ls,
            deep(out@) == ls.subrange(a as int, k as int),
        decreases b - k,
    {
        let row = lines[k].clone();
        assert(row@ == deep(lines@)[k as int]);
        assert(row@ == ls[k as int]);
        let ghost prev = out@;
        out.push(row);
        assert(deep(out@) =~= deep(prev).push(ls[k as int]));
        assert(deep(out@) =~= ls.subrange(a as int, k + 1));
        k = k + 1;
    }
    out
}

/// Pads every row with spaces to the width of the widest one; returns that
/// width with the padded rows.
pub fn pad_rows(rows: &Vec<Vec<char>>) -> (r: (usize, Vec<Vec<char>>))
    ensures
        r.0 == widest(deep(rows@)),
        r.1@.len() == rows@.len(),
        forall|q: int|
            0 <= q < rows@.len() ==> (#[trigger] r.1@[q])@ == Seq::new(
                r.0 as nat,
                |c: int| padded_cell(deep(rows@), q, c),
            ),
{
    let ghost rs = deep(rows@);
    let n = rows.len();
    let mut cols: usize = 0;
    let mut i: usize = 0;
    while i < n
        invariant
            n == rows@.len(),
            rs == deep(rows@),
            i <= n,
            cols == widest(rs.take(i as int)),
        decreases n - i,
    {
        assert(rs.take(i + 1).drop_last() =~= rs.take(i as int));
        assert(rs.take(i + 1).last() == rows@[i as int]@);
        if rows[i].len() > cols {
            cols = rows[i].len();
        }
        i = i + 1;
    }
    assert(rs.take(n as int) =~= rs);
    let mut out: Vec<Vec<char>> = Vec::new();
    let mut q: usize = 0;
    while q < n
        invariant
            n == rows@.len(),
            rs == deep(rows@),
            q <= n,
            cols == widest(rs),
            out@.len() == q,
            forall|p: int|
                0 <= p < q ==> (#[trigger] out@[p])@ == Seq::new(
                    cols as nat,
                    |c: int| padded_cell(rs, p, c),
                ),
        decreases n - q,
    {
        proof {
            lemma_widest(rs, q as int);
        }
        let mut row = rows[q].clone();
        assert(row@ == rs[q as int]);
        while row.len() < cols
            invariant
                rs[q as int].len() <= row@.len() <= cols,
                forall|c: int| 0 <= c < row@.len() ==> #[trigger] row@[c] == padded_cell(rs, q as int, c),
            decreases cols - row@.len(),
        {
            row.push(' ');
        }
        assert(row@ =~= Seq::new(cols as nat, |c: int| padded_cell(rs, q as int, c)));
        out.push(row);
        q = q + 1;
    }
    (cols, out)
}

} // verus!
