//! The text format of breakout level files: one line per row of tiles, the
//! tiles of a row written as unsigned bytes separated by single spaces.
use vstd::prelude::*;
use crate::text::chars_of;

verus! {

/// A line without the carriage return that ends it, if one does.
pub open spec fn strip_cr(l: Seq<char>) -> Seq<char> {
    if l.len() > 0 && l.last() == '\r' {
        l.drop_last()
    } else {
        l
    }
}

/// The lines of `s` that follow the partial line `cur`: a line ends at each
/// `'\n'`, where a `'\r'` just before it is dropped; a last line that no
/// `'\n'` ends is kept only when it is not empty, and is kept as it is.
pub open spec fn lines_from(s: Seq<char>, cur: Seq<char>) -> Seq<Seq<char>>
    decreases s.len(),
{
    if s.len() == 0 {
        if cur.len() == 0 {
            seq![]
        } else {
            seq![cur]
        }
    } else if s[0] == '\n' {
        seq![strip_cr(cur)] + lines_from(s.drop_first(), seq![])
    } else {
        lines_from(s.drop_first(), cur.push(s[0]))
    }
}

/// The lines of a text.
pub open spec fn spec_lines(s: Seq<char>) -> Seq<Seq<char>> {
    lines_from(s, seq![])
}

/// The pieces of `l` that follow the partial piece `cur`, split at every
/// single space; a line always has at least one piece, possibly empty.
pub open spec fn pieces_from(l: Seq<char>, cur: Seq<char>) -> Seq<Seq<char>>
    decreases l.len(),
{
    if l.len() == 0 {
        seq![cur]
    } else if l[0] == ' ' {
        seq![cur] + pieces_from(l.drop_first(), seq![])
    } else {
        pieces_from(l.drop_first(), cur.push(l[0]))
    }
}

/// The pieces of a line split at single spaces.
pub open spec fn spec_pieces(l: Seq<char>) -> Seq<Seq<char>> {
    pieces_from(l, seq![])
}

pub open spec fn is_digit(c: char) -> bool {
    48 <= (c as u32) <= 57
}

pub open spec fn digit_value(c: char) -> nat {
    ((c as u32) - 48) as nat
}

/// The decimal number that the digits `d` write.
pub open spec fn digits_value(d: Seq<char>) -> nat
    decreases d.len(),
{
    if d.len() == 0 {
        0
    } else {
        digits_value(d.drop_last()) * 10 + digit_value(d.last())
    }
}

/// A number without its optional leading plus sign.
pub open spec fn number_body(t: Seq<char>) -> Seq<char> {
    if t.len() > 0 && t[0] == '+' {
        t.drop_first()
    } else {
        t
    }
}

/// `t` writes an unsigned byte: an optional `+`, then at least one decimal
/// digit, the whole at most 255.
pub open spec fn is_byte_number(t: Seq<char>) -> bool {
    let d = number_body(t);
    &&& d.len() > 0
    &&& forall|k: int| 0 <= k < d.len() ==> is_digit(#[trigger] d[k])
    &&& digits_value(d) <= 255
}

/// The byte that `t` writes.
pub open spec fn byte_number_value(t: Seq<char>) -> u8 {
    digits_value(number_body(t)) as u8
}

/// The pieces of each line of the text.
pub open spec fn spec_rows(s: Seq<char>) -> Seq<Seq<Seq<char>>> {
    spec_lines(s).map_values(|l: Seq<char>| spec_pieces(l))
}

/// Every piece of every line writes a byte.
pub open spec fn is_level_text(s: Seq<char>) -> bool {
    let rows = spec_rows(s);
    forall|i: int, j: int|
        0 <= i < rows.len() && 0 <= j < rows[i].len() ==> is_byte_number(#[trigger] rows[i][j])
}

/// The tiles that a level text describes, row by row.
pub open spec fn spec_tiles(s: Seq<char>) -> Seq<Seq<u8>> {
    spec_rows(s).map_values(|r: Seq<Seq<char>>| r.map_values(|t: Seq<char>| byte_number_value(t)))
}

/// Why a level text was refused.
#[derive(Debug, Clone, Copy, PartialEq, Eq)]
pub enum LevelError {
    /// A piece of a line is not an unsigned byte.
    InvalidTile,
}

/// The views of a vector of character vectors.
pub open spec fn views(v: Seq<Vec<char>>) -> Seq<Seq<char>> {
    v.map_values(|x: Vec<char>| x@)
}

fn strip_cr_vec(l: Vec<char>) -> (r: Vec<char>)
    ensures
        r@ == strip_cr(l@),
{
    let mut l = l;
    let n = l.len();
    if n > 0 && l[n - 1] == '\r' {
        l.pop();
    }
    l
}

/// Splits the characters of a text into its lines.
fn split_lines(cs: &Vec<char>) -> (r: Vec<Vec<char>>)
    ensures
        views(r@) == spec_lines(cs@),
{
    let mut out: Vec<Vec<char>> = Vec::new();
    let mut cur: Vec<char> = Vec::new();
    let n = cs.len();
    let mut i: usize = 0;
    assert(cs@.skip(0) =~= cs@);
    while i < n
        invariant
            n == cs.len(),
            i <= n,
            views(out@) + lines_from(cs@.skip(i as int), cur@) == spec_lines(cs@),
        decreases n - i,
    {
        let c = cs[i];
        let ghost rest = cs@.skip(i as int);
        let ghost before = views(out@);
        let ghost cur_view = cur@;
        assert(rest[0] == c);
        assert(rest.drop_first() =~= cs@.skip(i + 1));
        if c == '\n' {
            let line = strip_cr_vec(cur);
            out.push(line);
            cur = Vec::new();
            assert(views(out@) =~= before.push(strip_cr(cur_view)));
            assert(lines_from(rest, cur_view) == seq![strip_cr(cur_view)] + lines_from(
                cs@.skip(i + 1),
                seq![],
            ));
            assert(cur@ =~= seq![]);
            assert(before + lines_from(rest, cur_view) =~= before.push(strip_cr(cur_view))
                + lines_from(cs@.skip(i + 1), seq![]));
        } else {
            cur.push(c);
            assert(lines_from(rest, cur_view) == lines_from(cs@.skip(i + 1), cur_view.push(c)));
        }
        i = i + 1;
    }
    assert(cs@.skip(n as int).len() == 0);
    if cur.len() > 0 {
        let ghost before = views(out@);
        let ghost cur_view = cur@;
        out.push(cur);
        assert(views(out@) =~= before.push(cur_view));
    } else {
        assert(views(out@) =~= views(out@) + seq![]);
    }
    out
}

/// Splits a line into its pieces at single spaces.
fn split_pieces(l: &Vec<char>) -> (r: Vec<Vec<char>>)
    ensures
        views(r@) == spec_pieces(l@),
{
    let mut out: Vec<Vec<char>> = Vec::new();
    let mut cur: Vec<char> = Vec::new();
    let n = l.len();
    let mut i: usize = 0;
    assert(l@.skip(0) =~= l@);
    while i < n
        invariant
            n == l.len(),
            i <= n,
            views(out@) + pieces_from(l@.skip(i as int), cur@) == spec_pieces(l@),
        decreases n - i,
    {
        let c = l[i];
        let ghost rest = l@.skip(i as int);
        let ghost before = views(out@);
        let ghost cur_view = cur@;
        assert(rest[0] == c);
        assert(rest.drop_first() =~= l@.skip(i + 1));
        if c == ' ' {
            out.push(cur);
            cur = Vec::new();
            assert(views(out@) =~= before.push(cur_view));
            assert(cur@ =~= seq![]);
            assert(before + pieces_from(rest, cur_view) =~= before.push(cur_view) + pieces_from(
                l@.skip(i + 1),
                seq![],
            ));
        } else {
            cur.push(c);
            assert(pieces_from(rest, cur_view) == pieces_from(l@.skip(i + 1), cur_view.push(c)));
        }
        i = i + 1;
    }
    assert(l@.skip(n as int).len() == 0);
    let ghost before = views(out@);
    let ghost cur_view = cur@;
    out.push(cur);
    assert(views(out@) =~= before.push(cur_view));
    out
}

proof fn lemma_digits_value_step(d: Seq<char>, k: int)
    requires
        0 <= k < d.len(),
    ensures
        digits_value(d.take(k + 1)) == digits_value(d.take(k)) * 10 + digit_value(d[k]),
{
    assert(d.take(k + 1).drop_last() =~= d.take(k));
}

/// Reads the byte that a piece writes, if it writes one.
fn parse_byte(t: &Vec<char>) -> (r: Option<u8>)
    ensures
        r is Some <==> is_byte_number(t@),
        r matches Some(b) ==> b == byte_number_value(t@),
{
    let n = t.len();
    let start: usize = if n > 0 && t[0] == '+' {
        1
    } else {
        0
    };
    let ghost body = number_body(t@);
    assert(body =~= t@.skip(start as int));
    if start == n {
        return None;
    }
    // the value read so far, held at 256 once it passes 255
    let mut acc: u32 = 0;
    let mut k: usize = start;
    assert(body.take(0) =~= seq![]);
    while k < n
        invariant
            n == t.len(),
            start <= k <= n,
            body == t@.skip(start as int),
            body == number_body(t@),
            forall|j: int| 0 <= j < k - start ==> is_digit(#[trigger] body[j]),
            acc <= 256,
            acc == (if digits_value(body.take(k - start)) <= 256 {
                digits_value(body.take(k - start))
            } else {
                256
            }),
        decreases n - k,
    {
        let c = t[k];
        assert(body[k - start] == c);
        let code = c as u32;
        if !(48 <= code && code <= 57) {
            assert(!is_digit(body[k - start]));
            assert(!is_byte_number(t@));
            return None;
        }
        proof {
            lemma_digits_value_step(body, k - start);
        }
        let next = acc * 10 + (code - 48);
        acc = if next > 256 {
            256
        } else {
            next
        };
        k = k + 1;
    }
    assert(body.take(n - start) =~= body);
    if acc > 255 {
        None
    } else {
        Some(acc as u8)
    }
}

/// The views of a vector of byte vectors.
pub open spec fn rows_view(v: Seq<Vec<u8>>) -> Seq<Seq<u8>> {
    v.map_values(|x: Vec<u8>| x@)
}

/// Reads the tiles of a level text, row by row: the text's lines, each split
/// at single spaces into pieces that must each write an unsigned byte.
pub fn parse_level_text(text: &str) -> (r: Result<Vec<Vec<u8>>, LevelError>)
    ensures
        r is Ok <==> is_level_text(text@),
        r matches Ok(tiles) ==> rows_view(tiles@) == spec_tiles(text@),
        r matches Err(e) ==> e == LevelError::InvalidTile,
{
    let cs = chars_of(text);
    let lines = split_lines(&cs);
    let ghost rows = spec_rows(text@);
    let mut tiles: Vec<Vec<u8>> = Vec::new();
    let n = lines.len();
    let mut i: usize = 0;
    while i < n
        invariant
            n == lines.len(),
            i <= n,
            views(lines@) == spec_lines(text@),
            rows == spec_rows(text@),
            rows.len() == n,
            forall|a: int, b: int|
                0 <= a < i && 0 <= b < rows[a].len() ==> is_byte_number(#[trigger] rows[a][b]),
            rows_view(tiles@) =~= spec_tiles(text@).take(i as int),
        decreases n - i,
    {
        let pieces = split_pieces(&lines[i]);
        assert(rows[i as int] == spec_pieces(lines@[i as int]@));
        let mut row: Vec<u8> = Vec::new();
        let m = pieces.len();
        let mut j: usize = 0;
        while j < m
            invariant
                m == pieces.len(),
                j <= m,
                i < n,
                rows.len() == n,
                rows == spec_rows(text@),
                views(pieces@) == rows[i as int],
                forall|b: int| 0 <= b < j ==> is_byte_number(#[trigger] rows[i as int][b]),
                row@ =~= rows[i as int].take(j as int).map_values(
                    |t: Seq<char>| byte_number_value(t),
                ),
            decreases m - j,
        {
            assert(pieces@[j as int]@ == rows[i as int][j as int]);
            match parse_byte(&pieces[j]) {
                Some(b) => {
                    row.push(b);
                },
                None => {
                    assert(!is_byte_number(rows[i as int][j as int]));
                    return Err(LevelError::InvalidTile);
                },
            }
            j = j + 1;
        }
        assert(rows[i as int].take(m as int) =~= rows[i as int]);
        let ghost before = rows_view(tiles@);
        let ghost row_view = row@;
        tiles.push(row);
        assert(rows_view(tiles@) =~= before.push(row_view));
        i = i + 1;
    }
    assert(spec_tiles(text@).take(n as int) =~= spec_tiles(text@));
    Ok(tiles)
}

} // verus!
