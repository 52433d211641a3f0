//! Text utilities: comparison, ordering and splitting of strings, stated
//! over their character sequences.

use vstd::prelude::*;
use vstd::string::StrSliceExecFns;
use vstd::string::StringExecFns;

verus! {

/// The views of a sequence of strings.
pub open spec fn texts(v: Seq<String>) -> Seq<Seq<char>> {
    Seq::new(v.len(), |i: int| v[i]@)
}

/// The characters of `s`, in order.
pub fn chars_of(s: &str) -> (r: Vec<char>)
    ensures
        r@ == s@,
{
    let mut out: Vec<char> = Vec::new();
    for c in it: s.chars()
        invariant
            it.seq() == s@,
            out@ == it.seq().take(it.index() as int),
    {
        out.push(c);
    }
    out
}

/// Whether two strings hold the same characters.
pub fn text_eq(a: &str, b: &str) -> (r: bool)
    ensures
        r == (a@ == b@),
{
    let x = a.to_owned();
    let y = b.to_owned();
    x == y
}

/// `a` followed by `b`.
pub fn concat2(a: &str, b: &str) -> (r: String)
    ensures
        r@ == a@ + b@,
{
    let mut s = a.to_owned();
    s.append(b);
    s
}

/// `a`, `b` and `c` one after another.
pub fn concat3(a: &str, b: &str, c: &str) -> (r: String)
    ensures
        r@ == a@ + b@ + c@,
{
    let mut s = a.to_owned();
    s.append(b);
    s.append(c);
    s
}

/// Strict lexicographic order on character sequences, by code point. A
/// proper prefix comes before the longer sequence.
pub open spec fn lex_lt(a: Seq<char>, b: Seq<char>) -> bool
    decreases a.len(),
{
    if b.len() == 0 {
        false
    } else if a.len() == 0 {
        true
    } else if a[0] != b[0] {
        (a[0] as u32) < (b[0] as u32)
    } else {
        lex_lt(a.drop_first(), b.drop_first())
    }
}

/// Lexicographic order: `a` is before `b` or equal to it.
pub open spec fn lex_le(a: Seq<char>, b: Seq<char>) -> bool {
    a == b || lex_lt(a, b)
}

/// The pieces of `s` between the occurrences of `sep`. There is always one
/// piece more than there are separators, so an empty `s` gives one empty
/// piece.
pub open spec fn split(s: Seq<char>, sep: char) -> Seq<Seq<char>>
    decreases s.len(),
{
    if s.len() == 0 {
        seq![Seq::<char>::empty()]
    } else {
        let before = split(s.drop_last(), sep);
        if s.last() == sep {
            before.push(Seq::<char>::empty())
        } else {
            before.drop_last().push(before.last().push(s.last()))
        }
    }
}

/// `split` never gives an empty list, and no piece holds the separator.
pub proof fn lemma_split_pieces(s: Seq<char>, sep: char)
    ensures
        split(s, sep).len() >= 1,
        forall|i: int| 0 <= i < split(s, sep).len() ==> !(#[trigger] split(s, sep)[i]).contains(sep),
    decreases s.len(),
{
    if s.len() == 0 {
        assert(!Seq::<char>::empty().contains(sep));
    } else {
        lemma_split_pieces(s.drop_last(), sep);
        let before = split(s.drop_last(), sep);
        if s.last() == sep {
            assert(!Seq::<char>::empty().contains(sep));
        } else {
            let grown = before.last().push(s.last());
            assert forall|k: int| 0 <= k < grown.len() implies grown[k] != sep by {
                if k < before.last().len() {
                    assert(before.last().contains(before.last()[k]));
                }
            }
        }
    }
}

/// The pieces put together again, with `sep` between each two of them.
pub open spec fn glued(pieces: Seq<Seq<char>>, sep: char) -> Seq<char>
    decreases pieces.len(),
{
    if pieces.len() == 0 {
        Seq::<char>::empty()
    } else if pieces.len() == 1 {
        pieces[0]
    } else {
        glued(pieces.drop_last(), sep) + seq![sep] + pieces.last()
    }
}

/// Splitting loses nothing: the pieces of a text, put together again with
/// the separator between them, are the text.
pub proof fn split_can_be_undone(s: Seq<char>, sep: char)
    ensures
        glued(split(s, sep), sep) == s,
    decreases s.len(),
{
    if s.len() == 0 {
        assert(s =~= Seq::<char>::empty());
    } else {
        let shorter = s.drop_last();
        split_can_be_undone(shorter, sep);
        lemma_split_pieces(shorter, sep);
        let before = split(shorter, sep);
        let now = split(s, sep);
        assert(s =~= shorter.push(s.last()));
        if s.last() == sep {
            assert(now.drop_last() =~= before);
            assert(glued(now, sep) =~= shorter + seq![sep] + Seq::<char>::empty());
        } else if before.len() == 1 {
            assert(now[0] == before[0].push(s.last()));
        } else {
            assert(now.drop_last() =~= before.drop_last());
            assert(glued(now, sep) =~= (glued(before.drop_last(), sep) + seq![sep]
                + before.last()).push(s.last()));
        }
    }
}

/// Whether `a` comes strictly before `b` in lexicographic order; this is
/// the order in which `String` values compare.
pub fn text_lt(a: &str, b: &str) -> (r: bool)
    ensures
        r == lex_lt(a@, b@),
{
    let x = chars_of(a);
    let y = chars_of(b);
    let mut i: usize = 0;
    assert(x@.skip(0) =~= x@ && y@.skip(0) =~= y@);
    while i < x.len() && i < y.len()
        invariant
            i <= x.len(),
            i <= y.len(),
            x@ == a@,
            y@ == b@,
            lex_lt(a@, b@) == lex_lt(x@.skip(i as int), y@.skip(i as int)),
        decreases x.len() - i,
    {
        let ghost xs = x@.skip(i as int);
        let ghost ys = y@.skip(i as int);
        assert(xs[0] == x@[i as int] && ys[0] == y@[i as int]);
        assert(xs.drop_first() =~= x@.skip(i + 1));
        assert(ys.drop_first() =~= y@.skip(i + 1));
        if x[i] != y[i] {
            return (x[i] as u32) < (y[i] as u32);
        }
        i += 1;
    }
    assert(x@.skip(i as int).len() == x.len() - i);
    assert(y@.skip(i as int).len() == y.len() - i);
    i < y.len()
}

/// The pieces of `s` between the occurrences of `sep`, as owned strings.
pub fn split_text(s: &str, sep: char) -> (r: Vec<String>)
    ensures
        texts(r@) == split(s@, sep),
{
    let cs = chars_of(s);
    let mut out: Vec<String> = Vec::new();
    let mut start: usize = 0;
    let mut i: usize = 0;
    assert(cs@.take(0) =~= Seq::<char>::empty());
    assert(texts(out@).push(cs@.subrange(0, 0)) =~= split(cs@.take(0), sep));
    while i < cs.len()
        invariant
            start <= i <= cs.len(),
            cs@ == s@,
            texts(out@).push(cs@.subrange(start as int, i as int)) == split(cs@.take(i as int), sep),
        decreases cs.len() - i,
    {
        let ghost before = split(cs@.take(i as int), sep);
        assert(cs@.take(i + 1).drop_last() =~= cs@.take(i as int));
        assert(cs@.take(i + 1).last() == cs@[i as int]);
        if cs[i] == sep {
            let piece = String::from_str(s.substring_char(start, i));
            let ghost old_out = out@;
            out.push(piece);
            assert(texts(out@) =~= texts(old_out).push(cs@.subrange(start as int, i as int)));
            start = i + 1;
            assert(cs@.subrange(start as int, i + 1) =~= Seq::<char>::empty());
        } else {
            assert(before.drop_last() =~= texts(out@));
            assert(cs@.subrange(start as int, i + 1) =~= before.last().push(cs@[i as int]));
        }
        i += 1;
    }
    assert(cs@.take(i as int) =~= cs@);
    let piece = String::from_str(s.substring_char(start, i));
    let ghost old_out = out@;
    out.push(piece);
    assert(texts(out@) =~= texts(old_out).push(cs@.subrange(start as int, i as int)));
    out
}

/// `lex_le` as a relation, for sorting by it.
pub open spec fn lex_order() -> spec_fn(Seq<char>, Seq<char>) -> bool {
    |a: Seq<char>, b: Seq<char>| lex_le(a, b)
}

/// Of two sequences exactly one of these holds: the first comes before the
/// second, they are equal, the second comes before the first.
pub proof fn lemma_lex_trichotomy(a: Seq<char>, b: Seq<char>)
    ensures
        lex_lt(a, b) || a == b || lex_lt(b, a),
        !(lex_lt(a, b) && lex_lt(b, a)),
        !(lex_lt(a, b) && a == b),
    decreases a.len(),
{
    if a.len() == 0 || b.len() == 0 {
        if a.len() == 0 && b.len() == 0 {
            assert(a =~= b);
        }
    } else if a[0] == b[0] {
        lemma_lex_trichotomy(a.drop_first(), b.drop_first());
        if a.drop_first() == b.drop_first() {
            assert(a =~= seq![a[0]] + a.drop_first());
            assert(b =~= seq![b[0]] + b.drop_first());
        }
    } else {
        let x = a[0] as u32;
        let y = b[0] as u32;
        vstd::utf8::char_u32_cast(a[0], x);
        vstd::utf8::char_u32_cast(b[0], y);
        assert(x != y);
    }
}

/// The lexicographic order is transitive.
pub proof fn lemma_lex_lt_transitive(a: Seq<char>, b: Seq<char>, c: Seq<char>)
    requires
        lex_lt(a, b),
        lex_lt(b, c),
    ensures
        lex_lt(a, c),
    decreases a.len(),
{
    if a.len() > 0 && a[0] == b[0] && b[0] == c[0] {
        lemma_lex_lt_transitive(a.drop_first(), b.drop_first(), c.drop_first());
    }
}

/// `lex_le` orders the character sequences totally.
pub proof fn lemma_lex_order_total()
    ensures
        vstd::relations::total_ordering(lex_order()),
{
    let leq = lex_order();
    assert forall|x: Seq<char>, y: Seq<char>| #[trigger] leq(x, y) && #[trigger] leq(y, x) implies x
        == y by {
        lemma_lex_trichotomy(x, y);
    }
    assert forall|x: Seq<char>, y: Seq<char>, z: Seq<char>| #[trigger]
        leq(x, y) && #[trigger] leq(y, z) implies leq(x, z) by {
        if x != y && y != z {
            lemma_lex_lt_transitive(x, y, z);
        }
    }
    assert forall|x: Seq<char>, y: Seq<char>| #[trigger] leq(x, y) || #[trigger] leq(y, x) by {
        lemma_lex_trichotomy(x, y);
    }
}

/// A line without the carriage return that it ends in, if it ends in one.
pub open spec fn without_cr(line: Seq<char>) -> Seq<char> {
    if line.len() > 0 && line.last() == '\r' {
        line.drop_last()
    } else {
        line
    }
}

/// The first `n` of the pieces, each without its carriage return.
pub open spec fn ended_lines(pieces: Seq<Seq<char>>, n: int) -> Seq<Seq<char>> {
    Seq::new(n as nat, |i: int| without_cr(pieces[i]))
}

/// The lines of a text. A line ends with a line feed, or with a carriage
/// return and a line feed; neither belongs to the line. What follows the
/// last line feed is a line too, unless it is empty.
pub open spec fn lines_of(s: Seq<char>) -> Seq<Seq<char>> {
    let pieces = split(s, '\n');
    let ended = ended_lines(pieces, pieces.len() - 1);
    if pieces.last().len() == 0 {
        ended
    } else {
        ended.push(pieces.last())
    }
}

/// The lines of a text, as owned strings.
pub fn text_lines(s: &str) -> (r: Vec<String>)
    ensures
        texts(r@) == lines_of(s@),
{
    let pieces = split_text(s, '\n');
    proof {
        lemma_split_pieces(s@, '\n');
    }
    let n = pieces.len();
    let mut out: Vec<String> = Vec::new();
    let mut i: usize = 0;
    while i + 1 < n
        invariant
            n == pieces.len(),
            n >= 1,
            i + 1 <= n,
            texts(out@) =~= ended_lines(texts(pieces@), i as int),
        decreases n - i,
    {
        let cs = chars_of(pieces[i].as_str());
        let m = cs.len();
        let line = if m > 0 && cs[m - 1] == '\r' {
            let cut = String::from_str(pieces[i].as_str().substring_char(0, m - 1));
            assert(cut@ =~= pieces@[i as int]@.drop_last());
            cut
        } else {
            pieces[i].clone()
        };
        assert(line@ == without_cr(pieces@[i as int]@));
        let ghost before = texts(out@);
        out.push(line);
        assert(texts(out@) =~= before.push(line@));
        assert(before.push(line@) =~= ended_lines(texts(pieces@), i + 1));
        i += 1;
    }
    let tail = chars_of(pieces[n - 1].as_str());
    assert(texts(pieces@).last() == pieces@[n - 1]@);
    if tail.len() > 0 {
        let ghost before = texts(out@);
        out.push(pieces[n - 1].clone());
        assert(texts(out@) =~= before.push(pieces@[n - 1]@));
    }
    out
}

/// A copy of a list of strings.
pub fn copy_texts(list: &Vec<String>) -> (r: Vec<String>)
    ensures
        texts(r@) == texts(list@),
{
    let mut out: Vec<String> = Vec::new();
    let mut i: usize = 0;
    while i < list.len()
        invariant
            i <= list.len(),
            out@.len() == i,
            forall|k: int| 0 <= k < i ==> (#[trigger] out@[k])@ == list@[k]@,
        decreases list.len() - i,
    {
        out.push(list[i].clone());
        i += 1;
    }
    assert(texts(out@) =~= texts(list@));
    out
}

} // verus!
