//! Sequences of characters: the model in which every contract of this crate is
//! stated, and the executable operations on `[char]` and `String` behind it.

use vstd::prelude::*;
use vstd::slice::slice_subrange;

verus! {

/// Appending one character to a `String` (`String::push`): the view grows by
/// exactly that character at its end.
pub assume_specification[ String::push ](s: &mut String, ch: char)
    ensures
        final(s)@ == old(s)@.push(ch),
;

/// White space: the twenty-five code points that carry Unicode's `White_Space`
/// property.
pub open spec fn is_space(c: char) -> bool {
    ||| '\u{9}' <= c <= '\u{d}'
    ||| c == ' '
    ||| c == '\u{85}'
    ||| c == '\u{a0}'
    ||| c == '\u{1680}'
    ||| '\u{2000}' <= c <= '\u{200a}'
    ||| c == '\u{2028}'
    ||| c == '\u{2029}'
    ||| c == '\u{202f}'
    ||| c == '\u{205f}'
    ||| c == '\u{3000}'
}

/// A set of characters that a run is measured in.
#[derive(Clone, Copy, Debug)]
pub enum Class {
    /// White space.
    Space,
    /// The one character given.
    Only(char),
    /// Every character but the one given.
    Except(char),
}

impl Class {
    /// Whether `c` belongs to the class.
    pub open spec fn has(self, c: char) -> bool {
        match self {
            Class::Space => is_space(c),
            Class::Only(x) => c == x,
            Class::Except(x) => c != x,
        }
    }

    /// Tests membership of `c`.
    pub fn holds(self, c: char) -> (b: bool)
        ensures
            b == self.has(c),
    {
        match self {
            Class::Space => {
                ('\u{9}' <= c && c <= '\u{d}') || c == ' ' || c == '\u{85}' || c == '\u{a0}'
                    || c == '\u{1680}' || ('\u{2000}' <= c && c <= '\u{200a}') || c == '\u{2028}'
                    || c == '\u{2029}' || c == '\u{202f}' || c == '\u{205f}' || c == '\u{3000}'
            },
            Class::Only(x) => c == x,
            Class::Except(x) => c != x,
        }
    }
}

/// The length of the longest prefix of `s` made of characters of `k`.
pub open spec fn prefix_run(s: Seq<char>, k: Class) -> nat
    decreases s.len(),
{
    if s.len() > 0 && k.has(s[0]) {
        1 + prefix_run(s.drop_first(), k)
    } else {
        0
    }
}

/// The length of the longest suffix of `s` made of characters of `k`.
pub open spec fn suffix_run(s: Seq<char>, k: Class) -> nat
    decreases s.len(),
{
    if s.len() > 0 && k.has(s.last()) {
        1 + suffix_run(s.drop_last(), k)
    } else {
        0
    }
}

/// `s` without its longest prefix and then its longest suffix in `k`.
pub open spec fn strip(s: Seq<char>, k: Class) -> Seq<char> {
    let rest = s.skip(prefix_run(s, k) as int);
    rest.take(rest.len() - suffix_run(rest, k))
}

/// `s` without the white space at both ends.
pub open spec fn trim(s: Seq<char>) -> Seq<char> {
    strip(s, Class::Space)
}

/// `s` without the white space at its end.
pub open spec fn trim_end(s: Seq<char>) -> Seq<char> {
    s.take(s.len() - suffix_run(s, Class::Space))
}

/// Whether `s` is made of white space alone.
pub open spec fn is_blank(s: Seq<char>) -> bool {
    forall|i: int| 0 <= i < s.len() ==> is_space(#[trigger] s[i])
}

/// A prefix run is the one position up to which every character is in the
/// class and at which the next one, if any, is not.
pub proof fn lemma_prefix_run_is(s: Seq<char>, k: Class, n: nat)
    requires
        n <= s.len(),
        forall|i: int| 0 <= i < n ==> k.has(#[trigger] s[i]),
        n == s.len() || !k.has(s[n as int]),
    ensures
        prefix_run(s, k) == n,
    decreases n,
{
    if n > 0 {
        lemma_prefix_run_is(s.drop_first(), k, (n - 1) as nat);
    }
}

/// What a prefix run is, read from its definition.
pub proof fn lemma_prefix_run(s: Seq<char>, k: Class)
    ensures
        prefix_run(s, k) <= s.len(),
        forall|i: int| 0 <= i < prefix_run(s, k) ==> k.has(#[trigger] s[i]),
        prefix_run(s, k) < s.len() ==> !k.has(s[prefix_run(s, k) as int]),
    decreases s.len(),
{
    if s.len() > 0 && k.has(s[0]) {
        let rest = s.drop_first();
        lemma_prefix_run(rest, k);
        assert forall|i: int| 0 <= i < prefix_run(s, k) implies k.has(#[trigger] s[i]) by {
            if i > 0 {
                assert(s[i] == rest[i - 1]);
            }
        }
        if prefix_run(s, k) < s.len() {
            assert(s[prefix_run(s, k) as int] == rest[prefix_run(rest, k) as int]);
        }
    }
}

/// A suffix run is the one length such that the last that many characters are
/// in the class and the one before them, if any, is not.
pub proof fn lemma_suffix_run_is(s: Seq<char>, k: Class, n: nat)
    requires
        n <= s.len(),
        forall|i: int| s.len() - n <= i < s.len() ==> k.has(#[trigger] s[i]),
        n == s.len() || !k.has(s[s.len() - n - 1]),
    ensures
        suffix_run(s, k) == n,
    decreases n,
{
    if n > 0 {
        lemma_suffix_run_is(s.drop_last(), k, (n - 1) as nat);
    }
}

/// What a suffix run is, read from its definition.
pub proof fn lemma_suffix_run(s: Seq<char>, k: Class)
    ensures
        suffix_run(s, k) <= s.len(),
        forall|i: int| s.len() - suffix_run(s, k) <= i < s.len() ==> k.has(#[trigger] s[i]),
        suffix_run(s, k) < s.len() ==> !k.has(s[s.len() - suffix_run(s, k) - 1]),
    decreases s.len(),
{
    if s.len() > 0 && k.has(s.last()) {
        let rest = s.drop_last();
        lemma_suffix_run(rest, k);
        assert forall|i: int| s.len() - suffix_run(s, k) <= i < s.len() implies k.has(
            #[trigger] s[i],
        ) by {
            if i < s.len() - 1 {
                assert(s[i] == rest[i]);
            }
        }
        if suffix_run(s, k) < s.len() {
            assert(s[s.len() - suffix_run(s, k) - 1] == rest[rest.len() - suffix_run(rest, k) - 1]);
        }
    }
}

/// The characters of `s`, in order.
pub fn to_chars(s: &str) -> (v: Vec<char>)
    ensures
        v@ == s@,
{
    let mut v: Vec<char> = Vec::new();
    for c in it: s.chars()
        invariant
            v@ == it.seq().take(it.index()),
    {
        v.push(c);
    }
    v
}

/// The string made of the characters of `v`, in order.
pub fn to_string(v: &[char]) -> (s: String)
    ensures
        s@ == v@,
{
    let mut s = String::new();
    let mut i: usize = 0;
    while i < v.len()
        invariant
            i <= v.len(),
            s@ == v@.take(i as int),
        decreases v.len() - i,
    {
        s.push(v[i]);
        i += 1;
    }
    s
}

/// Counts the characters of `k` at the start of `v`.
pub fn count_prefix(v: &[char], k: Class) -> (n: usize)
    ensures
        n == prefix_run(v@, k),
        n <= v@.len(),
{
    let mut n: usize = 0;
    while n < v.len() && k.holds(v[n])
        invariant
            n <= v.len(),
            forall|i: int| 0 <= i < n ==> k.has(#[trigger] v@[i]),
        decreases v.len() - n,
    {
        n += 1;
    }
    proof {
        lemma_prefix_run_is(v@, k, n as nat);
    }
    n
}

/// Counts the characters of `k` at the end of `v`.
pub fn count_suffix(v: &[char], k: Class) -> (n: usize)
    ensures
        n == suffix_run(v@, k),
        n <= v@.len(),
{
    let len = v.len();
    let mut n: usize = 0;
    while n < len && k.holds(v[len - n - 1])
        invariant
            len == v.len(),
            n <= len,
            forall|i: int| len - n <= i < len ==> k.has(#[trigger] v@[i]),
        decreases len - n,
    {
        n += 1;
    }
    proof {
        lemma_suffix_run_is(v@, k, n as nat);
    }
    n
}

/// Cuts the characters of `k` off both ends of `v`.
pub fn strip_of<'a>(v: &'a [char], k: Class) -> (r: &'a [char])
    ensures
        r@ == strip(v@, k),
{
    let a = count_prefix(v, k);
    let rest = slice_subrange(v, a, v.len());
    let b = count_suffix(rest, k);
    slice_subrange(rest, 0, rest.len() - b)
}

/// Cuts the white space off the end of `v`.
pub fn trim_end_of<'a>(v: &'a [char]) -> (r: &'a [char])
    ensures
        r@ == trim_end(v@),
{
    let b = count_suffix(v, Class::Space);
    slice_subrange(v, 0, v.len() - b)
}

/// `s` without any occurrence of `c`: what is left stands in the same order.
pub open spec fn without(s: Seq<char>, c: char) -> Seq<char>
    decreases s.len(),
{
    if s.len() == 0 {
        Seq::empty()
    } else if s.last() == c {
        without(s.drop_last(), c)
    } else {
        without(s.drop_last(), c).push(s.last())
    }
}

/// Takes every occurrence of `c` out of `v`.
pub fn remove(v: &[char], c: char) -> (left: Vec<char>)
    ensures
        left@ == without(v@, c),
{
    let mut left: Vec<char> = Vec::new();
    let mut i: usize = 0;
    while i < v.len()
        invariant
            i <= v.len(),
            left@ == without(v@.take(i as int), c),
        decreases v.len() - i,
    {
        proof {
            assert(v@.take(i + 1).drop_last() =~= v@.take(i as int));
            assert(v@.take(i + 1).last() == v@[i as int]);
        }
        if v[i] != c {
            left.push(v[i]);
        }
        i += 1;
    }
    proof {
        assert(v@.take(v.len() as int) =~= v@);
    }
    left
}

/// Appends the characters of `s` to `acc`.
pub fn push_chars(acc: &mut Vec<char>, s: &str)
    ensures
        final(acc)@ == old(acc)@ + s@,
{
    let mut chars = to_chars(s);
    acc.append(&mut chars);
}

/// The lines of `ls` set one after the other, with a line feed between each two.
pub open spec fn join_lines(ls: Seq<Seq<char>>) -> Seq<char>
    decreases ls.len(),
{
    if ls.len() == 0 {
        Seq::empty()
    } else if ls.len() == 1 {
        ls[0]
    } else {
        join_lines(ls.drop_last()) + seq!['\n'] + ls.last()
    }
}

/// Joins `lines` with line feeds.
pub fn join(lines: &Vec<String>) -> (joined: Vec<char>)
    ensures
        joined@ == join_lines(lines.deep_view()),
{
    let ghost model = lines.deep_view();
    let mut joined: Vec<char> = Vec::new();
    let mut i: usize = 0;
    while i < lines.len()
        invariant
            i <= lines.len(),
            model == lines.deep_view(),
            joined@ == join_lines(model.take(i as int)),
        decreases lines.len() - i,
    {
        if i > 0 {
            joined.push('\n');
        }
        push_chars(&mut joined, lines[i].as_str());
        proof {
            assert(model.take(i + 1).drop_last() =~= model.take(i as int));
            assert(model.take(i + 1).last() == lines[i as int]@);
        }
        i += 1;
    }
    proof {
        assert(model.take(lines.len() as int) =~= model);
    }
    joined
}

/// The pieces of `s` between the occurrences of `sep`: one more than there are
/// occurrences, each without the separator.
pub open spec fn split(s: Seq<char>, sep: char) -> Seq<Seq<char>>
    decreases s.len(),
{
    let k = prefix_run(s, Class::Except(sep)) as int;
    if 0 <= k < s.len() {
        seq![s.take(k)] + split(s.skip(k + 1), sep)
    } else {
        seq![s]
    }
}

/// The cells of a table line: its pieces between pipes, without the first and
/// the last piece, each trimmed.
pub open spec fn cells(line: Seq<char>) -> Seq<Seq<char>> {
    let pieces = split(line, '|');
    if pieces.len() < 2 {
        Seq::empty()
    } else {
        Seq::new((pieces.len() - 2) as nat, |i: int| trim(pieces[i + 1]))
    }
}

/// Splits a table line into its cells.
pub fn cells_of(line: &[char]) -> (row: Vec<String>)
    ensures
        row.deep_view() == cells(line@),
{
    let ghost done: Seq<Seq<char>> = Seq::empty();
    let mut row: Vec<String> = Vec::new();
    let mut pos: usize = 0;
    let mut first = true;
    proof {
        assert(line@.skip(0) =~= line@);
        assert(done + split(line@, '|') =~= split(line@, '|'));
    }
    loop
        invariant
            pos <= line.len(),
            split(line@, '|') == done + split(line@.skip(pos as int), '|'),
            first <==> done.len() == 0,
            !first ==> row.deep_view() == Seq::new(
                (done.len() - 1) as nat,
                |i: int| trim(done[i + 1]),
            ),
            first ==> row@.len() == 0,
        ensures
            row.deep_view() == cells(line@),
        decreases line.len() - pos,
    {
        let rest = slice_subrange(line, pos, line.len());
        let k = count_prefix(rest, Class::Except('|'));
        if k >= rest.len() {
            proof {
                let pieces = split(line@, '|');
                assert(pieces == done + seq![rest@]);
                assert(row.deep_view() =~= cells(line@));
            }
            break;
        }
        let piece = slice_subrange(rest, 0, k);
        let ghost before = row.deep_view();
        if !first {
            row.push(to_string(strip_of(piece, Class::Space)));
        }
        proof {
            let grown = done.push(piece@);
            assert(rest@.skip(k + 1) =~= line@.skip(pos + k + 1));
            assert(split(line@, '|') =~= grown + split(line@.skip(pos + k + 1), '|'));
            if !first {
                assert(row.deep_view() =~= before.push(trim(piece@)));
                assert(row.deep_view() =~= Seq::new(
                    (grown.len() - 1) as nat,
                    |i: int| trim(grown[i + 1]),
                ));
            }
            done = grown;
        }
        first = false;
        pos = pos + k + 1;
    }
    row
}

/// `l` without a carriage return at its end.
pub open spec fn without_cr(l: Seq<char>) -> Seq<char> {
    if l.len() > 0 && l.last() == '\r' {
        l.drop_last()
    } else {
        l
    }
}

/// The lines of a text. A line ends at a line feed, or at a carriage return
/// followed by one; neither belongs to the line. What follows the last line
/// feed is a line too, unless it is empty.
pub open spec fn lines_of(s: Seq<char>) -> Seq<Seq<char>>
    decreases s.len(),
{
    if s.len() == 0 {
        Seq::empty()
    } else {
        let k = prefix_run(s, Class::Except('\n')) as int;
        if k >= s.len() {
            seq![s]
        } else {
            seq![without_cr(s.take(k))] + lines_of(s.skip(k + 1))
        }
    }
}

/// Splits a text into its lines.
pub fn split_lines(text: &[char]) -> (lines: Vec<String>)
    ensures
        lines.deep_view() == lines_of(text@),
{
    let mut lines: Vec<String> = Vec::new();
    let mut pos: usize = 0;
    proof {
        assert(text@.skip(0) =~= text@);
        assert(lines.deep_view() + lines_of(text@) =~= lines_of(text@));
    }
    while pos < text.len()
        invariant
            pos <= text.len(),
            lines_of(text@) == lines.deep_view() + lines_of(text@.skip(pos as int)),
        decreases text.len() - pos,
    {
        let rest = slice_subrange(text, pos, text.len());
        let k = count_prefix(rest, Class::Except('\n'));
        let ghost before = lines.deep_view();
        if k >= rest.len() {
            lines.push(to_string(rest));
            proof {
                assert(lines.deep_view() =~= before.push(rest@));
                assert(text@.skip(text.len() as int) =~= Seq::<char>::empty());
            }
            pos = text.len();
        } else {
            let ended = k > 0 && rest[k - 1] == '\r';
            let cut: usize = if ended { k - 1 } else { k };
            let line = slice_subrange(rest, 0, cut);
            lines.push(to_string(line));
            proof {
                assert(line@ =~= without_cr(rest@.take(k as int)));
                assert(lines.deep_view() =~= before.push(line@));
                assert(rest@.skip(k + 1) =~= text@.skip(pos + k + 1));
            }
            pos = pos + k + 1;
        }
    }
    proof {
        assert(text@.skip(pos as int) =~= Seq::<char>::empty());
    }
    lines
}

} // verus!
