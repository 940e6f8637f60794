//! Scanning and splitting of character sequences.
//!
//! Every function here is stated over `Seq<char>`, the view of a string. The
//! executable counterparts work on a slice of characters and return positions
//! in that slice.

use vstd::prelude::*;
use vstd::string::*;

verus! {

/// Whether `c` is white space: one of the code points that Unicode gives the
/// property `White_Space`.
pub open spec fn is_space(c: char) -> bool {
    let n = c as u32;
    ||| 0x09 <= n <= 0x0D
    ||| n == 0x20
    ||| n == 0x85
    ||| n == 0xA0
    ||| n == 0x1680
    ||| 0x2000 <= n <= 0x200A
    ||| n == 0x2028
    ||| n == 0x2029
    ||| n == 0x202F
    ||| n == 0x205F
    ||| n == 0x3000
}

/// Tells whether `c` is white space.
pub fn space(c: char) -> (r: bool)
    ensures
        r == is_space(c),
{
    let n: u32 = c as u32;
    (0x09 <= n && n <= 0x0D) || n == 0x20 || n == 0x85 || n == 0xA0 || n == 0x1680 || (0x2000 <= n
        && n <= 0x200A) || n == 0x2028 || n == 0x2029 || n == 0x202F || n == 0x205F || n == 0x3000
}

/// The kind of character at which a scan stops.
#[derive(Clone, Copy, Debug)]
pub enum Stop {
    /// At the given character.
    At(char),
    /// At white space.
    AtSpace,
    /// At anything but white space.
    AtWord,
}

impl Stop {
    /// Whether a scan of this kind stops at `c`.
    pub open spec fn at(self, c: char) -> bool {
        match self {
            Stop::At(x) => c == x,
            Stop::AtSpace => is_space(c),
            Stop::AtWord => !is_space(c),
        }
    }

    /// Tells whether a scan of this kind stops at `c`.
    pub fn stops_at(&self, c: char) -> (r: bool)
        ensures
            r == self.at(c),
    {
        match self {
            Stop::At(x) => c == *x,
            Stop::AtSpace => space(c),
            Stop::AtWord => !space(c),
        }
    }
}

/// How many characters of `s`, counted from index `from`, come before the
/// first one at which `stop` stops.
pub open spec fn run(s: Seq<char>, stop: Stop, from: int) -> nat
    decreases s.len() - from,
{
    if 0 <= from < s.len() && !stop.at(s[from]) {
        1 + run(s, stop, from + 1)
    } else {
        0
    }
}

/// The first index at or after `from` at which `stop` stops, or the length of
/// `s` if there is none.
pub open spec fn seek(s: Seq<char>, stop: Stop, from: int) -> int {
    from + run(s, stop, from)
}

/// `seek` stays within `s`, lands on a stopping character unless it reaches
/// the end, and passes over none.
pub proof fn lemma_seek(s: Seq<char>, stop: Stop, from: int)
    requires
        0 <= from <= s.len(),
    ensures
        from <= seek(s, stop, from) <= s.len(),
        seek(s, stop, from) < s.len() ==> stop.at(s[seek(s, stop, from)]),
        forall|i: int| from <= i < seek(s, stop, from) ==> !stop.at(#[trigger] s[i]),
    decreases s.len() - from,
{
    if from < s.len() && !stop.at(s[from]) {
        lemma_seek(s, stop, from + 1);
    }
}

/// Finds the first index at or after `from` at which `stop` stops.
pub fn scan(s: &[char], stop: Stop, from: usize) -> (r: usize)
    ensures
        r == seek(s@, stop, from as int),
        from <= r,
        from <= s.len() ==> r <= s.len(),
{
    let mut i: usize = from;
    while i < s.len() && !stop.stops_at(s[i])
        invariant
            from <= i,
            from <= s.len() ==> i <= s.len(),
            seek(s@, stop, i as int) == seek(s@, stop, from as int),
        decreases s.len() - i,
    {
        i += 1;
    }
    i
}

/// `line` without one carriage return at its end, if it has one.
pub open spec fn strip_cr(line: Seq<char>) -> Seq<char> {
    if line.len() > 0 && line.last() == '\r' {
        line.drop_last()
    } else {
        line
    }
}

/// The lines of `s` that begin at or after index `from`.
pub open spec fn lines_from(s: Seq<char>, from: int) -> Seq<Seq<char>>
    decreases s.len() - from,
{
    if from < 0 || from >= s.len() {
        Seq::empty()
    } else {
        let n = seek(s, Stop::At('\n'), from);
        if n < s.len() {
            seq![strip_cr(s.subrange(from, n))] + lines_from(s, n + 1)
        } else {
            seq![s.subrange(from, s.len() as int)]
        }
    }
}

/// The lines of `s`. A line ends at a line feed, or at a carriage return
/// followed by a line feed; neither belongs to the line. What follows the
/// last line feed is a line of its own unless it is empty.
pub open spec fn lines(s: Seq<char>) -> Seq<Seq<char>> {
    lines_from(s, 0)
}

/// No line among those from `from` on holds a line feed.
pub proof fn lemma_lines_from(s: Seq<char>, from: int)
    requires
        0 <= from <= s.len(),
    ensures
        forall|k: int|
            0 <= k < lines_from(s, from).len() ==> !(#[trigger] lines_from(s, from)[k]).contains(
                '\n',
            ),
    decreases s.len() - from,
{
    if from < s.len() {
        let stop = Stop::At('\n');
        let n = seek(s, stop, from);
        lemma_seek(s, stop, from);
        let whole = s.subrange(from, n);
        assert forall|i: int| 0 <= i < whole.len() implies whole[i] != '\n' by {
            assert(!stop.at(s[from + i]));
        }
        assert(!whole.contains('\n') && !strip_cr(whole).contains('\n'));
        if n < s.len() {
            lemma_lines_from(s, n + 1);
            let rest = lines_from(s, n + 1);
            let all = lines_from(s, from);
            assert forall|k: int| 0 <= k < all.len() implies !(#[trigger] all[k]).contains(
                '\n',
            ) by {
                if k > 0 {
                    assert(all[k] == rest[k - 1]);
                }
            }
        }
    }
}

/// No line holds a line feed.
pub proof fn lemma_lines(s: Seq<char>)
    ensures
        forall|k: int| 0 <= k < lines(s).len() ==> !(#[trigger] lines(s)[k]).contains('\n'),
{
    lemma_lines_from(s, 0);
}

/// The words of `s` that begin at or after index `from`.
pub open spec fn words_from(s: Seq<char>, from: int) -> Seq<Seq<char>>
    decreases s.len() - from,
{
    let a = seek(s, Stop::AtWord, from);
    if from < 0 || a >= s.len() {
        Seq::empty()
    } else {
        let b = seek(s, Stop::AtSpace, a);
        if b < s.len() {
            seq![s.subrange(a, b)] + words_from(s, b + 1)
        } else {
            seq![s.subrange(a, s.len() as int)]
        }
    }
}

/// The words of `s`: its longest runs of characters that are not white space.
pub open spec fn words(s: Seq<char>) -> Seq<Seq<char>> {
    words_from(s, 0)
}

/// Whether `w` can be a word: it is not empty and holds no white space.
pub open spec fn is_word(w: Seq<char>) -> bool {
    w.len() > 0 && forall|i: int| 0 <= i < w.len() ==> !is_space(#[trigger] w[i])
}

/// Every word among those from `from` on is not empty and holds no white
/// space.
pub proof fn lemma_words_from(s: Seq<char>, from: int)
    requires
        0 <= from <= s.len(),
    ensures
        forall|k: int|
            0 <= k < words_from(s, from).len() ==> is_word(#[trigger] words_from(s, from)[k]),
    decreases s.len() - from,
{
    let a = seek(s, Stop::AtWord, from);
    lemma_seek(s, Stop::AtWord, from);
    if a < s.len() {
        let b = seek(s, Stop::AtSpace, a);
        lemma_seek(s, Stop::AtSpace, a);
        let first = s.subrange(a, b);
        assert forall|i: int| 0 <= i < first.len() implies !is_space(#[trigger] first[i]) by {
            assert(!Stop::AtSpace.at(s[a + i]));
        }
        assert(is_word(first));
        if b < s.len() {
            lemma_words_from(s, b + 1);
            let rest = words_from(s, b + 1);
            let all = words_from(s, from);
            assert forall|k: int| 0 <= k < all.len() implies is_word(#[trigger] all[k]) by {
                if k > 0 {
                    assert(all[k] == rest[k - 1]);
                }
            }
        }
    }
}

/// Every word is not empty and holds no white space.
pub proof fn lemma_words(s: Seq<char>)
    ensures
        forall|k: int| 0 <= k < words(s).len() ==> is_word(#[trigger] words(s)[k]),
{
    lemma_words_from(s, 0);
}

/// The word of `s` with index `k`, if `s` has that many words.
pub open spec fn word(s: Seq<char>, k: int) -> Option<Seq<char>> {
    if 0 <= k < words(s).len() {
        Some(words(s)[k])
    } else {
        None
    }
}

/// A span of `s` that holds its second word.
pub(crate) fn second_word(s: &[char]) -> (r: Option<(usize, usize)>)
    ensures
        match r {
            Some((a, b)) => a <= b <= s.len() && word(s@, 1) == Some(
                s@.subrange(a as int, b as int),
            ),
            None => word(s@, 1) is None,
        },
{
    proof {
        reveal_with_fuel(words_from, 3);
    }
    let a: usize = scan(s, Stop::AtWord, 0);
    if a >= s.len() {
        return None;
    }
    let b: usize = scan(s, Stop::AtSpace, a);
    if b >= s.len() {
        return None;
    }
    let c: usize = scan(s, Stop::AtWord, b + 1);
    if c >= s.len() {
        return None;
    }
    let d: usize = scan(s, Stop::AtSpace, c);
    Some((c, d))
}

/// The pieces of `s` from index `from` on, cut at each `sep`.
pub open spec fn split_from(s: Seq<char>, sep: char, from: int) -> Seq<Seq<char>>
    decreases s.len() - from,
{
    let n = seek(s, Stop::At(sep), from);
    if 0 <= from <= n < s.len() {
        seq![s.subrange(from, n)] + split_from(s, sep, n + 1)
    } else {
        seq![s.subrange(from, s.len() as int)]
    }
}

/// The pieces of `s` between its occurrences of `sep`. There is always at
/// least one piece, and a piece may be empty.
pub open spec fn split(s: Seq<char>, sep: char) -> Seq<Seq<char>> {
    split_from(s, sep, 0)
}

/// `parts` joined into one sequence, with `sep` between each two.
pub open spec fn joined(parts: Seq<Seq<char>>, sep: char) -> Seq<char>
    decreases parts.len(),
{
    if parts.len() == 0 {
        Seq::empty()
    } else if parts.len() == 1 {
        parts[0]
    } else {
        parts[0] + seq![sep] + joined(parts.drop_first(), sep)
    }
}

/// The pieces from `from` on hold no `sep`, and joined by `sep` they are
/// `s` from `from` on.
pub proof fn lemma_split_from(s: Seq<char>, sep: char, from: int)
    requires
        0 <= from <= s.len(),
    ensures
        split_from(s, sep, from).len() >= 1,
        forall|k: int|
            0 <= k < split_from(s, sep, from).len() ==> !(#[trigger] split_from(
                s,
                sep,
                from,
            )[k]).contains(sep),
        joined(split_from(s, sep, from), sep) == s.skip(from),
    decreases s.len() - from,
{
    let stop = Stop::At(sep);
    let n = seek(s, stop, from);
    lemma_seek(s, stop, from);
    let first = s.subrange(from, n);
    assert forall|i: int| 0 <= i < first.len() implies first[i] != sep by {
        assert(!stop.at(s[from + i]));
    }
    assert(!first.contains(sep));
    if n < s.len() {
        lemma_split_from(s, sep, n + 1);
        let rest = split_from(s, sep, n + 1);
        let all = split_from(s, sep, from);
        assert(all.drop_first() == rest);
        assert forall|k: int| 0 <= k < all.len() implies !(#[trigger] all[k]).contains(sep) by {
            if k > 0 {
                assert(all[k] == rest[k - 1]);
            }
        }
        assert(first + seq![sep] + s.skip(n + 1) == s.skip(from));
    } else {
        assert(first == s.skip(from));
    }
}

/// Cutting `s` at `sep` gives at least one piece, none of which holds
/// `sep`; joined by `sep`, the pieces are `s` again.
pub proof fn lemma_split(s: Seq<char>, sep: char)
    ensures
        split(s, sep).len() >= 1,
        forall|k: int|
            0 <= k < split(s, sep).len() ==> !(#[trigger] split(s, sep)[k]).contains(sep),
        joined(split(s, sep), sep) == s,
{
    lemma_split_from(s, sep, 0);
}

/// The member of `parts` with index `k`, or the empty sequence if there is
/// none.
pub open spec fn nth_or_empty(parts: Seq<Seq<char>>, k: int) -> Seq<char> {
    if 0 <= k < parts.len() {
        parts[k]
    } else {
        Seq::empty()
    }
}

/// The piece of `s` with index `k`, or the empty sequence if `s` has fewer
/// pieces.
pub open spec fn piece(s: Seq<char>, sep: char, k: int) -> Seq<char> {
    nth_or_empty(split(s, sep), k)
}

/// A span of `s` that holds its piece with index `k`; an empty span for a
/// piece that `s` does not have.
pub(crate) fn piece_span(s: &[char], sep: char, k: usize) -> (r: (usize, usize))
    ensures
        r.0 <= r.1 <= s.len(),
        s@.subrange(r.0 as int, r.1 as int) == piece(s@, sep, k as int),
{
    let mut from: usize = 0;
    let mut i: usize = 0;
    loop
        invariant
            i <= k,
            from <= s.len(),
            piece(s@, sep, k as int) == nth_or_empty(split_from(s@, sep, from as int), k - i),
        decreases s.len() - from,
    {
        let n: usize = scan(s, Stop::At(sep), from);
        if i == k {
            return (from, n);
        }
        if n >= s.len() {
            return (s.len(), s.len());
        }
        from = n + 1;
        i += 1;
    }
}

/// `s` with every occurrence of `c` taken out.
pub open spec fn without(s: Seq<char>, c: char) -> Seq<char>
    decreases s.len(),
{
    if s.len() == 0 {
        s
    } else if s.last() == c {
        without(s.drop_last(), c)
    } else {
        without(s.drop_last(), c).push(s.last())
    }
}

/// What is left without `c` holds no `c`, and is `s` itself where `s`
/// holds none.
pub proof fn lemma_without(s: Seq<char>, c: char)
    ensures
        !without(s, c).contains(c),
        !s.contains(c) ==> without(s, c) == s,
    decreases s.len(),
{
    if s.len() > 0 {
        let front = s.drop_last();
        lemma_without(front, c);
        if !s.contains(c) {
            assert(front.push(s.last()) == s);
        }
    }
}

/// Copies `s`, leaving out every occurrence of `c`.
pub fn strip_all(s: &[char], c: char) -> (r: Vec<char>)
    ensures
        r@ == without(s@, c),
{
    let mut r: Vec<char> = Vec::new();
    let mut i: usize = 0;
    while i < s.len()
        invariant
            i <= s.len(),
            r@ == without(s@.take(i as int), c),
        decreases s.len() - i,
    {
        proof {
            assert(s@.take(i + 1).drop_last() == s@.take(i as int));
        }
        if s[i] != c {
            r.push(s[i]);
        }
        i += 1;
    }
    proof {
        assert(s@.take(s.len() as int) == s@);
    }
    r
}

/// `s` without `prefix` at its start; `s` itself if it does not start so.
pub open spec fn strip_prefix(s: Seq<char>, prefix: Seq<char>) -> Seq<char> {
    if prefix.is_prefix_of(s) {
        s.skip(prefix.len() as int)
    } else {
        s
    }
}

/// The characters of `s`.
pub fn chars_of(s: &str) -> (v: Vec<char>)
    ensures
        v@ == s@,
{
    let mut v: Vec<char> = Vec::new();
    for c in it: s.chars()
        invariant
            it.seq() == s@,
            v@ == it.seq().take(it.index() as int),
    {
        v.push(c);
    }
    v
}

/// Tells whether `s` begins with the characters of `prefix`.
pub fn starts_with(s: &[char], prefix: &str) -> (r: bool)
    ensures
        r == prefix@.is_prefix_of(s@),
{
    let p = chars_of(prefix);
    if p.len() > s.len() {
        return false;
    }
    let mut i: usize = 0;
    while i < p.len()
        invariant
            i <= p.len() <= s.len(),
            p@ == prefix@,
            s@.subrange(0, i as int) == p@.subrange(0, i as int),
        decreases p.len() - i,
    {
        if s[i] != p[i] {
            return false;
        }
        i += 1;
    }
    true
}

/// Tells whether `s` holds exactly the characters of `other`.
pub fn same(s: &[char], other: &str) -> (r: bool)
    ensures
        r == (s@ == other@),
{
    let whole = starts_with(s, other);
    let n: usize = other.unicode_len();
    proof {
        if s.len() == n {
            assert(s@.subrange(0, n as int) == s@);
        }
    }
    whole && s.len() == n
}

/// Tells whether two strings hold the same characters.
pub fn same_text(a: &str, b: &str) -> (r: bool)
    ensures
        r == (a@ == b@),
{
    let x = a.as_bytes();
    let y = b.as_bytes();
    proof {
        vstd::utf8::encode_utf8_decode_utf8(a@);
        vstd::utf8::encode_utf8_decode_utf8(b@);
    }
    if x.len() != y.len() {
        return false;
    }
    let mut i: usize = 0;
    while i < x.len()
        invariant
            i <= x.len() == y.len(),
            a@ == b@ ==> x@ == y@,
            x@.subrange(0, i as int) == y@.subrange(0, i as int),
        decreases x.len() - i,
    {
        if x[i] != y[i] {
            return false;
        }
        i += 1;
    }
    proof {
        assert(x@.subrange(0, x.len() as int) == x@);
        assert(y@.subrange(0, y.len() as int) == y@);
    }
    true
}

} // verus!
