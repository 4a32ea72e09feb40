//! Character-level helpers shared by the converters: whitespace, trimming,
//! physical lines, and moving between strings and character vectors.

use vstd::prelude::*;

verus! {

/// Whether `c` is white space in the sense of `char::is_whitespace`
/// (the Unicode property `White_Space`).
pub uninterp spec fn white_space(c: char) -> bool;

/// `char::is_whitespace`: the answer depends on the character alone, and is
/// known to contracts as [`white_space`].
pub assume_specification[ char::is_whitespace ](c: char) -> (b: bool)
    ensures
        b == white_space(c),
;

/// `String::push` appends one character at the end and changes nothing else.
pub assume_specification[ String::push ](s: &mut String, c: char)
    ensures
        final(s)@ == old(s)@.push(c),
;

/// The characters of `s`, in order.
pub fn chars_of(s: &str) -> (v: Vec<char>)
    ensures
        v@ == s@,
{
    let mut v: Vec<char> = Vec::new();
    for c in it: s.chars()
        invariant
            v@ == it.seq().take(it.index() as int),
            it.seq() == s@,
    {
        v.push(c);
    }
    v
}

/// The string made of `chars[from..to]`.
pub(crate) fn string_of(chars: &Vec<char>, from: usize, to: usize) -> (s: String)
    requires
        from <= to <= chars.len(),
    ensures
        s@ == chars@.subrange(from as int, to as int),
{
    let mut s = String::new();
    let mut i: usize = from;
    while i < to
        invariant
            from <= i <= to <= chars.len(),
            s@ == chars@.subrange(from as int, i as int),
        decreases to - i,
    {
        s.push(chars[i]);
        i += 1;
    }
    s
}

/// `s` without its leading white space.
pub open spec fn trim_start(s: Seq<char>) -> Seq<char>
    decreases s.len(),
{
    if s.len() > 0 && white_space(s[0]) {
        trim_start(s.drop_first())
    } else {
        s
    }
}

/// `s` without its trailing white space.
pub open spec fn trim_end(s: Seq<char>) -> Seq<char>
    decreases s.len(),
{
    if s.len() > 0 && white_space(s.last()) {
        trim_end(s.drop_last())
    } else {
        s
    }
}

/// `s` without the white space around it.
pub open spec fn trim(s: Seq<char>) -> Seq<char> {
    trim_end(trim_start(s))
}

/// Whether `s` begins with `prefix`.
pub open spec fn starts_with(s: Seq<char>, prefix: Seq<char>) -> bool {
    prefix.len() <= s.len() && s.take(prefix.len() as int) == prefix
}

/// Position of the first line feed in `s`, or `s.len()` if there is none.
pub open spec fn line_end(s: Seq<char>) -> int
    decreases s.len(),
{
    if s.len() == 0 || s[0] == '\n' {
        0
    } else {
        1 + line_end(s.drop_first())
    }
}

/// Position of the first white space in `s`, or `s.len()` if there is none.
pub open spec fn word_end(s: Seq<char>) -> int
    decreases s.len(),
{
    if s.len() == 0 || white_space(s[0]) {
        0
    } else {
        1 + word_end(s.drop_first())
    }
}

/// The physical lines of `s`. A line ends at a line feed, or at a carriage
/// return directly followed by one; neither belongs to the line. The last
/// line needs no terminator, and a terminator at the very end opens no
/// further line.
pub open spec fn lines(s: Seq<char>) -> Seq<Seq<char>>
    decreases s.len(),
{
    if s.len() == 0 {
        Seq::empty()
    } else {
        let n = line_end(s);
        if 0 <= n < s.len() {
            let raw = s.take(n);
            let line = if n > 0 && raw.last() == '\r' {
                raw.drop_last()
            } else {
                raw
            };
            seq![line] + lines(s.skip(n + 1))
        } else {
            seq![s]
        }
    }
}

/// The items of `parts` with `sep` between each two neighbours.
pub open spec fn join(parts: Seq<Seq<char>>, sep: Seq<char>) -> Seq<char>
    decreases parts.len(),
{
    if parts.len() == 0 {
        Seq::empty()
    } else if parts.len() == 1 {
        parts[0]
    } else {
        join(parts.drop_last(), sep) + sep + parts.last()
    }
}

/// The values of a sequence of character vectors.
pub open spec fn seqs(v: Seq<Vec<char>>) -> Seq<Seq<char>> {
    Seq::new(v.len(), |i: int| v[i]@)
}

/// `line_end` is the one position that holds a line feed, or the end, with
/// no line feed before it.
pub proof fn lemma_line_end(s: Seq<char>, n: int)
    requires
        0 <= n <= s.len(),
        forall|i: int| 0 <= i < n ==> s[i] != '\n',
        n == s.len() || s[n] == '\n',
    ensures
        line_end(s) == n,
    decreases s.len(),
{
    if n > 0 {
        let rest = s.drop_first();
        assert forall|i: int| 0 <= i < n - 1 implies rest[i] != '\n' by {
            assert(rest[i] == s[i + 1]);
        }
        lemma_line_end(rest, n - 1);
    }
}

/// `word_end` is the one position that holds white space, or the end, with
/// no white space before it.
pub proof fn lemma_word_end(s: Seq<char>, n: int)
    requires
        0 <= n <= s.len(),
        forall|i: int| 0 <= i < n ==> !white_space(s[i]),
        n == s.len() || white_space(s[n]),
    ensures
        word_end(s) == n,
    decreases s.len(),
{
    if n > 0 {
        let rest = s.drop_first();
        assert forall|i: int| 0 <= i < n - 1 implies !white_space(rest[i]) by {
            assert(rest[i] == s[i + 1]);
        }
        lemma_word_end(rest, n - 1);
    }
}

/// Cutting `a` leading white-space characters off `s` leaves `trim_start(s)`
/// when the character after them is none.
pub proof fn lemma_trim_start(s: Seq<char>, a: int)
    requires
        0 <= a <= s.len(),
        forall|i: int| 0 <= i < a ==> white_space(s[i]),
        a == s.len() || !white_space(s[a]),
    ensures
        trim_start(s) == s.skip(a),
    decreases s.len(),
{
    if a > 0 {
        let rest = s.drop_first();
        assert forall|i: int| 0 <= i < a - 1 implies white_space(rest[i]) by {
            assert(rest[i] == s[i + 1]);
        }
        lemma_trim_start(rest, a - 1);
        assert(rest.skip(a - 1) =~= s.skip(a));
    } else {
        assert(s.skip(0) =~= s);
    }
}

/// Cutting the white space after position `b` off `s` leaves `trim_end(s)`
/// when the character before `b` is none.
pub proof fn lemma_trim_end(s: Seq<char>, b: int)
    requires
        0 <= b <= s.len(),
        forall|i: int| b <= i < s.len() ==> white_space(s[i]),
        b == 0 || !white_space(s[b - 1]),
    ensures
        trim_end(s) == s.take(b),
    decreases s.len(),
{
    if b < s.len() {
        let rest = s.drop_last();
        lemma_trim_end(rest, b);
        assert(rest.take(b) =~= s.take(b));
    } else {
        assert(s.take(b) =~= s);
    }
}

/// The characters of `line` without the white space around them.
pub fn trimmed(line: &Vec<char>) -> (out: Vec<char>)
    ensures
        out@ == trim(line@),
{
    let n = line.len();
    let mut a: usize = 0;
    while a < n && line[a].is_whitespace()
        invariant
            a <= n == line.len(),
            forall|i: int| 0 <= i < a ==> white_space(line@[i]),
        decreases n - a,
    {
        a += 1;
    }
    let mut b: usize = n;
    while b > a && line[b - 1].is_whitespace()
        invariant
            a <= b <= n == line.len(),
            forall|i: int| b <= i < n ==> white_space(line@[i]),
        decreases b,
    {
        b -= 1;
    }
    let out = slice_of(line, a, b);
    proof {
        let rest = line@.skip(a as int);
        lemma_trim_start(line@, a as int);
        assert forall|i: int| b - a <= i < rest.len() implies white_space(rest[i]) by {
            assert(rest[i] == line@[i + a]);
        }
        if b > a {
            assert(rest[b - a - 1] == line@[b - 1]);
        }
        lemma_trim_end(rest, b - a);
        assert(rest.take(b - a) =~= line@.subrange(a as int, b as int));
    }
    out
}

/// A copy of `chars[from..to]`.
pub(crate) fn slice_of(chars: &Vec<char>, from: usize, to: usize) -> (out: Vec<char>)
    requires
        from <= to <= chars.len(),
    ensures
        out@ == chars@.subrange(from as int, to as int),
{
    let mut out: Vec<char> = Vec::new();
    let mut i: usize = from;
    while i < to
        invariant
            from <= i <= to <= chars.len(),
            out@ == chars@.subrange(from as int, i as int),
        decreases to - i,
    {
        out.push(chars[i]);
        i += 1;
    }
    out
}

/// Whether `line` begins with the characters of `prefix`.
pub fn has_prefix(line: &Vec<char>, prefix: &str) -> (b: bool)
    ensures
        b == starts_with(line@, prefix@),
{
    let p = chars_of(prefix);
    if p.len() > line.len() {
        return false;
    }
    let mut i: usize = 0;
    while i < p.len()
        invariant
            i <= p.len() <= line.len(),
            p@ == prefix@,
            line@.take(i as int) == p@.take(i as int),
        decreases p.len() - i,
    {
        if line[i] != p[i] {
            proof {
                assert(line@.take(p.len() as int)[i as int] == line@[i as int]);
            }
            return false;
        }
        proof {
            assert(line@.take(i + 1) =~= line@.take(i as int).push(line@[i as int]));
            assert(p@.take(i + 1) =~= p@.take(i as int).push(p@[i as int]));
        }
        i += 1;
    }
    proof {
        assert(p@.take(p.len() as int) =~= p@);
    }
    true
}

/// The physical lines of `text`, in order.
pub fn split_lines(text: &Vec<char>) -> (out: Vec<Vec<char>>)
    ensures
        seqs(out@) == lines(text@),
{
    let n = text.len();
    let mut out: Vec<Vec<char>> = Vec::new();
    let mut start: usize = 0;
    proof {
        assert(text@.skip(0) =~= text@);
        assert(seqs(out@) + lines(text@) =~= lines(text@));
    }
    while start < n
        invariant
            start <= n == text.len(),
            lines(text@) == seqs(out@) + lines(text@.skip(start as int)),
        decreases n - start,
    {
        let mut end: usize = start;
        while end < n && text[end] != '\n'
            invariant
                start <= end <= n == text.len(),
                forall|i: int| start <= i < end ==> text@[i] != '\n',
            decreases n - end,
        {
            end += 1;
        }
        let ghost rest = text@.skip(start as int);
        let ghost before = seqs(out@);
        proof {
            assert forall|i: int| 0 <= i < end - start implies rest[i] != '\n' by {
                assert(rest[i] == text@[i + start]);
            }
            lemma_line_end(rest, end - start);
        }
        if end < n {
            let stop = if end > start && text[end - 1] == '\r' {
                end - 1
            } else {
                end
            };
            let line = slice_of(text, start, stop);
            proof {
                let raw = rest.take(end - start);
                assert(raw =~= text@.subrange(start as int, end as int));
                if end > start {
                    assert(raw.last() == text@[end - 1]);
                    assert(raw.drop_last() =~= text@.subrange(start as int, end - 1));
                }
                assert(rest.skip(end - start + 1) =~= text@.skip(end + 1));
                assert(lines(rest) == seq![line@] + lines(text@.skip(end + 1)));
            }
            out.push(line);
            start = end + 1;
            proof {
                assert(seqs(out@) =~= before + seq![line@]);
                assert(lines(text@) =~= seqs(out@) + lines(text@.skip(start as int)));
            }
        } else {
            let line = slice_of(text, start, n);
            proof {
                assert(rest =~= text@.subrange(start as int, n as int));
                assert(lines(rest) == seq![line@]);
            }
            out.push(line);
            start = n;
            proof {
                assert(seqs(out@) =~= before + seq![line@]);
                assert(lines(text@.skip(n as int)) =~= Seq::<Seq<char>>::empty());
                assert(lines(text@) =~= seqs(out@) + lines(text@.skip(start as int)));
            }
        }
    }
    proof {
        assert(lines(text@.skip(start as int)) =~= Seq::<Seq<char>>::empty());
        assert(seqs(out@) + Seq::<Seq<char>>::empty() =~= seqs(out@));
    }
    out
}

/// The string made of `parts` with a line feed between each two neighbours.
pub fn join_lines(parts: &Vec<Vec<char>>) -> (out: String)
    ensures
        out@ == join(seqs(parts@), seq!['\n']),
{
    let mut out = String::new();
    let mut i: usize = 0;
    while i < parts.len()
        invariant
            i <= parts.len(),
            out@ == join(seqs(parts@).take(i as int), seq!['\n']),
        decreases parts.len() - i,
    {
        let ghost head = out@;
        if i > 0 {
            out.push('\n');
        }
        let part = &parts[i];
        let ghost base = out@;
        let mut j: usize = 0;
        while j < part.len()
            invariant
                j <= part.len(),
                out@ == base + part@.take(j as int),
            decreases part.len() - j,
        {
            out.push(part[j]);
            proof {
                assert(part@.take(j + 1) =~= part@.take(j as int).push(part@[j as int]));
            }
            j += 1;
        }
        proof {
            let all = seqs(parts@);
            let next = all.take(i + 1);
            assert(part@.take(part.len() as int) =~= part@);
            assert(next.drop_last() =~= all.take(i as int));
            assert(next.last() == part@);
            if i > 0 {
                assert(base =~= head + seq!['\n']);
            } else {
                assert(base =~= Seq::<char>::empty());
                assert(base + part@ =~= part@);
            }
        }
        i += 1;
    }
    proof {
        assert(seqs(parts@).take(parts.len() as int) =~= seqs(parts@));
    }
    out
}

} // verus!
