//! Characters in and out of strings, and the whitespace and line rules
//! shared by the display and parsing code.

use vstd::prelude::*;

verus! {

/// Whether `c` has the Unicode `White_Space` property.
pub open spec fn is_space(c: char) -> bool {
    let n = c as u32;
    (0x09 <= n <= 0x0D) || n == 0x20 || n == 0x85 || n == 0xA0 || n == 0x1680 || (0x2000 <= n
        <= 0x200A) || n == 0x2028 || n == 0x2029 || n == 0x202F || n == 0x205F || n == 0x3000
}

/// Executable form of [`is_space`].
pub fn is_space_char(c: char) -> (r: bool)
    ensures
        r == is_space(c),
{
    let n: u32 = c as u32;
    (0x09 <= n && n <= 0x0D) || n == 0x20 || n == 0x85 || n == 0xA0 || n == 0x1680 || (0x2000 <= n
        && n <= 0x200A) || n == 0x2028 || n == 0x2029 || n == 0x202F || n == 0x205F || n == 0x3000
}

/// `String::push` of the standard library appends exactly one character to
/// the end of the string and leaves the rest as it was.
#[verifier::external_body]
pub(crate) fn push_char(s: &mut String, c: char)
    ensures
        final(s)@ == old(s)@.push(c),
{
    s.push(c);
}

/// The characters of `s`, in order.
pub fn chars_of(s: &str) -> (v: Vec<char>)
    ensures
        v@ == s@,
{
    let mut v: Vec<char> = Vec::new();
    let mut it = s.chars();
    for c in iter: it
        invariant
            v@ == iter.seq().take(iter.index() as int),
            iter.seq() == s@,
    {
        v.push(c);
    }
    v
}

/// The string that holds exactly the characters of `v`.
pub fn string_of(v: &Vec<char>) -> (s: String)
    ensures
        s@ == v@,
{
    let mut s = String::new();
    let mut i: usize = 0;
    while i < v.len()
        invariant
            i <= v.len(),
            s@ == v@.take(i as int),
        decreases v.len() - i,
    {
        push_char(&mut s, v[i]);
        i += 1;
        assert(v@.take(i as int) == v@.take(i - 1).push(v@[i - 1]));
    }
    assert(v@.take(v.len() as int) == v@);
    s
}

/// `s` without its leading whitespace.
pub open spec fn trim_start(s: Seq<char>) -> Seq<char>
    decreases s.len(),
{
    if s.len() > 0 && is_space(s[0]) {
        trim_start(s.drop_first())
    } else {
        s
    }
}

/// `s` without its trailing whitespace.
pub open spec fn trim_end(s: Seq<char>) -> Seq<char>
    decreases s.len(),
{
    if s.len() > 0 && is_space(s.last()) {
        trim_end(s.drop_last())
    } else {
        s
    }
}

/// `s` without leading and trailing whitespace.
pub open spec fn trim(s: Seq<char>) -> Seq<char> {
    trim_end(trim_start(s))
}

/// Dropping `a` leading whitespace characters, the next one being none,
/// is trimming the start.
proof fn lemma_trim_start_skip(s: Seq<char>, a: int)
    requires
        0 <= a <= s.len(),
        forall|i: int| 0 <= i < a ==> is_space(#[trigger] s[i]),
        a == s.len() || !is_space(s[a]),
    ensures
        trim_start(s) == s.skip(a),
    decreases a,
{
    if a == 0 {
        assert(s.skip(0) == s);
    } else {
        let t = s.drop_first();
        assert forall|i: int| 0 <= i < a - 1 implies is_space(#[trigger] t[i]) by {
            assert(t[i] == s[i + 1]);
        }
        lemma_trim_start_skip(t, a - 1);
        assert(t.skip(a - 1) == s.skip(a));
    }
}

/// Keeping the first `b` characters, the last of them being no whitespace
/// and all behind them being whitespace, is trimming the end.
proof fn lemma_trim_end_take(s: Seq<char>, b: int)
    requires
        0 <= b <= s.len(),
        forall|i: int| b <= i < s.len() ==> is_space(#[trigger] s[i]),
        b == 0 || !is_space(s[b - 1]),
    ensures
        trim_end(s) == s.take(b),
    decreases s.len() - b,
{
    if b == s.len() {
        assert(s.take(b) == s);
    } else {
        let t = s.drop_last();
        lemma_trim_end_take(t, b);
        assert(t.take(b) == s.take(b));
    }
}

/// The characters of `v` between its first and its last character that is
/// no whitespace.
pub fn trim_chars(v: &Vec<char>) -> (r: Vec<char>)
    ensures
        r@ == trim(v@),
{
    let n = v.len();
    let mut a: usize = 0;
    while a < n && is_space_char(v[a])
        invariant
            a <= n,
            n == v.len(),
            forall|i: int| 0 <= i < a ==> is_space(#[trigger] v@[i]),
        decreases n - a,
    {
        a += 1;
    }
    let mut b: usize = n;
    while b > a && is_space_char(v[b - 1])
        invariant
            a <= b <= n,
            n == v.len(),
            forall|i: int| b <= i < n ==> is_space(#[trigger] v@[i]),
        decreases b,
    {
        b -= 1;
    }
    let mut r: Vec<char> = Vec::new();
    let mut i: usize = a;
    while i < b
        invariant
            a <= i <= b <= v.len(),
            r@ == v@.subrange(a as int, i as int),
        decreases b - i,
    {
        r.push(v[i]);
        i += 1;
        assert(v@.subrange(a as int, i as int) == v@.subrange(a as int, i - 1).push(v@[i - 1]));
    }
    proof {
        let s = v@;
        let t = s.skip(a as int);
        lemma_trim_start_skip(s, a as int);
        assert forall|k: int| b - a <= k < t.len() implies is_space(#[trigger] t[k]) by {
            assert(t[k] == s[k + a]);
        }
        lemma_trim_end_take(t, b - a);
        assert(t.take(b - a) == s.subrange(a as int, b as int));
    }
    r
}

/// The pieces of `s` between its line feeds: one more than it has line
/// feeds, the last being what follows the last line feed.
pub open spec fn split_lines(s: Seq<char>) -> Seq<Seq<char>>
    decreases s.len(),
{
    if s.len() == 0 {
        seq![Seq::<char>::empty()]
    } else {
        let before = split_lines(s.drop_last());
        if s.last() == '\n' {
            before.push(Seq::<char>::empty())
        } else {
            before.drop_last().push(before.last().push(s.last()))
        }
    }
}

/// Each of `lines` trimmed, without those that are then empty.
pub open spec fn trimmed_nonempty(lines: Seq<Seq<char>>) -> Seq<Seq<char>>
    decreases lines.len(),
{
    if lines.len() == 0 {
        Seq::<Seq<char>>::empty()
    } else {
        let before = trimmed_nonempty(lines.drop_last());
        let t = trim(lines.last());
        if t.len() > 0 {
            before.push(t)
        } else {
            before
        }
    }
}

/// The lines of `s`, each trimmed, blank ones left out. A carriage return
/// before a line feed is whitespace and goes with the trimming, and nothing
/// behind a final line feed makes no line.
pub open spec fn clean_lines(s: Seq<char>) -> Seq<Seq<char>> {
    trimmed_nonempty(split_lines(s))
}

/// The views of the lines of `v`.
pub open spec fn line_views(v: Seq<Vec<char>>) -> Seq<Seq<char>> {
    Seq::new(v.len(), |i: int| v[i]@)
}

/// There is always at least one piece.
proof fn lemma_split_lines_nonempty(s: Seq<char>)
    ensures
        split_lines(s).len() >= 1,
    decreases s.len(),
{
    if s.len() > 0 {
        lemma_split_lines_nonempty(s.drop_last());
    }
}

/// The trimmed, non-blank lines of `s`.
pub fn clean_lines_of(s: &str) -> (r: Vec<Vec<char>>)
    ensures
        line_views(r@) == clean_lines(s@),
{
    let chars = chars_of(s);
    let mut done: Vec<Vec<char>> = Vec::new();
    let mut cur: Vec<char> = Vec::new();
    let mut i: usize = 0;
    proof {
        assert(chars@.take(0) == Seq::<char>::empty());
        assert(split_lines(chars@.take(0)).drop_last() == Seq::<Seq<char>>::empty());
        assert(line_views(done@) == Seq::<Seq<char>>::empty());
    }
    while i < chars.len()
        invariant
            i <= chars.len(),
            split_lines(chars@.take(i as int)).len() >= 1,
            line_views(done@) == trimmed_nonempty(split_lines(chars@.take(i as int)).drop_last()),
            cur@ == split_lines(chars@.take(i as int)).last(),
        decreases chars.len() - i,
    {
        let c = chars[i];
        proof {
            let pre = chars@.take(i as int);
            let now = chars@.take(i + 1);
            assert(now.drop_last() == pre);
            assert(now.last() == c);
            lemma_split_lines_nonempty(now);
            let p = split_lines(pre);
            if c == '\n' {
                assert(split_lines(now) == p.push(Seq::<char>::empty()));
                assert(split_lines(now).drop_last() == p);
            } else {
                assert(split_lines(now).drop_last() == p.drop_last());
            }
        }
        if c == '\n' {
            let t = trim_chars(&cur);
            if t.len() > 0 {
                let ghost before = line_views(done@);
                done.push(t);
                assert(line_views(done@) == before.push(t@));
            }
            cur = Vec::new();
        } else {
            cur.push(c);
        }
        i += 1;
    }
    proof {
        assert(chars@.take(i as int) == chars@);
    }
    let t = trim_chars(&cur);
    if t.len() > 0 {
        let ghost before = line_views(done@);
        done.push(t);
        assert(line_views(done@) == before.push(t@));
    }
    done
}

/// `lines` with a line feed between each two.
pub open spec fn join_lines(lines: Seq<Seq<char>>) -> Seq<char>
    decreases lines.len(),
{
    if lines.len() == 0 {
        Seq::<char>::empty()
    } else if lines.len() == 1 {
        lines[0]
    } else {
        join_lines(lines.drop_last()).push('\n') + lines.last()
    }
}

/// Appends the characters of `line` to `out`.
pub fn push_chars(out: &mut Vec<char>, line: &Vec<char>)
    ensures
        final(out)@ == old(out)@ + line@,
{
    let ghost start = out@;
    let mut j: usize = 0;
    proof {
        assert(start + line@.take(0) == start);
    }
    while j < line.len()
        invariant
            j <= line.len(),
            out@ == start + line@.take(j as int),
        decreases line.len() - j,
    {
        out.push(line[j]);
        j += 1;
        assert(line@.take(j as int) == line@.take(j - 1).push(line@[j - 1]));
    }
    assert(line@.take(line.len() as int) == line@);
}

/// Appends to `out` the lines of `lines` from index `from` up to `to`,
/// with a line feed between each two.
pub fn push_joined(out: &mut Vec<char>, lines: &Vec<Vec<char>>, from: usize, to: usize)
    requires
        from <= to <= lines.len(),
    ensures
        final(out)@ == old(out)@ + join_lines(line_views(lines@).subrange(from as int, to as int)),
{
    let ghost all = line_views(lines@);
    let ghost start = out@;
    let mut i: usize = from;
    proof {
        assert(all.subrange(from as int, from as int) == Seq::<Seq<char>>::empty());
        assert(start + Seq::<char>::empty() == start);
    }
    while i < to
        invariant
            from <= i <= to <= lines.len(),
            all == line_views(lines@),
            out@ == start + join_lines(all.subrange(from as int, i as int)),
        decreases to - i,
    {
        let ghost pre = all.subrange(from as int, i as int);
        let ghost now = all.subrange(from as int, i + 1);
        proof {
            assert(now.drop_last() == pre);
            assert(now.last() == lines@[i as int]@);
        }
        if i > from {
            out.push('\n');
        }
        let ghost base = out@;
        let line = &lines[i];
        push_chars(out, line);
        proof {
            if i > from {
                assert(join_lines(now) == join_lines(pre).push('\n') + line@);
                assert(base == start + join_lines(pre).push('\n'));
                assert(out@ == start + join_lines(now));
            } else {
                assert(pre.len() == 0);
                assert(now.len() == 1);
                assert(join_lines(now) == line@);
            }
        }
        i += 1;
    }
}

} // verus!
