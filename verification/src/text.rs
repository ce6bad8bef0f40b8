//! Text primitives shared by the parsers and formatters of the library:
//! Unicode whitespace, trimming, line splitting and prefix tests, all over
//! sequences of `char`.
use vstd::prelude::*;

verus! {

/// Unicode `White_Space`, the property that `char::is_whitespace` and
/// `str::trim` use.
pub open spec fn is_ws(c: char) -> bool {
    ||| c == '\t'
    ||| c == '\n'
    ||| c == '\u{0B}'
    ||| c == '\u{0C}'
    ||| c == '\r'
    ||| c == ' '
    ||| c == '\u{85}'
    ||| c == '\u{A0}'
    ||| c == '\u{1680}'
    ||| ('\u{2000}' <= c && c <= '\u{200A}')
    ||| c == '\u{2028}'
    ||| c == '\u{2029}'
    ||| c == '\u{202F}'
    ||| c == '\u{205F}'
    ||| c == '\u{3000}'
}

/// Unicode general category `Cc`, the property that `char::is_control` tests.
pub open spec fn is_control_char(c: char) -> bool {
    (c as u32) <= 0x1F || (0x7F <= (c as u32) && (c as u32) <= 0x9F)
}

/// True when `c` is Unicode whitespace.
pub fn is_whitespace(c: char) -> (b: bool)
    ensures
        b == is_ws(c),
{
    c == '\t' || c == '\n' || c == '\u{0B}' || c == '\u{0C}' || c == '\r' || c == ' ' || c
        == '\u{85}' || c == '\u{A0}' || c == '\u{1680}' || ('\u{2000}' <= c && c <= '\u{200A}')
        || c == '\u{2028}' || c == '\u{2029}' || c == '\u{202F}' || c == '\u{205F}' || c
        == '\u{3000}'
}

/// True when `c` is a control character.
pub fn is_control(c: char) -> (b: bool)
    ensures
        b == is_control_char(c),
{
    let n = c as u32;
    n <= 0x1F || (0x7F <= n && n <= 0x9F)
}

/// `s` without its leading whitespace.
pub open spec fn trim_start(s: Seq<char>) -> Seq<char>
    decreases s.len(),
{
    if s.len() > 0 && is_ws(s[0]) {
        trim_start(s.drop_first())
    } else {
        s
    }
}

/// `s` without its trailing whitespace.
pub open spec fn trim_end(s: Seq<char>) -> Seq<char>
    decreases s.len(),
{
    if s.len() > 0 && is_ws(s.last()) {
        trim_end(s.drop_last())
    } else {
        s
    }
}

/// `s` without leading and trailing whitespace, as `str::trim` gives it.
pub open spec fn trim(s: Seq<char>) -> Seq<char> {
    trim_end(trim_start(s))
}

/// `p` is a prefix of `s`.
pub open spec fn has_prefix(s: Seq<char>, p: Seq<char>) -> bool {
    p.len() <= s.len() && s.subrange(0, p.len() as int) == p
}

/// The segments of `s` between newlines, as `str::lines` cuts them (a
/// trailing empty segment is kept; it never matches a nonempty pattern).
pub open spec fn split_lines(s: Seq<char>) -> Seq<Seq<char>>
    decreases s.len(),
{
    if s.len() == 0 {
        seq![Seq::<char>::empty()]
    } else {
        let rest = split_lines(s.drop_last());
        if s.last() == '\n' {
            rest.push(Seq::<char>::empty())
        } else {
            rest.update(rest.len() - 1, rest.last().push(s.last()))
        }
    }
}

/// Every text has at least one line (the empty text has one empty line).
pub proof fn lemma_split_lines_nonempty(s: Seq<char>)
    ensures
        split_lines(s).len() >= 1,
    decreases s.len(),
{
    if s.len() > 0 {
        lemma_split_lines_nonempty(s.drop_last());
    }
}

/// Some line of `s`, trimmed, equals `x`.
pub open spec fn some_line_is(s: Seq<char>, x: Seq<char>) -> bool {
    exists|i: int| 0 <= i < split_lines(s).len() && trim(#[trigger] split_lines(s)[i]) == x
}

/// Some line of `s`, trimmed, starts with `p`.
pub open spec fn some_line_starts_with(s: Seq<char>, p: Seq<char>) -> bool {
    exists|i: int|
        0 <= i < split_lines(s).len() && has_prefix(trim(#[trigger] split_lines(s)[i]), p)
}

/// The characters of a string slice.
pub fn chars_of(s: &str) -> (v: Vec<char>)
    ensures
        v@ == s@,
{
    let mut v: Vec<char> = Vec::new();
    for c in it: s.chars()
        invariant
            v@ == it.seq().take(it.index() as int),
            it.seq() == s@,
    {
        v.push(c);
    }
    v
}


/// `s` trimmed of leading and trailing whitespace.
pub fn trim_chars(s: &[char]) -> (r: Vec<char>)
    ensures
        r@ == trim(s@),
{
    let n = s.len();
    let mut a: usize = 0;
    proof {
        assert(s@.subrange(0, n as int) =~= s@);
    }
    while a < n && is_whitespace(s[a])
        invariant
            a <= n == s@.len(),
            trim_start(s@) == trim_start(s@.subrange(a as int, n as int)),
        decreases n - a,
    {
        proof {
            let t = s@.subrange(a as int, n as int);
            assert(t.drop_first() =~= s@.subrange(a + 1, n as int));
        }
        a = a + 1;
    }
    let mut b: usize = n;
    proof {
        let t = s@.subrange(a as int, n as int);
        if a < n {
            assert(t[0] == s@[a as int]);
        }
        assert(trim_start(t) == t);
    }
    while b > a && is_whitespace(s[b - 1])
        invariant
            a <= b <= n == s@.len(),
            trim(s@) == trim_end(s@.subrange(a as int, b as int)),
        decreases b - a,
    {
        proof {
            let t = s@.subrange(a as int, b as int);
            assert(t.drop_last() =~= s@.subrange(a as int, b - 1));
        }
        b = b - 1;
    }
    let mut r: Vec<char> = Vec::new();
    let mut i: usize = a;
    while i < b
        invariant
            a <= i <= b <= n == s@.len(),
            r@ == s@.subrange(a as int, i as int),
        decreases b - i,
    {
        r.push(s[i]);
        proof {
            assert(r@ =~= s@.subrange(a as int, i + 1));
        }
        i = i + 1;
    }
    proof {
        let t = s@.subrange(a as int, b as int);
        if b > a {
            assert(t.last() == s@[b - 1]);
        }
        assert(trim_end(t) == t);
    }
    r
}

/// True when `p` is a prefix of `s`.
pub fn starts_with_chars(s: &[char], p: &[char]) -> (b: bool)
    ensures
        b == has_prefix(s@, p@),
{
    if p.len() > s.len() {
        return false;
    }
    let mut i: usize = 0;
    while i < p.len()
        invariant
            p@.len() <= s@.len(),
            i <= p@.len(),
            s@.subrange(0, i as int) == p@.subrange(0, i as int),
        decreases p@.len() - i,
    {
        if s[i] != p[i] {
            proof {
                assert(s@.subrange(0, p@.len() as int)[i as int] != p@[i as int]);
            }
            return false;
        }
        proof {
            assert(s@.subrange(0, i + 1) =~= p@.subrange(0, i + 1));
        }
        i = i + 1;
    }
    proof {
        assert(p@.subrange(0, p@.len() as int) =~= p@);
    }
    true
}

/// True when the two character sequences are equal.
pub fn chars_equal(s: &[char], t: &[char]) -> (b: bool)
    ensures
        b == (s@ == t@),
{
    if s.len() != t.len() {
        return false;
    }
    let r = starts_with_chars(s, t);
    proof {
        assert(s@ =~= s@.subrange(0, t@.len() as int));
    }
    r
}

/// The lines of `s`, as `split_lines` cuts them.
pub fn lines_of(s: &[char]) -> (r: Vec<Vec<char>>)
    ensures
        r@.len() == split_lines(s@).len(),
        forall|i: int| 0 <= i < r@.len() ==> #[trigger] r@[i]@ == split_lines(s@)[i],
{
    let mut done: Vec<Vec<char>> = Vec::new();
    let mut cur: Vec<char> = Vec::new();
    let n = s.len();
    let mut i: usize = 0;
    while i < n
        invariant
            i <= n == s@.len(),
            done@.len() + 1 == split_lines(s@.subrange(0, i as int)).len(),
            forall|k: int| 0 <= k < done@.len() ==> #[trigger] done@[k]@ == split_lines(s@.subrange(0, i as int))[k],
            cur@ == split_lines(s@.subrange(0, i as int)).last(),
        decreases n - i,
    {
        let c = s[i];
        proof {
            let pre = s@.subrange(0, i + 1);
            assert(pre.drop_last() =~= s@.subrange(0, i as int));
            assert(pre.last() == c);
            lemma_split_lines_nonempty(s@.subrange(0, i as int));
        }
        if c == '\n' {
            let line = cur;
            done.push(line);
            cur = Vec::new();
        } else {
            cur.push(c);
        }
        i = i + 1;
    }
    done.push(cur);
    proof {
        assert(s@.subrange(0, n as int) =~= s@);
        lemma_split_lines_nonempty(s@);
    }
    done
}

/// True when some line of the text, trimmed, equals `x`.
pub fn any_line_is(lines: &Vec<Vec<char>>, x: &[char]) -> (b: bool)
    ensures
        b == exists|i: int| 0 <= i < lines@.len() && trim(#[trigger] lines@[i]@) == x@,
{
    let mut i: usize = 0;
    while i < lines.len()
        invariant
            i <= lines@.len(),
            forall|k: int| 0 <= k < i ==> trim(#[trigger] lines@[k]@) != x@,
        decreases lines@.len() - i,
    {
        let t = trim_chars(lines[i].as_slice());
        if chars_equal(t.as_slice(), x) {
            return true;
        }
        i = i + 1;
    }
    false
}

/// True when some line of the text, trimmed, starts with `p`.
pub fn any_line_starts_with(lines: &Vec<Vec<char>>, p: &[char]) -> (b: bool)
    ensures
        b == exists|i: int| 0 <= i < lines@.len() && has_prefix(trim(#[trigger] lines@[i]@), p@),
{
    let mut i: usize = 0;
    while i < lines.len()
        invariant
            i <= lines@.len(),
            forall|k: int| 0 <= k < i ==> !has_prefix(trim(#[trigger] lines@[k]@), p@),
        decreases lines@.len() - i,
    {
        let t = trim_chars(lines[i].as_slice());
        if starts_with_chars(t.as_slice(), p) {
            return true;
        }
        i = i + 1;
    }
    false
}


/// A text without newlines is a single line.
pub proof fn lemma_split_lines_no_newline(s: Seq<char>)
    requires
        forall|k: int| 0 <= k < s.len() ==> s[k] != '\n',
    ensures
        split_lines(s) == seq![s],
    decreases s.len(),
{
    if s.len() > 0 {
        let t = s.drop_last();
        assert forall|k: int| 0 <= k < t.len() implies t[k] != '\n' by {
            assert(t[k] == s[k]);
        }
        lemma_split_lines_no_newline(t);
        assert(t.push(s.last()) =~= s);
        assert(split_lines(s) =~= seq![s]);
    } else {
        assert(s =~= Seq::<char>::empty());
    }
}

/// Lines of a text that ends with a newline, followed by more text: the
/// lines before the newline, then the lines of the rest.
pub proof fn lemma_split_lines_append(s: Seq<char>, t: Seq<char>)
    requires
        s.len() > 0,
        s.last() == '\n',
    ensures
        split_lines(s + t) == split_lines(s).drop_last() + split_lines(t),
    decreases t.len(),
{
    lemma_split_lines_nonempty(s);
    lemma_split_lines_nonempty(t);
    if t.len() == 0 {
        assert(s + t =~= s);
        assert(s.drop_last().push('\n') =~= s);
        assert(split_lines(s) == split_lines(s.drop_last()).push(Seq::<char>::empty()));
        assert(split_lines(s).drop_last() + split_lines(t) =~= split_lines(s));
    } else {
        let u = t.drop_last();
        lemma_split_lines_append(s, u);
        lemma_split_lines_nonempty(u);
        assert((s + t).drop_last() =~= s + u);
        assert((s + t).last() == t.last());
        let a = split_lines(s).drop_last();
        let b = split_lines(u);
        if t.last() == '\n' {
            assert(split_lines(s + t) =~= a + split_lines(t));
        } else {
            assert((a + b).update((a + b).len() - 1, (a + b).last().push(t.last())) =~= a + b.update(
                b.len() - 1,
                b.last().push(t.last()),
            ));
            assert(split_lines(s + t) =~= a + split_lines(t));
        }
    }
}

/// A trimmed sequence that starts and ends with non-whitespace is itself.
pub proof fn lemma_trim_of_unpadded(s: Seq<char>)
    requires
        s.len() > 0,
        !is_ws(s[0]),
        !is_ws(s.last()),
    ensures
        trim(s) == s,
{
}

} // verus!
