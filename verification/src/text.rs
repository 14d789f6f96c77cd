//! Character-level helpers: whitespace trimming and splitting on line breaks.

use vstd::prelude::*;
use vstd::string::StrSliceExecFns;

verus! {

/// The Unicode `White_Space` code points.
pub open spec fn is_space(c: char) -> bool {
    let n = c as u32;
    ||| 0x09 <= n <= 0x0D
    ||| n == 0x20
    ||| n == 0x85
    ||| n == 0xA0
    ||| n == 0x1680
    ||| 0x2000 <= n <= 0x200A
    ||| n == 0x2028
    ||| n == 0x2029
    ||| n == 0x202F
    ||| n == 0x205F
    ||| n == 0x3000
}

/// Index of the first character at or after `i` that is not whitespace, or
/// the length of `s` when there is none.
pub open spec fn lead(s: Seq<char>, i: int) -> int
    decreases s.len() - i,
{
    if 0 <= i < s.len() && is_space(s[i]) {
        lead(s, i + 1)
    } else {
        i
    }
}

/// One past the index of the last character before `j` and at or after `lo`
/// that is not whitespace, or `lo` when there is none.
pub open spec fn tail(s: Seq<char>, lo: int, j: int) -> int
    decreases j,
{
    if 0 <= lo < j <= s.len() && is_space(s[j - 1]) {
        tail(s, lo, j - 1)
    } else {
        j
    }
}

/// `s` without its leading and trailing whitespace.
pub open spec fn trimmed(s: Seq<char>) -> Seq<char> {
    let lo = lead(s, 0);
    s.subrange(lo, tail(s, lo, s.len() as int))
}

/// The lines of `s` from position `i` on, where the line being read began at
/// `start`.
pub open spec fn lines_from(s: Seq<char>, start: int, i: int) -> Seq<Seq<char>>
    decreases s.len() - i,
{
    if !(0 <= start <= i < s.len()) {
        seq![s.subrange(start, s.len() as int)]
    } else if s[i] == '\n' {
        seq![s.subrange(start, i)] + lines_from(s, i + 1, i + 1)
    } else {
        lines_from(s, start, i + 1)
    }
}

/// `s` split at every line feed; the line feeds themselves are dropped. A
/// text without a line feed is one line, and so is the empty text.
pub open spec fn lines(s: Seq<char>) -> Seq<Seq<char>> {
    lines_from(s, 0, 0)
}

/// `lead` stops within the text, at or after where it began, on a character
/// that is not whitespace or at the end.
pub proof fn lemma_lead(s: Seq<char>, i: int)
    requires
        0 <= i <= s.len(),
    ensures
        i <= lead(s, i) <= s.len(),
        lead(s, i) < s.len() ==> !is_space(s[lead(s, i)]),
    decreases s.len() - i,
{
    if i < s.len() && is_space(s[i]) {
        lemma_lead(s, i + 1);
    }
}

/// `tail` stops between `lo` and where it began, behind a character that is
/// not whitespace or at `lo`.
pub proof fn lemma_tail(s: Seq<char>, lo: int, j: int)
    requires
        0 <= lo <= j <= s.len(),
    ensures
        lo <= tail(s, lo, j) <= j,
        tail(s, lo, j) > lo ==> !is_space(s[tail(s, lo, j) - 1]),
    decreases j,
{
    if lo < j && is_space(s[j - 1]) {
        lemma_tail(s, lo, j - 1);
    }
}

/// A trimmed text neither begins nor ends with whitespace.
pub proof fn lemma_trimmed_ends(s: Seq<char>)
    ensures
        trimmed(s).len() > 0 ==> !is_space(trimmed(s).first()) && !is_space(trimmed(s).last()),
        trimmed(s).len() <= s.len(),
{
    let lo = lead(s, 0);
    lemma_lead(s, 0);
    lemma_tail(s, lo, s.len() as int);
}

/// Trimming a trimmed text changes nothing.
pub proof fn lemma_trimmed_twice(s: Seq<char>)
    ensures
        trimmed(trimmed(s)) == trimmed(s),
{
    let t = trimmed(s);
    lemma_trimmed_ends(s);
    if t.len() > 0 {
        assert(lead(t, 0) == 0);
        assert(tail(t, 0, t.len() as int) == t.len());
    } else {
        assert(lead(t, 0) == 0);
        assert(tail(t, 0, 0) == 0);
    }
    assert(t.subrange(0, t.len() as int) =~= t);
}

/// A text without whitespace at either end is its own trimmed form.
pub proof fn lemma_trimmed_bare(s: Seq<char>)
    requires
        s.len() > 0 ==> !is_space(s.first()) && !is_space(s.last()),
    ensures
        trimmed(s) == s,
{
    if s.len() > 0 {
        assert(lead(s, 0) == 0);
        assert(tail(s, 0, s.len() as int) == s.len());
    } else {
        assert(lead(s, 0) == 0);
        assert(tail(s, 0, 0) == 0);
    }
    assert(s.subrange(0, s.len() as int) =~= s);
}

/// From where a line began, every line of the text is free of line feeds,
/// and there is one line more than there are line feeds left to read.
pub proof fn lemma_lines_from(s: Seq<char>, start: int, i: int)
    requires
        0 <= start <= i <= s.len(),
        forall|k: int| start <= k < i ==> s[k] != '\n',
    ensures
        lines_from(s, start, i).len() == 1 + breaks(s, i),
        forall|n: int, k: int|
            0 <= n < lines_from(s, start, i).len() && 0 <= k < lines_from(s, start, i)[n].len()
                ==> (#[trigger] lines_from(s, start, i)[n][k]) != '\n',
    decreases s.len() - i,
{
    let all = lines_from(s, start, i);
    if i >= s.len() {
        assert(all =~= seq![s.subrange(start, s.len() as int)]);
    } else if s[i] == '\n' {
        lemma_lines_from(s, i + 1, i + 1);
        let rest = lines_from(s, i + 1, i + 1);
        assert(all =~= seq![s.subrange(start, i)] + rest);
        assert forall|n: int, k: int| 0 <= n < all.len() && 0 <= k < all[n].len() implies (
        #[trigger] all[n][k]) != '\n' by {
            if n > 0 {
                assert(all[n] == rest[n - 1]);
                assert(rest[n - 1][k] != '\n');
            }
        }
    } else {
        lemma_lines_from(s, start, i + 1);
    }
}

/// How many line feeds `s` holds at or after position `i`.
pub open spec fn breaks(s: Seq<char>, i: int) -> nat
    decreases s.len() - i,
{
    if !(0 <= i < s.len()) {
        0
    } else if s[i] == '\n' {
        1 + breaks(s, i + 1)
    } else {
        breaks(s, i + 1)
    }
}

/// A text has one line more than it has line feeds, and no line holds a
/// line feed.
pub proof fn lemma_lines(s: Seq<char>)
    ensures
        lines(s).len() == 1 + breaks(s, 0),
        forall|n: int, k: int|
            0 <= n < lines(s).len() && 0 <= k < lines(s)[n].len() ==> (#[trigger] lines(
                s,
            )[n][k]) != '\n',
{
    lemma_lines_from(s, 0, 0);
}

/// A text without a line feed is one line: itself.
pub proof fn lemma_single_line(s: Seq<char>)
    requires
        forall|k: int| 0 <= k < s.len() ==> s[k] != '\n',
    ensures
        lines(s) == seq![s],
{
    lemma_unbroken(s, 0);
    assert(s.subrange(0, s.len() as int) =~= s);
}

/// Where no line feed is left to read, the line being read is the last.
proof fn lemma_unbroken(s: Seq<char>, i: int)
    requires
        0 <= i <= s.len(),
        forall|k: int| 0 <= k < s.len() ==> s[k] != '\n',
    ensures
        lines_from(s, 0, i) == seq![s.subrange(0, s.len() as int)],
    decreases s.len() - i,
{
    if i < s.len() {
        lemma_unbroken(s, i + 1);
    }
}

/// The texts held by a sequence of strings.
pub open spec fn texts(v: Seq<String>) -> Seq<Seq<char>> {
    Seq::new(v.len(), |i: int| v[i]@)
}

pub fn is_whitespace(c: char) -> (r: bool)
    ensures
        r == is_space(c),
{
    let n: u32 = c as u32;
    (0x09 <= n && n <= 0x0D) || n == 0x20 || n == 0x85 || n == 0xA0 || n == 0x1680 || (0x2000 <= n
        && n <= 0x200A) || n == 0x2028 || n == 0x2029 || n == 0x202F || n == 0x205F || n == 0x3000
}

/// Whether two texts hold the same characters.
pub fn same(a: &str, b: &str) -> (r: bool)
    ensures
        r == (a@ == b@),
{
    let n: usize = a.unicode_len();
    if n != b.unicode_len() {
        return false;
    }
    let mut i: usize = 0;
    while i < n
        invariant
            0 <= i <= n,
            n == a@.len(),
            n == b@.len(),
            forall|k: int| 0 <= k < i ==> a@[k] == b@[k],
        decreases n - i,
    {
        if a.get_char(i) != b.get_char(i) {
            return false;
        }
        i = i + 1;
    }
    proof {
        assert(a@ =~= b@);
    }
    true
}

/// Leading and trailing whitespace removed.
pub fn trim(s: &str) -> (r: &str)
    ensures
        r@ == trimmed(s@),
{
    let n: usize = s.unicode_len();
    let mut lo: usize = 0;
    while lo < n && is_whitespace(s.get_char(lo))
        invariant
            n == s@.len(),
            0 <= lo <= n,
            lead(s@, 0) == lead(s@, lo as int),
        decreases n - lo,
    {
        lo = lo + 1;
    }
    let mut hi: usize = n;
    while lo < hi && is_whitespace(s.get_char(hi - 1))
        invariant
            n == s@.len(),
            lo <= hi <= n,
            tail(s@, lo as int, n as int) == tail(s@, lo as int, hi as int),
        decreases hi,
    {
        hi = hi - 1;
    }
    s.substring_char(lo, hi)
}

/// The lines of `message`, in order.
pub fn split_lines(message: &str) -> (out: Vec<String>)
    ensures
        texts(out@) == lines(message@),
{
    let n: usize = message.unicode_len();
    let mut out: Vec<String> = Vec::new();
    let mut start: usize = 0;
    let mut i: usize = 0;
    while i < n
        invariant
            n == message@.len(),
            0 <= start <= i <= n,
            lines(message@) == texts(out@) + lines_from(message@, start as int, i as int),
        decreases n - i,
    {
        if message.get_char(i) == '\n' {
            let line = message.substring_char(start, i).to_string();
            proof {
                assert(texts(out@.push(line)) =~= texts(out@) + seq![line@]);
            }
            out.push(line);
            start = i + 1;
        }
        i = i + 1;
    }
    let line = message.substring_char(start, n).to_string();
    proof {
        assert(texts(out@.push(line)) =~= texts(out@) + seq![line@]);
    }
    out.push(line);
    out
}

} // verus!
