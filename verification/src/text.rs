//! Character-level text handling: whitespace trimming, line splitting and
//! comparison, with their mathematical definitions over `Seq<char>`.

use vstd::prelude::*;

verus! {

/// Unicode White_Space, the set of characters that `char::is_whitespace`
/// accepts and that `str::trim` and `str::trim_end` remove.
pub open spec fn is_whitespace(c: char) -> bool {
    ||| c == '\t' || c == '\n' || c == '\u{0B}' || c == '\u{0C}' || c == '\r' || c == ' '
    ||| c == '\u{85}' || c == '\u{A0}' || c == '\u{1680}'
    ||| ('\u{2000}' <= c && c <= '\u{200A}')
    ||| c == '\u{2028}' || c == '\u{2029}' || c == '\u{202F}' || c == '\u{205F}'
    ||| c == '\u{3000}'
}

/// All characters of `s` are whitespace.
pub open spec fn all_whitespace(s: Seq<char>) -> bool {
    forall|i: int| 0 <= i < s.len() ==> is_whitespace(#[trigger] s[i])
}

/// `s` without its trailing whitespace.
pub open spec fn trimmed_end(s: Seq<char>) -> Seq<char>
    decreases s.len(),
{
    if s.len() > 0 && is_whitespace(s.last()) {
        trimmed_end(s.drop_last())
    } else {
        s
    }
}

/// `s` without its leading whitespace.
pub open spec fn trimmed_start(s: Seq<char>) -> Seq<char>
    decreases s.len(),
{
    if s.len() > 0 && is_whitespace(s[0]) {
        trimmed_start(s.drop_first())
    } else {
        s
    }
}

/// `s` without leading and trailing whitespace.
pub open spec fn trimmed(s: Seq<char>) -> Seq<char> {
    trimmed_start(trimmed_end(s))
}

/// Index of the first line feed in `s`, or its length if it holds none.
pub open spec fn first_newline(s: Seq<char>) -> nat
    decreases s.len(),
{
    if s.len() == 0 {
        0
    } else if s[0] == '\n' {
        0
    } else {
        1 + first_newline(s.drop_first())
    }
}

/// A line that was ended by a line feed, without a carriage return before it.
pub open spec fn strip_cr(line: Seq<char>) -> Seq<char> {
    if line.len() > 0 && line.last() == '\r' {
        line.drop_last()
    } else {
        line
    }
}

/// The lines of `s` as `str::lines` yields them: split at each `\n`, a `\r`
/// right before it removed, the final line ending optional and a final
/// unterminated line kept as it is.
pub open spec fn lines(s: Seq<char>) -> Seq<Seq<char>>
    decreases s.len(),
{
    if s.len() == 0 {
        Seq::empty()
    } else {
        let k = first_newline(s);
        if k < s.len() {
            seq![strip_cr(s.take(k as int))] + lines(s.skip(k + 1int))
        } else {
            seq![s]
        }
    }
}

/// The views of a sequence of character vectors.
pub open spec fn char_vec_views(v: Seq<Vec<char>>) -> Seq<Seq<char>> {
    v.map_values(|l: Vec<char>| l@)
}

/// The views of a sequence of strings.
pub open spec fn string_views(v: Seq<String>) -> Seq<Seq<char>> {
    v.map_values(|l: String| l@)
}

/// Whitespace after a text does not change what trimming its end keeps.
pub proof fn lemma_trimmed_end_ignores_whitespace(s: Seq<char>, ws: Seq<char>)
    requires
        all_whitespace(ws),
    ensures
        trimmed_end(s + ws) == trimmed_end(s),
    decreases ws.len(),
{
    if ws.len() > 0 {
        assert((s + ws).drop_last() == s + ws.drop_last());
        assert((s + ws).last() == ws[ws.len() - 1]);
        lemma_trimmed_end_ignores_whitespace(s, ws.drop_last());
    } else {
        assert(s + ws == s);
    }
}

/// Whitespace before a text does not change what trimming its start keeps.
pub proof fn lemma_trimmed_start_ignores_whitespace(ws: Seq<char>, s: Seq<char>)
    requires
        all_whitespace(ws),
    ensures
        trimmed_start(ws + s) == trimmed_start(s),
    decreases ws.len(),
{
    if ws.len() > 0 {
        assert((ws + s)[0] == ws[0]);
        assert((ws + s).drop_first() == ws.drop_first() + s);
        lemma_trimmed_start_ignores_whitespace(ws.drop_first(), s);
    } else {
        assert(ws + s == s);
    }
}

/// A text that does not end in whitespace, followed by whitespace, trims
/// back to itself.
pub proof fn lemma_text_reads_back(s: Seq<char>, ws: Seq<char>)
    requires
        all_whitespace(ws),
        s.len() == 0 || !is_whitespace(s.last()),
    ensures
        trimmed_end(s + ws) == s,
{
    lemma_trimmed_end_ignores_whitespace(s, ws);
}

/// Trimming the end of `s` keeps a prefix of `s`, removes only whitespace,
/// and stops at the last character that is not whitespace.
pub proof fn lemma_trimmed_end_shape(s: Seq<char>)
    ensures
        trimmed_end(s).len() <= s.len(),
        trimmed_end(s) == s.take(trimmed_end(s).len() as int),
        all_whitespace(s.skip(trimmed_end(s).len() as int)),
        trimmed_end(s).len() == 0 || !is_whitespace(trimmed_end(s).last()),
    decreases s.len(),
{
    if s.len() > 0 && is_whitespace(s.last()) {
        lemma_trimmed_end_shape(s.drop_last());
        let k = trimmed_end(s).len() as int;
        assert(s.drop_last().take(k) == s.take(k));
        assert forall|i: int| 0 <= i < s.skip(k).len() implies is_whitespace(
            #[trigger] s.skip(k)[i],
        ) by {
            if i < s.skip(k).len() - 1 {
                assert(s.skip(k)[i] == s.drop_last().skip(k)[i]);
            } else {
                assert(s.skip(k)[i] == s.last());
            }
        }
    } else {
        assert(s.take(s.len() as int) == s);
        assert(s.skip(s.len() as int).len() == 0);
    }
}

/// Trimming the start of `s` keeps a suffix of `s`, removes only whitespace,
/// and stops at the first character that is not whitespace.
pub proof fn lemma_trimmed_start_shape(s: Seq<char>)
    ensures
        trimmed_start(s).len() <= s.len(),
        trimmed_start(s) == s.skip(s.len() - trimmed_start(s).len()),
        all_whitespace(s.take(s.len() - trimmed_start(s).len())),
        trimmed_start(s).len() == 0 || !is_whitespace(trimmed_start(s)[0]),
    decreases s.len(),
{
    if s.len() > 0 && is_whitespace(s[0]) {
        lemma_trimmed_start_shape(s.drop_first());
        let k = s.len() - trimmed_start(s).len();
        assert(s.drop_first().skip(k - 1) == s.skip(k));
        assert forall|i: int| 0 <= i < s.take(k).len() implies is_whitespace(
            #[trigger] s.take(k)[i],
        ) by {
            if i > 0 {
                assert(s.take(k)[i] == s.drop_first().take(k - 1)[i - 1]);
            }
        }
    } else {
        assert(s.skip(0) == s);
        assert(s.take(0).len() == 0);
    }
}

/// The whitespace characters are exactly the 25 characters of Unicode
/// White_Space: tab, line feed, vertical tab, form feed, carriage return,
/// space, U+0085, U+00A0, U+1680, U+2000 to U+200A, U+2028, U+2029, U+202F,
/// U+205F and U+3000.
pub proof fn lemma_whitespace_set(c: char)
    ensures
        is_whitespace(c) <==> "\t\n\u{0B}\u{0C}\r \u{85}\u{A0}\u{1680}\u{2000}\u{2001}\u{2002}\u{2003}\u{2004}\u{2005}\u{2006}\u{2007}\u{2008}\u{2009}\u{200A}\u{2028}\u{2029}\u{202F}\u{205F}\u{3000}"@.contains(c),
{
    reveal_strlit("\t\n\u{0B}\u{0C}\r \u{85}\u{A0}\u{1680}\u{2000}\u{2001}\u{2002}\u{2003}\u{2004}\u{2005}\u{2006}\u{2007}\u{2008}\u{2009}\u{200A}\u{2028}\u{2029}\u{202F}\u{205F}\u{3000}");
    let a = "\t\n\u{0B}\u{0C}\r \u{85}\u{A0}\u{1680}\u{2000}\u{2001}\u{2002}\u{2003}\u{2004}\u{2005}\u{2006}\u{2007}\u{2008}\u{2009}\u{200A}\u{2028}\u{2029}\u{202F}\u{205F}\u{3000}"@;
    if is_whitespace(c) {
        if c == '\t' {
            assert(a[0] == c);
        } else if c == '\n' {
            assert(a[1] == c);
        } else if c == '\u{0B}' {
            assert(a[2] == c);
        } else if c == '\u{0C}' {
            assert(a[3] == c);
        } else if c == '\r' {
            assert(a[4] == c);
        } else if c == ' ' {
            assert(a[5] == c);
        } else if c == '\u{85}' {
            assert(a[6] == c);
        } else if c == '\u{A0}' {
            assert(a[7] == c);
        } else if c == '\u{1680}' {
            assert(a[8] == c);
        } else if '\u{2000}' <= c && c <= '\u{200A}' {
            assert(a[(c as int) - 0x2000 + 9] == c);
        } else if c == '\u{2028}' {
            assert(a[20] == c);
        } else if c == '\u{2029}' {
            assert(a[21] == c);
        } else if c == '\u{202F}' {
            assert(a[22] == c);
        } else if c == '\u{205F}' {
            assert(a[23] == c);
        } else {
            assert(a[24] == c);
        }
    }
    if a.contains(c) {
        let k = choose|k: int| 0 <= k < a.len() && a[k] == c;
        assert(is_whitespace(a[k]));
    }
}

/// No line holds a line feed, and a text without line feed is a single line
/// (or none, if it is empty).
pub proof fn lemma_lines_shape(s: Seq<char>)
    ensures
        forall|i: int| 0 <= i < lines(s).len() ==> !(#[trigger] lines(s)[i]).contains('\n'),
        !s.contains('\n') && s.len() > 0 ==> lines(s) == seq![s],
    decreases s.len(),
{
    if s.len() > 0 {
        let k = first_newline(s);
        lemma_first_newline_shape(s);
        if k < s.len() {
            lemma_lines_shape(s.skip((k + 1) as int));
            let head = strip_cr(s.take(k as int));
            assert(!head.contains('\n')) by {
                if head.contains('\n') {
                    let j = choose|j: int| 0 <= j < head.len() && head[j] == '\n';
                    assert(s.take(k as int)[j] == '\n');
                }
            }
            let rest = lines(s.skip((k + 1) as int));
            assert forall|i: int| 0 <= i < lines(s).len() implies !(#[trigger] lines(s)[i]).contains(
                '\n',
            ) by {
                if i > 0 {
                    assert(lines(s)[i] == rest[i - 1]);
                }
            }
            if !s.contains('\n') {
                assert(s[k as int] == '\n');
            }
        } else {
            if s.contains('\n') {
                let j = choose|j: int| 0 <= j < s.len() && s[j] == '\n';
                assert(s.take(k as int)[j] == '\n');
            }
        }
    }
}

/// `first_newline(s)` is at most the length of `s`; no line feed comes
/// before it, and it is a line feed where it is inside `s`.
proof fn lemma_first_newline_shape(s: Seq<char>)
    ensures
        first_newline(s) <= s.len(),
        forall|m: int| 0 <= m < first_newline(s) ==> s[m] != '\n',
        first_newline(s) < s.len() ==> s[first_newline(s) as int] == '\n',
    decreases s.len(),
{
    if s.len() > 0 && s[0] != '\n' {
        lemma_first_newline_shape(s.drop_first());
        assert forall|m: int| 0 <= m < first_newline(s) implies s[m] != '\n' by {
            if m > 0 {
                assert(s[m] == s.drop_first()[m - 1]);
            }
        }
    }
}

proof fn lemma_first_newline(s: Seq<char>, j: int)
    requires
        0 <= j <= s.len(),
        forall|m: int| 0 <= m < j ==> s[m] != '\n',
        j < s.len() ==> s[j] == '\n',
    ensures
        first_newline(s) == j,
    decreases j,
{
    if j > 0 {
        assert forall|m: int| 0 <= m < j - 1 implies s.drop_first()[m] != '\n' by {
            assert(s.drop_first()[m] == s[m + 1]);
        }
        lemma_first_newline(s.drop_first(), j - 1);
    }
}

/// Appends `c` to `s`: a call of `String::push`, which appends the given
/// character to the end of the string.
#[verifier::external_body]
fn push_char(s: &mut String, c: char)
    ensures
        final(s)@ == old(s)@.push(c),
{
    s.push(c);
}

/// Whether `c` is Unicode whitespace.
pub fn is_whitespace_char(c: char) -> (b: bool)
    ensures
        b == is_whitespace(c),
{
    c == '\t' || c == '\n' || c == '\u{0B}' || c == '\u{0C}' || c == '\r' || c == ' ' || c
        == '\u{85}' || c == '\u{A0}' || c == '\u{1680}' || ('\u{2000}' <= c && c <= '\u{200A}')
        || c == '\u{2028}' || c == '\u{2029}' || c == '\u{202F}' || c == '\u{205F}' || c
        == '\u{3000}'
}

/// The characters of `s`, in order.
pub fn chars_of(s: &str) -> (v: Vec<char>)
    ensures
        v@ == s@,
{
    let mut v: Vec<char> = Vec::new();
    for c in it: s.chars()
        invariant
            v@ == it.seq().take(it.index() as int),
    {
        v.push(c);
    }
    v
}

/// The string made of the characters `chars[lo..hi]`, in order.
pub fn string_of(chars: &[char], lo: usize, hi: usize) -> (s: String)
    requires
        lo <= hi <= chars@.len(),
    ensures
        s@ == chars@.subrange(lo as int, hi as int),
{
    let mut s = String::new();
    for i in lo..hi
        invariant
            hi <= chars@.len(),
            s@ == chars@.subrange(lo as int, i as int),
    {
        push_char(&mut s, chars[i]);
        assert(chars@.subrange(lo as int, i + 1) == chars@.subrange(lo as int, i as int).push(
            chars@[i as int],
        ));
    }
    s
}

/// Length of `s` once its trailing whitespace is removed.
pub fn trim_end_len(s: &[char]) -> (n: usize)
    ensures
        n <= s@.len(),
        s@.take(n as int) == trimmed_end(s@),
{
    let mut end = s.len();
    assert(s@.take(end as int) == s@);
    while end > 0 && is_whitespace_char(s[end - 1])
        invariant
            end <= s@.len(),
            trimmed_end(s@.take(end as int)) == trimmed_end(s@),
        decreases end,
    {
        assert(s@.take(end as int).drop_last() == s@.take(end - 1));
        end = end - 1;
    }
    end
}

/// Number of leading whitespace characters of `s`.
pub fn trim_start_len(s: &[char]) -> (n: usize)
    ensures
        n <= s@.len(),
        s@.skip(n as int) == trimmed_start(s@),
{
    let mut start: usize = 0;
    assert(s@.skip(0) == s@);
    while start < s.len() && is_whitespace_char(s[start])
        invariant
            start <= s@.len(),
            trimmed_start(s@.skip(start as int)) == trimmed_start(s@),
        decreases s@.len() - start,
    {
        assert(s@.skip(start as int).drop_first() == s@.skip(start + 1));
        start = start + 1;
    }
    start
}

/// The first `n` characters of `s`.
fn slice_prefix(s: &[char], n: usize) -> (r: Vec<char>)
    requires
        n <= s@.len(),
    ensures
        r@ == s@.take(n as int),
{
    let mut r: Vec<char> = Vec::new();
    for i in 0..n
        invariant
            n <= s@.len(),
            r@ == s@.take(i as int),
    {
        r.push(s[i]);
        assert(s@.take(i + 1) == s@.take(i as int).push(s@[i as int]));
    }
    r
}

/// `s` without its trailing whitespace, as `str::trim_end` gives it.
pub fn trim_end(s: &str) -> (r: String)
    ensures
        r@ == trimmed_end(s@),
{
    let chars = chars_of(s);
    let n = trim_end_len(chars.as_slice());
    string_of(chars.as_slice(), 0, n)
}

/// `s` without leading and trailing whitespace, as `str::trim` gives it.
pub fn trim(s: &str) -> (r: String)
    ensures
        r@ == trimmed(s@),
{
    let chars = chars_of(s);
    let n = trim_end_len(chars.as_slice());
    let head = slice_prefix(chars.as_slice(), n);
    let k = trim_start_len(head.as_slice());
    string_of(head.as_slice(), k, head.len())
}

/// Whether `a` and `b` hold the same characters.
pub fn chars_eq(a: &[char], b: &[char]) -> (r: bool)
    ensures
        r == (a@ == b@),
{
    if a.len() != b.len() {
        return false;
    }
    let n = a.len();
    for i in 0..n
        invariant
            n == a@.len(),
            n == b@.len(),
            forall|m: int| 0 <= m < i ==> a@[m] == b@[m],
    {
        if a[i] != b[i] {
            return false;
        }
    }
    assert(a@ == b@);
    true
}

/// Whether `a` and `b` are the same text.
pub fn str_eq(a: &str, b: &str) -> (r: bool)
    ensures
        r == (a@ == b@),
{
    let va = chars_of(a);
    let vb = chars_of(b);
    chars_eq(va.as_slice(), vb.as_slice())
}

/// A line ended by a line feed, with a carriage return before it removed.
fn strip_cr_vec(line: Vec<char>) -> (r: Vec<char>)
    ensures
        r@ == strip_cr(line@),
{
    let mut line = line;
    if line.len() > 0 && line[line.len() - 1] == '\r' {
        line.pop();
    }
    line
}

/// The lines of `s`, as `str::lines` yields them.
pub fn split_lines(s: &[char]) -> (r: Vec<Vec<char>>)
    ensures
        char_vec_views(r@) == lines(s@),
{
    let mut out: Vec<Vec<char>> = Vec::new();
    let mut cur: Vec<char> = Vec::new();
    let mut start: usize = 0;
    let n = s.len();
    assert(s@.skip(0) == s@);
    for i in 0..n
        invariant
            n == s@.len(),
            start <= i,
            cur@ == s@.subrange(start as int, i as int),
            forall|m: int| start <= m < i ==> s@[m] != '\n',
            char_vec_views(out@) + lines(s@.skip(start as int)) == lines(s@),
    {
        if s[i] == '\n' {
            let ghost rest = s@.skip(start as int);
            proof {
                assert forall|m: int| 0 <= m < i - start implies rest[m] != '\n' by {
                    assert(rest[m] == s@[start + m]);
                }
                assert(rest[i - start] == s@[i as int]);
                lemma_first_newline(rest, i - start);
                assert(rest.take(i - start) == cur@);
                assert(rest.skip(i - start + 1) == s@.skip(i + 1));
            }
            let line = strip_cr_vec(cur);
            let ghost before = out@;
            out.push(line);
            proof {
                assert(char_vec_views(out@) == char_vec_views(before).push(line@));
                assert(lines(rest) == seq![line@] + lines(s@.skip(i + 1)));
                assert(char_vec_views(out@) + lines(s@.skip(i + 1)) == char_vec_views(before)
                    + lines(rest));
            }
            cur = Vec::new();
            start = i + 1;
        } else {
            cur.push(s[i]);
            assert(s@.subrange(start as int, i + 1) == s@.subrange(start as int, i as int).push(
                s@[i as int],
            ));
        }
    }
    let ghost rest = s@.skip(start as int);
    if start < n {
        proof {
            assert forall|m: int| 0 <= m < rest.len() implies rest[m] != '\n' by {
                assert(rest[m] == s@[start + m]);
            }
            lemma_first_newline(rest, rest.len() as int);
            assert(rest == cur@);
        }
        let ghost before = out@;
        out.push(cur);
        proof {
            assert(char_vec_views(out@) == char_vec_views(before).push(rest));
            assert(lines(rest) == seq![rest]);
        }
    } else {
        assert(rest.len() == 0);
    }
    out
}

} // verus!
