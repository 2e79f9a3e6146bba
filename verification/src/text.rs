//! Character-level text operations used by the naming rules.

use vstd::prelude::*;

verus! {

/// `c` equals the keyword character `k` when ASCII case is ignored:
/// a lower-case ASCII letter `k` also accepts its upper-case form.
pub open spec fn ci_eq(c: char, k: char) -> bool {
    c == k || ('a' <= k && k <= 'z' && (c as int) + 32 == (k as int))
}

/// The keyword `kw` occurs in `s` at index `i`, ignoring ASCII case.
pub open spec fn keyword_at(s: Seq<char>, kw: Seq<char>, i: int) -> bool {
    &&& 0 <= i
    &&& i + kw.len() <= s.len()
    &&& forall|j: int| 0 <= j < kw.len() ==> ci_eq(#[trigger] s[i + j], kw[j])
}

/// The keyword `kw` occurs somewhere in `s`, ignoring ASCII case.
pub open spec fn has_keyword(s: Seq<char>, kw: Seq<char>) -> bool {
    exists|i: int| keyword_at(s, kw, i)
}

/// The characters a clean name may hold: ASCII letters and digits, `-`, `_`,
/// space and `&`.
pub open spec fn is_allowed_char(c: char) -> bool {
    ||| ('a' <= c && c <= 'z')
    ||| ('A' <= c && c <= 'Z')
    ||| ('0' <= c && c <= '9')
    ||| c == '-'
    ||| c == '_'
    ||| c == ' '
    ||| c == '&'
}

/// `s` with every character that a clean name may not hold removed.
pub open spec fn keep_allowed(s: Seq<char>) -> Seq<char>
    decreases s.len(),
{
    if s.len() == 0 {
        s
    } else if is_allowed_char(s.last()) {
        keep_allowed(s.drop_last()).push(s.last())
    } else {
        keep_allowed(s.drop_last())
    }
}

/// `i` is the leftmost index at which `kw` occurs in `s`, ignoring ASCII case.
pub open spec fn is_first_keyword(s: Seq<char>, kw: Seq<char>, i: int) -> bool {
    &&& keyword_at(s, kw, i)
    &&& forall|j: int| 0 <= j < i ==> !keyword_at(s, kw, j)
}

/// The leftmost index at which `kw` occurs in `s`, ignoring ASCII case.
pub open spec fn first_keyword_index(s: Seq<char>, kw: Seq<char>) -> int {
    choose|i: int| is_first_keyword(s, kw, i)
}

/// The index of the first line feed in `s` at or after `from`, or the length
/// of `s` where there is none.
pub open spec fn line_end(s: Seq<char>, from: int) -> int
    decreases s.len() - from,
{
    if from >= s.len() {
        s.len() as int
    } else if s[from] == '\n' {
        from
    } else {
        line_end(s, from + 1)
    }
}

/// `s` with its first occurrence of the credit keyword `kw` (ignoring ASCII
/// case) removed together with the rest of that line; `s` itself where `kw`
/// does not occur.
pub open spec fn cut_credit(s: Seq<char>, kw: Seq<char>) -> Seq<char> {
    if has_keyword(s, kw) {
        let i = first_keyword_index(s, kw);
        s.subrange(0, i) + s.subrange(line_end(s, i + kw.len()), s.len() as int)
    } else {
        s
    }
}

/// The characters of a string slice, in order.
pub fn chars_of(s: &str) -> (v: Vec<char>)
    ensures
        v@ == s@,
{
    let n = s.unicode_len();
    let mut v: Vec<char> = Vec::new();
    for i in 0..n
        invariant
            n == s@.len(),
            v@ == s@.subrange(0, i as int),
    {
        v.push(s.get_char(i));
    }
    v
}

/// Compares one character of a name with one character of a keyword.
pub fn char_matches_ignoring_ascii_case(c: char, k: char) -> (r: bool)
    ensures
        r == ci_eq(c, k),
{
    c == k || ('a' <= k && k <= 'z' && (c as u32) + 32 == (k as u32))
}

/// Whether `keyword` occurs in `haystack` when ASCII case is ignored.
pub fn contains_ignoring_ascii_case(haystack: &str, keyword: &str) -> (r: bool)
    ensures
        r == has_keyword(haystack@, keyword@),
{
    let h = chars_of(haystack);
    let k = chars_of(keyword);
    let hn = h.len();
    let kn = k.len();
    if kn > hn {
        assert forall|i: int| !keyword_at(haystack@, keyword@, i) by {}
        return false;
    }
    let last = hn - kn;
    let mut i: usize = 0;
    while i <= last
        invariant
            h@ == haystack@,
            k@ == keyword@,
            hn == h@.len(),
            kn == k@.len(),
            last == hn - kn,
            forall|p: int| 0 <= p < i ==> !keyword_at(haystack@, keyword@, p),
        decreases last + 1 - i,
    {
        let mut j: usize = 0;
        let mut ok = true;
        while j < kn
            invariant
                h@ == haystack@,
                k@ == keyword@,
                hn == h@.len(),
                kn == k@.len(),
                i + kn <= hn,
                j <= kn,
                ok == (forall|q: int| 0 <= q < j ==> ci_eq(#[trigger] haystack@[i + q], keyword@[q])),
            decreases kn - j,
        {
            if !char_matches_ignoring_ascii_case(h[i + j], k[j]) {
                ok = false;
            }
            j = j + 1;
        }
        if ok {
            assert(keyword_at(haystack@, keyword@, i as int));
            return true;
        }
        i = i + 1;
    }
    false
}

/// The characters that `char::is_whitespace` accepts: those with the Unicode
/// property White_Space.
pub open spec fn is_white_space(c: char) -> bool {
    ||| ('\u{9}' <= c && c <= '\u{d}')
    ||| c == ' '
    ||| c == '\u{85}'
    ||| c == '\u{a0}'
    ||| c == '\u{1680}'
    ||| ('\u{2000}' <= c && c <= '\u{200a}')
    ||| c == '\u{2028}'
    ||| c == '\u{2029}'
    ||| c == '\u{202f}'
    ||| c == '\u{205f}'
    ||| c == '\u{3000}'
}

/// `s` without its trailing white space.
pub open spec fn trim_end_white_space(s: Seq<char>) -> Seq<char>
    decreases s.len(),
{
    if s.len() > 0 && is_white_space(s.last()) {
        trim_end_white_space(s.drop_last())
    } else {
        s
    }
}

/// Whether `c` is white space.
pub fn is_white_space_char(c: char) -> (r: bool)
    ensures
        r == is_white_space(c),
{
    ('\u{9}' <= c && c <= '\u{d}') || c == ' ' || c == '\u{85}' || c == '\u{a0}'
        || c == '\u{1680}' || ('\u{2000}' <= c && c <= '\u{200a}') || c == '\u{2028}'
        || c == '\u{2029}' || c == '\u{202f}' || c == '\u{205f}' || c == '\u{3000}'
}

/// `s` with its trailing white space removed, as `str::trim_end` does.
pub fn trim_end(s: &str) -> (r: String)
    ensures
        r@ == trim_end_white_space(s@),
{
    let v = chars_of(s);
    let mut end = v.len();
    assert(s@.subrange(0, end as int) =~= s@);
    while end > 0 && is_white_space_char(v[end - 1])
        invariant
            end <= v@.len(),
            v@ == s@,
            trim_end_white_space(s@) == trim_end_white_space(s@.subrange(0, end as int)),
        decreases end,
    {
        assert(s@.subrange(0, end as int).drop_last() =~= s@.subrange(0, end - 1));
        end = end - 1;
    }
    let t = s.substring_char(0, end);
    t.to_owned()
}

/// Every character left by `keep_allowed` is one a clean name may hold.
pub proof fn lemma_keep_allowed_only_allowed(s: Seq<char>)
    ensures
        forall|i: int| 0 <= i < keep_allowed(s).len() ==> is_allowed_char(#[trigger] keep_allowed(s)[i]),
    decreases s.len(),
{
    if s.len() > 0 {
        lemma_keep_allowed_only_allowed(s.drop_last());
        let r = keep_allowed(s.drop_last());
        if is_allowed_char(s.last()) {
            assert forall|i: int| 0 <= i < r.push(s.last()).len() implies is_allowed_char(
                #[trigger] r.push(s.last())[i],
            ) by {
                if i < r.len() {
                    assert(r.push(s.last())[i] == r[i]);
                }
            }
        }
    }
}

/// A text that holds only allowed characters is left as it is by
/// `keep_allowed`.
pub proof fn lemma_keep_allowed_keeps_clean(s: Seq<char>)
    requires
        forall|i: int| 0 <= i < s.len() ==> is_allowed_char(#[trigger] s[i]),
    ensures
        keep_allowed(s) == s,
    decreases s.len(),
{
    if s.len() > 0 {
        lemma_keep_allowed_keeps_clean(s.drop_last());
        assert(s.drop_last().push(s.last()) =~= s);
    }
}

/// Removing the disallowed characters twice removes no more than once.
pub proof fn lemma_keep_allowed_idempotent(s: Seq<char>)
    ensures
        keep_allowed(keep_allowed(s)) == keep_allowed(s),
{
    lemma_keep_allowed_only_allowed(s);
    lemma_keep_allowed_keeps_clean(keep_allowed(s));
}

/// Trimming keeps a prefix of the text and leaves no trailing white space.
pub proof fn lemma_trim_end_prefix(s: Seq<char>)
    ensures
        trim_end_white_space(s).len() <= s.len(),
        forall|i: int| 0 <= i < trim_end_white_space(s).len() ==> #[trigger] trim_end_white_space(s)[i] == s[i],
        trim_end_white_space(s).len() == 0 || !is_white_space(trim_end_white_space(s).last()),
        forall|i: int| trim_end_white_space(s).len() <= i < s.len() ==> is_white_space(#[trigger] s[i]),
    decreases s.len(),
{
    if s.len() > 0 && is_white_space(s.last()) {
        lemma_trim_end_prefix(s.drop_last());
        assert forall|i: int| trim_end_white_space(s).len() <= i < s.len() implies is_white_space(
            #[trigger] s[i],
        ) by {
            if i < s.len() - 1 {
                assert(s[i] == s.drop_last()[i]);
            }
        }
    }
}

/// A text that does not end in white space is left as it is by trimming.
pub proof fn lemma_trim_end_keeps_trimmed(s: Seq<char>)
    requires
        s.len() == 0 || !is_white_space(s.last()),
    ensures
        trim_end_white_space(s) == s,
{
}

/// Where a keyword occurs, a leftmost occurrence exists.
pub proof fn lemma_first_keyword_exists(s: Seq<char>, kw: Seq<char>)
    requires
        has_keyword(s, kw),
    ensures
        is_first_keyword(s, kw, first_keyword_index(s, kw)),
{
    let w = choose|w: int| keyword_at(s, kw, w);
    lemma_first_keyword_below(s, kw, w);
}

proof fn lemma_first_keyword_below(s: Seq<char>, kw: Seq<char>, w: int)
    requires
        keyword_at(s, kw, w),
    ensures
        exists|i: int| is_first_keyword(s, kw, i),
    decreases w,
{
    if exists|j: int| 0 <= j < w && keyword_at(s, kw, j) {
        let j = choose|j: int| 0 <= j < w && keyword_at(s, kw, j);
        lemma_first_keyword_below(s, kw, j);
    } else {
        assert(is_first_keyword(s, kw, w));
    }
}

/// On a text without line feeds the line runs to the end of the text.
pub proof fn lemma_line_end_single_line(s: Seq<char>, from: int)
    requires
        forall|i: int| 0 <= i < s.len() ==> s[i] != '\n',
        0 <= from,
    ensures
        line_end(s, from) == s.len(),
    decreases s.len() - from,
{
    if from < s.len() {
        lemma_line_end_single_line(s, from + 1);
    }
}

/// On a single line, cutting a credit keeps exactly the text before the
/// leftmost occurrence of its keyword, and no occurrence of the keyword is
/// left.
pub proof fn lemma_cut_credit_single_line(s: Seq<char>, kw: Seq<char>)
    requires
        forall|i: int| 0 <= i < s.len() ==> s[i] != '\n',
        kw.len() > 0,
        has_keyword(s, kw),
    ensures
        cut_credit(s, kw) == s.subrange(0, first_keyword_index(s, kw)),
        !has_keyword(cut_credit(s, kw), kw),
{
    lemma_first_keyword_exists(s, kw);
    let i = first_keyword_index(s, kw);
    lemma_line_end_single_line(s, i + kw.len());
    let r = cut_credit(s, kw);
    assert(r =~= s.subrange(0, i));
    assert forall|j: int| !keyword_at(r, kw, j) by {
        if keyword_at(r, kw, j) {
            assert forall|q: int| 0 <= q < kw.len() implies ci_eq(#[trigger] s[j + q], kw[q]) by {
                assert(r[j + q] == s[j + q]);
            }
            assert(keyword_at(s, kw, j));
        }
    }
}

/// Removing the disallowed characters is filtering by `is_allowed_char`:
/// every allowed character is kept, in order, and nothing else.
pub proof fn lemma_keep_allowed_is_filter(s: Seq<char>)
    ensures
        keep_allowed(s) == s.filter(|c: char| is_allowed_char(c)),
    decreases s.len(),
{
    reveal(Seq::filter);
    if s.len() > 0 {
        lemma_keep_allowed_is_filter(s.drop_last());
    }
}

/// Two texts that differ only in the ASCII case of their letters.
pub open spec fn same_ignoring_ascii_case(s: Seq<char>, t: Seq<char>) -> bool {
    &&& s.len() == t.len()
    &&& forall|i: int|
        0 <= i < s.len() ==> {
            ||| #[trigger] s[i] == t[i]
            ||| ('a' <= s[i] && s[i] <= 'z' && (t[i] as int) + 32 == (s[i] as int))
            ||| ('A' <= s[i] && s[i] <= 'Z' && (s[i] as int) + 32 == (t[i] as int))
        }
}

/// A keyword without upper-case ASCII letters.
pub open spec fn is_lower_keyword(kw: Seq<char>) -> bool {
    forall|j: int| 0 <= j < kw.len() ==> !('A' <= #[trigger] kw[j] && kw[j] <= 'Z')
}

/// Finding a keyword ignores ASCII case: texts that differ only in the case
/// of their letters hold the keyword at the same places.
pub proof fn lemma_keyword_ignores_ascii_case(s: Seq<char>, t: Seq<char>, kw: Seq<char>, i: int)
    requires
        same_ignoring_ascii_case(s, t),
        is_lower_keyword(kw),
    ensures
        keyword_at(s, kw, i) == keyword_at(t, kw, i),
{
    if 0 <= i && i + kw.len() <= s.len() {
        assert forall|j: int| 0 <= j < kw.len() implies ci_eq(#[trigger] s[i + j], kw[j]) == ci_eq(
            t[i + j],
            kw[j],
        ) by {
            let a = s[i + j];
            let b = t[i + j];
            assert(a == b || ('a' <= a && a <= 'z' && (b as int) + 32 == (a as int)) || ('A' <= a && a
                <= 'Z' && (a as int) + 32 == (b as int)));
        }
        if keyword_at(s, kw, i) {
            assert forall|j: int| 0 <= j < kw.len() implies ci_eq(#[trigger] t[i + j], kw[j]) by {
                assert(ci_eq(s[i + j], kw[j]));
            }
        }
        if keyword_at(t, kw, i) {
            assert forall|j: int| 0 <= j < kw.len() implies ci_eq(#[trigger] s[i + j], kw[j]) by {
                assert(ci_eq(t[i + j], kw[j]));
            }
        }
    }
}

/// A lower-case keyword occurs at `i` exactly where the text there is the
/// keyword up to the ASCII case of its letters: nothing else matches.
pub proof fn lemma_keyword_is_text_up_to_ascii_case(s: Seq<char>, kw: Seq<char>, i: int)
    requires
        is_lower_keyword(kw),
        0 <= i,
        i + kw.len() <= s.len(),
    ensures
        keyword_at(s, kw, i) == same_ignoring_ascii_case(s.subrange(i, i + kw.len()), kw),
{
    let x = s.subrange(i, i + kw.len());
    if keyword_at(s, kw, i) {
        assert forall|j: int| 0 <= j < x.len() implies {
            ||| #[trigger] x[j] == kw[j]
            ||| ('a' <= x[j] && x[j] <= 'z' && (kw[j] as int) + 32 == (x[j] as int))
            ||| ('A' <= x[j] && x[j] <= 'Z' && (x[j] as int) + 32 == (kw[j] as int))
        } by {
            assert(x[j] == s[i + j]);
            assert(ci_eq(s[i + j], kw[j]));
        }
    }
    if same_ignoring_ascii_case(x, kw) {
        assert forall|j: int| 0 <= j < kw.len() implies ci_eq(#[trigger] s[i + j], kw[j]) by {
            assert(x[j] == s[i + j]);
            assert(!('A' <= kw[j] && kw[j] <= 'Z'));
        }
    }
}

/// A keyword that does not occur in a text does not occur in any prefix of it.
pub proof fn lemma_no_keyword_in_prefix(s: Seq<char>, kw: Seq<char>, m: int)
    requires
        !has_keyword(s, kw),
        0 <= m <= s.len(),
    ensures
        !has_keyword(s.subrange(0, m), kw),
{
    let p = s.subrange(0, m);
    assert forall|j: int| !keyword_at(p, kw, j) by {
        if keyword_at(p, kw, j) {
            assert forall|q: int| 0 <= q < kw.len() implies ci_eq(#[trigger] s[j + q], kw[q]) by {
                assert(p[j + q] == s[j + q]);
            }
            assert(keyword_at(s, kw, j));
        }
    }
}

/// A keyword that does not occur in a text does not occur in any suffix of it.
pub proof fn lemma_no_keyword_in_suffix(s: Seq<char>, kw: Seq<char>, m: int)
    requires
        !has_keyword(s, kw),
        0 <= m <= s.len(),
    ensures
        !has_keyword(s.subrange(m, s.len() as int), kw),
{
    let p = s.subrange(m, s.len() as int);
    assert forall|j: int| !keyword_at(p, kw, j) by {
        if keyword_at(p, kw, j) {
            assert forall|q: int| 0 <= q < kw.len() implies ci_eq(#[trigger] s[m + j + q], kw[q]) by {
                assert(p[j + q] == s[m + j + q]);
            }
            assert(keyword_at(s, kw, m + j));
        }
    }
}

/// A keyword without line feeds that occurs in neither of two lines does not
/// occur in the two lines joined by a line feed.
pub proof fn lemma_no_keyword_across_line_feed(x: Seq<char>, y: Seq<char>, kw: Seq<char>)
    requires
        !has_keyword(x, kw),
        !has_keyword(y, kw),
        forall|j: int| 0 <= j < kw.len() ==> kw[j] != '\n',
    ensures
        !has_keyword(x + seq!['\n'] + y, kw),
{
    let s = x + seq!['\n'] + y;
    assert forall|j: int| !keyword_at(s, kw, j) by {
        if keyword_at(s, kw, j) {
            if j + kw.len() <= x.len() {
                assert forall|q: int| 0 <= q < kw.len() implies ci_eq(#[trigger] x[j + q], kw[q]) by {
                    assert(s[j + q] == x[j + q]);
                }
                assert(keyword_at(x, kw, j));
            } else if j > x.len() {
                let k = j - x.len() - 1;
                assert forall|q: int| 0 <= q < kw.len() implies ci_eq(#[trigger] y[k + q], kw[q]) by {
                    assert(s[j + q] == y[k + q]);
                }
                assert(keyword_at(y, kw, k));
            } else {
                let q = x.len() - j;
                assert(s[j + q] == '\n');
                assert(ci_eq(s[j + q], kw[q]));
            }
        }
    }
}

/// Cutting a credit from a text whose first line holds the keyword keeps the
/// first line up to the keyword, then the line feed and every later line.
pub proof fn lemma_cut_credit_first_line(a: Seq<char>, b: Seq<char>, kw: Seq<char>)
    requires
        forall|i: int| 0 <= i < a.len() ==> a[i] != '\n',
        forall|j: int| 0 <= j < kw.len() ==> kw[j] != '\n',
        kw.len() > 0,
        has_keyword(a, kw),
    ensures
        cut_credit(a + seq!['\n'] + b, kw) == a.subrange(0, first_keyword_index(a, kw)) + seq!['\n'] + b,
{
    let s = a + seq!['\n'] + b;
    lemma_first_keyword_exists(a, kw);
    let i = first_keyword_index(a, kw);
    assert(keyword_at(s, kw, i)) by {
        assert forall|q: int| 0 <= q < kw.len() implies ci_eq(#[trigger] s[i + q], kw[q]) by {
            assert(s[i + q] == a[i + q]);
        }
    }
    assert(has_keyword(s, kw));
    assert forall|j: int| 0 <= j < i implies !keyword_at(s, kw, j) by {
        if keyword_at(s, kw, j) {
            assert forall|q: int| 0 <= q < kw.len() implies ci_eq(#[trigger] a[j + q], kw[q]) by {
                assert(s[j + q] == a[j + q]);
            }
            assert(keyword_at(a, kw, j));
        }
    }
    assert(is_first_keyword(s, kw, i));
    lemma_first_keyword_exists(s, kw);
    let f = first_keyword_index(s, kw);
    if f < i {
        assert(!keyword_at(s, kw, f));
    }
    if f > i {
        assert(!keyword_at(s, kw, i));
    }
    assert(f == i);
    lemma_line_end_to_feed(s, i + kw.len(), a.len() as int);
    assert(cut_credit(s, kw) =~= a.subrange(0, i) + seq!['\n'] + b);
}

/// The line runs up to the first line feed at or after `from`.
proof fn lemma_line_end_to_feed(s: Seq<char>, from: int, feed: int)
    requires
        0 <= from <= feed < s.len(),
        s[feed] == '\n',
        forall|i: int| from <= i < feed ==> s[i] != '\n',
    ensures
        line_end(s, from) == feed,
    decreases feed - from,
{
    if from < feed {
        lemma_line_end_to_feed(s, from + 1, feed);
    }
}

} // verus!
