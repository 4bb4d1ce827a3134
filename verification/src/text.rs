//! Character-level text utilities: white space, trimming, words, lines and
//! substring search, each with a mathematical definition over sequences of
//! characters and an executable counterpart proved against it.

use vstd::prelude::*;
use vstd::slice::slice_subrange;

verus! {

/// Whether `c` carries the Unicode property `White_Space`.
pub open spec fn is_space(c: char) -> bool {
    let n = c as u32;
    ||| 0x09 <= n <= 0x0D
    ||| n == 0x20
    ||| n == 0x85
    ||| n == 0xA0
    ||| n == 0x1680
    ||| 0x2000 <= n <= 0x200A
    ||| n == 0x2028
    ||| n == 0x2029
    ||| n == 0x202F
    ||| n == 0x205F
    ||| n == 0x3000
}

/// The length of the longest prefix of `s` all of whose characters satisfy `p`.
pub open spec fn run_len(s: Seq<char>, p: spec_fn(char) -> bool) -> nat
    decreases s.len(),
{
    if s.len() > 0 && p(s[0]) {
        1 + run_len(s.drop_first(), p)
    } else {
        0
    }
}

/// The index of the first `c` in `s`, or the length of `s` if there is none.
pub open spec fn index_of(s: Seq<char>, c: char) -> nat
    decreases s.len(),
{
    if s.len() > 0 && s[0] != c {
        1 + index_of(s.drop_first(), c)
    } else {
        0
    }
}

/// The number of white-space characters that `s` starts with.
pub open spec fn space_len(s: Seq<char>) -> nat {
    run_len(s, |x: char| is_space(x))
}

/// The number of characters other than white space that `s` starts with.
pub open spec fn word_len(s: Seq<char>) -> nat {
    run_len(s, |x: char| !is_space(x))
}

/// `s` without its leading white space.
pub open spec fn trim_start(s: Seq<char>) -> Seq<char> {
    s.skip(space_len(s) as int)
}

/// `s` without its trailing white space.
pub open spec fn trim_end(s: Seq<char>) -> Seq<char>
    decreases s.len(),
{
    if s.len() > 0 && is_space(s.last()) {
        trim_end(s.drop_last())
    } else {
        s
    }
}

/// `s` without its leading and trailing white space.
pub open spec fn trim(s: Seq<char>) -> Seq<char> {
    trim_end(trim_start(s))
}

/// Whether `s` holds nothing but white space.
pub open spec fn all_space(s: Seq<char>) -> bool {
    forall|i: int| 0 <= i < s.len() ==> is_space(#[trigger] s[i])
}

/// Whether `s` is a word: not empty, and without white space.
pub open spec fn is_word(s: Seq<char>) -> bool {
    s.len() > 0 && forall|i: int| 0 <= i < s.len() ==> !is_space(#[trigger] s[i])
}

/// Whether `s` neither starts nor ends with white space.
pub open spec fn is_tight(s: Seq<char>) -> bool {
    s.len() > 0 ==> !is_space(s[0]) && !is_space(s.last())
}

/// Whether `pat` stands in `s` at index `i`.
pub open spec fn occurs_at(s: Seq<char>, pat: Seq<char>, i: int) -> bool {
    0 <= i && i + pat.len() <= s.len() && s.subrange(i, i + pat.len()) == pat
}

/// Whether `pat` stands somewhere in `s`.
pub open spec fn contains(s: Seq<char>, pat: Seq<char>) -> bool {
    exists|i: int| occurs_at(s, pat, i)
}

/// Whether `s` ends with `pat`.
pub open spec fn ends_with(s: Seq<char>, pat: Seq<char>) -> bool {
    pat.len() <= s.len() && s.skip(s.len() - pat.len()) == pat
}

/// The words of `s`: its maximal runs of characters other than white space,
/// in order.
pub open spec fn words(s: Seq<char>) -> Seq<Seq<char>>
    decreases s.len(),
{
    let t = trim_start(s);
    if t.len() == 0 {
        Seq::empty()
    } else {
        let n = word_len(t) as int;
        proof {
            lemma_run_len_bounds(s, |x: char| is_space(x));
            lemma_run_len_bounds(t, |x: char| !is_space(x));
        }
        seq![t.take(n)] + words(t.skip(n))
    }
}

/// `s` without a carriage return at its end.
pub open spec fn strip_cr(s: Seq<char>) -> Seq<char> {
    if s.len() > 0 && s.last() == '\r' {
        s.drop_last()
    } else {
        s
    }
}

/// The lines of `s`. A line ends at a line feed, or at the end of `s`; the
/// line feed, and a carriage return just before it, are not part of the line.
/// Nothing follows the last line feed if `s` ends with it.
pub open spec fn lines(s: Seq<char>) -> Seq<Seq<char>>
    decreases s.len(),
{
    if s.len() == 0 {
        Seq::empty()
    } else {
        let n = index_of(s, '\n') as int;
        if n >= s.len() {
            seq![s]
        } else {
            seq![strip_cr(s.take(n))] + lines(s.skip(n + 1))
        }
    }
}

/// The text of a string that may be missing.
pub open spec fn option_text(text: Option<String>) -> Option<Seq<char>> {
    match text {
        Some(s) => Some(s@),
        None => None,
    }
}

/// The character sequences of the strings in `v`.
pub open spec fn texts(v: Seq<&str>) -> Seq<Seq<char>> {
    Seq::new(v.len(), |i: int| v[i]@)
}

/// A run is no longer than the sequence, holds only characters that satisfy
/// the predicate and stops at one that does not.
pub proof fn lemma_run_len_bounds(s: Seq<char>, p: spec_fn(char) -> bool)
    ensures
        run_len(s, p) <= s.len(),
        forall|i: int| 0 <= i < run_len(s, p) ==> p(#[trigger] s[i]),
        run_len(s, p) < s.len() ==> !p(s[run_len(s, p) as int]),
    decreases s.len(),
{
    if s.len() > 0 && p(s[0]) {
        let t = s.drop_first();
        lemma_run_len_bounds(t, p);
        assert forall|i: int| 0 <= i < run_len(s, p) implies p(#[trigger] s[i]) by {
            if i > 0 {
                assert(s[i] == t[i - 1]);
            }
        }
        if run_len(s, p) < s.len() {
            assert(s[run_len(s, p) as int] == t[run_len(t, p) as int]);
        }
    }
}

/// A prefix whose characters all satisfy the predicate, and that ends the
/// sequence or is followed by a character that does not, is the run.
pub proof fn lemma_run_len_is(s: Seq<char>, p: spec_fn(char) -> bool, n: int)
    requires
        0 <= n <= s.len(),
        forall|i: int| 0 <= i < n ==> p(#[trigger] s[i]),
        n < s.len() ==> !p(s[n]),
    ensures
        run_len(s, p) == n,
    decreases n,
{
    if n > 0 {
        let t = s.drop_first();
        assert forall|i: int| 0 <= i < n - 1 implies p(#[trigger] t[i]) by {
            assert(t[i] == s[i + 1]);
        }
        if n < s.len() {
            assert(t[n - 1] == s[n]);
        }
        lemma_run_len_is(t, p, n - 1);
    }
}

/// An index before which no `c` stands, and which ends the sequence or holds
/// a `c`, is the index of the first `c`.
pub proof fn lemma_index_of_is(s: Seq<char>, c: char, n: int)
    requires
        0 <= n <= s.len(),
        forall|i: int| 0 <= i < n ==> #[trigger] s[i] != c,
        n < s.len() ==> s[n] == c,
    ensures
        index_of(s, c) == n,
    decreases n,
{
    if n > 0 {
        let t = s.drop_first();
        assert forall|i: int| 0 <= i < n - 1 implies #[trigger] t[i] != c by {
            assert(t[i] == s[i + 1]);
        }
        if n < s.len() {
            assert(t[n - 1] == s[n]);
        }
        lemma_index_of_is(t, c, n - 1);
    }
}

/// The index of the first `c` lies within the sequence or at its end, no `c`
/// stands before it, and one stands at it unless it is the end.
pub proof fn lemma_index_of_bounds(s: Seq<char>, c: char)
    ensures
        index_of(s, c) <= s.len(),
        forall|i: int| 0 <= i < index_of(s, c) ==> #[trigger] s[i] != c,
        index_of(s, c) < s.len() ==> s[index_of(s, c) as int] == c,
    decreases s.len(),
{
    if s.len() > 0 && s[0] != c {
        let t = s.drop_first();
        lemma_index_of_bounds(t, c);
        assert forall|i: int| 0 <= i < index_of(s, c) implies #[trigger] s[i] != c by {
            if i > 0 {
                assert(s[i] == t[i - 1]);
            }
        }
        if index_of(s, c) < s.len() {
            assert(s[index_of(s, c) as int] == t[index_of(t, c) as int]);
        }
    }
}

/// A prefix that ends the sequence or is followed by a character other than
/// white space, with only white space after it, is the sequence trimmed at
/// its end.
pub proof fn lemma_trim_end_is(s: Seq<char>, n: int)
    requires
        0 <= n <= s.len(),
        forall|i: int| n <= i < s.len() ==> is_space(#[trigger] s[i]),
        n > 0 ==> !is_space(s[n - 1]),
    ensures
        trim_end(s) == s.take(n),
    decreases s.len(),
{
    if n < s.len() {
        let t = s.drop_last();
        assert(is_space(s[s.len() - 1]));
        assert forall|i: int| n <= i < t.len() implies is_space(#[trigger] t[i]) by {
            assert(t[i] == s[i]);
        }
        lemma_trim_end_is(t, n);
        assert(t.take(n) =~= s.take(n));
    } else {
        assert(s.take(n) =~= s);
    }
}

/// A prefix of white space that ends the sequence or is followed by a
/// character other than white space is what trimming at the start removes.
pub proof fn lemma_trim_start_is(s: Seq<char>, n: int)
    requires
        0 <= n <= s.len(),
        forall|i: int| 0 <= i < n ==> is_space(#[trigger] s[i]),
        n < s.len() ==> !is_space(s[n]),
    ensures
        trim_start(s) == s.skip(n),
{
    lemma_run_len_is(s, |x: char| is_space(x), n);
}

/// Trimming at the end leaves a prefix that is empty or ends with a
/// character other than white space.
pub proof fn lemma_trim_end_prefix(s: Seq<char>)
    ensures
        trim_end(s).len() <= s.len(),
        trim_end(s) == s.take(trim_end(s).len() as int),
        trim_end(s).len() > 0 ==> !is_space(trim_end(s).last()),
    decreases s.len(),
{
    if s.len() > 0 && is_space(s.last()) {
        let t = s.drop_last();
        lemma_trim_end_prefix(t);
        assert(t.take(trim_end(t).len() as int) =~= s.take(trim_end(t).len() as int));
    } else {
        assert(s.take(s.len() as int) =~= s);
    }
}

/// What trimming leaves neither starts nor ends with white space.
pub proof fn lemma_trim_is_tight(s: Seq<char>)
    ensures
        is_tight(trim(s)),
{
    let t = trim_start(s);
    lemma_run_len_bounds(s, |x: char| is_space(x));
    lemma_trim_end_prefix(t);
    if trim(s).len() > 0 {
        assert(trim(s)[0] == t[0]);
        assert(t[0] == s[space_len(s) as int]);
    }
}

/// Trimming removes the white space around a sequence that neither starts
/// nor ends with white space, and nothing else.
pub proof fn lemma_trim_padded(before: Seq<char>, s: Seq<char>, after: Seq<char>)
    requires
        all_space(before),
        all_space(after),
        is_tight(s),
    ensures
        trim(before + s + after) == s,
{
    let whole = before + s + after;
    let n = before.len() as int;
    if s.len() == 0 {
        lemma_trim_start_is(whole, whole.len() as int);
        assert(whole.skip(whole.len() as int) =~= Seq::<char>::empty());
        assert(trim(whole) =~= s);
    } else {
        assert(whole[n] == s[0]);
        lemma_trim_start_is(whole, n);
        let rest = whole.skip(n);
        assert(rest =~= s + after);
        assert(rest[s.len() - 1] == s.last());
        lemma_trim_end_is(rest, s.len() as int);
        assert(rest.take(s.len() as int) =~= s);
    }
}

/// A text that is not empty and holds no line feed is one line.
pub proof fn lemma_single_line(s: Seq<char>)
    requires
        s.len() > 0,
        forall|i: int| 0 <= i < s.len() ==> #[trigger] s[i] != '\n',
    ensures
        lines(s) == seq![s],
{
    lemma_index_of_is(s, '\n', s.len() as int);
}

/// A word, followed by nothing or by white space, is the first of the
/// words.
pub proof fn lemma_words_first(word: Seq<char>, rest: Seq<char>)
    requires
        is_word(word),
        rest.len() > 0 ==> is_space(rest[0]),
    ensures
        words(word + rest) == seq![word] + words(rest),
{
    let s = word + rest;
    let n = word.len() as int;
    assert(s[0] == word[0]);
    lemma_trim_start_is(s, 0);
    assert(s.skip(0) =~= s);
    assert forall|i: int| 0 <= i < n implies !is_space(#[trigger] s[i]) by {
        assert(s[i] == word[i]);
    }
    if n < s.len() {
        assert(s[n] == rest[0]);
    }
    lemma_run_len_is(s, |x: char| !is_space(x), n);
    assert(s.take(n) =~= word);
    assert(s.skip(n) =~= rest);
}

/// White space before the words does not count.
pub proof fn lemma_words_after_space(space: Seq<char>, rest: Seq<char>)
    requires
        all_space(space),
    ensures
        words(space + rest) == words(rest),
{
    let s = space + rest;
    let n = space.len() as int;
    let k = space_len(rest) as int;
    lemma_run_len_bounds(rest, |x: char| is_space(x));
    assert forall|i: int| 0 <= i < n + k implies is_space(#[trigger] s[i]) by {
        if i < n {
            assert(s[i] == space[i]);
        } else {
            assert(s[i] == rest[i - n]);
        }
    }
    if n + k < s.len() {
        assert(s[n + k] == rest[k]);
    }
    lemma_trim_start_is(s, n + k);
    assert(s.skip(n + k) =~= rest.skip(k));
}

/// Decides `is_space`.
pub fn is_space_char(c: char) -> (b: bool)
    ensures
        b == is_space(c),
{
    let n: u32 = c as u32;
    (0x09 <= n && n <= 0x0D) || n == 0x20 || n == 0x85 || n == 0xA0 || n == 0x1680 || (0x2000 <= n
        && n <= 0x200A) || n == 0x2028 || n == 0x2029 || n == 0x202F || n == 0x205F || n == 0x3000
}

/// The characters of `s`, in order.
pub fn chars_of(s: &str) -> (v: Vec<char>)
    ensures
        v@ == s@,
{
    let mut v: Vec<char> = Vec::new();
    for c in it: s.chars()
        invariant
            it.seq() == s@,
            v@ =~= s@.take(it.index() as int),
    {
        v.push(c);
    }
    assert(s@.take(s@.len() as int) =~= s@);
    v
}

/// Whether two slices hold the same characters.
pub fn same_chars(a: &[char], b: &[char]) -> (r: bool)
    ensures
        r == (a@ == b@),
{
    if a.len() != b.len() {
        return false;
    }
    let mut i: usize = 0;
    while i < a.len()
        invariant
            a@.len() == b@.len(),
            i <= a@.len(),
            forall|j: int| 0 <= j < i ==> a@[j] == b@[j],
        decreases a@.len() - i,
    {
        if a[i] != b[i] {
            return false;
        }
        i += 1;
    }
    assert(a@ =~= b@);
    true
}

/// Whether two strings hold the same characters.
pub fn same_text(a: &str, b: &str) -> (r: bool)
    ensures
        r == (a@ == b@),
{
    let x = chars_of(a);
    let y = chars_of(b);
    same_chars(x.as_slice(), y.as_slice())
}

/// The index of the first `c` in `chars`, or their number if there is none.
pub fn position(chars: &[char], c: char) -> (r: usize)
    ensures
        r == index_of(chars@, c),
        r <= chars@.len(),
{
    let mut i: usize = 0;
    while i < chars.len() && chars[i] != c
        invariant
            i <= chars@.len(),
            forall|j: int| 0 <= j < i ==> chars@[j] != c,
        decreases chars@.len() - i,
    {
        i += 1;
    }
    proof {
        lemma_index_of_is(chars@, c, i as int);
    }
    i
}

/// The number of white-space characters that `chars` starts with.
pub fn leading_spaces(chars: &[char]) -> (r: usize)
    ensures
        r == space_len(chars@),
        r <= chars@.len(),
{
    let mut i: usize = 0;
    while i < chars.len() && is_space_char(chars[i])
        invariant
            i <= chars@.len(),
            forall|j: int| 0 <= j < i ==> is_space(chars@[j]),
        decreases chars@.len() - i,
    {
        i += 1;
    }
    proof {
        lemma_run_len_is(chars@, |x: char| is_space(x), i as int);
    }
    i
}

/// The number of characters other than white space that `chars` starts with.
pub fn leading_word(chars: &[char]) -> (r: usize)
    ensures
        r == word_len(chars@),
        r <= chars@.len(),
{
    let mut i: usize = 0;
    while i < chars.len() && !is_space_char(chars[i])
        invariant
            i <= chars@.len(),
            forall|j: int| 0 <= j < i ==> !is_space(chars@[j]),
        decreases chars@.len() - i,
    {
        i += 1;
    }
    proof {
        lemma_run_len_is(chars@, |x: char| !is_space(x), i as int);
    }
    i
}

/// The length of `chars` without their trailing white space.
pub fn trimmed_len(chars: &[char]) -> (r: usize)
    ensures
        r <= chars@.len(),
        chars@.take(r as int) == trim_end(chars@),
{
    let mut i: usize = chars.len();
    while i > 0 && is_space_char(chars[i - 1])
        invariant
            i <= chars@.len(),
            forall|j: int| i <= j < chars@.len() ==> is_space(chars@[j]),
        decreases i,
    {
        i -= 1;
    }
    proof {
        lemma_trim_end_is(chars@, i as int);
    }
    i
}

/// Whether `pat` stands somewhere in `chars`.
pub fn has_text(chars: &[char], pat: &[char]) -> (r: bool)
    ensures
        r == contains(chars@, pat@),
{
    let n = chars.len();
    let m = pat.len();
    if m > n {
        return false;
    }
    let last = n - m;
    let mut i: usize = 0;
    while i < last
        invariant
            n == chars@.len(),
            m == pat@.len(),
            last == n - m,
            i <= last,
            forall|j: int| 0 <= j < i ==> !occurs_at(chars@, pat@, j),
        decreases last - i,
    {
        if same_chars(slice_subrange(chars, i, i + m), pat) {
            assert(occurs_at(chars@, pat@, i as int));
            return true;
        }
        i += 1;
    }
    let found = same_chars(slice_subrange(chars, last, n), pat);
    assert(found == occurs_at(chars@, pat@, last as int));
    found
}

/// Whether `chars` end with `pat`.
pub fn has_suffix(chars: &[char], pat: &[char]) -> (r: bool)
    ensures
        r == ends_with(chars@, pat@),
{
    let n = chars.len();
    let m = pat.len();
    if m > n {
        return false;
    }
    let tail = slice_subrange(chars, n - m, n);
    assert(chars@.subrange(n - m, n as int) =~= chars@.skip(n - m));
    same_chars(tail, pat)
}

/// Whether `pat` stands somewhere in `s`.
pub fn str_contains(s: &str, pat: &str) -> (r: bool)
    ensures
        r == contains(s@, pat@),
{
    let chars = chars_of(s);
    let wanted = chars_of(pat);
    has_text(chars.as_slice(), wanted.as_slice())
}

/// Whether `s` ends with `pat`.
pub fn str_ends_with(s: &str, pat: &str) -> (r: bool)
    ensures
        r == ends_with(s@, pat@),
{
    let chars = chars_of(s);
    let wanted = chars_of(pat);
    has_suffix(chars.as_slice(), wanted.as_slice())
}

/// `s` without its leading and trailing white space.
pub fn trim_str<'a>(s: &'a str) -> (r: &'a str)
    ensures
        r@ == trim(s@),
{
    let chars = chars_of(s);
    let n = chars.len();
    let a = leading_spaces(chars.as_slice());
    let rest = slice_subrange(chars.as_slice(), a, n);
    assert(rest@ =~= trim_start(s@));
    let len = trimmed_len(rest);
    assert(s@.subrange(a as int, a + len) =~= rest@.take(len as int));
    s.substring_char(a, a + len)
}

/// The words of `s`, in order.
pub fn split_words<'a>(s: &'a str) -> (out: Vec<&'a str>)
    ensures
        texts(out@) == words(s@),
{
    let chars = chars_of(s);
    let n = chars.len();
    let mut out: Vec<&'a str> = Vec::new();
    let mut pos: usize = 0;
    assert(s@.skip(0) =~= s@);
    assert(texts(out@) =~= Seq::<Seq<char>>::empty());
    while pos < n
        invariant
            chars@ == s@,
            n == s@.len(),
            pos <= n,
            words(s@) == texts(out@) + words(s@.skip(pos as int)),
        decreases n - pos,
    {
        let ghost rest = s@.skip(pos as int);
        let ghost before = texts(out@);
        let tail = slice_subrange(chars.as_slice(), pos, n);
        assert(tail@ =~= rest);
        let a = pos + leading_spaces(tail);
        let ghost t = trim_start(rest);
        assert(t =~= s@.skip(a as int));
        if a == n {
            pos = n;
            assert(s@.skip(n as int) =~= Seq::<char>::empty());
        } else {
            let word_tail = slice_subrange(chars.as_slice(), a, n);
            assert(word_tail@ =~= t);
            let w = leading_word(word_tail);
            proof {
                lemma_run_len_bounds(rest, |x: char| is_space(x));
                assert(!is_space(t[0]));
                assert(t.take(w as int) =~= s@.subrange(a as int, a + w));
                assert(t.skip(w as int) =~= s@.skip(a + w));
            }
            let word = s.substring_char(a, a + w);
            out.push(word);
            pos = a + w;
            assert(texts(out@) =~= before + seq![word@]);
            assert(words(s@) =~= texts(out@) + words(s@.skip(pos as int)));
        }
    }
    assert(words(s@.skip(n as int)) =~= Seq::<Seq<char>>::empty());
    assert(words(s@) =~= texts(out@));
    out
}

/// The lines of `s`, in order.
pub fn split_lines<'a>(s: &'a str) -> (out: Vec<&'a str>)
    ensures
        texts(out@) == lines(s@),
{
    let chars = chars_of(s);
    let n = chars.len();
    let mut out: Vec<&'a str> = Vec::new();
    let mut pos: usize = 0;
    assert(s@.skip(0) =~= s@);
    assert(texts(out@) =~= Seq::<Seq<char>>::empty());
    while pos < n
        invariant
            chars@ == s@,
            n == s@.len(),
            pos <= n,
            lines(s@) == texts(out@) + lines(s@.skip(pos as int)),
        decreases n - pos,
    {
        let ghost rest = s@.skip(pos as int);
        let ghost before = texts(out@);
        let tail = slice_subrange(chars.as_slice(), pos, n);
        assert(tail@ =~= rest);
        let end = pos + position(tail, '\n');
        assert(rest.take(end - pos) =~= s@.subrange(pos as int, end as int));
        if end == n {
            let line = s.substring_char(pos, n);
            assert(line@ =~= rest);
            out.push(line);
            pos = n;
            assert(texts(out@) =~= before + seq![rest]);
            assert(lines(s@.skip(n as int)) =~= Seq::<Seq<char>>::empty());
        } else {
            let stop = if end > pos && chars[end - 1] == '\r' {
                end - 1
            } else {
                end
            };
            let line = s.substring_char(pos, stop);
            assert(line@ =~= strip_cr(rest.take(end - pos)));
            out.push(line);
            assert(rest.skip(end - pos + 1) =~= s@.skip(end + 1));
            pos = end + 1;
            assert(texts(out@) =~= before + seq![line@]);
            assert(lines(s@) =~= texts(out@) + lines(s@.skip(pos as int)));
        }
    }
    assert(lines(s@.skip(n as int)) =~= Seq::<Seq<char>>::empty());
    assert(lines(s@) =~= texts(out@));
    out
}

} // verus!
