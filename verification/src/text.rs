//! Character-level text handling used by the command protocol: white space,
//! trimming, splitting into words, decimal numerals, and the two pieces of
//! `std` text machinery (lower-casing and `Debug` quoting) that the protocol
//! relies on.

use vstd::prelude::*;

verus! {

/// Unicode `White_Space`, the property that `char::is_whitespace` tests.
pub open spec fn is_ws(c: char) -> bool {
    let u = c as u32;
    ||| 0x09 <= u <= 0x0d
    ||| u == 0x20
    ||| u == 0x85
    ||| u == 0xa0
    ||| u == 0x1680
    ||| 0x2000 <= u <= 0x200a
    ||| u == 0x2028
    ||| u == 0x2029
    ||| u == 0x202f
    ||| u == 0x205f
    ||| u == 0x3000
}

/// `s` without its leading white space (`str::trim_start`).
pub open spec fn trim_start(s: Seq<char>) -> Seq<char>
    decreases s.len(),
{
    if s.len() > 0 && is_ws(s[0]) {
        trim_start(s.drop_first())
    } else {
        s
    }
}

/// `s` without its trailing white space (`str::trim_end`).
pub open spec fn trim_end(s: Seq<char>) -> Seq<char>
    decreases s.len(),
{
    if s.len() > 0 && is_ws(s.last()) {
        trim_end(s.drop_last())
    } else {
        s
    }
}

/// `s` without leading and trailing white space (`str::trim`).
pub open spec fn trim(s: Seq<char>) -> Seq<char> {
    trim_end(trim_start(s))
}

/// The position of the first `' '` in `s`, if there is one.
pub open spec fn space_index(s: Seq<char>) -> Option<int>
    decreases s.len(),
{
    if s.len() == 0 {
        None
    } else if s[0] == ' ' {
        Some(0)
    } else {
        match space_index(s.drop_first()) {
            Some(i) => Some(i + 1),
            None => None,
        }
    }
}

/// `str::split_once(' ')`: the parts before and after the first space.
pub open spec fn split_space(s: Seq<char>) -> Option<(Seq<char>, Seq<char>)> {
    match space_index(s) {
        Some(i) => Some((s.take(i), s.skip(i + 1))),
        None => None,
    }
}

/// The length of the run of non-white-space characters that starts `s`.
pub open spec fn word_len(s: Seq<char>) -> nat
    decreases s.len(),
{
    if s.len() == 0 || is_ws(s[0]) {
        0
    } else {
        1 + word_len(s.drop_first())
    }
}

/// The words of `s`, in order (`str::split_whitespace`).
pub open spec fn words(s: Seq<char>) -> Seq<Seq<char>>
    decreases s.len(),
{
    if s.len() == 0 {
        Seq::empty()
    } else if is_ws(s[0]) {
        words(s.drop_first())
    } else {
        proof {
            lemma_word_len_bound(s);
        }
        seq![s.take(word_len(s) as int)] + words(s.skip(word_len(s) as int))
    }
}

/// The decimal digit for `d`, which is below ten.
pub open spec fn digit(d: nat) -> char {
    ((d + 48) as u32) as char
}

/// The decimal numeral of `n`, without sign or leading zeros.
pub open spec fn decimal(n: nat) -> Seq<char>
    decreases n,
{
    if n < 10 {
        seq![digit(n)]
    } else {
        decimal(n / 10).push(digit(n % 10))
    }
}

/// What `str::to_lowercase` returns for a string with the characters `s`.
pub uninterp spec fn lowercase_of(s: Seq<char>) -> Seq<char>;

/// What `format!("{:?}", s)` gives for a string with the characters `s`:
/// those characters, escaped as `std` escapes them, between double quotes.
pub uninterp spec fn debug_quoted(s: Seq<char>) -> Seq<char>;

pub proof fn lemma_word_len_bound(s: Seq<char>)
    ensures
        word_len(s) <= s.len(),
        s.len() > 0 && !is_ws(s[0]) ==> word_len(s) >= 1,
    decreases s.len(),
{
    if s.len() > 0 && !is_ws(s[0]) {
        lemma_word_len_bound(s.drop_first());
    }
}

/// Skipping `n` characters, then one more, skips `n + 1`.
pub proof fn lemma_skip_step(s: Seq<char>, n: int)
    requires
        0 <= n < s.len(),
    ensures
        s.skip(n).drop_first() == s.skip(n + 1),
        s.skip(n)[0] == s[n],
        s.skip(n).len() > 0,
{
    assert(s.skip(n).drop_first() =~= s.skip(n + 1));
}

/// Leading white space between `from` and `to` is what `trim_start` and
/// `words` pass over.
proof fn lemma_skip_ws(s: Seq<char>, from: int, to: int)
    requires
        0 <= from <= to <= s.len(),
        forall|k: int| from <= k < to ==> is_ws(#[trigger] s[k]),
    ensures
        trim_start(s.skip(from)) == trim_start(s.skip(to)),
        words(s.skip(from)) == words(s.skip(to)),
    decreases to - from,
{
    if from < to {
        lemma_skip_step(s, from);
        lemma_skip_ws(s, from + 1, to);
    }
}

/// A run of non-white space from `from` to `to` is what `word_len` counts.
pub proof fn lemma_word_run(s: Seq<char>, from: int, to: int)
    requires
        0 <= from <= to <= s.len(),
        forall|k: int| from <= k < to ==> !is_ws(#[trigger] s[k]),
        to < s.len() ==> is_ws(s[to]),
    ensures
        word_len(s.skip(from)) == to - from,
    decreases to - from,
{
    if from < to {
        lemma_skip_step(s, from);
        lemma_word_run(s, from + 1, to);
    } else if to < s.len() {
        lemma_skip_step(s, to);
    }
}

/// Trailing white space from `to` on is what `trim_end` drops.
proof fn lemma_trim_end_run(t: Seq<char>, to: int)
    requires
        0 <= to <= t.len(),
        forall|k: int| to <= k < t.len() ==> is_ws(#[trigger] t[k]),
    ensures
        trim_end(t) == trim_end(t.take(to)),
    decreases t.len() - to,
{
    if to < t.len() {
        assert(t.drop_last() =~= t.take(t.len() - 1));
        let u = t.drop_last();
        assert forall|k: int| to <= k < u.len() implies is_ws(#[trigger] u[k]) by {
            assert(u[k] == t[k]);
        }
        lemma_trim_end_run(u, to);
        assert(u.take(to) =~= t.take(to));
        assert(is_ws(t[t.len() - 1]));
    } else {
        assert(t.take(to) =~= t);
    }
}

/// No space before position `i` means `space_index` looks on from there.
pub proof fn lemma_space_index(s: Seq<char>, i: int)
    requires
        0 <= i <= s.len(),
        forall|k: int| 0 <= k < i ==> #[trigger] s[k] != ' ',
    ensures
        space_index(s) == match space_index(s.skip(i)) {
            Some(j) => Some(j + i),
            None => None::<int>,
        },
    decreases i,
{
    if i > 0 {
        let t = s.drop_first();
        assert forall|k: int| 0 <= k < i - 1 implies #[trigger] t[k] != ' ' by {
            assert(t[k] == s[k + 1]);
        }
        lemma_space_index(t, i - 1);
        assert(t.skip(i - 1) =~= s.skip(i));
    } else {
        assert(s.skip(0) =~= s);
    }
}

/// Whether `c` is Unicode white space (`char::is_whitespace`).
pub fn is_whitespace(c: char) -> (b: bool)
    ensures
        b == is_ws(c),
{
    let u = c as u32;
    (0x09 <= u && u <= 0x0d) || u == 0x20 || u == 0x85 || u == 0xa0 || u == 0x1680 || (0x2000
        <= u && u <= 0x200a) || u == 0x2028 || u == 0x2029 || u == 0x202f || u == 0x205f || u
        == 0x3000
}

/// The characters of `s`, in order.
pub fn chars_of(s: &str) -> (v: Vec<char>)
    ensures
        v@ == s@,
{
    let mut v: Vec<char> = Vec::new();
    for c in it: s.chars()
        invariant
            v@ == it.seq().take(it.index() as int),
            it.seq() == s@,
    {
        v.push(c);
    }
    v
}

/// The string made of the characters of `v`, collected by `std`'s
/// `FromIterator<char>` for `String`, which appends each character in turn.
#[verifier::external_body]
pub fn string_of(v: &[char]) -> (s: String)
    ensures
        s@ == v@,
{
    v.iter().collect()
}

/// `str::to_lowercase`. Its result is a function of the characters of `s`
/// alone; the Unicode case mapping it applies is left unstated here and
/// named `lowercase_of`.
#[verifier::external_body]
pub fn lowercase(s: &str) -> (r: String)
    ensures
        r@ == lowercase_of(s@),
{
    s.to_lowercase()
}

/// `format!("{:?}", s)` for a string: `std`'s `Debug` quoting. Its result is
/// a function of the characters of `s` alone; the escaping rules are left
/// unstated here and named `debug_quoted`.
#[verifier::external_body]
pub fn debug_quote(s: &str) -> (r: String)
    ensures
        r@ == debug_quoted(s@),
{
    format!("{:?}", s)
}

/// The characters of `s` from `lo` up to `hi`.
pub fn copy_range(s: &[char], lo: usize, hi: usize) -> (v: Vec<char>)
    requires
        lo <= hi <= s@.len(),
    ensures
        v@ == s@.subrange(lo as int, hi as int),
{
    let mut v: Vec<char> = Vec::new();
    let mut i = lo;
    while i < hi
        invariant
            lo <= i <= hi <= s@.len(),
            v@ == s@.subrange(lo as int, i as int),
        decreases hi - i,
    {
        v.push(s[i]);
        assert(v@ =~= s@.subrange(lo as int, i + 1));
        i = i + 1;
    }
    v
}

/// Whether `a` and `b` hold the same characters.
pub fn same_chars(a: &[char], b: &[char]) -> (r: bool)
    ensures
        r == (a@ == b@),
{
    if a.len() != b.len() {
        return false;
    }
    let mut i: usize = 0;
    while i < a.len()
        invariant
            a@.len() == b@.len(),
            i <= a@.len(),
            forall|k: int| 0 <= k < i ==> a@[k] == b@[k],
        decreases a@.len() - i,
    {
        if a[i] != b[i] {
            return false;
        }
        i = i + 1;
    }
    assert(a@ =~= b@);
    true
}

/// The first position at or after `from` that is not white space, or the
/// length of `s` if there is none.
fn skip_ws(s: &[char], from: usize) -> (r: usize)
    requires
        from <= s@.len(),
    ensures
        from <= r <= s@.len(),
        forall|k: int| from <= k < r ==> is_ws(#[trigger] s@[k]),
        r < s@.len() ==> !is_ws(s@[r as int]),
{
    let mut i = from;
    while i < s.len() && is_whitespace(s[i])
        invariant
            from <= i <= s@.len(),
            forall|k: int| from <= k < i ==> is_ws(#[trigger] s@[k]),
        decreases s@.len() - i,
    {
        i = i + 1;
    }
    i
}

/// The first position at or after `from` that is white space, or the
/// length of `s` if there is none.
fn skip_word(s: &[char], from: usize) -> (r: usize)
    requires
        from <= s@.len(),
    ensures
        from <= r <= s@.len(),
        forall|k: int| from <= k < r ==> !is_ws(#[trigger] s@[k]),
        r < s@.len() ==> is_ws(s@[r as int]),
{
    let mut i = from;
    while i < s.len() && !is_whitespace(s[i])
        invariant
            from <= i <= s@.len(),
            forall|k: int| from <= k < i ==> !is_ws(#[trigger] s@[k]),
        decreases s@.len() - i,
    {
        i = i + 1;
    }
    i
}

/// `s` without its leading white space.
pub fn trimmed_start(s: &[char]) -> (v: Vec<char>)
    ensures
        v@ == trim_start(s@),
{
    let lo = skip_ws(s, 0);
    proof {
        lemma_skip_ws(s@, 0, lo as int);
        assert(s@.skip(0) =~= s@);
    }
    copy_range(s, lo, s.len())
}

/// `s` without leading and trailing white space.
pub fn trimmed(s: &[char]) -> (v: Vec<char>)
    ensures
        v@ == trim(s@),
{
    let lo = skip_ws(s, 0);
    proof {
        lemma_skip_ws(s@, 0, lo as int);
        assert(s@.skip(0) =~= s@);
    }
    let mut hi = s.len();
    while hi > lo && is_whitespace(s[hi - 1])
        invariant
            lo <= hi <= s@.len(),
            forall|k: int| hi <= k < s@.len() ==> is_ws(#[trigger] s@[k]),
        decreases hi,
    {
        hi = hi - 1;
    }
    proof {
        let t = s@.skip(lo as int);
        assert forall|k: int| hi - lo <= k < t.len() implies is_ws(#[trigger] t[k]) by {
            assert(t[k] == s@[k + lo]);
        }
        lemma_trim_end_run(t, hi - lo);
        let u = t.take(hi - lo);
        assert(u =~= s@.subrange(lo as int, hi as int));
        if u.len() > 0 {
            assert(u.last() == s@[hi - 1]);
        }
    }
    copy_range(s, lo, hi)
}

/// `str::split_once(' ')` on the characters of `s`.
pub fn split_once_space(s: &[char]) -> (r: Option<(Vec<char>, Vec<char>)>)
    ensures
        match r {
            Some((a, b)) => split_space(s@) == Some((a@, b@)),
            None => split_space(s@) is None,
        },
{
    let mut i: usize = 0;
    while i < s.len() && s[i] != ' '
        invariant
            i <= s@.len(),
            forall|k: int| 0 <= k < i ==> #[trigger] s@[k] != ' ',
        decreases s@.len() - i,
    {
        i = i + 1;
    }
    proof {
        lemma_space_index(s@, i as int);
        if i < s@.len() {
            lemma_skip_step(s@, i as int);
        }
    }
    if i < s.len() {
        let a = copy_range(s, 0, i);
        let b = copy_range(s, i + 1, s.len());
        assert(a@ =~= s@.take(i as int));
        assert(b@ =~= s@.skip(i + 1));
        Some((a, b))
    } else {
        None
    }
}

/// The first word of `s`, if any, and whether a second word follows it
/// (the first two results of `str::split_whitespace`).
pub fn first_words(s: &[char]) -> (r: (Option<Vec<char>>, bool))
    ensures
        match r.0 {
            Some(w) => words(s@).len() >= 1 && w@ == words(s@)[0],
            None => words(s@).len() == 0,
        },
        r.1 == (words(s@).len() >= 2),
{
    let i = skip_ws(s, 0);
    proof {
        lemma_skip_ws(s@, 0, i as int);
        assert(s@.skip(0) =~= s@);
    }
    if i == s.len() {
        assert(s@.skip(i as int) =~= Seq::<char>::empty());
        return (None, false);
    }
    let j = skip_word(s, i);
    let k = skip_ws(s, j);
    proof {
        lemma_word_run(s@, i as int, j as int);
        lemma_skip_step(s@, i as int);
        let t = s@.skip(i as int);
        assert(t.skip(j - i) =~= s@.skip(j as int));
        assert(t.take(j - i) =~= s@.subrange(i as int, j as int));
        lemma_skip_ws(s@, j as int, k as int);
        if k < s@.len() {
            lemma_skip_step(s@, k as int);
            lemma_word_len_bound(s@.skip(k as int));
        } else {
            assert(s@.skip(k as int) =~= Seq::<char>::empty());
        }
    }
    let w = copy_range(s, i, j);
    (Some(w), k < s.len())
}

/// One decimal digit.
fn digit_char(d: u64) -> (c: char)
    requires
        d < 10,
    ensures
        c == digit(d as nat),
{
    if d == 0 {
        '0'
    } else if d == 1 {
        '1'
    } else if d == 2 {
        '2'
    } else if d == 3 {
        '3'
    } else if d == 4 {
        '4'
    } else if d == 5 {
        '5'
    } else if d == 6 {
        '6'
    } else if d == 7 {
        '7'
    } else if d == 8 {
        '8'
    } else {
        '9'
    }
}

/// The decimal numeral of `n`.
pub fn decimal_chars(n: u64) -> (v: Vec<char>)
    ensures
        v@ == decimal(n as nat),
    decreases n,
{
    if n < 10 {
        let mut v: Vec<char> = Vec::new();
        v.push(digit_char(n));
        assert(v@ =~= seq![digit(n as nat)]);
        v
    } else {
        let mut v = decimal_chars(n / 10);
        v.push(digit_char(n % 10));
        v
    }
}

} // verus!
