//! Character-level helpers shared by the message grammar and the handlers.
//!
//! Text is modelled as `Seq<char>`, the view of `str` and `String`.

use vstd::prelude::*;
use vstd::string::StringExecFns;

verus! {

/// The characters that separate tokens in a protocol line: space, tab,
/// line feed, form feed and carriage return.
pub open spec fn is_ascii_space(c: char) -> bool {
    c == ' ' || c == '\t' || c == '\n' || c == '\x0C' || c == '\r'
}

/// Executable form of [`is_ascii_space`].
pub fn ascii_space(c: char) -> (r: bool)
    ensures
        r == is_ascii_space(c),
{
    c == ' ' || c == '\t' || c == '\n' || c == '\x0C' || c == '\r'
}

/// The characters of `s`, in order.
pub fn chars_of(s: &str) -> (v: Vec<char>)
    ensures
        v@ == s@,
{
    let mut v: Vec<char> = Vec::new();
    for c in it: s.chars()
        invariant
            it.seq() == s@,
            v@ == s@.take(it.index() as int),
    {
        v.push(c);
        assert(s@.take(it.index() + 1) =~= s@.take(it.index() as int).push(c));
    }
    assert(s@.take(s@.len() as int) =~= s@);
    v
}

/// Which characters count as white space when a text is cut into words.
#[derive(Clone, Copy, Debug, PartialEq, Eq)]
pub enum Spacing {
    /// The five ASCII separators of [`is_ascii_space`].
    Ascii,
    /// Every character with the Unicode `White_Space` property.
    Unicode,
}

/// Whether `c` has the Unicode `White_Space` property, as std's
/// `char::is_whitespace` decides it.
pub uninterp spec fn unicode_space(c: char) -> bool;

/// `char::is_whitespace` is a function of the character alone; its table is
/// not restated here, the result is only given the name [`unicode_space`].
pub assume_specification[ char::is_whitespace ](c: char) -> (r: bool)
    ensures
        r == unicode_space(c),
;

/// Whether `c` separates words under `mode`.
pub open spec fn is_sep(mode: Spacing, c: char) -> bool {
    match mode {
        Spacing::Ascii => is_ascii_space(c),
        Spacing::Unicode => unicode_space(c),
    }
}

/// Executable form of [`is_sep`].
pub fn sep(mode: Spacing, c: char) -> (r: bool)
    ensures
        r == is_sep(mode, c),
{
    match mode {
        Spacing::Ascii => ascii_space(c),
        Spacing::Unicode => c.is_whitespace(),
    }
}

/// The first position at or after `i` that holds no separator, or the
/// length of `s` if there is none.
pub open spec fn word_start(s: Seq<char>, mode: Spacing, i: int) -> int
    decreases s.len() - i,
{
    if i < 0 || i >= s.len() {
        s.len() as int
    } else if !is_sep(mode, s[i]) {
        i
    } else {
        word_start(s, mode, i + 1)
    }
}

/// The first position at or after `i` that holds a separator, or the length
/// of `s` if there is none.
pub open spec fn word_end(s: Seq<char>, mode: Spacing, i: int) -> int
    decreases s.len() - i,
{
    if i < 0 || i >= s.len() {
        s.len() as int
    } else if is_sep(mode, s[i]) {
        i
    } else {
        word_end(s, mode, i + 1)
    }
}

pub proof fn lemma_word_start(s: Seq<char>, mode: Spacing, i: int)
    requires
        0 <= i <= s.len(),
    ensures
        i <= word_start(s, mode, i) <= s.len(),
        forall|j: int| i <= j < word_start(s, mode, i) ==> is_sep(mode, #[trigger] s[j]),
        word_start(s, mode, i) < s.len() ==> !is_sep(mode, s[word_start(s, mode, i)]),
    decreases s.len() - i,
{
    if i < s.len() && is_sep(mode, s[i]) {
        lemma_word_start(s, mode, i + 1);
    }
}

pub proof fn lemma_word_end(s: Seq<char>, mode: Spacing, i: int)
    requires
        0 <= i <= s.len(),
    ensures
        i <= word_end(s, mode, i) <= s.len(),
        forall|j: int| i <= j < word_end(s, mode, i) ==> !is_sep(mode, #[trigger] s[j]),
        word_end(s, mode, i) < s.len() ==> is_sep(mode, s[word_end(s, mode, i)]),
        i < s.len() && !is_sep(mode, s[i]) ==> i < word_end(s, mode, i),
    decreases s.len() - i,
{
    if i < s.len() && !is_sep(mode, s[i]) {
        lemma_word_end(s, mode, i + 1);
    }
}

/// The words of `s` that begin at or after position `i`: the maximal runs
/// of characters that are no separators, in order.
pub open spec fn words_from(s: Seq<char>, mode: Spacing, i: int) -> Seq<Seq<char>>
    decreases s.len() - i,
{
    let a = word_start(s, mode, i);
    if i < 0 || a >= s.len() {
        Seq::empty()
    } else {
        let b = word_end(s, mode, a);
        proof {
            lemma_word_start(s, mode, i);
            lemma_word_end(s, mode, a);
        }
        seq![s.subrange(a, b)] + words_from(s, mode, b)
    }
}

/// The words of `s`: what is left when `s` is cut at separators and the
/// empty pieces are dropped.
pub open spec fn words(s: Seq<char>, mode: Spacing) -> Seq<Seq<char>> {
    words_from(s, mode, 0)
}

/// Every word holds at least one character and no separator.
pub proof fn lemma_words_hold_no_separator(s: Seq<char>, mode: Spacing, i: int)
    requires
        0 <= i <= s.len(),
    ensures
        forall|k: int|
            0 <= k < words_from(s, mode, i).len() ==> {
                let w = #[trigger] words_from(s, mode, i)[k];
                w.len() > 0 && forall|j: int| 0 <= j < w.len() ==> !is_sep(mode, #[trigger] w[j])
            },
    decreases s.len() - i,
{
    let a = word_start(s, mode, i);
    lemma_word_start(s, mode, i);
    if a < s.len() {
        let b = word_end(s, mode, a);
        lemma_word_end(s, mode, a);
        lemma_words_hold_no_separator(s, mode, b);
        let first = s.subrange(a, b);
        let rest = words_from(s, mode, b);
        assert forall|k: int| 0 <= k < words_from(s, mode, i).len() implies {
            let w = #[trigger] words_from(s, mode, i)[k];
            w.len() > 0 && forall|j: int| 0 <= j < w.len() ==> !is_sep(mode, #[trigger] w[j])
        } by {
            if k == 0 {
                assert forall|j: int| 0 <= j < first.len() implies !is_sep(
                    mode,
                    #[trigger] first[j],
                ) by {
                    assert(first[j] == s[a + j]);
                }
            } else {
                assert(words_from(s, mode, i)[k] == rest[k - 1]);
            }
        }
    }
}

/// A text of separators alone has no words.
pub proof fn lemma_blank_has_no_words(s: Seq<char>, mode: Spacing)
    requires
        forall|i: int| 0 <= i < s.len() ==> is_sep(mode, #[trigger] s[i]),
    ensures
        words(s, mode).len() == 0,
{
    lemma_word_start(s, mode, 0);
}

/// The views of a sequence of string slices.
pub open spec fn texts(v: Seq<&str>) -> Seq<Seq<char>> {
    Seq::new(v.len(), |i: int| v[i]@)
}

/// Cuts `s` into its words.
pub fn split_words<'a>(s: &'a str, mode: Spacing) -> (v: Vec<&'a str>)
    ensures
        texts(v@) == words(s@, mode),
{
    let cs = chars_of(s);
    let n: usize = cs.len();
    let mut v: Vec<&'a str> = Vec::new();
    let mut i: usize = 0;
    loop
        invariant
            cs@ == s@,
            n == cs.len(),
            i <= n,
            words(s@, mode) == texts(v@) + words_from(s@, mode, i as int),
        decreases n - i,
    {
        let ghost i0 = i as int;
        let mut a: usize = i;
        while a < n && sep(mode, cs[a])
            invariant
                cs@ == s@,
                n == cs.len(),
                i <= a <= n,
                word_start(s@, mode, i as int) == word_start(s@, mode, a as int),
            decreases n - a,
        {
            a = a + 1;
        }
        if a >= n {
            assert(words_from(s@, mode, i as int) =~= Seq::empty());
            assert(texts(v@) + Seq::<Seq<char>>::empty() =~= texts(v@));
            return v;
        }
        let mut b: usize = a + 1;
        while b < n && !sep(mode, cs[b])
            invariant
                cs@ == s@,
                n == cs.len(),
                a < b <= n,
                !is_sep(mode, s@[a as int]),
                word_end(s@, mode, a as int) == word_end(s@, mode, b as int),
            decreases n - b,
        {
            b = b + 1;
        }
        let w = s.substring_char(a, b);
        proof {
            assert(word_start(s@, mode, i as int) == a);
            assert(word_end(s@, mode, a as int) == b);
            assert(texts(v@.push(w)) =~= texts(v@) + seq![s@.subrange(a as int, b as int)]);
            assert(words_from(s@, mode, i as int) == seq![s@.subrange(a as int, b as int)]
                + words_from(s@, mode, b as int));
        }
        v.push(w);
        i = b;
    }
}

/// Whether `pat` occurs in `s` at position `i`.
pub open spec fn matches_at(s: Seq<char>, pat: Seq<char>, i: int) -> bool {
    0 <= i && i + pat.len() <= s.len() && s.subrange(i, i + pat.len()) == pat
}

/// The first position at or after `i` at which `pat` occurs in `s`.
pub open spec fn find_from(s: Seq<char>, pat: Seq<char>, i: int) -> Option<int>
    decreases s.len() + 1 - i,
{
    if i < 0 || i + pat.len() > s.len() {
        None
    } else if matches_at(s, pat, i) {
        Some(i)
    } else {
        find_from(s, pat, i + 1)
    }
}

/// The first position at which `pat` occurs in `s`.
pub open spec fn find(s: Seq<char>, pat: Seq<char>) -> Option<int> {
    find_from(s, pat, 0)
}

/// What [`find_from`] returns is the least match at or after `i`, and it
/// returns `None` only when there is no such match.
pub proof fn lemma_find_from(s: Seq<char>, pat: Seq<char>, i: int)
    requires
        0 <= i,
    ensures
        match find_from(s, pat, i) {
            Some(k) => i <= k && matches_at(s, pat, k) && forall|j: int|
                i <= j < k ==> !matches_at(s, pat, j),
            None => forall|j: int| i <= j ==> !matches_at(s, pat, j),
        },
    decreases s.len() + 1 - i,
{
    if i + pat.len() <= s.len() && !matches_at(s, pat, i) {
        lemma_find_from(s, pat, i + 1);
    }
}

/// Whether `pat` occurs in `hay` at position `i`.
pub fn occurs_at(hay: &Vec<char>, pat: &Vec<char>, i: usize) -> (r: bool)
    ensures
        r == matches_at(hay@, pat@, i as int),
{
    let n: usize = hay.len();
    let m: usize = pat.len();
    if m > n || i > n - m {
        return false;
    }
    let mut k: usize = 0;
    while k < m
        invariant
            n == hay.len(),
            m == pat.len(),
            i + m <= n,
            k <= m,
            forall|j: int| 0 <= j < k ==> hay@[i + j] == pat@[j],
        decreases m - k,
    {
        if hay[i + k] != pat[k] {
            assert(hay@.subrange(i as int, i + m)[k as int] != pat@[k as int]);
            return false;
        }
        k = k + 1;
    }
    assert(hay@.subrange(i as int, i + m) =~= pat@);
    true
}

/// The first position at or after `from` at which `pat` occurs in `hay`.
pub fn find_in(hay: &Vec<char>, pat: &Vec<char>, from: usize) -> (r: Option<usize>)
    ensures
        match r {
            Some(k) => find_from(hay@, pat@, from as int) == Some(k as int),
            None => find_from(hay@, pat@, from as int) is None,
        },
{
    let n: usize = hay.len();
    let m: usize = pat.len();
    if m > n {
        return None;
    }
    let last: usize = n - m;
    let mut i: usize = from;
    while i <= last
        invariant
            n == hay.len(),
            m == pat.len(),
            last == n - m,
            from <= i,
            find_from(hay@, pat@, from as int) == find_from(hay@, pat@, i as int),
        decreases last + 1 - i,
    {
        if occurs_at(hay, pat, i) {
            return Some(i);
        }
        if i == last {
            assert(find_from(hay@, pat@, i + 1) is None);
            return None;
        }
        i = i + 1;
    }
    None
}

/// Whether two string slices hold the same text.
pub fn same_text(a: &str, b: &str) -> (r: bool)
    ensures
        r == (a@ == b@),
{
    let x = chars_of(a);
    let y = chars_of(b);
    if x.len() != y.len() {
        return false;
    }
    let r = occurs_at(&x, &y, 0);
    assert(x@.subrange(0, x@.len() as int) =~= x@);
    r
}

/// Whether `s` begins with `head`.
pub open spec fn starts_with(s: Seq<char>, head: Seq<char>) -> bool {
    matches_at(s, head, 0)
}

/// Whether `s` ends with `tail`.
pub open spec fn ends_with(s: Seq<char>, tail: Seq<char>) -> bool {
    tail.len() <= s.len() && s.subrange(s.len() - tail.len(), s.len() as int) == tail
}

/// Whether `pat` occurs somewhere in `s`.
pub open spec fn contains(s: Seq<char>, pat: Seq<char>) -> bool {
    find(s, pat) is Some
}

/// Whether `s` begins with `head`.
pub fn has_prefix(s: &str, head: &str) -> (r: bool)
    ensures
        r == starts_with(s@, head@),
{
    let a = chars_of(s);
    let b = chars_of(head);
    occurs_at(&a, &b, 0)
}

/// The lower-case form of an ASCII capital; every other character as it
/// is.
pub open spec fn ascii_lower_char(c: char) -> char {
    if 'A' <= c && c <= 'Z' {
        ((c as u8) + 32) as char
    } else {
        c
    }
}

/// `s` with its ASCII capitals in lower case.
pub open spec fn ascii_lower(s: Seq<char>) -> Seq<char> {
    Seq::new(s.len(), |i: int| ascii_lower_char(s[i]))
}

/// Executable form of [`ascii_lower_char`].
pub fn lower_char(c: char) -> (r: char)
    ensures
        r == ascii_lower_char(c),
{
    if 'A' <= c && c <= 'Z' {
        ((c as u8) + 32) as char
    } else {
        c
    }
}

/// The characters of `s` with the ASCII capitals in lower case.
pub fn lower_chars(s: &str) -> (r: Vec<char>)
    ensures
        r@ == ascii_lower(s@),
{
    let cs = chars_of(s);
    let mut r: Vec<char> = Vec::new();
    let mut i: usize = 0;
    while i < cs.len()
        invariant
            cs@ == s@,
            i <= cs.len(),
            r.len() == i,
            forall|j: int| 0 <= j < i ==> r@[j] == ascii_lower_char(s@[j]),
        decreases cs.len() - i,
    {
        r.push(lower_char(cs[i]));
        i = i + 1;
    }
    assert(r@ =~= ascii_lower(s@));
    r
}

/// The lower-case form of `s` under Unicode's case mapping, as std's
/// `str::to_lowercase` gives it.
pub uninterp spec fn lowercase(s: Seq<char>) -> Seq<char>;

/// `str::to_lowercase` is a function of the text alone; its mapping is
/// not restated here, the result is only given the name [`lowercase`].
pub assume_specification[ str::to_lowercase ](s: &str) -> (r: String)
    ensures
        r@ == lowercase(s@),
;

/// The position behind the last character before `n` that is no
/// separator, or 0 if there is none.
pub open spec fn text_end(s: Seq<char>, mode: Spacing, n: int) -> int
    decreases n,
{
    if n <= 0 || n > s.len() {
        0
    } else if !is_sep(mode, s[n - 1]) {
        n
    } else {
        text_end(s, mode, n - 1)
    }
}

/// `s` without the separators at its two ends.
pub open spec fn trimmed(s: Seq<char>, mode: Spacing) -> Seq<char> {
    let a = word_start(s, mode, 0);
    let b = text_end(s, mode, s.len() as int);
    if a >= b {
        Seq::empty()
    } else {
        s.subrange(a, b)
    }
}

pub proof fn lemma_text_end(s: Seq<char>, mode: Spacing, n: int)
    requires
        0 <= n <= s.len(),
    ensures
        0 <= text_end(s, mode, n) <= n,
        forall|j: int| text_end(s, mode, n) <= j < n ==> is_sep(mode, #[trigger] s[j]),
        text_end(s, mode, n) > 0 ==> !is_sep(mode, s[text_end(s, mode, n) - 1]),
    decreases n,
{
    if n > 0 && is_sep(mode, s[n - 1]) {
        lemma_text_end(s, mode, n - 1);
    }
}

/// The part of `s` between the separators at its two ends.
pub fn trim<'a>(s: &'a str, mode: Spacing) -> (r: &'a str)
    ensures
        r@ == trimmed(s@, mode),
{
    let cs = chars_of(s);
    let n: usize = cs.len();
    let mut a: usize = 0;
    while a < n && sep(mode, cs[a])
        invariant
            cs@ == s@,
            n == cs.len(),
            a <= n,
            word_start(s@, mode, 0) == word_start(s@, mode, a as int),
        decreases n - a,
    {
        a = a + 1;
    }
    let mut b: usize = n;
    while b > 0 && sep(mode, cs[b - 1])
        invariant
            cs@ == s@,
            n == cs.len(),
            b <= n,
            text_end(s@, mode, n as int) == text_end(s@, mode, b as int),
        decreases b,
    {
        b = b - 1;
    }
    if a >= b {
        let r = s.substring_char(0, 0);
        assert(r@ =~= Seq::<char>::empty());
        r
    } else {
        s.substring_char(a, b)
    }
}

/// `s` without the run of `c` at its end.
pub open spec fn without_trailing(s: Seq<char>, c: char) -> Seq<char>
    decreases s.len(),
{
    if s.len() > 0 && s.last() == c {
        without_trailing(s.drop_last(), c)
    } else {
        s
    }
}

/// The part of `s` before the run of `c` at its end.
pub fn trim_end<'a>(s: &'a str, c: char) -> (r: &'a str)
    ensures
        r@ == without_trailing(s@, c),
{
    let cs = chars_of(s);
    let mut b: usize = cs.len();
    assert(s@.take(b as int) =~= s@);
    while b > 0 && cs[b - 1] == c
        invariant
            cs@ == s@,
            b <= cs.len(),
            without_trailing(s@, c) == without_trailing(s@.take(b as int), c),
        decreases b,
    {
        assert(s@.take(b as int).drop_last() =~= s@.take(b - 1));
        b = b - 1;
    }
    assert(s@.take(b as int) =~= s@.subrange(0, b as int));
    s.substring_char(0, b)
}

/// The character that stands for the digit `d`.
pub open spec fn digit_char(d: int) -> char {
    (('0' as u8) + d) as char
}

/// The decimal numeral of `n`, without leading zeros.
pub open spec fn decimal_nat(n: nat) -> Seq<char>
    decreases n,
{
    if n < 10 {
        seq![digit_char(n as int)]
    } else {
        decimal_nat(n / 10).push(digit_char((n % 10) as int))
    }
}

/// The decimal numeral of `n`, with a minus sign where `n` is negative.
pub open spec fn decimal(n: int) -> Seq<char> {
    if n < 0 {
        seq!['-'] + decimal_nat((-n) as nat)
    } else {
        decimal_nat(n as nat)
    }
}

/// The one-character string of the digit `d`.
fn digit_str(d: u32) -> (r: &'static str)
    requires
        d < 10,
    ensures
        r@ == seq![digit_char(d as int)],
{
    proof {
        reveal_strlit("0");
        reveal_strlit("1");
        reveal_strlit("2");
        reveal_strlit("3");
        reveal_strlit("4");
        reveal_strlit("5");
        reveal_strlit("6");
        reveal_strlit("7");
        reveal_strlit("8");
        reveal_strlit("9");
    }
    let r = if d == 0 {
        "0"
    } else if d == 1 {
        "1"
    } else if d == 2 {
        "2"
    } else if d == 3 {
        "3"
    } else if d == 4 {
        "4"
    } else if d == 5 {
        "5"
    } else if d == 6 {
        "6"
    } else if d == 7 {
        "7"
    } else if d == 8 {
        "8"
    } else {
        "9"
    };
    assert(r@ =~= seq![digit_char(d as int)]);
    r
}

/// Appends the decimal numeral of `n` to `out`.
fn push_decimal(out: &mut String, n: u32)
    ensures
        final(out)@ == old(out)@ + decimal_nat(n as nat),
    decreases n,
{
    if n >= 10 {
        push_decimal(out, n / 10);
    }
    out.append(digit_str(n % 10));
    assert(out@ =~= old(out)@ + decimal_nat(n as nat));
}

/// The decimal numeral of `n`.
pub fn decimal_string(n: i32) -> (r: String)
    ensures
        r@ == decimal(n as int),
{
    let mut r = String::new();
    if n < 0 {
        proof {
            reveal_strlit("-");
        }
        r.append("-");
        let magnitude: u32 = (-(n as i64)) as u32;
        push_decimal(&mut r, magnitude);
        assert(r@ =~= decimal(n as int));
    } else {
        push_decimal(&mut r, n as u32);
        assert(r@ =~= decimal(n as int));
    }
    r
}

} // verus!
