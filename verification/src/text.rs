//! Trimming, searching and splitting of text, character by character.

use vstd::prelude::*;
use vstd::string::*;

verus! {

/// Whether `c` carries the Unicode `White_Space` property.
pub open spec fn is_space(c: char) -> bool {
    ||| ('\u{9}' <= c && c <= '\u{d}')
    ||| c == ' '
    ||| c == '\u{85}'
    ||| c == '\u{a0}'
    ||| c == '\u{1680}'
    ||| ('\u{2000}' <= c && c <= '\u{200a}')
    ||| c == '\u{2028}'
    ||| c == '\u{2029}'
    ||| c == '\u{202f}'
    ||| c == '\u{205f}'
    ||| c == '\u{3000}'
}

/// Whether trimming removes `c`: with no mark given, white space is removed;
/// with a mark, exactly that character.
pub open spec fn strips(c: char, mark: Option<char>) -> bool {
    match mark {
        None => is_space(c),
        Some(m) => c == m,
    }
}

/// The strings of `v` as the sequences of characters they hold.
pub open spec fn texts(v: Seq<String>) -> Seq<Seq<char>> {
    Seq::new(v.len(), |i: int| v[i]@)
}

/// Whether `pat` stands in `s` at index `i`.
pub open spec fn occurs_at(s: Seq<char>, pat: Seq<char>, i: int) -> bool {
    0 <= i && i + pat.len() <= s.len() && s.subrange(i, i + pat.len()) == pat
}

/// Whether `pat` stands somewhere in `s`.
pub open spec fn contains_text(s: Seq<char>, pat: Seq<char>) -> bool {
    exists|i: int| occurs_at(s, pat, i)
}

/// `s` without its leading removable characters.
pub open spec fn trim_start(s: Seq<char>, mark: Option<char>) -> Seq<char>
    decreases s.len(),
{
    if s.len() > 0 && strips(s[0], mark) {
        trim_start(s.drop_first(), mark)
    } else {
        s
    }
}

/// `s` without its trailing removable characters.
pub open spec fn trim_end(s: Seq<char>, mark: Option<char>) -> Seq<char>
    decreases s.len(),
{
    if s.len() > 0 && strips(s.last(), mark) {
        trim_end(s.drop_last(), mark)
    } else {
        s
    }
}

/// `s` without removable characters at either end.
pub open spec fn trim(s: Seq<char>, mark: Option<char>) -> Seq<char> {
    trim_end(trim_start(s, mark), mark)
}

/// `s` with surrounding white space removed, then surrounding double quotes,
/// then single quotes, then back-ticks.
pub open spec fn clean(s: Seq<char>) -> Seq<char> {
    trim(trim(trim(trim(s, None), Some('"')), Some('\'')), Some('`'))
}

/// The least index at or after `from` at which `s` holds `c`; `s.len()` if
/// there is none.
pub open spec fn first_at(s: Seq<char>, from: int, c: char) -> int
    decreases s.len() - from,
{
    if from < 0 || from >= s.len() {
        s.len() as int
    } else if s[from] == c {
        from
    } else {
        first_at(s, from + 1, c)
    }
}

/// The least index at or after `from` at which a white-space character
/// stands; `s.len()` if there is none.
pub open spec fn space_at(s: Seq<char>, from: int) -> int
    decreases s.len() - from,
{
    if from < 0 || from >= s.len() {
        s.len() as int
    } else if is_space(s[from]) {
        from
    } else {
        space_at(s, from + 1)
    }
}

/// The least index at or after `from` at which a character other than white
/// space stands; `s.len()` if there is none.
pub open spec fn word_at(s: Seq<char>, from: int) -> int
    decreases s.len() - from,
{
    if from < 0 || from >= s.len() {
        s.len() as int
    } else if !is_space(s[from]) {
        from
    } else {
        word_at(s, from + 1)
    }
}

/// The maximal runs of characters other than white space that `s` holds at or
/// after `from`, in order.
pub open spec fn words_from(s: Seq<char>, from: int) -> Seq<Seq<char>>
    decreases s.len() - from,
{
    let a = word_at(s, from);
    let b = space_at(s, a);
    if from < 0 || a < from || a >= s.len() || b <= a || b > s.len() {
        Seq::empty()
    } else {
        seq![s.subrange(a, b)] + words_from(s, b)
    }
}

/// The white-space separated words of `s`.
pub open spec fn words(s: Seq<char>) -> Seq<Seq<char>> {
    words_from(s, 0)
}

/// `first_at` gives the first index at or after `from` that holds `c`.
pub proof fn lemma_first_at_bounds(s: Seq<char>, from: int, c: char)
    requires
        0 <= from <= s.len(),
    ensures
        from <= first_at(s, from, c) <= s.len(),
        first_at(s, from, c) < s.len() ==> s[first_at(s, from, c)] == c,
        forall|k: int| from <= k < first_at(s, from, c) ==> s[k] != c,
    decreases s.len() - from,
{
    if from < s.len() && s[from] != c {
        lemma_first_at_bounds(s, from + 1, c);
    }
}

/// `space_at` gives the first index at or after `from` that holds white
/// space.
pub proof fn lemma_space_at_bounds(s: Seq<char>, from: int)
    requires
        0 <= from <= s.len(),
    ensures
        from <= space_at(s, from) <= s.len(),
        space_at(s, from) < s.len() ==> is_space(s[space_at(s, from)]),
        forall|k: int| from <= k < space_at(s, from) ==> !is_space(s[k]),
    decreases s.len() - from,
{
    if from < s.len() && !is_space(s[from]) {
        lemma_space_at_bounds(s, from + 1);
    }
}

/// `word_at` gives the first index at or after `from` that holds no white
/// space.
pub proof fn lemma_word_at_bounds(s: Seq<char>, from: int)
    requires
        0 <= from <= s.len(),
    ensures
        from <= word_at(s, from) <= s.len(),
        word_at(s, from) < s.len() ==> !is_space(s[word_at(s, from)]),
        forall|k: int| from <= k < word_at(s, from) ==> is_space(s[k]),
    decreases s.len() - from,
{
    if from < s.len() && is_space(s[from]) {
        lemma_word_at_bounds(s, from + 1);
    }
}

/// Decides `is_space` for one character.
pub fn char_is_space(c: char) -> (b: bool)
    ensures
        b == is_space(c),
{
    (c >= '\u{9}' && c <= '\u{d}') || c == ' ' || c == '\u{85}' || c == '\u{a0}' || c == '\u{1680}'
        || (c >= '\u{2000}' && c <= '\u{200a}') || c == '\u{2028}' || c == '\u{2029}' || c
        == '\u{202f}' || c == '\u{205f}' || c == '\u{3000}'
}

/// Decides `strips` for one character.
pub fn char_strips(c: char, mark: Option<char>) -> (b: bool)
    ensures
        b == strips(c, mark),
{
    match mark {
        None => char_is_space(c),
        Some(m) => c == m,
    }
}

/// The characters of `s`, in order.
pub fn chars_of(s: &str) -> (v: Vec<char>)
    ensures
        v@ == s@,
{
    let mut v: Vec<char> = Vec::new();
    for c in it: s.chars()
        invariant
            v@ == it.seq().take(it.index@),
    {
        v.push(c);
    }
    v
}

/// Finds the first `c` in `chars` at or after `from`.
pub fn find_char(chars: &Vec<char>, from: usize, c: char) -> (i: usize)
    requires
        from <= chars@.len(),
    ensures
        i == first_at(chars@, from as int, c),
        from <= i <= chars@.len(),
{
    let mut i: usize = from;
    while i < chars.len() && chars[i] != c
        invariant
            from <= i <= chars@.len(),
            first_at(chars@, from as int, c) == first_at(chars@, i as int, c),
        decreases chars@.len() - i,
    {
        i += 1;
    }
    i
}

/// Finds the first white-space character in `chars` at or after `from`.
pub fn find_space(chars: &Vec<char>, from: usize) -> (i: usize)
    requires
        from <= chars@.len(),
    ensures
        i == space_at(chars@, from as int),
        from <= i <= chars@.len(),
{
    let mut i: usize = from;
    while i < chars.len() && !char_is_space(chars[i])
        invariant
            from <= i <= chars@.len(),
            space_at(chars@, from as int) == space_at(chars@, i as int),
        decreases chars@.len() - i,
    {
        i += 1;
    }
    i
}

/// Finds the first character other than white space in `chars` at or after
/// `from`.
pub fn find_word(chars: &Vec<char>, from: usize) -> (i: usize)
    requires
        from <= chars@.len(),
    ensures
        i == word_at(chars@, from as int),
        from <= i <= chars@.len(),
{
    let mut i: usize = from;
    while i < chars.len() && char_is_space(chars[i])
        invariant
            from <= i <= chars@.len(),
            word_at(chars@, from as int) == word_at(chars@, i as int),
        decreases chars@.len() - i,
    {
        i += 1;
    }
    i
}

/// Whether `pat` stands somewhere in `s`.
pub fn has_text(s: &str, pat: &str) -> (b: bool)
    ensures
        b == contains_text(s@, pat@),
{
    let sc = chars_of(s);
    let pc = chars_of(pat);
    let n: usize = sc.len();
    let m: usize = pc.len();
    if m > n {
        return false;
    }
    let mut i: usize = 0;
    while i <= n - m
        invariant
            n == sc@.len(),
            m == pc@.len(),
            sc@ == s@,
            pc@ == pat@,
            m <= n,
            i <= n - m + 1,
            forall|k: int| 0 <= k < i ==> !occurs_at(s@, pat@, k),
        decreases n - m + 1 - i,
    {
        let mut j: usize = 0;
        while j < m && sc[i + j] == pc[j]
            invariant
                n == sc@.len(),
                m == pc@.len(),
                i + m <= n,
                j <= m,
                forall|k: int| 0 <= k < j ==> sc@[i + k] == pc@[k],
            decreases m - j,
        {
            j += 1;
        }
        if j == m {
            assert(sc@.subrange(i as int, i + m) =~= pc@);
            assert(occurs_at(s@, pat@, i as int));
            return true;
        }
        proof {
            assert(sc@.subrange(i as int, i + m)[j as int] != pc@[j as int]);
        }
        i += 1;
    }
    false
}

/// The part of `s` that is left when the removable characters at both ends
/// are taken away.
pub fn trimmed<'a>(s: &'a str, mark: Option<char>) -> (r: &'a str)
    ensures
        r@ == trim(s@, mark),
{
    let chars = chars_of(s);
    let n: usize = chars.len();
    let mut lo: usize = 0;
    assert(chars@.subrange(0, n as int) =~= chars@);
    while lo < n && char_strips(chars[lo], mark)
        invariant
            n == chars@.len(),
            lo <= n,
            trim_start(chars@, mark) == trim_start(chars@.subrange(lo as int, n as int), mark),
        decreases n - lo,
    {
        proof {
            assert(chars@.subrange(lo as int, n as int).drop_first() =~= chars@.subrange(
                lo as int + 1,
                n as int,
            ));
        }
        lo += 1;
    }
    assert(trim_start(chars@, mark) == chars@.subrange(lo as int, n as int));
    let mut hi: usize = n;
    while hi > lo && char_strips(chars[hi - 1], mark)
        invariant
            n == chars@.len(),
            lo <= hi <= n,
            trim(chars@, mark) == trim_end(chars@.subrange(lo as int, hi as int), mark),
        decreases hi - lo,
    {
        proof {
            assert(chars@.subrange(lo as int, hi as int).drop_last() =~= chars@.subrange(
                lo as int,
                hi as int - 1,
            ));
        }
        hi -= 1;
    }
    assert(trim(chars@, mark) == chars@.subrange(lo as int, hi as int));
    s.substring_char(lo, hi)
}

/// `s` stripped of surrounding white space and quote characters.
pub fn cleaned<'a>(s: &'a str) -> (r: &'a str)
    ensures
        r@ == clean(s@),
{
    trimmed(trimmed(trimmed(trimmed(s, None), Some('"')), Some('\'')), Some('`'))
}

/// Splits `s` into its white-space separated words.
pub fn split_words(s: &str) -> (out: Vec<String>)
    ensures
        out.len() == words(s@).len(),
        forall|k: int| 0 <= k < out.len() ==> (#[trigger] out[k])@ == words(s@)[k],
{
    let chars = chars_of(s);
    let n: usize = chars.len();
    let mut out: Vec<String> = Vec::new();
    let mut from: usize = 0;
    let ghost mut done: Seq<Seq<char>> = Seq::empty();
    loop
        invariant
            n == chars@.len(),
            chars@ == s@,
            from <= n,
            out.len() == done.len(),
            forall|k: int| 0 <= k < out.len() ==> (#[trigger] out[k])@ == done[k],
            words(s@) == done + words_from(s@, from as int),
        ensures
            words(s@) == done,
        decreases n - from,
    {
        let a: usize = find_word(&chars, from);
        proof {
            lemma_word_at_bounds(chars@, from as int);
        }
        if a >= n {
            assert(words_from(s@, from as int) =~= Seq::empty());
            assert(done + Seq::<Seq<char>>::empty() =~= done);
            break;
        }
        let b: usize = find_space(&chars, a);
        proof {
            lemma_space_at_bounds(chars@, a as int);
            assert(a < b);
            assert(done.push(s@.subrange(a as int, b as int)) + words_from(s@, b as int) =~= done
                + (seq![s@.subrange(a as int, b as int)] + words_from(s@, b as int)));
            done = done.push(s@.subrange(a as int, b as int));
        }
        out.push(s.substring_char(a, b).to_owned());
        from = b;
    }
    out
}

} // verus!
