//! Scanning text: trimming, searching, splitting and reading numbers, stated over
//! sequences of characters.

use crate::text::{dec, dec_digits, digit, from_chars, to_chars};
use vstd::prelude::*;

verus! {

/// The characters with the Unicode property `White_Space`.
pub open spec fn is_white(c: char) -> bool {
    let v = c as u32;
    ||| 0x09 <= v <= 0x0d
    ||| v == 0x20
    ||| v == 0x85
    ||| v == 0xa0
    ||| v == 0x1680
    ||| 0x2000 <= v <= 0x200a
    ||| v == 0x2028
    ||| v == 0x2029
    ||| v == 0x202f
    ||| v == 0x205f
    ||| v == 0x3000
}

pub fn char_is_white(c: char) -> (white: bool)
    ensures
        white == is_white(c),
{
    let v: u32 = c as u32;
    (0x09 <= v && v <= 0x0d) || v == 0x20 || v == 0x85 || v == 0xa0 || v == 0x1680 || (0x2000 <= v
        && v <= 0x200a) || v == 0x2028 || v == 0x2029 || v == 0x202f || v == 0x205f || v == 0x3000
}

/// The control characters, general category `Cc`.
pub open spec fn is_control(c: char) -> bool {
    let v = c as u32;
    v <= 0x1f || 0x7f <= v <= 0x9f
}

pub fn char_is_control(c: char) -> (control: bool)
    ensures
        control == is_control(c),
{
    let v: u32 = c as u32;
    v <= 0x1f || (0x7f <= v && v <= 0x9f)
}

/// Without leading white space.
pub open spec fn trim_front(s: Seq<char>) -> Seq<char>
    decreases s.len(),
{
    if s.len() > 0 && is_white(s[0]) {
        trim_front(s.drop_first())
    } else {
        s
    }
}

/// Without trailing white space.
pub open spec fn trim_back(s: Seq<char>) -> Seq<char>
    decreases s.len(),
{
    if s.len() > 0 && is_white(s.last()) {
        trim_back(s.drop_last())
    } else {
        s
    }
}

/// Without white space at either end.
pub open spec fn trimmed(s: Seq<char>) -> Seq<char> {
    trim_back(trim_front(s))
}

pub fn trim_start(s: &[char]) -> (r: &[char])
    ensures
        r@ == trim_front(s@),
{
    let mut i: usize = 0;
    assert(s@.subrange(0, s@.len() as int) =~= s@);
    while i < s.len() && char_is_white(s[i])
        invariant
            i <= s.len(),
            trim_front(s@) == trim_front(s@.subrange(i as int, s@.len() as int)),
        ensures
            i <= s.len(),
            trim_front(s@) == trim_front(s@.subrange(i as int, s@.len() as int)),
            i < s.len() ==> !is_white(s@[i as int]),
        decreases s.len() - i,
    {
        assert(s@.subrange(i as int, s@.len() as int).drop_first() =~= s@.subrange(
            i + 1,
            s@.len() as int,
        ));
        i = i + 1;
    }
    &s[i..s.len()]
}

pub fn trim_end(s: &[char]) -> (r: &[char])
    ensures
        r@ == trim_back(s@),
{
    let mut n: usize = s.len();
    assert(s@.subrange(0, s@.len() as int) =~= s@);
    while n > 0 && char_is_white(s[n - 1])
        invariant
            n <= s.len(),
            trim_back(s@) == trim_back(s@.subrange(0, n as int)),
        ensures
            n <= s.len(),
            trim_back(s@) == trim_back(s@.subrange(0, n as int)),
            n > 0 ==> !is_white(s@[n - 1]),
        decreases n,
    {
        assert(s@.subrange(0, n as int).drop_last() =~= s@.subrange(0, n - 1));
        n = n - 1;
    }
    &s[0..n]
}

pub fn trim(s: &[char]) -> (r: &[char])
    ensures
        r@ == trimmed(s@),
{
    trim_end(trim_start(s))
}

pub open spec fn begins(s: Seq<char>, prefix: Seq<char>) -> bool {
    prefix.len() <= s.len() && s.take(prefix.len() as int) == prefix
}

pub open spec fn ends(s: Seq<char>, suffix: Seq<char>) -> bool {
    suffix.len() <= s.len() && s.skip(s.len() - suffix.len()) == suffix
}

/// Whether `pat` stands in `s` at `at`.
fn matches_at(s: &[char], at: usize, pat: &[char]) -> (yes: bool)
    requires
        at + pat.len() <= s.len(),
    ensures
        yes == (s@.subrange(at as int, at + pat@.len()) == pat@),
{
    let mut i: usize = 0;
    while i < pat.len()
        invariant
            i <= pat.len(),
            at + pat.len() <= s.len(),
            forall|k: int| 0 <= k < i ==> s@[at + k] == #[trigger] pat@[k],
        decreases pat.len() - i,
    {
        if s[at + i] != pat[i] {
            assert(s@.subrange(at as int, at + pat@.len())[i as int] == s@[at + i]);
            return false;
        }
        i = i + 1;
    }
    assert(s@.subrange(at as int, at + pat@.len()) =~= pat@);
    true
}

pub fn starts_with(s: &[char], prefix: &str) -> (yes: bool)
    ensures
        yes == begins(s@, prefix@),
{
    let p: Vec<char> = to_chars(prefix);
    if p.len() > s.len() {
        return false;
    }
    assert(s@.subrange(0, p@.len() as int) =~= s@.take(p@.len() as int));
    matches_at(s, 0, p.as_slice())
}

pub fn ends_with(s: &[char], suffix: &str) -> (yes: bool)
    ensures
        yes == ends(s@, suffix@),
{
    let p: Vec<char> = to_chars(suffix);
    if p.len() > s.len() {
        return false;
    }
    let at: usize = s.len() - p.len();
    assert(s@.subrange(at as int, at + p@.len()) =~= s@.skip(at as int));
    matches_at(s, at, p.as_slice())
}

/// What stands behind `prefix`, if `s` starts with it.
pub fn strip_prefix<'a>(s: &'a [char], prefix: &str) -> (rest: Option<&'a [char]>)
    ensures
        match rest {
            Some(r) => begins(s@, prefix@) && r@ == s@.skip(prefix@.len() as int),
            None => !begins(s@, prefix@),
        },
{
    let p: Vec<char> = to_chars(prefix);
    if p.len() > s.len() {
        return None;
    }
    assert(s@.subrange(0, p@.len() as int) =~= s@.take(p@.len() as int));
    if matches_at(s, 0, p.as_slice()) {
        let r: &[char] = &s[p.len()..s.len()];
        assert(r@ =~= s@.skip(prefix@.len() as int));
        Some(r)
    } else {
        None
    }
}

/// The first place at or behind `at` where `pat` stands in `s`.
pub open spec fn find_from(s: Seq<char>, pat: Seq<char>, at: int) -> Option<int>
    decreases s.len() + 1 - at,
{
    if at + pat.len() > s.len() {
        None
    } else if s.subrange(at, at + pat.len()) == pat {
        Some(at)
    } else {
        find_from(s, pat, at + 1)
    }
}

pub open spec fn contains_text(s: Seq<char>, pat: Seq<char>) -> bool {
    find_from(s, pat, 0) is Some
}

pub fn find(s: &[char], pat: &str) -> (at: Option<usize>)
    ensures
        match at {
            Some(i) => find_from(s@, pat@, 0) == Some(i as int) && i + pat@.len() <= s@.len(),
            None => find_from(s@, pat@, 0) is None,
        },
{
    let p: Vec<char> = to_chars(pat);
    if p.len() > s.len() {
        return None;
    }
    let last: usize = s.len() - p.len();
    let mut i: usize = 0;
    while i < last
        invariant
            i <= last == s.len() - p.len(),
            p@ == pat@,
            find_from(s@, pat@, 0) == find_from(s@, pat@, i as int),
        decreases last - i,
    {
        if matches_at(s, i, p.as_slice()) {
            return Some(i);
        }
        i = i + 1;
    }
    if matches_at(s, i, p.as_slice()) {
        return Some(i);
    }
    assert(find_from(s@, pat@, i + 1) is None);
    None
}

/// Without leading repetitions of `pat`.
pub open spec fn strip_all(s: Seq<char>, pat: Seq<char>) -> Seq<char>
    decreases s.len(),
{
    if pat.len() > 0 && begins(s, pat) {
        strip_all(s.skip(pat.len() as int), pat)
    } else {
        s
    }
}

pub fn trim_start_matches<'a>(s: &'a [char], pat: &str) -> (r: &'a [char])
    ensures
        r@ == strip_all(s@, pat@),
{
    let p: Vec<char> = to_chars(pat);
    let mut i: usize = 0;
    assert(s@.subrange(0, s@.len() as int) =~= s@);
    while p.len() > 0 && p.len() <= s.len() - i && matches_at(s, i, p.as_slice())
        invariant
            i <= s.len(),
            p@ == pat@,
            strip_all(s@, pat@) == strip_all(s@.subrange(i as int, s@.len() as int), pat@),
        ensures
            i <= s.len(),
            strip_all(s@, pat@) == strip_all(s@.subrange(i as int, s@.len() as int), pat@),
            pat@.len() == 0 || pat@.len() > s@.len() - i || s@.subrange(i as int, i + pat@.len())
                != pat@,
        decreases s.len() - i,
    {
        proof {
            let rest = s@.subrange(i as int, s@.len() as int);
            assert(rest.take(p@.len() as int) =~= s@.subrange(i as int, i + p@.len()));
            assert(rest.skip(p@.len() as int) =~= s@.subrange(i + p@.len(), s@.len() as int));
        }
        i = i + p.len();
    }
    proof {
        let rest = s@.subrange(i as int, s@.len() as int);
        if pat@.len() > 0 && pat@.len() <= rest.len() {
            assert(rest.take(p@.len() as int) =~= s@.subrange(i as int, i + p@.len()));
        }
    }
    &s[i..s.len()]
}

/// The number of characters before the first white space.
pub open spec fn word_len(s: Seq<char>) -> nat
    decreases s.len(),
{
    if s.len() > 0 && !is_white(s[0]) {
        1 + word_len(s.drop_first())
    } else {
        0
    }
}

/// The first word of `s`, empty where there is none.
pub open spec fn first_word(s: Seq<char>) -> Seq<char> {
    let t = trim_front(s);
    t.take(word_len(t) as int)
}

/// What stands behind the first word of `s`.
pub open spec fn after_word(s: Seq<char>) -> Seq<char> {
    let t = trim_front(s);
    t.skip(word_len(t) as int)
}

pub fn next_word(s: &[char]) -> (split: (&[char], &[char]))
    ensures
        split.0@ == first_word(s@),
        split.1@ == after_word(s@),
{
    let t: &[char] = trim_start(s);
    let mut n: usize = 0;
    assert(t@.skip(0) =~= t@);
    while n < t.len() && !char_is_white(t[n])
        invariant
            n <= t.len(),
            word_len(t@) == n + word_len(t@.skip(n as int)),
        ensures
            n <= t.len(),
            word_len(t@) == n + word_len(t@.skip(n as int)),
            n < t.len() ==> is_white(t@[n as int]),
        decreases t.len() - n,
    {
        assert(t@.skip(n as int).drop_first() =~= t@.skip(n + 1));
        n = n + 1;
    }
    assert(word_len(t@) == n);
    let word: &[char] = &t[0..n];
    let rest: &[char] = &t[n..t.len()];
    assert(word@ =~= first_word(s@));
    assert(rest@ =~= after_word(s@));
    (word, rest)
}

/// The words of `s`, which white space parts.
pub open spec fn words(s: Seq<char>) -> Seq<Seq<char>>
    decreases s.len(),
    via words_grow_fewer
{
    if trim_front(s).len() == 0 {
        seq![]
    } else {
        seq![first_word(s)] + words(after_word(s))
    }
}

#[via_fn]
proof fn words_grow_fewer(s: Seq<char>) {
    trim_front_facts(s);
    word_len_facts(trim_front(s));
}

/// The word with the given index, empty where there is none.
pub open spec fn word_at(words: Seq<Seq<char>>, i: int) -> Seq<char> {
    if 0 <= i < words.len() {
        words[i]
    } else {
        seq![]
    }
}

pub open spec fn all_white(s: Seq<char>) -> bool {
    forall|i: int| 0 <= i < s.len() ==> is_white(#[trigger] s[i])
}

proof fn trim_front_facts(s: Seq<char>)
    ensures
        trim_front(s).len() <= s.len(),
        trim_front(s).len() > 0 ==> !is_white(trim_front(s)[0]),
        trim_front(trim_front(s)) == trim_front(s),
        trim_front(s).len() == 0 ==> all_white(s),
    decreases s.len(),
{
    if s.len() > 0 && is_white(s[0]) {
        trim_front_facts(s.drop_first());
        assert forall|i: int| trim_front(s).len() == 0 && 0 <= i < s.len() implies is_white(
            #[trigger] s[i],
        ) by {
            if i > 0 {
                assert(s.drop_first()[i - 1] == s[i]);
            }
        }
    }
}

proof fn word_len_facts(t: Seq<char>)
    ensures
        word_len(t) <= t.len(),
        t.len() > 0 && !is_white(t[0]) ==> word_len(t) > 0,
        word_len(t) < t.len() ==> is_white(t[word_len(t) as int]),
    decreases t.len(),
{
    if t.len() > 0 && !is_white(t[0]) {
        word_len_facts(t.drop_first());
    }
}

proof fn trim_front_concat(s: Seq<char>, x: Seq<char>)
    ensures
        trim_front(s + x) == (if trim_front(s).len() == 0 {
            trim_front(x)
        } else {
            trim_front(s) + x
        }),
    decreases s.len(),
{
    if s.len() == 0 {
        assert(s + x =~= x);
    } else if is_white(s[0]) {
        trim_front_concat(s.drop_first(), x);
        assert((s + x).drop_first() =~= s.drop_first() + x);
    }
}

proof fn word_len_concat(t: Seq<char>, x: Seq<char>)
    requires
        x.len() == 0 || is_white(x[0]),
    ensures
        word_len(t + x) == word_len(t),
    decreases t.len(),
{
    if t.len() == 0 {
        assert(t + x =~= x);
    } else if !is_white(t[0]) {
        word_len_concat(t.drop_first(), x);
        assert((t + x).drop_first() =~= t.drop_first() + x);
    }
}

/// White space parts words: the words of two texts with white space between them are
/// the words of the one and those of the other.
pub proof fn words_of_parted_texts(s: Seq<char>, c: char, more: Seq<char>)
    requires
        is_white(c),
    ensures
        words(s + (seq![c] + more)) == words(s) + words(more),
    decreases s.len(),
{
    let x = seq![c] + more;
    let whole = s + x;
    trim_front_facts(s);
    trim_front_concat(s, x);
    assert(x.drop_first() =~= more);
    if trim_front(s).len() == 0 {
        assert(trim_front(whole) == trim_front(more));
        same_start_same_words(whole, more);
        assert(words(s) + words(more) =~= words(more));
    } else {
        let t = trim_front(s);
        word_len_facts(t);
        word_len_concat(t, x);
        assert((t + x).take(word_len(t) as int) =~= t.take(word_len(t) as int));
        assert(after_word(whole) =~= after_word(s) + x);
        words_of_parted_texts(after_word(s), c, more);
        assert(words(whole) =~= words(s) + words(more));
    }
}

proof fn same_start_same_words(a: Seq<char>, b: Seq<char>)
    requires
        trim_front(a) == trim_front(b),
    ensures
        words(a) == words(b),
{
}

proof fn white_space_has_no_words(s: Seq<char>)
    requires
        all_white(s),
    ensures
        trim_front(s).len() == 0,
        words(s) == Seq::<Seq<char>>::empty(),
    decreases s.len(),
{
    if s.len() > 0 {
        assert(is_white(s[0]));
        assert(all_white(s.drop_first()));
        white_space_has_no_words(s.drop_first());
    }
}

/// White space around a text adds no words.
pub proof fn surrounding_space_adds_no_words(front: Seq<char>, s: Seq<char>, back: Seq<char>)
    requires
        all_white(front),
        all_white(back),
    ensures
        words(front + s + back) == words(s),
{
    white_space_has_no_words(front);
    trim_front_concat(front, s);
    same_start_same_words(front + s, s);
    if back.len() > 0 {
        assert(is_white(back[0]));
        assert(back =~= seq![back[0]] + back.drop_first());
        assert(all_white(back.drop_first()));
        white_space_has_no_words(back.drop_first());
        words_of_parted_texts(front + s, back[0], back.drop_first());
        assert(words(front + s) + Seq::<Seq<char>>::empty() =~= words(front + s));
    } else {
        assert(front + s + back =~= front + s);
    }
}

proof fn trim_back_splits(s: Seq<char>)
    ensures
        trim_back(s).len() <= s.len(),
        trim_back(s) == s.take(trim_back(s).len() as int),
        all_white(s.skip(trim_back(s).len() as int)),
    decreases s.len(),
{
    if s.len() > 0 && is_white(s.last()) {
        trim_back_splits(s.drop_last());
        let n = trim_back(s).len() as int;
        assert(s.drop_last().take(n) =~= s.take(n));
        assert forall|i: int| 0 <= i < s.skip(n).len() implies is_white(#[trigger] s.skip(n)[i]) by {
            if i < s.skip(n).len() - 1 {
                assert(s.drop_last().skip(n)[i] == s.skip(n)[i]);
            }
        }
    } else {
        assert(s.take(s.len() as int) =~= s);
    }
}

/// Without the white space around it a text has the same words, and begins with the
/// first of them.
pub proof fn words_of_trimmed(s: Seq<char>)
    ensures
        words(trimmed(s)) == words(s),
        trimmed(s).len() > 0 ==> !is_white(trimmed(s)[0]) && trim_front(trimmed(s)) == trimmed(s),
{
    let t = trim_front(s);
    let n = trim_back(t).len() as int;
    trim_front_facts(s);
    same_start_same_words(t, s);
    trim_back_splits(t);
    assert(t =~= Seq::<char>::empty() + trimmed(s) + t.skip(n));
    surrounding_space_adds_no_words(Seq::empty(), trimmed(s), t.skip(n));
}

/// The first two words, taken one after the other.
pub proof fn first_words(s: Seq<char>)
    ensures
        first_word(s) == word_at(words(s), 0),
        first_word(after_word(s)) == word_at(words(s), 1),
{
    let rest = after_word(s);
    first_word_is_first(s);
    first_word_is_first(rest);
    trim_front_facts(s);
    if trim_front(s).len() == 0 {
        assert(rest =~= Seq::<char>::empty());
        assert(first_word(rest) =~= Seq::<char>::empty());
    } else if words(rest).len() > 0 {
        assert(words(s)[1] == words(rest)[0]);
    }
}

proof fn first_word_is_first(s: Seq<char>)
    ensures
        first_word(s) == word_at(words(s), 0),
        words(s).len() > 0 ==> words(s)[0].len() > 0,
{
    trim_front_facts(s);
    word_len_facts(trim_front(s));
    if trim_front(s).len() == 0 {
        assert(first_word(s) =~= Seq::<char>::empty());
    }
}

/// The pieces of `s` between separators; one more than there are separators.
pub open spec fn pieces(s: Seq<char>, sep: char) -> Seq<Seq<char>>
    decreases s.len(),
{
    if s.len() == 0 {
        seq![seq![]]
    } else {
        let before = pieces(s.drop_last(), sep);
        if s.last() == sep {
            before.push(seq![])
        } else {
            before.drop_last().push(before.last().push(s.last()))
        }
    }
}

pub open spec fn char_views(v: Seq<Vec<char>>) -> Seq<Seq<char>> {
    v.map_values(|p: Vec<char>| p@)
}

pub fn split(s: &[char], sep: char) -> (parts: Vec<Vec<char>>)
    ensures
        char_views(parts@) == pieces(s@, sep),
        parts@.len() >= 1,
{
    let mut done: Vec<Vec<char>> = Vec::new();
    let mut current: Vec<char> = Vec::new();
    let mut i: usize = 0;
    assert(char_views(done@).push(current@) =~= pieces(s@.take(0), sep));
    while i < s.len()
        invariant
            i <= s.len(),
            char_views(done@).push(current@) == pieces(s@.take(i as int), sep),
        decreases s.len() - i,
    {
        let ghost before = char_views(done@).push(current@);
        let ghost part = current@;
        assert(s@.take(i + 1).drop_last() =~= s@.take(i as int));
        assert(before.drop_last() =~= char_views(done@));
        if s[i] == sep {
            done.push(current);
            current = Vec::new();
            assert(char_views(done@) =~= before);
        } else {
            current.push(s[i]);
        }
        i = i + 1;
        assert(char_views(done@).push(current@) =~= pieces(s@.take(i as int), sep));
    }
    assert(s@.take(i as int) =~= s@);
    let ghost before = char_views(done@);
    done.push(current);
    assert(char_views(done@) =~= before.push(current@));
    done
}

pub open spec fn ascii_lower(c: char) -> char {
    if 'A' <= c <= 'Z' {
        (c as u32 + 32) as char
    } else {
        c
    }
}

pub open spec fn lowered(s: Seq<char>) -> Seq<char> {
    s.map_values(|c: char| ascii_lower(c))
}

/// ASCII letters in lower case.
pub fn to_ascii_lower(s: &[char]) -> (r: Vec<char>)
    ensures
        r@ == lowered(s@),
{
    let mut out: Vec<char> = Vec::new();
    let mut i: usize = 0;
    while i < s.len()
        invariant
            i <= s.len(),
            out@ =~= lowered(s@.take(i as int)),
        decreases s.len() - i,
    {
        let c: char = s[i];
        let lower: char = if 'A' <= c && c <= 'Z' {
            (c as u8 + 32) as char
        } else {
            c
        };
        out.push(lower);
        assert(lowered(s@.take(i + 1)) =~= lowered(s@.take(i as int)).push(ascii_lower(c)));
        i = i + 1;
    }
    assert(s@.take(i as int) =~= s@);
    out
}

/// `s` with every `pat`, from left to right, replaced by `with`.
pub open spec fn replaced(s: Seq<char>, pat: Seq<char>, with: Seq<char>) -> Seq<char>
    decreases s.len(),
{
    if s.len() == 0 || pat.len() == 0 {
        s
    } else if begins(s, pat) {
        with + replaced(s.skip(pat.len() as int), pat, with)
    } else {
        seq![s[0]] + replaced(s.drop_first(), pat, with)
    }
}

/// Replaces every occurrence of `pat`, which is not empty.
pub fn replace(text: &str, pat: &str, with: &str) -> (r: String)
    requires
        pat@.len() > 0,
    ensures
        r@ == replaced(text@, pat@, with@),
{
    let s: Vec<char> = to_chars(text);
    let p: Vec<char> = to_chars(pat);
    let w: Vec<char> = to_chars(with);
    let mut out: Vec<char> = Vec::new();
    let mut i: usize = 0;
    assert(s@.skip(0) =~= s@);
    assert(out@ + replaced(s@, p@, w@) =~= replaced(s@, p@, w@));
    while i < s.len()
        invariant
            i <= s.len(),
            s@ == text@,
            p@ == pat@,
            w@ == with@,
            p@.len() > 0,
            replaced(s@, p@, w@) == out@ + replaced(s@.skip(i as int), p@, w@),
        decreases s.len() - i,
    {
        let ghost rest = s@.skip(i as int);
        let ghost before = out@;
        if p.len() <= s.len() - i && matches_at(s.as_slice(), i, p.as_slice()) {
            let mut k: usize = 0;
            while k < w.len()
                invariant
                    k <= w.len(),
                    out@ =~= before + w@.take(k as int),
                decreases w.len() - k,
            {
                out.push(w[k]);
                k = k + 1;
            }
            assert(rest.take(p@.len() as int) =~= s@.subrange(i as int, i + p@.len()));
            assert(rest.skip(p@.len() as int) =~= s@.skip(i + p@.len()));
            i = i + p.len();
            assert(out@ + replaced(s@.skip(i as int), p@, w@) =~= before + (w@ + replaced(
                s@.skip(i as int),
                p@,
                w@,
            )));
        } else {
            proof {
                if p@.len() <= rest.len() {
                    assert(rest.take(p@.len() as int) =~= s@.subrange(i as int, i + p@.len()));
                }
                assert(rest.drop_first() =~= s@.skip(i + 1));
            }
            out.push(s[i]);
            i = i + 1;
            assert(out@ + replaced(s@.skip(i as int), p@, w@) =~= before + (seq![s@[i - 1]]
                + replaced(s@.skip(i as int), p@, w@)));
        }
    }
    assert(s@.skip(i as int) =~= Seq::<char>::empty());
    assert(out@ + Seq::<char>::empty() =~= out@);
    from_chars(out.as_slice())
}

pub open spec fn is_digit(c: char) -> bool {
    '0' <= c <= '9'
}

pub open spec fn all_digits(s: Seq<char>) -> bool {
    forall|i: int| 0 <= i < s.len() ==> is_digit(#[trigger] s[i])
}

/// The number that decimal digits stand for.
pub open spec fn digits_value(s: Seq<char>) -> nat
    decreases s.len(),
{
    if s.len() == 0 {
        0
    } else {
        10 * digits_value(s.drop_last()) + (s.last() as u32 - '0' as u32) as nat
    }
}

/// The number between `min` and `max` that a text stands for: an optional plus,
/// or a minus where `min` is negative, before one or more digits.
pub open spec fn number_in(s: Seq<char>, min: int, max: int) -> Option<int> {
    let negative = s.len() > 0 && s[0] == '-' && min < 0;
    let signed = negative || (s.len() > 0 && s[0] == '+');
    let magnitude = if signed { s.skip(1) } else { s };
    let n = if negative { -(digits_value(magnitude) as int) } else { digits_value(magnitude) as int };
    if magnitude.len() > 0 && all_digits(magnitude) && min <= n <= max {
        Some(n)
    } else {
        None
    }
}

/// Where digits are read up to: more than any number that is asked for.
const DIGITS_CAP: u128 = 1_000_000_000_000_000_000_000_000_000_000;

/// Reads an integer.
pub fn parse_int(s: &[char], min: i128, max: i128) -> (n: Option<i128>)
    requires
        -0x1_0000_0000_0000_0000 <= min <= 0,
        0 <= max <= 0x1_0000_0000_0000_0000,
    ensures
        match n {
            Some(n) => number_in(s@, min as int, max as int) == Some(n as int),
            None => number_in(s@, min as int, max as int) is None,
        },
{
    let negative = s.len() > 0 && s[0] == '-' && min < 0;
    let signed = negative || (s.len() > 0 && s[0] == '+');
    let start: usize = if signed { 1 } else { 0 };
    let ghost magnitude = if signed { s@.skip(1) } else { s@ };
    assert(magnitude =~= s@.skip(start as int));
    if start >= s.len() {
        return None;
    }
    let mut value: u128 = 0;
    let mut i: usize = start;
    assert(magnitude.take(0) =~= Seq::<char>::empty());
    while i < s.len()
        invariant
            start <= i <= s.len(),
            magnitude == s@.skip(start as int),
            magnitude == (if signed { s@.skip(1) } else { s@ }),
            negative == (s@.len() > 0 && s@[0] == '-' && min < 0),
            signed == (negative || (s@.len() > 0 && s@[0] == '+')),
            forall|k: int| 0 <= k < i - start ==> is_digit(#[trigger] magnitude[k]),
            value == (if digits_value(magnitude.take(i - start)) < DIGITS_CAP {
                digits_value(magnitude.take(i - start)) as int
            } else {
                DIGITS_CAP as int
            }),
        decreases s.len() - i,
    {
        let c: char = s[i];
        assert(magnitude[i - start] == c);
        if !('0' <= c && c <= '9') {
            assert(!is_digit(magnitude[i - start]));
            return None;
        }
        assert(magnitude.take(i - start + 1).drop_last() =~= magnitude.take(i - start));
        let d: u32 = c as u32 - '0' as u32;
        let next: u128 = value * 10 + d as u128;
        value = if next < DIGITS_CAP { next } else { DIGITS_CAP };
        i = i + 1;
    }
    assert(magnitude.take(i - start) =~= magnitude);
    let n: i128 = if negative { -(value as i128) } else { value as i128 };
    if min <= n && n <= max {
        Some(n)
    } else {
        None
    }
}

/// Whether two texts are the same.
pub fn same(a: &[char], b: &str) -> (yes: bool)
    ensures
        yes == (a@ == b@),
{
    let p: Vec<char> = to_chars(b);
    if p.len() != a.len() {
        return false;
    }
    assert(a@.subrange(0, a@.len() as int) =~= a@);
    matches_at(a, 0, p.as_slice())
}

/// A text that neither begins nor ends with white space, or is empty.
pub open spec fn tight(s: Seq<char>) -> bool {
    s.len() > 0 ==> !is_white(s[0]) && !is_white(s.last())
}

proof fn white_is_trimmed_back(s: Seq<char>, back: Seq<char>)
    requires
        all_white(back),
        s.len() > 0 ==> !is_white(s.last()),
    ensures
        trim_back(s + back) == s,
    decreases back.len(),
{
    if back.len() == 0 {
        assert(s + back =~= s);
    } else {
        assert(is_white(back[back.len() - 1]));
        assert((s + back).drop_last() =~= s + back.drop_last());
        assert(all_white(back.drop_last())) by {
            assert forall|i: int| 0 <= i < back.drop_last().len() implies is_white(
                #[trigger] back.drop_last()[i],
            ) by {
                assert(is_white(back[i]));
            }
        }
        white_is_trimmed_back(s, back.drop_last());
    }
}

/// Trimming takes all the white space around a text away, and nothing of the text itself.
pub proof fn trimming_gives_the_text_back(front: Seq<char>, s: Seq<char>, back: Seq<char>)
    requires
        all_white(front),
        all_white(back),
        tight(s),
    ensures
        trimmed(front + s + back) == s,
        trimmed(s) == s,
{
    white_space_has_no_words(front);
    trim_front_concat(front, s + back);
    assert(front + s + back =~= front + (s + back));
    if s.len() > 0 {
        assert((s + back)[0] == s[0]);
        assert(trim_front(s + back) == s + back);
    } else {
        assert(s + back =~= back);
        white_space_has_no_words(back);
        assert(trim_front(back) =~= s);
    }
    white_is_trimmed_back(s, back);
    white_is_trimmed_back(s, seq![]);
    assert(s + Seq::<char>::empty() =~= s);
}

/// What is found is the first place where the pattern stands; where none is found it stands
/// nowhere.
pub proof fn found_place_is_first(s: Seq<char>, pat: Seq<char>, from: int)
    requires
        0 <= from,
    ensures
        match find_from(s, pat, from) {
            Some(at) => {
                &&& from <= at
                &&& at + pat.len() <= s.len()
                &&& s.subrange(at, at + pat.len()) == pat
                &&& forall|k: int|
                    from <= k < at ==> #[trigger] s.subrange(k, k + pat.len()) != pat
            },
            None => forall|k: int|
                from <= k && k + pat.len() <= s.len() ==> #[trigger] s.subrange(k, k + pat.len())
                    != pat,
        },
    decreases s.len() + 1 - from,
{
    if from + pat.len() <= s.len() && s.subrange(from, from + pat.len()) != pat {
        found_place_is_first(s, pat, from + 1);
    }
}

/// A single character is found where it first stands.
pub proof fn found_character_is_first(before: Seq<char>, c: char, after: Seq<char>, pat: Seq<char>)
    requires
        pat == seq![c],
        forall|i: int| 0 <= i < before.len() ==> #[trigger] before[i] != c,
    ensures
        find_from(before + pat + after, pat, 0) == Some(before.len() as int),
        (before + pat + after).take(before.len() as int) == before,
        (before + pat + after).skip(before.len() as int + 1) == after,
{
    let s = before + pat + after;
    let n = before.len() as int;
    found_place_is_first(s, pat, 0);
    assert(s.subrange(n, n + 1) =~= pat);
    match find_from(s, pat, 0) {
        Some(at) => {
            if at < n {
                assert(s.subrange(at, at + 1)[0] == before[at]);
                assert(pat[0] == c);
            }
        },
        None => {},
    }
    assert(s.take(n) =~= before);
    assert(s.skip(n + 1) =~= after);
}

/// The pieces of a text are what stands between the separators: a text without separators is
/// one piece, and a text behind a further separator adds its pieces.
pub proof fn pieces_stand_between_separators(a: Seq<char>, sep: char, b: Seq<char>)
    requires
        forall|i: int| 0 <= i < b.len() ==> #[trigger] b[i] != sep,
    ensures
        pieces(b, sep) == seq![b],
        pieces(a + seq![sep] + b, sep) == pieces(a, sep).push(b),
    decreases b.len(),
{
    let whole = a + seq![sep] + b;
    if b.len() == 0 {
        assert(whole =~= a.push(sep));
        assert(whole.drop_last() =~= a);
        assert(b =~= seq![]);
    } else {
        let fewer = b.drop_last();
        assert forall|i: int| 0 <= i < fewer.len() implies #[trigger] fewer[i] != sep by {
            assert(fewer[i] == b[i]);
        }
        pieces_stand_between_separators(a, sep, fewer);
        assert(whole.drop_last() =~= a + seq![sep] + fewer);
        assert(b.last() == b[b.len() - 1]);
        assert(whole.last() == b.last());
        assert(fewer.push(b.last()) =~= b);
        assert(pieces(a, sep).push(fewer).drop_last() =~= pieces(a, sep));
        assert(seq![fewer].drop_last().push(fewer.push(b.last())) =~= seq![b]);
    }
}

/// A pattern is replaced wherever it stands, and the text between stays: what begins with the
/// pattern goes on with its replacement, and what does not keeps its first character.
pub proof fn patterns_are_replaced(
    c: char,
    rest: Seq<char>,
    pat: Seq<char>,
    with: Seq<char>,
)
    requires
        pat.len() > 0,
    ensures
        replaced(pat + rest, pat, with) == with + replaced(rest, pat, with),
        !begins(seq![c] + rest, pat) ==> replaced(seq![c] + rest, pat, with) == seq![c] + replaced(
            rest,
            pat,
            with,
        ),
        replaced(seq![], pat, with) == Seq::<char>::empty(),
{
    assert((pat + rest).take(pat.len() as int) =~= pat);
    assert((pat + rest).skip(pat.len() as int) =~= rest);
    assert((seq![c] + rest).drop_first() =~= rest);
    assert((seq![c] + rest)[0] == c);
}

/// Leading patterns are stripped, all of them and nothing else.
pub proof fn leading_patterns_are_stripped(pat: Seq<char>, rest: Seq<char>)
    requires
        pat.len() > 0,
    ensures
        strip_all(pat + rest, pat) == strip_all(rest, pat),
        !begins(rest, pat) ==> strip_all(rest, pat) == rest,
{
    assert((pat + rest).take(pat.len() as int) =~= pat);
    assert((pat + rest).skip(pat.len() as int) =~= rest);
}

/// Only capital letters of ASCII change when a text is lowered, each to its small letter.
pub proof fn lowering_changes_capitals_only(s: Seq<char>, i: int)
    requires
        0 <= i < s.len(),
    ensures
        lowered(s).len() == s.len(),
        'A' <= s[i] <= 'Z' ==> lowered(s)[i] as u32 == s[i] as u32 + 32,
        !('A' <= s[i] <= 'Z') ==> lowered(s)[i] == s[i],
{
}

proof fn digits_are_read(n: nat)
    ensures
        digits_value(dec_digits(n)) == n,
        all_digits(dec_digits(n)),
        dec_digits(n).len() > 0,
    decreases n,
{
    let s = dec_digits(n);
    if n < 10 {
        assert(s.drop_last() =~= seq![]);
        assert(s.last() == digit(n as int));
        assert(digits_value(s.drop_last()) == 0);
    } else {
        digits_are_read(n / 10);
        assert(s.drop_last() =~= dec_digits(n / 10));
        assert(s.last() == digit((n % 10) as int));
        assert forall|i: int| 0 <= i < s.len() implies is_digit(#[trigger] s[i]) by {
            if i < s.len() - 1 {
                assert(s[i] == dec_digits(n / 10)[i]);
            }
        }
    }
}

/// A number that is written in decimal is read back, with its sign, wherever it is within the
/// limits, and nothing else is read where it is not.
pub proof fn written_numbers_are_read_back(n: int, min: int, max: int)
    requires
        min <= 0 <= max,
    ensures
        min <= n <= max ==> number_in(dec(n), min, max) == Some(n),
        !(min <= n <= max) ==> number_in(dec(n), min, max) is None,
{
    let m = if n < 0 {
        (-n) as nat
    } else {
        n as nat
    };
    digits_are_read(m);
    let d = dec_digits(m);
    assert(is_digit(d[0]));
    if n < 0 {
        assert(dec(n)[0] == '-');
        assert(dec(n).skip(1) =~= d);
        if min == 0 {
            assert(!is_digit(dec(n)[0]));
        }
    }
}

/// The first piece is what stands before the first separator.
pub proof fn first_piece_stands_before_the_separator(a: Seq<char>, sep: char, b: Seq<char>)
    requires
        forall|i: int| 0 <= i < a.len() ==> #[trigger] a[i] != sep,
    ensures
        pieces(a + seq![sep] + b, sep).len() >= 2,
        pieces(a + seq![sep] + b, sep)[0] == a,
    decreases b.len(),
{
    let whole = a + seq![sep] + b;
    if b.len() == 0 {
        pieces_stand_between_separators(seq![], sep, a);
        pieces_stand_between_separators(a, sep, b);
    } else {
        assert(whole.drop_last() =~= a + seq![sep] + b.drop_last());
        first_piece_stands_before_the_separator(a, sep, b.drop_last());
        let before = pieces(whole.drop_last(), sep);
        if whole.last() == sep {
            assert(pieces(whole, sep)[0] == before[0]);
        } else {
            assert(pieces(whole, sep)[0] == before[0]);
        }
    }
}

/// A text without white space is its own first word, whatever stands behind white space.
pub proof fn first_word_ends_at_white_space(w: Seq<char>, c: char, rest: Seq<char>)
    requires
        w.len() > 0,
        forall|i: int| 0 <= i < w.len() ==> !is_white(#[trigger] w[i]),
        is_white(c),
    ensures
        first_word(w + seq![c] + rest) == w,
        after_word(w + seq![c] + rest) == seq![c] + rest,
{
    let s = w + seq![c] + rest;
    let x = seq![c] + rest;
    assert(s =~= w + x);
    assert(s[0] == w[0]);
    assert(trim_front(s) == s);
    whole_word(w);
    assert(x[0] == c);
    word_len_concat(w, x);
    assert(s.take(w.len() as int) =~= w);
    assert(s.skip(w.len() as int) =~= x);
}

proof fn whole_word(w: Seq<char>)
    requires
        forall|i: int| 0 <= i < w.len() ==> !is_white(#[trigger] w[i]),
    ensures
        word_len(w) == w.len(),
    decreases w.len(),
{
    if w.len() > 0 {
        assert(!is_white(w[0]));
        assert forall|i: int| 0 <= i < w.drop_first().len() implies !is_white(
            #[trigger] w.drop_first()[i],
        ) by {
            assert(w.drop_first()[i] == w[i + 1]);
        }
        whole_word(w.drop_first());
    }
}

/// White space before a word does not count.
pub proof fn leading_white_space_does_not_count(c: char, s: Seq<char>)
    requires
        is_white(c),
    ensures
        first_word(seq![c] + s) == first_word(s),
        after_word(seq![c] + s) == after_word(s),
{
    let x = seq![c] + s;
    assert(x[0] == c);
    assert(x.drop_first() =~= s);
}

/// A text begins with what it was put together from first, and ends with what came last.
pub proof fn texts_begin_and_end_with_their_parts(a: Seq<char>, b: Seq<char>)
    ensures
        begins(a + b, a),
        ends(a + b, b),
        begins(a, b) ==> a == b + a.skip(b.len() as int),
        ends(a, b) ==> a == a.take(a.len() - b.len()) + b,
        b.len() > a.len() ==> !begins(a, b) && !ends(a, b),
{
    assert((a + b).take(a.len() as int) =~= a);
    assert((a + b).skip(a.len() as int) =~= b);
    if begins(a, b) {
        assert(a =~= b + a.skip(b.len() as int));
    }
    if ends(a, b) {
        assert(a =~= a.take(a.len() - b.len()) + b);
    }
}

} // verus!
