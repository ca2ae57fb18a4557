//! Text as a sequence of characters: finding a pattern, splitting on it,
//! splitting into words, joining, and moving between strings and characters.

use vstd::prelude::*;
use vstd::slice::slice_subrange;

verus! {

/// `pat` stands in `s` at index `i`.
pub open spec fn occurs_at(s: Seq<char>, pat: Seq<char>, i: int) -> bool {
    0 <= i && i + pat.len() <= s.len() && s.subrange(i, i + pat.len()) == pat
}

/// `pat` stands in `s` at index `i` and at no index before it.
pub open spec fn is_first_occurrence(s: Seq<char>, pat: Seq<char>, i: int) -> bool {
    occurs_at(s, pat, i) && forall|j: int| 0 <= j < i ==> !occurs_at(s, pat, j)
}

/// The index of the first occurrence of `pat` in `s`, if there is one.
pub open spec fn find(s: Seq<char>, pat: Seq<char>) -> Option<int> {
    if exists|i: int| is_first_occurrence(s, pat, i) {
        Some(choose|i: int| is_first_occurrence(s, pat, i))
    } else {
        None
    }
}

/// The pieces of `s` between the occurrences of `pat`, taken from the left
/// without overlap. There is always at least one piece; an empty `pat` splits
/// nothing.
pub open spec fn split(s: Seq<char>, pat: Seq<char>) -> Seq<Seq<char>>
    decreases s.len(),
{
    match find(s, pat) {
        Some(i) if pat.len() > 0 => seq![s.take(i)] + split(s.skip(i + pat.len()), pat),
        _ => seq![s],
    }
}

/// ASCII white space: space, tab, line feed, form feed and carriage return.
pub open spec fn is_space(c: char) -> bool {
    c == ' ' || c == '\t' || c == '\n' || c == '\x0C' || c == '\r'
}

/// The number of characters of `s` before its first white space.
pub open spec fn word_len(s: Seq<char>) -> nat
    decreases s.len(),
{
    if s.len() == 0 || is_space(s[0]) {
        0
    } else {
        1 + word_len(s.drop_first())
    }
}

/// The words of `s`: its maximal runs of characters that are not white space,
/// from left to right.
pub open spec fn words(s: Seq<char>) -> Seq<Seq<char>>
    decreases s.len(),
{
    if s.len() == 0 {
        Seq::empty()
    } else if is_space(s[0]) {
        words(s.drop_first())
    } else {
        proof {
            lemma_word_len_bound(s);
        }
        seq![s.take(word_len(s) as int)] + words(s.skip(word_len(s) as int))
    }
}

/// The pieces in order, with `sep` between each two neighbours.
pub open spec fn join(parts: Seq<Seq<char>>, sep: Seq<char>) -> Seq<char>
    decreases parts.len(),
{
    if parts.len() == 0 {
        Seq::empty()
    } else if parts.len() == 1 {
        parts[0]
    } else {
        join(parts.drop_last(), sep) + sep + parts.last()
    }
}

/// What each slice of `parts` holds, in order.
pub open spec fn views(parts: Seq<&[char]>) -> Seq<Seq<char>> {
    parts.map_values(|p: &[char]| p@)
}

/// A word is no longer than the text it starts.
pub proof fn lemma_word_len_bound(s: Seq<char>)
    ensures
        word_len(s) <= s.len(),
    decreases s.len(),
{
    if s.len() > 0 && !is_space(s[0]) {
        lemma_word_len_bound(s.drop_first());
    }
}

/// An occurrence with none before it is the one that `find` gives.
pub proof fn lemma_find_is(s: Seq<char>, pat: Seq<char>, i: int)
    requires
        is_first_occurrence(s, pat, i),
    ensures
        find(s, pat) == Some(i),
{
}

/// Text that is not empty and holds no white space.
pub open spec fn is_word(s: Seq<char>) -> bool {
    s.len() > 0 && forall|k: int| 0 <= k < s.len() ==> !is_space(#[trigger] s[k])
}

/// No white space stands before the first white space.
pub proof fn lemma_word_len_no_space(s: Seq<char>, k: int)
    requires
        0 <= k < word_len(s),
    ensures
        k < s.len(),
        !is_space(s[k]),
    decreases s.len(),
{
    if k > 0 {
        lemma_word_len_no_space(s.drop_first(), k - 1);
    }
}

/// Each of the words of a text is a word: it is not empty and holds no white
/// space.
pub proof fn lemma_words_are_words(s: Seq<char>, i: int)
    requires
        0 <= i < words(s).len(),
    ensures
        is_word(words(s)[i]),
    decreases s.len(),
{
    if is_space(s[0]) {
        lemma_words_are_words(s.drop_first(), i);
    } else {
        lemma_word_len_bound(s);
        let n = word_len(s) as int;
        if i == 0 {
            assert forall|k: int| 0 <= k < n implies !is_space(#[trigger] s.take(n)[k]) by {
                lemma_word_len_no_space(s, k);
            }
        } else {
            lemma_words_are_words(s.skip(n), i - 1);
        }
    }
}

/// Where `pat` occurs at `j`, it has a first occurrence, at `j` or before.
pub proof fn lemma_first_occurrence_exists(s: Seq<char>, pat: Seq<char>, j: int)
    requires
        occurs_at(s, pat, j),
    ensures
        find(s, pat) matches Some(i) && i <= j,
    decreases j,
{
    if forall|k: int| 0 <= k < j ==> !occurs_at(s, pat, k) {
        lemma_find_is(s, pat, j);
    } else {
        let k = choose|k: int| 0 <= k < j && occurs_at(s, pat, k);
        lemma_first_occurrence_exists(s, pat, k);
    }
}

/// Where `s` is `head`, then `pat`, then `tail`, and `pat` occurs in `s` at
/// no index before the end of `head`, the first piece of `s` is `head` and the
/// others are the pieces of `tail`.
pub proof fn lemma_split_at_first(head: Seq<char>, pat: Seq<char>, tail: Seq<char>)
    requires
        pat.len() > 0,
        forall|j: int| 0 <= j < head.len() ==> !occurs_at(head + pat + tail, pat, j),
    ensures
        split(head + pat + tail, pat) == seq![head] + split(tail, pat),
{
    let s = head + pat + tail;
    let n = head.len() as int;
    assert(s.subrange(n, n + pat.len()) == pat);
    lemma_find_is(s, pat, n);
    assert(s.take(n) == head);
    assert(s.skip(n + pat.len()) == tail);
}

/// A piece put before other pieces is joined to them by one `sep`.
pub proof fn lemma_join_first(first: Seq<char>, parts: Seq<Seq<char>>, sep: Seq<char>)
    requires
        parts.len() >= 1,
    ensures
        join(seq![first] + parts, sep) == first + sep + join(parts, sep),
    decreases parts.len(),
{
    let all = seq![first] + parts;
    if parts.len() == 1 {
        assert(all.drop_last() == seq![first]);
        assert(join(seq![first], sep) == first);
    } else {
        assert(all.drop_last() == seq![first] + parts.drop_last());
        lemma_join_first(first, parts.drop_last(), sep);
    }
}

/// Joining the pieces that a pattern splits a text into, with the pattern
/// between them, gives the text back.
pub proof fn lemma_join_split(s: Seq<char>, pat: Seq<char>)
    requires
        pat.len() > 0,
    ensures
        join(split(s, pat), pat) == s,
    decreases s.len(),
{
    match find(s, pat) {
        Some(i) => {
            let tail = s.skip(i + pat.len());
            lemma_join_split(tail, pat);
            lemma_join_first(s.take(i), split(tail, pat), pat);
        },
        None => {},
    }
}

/// The characters of a string, in a vector.
pub fn to_chars(text: &str) -> (chars: Vec<char>)
    ensures
        chars@ == text@,
{
    let mut chars: Vec<char> = Vec::new();
    for c in it: text.chars()
        invariant
            it.seq() == text@,
            chars@ == it.seq().take(it.index() as int),
    {
        chars.push(c);
    }
    chars
}

/// Appends the characters of `chars` to `out`.
pub fn push_chars(out: &mut String, chars: &[char])
    ensures
        final(out)@ == old(out)@ + chars@,
{
    let mut i: usize = 0;
    while i < chars.len()
        invariant
            i <= chars.len(),
            out@ == old(out)@ + chars@.take(i as int),
        decreases chars.len() - i,
    {
        out.push(chars[i]);
        i += 1;
    }
}

/// A string of the characters of `chars`.
pub fn to_text(chars: &[char]) -> (text: String)
    ensures
        text@ == chars@,
{
    let mut text = String::new();
    push_chars(&mut text, chars);
    text
}

/// Whether `chars` spells `text`.
pub fn spells(chars: &[char], text: &str) -> (same: bool)
    ensures
        same == (chars@ == text@),
{
    let mut i: usize = 0;
    for c in it: text.chars()
        invariant
            it.seq() == text@,
            i == it.index(),
            i <= chars.len(),
            chars@.take(i as int) == text@.take(i as int),
    {
        if i >= chars.len() || chars[i] != c {
            return false;
        }
        i += 1;
    }
    proof {
        assert(text@.take(i as int) == text@);
        if i == chars.len() {
            assert(chars@.take(i as int) == chars@);
        }
    }
    i == chars.len()
}

/// Whether `pat` stands in `s` at index `i`.
pub fn stands_at(s: &[char], pat: &[char], i: usize) -> (found: bool)
    ensures
        found == occurs_at(s@, pat@, i as int),
{
    if pat.len() > s.len() || i > s.len() - pat.len() {
        return false;
    }
    let mut k: usize = 0;
    while k < pat.len()
        invariant
            k <= pat.len(),
            i + pat.len() <= s.len(),
            s@.subrange(i as int, i + k) == pat@.take(k as int),
        decreases pat.len() - k,
    {
        if s[i + k] != pat[k] {
            return false;
        }
        k += 1;
    }
    proof {
        assert(pat@.take(k as int) == pat@);
    }
    true
}

/// The index of the first occurrence of `pat` in `s`.
pub fn find_first(s: &[char], pat: &[char]) -> (at: Option<usize>)
    ensures
        match at {
            Some(i) => find(s@, pat@) == Some(i as int),
            None => find(s@, pat@) is None,
        },
{
    if pat.len() > s.len() {
        return None;
    }
    let last: usize = s.len() - pat.len();
    let mut i: usize = 0;
    loop
        invariant
            last == s@.len() - pat@.len(),
            i <= last,
            forall|j: int| 0 <= j < i ==> !occurs_at(s@, pat@, j),
        decreases last - i,
    {
        if stands_at(s, pat, i) {
            proof {
                lemma_find_is(s@, pat@, i as int);
            }
            return Some(i);
        }
        if i == last {
            return None;
        }
        i += 1;
    }
}

/// The pieces of `s` between the occurrences of `pat`.
pub fn split_on<'a>(s: &'a [char], pat: &[char]) -> (parts: Vec<&'a [char]>)
    ensures
        views(parts@) == split(s@, pat@),
{
    let mut parts: Vec<&'a [char]> = Vec::new();
    if pat.len() == 0 {
        parts.push(s);
        return parts;
    }
    let mut rest: &'a [char] = s;
    loop
        invariant_except_break
            split(s@, pat@) == views(parts@) + split(rest@, pat@),
        invariant
            pat@.len() > 0,
        ensures
            views(parts@) == split(s@, pat@),
        decreases rest@.len(),
    {
        match find_first(rest, pat) {
            Some(i) => {
                let end: usize = rest.len();
                parts.push(slice_subrange(rest, 0, i));
                rest = slice_subrange(rest, i + pat.len(), end);
            },
            None => {
                parts.push(rest);
                break;
            },
        }
    }
    parts
}

/// The words of `s`.
pub fn split_words<'a>(s: &'a [char]) -> (parts: Vec<&'a [char]>)
    ensures
        views(parts@) == words(s@),
{
    let mut parts: Vec<&'a [char]> = Vec::new();
    let mut i: usize = 0;
    proof {
        assert(s@.skip(0) == s@);
    }
    while i < s.len()
        invariant
            i <= s.len(),
            words(s@) == views(parts@) + words(s@.skip(i as int)),
        decreases s.len() - i,
    {
        if is_ascii_whitespace(s[i]) {
            proof {
                assert(s@.skip(i as int).drop_first() == s@.skip(i + 1));
            }
            i += 1;
        } else {
            let mut j: usize = i + 1;
            proof {
                assert(s@.skip(i as int).drop_first() == s@.skip(i + 1));
            }
            while j < s.len() && !is_ascii_whitespace(s[j])
                invariant
                    i < j <= s.len(),
                    word_len(s@.skip(i as int)) == (j - i) + word_len(s@.skip(j as int)),
                decreases s.len() - j,
            {
                proof {
                    assert(s@.skip(j as int).drop_first() == s@.skip(j + 1));
                }
                j += 1;
            }
                parts.push(slice_subrange(s, i, j));
            proof {
                let tail = s@.skip(i as int);
                assert(tail.take(j - i) == s@.subrange(i as int, j as int));
                assert(tail.skip(j - i) == s@.skip(j as int));
            }
            i = j;
        }
    }
    parts
}

/// Whether `c` is ASCII white space.
pub fn is_ascii_whitespace(c: char) -> (space: bool)
    ensures
        space == is_space(c),
{
    c == ' ' || c == '\t' || c == '\n' || c == '\x0C' || c == '\r'
}

} // verus!
