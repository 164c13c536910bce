//! Case-insensitive text matching.
//!
//! `str::to_lowercase` maps a character to a single ASCII letter only when
//! it is that letter in upper or lower case, or the Kelvin sign U+212A (to
//! 'k'). One more character lowercases to text holding an ASCII letter:
//! U+0130, capital I with dot above, becomes 'i' followed by the combining
//! dot U+0307. Every other character lowercases to characters outside
//! ASCII letters. `fold` below leaves U+0130 as it is. For the matching done
//! here the two agree: a lowercased text that holds U+0130's 'i' also holds
//! the combining dot, which no word compared for equality holds; the words
//! searched for inside a text ('#', "sharp", "flat", 'b') hold no 'i'; and a
//! key's first letter is only read when it is a note letter, which 'i' is
//! not. So comparing a lowercased string with these ASCII words is
//! comparing, character by character, under `fold`.

use vstd::prelude::*;

verus! {

/// The character that `c` lowercases to, as far as ASCII letters are concerned.
pub open spec fn fold(c: char) -> char {
    if 'A' <= c && c <= 'Z' {
        ((c as u32) + 32) as char
    } else if c == '\u{212A}' {
        'k'
    } else {
        c
    }
}

/// Whether `c` lowercases to `target`.
pub fn folds_to(c: char, target: char) -> (b: bool)
    ensures
        b == (fold(c) == target),
{
    let code = c as u32;
    if 65 <= code && code <= 90 {
        code + 32 == target as u32
    } else if c == '\u{212A}' {
        target == 'k'
    } else {
        c == target
    }
}


/// The characters of a string, in order.
pub fn chars_of(s: &str) -> (v: Vec<char>)
    ensures
        v@ == s@,
{
    let mut v: Vec<char> = Vec::new();
    for c in it: s.chars()
        invariant
            v@ == it.seq().subrange(0, it.index() as int),
    {
        v.push(c);
    }
    v
}


/// `w` occurs at position `i` of `k` once `k` is lowercased.
pub open spec fn folded_at(k: Seq<char>, i: int, w: Seq<char>) -> bool {
    &&& 0 <= i
    &&& i + w.len() <= k.len()
    &&& forall|j: int| 0 <= j < w.len() ==> #[trigger] fold(k[i + j]) == w[j]
}

/// The lowercased `k` contains `w`.
pub open spec fn contains_folded(k: Seq<char>, w: Seq<char>) -> bool {
    exists|i: int| folded_at(k, i, w)
}

/// The lowercased `k` starts with `w`.
pub open spec fn starts_folded(k: Seq<char>, w: Seq<char>) -> bool {
    folded_at(k, 0, w)
}

/// Whether `w` occurs at position `i` of `k` once `k` is lowercased.
pub fn matches_at(k: &Vec<char>, i: usize, w: &[char]) -> (b: bool)
    ensures
        b == folded_at(k@, i as int, w@),
{
    if i > k.len() || w.len() > k.len() - i {
        return false;
    }
    let mut j: usize = 0;
    while j < w.len()
        invariant
            i + w.len() <= k.len(),
            j <= w.len(),
            forall|m: int| 0 <= m < j ==> #[trigger] fold(k@[i + m]) == w@[m],
        decreases w.len() - j,
    {
        if !folds_to(k[i + j], w[j]) {
            return false;
        }
        j = j + 1;
    }
    true
}

/// Whether the lowercased `k` contains `w`.
pub fn contains_word(k: &Vec<char>, w: &[char]) -> (b: bool)
    ensures
        b == contains_folded(k@, w@),
{
    let mut i: usize = 0;
    while i < k.len()
        invariant
            i <= k@.len(),
            forall|m: int| 0 <= m < i ==> !folded_at(k@, m, w@),
        decreases k.len() - i,
    {
        if matches_at(k, i, w) {
            return true;
        }
        i = i + 1;
    }
    let b = matches_at(k, i, w);
    proof {
        if !b {
            assert forall|m: int| !folded_at(k@, m, w@) by {
                if 0 <= m < i {
                } else if m > i {
                    assert(!(m + w@.len() <= k@.len()));
                }
            }
        }
    }
    b
}


/// What `str::to_lowercase` returns for a string.
pub uninterp spec fn spec_lowercase(s: Seq<char>) -> Seq<char>;

/// `str::to_lowercase`: the Unicode lowercase of the string, a function of
/// the string alone.
#[verifier::external_body]
pub(crate) fn lowercase(s: &str) -> (r: String)
    ensures
        r@ == spec_lowercase(s@),
{
    s.to_lowercase()
}

/// `w` occurs in `k` at position `i`.
pub open spec fn occurs_at(k: Seq<char>, i: int, w: Seq<char>) -> bool {
    &&& 0 <= i
    &&& i + w.len() <= k.len()
    &&& forall|j: int| 0 <= j < w.len() ==> #[trigger] k[i + j] == w[j]
}

/// `k` contains `w`.
pub open spec fn contains_text(k: Seq<char>, w: Seq<char>) -> bool {
    exists|i: int| occurs_at(k, i, w)
}

/// Whether `w` occurs in `k` at position `i`.
pub fn text_at(k: &Vec<char>, i: usize, w: &Vec<char>) -> (b: bool)
    ensures
        b == occurs_at(k@, i as int, w@),
{
    if i > k.len() || w.len() > k.len() - i {
        return false;
    }
    let mut j: usize = 0;
    while j < w.len()
        invariant
            i + w.len() <= k.len(),
            j <= w.len(),
            forall|m: int| 0 <= m < j ==> #[trigger] k@[i + m] == w@[m],
        decreases w.len() - j,
    {
        if k[i + j] != w[j] {
            return false;
        }
        j = j + 1;
    }
    true
}

/// Whether `k` contains `w`.
pub fn contains_chars(k: &Vec<char>, w: &Vec<char>) -> (b: bool)
    ensures
        b == contains_text(k@, w@),
{
    let mut i: usize = 0;
    while i < k.len()
        invariant
            i <= k@.len(),
            forall|m: int| 0 <= m < i ==> !occurs_at(k@, m, w@),
        decreases k.len() - i,
    {
        if text_at(k, i, w) {
            return true;
        }
        i = i + 1;
    }
    let b = text_at(k, i, w);
    proof {
        if !b {
            assert forall|m: int| !occurs_at(k@, m, w@) by {
                if 0 <= m < i {
                } else if m > i {
                    assert(!(m + w@.len() <= k@.len()));
                }
            }
        }
    }
    b
}

/// The lowercased `s` equals `w`.
pub open spec fn equals_folded(s: Seq<char>, w: Seq<char>) -> bool {
    s.len() == w.len() && forall|i: int| 0 <= i < s.len() ==> #[trigger] fold(s[i]) == w[i]
}

/// A text lowercases to at most one word.
pub proof fn lemma_folded_unique(s: Seq<char>, w1: Seq<char>, w2: Seq<char>)
    requires
        equals_folded(s, w1),
        equals_folded(s, w2),
    ensures
        w1 == w2,
{
    assert forall|i: int| 0 <= i < w1.len() implies w1[i] == w2[i] by {
        assert(fold(s[i]) == w1[i]);
        assert(fold(s[i]) == w2[i]);
    }
    assert(w1 =~= w2);
}

/// Whether the lowercased `s` equals `w`.
pub fn same_folded(s: &Vec<char>, w: &Vec<char>) -> (b: bool)
    ensures
        b == equals_folded(s@, w@),
{
    if s.len() != w.len() {
        return false;
    }
    let mut i: usize = 0;
    while i < s.len()
        invariant
            s@.len() == w@.len(),
            i <= s@.len(),
            forall|m: int| 0 <= m < i ==> #[trigger] fold(s@[m]) == w@[m],
        decreases s.len() - i,
    {
        if !folds_to(s[i], w[i]) {
            return false;
        }
        i = i + 1;
    }
    true
}


/// Whether two character sequences are equal.
pub fn same_chars(s: &Vec<char>, w: &Vec<char>) -> (b: bool)
    ensures
        b == (s@ == w@),
{
    if s.len() != w.len() {
        return false;
    }
    let mut i: usize = 0;
    while i < s.len()
        invariant
            s@.len() == w@.len(),
            i <= s@.len(),
            forall|m: int| 0 <= m < i ==> s@[m] == w@[m],
        decreases s.len() - i,
    {
        if s[i] != w[i] {
            return false;
        }
        i = i + 1;
    }
    assert(s@ =~= w@);
    true
}

} // verus!
