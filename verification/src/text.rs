//! Verified text utilities for the search: case folding, string equality,
//! substring search, whitespace tokenization and decimal rendering of pids.
//!
//! The only outside call here is `str::to_lowercase`; everything downstream of
//! it works on plain character sequences and is verified.

use vstd::prelude::*;

verus! {

/// What `str::to_lowercase` returns for a given character sequence.  The full
/// Unicode mapping is too large to restate; on ASCII input the wrapper below
/// pins it down exactly.
pub uninterp spec fn lower_of(s: Seq<char>) -> Seq<char>;

/// The ASCII lowercase mapping of one character: `'A'..='Z'` move to
/// `'a'..='z'`, everything else stays.
pub open spec fn ascii_lower_char(c: char) -> char {
    if 'A' <= c && c <= 'Z' {
        ((c as u8) + 32) as char
    } else {
        c
    }
}

/// Character-wise ASCII lowercase of a sequence.
pub open spec fn ascii_lower(s: Seq<char>) -> Seq<char> {
    s.map_values(|c: char| ascii_lower_char(c))
}

/// One ASCII character.
pub open spec fn is_ascii_char(c: char) -> bool {
    (c as int) < 128
}

/// True when every character of the sequence is ASCII.
pub open spec fn all_ascii(s: Seq<char>) -> bool {
    forall|i: int| 0 <= i < s.len() ==> is_ascii_char(#[trigger] s[i])
}

/// Relies on `str::to_lowercase`: the result is a function of the input's
/// characters alone; an empty string stays empty; and ASCII letters are
/// mapped to their ASCII lowercase equivalents, one for one.
#[verifier::external_body]
pub fn to_lowercase(s: &str) -> (r: String)
    ensures
        r@ == lower_of(s@),
        s@.len() == 0 ==> r@.len() == 0,
        all_ascii(s@) ==> r@ == ascii_lower(s@),
{
    s.to_lowercase()
}

/// Exact character-for-character equality of two string slices.
pub fn str_eq(a: &str, b: &str) -> (r: bool)
    ensures
        r == (a@ == b@),
{
    let a_len = a.unicode_len();
    let b_len = b.unicode_len();
    if a_len != b_len {
        return false;
    }
    let mut i: usize = 0;
    while i < a_len
        invariant
            i <= a_len,
            a_len == a@.len(),
            a_len == b@.len(),
            forall|j: int| 0 <= j < i ==> a@[j] == b@[j],
        decreases a_len - i,
    {
        if a.get_char(i) != b.get_char(i) {
            return false;
        }
        i += 1;
    }
    proof {
        assert(a@ =~= b@);
    }
    true
}

/// The needle occurs in the haystack starting at position `at`.
pub open spec fn occurs_at(hay: Seq<char>, needle: Seq<char>, at: int) -> bool {
    &&& 0 <= at
    &&& at + needle.len() <= hay.len()
    &&& forall|j: int| 0 <= j < needle.len() ==> hay[at + j] == needle[j]
}

/// The needle occurs somewhere in the haystack.
pub open spec fn contains_sub(hay: Seq<char>, needle: Seq<char>) -> bool {
    exists|at: int| occurs_at(hay, needle, at)
}

/// Substring search: does `needle` occur anywhere in `hay`?
pub fn contains_str(hay: &str, needle: &str) -> (r: bool)
    ensures
        r == contains_sub(hay@, needle@),
{
    let hay_len = hay.unicode_len();
    let needle_len = needle.unicode_len();
    if needle_len > hay_len {
        return false;
    }
    let mut at: usize = 0;
    while at <= hay_len - needle_len
        invariant
            needle_len <= hay_len,
            hay_len == hay@.len(),
            needle_len == needle@.len(),
            at <= hay_len - needle_len + 1,
            forall|k: int| 0 <= k < at ==> !occurs_at(hay@, needle@, k),
        decreases hay_len - needle_len - at + 1,
    {
        let mut j: usize = 0;
        let mut hit = true;
        while j < needle_len
            invariant_except_break
                hit,
                at + needle_len <= hay_len,
                hay_len == hay@.len(),
                needle_len == needle@.len(),
                j <= needle_len,
                forall|k: int| 0 <= k < j ==> hay@[at + k] == needle@[k],
            ensures
                hit ==> j == needle_len,
                hit ==> forall|k: int| 0 <= k < needle_len ==> hay@[at + k] == needle@[k],
                !hit ==> !occurs_at(hay@, needle@, at as int),
            decreases needle_len - j,
        {
            if hay.get_char(at + j) != needle.get_char(j) {
                hit = false;
                break;
            }
            j += 1;
        }
        if hit {
            assert(occurs_at(hay@, needle@, at as int));
            return true;
        }
        at += 1;
    }
    proof {
        assert forall|k: int| !occurs_at(hay@, needle@, k) by {
            if 0 <= k && k + needle@.len() <= hay@.len() {
                assert(k < at);
            }
        }
    }
    false
}

/// ASCII whitespace, the separators of the search syntax.
pub open spec fn is_space(c: char) -> bool {
    c == ' ' || c == '\t' || c == '\n' || c == '\u{c}' || c == '\r'
}

/// Executable twin of [`is_space`].
pub fn is_space_char(c: char) -> (r: bool)
    ensures
        r == is_space(c),
{
    c == ' ' || c == '\t' || c == '\n' || c == '\u{c}' || c == '\r'
}

/// Length of the maximal whitespace-free prefix of a sequence.
pub open spec fn word_len(s: Seq<char>) -> int
    decreases s.len(),
{
    if s.len() == 0 || is_space(s[0]) {
        0
    } else {
        1 + word_len(s.drop_first())
    }
}

pub proof fn lemma_word_len_bounds(s: Seq<char>)
    ensures
        0 <= word_len(s) <= s.len(),
    decreases s.len(),
{
    if s.len() == 0 || is_space(s[0]) {
    } else {
        lemma_word_len_bounds(s.drop_first());
    }
}

/// The exact word length, given where the first whitespace sits.
proof fn lemma_word_len_exact(t: Seq<char>, k: int)
    requires
        0 <= k <= t.len(),
        forall|j: int| 0 <= j < k ==> !is_space(t[j]),
        k < t.len() ==> is_space(t[k]),
    ensures
        word_len(t) == k,
    decreases k,
{
    if k == 0 {
    } else {
        assert(!is_space(t[0]));
        lemma_word_len_exact(t.drop_first(), k - 1);
    }
}

/// The whitespace-separated words of a character sequence, in order.
pub open spec fn split_words(s: Seq<char>) -> Seq<Seq<char>>
    decreases s.len(),
    via split_words_decreases
{
    if s.len() == 0 {
        Seq::empty()
    } else if is_space(s[0]) {
        split_words(s.drop_first())
    } else {
        seq![s.subrange(0, word_len(s))] + split_words(s.subrange(word_len(s), s.len() as int))
    }
}

#[via_fn]
proof fn split_words_decreases(s: Seq<char>) {
    lemma_word_len_bounds(s);
    if s.len() > 0 && !is_space(s[0]) {
        lemma_word_len_bounds(s.drop_first());
        assert(word_len(s) == 1 + word_len(s.drop_first()));
    }
}

/// Split a string on ASCII whitespace, keeping the words in order.
pub fn split_ws(s: &str) -> (toks: Vec<String>)
    ensures
        toks@.map_values(|t: String| t@) == split_words(s@),
{
    let len = s.unicode_len();
    let mut toks: Vec<String> = Vec::new();
    let mut i: usize = 0;
    proof {
        assert(s@.subrange(0, len as int) =~= s@);
        assert(toks@.map_values(|t: String| t@) =~= Seq::<Seq<char>>::empty());
        assert(Seq::<Seq<char>>::empty() + split_words(s@) =~= split_words(s@));
    }
    while i < len
        invariant
            i <= len,
            len == s@.len(),
            toks@.map_values(|t: String| t@) + split_words(s@.subrange(i as int, len as int))
                == split_words(s@),
        decreases len - i,
    {
        if is_space_char(s.get_char(i)) {
            proof {
                assert(s@.subrange(i as int, len as int).drop_first() =~= s@.subrange(
                    i + 1,
                    len as int,
                ));
            }
            i += 1;
        } else {
            let ghost prev_toks = toks@;
            let start = i;
            i += 1;
            while i < len && !is_space_char(s.get_char(i))
                invariant
                    start < i <= len,
                    len == s@.len(),
                    forall|j: int| start <= j < i ==> !is_space(s@[j]),
                decreases len - i,
            {
                i += 1;
            }
            let ghost tail = s@.subrange(start as int, len as int);
            proof {
                lemma_word_len_exact(tail, i - start);
                assert(tail.subrange(0, (i - start) as int) =~= s@.subrange(
                    start as int,
                    i as int,
                ));
                assert(tail.subrange((i - start) as int, tail.len() as int) =~= s@.subrange(
                    i as int,
                    len as int,
                ));
            }
            let word = s.substring_char(start, i).to_owned();
            toks.push(word);
            proof {
                assert(toks@.map_values(|t: String| t@) =~= prev_toks.map_values(
                    |t: String| t@,
                ).push(word@));
                assert(prev_toks.map_values(|t: String| t@).push(word@) + split_words(
                    s@.subrange(i as int, len as int),
                ) =~= prev_toks.map_values(|t: String| t@) + split_words(tail));
            }
        }
    }
    proof {
        assert(s@.subrange(len as int, len as int) =~= Seq::<char>::empty());
        assert(toks@.map_values(|t: String| t@) + Seq::<Seq<char>>::empty() =~= toks@.map_values(
            |t: String| t@,
        ));
    }
    toks
}

/// Index of the first `':'` in a sequence, or its length when there is none.
pub open spec fn first_colon(s: Seq<char>) -> int
    decreases s.len(),
{
    if s.len() == 0 {
        0
    } else if s[0] == ':' {
        0
    } else {
        1 + first_colon(s.drop_first())
    }
}

/// The exact position of the first colon, given where it sits.
pub proof fn lemma_first_colon_exact(s: Seq<char>, k: int)
    requires
        0 <= k <= s.len(),
        forall|j: int| 0 <= j < k ==> s[j] != ':',
        k < s.len() ==> s[k] == ':',
    ensures
        first_colon(s) == k,
    decreases k,
{
    if k == 0 {
    } else {
        assert(s[0] != ':');
        lemma_first_colon_exact(s.drop_first(), k - 1);
    }
}

/// The decimal digits of a nonnegative number, most significant first.
pub open spec fn dec_digits(n: nat) -> Seq<char>
    decreases n,
{
    if n < 10 {
        seq![digit_char(n as int)]
    } else {
        dec_digits(n / 10).push(digit_char((n % 10) as int))
    }
}

/// The character of one decimal digit.
pub open spec fn digit_char(d: int) -> char {
    ((d + 48) as u8) as char
}

/// The decimal rendering of a pid, with a leading minus sign when negative.
pub open spec fn pid_digits(p: int) -> Seq<char> {
    if p < 0 {
        seq!['-'] + dec_digits((-p) as nat)
    } else {
        dec_digits(p as nat)
    }
}

fn u64_to_digits(n: u64) -> (v: Vec<char>)
    ensures
        v@ == dec_digits(n as nat),
    decreases n,
{
    if n < 10 {
        let mut v: Vec<char> = Vec::new();
        v.push(((n as u8) + 48) as char);
        proof {
            assert(v@ =~= dec_digits(n as nat));
        }
        v
    } else {
        let mut v = u64_to_digits(n / 10);
        v.push((((n % 10) as u8) + 48) as char);
        v
    }
}

/// The decimal rendering of a pid, as the table displays it.
pub fn pid_to_digits(p: i32) -> (v: Vec<char>)
    ensures
        v@ == pid_digits(p as int),
{
    if p < 0 {
        let magnitude: u64 = (-(p as i64)) as u64;
        let digits = u64_to_digits(magnitude);
        let mut v: Vec<char> = Vec::new();
        v.push('-');
        let mut j: usize = 0;
        while j < digits.len()
            invariant
                j <= digits@.len(),
                digits@ == dec_digits(magnitude as nat),
                v@ == seq!['-'] + digits@.subrange(0, j as int),
            decreases digits@.len() - j,
        {
            v.push(digits[j]);
            proof {
                assert(v@ =~= seq!['-'] + digits@.subrange(0, j + 1));
            }
            j += 1;
        }
        proof {
            assert(digits@.subrange(0, digits@.len() as int) =~= digits@);
        }
        v
    } else {
        u64_to_digits(p as u64)
    }
}

/// Exact equality between a string slice and a character vector.
pub fn str_eq_chars(s: &str, v: &Vec<char>) -> (r: bool)
    ensures
        r == (s@ == v@),
{
    let s_len = s.unicode_len();
    if s_len != v.len() {
        return false;
    }
    let mut i: usize = 0;
    while i < s_len
        invariant
            i <= s_len,
            s_len == s@.len(),
            s_len == v@.len(),
            forall|j: int| 0 <= j < i ==> s@[j] == v@[j],
        decreases s_len - i,
    {
        if s.get_char(i) != v[i] {
            return false;
        }
        i += 1;
    }
    proof {
        assert(s@ =~= v@);
    }
    true
}

} // verus!
