//! From a phrase to its digits: the phrase loses everything but its
//! consonants and digits, then its repetitions, and each character that
//! is left stands for one digit.

use vstd::prelude::*;
use crate::chars::chars_of;

verus! {

/// The five ASCII vowels, in either case.
pub open spec fn is_vowel(c: char) -> bool {
    c == 'a' || c == 'e' || c == 'i' || c == 'o' || c == 'u' || c == 'A' || c == 'E' || c == 'I'
        || c == 'O' || c == 'U'
}

/// An ASCII letter or digit.
pub open spec fn is_alphanumeric(c: char) -> bool {
    ('a' <= c && c <= 'z') || ('A' <= c && c <= 'Z') || ('0' <= c && c <= '9')
}

/// Whether a character of the phrase counts: an ASCII letter or digit
/// that is no vowel.
pub open spec fn is_kept(c: char) -> bool {
    is_alphanumeric(c) && !is_vowel(c)
}

/// The character with an ASCII capital turned into its small letter.
pub open spec fn lowered(c: char) -> char {
    if 'A' <= c && c <= 'Z' {
        ((c as u8 + 32) as u8) as char
    } else {
        c
    }
}

/// A small ASCII consonant or an ASCII digit: what a normalized phrase is
/// made of.
pub open spec fn is_symbol(c: char) -> bool {
    (('a' <= c && c <= 'z') || ('0' <= c && c <= '9')) && !is_vowel(c)
}

/// The sequence without its repetitions: of each value the first
/// occurrence stays, in place.
pub open spec fn first_occurrences(s: Seq<char>) -> Seq<char>
    decreases s.len(),
{
    if s.len() == 0 {
        s
    } else {
        let before = first_occurrences(s.drop_last());
        if before.contains(s.last()) {
            before
        } else {
            before.push(s.last())
        }
    }
}

/// The kept characters of the phrase, in small letters.
pub open spec fn consonants_and_digits(phrase: Seq<char>) -> Seq<char> {
    phrase.filter(|c: char| is_kept(c)).map_values(|c: char| lowered(c))
}

/// The normalized phrase: its kept characters in small letters, each once,
/// in the order of their first occurrence.
pub open spec fn normalized(phrase: Seq<char>) -> Seq<char> {
    first_occurrences(consonants_and_digits(phrase))
}

/// The digit that a symbol stands for: a digit character for its value, a
/// letter for its place in the alphabet, counted from zero, modulo ten.
pub open spec fn digit_of(c: char) -> u8 {
    if '0' <= c && c <= '9' {
        (c as u8 - '0' as u8) as u8
    } else {
        ((c as u8 - 'a' as u8) % 10) as u8
    }
}

/// The digits of a phrase: one for each symbol of the normalized phrase.
pub open spec fn digits(phrase: Seq<char>) -> Seq<u8> {
    normalized(phrase).map_values(|c: char| digit_of(c))
}

/// Decides whether a character of the phrase counts.
pub fn kept(c: char) -> (k: bool)
    ensures
        k == is_kept(c),
{
    let alnum = ('a' <= c && c <= 'z') || ('A' <= c && c <= 'Z') || ('0' <= c && c <= '9');
    let vowel = c == 'a' || c == 'e' || c == 'i' || c == 'o' || c == 'u' || c == 'A' || c == 'E'
        || c == 'I' || c == 'O' || c == 'U';
    alnum && !vowel
}

/// Turns an ASCII capital into its small letter.
pub fn lower(c: char) -> (l: char)
    ensures
        l == lowered(c),
{
    if 'A' <= c && c <= 'Z' {
        ((c as u8) + 32) as char
    } else {
        c
    }
}

/// The digit that a symbol stands for.
pub fn digit(c: char) -> (d: u8)
    requires
        is_symbol(c),
    ensures
        d == digit_of(c),
        d <= 9,
{
    if '0' <= c && c <= '9' {
        (c as u8) - ('0' as u8)
    } else {
        ((c as u8) - ('a' as u8)) % 10
    }
}

/// Whether `c` occurs in `v`.
fn occurs(v: &Vec<char>, c: char) -> (found: bool)
    ensures
        found == v@.contains(c),
{
    let mut i: usize = 0;
    while i < v.len()
        invariant
            i <= v.len(),
            forall|j: int| 0 <= j < i ==> v@[j] != c,
        decreases v.len() - i,
    {
        if v[i] == c {
            return true;
        }
        i += 1;
    }
    false
}

/// A kept character in small letters is a symbol.
pub proof fn lemma_lowered_kept_is_symbol(c: char)
    requires
        is_kept(c),
    ensures
        is_symbol(lowered(c)),
{
}

/// `first_occurrences` holds nothing twice, holds exactly the values of
/// its argument, and is no longer than it.
pub proof fn lemma_first_occurrences(s: Seq<char>)
    ensures
        first_occurrences(s).no_duplicates(),
        first_occurrences(s).len() <= s.len(),
        forall|c: char| #[trigger] first_occurrences(s).contains(c) ==> s.contains(c),
        forall|c: char| #[trigger] s.contains(c) ==> first_occurrences(s).contains(c),
    decreases s.len(),
{
    if s.len() > 0 {
        let before = first_occurrences(s.drop_last());
        lemma_first_occurrences(s.drop_last());
        let out = first_occurrences(s);
        assert forall|c: char| #[trigger] out.contains(c) implies s.contains(c) by {
            if out.contains(c) {
                let i = choose|i: int| 0 <= i < out.len() && out[i] == c;
                if i < before.len() {
                    assert(before.contains(c));
                    let j = choose|j: int| 0 <= j < s.drop_last().len() && s.drop_last()[j] == c;
                    assert(s[j] == c);
                } else {
                    assert(s[s.len() - 1] == c);
                }
            }
        }
        assert forall|c: char| #[trigger] s.contains(c) implies out.contains(c) by {
            if s.contains(c) {
                let j = choose|j: int| 0 <= j < s.len() && s[j] == c;
                if j < s.len() - 1 {
                    assert(s.drop_last()[j] == c);
                    assert(s.drop_last().contains(c));
                    assert(before.contains(c));
                    let i = choose|i: int| 0 <= i < before.len() && before[i] == c;
                    assert(out[i] == c);
                } else {
                    if before.contains(c) {
                        let i = choose|i: int| 0 <= i < before.len() && before[i] == c;
                        assert(out[i] == c);
                    } else {
                        assert(out[out.len() - 1] == c);
                    }
                }
            }
        }
    }
}

/// A nonempty sequence keeps at least one value.
pub proof fn lemma_first_occurrences_nonempty(s: Seq<char>)
    ensures
        first_occurrences(s).len() == 0 <==> s.len() == 0,
    decreases s.len(),
{
    if s.len() > 0 {
        lemma_first_occurrences(s);
        assert(s.contains(s[0]));
        assert(first_occurrences(s).contains(s[0]));
    }
}

/// Every character of a normalized phrase is a symbol, none occurs twice,
/// and so there are at most 128 of them.
pub proof fn lemma_normalized(phrase: Seq<char>)
    ensures
        normalized(phrase).no_duplicates(),
        forall|i: int|
            0 <= i < normalized(phrase).len() ==> is_symbol(#[trigger] normalized(phrase)[i]),
        normalized(phrase).len() <= phrase.len(),
        normalized(phrase).len() <= 128,
{
    broadcast use vstd::seq_lib::group_filter_ensures;

    let kept = phrase.filter(|c: char| is_kept(c));
    let low = consonants_and_digits(phrase);
    let out = normalized(phrase);
    lemma_first_occurrences(low);
    assert forall|i: int| 0 <= i < out.len() implies is_symbol(#[trigger] out[i]) by {
        assert(out.contains(out[i]));
        assert(low.contains(out[i]));
        let j = choose|j: int| 0 <= j < low.len() && low[j] == out[i];
        assert(is_kept(kept[j]));
        lemma_lowered_kept_is_symbol(kept[j]);
    }
    let codes = out.map_values(|c: char| c as int);
    assert forall|i: int, j: int| 0 <= i < codes.len() && 0 <= j < codes.len() && i != j implies
        codes[i] != codes[j] by {
        assert(out[i] != out[j]);
        assert(is_symbol(out[i]) && is_symbol(out[j]));
    }
    assert(codes.no_duplicates());
    codes.unique_seq_to_set();
    assert forall|x: int| codes.to_set().contains(x) implies vstd::set_lib::set_int_range(
        0,
        128,
    ).contains(x) by {
        let i = choose|i: int| 0 <= i < codes.len() && codes[i] == x;
        assert(is_symbol(out[i]));
    }
    vstd::set_lib::lemma_int_range(0, 128);
    vstd::set_lib::lemma_len_subset(codes.to_set(), vstd::set_lib::set_int_range(0, 128));
}

/// A phrase without letters or digits other than vowels has no digits:
/// so has the empty phrase, one of blanks only, and one of vowels only.
pub proof fn lemma_nothing_kept_no_digits(phrase: Seq<char>)
    requires
        forall|i: int| 0 <= i < phrase.len() ==> !is_kept(#[trigger] phrase[i]),
    ensures
        normalized(phrase).len() == 0,
        digits(phrase).len() == 0,
{
    broadcast use vstd::seq_lib::group_filter_ensures;

    let kept = phrase.filter(|c: char| is_kept(c));
    if kept.len() > 0 {
        assert(is_kept(kept[0]));
        assert(kept.contains(kept[0]));
        lemma_filter_members(phrase, 0);
    }
    lemma_first_occurrences_nonempty(consonants_and_digits(phrase));
}

/// Every member of the kept characters is a character of the phrase.
pub proof fn lemma_filter_members(phrase: Seq<char>, i: int)
    requires
        0 <= i < phrase.filter(|c: char| is_kept(c)).len(),
    ensures
        phrase.contains(phrase.filter(|c: char| is_kept(c))[i]),
    decreases phrase.len(),
{
    reveal(Seq::filter);
    let keep = |c: char| is_kept(c);
    if phrase.len() > 0 {
        let sub = phrase.drop_last().filter(keep);
        if i < sub.len() {
            lemma_filter_members(phrase.drop_last(), i);
            let j = choose|j: int|
                0 <= j < phrase.drop_last().len() && phrase.drop_last()[j] == sub[i];
            assert(phrase[j] == sub[i]);
        } else {
            assert(phrase[phrase.len() - 1] == phrase.filter(keep)[i]);
        }
    }
}

/// Normalizes a phrase.
pub fn normalize(phrase: &str) -> (out: Vec<char>)
    ensures
        out@ == normalized(phrase@),
        out.len() <= 128,
        forall|i: int| 0 <= i < out.len() ==> is_symbol(#[trigger] out[i]),
{
    let all = chars_of(phrase);
    let ghost keep = |c: char| is_kept(c);
    let ghost low = |c: char| lowered(c);
    let mut out: Vec<char> = Vec::new();
    let mut i: usize = 0;
    proof {
        reveal(Seq::filter);
        assert(all@.take(0) =~= Seq::<char>::empty());
        assert(all@.take(0).filter(keep).map_values(low) =~= Seq::<char>::empty());
    }
    while i < all.len()
        invariant
            i <= all.len(),
            keep == (|c: char| is_kept(c)),
            low == (|c: char| lowered(c)),
            out@ == first_occurrences(all@.take(i as int).filter(keep).map_values(low)),
        decreases all.len() - i,
    {
        let c = all[i];
        proof {
            reveal(Seq::filter);
            let before = all@.take(i as int).filter(keep);
            let now = all@.take(i + 1).filter(keep);
            assert(all@.take(i + 1).drop_last() =~= all@.take(i as int));
            assert(all@.take(i + 1).last() == c);
            if is_kept(c) {
                assert(now == before.push(c));
                assert(now.map_values(low) =~= before.map_values(low).push(lowered(c)));
                assert(now.map_values(low).drop_last() =~= before.map_values(low));
            } else {
                assert(now == before);
            }
        }
        if kept(c) {
            let l = lower(c);
            if !occurs(&out, l) {
                out.push(l);
            }
        }
        i += 1;
    }
    proof {
        assert(all@.take(all.len() as int) =~= all@);
        lemma_normalized(phrase@);
    }
    out
}

/// The digits of a phrase.
pub fn digit_sequence(phrase: &str) -> (out: Vec<u8>)
    ensures
        out@ == digits(phrase@),
        out.len() <= 128,
        forall|i: int| 0 <= i < out.len() ==> #[trigger] out[i] <= 9,
{
    let symbols = normalize(phrase);
    let mut out: Vec<u8> = Vec::new();
    let mut i: usize = 0;
    while i < symbols.len()
        invariant
            i <= symbols.len(),
            out.len() == i,
            forall|j: int| 0 <= j < symbols.len() ==> is_symbol(#[trigger] symbols[j]),
            forall|j: int| 0 <= j < i ==> #[trigger] out[j] == digit_of(symbols[j]),
            forall|j: int| 0 <= j < i ==> #[trigger] out[j] <= 9,
        decreases symbols.len() - i,
    {
        out.push(digit(symbols[i]));
        i += 1;
    }
    assert(out@ =~= symbols@.map_values(|c: char| digit_of(c)));
    out
}

/// A phrase has at most as many digits as characters, at most 128 of
/// them, and each of them is at most nine.
pub proof fn lemma_digits(phrase: Seq<char>)
    ensures
        digits(phrase).len() == normalized(phrase).len(),
        digits(phrase).len() <= phrase.len(),
        digits(phrase).len() <= 128,
        forall|i: int| 0 <= i < digits(phrase).len() ==> #[trigger] digits(phrase)[i] <= 9,
{
    lemma_normalized(phrase);
    assert forall|i: int| 0 <= i < digits(phrase).len() implies #[trigger] digits(phrase)[i]
        <= 9 by {
        assert(is_symbol(normalized(phrase)[i]));
    }
}

} // verus!
