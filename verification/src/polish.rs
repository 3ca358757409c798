use vstd::prelude::*;

use crate::text::{chars_of, string_of};

verus! {

/// The letter without its diacritic, for the eighteen letters of the Polish
/// alphabet that carry one; every other character is its own base.
pub open spec fn base_letter(c: char) -> char {
    if c == '\u{0105}' {
        'a'
    } else if c == '\u{0107}' {
        'c'
    } else if c == '\u{0119}' {
        'e'
    } else if c == '\u{0142}' {
        'l'
    } else if c == '\u{0144}' {
        'n'
    } else if c == '\u{00F3}' {
        'o'
    } else if c == '\u{015B}' {
        's'
    } else if c == '\u{017A}' {
        'z'
    } else if c == '\u{017C}' {
        'z'
    } else if c == '\u{0104}' {
        'A'
    } else if c == '\u{0106}' {
        'C'
    } else if c == '\u{0118}' {
        'E'
    } else if c == '\u{0141}' {
        'L'
    } else if c == '\u{0143}' {
        'N'
    } else if c == '\u{00D3}' {
        'O'
    } else if c == '\u{015A}' {
        'S'
    } else if c == '\u{0179}' {
        'Z'
    } else if c == '\u{017B}' {
        'Z'
    } else {
        c
    }
}

/// The eighteen Polish letters with a diacritic: ą ć ę ł ń ó ś ź ż and their
/// capitals, listed by code point.
pub open spec fn is_listed_polish_letter(c: char) -> bool {
    ||| c == '\u{0105}'
    ||| c == '\u{0107}'
    ||| c == '\u{0119}'
    ||| c == '\u{0142}'
    ||| c == '\u{0144}'
    ||| c == '\u{00F3}'
    ||| c == '\u{015B}'
    ||| c == '\u{017A}'
    ||| c == '\u{017C}'
    ||| c == '\u{0104}'
    ||| c == '\u{0106}'
    ||| c == '\u{0118}'
    ||| c == '\u{0141}'
    ||| c == '\u{0143}'
    ||| c == '\u{00D3}'
    ||| c == '\u{015A}'
    ||| c == '\u{0179}'
    ||| c == '\u{017B}'
}

/// Whether `c` is one of the Polish letters with a diacritic.
pub open spec fn is_polish_diacritic_letter(c: char) -> bool {
    base_letter(c) != c
}

/// A text with every Polish letter replaced by its base letter.
pub open spec fn without_polish_letters(s: Seq<char>) -> Seq<char> {
    s.map_values(|c: char| base_letter(c))
}

/// The base letter of one character.
pub fn strip_diacritic(c: char) -> (base: char)
    ensures
        base == base_letter(c),
        !is_listed_polish_letter(c) ==> base == c,
        !is_listed_polish_letter(base),
{
    match c {
        '\u{0105}' => 'a',
        '\u{0107}' => 'c',
        '\u{0119}' => 'e',
        '\u{0142}' => 'l',
        '\u{0144}' => 'n',
        '\u{00F3}' => 'o',
        '\u{015B}' => 's',
        '\u{017A}' => 'z',
        '\u{017C}' => 'z',
        '\u{0104}' => 'A',
        '\u{0106}' => 'C',
        '\u{0118}' => 'E',
        '\u{0141}' => 'L',
        '\u{0143}' => 'N',
        '\u{00D3}' => 'O',
        '\u{015A}' => 'S',
        '\u{0179}' => 'Z',
        '\u{017B}' => 'Z',
        _ => c,
    }
}

/// Replaces every Polish letter with a diacritic by its base letter, since the
/// game's fonts cannot show them; all other characters are kept as they are.
pub fn remove_polish_chars(text: &str) -> (plain: String)
    ensures
        plain@ == without_polish_letters(text@),
        plain@.len() == text@.len(),
        forall|i: int|
            0 <= i < text@.len() && !is_listed_polish_letter(text@[i]) ==> #[trigger] plain@[i]
                == text@[i],
        forall|i: int|
            0 <= i < text@.len() ==> !is_listed_polish_letter(#[trigger] plain@[i]),
{
    let chars = chars_of(text);
    let mut out: Vec<char> = Vec::new();
    let n = chars.len();
    for i in 0..n
        invariant
            n == chars@.len(),
            chars@ == text@,
            out@ == without_polish_letters(text@.take(i as int)),
    {
        out.push(strip_diacritic(chars[i]));
        assert(without_polish_letters(text@.take(i + 1)) =~= without_polish_letters(
            text@.take(i as int),
        ).push(base_letter(text@[i as int])));
    }
    assert(text@.take(n as int) =~= text@);
    proof {
        lemma_only_polish_letters_change();
    }
    string_of(out.as_slice())
}

/// Removing diacritics keeps the length of the text, leaves no Polish letter
/// with a diacritic behind, and keeps every other character where it was.
pub proof fn lemma_without_polish_letters(s: Seq<char>)
    ensures
        without_polish_letters(s).len() == s.len(),
        forall|i: int|
            0 <= i < s.len() ==> !is_polish_diacritic_letter(
                #[trigger] without_polish_letters(s)[i],
            ),
        forall|i: int|
            0 <= i < s.len() && !is_polish_diacritic_letter(s[i]) ==> #[trigger] without_polish_letters(
                s,
            )[i] == s[i],
{
}

/// Removing diacritics a second time changes nothing.
pub proof fn lemma_without_polish_letters_idempotent(s: Seq<char>)
    ensures
        without_polish_letters(without_polish_letters(s)) == without_polish_letters(s),
{
    assert(without_polish_letters(without_polish_letters(s)) =~= without_polish_letters(s));
}

/// A text with no Polish letter that carries a diacritic is left unchanged.
pub proof fn lemma_plain_text_unchanged(s: Seq<char>)
    requires
        forall|i: int| 0 <= i < s.len() ==> !is_polish_diacritic_letter(#[trigger] s[i]),
    ensures
        without_polish_letters(s) == s,
{
    assert(without_polish_letters(s) =~= s);
}

/// Only the eighteen listed Polish letters change: every other character is
/// its own base letter, and a listed letter becomes an ASCII letter, which is
/// not listed.
pub proof fn lemma_only_polish_letters_change()
    ensures
        forall|c: char| !is_listed_polish_letter(c) ==> #[trigger] base_letter(c) == c,
        forall|c: char|
            is_listed_polish_letter(c) ==> ('a' <= #[trigger] base_letter(c) && base_letter(c)
                <= 'z') || ('A' <= base_letter(c) && base_letter(c) <= 'Z'),
        forall|c: char| !is_listed_polish_letter(#[trigger] base_letter(c)),
{
}

/// The replacement of each Polish letter: ą ć ę ł ń ó ś ź ż become a c e l n o s
/// z z, and the capitals the capitals.
pub proof fn lemma_polish_letter_table()
    ensures
        base_letter('\u{0105}') == 'a' && base_letter('\u{0104}') == 'A',
        base_letter('\u{0107}') == 'c' && base_letter('\u{0106}') == 'C',
        base_letter('\u{0119}') == 'e' && base_letter('\u{0118}') == 'E',
        base_letter('\u{0142}') == 'l' && base_letter('\u{0141}') == 'L',
        base_letter('\u{0144}') == 'n' && base_letter('\u{0143}') == 'N',
        base_letter('\u{00F3}') == 'o' && base_letter('\u{00D3}') == 'O',
        base_letter('\u{015B}') == 's' && base_letter('\u{015A}') == 'S',
        base_letter('\u{017A}') == 'z' && base_letter('\u{0179}') == 'Z',
        base_letter('\u{017C}') == 'z' && base_letter('\u{017B}') == 'Z',
{
}

/// Removing diacritics keeps every character that is not a listed Polish
/// letter, at its position, and leaves no listed letter behind.
pub proof fn lemma_without_polish_letters_keeps_others(s: Seq<char>)
    ensures
        without_polish_letters(s).len() == s.len(),
        forall|i: int|
            0 <= i < s.len() && !is_listed_polish_letter(s[i]) ==> #[trigger] without_polish_letters(
                s,
            )[i] == s[i],
        forall|i: int|
            0 <= i < s.len() ==> !is_listed_polish_letter(#[trigger] without_polish_letters(s)[i]),
{
    lemma_only_polish_letters_change();
}

} // verus!
