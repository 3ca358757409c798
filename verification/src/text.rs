use vstd::prelude::*;
use vstd::string::*;
use vstd::utf8::{encode_utf8, is_ascii_chars};

verus! {

broadcast use vstd::string::group_string_axioms;

/// What `str::to_lowercase` gives for a text: the Unicode lowercase mapping of
/// every character, applied one after the other.
pub uninterp spec fn lowercase_of(s: Seq<char>) -> Seq<char>;


/// The characters of `s`, in order.
pub fn chars_of(s: &str) -> (chars: Vec<char>)
    ensures
        chars@ == s@,
{
    let mut chars: Vec<char> = Vec::new();
    for c in it: s.chars()
        invariant
            it.seq() == s@,
            chars@ == s@.take(it.index() as int),
    {
        chars.push(c);
    }
    chars
}

/// Appends one character: calls `String::push`, which adds `c` at the end of
/// `s` and changes nothing else.
#[verifier::external_body]
fn push_char(s: &mut String, c: char)
    ensures
        final(s)@ == old(s)@.push(c),
{
    s.push(c);
}

/// The ASCII lowercase of a character: `A`..`Z` become `a`..`z`.
pub open spec fn ascii_lowercase(c: char) -> char {
    if 'A' <= c && c <= 'Z' {
        ((c as u32) + 32) as char
    } else {
        c
    }
}

/// Lowercases a text: calls `str::to_lowercase`; the result is named
/// `lowercase_of`, a function of the text alone. On ASCII text it maps `A`..`Z`
/// to `a`..`z` and keeps every other character.
#[verifier::external_body]
pub(crate) fn to_lowercase(s: &str) -> (lower: String)
    ensures
        lower@ == lowercase_of(s@),
        is_ascii_chars(s@) ==> lower@ == s@.map_values(|c: char| ascii_lowercase(c)),
{
    s.to_lowercase()
}

/// A `String` holding exactly the characters `chars`.
pub fn string_of(chars: &[char]) -> (s: String)
    ensures
        s@ == chars@,
{
    let mut s = String::new();
    let n = chars.len();
    for i in 0..n
        invariant
            n == chars@.len(),
            s@ == chars@.take(i as int),
    {
        push_char(&mut s, chars[i]);
        assert(chars@.take(i + 1) == chars@.take(i as int).push(chars@[i as int]));
    }
    assert(chars@.take(n as int) == chars@);
    s
}

/// A `String` holding the characters of `chars` from position `start` up to
/// position `end`.
pub fn string_of_range(chars: &[char], start: usize, end: usize) -> (s: String)
    requires
        start <= end <= chars@.len(),
    ensures
        s@ == chars@.subrange(start as int, end as int),
{
    let mut s = String::new();
    for i in start..end
        invariant
            end <= chars@.len(),
            start <= i <= end,
            s@ == chars@.subrange(start as int, i as int),
    {
        push_char(&mut s, chars[i]);
        assert(chars@.subrange(start as int, i + 1) == chars@.subrange(start as int, i as int).push(
            chars@[i as int],
        ));
    }
    s
}

/// Whether `c` is white space: one of the code points with the Unicode
/// `White_Space` property, which `char::is_whitespace` tests.
pub open spec fn is_white_space(c: char) -> bool {
    ||| ('\u{9}' <= c && c <= '\u{d}')
    ||| c == '\u{20}'
    ||| c == '\u{85}'
    ||| c == '\u{a0}'
    ||| c == '\u{1680}'
    ||| ('\u{2000}' <= c && c <= '\u{200a}')
    ||| c == '\u{2028}'
    ||| c == '\u{2029}'
    ||| c == '\u{202f}'
    ||| c == '\u{205f}'
    ||| c == '\u{3000}'
}

/// `s` without its leading white space.
pub open spec fn trim_leading(s: Seq<char>) -> Seq<char>
    decreases s.len(),
{
    if s.len() > 0 && is_white_space(s[0]) {
        trim_leading(s.skip(1))
    } else {
        s
    }
}

/// `s` without its trailing white space.
pub open spec fn trim_trailing(s: Seq<char>) -> Seq<char>
    decreases s.len(),
{
    if s.len() > 0 && is_white_space(s.last()) {
        trim_trailing(s.drop_last())
    } else {
        s
    }
}

/// `s` without its leading and trailing white space (as `str::trim` gives it).
pub open spec fn trimmed(s: Seq<char>) -> Seq<char> {
    trim_trailing(trim_leading(s))
}

/// Whether a character is white space.
pub fn is_white_space_char(c: char) -> (ws: bool)
    ensures
        ws == is_white_space(c),
{
    ('\u{9}' <= c && c <= '\u{d}') || c == '\u{20}' || c == '\u{85}' || c == '\u{a0}' || c
        == '\u{1680}' || ('\u{2000}' <= c && c <= '\u{200a}') || c == '\u{2028}' || c
        == '\u{2029}' || c == '\u{202f}' || c == '\u{205f}' || c == '\u{3000}'
}

/// `s` without its leading and trailing white space.
pub fn trim(s: &str) -> (t: String)
    ensures
        t@ == trimmed(s@),
        exists|i: int, j: int|
            {
                &&& 0 <= i <= j <= s@.len()
                &&& t@ == s@.subrange(i, j)
                &&& forall|k: int| 0 <= k < i ==> is_white_space(#[trigger] s@[k])
                &&& forall|k: int| j <= k < s@.len() ==> is_white_space(#[trigger] s@[k])
                &&& i < j ==> !is_white_space(s@[i]) && !is_white_space(s@[j - 1])
            },
{
    let cs = chars_of(s);
    let mut i: usize = 0;
    proof {
        assert(s@.skip(0) =~= s@);
    }
    while i < cs.len() && is_white_space_char(cs[i])
        invariant
            cs@ == s@,
            i <= cs@.len(),
            trim_leading(s@.skip(i as int)) == trim_leading(s@),
            forall|k: int| 0 <= k < i ==> is_white_space(#[trigger] s@[k]),
        decreases cs@.len() - i,
    {
        proof {
            assert(s@.skip(i as int).skip(1) =~= s@.skip(i + 1));
        }
        i = i + 1;
    }
    proof {
        if i == cs@.len() {
            assert(s@.skip(i as int) =~= Seq::<char>::empty());
        }
        assert(s@.skip(i as int) =~= s@.subrange(i as int, cs@.len() as int));
    }
    let mut j: usize = cs.len();
    while j > i && is_white_space_char(cs[j - 1])
        invariant
            cs@ == s@,
            i <= j <= cs@.len(),
            trim_leading(s@) == s@.subrange(i as int, cs@.len() as int),
            trim_trailing(s@.subrange(i as int, j as int)) == trimmed(s@),
            forall|k: int| 0 <= k < i ==> is_white_space(#[trigger] s@[k]),
            forall|k: int| j <= k < cs@.len() ==> is_white_space(#[trigger] s@[k]),
            i < cs@.len() ==> !is_white_space(s@[i as int]),
        decreases j,
    {
        proof {
            assert(s@.subrange(i as int, j as int).drop_last() =~= s@.subrange(
                i as int,
                j - 1,
            ));
        }
        j = j - 1;
    }
    let t = string_of_range(cs.as_slice(), i, j);
    proof {
        let (a, b) = (i as int, j as int);
        assert(0 <= a <= b <= s@.len() && t@ == s@.subrange(a, b));
    }
    t
}

/// A `String` holding the characters of `s`.
pub fn owned(s: &str) -> (o: String)
    ensures
        o@ == s@,
{
    s.to_owned()
}

/// `a` followed by `b`.
pub fn concat(a: &str, b: &str) -> (c: String)
    ensures
        c@ == a@ + b@,
{
    let mut c = a.to_owned();
    c.append(b);
    c
}

/// Whether `a[start..]` begins with all of `pattern`.
pub open spec fn occurs_at(a: Seq<char>, pattern: Seq<char>, start: int) -> bool {
    &&& 0 <= start
    &&& start + pattern.len() <= a.len()
    &&& a.subrange(start, start + pattern.len()) == pattern
}

pub fn chars_occur_at(a: &Vec<char>, pattern: &Vec<char>, start: usize) -> (found: bool)
    ensures
        found == occurs_at(a@, pattern@, start as int),
{
    if pattern.len() > a.len() || start > a.len() - pattern.len() {
        return false;
    }
    let n = pattern.len();
    for k in 0..n
        invariant
            n == pattern@.len(),
            start + n <= a.len(),
            forall|j: int| 0 <= j < k ==> a@[start + j] == pattern@[j],
    {
        if a[start + k] != pattern[k] {
            assert(a@.subrange(start as int, start + n)[k as int] != pattern@[k as int]);
            return false;
        }
    }
    assert(a@.subrange(start as int, start + n) =~= pattern@);
    true
}

/// Whether two texts hold the same characters.
pub fn same_text(a: &str, b: &str) -> (same: bool)
    ensures
        same == (a@ == b@),
{
    let ca = chars_of(a);
    let cb = chars_of(b);
    if ca.len() != cb.len() {
        return false;
    }
    let found = chars_occur_at(&ca, &cb, 0);
    assert(ca@.subrange(0, cb@.len() as int) =~= ca@);
    found
}

/// Whether `s` begins with `prefix`.
pub fn has_prefix(s: &str, prefix: &str) -> (yes: bool)
    ensures
        yes == (prefix@.len() <= s@.len() && s@.take(prefix@.len() as int) == prefix@),
{
    let cs = chars_of(s);
    let cp = chars_of(prefix);
    let found = chars_occur_at(&cs, &cp, 0);
    proof {
        assert(cs@.subrange(0, cp@.len() as int) == cs@.take(cp@.len() as int));
    }
    found
}

/// Whether `s` ends with `suffix`.
pub fn has_suffix(s: &str, suffix: &str) -> (yes: bool)
    ensures
        yes == (suffix@.len() <= s@.len() && s@.skip(s@.len() - suffix@.len()) == suffix@),
{
    let cs = chars_of(s);
    let cp = chars_of(suffix);
    if cp.len() > cs.len() {
        return false;
    }
    let found = chars_occur_at(&cs, &cp, cs.len() - cp.len());
    proof {
        assert(cs@.subrange(cs@.len() - cp@.len(), cs@.len() as int) == cs@.skip(
            cs@.len() - cp@.len(),
        ));
    }
    found
}

/// `s` with every occurrence of the non-empty `from`, found left to right and
/// without overlaps, replaced by `to` (as `str::replace` does).
pub open spec fn replace_all(s: Seq<char>, from: Seq<char>, to: Seq<char>) -> Seq<char>
    decreases s.len(),
{
    if from.len() == 0 || s.len() < from.len() {
        s
    } else if s.take(from.len() as int) == from {
        to + replace_all(s.skip(from.len() as int), from, to)
    } else {
        seq![s[0]] + replace_all(s.skip(1), from, to)
    }
}

/// A text in which `from` never starts at any position.
pub open spec fn free_of(s: Seq<char>, from: Seq<char>) -> bool {
    forall|i: int| 0 <= i <= s.len() - from.len() ==> !occurs_at(s, from, i)
}

/// Replaces every occurrence of the non-empty `from` in `s` by `to`.
pub fn replace_text(s: &str, from: &str, to: &str) -> (replaced: String)
    requires
        from@.len() > 0,
    ensures
        replaced@ == replace_all(s@, from@, to@),
{
    let cs = chars_of(s);
    let cf = chars_of(from);
    let mut out = String::new();
    let mut i: usize = 0;
    proof {
        assert(s@.skip(0) =~= s@);
        assert(out@ + replace_all(s@, from@, to@) =~= replace_all(s@, from@, to@));
    }
    while i < cs.len()
        invariant
            cs@ == s@,
            cf@ == from@,
            from@.len() > 0,
            i <= cs@.len(),
            out@ + replace_all(s@.skip(i as int), from@, to@) == replace_all(s@, from@, to@),
        decreases cs@.len() - i,
    {
        let ghost rest = s@.skip(i as int);
        if chars_occur_at(&cs, &cf, i) {
            proof {
                assert(rest.take(from@.len() as int) =~= s@.subrange(i as int, i + from@.len()));
                assert(rest.skip(from@.len() as int) =~= s@.skip(i + from@.len()));
            }
            out.append(to);
            i = i + cf.len();
        } else {
            proof {
                if rest.len() >= from@.len() {
                    assert(rest.take(from@.len() as int) =~= s@.subrange(i as int, i + from@.len()));
                }
                assert(rest.skip(1) =~= s@.skip(i + 1));
                assert(rest =~= seq![s@[i as int]] + s@.skip(i + 1));
            }
            push_char(&mut out, cs[i]);
            i = i + 1;
        }
    }
    proof {
        assert(s@.skip(i as int) =~= Seq::<char>::empty());
        assert(out@ + Seq::<char>::empty() =~= out@);
    }
    out
}

/// A text in which the pattern does not occur is left unchanged by replacing it.
pub proof fn lemma_replace_all_absent(s: Seq<char>, from: Seq<char>, to: Seq<char>)
    requires
        from.len() > 0,
        free_of(s, from),
    ensures
        replace_all(s, from, to) == s,
    decreases s.len(),
{
    if s.len() >= from.len() {
        assert(!occurs_at(s, from, 0));
        assert(s.subrange(0, from.len() as int) == s.take(from.len() as int));
        let t = s.skip(1);
        assert forall|i: int| 0 <= i <= t.len() - from.len() implies !occurs_at(t, from, i) by {
            assert(!occurs_at(s, from, i + 1));
            if occurs_at(t, from, i) {
                assert(s.subrange(i + 1, i + 1 + from.len()) =~= t.subrange(i, i + from.len()));
            }
        }
        lemma_replace_all_absent(t, from, to);
        assert(s =~= seq![s[0]] + t);
    }
}

/// Up to the first character that could start a replacement, the result of
/// replacing holds the same characters as the original text.
proof fn lemma_replace_all_prefix(s: Seq<char>, from: Seq<char>, to: Seq<char>, m: int)
    requires
        from.len() > 0,
        to.len() > 0,
        0 <= m <= replace_all(s, from, to).len(),
        forall|j: int| 0 <= j < m ==> replace_all(s, from, to)[j] != to[0],
    ensures
        m <= s.len(),
        replace_all(s, from, to).take(m) == s.take(m),
    decreases s.len(),
{
    let r = replace_all(s, from, to);
    if s.len() < from.len() {
    } else if s.take(from.len() as int) == from {
        if m > 0 {
            assert(r[0] == to[0]);
        }
    } else if m > 0 {
        let rest = s.skip(1);
        let r2 = replace_all(rest, from, to);
        assert(r =~= seq![s[0]] + r2);
        assert forall|j: int| 0 <= j < m - 1 implies r2[j] != to[0] by {
            assert(r2[j] == r[j + 1]);
        }
        lemma_replace_all_prefix(rest, from, to, m - 1);
        assert(r.take(m) =~= seq![s[0]] + r2.take(m - 1));
        assert(s.take(m) =~= seq![s[0]] + rest.take(m - 1));
    }
}

/// When the replacement cannot begin or continue an occurrence of the pattern
/// (its first character is not in the pattern, and the pattern's first
/// character is not in it), no occurrence of the pattern is left after
/// replacing.
pub proof fn lemma_replace_all_removes_pattern(s: Seq<char>, from: Seq<char>, to: Seq<char>)
    requires
        from.len() > 0,
        to.len() > 0,
        forall|j: int| 0 <= j < to.len() ==> to[j] != from[0],
        forall|j: int| 0 <= j < from.len() ==> from[j] != to[0],
    ensures
        free_of(replace_all(s, from, to), from),
    decreases s.len(),
{
    let r = replace_all(s, from, to);
    if s.len() < from.len() {
    } else if s.take(from.len() as int) == from {
        let rest = s.skip(from.len() as int);
        let r2 = replace_all(rest, from, to);
        lemma_replace_all_removes_pattern(rest, from, to);
        assert(r =~= to + r2);
        assert forall|i: int| 0 <= i <= r.len() - from.len() implies !occurs_at(r, from, i) by {
            if occurs_at(r, from, i) {
                if i < to.len() {
                    assert(r.subrange(i, i + from.len())[0] == from[0]);
                    assert(r[i] == to[i]);
                } else {
                    assert(r.subrange(i, i + from.len()) =~= r2.subrange(
                        i - to.len(),
                        i - to.len() + from.len(),
                    ));
                    assert(occurs_at(r2, from, i - to.len()));
                }
            }
        }
    } else {
        let rest = s.skip(1);
        let r2 = replace_all(rest, from, to);
        lemma_replace_all_removes_pattern(rest, from, to);
        assert(r =~= seq![s[0]] + r2);
        assert forall|i: int| 0 <= i <= r.len() - from.len() implies !occurs_at(r, from, i) by {
            if occurs_at(r, from, i) {
                if i == 0 {
                    assert forall|j: int| 0 <= j < from.len() implies r[j] != to[0] by {
                        assert(r[j] == r.subrange(0, from.len() as int)[j]);
                    }
                    lemma_replace_all_prefix(s, from, to, from.len() as int);
                    assert(r.take(from.len() as int) =~= r.subrange(0, from.len() as int));
                } else {
                    assert(r.subrange(i, i + from.len()) =~= r2.subrange(
                        i - 1,
                        i - 1 + from.len(),
                    ));
                    assert(occurs_at(r2, from, i - 1));
                }
            }
        }
    }
}

/// Replacing in a text that starts with the pattern gives the replacement
/// followed by the result of replacing in the rest; a text that does not start
/// with the pattern keeps its first character and continues with the rest.
pub proof fn lemma_replace_all_step(s: Seq<char>, from: Seq<char>, to: Seq<char>)
    requires
        from.len() > 0,
    ensures
        replace_all(from + s, from, to) == to + replace_all(s, from, to),
        s.len() > 0 && !occurs_at(s, from, 0) ==> replace_all(s, from, to) == seq![s[0]]
            + replace_all(s.skip(1), from, to),
        s.len() < from.len() ==> replace_all(s, from, to) == s,
{
    let t = from + s;
    assert(t.take(from.len() as int) =~= from);
    assert(t.skip(from.len() as int) =~= s);
    if s.len() > 0 && !occurs_at(s, from, 0) && s.len() >= from.len() {
        assert(s.subrange(0, from.len() as int) =~= s.take(from.len() as int));
    }
    if s.len() > 0 && s.len() < from.len() {
        let r = s.skip(1);
        assert(replace_all(r, from, to) == r);
        assert(s =~= seq![s[0]] + r);
    }
}

/// The UTF-8 encoding of two texts one after the other is the encoding of the
/// first followed by that of the second.
pub proof fn lemma_encode_utf8_concat(a: Seq<char>, b: Seq<char>)
    ensures
        encode_utf8(a + b) == encode_utf8(a) + encode_utf8(b),
    decreases a.len(),
{
    if a.len() == 0 {
        assert(a + b =~= b);
        assert(encode_utf8(a) + encode_utf8(b) =~= encode_utf8(b));
    } else {
        assert((a + b).drop_first() =~= a.drop_first() + b);
        lemma_encode_utf8_concat(a.drop_first(), b);
        assert(encode_utf8(a + b) =~= encode_utf8(a) + encode_utf8(b));
    }
}

} // verus!
