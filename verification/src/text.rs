//! Character-level string helpers used throughout the library.

use vstd::prelude::*;

verus! {

/// Every character of `s`, in order.
pub fn chars_of(s: &str) -> (v: Vec<char>)
    ensures
        v@ == s@,
{
    let mut v: Vec<char> = Vec::new();
    for c in iter: s.chars()
        invariant
            v@ == iter.seq().take(iter.index() as int),
            iter.seq() == s@,
    {
        v.push(c);
    }
    v
}

/// Appends one character (std's `String::push`).
#[verifier::external_body]
pub(crate) fn push_char(s: &mut String, c: char)
    ensures
        final(s)@ == old(s)@.push(c),
{
    s.push(c);
}

/// A string holding exactly the given characters.
pub fn string_from_chars(v: &Vec<char>) -> (s: String)
    ensures
        s@ == v@,
{
    let mut s = String::new();
    for i in 0..v.len()
        invariant
            s@ == v@.take(i as int),
    {
        push_char(&mut s, v[i]);
        assert(v@.take(i as int).push(v@[i as int]) =~= v@.take(i + 1));
    }
    assert(v@.take(v.len() as int) =~= v@);
    s
}

} // verus!

verus! {

/// Removes and returns the last character (std's `String::pop`).
#[verifier::external_body]
pub(crate) fn pop_char(s: &mut String) -> (r: Option<char>)
    ensures
        old(s)@.len() == 0 ==> r is None && final(s)@ == old(s)@,
        old(s)@.len() > 0 ==> r == Some(old(s)@.last()) && final(s)@ == old(s)@.drop_last(),
{
    s.pop()
}

/// What std's `str::to_lowercase` returns for a string: its Unicode
/// lowercase form, which maps most characters one by one but a final
/// capital sigma by its context.
pub uninterp spec fn lowercase(s: Seq<char>) -> Seq<char>;

/// The lowercase form of `s` (std's `str::to_lowercase`).
#[verifier::external_body]
pub(crate) fn to_lowercase(s: &str) -> (r: String)
    ensures
        r@ == lowercase(s@),
{
    s.to_lowercase()
}

/// `s` with every occurrence of `from` turned into `to`.
pub open spec fn replace_char(s: Seq<char>, from: char, to: char) -> Seq<char> {
    s.map_values(|c: char| if c == from { to } else { c })
}

/// `s` with every occurrence of the character `from` replaced by `to`
/// (what `str::replace` does for single-character patterns).
pub fn replace_char_in(s: &str, from: char, to: char) -> (r: String)
    ensures
        r@ == replace_char(s@, from, to),
{
    let v = chars_of(s);
    let mut out: Vec<char> = Vec::new();
    for i in 0..v.len()
        invariant
            v@ == s@,
            out@ == replace_char(s@.take(i as int), from, to),
    {
        let c = v[i];
        out.push(if c == from { to } else { c });
        assert(replace_char(s@.take(i + 1), from, to) =~= replace_char(s@.take(i as int), from, to).push(
            if c == from { to } else { c },
        ));
    }
    assert(s@.take(v.len() as int) =~= s@);
    string_from_chars(&out)
}

/// `p` is a prefix of `s`.
pub open spec fn is_prefix(p: Seq<char>, s: Seq<char>) -> bool {
    p.len() <= s.len() && s.take(p.len() as int) == p
}

/// Whether `s` begins with `p` (what `str::starts_with` decides).
pub fn starts_with(s: &Vec<char>, p: &Vec<char>) -> (r: bool)
    ensures
        r == is_prefix(p@, s@),
{
    if p.len() > s.len() {
        return false;
    }
    for i in 0..p.len()
        invariant
            p.len() <= s.len(),
            forall|j: int| 0 <= j < i ==> s@[j] == p@[j],
    {
        if s[i] != p[i] {
            assert(s@.take(p.len() as int)[i as int] != p@[i as int]);
            return false;
        }
    }
    assert(s@.take(p.len() as int) =~= p@);
    true
}

/// `p` occurs in `s` as a contiguous run of characters.
pub open spec fn has_infix(s: Seq<char>, p: Seq<char>) -> bool {
    exists|i: int| 0 <= i && i + p.len() <= s.len() && #[trigger] s.subrange(i, i + p.len()) == p
}

/// Whether `p` occurs at position `at` of `s`.
fn occurs_at(s: &Vec<char>, p: &Vec<char>, at: usize) -> (r: bool)
    requires
        at + p.len() <= s.len(),
    ensures
        r == (s@.subrange(at as int, at + p.len()) == p@),
{
    for j in 0..p.len()
        invariant
            at + p.len() <= s.len(),
            forall|k: int| 0 <= k < j ==> s@[at + k] == p@[k],
    {
        if s[at + j] != p[j] {
            assert(s@.subrange(at as int, at + p.len())[j as int] != p@[j as int]);
            return false;
        }
    }
    assert(s@.subrange(at as int, at + p.len()) =~= p@);
    true
}

/// Whether `p` occurs in `s` (what `str::contains` decides for a string pattern).
pub fn contains_chars(s: &Vec<char>, p: &Vec<char>) -> (r: bool)
    ensures
        r == has_infix(s@, p@),
{
    if p.len() > s.len() {
        return false;
    }
    let last = s.len() - p.len();
    for at in 0..last
        invariant
            last + p.len() == s.len(),
            forall|i: int| 0 <= i < at ==> #[trigger] s@.subrange(i, i + p.len()) != p@,
    {
        if occurs_at(s, p, at) {
            return true;
        }
    }
    if occurs_at(s, p, last) {
        return true;
    }
    assert forall|i: int| 0 <= i && i + p.len() <= s.len() implies #[trigger] s@.subrange(
        i,
        i + p.len(),
    ) != p@ by {
        assert(i <= last);
    }
    false
}

/// `s` with every trailing `c` removed (what `str::trim_end_matches` does
/// for a character pattern).
pub open spec fn trim_trailing(s: Seq<char>, c: char) -> Seq<char>
    decreases s.len(),
{
    if s.len() > 0 && s.last() == c {
        trim_trailing(s.drop_last(), c)
    } else {
        s
    }
}

/// Removes every trailing `c` from `s`.
pub fn trim_end_char(s: &str, c: char) -> (r: String)
    ensures
        r@ == trim_trailing(s@, c),
{
    let v = chars_of(s);
    let mut n = v.len();
    assert(s@.take(n as int) =~= s@);
    while n > 0 && v[n - 1] == c
        invariant
            n <= v.len(),
            v@ == s@,
            trim_trailing(s@, c) == trim_trailing(s@.take(n as int), c),
        decreases n,
    {
        assert(s@.take(n as int).drop_last() =~= s@.take(n - 1));
        n = n - 1;
    }
    let mut out: Vec<char> = Vec::new();
    for i in 0..n
        invariant
            n <= v.len(),
            out@ == v@.take(i as int),
    {
        out.push(v[i]);
        assert(v@.take(i as int).push(v@[i as int]) =~= v@.take(i + 1));
    }
    assert(trim_trailing(s@.take(n as int), c) == s@.take(n as int));
    string_from_chars(&out)
}

} // verus!

verus! {

/// Lexicographic order on character sequences, character by character
/// (the order `String`'s `Ord` gives, since UTF-8 preserves code-point order).
pub open spec fn chars_lt(a: Seq<char>, b: Seq<char>) -> bool
    decreases a.len(),
{
    if b.len() == 0 {
        false
    } else if a.len() == 0 {
        true
    } else if a[0] != b[0] {
        a[0] < b[0]
    } else {
        chars_lt(a.drop_first(), b.drop_first())
    }
}

/// No sequence precedes itself.
pub proof fn lemma_chars_lt_irreflexive(a: Seq<char>)
    ensures
        !chars_lt(a, a),
    decreases a.len(),
{
    if a.len() > 0 {
        lemma_chars_lt_irreflexive(a.drop_first());
    }
}

/// The lexicographic order is transitive.
pub proof fn lemma_chars_lt_transitive(a: Seq<char>, b: Seq<char>, c: Seq<char>)
    requires
        chars_lt(a, b),
        chars_lt(b, c),
    ensures
        chars_lt(a, c),
    decreases a.len(),
{
    if a.len() > 0 && b.len() > 0 && c.len() > 0 && a[0] == b[0] && b[0] == c[0] {
        lemma_chars_lt_transitive(a.drop_first(), b.drop_first(), c.drop_first());
    }
}

/// At most one of two sequences precedes the other.
pub proof fn lemma_chars_lt_asymmetric(a: Seq<char>, b: Seq<char>)
    ensures
        !(chars_lt(a, b) && chars_lt(b, a)),
{
    if chars_lt(a, b) && chars_lt(b, a) {
        lemma_chars_lt_transitive(a, b, a);
        lemma_chars_lt_irreflexive(a);
    }
}

/// Two different sequences are always ordered one way or the other.
pub proof fn lemma_chars_lt_total(a: Seq<char>, b: Seq<char>)
    ensures
        a != b ==> chars_lt(a, b) || chars_lt(b, a),
    decreases a.len(),
{
    if a.len() > 0 && b.len() > 0 && a[0] == b[0] {
        lemma_chars_lt_total(a.drop_first(), b.drop_first());
        if a.drop_first() == b.drop_first() {
            assert(a =~= seq![a[0]] + a.drop_first());
            assert(b =~= seq![b[0]] + b.drop_first());
        }
    } else if a.len() == 0 && b.len() == 0 {
        assert(a =~= b);
    } else if a.len() > 0 && b.len() > 0 {
        assert(a[0] != b[0]);
    }
}

/// Whether `a` precedes `b` lexicographically.
pub fn chars_less(a: &Vec<char>, b: &Vec<char>) -> (r: bool)
    ensures
        r == chars_lt(a@, b@),
{
    let mut i: usize = 0;
    assert(a@.skip(0) =~= a@);
    assert(b@.skip(0) =~= b@);
    while i < a.len() && i < b.len() && a[i] == b[i]
        invariant
            i <= a.len(),
            i <= b.len(),
            chars_lt(a@, b@) == chars_lt(a@.skip(i as int), b@.skip(i as int)),
        decreases a.len() - i,
    {
        assert(a@.skip(i as int).drop_first() =~= a@.skip(i + 1));
        assert(b@.skip(i as int).drop_first() =~= b@.skip(i + 1));
        i = i + 1;
    }
    if i == b.len() {
        false
    } else if i == a.len() {
        true
    } else {
        a[i] < b[i]
    }
}

} // verus!

verus! {

/// Number of bytes in the UTF-8 encoding of `v` (what `str::len` counts).
pub fn utf8_len(v: &Vec<char>) -> (r: u128)
    ensures
        r == vstd::utf8::encode_utf8(v@).len(),
{
    let mut acc: u128 = 0;
    let mut i = v.len();
    assert(v@.skip(i as int) =~= Seq::<char>::empty());
    while i > 0
        invariant
            i <= v.len(),
            acc == vstd::utf8::encode_utf8(v@.skip(i as int)).len(),
            acc <= 4 * (v.len() - i),
        decreases i,
    {
        let c = v[i - 1];
        let u = c as u32;
        let w: u128 = if u <= 0x7f {
            1
        } else if u <= 0x7ff {
            2
        } else if u <= 0xffff {
            3
        } else {
            4
        };
        assert(v@.skip(i - 1).drop_first() =~= v@.skip(i as int));
        assert(v@.skip(i - 1)[0] == c);
        assert(vstd::utf8::encode_scalar(u).len() == w) by {
            vstd::utf8::char_is_scalar(c);
        }
        acc = acc + w;
        i = i - 1;
    }
    assert(v@.skip(0) =~= v@);
    acc
}

} // verus!

verus! {

/// `p` is a suffix of `s`.
pub open spec fn has_suffix(s: Seq<char>, p: Seq<char>) -> bool {
    p.len() <= s.len() && s.skip(s.len() - p.len()) == p
}

/// Whether `s` ends with `p` (what `str::ends_with` decides).
pub fn ends_with(s: &Vec<char>, p: &Vec<char>) -> (r: bool)
    ensures
        r == has_suffix(s@, p@),
{
    if p.len() > s.len() {
        return false;
    }
    let off = s.len() - p.len();
    for i in 0..p.len()
        invariant
            off + p.len() == s.len(),
            forall|j: int| 0 <= j < i ==> s@[off + j] == p@[j],
    {
        if s[off + i] != p[i] {
            assert(s@.skip(off as int)[i as int] != p@[i as int]);
            return false;
        }
    }
    assert(s@.skip(off as int) =~= p@);
    true
}

} // verus!
