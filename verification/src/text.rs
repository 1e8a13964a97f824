//! Character-level text helpers: trimming, searching, comparing and the
//! byte-based token estimate.
use vstd::prelude::*;
use vstd::std_specs::iter::IteratorSpec;

verus! {

/// `true` exactly for the characters with the Unicode `White_Space` property,
/// which is what `char::is_whitespace` and `str::trim` go by.
pub open spec fn is_white_space(c: char) -> bool {
    let u = c as u32;
    ||| (0x09 <= u && u <= 0x0D)
    ||| u == 0x20
    ||| u == 0x85
    ||| u == 0xA0
    ||| u == 0x1680
    ||| (0x2000 <= u && u <= 0x200A)
    ||| u == 0x2028
    ||| u == 0x2029
    ||| u == 0x202F
    ||| u == 0x205F
    ||| u == 0x3000
}

/// A sequence with its leading and trailing white space removed.
pub open spec fn trim_seq(s: Seq<char>) -> Seq<char>
    decreases s.len(),
{
    if s.len() > 0 && is_white_space(s[0]) {
        trim_seq(s.drop_first())
    } else if s.len() > 0 && is_white_space(s.last()) {
        trim_seq(s.drop_last())
    } else {
        s
    }
}

/// `p` occurs in `s` starting at index `i`.
pub open spec fn occurs_at(s: Seq<char>, p: Seq<char>, i: int) -> bool {
    &&& 0 <= i
    &&& i + p.len() <= s.len()
    &&& s.subrange(i, i + p.len()) == p
}

/// The first index at or after `i` where `p` occurs in `s`.
pub open spec fn find_from(s: Seq<char>, p: Seq<char>, i: int) -> Option<int>
    decreases s.len() + 1 - i,
{
    if i < 0 || i + p.len() > s.len() {
        None
    } else if occurs_at(s, p, i) {
        Some(i)
    } else {
        find_from(s, p, i + 1)
    }
}

/// The first index where `p` occurs in `s`, as `str::find` reports it (counted in
/// characters here).
pub open spec fn find_seq(s: Seq<char>, p: Seq<char>) -> Option<int> {
    find_from(s, p, 0)
}

/// The ASCII lower-case form of a character; other characters are unchanged.
pub open spec fn ascii_lower(c: char) -> char {
    if 'A' <= c && c <= 'Z' {
        ((c as u32) + 32) as char
    } else {
        c
    }
}

/// The two sequences are equal when ASCII letters are compared without case.
pub open spec fn eq_ignore_ascii_case_seq(a: Seq<char>, b: Seq<char>) -> bool {
    &&& a.len() == b.len()
    &&& forall|i: int| 0 <= i < a.len() ==> ascii_lower(#[trigger] a[i]) == ascii_lower(b[i])
}

/// The number of bytes of the UTF-8 encoding of `s`.
pub open spec fn utf8_len(s: Seq<char>) -> nat {
    vstd::utf8::encode_utf8(s).len()
}

/// The length in bytes of the UTF-8 encoding of `s`, as `str::len` reports it.
pub open spec fn str_byte_len(s: Seq<char>) -> usize {
    utf8_len(s) as usize
}

/// The token estimate of a text: one token per four bytes of UTF-8, rounded up.
pub open spec fn approx_tokens(byte_len: nat) -> nat {
    if byte_len + 3 > usize::MAX {
        (usize::MAX as nat) / 4
    } else {
        ((byte_len + 3) / 4) as nat
    }
}

/// Appends one character to a string.
#[verifier::external_body]
pub(crate) fn push_char(s: &mut String, c: char)
    ensures
        final(s)@ == old(s)@.push(c),
{
    s.push(c)
}

/// The characters of `s`, in order.
pub fn chars_of(s: &str) -> (v: Vec<char>)
    ensures
        v@ == s@,
{
    let mut v: Vec<char> = Vec::new();
    let mut it = s.chars();
    assert(it.remaining() == s@);
    loop
        invariant
            v@ + it.remaining() == s@,
            it.obeys_prophetic_iter_laws(),
            it.decrease() is Some,
        ensures
            v@ == s@,
        decreases it.decrease()->0,
    {
        let ghost before = it.remaining();
        match it.next() {
            Some(c) => {
                assert(v@.push(c) + it.remaining() == v@ + before);
                v.push(c);
            },
            None => {
                assert(v@ + before == v@);
                break;
            },
        }
    }
    v
}

/// The string made of `v[lo..hi]`.
pub fn string_from_range(v: &[char], lo: usize, hi: usize) -> (r: String)
    requires
        lo <= hi <= v@.len(),
    ensures
        r@ == v@.subrange(lo as int, hi as int),
{
    let mut r = String::new();
    let mut i = lo;
    while i < hi
        invariant
            lo <= i <= hi <= v@.len(),
            r@ == v@.subrange(lo as int, i as int),
        decreases hi - i,
    {
        push_char(&mut r, v[i]);
        assert(v@.subrange(lo as int, i + 1) == v@.subrange(lo as int, i as int).push(v@[i as int]));
        i = i + 1;
    }
    r
}

/// The string made of all of `v`.
pub fn string_from_chars(v: &[char]) -> (r: String)
    ensures
        r@ == v@,
{
    let r = string_from_range(v, 0, v.len());
    assert(v@.subrange(0, v@.len() as int) == v@);
    r
}

/// Whether `c` is Unicode white space.
pub fn is_white_space_char(c: char) -> (b: bool)
    ensures
        b == is_white_space(c),
{
    let u = c as u32;
    (0x09 <= u && u <= 0x0D) || u == 0x20 || u == 0x85 || u == 0xA0 || u == 0x1680 || (0x2000 <= u
        && u <= 0x200A) || u == 0x2028 || u == 0x2029 || u == 0x202F || u == 0x205F || u == 0x3000
}

/// The bounds `lo..hi` of `v` with leading and trailing white space removed.
pub fn trim_bounds(v: &[char], lo0: usize, hi0: usize) -> (r: (usize, usize))
    requires
        lo0 <= hi0 <= v@.len(),
    ensures
        lo0 <= r.0 <= r.1 <= hi0,
        v@.subrange(r.0 as int, r.1 as int) == trim_seq(v@.subrange(lo0 as int, hi0 as int)),
{
    let mut lo = lo0;
    let mut hi = hi0;
    while lo < hi && is_white_space_char(v[lo])
        invariant
            lo0 <= lo <= hi == hi0 <= v@.len(),
            trim_seq(v@.subrange(lo as int, hi as int)) == trim_seq(
                v@.subrange(lo0 as int, hi0 as int),
            ),
        decreases hi - lo,
    {
        assert(v@.subrange(lo as int, hi as int).drop_first() == v@.subrange(lo + 1, hi as int));
        lo = lo + 1;
    }
    while lo < hi && is_white_space_char(v[hi - 1])
        invariant
            lo0 <= lo <= hi <= hi0 <= v@.len(),
            lo < hi ==> !is_white_space(v@[lo as int]),
            trim_seq(v@.subrange(lo as int, hi as int)) == trim_seq(
                v@.subrange(lo0 as int, hi0 as int),
            ),
        decreases hi - lo,
    {
        assert(v@.subrange(lo as int, hi as int).drop_last() == v@.subrange(lo as int, hi - 1));
        hi = hi - 1;
    }
    (lo, hi)
}

/// `s` with leading and trailing white space removed, as `str::trim` does.
pub fn trim(s: &str) -> (r: String)
    ensures
        r@ == trim_seq(s@),
{
    let v = chars_of(s);
    let (lo, hi) = trim_bounds(&v, 0, v.len());
    assert(v@.subrange(0, v@.len() as int) == v@);
    string_from_range(&v, lo, hi)
}

/// Whether `p` occurs in `v` at index `i`.
pub fn occurs_at_exec(v: &[char], p: &[char], i: usize) -> (b: bool)
    ensures
        b == occurs_at(v@, p@, i as int),
{
    let n = v.len();
    if i > n || p.len() > n - i {
        return false;
    }
    let mut j: usize = 0;
    while j < p.len()
        invariant
            n == v@.len(),
            i + p@.len() <= n,
            j <= p@.len(),
            forall|k: int| 0 <= k < j ==> v@[i + k] == p@[k],
        decreases p@.len() - j,
    {
        if v[i + j] != p[j] {
            assert(v@.subrange(i as int, i + p@.len())[j as int] != p@[j as int]);
            return false;
        }
        j = j + 1;
    }
    assert(v@.subrange(i as int, i + p@.len()) == p@);
    true
}

/// The first index at or after `from` where `p` occurs in `v`.
pub fn find_chars_from(v: &[char], p: &[char], from: usize) -> (r: Option<usize>)
    ensures
        r == (match find_from(v@, p@, from as int) {
            Some(i) => Some(i as usize),
            None => None::<usize>,
        }),
        r matches Some(i) ==> from <= i,
{
    let n = v.len();
    let mut i = from;
    while i <= n && p.len() <= n - i
        invariant
            n == v@.len(),
            from <= i,
            find_from(v@, p@, i as int) == find_from(v@, p@, from as int),
        decreases v@.len() + 1 - i,
    {
        if occurs_at_exec(v, p, i) {
            return Some(i);
        }
        if i == n {
            assert(find_from(v@, p@, i + 1) is None);
            return None;
        }
        i = i + 1;
    }
    None
}

/// Whether `p` occurs anywhere in `v`.
pub fn contains_chars(v: &[char], p: &[char]) -> (b: bool)
    ensures
        b == (find_seq(v@, p@) is Some),
{
    find_chars_from(v, p, 0).is_some()
}

/// The ASCII lower-case form of `c`.
pub fn ascii_lower_char(c: char) -> (r: char)
    ensures
        r == ascii_lower(c),
{
    if 'A' <= c && c <= 'Z' {
        let u = (c as u32) + 32;
        assert(0x61 <= u <= 0x7A);
        char_from_ascii_code(u)
    } else {
        c
    }
}

/// The character with an ASCII lower-case letter code.
fn char_from_ascii_code(u: u32) -> (c: char)
    requires
        0x61 <= u <= 0x7A,
    ensures
        c == u as char,
{
    let b = u as u8;
    b as char
}

/// Whether `a` and `b` are equal when ASCII letters are compared without case.
pub fn eq_ignore_ascii_case(a: &[char], b: &[char]) -> (r: bool)
    ensures
        r == eq_ignore_ascii_case_seq(a@, b@),
{
    if a.len() != b.len() {
        return false;
    }
    let mut i: usize = 0;
    while i < a.len()
        invariant
            a@.len() == b@.len(),
            i <= a@.len(),
            forall|k: int| 0 <= k < i ==> ascii_lower(#[trigger] a@[k]) == ascii_lower(b@[k]),
        decreases a@.len() - i,
    {
        if ascii_lower_char(a[i]) != ascii_lower_char(b[i]) {
            return false;
        }
        i = i + 1;
    }
    true
}

/// The estimated number of tokens of `text`: its UTF-8 length in bytes divided
/// by four, rounded up.
pub fn approx_token_count(text: &str) -> (n: usize)
    ensures
        n == approx_tokens(str_byte_len(text@) as nat),
{
    let len = text.len();
    len.saturating_add(3) / 4
}

} // verus!

verus! {

/// `a` sorts strictly before `b`, comparing characters by code point from the
/// start; a proper prefix sorts first. This is the order of `String`'s `Ord`,
/// since UTF-8 keeps code point order byte by byte.
pub open spec fn seq_lt(a: Seq<char>, b: Seq<char>) -> bool
    decreases a.len(),
{
    if a.len() == 0 {
        b.len() > 0
    } else if b.len() == 0 {
        false
    } else if a[0] != b[0] {
        a[0] < b[0]
    } else {
        seq_lt(a.drop_first(), b.drop_first())
    }
}

/// The outcome of comparing two values.
#[derive(Debug, Clone, Copy, PartialEq, Eq, Structural)]
pub enum Comparison {
    Less,
    Equal,
    Greater,
}

/// No sequence sorts before itself.
pub proof fn lemma_seq_lt_irreflexive(a: Seq<char>)
    ensures
        !seq_lt(a, a),
    decreases a.len(),
{
    if a.len() > 0 {
        lemma_seq_lt_irreflexive(a.drop_first());
    }
}

/// The order on sequences is transitive.
pub proof fn lemma_seq_lt_transitive(a: Seq<char>, b: Seq<char>, c: Seq<char>)
    requires
        seq_lt(a, b),
        seq_lt(b, c),
    ensures
        seq_lt(a, c),
    decreases a.len(),
{
    if a.len() > 0 && b.len() > 0 && c.len() > 0 {
        if a[0] == b[0] && b[0] == c[0] {
            lemma_seq_lt_transitive(a.drop_first(), b.drop_first(), c.drop_first());
        }
    }
}

/// Two distinct sequences are ordered one way and not the other.
pub proof fn lemma_seq_lt_total(a: Seq<char>, b: Seq<char>)
    ensures
        a != b ==> (seq_lt(a, b) || seq_lt(b, a)),
        !(seq_lt(a, b) && seq_lt(b, a)),
    decreases a.len(),
{
    if a.len() > 0 && b.len() > 0 {
        lemma_seq_lt_total(a.drop_first(), b.drop_first());
        if a[0] == b[0] && a.drop_first() == b.drop_first() {
            assert forall|k: int| 0 <= k < a.len() implies a[k] == b[k] by {
                if k > 0 {
                    assert(a[k] == a.drop_first()[k - 1]);
                    assert(b[k] == b.drop_first()[k - 1]);
                }
            }
            assert(a =~= b);
        }
    } else if a.len() == 0 && b.len() == 0 {
        assert(a =~= b);
    }
}

/// Compares two character sequences in the order of `seq_lt`.
pub fn compare_chars(a: &[char], b: &[char]) -> (r: Comparison)
    ensures
        r == Comparison::Less <==> seq_lt(a@, b@),
        r == Comparison::Equal <==> a@ == b@,
        r == Comparison::Greater <==> seq_lt(b@, a@),
{
    proof {
        lemma_seq_lt_total(a@, b@);
        lemma_seq_lt_irreflexive(a@);
    }
    let mut i: usize = 0;
    let na = a.len();
    let nb = b.len();
    assert(a@.skip(0) == a@);
    assert(b@.skip(0) == b@);
    while i < na && i < nb
        invariant
            na == a@.len(),
            nb == b@.len(),
            i <= na,
            i <= nb,
            a@.subrange(0, i as int) == b@.subrange(0, i as int),
            seq_lt(a@, b@) == seq_lt(a@.skip(i as int), b@.skip(i as int)),
            seq_lt(b@, a@) == seq_lt(b@.skip(i as int), a@.skip(i as int)),
        decreases na - i,
    {
        let ca = a[i];
        let cb = b[i];
        if ca != cb {
            assert(a@.skip(i as int)[0] == ca);
            assert(b@.skip(i as int)[0] == cb);
            if ca < cb {
                return Comparison::Less;
            } else {
                return Comparison::Greater;
            }
        }
        assert(a@.skip(i as int).drop_first() == a@.skip(i + 1));
        assert(b@.skip(i as int).drop_first() == b@.skip(i + 1));
        assert(a@.subrange(0, i + 1) == a@.subrange(0, i as int).push(ca));
        assert(b@.subrange(0, i + 1) == b@.subrange(0, i as int).push(cb));
        i = i + 1;
    }
    if i == na && i == nb {
        assert(a@ == a@.subrange(0, i as int));
        assert(b@ == b@.subrange(0, i as int));
        Comparison::Equal
    } else if i == na {
        assert(a@.skip(i as int).len() == 0);
        Comparison::Less
    } else {
        assert(b@.skip(i as int).len() == 0);
        Comparison::Greater
    }
}

} // verus!

verus! {

/// Whether two texts are equal.
pub fn str_eq(a: &str, b: &str) -> (r: bool)
    ensures
        r == (a@ == b@),
{
    let av = chars_of(a);
    let bv = chars_of(b);
    match compare_chars(&av, &bv) {
        Comparison::Equal => true,
        _ => false,
    }
}

} // verus!

verus! {

/// The text of `a` followed by that of `b`.
pub fn concat(a: &str, b: &str) -> (r: String)
    ensures
        r@ == a@ + b@,
{
    let mut v = chars_of(a);
    let mut w = chars_of(b);
    v.append(&mut w);
    string_from_chars(&v)
}

} // verus!
