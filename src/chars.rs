//! Character-level helpers: conversions between strings and character vectors, and the
//! whitespace rule used when trimming text.

use vstd::prelude::*;

verus! {

/// Relies on `str::chars` collected into a `Vec`: the characters of `s`, in order.
#[verifier::external_body]
pub fn chars_of(s: &str) -> (r: Vec<char>)
    ensures
        r@ == s@,
{
    s.chars().collect()
}

/// Relies on collecting `char`s into a `String`: the string made of the characters of `v`.
#[verifier::external_body]
pub fn string_of(v: &Vec<char>) -> (r: String)
    ensures
        r@ == v@,
{
    v.iter().collect()
}

/// Unicode `White_Space`, the set that `char::is_whitespace` and `str::trim` use.
pub open spec fn is_ws(c: char) -> bool {
    let u = c as u32;
    (0x09 <= u && u <= 0x0d) || u == 0x20 || u == 0x85 || u == 0xa0 || u == 0x1680 || (0x2000 <= u
        && u <= 0x200a) || u == 0x2028 || u == 0x2029 || u == 0x202f || u == 0x205f || u == 0x3000
}

/// Executable form of [`is_ws`].
pub fn is_whitespace(c: char) -> (r: bool)
    ensures
        r == is_ws(c),
{
    let u = c as u32;
    (0x09 <= u && u <= 0x0d) || u == 0x20 || u == 0x85 || u == 0xa0 || u == 0x1680 || (0x2000 <= u
        && u <= 0x200a) || u == 0x2028 || u == 0x2029 || u == 0x202f || u == 0x205f || u == 0x3000
}

/// Number of whitespace characters at the end of `s`.
pub open spec fn trailing_ws(s: Seq<char>) -> nat
    decreases s.len(),
{
    if s.len() > 0 && is_ws(s.last()) {
        1 + trailing_ws(s.drop_last())
    } else {
        0
    }
}

/// Number of whitespace characters at the start of `s`.
pub open spec fn leading_ws(s: Seq<char>) -> nat
    decreases s.len(),
{
    if s.len() > 0 && is_ws(s[0]) {
        1 + leading_ws(s.drop_first())
    } else {
        0
    }
}

pub proof fn lemma_trailing_ws_bound(s: Seq<char>)
    ensures
        trailing_ws(s) <= s.len(),
    decreases s.len(),
{
    if s.len() > 0 && is_ws(s.last()) {
        lemma_trailing_ws_bound(s.drop_last());
    }
}

pub proof fn lemma_leading_ws_bound(s: Seq<char>)
    ensures
        leading_ws(s) <= s.len(),
    decreases s.len(),
{
    if s.len() > 0 && is_ws(s[0]) {
        lemma_leading_ws_bound(s.drop_first());
    }
}

/// `s` without its trailing whitespace.
pub open spec fn trim_end_spec(s: Seq<char>) -> Seq<char> {
    s.subrange(0, s.len() - trailing_ws(s))
}

/// `s` without its leading and trailing whitespace.
pub open spec fn trim_spec(s: Seq<char>) -> Seq<char> {
    let t = trim_end_spec(s);
    t.subrange(leading_ws(t) as int, t.len() as int)
}

/// The length of `v` once its trailing whitespace is dropped.
pub fn trim_end_len(v: &Vec<char>) -> (n: usize)
    ensures
        n == v@.len() - trailing_ws(v@),
{
    let mut n: usize = v.len();
    proof {
        lemma_trailing_ws_bound(v@);
        assert(v@.subrange(0, v@.len() as int) =~= v@);
    }
    while n > 0 && is_whitespace(v[n - 1])
        invariant
            n <= v@.len(),
            trailing_ws(v@) == (v@.len() - n) + trailing_ws(v@.subrange(0, n as int)),
        decreases n,
    {
        proof {
            let p = v@.subrange(0, n as int);
            assert(p.drop_last() =~= v@.subrange(0, n - 1));
        }
        n = n - 1;
    }
    proof {
        let p = v@.subrange(0, n as int);
        if n > 0 {
            assert(p.last() == v@[n - 1]);
        }
    }
    n
}

/// The number of whitespace characters at the start of `v`.
pub fn leading_ws_len(v: &Vec<char>) -> (n: usize)
    ensures
        n == leading_ws(v@),
{
    let mut n: usize = 0;
    proof {
        lemma_leading_ws_bound(v@);
        assert(v@.subrange(0, v@.len() as int) =~= v@);
    }
    while n < v.len() && is_whitespace(v[n])
        invariant
            n <= v@.len(),
            leading_ws(v@) == n + leading_ws(v@.subrange(n as int, v@.len() as int)),
        decreases v@.len() - n,
    {
        proof {
            let p = v@.subrange(n as int, v@.len() as int);
            assert(p.drop_first() =~= v@.subrange(n + 1, v@.len() as int));
        }
        n = n + 1;
    }
    n
}

/// The characters `v[from..to]`.
pub fn slice_chars(v: &Vec<char>, from: usize, to: usize) -> (r: Vec<char>)
    requires
        from <= to <= v@.len(),
    ensures
        r@ == v@.subrange(from as int, to as int),
{
    let mut r: Vec<char> = Vec::new();
    let mut i: usize = from;
    while i < to
        invariant
            from <= i <= to <= v@.len(),
            r@ == v@.subrange(from as int, i as int),
        decreases to - i,
    {
        r.push(v[i]);
        proof {
            assert(r@ =~= v@.subrange(from as int, i + 1));
        }
        i = i + 1;
    }
    r
}

/// `s` without leading and trailing whitespace.
pub fn trim(s: &str) -> (r: String)
    ensures
        r@ == trim_spec(s@),
{
    let v = chars_of(s);
    let end = trim_end_len(&v);
    let t = slice_chars(&v, 0, end);
    let start = leading_ws_len(&t);
    proof {
        lemma_leading_ws_bound(t@);
    }
    let u = slice_chars(&t, start, t.len());
    string_of(&u)
}

/// Appends the characters of `src` to `dst`.
pub fn extend_chars(dst: &mut Vec<char>, src: &Vec<char>)
    ensures
        final(dst)@ == old(dst)@ + src@,
{
    let mut i: usize = 0;
    while i < src.len()
        invariant
            i <= src@.len(),
            dst@ == old(dst)@ + src@.subrange(0, i as int),
        decreases src@.len() - i,
    {
        dst.push(src[i]);
        proof {
            assert(dst@ =~= old(dst)@ + src@.subrange(0, i + 1));
        }
        i = i + 1;
    }
    proof {
        assert(src@.subrange(0, src@.len() as int) =~= src@);
    }
}

/// Appends the characters of `src` to `dst`.
pub fn extend_str(dst: &mut Vec<char>, src: &str)
    ensures
        final(dst)@ == old(dst)@ + src@,
{
    let v = chars_of(src);
    extend_chars(dst, &v);
}

/// Keeps [`StringExt`] to the string types of this crate's choosing.
pub trait Sealed {}

impl Sealed for String {}

/// Operations on owned strings.
pub trait StringExt: Sealed + View<V = Seq<char>> {
    /// Drops the trailing whitespace of the string, in place.
    fn trim_end_in_place(&mut self)
        ensures
            final(self)@ == trim_end_spec(old(self)@),
    ;
}

impl StringExt for String {
    fn trim_end_in_place(&mut self) {
        let v = chars_of(self.as_str());
        let n = trim_end_len(&v);
        let t = slice_chars(&v, 0, n);
        *self = string_of(&t);
    }
}

} // verus!
