//! Text helpers: the decimal form of integers, and the std string calls that
//! vstd leaves unspecified.
use vstd::prelude::*;

verus! {

/// The character of the decimal digit `d` (`0 <= d < 10`).
pub open spec fn digit_char(d: int) -> char {
    (d + 48) as char
}

/// The decimal digits of `n`, most significant first, without leading zeros.
pub open spec fn digits(n: nat) -> Seq<char>
    decreases n,
{
    if n < 10 {
        seq![digit_char(n as int)]
    } else {
        digits(n / 10).push(digit_char((n % 10) as int))
    }
}

/// How Rust displays an integer: its digits, with a leading `-` when negative.
pub open spec fn decimal(n: int) -> Seq<char> {
    if n < 0 {
        seq!['-'] + digits((-n) as nat)
    } else {
        digits(n as nat)
    }
}

/// The decimal digits of `n` (see `digits`).
fn digits_of(n: u32) -> (r: String)
    ensures
        r@ == digits(n as nat),
    decreases n,
{
    let d = n % 10;
    let c = ((d as u8) + 48) as char;
    proof {
        assert(c == digit_char(d as int));
    }
    if n < 10 {
        let mut s = String::new();
        push_char(&mut s, c);
        assert(s@ =~= seq![c]);
        s
    } else {
        let mut s = digits_of(n / 10);
        push_char(&mut s, c);
        s
    }
}

/// An `i32` in decimal, as its `Display` writes it: its digits, with a
/// leading `-` when it is negative.
pub(crate) fn i32_to_text(n: i32) -> (r: String)
    ensures
        r@ == decimal(n as int),
{
    if n < 0 {
        let m = (0i64 - (n as i64)) as u32;
        let mut s = String::new();
        push_char(&mut s, '-');
        let ds = digits_of(m);
        s.append(ds.as_str());
        assert(s@ =~= seq!['-'] + digits((-n) as nat));
        s
    } else {
        digits_of(n as u32)
    }
}

/// `String::push`: appends one character.
#[verifier::external_body]
pub(crate) fn push_char(s: &mut String, c: char)
    ensures
        final(s)@ == old(s)@.push(c),
{
    s.push(c)
}

/// `String::from_iter` over characters (written `iter().collect()`): the
/// string made of the characters in order.
#[verifier::external_body]
pub(crate) fn string_from_chars(cs: &Vec<char>) -> (r: String)
    ensures
        r@ == cs@,
{
    cs.iter().collect()
}

/// A string with the text of `a`, then `sep`, then the text of `b`.
pub fn join_with(a: String, sep: char, b: &String) -> (r: String)
    ensures
        r@ == a@.push(sep) + b@,
{
    let mut s = a;
    push_char(&mut s, sep);
    s.append(b.as_str());
    s
}

} // verus!

verus! {

/// The texts of a sequence of strings.
pub open spec fn texts(v: Seq<String>) -> Seq<Seq<char>> {
    v.map_values(|s: String| s@)
}

/// The texts of a sequence of string slices.
pub open spec fn str_texts(v: Seq<&str>) -> Seq<Seq<char>> {
    v.map_values(|s: &str| s@)
}

/// Owned copies of the given string slices, in order.
pub fn strings_of(strs: &Vec<&str>) -> (r: Vec<String>)
    ensures
        texts(r@) == str_texts(strs@),
{
    let mut r: Vec<String> = Vec::new();
    let mut i: usize = 0;
    while i < strs.len()
        invariant
            i <= strs@.len(),
            texts(r@) == str_texts(strs@.subrange(0, i as int)),
        decreases strs@.len() - i,
    {
        let ghost before = r@;
        let s = String::from_str(strs[i]);
        r.push(s);
        assert(strs@.subrange(0, i + 1) =~= strs@.subrange(0, i as int).push(strs@[i as int]));
        assert(r@ =~= before.push(s));
        assert(texts(r@) =~= texts(before).push(s@));
        assert(str_texts(strs@.subrange(0, i + 1)) =~= str_texts(strs@.subrange(0, i as int)).push(strs@[i as int]@));
        i += 1;
        assert(texts(r@) =~= str_texts(strs@.subrange(0, i as int)));
    }
    assert(strs@.subrange(0, strs@.len() as int) =~= strs@);
    r
}

} // verus!
