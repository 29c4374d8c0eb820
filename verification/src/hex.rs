//! Programs written as text: hexadecimal digits, two to a byte, with anything
//! else between them ignored and with comment lines.

use vstd::prelude::*;

verus! {

/// The value of a hexadecimal digit in either case, and `None` for any other
/// byte.
pub open spec fn hex_value(c: u8) -> Option<u8> {
    if 0x30 <= c <= 0x39 {
        Some((c - 0x30) as u8)
    } else if 0x61 <= c <= 0x66 {
        Some((c - 0x61 + 10) as u8)
    } else if 0x41 <= c <= 0x46 {
        Some((c - 0x41 + 10) as u8)
    } else {
        None
    }
}

/// Where the line that holds position `k` starts: behind the last line feed
/// before `k`, or at the start of the text.
pub open spec fn line_start(text: Seq<u8>, k: int) -> int
    decreases k,
{
    if k <= 0 {
        0
    } else if text[k - 1] == 0x0A {
        k
    } else {
        line_start(text, k - 1)
    }
}

/// Whether two slashes stand at position `s`.
pub open spec fn starts_comment(text: Seq<u8>, s: int) -> bool {
    s + 1 < text.len() && text[s] == 0x2F && text[s + 1] == 0x2F
}

/// Whether position `k` lies in a comment: a line that starts with two
/// slashes.
pub open spec fn commented(text: Seq<u8>, k: int) -> bool {
    starts_comment(text, line_start(text, k))
}

/// The values of the hexadecimal digits among the first `n` bytes of the
/// text, in order, those in comments left out.
pub open spec fn digits(text: Seq<u8>, n: int) -> Seq<u8>
    decreases n,
{
    if n <= 0 {
        Seq::empty()
    } else {
        let before = digits(text, n - 1);
        match hex_value(text[n - 1]) {
            Some(v) if !commented(text, n - 1) => before.push(v),
            _ => before,
        }
    }
}

/// The bytes that a sequence of digits makes, two digits to a byte, the high
/// one first. A last digit without a partner makes no byte.
pub open spec fn paired(d: Seq<u8>) -> Seq<u8> {
    Seq::new(d.len() / 2, |j: int| (d[2 * j] * 16 + d[2 * j + 1]) as u8)
}

/// The value of a hexadecimal digit in either case.
pub fn hex_digit(c: u8) -> (r: Option<u8>)
    ensures
        r == hex_value(c),
        r matches Some(v) ==> v < 16,
{
    if 0x30 <= c && c <= 0x39 {
        Some(c - 0x30)
    } else if 0x61 <= c && c <= 0x66 {
        Some(c - 0x61 + 10)
    } else if 0x41 <= c && c <= 0x46 {
        Some(c - 0x41 + 10)
    } else {
        None
    }
}

/// The values of the hexadecimal digits of a text, in order, those in
/// comments left out.
pub fn hex_digits(text: &[u8]) -> (r: Vec<u8>)
    ensures
        r@ == digits(text@, text@.len() as int),
        forall|j: int| 0 <= j < r@.len() ==> r@[j] < 16,
{
    let mut found: Vec<u8> = Vec::new();
    let mut comment = false;
    let mut start: usize = 0;
    let mut k: usize = 0;
    while k < text.len()
        invariant
            k <= text@.len(),
            start <= k,
            start == line_start(text@, k as int),
            start < k ==> comment == starts_comment(text@, start as int),
            found@ == digits(text@, k as int),
            forall|j: int| 0 <= j < found@.len() ==> found@[j] < 16,
        decreases text@.len() - k,
    {
        if k == start {
            comment = k + 1 < text.len() && text[k] == 0x2F && text[k + 1] == 0x2F;
        }
        let c: u8 = text[k];
        if !comment {
            match hex_digit(c) {
                Some(v) => found.push(v),
                None => {},
            }
        }
        if c == 0x0A {
            start = k + 1;
        }
        k += 1;
    }
    found
}

/// Makes bytes of digits, two digits to a byte, the high one first.
pub fn pair_digits(d: &Vec<u8>) -> (r: Vec<u8>)
    requires
        d@.len() % 2 == 0,
        forall|j: int| 0 <= j < d@.len() ==> d@[j] < 16,
    ensures
        r@ == paired(d@),
{
    let mut res: Vec<u8> = Vec::new();
    let mut i: usize = 0;
    while i < d.len()
        invariant
            i <= d@.len(),
            i % 2 == 0,
            d@.len() % 2 == 0,
            forall|j: int| 0 <= j < d@.len() ==> d@[j] < 16,
            res@.len() == i / 2,
            forall|j: int| 0 <= j < res@.len() ==> res@[j] == paired(d@)[j],
        decreases d@.len() - i,
    {
        let upper: u8 = d[i] * 16;
        let val: u8 = upper + d[i + 1];
        res.push(val);
        i += 2;
    }
    assert(res@ =~= paired(d@));
    res
}

} // verus!
