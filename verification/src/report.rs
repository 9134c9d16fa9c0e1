//! Result-line formatting: the exact bytes appended to the result file for
//! one confirmed finding.

use vstd::prelude::*;
use crate::text::copy_bytes;

verus! {

/// The decimal digits of `n`, most significant first.
pub open spec fn dec_digits(n: nat) -> Seq<u8>
    decreases n,
{
    if n < 10 {
        seq![(48 + n) as u8]
    } else {
        dec_digits(n / 10).push((48 + n % 10) as u8)
    }
}

/// Append the decimal digits of `n`.
fn push_digits(n: usize, out: &mut Vec<u8>)
    ensures
        final(out)@ == old(out)@ + dec_digits(n as nat),
    decreases n,
{
    if n >= 10 {
        push_digits(n / 10, out);
    }
    out.push(48 + (n % 10) as u8);
    proof {
        assert(out@ =~= old(out)@ + dec_digits(n as nat));
    }
}

/// The literal ` (大小: ` that precedes the byte size, as UTF-8.
pub open spec fn size_label_prefix() -> Seq<u8> {
    seq![32u8, 40u8, 0xE5u8, 0xA4u8, 0xA7u8, 0xE5u8, 0xB0u8, 0x8Fu8, 58u8, 32u8]
}

/// The literal ` 字节)` and the line break that follow the byte size, as
/// UTF-8.
pub open spec fn size_label_suffix() -> Seq<u8> {
    seq![32u8, 0xE5u8, 0xADu8, 0x97u8, 0xE8u8, 0x8Au8, 0x82u8, 41u8, 10u8]
}

/// One result-file line: the absolute URL, then its body size in bytes
/// between the labels.
pub open spec fn result_line_spec(url: Seq<u8>, size: nat) -> Seq<u8> {
    url + size_label_prefix() + dec_digits(size) + size_label_suffix()
}

/// Format the result-file line for one confirmed finding, byte for byte as
/// [`result_line_spec`] states it.
pub fn result_line(url: &Vec<u8>, size: usize) -> (r: Vec<u8>)
    ensures
        r@ == result_line_spec(url@, size as nat),
{
    let mut r = copy_bytes(url);
    r.push(32);
    r.push(40);
    r.push(0xE5);
    r.push(0xA4);
    r.push(0xA7);
    r.push(0xE5);
    r.push(0xB0);
    r.push(0x8F);
    r.push(58);
    r.push(32);
    proof {
        assert(r@ =~= url@ + size_label_prefix());
    }
    push_digits(size, &mut r);
    r.push(32);
    r.push(0xE5);
    r.push(0xAD);
    r.push(0x97);
    r.push(0xE8);
    r.push(0x8A);
    r.push(0x82);
    r.push(41);
    r.push(10);
    proof {
        assert(r@ =~= result_line_spec(url@, size as nat));
    }
    r
}

} // verus!
