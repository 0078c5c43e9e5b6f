use vstd::prelude::*;

verus! {

/// The lowercase hexadecimal digit of value `d`.
pub open spec fn hex_digit(d: int) -> char {
    seq!['0', '1', '2', '3', '4', '5', '6', '7', '8', '9', 'a', 'b', 'c', 'd', 'e', 'f'][d]
}

/// A 16-bit value as exactly four lowercase hexadecimal digits.
pub open spec fn hex4(v: u16) -> Seq<char> {
    seq![
        hex_digit(v as int / 4096),
        hex_digit((v as int / 256) % 16),
        hex_digit((v as int / 16) % 16),
        hex_digit(v as int % 16),
    ]
}

/// The canonical identifier of a device model: `vvvv:pppp`.
pub open spec fn usb_id_of(vendor: u16, product: u16) -> Seq<char> {
    hex4(vendor) + seq![':'] + hex4(product)
}

/// Appends the digit of value `d` to `s`.
fn push_hex_digit(s: &mut String, d: u16)
    requires
        d < 16,
    ensures
        final(s)@ == old(s)@.push(hex_digit(d as int)),
{
    let digits = "0123456789abcdef";
    proof {
        reveal_strlit("0123456789abcdef");
    }
    let one = digits.substring_char(d as usize, d as usize + 1);
    assert(one@ =~= seq![hex_digit(d as int)]);
    s.append(one);
}

/// Appends the four digits of `v` to `s`.
fn push_hex4(s: &mut String, v: u16)
    ensures
        final(s)@ == old(s)@ + hex4(v),
{
    push_hex_digit(s, v / 4096);
    push_hex_digit(s, (v / 256) % 16);
    push_hex_digit(s, (v / 16) % 16);
    push_hex_digit(s, v % 16);
    assert(s@ =~= old(s)@ + hex4(v));
}

/// Formats a vendor and product id as the canonical identifier `vvvv:pppp`.
pub fn usb_id(vendor: u16, product: u16) -> (r: String)
    ensures
        r@ == usb_id_of(vendor, product),
{
    let mut r = String::new();
    push_hex4(&mut r, vendor);
    r.append(":");
    proof {
        reveal_strlit(":");
    }
    push_hex4(&mut r, product);
    assert(r@ =~= usb_id_of(vendor, product));
    r
}

} // verus!
