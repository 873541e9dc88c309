//! The text of port labels: decimal numbers, alignment, and the address that
//! a label may carry.

use vstd::prelude::*;
use vstd::string::{StrSliceExecFns, StringExecFns};

use crate::address::PortAddress;

verus! {

/// The texts of a list of strings, in order.
pub open spec fn texts(strings: Seq<String>) -> Seq<Seq<char>> {
    strings.map_values(|s: String| s@)
}

/// The character of a decimal digit.
pub open spec fn digit(d: int) -> char {
    ('0' as int + d) as char
}

/// A natural number in decimal, without leading zeros.
pub open spec fn digits(n: nat) -> Seq<char>
    decreases n,
{
    if n < 10 {
        seq![digit(n as int)]
    } else {
        digits(n / 10).push(digit((n % 10) as int))
    }
}

/// An integer in decimal, with a minus sign where it is negative.
pub open spec fn decimal(n: int) -> Seq<char> {
    if n < 0 {
        seq!['-'] + digits((-n) as nat)
    } else {
        digits(n as nat)
    }
}

/// The text moved to the right end of a field of `width` characters, the
/// rest filled with spaces; a text that is too long stays as it is.
pub open spec fn right_aligned(text: Seq<char>, width: nat) -> Seq<char> {
    if text.len() < width {
        Seq::new((width - text.len()) as nat, |i: int| ' ') + text
    } else {
        text
    }
}

/// An address as labels show it: the client number in a field of three, a
/// colon, and the port number.
pub open spec fn address_text(address: PortAddress) -> Seq<char> {
    right_aligned(decimal(address.client as int), 3) + seq![':'] + decimal(address.port as int)
}

/// The label of a sending port: its name, and after it the address where
/// addresses are shown.
pub open spec fn sender_label(name: Seq<char>, address: PortAddress, show_address: bool) -> Seq<
    char,
> {
    if show_address {
        name + seq![' '] + address_text(address)
    } else {
        name
    }
}

/// The label of a receiving port: its name, and before it the address where
/// addresses are shown.
pub open spec fn receiver_label(name: Seq<char>, address: PortAddress, show_address: bool) -> Seq<
    char,
> {
    if show_address {
        address_text(address) + seq![' '] + name
    } else {
        name
    }
}

fn digit_str(d: u64) -> (text: &'static str)
    requires
        d < 10,
    ensures
        text@ == seq![digit(d as int)],
{
    proof {
        reveal_strlit("0");
        reveal_strlit("1");
        reveal_strlit("2");
        reveal_strlit("3");
        reveal_strlit("4");
        reveal_strlit("5");
        reveal_strlit("6");
        reveal_strlit("7");
        reveal_strlit("8");
        reveal_strlit("9");
    }
    let text = if d == 0 {
        "0"
    } else if d == 1 {
        "1"
    } else if d == 2 {
        "2"
    } else if d == 3 {
        "3"
    } else if d == 4 {
        "4"
    } else if d == 5 {
        "5"
    } else if d == 6 {
        "6"
    } else if d == 7 {
        "7"
    } else if d == 8 {
        "8"
    } else {
        "9"
    };
    assert(text@ =~= seq![digit(d as int)]);
    text
}

fn digits_string(n: u64) -> (text: String)
    ensures
        text@ == digits(n as nat),
    decreases n,
{
    if n < 10 {
        String::from_str(digit_str(n))
    } else {
        let mut text = digits_string(n / 10);
        text.append(digit_str(n % 10));
        assert(text@ =~= digits((n / 10) as nat).push(digit((n % 10) as int)));
        text
    }
}

/// Writes an integer in decimal.
pub fn decimal_string(n: i32) -> (text: String)
    ensures
        text@ == decimal(n as int),
{
    if n < 0 {
        let magnitude: u64 = (-(n as i64)) as u64;
        let mut text = String::from_str("-");
        proof {
            reveal_strlit("-");
        }
        let rest = digits_string(magnitude);
        text.append(rest.as_str());
        assert(text@ =~= seq!['-'] + digits((-n) as nat));
        text
    } else {
        digits_string(n as u64)
    }
}

/// Moves a text to the right end of a field of `width` characters.
pub fn right_align(text: &str, width: usize) -> (aligned: String)
    ensures
        aligned@ == right_aligned(text@, width as nat),
{
    let length = text.unicode_len();
    let mut aligned = String::new();
    if length < width {
        let missing = width - length;
        let mut k: usize = 0;
        proof {
            reveal_strlit(" ");
        }
        while k < missing
            invariant
                k <= missing,
                " "@ == seq![' '],
                aligned@ == Seq::new(k as nat, |i: int| ' '),
            decreases missing - k,
        {
            aligned.append(" ");
            k += 1;
            assert(aligned@ =~= Seq::new(k as nat, |i: int| ' '));
        }
    }
    aligned.append(text);
    assert(aligned@ =~= right_aligned(text@, width as nat));
    aligned
}

/// Writes an address as labels show it.
pub fn address_string(address: PortAddress) -> (text: String)
    ensures
        text@ == address_text(address),
{
    let client = decimal_string(address.client);
    let port = decimal_string(address.port);
    let mut text = right_align(client.as_str(), 3);
    proof {
        reveal_strlit(":");
    }
    text.append(":");
    text.append(port.as_str());
    assert(text@ =~= address_text(address));
    text
}

/// Writes the label of a sending port.
pub fn sender_label_string(name: &String, address: PortAddress, show_address: bool) -> (label:
    String)
    ensures
        label@ == sender_label(name@, address, show_address),
{
    let mut label = name.clone();
    if show_address {
        proof {
            reveal_strlit(" ");
        }
        label.append(" ");
        label.append(address_string(address).as_str());
        assert(label@ =~= sender_label(name@, address, show_address));
    }
    label
}

/// Writes the label of a receiving port.
pub fn receiver_label_string(name: &String, address: PortAddress, show_address: bool) -> (label:
    String)
    ensures
        label@ == receiver_label(name@, address, show_address),
{
    if show_address {
        let mut label = address_string(address);
        proof {
            reveal_strlit(" ");
        }
        label.append(" ");
        label.append(name.as_str());
        assert(label@ =~= receiver_label(name@, address, show_address));
        label
    } else {
        name.clone()
    }
}

} // verus!
