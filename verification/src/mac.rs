//! The report of the machine's MAC address: `mac = "<address>"`, or `no mac`.

use vstd::prelude::*;
use mac_address::MacAddress;

verus! {

/// The upper-case hexadecimal digit of `d` (for `d < 16`).
pub open spec fn hex_digit(d: nat) -> char {
    if d < 10 {
        (d + 48) as char
    } else {
        (d + 55) as char
    }
}

/// A byte as two upper-case hexadecimal digits.
pub open spec fn hex_byte(b: u8) -> Seq<char> {
    seq![hex_digit((b / 16) as nat), hex_digit((b % 16) as nat)]
}

/// How `mac_address` displays the six bytes of an address: each byte as two
/// upper-case hexadecimal digits, separated by colons, e.g. `80:FA:5B:41:10:6B`.
pub open spec fn mac_text(b: Seq<u8>) -> Seq<char> {
    hex_byte(b[0]) + seq![':'] + hex_byte(b[1]) + seq![':'] + hex_byte(b[2]) + seq![':']
        + hex_byte(b[3]) + seq![':'] + hex_byte(b[4]) + seq![':'] + hex_byte(b[5])
}

/// The report for the address found, if any: `mac = "<address>"` with the
/// address in quotes, or `no mac`.
pub open spec fn mac_report_text(found: Option<Seq<u8>>) -> Seq<char> {
    match found {
        Some(b) => "mac = \""@ + mac_text(b) + "\""@,
        None => "no mac"@,
    }
}

/// `mac_address::MacAddress::new(bytes).to_string()`: the crate's `Display`
/// writes the six bytes with `{:<02X}` each, joined by `:`, which is two
/// upper-case hexadecimal digits per byte. Trusted: the contract restates that
/// format and is not proved.
#[verifier::external_body]
fn mac_address_text(bytes: [u8; 6]) -> (s: String)
    ensures
        s@ == mac_text(bytes@),
{
    MacAddress::new(bytes).to_string()
}

/// The line that reports the MAC address that was found, or that none was.
pub fn mac_report(found: Option<[u8; 6]>) -> (line: String)
    ensures
        line@ == mac_report_text(
            match found {
                Some(b) => Some(b@),
                None => None,
            },
        ),
{
    match found {
        Some(bytes) => {
            let text = mac_address_text(bytes);
            let mut line = String::new();
            line.append("mac = \"");
            line.append(text.as_str());
            line.append("\"");
            line
        },
        None => String::from_str("no mac"),
    }
}

} // verus!
