//! Decimal numbers, lower case and trip labels as text.

use crate::clock::digit_char;
use vstd::prelude::*;
use vstd::string::StringExecFns;

verus! {

/// Decimal text of a natural number, without sign or leading zeros.
pub open spec fn decimal(n: nat) -> Seq<char>
    decreases n,
{
    if n < 10 {
        seq![digit_char(n as int)]
    } else {
        decimal(n / 10).push(digit_char(n as int % 10))
    }
}

/// What `str::to_lowercase` makes of a text.
pub uninterp spec fn lower_of(s: Seq<char>) -> Seq<char>;

/// Label of the `ordinal`-th trip of bus `bus` in the service whose id, in lower
/// case, is `service`: `<service>_<bus>_<ordinal>`.
pub open spec fn trip_label_text(service: Seq<char>, bus: nat, ordinal: nat) -> Seq<char> {
    service + seq!['_'] + decimal(bus) + seq!['_'] + decimal(ordinal)
}

/// Relies on `u64`'s `Display` (through `ToString::to_string`): plain decimal digits.
#[verifier::external_body]
pub(crate) fn decimal_text(n: u64) -> (r: String)
    ensures
        r@ == decimal(n as nat),
{
    n.to_string()
}

/// Relies on `str::to_lowercase`: the result depends on the characters alone.
#[verifier::external_body]
pub(crate) fn lowercase(s: &str) -> (r: String)
    ensures
        r@ == lower_of(s@),
{
    s.to_lowercase()
}

/// Label of the `ordinal`-th trip of bus `bus` in the service whose id, in lower
/// case, is `service`: `<service>_<bus>_<ordinal>`.
pub fn trip_label(service: &str, bus: u32, ordinal: usize) -> (r: String)
    ensures
        r@ == trip_label_text(service@, bus as nat, ordinal as nat),
{
    proof {
        reveal_strlit("_");
    }
    let bus_text = decimal_text(bus as u64);
    let ordinal_text = decimal_text(ordinal as u64);
    let label = String::from_str(service).concat("_").concat(bus_text.as_str()).concat("_").concat(
        ordinal_text.as_str(),
    );
    assert(label@ =~= trip_label_text(service@, bus as nat, ordinal as nat));
    label
}

} // verus!
