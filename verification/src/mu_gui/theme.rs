//! How the desktop front end writes times.
use vstd::prelude::*;
use crate::text::{decimal, push_char, push_decimal};
use crate::mu_gui2::library::{two_digits, push_two_digits};

verus! {

/// `t` seconds as minutes, a colon and two-digit seconds.
pub open spec fn minutes_label(t: nat) -> Seq<char> {
    decimal(t / 60) + seq![':'] + two_digits(t % 60)
}

/// The text for a time of `total` whole seconds.
pub fn minutes_text(total: u32) -> (r: String)
    ensures
        r@ == minutes_label(total as nat),
{
    let mut s = String::new();
    push_decimal(&mut s, (total / 60) as u64);
    push_char(&mut s, ':');
    push_two_digits(&mut s, (total % 60) as u64);
    proof {
        assert(s@ =~= minutes_label(total as nat));
    }
    s
}

} // verus!
