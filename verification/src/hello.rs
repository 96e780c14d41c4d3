//! The hello-world enclave, which greets once every few seconds.

use vstd::prelude::*;
use crate::decimal::{decimal, pad_left, padded_decimal_text};

verus! {

/// Seconds between two greetings.
pub const GREETING_INTERVAL_SECS: u64 = 5;

/// The greeting with the running count, right-aligned in four columns.
pub fn hello_line(count: u64) -> (line: String)
    ensures
        line@ == "["@ + pad_left(decimal(count as nat), 4) + "] Hello from the enclave side!"@,
{
    let mut line = String::from_str("[");
    let n = padded_decimal_text(count, 4);
    line.append(n.as_str());
    line.append("] Hello from the enclave side!");
    line
}

} // verus!
