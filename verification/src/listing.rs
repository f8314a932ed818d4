//! How a node of the connectivity group is shown in a listing.

use vstd::prelude::*;
use crate::text::{push_signed_decimal, signed_decimal};

verus! {

/// The listing line for a node: its number and name, `(unnamed)` for an
/// empty name, and ` (you)` when it is the node doing the listing.
pub open spec fn node_line_text(node_number: i32, name: Seq<char>, own_node_number: i32) -> Seq<char> {
    "  "@ + signed_decimal(node_number as int) + ": "@ + (if name.len() == 0 {
        "(unnamed)"@
    } else {
        name
    }) + (if node_number == own_node_number {
        " (you)"@
    } else {
        ""@
    })
}

/// Builds the listing line for a node.
pub fn node_line(node_number: i32, name: &str, own_node_number: i32) -> (r: String)
    ensures
        r@ == node_line_text(node_number, name@, own_node_number),
{
    let mut out = String::from_str("  ");
    push_signed_decimal(&mut out, node_number as i64);
    out.append(": ");
    if name.is_empty() {
        out.append("(unnamed)");
    } else {
        out.append(name);
    }
    if node_number == own_node_number {
        out.append(" (you)");
    } else {
        out.append("");
    }
    out
}

} // verus!
