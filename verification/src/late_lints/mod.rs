//! The lints that read the decoded document.

pub mod ambiguous_enemy_pool_add_remove;
pub mod cyclic_enemy_descriptor_references;

pub mod empty_cd_name;
pub mod min_larger_than_max;
pub mod undefined_enemy_descriptors;
pub mod unused_custom_enemy_descriptors;

use crate::text::{push_quoted, quoted};
use vstd::prelude::*;
use vstd::string::*;

verus! {

/// `before`, then `name` between double quotes, then `after`.
pub open spec fn naming(before: Seq<char>, name: Seq<char>, after: Seq<char>) -> Seq<char> {
    before + quoted(name) + after
}

/// The message that names `name` between `before` and `after`.
pub fn message_naming(before: &str, name: &str, after: &str) -> (message: String)
    ensures
        message@ == naming(before@, name@, after@),
{
    let mut message = String::from_str(before);
    push_quoted(&mut message, name);
    message.append(after);
    message
}

/// `a`, then `x` between double quotes, then `b`, then `y` between double
/// quotes, then `c`.
pub open spec fn naming_two(a: Seq<char>, x: Seq<char>, b: Seq<char>, y: Seq<char>, c: Seq<char>) -> Seq<char> {
    a + quoted(x) + b + quoted(y) + c
}

/// The message that names `x` and `y` between `a`, `b` and `c`.
pub fn message_naming_two(a: &str, x: &str, b: &str, y: &str, c: &str) -> (message: String)
    ensures
        message@ == naming_two(a@, x@, b@, y@, c@),
{
    let mut message = String::from_str(a);
    push_quoted(&mut message, x);
    message.append(b);
    push_quoted(&mut message, y);
    message.append(c);
    message
}

} // verus!
