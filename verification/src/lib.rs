use vstd::prelude::*;

pub mod body;
pub mod context;
pub mod entries;
pub mod header;
pub mod http_value;
pub mod meta;
pub mod start_line;
pub mod text;
pub mod transfer;
pub mod util;

verus! {

} // verus!
