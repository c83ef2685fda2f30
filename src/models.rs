use vstd::prelude::*;

pub mod author;
pub mod edit;
pub mod post;
pub mod state;




verus! {

/// Query parameters of the greeting endpoint.
pub struct HelloParams {
    pub name: Option<String>,
}

} // verus!
