use vstd::prelude::*;

verus! {

/// The principal on whose behalf a data-access call runs.
pub struct Ctx {
    user_id: i64,
}

impl Ctx {
    pub closed spec fn spec_user_id(&self) -> i64 {
        self.user_id
    }

    /// The privileged internal principal, with user id 0.
    pub fn root_ctx() -> (r: Ctx)
        ensures
            r.spec_user_id() == 0,
    {
        Ctx { user_id: 0 }
    }

    pub fn new(user_id: i64) -> (r: Ctx)
        ensures
            r.spec_user_id() == user_id,
    {
        Ctx { user_id }
    }

    pub fn user_id(&self) -> (r: i64)
        ensures
            r == self.spec_user_id(),
    {
        self.user_id
    }
}

} // verus!
