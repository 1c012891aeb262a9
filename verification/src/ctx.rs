//! What a command knows when it starts.
use crate::gitx::{Repo, RepoV};
use crate::store::{Store, StoreV};
use crate::text;
use vstd::prelude::*;

verus! {

/// Shared command context: the discovered repo, its store as it was read, and the
/// task that the environment names.
#[derive(Debug)]
pub struct Ctx {
    pub repo: Repo,
    pub store: Store,
    /// `REIN_TASK`
    pub env_task: Option<String>,
}

/// What a [`Ctx`] stands for.
#[verifier::ext_equal]
pub struct CtxV {
    pub repo: RepoV,
    pub store: StoreV,
    pub env_task: Option<Seq<char>>,
}

impl View for Ctx {
    type V = CtxV;

    open spec fn view(&self) -> CtxV {
        CtxV { repo: self.repo@, store: self.store@, env_task: text::opt_view(self.env_task) }
    }
}

impl Clone for Ctx {
    fn clone(&self) -> (r: Self)
        ensures
            r@ == self@,
    {
        Ctx {
            repo: self.repo.clone(),
            store: self.store.clone(),
            env_task: text::clone_opt(&self.env_task),
        }
    }
}

} // verus!
