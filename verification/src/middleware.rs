//! The middleware chain: ordered cross-cutting links around the router.
//!
//! The stack is generic over the middleware representation `M`: it stores
//! whatever the application registers, in order, and never calls it. The
//! chain semantics live in [`chain_decision`]: links run strictly in
//! registration order; the first one that short-circuits or fails decides,
//! and nothing after it runs.

use vstd::prelude::*;
use crate::error::SlackError;
use crate::response::{ResponseModel, SlackResponse};

verus! {

/// What one middleware link decided: pass on to the next link, answer the
/// request itself, or abort the chain with an error.
pub enum MiddlewareOutcome {
    Continue,
    ShortCircuit(SlackResponse),
    Failed(SlackError),
}

/// Specification-level form of [`MiddlewareOutcome`]; a failure's error
/// detail does not matter to the chain.
pub enum MwOutcomeModel {
    Continue,
    ShortCircuit(ResponseModel),
    Failed,
}

impl View for MiddlewareOutcome {
    type V = MwOutcomeModel;

    open spec fn view(&self) -> MwOutcomeModel {
        match self {
            MiddlewareOutcome::Continue => MwOutcomeModel::Continue,
            MiddlewareOutcome::ShortCircuit(r) => MwOutcomeModel::ShortCircuit(r@),
            MiddlewareOutcome::Failed(_) => MwOutcomeModel::Failed,
        }
    }
}

impl DeepView for MiddlewareOutcome {
    type V = MwOutcomeModel;

    open spec fn deep_view(&self) -> MwOutcomeModel {
        self.view()
    }
}

/// What the chain as a whole decided.
pub enum ChainDecision {
    /// Every link passed; the router runs.
    Proceed,
    /// A link answered the request itself.
    Respond(SlackResponse),
    /// A link failed; the chain aborts with its error.
    Abort(SlackError),
}

/// Specification-level form of [`ChainDecision`].
pub enum ChainModel {
    Proceed,
    Respond(ResponseModel),
    Abort,
}

impl View for ChainDecision {
    type V = ChainModel;

    open spec fn view(&self) -> ChainModel {
        match self {
            ChainDecision::Proceed => ChainModel::Proceed,
            ChainDecision::Respond(r) => ChainModel::Respond(r@),
            ChainDecision::Abort(_) => ChainModel::Abort,
        }
    }
}

/// The chain's decision for a list of link outcomes, in order: the first
/// link that does not continue decides; if every link continues, the
/// request proceeds to the router.
pub open spec fn chain_model(outcomes: Seq<MwOutcomeModel>) -> ChainModel
    decreases outcomes.len(),
{
    if outcomes.len() == 0 {
        ChainModel::Proceed
    } else {
        match outcomes[0] {
            MwOutcomeModel::Continue => chain_model(outcomes.drop_first()),
            MwOutcomeModel::ShortCircuit(r) => ChainModel::Respond(r),
            MwOutcomeModel::Failed => ChainModel::Abort,
        }
    }
}

/// The ordered middleware registry.
pub struct MiddlewareStack<M> {
    pub middlewares: Vec<M>,
}

impl<M> MiddlewareStack<M> {
    /// A stack with no middleware.
    pub fn new() -> (r: MiddlewareStack<M>)
        ensures
            r.middlewares@.len() == 0,
    {
        MiddlewareStack { middlewares: Vec::new() }
    }

    /// Appends a middleware link; it will run after every link already
    /// registered.
    pub fn add(&mut self, middleware: M)
        ensures
            final(self).middlewares@ == old(self).middlewares@.push(middleware),
    {
        self.middlewares.push(middleware);
    }

    /// How many links are registered.
    pub fn len(&self) -> (r: usize)
        ensures
            r == self.middlewares@.len(),
    {
        self.middlewares.len()
    }

    /// The link at `i`, if in bounds.
    pub fn get(&self, i: usize) -> (r: Option<&M>)
        ensures
            (r matches Some(m) <==> (i as int) < self.middlewares@.len()),
            r matches Some(m) ==> *m == self.middlewares@[i as int],
    {
        if i < self.middlewares.len() {
            Some(&self.middlewares[i])
        } else {
            None
        }
    }
}

/// Folds the outcomes of the links that ran into the chain's decision,
/// mirroring [`chain_model`].
///
/// The caller runs links one at a time, in registration order, stopping at
/// the first outcome that is not `Continue`; handing the collected outcomes
/// here yields the decision the chain owes.
pub fn chain_decision(outcomes: Vec<MiddlewareOutcome>) -> (r: ChainDecision)
    ensures
        r@ == chain_model(outcomes.deep_view()),
{
    let n = outcomes.len();
    let ghost om = outcomes.deep_view();
    let mut i: usize = 0;
    proof {
        assert(om.subrange(0, om.len() as int) =~= om);
    }
    while i < n
        invariant
            n == outcomes@.len(),
            n == om.len(),
            om == outcomes.deep_view(),
            i <= n,
            chain_model(om) == chain_model(om.subrange(i as int, n as int)),
            forall|j: int| 0 <= j < i ==> om[j] is Continue,
        decreases n - i,
    {
        let ghost suf = om.subrange(i as int, n as int);
        proof {
            assert(suf[0] == om[i as int]);
            assert(suf.drop_first() =~= om.subrange(i + 1, n as int));
            assert(om[i as int] == outcomes@[i as int]@);
        }
        let stops = match &outcomes[i] {
            MiddlewareOutcome::Continue => false,
            _ => true,
        };
        if stops {
            let mut v = outcomes;
            let out = v.remove(i);
            match out {
                MiddlewareOutcome::ShortCircuit(resp) => {
                    return ChainDecision::Respond(resp);
                },
                MiddlewareOutcome::Failed(e) => {
                    return ChainDecision::Abort(e);
                },
                MiddlewareOutcome::Continue => {
                    proof {
                        assert(false);
                    }
                    return ChainDecision::Proceed;
                },
            }
        }
        i = i + 1;
    }
    proof {
        assert(om.subrange(n as int, n as int) =~= Seq::<MwOutcomeModel>::empty());
    }
    ChainDecision::Proceed
}

/// The chain-order law: a failing link decides the chain — no link after
/// it is consulted, whatever its outcome would have been.
pub proof fn lemma_chain_aborts_at_first_failure(outcomes: Seq<MwOutcomeModel>, k: int)
    requires
        0 <= k < outcomes.len(),
        forall|j: int| 0 <= j < k ==> #[trigger] outcomes[j] is Continue,
        outcomes[k] is Failed,
    ensures
        chain_model(outcomes) == ChainModel::Abort,
    decreases k,
{
    if k > 0 {
        let rest = outcomes.drop_first();
        assert forall|j: int| 0 <= j < k - 1 implies #[trigger] rest[j] is Continue by {
            assert(rest[j] == outcomes[j + 1]);
        }
        assert(rest[k - 1] == outcomes[k]);
        lemma_chain_aborts_at_first_failure(rest, k - 1);
    }
}

} // verus!
