use vstd::prelude::*;

use crate::coordinator::{
    ctx_done, ctx_wf, expecting, has_failed, is_done, issue_ops, lemma_remove_wf, lemma_update_wf,
    op_msg, reply_expected, status_vec, ContextView, FailureReason, FailureView, OpKind, OpStatus,
};
use crate::error::ContractError;
use crate::ledger::AssetKey;
use crate::msg::SubMsg;
use crate::registry::address_bound;
use crate::state::{Ics721State, Ics721StateView};

verus! {

/// How a nested request completed.
pub enum ReplyOutcome {
    /// A collection was created at this address.
    Created(String),
    /// The request succeeded.
    Succeeded,
    /// The request failed, for this reason.
    Failed(String),
}

/// The single verdict on an inbound packet.
pub enum AckOutcome {
    Success,
    Failure(FailureReason),
}

/// The plain-value form of an [`AckOutcome`].
pub enum AckView {
    Success,
    Failure(FailureView),
}

impl View for AckOutcome {
    type V = AckView;

    open spec fn view(&self) -> AckView {
        match self {
            AckOutcome::Success => AckView::Success,
            AckOutcome::Failure(f) => AckView::Failure(f@),
        }
    }
}

/// What a completion gives back: requests issued now, and the verdict on
/// the packet once nothing of it is outstanding.
pub struct ReplyResult {
    pub messages: Vec<SubMsg>,
    pub ack: Option<AckOutcome>,
}

/// The verdict on a finished context: success exactly when nothing failed.
pub open spec fn ack_of(c: ContextView) -> AckView {
    match c.failure {
        Some(f) => AckView::Failure(f),
        None => AckView::Success,
    }
}

/// The first failure is the one kept.
pub open spec fn first_failure(f: Option<FailureView>, r: FailureView) -> Option<FailureView> {
    if f is Some {
        f
    } else {
        Some(r)
    }
}

/// The asset of token `k` of a context.
pub open spec fn op_key(c: ContextView, k: int) -> AssetKey {
    (c.class_id, c.tokens[k].id)
}

/// Whether a completion of token `k` takes effect on the ledgers: it
/// succeeded, and a voucher has no record yet nor is escrowed for the
/// context's channel, or a native asset is still escrowed for that channel.
pub open spec fn op_applies(st: Ics721StateView, c: ContextView, k: int, outcome: ReplyOutcome) -> bool {
    let key = op_key(c, k);
    &&& !(outcome is Failed)
    &&& c.kinds[k] == OpKind::Mint ==> !st.incoming.contains_key(key) && !(st.outgoing.contains_key(key)
        && st.outgoing[key] == c.channel)
    &&& c.kinds[k] == OpKind::Redeem ==> st.outgoing.contains_key(key) && st.outgoing[key] == c.channel
}

/// Why a completion of token `k` that does not take effect failed.
pub open spec fn op_failure(st: Ics721StateView, c: ContextView, k: int, outcome: ReplyOutcome) -> FailureView {
    match outcome {
        ReplyOutcome::Failed(s) => FailureView::Collaborator(s@),
        _ => if c.kinds[k] == OpKind::Mint {
            FailureView::Ledger(ContractError::AlreadyEscrowed)
        } else if !st.outgoing.contains_key(op_key(c, k)) {
            FailureView::Ledger(ContractError::NotEscrowed)
        } else {
            FailureView::Ledger(ContractError::ChannelMismatch)
        },
    }
}

/// The context after the completion of token `k`.
pub open spec fn after_op(st: Ics721StateView, c: ContextView, k: int, outcome: ReplyOutcome) -> ContextView {
    if op_applies(st, c, k, outcome) {
        ContextView { status: c.status.update(k, OpStatus::Done), ..c }
    } else {
        ContextView {
            status: c.status.update(k, OpStatus::Failed),
            failure: first_failure(c.failure, op_failure(st, c, k, outcome)),
            ..c
        }
    }
}

/// Whether the creation of the context's collection takes effect: it
/// reports an address, and neither that address nor the class id is bound.
pub open spec fn create_applies(st: Ics721StateView, c: ContextView, outcome: ReplyOutcome) -> bool {
    &&& outcome is Created
    &&& !st.classes.contains_key(c.class_id)
    &&& !address_bound(st.classes, outcome->Created_0@)
}

/// Why a creation that does not take effect failed.
pub open spec fn create_failure(outcome: ReplyOutcome) -> FailureView {
    match outcome {
        ReplyOutcome::Failed(s) => FailureView::Collaborator(s@),
        ReplyOutcome::Created(_) => FailureView::Ledger(ContractError::ClassAlreadyBound),
        ReplyOutcome::Succeeded => FailureView::Ledger(ContractError::UnrecognisedClassId),
    }
}

/// The context after the completion of its collection creation: the
/// waiting requests are issued, or all dropped.
pub open spec fn after_create(st: Ics721StateView, c: ContextView, outcome: ReplyOutcome) -> ContextView {
    if create_applies(st, c, outcome) {
        ContextView {
            create: OpStatus::Done,
            status: Seq::new(c.status.len(), |k: int| OpStatus::Pending),
            ..c
        }
    } else {
        ContextView {
            create: OpStatus::Failed,
            status: Seq::new(c.status.len(), |k: int| OpStatus::Failed),
            failure: first_failure(c.failure, create_failure(outcome)),
            ..c
        }
    }
}

/// The context after the completion carrying `rid`.
pub open spec fn after_reply(st: Ics721StateView, c: ContextView, rid: u64, outcome: ReplyOutcome) -> ContextView {
    if rid == c.first_reply {
        after_create(st, c, outcome)
    } else {
        after_op(st, c, rid - c.first_reply - 1, outcome)
    }
}

/// The ledgers and registry after the completion carrying `rid` for `c`.
pub open spec fn ledgers_after(st: Ics721StateView, c: ContextView, rid: u64, outcome: ReplyOutcome) -> (
    Map<Seq<char>, Seq<char>>,
    Map<AssetKey, Seq<char>>,
    Map<AssetKey, Seq<char>>,
) {
    if rid == c.first_reply {
        if create_applies(st, c, outcome) {
            (st.classes.insert(c.class_id, outcome->Created_0@), st.outgoing, st.incoming)
        } else {
            (st.classes, st.outgoing, st.incoming)
        }
    } else {
        let k = rid - c.first_reply - 1;
        let key = op_key(c, k);
        if !op_applies(st, c, k, outcome) {
            (st.classes, st.outgoing, st.incoming)
        } else if c.kinds[k] == OpKind::Mint {
            (st.classes, st.outgoing, st.incoming.insert(key, c.channel))
        } else {
            (st.classes, st.outgoing.remove(key), st.incoming)
        }
    }
}

/// A completion that leaves something outstanding leaves a well-formed context.
pub proof fn lemma_after_reply_wf(st: Ics721StateView, c: ContextView, rid: u64, outcome: ReplyOutcome)
    requires
        ctx_wf(c),
        crate::coordinator::expects(c, rid),
        !ctx_done(after_reply(st, c, rid, outcome)),
    ensures
        ctx_wf(after_reply(st, c, rid, outcome)),
{
    let c2 = after_reply(st, c, rid, outcome);
    if rid == c.first_reply {
        assert(create_applies(st, c, outcome));
        assert(!has_failed(c));
        assert(!has_failed(c2));
    } else {
        let k = rid - c.first_reply - 1;
        assert(c.status[k] == OpStatus::Pending);
        assert(c.create != OpStatus::Pending);
        if op_applies(st, c, k, outcome) {
            if has_failed(c) {
                if c.create != OpStatus::Failed {
                    let j = choose|j: int| 0 <= j < c.status.len() && #[trigger] c.status[j] == OpStatus::Failed;
                    assert(c2.status[j] == OpStatus::Failed);
                }
            }
            if has_failed(c2) {
                if c2.create != OpStatus::Failed {
                    let j = choose|j: int| 0 <= j < c2.status.len() && #[trigger] c2.status[j] == OpStatus::Failed;
                    assert(c.status[j] == OpStatus::Failed);
                }
            }
        } else {
            assert(c2.status[k] == OpStatus::Failed);
        }
    }
}

/// Completion of the nested request that carries correlation token `rid`.
/// A voucher is recorded as it is minted, a native asset's record is deleted
/// as it is given back, a created collection is bound and its waiting
/// requests issued. Once nothing of the packet is outstanding its context
/// closes with one acknowledgement, a success only if all of its requests
/// took effect. Requests that took effect stay so either way.
pub fn on_reply(state: &mut Ics721State, rid: u64, outcome: ReplyOutcome) -> (r: Result<ReplyResult, ContractError>)
    requires
        old(state).wf(),
    ensures
        final(state).wf(),
        r is Err ==> final(state)@ == old(state)@,
        !reply_expected(old(state)@.replies, rid) ==> r == Err::<ReplyResult, ContractError>(
            ContractError::UnknownReply,
        ),
        reply_expected(old(state)@.replies, rid) ==> {
            let st = old(state)@;
            let i = expecting(st.replies, rid);
            let c = st.replies.contexts[i];
            let c2 = after_reply(st, c, rid, outcome);
            &&& r is Ok
            &&& r matches Ok(res) ==> {
                &&& (final(state)@.classes, final(state)@.outgoing, final(state)@.incoming)
                    == ledgers_after(st, c, rid, outcome)
                &&& final(state)@.replies.next_id == st.replies.next_id
                &&& if ctx_done(c2) {
                    &&& final(state)@.replies.contexts == st.replies.contexts.remove(i)
                    &&& res.ack matches Some(a) && a@ == ack_of(c2)
                } else {
                    &&& final(state)@.replies.contexts == st.replies.contexts.update(i, c2)
                    &&& res.ack is None
                }
                &&& if rid == c.first_reply && create_applies(st, c, outcome) {
                    &&& res.messages@.len() == c.tokens.len()
                    &&& forall|k: int|
                        0 <= k < res.messages@.len() ==> #[trigger] res.messages@[k]@ == op_msg(
                            c,
                            outcome->Created_0@,
                            k,
                        )
                } else {
                    res.messages@.len() == 0
                }
            }
        },
{
    let i = match state.replies.find_reply(rid) {
        Some(i) => i,
        None => {
            return Err(ContractError::UnknownReply);
        },
    };
    let ghost st0 = state@;
    let ghost c = st0.replies.contexts[i as int];
    let ghost c2 = after_reply(st0, c, rid, outcome);
    proof {
        assert(ctx_wf(c));
    }
    let mut messages: Vec<SubMsg> = Vec::new();
    let mut ctx = state.replies.contexts.remove(i);
    assert(ctx@ == c);
    let n = ctx.tokens.len();
    if rid == ctx.first_reply {
        let created = match &outcome {
            ReplyOutcome::Created(a) => {
                if !state.classes.has_class(&ctx.class_id) && state.classes.class_of(a).is_none() {
                    Some(a.clone())
                } else {
                    None
                }
            },
            _ => None,
        };
        if let Some(addr) = created {
            messages = issue_ops(&ctx, &addr);
            let bound = state.classes.bind(ctx.class_id.clone(), addr);
            if bound.is_err() {
                // unreachable: neither the class id nor the address is bound
                return Err(ContractError::ClassAlreadyBound);
            }
            ctx.create = OpStatus::Done;
            ctx.status = status_vec(n, OpStatus::Pending);
        } else {
            let reason = match outcome {
                ReplyOutcome::Failed(s) => FailureReason::Collaborator(s),
                ReplyOutcome::Created(_) => FailureReason::Ledger(ContractError::ClassAlreadyBound),
                ReplyOutcome::Succeeded => FailureReason::Ledger(ContractError::UnrecognisedClassId),
            };
            ctx.create = OpStatus::Failed;
            ctx.status = status_vec(n, OpStatus::Failed);
            if ctx.failure.is_none() {
                ctx.failure = Some(reason);
            }
        }
    } else {
        let k = (rid - ctx.first_reply - 1) as usize;
        let kind = ctx.kinds[k];
        let effect: Result<(), FailureReason> = match outcome {
            ReplyOutcome::Failed(s) => Err(FailureReason::Collaborator(s)),
            _ => {
                let applied = if kind == OpKind::Mint {
                    match state.outgoing.channel_of(&ctx.class_id, &ctx.tokens[k].id) {
                        Some(ch) => {
                            if ch == ctx.channel {
                                Err(ContractError::AlreadyEscrowed)
                            } else {
                                state.incoming.record(ctx.class_id.clone(), ctx.tokens[k].id.clone(), ctx.channel.clone())
                            }
                        },
                        None => state.incoming.record(ctx.class_id.clone(), ctx.tokens[k].id.clone(), ctx.channel.clone()),
                    }
                } else {
                    state.outgoing.release(&ctx.class_id, &ctx.tokens[k].id, &ctx.channel)
                };
                match applied {
                    Ok(()) => Ok(()),
                    Err(e) => Err(FailureReason::Ledger(e)),
                }
            },
        };
        match effect {
            Ok(()) => {
                ctx.status[k] = OpStatus::Done;
            },
            Err(reason) => {
                ctx.status[k] = OpStatus::Failed;
                if ctx.failure.is_none() {
                    ctx.failure = Some(reason);
                }
            },
        }
    }
    proof {
        assert(ctx@.status =~= c2.status);
        assert(ctx@ == c2);
    }
    let ack = if is_done(&ctx) {
        proof {
            lemma_remove_wf(st0.replies, i as int);
            assert(state@.replies.contexts =~= st0.replies.contexts.remove(i as int));
        }
        match ctx.failure {
            Some(f) => Some(AckOutcome::Failure(f)),
            None => Some(AckOutcome::Success),
        }
    } else {
        proof {
            lemma_after_reply_wf(st0, c, rid, outcome);
            lemma_update_wf(st0.replies, i as int, c2);
        }
        state.replies.contexts.insert(i, ctx);
        proof {
            assert(state@.replies.contexts =~= st0.replies.contexts.update(i as int, c2));
        }
        None
    };
    proof {
        let st1 = state@;
        assert(c.create != OpStatus::Pending ==> st0.classes.contains_key(c.class_id)) by {
            if c.create == OpStatus::Done {
                assert(st0.replies.contexts[i as int].create == OpStatus::Done);
            }
        }
        assert forall|x: Seq<char>| st0.classes.contains_key(x) implies #[trigger] st1.classes.contains_key(x) by {}
        assert forall|kk: AssetKey| #[trigger] st1.outgoing.contains_key(kk) implies st1.classes.contains_key(kk.0) by {
            assert(st0.outgoing.contains_key(kk));
        }
        assert forall|kk: AssetKey| #[trigger] st1.incoming.contains_key(kk) implies st1.classes.contains_key(kk.0) by {
            if !st0.incoming.contains_key(kk) {
                assert(kk.0 == c.class_id);
            }
        }
        assert forall|kk: AssetKey| #[trigger] st1.outgoing.contains_key(kk) && st1.incoming.contains_key(kk)
            implies st1.outgoing[kk] != st1.incoming[kk] by {
            assert(st0.outgoing.contains_key(kk));
        }
        assert forall|j: int|
            0 <= j < st1.replies.contexts.len() && (#[trigger] st1.replies.contexts[j]).create == OpStatus::Done
            implies st1.classes.contains_key(st1.replies.contexts[j].class_id) by {
            let cj = st1.replies.contexts[j];
            if ctx_done(c2) {
                let oj = if j < i { j } else { j + 1 };
                assert(cj == st0.replies.contexts[oj]);
                assert(st0.classes.contains_key(st0.replies.contexts[oj].class_id));
            } else if j != i {
                assert(cj == st0.replies.contexts[j]);
                assert(st0.classes.contains_key(st0.replies.contexts[j].class_id));
            }
        }
    }
    Ok(ReplyResult { messages, ack })
}

} // verus!
