use vstd::prelude::*;

use crate::error::ContractError;
use crate::msg::{mint_at, mint_extension, mint_msg_json, transfer_at, transfer_msg_json, SubMsg, SubMsgView};
use crate::packet::{copy_opt_bytes, copy_opt_string, Token, TokenView};

verus! {

/// What a nested request does for its token.
#[derive(Clone, Copy, Debug, PartialEq, Eq, Structural)]
pub enum OpKind {
    /// Mint a voucher.
    Mint,
    /// Give back an escrowed native asset.
    Redeem,
}

/// Where a nested request stands.
#[derive(Clone, Copy, Debug, PartialEq, Eq, Structural)]
pub enum OpStatus {
    /// Not issued yet: it waits for its collection to be created.
    Waiting,
    /// Issued; its completion has not come back.
    Pending,
    /// Completed, with its effect on the ledgers applied.
    Done,
    /// Completed with a failure, or dropped.
    Failed,
}

/// Why a packet failed.
pub enum FailureReason {
    /// A nested request failed, with the reason its contract gave.
    Collaborator(String),
    /// A completed request did not fit the ledgers.
    Ledger(ContractError),
}

/// The plain-value form of a [`FailureReason`].
pub enum FailureView {
    Collaborator(Seq<char>),
    Ledger(ContractError),
}

impl View for FailureReason {
    type V = FailureView;

    open spec fn view(&self) -> FailureView {
        match self {
            FailureReason::Collaborator(s) => FailureView::Collaborator(s@),
            FailureReason::Ledger(e) => FailureView::Ledger(*e),
        }
    }
}

/// The open coordination context of one inbound packet. The correlation
/// token `first_reply` belongs to the collection creation, and
/// `first_reply + 1 + k` to the request for token `k`.
pub struct ReplyContext {
    pub packet_id: u64,
    pub class_id: String,
    pub channel: String,
    pub receiver: String,
    pub first_reply: u64,
    /// The collection creation: `Done` where none was needed.
    pub create: OpStatus,
    pub tokens: Vec<Token>,
    pub kinds: Vec<OpKind>,
    pub status: Vec<OpStatus>,
    /// The first failure seen.
    pub failure: Option<FailureReason>,
}

/// The plain-value form of a [`ReplyContext`].
pub struct ContextView {
    pub packet_id: u64,
    pub class_id: Seq<char>,
    pub channel: Seq<char>,
    pub receiver: Seq<char>,
    pub first_reply: u64,
    pub create: OpStatus,
    pub tokens: Seq<TokenView>,
    pub kinds: Seq<OpKind>,
    pub status: Seq<OpStatus>,
    pub failure: Option<FailureView>,
}

impl View for ReplyContext {
    type V = ContextView;

    open spec fn view(&self) -> ContextView {
        ContextView {
            packet_id: self.packet_id,
            class_id: self.class_id@,
            channel: self.channel@,
            receiver: self.receiver@,
            first_reply: self.first_reply,
            create: self.create,
            tokens: self.tokens@.map_values(|t: Token| t@),
            kinds: self.kinds@,
            status: self.status@,
            failure: match self.failure {
                Some(f) => Some(f@),
                None => None,
            },
        }
    }
}

/// One past the last correlation token of a context.
pub open spec fn reply_end(c: ContextView) -> int {
    c.first_reply + 1 + c.tokens.len()
}

/// Whether some request of the context failed.
pub open spec fn has_failed(c: ContextView) -> bool {
    c.create == OpStatus::Failed || exists|k: int| 0 <= k < c.status.len() && #[trigger] c.status[k] == OpStatus::Failed
}

/// Whether every request of the context has completed.
pub open spec fn ctx_done(c: ContextView) -> bool {
    c.create != OpStatus::Pending && forall|k: int| 0 <= k < c.status.len() ==> #[trigger] c.status[k] != OpStatus::Pending
}

/// The shape of an open context: parallel lists; a creation that failed
/// has closed it; requests wait exactly
/// while the creation is pending; a failure is recorded exactly when some
/// request failed; something is still outstanding.
pub open spec fn ctx_wf(c: ContextView) -> bool {
    &&& c.tokens.len() == c.kinds.len()
    &&& c.tokens.len() == c.status.len()
    &&& c.create != OpStatus::Waiting
    &&& c.create != OpStatus::Failed
    &&& c.create == OpStatus::Pending ==> forall|k: int| 0 <= k < c.status.len() ==> #[trigger] c.status[k] == OpStatus::Waiting
    &&& c.create != OpStatus::Pending ==> forall|k: int| 0 <= k < c.status.len() ==> #[trigger] c.status[k] != OpStatus::Waiting
    &&& (c.failure is Some <==> has_failed(c))
    &&& !ctx_done(c)
}

/// Whether the context waits for the completion carrying `rid`.
pub open spec fn expects(c: ContextView, rid: u64) -> bool {
    ||| rid == c.first_reply && c.create == OpStatus::Pending
    ||| c.first_reply < rid < reply_end(c) && c.status[rid - c.first_reply - 1] == OpStatus::Pending
}

/// The request for token `k` of the context, issued to `contract`.
pub open spec fn op_msg(c: ContextView, contract: Seq<char>, k: int) -> SubMsgView {
    let t = c.tokens[k];
    SubMsgView {
        contract_addr: contract,
        msg: if c.kinds[k] == OpKind::Mint {
            mint_msg_json(t.id, c.receiver, t.uri, mint_extension(t.data))
        } else {
            transfer_msg_json(t.id, c.receiver)
        },
        reply_id: (c.first_reply + 1 + k) as u64,
    }
}

/// Issues the request for every token of `ctx` to the NFT contract at `contract`.
pub fn issue_ops(ctx: &ReplyContext, contract: &String) -> (msgs: Vec<SubMsg>)
    requires
        ctx.tokens@.len() == ctx.kinds@.len(),
        reply_end(ctx@) <= u64::MAX,
    ensures
        msgs@.len() == ctx.tokens@.len(),
        forall|k: int| 0 <= k < msgs@.len() ==> #[trigger] msgs@[k]@ == op_msg(ctx@, contract@, k),
{
    let mut msgs: Vec<SubMsg> = Vec::new();
    let mut k: usize = 0;
    while k < ctx.tokens.len()
        invariant
            ctx.tokens@.len() == ctx.kinds@.len(),
            reply_end(ctx@) <= u64::MAX,
            k <= ctx.tokens@.len(),
            msgs@.len() == k,
            forall|j: int| 0 <= j < k ==> #[trigger] msgs@[j]@ == op_msg(ctx@, contract@, j),
        decreases ctx.tokens@.len() - k,
    {
        let t = &ctx.tokens[k];
        let rid = ctx.first_reply + 1 + k as u64;
        let m = if ctx.kinds[k] == OpKind::Mint {
            mint_at(
                contract.clone(),
                t.id.clone(),
                copy_opt_string(&t.uri),
                copy_opt_bytes(&t.data),
                ctx.receiver.clone(),
                rid,
            )
        } else {
            transfer_at(contract.clone(), t.id.clone(), ctx.receiver.clone(), rid)
        };
        msgs.push(m);
        k = k + 1;
    }
    msgs
}

/// The open contexts, and the next unused correlation token.
pub struct ReplyCoordinator {
    pub contexts: Vec<ReplyContext>,
    pub next_id: u64,
}

/// The plain-value form of a [`ReplyCoordinator`].
pub struct CoordinatorView {
    pub contexts: Seq<ContextView>,
    pub next_id: u64,
}

impl View for ReplyCoordinator {
    type V = CoordinatorView;

    open spec fn view(&self) -> CoordinatorView {
        CoordinatorView { contexts: self.contexts@.map_values(|c: ReplyContext| c@), next_id: self.next_id }
    }
}

/// Every context is well formed and uses tokens below `next_id`; the token
/// ranges of contexts follow each other in order; packet ids are unique.
pub open spec fn coord_wf(v: CoordinatorView) -> bool {
    &&& forall|i: int| 0 <= i < v.contexts.len() ==> ctx_wf(#[trigger] v.contexts[i]) && reply_end(v.contexts[i]) <= v.next_id
    &&& forall|i: int, j: int|
        0 <= i < j < v.contexts.len() ==> reply_end(#[trigger] v.contexts[i]) <= (#[trigger] v.contexts[j]).first_reply
    &&& forall|i: int, j: int|
        0 <= i < v.contexts.len() && 0 <= j < v.contexts.len() && i != j ==> (#[trigger] v.contexts[i]).packet_id != (#[trigger] v.contexts[j]).packet_id
}

/// Whether a context is open for `packet_id`.
pub open spec fn packet_open(v: CoordinatorView, packet_id: u64) -> bool {
    exists|i: int| 0 <= i < v.contexts.len() && (#[trigger] v.contexts[i]).packet_id == packet_id
}

/// Whether some open context waits for `rid`.
pub open spec fn reply_expected(v: CoordinatorView, rid: u64) -> bool {
    exists|i: int| 0 <= i < v.contexts.len() && expects(#[trigger] v.contexts[i], rid)
}

/// The context that waits for `rid`; meaningful where `reply_expected` holds.
pub open spec fn expecting(v: CoordinatorView, rid: u64) -> int {
    choose|i: int| 0 <= i < v.contexts.len() && expects(#[trigger] v.contexts[i], rid)
}

/// At most one context waits for a given correlation token.
pub proof fn lemma_expecting_unique(v: CoordinatorView, rid: u64, i: int)
    requires
        coord_wf(v),
        0 <= i < v.contexts.len(),
        expects(v.contexts[i], rid),
    ensures
        expecting(v, rid) == i,
{
    let j = expecting(v, rid);
    assert(0 <= j < v.contexts.len() && expects(v.contexts[j], rid));
    if j < i {
        assert(reply_end(v.contexts[j]) <= v.contexts[i].first_reply);
    } else if i < j {
        assert(reply_end(v.contexts[i]) <= v.contexts[j].first_reply);
    }
}

/// Replacing a context by one of the same packet and token range keeps the
/// coordinator well formed.
pub proof fn lemma_update_wf(v: CoordinatorView, i: int, c: ContextView)
    requires
        coord_wf(v),
        0 <= i < v.contexts.len(),
        ctx_wf(c),
        c.packet_id == v.contexts[i].packet_id,
        c.first_reply == v.contexts[i].first_reply,
        c.tokens.len() == v.contexts[i].tokens.len(),
    ensures
        coord_wf(CoordinatorView { contexts: v.contexts.update(i, c), next_id: v.next_id }),
{
    let w = CoordinatorView { contexts: v.contexts.update(i, c), next_id: v.next_id };
    assert forall|a: int| 0 <= a < w.contexts.len() implies ctx_wf(#[trigger] w.contexts[a]) && reply_end(w.contexts[a]) <= w.next_id by {
        if a != i {
            assert(w.contexts[a] == v.contexts[a]);
        }
        assert(ctx_wf(v.contexts[a]));
    }
    assert forall|a: int, b: int|
        0 <= a < b < w.contexts.len() implies reply_end(#[trigger] w.contexts[a]) <= (#[trigger] w.contexts[b]).first_reply by {
        assert(reply_end(v.contexts[a]) <= v.contexts[b].first_reply);
    }
    assert forall|a: int, b: int|
        0 <= a < w.contexts.len() && 0 <= b < w.contexts.len() && a != b implies (#[trigger] w.contexts[a]).packet_id != (#[trigger] w.contexts[b]).packet_id by {
        assert(v.contexts[a].packet_id != v.contexts[b].packet_id);
    }
}

/// Closing a context keeps the coordinator well formed.
pub proof fn lemma_remove_wf(v: CoordinatorView, i: int)
    requires
        coord_wf(v),
        0 <= i < v.contexts.len(),
    ensures
        coord_wf(CoordinatorView { contexts: v.contexts.remove(i), next_id: v.next_id }),
{
    let w = CoordinatorView { contexts: v.contexts.remove(i), next_id: v.next_id };
    assert forall|a: int| 0 <= a < w.contexts.len() implies ctx_wf(#[trigger] w.contexts[a]) && reply_end(w.contexts[a]) <= w.next_id by {
        let oa = if a < i { a } else { a + 1 };
        assert(w.contexts[a] == v.contexts[oa]);
        assert(ctx_wf(v.contexts[oa]));
    }
    assert forall|a: int, b: int|
        0 <= a < b < w.contexts.len() implies reply_end(#[trigger] w.contexts[a]) <= (#[trigger] w.contexts[b]).first_reply by {
        let oa = if a < i { a } else { a + 1 };
        let ob = if b < i { b } else { b + 1 };
        assert(w.contexts[a] == v.contexts[oa]);
        assert(w.contexts[b] == v.contexts[ob]);
        assert(reply_end(v.contexts[oa]) <= v.contexts[ob].first_reply);
    }
    assert forall|a: int, b: int|
        0 <= a < w.contexts.len() && 0 <= b < w.contexts.len() && a != b implies (#[trigger] w.contexts[a]).packet_id != (#[trigger] w.contexts[b]).packet_id by {
        let oa = if a < i { a } else { a + 1 };
        let ob = if b < i { b } else { b + 1 };
        assert(w.contexts[a] == v.contexts[oa]);
        assert(w.contexts[b] == v.contexts[ob]);
        assert(v.contexts[oa].packet_id != v.contexts[ob].packet_id);
    }
}

/// Whether every request of the context has completed.
pub fn is_done(ctx: &ReplyContext) -> (r: bool)
    ensures
        r == ctx_done(ctx@),
{
    if ctx.create == OpStatus::Pending {
        return false;
    }
    let mut k: usize = 0;
    while k < ctx.status.len()
        invariant
            k <= ctx.status@.len(),
            forall|j: int| 0 <= j < k ==> #[trigger] ctx.status@[j] != OpStatus::Pending,
        decreases ctx.status@.len() - k,
    {
        if ctx.status[k] == OpStatus::Pending {
            assert(ctx@.status[k as int] == OpStatus::Pending);
            return false;
        }
        k = k + 1;
    }
    true
}

/// `n` copies of `s`.
pub fn status_vec(n: usize, s: OpStatus) -> (r: Vec<OpStatus>)
    ensures
        r@ == Seq::new(n as nat, |k: int| s),
{
    let mut r: Vec<OpStatus> = Vec::new();
    let mut k: usize = 0;
    while k < n
        invariant
            k <= n,
            r@ =~= Seq::new(k as nat, |j: int| s),
        decreases n - k,
    {
        r.push(s);
        k = k + 1;
    }
    r
}

impl ReplyCoordinator {
    /// No open context; correlation tokens start at `first_id`.
    pub fn new(first_id: u64) -> (r: ReplyCoordinator)
        ensures
            coord_wf(r@),
            r@.contexts.len() == 0,
            r@.next_id == first_id,
    {
        ReplyCoordinator { contexts: Vec::new(), next_id: first_id }
    }

    /// Opens `ctx`, whose tokens start at `next_id`.
    pub fn push_context(&mut self, ctx: ReplyContext)
        requires
            coord_wf(old(self)@),
            ctx_wf(ctx@),
            ctx.first_reply == old(self).next_id,
            reply_end(ctx@) <= u64::MAX,
            !packet_open(old(self)@, ctx.packet_id),
        ensures
            coord_wf(final(self)@),
            final(self)@.contexts == old(self)@.contexts.push(ctx@),
            final(self)@.next_id == reply_end(ctx@),
    {
        let ghost old_v = self@;
        let ghost cv = ctx@;
        self.next_id = ctx.first_reply + 1 + ctx.tokens.len() as u64;
        self.contexts.push(ctx);
        proof {
            let n = old_v.contexts.len() as int;
            assert(self@.contexts =~= old_v.contexts.push(cv));
            assert forall|i: int, j: int|
                0 <= i < self@.contexts.len() && 0 <= j < self@.contexts.len() && i != j implies (#[trigger] self@.contexts[i]).packet_id != (#[trigger] self@.contexts[j]).packet_id by {
                if i == n {
                    assert(self@.contexts[j] == old_v.contexts[j]);
                } else if j == n {
                    assert(self@.contexts[i] == old_v.contexts[i]);
                }
            }
            assert forall|i: int, j: int|
                0 <= i < j < self@.contexts.len() implies reply_end(#[trigger] self@.contexts[i]) <= (#[trigger] self@.contexts[j]).first_reply by {
                if j == n {
                    assert(self@.contexts[i] == old_v.contexts[i]);
                }
            }
        }
    }

    /// Whether a context is open for `packet_id`.
    pub fn is_open(&self, packet_id: u64) -> (r: bool)
        ensures
            r == packet_open(self@, packet_id),
    {
        let mut i: usize = 0;
        while i < self.contexts.len()
            invariant
                i <= self.contexts@.len(),
                forall|j: int| 0 <= j < i ==> (#[trigger] self@.contexts[j]).packet_id != packet_id,
            decreases self.contexts@.len() - i,
        {
            if self.contexts[i].packet_id == packet_id {
                assert(self@.contexts[i as int].packet_id == packet_id);
                return true;
            }
            i = i + 1;
        }
        false
    }

    /// The index of the context that waits for `rid`.
    pub fn find_reply(&self, rid: u64) -> (r: Option<usize>)
        requires
            coord_wf(self@),
        ensures
            match r {
                Some(i) => i < self@.contexts.len() && expects(self@.contexts[i as int], rid) && expecting(self@, rid) == i,
                None => !reply_expected(self@, rid),
            },
    {
        let mut i: usize = 0;
        while i < self.contexts.len()
            invariant
                coord_wf(self@),
                i <= self.contexts@.len(),
                forall|j: int| 0 <= j < i ==> !expects(#[trigger] self@.contexts[j], rid),
            decreases self.contexts@.len() - i,
        {
            let c = &self.contexts[i];
            assert(self@.contexts[i as int] == c@);
            let found = if rid == c.first_reply {
                c.create == OpStatus::Pending
            } else if c.first_reply < rid && rid - c.first_reply - 1 < c.status.len() as u64 {
                c.status[(rid - c.first_reply - 1) as usize] == OpStatus::Pending
            } else {
                false
            };
            if found {
                proof {
                    lemma_expecting_unique(self@, rid, i as int);
                }
                return Some(i);
            }
            i = i + 1;
        }
        None
    }
}

} // verus!
