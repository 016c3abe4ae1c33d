//! The schema of receipt events, as indexers see it.
//!
//! Every receipt event is published under one topic tuple, `(receipt, action,
//! anchor_id)`, so an indexer subscribes to a single topic and routes on the
//! action. The data map is an [`AnchorPayload`] or a [`PrunePayload`], which lead
//! with the schema version and the timestamp.

use crate::host;
use soroban_sdk::{BytesN, Env, Symbol};
use vstd::prelude::*;

verus! {

/// The version of the payload layout. It is raised on every change to a payload's
/// field set that is not purely additive.
pub const SCHEMA_VERSION: u32 = 1;

/// What happened to a receipt: the second topic of its event.
#[derive(Copy, Clone, Debug, PartialEq, Eq, Structural)]
pub enum ReceiptAction {
    /// A batch root was anchored; the anchor id is the id of the batch.
    Anchor,
    /// A prefix of a shard's batches was pruned; the anchor id is the first
    /// deleted batch id.
    Prune,
}

impl ReceiptAction {
    /// The name that the action is published under.
    pub open spec fn name(self) -> Seq<char> {
        match self {
            ReceiptAction::Anchor => "anchor"@,
            ReceiptAction::Prune => "prune"@,
        }
    }

    /// The symbol that the action is published under.
    pub fn topic(&self, env: &Env) -> (r: Symbol)
        ensures
            host::symbol_text(r) == self.name(),
            *self is Anchor ==> host::symbol_text(r) == "anchor"@,
            *self is Prune ==> host::symbol_text(r) == "prune"@,
    {
        proof {
            reveal_strlit("anchor");
            reveal_strlit("prune");
        }
        match self {
            ReceiptAction::Anchor => host::symbol_new(env, "anchor"),
            ReceiptAction::Prune => host::symbol_new(env, "prune"),
        }
    }
}

/// The data map of the `anchor` action.
#[derive(Debug, PartialEq, Eq)]
pub struct AnchorPayload {
    pub schema_version: u32,
    pub timestamp: u64,
    pub root: BytesN<32>,
    pub shard_id: u64,
    pub count: u32,
    pub period_start: u64,
    pub period_end: u64,
    pub anchored_ledger: u32,
}

impl Clone for AnchorPayload {
    fn clone(&self) -> (r: Self)
        ensures
            r == *self,
    {
        AnchorPayload {
            schema_version: self.schema_version,
            timestamp: self.timestamp,
            root: self.root.clone(),
            shard_id: self.shard_id,
            count: self.count,
            period_start: self.period_start,
            period_end: self.period_end,
            anchored_ledger: self.anchored_ledger,
        }
    }
}

/// The data map of the `prune` action: the closed range of deleted batch ids.
#[derive(Clone, Debug, PartialEq, Eq, Structural)]
pub struct PrunePayload {
    pub schema_version: u32,
    pub timestamp: u64,
    pub shard_id: u64,
    pub start_batch_id: u64,
    pub end_batch_id: u64,
}

/// The topics of a receipt event, as text.
pub open spec fn topics_of(action: ReceiptAction, anchor_id: u64) -> (Seq<char>, Seq<char>, u64) {
    ("receipt"@, action.name(), anchor_id)
}

/// The topics that a receipt event is published under: `(receipt, action,
/// anchor_id)`.
pub fn receipt_topics(env: &Env, action: ReceiptAction, anchor_id: u64) -> (r: (
    Symbol,
    Symbol,
    u64,
))
    ensures
        (host::symbol_text(r.0), host::symbol_text(r.1), r.2) == topics_of(action, anchor_id),
        host::symbol_text(r.0) == "receipt"@,
        action is Anchor ==> host::symbol_text(r.1) == "anchor"@,
        action is Prune ==> host::symbol_text(r.1) == "prune"@,
        r.2 == anchor_id,
{
    proof {
        reveal_strlit("receipt");
    }
    (host::symbol_new(env, "receipt"), action.topic(env), anchor_id)
}

/// The topics of an event are the word `receipt`, the word for what happened and
/// the id of the anchor it happened to, in that order.
pub proof fn law_topics_spell_out_event(action: ReceiptAction, anchor_id: u64)
    ensures
        topics_of(action, anchor_id).0 == "receipt"@,
        action is Anchor ==> topics_of(action, anchor_id).1 == "anchor"@,
        action is Prune ==> topics_of(action, anchor_id).1 == "prune"@,
        topics_of(action, anchor_id).2 == anchor_id,
{
}

/// The topics identify the event: the same topics mean the same action on the
/// same anchor.
pub proof fn law_topics_identify_event(
    action: ReceiptAction,
    anchor_id: u64,
    other_action: ReceiptAction,
    other_anchor_id: u64,
)
    requires
        topics_of(action, anchor_id) == topics_of(other_action, other_anchor_id),
    ensures
        action == other_action,
        anchor_id == other_anchor_id,
{
    reveal_strlit("anchor");
    reveal_strlit("prune");
    assert("anchor"@.len() != "prune"@.len());
}

} // verus!
