//! What of an operation may leave the machine.
//!
//! An entry can be private. Its body must then never be broadcast, though the
//! metadata around it still has to be replicated. What that means for an
//! operation depends on its kind alone, so the policy is one table.

use vstd::prelude::*;
use crate::bytes::copy_bytes;
use crate::types::{
    AuthoredOp, AuthoredOpView, DhtOp, DhtOpType, DhtOpView, EntryVisibility, PublishItem,
    PublishItemView,
};

verus! {

/// How an operation kind treats the entry it refers to.
#[derive(Clone, Copy, Debug, PartialEq, Eq, Structural)]
pub enum RedactionRule {
    /// The operation exists to carry the entry body: with a private entry it
    /// is not published at all.
    WithholdIfPrivate,
    /// The operation carries the entry body beside metadata that is needed in
    /// any case: with a private entry the body is left out.
    StripEntryIfPrivate,
    /// The operation never carries an entry body and is always published.
    MetadataOnly,
}

/// The policy table. Link operations are published whatever the visibility
/// of the entries they connect.
pub open spec fn redaction_rule_of(kind: DhtOpType) -> RedactionRule {
    match kind {
        DhtOpType::StoreEntry => RedactionRule::WithholdIfPrivate,
        DhtOpType::StoreRecord => RedactionRule::StripEntryIfPrivate,
        DhtOpType::RegisterUpdatedContent => RedactionRule::StripEntryIfPrivate,
        DhtOpType::RegisterUpdatedRecord => RedactionRule::StripEntryIfPrivate,
        DhtOpType::RegisterAgentActivity => RedactionRule::MetadataOnly,
        DhtOpType::RegisterAddLink => RedactionRule::MetadataOnly,
        DhtOpType::RegisterRemoveLink => RedactionRule::MetadataOnly,
    }
}

/// Whether privacy keeps the operation from being published at all.
pub open spec fn withheld(r: AuthoredOpView) -> bool {
    &&& redaction_rule_of(r.kind) == RedactionRule::WithholdIfPrivate
    &&& r.entry_visibility == Some(EntryVisibility::Private)
}

/// The entry body that goes out with the operation. A body goes out only
/// with a kind that carries one, and only where the entry is public.
pub open spec fn published_entry(r: AuthoredOpView) -> Option<Seq<u8>> {
    if redaction_rule_of(r.kind) != RedactionRule::MetadataOnly && r.entry_visibility == Some(
        EntryVisibility::Public,
    ) {
        r.entry
    } else {
        None
    }
}

/// The form in which a record is published.
pub open spec fn published_form(r: AuthoredOpView) -> PublishItemView {
    PublishItemView {
        basis: r.basis,
        op_hash: r.hash,
        op: DhtOpView { kind: r.kind, action: r.action, entry: published_entry(r) },
    }
}

/// Looks a kind up in the policy table.
pub fn redaction_rule(kind: DhtOpType) -> (rule: RedactionRule)
    ensures
        rule == redaction_rule_of(kind),
{
    match kind {
        DhtOpType::StoreEntry => RedactionRule::WithholdIfPrivate,
        DhtOpType::StoreRecord => RedactionRule::StripEntryIfPrivate,
        DhtOpType::RegisterUpdatedContent => RedactionRule::StripEntryIfPrivate,
        DhtOpType::RegisterUpdatedRecord => RedactionRule::StripEntryIfPrivate,
        DhtOpType::RegisterAgentActivity => RedactionRule::MetadataOnly,
        DhtOpType::RegisterAddLink => RedactionRule::MetadataOnly,
        DhtOpType::RegisterRemoveLink => RedactionRule::MetadataOnly,
    }
}

/// Whether privacy keeps the record from being published at all.
pub fn is_withheld(record: &AuthoredOp) -> (kept_back: bool)
    ensures
        kept_back == withheld(record@),
{
    match redaction_rule(record.kind) {
        RedactionRule::WithholdIfPrivate => match record.entry_visibility {
            Some(EntryVisibility::Private) => true,
            _ => false,
        },
        _ => false,
    }
}

/// Builds the published form of a record: the entry body is left out unless
/// the kind carries one and the entry is public.
pub fn redact(record: &AuthoredOp) -> (item: PublishItem)
    ensures
        item@ == published_form(record@),
{
    let carries_body = match redaction_rule(record.kind) {
        RedactionRule::MetadataOnly => false,
        _ => match record.entry_visibility {
            Some(EntryVisibility::Public) => true,
            _ => false,
        },
    };
    let entry = if carries_body {
        match &record.entry {
            Some(body) => Some(copy_bytes(body)),
            None => None,
        }
    } else {
        None
    };
    PublishItem {
        basis: copy_bytes(&record.basis),
        op_hash: copy_bytes(&record.hash),
        op: DhtOp { kind: record.kind, action: copy_bytes(&record.action), entry },
    }
}

} // verus!
