//! The decision on one row: does any selected field satisfy the filter, and
//! is the answer to be turned round.

use crate::filter::Filter;
use crate::record::record_fields;
use crate::selection::{positions_fit, Selection};
use csv::ByteRecord;
use vstd::prelude::*;

verus! {

/// Some selected field of the row satisfies the filter.
pub open spec fn any_selected_accepted(
    filter: &Filter,
    selection: Seq<usize>,
    fields: Seq<Seq<u8>>,
) -> bool {
    exists|k: int|
        0 <= k < selection.len() && #[trigger] filter.accepts(fields[selection[k] as int])
}

/// The decision on a row: whether some selected field satisfies the filter,
/// negated as a whole when `invert_match` is set.
pub open spec fn decision(
    filter: &Filter,
    selection: Seq<usize>,
    fields: Seq<Seq<u8>>,
    invert_match: bool,
) -> bool {
    any_selected_accepted(filter, selection, fields) != invert_match
}

/// Whether any selected field of the record satisfies the filter. The fields
/// are tried in the order of the selection, up to the first that does.
pub fn any_field_matches(filter: &Filter, selection: &Selection, record: &ByteRecord) -> (m: bool)
    requires
        positions_fit(selection@, record_fields(*record).len()),
    ensures
        m == any_selected_accepted(filter, selection@, record_fields(*record)),
{
    let ghost fields = record_fields(*record);
    let mut k: usize = 0;
    while k < selection.len()
        invariant
            k <= selection@.len(),
            fields == record_fields(*record),
            positions_fit(selection@, fields.len()),
            forall|j: int| 0 <= j < k ==> !#[trigger] filter.accepts(fields[selection@[j] as int]),
        decreases selection@.len() - k,
    {
        if let Some(field) = record.get(selection.get(k)) {
            if filter.apply(field) {
                assert(filter.accepts(fields[selection@[k as int] as int]));
                return true;
            }
        }
        k = k + 1;
    }
    false
}

/// The decision on one record.
pub fn decide(
    filter: &Filter,
    selection: &Selection,
    record: &ByteRecord,
    invert_match: bool,
) -> (d: bool)
    requires
        positions_fit(selection@, record_fields(*record).len()),
    ensures
        d == decision(filter, selection@, record_fields(*record), invert_match),
{
    let mut m = any_field_matches(filter, selection, record);
    if invert_match {
        m = !m;
    }
    m
}

/// The decision on one record, for a caller that does not know whether the
/// record is wide enough for the selection: `None` when it is not.
pub fn try_decide(
    filter: &Filter,
    selection: &Selection,
    record: &ByteRecord,
    invert_match: bool,
) -> (d: Option<bool>)
    ensures
        d == if positions_fit(selection@, record_fields(*record).len()) {
            Some(decision(filter, selection@, record_fields(*record), invert_match))
        } else {
            None
        },
{
    if selection.fits(record.len()) {
        Some(decide(filter, selection, record, invert_match))
    } else {
        None
    }
}

/// Where no selected field satisfies the filter, the decision is `false`, and
/// `true` under `invert_match`.
pub proof fn lemma_no_match_decides_by_inversion(
    filter: &Filter,
    selection: Seq<usize>,
    fields: Seq<Seq<u8>>,
    invert_match: bool,
)
    requires
        forall|k: int| 0 <= k < selection.len() ==> !filter.accepts(fields[selection[k] as int]),
    ensures
        decision(filter, selection, fields, invert_match) == invert_match,
{
}

/// Where some selected field satisfies the filter, the decision is `true`,
/// and `false` under `invert_match`.
pub proof fn lemma_match_decides_by_inversion(
    filter: &Filter,
    selection: Seq<usize>,
    fields: Seq<Seq<u8>>,
    invert_match: bool,
    k: int,
)
    requires
        0 <= k < selection.len(),
        filter.accepts(fields[selection[k] as int]),
    ensures
        decision(filter, selection, fields, invert_match) == !invert_match,
{
}

/// Inversion is a negation of the whole row's decision: the decision with
/// `invert_match` is the opposite of the decision without it, on the same
/// fields.
pub proof fn lemma_inversion_negates(
    filter: &Filter,
    selection: Seq<usize>,
    fields: Seq<Seq<u8>>,
)
    ensures
        decision(filter, selection, fields, true) == !decision(filter, selection, fields, false),
{
}

} // verus!
