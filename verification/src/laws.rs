//! Engine-wide laws, stated over the store's mathematical model and
//! proved once and for all.

use vstd::prelude::*;
use crate::model::FormDataModel;
use crate::predictor::{fields_hold, is_candidate, spec_add, spec_train, strictly_sorted, PredictorModel};
use crate::strings::lemma_lex_lt_irreflexive;

verus! {

/// A strictly sorted candidate list holds no duplicates: dedup is a
/// consequence of the ordering that predict's contract guarantees.
pub proof fn lemma_sorted_candidates_distinct(vals: Seq<Seq<char>>)
    requires
        strictly_sorted(vals),
    ensures
        forall|i: int, j: int| 0 <= i < j < vals.len() ==> vals[i] != vals[j],
{
    assert forall|i: int, j: int| 0 <= i < j < vals.len() implies vals[i] != vals[j] by {
        lemma_lex_lt_irreflexive(vals[i]);
    }
}

/// Training is idempotent: on a store with at least one record, a
/// training step succeeds, leaves the store trained, never changes the
/// record log, and a second training step does exactly the same.
pub proof fn lemma_train_idempotent(m: PredictorModel)
    requires
        m.records.len() > 0,
    ensures
        spec_train(m).1,
        spec_train(m).0.trained,
        spec_train(m).0.records == m.records,
        spec_train(spec_train(m).0).1,
        spec_train(spec_train(m).0).0.trained,
        spec_train(spec_train(m).0).0.records == m.records,
{
}

/// Training an empty store always fails, and changes nothing.
pub proof fn lemma_train_empty_fails(m: PredictorModel)
    requires
        m.records.len() == 0,
    ensures
        !spec_train(m).1,
        spec_train(m).0 == m,
{
}

/// User isolation: a value that occurs, for the requested field, only
/// in one user's records is never a candidate for any other user. With
/// predict's contract, which admits only candidates into the result,
/// it therefore never appears in another user's prediction.
pub proof fn lemma_user_isolation(
    records: Seq<FormDataModel>,
    owner: Seq<char>,
    requester: Seq<char>,
    field_id: Seq<char>,
    v: Seq<char>,
)
    requires
        forall|i: int|
            0 <= i < records.len() && #[trigger] fields_hold(records[i].fields, field_id, v)
                ==> records[i].user_id == owner,
        owner != requester,
    ensures
        !is_candidate(records, requester, field_id, v),
{
    if is_candidate(records, requester, field_id, v) {
        let i = choose|i: int|
            0 <= i < records.len() && records[i].user_id == requester && fields_hold(
                records[i].fields,
                field_id,
                v,
            );
        assert(records[i].user_id == owner);
    }
}

/// The stats count tracks successful additions exactly: each added
/// record raises the count reported by the stats summary by one, and a
/// training step never changes it.
pub proof fn lemma_stats_counts_adds(m: PredictorModel, r: FormDataModel)
    ensures
        spec_add(m, r).records.len() == m.records.len() + 1,
        spec_train(m).0.records.len() == m.records.len(),
{
}

} // verus!
