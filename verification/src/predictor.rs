//! The predictor store: an append-only log of submissions, a trained
//! flag, and the candidate-ranking algorithm.

use vstd::prelude::*;
use crate::model::{
    FieldValueModel, FormData, FormDataModel, PredictionResult, PredictorError,
    CONFIDENCE_SCORE_HUNDREDTHS, views_of,
};
use crate::strings::{
    lemma_lex_lt_total, lemma_lex_lt_transitive, lex_lt, spec_decimal, str_eq, str_lt,
    u64_to_string,
};
use vstd::string::StringExecFns;

verus! {

/// The store that the engine is: every submission handed to it so far,
/// in arrival order, and whether a training call has succeeded.
pub struct FormPredictor {
    training_data: Vec<FormData>,
    model_trained: bool,
}

pub struct PredictorModel {
    pub records: Seq<FormDataModel>,
    pub trained: bool,
}

impl View for FormPredictor {
    type V = PredictorModel;

    closed spec fn view(&self) -> PredictorModel {
        PredictorModel {
            records: self.training_data@.map_values(|r: FormData| r@),
            trained: self.model_trained,
        }
    }
}

/// Adding a record appends it; nothing else changes.
pub open spec fn spec_add(m: PredictorModel, r: FormDataModel) -> PredictorModel {
    PredictorModel { records: m.records.push(r), trained: m.trained }
}

/// Training succeeds exactly on a non-empty store; on success only the
/// trained flag changes, on failure nothing does.
pub open spec fn spec_train(m: PredictorModel) -> (PredictorModel, bool) {
    if m.records.len() == 0 {
        (m, false)
    } else {
        (PredictorModel { records: m.records, trained: true }, true)
    }
}

/// `fields` holds `field_id` with the (non-empty) value `v`.
pub open spec fn fields_hold(fields: Seq<FieldValueModel>, field_id: Seq<char>, v: Seq<char>) -> bool {
    exists|j: int| 0 <= j < fields.len() && fields[j].field_id == field_id && fields[j].value == v
}

/// `v` is a non-empty value that `fields` holds for `field_id`.
pub open spec fn is_field_candidate(
    fields: Seq<FieldValueModel>,
    field_id: Seq<char>,
    v: Seq<char>,
) -> bool {
    v.len() > 0 && fields_hold(fields, field_id, v)
}

/// `v` is a candidate for the request `(user_id, field_id)`: some
/// record of exactly that user holds it, non-empty, under that field.
pub open spec fn is_candidate(
    records: Seq<FormDataModel>,
    user_id: Seq<char>,
    field_id: Seq<char>,
    v: Seq<char>,
) -> bool {
    v.len() > 0 && exists|i: int|
        0 <= i < records.len() && records[i].user_id == user_id && fields_hold(
            records[i].fields,
            field_id,
            v,
        )
}

/// Strictly ascending in lexicographic order, hence free of duplicates.
pub open spec fn strictly_sorted(vals: Seq<Seq<char>>) -> bool {
    forall|i: int, j: int| 0 <= i < j < vals.len() ==> lex_lt(vals[i], vals[j])
}

/// The stats summary as the engine encodes it.
pub open spec fn spec_stats_json(count: nat, trained: bool) -> Seq<char> {
    "{\"training_data_count\": "@ + spec_decimal(count) + ", \"model_trained\": "@ + (if trained {
        "true"@
    } else {
        "false"@
    }) + "}"@
}

/// Keeps a strictly sorted vector of candidate values closed under one
/// more observed value: already-present values are not duplicated.
fn insert_candidate(cands: &mut Vec<String>, value: &String)
    requires
        strictly_sorted(views_of(old(cands)@)),
    ensures
        strictly_sorted(views_of(final(cands)@)),
        forall|v: Seq<char>| #[trigger] views_of(final(cands)@).contains(v) <==> (views_of(
            old(cands)@,
        ).contains(v) || v == value@),
{
    let mut idx: usize = 0;
    while idx < cands.len() && str_lt(cands[idx].as_str(), value.as_str())
        invariant
            cands@ == old(cands)@,
            0 <= idx <= cands@.len(),
            forall|k: int| 0 <= k < idx ==> lex_lt(#[trigger] views_of(cands@)[k], value@),
        decreases cands@.len() - idx,
    {
        idx = idx + 1;
    }
    let mut present = false;
    if idx < cands.len() {
        if str_eq(cands[idx].as_str(), value.as_str()) {
            present = true;
        }
    }
    let ghost ov = views_of(old(cands)@);
    if present {
        proof {
            assert(ov[idx as int] == value@);
            assert forall|v: Seq<char>| #[trigger] views_of(cands@).contains(v) <==> (ov.contains(
                v,
            ) || v == value@) by {
                if v == value@ {
                    assert(ov[idx as int] == v);
                    assert(ov.contains(v));
                }
            }
        }
        return ;
    }
    proof {
        if idx < ov.len() {
            assert(!lex_lt(ov[idx as int], value@));
            assert(ov[idx as int] != value@);
            lemma_lex_lt_total(value@, ov[idx as int]);
            assert(lex_lt(value@, ov[idx as int]));
        }
        assert forall|k: int| idx <= k < ov.len() implies lex_lt(value@, #[trigger] ov[k]) by {
            if k > idx {
                assert(lex_lt(ov[idx as int], ov[k]));
                lemma_lex_lt_transitive(value@, ov[idx as int], ov[k]);
            }
        }
    }
    cands.insert(idx, value.clone());
    proof {
        let nv = views_of(cands@);
        assert(cands@ == old(cands)@.insert(idx as int, cands@[idx as int]));
        assert(cands@[idx as int]@ == value@);
        assert(nv.len() == ov.len() + 1);
        assert forall|k: int| 0 <= k < nv.len() implies #[trigger] nv[k] == (if k < idx {
            ov[k]
        } else if k == idx {
            value@
        } else {
            ov[k - 1]
        }) by {
            if k < idx {
                assert(cands@[k] == old(cands)@[k]);
            } else if k > idx {
                assert(cands@[k] == old(cands)@[k - 1]);
            }
        }
        assert forall|i2: int, j2: int| 0 <= i2 < j2 < nv.len() implies lex_lt(
            nv[i2],
            nv[j2],
        ) by {
            if i2 < idx && j2 < idx {
                assert(lex_lt(ov[i2], ov[j2]));
            } else if i2 < idx && j2 == idx {
                assert(lex_lt(ov[i2], value@));
            } else if i2 < idx && j2 > idx {
                assert(lex_lt(ov[i2], ov[j2 - 1]));
            } else if i2 == idx {
                assert(lex_lt(value@, ov[j2 - 1]));
            } else {
                assert(lex_lt(ov[i2 - 1], ov[j2 - 1]));
            }
        }
        assert forall|v: Seq<char>| #[trigger] nv.contains(v) implies (ov.contains(v) || v
            == value@) by {
            let k = choose|k: int| 0 <= k < nv.len() && nv[k] == v;
            if k < idx {
                assert(ov[k] == v);
                assert(ov.contains(v));
            } else if k > idx {
                assert(ov[k - 1] == v);
                assert(ov.contains(v));
            }
        }
        assert forall|v: Seq<char>| (ov.contains(v) || v == value@) implies #[trigger] nv.contains(
            v,
        ) by {
            if ov.contains(v) {
                let k = choose|k: int| 0 <= k < ov.len() && ov[k] == v;
                if k < idx {
                    assert(nv[k] == v);
                } else {
                    assert(nv[k + 1] == v);
                }
            } else {
                assert(nv[idx as int] == v);
            }
        }
    }
}

/// Extending the scanned prefix of a record's fields by one field adds
/// exactly that field's (non-empty) value as a candidate.
proof fn lemma_field_take_step(
    fields: Seq<FieldValueModel>,
    field_id: Seq<char>,
    v: Seq<char>,
    j: int,
)
    requires
        0 <= j < fields.len(),
    ensures
        is_field_candidate(fields.take(j + 1), field_id, v) <==> (is_field_candidate(
            fields.take(j),
            field_id,
            v,
        ) || (fields[j].field_id == field_id && fields[j].value == v && v.len() > 0)),
{
    let s1 = fields.take(j + 1);
    let s0 = fields.take(j);
    assert(s1 =~= s0.push(fields[j]));
    if is_field_candidate(s1, field_id, v) {
        let k = choose|k: int| 0 <= k < s1.len() && s1[k].field_id == field_id && s1[k].value == v;
        if k < j {
            assert(s0[k] == s1[k]);
            assert(fields_hold(s0, field_id, v));
        } else {
            assert(s1[k] == fields[j]);
        }
    }
    if is_field_candidate(s0, field_id, v) {
        let k = choose|k: int| 0 <= k < s0.len() && s0[k].field_id == field_id && s0[k].value == v;
        assert(s1[k] == s0[k]);
        assert(fields_hold(s1, field_id, v));
    }
    if fields[j].field_id == field_id && fields[j].value == v && v.len() > 0 {
        assert(s1[j] == fields[j]);
        assert(fields_hold(s1, field_id, v));
    }
}

/// Extending the scanned prefix of the record log by one record adds
/// exactly that record's matching values as candidates.
proof fn lemma_candidate_take_step(
    records: Seq<FormDataModel>,
    user_id: Seq<char>,
    field_id: Seq<char>,
    v: Seq<char>,
    i: int,
)
    requires
        0 <= i < records.len(),
    ensures
        is_candidate(records.take(i + 1), user_id, field_id, v) <==> (is_candidate(
            records.take(i),
            user_id,
            field_id,
            v,
        ) || (records[i].user_id == user_id && is_field_candidate(records[i].fields, field_id, v))),
{
    let s1 = records.take(i + 1);
    let s0 = records.take(i);
    assert(s1 =~= s0.push(records[i]));
    if is_candidate(s1, user_id, field_id, v) {
        let k = choose|k: int|
            0 <= k < s1.len() && s1[k].user_id == user_id && fields_hold(s1[k].fields, field_id, v);
        if k < i {
            assert(s0[k] == s1[k]);
            assert(is_candidate(s0, user_id, field_id, v));
        } else {
            assert(s1[k] == records[i]);
        }
    }
    if is_candidate(s0, user_id, field_id, v) {
        let k = choose|k: int|
            0 <= k < s0.len() && s0[k].user_id == user_id && fields_hold(s0[k].fields, field_id, v);
        assert(s1[k] == s0[k]);
        assert(is_candidate(s1, user_id, field_id, v));
    }
    if records[i].user_id == user_id && is_field_candidate(records[i].fields, field_id, v) {
        assert(s1[i] == records[i]);
        assert(is_candidate(s1, user_id, field_id, v));
    }
}

impl FormPredictor {
    /// A fresh store: no records, untrained.
    pub fn new() -> (r: FormPredictor)
        ensures
            r@.records.len() == 0,
            !r@.trained,
    {
        FormPredictor { training_data: Vec::new(), model_trained: false }
    }

    /// Appends one decoded submission to the training log.
    pub fn add_training_data(&mut self, data: FormData)
        ensures
            final(self)@ == spec_add(old(self)@, data@),
    {
        self.training_data.push(data);
        proof {
            assert(self.training_data@.map_values(|r: FormData| r@) =~= old(
                self,
            ).training_data@.map_values(|r: FormData| r@).push(self.training_data@.last()@));
        }
    }

    /// Marks the store trained, or reports that it holds no data; the
    /// record log is never touched.
    pub fn train_model(&mut self) -> (r: Result<(), PredictorError>)
        ensures
            final(self)@ == spec_train(old(self)@).0,
            old(self)@.records.len() == 0 ==> r == Err::<(), PredictorError>(
                PredictorError::EmptyDataError,
            ),
            old(self)@.records.len() > 0 ==> r == Ok::<(), PredictorError>(()),
    {
        if self.training_data.len() == 0 {
            return Err(PredictorError::EmptyDataError);
        }
        self.model_trained = true;
        Ok(())
    }

    /// Ranks the requested user's historical values for the requested
    /// field: the at most five lexicographically smallest distinct
    /// non-empty values, in order, each with the fixed confidence.
    /// `context` is accepted for forward compatibility and not
    /// consulted. Fails exactly when the store is untrained.
    pub fn predict(&self, user_id: &str, field_id: &str, context: &str) -> (r: Result<
        PredictionResult,
        PredictorError,
    >)
        ensures
            !self@.trained ==> r == Err::<PredictionResult, PredictorError>(
                PredictorError::NotTrainedError,
            ),
            self@.trained ==> r is Ok,
            r is Ok ==> ({
                let p = r->Ok_0@;
                &&& p.field_id == field_id@
                &&& p.confidence_scores.len() == p.candidates.len()
                &&& forall|k: int|
                    0 <= k < p.confidence_scores.len() ==> p.confidence_scores[k]
                        == CONFIDENCE_SCORE_HUNDREDTHS
                &&& p.candidates.len() <= 5
                &&& strictly_sorted(p.candidates)
                &&& forall|v: Seq<char>|
                    #[trigger] p.candidates.contains(v) ==> is_candidate(
                        self@.records,
                        user_id@,
                        field_id@,
                        v,
                    )
                &&& forall|v: Seq<char>|
                    #[trigger] is_candidate(self@.records, user_id@, field_id@, v)
                        && !p.candidates.contains(v) ==> p.candidates.len() == 5 && (forall|k: int|
                        0 <= k < p.candidates.len() ==> lex_lt(#[trigger] p.candidates[k], v))
            }),
            (self@.trained && (forall|v: Seq<char>|
                !#[trigger] is_candidate(self@.records, user_id@, field_id@, v))) ==> (r is Ok
                && r->Ok_0@.candidates.len() == 0 && r->Ok_0@.confidence_scores.len() == 0),
    {
        if !self.model_trained {
            return Err(PredictorError::NotTrainedError);
        }
        let ghost recs = self@.records;
        let mut cands: Vec<String> = Vec::new();
        proof {
            assert(views_of(cands@) =~= Seq::<Seq<char>>::empty());
            assert(recs.take(0) =~= Seq::<FormDataModel>::empty());
        }
        let n: usize = self.training_data.len();
        let mut i: usize = 0;
        while i < n
            invariant
                n == self.training_data@.len(),
                recs == self@.records,
                recs.len() == n,
                0 <= i <= n,
                strictly_sorted(views_of(cands@)),
                forall|v: Seq<char>|
                    #[trigger] views_of(cands@).contains(v) <==> is_candidate(
                        recs.take(i as int),
                        user_id@,
                        field_id@,
                        v,
                    ),
            decreases n - i,
        {
            let rec = &self.training_data[i];
            proof {
                assert(recs[i as int] == rec@);
            }
            if str_eq(rec.user_id.as_str(), user_id) {
                let m: usize = rec.fields.len();
                let mut j: usize = 0;
                proof {
                    assert(rec@.fields.take(0) =~= Seq::<FieldValueModel>::empty());
                }
                while j < m
                    invariant
                        m == rec.fields@.len(),
                        rec@.fields.len() == m,
                        0 <= j <= m,
                        0 <= i < n,
                        n == self.training_data@.len(),
                        recs == self@.records,
                        recs.len() == n,
                        recs[i as int] == rec@,
                        rec@.user_id == user_id@,
                        strictly_sorted(views_of(cands@)),
                        forall|v: Seq<char>|
                            #[trigger] views_of(cands@).contains(v) <==> (is_candidate(
                                recs.take(i as int),
                                user_id@,
                                field_id@,
                                v,
                            ) || is_field_candidate(rec@.fields.take(j as int), field_id@, v)),
                    decreases m - j,
                {
                    let f = &rec.fields[j];
                    proof {
                        assert(rec@.fields[j as int] == f@);
                    }
                    if str_eq(f.field_id.as_str(), field_id) && !f.value.as_str().is_empty() {
                        insert_candidate(&mut cands, &f.value);
                    }
                    proof {
                        assert(rec@.fields.take(j as int + 1) =~= rec@.fields.take(
                            j as int,
                        ).push(rec@.fields[j as int]));
                        assert forall|v: Seq<char>|
                            #[trigger] views_of(cands@).contains(v) <==> (is_candidate(
                                recs.take(i as int),
                                user_id@,
                                field_id@,
                                v,
                            ) || is_field_candidate(
                                rec@.fields.take(j as int + 1),
                                field_id@,
                                v,
                            )) by {
                            lemma_field_take_step(rec@.fields, field_id@, v, j as int);
                        }
                    }
                    j = j + 1;
                }
                proof {
                    assert(rec@.fields.take(m as int) =~= rec@.fields);
                    assert forall|v: Seq<char>|
                        #[trigger] views_of(cands@).contains(v) <==> is_candidate(
                            recs.take(i as int + 1),
                            user_id@,
                            field_id@,
                            v,
                        ) by {
                        lemma_candidate_take_step(recs, user_id@, field_id@, v, i as int);
                    }
                }
            } else {
                proof {
                    assert forall|v: Seq<char>|
                        #[trigger] views_of(cands@).contains(v) <==> is_candidate(
                            recs.take(i as int + 1),
                            user_id@,
                            field_id@,
                            v,
                        ) by {
                        lemma_candidate_take_step(recs, user_id@, field_id@, v, i as int);
                    }
                }
            }
            i = i + 1;
        }
        proof {
            assert(recs.take(n as int) =~= recs);
        }
        let ghost full = views_of(cands@);
        if cands.len() > 5 {
            cands.truncate(5);
            proof {
                assert(views_of(cands@) =~= full.subrange(0, 5));
            }
        }
        proof {
            let kept = views_of(cands@);
            assert forall|v: Seq<char>| #[trigger] kept.contains(v) implies is_candidate(
                recs,
                user_id@,
                field_id@,
                v,
            ) by {
                let k = choose|k: int| 0 <= k < kept.len() && kept[k] == v;
                assert(full[k] == v);
                assert(full.contains(v));
            }
            assert forall|v: Seq<char>|
                #[trigger] is_candidate(recs, user_id@, field_id@, v) && !kept.contains(
                    v,
                ) implies kept.len() == 5 && (forall|k: int|
                0 <= k < kept.len() ==> lex_lt(#[trigger] kept[k], v)) by {
                assert(full.contains(v));
                let kv = choose|k: int| 0 <= k < full.len() && full[k] == v;
                if full.len() <= 5 {
                    assert(kept[kv] == v);
                    assert(kept.contains(v));
                } else {
                    if kv < 5 {
                        assert(kept[kv] == v);
                        assert(kept.contains(v));
                    }
                    assert forall|k: int| 0 <= k < kept.len() implies lex_lt(
                        #[trigger] kept[k],
                        v,
                    ) by {
                        assert(lex_lt(full[k], full[kv]));
                    }
                }
            }
        }
        let mut scores: Vec<u64> = Vec::new();
        let clen: usize = cands.len();
        let mut k: usize = 0;
        while k < clen
            invariant
                0 <= k <= clen,
                scores@.len() == k,
                forall|t: int| 0 <= t < k ==> scores@[t] == CONFIDENCE_SCORE_HUNDREDTHS,
            decreases clen - k,
        {
            scores.push(CONFIDENCE_SCORE_HUNDREDTHS);
            k = k + 1;
        }
        let result = PredictionResult {
            field_id: String::from_str(field_id),
            candidates: cands,
            confidence_scores: scores,
        };
        proof {
            let p = result@;
            if forall|v: Seq<char>| !#[trigger] is_candidate(recs, user_id@, field_id@, v) {
                if p.candidates.len() > 0 {
                    assert(p.candidates.contains(p.candidates[0]));
                }
            }
        }
        Ok(result)
    }

    /// The stats summary: the record count and the trained flag, as the
    /// fixed textual encoding.
    pub fn get_stats(&self) -> (r: String)
        ensures
            r@ == spec_stats_json(self@.records.len(), self@.trained),
    {
        let count: u64 = self.training_data.len() as u64;
        let mut s = String::from_str("{\"training_data_count\": ");
        let digits = u64_to_string(count);
        s.append(digits.as_str());
        s.append(", \"model_trained\": ");
        if self.model_trained {
            s.append("true");
        } else {
            s.append("false");
        }
        s.append("}");
        proof {
            assert(count as nat == self@.records.len());
            assert(s@ =~= spec_stats_json(self@.records.len(), self@.trained));
        }
        s
    }
}

} // verus!
