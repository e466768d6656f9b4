//! General properties of the engine, stated and proved against the same
//! specifications the executable functions are verified against.

use vstd::prelude::*;
use crate::model::{Record, Statement, Snak, DataValue, FactView, record_claims, has_qualifier};
use crate::classify::ClassIndex;
use crate::quantity::spec_parse_quantity;
use crate::extract::{
    spec_extract, spec_excluded, spec_hs_facts, spec_population_rec, spec_candidate_time,
};

verus! {

/// Extraction is deterministic: two runs over identical inputs yield the
/// same ordered fact sequence.
pub proof fn lemma_extract_deterministic(
    record: Record,
    classes: ClassIndex,
    now: i64,
    f1: Seq<FactView>,
    f2: Seq<FactView>,
)
    requires
        f1 == spec_extract(record, classes, now),
        f2 == spec_extract(record, classes, now),
    ensures
        f1 == f2,
{
}

/// A dissolved or fully replaced record emits zero facts, regardless of any
/// classification flags.
pub proof fn lemma_excluded_record_yields_nothing(record: Record, classes: ClassIndex, now: i64)
    requires
        spec_excluded(record),
    ensures
        spec_extract(record, classes, now) == Seq::<FactView>::empty(),
{
}

/// A record lacking the country property emits exactly one missing-country
/// fact from the human-settlement handler, and nothing else from it.
pub proof fn lemma_missing_country_single_fact(record: Record, now: i64)
    requires
        record_claims(record, "P17"@) is None,
    ensures
        spec_hs_facts(record, now) == seq![FactView::MissingCountryProperty { id: record.id@ }],
{
}

/// Population selection prefers the later time: over two statements with
/// candidate times in ascending order, both carrying dimensionless amounts
/// that parse, the selected population is the second statement's amount.
pub proof fn lemma_population_prefers_later(
    s1: Statement,
    s2: Statement,
    t1: i64,
    t2: i64,
    v1: u64,
    v2: u64,
)
    requires
        spec_candidate_time(s1) == Some(t1),
        spec_candidate_time(s2) == Some(t2),
        t1 < t2,
        s1.snak matches Snak::Value(DataValue::Quantity { amount, unit }) && unit@ == "1"@
            && spec_parse_quantity(amount@) == Some(v1),
        s2.snak matches Snak::Value(DataValue::Quantity { amount, unit }) && unit@ == "1"@
            && spec_parse_quantity(amount@) == Some(v2),
    ensures
        spec_population_rec(seq![s1, s2], None, None) == Some(v2),
{
    let ss = seq![s1, s2];
    assert(ss.drop_first() =~= seq![s2]);
    assert(seq![s2].drop_first() =~= Seq::<Statement>::empty());
    assert(spec_population_rec(ss, None, None) == spec_population_rec(
        seq![s2],
        Some(v1),
        Some(t1),
    ));
    assert(spec_population_rec(seq![s2], Some(v1), Some(t1)) == spec_population_rec(
        Seq::<Statement>::empty(),
        Some(v2),
        Some(t2),
    ));
}

/// A statement qualified "female population" can never update the selected
/// population, even with the latest candidate time: appending it changes
/// nothing about the selection of the two earlier statements.
pub proof fn lemma_population_ignores_partial(
    s1: Statement,
    s2: Statement,
    s3: Statement,
    t1: i64,
    t2: i64,
    v1: u64,
    v2: u64,
)
    requires
        spec_candidate_time(s1) == Some(t1),
        spec_candidate_time(s2) == Some(t2),
        t1 < t2,
        s1.snak matches Snak::Value(DataValue::Quantity { amount, unit }) && unit@ == "1"@
            && spec_parse_quantity(amount@) == Some(v1),
        s2.snak matches Snak::Value(DataValue::Quantity { amount, unit }) && unit@ == "1"@
            && spec_parse_quantity(amount@) == Some(v2),
        has_qualifier(s3.qualifiers@, "P1539"@),
    ensures
        spec_population_rec(seq![s1, s2, s3], None, None) == Some(v2),
{
    let ss = seq![s1, s2, s3];
    assert(spec_candidate_time(s3) is None);
    assert(ss.drop_first() =~= seq![s2, s3]);
    assert(seq![s2, s3].drop_first() =~= seq![s3]);
    assert(seq![s3].drop_first() =~= Seq::<Statement>::empty());
    assert(spec_population_rec(ss, None, None) == spec_population_rec(
        seq![s2, s3],
        Some(v1),
        Some(t1),
    ));
    assert(spec_population_rec(seq![s2, s3], Some(v1), Some(t1)) == spec_population_rec(
        seq![s3],
        Some(v2),
        Some(t2),
    ));
    assert(spec_population_rec(seq![s3], Some(v2), Some(t2)) == spec_population_rec(
        Seq::<Statement>::empty(),
        Some(v2),
        Some(t2),
    ));
}

} // verus!
