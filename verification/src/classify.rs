//! Classification: the class index and the membership predicate.

use vstd::prelude::*;
use crate::model::{Record, Statement, record_claims, snak_entity_id, has_qualifier, str_eq};
use crate::temporal::spec_active;

verus! {

/// The named class-identifier sets the engine classifies records against.
/// Built once before processing starts and read-only afterwards.
#[derive(Clone, Debug)]
pub struct ClassIndex {
    pub territorial_entities: Vec<String>,
    pub human_settlements: Vec<String>,
    pub excluded: Vec<String>,
    pub excluded_settlements: Vec<String>,
    pub second_level_admin_div: Vec<String>,
    pub languages: Vec<String>,
}

/// Whether a class-identifier set holds `id`.
pub open spec fn class_set_contains(set: Seq<String>, id: Seq<char>) -> bool {
    exists|i: int| 0 <= i < set.len() && set[i]@ == id
}

/// Whether one "instance of" statement establishes membership in `set` at
/// `now`: it references an identifier in the set, its qualifiers pass the
/// active gate, and it carries no "replaced by" qualifier.
pub open spec fn qualifying_instance(stmt: Statement, set: Seq<String>, now: i64) -> bool {
    &&& snak_entity_id(stmt.snak) matches Some(id) && class_set_contains(set, id)
    &&& spec_active(stmt.qualifiers@, now)
    &&& !has_qualifier(stmt.qualifiers@, "P1366"@)
}

/// Whether the record's `i`-th "instance of" statement exists and qualifies.
pub open spec fn instance_qualifies(record: Record, set: Seq<String>, now: i64, i: int) -> bool {
    match record_claims(record, "P31"@) {
        Some(stmts) => 0 <= i < stmts.len() && qualifying_instance(stmts[i], set, now),
        None => false,
    }
}

/// Membership of a record in a class set: some "instance of" statement
/// qualifies.
pub open spec fn spec_is_subclass_of(record: Record, set: Seq<String>, now: i64) -> bool {
    exists|i: int| #[trigger] instance_qualifies(record, set, now, i)
}

/// Whether a class-identifier set holds `id`.
pub fn set_contains(set: &Vec<String>, id: &str) -> (r: bool)
    ensures
        r == class_set_contains(set@, id@),
{
    let mut i: usize = 0;
    while i < set.len()
        invariant
            i <= set@.len(),
            forall|j: int| 0 <= j < i ==> set@[j]@ != id@,
        decreases set@.len() - i,
    {
        if str_eq(set[i].as_str(), id) {
            return true;
        }
        i = i + 1;
    }
    false
}

/// Tests record membership in a named class set: true exactly when some
/// "instance of" statement references an identifier in `set`, passes the
/// active-qualifier test at `now`, and carries no "replaced by" qualifier.
pub fn is_subclass_of(record: &Record, set: &Vec<String>, now: i64) -> (r: bool)
    ensures
        r == spec_is_subclass_of(*record, set@, now),
{
    let stmts = match crate::model::find_claims(record, "P31") {
        Some(stmts) => stmts,
        None => {
            return false;
        },
    };
    let mut i: usize = 0;
    while i < stmts.len()
        invariant
            i <= stmts@.len(),
            record_claims(*record, "P31"@) == Some(stmts@),
            forall|j: int| 0 <= j < i ==> !#[trigger] instance_qualifies(*record, set@, now, j),
        decreases stmts@.len() - i,
    {
        let stmt = &stmts[i];
        if let crate::model::Snak::Value(crate::model::DataValue::Entity { id }) = &stmt.snak {
            if set_contains(set, id.as_str()) {
                if crate::temporal::is_active(&stmt.qualifiers, now) {
                    if !crate::model::has_qual(&stmt.qualifiers, "P1366") {
                        proof {
                            assert(instance_qualifies(*record, set@, now, i as int));
                        }
                        return true;
                    }
                }
            }
        }
        i = i + 1;
    }
    false
}

} // verus!
