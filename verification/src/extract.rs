//! The extraction engine: from one record to its ordered sequence of facts.
//!
//! The pipeline over one record runs in a fixed order. A record carrying a
//! dissolved-date statement, or a full (unqualified) replaced-by statement,
//! yields nothing. Otherwise the country-code step runs unconditionally, the
//! record is classified, and every applicable handler runs: territorial
//! entity, human settlement and language. Facts from one record keep their
//! program order.

use vstd::prelude::*;
use vstd::string::StrSliceExecFns;
use crate::model::{
    Record, Statement, Label, Snak, DataValue, Fact, FactView, record_claims, has_qualifier,
    qual_lookup, snak_entity_id, snak_str, find_claims, find_qualifier, has_qual, str_eq,
    claim_lookup, PropertyClaims,
};
use crate::temporal::{spec_active, spec_start_state, spec_end_state, TemporalState, is_active,
    start_state, end_state};
use crate::classify::{ClassIndex, spec_is_subclass_of, is_subclass_of};
use crate::quantity::{spec_parse_quantity, parse_quantity};

verus! {

/// An ASCII upper-case letter mapped to its lower-case counterpart; every
/// other character unchanged.
pub open spec fn ascii_lower_char(c: char) -> char {
    match c {
        'A' => 'a',
        'B' => 'b',
        'C' => 'c',
        'D' => 'd',
        'E' => 'e',
        'F' => 'f',
        'G' => 'g',
        'H' => 'h',
        'I' => 'i',
        'J' => 'j',
        'K' => 'k',
        'L' => 'l',
        'M' => 'm',
        'N' => 'n',
        'O' => 'o',
        'P' => 'p',
        'Q' => 'q',
        'R' => 'r',
        'S' => 's',
        'T' => 't',
        'U' => 'u',
        'V' => 'v',
        'W' => 'w',
        'X' => 'x',
        'Y' => 'y',
        'Z' => 'z',
        _ => c,
    }
}

/// A string with its ASCII upper-case letters lowered.
pub open spec fn spec_ascii_lower(s: Seq<char>) -> Seq<char> {
    s.map_values(|c: char| ascii_lower_char(c))
}

/// Relies on `str::to_ascii_lowercase`: the returned string maps every ASCII
/// upper-case letter to its lower-case counterpart and leaves every other
/// character unchanged.
#[verifier::external_body]
fn ascii_lowercase(s: &str) -> (r: String)
    ensures
        r@ == spec_ascii_lower(s@),
{
    s.to_ascii_lowercase()
}

/// The administrative-parent facts from a run of "located in" statements:
/// one per statement that passes the active gate and references a parent.
pub open spec fn spec_place_rec(id: Seq<char>, stmts: Seq<Statement>, now: i64) -> Seq<FactView>
    decreases stmts.len(),
{
    if stmts.len() == 0 {
        Seq::empty()
    } else {
        let head = if spec_active(stmts[0].qualifiers@, now) {
            match snak_entity_id(stmts[0].snak) {
                Some(parent) => seq![FactView::TerritorialEntityParent { id: id, parent_id: parent }],
                None => Seq::empty(),
            }
        } else {
            Seq::empty()
        };
        head + spec_place_rec(id, stmts.drop_first(), now)
    }
}

/// The administrative-parent facts of a record.
pub open spec fn spec_place_facts(record: Record, now: i64) -> Seq<FactView> {
    match record_claims(record, "P131"@) {
        Some(stmts) => spec_place_rec(record.id@, stmts, now),
        None => Seq::empty(),
    }
}

/// The object-language facts from a run of language statements: one per
/// statement that passes the active gate and references a language, with a
/// sequential index over the surviving statements only.
pub open spec fn spec_lang_rec(id: Seq<char>, stmts: Seq<Statement>, now: i64, idx: int) -> Seq<
    FactView,
>
    decreases stmts.len(),
{
    if stmts.len() == 0 {
        Seq::empty()
    } else {
        if spec_active(stmts[0].qualifiers@, now) && snak_entity_id(stmts[0].snak) is Some {
            let lang_id = snak_entity_id(stmts[0].snak).unwrap();
            seq![FactView::ObjectLanguage { id: id, lang_id: lang_id, index: idx }]
                + spec_lang_rec(id, stmts.drop_first(), now, idx + 1)
        } else {
            spec_lang_rec(id, stmts.drop_first(), now, idx)
        }
    }
}

/// The plain label facts of a record: one per display label, in order,
/// without a native-order.
pub open spec fn spec_label_rec(id: Seq<char>, labels: Seq<Label>) -> Seq<FactView>
    decreases labels.len(),
{
    if labels.len() == 0 {
        Seq::empty()
    } else {
        seq![
            FactView::ObjectLabel {
                id: id,
                lang: labels[0].lang@,
                label: labels[0].value@,
                native_order: None,
            },
        ] + spec_label_rec(id, labels.drop_first())
    }
}

/// The native-name label facts from a run of monolingual-text statements:
/// one per statement whose value decomposes into language and text (and, when
/// `check_active` is set, whose qualifiers pass the active gate), with a
/// sequential native-order over the surviving statements only.
pub open spec fn spec_mono_rec(
    id: Seq<char>,
    stmts: Seq<Statement>,
    now: i64,
    idx: int,
    check_active: bool,
) -> Seq<FactView>
    decreases stmts.len(),
{
    if stmts.len() == 0 {
        Seq::empty()
    } else if check_active && !spec_active(stmts[0].qualifiers@, now) {
        spec_mono_rec(id, stmts.drop_first(), now, idx, check_active)
    } else {
        match stmts[0].snak {
            Snak::Value(DataValue::Monolingual { language, text }) => seq![
                FactView::ObjectLabel {
                    id: id,
                    lang: language@,
                    label: text@,
                    native_order: Some(idx),
                },
            ] + spec_mono_rec(id, stmts.drop_first(), now, idx + 1, check_active),
            _ => spec_mono_rec(id, stmts.drop_first(), now, idx, check_active),
        }
    }
}

/// Appends one administrative-parent fact per qualifying "located in"
/// statement of the record.
pub fn handle_place(record: &Record, now: i64, facts: &mut Vec<Fact>)
    ensures
        final(facts).deep_view() == old(facts).deep_view() + spec_place_facts(*record, now),
{
    let ghost base = facts.deep_view();
    let stmts = match find_claims(record, "P131") {
        Some(stmts) => stmts,
        None => {
            proof {
                assert(base + spec_place_facts(*record, now) =~= base);
            }
            return ;
        },
    };
    proof {
        assert(stmts@.skip(0) =~= stmts@);
    }
    let mut i: usize = 0;
    while i < stmts.len()
        invariant
            i <= stmts@.len(),
            record_claims(*record, "P131"@) == Some(stmts@),
            facts.deep_view() + spec_place_rec(record.id@, stmts@.skip(i as int), now) == base
                + spec_place_rec(record.id@, stmts@, now),
        decreases stmts@.len() - i,
    {
        proof {
            assert(stmts@.skip(i as int)[0] == stmts@[i as int]);
            assert(stmts@.skip(i as int).drop_first() =~= stmts@.skip(i as int + 1));
        }
        let stmt = &stmts[i];
        if is_active(&stmt.qualifiers, now) {
            if let Snak::Value(DataValue::Entity { id: parent }) = &stmt.snak {
                let f = Fact::TerritorialEntityParent {
                    id: record.id.clone(),
                    parent_id: parent.clone(),
                };
                let ghost pre = facts.deep_view();
                proof {
                    assert(f@ == FactView::TerritorialEntityParent {
                        id: record.id@,
                        parent_id: parent@,
                    });
                }
                facts.push(f);
                proof {
                    assert(facts.deep_view() =~= pre.push(f@));
                    assert(pre.push(f@) + spec_place_rec(record.id@, stmts@.skip(i as int + 1), now)
                        =~= pre + (seq![f@] + spec_place_rec(
                        record.id@,
                        stmts@.skip(i as int + 1),
                        now,
                    )));
                }
            }
        }
        i = i + 1;
    }
    proof {
        assert(stmts@.skip(i as int) =~= Seq::<Statement>::empty());
        assert(facts.deep_view() + Seq::<FactView>::empty() =~= facts.deep_view());
        assert(base + spec_place_rec(record.id@, stmts@, now) == base + spec_place_facts(
            *record,
            now,
        ));
    }
}

/// Appends one object-language fact per qualifying statement of `stmts`,
/// indexed sequentially over the survivors.
pub fn emit_languages(record: &Record, stmts: &Vec<Statement>, now: i64, facts: &mut Vec<Fact>)
    requires
        stmts@.len() + 1000 <= u32::MAX,
    ensures
        final(facts).deep_view() == old(facts).deep_view() + spec_lang_rec(
            record.id@,
            stmts@,
            now,
            0,
        ),
{
    let ghost base = facts.deep_view();
    proof {
        assert(stmts@.skip(0) =~= stmts@);
    }
    let mut i: usize = 0;
    let mut idx: u32 = 0;
    while i < stmts.len()
        invariant
            i <= stmts@.len(),
            stmts@.len() + 1000 <= u32::MAX,
            idx <= i,
            facts.deep_view() + spec_lang_rec(record.id@, stmts@.skip(i as int), now, idx as int)
                == base + spec_lang_rec(record.id@, stmts@, now, 0),
        decreases stmts@.len() - i,
    {
        proof {
            assert(stmts@.skip(i as int)[0] == stmts@[i as int]);
            assert(stmts@.skip(i as int).drop_first() =~= stmts@.skip(i as int + 1));
        }
        let stmt = &stmts[i];
        let is_value = match &stmt.snak {
            Snak::Value(_) => true,
            _ => false,
        };
        if is_value {
            if is_active(&stmt.qualifiers, now) {
                if let Snak::Value(DataValue::Entity { id: lang_id }) = &stmt.snak {
                    let f = Fact::ObjectLanguage {
                        id: record.id.clone(),
                        lang_id: lang_id.clone(),
                        index: idx,
                    };
                    let ghost pre = facts.deep_view();
                    facts.push(f);
                    proof {
                        assert(facts.deep_view() =~= pre.push(f@));
                        assert(pre.push(f@) + spec_lang_rec(
                            record.id@,
                            stmts@.skip(i as int + 1),
                            now,
                            idx as int + 1,
                        ) =~= pre + (seq![f@] + spec_lang_rec(
                            record.id@,
                            stmts@.skip(i as int + 1),
                            now,
                            idx as int + 1,
                        )));
                    }
                    idx = idx + 1;
                }
            }
        }
        i = i + 1;
    }
    proof {
        assert(stmts@.skip(i as int) =~= Seq::<Statement>::empty());
        assert(facts.deep_view() + Seq::<FactView>::empty() =~= facts.deep_view());
    }
}

/// Appends one plain label fact per display label of the record.
pub fn emit_labels(record: &Record, facts: &mut Vec<Fact>)
    ensures
        final(facts).deep_view() == old(facts).deep_view() + spec_label_rec(
            record.id@,
            record.labels@,
        ),
{
    let ghost base = facts.deep_view();
    let labels = &record.labels;
    proof {
        assert(labels@.skip(0) =~= labels@);
    }
    let mut i: usize = 0;
    while i < labels.len()
        invariant
            i <= labels@.len(),
            labels@ == record.labels@,
            facts.deep_view() + spec_label_rec(record.id@, labels@.skip(i as int)) == base
                + spec_label_rec(record.id@, labels@),
        decreases labels@.len() - i,
    {
        proof {
            assert(labels@.skip(i as int)[0] == labels@[i as int]);
            assert(labels@.skip(i as int).drop_first() =~= labels@.skip(i as int + 1));
        }
        let f = Fact::ObjectLabel {
            id: record.id.clone(),
            lang: labels[i].lang.clone(),
            label: labels[i].value.clone(),
            native_order: None,
        };
        let ghost pre = facts.deep_view();
        facts.push(f);
        proof {
            assert(facts.deep_view() =~= pre.push(f@));
            assert(pre.push(f@) + spec_label_rec(record.id@, labels@.skip(i as int + 1)) =~= pre + (
            seq![f@] + spec_label_rec(record.id@, labels@.skip(i as int + 1))));
        }
        i = i + 1;
    }
    proof {
        assert(labels@.skip(i as int) =~= Seq::<Label>::empty());
        assert(facts.deep_view() + Seq::<FactView>::empty() =~= facts.deep_view());
    }
}

/// Appends one native-name label fact per qualifying monolingual statement,
/// with a sequential native-order over the survivors.
pub fn emit_native_labels(
    record: &Record,
    stmts: &Vec<Statement>,
    now: i64,
    check_active: bool,
    facts: &mut Vec<Fact>,
)
    requires
        stmts@.len() + 1000 <= u32::MAX,
    ensures
        final(facts).deep_view() == old(facts).deep_view() + spec_mono_rec(
            record.id@,
            stmts@,
            now,
            0,
            check_active,
        ),
{
    let ghost base = facts.deep_view();
    proof {
        assert(stmts@.skip(0) =~= stmts@);
    }
    let mut i: usize = 0;
    let mut idx: u32 = 0;
    while i < stmts.len()
        invariant
            i <= stmts@.len(),
            stmts@.len() + 1000 <= u32::MAX,
            idx <= i,
            facts.deep_view() + spec_mono_rec(
                record.id@,
                stmts@.skip(i as int),
                now,
                idx as int,
                check_active,
            ) == base + spec_mono_rec(record.id@, stmts@, now, 0, check_active),
        decreases stmts@.len() - i,
    {
        proof {
            assert(stmts@.skip(i as int)[0] == stmts@[i as int]);
            assert(stmts@.skip(i as int).drop_first() =~= stmts@.skip(i as int + 1));
        }
        let stmt = &stmts[i];
        let skip_inactive = check_active && !is_active(&stmt.qualifiers, now);
        if !skip_inactive {
            if let Snak::Value(DataValue::Monolingual { language, text }) = &stmt.snak {
                let f = Fact::ObjectLabel {
                    id: record.id.clone(),
                    lang: language.clone(),
                    label: text.clone(),
                    native_order: Some(idx),
                };
                let ghost pre = facts.deep_view();
                facts.push(f);
                proof {
                    assert(facts.deep_view() =~= pre.push(f@));
                    assert(pre.push(f@) + spec_mono_rec(
                        record.id@,
                        stmts@.skip(i as int + 1),
                        now,
                        idx as int + 1,
                        check_active,
                    ) =~= pre + (seq![f@] + spec_mono_rec(
                        record.id@,
                        stmts@.skip(i as int + 1),
                        now,
                        idx as int + 1,
                        check_active,
                    )));
                }
                idx = idx + 1;
            }
        }
        i = i + 1;
    }
    proof {
        assert(stmts@.skip(i as int) =~= Seq::<Statement>::empty());
        assert(facts.deep_view() + Seq::<FactView>::empty() =~= facts.deep_view());
    }
}

/// The language fact of a record: its Wikimedia language code, when the
/// first code statement carries a concrete string value.
pub open spec fn spec_language_facts(record: Record) -> Seq<FactView> {
    match record_claims(record, "P424"@) {
        Some(stmts) => if stmts.len() > 0 {
            match snak_str(stmts[0].snak) {
                Some(code) => seq![
                    FactView::Language { id: record.id@, wikimedia_code: code },
                ],
                None => Seq::empty(),
            }
        } else {
            Seq::empty()
        },
        None => Seq::empty(),
    }
}

/// Appends the record's Wikimedia language code fact, when its first code
/// statement carries a concrete string value; nothing otherwise.
pub fn handle_language(record: &Record, facts: &mut Vec<Fact>)
    ensures
        final(facts).deep_view() == old(facts).deep_view() + spec_language_facts(*record),
{
    let ghost base = facts.deep_view();
    let mut emitted = false;
    if let Some(stmts) = find_claims(record, "P424") {
        if stmts.len() > 0 {
            if let Snak::Value(DataValue::Str(code)) = &stmts[0].snak {
                let f = Fact::Language { id: record.id.clone(), wikimedia_code: code.clone() };
                facts.push(f);
                emitted = true;
                proof {
                    assert(facts.deep_view() =~= base.push(f@));
                    assert(base.push(f@) =~= base + seq![f@]);
                }
            }
        }
    }
    proof {
        if !emitted {
            assert(base + spec_language_facts(*record) =~= base);
        }
    }
}

/// A claim group found by lookup obeys the per-group length bound that holds
/// of every group.
proof fn lemma_claim_lookup_len(groups: Seq<PropertyClaims>, prop: Seq<char>, stmts: Seq<Statement>)
    requires
        claim_lookup(groups, prop) == Some(stmts),
        forall|i: int|
            0 <= i < groups.len() ==> (#[trigger] groups[i]).statements@.len() + 1000 <= u32::MAX,
    ensures
        stmts.len() + 1000 <= u32::MAX,
    decreases groups.len(),
{
    if groups.len() == 0 {
    } else if groups[0].prop@ == prop {
    } else {
        assert forall|i: int| 0 <= i < groups.drop_first().len() implies (#[trigger] groups.drop_first()[i]).statements@.len()
            + 1000 <= u32::MAX by {
            assert(groups.drop_first()[i] == groups[i + 1]);
        }
        lemma_claim_lookup_len(groups.drop_first(), prop, stmts);
    }
}

/// In a well-formed record, every claim group found by lookup is short
/// enough for the 32-bit ordinal counters.
proof fn lemma_wf_claims_len(record: Record, prop: Seq<char>, stmts: Seq<Statement>)
    requires
        record.wf(),
        record_claims(record, prop) == Some(stmts),
    ensures
        stmts.len() + 1000 <= u32::MAX,
{
    lemma_claim_lookup_len(record.claims@, prop, stmts);
}

/// The ISO code of a second-level territorial entity: the first ISO-3166-2
/// statement's string value, taken only when the entity is second-level.
pub open spec fn spec_te_iso(record: Record, is_2nd: bool) -> Option<Seq<char>> {
    if is_2nd {
        match record_claims(record, "P300"@) {
            Some(stmts) => if stmts.len() > 0 {
                snak_str(stmts[0].snak)
            } else {
                None
            },
            None => None,
        }
    } else {
        None
    }
}

/// The territorial entity's language facts: from the official-language
/// property, or - only when that property is entirely absent - from the
/// language-used property.
pub open spec fn spec_te_langs(record: Record, now: i64) -> Seq<FactView> {
    match record_claims(record, "P37"@) {
        Some(stmts) => spec_lang_rec(record.id@, stmts, now, 0),
        None => match record_claims(record, "P2936"@) {
            Some(stmts) => spec_lang_rec(record.id@, stmts, now, 0),
            None => Seq::empty(),
        },
    }
}

/// The facts of the territorial-entity handler, in program order: the entity
/// fact, the administrative parents, the languages, the plain labels.
pub open spec fn spec_te_facts(record: Record, now: i64, is_2nd: bool) -> Seq<FactView> {
    seq![
        FactView::TerritorialEntity {
            id: record.id@,
            is_second_level: is_2nd,
            iso: spec_te_iso(record, is_2nd),
        },
    ] + spec_place_facts(record, now) + spec_te_langs(record, now) + spec_label_rec(
        record.id@,
        record.labels@,
    )
}

/// Runs the territorial-entity handler: the entity fact (with an ISO code
/// only for second-level divisions), the administrative parents, the
/// languages and the plain labels, in that order.
pub fn handle_territorial_entity(record: &Record, is_2nd: bool, now: i64, facts: &mut Vec<Fact>)
    requires
        record.wf(),
    ensures
        final(facts).deep_view() == old(facts).deep_view() + spec_te_facts(*record, now, is_2nd),
{
    let ghost base = facts.deep_view();
    let iso: Option<String> = if is_2nd {
        match find_claims(record, "P300") {
            Some(stmts) => if stmts.len() > 0 {
                match &stmts[0].snak {
                    Snak::Value(DataValue::Str(s)) => Some(s.clone()),
                    _ => None,
                }
            } else {
                None
            },
            None => None,
        }
    } else {
        None
    };
    let f = Fact::TerritorialEntity { id: record.id.clone(), is_second_level: is_2nd, iso };
    proof {
        assert(f@ == FactView::TerritorialEntity {
            id: record.id@,
            is_second_level: is_2nd,
            iso: spec_te_iso(*record, is_2nd),
        });
    }
    facts.push(f);
    proof {
        assert(facts.deep_view() =~= base + seq![f@]);
    }
    handle_place(record, now, facts);
    match find_claims(record, "P37") {
        Some(stmts) => {
            proof {
                lemma_wf_claims_len(*record, "P37"@, stmts@);
            }
            emit_languages(record, stmts, now, facts);
        },
        None => {
            match find_claims(record, "P2936") {
                Some(stmts) => {
                    proof {
                        lemma_wf_claims_len(*record, "P2936"@, stmts@);
                    }
                    emit_languages(record, stmts, now, facts);
                },
                None => {
                    proof {
                        assert(spec_te_langs(*record, now) =~= Seq::<FactView>::empty());
                    }
                },
            }
        },
    }
    emit_labels(record, facts);
    proof {
        assert(facts.deep_view() =~= base + spec_te_facts(*record, now, is_2nd));
    }
}

/// The first statement whose qualifiers pass the active gate.
pub open spec fn spec_first_active(stmts: Seq<Statement>, now: i64) -> Option<Statement>
    decreases stmts.len(),
{
    if stmts.len() == 0 {
        None
    } else if spec_active(stmts[0].qualifiers@, now) {
        Some(stmts[0])
    } else {
        spec_first_active(stmts.drop_first(), now)
    }
}

/// The country fact of a record: the lower-cased string value of the first
/// qualifier-active ISO-country-code statement, when there is one.
pub open spec fn spec_country_fact(record: Record, now: i64) -> Seq<FactView> {
    match record_claims(record, "P297"@) {
        Some(entries) => match spec_first_active(entries, now) {
            Some(e) => match snak_str(e.snak) {
                Some(code) => seq![
                    FactView::Country { id: record.id@, iso: spec_ascii_lower(code) },
                ],
                None => Seq::empty(),
            },
            None => Seq::empty(),
        },
        None => Seq::empty(),
    }
}

/// The unconditional country-code step: the country fact, when there is
/// one, followed by one object-language fact per qualifier-active
/// official-language statement. The language facts are independent of the
/// country fact: they are emitted whether or not the record has the
/// ISO-country-code property.
pub open spec fn spec_country_step(record: Record, now: i64) -> Seq<FactView> {
    spec_country_fact(record, now) + (match record_claims(record, "P37"@) {
        Some(stmts) => spec_lang_rec(record.id@, stmts, now, 0),
        None => Seq::empty(),
    })
}

/// Runs the unconditional country-code step of the pipeline.
pub fn country_code_step(record: &Record, now: i64, facts: &mut Vec<Fact>)
    requires
        record.wf(),
    ensures
        final(facts).deep_view() == old(facts).deep_view() + spec_country_step(*record, now),
{
    let ghost base = facts.deep_view();
    match find_claims(record, "P297") {
        Some(entries) => {
            proof {
                assert(entries@.skip(0) =~= entries@);
            }
            let mut i: usize = 0;
            let mut found: Option<usize> = None;
            while i < entries.len() && found.is_none()
                invariant
                    i <= entries@.len(),
                    record_claims(*record, "P297"@) == Some(entries@),
                    match found {
                        None => spec_first_active(entries@, now) == spec_first_active(
                            entries@.skip(i as int),
                            now,
                        ),
                        Some(k) => k < entries@.len() && spec_first_active(entries@, now) == Some(
                            entries@[k as int],
                        ),
                    },
                decreases entries@.len() - i, (if found is None {
                    1int
                } else {
                    0int
                }),
            {
                proof {
                    assert(entries@.skip(i as int)[0] == entries@[i as int]);
                    assert(entries@.skip(i as int).drop_first() =~= entries@.skip(i as int + 1));
                }
                if is_active(&entries[i].qualifiers, now) {
                    found = Some(i);
                } else {
                    i = i + 1;
                }
            }
            match found {
                Some(k) => {
                    if let Snak::Value(DataValue::Str(code)) = &entries[k].snak {
                        let lowered = ascii_lowercase(code.as_str());
                        let f = Fact::Country { id: record.id.clone(), iso: lowered };
                        let ghost pre = facts.deep_view();
                        facts.push(f);
                        proof {
                            assert(facts.deep_view() =~= pre + seq![f@]);
                            assert(seq![f@] =~= spec_country_fact(*record, now));
                        }
                    } else {
                        proof {
                            assert(spec_country_fact(*record, now) =~= Seq::<FactView>::empty());
                        }
                    }
                },
                None => {
                    proof {
                        assert(entries@.skip(i as int) =~= Seq::<Statement>::empty());
                        assert(spec_country_fact(*record, now) =~= Seq::<FactView>::empty());
                    }
                },
            }
        },
        None => {
            proof {
                assert(spec_country_fact(*record, now) =~= Seq::<FactView>::empty());
            }
        },
    }
    match find_claims(record, "P37") {
        Some(stmts) => {
            proof {
                lemma_wf_claims_len(*record, "P37"@, stmts@);
            }
            emit_languages(record, stmts, now, facts);
        },
        None => {},
    }
    proof {
        assert(facts.deep_view() =~= base + spec_country_step(*record, now));
    }
}

/// The candidate time of one population statement: its point-in-time
/// qualifier's date, discarded entirely when the statement is qualified
/// "applies to part", "female population" or "male population".
pub open spec fn spec_candidate_time(s: Statement) -> Option<i64> {
    let t = match qual_lookup(s.qualifiers@, "P585"@) {
        Some(snaks) => if snaks.len() > 0 {
            snaks[0].time
        } else {
            None
        },
        None => None,
    };
    if has_qualifier(s.qualifiers@, "P518"@) || has_qualifier(s.qualifiers@, "P1539"@)
        || has_qualifier(s.qualifiers@, "P1540"@) {
        None
    } else {
        t
    }
}

/// The population selection over a run of population statements: a statement
/// with a candidate time at or after the best time seen so far replaces the
/// selection, provided its amount is a dimensionless quantity that parses;
/// a candidate that fails those checks is discarded without advancing the
/// best time.
pub open spec fn spec_population_rec(
    stmts: Seq<Statement>,
    best_pop: Option<u64>,
    best_time: Option<i64>,
) -> Option<u64>
    decreases stmts.len(),
{
    if stmts.len() == 0 {
        best_pop
    } else {
        let s = stmts[0];
        match spec_candidate_time(s) {
            None => spec_population_rec(stmts.drop_first(), best_pop, best_time),
            Some(t) => if (match best_time {
                Some(o) => t < o,
                None => false,
            }) {
                spec_population_rec(stmts.drop_first(), best_pop, best_time)
            } else {
                match s.snak {
                    Snak::Value(DataValue::Quantity { amount, unit }) => if unit@ == "1"@ {
                        match spec_parse_quantity(amount@) {
                            Some(v) => spec_population_rec(stmts.drop_first(), Some(v), Some(t)),
                            None => spec_population_rec(stmts.drop_first(), best_pop, best_time),
                        }
                    } else {
                        spec_population_rec(stmts.drop_first(), best_pop, best_time)
                    },
                    _ => spec_population_rec(stmts.drop_first(), best_pop, best_time),
                }
            },
        }
    }
}

/// The selected population of a record, over its population statements.
pub open spec fn spec_hs_population(record: Record) -> Option<u64> {
    match record_claims(record, "P1082"@) {
        Some(stmts) => spec_population_rec(stmts, None, None),
        None => None,
    }
}

/// The coordinates of a record: taken only from the first coordinate
/// statement, and only when its snak is a concrete coordinate value.
pub open spec fn spec_coords(record: Record) -> Option<(u64, u64)> {
    match record_claims(record, "P625"@) {
        Some(stmts) => if stmts.len() > 0 {
            match stmts[0].snak {
                Snak::Value(DataValue::Coordinate { lat_bits, lon_bits }) => Some(
                    (lat_bits, lon_bits),
                ),
                _ => None,
            }
        } else {
            None
        },
        None => None,
    }
}

/// The city fact of a record: its selected population and its coordinates,
/// each absent when unavailable.
pub open spec fn spec_city_fact(record: Record) -> FactView {
    FactView::City {
        id: record.id@,
        population: spec_hs_population(record),
        lat: match spec_coords(record) {
            Some(c) => Some(c.0),
            None => None,
        },
        lon: match spec_coords(record) {
            Some(c) => Some(c.1),
            None => None,
        },
    }
}

/// The city-country facts over a run of country statements, enumerated from
/// `i`: a statement whose start or end side is explicitly inactive is
/// skipped; otherwise its referenced country is emitted with priority equal
/// to the iteration index, deprioritized by 1000 when no start date was
/// present. Skipped statements still consume their index.
pub open spec fn spec_city_country_rec(
    id: Seq<char>,
    stmts: Seq<Statement>,
    now: i64,
    i: int,
) -> Seq<FactView>
    decreases stmts.len(),
{
    if stmts.len() == 0 {
        Seq::empty()
    } else {
        let s = stmts[0];
        let start = spec_start_state(s.qualifiers@, now);
        let end = spec_end_state(s.qualifiers@, now);
        let head = if start == TemporalState::Inactive || end == TemporalState::Inactive {
            Seq::empty()
        } else {
            match snak_entity_id(s.snak) {
                Some(country) => seq![
                    FactView::CityCountry {
                        id: id,
                        country_id: country,
                        priority: if start == TemporalState::Active {
                            i
                        } else {
                            1000 + i
                        },
                    },
                ],
                None => Seq::empty(),
            }
        };
        head + spec_city_country_rec(id, stmts.drop_first(), now, i + 1)
    }
}

/// The native-name label facts of a record: from the native-label property
/// when it exists at all (even empty), with no active filter; otherwise from
/// the official-name property, filtered by the active gate.
pub open spec fn spec_native_facts(record: Record, now: i64) -> Seq<FactView> {
    match record_claims(record, "P1705"@) {
        Some(stmts) => spec_mono_rec(record.id@, stmts, now, 0, false),
        None => match record_claims(record, "P1448"@) {
            Some(stmts) => spec_mono_rec(record.id@, stmts, now, 0, true),
            None => Seq::empty(),
        },
    }
}

/// The facts of the human-settlement handler. Without the country property
/// it is exactly one missing-country fact. Otherwise, in program order: the
/// administrative parents, the city-country facts, the city fact, the plain
/// labels, the native-name labels.
pub open spec fn spec_hs_facts(record: Record, now: i64) -> Seq<FactView> {
    match record_claims(record, "P17"@) {
        None => seq![FactView::MissingCountryProperty { id: record.id@ }],
        Some(entries) => spec_place_facts(record, now) + spec_city_country_rec(
            record.id@,
            entries,
            now,
            0,
        ) + seq![spec_city_fact(record)] + spec_label_rec(record.id@, record.labels@)
            + spec_native_facts(record, now),
    }
}

/// Runs the human-settlement handler.
pub fn handle_human_settlement(record: &Record, now: i64, facts: &mut Vec<Fact>)
    requires
        record.wf(),
    ensures
        final(facts).deep_view() == old(facts).deep_view() + spec_hs_facts(*record, now),
{
    let ghost base = facts.deep_view();
    let entries = match find_claims(record, "P17") {
        Some(entries) => entries,
        None => {
            let f = Fact::MissingCountryProperty { id: record.id.clone() };
            facts.push(f);
            proof {
                assert(facts.deep_view() =~= base + seq![f@]);
                assert(seq![f@] =~= spec_hs_facts(*record, now));
            }
            return ;
        },
    };
    proof {
        lemma_wf_claims_len(*record, "P17"@, entries@);
    }
    handle_place(record, now, facts);
    proof {
        assert(entries@.skip(0) =~= entries@);
    }
    let ghost after_place = facts.deep_view();
    let mut i: usize = 0;
    while i < entries.len()
        invariant
            i <= entries@.len(),
            entries@.len() + 1000 <= u32::MAX,
            record_claims(*record, "P17"@) == Some(entries@),
            facts.deep_view() + spec_city_country_rec(
                record.id@,
                entries@.skip(i as int),
                now,
                i as int,
            ) == after_place + spec_city_country_rec(record.id@, entries@, now, 0),
        decreases entries@.len() - i,
    {
        proof {
            assert(entries@.skip(i as int)[0] == entries@[i as int]);
            assert(entries@.skip(i as int).drop_first() =~= entries@.skip(i as int + 1));
        }
        let entry = &entries[i];
        let start = start_state(&entry.qualifiers, now);
        let end = end_state(&entry.qualifiers, now);
        if !(start == TemporalState::Inactive || end == TemporalState::Inactive) {
            if let Snak::Value(DataValue::Entity { id: country }) = &entry.snak {
                let priority: u32 = if start == TemporalState::Active {
                    i as u32
                } else {
                    1000 + (i as u32)
                };
                let f = Fact::CityCountry {
                    id: record.id.clone(),
                    country_id: country.clone(),
                    priority,
                };
                let ghost pre = facts.deep_view();
                facts.push(f);
                proof {
                    assert(facts.deep_view() =~= pre.push(f@));
                    assert(pre.push(f@) + spec_city_country_rec(
                        record.id@,
                        entries@.skip(i as int + 1),
                        now,
                        i as int + 1,
                    ) =~= pre + (seq![f@] + spec_city_country_rec(
                        record.id@,
                        entries@.skip(i as int + 1),
                        now,
                        i as int + 1,
                    )));
                }
            }
        }
        i = i + 1;
    }
    proof {
        assert(entries@.skip(i as int) =~= Seq::<Statement>::empty());
        assert(facts.deep_view() + Seq::<FactView>::empty() =~= facts.deep_view());
    }
    // population selection
    let mut population: Option<u64> = None;
    let mut population_time: Option<i64> = None;
    match find_claims(record, "P1082") {
        Some(pstmts) => {
            proof {
                assert(pstmts@.skip(0) =~= pstmts@);
            }
            let mut j: usize = 0;
            while j < pstmts.len()
                invariant
                    j <= pstmts@.len(),
                    record_claims(*record, "P1082"@) == Some(pstmts@),
                    spec_population_rec(pstmts@.skip(j as int), population, population_time)
                        == spec_population_rec(pstmts@, None, None),
                decreases pstmts@.len() - j,
            {
                proof {
                    assert(pstmts@.skip(j as int)[0] == pstmts@[j as int]);
                    assert(pstmts@.skip(j as int).drop_first() =~= pstmts@.skip(j as int + 1));
                }
                let stmt = &pstmts[j];
                let mut cand: Option<i64> = match find_qualifier(&stmt.qualifiers, "P585") {
                    Some(snaks) => if snaks.len() > 0 {
                        snaks[0].time
                    } else {
                        None
                    },
                    None => None,
                };
                if has_qual(&stmt.qualifiers, "P518") {
                    cand = None;
                }
                if has_qual(&stmt.qualifiers, "P1539") {
                    cand = None;
                }
                if has_qual(&stmt.qualifiers, "P1540") {
                    cand = None;
                }
                proof {
                    assert(cand == spec_candidate_time(pstmts@[j as int]));
                }
                if let Some(new_time) = cand {
                    let keep = match population_time {
                        Some(old_time) => new_time >= old_time,
                        None => true,
                    };
                    if keep {
                        if let Snak::Value(DataValue::Quantity { amount, unit }) = &stmt.snak {
                            if str_eq(unit.as_str(), "1") {
                                match parse_quantity(amount.as_str()) {
                                    Some(v) => {
                                        population = Some(v);
                                        population_time = Some(new_time);
                                    },
                                    None => {},
                                }
                            }
                        }
                    }
                }
                j = j + 1;
            }
            proof {
                assert(pstmts@.skip(j as int) =~= Seq::<Statement>::empty());
            }
        },
        None => {},
    }
    proof {
        assert(population == spec_hs_population(*record));
    }
    // coordinates, from the first coordinate statement only
    let mut lat: Option<u64> = None;
    let mut lon: Option<u64> = None;
    match find_claims(record, "P625") {
        Some(cstmts) => {
            if cstmts.len() > 0 {
                if let Snak::Value(DataValue::Coordinate { lat_bits, lon_bits }) = &cstmts[0].snak {
                    lat = Some(*lat_bits);
                    lon = Some(*lon_bits);
                }
            }
        },
        None => {},
    }
    let city = Fact::City { id: record.id.clone(), population, lat, lon };
    proof {
        assert(city@ == spec_city_fact(*record));
    }
    let ghost pre_city = facts.deep_view();
    facts.push(city);
    proof {
        assert(facts.deep_view() =~= pre_city + seq![city@]);
    }
    emit_labels(record, facts);
    match find_claims(record, "P1705") {
        Some(nstmts) => {
            proof {
                lemma_wf_claims_len(*record, "P1705"@, nstmts@);
            }
            emit_native_labels(record, nstmts, now, false, facts);
        },
        None => {
            match find_claims(record, "P1448") {
                Some(nstmts) => {
                    proof {
                        lemma_wf_claims_len(*record, "P1448"@, nstmts@);
                    }
                    emit_native_labels(record, nstmts, now, true, facts);
                },
                None => {
                    proof {
                        assert(spec_native_facts(*record, now) =~= Seq::<FactView>::empty());
                    }
                },
            }
        },
    }
    proof {
        assert(facts.deep_view() =~= base + spec_hs_facts(*record, now));
    }
}

/// Whether a record carries a dissolved-date statement.
pub open spec fn spec_dissolved(record: Record) -> bool {
    match record_claims(record, "P576"@) {
        Some(stmts) => stmts.len() > 0,
        None => false,
    }
}

/// Whether the record's `i`-th replaced-by statement exists and is a full
/// replacement: it carries no "applies to part" qualifier.
pub open spec fn full_replacement_at(record: Record, i: int) -> bool {
    match record_claims(record, "P1366"@) {
        Some(stmts) => 0 <= i < stmts.len() && !has_qualifier(stmts[i].qualifiers@, "P518"@),
        None => false,
    }
}

/// Whether a record is fully replaced: at least one of its replaced-by
/// statements is not qualified "applies to part". Statements qualified only
/// for a part do not count.
pub open spec fn spec_fully_replaced(record: Record) -> bool {
    exists|i: int| #[trigger] full_replacement_at(record, i)
}

/// The global exclusion test: a dissolved or fully replaced record yields
/// no facts at all.
pub open spec fn spec_excluded(record: Record) -> bool {
    spec_fully_replaced(record) || spec_dissolved(record)
}

/// Tests the global exclusion rule on a record.
pub fn excluded(record: &Record) -> (r: bool)
    ensures
        r == spec_excluded(*record),
{
    let replaced = match find_claims(record, "P1366") {
        Some(stmts) => {
            let mut full = false;
            let mut j: usize = 0;
            while j < stmts.len()
                invariant
                    j <= stmts@.len(),
                    record_claims(*record, "P1366"@) == Some(stmts@),
                    full == (exists|k: int| 0 <= k < j && #[trigger] full_replacement_at(*record, k)),
                decreases stmts@.len() - j,
            {
                if !has_qual(&stmts[j].qualifiers, "P518") {
                    proof {
                        assert(full_replacement_at(*record, j as int));
                    }
                    full = true;
                } else {
                    proof {
                        assert(!full_replacement_at(*record, j as int));
                    }
                }
                j = j + 1;
            }
            proof {
                if !full {
                    assert forall|i: int| !#[trigger] full_replacement_at(*record, i) by {
                        if 0 <= i < stmts@.len() {
                            assert(!(exists|k: int|
                                0 <= k < j && #[trigger] full_replacement_at(*record, k)));
                        }
                    }
                }
            }
            full
        },
        None => {
            proof {
                assert forall|i: int| !#[trigger] full_replacement_at(*record, i) by {}
            }
            false
        },
    };
    if replaced {
        return true;
    }
    match find_claims(record, "P576") {
        Some(stmts) => stmts.len() > 0,
        None => false,
    }
}

/// The full extraction of one record: nothing when the record is excluded;
/// otherwise the country-code step, then every applicable handler, in this
/// fixed order: territorial entity, human settlement, language.
pub open spec fn spec_extract(record: Record, classes: ClassIndex, now: i64) -> Seq<FactView> {
    if spec_excluded(record) {
        Seq::empty()
    } else {
        let te = spec_is_subclass_of(record, classes.territorial_entities@, now);
        let hs = spec_is_subclass_of(record, classes.human_settlements@, now);
        let ex = spec_is_subclass_of(record, classes.excluded@, now);
        let exs = spec_is_subclass_of(record, classes.excluded_settlements@, now);
        let lang = spec_is_subclass_of(record, classes.languages@, now);
        let is_2nd = spec_is_subclass_of(record, classes.second_level_admin_div@, now);
        spec_country_step(record, now) + (if te && !ex {
            spec_te_facts(record, now, is_2nd)
        } else {
            Seq::empty()
        }) + (if hs && !ex && !exs {
            spec_hs_facts(record, now)
        } else {
            Seq::empty()
        }) + (if lang {
            spec_language_facts(record)
        } else {
            Seq::empty()
        })
    }
}

/// Extracts the ordered fact sequence of one record against a class index
/// at the given evaluation time. Pure: the result is a function of the
/// arguments alone.
pub fn extract(record: &Record, classes: &ClassIndex, now: i64) -> (facts: Vec<Fact>)
    requires
        record.wf(),
    ensures
        facts.deep_view() == spec_extract(*record, *classes, now),
{
    let mut facts: Vec<Fact> = Vec::new();
    proof {
        assert(facts.deep_view() =~= Seq::<FactView>::empty());
    }
    if excluded(record) {
        return facts;
    }
    country_code_step(record, now, &mut facts);
    let te = is_subclass_of(record, &classes.territorial_entities, now);
    let hs = is_subclass_of(record, &classes.human_settlements, now);
    let ex = is_subclass_of(record, &classes.excluded, now);
    let lang = is_subclass_of(record, &classes.languages, now);
    if te && !ex {
        let is_2nd = is_subclass_of(record, &classes.second_level_admin_div, now);
        handle_territorial_entity(record, is_2nd, now, &mut facts);
    }
    if hs && !ex {
        if !is_subclass_of(record, &classes.excluded_settlements, now) {
            handle_human_settlement(record, now, &mut facts);
        }
    }
    if lang {
        handle_language(record, &mut facts);
    }
    proof {
        assert(facts.deep_view() =~= spec_extract(*record, *classes, now));
    }
    facts
}

/// Line normalization: a line of length at most one (blank, or a bare array
/// boundary marker) is ignored; otherwise one trailing separator comma is
/// stripped and the remainder is the record payload.
pub open spec fn spec_normalize_line(line: Seq<char>) -> Option<Seq<char>> {
    if line.len() <= 1 {
        None
    } else if line.last() == ',' {
        Some(line.drop_last())
    } else {
        Some(line)
    }
}

/// Normalizes one raw input line into its record payload, if it has one.
pub fn normalize_line<'a>(line: &'a str) -> (r: Option<&'a str>)
    ensures
        match r {
            Some(s) => spec_normalize_line(line@) == Some(s@),
            None => spec_normalize_line(line@) is None,
        },
{
    let n = line.unicode_len();
    if n <= 1 {
        return None;
    }
    let last = line.get_char(n - 1);
    if last == ',' {
        let s = line.substring_char(0, n - 1);
        proof {
            assert(line@.subrange(0, n as int - 1) =~= line@.drop_last());
        }
        Some(s)
    } else {
        Some(line)
    }
}

} // verus!
