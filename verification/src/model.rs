//! The data model: records, statements, qualifiers and the emitted facts.
//!
//! A record is parsed outside this crate; it reaches the library reduced to
//! plain values. A statement's main snak is either a concrete value, "no
//! value" or "unknown value"; a qualifier snak is reduced to the one thing the
//! engine ever reads from it, its parsed point in time (absent when the
//! qualifier does not carry a well-formed time).

use vstd::prelude::*;
use vstd::string::StrSliceExecFns;

verus! {

/// A concrete statement value, reduced to the shapes the engine reads.
/// Coordinate components are carried opaquely as 64-bit patterns; the engine
/// never interprets them, it only moves them into the emitted fact.
#[derive(Clone, Debug)]
pub enum DataValue {
    /// A reference to another record, by identifier.
    Entity { id: String },
    /// A plain string value.
    Str(String),
    /// An amount with its unit, both kept as the raw strings.
    Quantity { amount: String, unit: String },
    /// A text together with its language.
    Monolingual { language: String, text: String },
    /// A globe coordinate; latitude and longitude as opaque 64-bit patterns.
    Coordinate { lat_bits: u64, lon_bits: u64 },
    /// A value of any other shape; present, but nothing the engine reads.
    Other,
}

/// The value payload of a statement.
#[derive(Clone, Debug)]
pub enum Snak {
    /// A concrete value.
    Value(DataValue),
    /// Explicitly no value.
    NoValue,
    /// An unknown value.
    UnknownValue,
}

/// One qualifier snak, reduced to its parsed point in time.
/// `time` is `None` when the qualifier holds no concrete, well-formed time.
#[derive(Clone, Debug)]
pub struct QualifierSnak {
    pub time: Option<i64>,
}

/// The ordered qualifier snaks attached to one statement under one property.
#[derive(Clone, Debug)]
pub struct QualifierGroup {
    pub prop: String,
    pub snaks: Vec<QualifierSnak>,
}

/// One property value attached to a record.
#[derive(Clone, Debug)]
pub struct Statement {
    pub snak: Snak,
    pub qualifiers: Vec<QualifierGroup>,
}

/// The ordered statements a record holds under one property.
#[derive(Clone, Debug)]
pub struct PropertyClaims {
    pub prop: String,
    pub statements: Vec<Statement>,
}

/// One display label: a language code and the label text.
#[derive(Clone, Debug)]
pub struct Label {
    pub lang: String,
    pub value: String,
}

/// One knowledge-base record: an identifier, property claims and labels.
#[derive(Clone, Debug)]
pub struct Record {
    pub id: String,
    pub claims: Vec<PropertyClaims>,
    pub labels: Vec<Label>,
}

impl Record {
    /// Every statement list is short enough that the ordinal counters the
    /// engine derives from iteration indices (priority, language index,
    /// native order) fit the emitted 32-bit fields.
    pub open spec fn wf(&self) -> bool {
        forall|i: int|
            0 <= i < self.claims@.len() ==> (#[trigger] self.claims@[i]).statements@.len() + 1000
                <= u32::MAX
    }
}

/// One immutable unit of extracted output.
#[derive(Clone, Debug, PartialEq, Eq)]
pub enum Fact {
    Country { id: String, iso: String },
    TerritorialEntity { id: String, is_second_level: bool, iso: Option<String> },
    TerritorialEntityParent { id: String, parent_id: String },
    ObjectLanguage { id: String, lang_id: String, index: u32 },
    ObjectLabel { id: String, lang: String, label: String, native_order: Option<u32> },
    Language { id: String, wikimedia_code: String },
    MissingCountryProperty { id: String },
    CityCountry { id: String, country_id: String, priority: u32 },
    City { id: String, population: Option<u64>, lat: Option<u64>, lon: Option<u64> },
}

/// The mathematical value of a fact: strings as character sequences,
/// ordinals as unbounded integers.
pub ghost enum FactView {
    Country { id: Seq<char>, iso: Seq<char> },
    TerritorialEntity { id: Seq<char>, is_second_level: bool, iso: Option<Seq<char>> },
    TerritorialEntityParent { id: Seq<char>, parent_id: Seq<char> },
    ObjectLanguage { id: Seq<char>, lang_id: Seq<char>, index: int },
    ObjectLabel { id: Seq<char>, lang: Seq<char>, label: Seq<char>, native_order: Option<int> },
    Language { id: Seq<char>, wikimedia_code: Seq<char> },
    MissingCountryProperty { id: Seq<char> },
    CityCountry { id: Seq<char>, country_id: Seq<char>, priority: int },
    City { id: Seq<char>, population: Option<u64>, lat: Option<u64>, lon: Option<u64> },
}

impl View for Fact {
    type V = FactView;

    open spec fn view(&self) -> FactView {
        match self {
            Fact::Country { id, iso } => FactView::Country { id: id@, iso: iso@ },
            Fact::TerritorialEntity { id, is_second_level, iso } => FactView::TerritorialEntity {
                id: id@,
                is_second_level: *is_second_level,
                iso: match iso {
                    Some(s) => Some(s@),
                    None => None,
                },
            },
            Fact::TerritorialEntityParent { id, parent_id } => FactView::TerritorialEntityParent {
                id: id@,
                parent_id: parent_id@,
            },
            Fact::ObjectLanguage { id, lang_id, index } => FactView::ObjectLanguage {
                id: id@,
                lang_id: lang_id@,
                index: *index as int,
            },
            Fact::ObjectLabel { id, lang, label, native_order } => FactView::ObjectLabel {
                id: id@,
                lang: lang@,
                label: label@,
                native_order: match native_order {
                    Some(n) => Some(*n as int),
                    None => None,
                },
            },
            Fact::Language { id, wikimedia_code } => FactView::Language {
                id: id@,
                wikimedia_code: wikimedia_code@,
            },
            Fact::MissingCountryProperty { id } => FactView::MissingCountryProperty { id: id@ },
            Fact::CityCountry { id, country_id, priority } => FactView::CityCountry {
                id: id@,
                country_id: country_id@,
                priority: *priority as int,
            },
            Fact::City { id, population, lat, lon } => FactView::City {
                id: id@,
                population: *population,
                lat: *lat,
                lon: *lon,
            },
        }
    }
}

impl DeepView for Fact {
    type V = FactView;

    open spec fn deep_view(&self) -> FactView {
        self.view()
    }
}

/// The statements a record holds under `prop`: those of the first claim group
/// carrying that property, or `None` when no group does.
pub open spec fn claim_lookup(groups: Seq<PropertyClaims>, prop: Seq<char>) -> Option<
    Seq<Statement>,
>
    decreases groups.len(),
{
    if groups.len() == 0 {
        None
    } else if groups[0].prop@ == prop {
        Some(groups[0].statements@)
    } else {
        claim_lookup(groups.drop_first(), prop)
    }
}

/// The statements of `record` under `prop`.
pub open spec fn record_claims(record: Record, prop: Seq<char>) -> Option<Seq<Statement>> {
    claim_lookup(record.claims@, prop)
}

/// The qualifier snaks under `prop`: those of the first group carrying that
/// property, or `None` when no group does.
pub open spec fn qual_lookup(quals: Seq<QualifierGroup>, prop: Seq<char>) -> Option<
    Seq<QualifierSnak>,
>
    decreases quals.len(),
{
    if quals.len() == 0 {
        None
    } else if quals[0].prop@ == prop {
        Some(quals[0].snaks@)
    } else {
        qual_lookup(quals.drop_first(), prop)
    }
}

/// Whether a statement carries at least one qualifier snak under `prop`.
pub open spec fn has_qualifier(quals: Seq<QualifierGroup>, prop: Seq<char>) -> bool {
    match qual_lookup(quals, prop) {
        Some(snaks) => snaks.len() > 0,
        None => false,
    }
}

/// The identifier a snak references, when it is a concrete entity value.
pub open spec fn snak_entity_id(snak: Snak) -> Option<Seq<char>> {
    match snak {
        Snak::Value(DataValue::Entity { id }) => Some(id@),
        _ => None,
    }
}

/// The plain string a snak carries, when it is a concrete string value.
pub open spec fn snak_str(snak: Snak) -> Option<Seq<char>> {
    match snak {
        Snak::Value(DataValue::Str(s)) => Some(s@),
        _ => None,
    }
}

/// Character-for-character string equality.
pub fn str_eq(a: &str, b: &str) -> (r: bool)
    ensures
        r == (a@ == b@),
{
    let a_len = a.unicode_len();
    let b_len = b.unicode_len();
    if a_len != b_len {
        return false;
    }
    let mut i: usize = 0;
    while i < a_len
        invariant
            i <= a_len,
            a_len == a@.len(),
            a_len == b@.len(),
            forall|j: int| 0 <= j < i ==> a@[j] == b@[j],
        decreases a_len - i,
    {
        if a.get_char(i) != b.get_char(i) {
            return false;
        }
        i = i + 1;
    }
    proof {
        assert(a@ =~= b@);
    }
    true
}

/// The first claim group of `record` under `prop`, if any.
pub fn find_claims<'a>(record: &'a Record, prop: &str) -> (res: Option<&'a Vec<Statement>>)
    ensures
        match res {
            Some(stmts) => record_claims(*record, prop@) == Some(stmts@),
            None => record_claims(*record, prop@) is None,
        },
{
    let groups = &record.claims;
    proof {
        assert(groups@.skip(0) =~= groups@);
    }
    let mut i: usize = 0;
    while i < groups.len()
        invariant
            i <= groups@.len(),
            groups@ == record.claims@,
            claim_lookup(groups@.skip(i as int), prop@) == claim_lookup(groups@, prop@),
        decreases groups@.len() - i,
    {
        proof {
            assert(groups@.skip(i as int)[0] == groups@[i as int]);
            assert(groups@.skip(i as int).drop_first() =~= groups@.skip(i as int + 1));
        }
        if str_eq(groups[i].prop.as_str(), prop) {
            proof {
                assert(claim_lookup(groups@.skip(i as int), prop@) == Some(
                    groups@[i as int].statements@,
                ));
            }
            return Some(&groups[i].statements);
        }
        i = i + 1;
    }
    proof {
        assert(groups@.skip(i as int) =~= Seq::<PropertyClaims>::empty());
    }
    None
}

/// The first qualifier group under `prop`, if any.
pub fn find_qualifier<'a>(quals: &'a Vec<QualifierGroup>, prop: &str) -> (res: Option<
    &'a Vec<QualifierSnak>,
>)
    ensures
        match res {
            Some(snaks) => qual_lookup(quals@, prop@) == Some(snaks@),
            None => qual_lookup(quals@, prop@) is None,
        },
{
    proof {
        assert(quals@.skip(0) =~= quals@);
    }
    let mut i: usize = 0;
    while i < quals.len()
        invariant
            i <= quals@.len(),
            qual_lookup(quals@.skip(i as int), prop@) == qual_lookup(quals@, prop@),
        decreases quals@.len() - i,
    {
        proof {
            assert(quals@.skip(i as int)[0] == quals@[i as int]);
            assert(quals@.skip(i as int).drop_first() =~= quals@.skip(i as int + 1));
        }
        if str_eq(quals[i].prop.as_str(), prop) {
            proof {
                assert(qual_lookup(quals@.skip(i as int), prop@) == Some(quals@[i as int].snaks@));
            }
            return Some(&quals[i].snaks);
        }
        i = i + 1;
    }
    proof {
        assert(quals@.skip(i as int) =~= Seq::<QualifierGroup>::empty());
    }
    None
}

/// Whether a statement's qualifiers hold at least one snak under `prop`.
pub fn has_qual(quals: &Vec<QualifierGroup>, prop: &str) -> (r: bool)
    ensures
        r == has_qualifier(quals@, prop@),
{
    match find_qualifier(quals, prop) {
        Some(snaks) => snaks.len() > 0,
        None => false,
    }
}

} // verus!
