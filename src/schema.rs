//! Declarative field specifications and the mapping of one record to one row.
use vstd::prelude::*;
use crate::record::{FieldTree, RawRecord, child_spec, resolve, resolve_spec};
use crate::text::{parse_u64, parse_u64_spec};

verus! {

/// The declared type of a column.
#[derive(Clone, Copy, PartialEq, Eq, Structural)]
pub enum FieldKind {
    UnsignedInteger,
    Text,
}

/// What a field holds when its path does not resolve or its value does not
/// coerce to the declared type.
#[derive(Clone, Copy, PartialEq, Eq, Structural)]
pub enum DefaultPolicy {
    UseNull,
    UseEmptyString,
}

/// Where a field's value comes from.
pub enum FieldSource {
    /// The record's own identifier; never defaulted.
    RecordId,
    /// A sequence of keys into the record's field tree.
    Path(Vec<String>),
}

/// One column of a schema.
pub struct FieldSpec {
    pub name: String,
    pub source: FieldSource,
    pub kind: FieldKind,
    pub nullable: bool,
    pub policy: DefaultPolicy,
}

/// A typed cell value.
pub enum Value {
    Null,
    Text(String),
    UInt(u64),
}

/// The mathematical content of a cell.
pub enum Cell {
    Null,
    Text(Seq<char>),
    UInt(u64),
}

impl View for Value {
    type V = Cell;

    open spec fn view(&self) -> Cell {
        match self {
            Value::Null => Cell::Null,
            Value::Text(s) => Cell::Text(s@),
            Value::UInt(n) => Cell::UInt(*n),
        }
    }
}

/// The content of a field source: the record identifier, or the keys of a
/// path.
pub enum SourceModel {
    RecordId,
    Path(Seq<Seq<char>>),
}

/// The content of a field specification.
pub struct FieldModel {
    pub name: Seq<char>,
    pub source: SourceModel,
    pub kind: FieldKind,
    pub nullable: bool,
    pub policy: DefaultPolicy,
}

/// The keys of a path.
pub open spec fn keys_of(p: Seq<String>) -> Seq<Seq<char>> {
    p.map_values(|k: String| k@)
}

impl View for FieldSpec {
    type V = FieldModel;

    open spec fn view(&self) -> FieldModel {
        FieldModel {
            name: self.name@,
            source: match self.source {
                FieldSource::RecordId => SourceModel::RecordId,
                FieldSource::Path(p) => SourceModel::Path(keys_of(p@)),
            },
            kind: self.kind,
            nullable: self.nullable,
            policy: self.policy,
        }
    }
}

/// The content of a schema, field by field.
pub open spec fn schema_model(schema: Seq<FieldSpec>) -> Seq<FieldModel> {
    schema.map_values(|f: FieldSpec| f@)
}

impl FieldSpec {
    /// A field is consistent when its values fit its column: the record
    /// identifier needs an unsigned-integer column; for a path field, a null
    /// default needs a nullable column and an empty-string default a text
    /// column.
    pub open spec fn wf(&self) -> bool {
        match self.source {
            FieldSource::RecordId => self.kind == FieldKind::UnsignedInteger,
            FieldSource::Path(_) => {
                &&& (self.policy == DefaultPolicy::UseNull ==> self.nullable)
                &&& (self.policy == DefaultPolicy::UseEmptyString ==> self.kind == FieldKind::Text)
            },
        }
    }
}

/// Every field of the schema is consistent.
pub open spec fn schema_wf(schema: Seq<FieldSpec>) -> bool {
    forall|i: int| 0 <= i < schema.len() ==> (#[trigger] schema[i]).wf()
}

/// The value a default policy supplies.
pub open spec fn default_cell(p: DefaultPolicy) -> Cell {
    match p {
        DefaultPolicy::UseNull => Cell::Null,
        DefaultPolicy::UseEmptyString => Cell::Text(Seq::empty()),
    }
}

/// The cell that field `f` takes from record `rec`.
pub open spec fn map_field_spec(rec: RawRecord, f: FieldSpec) -> Cell {
    match f.source {
        FieldSource::RecordId => Cell::UInt(rec.id),
        FieldSource::Path(p) => match resolve_spec(rec.data, p@) {
            Some(FieldTree::Text(s)) => match f.kind {
                FieldKind::Text => Cell::Text(s@),
                FieldKind::UnsignedInteger => match parse_u64_spec(s@) {
                    Some(n) => Cell::UInt(n),
                    None => default_cell(f.policy),
                },
            },
            _ => default_cell(f.policy),
        },
    }
}

/// The row that `schema` takes from record `rec`: one cell per field.
pub open spec fn map_row_spec(rec: RawRecord, schema: Seq<FieldSpec>) -> Seq<Cell> {
    Seq::new(schema.len(), |i: int| map_field_spec(rec, schema[i]))
}

/// The cell a default policy supplies.
pub fn default_value(p: DefaultPolicy) -> (r: Value)
    ensures
        r@ == default_cell(p),
{
    match p {
        DefaultPolicy::UseNull => Value::Null,
        DefaultPolicy::UseEmptyString => Value::Text(String::new()),
    }
}

/// Extracts field `f` from record `rec`, falling back to its default policy.
pub fn map_field(rec: &RawRecord, f: &FieldSpec) -> (r: Value)
    ensures
        r@ == map_field_spec(*rec, *f),
{
    match &f.source {
        FieldSource::RecordId => Value::UInt(rec.id),
        FieldSource::Path(p) => match resolve(&rec.data, p) {
            Some(FieldTree::Text(s)) => match f.kind {
                FieldKind::Text => Value::Text(s.clone()),
                FieldKind::UnsignedInteger => match parse_u64(s.as_str()) {
                    Some(n) => Value::UInt(n),
                    None => default_value(f.policy),
                },
            },
            _ => default_value(f.policy),
        },
    }
}

/// Maps one record to one row, one cell per field in schema order.
pub fn map_row(rec: &RawRecord, schema: &Vec<FieldSpec>) -> (r: Vec<Value>)
    ensures
        r@.len() == schema@.len(),
        forall|i: int| 0 <= i < schema@.len() ==> (#[trigger] r@[i])@ == map_field_spec(*rec, schema@[i]),
{
    let mut row: Vec<Value> = Vec::new();
    let mut i: usize = 0;
    while i < schema.len()
        invariant
            0 <= i <= schema@.len(),
            row@.len() == i,
            forall|k: int| 0 <= k < i ==> (#[trigger] row@[k])@ == map_field_spec(*rec, schema@[k]),
        decreases schema@.len() - i,
    {
        row.push(map_field(rec, &schema[i]));
        i = i + 1;
    }
    row
}

/// Checks that every field of the schema is consistent.
pub fn validate_schema(schema: &Vec<FieldSpec>) -> (r: bool)
    ensures
        r == schema_wf(schema@),
{
    let mut i: usize = 0;
    while i < schema.len()
        invariant
            0 <= i <= schema@.len(),
            forall|k: int| 0 <= k < i ==> (#[trigger] schema@[k]).wf(),
        decreases schema@.len() - i,
    {
        let f = &schema[i];
        let ok = match f.source {
            FieldSource::RecordId => match f.kind {
                FieldKind::UnsignedInteger => true,
                FieldKind::Text => false,
            },
            FieldSource::Path(_) => match f.policy {
                DefaultPolicy::UseNull => f.nullable,
                DefaultPolicy::UseEmptyString => match f.kind {
                    FieldKind::Text => true,
                    FieldKind::UnsignedInteger => false,
                },
            },
        };
        if !ok {
            return false;
        }
        i = i + 1;
    }
    true
}

/// A text field read from `Event/<section>/<key>`: nullable fields default
/// to null, the others to the empty string.
pub open spec fn event_model(name: Seq<char>, section: Seq<char>, key: Seq<char>, nullable: bool) -> FieldModel {
    FieldModel {
        name,
        source: SourceModel::Path(seq!["Event"@, section, key]),
        kind: FieldKind::Text,
        nullable,
        policy: if nullable {
            DefaultPolicy::UseNull
        } else {
            DefaultPolicy::UseEmptyString
        },
    }
}

/// The schema of security-audit events: seventeen text columns read from the
/// `System` and `EventData` sections of each event, of which only the process
/// name and the subject user name are nullable, then the record identifier.
pub open spec fn standard_schema() -> Seq<FieldModel> {
    seq![
        event_model("eventid"@, "System"@, "EventID"@, false),
        event_model("processname"@, "EventData"@, "ProcessName"@, true),
        event_model("subjectusername"@, "EventData"@, "SubjectUserName"@, true),
        event_model("accessmaskname"@, "EventData"@, "AccessMask"@, false),
        event_model("newprocessname"@, "EventData"@, "NewProcessName"@, false),
        event_model("parentprocessname"@, "EventData"@, "ParentProcessName"@, false),
        event_model("handleid"@, "EventData"@, "HandleId"@, false),
        event_model("objectname"@, "EventData"@, "ObjectName"@, false),
        event_model("objectserver"@, "EventData"@, "ObjectServer"@, false),
        event_model("objecttype"@, "EventData"@, "ObjectType"@, false),
        event_model("priviligelist"@, "EventData"@, "PriviligeList"@, false),
        event_model("processid"@, "EventData"@, "ProcessId"@, false),
        event_model("subjectdomainname"@, "EventData"@, "SubjectDomainName"@, false),
        event_model("subjectlogonid"@, "EventData"@, "SubjectLoginId"@, false),
        event_model("subjectusersid"@, "EventData"@, "SubjectUserSid"@, false),
        event_model("channel"@, "System"@, "Channel"@, false),
        event_model("computer"@, "System"@, "Computer"@, false),
        FieldModel {
            name: "id"@,
            source: SourceModel::RecordId,
            kind: FieldKind::UnsignedInteger,
            nullable: false,
            policy: DefaultPolicy::UseNull,
        },
    ]
}

fn event_field(name: &str, section: &str, key: &str, nullable: bool) -> (r: FieldSpec)
    ensures
        r@ == event_model(name@, section@, key@, nullable),
        r.wf(),
{
    let policy = if nullable {
        DefaultPolicy::UseNull
    } else {
        DefaultPolicy::UseEmptyString
    };
    let path = vec!["Event".to_owned(), section.to_owned(), key.to_owned()];
    let r = FieldSpec {
        name: name.to_owned(),
        source: FieldSource::Path(path),
        kind: FieldKind::Text,
        nullable,
        policy,
    };
    assert(keys_of(path@) =~= seq!["Event"@, section@, key@]);
    r
}

/// The standard schema of security-audit events.
pub fn get_schema() -> (r: Vec<FieldSpec>)
    ensures
        schema_model(r@) == standard_schema(),
        schema_wf(r@),
{
    let id = FieldSpec {
        name: "id".to_owned(),
        source: FieldSource::RecordId,
        kind: FieldKind::UnsignedInteger,
        nullable: false,
        policy: DefaultPolicy::UseNull,
    };
    let r = vec![
        event_field("eventid", "System", "EventID", false),
        event_field("processname", "EventData", "ProcessName", true),
        event_field("subjectusername", "EventData", "SubjectUserName", true),
        event_field("accessmaskname", "EventData", "AccessMask", false),
        event_field("newprocessname", "EventData", "NewProcessName", false),
        event_field("parentprocessname", "EventData", "ParentProcessName", false),
        event_field("handleid", "EventData", "HandleId", false),
        event_field("objectname", "EventData", "ObjectName", false),
        event_field("objectserver", "EventData", "ObjectServer", false),
        event_field("objecttype", "EventData", "ObjectType", false),
        event_field("priviligelist", "EventData", "PriviligeList", false),
        event_field("processid", "EventData", "ProcessId", false),
        event_field("subjectdomainname", "EventData", "SubjectDomainName", false),
        event_field("subjectlogonid", "EventData", "SubjectLoginId", false),
        event_field("subjectusersid", "EventData", "SubjectUserSid", false),
        event_field("channel", "System", "Channel", false),
        event_field("computer", "System", "Computer", false),
        id,
    ];
    assert(schema_model(r@) =~= standard_schema());
    r
}

proof fn lemma_resolve_by_keys(t: FieldTree, p1: Seq<String>, p2: Seq<String>)
    requires
        keys_of(p1) == keys_of(p2),
    ensures
        resolve_spec(t, p1) == resolve_spec(t, p2),
    decreases p1.len(),
{
    assert(p1.len() == keys_of(p1).len() && p2.len() == keys_of(p2).len());
    if p1.len() > 0 {
        assert(p1[0]@ == keys_of(p1)[0] && p2[0]@ == keys_of(p2)[0]);
        assert(keys_of(p1.drop_first()) =~= keys_of(p1).drop_first());
        assert(keys_of(p2.drop_first()) =~= keys_of(p2).drop_first());
        match t {
            FieldTree::Node(entries) => match child_spec(entries@, p1[0]@) {
                Some(c) => lemma_resolve_by_keys(c, p1.drop_first(), p2.drop_first()),
                None => {},
            },
            _ => {},
        }
    }
}

/// A field's cells depend only on its content: two fields with the same
/// content take the same cell from every record.
pub proof fn map_field_by_content(rec: RawRecord, f1: FieldSpec, f2: FieldSpec)
    requires
        f1@ == f2@,
    ensures
        map_field_spec(rec, f1) == map_field_spec(rec, f2),
{
    match (f1.source, f2.source) {
        (FieldSource::Path(p1), FieldSource::Path(p2)) => {
            lemma_resolve_by_keys(rec.data, p1@, p2@);
        },
        _ => {},
    }
}

} // verus!
