//! The columns of the columnar export.
use std::sync::Arc;

use vstd::prelude::*;

use crate::columns::{self, new_field, new_schema, ColumnKind, FieldView};
use crate::text::{joined_text, same_text};

verus! {

/// A column that was asked for.
#[derive(Debug, Clone)]
pub struct ColumnSpec {
    pub name: String,
    pub kind: ColumnKind,
}

pub struct ColumnSpecView {
    pub name: Seq<char>,
    pub kind: ColumnKind,
}

/// Why the columns that were asked for cannot be had.
#[derive(Debug)]
pub enum ColumnError {
    /// The list is empty.
    NoColumns,
    /// A name is empty.
    EmptyName,
    /// `cik` is always there and cannot be asked for.
    CikRequested,
    /// The name stands in the list twice.
    Duplicate(String),
}

pub enum ColumnErrorView {
    NoColumns,
    EmptyName,
    CikRequested,
    Duplicate(Seq<char>),
}

impl View for ColumnSpec {
    type V = ColumnSpecView;

    open spec fn view(&self) -> ColumnSpecView {
        ColumnSpecView { name: self.name@, kind: self.kind }
    }
}

impl View for ColumnError {
    type V = ColumnErrorView;

    open spec fn view(&self) -> ColumnErrorView {
        match self {
            ColumnError::NoColumns => ColumnErrorView::NoColumns,
            ColumnError::EmptyName => ColumnErrorView::EmptyName,
            ColumnError::CikRequested => ColumnErrorView::CikRequested,
            ColumnError::Duplicate(name) => ColumnErrorView::Duplicate(name@),
        }
    }
}

/// The words for an error.
pub open spec fn column_message(error: ColumnErrorView) -> Seq<char> {
    match error {
        ColumnErrorView::NoColumns => "at least one submissions metadata column is required"@,
        ColumnErrorView::EmptyName => "submissions metadata column name cannot be empty"@,
        ColumnErrorView::CikRequested => "cik is always included and cannot be requested as a submissions metadata column"@,
        ColumnErrorView::Duplicate(name) => "duplicate submissions metadata column "@ + name,
    }
}

impl ColumnError {
    /// The words for the error.
    pub fn message(&self) -> (message: String)
        ensures
            message@ == column_message(self@),
    {
        match self {
            ColumnError::NoColumns => {
                "at least one submissions metadata column is required".to_owned()
            },
            ColumnError::EmptyName => {
                "submissions metadata column name cannot be empty".to_owned()
            },
            ColumnError::CikRequested => {
                "cik is always included and cannot be requested as a submissions metadata column".to_owned()
            },
            ColumnError::Duplicate(name) => joined_text(
                "duplicate submissions metadata column ",
                name.as_str(),
            ),
        }
    }
}

pub open spec fn specs_view(columns: Seq<ColumnSpec>) -> Seq<ColumnSpecView> {
    Seq::new(columns.len(), |i: int| columns[i]@)
}

pub open spec fn strings_view(strings: Seq<String>) -> Seq<Seq<char>> {
    Seq::new(strings.len(), |i: int| strings[i]@)
}

/// The names of the columns.
pub open spec fn names_of(columns: Seq<ColumnSpecView>) -> Seq<Seq<char>> {
    Seq::new(columns.len(), |i: int| columns[i].name)
}

/// The columns that are exported where none are asked for.
pub open spec fn default_names() -> Seq<Seq<char>> {
    seq![
        "accessionNumber"@,
        "filingDate"@,
        "reportDate"@,
        "acceptanceDateTime"@,
        "act"@,
        "form"@,
        "fileNumber"@,
        "filmNumber"@,
        "items"@,
        "core_type"@,
        "size"@,
        "isXBRL"@,
        "isInlineXBRL"@,
        "isXBRLNumeric"@,
        "primaryDocument"@,
        "primaryDocDescription"@,
    ]
}

/// The kind of the column of that name.
pub open spec fn kind_of(name: Seq<char>) -> ColumnKind {
    if name == "size"@ {
        ColumnKind::UInt64
    } else if name == "isXBRL"@ || name == "isInlineXBRL"@ || name == "isXBRLNumeric"@ {
        ColumnKind::Boolean
    } else {
        ColumnKind::Utf8
    }
}

/// What is wrong with a name behind those before it.
pub open spec fn name_fault(before: Seq<Seq<char>>, name: Seq<char>) -> Option<ColumnErrorView> {
    if name.len() == 0 {
        Some(ColumnErrorView::EmptyName)
    } else if name == "cik"@ {
        Some(ColumnErrorView::CikRequested)
    } else if before.contains(name) {
        Some(ColumnErrorView::Duplicate(name))
    } else {
        None
    }
}

/// What is wrong with the first name that cannot be had.
pub open spec fn first_fault(names: Seq<Seq<char>>) -> Option<ColumnErrorView>
    decreases names.len(),
{
    if names.len() == 0 {
        None
    } else {
        match first_fault(names.drop_last()) {
            Some(fault) => Some(fault),
            None => name_fault(names.drop_last(), names.last()),
        }
    }
}

/// The columns of those names, each with its kind.
pub open spec fn columns_named(names: Seq<Seq<char>>) -> Seq<ColumnSpecView> {
    Seq::new(names.len(), |i: int| ColumnSpecView { name: names[i], kind: kind_of(names[i]) })
}

/// The columns for a list of names.
pub open spec fn resolved(names: Seq<Seq<char>>) -> Result<Seq<ColumnSpecView>, ColumnErrorView> {
    if names.len() == 0 {
        Err(ColumnErrorView::NoColumns)
    } else {
        match first_fault(names) {
            Some(fault) => Err(fault),
            None => Ok(columns_named(names)),
        }
    }
}

/// The names that are asked for.
pub open spec fn requested_names(columns: Option<Vec<String>>) -> Seq<Seq<char>> {
    match columns {
        Some(names) => strings_view(names@),
        None => default_names(),
    }
}

pub open spec fn columns_result(result: Result<Vec<ColumnSpec>, ColumnError>) -> Result<
    Seq<ColumnSpecView>,
    ColumnErrorView,
> {
    match result {
        Ok(columns) => Ok(specs_view(columns@)),
        Err(error) => Err(error@),
    }
}

/// The fields of the schema: the filer's number, then the columns; no value is
/// ever absent.
pub open spec fn fields_of(columns: Seq<ColumnSpecView>) -> Seq<FieldView> {
    seq![FieldView { name: "cik"@, kind: Some(ColumnKind::UInt64), nullable: false }] + Seq::new(
        columns.len(),
        |i: int| FieldView { name: columns[i].name, kind: Some(columns[i].kind), nullable: false },
    )
}

/// No two default names are the same, none is empty, and none is `cik`.
proof fn lemma_default_names()
    ensures
        first_fault(default_names()) is None,
{
    reveal_strlit("cik");
    reveal_strlit("accessionNumber");
    reveal_strlit("filingDate");
    reveal_strlit("reportDate");
    reveal_strlit("acceptanceDateTime");
    reveal_strlit("act");
    reveal_strlit("form");
    reveal_strlit("fileNumber");
    reveal_strlit("filmNumber");
    reveal_strlit("items");
    reveal_strlit("core_type");
    reveal_strlit("size");
    reveal_strlit("isXBRL");
    reveal_strlit("isInlineXBRL");
    reveal_strlit("isXBRLNumeric");
    reveal_strlit("primaryDocument");
    reveal_strlit("primaryDocDescription");
    let names = default_names();
    let lengths = seq![15int, 10, 10, 18, 3, 4, 10, 10, 5, 9, 4, 6, 12, 13, 15, 21];
    assert(forall|i: int| 0 <= i < 16 ==> (#[trigger] names[i]).len() == lengths[i]);
    assert(names[0][0] != names[14][0]);
    assert(names[1][0] != names[2][0]);
    assert(names[1][3] != names[6][3]);
    assert(names[1][3] != names[7][3]);
    assert(names[2][0] != names[6][0]);
    assert(names[2][0] != names[7][0]);
    assert(names[6][3] != names[7][3]);
    assert(names[5][0] != names[10][0]);
    assert(names[4][0] != "cik"@[0]);
    assert forall|i: int, j: int| 0 <= i < j < names.len() implies names[i] != names[j] by {
        assert(names[i].len() == lengths[i]);
        assert(names[j].len() == lengths[j]);
    }
    assert forall|i: int| 0 <= i < names.len() implies (#[trigger] names[i]).len() > 0 && names[i]
        != "cik"@ by {
        assert(names[i].len() == lengths[i]);
    }
    lemma_no_fault(names);
}

/// Names that are distinct, not empty and not `cik` can be had.
pub proof fn lemma_no_fault(names: Seq<Seq<char>>)
    requires
        forall|i: int, j: int| 0 <= i < j < names.len() ==> names[i] != names[j],
        forall|i: int|
            0 <= i < names.len() ==> (#[trigger] names[i]).len() > 0 && names[i] != "cik"@,
    ensures
        first_fault(names) is None,
    decreases names.len(),
{
    if names.len() > 0 {
        lemma_no_fault(names.drop_last());
        if names.drop_last().contains(names.last()) {
            let i = choose|i: int| 0 <= i < names.len() - 1 && names.drop_last()[i] == names.last();
            assert(names[i] == names[names.len() - 1]);
        }
    }
}

/// The names can be had if and only if there is one, all are distinct, and none is
/// empty or `cik`.
pub proof fn law_columns_are_distinct_and_named(names: Seq<Seq<char>>)
    ensures
        resolved(names) is Ok <==> {
            &&& names.len() > 0
            &&& forall|i: int, j: int| 0 <= i < j < names.len() ==> names[i] != names[j]
            &&& forall|i: int|
                0 <= i < names.len() ==> (#[trigger] names[i]).len() > 0 && names[i] != "cik"@
        },
{
    if resolved(names) is Ok {
        lemma_no_fault_converse(names);
    } else if names.len() > 0 && (forall|i: int, j: int|
        0 <= i < j < names.len() ==> names[i] != names[j]) && (forall|i: int|
        0 <= i < names.len() ==> (#[trigger] names[i]).len() > 0 && names[i] != "cik"@) {
        lemma_no_fault(names);
    }
}

proof fn lemma_no_fault_converse(names: Seq<Seq<char>>)
    requires
        first_fault(names) is None,
    ensures
        forall|i: int, j: int| 0 <= i < j < names.len() ==> names[i] != names[j],
        forall|i: int|
            0 <= i < names.len() ==> (#[trigger] names[i]).len() > 0 && names[i] != "cik"@,
    decreases names.len(),
{
    if names.len() > 0 {
        let before = names.drop_last();
        lemma_no_fault_converse(before);
        assert forall|i: int, j: int| 0 <= i < j < names.len() implies names[i] != names[j] by {
            assert(names[i] == before[i]);
            if j < before.len() {
                assert(names[j] == before[j]);
            }
        }
        assert forall|i: int| 0 <= i < names.len() implies (#[trigger] names[i]).len() > 0
            && names[i] != "cik"@ by {
            if i < before.len() {
                assert(names[i] == before[i]);
            }
        }
    }
}

pub proof fn lemma_fault_persists(names: Seq<Seq<char>>, n: int)
    requires
        0 <= n <= names.len(),
        first_fault(names.take(n)) is Some,
    ensures
        first_fault(names) == first_fault(names.take(n)),
    decreases names.len() - n,
{
    if n < names.len() {
        assert(names.take(n + 1).drop_last() =~= names.take(n));
        lemma_fault_persists(names, n + 1);
    } else {
        assert(names.take(n) =~= names);
    }
}

/// The kind of the column of that name.
pub fn column_kind(column: &str) -> (kind: ColumnKind)
    ensures
        kind == kind_of(column@),
{
    if same_text(column, "size") {
        ColumnKind::UInt64
    } else if same_text(column, "isXBRL") || same_text(column, "isInlineXBRL") || same_text(
        column,
        "isXBRLNumeric",
    ) {
        ColumnKind::Boolean
    } else {
        ColumnKind::Utf8
    }
}

/// The columns that are exported where none are asked for.
pub fn default_columns() -> (names: Vec<String>)
    ensures
        strings_view(names@) == default_names(),
{
    let names = vec![
        "accessionNumber".to_owned(),
        "filingDate".to_owned(),
        "reportDate".to_owned(),
        "acceptanceDateTime".to_owned(),
        "act".to_owned(),
        "form".to_owned(),
        "fileNumber".to_owned(),
        "filmNumber".to_owned(),
        "items".to_owned(),
        "core_type".to_owned(),
        "size".to_owned(),
        "isXBRL".to_owned(),
        "isInlineXBRL".to_owned(),
        "isXBRLNumeric".to_owned(),
        "primaryDocument".to_owned(),
        "primaryDocDescription".to_owned(),
    ];
    assert(strings_view(names@) =~= default_names());
    names
}

/// Whether one of the columns has that name.
fn is_named(columns: &Vec<ColumnSpec>, name: &str) -> (found: bool)
    ensures
        found == names_of(specs_view(columns@)).contains(name@),
{
    let ghost names = names_of(specs_view(columns@));
    let mut i: usize = 0;
    while i < columns.len()
        invariant
            i <= columns.len(),
            names == names_of(specs_view(columns@)),
            forall|j: int| 0 <= j < i ==> names[j] != name@,
        decreases columns.len() - i,
    {
        assert(names[i as int] == columns@[i as int].name@);
        if same_text(columns[i].name.as_str(), name) {
            return true;
        }
        i += 1;
    }
    false
}

/// The columns for a list of names, or the default ones.
pub fn resolve_columns(columns: Option<Vec<String>>) -> (result: Result<
    Vec<ColumnSpec>,
    ColumnError,
>)
    ensures
        columns_result(result) == resolved(requested_names(columns)),
        columns is None ==> result is Ok,
{
    let ghost names = requested_names(columns);
    let wanted = match columns {
        Some(names) => names,
        None => {
            proof {
                lemma_default_names();
            }
            default_columns()
        },
    };
    if wanted.len() == 0 {
        return Err(ColumnError::NoColumns);
    }
    let mut resolved_columns: Vec<ColumnSpec> = Vec::with_capacity(wanted.len());
    let mut i: usize = 0;
    while i < wanted.len()
        invariant
            i <= wanted.len(),
            names.len() > 0,
            names == requested_names(columns),
            names == strings_view(wanted@),
            columns is None ==> first_fault(names) is None,
            first_fault(names.take(i as int)) is None,
            specs_view(resolved_columns@) == columns_named(names.take(i as int)),
        decreases wanted.len() - i,
    {
        let ghost before = names.take(i as int);
        let ghost upto = names.take(i + 1);
        proof {
            assert(upto.drop_last() =~= before);
            assert(upto.last() == wanted@[i as int]@);
            assert(names_of(specs_view(resolved_columns@)) =~= before);
            if first_fault(upto) is Some {
                lemma_fault_persists(names, i + 1);
            }
        }
        let column = wanted[i].as_str();
        if column.unicode_len() == 0 {
            return Err(ColumnError::EmptyName);
        }
        if same_text(column, "cik") {
            return Err(ColumnError::CikRequested);
        }
        if is_named(&resolved_columns, column) {
            return Err(ColumnError::Duplicate(column.to_owned()));
        }
        let ghost earlier = resolved_columns@;
        resolved_columns.push(ColumnSpec { name: column.to_owned(), kind: column_kind(column) });
        proof {
            assert(specs_view(resolved_columns@) =~= specs_view(earlier).push(
                ColumnSpecView { name: column@, kind: kind_of(column@) },
            ));
            assert(columns_named(upto) =~= columns_named(before).push(
                ColumnSpecView { name: column@, kind: kind_of(column@) },
            ));
        }
        i += 1;
    }
    assert(names.take(i as int) =~= names);
    Ok(resolved_columns)
}

/// The names of the columns.
pub fn column_names(columns: &[ColumnSpec]) -> (names: Vec<&str>)
    ensures
        names@.len() == columns@.len(),
        forall|i: int| 0 <= i < names@.len() ==> (#[trigger] names@[i])@ == columns@[i].name@,
{
    let mut names: Vec<&str> = Vec::with_capacity(columns.len());
    let mut i: usize = 0;
    while i < columns.len()
        invariant
            i <= columns.len(),
            names@.len() == i,
            forall|j: int| 0 <= j < i ==> (#[trigger] names@[j])@ == columns@[j].name@,
        decreases columns.len() - i,
    {
        names.push(columns[i].name.as_str());
        i += 1;
    }
    names
}

/// The schema of the batches.
pub fn submissions_schema(columns: &[ColumnSpec]) -> (schema: Arc<arrow_schema::Schema>)
    ensures
        columns::schema_fields(*schema) == fields_of(specs_view(columns@)),
{
    let ghost expected = fields_of(specs_view(columns@));
    let mut fields: Vec<arrow_schema::Field> = Vec::new();
    fields.push(new_field("cik", ColumnKind::UInt64, false));
    let mut i: usize = 0;
    while i < columns.len()
        invariant
            i <= columns.len(),
            expected == fields_of(specs_view(columns@)),
            fields@.len() == i + 1,
            forall|j: int|
                0 <= j <= i ==> columns::field_of(#[trigger] fields@[j]) == expected[j],
        decreases columns.len() - i,
    {
        fields.push(new_field(columns[i].name.as_str(), columns[i].kind, false));
        i += 1;
    }
    let ghost built = fields@;
    let schema = new_schema(fields);
    assert(Seq::new(built.len(), |j: int| columns::field_of(built[j])) =~= expected);
    Arc::new(schema)
}

} // verus!
