//! Scanning a dataset as a foreign table.
use crate::fdw::namespace_walk::TableId;
use crate::json;
use crate::numbers;
use crate::order;
use crate::text;
use vstd::prelude::*;

verus! {

// ---------------------------------------------------------------------------
// Errors
// ---------------------------------------------------------------------------

/// The SQL state of a scan's error.
#[derive(Clone, Copy, PartialEq, Eq, Structural, Debug)]
pub enum ErrorCode {
    InvalidOptionName,
    UnableToCreateExecution,
    TableNotFound,
    ColumnNameNotFound,
    InvalidDataTypeDescriptors,
    InvalidDataType,
    InconsistentDescriptorInformation,
    FdwError,
}

/// An error of a scan: its SQL state, message and detail.
#[derive(Debug)]
pub struct ScanError {
    pub code: ErrorCode,
    pub message: String,
    pub detail: String,
}

/// An error of a scan with its texts as sequences of characters.
pub ghost struct Fault {
    pub code: ErrorCode,
    pub message: Seq<char>,
    pub detail: Seq<char>,
}

impl DeepView for ScanError {
    type V = Fault;

    open spec fn deep_view(&self) -> Fault {
        Fault { code: self.code, message: self.message@, detail: self.detail@ }
    }
}

/// Why a value or a type of the dataset has no counterpart in the foreign table.
#[derive(Clone, Copy, PartialEq, Eq, Structural, Debug)]
pub enum ConvertErrorKind {
    TypeMismatch,
    UnsupportedType,
    ValueOutOfRange,
    Internal,
}

/// A failed conversion, or a column type that cannot be converted: the names of the two types and
/// the text of the error.
#[derive(Debug)]
pub struct ConvertFailure {
    pub kind: ConvertErrorKind,
    pub arrow_type: String,
    pub pg_type: String,
    pub error: String,
}

/// A failed conversion with its texts as sequences of characters.
pub ghost struct Failure {
    pub kind: ConvertErrorKind,
    pub arrow_type: Seq<char>,
    pub pg_type: Seq<char>,
    pub error: Seq<char>,
}

impl DeepView for ConvertFailure {
    type V = Failure;

    open spec fn deep_view(&self) -> Failure {
        Failure {
            kind: self.kind,
            arrow_type: self.arrow_type@,
            pg_type: self.pg_type@,
            error: self.error@,
        }
    }
}

/// What a scan was doing when a conversion failed.
#[derive(Clone, Copy, PartialEq, Eq, Structural, Debug)]
pub enum Phase {
    Validation,
    Conversion,
}

/// The SQL state of a failed conversion.
pub open spec fn convert_code(kind: ConvertErrorKind) -> ErrorCode {
    match kind {
        ConvertErrorKind::TypeMismatch => ErrorCode::InvalidDataTypeDescriptors,
        ConvertErrorKind::UnsupportedType => ErrorCode::InvalidDataType,
        ConvertErrorKind::ValueOutOfRange => ErrorCode::InvalidDataType,
        ConvertErrorKind::Internal => ErrorCode::FdwError,
    }
}

/// The message of a failed conversion.
pub open spec fn convert_message(kind: ConvertErrorKind, phase: Phase) -> Seq<char> {
    match kind {
        ConvertErrorKind::TypeMismatch =>
            "column type mismatch between foreign table and dataset schema"@,
        ConvertErrorKind::UnsupportedType => "unsupported column type for lance_fdw"@,
        ConvertErrorKind::ValueOutOfRange => "unsupported column type for lance_fdw"@,
        ConvertErrorKind::Internal => match phase {
            Phase::Validation => "internal lance_fdw schema validation error"@,
            Phase::Conversion => "internal lance_fdw conversion error"@,
        },
    }
}

/// The error for a column whose type or value could not be converted.
pub open spec fn convert_fault(
    label: Seq<char>,
    column: Seq<char>,
    failure: Failure,
    phase: Phase,
) -> Fault {
    Fault {
        code: convert_code(failure.kind),
        message: convert_message(failure.kind, phase),
        detail: label + " column="@ + column + " arrow_type="@ + failure.arrow_type + " pg_type="@
            + failure.pg_type + " error="@ + failure.error,
    }
}

fn convert_error(label: &str, column: &str, failure: &ConvertFailure, phase: Phase) -> (e: ScanError)
    ensures
        e.deep_view() == convert_fault(label@, column@, failure.deep_view(), phase),
{
    let code: ErrorCode = match failure.kind {
        ConvertErrorKind::TypeMismatch => ErrorCode::InvalidDataTypeDescriptors,
        ConvertErrorKind::UnsupportedType => ErrorCode::InvalidDataType,
        ConvertErrorKind::ValueOutOfRange => ErrorCode::InvalidDataType,
        ConvertErrorKind::Internal => ErrorCode::FdwError,
    };
    let message = match failure.kind {
        ConvertErrorKind::TypeMismatch =>
            "column type mismatch between foreign table and dataset schema".to_owned(),
        ConvertErrorKind::UnsupportedType => "unsupported column type for lance_fdw".to_owned(),
        ConvertErrorKind::ValueOutOfRange => "unsupported column type for lance_fdw".to_owned(),
        ConvertErrorKind::Internal => match phase {
            Phase::Validation => "internal lance_fdw schema validation error".to_owned(),
            Phase::Conversion => "internal lance_fdw conversion error".to_owned(),
        },
    };
    let mut detail = label.to_owned();
    detail.append(" column=");
    detail.append(column);
    detail.append(" arrow_type=");
    detail.append(failure.arrow_type.as_str());
    detail.append(" pg_type=");
    detail.append(failure.pg_type.as_str());
    detail.append(" error=");
    detail.append(failure.error.as_str());
    ScanError { code, message, detail }
}

/// A failure of the work around a scan, with the text of its error.
#[derive(Debug)]
pub enum ScanFailure {
    Options { relation_oid: u32, error: String },
    Runtime { error: String },
    OpenUri { uri: String, error: String },
    NamespaceOptions { server_oid: u32, error: String },
    OpenNamespace { label: String, error: String },
    Stream { label: String, error: String },
    NextBatch { label: String, error: String },
}

/// The error for a failure of the work around a scan.
pub open spec fn failure_fault(failure: ScanFailure) -> Fault {
    match failure {
        ScanFailure::Options { relation_oid, error } => Fault {
            code: ErrorCode::InvalidOptionName,
            message: "invalid foreign table options"@,
            detail: "relation_oid="@ + text::decimal(relation_oid as nat) + " error="@ + error@,
        },
        ScanFailure::Runtime { error } => Fault {
            code: ErrorCode::UnableToCreateExecution,
            message: "failed to create tokio runtime"@,
            detail: "error="@ + error@,
        },
        ScanFailure::OpenUri { uri, error } => Fault {
            code: ErrorCode::TableNotFound,
            message: "failed to open lance dataset"@,
            detail: "uri="@ + uri@ + " error="@ + error@,
        },
        ScanFailure::NamespaceOptions { server_oid, error } => Fault {
            code: ErrorCode::InvalidOptionName,
            message: "invalid namespace server options"@,
            detail: "server_oid="@ + text::decimal(server_oid as nat) + " error="@ + error@,
        },
        ScanFailure::OpenNamespace { label, error } => Fault {
            code: ErrorCode::TableNotFound,
            message: "failed to open lance dataset via namespace"@,
            detail: label@ + " error="@ + error@,
        },
        ScanFailure::Stream { label, error } => Fault {
            code: ErrorCode::UnableToCreateExecution,
            message: "failed to create scanner stream"@,
            detail: label@ + " error="@ + error@,
        },
        ScanFailure::NextBatch { label, error } => Fault {
            code: ErrorCode::FdwError,
            message: "failed to read next record batch"@,
            detail: label@ + " error="@ + error@,
        },
    }
}

fn scan_error(code: ErrorCode, message: &str, subject: &str, error: &str) -> (e: ScanError)
    ensures
        e.deep_view() == (Fault { code, message: message@, detail: subject@ + " error="@ + error@ }),
{
    let mut detail = subject.to_owned();
    detail.append(" error=");
    detail.append(error);
    ScanError { code, message: message.to_owned(), detail }
}

/// The error for a failure of the work around a scan.
pub fn report(failure: &ScanFailure) -> (e: ScanError)
    ensures
        e.deep_view() == failure_fault(*failure),
{
    match failure {
        ScanFailure::Options { relation_oid, error } => {
            let mut subject = "relation_oid=".to_owned();
            subject.append(text::decimal_text(*relation_oid as u128).as_str());
            scan_error(
                ErrorCode::InvalidOptionName,
                "invalid foreign table options",
                subject.as_str(),
                error.as_str(),
            )
        },
        ScanFailure::Runtime { error } => {
            let mut detail = "error=".to_owned();
            detail.append(error.as_str());
            ScanError {
                code: ErrorCode::UnableToCreateExecution,
                message: "failed to create tokio runtime".to_owned(),
                detail,
            }
        },
        ScanFailure::OpenUri { uri, error } => {
            let mut subject = "uri=".to_owned();
            subject.append(uri.as_str());
            scan_error(
                ErrorCode::TableNotFound,
                "failed to open lance dataset",
                subject.as_str(),
                error.as_str(),
            )
        },
        ScanFailure::NamespaceOptions { server_oid, error } => {
            let mut subject = "server_oid=".to_owned();
            subject.append(text::decimal_text(*server_oid as u128).as_str());
            scan_error(
                ErrorCode::InvalidOptionName,
                "invalid namespace server options",
                subject.as_str(),
                error.as_str(),
            )
        },
        ScanFailure::OpenNamespace { label, error } => scan_error(
            ErrorCode::TableNotFound,
            "failed to open lance dataset via namespace",
            label.as_str(),
            error.as_str(),
        ),
        ScanFailure::Stream { label, error } => scan_error(
            ErrorCode::UnableToCreateExecution,
            "failed to create scanner stream",
            label.as_str(),
            error.as_str(),
        ),
        ScanFailure::NextBatch { label, error } => scan_error(
            ErrorCode::FdwError,
            "failed to read next record batch",
            label.as_str(),
            error.as_str(),
        ),
    }
}

/// The name of a type, given the name that the catalog has for it: `oid` and its number where the
/// catalog has none.
pub fn pg_type_name(formatted: Option<String>, oid: u32) -> (name: String)
    ensures
        name@ == (match formatted.deep_view() {
            Some(found) => found,
            None => "oid "@ + text::decimal(oid as nat),
        }),
{
    match formatted {
        Some(found) => found,
        None => {
            let mut name = "oid ".to_owned();
            name.append(text::decimal_text(oid as u128).as_str());
            name
        },
    }
}

// ---------------------------------------------------------------------------
// The columns of a scan
// ---------------------------------------------------------------------------

/// Whether the executor only wants the plan explained, by its flags.
pub open spec fn wants_plan_only(eflags: i32) -> bool {
    eflags % 2 == 1
}

/// Whether the executor only wants the plan explained: bit 0 of its flags.
pub fn explain_only(eflags: i32) -> (b: bool)
    ensures
        b == wants_plan_only(eflags),
        b == (eflags % 2 == 1),
{
    (eflags as i64 + 0x1_0000_0000) as u64 % 2 == 1
}

/// An attribute of the foreign table: its type, and its name unless it was dropped.
#[derive(Debug)]
pub struct Attribute {
    pub type_oid: u32,
    pub name: Option<String>,
}

/// An attribute with its name as a sequence of characters.
pub ghost struct AttributeModel {
    pub type_oid: u32,
    pub name: Option<Seq<char>>,
}

impl DeepView for Attribute {
    type V = AttributeModel;

    open spec fn deep_view(&self) -> AttributeModel {
        AttributeModel { type_oid: self.type_oid, name: self.name.deep_view() }
    }
}

/// The position of the last field with the given name.
pub open spec fn field_position(fields: Seq<Seq<char>>, name: Seq<char>) -> Option<nat>
    decreases fields.len(),
{
    if fields.len() == 0 {
        None
    } else if fields.last() == name {
        Some((fields.len() - 1) as nat)
    } else {
        field_position(fields.drop_last(), name)
    }
}

/// The position of a field as a machine number.
pub open spec fn position(p: Option<usize>) -> Option<nat> {
    match p {
        Some(i) => Some(i as nat),
        None => None,
    }
}

/// The positions of fields as machine numbers.
pub open spec fn positions(p: Seq<Option<usize>>) -> Seq<Option<nat>> {
    p.map_values(|one: Option<usize>| position(one))
}

/// The position of the last field with the given name.
pub fn find_field(fields: &[String], name: &str) -> (p: Option<usize>)
    ensures
        position(p) == field_position(fields.deep_view(), name@),
        p matches Some(i) ==> i < fields@.len(),
{
    let ghost all = fields.deep_view();
    assert(all.len() == fields@.len());
    assert(all.take(all.len() as int) =~= all);
    let mut i: usize = fields.len();
    while i > 0
        invariant
            all == fields.deep_view(),
            all.len() == fields@.len(),
            i <= fields@.len(),
            field_position(all.take(i as int), name@) == field_position(all, name@),
        decreases i,
    {
        i -= 1;
        assert(all[i as int] == fields@[i as int]@);
        assert(all.take(i + 1).drop_last() =~= all.take(i as int));
        if fields[i].as_str().eq(name) {
            return Some(i);
        }
    }
    None
}

/// The field behind each attribute: for an attribute that was not dropped, the last field of its
/// name.
pub open spec fn located(attributes: Seq<AttributeModel>, fields: Seq<Seq<char>>) -> Seq<
    Option<nat>,
> {
    attributes.map_values(
        |attribute: AttributeModel|
            match attribute.name {
                Some(name) => field_position(fields, name),
                None => None,
            },
    )
}

/// The field behind each attribute.
pub fn locate_columns(attributes: &[Attribute], fields: &[String]) -> (r: Vec<Option<usize>>)
    ensures
        positions(r@) == located(attributes.deep_view(), fields.deep_view()),
        forall|i: int| 0 <= i < r@.len() ==> (#[trigger] r@[i] matches Some(p) ==> p < fields@.len()),
{
    let ghost all = attributes.deep_view();
    let ghost names = fields.deep_view();
    let mut r: Vec<Option<usize>> = Vec::new();
    for i in 0..attributes.len()
        invariant
            all == attributes.deep_view(),
            names == fields.deep_view(),
            positions(r@) == located(all.take(i as int), names),
            forall|j: int| 0 <= j < r@.len() ==> (#[trigger] r@[j] matches Some(p) ==> p
                < fields@.len()),
    {
        assert(all[i as int] == attributes@[i as int].deep_view());
        let ghost before = r@;
        let found: Option<usize> = match &attributes[i].name {
            Some(name) => find_field(fields, name.as_str()),
            None => None,
        };
        r.push(found);
        assert(positions(r@) =~= positions(before).push(position(found)));
        assert(located(all.take(i + 1), names) =~= located(all.take(i as int), names).push(
            match all[i as int].name {
                Some(name) => field_position(names, name),
                None => None,
            },
        ));
    }
    assert(all.take(all.len() as int) =~= all);
    r
}

/// The error at one attribute, if any: its column is not in the dataset, or the column's type was
/// found not to fit.
pub open spec fn attribute_fault(
    label: Seq<char>,
    attribute: AttributeModel,
    fields: Seq<Seq<char>>,
    verdict: Option<Failure>,
) -> Option<Fault> {
    match attribute.name {
        None => None,
        Some(name) => if field_position(fields, name) is None {
            Some(
                Fault {
                    code: ErrorCode::ColumnNameNotFound,
                    message: "column not found in lance dataset schema"@,
                    detail: label + " column="@ + name + " dataset_columns="@ + text::joined(
                        fields,
                        ","@,
                    ),
                },
            )
        } else {
            match verdict {
                None => None,
                Some(failure) => Some(convert_fault(label, name, failure, Phase::Validation)),
            }
        },
    }
}

/// The first error among the attributes, if any.
pub open spec fn first_fault(
    label: Seq<char>,
    attributes: Seq<AttributeModel>,
    fields: Seq<Seq<char>>,
    verdicts: Seq<Option<Failure>>,
) -> Option<Fault>
    decreases attributes.len(),
{
    if attributes.len() == 0 {
        None
    } else {
        let n = attributes.len() - 1;
        match first_fault(label, attributes.drop_last(), fields, verdicts) {
            Some(fault) => Some(fault),
            None => attribute_fault(label, attributes[n], fields, verdicts[n]),
        }
    }
}

fn check_attribute(
    label: &str,
    attribute: &Attribute,
    fields: &[String],
    verdict: &Option<ConvertFailure>,
) -> (e: Option<ScanError>)
    ensures
        e.deep_view() == attribute_fault(
            label@,
            attribute.deep_view(),
            fields.deep_view(),
            verdict.deep_view(),
        ),
{
    match &attribute.name {
        None => None,
        Some(name) => {
            if find_field(fields, name.as_str()).is_none() {
                let mut detail = label.to_owned();
                detail.append(" column=");
                detail.append(name.as_str());
                detail.append(" dataset_columns=");
                detail.append(text::join_texts(fields, ",").as_str());
                return Some(
                    ScanError {
                        code: ErrorCode::ColumnNameNotFound,
                        message: "column not found in lance dataset schema".to_owned(),
                        detail,
                    },
                );
            }
            match verdict {
                None => None,
                Some(failure) => Some(
                    convert_error(label, name.as_str(), failure, Phase::Validation),
                ),
            }
        },
    }
}

// ---------------------------------------------------------------------------
// The scan
// ---------------------------------------------------------------------------

/// The state of a scan: its label, its attributes, the field behind each of them, how many rows
/// the current batch has, and how many of them were handed out.
pub struct LanceScanState {
    label: String,
    attributes: Vec<Attribute>,
    att_to_batch_col: Vec<Option<usize>>,
    current_batch: Option<usize>,
    current_row: usize,
}

/// The state of a scan.
pub ghost struct Scan {
    pub label: Seq<char>,
    pub attributes: Seq<AttributeModel>,
    pub columns: Seq<Option<nat>>,
    pub cursor: Cursor,
}

/// Where a scan stands within its current batch.
pub ghost struct Cursor {
    pub batch: Option<nat>,
    pub row: nat,
}

/// What a scan does next.
#[derive(Clone, Copy, PartialEq, Eq, Structural, Debug)]
pub enum ScanStep {
    FetchBatch,
    Emit(usize),
}

impl Cursor {
    /// Before the first batch.
    pub open spec fn start() -> Cursor {
        Cursor { batch: None, row: 0 }
    }

    /// Whether the current batch has a row left.
    pub open spec fn has_row(self) -> bool {
        match self.batch {
            Some(rows) => self.row < rows,
            None => false,
        }
    }

    /// What comes next: the next row of the current batch, or the next batch.
    pub open spec fn step(self) -> ScanStep {
        if self.has_row() {
            ScanStep::Emit(self.row as usize)
        } else {
            ScanStep::FetchBatch
        }
    }

    /// Behind what came next.
    pub open spec fn after_step(self) -> Cursor {
        if self.has_row() {
            Cursor { row: self.row + 1, ..self }
        } else {
            self
        }
    }

    /// At the start of a batch of `rows` rows.
    pub open spec fn with_batch(self, rows: nat) -> Cursor {
        Cursor { batch: Some(rows), row: 0 }
    }
}

impl DeepView for LanceScanState {
    type V = Scan;

    closed spec fn deep_view(&self) -> Scan {
        Scan {
            label: self.label@,
            attributes: self.attributes.deep_view(),
            columns: positions(self.att_to_batch_col@),
            cursor: Cursor { batch: position(self.current_batch), row: self.current_row as nat },
        }
    }
}

/// A scan or an error.
pub open spec fn scan_outcome(r: Result<LanceScanState, ScanError>) -> Result<Scan, Fault> {
    match r {
        Ok(scan) => Ok(scan.deep_view()),
        Err(e) => Err(e.deep_view()),
    }
}

/// Starts a scan. `fields` are the columns of the dataset, and `verdicts` tells for each attribute
/// whether the type of the column behind it fits. Fails at the first attribute whose column is not
/// in the dataset or whose type does not fit.
pub fn begin_foreign_scan(
    label: &str,
    attributes: Vec<Attribute>,
    fields: &[String],
    verdicts: &[Option<ConvertFailure>],
) -> (r: Result<LanceScanState, ScanError>)
    requires
        verdicts@.len() == attributes@.len(),
    ensures
        scan_outcome(r) == (match first_fault(
            label@,
            attributes.deep_view(),
            fields.deep_view(),
            verdicts.deep_view(),
        ) {
            Some(fault) => Err::<Scan, Fault>(fault),
            None => Ok(
                Scan {
                    label: label@,
                    attributes: attributes.deep_view(),
                    columns: located(attributes.deep_view(), fields.deep_view()),
                    cursor: Cursor::start(),
                },
            ),
        }),
{
    let ghost all = attributes.deep_view();
    let ghost names = fields.deep_view();
    let ghost known = verdicts.deep_view();
    for i in 0..attributes.len()
        invariant
            all == attributes.deep_view(),
            names == fields.deep_view(),
            known == verdicts.deep_view(),
            verdicts@.len() == attributes@.len(),
            first_fault(label@, all.take(i as int), names, known) is None,
    {
        assert(all[i as int] == attributes@[i as int].deep_view());
        assert(known[i as int] == verdicts@[i as int].deep_view());
        assert(all.take(i + 1).drop_last() =~= all.take(i as int));
        if let Some(e) = check_attribute(label, &attributes[i], fields, &verdicts[i]) {
            proof {
                first_fault_stays(label@, all, names, known, i + 1);
            }
            return Err(e);
        }
    }
    assert(all.take(all.len() as int) =~= all);
    let att_to_batch_col = locate_columns(attributes.as_slice(), fields);
    Ok(
        LanceScanState {
            label: label.to_owned(),
            attributes,
            att_to_batch_col,
            current_batch: None,
            current_row: 0,
        },
    )
}

proof fn first_fault_stays(
    label: Seq<char>,
    attributes: Seq<AttributeModel>,
    fields: Seq<Seq<char>>,
    verdicts: Seq<Option<Failure>>,
    n: int,
)
    requires
        0 <= n <= attributes.len(),
        first_fault(label, attributes.take(n), fields, verdicts) is Some,
    ensures
        first_fault(label, attributes, fields, verdicts) == first_fault(
            label,
            attributes.take(n),
            fields,
            verdicts,
        ),
    decreases attributes.len() - n,
{
    if n < attributes.len() {
        assert(attributes.take(n + 1).drop_last() =~= attributes.take(n));
        first_fault_stays(label, attributes, fields, verdicts, n + 1);
    } else {
        assert(attributes.take(n) =~= attributes);
    }
}

/// Where the value of an attribute comes from.
#[derive(Clone, Copy, PartialEq, Eq, Structural, Debug)]
pub enum ValueSource {
    Null,
    Column(usize),
}

/// Where the value of attribute `i` comes from: a dropped one is null, any other has a column of
/// the batch behind it.
pub open spec fn value_source(columns: Seq<Option<nat>>, dropped: bool, i: int) -> Result<
    Option<nat>,
    Fault,
> {
    if dropped {
        Ok(None)
    } else if i < columns.len() && columns[i] is Some {
        Ok(columns[i])
    } else {
        Err(
            Fault {
                code: ErrorCode::InconsistentDescriptorInformation,
                message: "missing batch column mapping for attribute"@,
                detail: "attribute_number="@ + text::decimal((i + 1) as nat),
            },
        )
    }
}

/// The source of a value or an error.
pub open spec fn source_outcome(r: Result<ValueSource, ScanError>) -> Result<Option<nat>, Fault> {
    match r {
        Ok(ValueSource::Null) => Ok(None),
        Ok(ValueSource::Column(p)) => Ok(Some(p as nat)),
        Err(e) => Err(e.deep_view()),
    }
}

/// The name of attribute `i`.
pub open spec fn attribute_name(attributes: Seq<AttributeModel>, i: int) -> Seq<char> {
    if i < attributes.len() && attributes[i].name is Some {
        attributes[i].name->Some_0
    } else {
        "<unknown>"@
    }
}

impl LanceScanState {
    /// What the scan does next: hand out a row of the current batch, or fetch the next one where
    /// none is left.
    pub fn iterate_foreign_scan(&mut self) -> (step: ScanStep)
        ensures
            step == old(self).deep_view().cursor.step(),
            final(self).deep_view() == (Scan {
                cursor: old(self).deep_view().cursor.after_step(),
                ..old(self).deep_view()
            }),
    {
        let need_batch: bool = match self.current_batch {
            None => true,
            Some(rows) => self.current_row >= rows,
        };
        if need_batch {
            return ScanStep::FetchBatch;
        }
        let row: usize = self.current_row;
        self.current_row = row + 1;
        ScanStep::Emit(row)
    }

    /// Takes the next batch, of `num_rows` rows.
    pub fn take_batch(&mut self, num_rows: usize)
        ensures
            final(self).deep_view() == (Scan {
                cursor: old(self).deep_view().cursor.with_batch(num_rows as nat),
                ..old(self).deep_view()
            }),
    {
        self.current_batch = Some(num_rows);
        self.current_row = 0;
    }

    /// Starts the scan over.
    pub fn rescan_foreign_scan(&mut self)
        ensures
            final(self).deep_view() == (Scan { cursor: Cursor::start(), ..old(self).deep_view() }),
    {
        self.current_batch = None;
        self.current_row = 0;
    }

    /// Where the value of attribute `i` comes from.
    pub fn attribute_source(&self, dropped: bool, i: usize) -> (r: Result<ValueSource, ScanError>)
        ensures
            source_outcome(r) == value_source(self.deep_view().columns, dropped, i as int),
    {
        if dropped {
            return Ok(ValueSource::Null);
        }
        if i < self.att_to_batch_col.len() {
            assert(self.deep_view().columns[i as int] == position(
                self.att_to_batch_col@[i as int],
            ));
            if let Some(p) = self.att_to_batch_col[i] {
                return Ok(ValueSource::Column(p));
            }
        }
        let mut detail = "attribute_number=".to_owned();
        detail.append(text::decimal_text(i as u128 + 1).as_str());
        Err(
            ScanError {
                code: ErrorCode::InconsistentDescriptorInformation,
                message: "missing batch column mapping for attribute".to_owned(),
                detail,
            },
        )
    }

    /// The error for the value of attribute `i` that could not be converted.
    pub fn value_error(&self, i: usize, failure: &ConvertFailure) -> (e: ScanError)
        ensures
            e.deep_view() == convert_fault(
                self.deep_view().label,
                attribute_name(self.deep_view().attributes, i as int),
                failure.deep_view(),
                Phase::Conversion,
            ),
    {
        assert(self.attributes.deep_view().len() == self.attributes@.len());
        if i < self.attributes.len() {
            assert(self.attributes.deep_view()[i as int]
                == self.attributes@[i as int].deep_view());
            if let Some(name) = &self.attributes[i].name {
                return convert_error(
                    self.label.as_str(),
                    name.as_str(),
                    failure,
                    Phase::Conversion,
                );
            }
        }
        convert_error(self.label.as_str(), "<unknown>", failure, Phase::Conversion)
    }
}

// ---------------------------------------------------------------------------
// Rows
// ---------------------------------------------------------------------------

/// A value in a row: its datum, and whether it is null.
pub type SlotValue = (usize, bool);

/// What converting a value came to, where there was one to convert.
pub type Converted = Option<Result<SlotValue, ConvertFailure>>;

/// What converting a value came to, with its texts as sequences of characters.
pub open spec fn converted_view(value: Converted) -> Option<Result<SlotValue, Failure>> {
    match value {
        None => None,
        Some(Ok(found)) => Some(Ok(found)),
        Some(Err(failure)) => Some(Err(failure.deep_view())),
    }
}

/// The value of attribute `i`, or the error at it.
pub open spec fn slot_value(
    scan: Scan,
    dropped: bool,
    converted: Option<Result<SlotValue, Failure>>,
    i: int,
) -> Result<SlotValue, Fault> {
    match value_source(scan.columns, dropped, i) {
        Err(fault) => Err(fault),
        Ok(None) => Ok((0, true)),
        Ok(Some(_)) => match converted {
            Some(Ok(value)) => Ok(value),
            Some(Err(failure)) => Err(
                convert_fault(
                    scan.label,
                    attribute_name(scan.attributes, i),
                    failure,
                    Phase::Conversion,
                ),
            ),
            None => Ok((0, true)),
        },
    }
}

/// The values of the first `n` attributes, or the first error among them.
pub open spec fn slot_values(
    scan: Scan,
    dropped: Seq<bool>,
    converted: Seq<Converted>,
    n: nat,
) -> Result<Seq<SlotValue>, Fault>
    decreases n,
{
    if n == 0 {
        Ok(seq![])
    } else {
        match slot_values(scan, dropped, converted, (n - 1) as nat) {
            Err(fault) => Err(fault),
            Ok(front) => match slot_value(
                scan,
                dropped[n - 1],
                converted_view(converted[n - 1]),
                n - 1,
            ) {
                Err(fault) => Err(fault),
                Ok(value) => Ok(front.push(value)),
            },
        }
    }
}

/// The values of a row, or an error.
pub open spec fn row_outcome(r: Result<Vec<SlotValue>, ScanError>) -> Result<Seq<SlotValue>, Fault> {
    match r {
        Ok(values) => Ok(values@),
        Err(e) => Err(e.deep_view()),
    }
}

/// The columns to convert values of, one for each attribute that has one.
pub open spec fn row_columns(columns: Seq<Option<nat>>, dropped: Seq<bool>) -> Seq<Option<nat>> {
    Seq::new(
        dropped.len(),
        |i: int|
            match value_source(columns, dropped[i], i) {
                Ok(found) => found,
                Err(_) => None,
            },
    )
}

proof fn first_row_fault_stays(
    scan: Scan,
    dropped: Seq<bool>,
    converted: Seq<Converted>,
    n: nat,
    m: nat,
)
    requires
        n <= m,
        slot_values(scan, dropped, converted, n) is Err,
    ensures
        slot_values(scan, dropped, converted, m) == slot_values(scan, dropped, converted, n),
    decreases m,
{
    if n < m {
        first_row_fault_stays(scan, dropped, converted, n, (m - 1) as nat);
    }
}

impl LanceScanState {
    /// The columns of the batch to convert values of, one for each attribute that has one.
    pub fn columns_of_row(&self, dropped: &[bool]) -> (r: Vec<Option<usize>>)
        ensures
            positions(r@) == row_columns(self.deep_view().columns, dropped@),
    {
        let ghost columns = self.deep_view().columns;
        let mut r: Vec<Option<usize>> = Vec::new();
        for i in 0..dropped.len()
            invariant
                columns == self.deep_view().columns,
                positions(r@) =~= row_columns(columns, dropped@).take(i as int),
        {
            let ghost before = r@;
            let found: Option<usize> = match self.attribute_source(dropped[i], i) {
                Ok(ValueSource::Column(p)) => Some(p),
                _ => None,
            };
            r.push(found);
            assert(positions(r@) =~= positions(before).push(position(found)));
        }
        assert(positions(r@) =~= row_columns(columns, dropped@));
        r
    }

    /// The values of a row, given for each attribute whether it was dropped and what converting its
    /// value came to. Fails at the first attribute that has no column or whose value could not be
    /// converted.
    pub fn fill_row(&self, dropped: &[bool], converted: Vec<Converted>) -> (r: Result<
        Vec<SlotValue>,
        ScanError,
    >)
        requires
            converted@.len() == dropped@.len(),
            forall|i: int|
                0 <= i < dropped@.len() && row_columns(self.deep_view().columns, dropped@)[i]
                    is Some ==> (#[trigger] converted@[i]) is Some,
        ensures
            row_outcome(r) == slot_values(self.deep_view(), dropped@, converted@, dropped@.len()),
    {
        let ghost scan = self.deep_view();
        let ghost all = converted@;
        let mut values: Vec<SlotValue> = Vec::new();
        assert(values@ =~= seq![]);
        for i in 0..dropped.len()
            invariant
                scan == self.deep_view(),
                all == converted@,
                converted@.len() == dropped@.len(),
                slot_values(scan, dropped@, all, i as nat) == Ok::<Seq<SlotValue>, Fault>(values@),
        {
            let outcome: Result<SlotValue, ScanError> = match self.attribute_source(
                dropped[i],
                i,
            ) {
                Err(e) => Err(e),
                Ok(ValueSource::Null) => Ok((0, true)),
                Ok(ValueSource::Column(_)) => match &converted[i] {
                    Some(Ok(value)) => Ok(*value),
                    Some(Err(failure)) => Err(self.value_error(i, failure)),
                    None => Ok((0, true)),
                },
            };
            match outcome {
                Err(e) => {
                    proof {
                        first_row_fault_stays(
                            scan,
                            dropped@,
                            all,
                            (i + 1) as nat,
                            dropped@.len(),
                        );
                    }
                    return Err(e);
                },
                Ok(value) => {
                    values.push(value);
                },
            }
        }
        Ok(values)
    }
}

// ---------------------------------------------------------------------------
// Explaining a scan
// ---------------------------------------------------------------------------

/// Where a dataset is: at a URI, or under a path of a namespace.
#[derive(Debug)]
pub enum LanceDatasetSource {
    Uri { uri: String },
    Namespace { server_oid: u32, table_id: TableId },
}

/// Where a dataset is, with its texts as sequences of characters.
pub ghost enum Source {
    Uri { uri: Seq<char> },
    Namespace { server_oid: u32, table_id: order::Texts },
}

impl DeepView for LanceDatasetSource {
    type V = Source;

    open spec fn deep_view(&self) -> Source {
        match *self {
            LanceDatasetSource::Uri { uri } => Source::Uri { uri: uri@ },
            LanceDatasetSource::Namespace { server_oid, table_id } => Source::Namespace {
                server_oid,
                table_id: table_id.deep_view(),
            },
        }
    }
}

/// A property of an explained scan, under its label.
#[derive(Debug)]
pub enum ExplainProperty {
    Text(String, String),
    Integer(String, i64),
}

/// A property of an explained scan with its texts as sequences of characters.
pub ghost enum Property {
    Text(Seq<char>, Seq<char>),
    Integer(Seq<char>, i64),
}

impl DeepView for ExplainProperty {
    type V = Property;

    open spec fn deep_view(&self) -> Property {
        match *self {
            ExplainProperty::Text(label, value) => Property::Text(label@, value@),
            ExplainProperty::Integer(label, value) => Property::Integer(label@, value),
        }
    }
}

/// The names of the attributes that were not dropped.
pub open spec fn kept_names(attributes: Seq<AttributeModel>) -> Seq<Seq<char>>
    decreases attributes.len(),
{
    if attributes.len() == 0 {
        seq![]
    } else {
        match attributes.last().name {
            Some(name) => kept_names(attributes.drop_last()).push(name),
            None => kept_names(attributes.drop_last()),
        }
    }
}

/// The list of the attributes that were not dropped; `[]` where there is none.
pub open spec fn projection(attributes: Seq<AttributeModel>) -> Seq<char> {
    let names = kept_names(attributes);
    if names.len() == 0 {
        "[]"@
    } else {
        text::joined(names, ", "@)
    }
}

/// The list of the attributes that were not dropped; `[]` where there is none.
pub fn format_projection_list(attributes: &[Attribute]) -> (r: String)
    ensures
        r@ == projection(attributes.deep_view()),
{
    let ghost all = attributes.deep_view();
    let mut names: Vec<String> = Vec::new();
    assert(names.deep_view() =~= seq![]);
    for i in 0..attributes.len()
        invariant
            all == attributes.deep_view(),
            names.deep_view() == kept_names(all.take(i as int)),
    {
        let ghost before = names.deep_view();
        assert(all[i as int] == attributes@[i as int].deep_view());
        assert(all.take(i + 1).drop_last() =~= all.take(i as int));
        if let Some(name) = &attributes[i].name {
            let one = name.clone();
            names.push(one);
            assert(names.deep_view() =~= before.push(one@));
        }
    }
    assert(all.take(all.len() as int) =~= all);
    assert(names.deep_view().len() == names@.len());
    if names.len() == 0 {
        "[]".to_owned()
    } else {
        text::join_texts(names.as_slice(), ", ")
    }
}

/// The properties of where a dataset is, given the JSON text of its path in a namespace.
pub open spec fn source_properties(source: Source, table_id_json: Seq<char>) -> Seq<Property> {
    match source {
        Source::Uri { uri } => seq![
            Property::Text("Lance URI"@, text::without_char(uri, '\0')),
        ],
        Source::Namespace { server_oid, table_id } => seq![
            Property::Text("Lance Table ID"@, text::without_char(table_id_json, '\0')),
            Property::Integer("Lance Namespace Server OID"@, server_oid as i64),
        ],
    }
}

/// The properties of a scan. One whose projection holds a NUL is explained without it.
pub open spec fn properties(
    source: Source,
    table_id_json: Seq<char>,
    batch_size: usize,
    attributes: Seq<AttributeModel>,
) -> Seq<Property> {
    let first = source_properties(source, table_id_json).push(
        Property::Integer("Batch Size"@, numbers::wrapped_i64(batch_size as u64)),
    );
    if projection(attributes).contains('\0') {
        first
    } else {
        first.push(Property::Text("Projection"@, projection(attributes)))
    }
}

/// The JSON text of a dataset's path in a namespace; a dataset at a URI has none.
pub open spec fn source_json(source: Source) -> Seq<char> {
    match source {
        Source::Uri { uri } => seq![],
        Source::Namespace { server_oid, table_id } => json::json_array(table_id),
    }
}

/// The properties of a scan, given the JSON text of the dataset's path in a namespace.
pub fn explain_with_json(
    source: &LanceDatasetSource,
    table_id_json: &str,
    batch_size: usize,
    attributes: &[Attribute],
) -> (r: Vec<ExplainProperty>)
    ensures
        r.deep_view() == properties(
            source.deep_view(),
            table_id_json@,
            batch_size,
            attributes.deep_view(),
        ),
{
    let mut r: Vec<ExplainProperty> = Vec::new();
    match source {
        LanceDatasetSource::Uri { uri } => {
            r.push(
                ExplainProperty::Text("Lance URI".to_owned(), text::drop_char(uri.as_str(), '\0')),
            );
        },
        LanceDatasetSource::Namespace { server_oid, table_id: _ } => {
            r.push(
                ExplainProperty::Text(
                    "Lance Table ID".to_owned(),
                    text::drop_char(table_id_json, '\0'),
                ),
            );
            r.push(
                ExplainProperty::Integer(
                    "Lance Namespace Server OID".to_owned(),
                    *server_oid as i64,
                ),
            );
        },
    }
    let ghost first = r.deep_view();
    assert(first =~= source_properties(source.deep_view(), table_id_json@));
    let size = ExplainProperty::Integer(
        "Batch Size".to_owned(),
        numbers::wrap_i64(batch_size as u64),
    );
    r.push(size);
    assert(r.deep_view() =~= first.push(size.deep_view()));
    let ghost second = r.deep_view();
    let list = format_projection_list(attributes);
    if text::has_char(list.as_str(), '\0') {
        return r;
    }
    let shown = ExplainProperty::Text("Projection".to_owned(), list);
    r.push(shown);
    assert(r.deep_view() =~= second.push(shown.deep_view()));
    r
}

/// The properties of a scan: where the dataset is, the batch size and the columns.
pub fn explain_foreign_scan(
    source: &LanceDatasetSource,
    batch_size: usize,
    attributes: &[Attribute],
) -> (r: Vec<ExplainProperty>)
    ensures
        r.deep_view() == properties(
            source.deep_view(),
            source_json(source.deep_view()),
            batch_size,
            attributes.deep_view(),
        ),
{
    let table_id_json = match source {
        LanceDatasetSource::Uri { uri: _ } => {
            let none = String::new();
            assert(none@ =~= seq![]);
            none
        },
        LanceDatasetSource::Namespace { server_oid: _, table_id } => json::write_json_array(
            table_id.as_slice(),
        ),
    };
    explain_with_json(source, table_id_json.as_str(), batch_size, attributes)
}

// ---------------------------------------------------------------------------
// What holds of a scan
// ---------------------------------------------------------------------------

/// The rows of batches with the given row counts: the number of the batch and of the row within it.
pub open spec fn rows_of(batches: Seq<nat>) -> Seq<(int, nat)>
    decreases batches.len(),
{
    if batches.len() == 0 {
        seq![]
    } else {
        rows_of(batches.drop_last()) + Seq::new(
            batches.last(),
            |row: int| (batches.len() - 1, row as nat),
        )
    }
}

/// The rows that a scan hands out from where it stands, `batches` being the batches of the stream
/// and `read` how many of them it has taken.
pub open spec fn handed_out(cursor: Cursor, batches: Seq<nat>, read: int) -> Seq<(int, nat)>
    decreases
            batches.len() - read,
            (if cursor.has_row() {
                cursor.batch->Some_0 - cursor.row
            } else {
                0
            }),
{
    if cursor.has_row() {
        seq![(read - 1, cursor.row)] + handed_out(cursor.after_step(), batches, read)
    } else if 0 <= read < batches.len() {
        handed_out(cursor.with_batch(batches[read]), batches, read + 1)
    } else {
        seq![]
    }
}

proof fn rest_is_handed_out(cursor: Cursor, batches: Seq<nat>, read: int)
    requires
        0 <= read <= batches.len(),
        cursor.batch matches Some(rows) ==> read > 0 && rows == batches[read - 1] && cursor.row
            <= rows,
        cursor.batch is None ==> read == 0,
    ensures
        rows_of(batches) == rows_of(batches.take(read)).take(
            rows_of(batches.take(read)).len() - (match cursor.batch {
                Some(rows) => rows - cursor.row,
                None => 0,
            }),
        ) + handed_out(cursor, batches, read),
    decreases
            batches.len() - read,
            (if cursor.has_row() {
                cursor.batch->Some_0 - cursor.row
            } else {
                0
            }),
{
    let seen = rows_of(batches.take(read));
    if read > 0 {
        assert(batches.take(read).drop_last() =~= batches.take(read - 1));
        assert(batches.take(read).last() == batches[read - 1]);
    }
    if cursor.has_row() {
        let rows = cursor.batch->Some_0;
        rest_is_handed_out(cursor.after_step(), batches, read);
        let k = seen.len() - (rows - cursor.row);
        assert(seen[k] == (read - 1, cursor.row));
        assert(seen.take(k + 1) =~= seen.take(k) + seq![(read - 1, cursor.row)]);
        assert(seen.take(k) + handed_out(cursor, batches, read) =~= seen.take(k + 1) + handed_out(
            cursor.after_step(),
            batches,
            read,
        ));
    } else if read < batches.len() {
        let next = cursor.with_batch(batches[read]);
        rest_is_handed_out(next, batches, read + 1);
        let more = rows_of(batches.take(read + 1));
        assert(batches.take(read + 1).drop_last() =~= batches.take(read));
        assert(more.take(seen.len() as int) =~= seen);
        assert(seen.take(seen.len() as int) =~= seen);
    } else {
        assert(batches.take(read) =~= batches);
        assert(seen.take(seen.len() as int) + seq![] =~= seen);
    }
}

/// A scan hands out every row of every batch once, in order; empty batches are passed over.
pub proof fn scan_hands_out_every_row(batches: Seq<nat>)
    ensures
        handed_out(Cursor::start(), batches, 0) == rows_of(batches),
{
    rest_is_handed_out(Cursor::start(), batches, 0);
    assert(batches.take(0) =~= seq![]);
    assert(rows_of(seq![]).take(0) + handed_out(Cursor::start(), batches, 0) =~= handed_out(
        Cursor::start(),
        batches,
        0,
    ));
}

proof fn position_names_field(fields: Seq<Seq<char>>, name: Seq<char>)
    ensures
        field_position(fields, name) matches Some(p) ==> p < fields.len() && fields[p as int]
            == name,
        field_position(fields, name) is None ==> !fields.contains(name),
    decreases fields.len(),
{
    if fields.len() > 0 && fields.last() != name {
        position_names_field(fields.drop_last(), name);
        if fields.contains(name) {
            let i = choose|i: int| 0 <= i < fields.len() && fields[i] == name;
            assert(fields.drop_last()[i] == name);
        }
    }
}

/// A scan that began has a column of its name behind every attribute that was not dropped, so that
/// no value is without a source.
pub proof fn begun_scan_has_every_column(
    label: Seq<char>,
    attributes: Seq<AttributeModel>,
    fields: Seq<Seq<char>>,
    verdicts: Seq<Option<Failure>>,
    i: int,
)
    requires
        first_fault(label, attributes, fields, verdicts) is None,
        0 <= i < attributes.len(),
    ensures
        attributes[i].name matches Some(name) ==> {
            let source = value_source(located(attributes, fields), false, i);
            &&& source is Ok
            &&& source->Ok_0 matches Some(p) && p < fields.len() && fields[p as int] == name
        },
        attributes[i].name is None ==> located(attributes, fields)[i] is None,
    decreases attributes.len(),
{
    if i < attributes.len() - 1 {
        begun_scan_has_every_column(label, attributes.drop_last(), fields, verdicts, i);
        assert(located(attributes.drop_last(), fields)[i] == located(attributes, fields)[i]);
    } else {
        if let Some(name) = attributes[i].name {
            position_names_field(fields, name);
        }
    }
}

proof fn row_values_are_those_converted(
    scan: Scan,
    dropped: Seq<bool>,
    converted: Seq<Converted>,
    n: nat,
    i: int,
)
    requires
        0 <= i < n,
        slot_values(scan, dropped, converted, n) is Ok,
    ensures
        slot_values(scan, dropped, converted, n)->Ok_0.len() == n,
        slot_value(scan, dropped[i], converted_view(converted[i]), i) == Ok::<SlotValue, Fault>(
            slot_values(scan, dropped, converted, n)->Ok_0[i],
        ),
    decreases n,
{
    if n > 1 {
        if i < n - 1 {
            row_values_are_those_converted(scan, dropped, converted, (n - 1) as nat, i);
        } else {
            row_values_are_those_converted(scan, dropped, converted, (n - 1) as nat, 0);
        }
    } else {
        reveal_with_fuel(slot_values, 2);
    }
}

/// A row that was filled has a value for every attribute: null for one that was dropped, and what
/// was converted for any other.
pub proof fn filled_row_is_complete(
    scan: Scan,
    dropped: Seq<bool>,
    converted: Seq<Converted>,
    i: int,
)
    requires
        0 <= i < dropped.len(),
        slot_values(scan, dropped, converted, dropped.len()) is Ok,
    ensures
        ({
            let values = slot_values(scan, dropped, converted, dropped.len())->Ok_0;
            &&& values.len() == dropped.len()
            &&& dropped[i] ==> values[i] == (0usize, true)
            &&& !dropped[i] && converted[i] is Some ==> converted[i] == Some(
                Ok::<SlotValue, ConvertFailure>(values[i]),
            )
        }),
{
    row_values_are_those_converted(scan, dropped, converted, dropped.len(), i);
}

/// The SQL state and the message of a failed conversion are those of its kind; only an internal one
/// has a message for what the scan was doing. The detail tells the column, both types and the error.
pub proof fn conversion_faults_tell_their_kind(
    label: Seq<char>,
    column: Seq<char>,
    failure: Failure,
    phase: Phase,
)
    ensures
        ({
            let fault = convert_fault(label, column, failure, phase);
            &&& failure.kind is TypeMismatch <==> fault.code
                == ErrorCode::InvalidDataTypeDescriptors
            &&& failure.kind is UnsupportedType || failure.kind is ValueOutOfRange <==> fault.code
                == ErrorCode::InvalidDataType
            &&& failure.kind is Internal <==> fault.code == ErrorCode::FdwError
            &&& failure.kind is TypeMismatch ==> fault.message
                == "column type mismatch between foreign table and dataset schema"@
            &&& failure.kind is UnsupportedType || failure.kind is ValueOutOfRange
                ==> fault.message == "unsupported column type for lance_fdw"@
            &&& failure.kind is Internal && phase is Validation ==> fault.message
                == "internal lance_fdw schema validation error"@
            &&& failure.kind is Internal && phase is Conversion ==> fault.message
                == "internal lance_fdw conversion error"@
            &&& fault.detail == label + " column="@ + column + " arrow_type="@ + failure.arrow_type
                + " pg_type="@ + failure.pg_type + " error="@ + failure.error
        }),
{
}

/// Every failure of the work around a scan ends its detail in the error, and has the SQL state of
/// what was being done.
pub proof fn failures_tell_their_error(failure: ScanFailure)
    ensures
        match failure {
            ScanFailure::Options { relation_oid, error } => failure_fault(failure).code
                == ErrorCode::InvalidOptionName && failure_fault(failure).detail
                == "relation_oid="@ + text::decimal(relation_oid as nat) + " error="@ + error@,
            ScanFailure::Runtime { error } => failure_fault(failure).code
                == ErrorCode::UnableToCreateExecution && failure_fault(failure).detail == "error="@
                + error@,
            ScanFailure::OpenUri { uri, error } => failure_fault(failure).code
                == ErrorCode::TableNotFound && failure_fault(failure).detail == "uri="@ + uri@
                + " error="@ + error@,
            ScanFailure::NamespaceOptions { server_oid, error } => failure_fault(failure).code
                == ErrorCode::InvalidOptionName && failure_fault(failure).detail == "server_oid="@
                + text::decimal(server_oid as nat) + " error="@ + error@,
            ScanFailure::OpenNamespace { label, error } => failure_fault(failure).code
                == ErrorCode::TableNotFound && failure_fault(failure).detail == label@ + " error="@
                + error@,
            ScanFailure::Stream { label, error } => failure_fault(failure).code
                == ErrorCode::UnableToCreateExecution && failure_fault(failure).detail == label@
                + " error="@ + error@,
            ScanFailure::NextBatch { label, error } => failure_fault(failure).code
                == ErrorCode::FdwError && failure_fault(failure).detail == label@ + " error="@
                + error@,
        },
{
}

/// The field of a name is the last one that has it.
pub proof fn field_is_the_last_of_its_name(fields: Seq<Seq<char>>, name: Seq<char>)
    ensures
        field_position(fields, name) is Some <==> fields.contains(name),
        field_position(fields, name) matches Some(p) ==> p < fields.len() && fields[p as int]
            == name && forall|j: int| p < j < fields.len() ==> #[trigger] fields[j] != name,
    decreases fields.len(),
{
    position_names_field(fields, name);
    if fields.len() > 0 && fields.last() != name {
        let front = fields.drop_last();
        field_is_the_last_of_its_name(front, name);
        if let Some(p) = field_position(fields, name) {
            assert forall|j: int| p < j < fields.len() implies #[trigger] fields[j] != name by {
                if j < front.len() {
                    assert(front[j] == fields[j]);
                }
            }
            assert(fields.contains(name));
        }
    } else if fields.len() > 0 {
        assert(fields.contains(fields[fields.len() - 1]));
    }
}

/// A scan begins exactly where every attribute that was not dropped has a column of its name whose
/// type fits.
pub proof fn scans_begin_where_every_column_fits(
    label: Seq<char>,
    attributes: Seq<AttributeModel>,
    fields: Seq<Seq<char>>,
    verdicts: Seq<Option<Failure>>,
)
    ensures
        first_fault(label, attributes, fields, verdicts) is None <==> forall|i: int|
            0 <= i < attributes.len() ==> ((#[trigger] attributes[i]).name matches Some(name)
                ==> fields.contains(name) && verdicts[i] is None),
    decreases attributes.len(),
{
    if attributes.len() > 0 {
        let front = attributes.drop_last();
        let n = attributes.len() - 1;
        scans_begin_where_every_column_fits(label, front, fields, verdicts);
        assert(forall|i: int| 0 <= i < front.len() ==> #[trigger] front[i] == attributes[i]);
        if let Some(name) = attributes[n].name {
            field_is_the_last_of_its_name(fields, name);
        }
        if first_fault(label, attributes, fields, verdicts) is None {
            assert forall|i: int| 0 <= i < attributes.len() implies ((
            #[trigger] attributes[i]).name matches Some(name) ==> fields.contains(name)
                && verdicts[i] is None) by {
                if i < n {
                    assert(front[i] == attributes[i]);
                }
            }
        } else if forall|i: int|
            0 <= i < attributes.len() ==> ((#[trigger] attributes[i]).name matches Some(name)
                ==> fields.contains(name) && verdicts[i] is None) {
            assert(attributes[n].name is Some ==> verdicts[n] is None);
            assert forall|i: int| 0 <= i < front.len() implies ((
            #[trigger] front[i]).name matches Some(name) ==> fields.contains(name)
                && verdicts[i] is None) by {
                assert(attributes[i] == front[i]);
            }
        }
    }
}

/// The first attribute that stops a scan is the one that is told of: by its missing column, with the
/// columns of the dataset, or by the type that does not fit.
pub proof fn first_bad_attribute_is_told(
    label: Seq<char>,
    attributes: Seq<AttributeModel>,
    fields: Seq<Seq<char>>,
    verdicts: Seq<Option<Failure>>,
    i: int,
    name: Seq<char>,
)
    requires
        0 <= i < attributes.len(),
        attributes[i].name == Some(name),
        forall|j: int|
            0 <= j < i ==> ((#[trigger] attributes[j]).name matches Some(other) ==> fields.contains(
                other,
            ) && verdicts[j] is None),
    ensures
        !fields.contains(name) ==> first_fault(label, attributes, fields, verdicts) == Some(
            Fault {
                code: ErrorCode::ColumnNameNotFound,
                message: "column not found in lance dataset schema"@,
                detail: label + " column="@ + name + " dataset_columns="@ + text::joined(
                    fields,
                    ","@,
                ),
            },
        ),
        fields.contains(name) ==> (verdicts[i] matches Some(failure) ==> first_fault(
            label,
            attributes,
            fields,
            verdicts,
        ) == Some(convert_fault(label, name, failure, Phase::Validation))),
{
    let front = attributes.take(i);
    scans_begin_where_every_column_fits(label, front, fields, verdicts);
    assert forall|j: int| 0 <= j < front.len() implies ((
    #[trigger] front[j]).name matches Some(other) ==> fields.contains(other)
        && verdicts[j] is None) by {
        assert(attributes[j] == front[j]);
    }
    field_is_the_last_of_its_name(fields, name);
    let upto = attributes.take(i + 1);
    assert(upto.drop_last() =~= front);
    if first_fault(label, upto, fields, verdicts) is Some {
        first_fault_stays(label, attributes, fields, verdicts, i + 1);
    }
}

/// The value of an attribute comes from the column behind it; a dropped one is null, and one without
/// a column is an error that tells its number, counted from 1.
pub proof fn values_come_from_their_columns(
    columns: Seq<Option<nat>>,
    dropped: bool,
    i: int,
)
    requires
        0 <= i,
    ensures
        dropped ==> value_source(columns, dropped, i) == Ok::<Option<nat>, Fault>(None),
        !dropped && i < columns.len() && columns[i] is Some ==> value_source(columns, dropped, i)
            == Ok::<Option<nat>, Fault>(columns[i]),
        !dropped && !(i < columns.len() && columns[i] is Some) ==> value_source(
            columns,
            dropped,
            i,
        ) == Err::<Option<nat>, Fault>(
            Fault {
                code: ErrorCode::InconsistentDescriptorInformation,
                message: "missing batch column mapping for attribute"@,
                detail: "attribute_number="@ + text::decimal((i + 1) as nat),
            },
        ),
{
}

/// A row fails exactly where an attribute that was not dropped has no column or a value that could
/// not be converted.
pub proof fn rows_fail_only_for_a_reason(
    scan: Scan,
    dropped: Seq<bool>,
    converted: Seq<Converted>,
    n: nat,
)
    requires
        n <= dropped.len(),
        n <= converted.len(),
    ensures
        slot_values(scan, dropped, converted, n) is Ok <==> forall|i: int|
            0 <= i < n && !(#[trigger] dropped[i]) ==> i < scan.columns.len() && scan.columns[i]
                is Some && !(converted[i] is Some && converted[i]->Some_0 is Err),
    decreases n,
{
    if n > 0 {
        let m = (n - 1) as nat;
        rows_fail_only_for_a_reason(scan, dropped, converted, m);
        let last = n - 1;
        assert(dropped[last] || !dropped[last]);
        if slot_values(scan, dropped, converted, n) is Ok {
            assert forall|i: int| 0 <= i < n && !(#[trigger] dropped[i]) implies i
                < scan.columns.len() && scan.columns[i] is Some && !(converted[i] is Some
                && converted[i]->Some_0 is Err) by {
                if i == last {
                }
            }
        }
    }
}

/// While the batch at hand has a row left the next one is handed out, and else the next batch is
/// fetched; behind the row its successor is next, and nothing else changes.
pub proof fn rows_are_handed_out_in_turn(cursor: Cursor)
    requires
        cursor.row <= usize::MAX,
    ensures
        cursor.batch matches Some(rows) ==> cursor.row < rows ==> cursor.step() == ScanStep::Emit(
            cursor.row as usize,
        ) && cursor.after_step() == (Cursor { batch: Some(rows), row: cursor.row + 1 }),
        cursor.batch is None || cursor.row >= cursor.batch->Some_0 ==> cursor.step()
            == ScanStep::FetchBatch && cursor.after_step() == cursor,
        forall|rows: nat| #[trigger]
            cursor.with_batch(rows) == (Cursor { batch: Some(rows), row: 0 }),
        Cursor::start().batch is None,
{
}

/// A scan is explained by where its dataset is, its batch size and its columns, in this order; NULs
/// are left out of the first, and a projection that holds one is left out whole.
pub proof fn explained_scan_tells_its_source(
    source: Source,
    table_id_json: Seq<char>,
    batch_size: usize,
    attributes: Seq<AttributeModel>,
)
    ensures
        ({
            let r = properties(source, table_id_json, batch_size, attributes);
            let n: int = if source is Uri {
                1
            } else {
                2
            };
            let shown = projection(attributes);
            &&& r.len() == n + 1 + (if shown.contains('\0') {
                0int
            } else {
                1
            })
            &&& source matches Source::Uri { uri } ==> r[0] == Property::Text(
                "Lance URI"@,
                text::without_char(uri, '\0'),
            )
            &&& source matches Source::Namespace { server_oid, table_id } ==> r[0]
                == Property::Text("Lance Table ID"@, text::without_char(table_id_json, '\0'))
                && r[1] == Property::Integer("Lance Namespace Server OID"@, server_oid as i64)
            &&& batch_size <= i64::MAX ==> r[n] == Property::Integer(
                "Batch Size"@,
                batch_size as i64,
            )
            &&& !shown.contains('\0') ==> r[n + 1] == Property::Text("Projection"@, shown)
        }),
{
}

/// The columns that are shown are the attributes that were not dropped, in order, with a comma and a
/// space between them; `[]` where there is none.
pub proof fn projection_shows_what_is_kept(attributes: Seq<AttributeModel>, next: AttributeModel)
    ensures
        projection(seq![]) == "[]"@,
        next.name is None ==> projection(attributes.push(next)) == projection(attributes),
        next.name matches Some(name) ==> {
            &&& kept_names(attributes).len() == 0 ==> projection(attributes.push(next)) == name
            &&& kept_names(attributes).len() > 0 ==> projection(attributes.push(next))
                == projection(attributes) + ", "@ + name
        },
        kept_names(attributes).len() == 0 <==> forall|i: int|
            0 <= i < attributes.len() ==> (#[trigger] attributes[i]).name is None,
{
    let all = attributes.push(next);
    assert(all.drop_last() =~= attributes);
    let names = kept_names(attributes);
    if let Some(name) = next.name {
        assert(names.push(name).drop_last() =~= names);
    }
    none_kept(attributes);
}

proof fn none_kept(attributes: Seq<AttributeModel>)
    ensures
        kept_names(attributes).len() == 0 <==> forall|i: int|
            0 <= i < attributes.len() ==> (#[trigger] attributes[i]).name is None,
    decreases attributes.len(),
{
    if attributes.len() > 0 {
        let front = attributes.drop_last();
        let n = attributes.len() - 1;
        none_kept(front);
        assert(forall|i: int| 0 <= i < front.len() ==> #[trigger] front[i] == attributes[i]);
        if kept_names(attributes).len() == 0 {
            assert forall|i: int| 0 <= i < attributes.len() implies (
            #[trigger] attributes[i]).name is None by {
                if i < n {
                    assert(front[i] == attributes[i]);
                }
            }
        } else if forall|i: int|
            0 <= i < attributes.len() ==> (#[trigger] attributes[i]).name is None {
            assert(attributes[n].name is None);
            assert forall|i: int| 0 <= i < front.len() implies (
            #[trigger] front[i]).name is None by {
                assert(attributes[i] == front[i]);
            }
        }
    }
}

/// Only the lowest flag tells that the plan alone is wanted: it is the flag by which an odd number
/// differs from the even one below it.
pub proof fn lowest_flag_decides(others: int)
    requires
        i32::MIN <= 2 * others,
        2 * others + 1 <= i32::MAX,
    ensures
        !wants_plan_only((2 * others) as i32),
        wants_plan_only((2 * others + 1) as i32),
{
}

/// A value is converted for every attribute that was not dropped and has a column, from that column,
/// and for no other.
pub proof fn values_are_converted_from_their_columns(
    columns: Seq<Option<nat>>,
    dropped: Seq<bool>,
    i: int,
)
    requires
        0 <= i < dropped.len(),
    ensures
        row_columns(columns, dropped).len() == dropped.len(),
        !dropped[i] && i < columns.len() ==> row_columns(columns, dropped)[i] == columns[i],
        dropped[i] || i >= columns.len() ==> row_columns(columns, dropped)[i] is None,
{
}

/// The first attribute that has no column, or whose value could not be converted, is the one that is
/// told of, under its own name.
pub proof fn first_bad_value_is_told(
    scan: Scan,
    dropped: Seq<bool>,
    converted: Seq<Converted>,
    i: int,
    failure: ConvertFailure,
)
    requires
        0 <= i < dropped.len(),
        dropped.len() <= converted.len(),
        !dropped[i],
        i < scan.columns.len() && scan.columns[i] is Some,
        converted[i] == Some(Err::<SlotValue, ConvertFailure>(failure)),
        forall|j: int|
            0 <= j < i && !(#[trigger] dropped[j]) ==> j < scan.columns.len() && scan.columns[j]
                is Some && !(converted[j] is Some && converted[j]->Some_0 is Err),
    ensures
        slot_values(scan, dropped, converted, dropped.len()) == Err::<Seq<SlotValue>, Fault>(
            convert_fault(
                scan.label,
                if i < scan.attributes.len() && scan.attributes[i].name is Some {
                    scan.attributes[i].name->Some_0
                } else {
                    "<unknown>"@
                },
                failure.deep_view(),
                Phase::Conversion,
            ),
        ),
{
    rows_fail_only_for_a_reason(scan, dropped, converted, i as nat);
    assert(slot_values(scan, dropped, converted, (i + 1) as nat) is Err);
    first_row_fault_stays(scan, dropped, converted, (i + 1) as nat, dropped.len());
}

/// The JSON text of a dataset in a namespace is that of its path.
pub proof fn source_is_told_by_its_path(server_oid: u32, table_id: order::Texts)
    ensures
        source_json(Source::Namespace { server_oid, table_id }) == json::json_array(table_id),
{
}

/// The field behind each attribute is the last one of its name, and there is none behind a dropped
/// one.
pub proof fn columns_are_located_by_name(
    attributes: Seq<AttributeModel>,
    fields: Seq<Seq<char>>,
    i: int,
)
    requires
        0 <= i < attributes.len(),
    ensures
        located(attributes, fields).len() == attributes.len(),
        attributes[i].name is None ==> located(attributes, fields)[i] is None,
        attributes[i].name matches Some(name) ==> {
            &&& located(attributes, fields)[i] is Some <==> fields.contains(name)
            &&& located(attributes, fields)[i] matches Some(p) ==> p < fields.len()
                && fields[p as int] == name && forall|j: int|
                p < j < fields.len() ==> #[trigger] fields[j] != name
        },
{
    if let Some(name) = attributes[i].name {
        field_is_the_last_of_its_name(fields, name);
    }
}

/// Every failure of the work around a scan has the message of what was being done.
pub proof fn failures_tell_what_was_done(failure: ScanFailure)
    ensures
        failure_fault(failure).message == (match failure {
            ScanFailure::Options { relation_oid: _, error: _ } => "invalid foreign table options"@,
            ScanFailure::Runtime { error: _ } => "failed to create tokio runtime"@,
            ScanFailure::OpenUri { uri: _, error: _ } => "failed to open lance dataset"@,
            ScanFailure::NamespaceOptions { server_oid: _, error: _ } =>
                "invalid namespace server options"@,
            ScanFailure::OpenNamespace { label: _, error: _ } =>
                "failed to open lance dataset via namespace"@,
            ScanFailure::Stream { label: _, error: _ } => "failed to create scanner stream"@,
            ScanFailure::NextBatch { label: _, error: _ } => "failed to read next record batch"@,
        }),
{
}

} // verus!
