//! Indexes of a dataset.
use crate::json;
use crate::numbers;
use crate::order;
use crate::text;
use crate::write::limits;
use vstd::prelude::*;

verus! {

// ---------------------------------------------------------------------------
// Numbers
// ---------------------------------------------------------------------------

/// A number that is given or not, or the message that it is negative or larger than `max`.
pub open spec fn bounded(value: Option<i64>, max: int, message: Seq<char>) -> Result<
    Option<int>,
    Seq<char>,
> {
    match value {
        None => Ok(None),
        Some(n) => if 0 <= n <= max {
            Ok(Some(n as int))
        } else {
            Err(message)
        },
    }
}

/// The message for a number that is negative.
pub open spec fn negative(name: Seq<char>) -> Seq<char> {
    name + " must be a non-negative integer"@
}

/// The message for a number that is negative or too large.
pub open spec fn too_large(name: Seq<char>) -> Seq<char> {
    name + " must fit in u32"@
}

/// A number or a message, as an integer and a sequence of characters.
pub open spec fn u32_outcome(r: Result<Option<u32>, String>) -> Result<Option<int>, Seq<char>> {
    match r {
        Ok(Some(n)) => Ok(Some(n as int)),
        Ok(None) => Ok(None),
        Err(message) => Err(message@),
    }
}

fn complaint(name: &str, fault: &str) -> (message: String)
    ensures
        message@ == name@ + fault@,
{
    let mut message = name.to_owned();
    message.append(fault);
    message
}

/// A number that is given or not; fails where it is negative or too large.
pub fn optional_usize(value: Option<i64>, name: &str) -> (r: Result<Option<usize>, String>)
    ensures
        limits::usize_outcome(r) == bounded(value, usize::MAX as int, negative(name@)),
{
    match value {
        None => Ok(None),
        Some(n) => if n >= 0 && n as u64 <= usize::MAX as u64 {
            Ok(Some(n as usize))
        } else {
            Err(complaint(name, " must be a non-negative integer"))
        },
    }
}

/// A number that is given or not; fails where it is negative or too large.
pub fn optional_u32(value: Option<i64>, name: &str) -> (r: Result<Option<u32>, String>)
    ensures
        u32_outcome(r) == bounded(value, u32::MAX as int, too_large(name@)),
{
    match value {
        None => Ok(None),
        Some(n) => if n >= 0 && n <= u32::MAX as i64 {
            Ok(Some(n as u32))
        } else {
            Err(complaint(name, " must fit in u32"))
        },
    }
}

/// A number that is given or not; fails where it is negative.
pub fn optional_u64(value: Option<i64>, name: &str) -> (r: Result<Option<u64>, String>)
    ensures
        limits::u64_outcome(r) == bounded(value, u64::MAX as int, negative(name@)),
{
    match value {
        None => Ok(None),
        Some(n) => if n >= 0 {
            Ok(Some(n as u64))
        } else {
            Err(complaint(name, " must be a non-negative integer"))
        },
    }
}

// ---------------------------------------------------------------------------
// Scalar indexes
// ---------------------------------------------------------------------------

/// The kinds of scalar indexes.
#[derive(Clone, Copy, PartialEq, Eq, Structural, Debug)]
pub enum ScalarIndexType {
    BTree,
    Bitmap,
    LabelList,
}

/// The kind of the given name, in any case.
pub open spec fn scalar_index_named(index_type: Seq<char>) -> Result<ScalarIndexType, Seq<char>> {
    let name = text::lower(index_type);
    if name == "btree"@ || name == "b-tree"@ {
        Ok(ScalarIndexType::BTree)
    } else if name == "bitmap"@ {
        Ok(ScalarIndexType::Bitmap)
    } else if name == "label_list"@ || name == "labellist"@ || name == "label-list"@ {
        Ok(ScalarIndexType::LabelList)
    } else {
        Err(
            "unsupported scalar index type '"@ + name
                + "'; expected btree, bitmap, or label_list"@,
        )
    }
}

/// A kind or a message as a sequence of characters.
pub open spec fn scalar_outcome(r: Result<ScalarIndexType, String>) -> Result<
    ScalarIndexType,
    Seq<char>,
> {
    match r {
        Ok(kind) => Ok(kind),
        Err(message) => Err(message@),
    }
}

/// The kind of scalar index of the given name, in any case; fails where there is none.
pub fn parse_scalar_index_type(index_type: &str) -> (r: Result<ScalarIndexType, String>)
    ensures
        scalar_outcome(r) == scalar_index_named(index_type@),
{
    let lowered = text::lower_text(index_type);
    let name = lowered.as_str();
    if name.eq("btree") || name.eq("b-tree") {
        Ok(ScalarIndexType::BTree)
    } else if name.eq("bitmap") {
        Ok(ScalarIndexType::Bitmap)
    } else if name.eq("label_list") || name.eq("labellist") || name.eq("label-list") {
        Ok(ScalarIndexType::LabelList)
    } else {
        let mut message = "unsupported scalar index type '".to_owned();
        message.append(name);
        message.append("'; expected btree, bitmap, or label_list");
        Err(message)
    }
}

// ---------------------------------------------------------------------------
// Optimizing
// ---------------------------------------------------------------------------

/// How indexes are optimized: by a new part for what is not indexed, by merging the latest parts,
/// from scratch, or as the dataset sees fit.
#[derive(Clone, Copy, PartialEq, Eq, Structural, Debug)]
pub enum OptimizeMode {
    Append,
    Merge(usize),
    Retrain,
    Auto(Option<usize>),
}

/// A way to optimize, with its number as an integer.
pub ghost enum Optimize {
    Append,
    Merge(int),
    Retrain,
    Auto(Option<int>),
}

impl DeepView for OptimizeMode {
    type V = Optimize;

    open spec fn deep_view(&self) -> Optimize {
        match *self {
            OptimizeMode::Append => Optimize::Append,
            OptimizeMode::Merge(n) => Optimize::Merge(n as int),
            OptimizeMode::Retrain => Optimize::Retrain,
            OptimizeMode::Auto(n) => Optimize::Auto(
                match n {
                    Some(v) => Some(v as int),
                    None => None,
                },
            ),
        }
    }
}

/// The way to optimize of the given name, in any case. The number matters only to those that merge.
pub open spec fn optimize_named(mode: Seq<char>, num_indices_to_merge: Option<i64>) -> Result<
    Optimize,
    Seq<char>,
> {
    let name = text::lower(mode);
    let number = bounded(
        num_indices_to_merge,
        usize::MAX as int,
        negative("num_indices_to_merge"@),
    );
    if name == "append"@ {
        Ok(Optimize::Append)
    } else if name == "merge"@ {
        match number {
            Err(message) => Err(message),
            Ok(Some(n)) => Ok(Optimize::Merge(n)),
            Ok(None) => Ok(Optimize::Merge(1)),
        }
    } else if name == "retrain"@ {
        Ok(Optimize::Retrain)
    } else if name == "auto"@ || name == "default"@ {
        match number {
            Err(message) => Err(message),
            Ok(n) => Ok(Optimize::Auto(n)),
        }
    } else {
        Err(
            "unsupported optimize mode '"@ + name
                + "'; expected append, merge, retrain, or auto"@,
        )
    }
}

/// The way to optimize of the given name, in any case; fails where there is none, or where the
/// number matters and is negative or too large.
pub fn parse_optimize_mode(mode: &str, num_indices_to_merge: Option<i64>) -> (r: Result<
    OptimizeMode,
    String,
>)
    ensures
        text::outcome(r) == optimize_named(mode@, num_indices_to_merge),
{
    let lowered = text::lower_text(mode);
    let name = lowered.as_str();
    if name.eq("append") {
        Ok(OptimizeMode::Append)
    } else if name.eq("merge") {
        match optional_usize(num_indices_to_merge, "num_indices_to_merge") {
            Err(message) => Err(message),
            Ok(Some(n)) => Ok(OptimizeMode::Merge(n)),
            Ok(None) => Ok(OptimizeMode::Merge(1)),
        }
    } else if name.eq("retrain") {
        Ok(OptimizeMode::Retrain)
    } else if name.eq("auto") || name.eq("default") {
        match optional_usize(num_indices_to_merge, "num_indices_to_merge") {
            Err(message) => Err(message),
            Ok(n) => Ok(OptimizeMode::Auto(n)),
        }
    } else {
        let mut message = "unsupported optimize mode '".to_owned();
        message.append(name);
        message.append("'; expected append, merge, retrain, or auto");
        Err(message)
    }
}

/// What is asked of optimizing: the way, the names of the indexes where not all are meant, and how
/// many were named.
#[derive(Debug)]
pub struct OptimizeRequest {
    pub mode: OptimizeMode,
    pub index_names: Option<Vec<String>>,
    pub index_count: i64,
}

/// What is asked of optimizing, with its texts as sequences of characters.
pub ghost struct OptimizeModel {
    pub mode: Optimize,
    pub index_names: Option<order::Texts>,
    pub index_count: i64,
}

impl DeepView for OptimizeRequest {
    type V = OptimizeModel;

    open spec fn deep_view(&self) -> OptimizeModel {
        OptimizeModel {
            mode: self.mode.deep_view(),
            index_names: self.index_names.deep_view(),
            index_count: self.index_count,
        }
    }
}

/// What is asked of optimizing.
pub open spec fn optimize_request(
    index_names: order::Texts,
    mode: Seq<char>,
    num_indices_to_merge: Option<i64>,
) -> Result<OptimizeModel, Seq<char>> {
    match optimize_named(mode, num_indices_to_merge) {
        Err(message) => Err(message),
        Ok(found) => Ok(
            OptimizeModel {
                mode: found,
                index_names: if index_names.len() == 0 {
                    None
                } else {
                    Some(index_names)
                },
                index_count: numbers::wrapped_i64(index_names.len() as u64),
            },
        ),
    }
}

/// Reads what is asked of optimizing; without names all indexes are meant.
pub fn lance_optimize_indices_impl(
    index_names: Vec<String>,
    mode: &str,
    num_indices_to_merge: Option<i64>,
) -> (r: Result<OptimizeRequest, String>)
    ensures
        text::outcome(r) == optimize_request(index_names.deep_view(), mode@, num_indices_to_merge),
{
    assert(index_names.deep_view().len() == index_names@.len());
    let found = match parse_optimize_mode(mode, num_indices_to_merge) {
        Err(message) => {
            return Err(message);
        },
        Ok(found) => found,
    };
    let index_count: i64 = numbers::wrap_i64(index_names.len() as u64);
    let index_names: Option<Vec<String>> = if index_names.len() == 0 {
        None
    } else {
        Some(index_names)
    };
    Ok(OptimizeRequest { mode: found, index_names, index_count })
}

// ---------------------------------------------------------------------------
// Full-text indexes
// ---------------------------------------------------------------------------

/// What is asked of a full-text index: numbers are as they were given.
#[derive(Debug)]
pub struct FtsRequest {
    pub tokenizer: String,
    pub language: String,
    pub with_position: bool,
    pub lower_case: bool,
    pub stem: bool,
    pub remove_stop_words: bool,
    pub ascii_folding: bool,
    pub max_token_length: Option<i64>,
    pub ngram_min_length: Option<i64>,
    pub ngram_max_length: Option<i64>,
    pub ngram_prefix_only: bool,
    pub memory_limit_mb: Option<i64>,
    pub num_workers: Option<i64>,
}

/// How a full-text index is made. A number that is `None` has the default, but for the longest
/// token, which has no limit.
#[derive(Debug)]
pub struct FtsParams {
    pub tokenizer: String,
    pub language: String,
    pub with_position: bool,
    pub lower_case: bool,
    pub stem: bool,
    pub remove_stop_words: bool,
    pub ascii_folding: bool,
    pub max_token_length: Option<usize>,
    pub ngram_min_length: Option<u32>,
    pub ngram_max_length: Option<u32>,
    pub ngram_prefix_only: bool,
    pub memory_limit_mb: Option<u64>,
    pub num_workers: Option<usize>,
}

/// The message of the first fault in what is asked of a full-text index, if any. `language` is what
/// was found wrong with the language.
pub open spec fn fts_fault(request: FtsRequest, language: Option<Seq<char>>) -> Option<Seq<char>> {
    if let Some(e) = language {
        Some("invalid FTS language '"@ + request.language@ + "': "@ + e)
    } else if let Err(e) = bounded(
        request.max_token_length,
        usize::MAX as int,
        negative("max_token_length"@),
    ) {
        Some(e)
    } else if let Err(e) = bounded(
        request.ngram_min_length,
        u32::MAX as int,
        too_large("ngram_min_length"@),
    ) {
        Some(e)
    } else if let Err(e) = bounded(
        request.ngram_max_length,
        u32::MAX as int,
        too_large("ngram_max_length"@),
    ) {
        Some(e)
    } else if let Err(e) = bounded(
        request.memory_limit_mb,
        u64::MAX as int,
        negative("memory_limit_mb"@),
    ) {
        Some(e)
    } else if let Err(e) = bounded(
        request.num_workers,
        usize::MAX as int,
        negative("num_workers"@),
    ) {
        Some(e)
    } else {
        None
    }
}

/// Whether a number that is given or not is the same in another type.
pub open spec fn same_count(value: Option<i64>, n: Option<usize>) -> bool {
    match (value, n) {
        (Some(v), Some(m)) => v == m,
        (None, None) => true,
        _ => false,
    }
}

/// Whether a number that is given or not is the same in another type.
pub open spec fn same_length(value: Option<i64>, n: Option<u32>) -> bool {
    match (value, n) {
        (Some(v), Some(m)) => v == m,
        (None, None) => true,
        _ => false,
    }
}

/// Whether a number that is given or not is the same in another type.
pub open spec fn same_size(value: Option<i64>, n: Option<u64>) -> bool {
    match (value, n) {
        (Some(v), Some(m)) => v == m,
        (None, None) => true,
        _ => false,
    }
}

/// Whether parameters are what was asked for.
pub open spec fn params_for(request: FtsRequest, params: FtsParams) -> bool {
    &&& params.tokenizer@ == request.tokenizer@
    &&& params.language@ == request.language@
    &&& params.with_position == request.with_position
    &&& params.lower_case == request.lower_case
    &&& params.stem == request.stem
    &&& params.remove_stop_words == request.remove_stop_words
    &&& params.ascii_folding == request.ascii_folding
    &&& same_count(request.max_token_length, params.max_token_length)
    &&& same_length(request.ngram_min_length, params.ngram_min_length)
    &&& same_length(request.ngram_max_length, params.ngram_max_length)
    &&& params.ngram_prefix_only == request.ngram_prefix_only
    &&& same_size(request.memory_limit_mb, params.memory_limit_mb)
    &&& same_count(request.num_workers, params.num_workers)
}

/// Reads what is asked of a full-text index; fails at the first fault. `language` is what was found
/// wrong with the language, if anything.
pub fn build_fts_params(request: &FtsRequest, language: Option<String>) -> (r: Result<
    FtsParams,
    String,
>)
    ensures
        match fts_fault(*request, language.deep_view()) {
            Some(message) => r is Err && r->Err_0@ == message,
            None => r is Ok && params_for(*request, r->Ok_0),
        },
{
    if let Some(e) = language {
        let mut message = "invalid FTS language '".to_owned();
        message.append(request.language.as_str());
        message.append("': ");
        message.append(e.as_str());
        return Err(message);
    }
    let max_token_length: Option<usize> = match optional_usize(
        request.max_token_length,
        "max_token_length",
    ) {
        Ok(n) => n,
        Err(message) => {
            return Err(message);
        },
    };
    let ngram_min_length: Option<u32> = match optional_u32(
        request.ngram_min_length,
        "ngram_min_length",
    ) {
        Ok(n) => n,
        Err(message) => {
            return Err(message);
        },
    };
    let ngram_max_length: Option<u32> = match optional_u32(
        request.ngram_max_length,
        "ngram_max_length",
    ) {
        Ok(n) => n,
        Err(message) => {
            return Err(message);
        },
    };
    let memory_limit_mb: Option<u64> = match optional_u64(
        request.memory_limit_mb,
        "memory_limit_mb",
    ) {
        Ok(n) => n,
        Err(message) => {
            return Err(message);
        },
    };
    let num_workers: Option<usize> = match optional_usize(request.num_workers, "num_workers") {
        Ok(n) => n,
        Err(message) => {
            return Err(message);
        },
    };
    Ok(
        FtsParams {
            tokenizer: request.tokenizer.clone(),
            language: request.language.clone(),
            with_position: request.with_position,
            lower_case: request.lower_case,
            stem: request.stem,
            remove_stop_words: request.remove_stop_words,
            ascii_folding: request.ascii_folding,
            max_token_length,
            ngram_min_length,
            ngram_max_length,
            ngram_prefix_only: request.ngram_prefix_only,
            memory_limit_mb,
            num_workers,
        },
    )
}

// ---------------------------------------------------------------------------
// Listing
// ---------------------------------------------------------------------------

/// What a dataset tells of an index: its name and kind, the ids of its fields with their paths,
/// where they have one, the URL of its type, how many rows it has, its size, and its details.
#[derive(Debug)]
pub struct IndexDescription {
    pub name: String,
    pub index_type: String,
    pub fields: Vec<(u32, Option<String>)>,
    pub type_url: String,
    pub rows_indexed: u64,
    pub total_size_bytes: Option<u64>,
    pub details: String,
}

/// The row of an index: its name and kind, its columns as JSON, the URL of its type, how many rows
/// it has, its size, and its details.
pub type IndexListRow = (String, String, String, String, i64, Option<i64>, String);

/// The name of a field: its path, or its id where it has none.
pub open spec fn field_name(id: u32, path: Option<Seq<char>>) -> Seq<char> {
    match path {
        Some(found) => found,
        None => "<field:"@ + text::decimal(id as nat) + ">"@,
    }
}

/// The names of fields.
pub open spec fn field_names(fields: Seq<(u32, Option<String>)>) -> order::Texts {
    fields.map_values(|field: (u32, Option<String>)| field_name(field.0, field.1.deep_view()))
}

/// The names of fields.
pub fn index_columns(fields: &[(u32, Option<String>)]) -> (names: Vec<String>)
    ensures
        names.deep_view() == field_names(fields@),
{
    let mut names: Vec<String> = Vec::new();
    for i in 0..fields.len()
        invariant
            names.deep_view() == field_names(fields@.take(i as int)),
    {
        let ghost before = names.deep_view();
        let name = match &fields[i].1 {
            Some(path) => path.clone(),
            None => {
                let mut name = "<field:".to_owned();
                name.append(text::decimal_text(fields[i].0 as u128).as_str());
                name.append(">");
                name
            },
        };
        names.push(name);
        assert(names.deep_view() =~= before.push(name@));
        assert(field_names(fields@.take(i + 1)) =~= field_names(fields@.take(i as int)).push(
            field_name(fields@[i as int].0, fields@[i as int].1.deep_view()),
        ));
    }
    assert(fields@.take(fields@.len() as int) =~= fields@);
    names
}

/// The row of an index, given the JSON text of its columns.
pub open spec fn index_row(description: IndexDescription, columns_json: Seq<char>) -> (
    Seq<char>,
    Seq<char>,
    Seq<char>,
    Seq<char>,
    i64,
    Option<i64>,
    Seq<char>,
) {
    (
        description.name@,
        description.index_type@,
        columns_json,
        description.type_url@,
        numbers::wrapped_i64(description.rows_indexed),
        match description.total_size_bytes {
            Some(n) => Some(numbers::wrapped_i64(n)),
            None => None,
        },
        description.details@,
    )
}

/// A row with its texts as sequences of characters.
pub open spec fn row_view(r: IndexListRow) -> (
    Seq<char>,
    Seq<char>,
    Seq<char>,
    Seq<char>,
    i64,
    Option<i64>,
    Seq<char>,
) {
    (r.0@, r.1@, r.2@, r.3@, r.4, r.5, r.6@)
}

/// The row of an index, given the JSON text of its columns.
pub fn index_row_with_json(description: &IndexDescription, columns_json: String) -> (r:
    IndexListRow)
    ensures
        row_view(r) == index_row(*description, columns_json@),
{
    let total_size_bytes: Option<i64> = match description.total_size_bytes {
        Some(n) => Some(numbers::wrap_i64(n)),
        None => None,
    };
    (
        description.name.clone(),
        description.index_type.clone(),
        columns_json,
        description.type_url.clone(),
        numbers::wrap_i64(description.rows_indexed),
        total_size_bytes,
        description.details.clone(),
    )
}

/// The row of an index.
pub fn index_list_row(description: &IndexDescription) -> (r: IndexListRow)
    ensures
        row_view(r) == index_row(
            *description,
            json::json_array(field_names(description.fields@)),
        ),
{
    let columns = index_columns(description.fields.as_slice());
    index_row_with_json(description, json::write_json_array(columns.as_slice()))
}

/// Rows with their texts as sequences of characters.
pub open spec fn rows_view(rows: Seq<IndexListRow>) -> Seq<
    (Seq<char>, Seq<char>, Seq<char>, Seq<char>, i64, Option<i64>, Seq<char>),
> {
    rows.map_values(|r: IndexListRow| row_view(r))
}

/// The rows of indexes.
pub open spec fn index_rows(descriptions: Seq<IndexDescription>) -> Seq<
    (Seq<char>, Seq<char>, Seq<char>, Seq<char>, i64, Option<i64>, Seq<char>),
> {
    descriptions.map_values(
        |description: IndexDescription|
            index_row(description, json::json_array(field_names(description.fields@))),
    )
}

/// The rows of indexes, in the order in which the dataset tells of them.
pub fn lance_list_indices_impl(descriptions: &[IndexDescription]) -> (rows: Vec<IndexListRow>)
    ensures
        rows_view(rows@) == index_rows(descriptions@),
{
    let mut rows: Vec<IndexListRow> = Vec::new();
    for i in 0..descriptions.len()
        invariant
            rows_view(rows@) =~= index_rows(descriptions@).take(i as int),
    {
        let ghost before = rows@;
        let r = index_list_row(&descriptions[i]);
        rows.push(r);
        assert(rows_view(rows@) =~= rows_view(before).push(row_view(r)));
    }
    assert(rows_view(rows@) =~= index_rows(descriptions@));
    rows
}

// ---------------------------------------------------------------------------
// What holds of names
// ---------------------------------------------------------------------------

/// The case of a kind's name does not matter.
pub proof fn index_type_in_any_case(index_type: Seq<char>)
    ensures
        scalar_index_named(text::lower(index_type)) == scalar_index_named(index_type),
{
    lower_is_final(index_type);
}

/// The case of the name of a way to optimize does not matter.
pub proof fn optimize_mode_in_any_case(mode: Seq<char>, num_indices_to_merge: Option<i64>)
    ensures
        optimize_named(text::lower(mode), num_indices_to_merge) == optimize_named(
            mode,
            num_indices_to_merge,
        ),
{
    lower_is_final(mode);
}

proof fn lower_is_final(s: Seq<char>)
    ensures
        text::lower(text::lower(s)) == text::lower(s),
{
    assert(text::lower(text::lower(s)) =~= text::lower(s));
}

/// Every parameter of a full-text index is the one that was asked for under its own name.
pub proof fn params_keep_every_option(request: FtsRequest, params: FtsParams)
    requires
        params_for(request, params),
    ensures
        params.tokenizer@ == request.tokenizer@,
        params.language@ == request.language@,
        params.with_position == request.with_position,
        params.lower_case == request.lower_case,
        params.stem == request.stem,
        params.remove_stop_words == request.remove_stop_words,
        params.ascii_folding == request.ascii_folding,
        params.ngram_prefix_only == request.ngram_prefix_only,
        params.max_token_length is Some <==> request.max_token_length is Some,
        params.max_token_length matches Some(n) ==> request.max_token_length == Some(n as i64),
        params.ngram_min_length is Some <==> request.ngram_min_length is Some,
        params.ngram_min_length matches Some(n) ==> request.ngram_min_length == Some(n as i64),
        params.ngram_max_length is Some <==> request.ngram_max_length is Some,
        params.ngram_max_length matches Some(n) ==> request.ngram_max_length == Some(n as i64),
        params.memory_limit_mb is Some <==> request.memory_limit_mb is Some,
        params.memory_limit_mb matches Some(n) ==> request.memory_limit_mb == Some(n as i64),
        params.num_workers is Some <==> request.num_workers is Some,
        params.num_workers matches Some(n) ==> request.num_workers == Some(n as i64),
{
}

/// A full-text index is refused exactly where its language is wrong or one of its numbers is
/// negative or too large; the language is told of first.
pub proof fn full_text_is_refused_only_for_a_reason(
    request: FtsRequest,
    language: Option<Seq<char>>,
)
    ensures
        fts_fault(request, language) is None <==> {
            &&& language is None
            &&& request.max_token_length matches Some(n) ==> 0 <= n <= usize::MAX
            &&& request.ngram_min_length matches Some(n) ==> 0 <= n <= u32::MAX
            &&& request.ngram_max_length matches Some(n) ==> 0 <= n <= u32::MAX
            &&& request.memory_limit_mb matches Some(n) ==> 0 <= n
            &&& request.num_workers matches Some(n) ==> 0 <= n <= usize::MAX
        },
        language matches Some(e) ==> fts_fault(request, language) == Some(
            "invalid FTS language '"@ + request.language@ + "': "@ + e,
        ),
{
}

/// A number that is given is handed on unchanged, one that is not stays so, and only one out of
/// range is refused.
pub proof fn numbers_are_handed_on(value: Option<i64>, max: int, message: Seq<char>)
    ensures
        value is None ==> bounded(value, max, message) == Ok::<Option<int>, Seq<char>>(None),
        value matches Some(n) ==> {
            &&& 0 <= n <= max ==> bounded(value, max, message) == Ok::<Option<int>, Seq<char>>(
                Some(n as int),
            )
            &&& !(0 <= n <= max) ==> bounded(value, max, message) == Err::<
                Option<int>,
                Seq<char>,
            >(message)
        },
{
}

/// The kind of scalar index is the one that the name stands for, in any case; a name that stands for
/// none is refused.
pub proof fn index_kinds_have_their_names(index_type: Seq<char>)
    ensures
        ({
            let name = text::lower(index_type);
            let r = scalar_index_named(index_type);
            &&& r == Ok::<ScalarIndexType, Seq<char>>(ScalarIndexType::BTree) <==> name == "btree"@
                || name == "b-tree"@
            &&& r == Ok::<ScalarIndexType, Seq<char>>(ScalarIndexType::Bitmap) <==> name
                == "bitmap"@
            &&& r == Ok::<ScalarIndexType, Seq<char>>(ScalarIndexType::LabelList) <==> name
                == "label_list"@ || name == "labellist"@ || name == "label-list"@
        }),
{
    reveal_strlit("btree");
    reveal_strlit("b-tree");
    reveal_strlit("bitmap");
    reveal_strlit("label_list");
    reveal_strlit("labellist");
    reveal_strlit("label-list");
    assert("btree"@.len() == 5 && "b-tree"@.len() == 6 && "bitmap"@.len() == 6);
    assert("b-tree"@[1] == '-' && "bitmap"@[1] == 'i');
    assert("label_list"@.len() == 10 && "labellist"@.len() == 9 && "label-list"@.len() == 10);
}

/// Only the ways to optimize that merge heed the number, and they hand it on unchanged: without one
/// a merge is of one part, and the dataset decides where it is left to it.
pub proof fn only_merging_heeds_the_number(mode: Seq<char>, number: Option<i64>)
    ensures
        ({
            let name = text::lower(mode);
            let r = optimize_named(mode, number);
            let bad = number is Some && !(0 <= number->Some_0 <= usize::MAX);
            &&& name == "append"@ ==> r == Ok::<Optimize, Seq<char>>(Optimize::Append)
            &&& name == "retrain"@ ==> r == Ok::<Optimize, Seq<char>>(Optimize::Retrain)
            &&& name == "merge"@ || name == "auto"@ || name == "default"@ ==> (r is Err <==> bad)
            &&& name == "merge"@ && !bad ==> r == Ok::<Optimize, Seq<char>>(
                Optimize::Merge(
                    match number {
                        Some(n) => n as int,
                        None => 1,
                    },
                ),
            )
            &&& (name == "auto"@ || name == "default"@) && !bad ==> r == Ok::<Optimize, Seq<char>>(
                Optimize::Auto(
                    match number {
                        Some(n) => Some(n as int),
                        None => None,
                    },
                ),
            )
            &&& name != "append"@ && name != "retrain"@ && name != "merge"@ && name != "auto"@
                && name != "default"@ ==> r is Err
        }),
{
    reveal_strlit("append");
    reveal_strlit("merge");
    reveal_strlit("retrain");
    reveal_strlit("auto");
    reveal_strlit("default");
    assert("append"@.len() == 6 && "merge"@.len() == 5 && "retrain"@.len() == 7 && "auto"@.len()
        == 4 && "default"@.len() == 7);
    assert("retrain"@[0] == 'r' && "default"@[0] == 'd');
}

/// The indexes to optimize are those that were named, in order, and all of them where none was; how
/// many were named is told.
pub proof fn named_indexes_are_optimized(
    index_names: order::Texts,
    mode: Seq<char>,
    number: Option<i64>,
)
    requires
        index_names.len() <= i64::MAX,
    ensures
        optimize_request(index_names, mode, number) is Ok <==> optimize_named(mode, number) is Ok,
        optimize_request(index_names, mode, number) matches Ok(request) ==> {
            &&& Ok::<Optimize, Seq<char>>(request.mode) == optimize_named(mode, number)
            &&& request.index_names is None <==> index_names.len() == 0
            &&& request.index_names matches Some(names) ==> names == index_names
            &&& request.index_count == index_names.len()
        },
{
}

/// The columns of an index are its fields, in order: each by its path, or by its id where it has
/// none.
pub proof fn index_columns_are_its_fields(fields: Seq<(u32, Option<String>)>, i: int)
    requires
        0 <= i < fields.len(),
    ensures
        field_names(fields).len() == fields.len(),
        fields[i].1 matches Some(path) ==> field_names(fields)[i] == path@,
        fields[i].1 is None ==> field_names(fields)[i] == "<field:"@ + text::decimal(
            fields[i].0 as nat,
        ) + ">"@,
{
}

/// The row of an index tells what the dataset tells of it, each in its own place.
pub proof fn index_row_tells_what_is_told(description: IndexDescription, columns_json: Seq<char>)
    ensures
        ({
            let r = index_row(description, columns_json);
            &&& r.0 == description.name@
            &&& r.1 == description.index_type@
            &&& r.2 == columns_json
            &&& r.3 == description.type_url@
            &&& description.rows_indexed <= i64::MAX ==> r.4 == description.rows_indexed
            &&& r.5 is Some <==> description.total_size_bytes is Some
            &&& description.total_size_bytes matches Some(n) ==> n <= i64::MAX ==> r.5 == Some(
                n as i64,
            )
            &&& r.6 == description.details@
        }),
{
}

/// Every index has one row, in order, told of by its own description.
pub proof fn every_index_has_its_row(descriptions: Seq<IndexDescription>, i: int)
    requires
        0 <= i < descriptions.len(),
    ensures
        index_rows(descriptions).len() == descriptions.len(),
        index_rows(descriptions)[i] == index_row(
            descriptions[i],
            json::json_array(field_names(descriptions[i].fields@)),
        ),
{
}

/// The first fault in the order of the options is the one that is told of.
pub proof fn first_fault_is_told(request: FtsRequest)
    ensures
        (true) ==> (request.max_token_length matches Some(n) ==> !(0 <= n <= usize::MAX)
            ==> fts_fault(request, None) == Some("max_token_length"@ + " must be a non-negative integer"@)),
        ((request.max_token_length matches Some(n) ==> 0 <= n <= usize::MAX))
            ==> (request.ngram_min_length matches Some(n) ==> !(0 <= n <= u32::MAX)
            ==> fts_fault(request, None) == Some("ngram_min_length"@ + " must fit in u32"@)),
        ((request.max_token_length matches Some(n) ==> 0 <= n <= usize::MAX)
            && (request.ngram_min_length matches Some(n) ==> 0 <= n <= u32::MAX))
            ==> (request.ngram_max_length matches Some(n) ==> !(0 <= n <= u32::MAX)
            ==> fts_fault(request, None) == Some("ngram_max_length"@ + " must fit in u32"@)),
        ((request.max_token_length matches Some(n) ==> 0 <= n <= usize::MAX)
            && (request.ngram_min_length matches Some(n) ==> 0 <= n <= u32::MAX)
            && (request.ngram_max_length matches Some(n) ==> 0 <= n <= u32::MAX))
            ==> (request.memory_limit_mb matches Some(n) ==> !(0 <= n <= u64::MAX)
            ==> fts_fault(request, None) == Some("memory_limit_mb"@ + " must be a non-negative integer"@)),
        ((request.max_token_length matches Some(n) ==> 0 <= n <= usize::MAX)
            && (request.ngram_min_length matches Some(n) ==> 0 <= n <= u32::MAX)
            && (request.ngram_max_length matches Some(n) ==> 0 <= n <= u32::MAX)
            && (request.memory_limit_mb matches Some(n) ==> 0 <= n <= u64::MAX))
            ==> (request.num_workers matches Some(n) ==> !(0 <= n <= usize::MAX)
            ==> fts_fault(request, None) == Some("num_workers"@ + " must be a non-negative integer"@)),
{
}

} // verus!
