//! Compacting the fragments of a dataset.
use crate::numbers;
use crate::text;
use crate::write::columns::Float32Bits;
use crate::write::limits;
use crate::write::limits::{optional_u64, optional_usize};
use vstd::prelude::*;

verus! {

/// How fragments are rewritten.
#[derive(Clone, Copy, PartialEq, Eq, Structural, Debug)]
pub enum CompactionMode {
    Reencode,
    TryBinaryCopy,
    ForceBinaryCopy,
}

/// What is asked of compacting: numbers and names are as they were given.
#[derive(Debug)]
pub struct CompactionRequest {
    pub target_rows_per_fragment: Option<i64>,
    pub max_rows_per_group: Option<i64>,
    pub max_bytes_per_file: Option<i64>,
    pub materialize_deletions: bool,
    pub materialize_deletions_threshold: Float32Bits,
    pub num_threads: Option<i64>,
    pub batch_size: Option<i64>,
    pub defer_index_remap: bool,
    pub compaction_mode: Option<String>,
    pub max_source_fragments: Option<i64>,
    pub io_buffer_size: Option<i64>,
    pub rewrite_all: bool,
}

/// How to compact. What is `None` has the default.
#[derive(Clone, Copy, PartialEq, Eq, Structural, Debug)]
pub struct CompactionSettings {
    pub target_rows_per_fragment: Option<usize>,
    pub max_rows_per_group: Option<usize>,
    pub max_bytes_per_file: Option<usize>,
    pub materialize_deletions: bool,
    pub materialize_deletions_threshold: Float32Bits,
    pub num_threads: Option<usize>,
    pub batch_size: Option<usize>,
    pub defer_index_remap: bool,
    pub compaction_mode: Option<CompactionMode>,
    pub max_source_fragments: Option<usize>,
    pub io_buffer_size: Option<u64>,
    pub rewrite_all: bool,
}

/// Whether a single-precision number is finite: its exponent does not have all its bits.
pub open spec fn finite(bits: Float32Bits) -> bool {
    bits.0 % 0x8000_0000 < 0x7f80_0000
}

/// The mode of the given name, or the message that there is none.
pub open spec fn mode_named(value: Option<Seq<char>>) -> Result<Option<CompactionMode>, Seq<char>> {
    match value {
        None => Ok(None),
        Some(name) => if name == "reencode"@ {
            Ok(Some(CompactionMode::Reencode))
        } else if name == "try_binary_copy"@ {
            Ok(Some(CompactionMode::TryBinaryCopy))
        } else if name == "force_binary_copy"@ {
            Ok(Some(CompactionMode::ForceBinaryCopy))
        } else {
            Err(
                "invalid compaction_mode '"@ + name
                    + "': must be 'reencode', 'try_binary_copy', or 'force_binary_copy'"@,
            )
        },
    }
}

/// A mode or a message as a sequence of characters.
pub open spec fn mode_outcome(r: Result<Option<CompactionMode>, String>) -> Result<
    Option<CompactionMode>,
    Seq<char>,
> {
    match r {
        Ok(mode) => Ok(mode),
        Err(message) => Err(message@),
    }
}

/// The mode of the given name; fails where there is none.
pub fn parse_compaction_mode(value: Option<&str>) -> (r: Result<Option<CompactionMode>, String>)
    ensures
        mode_outcome(r) == mode_named(text::text_option(value)),
{
    match value {
        None => Ok(None),
        Some(name) => if name.eq("reencode") {
            Ok(Some(CompactionMode::Reencode))
        } else if name.eq("try_binary_copy") {
            Ok(Some(CompactionMode::TryBinaryCopy))
        } else if name.eq("force_binary_copy") {
            Ok(Some(CompactionMode::ForceBinaryCopy))
        } else {
            let mut message = "invalid compaction_mode '".to_owned();
            message.append(name);
            message.append("': must be 'reencode', 'try_binary_copy', or 'force_binary_copy'");
            Err(message)
        },
    }
}

/// A number that is given or not, in the type of a count.
pub open spec fn count(value: Option<i64>, name: Seq<char>) -> Result<Option<int>, Seq<char>> {
    limits::limited(value, name, usize::MAX as int)
}

/// The message of the first fault in what is asked of compacting, if any.
pub open spec fn request_fault(request: CompactionRequest) -> Option<Seq<char>> {
    if !finite(request.materialize_deletions_threshold) {
        Some("materialize_deletions_threshold must be finite"@)
    } else if let Err(e) = count(request.target_rows_per_fragment, "target_rows_per_fragment"@) {
        Some(e)
    } else if let Err(e) = count(request.max_rows_per_group, "max_rows_per_group"@) {
        Some(e)
    } else if let Err(e) = count(request.max_bytes_per_file, "max_bytes_per_file"@) {
        Some(e)
    } else if let Err(e) = count(request.num_threads, "num_threads"@) {
        Some(e)
    } else if let Err(e) = count(request.batch_size, "batch_size"@) {
        Some(e)
    } else if let Err(e) = mode_named(request.compaction_mode.deep_view()) {
        Some(e)
    } else if let Err(e) = count(request.max_source_fragments, "max_source_fragments"@) {
        Some(e)
    } else if let Err(e) = limits::limited(
        request.io_buffer_size,
        "io_buffer_size"@,
        u64::MAX as int,
    ) {
        Some(e)
    } else if request.rewrite_all && request.max_source_fragments is Some {
        Some("rewrite_all cannot be combined with max_source_fragments"@)
    } else {
        None
    }
}

/// A number that is given or not in another type.
pub open spec fn same_number(value: Option<i64>, n: Option<int>) -> bool {
    match value {
        Some(v) => n == Some(v as int),
        None => n is None,
    }
}

/// A count that is given or not, as an integer.
pub open spec fn as_number(n: Option<usize>) -> Option<int> {
    match n {
        Some(v) => Some(v as int),
        None => None,
    }
}

/// A number that is given or not, as an integer.
pub open spec fn as_long_number(n: Option<u64>) -> Option<int> {
    match n {
        Some(v) => Some(v as int),
        None => None,
    }
}

/// Whether settings are what was asked for.
pub open spec fn settings_for(request: CompactionRequest, settings: CompactionSettings) -> bool {
    &&& same_number(
        request.target_rows_per_fragment,
        as_number(settings.target_rows_per_fragment),
    )
    &&& same_number(request.max_rows_per_group, as_number(settings.max_rows_per_group))
    &&& same_number(request.max_bytes_per_file, as_number(settings.max_bytes_per_file))
    &&& settings.materialize_deletions == request.materialize_deletions
    &&& settings.materialize_deletions_threshold == request.materialize_deletions_threshold
    &&& same_number(request.num_threads, as_number(settings.num_threads))
    &&& same_number(request.batch_size, as_number(settings.batch_size))
    &&& settings.defer_index_remap == request.defer_index_remap
    &&& mode_named(request.compaction_mode.deep_view()) == Ok::<Option<CompactionMode>, Seq<char>>(
        settings.compaction_mode,
    )
    &&& same_number(request.max_source_fragments, as_number(settings.max_source_fragments))
    &&& same_number(request.io_buffer_size, as_long_number(settings.io_buffer_size))
    &&& settings.rewrite_all == request.rewrite_all
}

/// Reads what is asked of compacting; fails at the first fault.
pub fn lance_optimize_impl(request: &CompactionRequest) -> (r: Result<CompactionSettings, String>)
    ensures
        match request_fault(*request) {
            Some(message) => r is Err && r->Err_0@ == message,
            None => r is Ok && settings_for(*request, r->Ok_0),
        },
{
    let threshold = request.materialize_deletions_threshold;
    if threshold.0 % 0x8000_0000 >= 0x7f80_0000 {
        return Err("materialize_deletions_threshold must be finite".to_owned());
    }
    let target_rows_per_fragment: Option<usize> = match optional_usize(
        request.target_rows_per_fragment,
        "target_rows_per_fragment",
    ) {
        Ok(n) => n,
        Err(message) => {
            return Err(message);
        },
    };
    let max_rows_per_group: Option<usize> = match optional_usize(
        request.max_rows_per_group,
        "max_rows_per_group",
    ) {
        Ok(n) => n,
        Err(message) => {
            return Err(message);
        },
    };
    let max_bytes_per_file: Option<usize> = match optional_usize(
        request.max_bytes_per_file,
        "max_bytes_per_file",
    ) {
        Ok(n) => n,
        Err(message) => {
            return Err(message);
        },
    };
    let num_threads: Option<usize> = match optional_usize(request.num_threads, "num_threads") {
        Ok(n) => n,
        Err(message) => {
            return Err(message);
        },
    };
    let batch_size: Option<usize> = match optional_usize(request.batch_size, "batch_size") {
        Ok(n) => n,
        Err(message) => {
            return Err(message);
        },
    };
    let mode_name: Option<&str> = match &request.compaction_mode {
        Some(name) => Some(name.as_str()),
        None => None,
    };
    assert(text::text_option(mode_name) == request.compaction_mode.deep_view());
    let compaction_mode = match parse_compaction_mode(mode_name) {
        Ok(mode) => mode,
        Err(message) => {
            return Err(message);
        },
    };
    let max_source_fragments: Option<usize> = match optional_usize(
        request.max_source_fragments,
        "max_source_fragments",
    ) {
        Ok(n) => n,
        Err(message) => {
            return Err(message);
        },
    };
    let io_buffer_size: Option<u64> = match optional_u64(request.io_buffer_size, "io_buffer_size") {
        Ok(n) => n,
        Err(message) => {
            return Err(message);
        },
    };
    if request.rewrite_all && max_source_fragments.is_some() {
        return Err("rewrite_all cannot be combined with max_source_fragments".to_owned());
    }
    Ok(
        CompactionSettings {
            target_rows_per_fragment,
            max_rows_per_group,
            max_bytes_per_file,
            materialize_deletions: request.materialize_deletions,
            materialize_deletions_threshold: threshold,
            num_threads,
            batch_size,
            defer_index_remap: request.defer_index_remap,
            compaction_mode,
            max_source_fragments,
            io_buffer_size,
            rewrite_all: request.rewrite_all,
        },
    )
}

/// Plans to rewrite all fragments of a dataset at once: one task with all of them, or none where
/// there is no fragment.
pub fn rewrite_all_tasks<F>(fragments: Vec<F>) -> (tasks: Vec<Vec<F>>)
    ensures
        tasks@ == rewrite_tasks(fragments),
        fragments@.len() == 0 ==> tasks@ == Seq::<Vec<F>>::empty(),
        fragments@.len() > 0 ==> tasks@ == seq![fragments],
{
    let mut tasks: Vec<Vec<F>> = Vec::new();
    if fragments.len() > 0 {
        tasks.push(fragments);
    }
    tasks
}

/// What compacting came to: fragments removed and added, files removed and added.
#[derive(Clone, Copy, PartialEq, Eq, Structural, Debug)]
pub struct CompactionCounts {
    pub fragments_removed: usize,
    pub fragments_added: usize,
    pub files_removed: usize,
    pub files_added: usize,
}

/// The row that compacting ends in.
pub open spec fn optimize_row_of(counts: CompactionCounts, duration_ms: i64) -> (
    i64,
    i64,
    i64,
    i64,
    i64,
) {
    (
        numbers::wrapped_i64(counts.fragments_removed as u64),
        numbers::wrapped_i64(counts.fragments_added as u64),
        numbers::wrapped_i64(counts.files_removed as u64),
        numbers::wrapped_i64(counts.files_added as u64),
        duration_ms,
    )
}

/// The tasks that rewrite all fragments at once.
pub open spec fn rewrite_tasks<F>(fragments: Vec<F>) -> Seq<Vec<F>> {
    if fragments@.len() == 0 {
        seq![]
    } else {
        seq![fragments]
    }
}

/// The row that compacting ends in.
pub fn optimize_row(counts: &CompactionCounts, duration_ms: i64) -> (r: (i64, i64, i64, i64, i64))
    ensures
        r == optimize_row_of(*counts, duration_ms),
        r == (
            numbers::wrapped_i64(counts.fragments_removed as u64),
            numbers::wrapped_i64(counts.fragments_added as u64),
            numbers::wrapped_i64(counts.files_removed as u64),
            numbers::wrapped_i64(counts.files_added as u64),
            duration_ms,
        ),
{
    (
        numbers::wrap_i64(counts.fragments_removed as u64),
        numbers::wrap_i64(counts.fragments_added as u64),
        numbers::wrap_i64(counts.files_removed as u64),
        numbers::wrap_i64(counts.files_added as u64),
        duration_ms,
    )
}

// ---------------------------------------------------------------------------
// What holds of compacting
// ---------------------------------------------------------------------------

/// Every setting is the one that was asked for under its own name, and what was not asked for keeps
/// the default.
pub proof fn settings_keep_every_option(request: CompactionRequest, settings: CompactionSettings)
    requires
        settings_for(request, settings),
    ensures
        settings.target_rows_per_fragment is Some <==> request.target_rows_per_fragment is Some,
        settings.target_rows_per_fragment matches Some(n) ==> request.target_rows_per_fragment
            == Some(n as i64),
        settings.max_rows_per_group is Some <==> request.max_rows_per_group is Some,
        settings.max_rows_per_group matches Some(n) ==> request.max_rows_per_group == Some(
            n as i64,
        ),
        settings.max_bytes_per_file is Some <==> request.max_bytes_per_file is Some,
        settings.max_bytes_per_file matches Some(n) ==> request.max_bytes_per_file == Some(
            n as i64,
        ),
        settings.materialize_deletions == request.materialize_deletions,
        settings.materialize_deletions_threshold.0 == request.materialize_deletions_threshold.0,
        settings.num_threads is Some <==> request.num_threads is Some,
        settings.num_threads matches Some(n) ==> request.num_threads == Some(n as i64),
        settings.batch_size is Some <==> request.batch_size is Some,
        settings.batch_size matches Some(n) ==> request.batch_size == Some(n as i64),
        settings.defer_index_remap == request.defer_index_remap,
        settings.max_source_fragments is Some <==> request.max_source_fragments is Some,
        settings.max_source_fragments matches Some(n) ==> request.max_source_fragments == Some(
            n as i64,
        ),
        settings.io_buffer_size is Some <==> request.io_buffer_size is Some,
        settings.io_buffer_size matches Some(n) ==> request.io_buffer_size == Some(n as i64),
        settings.rewrite_all == request.rewrite_all,
        settings.compaction_mode is None <==> request.compaction_mode is None,
        settings.compaction_mode matches Some(mode) ==> match mode {
            CompactionMode::Reencode => request.compaction_mode->Some_0@ == "reencode"@,
            CompactionMode::TryBinaryCopy => request.compaction_mode->Some_0@
                == "try_binary_copy"@,
            CompactionMode::ForceBinaryCopy => request.compaction_mode->Some_0@
                == "force_binary_copy"@,
        },
{
}

/// A request is accepted exactly where the threshold is finite, no number is negative or too large,
/// the mode has one of the three names, and not all fragments are to be rewritten while their number
/// is limited.
pub proof fn requests_are_refused_only_for_a_reason(request: CompactionRequest)
    ensures
        request_fault(request) is None <==> {
            &&& request.materialize_deletions_threshold.0 % 0x8000_0000 < 0x7f80_0000
            &&& request.target_rows_per_fragment matches Some(n) ==> 0 <= n <= usize::MAX
            &&& request.max_rows_per_group matches Some(n) ==> 0 <= n <= usize::MAX
            &&& request.max_bytes_per_file matches Some(n) ==> 0 <= n <= usize::MAX
            &&& request.num_threads matches Some(n) ==> 0 <= n <= usize::MAX
            &&& request.batch_size matches Some(n) ==> 0 <= n <= usize::MAX
            &&& request.max_source_fragments matches Some(n) ==> 0 <= n <= usize::MAX
            &&& request.io_buffer_size matches Some(n) ==> 0 <= n
            &&& request.compaction_mode matches Some(mode) ==> mode@ == "reencode"@ || mode@
                == "try_binary_copy"@ || mode@ == "force_binary_copy"@
            &&& !(request.rewrite_all && request.max_source_fragments is Some)
        },
{
}

/// Each of the three names of a mode stands for a mode of its own.
pub proof fn modes_have_names_of_their_own(a: Seq<char>, b: Seq<char>)
    requires
        mode_named(Some(a)) is Ok,
        mode_named(Some(a)) == mode_named(Some(b)),
    ensures
        a == b,
{
    reveal_strlit("reencode");
    reveal_strlit("try_binary_copy");
    reveal_strlit("force_binary_copy");
}

/// The row of compacting tells each number in its own place, as it is.
pub proof fn row_tells_every_number(counts: CompactionCounts, duration_ms: i64)
    requires
        counts.fragments_removed <= i64::MAX,
        counts.fragments_added <= i64::MAX,
        counts.files_removed <= i64::MAX,
        counts.files_added <= i64::MAX,
    ensures
        ({
            let r = optimize_row_of(counts, duration_ms);
            &&& r.0 == counts.fragments_removed
            &&& r.1 == counts.fragments_added
            &&& r.2 == counts.files_removed
            &&& r.3 == counts.files_added
            &&& r.4 == duration_ms
        }),
{
}

/// Rewriting all fragments leaves none out and takes none twice: the tasks hold exactly the
/// fragments, in order, and no task is without any.
pub proof fn every_fragment_is_rewritten_once<F>(fragments: Vec<F>)
    ensures
        rewrite_tasks(fragments).map_values(|task: Vec<F>| task@).flatten() == fragments@,
        forall|i: int|
            0 <= i < rewrite_tasks(fragments).len() ==> (#[trigger] rewrite_tasks(
                fragments,
            )[i])@.len() > 0,
        rewrite_tasks(fragments).len() <= 1,
{
    let tasks = rewrite_tasks(fragments).map_values(|task: Vec<F>| task@);
    if fragments@.len() == 0 {
        assert(tasks =~= seq![]);
        assert(tasks.flatten() =~= fragments@);
    } else {
        assert(tasks =~= seq![fragments@]);
        assert(tasks.drop_first() =~= seq![]);
        assert(tasks.drop_first().flatten() =~= seq![]);
        assert(tasks.flatten() =~= fragments@);
    }
}

/// The first fault in the order of the options is the one that is told of.
pub proof fn first_fault_is_told(request: CompactionRequest)
    ensures
        request.materialize_deletions_threshold.0 % 0x8000_0000 >= 0x7f80_0000 ==> request_fault(
            request,
        ) == Some("materialize_deletions_threshold must be finite"@),
        (request.materialize_deletions_threshold.0 % 0x8000_0000 < 0x7f80_0000)
            ==> (request.target_rows_per_fragment matches Some(n) ==> n < 0
            ==> request_fault(request) == Some("target_rows_per_fragment"@ + " must be non-negative"@)),
        (request.materialize_deletions_threshold.0 % 0x8000_0000 < 0x7f80_0000
            && (request.target_rows_per_fragment matches Some(n) ==> 0 <= n <= usize::MAX))
            ==> (request.max_rows_per_group matches Some(n) ==> n < 0
            ==> request_fault(request) == Some("max_rows_per_group"@ + " must be non-negative"@)),
        (request.materialize_deletions_threshold.0 % 0x8000_0000 < 0x7f80_0000
            && (request.target_rows_per_fragment matches Some(n) ==> 0 <= n <= usize::MAX)
            && (request.max_rows_per_group matches Some(n) ==> 0 <= n <= usize::MAX))
            ==> (request.max_bytes_per_file matches Some(n) ==> n < 0
            ==> request_fault(request) == Some("max_bytes_per_file"@ + " must be non-negative"@)),
        (request.materialize_deletions_threshold.0 % 0x8000_0000 < 0x7f80_0000
            && (request.target_rows_per_fragment matches Some(n) ==> 0 <= n <= usize::MAX)
            && (request.max_rows_per_group matches Some(n) ==> 0 <= n <= usize::MAX)
            && (request.max_bytes_per_file matches Some(n) ==> 0 <= n <= usize::MAX))
            ==> (request.num_threads matches Some(n) ==> n < 0
            ==> request_fault(request) == Some("num_threads"@ + " must be non-negative"@)),
        (request.materialize_deletions_threshold.0 % 0x8000_0000 < 0x7f80_0000
            && (request.target_rows_per_fragment matches Some(n) ==> 0 <= n <= usize::MAX)
            && (request.max_rows_per_group matches Some(n) ==> 0 <= n <= usize::MAX)
            && (request.max_bytes_per_file matches Some(n) ==> 0 <= n <= usize::MAX)
            && (request.num_threads matches Some(n) ==> 0 <= n <= usize::MAX))
            ==> (request.batch_size matches Some(n) ==> n < 0
            ==> request_fault(request) == Some("batch_size"@ + " must be non-negative"@)),
        (request.materialize_deletions_threshold.0 % 0x8000_0000 < 0x7f80_0000
            && (request.target_rows_per_fragment matches Some(n) ==> 0 <= n <= usize::MAX)
            && (request.max_rows_per_group matches Some(n) ==> 0 <= n <= usize::MAX)
            && (request.max_bytes_per_file matches Some(n) ==> 0 <= n <= usize::MAX)
            && (request.num_threads matches Some(n) ==> 0 <= n <= usize::MAX)
            && (request.batch_size matches Some(n) ==> 0 <= n <= usize::MAX))
            ==> (request.compaction_mode matches Some(mode) ==> mode@
            != "reencode"@ && mode@ != "try_binary_copy"@ && mode@ != "force_binary_copy"@
            ==> request_fault(request) == Some(
            "invalid compaction_mode '"@ + mode@
                + "': must be 'reencode', 'try_binary_copy', or 'force_binary_copy'"@,
        )),
        (request.materialize_deletions_threshold.0 % 0x8000_0000 < 0x7f80_0000
            && (request.target_rows_per_fragment matches Some(n) ==> 0 <= n <= usize::MAX)
            && (request.max_rows_per_group matches Some(n) ==> 0 <= n <= usize::MAX)
            && (request.max_bytes_per_file matches Some(n) ==> 0 <= n <= usize::MAX)
            && (request.num_threads matches Some(n) ==> 0 <= n <= usize::MAX)
            && (request.batch_size matches Some(n) ==> 0 <= n <= usize::MAX)
            && (request.compaction_mode matches Some(mode) ==> mode@ == "reencode"@ || mode@
            == "try_binary_copy"@ || mode@ == "force_binary_copy"@))
            ==> (request.max_source_fragments matches Some(n) ==> n < 0
            ==> request_fault(request) == Some("max_source_fragments"@ + " must be non-negative"@)),
        (request.materialize_deletions_threshold.0 % 0x8000_0000 < 0x7f80_0000
            && (request.target_rows_per_fragment matches Some(n) ==> 0 <= n <= usize::MAX)
            && (request.max_rows_per_group matches Some(n) ==> 0 <= n <= usize::MAX)
            && (request.max_bytes_per_file matches Some(n) ==> 0 <= n <= usize::MAX)
            && (request.num_threads matches Some(n) ==> 0 <= n <= usize::MAX)
            && (request.batch_size matches Some(n) ==> 0 <= n <= usize::MAX)
            && (request.compaction_mode matches Some(mode) ==> mode@ == "reencode"@ || mode@
            == "try_binary_copy"@ || mode@ == "force_binary_copy"@)
            && (request.max_source_fragments matches Some(n) ==> 0 <= n <= usize::MAX))
            ==> (request.io_buffer_size matches Some(n) ==> n < 0
            ==> request_fault(request) == Some("io_buffer_size"@ + " must be non-negative"@)),
        (request.materialize_deletions_threshold.0 % 0x8000_0000 < 0x7f80_0000
            && (request.target_rows_per_fragment matches Some(n) ==> 0 <= n <= usize::MAX)
            && (request.max_rows_per_group matches Some(n) ==> 0 <= n <= usize::MAX)
            && (request.max_bytes_per_file matches Some(n) ==> 0 <= n <= usize::MAX)
            && (request.num_threads matches Some(n) ==> 0 <= n <= usize::MAX)
            && (request.batch_size matches Some(n) ==> 0 <= n <= usize::MAX)
            && (request.compaction_mode matches Some(mode) ==> mode@ == "reencode"@ || mode@
            == "try_binary_copy"@ || mode@ == "force_binary_copy"@)
            && (request.max_source_fragments matches Some(n) ==> 0 <= n <= usize::MAX)
            && (request.io_buffer_size matches Some(n) ==> 0 <= n)
            && request.rewrite_all && request.max_source_fragments
            is Some) ==> request_fault(request) == Some(
            "rewrite_all cannot be combined with max_source_fragments"@,
        ),
{
}

} // verus!
