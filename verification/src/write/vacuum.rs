//! Removing old files of a dataset.
use crate::calendar;
use crate::calendar::{earlier, utc_now, Moment};
use crate::numbers;
use crate::write::limits;
use crate::write::limits::{optional_u64, optional_usize};
use vstd::prelude::*;

verus! {

/// What is asked of removing old files: numbers are as they were given.
#[derive(Clone, Copy, PartialEq, Eq, Structural, Debug)]
pub struct CleanupRequest {
    pub older_than_seconds: Option<i64>,
    pub before_version: Option<i64>,
    pub delete_unverified: bool,
    pub error_if_tagged_old_versions: bool,
    pub clean_referenced_branches: bool,
    pub delete_rate_limit: Option<i64>,
}

/// Which old files to remove: those from before a moment, those of versions before one, and what
/// else is asked for.
#[derive(Clone, Copy, PartialEq, Eq, Structural, Debug)]
pub struct CleanupPolicy {
    pub before_timestamp: Option<Moment>,
    pub before_version: Option<u64>,
    pub delete_unverified: bool,
    pub error_if_tagged_old_versions: bool,
    pub clean_referenced_branches: bool,
    pub delete_rate_limit: Option<u64>,
}

/// A policy or a message as a sequence of characters.
pub open spec fn policy_outcome(r: Result<CleanupPolicy, String>) -> Result<
    CleanupPolicy,
    Seq<char>,
> {
    match r {
        Ok(policy) => Ok(policy),
        Err(message) => Err(message@),
    }
}

/// The moment before which files are old, `now` being the present.
pub open spec fn cutoff(now: Moment, older_than_seconds: Option<i64>) -> Option<Moment> {
    match older_than_seconds {
        None => None,
        Some(seconds) => calendar::moment_before(now, seconds as int),
    }
}

/// Whether the calendar has the moment before which files are old, `now` being the present.
pub open spec fn has_cutoff(now: Moment, older_than_seconds: Option<i64>) -> bool {
    older_than_seconds matches Some(seconds) ==> seconds < 0 || calendar::moment_before(
        now,
        seconds as int,
    ) is Some
}

/// A number that is given or not, in the type of a version.
pub open spec fn version_number(value: Option<i64>) -> Option<u64> {
    match value {
        Some(n) => Some(n as u64),
        None => None,
    }
}

/// Which old files to remove, `now` being the present, or the message of the first fault.
pub open spec fn policy_at(now: Moment, request: CleanupRequest) -> Result<
    CleanupPolicy,
    Seq<char>,
> {
    if request.older_than_seconds matches Some(seconds) && seconds < 0 {
        Err("older_than_seconds must be non-negative"@)
    } else if let Err(e) = limits::limited(
        request.before_version,
        "before_version"@,
        u64::MAX as int,
    ) {
        Err(e)
    } else if let Err(e) = limits::limited(
        request.delete_rate_limit,
        "delete_rate_limit"@,
        u64::MAX as int,
    ) {
        Err(e)
    } else {
        Ok(
            CleanupPolicy {
                before_timestamp: cutoff(now, request.older_than_seconds),
                before_version: version_number(request.before_version),
                delete_unverified: request.delete_unverified,
                error_if_tagged_old_versions: request.error_if_tagged_old_versions,
                clean_referenced_branches: request.clean_referenced_branches,
                delete_rate_limit: version_number(request.delete_rate_limit),
            },
        )
    }
}

/// Which old files to remove, `now` being the present; fails at the first fault.
pub fn cleanup_policy_at(now: Moment, request: &CleanupRequest) -> (r: Result<CleanupPolicy, String>)
    requires
        now.nanos < 1_000_000_000,
        has_cutoff(now, request.older_than_seconds),
    ensures
        policy_outcome(r) == policy_at(now, *request),
{
    if let Some(seconds) = request.older_than_seconds {
        if seconds < 0 {
            return Err("older_than_seconds must be non-negative".to_owned());
        }
    }
    let before_timestamp: Option<Moment> = match request.older_than_seconds {
        None => None,
        Some(seconds) => earlier(now, seconds),
    };
    let before_version: Option<u64> = match optional_u64(request.before_version, "before_version") {
        Ok(n) => n,
        Err(message) => {
            return Err(message);
        },
    };
    let delete_rate_limit: Option<u64> = match optional_u64(
        request.delete_rate_limit,
        "delete_rate_limit",
    ) {
        Ok(n) => n,
        Err(message) => {
            return Err(message);
        },
    };
    Ok(
        CleanupPolicy {
            before_timestamp,
            before_version,
            delete_unverified: request.delete_unverified,
            error_if_tagged_old_versions: request.error_if_tagged_old_versions,
            clean_referenced_branches: request.clean_referenced_branches,
            delete_rate_limit,
        },
    )
}

/// What reading a request at some moment comes to: `None` where the calendar does not have the
/// moment before which files are old.
pub open spec fn policy_outcome_at(now: Moment, request: CleanupRequest) -> Option<
    Result<CleanupPolicy, Seq<char>>,
> {
    if has_cutoff(now, request.older_than_seconds) {
        Some(policy_at(now, request))
    } else {
        None
    }
}

/// A policy or a message, where there is one.
pub open spec fn policy_option(r: Option<Result<CleanupPolicy, String>>) -> Option<
    Result<CleanupPolicy, Seq<char>>,
> {
    match r {
        Some(found) => Some(policy_outcome(found)),
        None => None,
    }
}

/// Which old files to remove at the moment of the call; fails at the first fault. `None` where the
/// calendar does not have the moment before which files are old.
pub fn cleanup_policy(request: &CleanupRequest) -> (r: Option<Result<CleanupPolicy, String>>)
    ensures
        exists|now: Moment| #[trigger]
            calendar::is_moment(now) && now.secs >= 0 && now.nanos < 1_000_000_000 && policy_option(r)
                == policy_outcome_at(now, *request),
        request.older_than_seconds matches Some(seconds) && seconds <= 8_334_601_228_800 ==> r
            is Some,
        request.older_than_seconds is None ==> r is Some,
{
    let now = utc_now();
    assert(calendar::is_moment(now));
    if let Some(seconds) = request.older_than_seconds {
        if seconds >= 0 && earlier(now, seconds).is_none() {
            return None;
        }
    }
    Some(cleanup_policy_at(now, request))
}

/// Reads what is asked of removing old files at the moment of the call; fails at the first fault.
/// `None` where the calendar does not have the moment before which files are old.
pub fn lance_vacuum_impl(request: &CleanupRequest) -> (r: Option<Result<CleanupPolicy, String>>)
    ensures
        exists|now: Moment| #[trigger]
            calendar::is_moment(now) && now.secs >= 0 && now.nanos < 1_000_000_000 && policy_option(r)
                == policy_outcome_at(now, *request),
        request.older_than_seconds matches Some(seconds) && seconds <= 8_334_601_228_800 ==> r
            is Some,
        request.older_than_seconds is None ==> r is Some,
{
    cleanup_policy(request)
}

// ---------------------------------------------------------------------------
// What was removed
// ---------------------------------------------------------------------------

/// How much was removed, or would be.
#[derive(Clone, Copy, PartialEq, Eq, Structural, Debug)]
pub struct RemovalStats {
    pub bytes_removed: u64,
    pub old_versions: u64,
    pub data_files_removed: u64,
    pub transaction_files_removed: u64,
    pub index_files_removed: u64,
    pub deletion_files_removed: u64,
}

/// How much was removed, and how long it took.
pub type VacuumStats = (i64, i64, i64, i64, i64, i64, i64);

/// The row that removing old files ends in.
pub open spec fn vacuum_row_of(stats: RemovalStats, duration_ms: i64) -> VacuumStats {
    (
        numbers::wrapped_i64(stats.bytes_removed),
        numbers::wrapped_i64(stats.old_versions),
        numbers::wrapped_i64(stats.data_files_removed),
        numbers::wrapped_i64(stats.transaction_files_removed),
        numbers::wrapped_i64(stats.index_files_removed),
        numbers::wrapped_i64(stats.deletion_files_removed),
        duration_ms,
    )
}

/// The row that removing old files ends in.
pub fn vacuum_row(stats: &RemovalStats, duration_ms: i64) -> (r: VacuumStats)
    ensures
        r == vacuum_row_of(*stats, duration_ms),
        r == (
            numbers::wrapped_i64(stats.bytes_removed),
            numbers::wrapped_i64(stats.old_versions),
            numbers::wrapped_i64(stats.data_files_removed),
            numbers::wrapped_i64(stats.transaction_files_removed),
            numbers::wrapped_i64(stats.index_files_removed),
            numbers::wrapped_i64(stats.deletion_files_removed),
            duration_ms,
        ),
{
    (
        numbers::wrap_i64(stats.bytes_removed),
        numbers::wrap_i64(stats.old_versions),
        numbers::wrap_i64(stats.data_files_removed),
        numbers::wrap_i64(stats.transaction_files_removed),
        numbers::wrap_i64(stats.index_files_removed),
        numbers::wrap_i64(stats.deletion_files_removed),
        duration_ms,
    )
}

// ---------------------------------------------------------------------------
// Planning
// ---------------------------------------------------------------------------

/// A plan to remove old files: the policy, and how many files it tells of at most.
#[derive(Clone, Copy, PartialEq, Eq, Structural, Debug)]
pub struct CleanupPlanRequest {
    pub policy: CleanupPolicy,
    pub max_candidate_files: Option<usize>,
}

/// A plan or a message as a sequence of characters.
pub open spec fn plan_outcome(r: Result<CleanupPlanRequest, String>) -> Result<
    CleanupPlanRequest,
    Seq<char>,
> {
    match r {
        Ok(plan) => Ok(plan),
        Err(message) => Err(message@),
    }
}

/// A plan to remove old files, given the policy, or the message of the first fault.
pub open spec fn plan_with(
    policy: Result<CleanupPolicy, Seq<char>>,
    max_candidate_files: Option<i64>,
) -> Result<CleanupPlanRequest, Seq<char>> {
    match policy {
        Err(message) => Err(message),
        Ok(policy) => match limits::limited(
            max_candidate_files,
            "max_candidate_files"@,
            usize::MAX as int,
        ) {
            Err(message) => Err(message),
            Ok(n) => Ok(
                CleanupPlanRequest {
                    policy,
                    max_candidate_files: match n {
                        Some(v) => Some(v as usize),
                        None => None,
                    },
                },
            ),
        },
    }
}

/// A plan to remove old files, given the policy; fails at the first fault.
pub fn plan_with_policy(policy: Result<CleanupPolicy, String>, max_candidate_files: Option<i64>) -> (r:
    Result<CleanupPlanRequest, String>)
    ensures
        plan_outcome(r) == plan_with(policy_outcome(policy), max_candidate_files),
{
    match policy {
        Err(message) => Err(message),
        Ok(policy) => match optional_usize(max_candidate_files, "max_candidate_files") {
            Err(message) => Err(message),
            Ok(max_candidate_files) => Ok(CleanupPlanRequest { policy, max_candidate_files }),
        },
    }
}

/// A plan or a message, where there is one.
pub open spec fn plan_option(r: Option<Result<CleanupPlanRequest, String>>) -> Option<
    Result<CleanupPlanRequest, Seq<char>>,
> {
    match r {
        Some(found) => Some(plan_outcome(found)),
        None => None,
    }
}

/// What reading a request for a plan at some moment comes to.
pub open spec fn plan_outcome_at(
    now: Moment,
    request: CleanupRequest,
    max_candidate_files: Option<i64>,
) -> Option<Result<CleanupPlanRequest, Seq<char>>> {
    match policy_outcome_at(now, request) {
        None => None,
        Some(policy) => Some(plan_with(policy, max_candidate_files)),
    }
}

/// A plan to remove old files at the moment of the call; fails at the first fault. `None` where the
/// calendar does not have the moment before which files are old.
pub fn lance_cleanup_plan_impl(request: &CleanupRequest, max_candidate_files: Option<i64>) -> (r:
    Option<Result<CleanupPlanRequest, String>>)
    ensures
        exists|now: Moment| #[trigger]
            calendar::is_moment(now) && now.secs >= 0 && now.nanos < 1_000_000_000 && plan_option(r)
                == plan_outcome_at(now, *request, max_candidate_files),
        request.older_than_seconds matches Some(seconds) && seconds <= 8_334_601_228_800 ==> r
            is Some,
        request.older_than_seconds is None ==> r is Some,
{
    match cleanup_policy(request) {
        None => None,
        Some(policy) => Some(plan_with_policy(policy, max_candidate_files)),
    }
}

/// What a plan to remove old files tells: the version it was made of, how much would be removed,
/// whether there are more files than it tells of, and how many it tells of at most.
#[derive(Clone, Copy, PartialEq, Eq, Structural, Debug)]
pub struct CleanupPlan {
    pub read_version: u64,
    pub stats: RemovalStats,
    pub candidate_files_truncated: bool,
    pub candidate_file_limit: usize,
}

/// The numbers in the row of a plan.
pub type CleanupPlanNumbers = (i64, i64, i64, i64, i64, i64, i64, bool, i64);

/// The numbers in the row of a plan.
pub open spec fn plan_numbers_of(plan: CleanupPlan) -> CleanupPlanNumbers {
    (
        numbers::wrapped_i64(plan.read_version),
        numbers::wrapped_i64(plan.stats.bytes_removed),
        numbers::wrapped_i64(plan.stats.old_versions),
        numbers::wrapped_i64(plan.stats.data_files_removed),
        numbers::wrapped_i64(plan.stats.transaction_files_removed),
        numbers::wrapped_i64(plan.stats.index_files_removed),
        numbers::wrapped_i64(plan.stats.deletion_files_removed),
        plan.candidate_files_truncated,
        numbers::wrapped_i64(plan.candidate_file_limit as u64),
    )
}

/// The numbers in the row of a plan.
pub fn cleanup_plan_numbers(plan: &CleanupPlan) -> (r: CleanupPlanNumbers)
    ensures
        r == plan_numbers_of(*plan),
        r == (
            numbers::wrapped_i64(plan.read_version),
            numbers::wrapped_i64(plan.stats.bytes_removed),
            numbers::wrapped_i64(plan.stats.old_versions),
            numbers::wrapped_i64(plan.stats.data_files_removed),
            numbers::wrapped_i64(plan.stats.transaction_files_removed),
            numbers::wrapped_i64(plan.stats.index_files_removed),
            numbers::wrapped_i64(plan.stats.deletion_files_removed),
            plan.candidate_files_truncated,
            numbers::wrapped_i64(plan.candidate_file_limit as u64),
        ),
{
    (
        numbers::wrap_i64(plan.read_version),
        numbers::wrap_i64(plan.stats.bytes_removed),
        numbers::wrap_i64(plan.stats.old_versions),
        numbers::wrap_i64(plan.stats.data_files_removed),
        numbers::wrap_i64(plan.stats.transaction_files_removed),
        numbers::wrap_i64(plan.stats.index_files_removed),
        numbers::wrap_i64(plan.stats.deletion_files_removed),
        plan.candidate_files_truncated,
        numbers::wrap_i64(plan.candidate_file_limit as u64),
    )
}

/// A file is never old before its time: the moment before which files are old lies as far back as
/// was asked for.
pub proof fn cutoff_lies_back(now: Moment, request: CleanupRequest, seconds: i64)
    requires
        calendar::is_moment(now),
        now.nanos < 1_000_000_000,
        request.older_than_seconds == Some(seconds),
        has_cutoff(now, request.older_than_seconds),
        policy_at(now, request) is Ok,
    ensures
        seconds >= 0,
        policy_at(now, request)->Ok_0.before_timestamp matches Some(then) && then.secs + seconds
            == now.secs && then.nanos == now.nanos && calendar::is_moment(then),
{
}

/// Every option of a request is handed on under its own name, unchanged.
pub proof fn policy_keeps_every_option(now: Moment, request: CleanupRequest)
    requires
        policy_at(now, request) is Ok,
    ensures
        ({
            let policy = policy_at(now, request)->Ok_0;
            &&& policy.delete_unverified == request.delete_unverified
            &&& policy.error_if_tagged_old_versions == request.error_if_tagged_old_versions
            &&& policy.clean_referenced_branches == request.clean_referenced_branches
            &&& policy.before_version is Some <==> request.before_version is Some
            &&& policy.before_version matches Some(n) ==> request.before_version
                == Some(n as i64) && n <= i64::MAX
            &&& policy.delete_rate_limit is Some <==> request.delete_rate_limit is Some
            &&& policy.delete_rate_limit matches Some(n) ==> request.delete_rate_limit
                == Some(n as i64) && n <= i64::MAX
            &&& request.older_than_seconds is None ==> policy.before_timestamp is None
        }),
{
}

/// A request is refused exactly where one of its numbers is negative, whatever the moment; the age
/// is told of first, then the version, then the rate.
pub proof fn only_negative_numbers_are_refused(now: Moment, request: CleanupRequest)
    ensures
        ({
            let age = request.older_than_seconds is Some && request.older_than_seconds->Some_0 < 0;
            let version = request.before_version is Some && request.before_version->Some_0 < 0;
            let rate = request.delete_rate_limit is Some && request.delete_rate_limit->Some_0 < 0;
            let r = policy_at(now, request);
            &&& r is Err <==> age || version || rate
            &&& age ==> r->Err_0 == "older_than_seconds must be non-negative"@
            &&& !age && version ==> r->Err_0 == "before_version"@ + " must be non-negative"@
            &&& !age && !version && rate ==> r->Err_0 == "delete_rate_limit"@
                + " must be non-negative"@
        }),
{
}

/// The more seconds a request names, the earlier its files must be: of two requests at one moment
/// the one with the greater age has the earlier cutoff, by the difference.
pub proof fn greater_age_means_earlier_cutoff(
    now: Moment,
    first: CleanupRequest,
    second: CleanupRequest,
    a: i64,
    b: i64,
)
    requires
        now.nanos < 1_000_000_000,
        first.older_than_seconds == Some(a),
        second.older_than_seconds == Some(b),
        has_cutoff(now, Some(a)),
        has_cutoff(now, Some(b)),
        policy_at(now, first) is Ok,
        policy_at(now, second) is Ok,
    ensures
        policy_at(now, first)->Ok_0.before_timestamp matches Some(x) && policy_at(
            now,
            second,
        )->Ok_0.before_timestamp matches Some(y) && x.secs + a == y.secs + b,
{
}

/// A plan has the policy of its request and the number of files that was asked for; only a negative
/// number, or one that is too large, is refused, and behind the faults of the policy.
pub proof fn plan_keeps_policy_and_limit(
    policy: Result<CleanupPolicy, Seq<char>>,
    max_candidate_files: Option<i64>,
)
    ensures
        policy is Err ==> plan_with(policy, max_candidate_files) is Err && plan_with(
            policy,
            max_candidate_files,
        )->Err_0 == policy->Err_0,
        policy is Ok ==> (plan_with(policy, max_candidate_files) is Err <==> max_candidate_files
            is Some && !(0 <= max_candidate_files->Some_0 <= usize::MAX)),
        plan_with(policy, max_candidate_files) matches Ok(plan) ==> {
            &&& plan.policy == policy->Ok_0
            &&& plan.max_candidate_files is Some <==> max_candidate_files is Some
            &&& plan.max_candidate_files matches Some(n) ==> max_candidate_files->Some_0 == n
        },
{
}

/// Whether every number of removals is one that a row can hold.
pub open spec fn countable(stats: RemovalStats) -> bool {
    stats.bytes_removed <= i64::MAX && stats.old_versions <= i64::MAX && stats.data_files_removed
        <= i64::MAX && stats.transaction_files_removed <= i64::MAX && stats.index_files_removed
        <= i64::MAX && stats.deletion_files_removed <= i64::MAX
}

/// The row of removals, and that of a plan, tell each number in its own place, as it is.
pub proof fn rows_tell_every_number(stats: RemovalStats, plan: CleanupPlan, duration_ms: i64)
    requires
        countable(stats),
        countable(plan.stats),
        plan.read_version <= i64::MAX,
        plan.candidate_file_limit <= i64::MAX,
    ensures
        ({
            let r = vacuum_row_of(stats, duration_ms);
            &&& r.0 == stats.bytes_removed
            &&& r.1 == stats.old_versions
            &&& r.2 == stats.data_files_removed
            &&& r.3 == stats.transaction_files_removed
            &&& r.4 == stats.index_files_removed
            &&& r.5 == stats.deletion_files_removed
            &&& r.6 == duration_ms
        }),
        ({
            let r = plan_numbers_of(plan);
            &&& r.0 == plan.read_version
            &&& r.1 == plan.stats.bytes_removed
            &&& r.2 == plan.stats.old_versions
            &&& r.3 == plan.stats.data_files_removed
            &&& r.4 == plan.stats.transaction_files_removed
            &&& r.5 == plan.stats.index_files_removed
            &&& r.6 == plan.stats.deletion_files_removed
            &&& r.7 == plan.candidate_files_truncated
            &&& r.8 == plan.candidate_file_limit
        }),
{
}

/// A request comes to nothing only where its age is not negative and leads behind the calendar; any
/// other comes to its policy or its fault, and a plan likewise.
pub proof fn requests_come_to_their_policy(
    now: Moment,
    request: CleanupRequest,
    max_candidate_files: Option<i64>,
)
    ensures
        ({
            let lost = request.older_than_seconds is Some && request.older_than_seconds->Some_0 >= 0
                && calendar::moment_before(now, request.older_than_seconds->Some_0 as int) is None;
            &&& lost ==> policy_outcome_at(now, request) is None && plan_outcome_at(
                now,
                request,
                max_candidate_files,
            ) is None
            &&& !lost ==> policy_outcome_at(now, request) == Some(policy_at(now, request))
                && plan_outcome_at(now, request, max_candidate_files) == Some(
                plan_with(policy_at(now, request), max_candidate_files),
            )
        }),
{
}

} // verus!
