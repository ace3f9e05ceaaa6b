//! The settings of the extension, and the options that it accepts.
use crate::text;
use vstd::prelude::*;

verus! {

/// The default of `lance.max_write_buffer_mb`.
pub const DEFAULT_MAX_WRITE_BUFFER_MB: i32 = 2048;

/// The default of `lance.write_chunk_rows`.
pub const DEFAULT_WRITE_CHUNK_ROWS: i32 = 100_000;

/// The default of `lance.merge_use_index`.
pub const DEFAULT_MERGE_USE_INDEX: bool = true;

/// The bytes that a chunk may buffer, given `lance.max_write_buffer_mb`; 0 is no limit.
pub open spec fn buffer_bytes(mb: i32) -> int {
    if mb <= 0 {
        0
    } else if mb * 1_048_576 > usize::MAX {
        usize::MAX as int
    } else {
        mb * 1_048_576
    }
}

/// The bytes that a chunk may buffer, given `lance.max_write_buffer_mb`; 0 is no limit.
pub fn max_write_buffer_bytes(mb: i32) -> (bytes: usize)
    ensures
        bytes == buffer_bytes(mb),
{
    if mb <= 0 {
        return 0;
    }
    let bytes: u64 = mb as u64 * 1_048_576;
    if bytes > usize::MAX as u64 {
        usize::MAX
    } else {
        bytes as usize
    }
}

/// The rows of a chunk, given `lance.write_chunk_rows`.
pub open spec fn chunk_rows(n: i32) -> int {
    if n <= 0 {
        0
    } else {
        n as int
    }
}

/// The rows of a batch, given the batch size that was asked for.
pub open spec fn rows_of_batch(batch_size: i32) -> int {
    if batch_size >= 0 {
        batch_size as int
    } else {
        usize::MAX + 1 + batch_size
    }
}

/// The rows of a chunk, given `lance.write_chunk_rows`; 0 is no chunks.
pub fn write_chunk_rows(n: i32) -> (rows: usize)
    ensures
        rows == chunk_rows(n),
        rows == (if n <= 0 {
            0
        } else {
            n as int
        }),
{
    if n <= 0 {
        0
    } else {
        n as usize
    }
}

/// The rows of a batch, given the batch size that was asked for: a negative one is as many as
/// there are numbers of rows, less its magnitude.
pub fn batch_rows(batch_size: i32) -> (rows: usize)
    ensures
        rows == rows_of_batch(batch_size),
        rows == (if batch_size >= 0 {
            batch_size as int
        } else {
            usize::MAX + 1 + batch_size
        }),
{
    if batch_size >= 0 {
        batch_size as usize
    } else {
        let below: u32 = (-(batch_size as i64 + 1)) as u32;
        usize::MAX - below as usize
    }
}

/// A value of the build, where it has one.
pub fn optional_build_value(value: &str) -> (r: Option<String>)
    ensures
        r.deep_view() == (if value@.len() == 0 {
            None
        } else {
            Some(value@)
        }),
{
    let chars = text::chars_of(value);
    if chars.len() == 0 {
        None
    } else {
        Some(value.to_owned())
    }
}

// ---------------------------------------------------------------------------
// Options
// ---------------------------------------------------------------------------

/// Whether foreign tables and servers may have an option of the given name.
pub open spec fn known_option(name: Seq<char>) -> bool {
    ||| name == "uri"@
    ||| name == "batch_size"@
    ||| text::begins_with(name, "aws_"@)
    ||| text::begins_with(name, "s3_"@)
    ||| text::begins_with(name, "ns."@)
}

/// The name of an option that is written as name, `=` and value.
pub open spec fn option_name(option: Seq<char>) -> Option<Seq<char>>
    decreases option.len(),
{
    if option.len() == 0 {
        None
    } else if option[0] == '=' {
        Some(seq![])
    } else {
        match option_name(option.drop_first()) {
            None => None,
            Some(rest) => Some(seq![option[0]] + rest),
        }
    }
}

/// The message for an option that is not accepted, if it is not.
pub open spec fn option_fault(option: Seq<char>) -> Option<Seq<char>> {
    match option_name(option) {
        None => Some("invalid option format: "@ + option),
        Some(name) => if known_option(name) {
            None
        } else {
            Some("unsupported option: "@ + name)
        },
    }
}

/// The message for the first option that is not accepted, if any.
pub open spec fn first_option_fault(options: Seq<Seq<char>>) -> Option<Seq<char>>
    decreases options.len(),
{
    if options.len() == 0 {
        None
    } else {
        match option_fault(options[0]) {
            Some(message) => Some(message),
            None => first_option_fault(options.drop_first()),
        }
    }
}

proof fn name_is_before_equals(option: Seq<char>, i: int)
    requires
        0 <= i < option.len(),
        option[i] == '=',
        forall|j: int| 0 <= j < i ==> option[j] != '=',
    ensures
        option_name(option) == Some(option.take(i)),
    decreases i,
{
    if i == 0 {
        assert(option.take(0) =~= seq![]);
    } else {
        let rest = option.drop_first();
        assert(rest[i - 1] == '=');
        name_is_before_equals(rest, i - 1);
        assert(seq![option[0]] + rest.take(i - 1) =~= option.take(i));
    }
}

proof fn no_name_without_equals(option: Seq<char>)
    requires
        forall|j: int| 0 <= j < option.len() ==> option[j] != '=',
    ensures
        option_name(option) is None,
    decreases option.len(),
{
    if option.len() > 0 {
        no_name_without_equals(option.drop_first());
    }
}

fn find_option_name(option: &str) -> (name: Option<String>)
    ensures
        name.deep_view() == option_name(option@),
{
    let chars = text::chars_of(option);
    let mut name = String::new();
    for i in 0..chars.len()
        invariant
            chars@ == option@,
            name@ == option@.take(i as int),
            forall|j: int| 0 <= j < i ==> option@[j] != '=',
    {
        if chars[i] == '=' {
            proof {
                name_is_before_equals(option@, i as int);
            }
            return Some(name);
        }
        name.push(chars[i]);
        assert(option@.take(i + 1) =~= option@.take(i as int).push(option@[i as int]));
    }
    proof {
        no_name_without_equals(option@);
    }
    None
}

/// Checks the options of a foreign table or server, each written as name, `=` and value; fails at
/// the first one that is written otherwise or has an unknown name.
pub fn lance_fdw_validator(options: &[String]) -> (r: Result<(), String>)
    ensures
        r is Ok <==> first_option_fault(options.deep_view()) is None,
        r matches Err(message) ==> first_option_fault(options.deep_view()) == Some(message@),
{
    let ghost all = options.deep_view();
    assert(all.skip(0) =~= all);
    for i in 0..options.len()
        invariant
            all == options.deep_view(),
            first_option_fault(all) == first_option_fault(all.skip(i as int)),
    {
        let option = options[i].as_str();
        assert(all[i as int] == option@);
        assert(all.skip(i as int).drop_first() =~= all.skip(i + 1));
        let name = match find_option_name(option) {
            None => {
                let mut message = "invalid option format: ".to_owned();
                message.append(option);
                return Err(message);
            },
            Some(name) => name,
        };
        let name = name.as_str();
        let known: bool = name.eq("uri") || name.eq("batch_size") || text::starts_with(name, "aws_")
            || text::starts_with(name, "s3_") || text::starts_with(name, "ns.");
        if !known {
            let mut message = "unsupported option: ".to_owned();
            message.append(name);
            return Err(message);
        }
    }
    Ok(())
}

// ---------------------------------------------------------------------------
// What holds of settings and options
// ---------------------------------------------------------------------------

/// An option that is written as name, `=` and value is of that name; a value may hold `=` itself.
pub proof fn option_is_of_its_name(name: Seq<char>, value: Seq<char>)
    requires
        !name.contains('='),
    ensures
        option_name(name + seq!['='] + value) == Some(name),
{
    let option = name + seq!['='] + value;
    let i = name.len() as int;
    assert forall|j: int| 0 <= j < i implies option[j] != '=' by {
        assert(option[j] == name[j]);
        assert(name.contains(name[j]));
    }
    assert(option[i] == '=');
    name_is_before_equals(option, i);
    assert(option.take(i) =~= name);
}

/// A text without `=` is no option.
pub proof fn option_needs_equals(option: Seq<char>)
    requires
        !option.contains('='),
    ensures
        option_name(option) is None,
{
    assert forall|j: int| 0 <= j < option.len() implies option[j] != '=' by {
        assert(option.contains(option[j]));
    }
    no_name_without_equals(option);
}

/// Options are accepted exactly where each has a name that is known: `uri`, `batch_size`, or one
/// that begins with `aws_`, `s3_` or `ns.`.
pub proof fn options_are_accepted_by_name(options: Seq<Seq<char>>)
    ensures
        first_option_fault(options) is None <==> forall|i: int|
            0 <= i < options.len() ==> (option_name(#[trigger] options[i]) matches Some(name) && (
            name == "uri"@ || name == "batch_size"@ || text::begins_with(name, "aws_"@)
                || text::begins_with(name, "s3_"@) || text::begins_with(name, "ns."@))),
    decreases options.len(),
{
    if options.len() > 0 {
        let rest = options.drop_first();
        options_are_accepted_by_name(rest);
        assert(forall|i: int| 0 <= i < rest.len() ==> #[trigger] rest[i] == options[i + 1]);
        if first_option_fault(options) is None {
            assert forall|i: int| 0 <= i < options.len() implies (option_name(
                #[trigger] options[i],
            ) matches Some(name) && (name == "uri"@ || name == "batch_size"@ || text::begins_with(
                name,
                "aws_"@,
            ) || text::begins_with(name, "s3_"@) || text::begins_with(name, "ns."@))) by {
                if i > 0 {
                    assert(rest[i - 1] == options[i]);
                }
            }
        }
        if forall|i: int|
            0 <= i < options.len() ==> (option_name(#[trigger] options[i]) matches Some(name) && (
            name == "uri"@ || name == "batch_size"@ || text::begins_with(name, "aws_"@)
                || text::begins_with(name, "s3_"@) || text::begins_with(name, "ns."@))) {
            assert(option_name(options[0]) is Some);
            assert forall|i: int| 0 <= i < rest.len() implies (option_name(
                #[trigger] rest[i],
            ) matches Some(name) && (name == "uri"@ || name == "batch_size"@ || text::begins_with(
                name,
                "aws_"@,
            ) || text::begins_with(name, "s3_"@) || text::begins_with(name, "ns."@))) by {
                assert(option_name(options[i + 1]) is Some);
            }
        }
    }
}

/// The first option that is not accepted is the one that is told of.
pub proof fn first_bad_option_is_told(options: Seq<Seq<char>>, i: int)
    requires
        0 <= i < options.len(),
        forall|j: int| 0 <= j < i ==> option_fault(#[trigger] options[j]) is None,
        option_fault(options[i]) is Some,
    ensures
        first_option_fault(options) == (match option_name(options[i]) {
            Some(name) => Some("unsupported option: "@ + name),
            None => Some("invalid option format: "@ + options[i]),
        }),
    decreases i,
{
    if i > 0 {
        assert(option_fault(options[0]) is None);
        let rest = options.drop_first();
        assert forall|j: int| 0 <= j < i - 1 implies option_fault(#[trigger] rest[j]) is None by {
            assert(rest[j] == options[j + 1]);
        }
        assert(rest[i - 1] == options[i]);
        first_bad_option_is_told(rest, i - 1);
    }
}

/// The limit in bytes is the one in megabytes, as far as the type reaches, and none where it is not
/// positive.
pub proof fn buffer_is_of_whole_megabytes(mb: i32)
    ensures
        mb <= 0 ==> buffer_bytes(mb) == 0,
        mb > 0 && mb * 1024 * 1024 <= usize::MAX ==> buffer_bytes(mb) == mb * 1024 * 1024,
        mb > 0 && mb * 1024 * 1024 > usize::MAX ==> buffer_bytes(mb) == usize::MAX,
{
}

/// A positive setting is the number of rows of a chunk, and no other has any; a batch size that is
/// not negative is the number of rows of a batch.
pub proof fn row_settings_are_taken_as_they_are(n: i32)
    ensures
        n > 0 ==> chunk_rows(n) == n,
        n <= 0 ==> chunk_rows(n) == 0,
        n >= 0 ==> rows_of_batch(n) == n,
        n < 0 ==> rows_of_batch(n) - usize::MAX == n + 1,
{
}

} // verus!
