//! Columns of foreign tables: type names in one spelling, and the drift between two schemas.
use crate::text;
use vstd::prelude::*;

verus! {

/// A column: its name and its type.
pub type Column = (String, String);

/// A column with its texts as sequences of characters.
pub type ColumnModel = (Seq<char>, Seq<char>);

// ---------------------------------------------------------------------------
// Type names
// ---------------------------------------------------------------------------

/// A text in one spelling: ASCII letters in lower case, no double quotes, and its words with one
/// space between them.
pub open spec fn plain_spelling(s: Seq<char>) -> Seq<char> {
    text::joined(text::words(text::without_char(text::lower(s), '"')), " "@)
}

/// Whether a text ends in `[]`.
pub open spec fn is_array(s: Seq<char>) -> bool {
    s.len() >= 2 && s[s.len() - 2] == '[' && s[s.len() - 1] == ']'
}

/// The element type of an array type: the text without the `[]` at its end.
pub open spec fn element_type(s: Seq<char>) -> Seq<char> {
    text::trimmed_end(s.take(s.len() - 2))
}

proof fn trimming_shortens(s: Seq<char>)
    ensures
        text::trimmed_end(s).len() <= s.len(),
    decreases s.len(),
{
    if s.len() > 0 && text::is_white(s.last()) {
        trimming_shortens(s.drop_last());
    }
}

/// The type at the bottom of an array type.
pub open spec fn bottom_type(s: Seq<char>) -> Seq<char>
    decreases s.len(),
    via bottom_type_decreases
{
    if is_array(s) {
        bottom_type(element_type(s))
    } else {
        s
    }
}

#[via_fn]
proof fn bottom_type_decreases(s: Seq<char>) {
    trimming_shortens(s.take(s.len() - 2));
}

/// How many `[]` stand at the end of an array type.
pub open spec fn array_depth(s: Seq<char>) -> nat
    decreases s.len(),
    via array_depth_decreases
{
    if is_array(s) {
        1 + array_depth(element_type(s))
    } else {
        0
    }
}

#[via_fn]
proof fn array_depth_decreases(s: Seq<char>) {
    trimming_shortens(s.take(s.len() - 2));
}

/// The text behind the last `.`, or the whole text where there is none.
pub open spec fn last_segment(s: Seq<char>) -> Seq<char>
    decreases s.len(),
{
    if s.len() == 0 || s.last() == '.' {
        seq![]
    } else {
        last_segment(s.drop_last()).push(s.last())
    }
}

/// The one name of a type that has several.
pub open spec fn settled_name(s: Seq<char>) -> Seq<char> {
    if s == "smallint"@ {
        "int2"@
    } else if s == "integer"@ {
        "int4"@
    } else if s == "bigint"@ {
        "int8"@
    } else if s == "real"@ {
        "float4"@
    } else if s == "double precision"@ {
        "float8"@
    } else if s == "timestamp without time zone"@ {
        "timestamp"@
    } else if s == "timestamp with time zone"@ {
        "timestamptz"@
    } else {
        s
    }
}

/// `[]` written `n` times.
pub open spec fn brackets(n: nat) -> Seq<char>
    decreases n,
{
    if n == 0 {
        seq![]
    } else {
        brackets((n - 1) as nat) + seq!['[', ']']
    }
}

/// The one spelling of a type: in lower case, without quotes and schema, under its one name, with
/// `[]` for each array dimension.
pub open spec fn canonical(input: Seq<char>) -> Seq<char> {
    let s = plain_spelling(input);
    settled_name(text::trimmed(last_segment(bottom_type(s)))) + brackets(array_depth(s))
}

fn segment_behind_dot(chars: &[char]) -> (r: Vec<char>)
    ensures
        r@ == last_segment(chars@),
{
    let ghost all = chars@;
    let mut r: Vec<char> = Vec::new();
    for i in 0..chars.len()
        invariant
            all == chars@,
            r@ == last_segment(all.take(i as int)),
    {
        assert(all.take(i + 1).drop_last() =~= all.take(i as int));
        if chars[i] == '.' {
            r = Vec::new();
            assert(r@ =~= seq![]);
        } else {
            r.push(chars[i]);
        }
    }
    assert(all.take(all.len() as int) =~= all);
    r
}

fn one_name(name: &str) -> (r: String)
    ensures
        r@ == settled_name(name@),
{
    if name.eq("smallint") {
        "int2".to_owned()
    } else if name.eq("integer") {
        "int4".to_owned()
    } else if name.eq("bigint") {
        "int8".to_owned()
    } else if name.eq("real") {
        "float4".to_owned()
    } else if name.eq("double precision") {
        "float8".to_owned()
    } else if name.eq("timestamp without time zone") {
        "timestamp".to_owned()
    } else if name.eq("timestamp with time zone") {
        "timestamptz".to_owned()
    } else {
        name.to_owned()
    }
}

/// The one spelling of a type, by which types are compared.
pub fn canonical_type_string(input: &str) -> (r: String)
    ensures
        r@ == canonical(input@),
{
    let lowered = text::lower_text(input);
    let unquoted = text::drop_char(lowered.as_str(), '"');
    let chars = text::chars_of(unquoted.as_str());
    let words = text::split_words(chars.as_slice());
    let spelled = text::join_texts(words.as_slice(), " ");
    let ghost s = plain_spelling(input@);
    assert(spelled@ == s);

    let mut base = text::chars_of(spelled.as_str());
    let mut dims: usize = 0;
    let ghost limit = base@.len();
    assert(base.len() <= usize::MAX);
    while base.len() >= 2 && base[base.len() - 2] == '[' && base[base.len() - 1] == ']'
        invariant
            bottom_type(base@) == bottom_type(s),
            dims + array_depth(base@) == array_depth(s),
            dims + base@.len() <= limit <= usize::MAX,
        decreases base.len(),
    {
        let ghost before = base@;
        base.pop();
        base.pop();
        assert(base@ =~= before.take(before.len() - 2));
        proof {
            trimming_shortens(base@);
        }
        text::trim_end(&mut base);
        dims += 1;
    }
    let segment = segment_behind_dot(base.as_slice());
    let bare = text::trim(segment.as_slice());
    let mut out = one_name(text::text_of(bare.as_slice()).as_str());
    let ghost name = out@;
    assert(name + brackets(0) =~= name);
    for i in 0..dims
        invariant
            out@ == name + brackets(i as nat),
    {
        out.append("[]");
        proof {
            reveal_strlit("[]");
            assert("[]"@ =~= seq!['[', ']']);
            assert(out@ =~= name + brackets((i + 1) as nat));
        }
    }
    out
}

// ---------------------------------------------------------------------------
// Drift
// ---------------------------------------------------------------------------

/// The first difference of two column lists of the same length, from position `i` on.
pub open spec fn difference_from(
    table: Seq<char>,
    expected: Seq<ColumnModel>,
    actual: Seq<ColumnModel>,
    i: int,
) -> Seq<char>
    decreases expected.len() - i,
{
    if !(0 <= i < expected.len()) {
        table + " column definitions differ"@
    } else if expected[i].0 != actual[i].0 {
        table + " column name mismatch at position "@ + text::decimal((i + 1) as nat)
            + ": expected="@ + expected[i].0 + " actual="@ + actual[i].0
    } else if expected[i].1 != actual[i].1 {
        table + " column type mismatch for "@ + expected[i].0 + ": expected="@ + expected[i].1
            + " actual="@ + actual[i].1
    } else {
        difference_from(table, expected, actual, i + 1)
    }
}

/// The difference of two column lists in words.
pub open spec fn column_difference(
    local_schema: Seq<char>,
    local_table: Seq<char>,
    expected: Seq<ColumnModel>,
    actual: Seq<ColumnModel>,
) -> Seq<char> {
    let table = local_schema + "."@ + local_table;
    if expected.len() != actual.len() {
        table + " column count mismatch: expected="@ + text::decimal(expected.len()) + " actual="@
            + text::decimal(actual.len())
    } else {
        difference_from(table, expected, actual, 0)
    }
}

/// The difference of two column lists in words: their lengths, or the first column whose name or
/// type differs.
pub fn summarize_column_diff(
    local_schema: &str,
    local_table: &str,
    expected: &[Column],
    actual: &[Column],
) -> (r: String)
    ensures
        r@ == column_difference(
            local_schema@,
            local_table@,
            expected.deep_view(),
            actual.deep_view(),
        ),
{
    let ghost wanted = expected.deep_view();
    let ghost found = actual.deep_view();
    let mut r = local_schema.to_owned();
    r.append(".");
    r.append(local_table);
    let ghost table = r@;
    if expected.len() != actual.len() {
        r.append(" column count mismatch: expected=");
        r.append(text::decimal_text(expected.len() as u128).as_str());
        r.append(" actual=");
        r.append(text::decimal_text(actual.len() as u128).as_str());
        return r;
    }
    for i in 0..expected.len()
        invariant
            wanted == expected.deep_view(),
            found == actual.deep_view(),
            expected@.len() == actual@.len(),
            r@ == table,
            table == local_schema@ + "."@ + local_table@,
            difference_from(table, wanted, found, 0) == difference_from(
                table,
                wanted,
                found,
                i as int,
            ),
    {
        let want = &expected[i];
        let have = &actual[i];
        assert(wanted[i as int] == want.deep_view());
        assert(found[i as int] == have.deep_view());
        if !want.0.as_str().eq(have.0.as_str()) {
            r.append(" column name mismatch at position ");
            r.append(text::decimal_text(i as u128 + 1).as_str());
            r.append(": expected=");
            r.append(want.0.as_str());
            r.append(" actual=");
            r.append(have.0.as_str());
            return r;
        }
        if !want.1.as_str().eq(have.1.as_str()) {
            r.append(" column type mismatch for ");
            r.append(want.0.as_str());
            r.append(": expected=");
            r.append(want.1.as_str());
            r.append(" actual=");
            r.append(have.1.as_str());
            return r;
        }
    }
    r.append(" column definitions differ");
    r
}

/// The columns with each type in its one spelling.
pub open spec fn normalized(columns: Seq<ColumnModel>) -> Seq<ColumnModel> {
    columns.map_values(|column: ColumnModel| (column.0, canonical(column.1)))
}

/// The drift between two column lists, where they differ by more than the spelling of types.
pub open spec fn schema_drift(
    local_schema: Seq<char>,
    local_table: Seq<char>,
    expected: Seq<ColumnModel>,
    actual: Seq<ColumnModel>,
) -> Option<Seq<char>> {
    if normalized(expected) == normalized(actual) {
        None
    } else {
        Some(
            "schema drift: "@ + column_difference(
                local_schema,
                local_table,
                normalized(expected),
                normalized(actual),
            ),
        )
    }
}

fn normalize(columns: &[Column]) -> (r: Vec<Column>)
    ensures
        r.deep_view() == normalized(columns.deep_view()),
{
    let ghost all = columns.deep_view();
    let mut r: Vec<Column> = Vec::new();
    for i in 0..columns.len()
        invariant
            all == columns.deep_view(),
            r.deep_view() == normalized(all.take(i as int)),
    {
        let ghost before = r.deep_view();
        let column = &columns[i];
        assert(all[i as int] == column.deep_view());
        let one = (column.0.clone(), canonical_type_string(column.1.as_str()));
        r.push(one);
        assert(r.deep_view() =~= before.push(one.deep_view()));
        assert(normalized(all.take(i + 1)) =~= normalized(all.take(i as int)).push(
            (all[i as int].0, canonical(all[i as int].1)),
        ));
    }
    assert(all.take(all.len() as int) =~= all);
    r
}

/// Whether two column lists are the same.
pub fn same_columns(a: &[Column], b: &[Column]) -> (same: bool)
    ensures
        same == (a.deep_view() == b.deep_view()),
{
    assert(a.deep_view().len() == a@.len());
    assert(b.deep_view().len() == b@.len());
    if a.len() != b.len() {
        return false;
    }
    for i in 0..a.len()
        invariant
            a@.len() == b@.len(),
            forall|j: int| 0 <= j < i ==> a.deep_view()[j] == b.deep_view()[j],
    {
        assert(a.deep_view()[i as int] == a@[i as int].deep_view());
        assert(b.deep_view()[i as int] == b@[i as int].deep_view());
        if !a[i].0.as_str().eq(b[i].0.as_str()) || !a[i].1.as_str().eq(b[i].1.as_str()) {
            return false;
        }
    }
    assert(a.deep_view() =~= b.deep_view());
    true
}

/// The drift between the columns that a remote table calls for and those of the local one, where
/// they differ by more than the spelling of types.
pub fn detect_schema_drift(
    local_schema: &str,
    local_table: &str,
    expected: &[Column],
    actual: &[Column],
) -> (r: Option<String>)
    ensures
        r.deep_view() == schema_drift(
            local_schema@,
            local_table@,
            expected.deep_view(),
            actual.deep_view(),
        ),
{
    let expected_norm = normalize(expected);
    let actual_norm = normalize(actual);
    if same_columns(expected_norm.as_slice(), actual_norm.as_slice()) {
        return None;
    }
    let mut detail = "schema drift: ".to_owned();
    let summary = summarize_column_diff(
        local_schema,
        local_table,
        expected_norm.as_slice(),
        actual_norm.as_slice(),
    );
    detail.append(summary.as_str());
    Some(detail)
}

// ---------------------------------------------------------------------------
// What holds of type names and drift
// ---------------------------------------------------------------------------

/// Whether the only white space in a text is single spaces behind other characters.
pub open spec fn spaced(s: Seq<char>) -> bool {
    forall|i: int|
        0 <= i < s.len() && text::is_white(#[trigger] s[i]) ==> s[i] == ' ' && 0 < i
            && !text::is_white(s[i - 1])
}

/// Whether the only white space in a text is single spaces between other characters.
pub open spec fn neat(s: Seq<char>) -> bool {
    spaced(s) && (s.len() > 0 ==> !text::is_white(s.last()))
}

/// Whether a text holds no ASCII capital and no double quote.
pub open spec fn plain(s: Seq<char>) -> bool {
    forall|i: int| 0 <= i < s.len() ==> !('A' <= #[trigger] s[i] <= 'Z') && s[i] != '"'
}

/// Whether a text holds no `.`.
pub open spec fn undotted(s: Seq<char>) -> bool {
    forall|i: int| 0 <= i < s.len() ==> #[trigger] s[i] != '.'
}

/// Whether a text is the one spelling of a type that is no array.
spec fn settled(s: Seq<char>) -> bool {
    neat(s) && plain(s) && undotted(s) && !is_array(s) && settled_name(s) == s
}

spec fn respaced(s: Seq<char>) -> Seq<char> {
    text::joined(text::words(s), " "@)
}

proof fn joined_push(parts: Seq<Seq<char>>, part: Seq<char>)
    requires
        parts.len() > 0,
    ensures
        text::joined(parts.push(part), " "@) == text::joined(parts, " "@) + seq![' '] + part,
{
    reveal_strlit(" ");
    assert(" "@ =~= seq![' ']);
    assert(parts.push(part).drop_last() =~= parts);
}

proof fn joined_longer(parts: Seq<Seq<char>>, c: char)
    requires
        parts.len() > 0,
    ensures
        text::joined(parts.drop_last().push(parts.last().push(c)), " "@) == text::joined(
            parts,
            " "@,
        ).push(c),
{
    let front = parts.drop_last();
    let longer = front.push(parts.last().push(c));
    assert(longer.drop_last() =~= front);
    if parts.len() > 1 {
        assert(text::joined(longer, " "@) =~= text::joined(parts, " "@).push(c));
    }
}

proof fn respacing_steps(s: Seq<char>)
    requires
        s.len() > 0,
        !text::is_white(s.last()),
    ensures
        s.len() > 1 && !text::is_white(s[s.len() - 2]) ==> respaced(s) == respaced(
            s.drop_last(),
        ).push(s.last()),
        (s.len() == 1 || text::is_white(s[s.len() - 2])) && text::words(s.drop_last()).len() > 0
            ==> respaced(s) == respaced(s.drop_last()) + seq![' '] + seq![s.last()],
        (s.len() == 1 || text::is_white(s[s.len() - 2])) && text::words(s.drop_last()).len() == 0
            ==> respaced(s) == seq![s.last()],
{
    let front = s.drop_last();
    let parts = text::words(front);
    if s.len() > 1 && !text::is_white(s[s.len() - 2]) {
        assert(front.last() == s[s.len() - 2]);
        assert(parts.len() > 0);
        joined_longer(parts, s.last());
    } else if parts.len() > 0 {
        joined_push(parts, seq![s.last()]);
    }
}

proof fn respaced_is_neat(s: Seq<char>)
    ensures
        neat(respaced(s)),
        text::words(s).len() > 0 ==> respaced(s).len() > 0,
        plain(s) ==> plain(respaced(s)),
    decreases s.len(),
{
    if s.len() > 0 {
        let front = s.drop_last();
        respaced_is_neat(front);
        assert(plain(s) ==> plain(front));
        if !text::is_white(s.last()) {
            respacing_steps(s);
            let r = respaced(front);
            let all = respaced(s);
            if s.len() > 1 && !text::is_white(s[s.len() - 2]) {
                assert(front.last() == s[s.len() - 2]);
                assert(all == r.push(s.last()));
                assert forall|i: int|
                    0 <= i < all.len() && text::is_white(#[trigger] all[i]) implies all[i] == ' '
                    && 0 < i && !text::is_white(all[i - 1]) by {
                    assert(all[i] == r[i]);
                }
            } else if text::words(front).len() > 0 {
                assert forall|i: int|
                    0 <= i < all.len() && text::is_white(#[trigger] all[i]) implies all[i] == ' '
                    && 0 < i && !text::is_white(all[i - 1]) by {
                    if i < r.len() {
                        assert(all[i] == r[i]);
                    } else {
                        assert(i == r.len());
                        assert(all[i - 1] == r.last());
                    }
                }
            }
        }
    }
}

proof fn respacing_keeps(s: Seq<char>)
    requires
        spaced(s),
    ensures
        s.len() > 0 && text::is_white(s.last()) ==> respaced(s) == s.drop_last(),
        s.len() > 0 && !text::is_white(s.last()) ==> respaced(s) == s,
        s.len() == 0 ==> respaced(s) == s,
    decreases s.len(),
{
    if s.len() > 0 {
        let front = s.drop_last();
        assert forall|i: int|
            0 <= i < front.len() && text::is_white(#[trigger] front[i]) implies front[i] == ' ' && 0
            < i && !text::is_white(front[i - 1]) by {
            assert(s[i] == front[i]);
        }
        respacing_keeps(front);
        if text::is_white(s.last()) {
            assert(s[s.len() - 1] == s.last());
            assert(front.last() == s[s.len() - 2]);
        } else {
            respacing_steps(s);
            if s.len() == 1 {
                assert(text::words(front) =~= seq![]);
                assert(s =~= seq![s.last()]);
            } else if text::is_white(s[s.len() - 2]) {
                assert(front.last() == s[s.len() - 2]);
                assert(respaced(front) == front.drop_last());
                assert(respaced(front).len() > 0);
                assert(text::words(front).len() > 0);
                assert(s =~= front.drop_last() + seq![' '] + seq![s.last()]);
            } else {
                assert(front.last() == s[s.len() - 2]);
                assert(s =~= front.push(s.last()));
            }
        }
    } else {
        assert(respaced(s) =~= s);
    }
}

proof fn lower_is_plain_but_for_quotes(s: Seq<char>)
    ensures
        plain(text::without_char(text::lower(s), '"')),
        plain(s) ==> text::without_char(text::lower(s), '"') == s,
    decreases s.len(),
{
    let lowered = text::lower(s);
    if s.len() > 0 {
        lower_is_plain_but_for_quotes(s.drop_last());
        assert(lowered.drop_last() =~= text::lower(s.drop_last()));
        assert(plain(s) ==> plain(s.drop_last()));
        assert(s =~= s.drop_last().push(s.last()));
    } else {
        assert(lowered =~= s);
    }
}

proof fn trimmed_end_cuts(s: Seq<char>)
    ensures
        text::trimmed_end(s).len() <= s.len(),
        text::trimmed_end(s) == s.take(text::trimmed_end(s).len() as int),
        text::trimmed_end(s).len() > 0 ==> !text::is_white(text::trimmed_end(s).last()),
    decreases s.len(),
{
    if s.len() > 0 && text::is_white(s.last()) {
        trimmed_end_cuts(s.drop_last());
        let n = text::trimmed_end(s).len() as int;
        assert(s.drop_last().take(n) =~= s.take(n));
    } else {
        assert(s.take(s.len() as int) =~= s);
    }
}

proof fn trimmed_start_cuts(s: Seq<char>)
    ensures
        text::trimmed_start(s).len() <= s.len(),
        text::trimmed_start(s) == s.skip(s.len() - text::trimmed_start(s).len()),
        text::trimmed_start(s).len() > 0 ==> !text::is_white(text::trimmed_start(s)[0]),
    decreases s.len(),
{
    if s.len() > 0 && text::is_white(s[0]) {
        trimmed_start_cuts(s.drop_first());
        let n = text::trimmed_start(s).len();
        assert(s.drop_first().skip(s.len() - 1 - n) =~= s.skip(s.len() - n));
    } else {
        assert(s.skip(0) =~= s);
    }
}

proof fn last_segment_cuts(s: Seq<char>)
    ensures
        last_segment(s).len() <= s.len(),
        last_segment(s) == s.skip(s.len() - last_segment(s).len()),
        undotted(last_segment(s)),
        undotted(s) ==> last_segment(s) == s,
    decreases s.len(),
{
    if s.len() == 0 || s.last() == '.' {
        assert(s.skip(s.len() as int) =~= seq![]);
        assert(s.len() > 0 ==> s[s.len() - 1] == '.');
        assert(s.len() == 0 ==> s =~= seq![]);
    } else {
        let front = s.drop_last();
        last_segment_cuts(front);
        let n = last_segment(s).len();
        assert(front.skip(s.len() - n).push(s.last()) =~= s.skip(s.len() - n));
        assert(undotted(s) ==> undotted(front));
        assert(s =~= front.push(s.last()));
    }
}

proof fn bottom_is_neat(s: Seq<char>)
    requires
        neat(s),
        plain(s),
    ensures
        neat(bottom_type(s)),
        plain(bottom_type(s)),
        !is_array(bottom_type(s)),
    decreases s.len(),
{
    if is_array(s) {
        let front = s.take(s.len() - 2);
        trimmed_end_cuts(front);
        let element = element_type(s);
        assert(forall|i: int| 0 <= i < element.len() ==> element[i] == #[trigger] s[i]);
        assert forall|i: int|
            0 <= i < element.len() && text::is_white(#[trigger] element[i]) implies element[i]
            == ' ' && 0 < i && !text::is_white(element[i - 1]) by {
            assert(element[i] == s[i]);
            assert(element[i - 1] == s[i - 1]);
        }
        assert forall|i: int| 0 <= i < element.len() implies !('A' <= #[trigger] element[i] <= 'Z')
            && element[i] != '"' by {
            assert(element[i] == s[i]);
        }
        bottom_is_neat(element);
    }
}

proof fn bare_name_is_neat(s: Seq<char>)
    requires
        neat(s),
        plain(s),
        !is_array(s),
    ensures
        neat(text::trimmed(last_segment(s))),
        plain(text::trimmed(last_segment(s))),
        undotted(text::trimmed(last_segment(s))),
        !is_array(text::trimmed(last_segment(s))),
        undotted(s) ==> text::trimmed(last_segment(s)) == s,
{
    let segment = last_segment(s);
    last_segment_cuts(s);
    trimmed_start_cuts(segment);
    let started = text::trimmed_start(segment);
    trimmed_end_cuts(started);
    let bare = text::trimmed(segment);
    let k = s.len() - started.len();
    assert(forall|i: int| 0 <= i < started.len() ==> started[i] == #[trigger] s[k + i]) by {
        assert forall|i: int| 0 <= i < started.len() implies started[i] == #[trigger] s[k + i] by {
            assert(started[i] == segment[segment.len() - started.len() + i]);
        }
    }
    if started.len() > 0 {
        assert(started.last() == s[k + started.len() - 1]);
        assert(bare == started);
    } else {
        assert(bare == started);
    }
    assert forall|i: int| 0 <= i < bare.len() && text::is_white(#[trigger] bare[i]) implies bare[i]
        == ' ' && 0 < i && !text::is_white(bare[i - 1]) by {
        assert(bare[i] == s[k + i]);
        if i > 0 {
            assert(bare[i - 1] == s[k + i - 1]);
        }
    }
    assert forall|i: int| 0 <= i < bare.len() implies !('A' <= #[trigger] bare[i] <= 'Z') && bare[i]
        != '"' by {
        assert(bare[i] == s[k + i]);
    }
    assert forall|i: int| 0 <= i < bare.len() implies #[trigger] bare[i] != '.' by {
        assert(bare[i] == segment[segment.len() - started.len() + i]);
    }
    if is_array(bare) {
        assert(bare[bare.len() - 2] == s[k + bare.len() - 2]);
        assert(bare[bare.len() - 1] == s[k + bare.len() - 1]);
    }
    if undotted(s) && s.len() > 0 {
        assert(segment == s);
        assert(s[0] == segment[0]);
        assert(!text::is_white(s[0]));
    }
}

proof fn settling_settles(s: Seq<char>)
    requires
        neat(s),
        plain(s),
        undotted(s),
        !is_array(s),
    ensures
        settled(settled_name(s)),
{
    reveal_strlit("smallint");
    reveal_strlit("integer");
    reveal_strlit("bigint");
    reveal_strlit("real");
    reveal_strlit("double precision");
    reveal_strlit("timestamp without time zone");
    reveal_strlit("timestamp with time zone");
    reveal_strlit("int2");
    reveal_strlit("int4");
    reveal_strlit("int8");
    reveal_strlit("float4");
    reveal_strlit("float8");
    reveal_strlit("timestamp");
    reveal_strlit("timestamptz");
    let name = settled_name(s);
    assert(settled_name(name) == name) by {
        assert("int2"@[3] == '2');
        assert("int4"@[3] == '4');
        assert("real"@[3] == 'l');
        assert("float4"@[5] == '4');
        assert("float8"@[5] == '8');
        assert("bigint"@[5] == 't');
    }
}

proof fn canonical_of_settled(s: Seq<char>, n: nat)
    requires
        settled(s),
    ensures
        neat(s + brackets(n)),
        plain(s + brackets(n)),
        bottom_type(s + brackets(n)) == s,
        array_depth(s + brackets(n)) == n,
    decreases n,
{
    let all = s + brackets(n);
    if n == 0 {
        assert(all =~= s);
    } else {
        let front = s + brackets((n - 1) as nat);
        canonical_of_settled(s, (n - 1) as nat);
        assert(all =~= front + seq!['[', ']']);
        assert(all.take(all.len() - 2) =~= front);
        assert(is_array(all));
        assert(text::trimmed_end(front) == front);
        assert forall|i: int| 0 <= i < all.len() && text::is_white(#[trigger] all[i]) implies all[i]
            == ' ' && 0 < i && !text::is_white(all[i - 1]) by {
            assert(i < front.len());
            assert(all[i] == front[i]);
            assert(all[i - 1] == front[i - 1]);
        }
        assert forall|i: int| 0 <= i < all.len() implies !('A' <= #[trigger] all[i] <= 'Z')
            && all[i] != '"' by {
            if i < front.len() {
                assert(all[i] == front[i]);
            }
        }
    }
}

/// The one spelling of a type is its own one spelling.
pub proof fn canonical_is_final(input: Seq<char>)
    ensures
        canonical(canonical(input)) == canonical(input),
{
    let unquoted = text::without_char(text::lower(input), '"');
    lower_is_plain_but_for_quotes(input);
    respaced_is_neat(unquoted);
    let spelled = plain_spelling(input);
    bottom_is_neat(spelled);
    let bottom = bottom_type(spelled);
    bare_name_is_neat(bottom);
    let bare = text::trimmed(last_segment(bottom));
    settling_settles(bare);
    let name = settled_name(bare);
    let n = array_depth(spelled);
    canonical_of_settled(name, n);
    let result = name + brackets(n);
    lower_is_plain_but_for_quotes(result);
    respacing_keeps(result);
    assert(plain_spelling(result) == result);
    bare_name_is_neat(name);
}

/// The one spelling of a type: settled, with `[]` for each array dimension.
proof fn canonical_is_settled(input: Seq<char>)
    ensures
        exists|name: Seq<char>, n: nat|
            settled(name) && canonical(input) == #[trigger] (name + brackets(n)),
{
    let unquoted = text::without_char(text::lower(input), '"');
    lower_is_plain_but_for_quotes(input);
    respaced_is_neat(unquoted);
    let spelled = plain_spelling(input);
    bottom_is_neat(spelled);
    let bottom = bottom_type(spelled);
    bare_name_is_neat(bottom);
    let bare = text::trimmed(last_segment(bottom));
    settling_settles(bare);
    assert(canonical(input) == settled_name(bare) + brackets(array_depth(spelled)));
}

/// The one spelling of a type holds no double quote, no ASCII capital and no `.`, and no white
/// space but single spaces between other characters.
pub proof fn canonical_is_tidy(input: Seq<char>, i: int)
    requires
        0 <= i < canonical(input).len(),
    ensures
        canonical(input)[i] != '"',
        canonical(input)[i] != '.',
        !('A' <= canonical(input)[i] <= 'Z'),
        text::is_white(canonical(input)[i]) ==> {
            &&& canonical(input)[i] == ' '
            &&& 0 < i < canonical(input).len() - 1
            &&& !text::is_white(canonical(input)[i - 1])
            &&& !text::is_white(canonical(input)[i + 1])
        },
{
    canonical_is_settled(input);
    let (name, n) = choose|name: Seq<char>, n: nat|
        settled(name) && canonical(input) == #[trigger] (name + brackets(n));
    let result = canonical(input);
    canonical_of_settled(name, n);
    brackets_are_plain(n);
    if i < name.len() {
        assert(result[i] == name[i]);
    } else {
        assert(result[i] == brackets(n)[i - name.len()]);
    }
    if text::is_white(result[i]) {
        assert(i < result.len() - 1) by {
            assert(result.last() == result[result.len() - 1]);
        }
        if text::is_white(result[i + 1]) {
            assert(!text::is_white(result[i + 1 - 1]));
        }
    }
}

proof fn brackets_are_plain(n: nat)
    ensures
        forall|i: int|
            0 <= i < brackets(n).len() ==> #[trigger] brackets(n)[i] == '[' || brackets(n)[i]
                == ']',
    decreases n,
{
    if n > 0 {
        brackets_are_plain((n - 1) as nat);
        let front = brackets((n - 1) as nat);
        assert forall|i: int| 0 <= i < brackets(n).len() implies #[trigger] brackets(n)[i] == '['
            || brackets(n)[i] == ']' by {
            if i < front.len() {
                assert(brackets(n)[i] == front[i]);
            }
        }
    }
}

/// The case of ASCII letters does not matter: types that differ by it alone have one spelling.
pub proof fn case_does_not_matter(a: Seq<char>, b: Seq<char>)
    requires
        text::lower(a) == text::lower(b),
    ensures
        canonical(a) == canonical(b),
{
}

/// A type in lower case has the spelling of the type.
pub proof fn lower_case_is_the_same_type(input: Seq<char>)
    ensures
        canonical(text::lower(input)) == canonical(input),
{
    assert(text::lower(text::lower(input)) =~= text::lower(input));
}

proof fn unquoted_grows(s: Seq<char>)
    ensures
        text::without_char(text::lower(s + seq!['[', ']']), '"') == text::without_char(
            text::lower(s),
            '"',
        ) + seq!['[', ']'],
{
    let lowered = text::lower(s);
    let all = text::lower(s + seq!['[', ']']);
    assert(all =~= lowered.push('[').push(']'));
    assert(all.drop_last() =~= lowered.push('['));
    assert(all.drop_last().drop_last() =~= lowered);
    reveal_with_fuel(text::without_char, 3);
    assert(text::without_char(all, '"') =~= text::without_char(lowered, '"') + seq!['[', ']']);
}

proof fn respaced_grows(s: Seq<char>)
    ensures
        respaced(s + seq!['[', ']']) == respaced(s) + seq!['[', ']'] || (respaced(s).len() > 0
            && respaced(s + seq!['[', ']']) == respaced(s) + seq![' ', '[', ']']),
{
    respaced_is_neat(s);
    let one = s.push('[');
    let two = one.push(']');
    assert(s + seq!['[', ']'] =~= two);
    assert(one.drop_last() =~= s);
    assert(two.drop_last() =~= one);
    respacing_steps(one);
    respacing_steps(two);
    assert(two[two.len() - 2] == '[');
    assert(respaced(two) == respaced(one).push(']'));
    if one.len() > 1 && !text::is_white(one[one.len() - 2]) {
        assert(respaced(two) =~= respaced(s) + seq!['[', ']']);
    } else if text::words(s).len() > 0 {
        assert(respaced(two) =~= respaced(s) + seq![' ', '[', ']']);
    } else {
        assert(text::words(s) =~= seq![]);
        assert(respaced(s) =~= seq![]);
        assert(respaced(two) =~= respaced(s) + seq!['[', ']']);
    }
}

/// An array of a type is spelled as the type with `[]` behind it, however the type is spelled.
pub proof fn canonical_of_array(input: Seq<char>)
    ensures
        canonical(input + seq!['[', ']']) == canonical(input) + seq!['[', ']'],
{
    let unquoted = text::without_char(text::lower(input), '"');
    unquoted_grows(input);
    respaced_grows(unquoted);
    respaced_is_neat(unquoted);
    let element = plain_spelling(input);
    let array = plain_spelling(input + seq!['[', ']']);
    assert(is_array(array));
    assert(element_type(array) == element) by {
        reveal_with_fuel(text::trimmed_end, 3);
        assert(neat(element));
        let front = array.take(array.len() - 2);
        if array == element + seq!['[', ']'] {
            assert(front =~= element);
        } else {
            assert(front =~= element.push(' '));
            assert(front.drop_last() =~= element);
        }
    }
    assert(bottom_type(array) == bottom_type(element));
    assert(array_depth(array) == array_depth(element) + 1);
    assert(canonical(input + seq!['[', ']']) =~= canonical(input) + seq!['[', ']']);
}

/// Spelling types differently is no drift.
pub proof fn respelling_is_no_drift(
    local_schema: Seq<char>,
    local_table: Seq<char>,
    columns: Seq<ColumnModel>,
)
    ensures
        schema_drift(local_schema, local_table, columns, normalized(columns)) is None,
        schema_drift(local_schema, local_table, normalized(columns), columns) is None,
{
    assert forall|i: int| 0 <= i < columns.len() implies normalized(normalized(columns))[i]
        == #[trigger] normalized(columns)[i] by {
        canonical_is_final(columns[i].1);
    }
    assert(normalized(normalized(columns)) =~= normalized(columns));
}

/// The difference of two column lists of the same length is told of the first column that differs.
pub proof fn difference_is_the_first(
    table: Seq<char>,
    expected: Seq<ColumnModel>,
    actual: Seq<ColumnModel>,
    i: int,
)
    requires
        expected.len() == actual.len(),
        0 <= i < expected.len(),
        expected[i] != actual[i],
        expected.take(i) == actual.take(i),
    ensures
        difference_from(table, expected, actual, 0) == difference_from(table, expected, actual, i),
{
    difference_skips(table, expected, actual, 0, i);
}

proof fn difference_skips(
    table: Seq<char>,
    expected: Seq<ColumnModel>,
    actual: Seq<ColumnModel>,
    k: int,
    i: int,
)
    requires
        expected.len() == actual.len(),
        0 <= k <= i < expected.len(),
        expected.take(i) == actual.take(i),
    ensures
        difference_from(table, expected, actual, k) == difference_from(table, expected, actual, i),
    decreases i - k,
{
    if k < i {
        assert(expected.take(i)[k] == actual.take(i)[k]);
        difference_skips(table, expected, actual, k + 1, i);
    }
}

/// There is no drift exactly where two column lists have the same length and at every position the
/// same name and the same type, however the type is spelled.
pub proof fn no_drift_means_same_columns(
    local_schema: Seq<char>,
    local_table: Seq<char>,
    expected: Seq<ColumnModel>,
    actual: Seq<ColumnModel>,
)
    ensures
        schema_drift(local_schema, local_table, expected, actual) is None <==> {
            &&& expected.len() == actual.len()
            &&& forall|i: int|
                0 <= i < expected.len() ==> (#[trigger] expected[i]).0 == actual[i].0 && canonical(
                    expected[i].1,
                ) == canonical(actual[i].1)
        },
{
    let a = normalized(expected);
    let b = normalized(actual);
    assert(a.len() == expected.len() && b.len() == actual.len());
    if a == b {
        assert forall|i: int| 0 <= i < expected.len() implies (#[trigger] expected[i]).0
            == actual[i].0 && canonical(expected[i].1) == canonical(actual[i].1) by {
            assert(a[i] == b[i]);
        }
    } else if expected.len() == actual.len() && forall|i: int|
        0 <= i < expected.len() ==> (#[trigger] expected[i]).0 == actual[i].0 && canonical(
            expected[i].1,
        ) == canonical(actual[i].1) {
        assert forall|i: int| 0 <= i < a.len() implies a[i] == b[i] by {
            assert(expected[i].0 == actual[i].0);
        }
        assert(a =~= b);
    }
}

/// Which of two column lists is the local one does not matter to whether they drift.
pub proof fn drift_is_mutual(
    local_schema: Seq<char>,
    local_table: Seq<char>,
    expected: Seq<ColumnModel>,
    actual: Seq<ColumnModel>,
)
    ensures
        schema_drift(local_schema, local_table, expected, actual) is None <==> schema_drift(
            local_schema,
            local_table,
            actual,
            expected,
        ) is None,
{
}

/// Drift by the number of columns tells both numbers.
pub proof fn drift_tells_the_counts(
    local_schema: Seq<char>,
    local_table: Seq<char>,
    expected: Seq<ColumnModel>,
    actual: Seq<ColumnModel>,
)
    requires
        expected.len() != actual.len(),
    ensures
        schema_drift(local_schema, local_table, expected, actual) == Some(
            "schema drift: "@ + (local_schema + "."@ + local_table
                + " column count mismatch: expected="@ + text::decimal(expected.len())
                + " actual="@ + text::decimal(actual.len())),
        ),
{
    assert(normalized(expected).len() != normalized(actual).len());
}

/// Drift of lists of the same length tells the first column that differs: its name and its number
/// where the names differ, and else the two types in their one spelling.
pub proof fn drift_tells_the_first_column(
    local_schema: Seq<char>,
    local_table: Seq<char>,
    expected: Seq<ColumnModel>,
    actual: Seq<ColumnModel>,
    i: int,
)
    requires
        expected.len() == actual.len(),
        0 <= i < expected.len(),
        forall|j: int|
            0 <= j < i ==> (#[trigger] expected[j]).0 == actual[j].0 && canonical(expected[j].1)
                == canonical(actual[j].1),
    ensures
        expected[i].0 != actual[i].0 ==> schema_drift(local_schema, local_table, expected, actual)
            == Some(
            "schema drift: "@ + (local_schema + "."@ + local_table
                + " column name mismatch at position "@ + text::decimal((i + 1) as nat)
                + ": expected="@ + expected[i].0 + " actual="@ + actual[i].0),
        ),
        expected[i].0 == actual[i].0 && canonical(expected[i].1) != canonical(actual[i].1)
            ==> schema_drift(local_schema, local_table, expected, actual) == Some(
            "schema drift: "@ + (local_schema + "."@ + local_table + " column type mismatch for "@
                + expected[i].0 + ": expected="@ + canonical(expected[i].1) + " actual="@
                + canonical(actual[i].1)),
        ),
{
    let a = normalized(expected);
    let b = normalized(actual);
    assert forall|j: int| 0 <= j < i implies a.take(i)[j] == b.take(i)[j] by {
        assert(expected[j].0 == actual[j].0);
    }
    assert(a.take(i) =~= b.take(i));
    if a[i] != b[i] {
        difference_is_the_first(local_schema + "."@ + local_table, a, b, i);
    }
}

/// A type that is written plainly keeps its name, unless it is one of the longer names, each of
/// which stands for the short name of its type.
pub proof fn plain_names_are_kept(s: Seq<char>)
    requires
        neat(s),
        plain(s),
        undotted(s),
        !is_array(s),
    ensures
        s == "smallint"@ ==> canonical(s) == "int2"@,
        s == "integer"@ ==> canonical(s) == "int4"@,
        s == "bigint"@ ==> canonical(s) == "int8"@,
        s == "real"@ ==> canonical(s) == "float4"@,
        s == "double precision"@ ==> canonical(s) == "float8"@,
        s == "timestamp without time zone"@ ==> canonical(s) == "timestamp"@,
        s == "timestamp with time zone"@ ==> canonical(s) == "timestamptz"@,
        s != "smallint"@ && s != "integer"@ && s != "bigint"@ && s != "real"@ && s
            != "double precision"@ && s != "timestamp without time zone"@ && s
            != "timestamp with time zone"@ ==> canonical(s) == s,
{
    lower_is_plain_but_for_quotes(s);
    respacing_keeps(s);
    bare_name_is_neat(s);
    assert(plain_spelling(s) == s);
    assert(bottom_type(s) == s);
    assert(array_depth(s) == 0);
    assert(settled_name(s) + brackets(0) =~= settled_name(s));
    reveal_strlit("smallint");
    reveal_strlit("integer");
    reveal_strlit("bigint");
    reveal_strlit("real");
    reveal_strlit("double precision");
    reveal_strlit("timestamp without time zone");
    reveal_strlit("timestamp with time zone");
    assert("smallint"@[0] == 's' && "integer"@[0] == 'i' && "bigint"@[0] == 'b' && "real"@[0]
        == 'r' && "double precision"@[0] == 'd');
    assert("timestamp without time zone"@.len() != "timestamp with time zone"@.len());
    assert("timestamp without time zone"@[0] == 't' && "timestamp with time zone"@[0] == 't');
}

/// Two types that are written plainly, neither by a longer name, are one type only where they are
/// written alike: no two of them fall together.
pub proof fn plain_names_stay_apart(a: Seq<char>, b: Seq<char>)
    requires
        neat(a) && plain(a) && undotted(a) && !is_array(a) && canonical(a) == a,
        neat(b) && plain(b) && undotted(b) && !is_array(b) && canonical(b) == b,
        canonical(a) == canonical(b),
    ensures
        a == b,
{
}

/// The schema of a type does not matter, nor does any other name before it.
pub proof fn schema_does_not_matter(schema: Seq<char>, input: Seq<char>)
    requires
        plain(schema),
        forall|i: int| 0 <= i < schema.len() ==> !text::is_white(#[trigger] schema[i]),
    ensures
        canonical(schema + seq!['.'] + canonical(input)) == canonical(input),
{
    canonical_is_settled(input);
    let (name, n) = choose|name: Seq<char>, n: nat|
        settled(name) && canonical(input) == #[trigger] (name + brackets(n));
    let dotted = schema + seq!['.'] + name;
    let all = schema + seq!['.'] + canonical(input);
    assert(all =~= dotted + brackets(n));
    assert(neat(dotted)) by {
        assert forall|i: int| 0 <= i < dotted.len() && text::is_white(#[trigger] dotted[i]) implies
            dotted[i] == ' ' && 0 < i && !text::is_white(dotted[i - 1]) by {
            let k = schema.len() + 1;
            if i >= k {
                assert(dotted[i] == name[i - k]);
                if i > k {
                    assert(dotted[i - 1] == name[i - 1 - k]);
                }
            } else if i < schema.len() {
                assert(dotted[i] == schema[i]);
            }
        }
        if name.len() > 0 {
            assert(dotted.last() == name.last());
        } else {
            assert(dotted.last() == '.');
        }
    }
    assert(plain(dotted)) by {
        assert forall|i: int| 0 <= i < dotted.len() implies !('A' <= #[trigger] dotted[i] <= 'Z')
            && dotted[i] != '"' by {
            let k = schema.len() + 1;
            if i >= k {
                assert(dotted[i] == name[i - k]);
            } else if i < schema.len() {
                assert(dotted[i] == schema[i]);
            }
        }
    }
    assert(!is_array(dotted)) by {
        let m = dotted.len() as int;
        if name.len() >= 2 {
            assert(dotted[m - 1] == name[name.len() - 1]);
            assert(dotted[m - 2] == name[name.len() - 2]);
        } else if name.len() == 1 {
            assert(dotted[m - 2] == '.');
        } else {
            assert(dotted[m - 1] == '.');
        }
    }
    arrays_of_neat(dotted, n);
    lower_is_plain_but_for_quotes(all);
    respacing_keeps(all);
    assert(plain_spelling(all) == all);
    assert(last_segment(dotted) == name) by {
        segment_behind(schema, name);
    }
    bare_name_is_neat(name);
    last_segment_cuts(name);
    assert(text::trimmed(name) == name);
}

proof fn segment_behind(schema: Seq<char>, name: Seq<char>)
    requires
        undotted(name),
    ensures
        last_segment(schema + seq!['.'] + name) == name,
    decreases name.len(),
{
    let all = schema + seq!['.'] + name;
    if name.len() == 0 {
        assert(all.last() == '.');
        assert(name =~= seq![]);
    } else {
        let front = name.drop_last();
        assert(undotted(front)) by {
            assert forall|i: int| 0 <= i < front.len() implies #[trigger] front[i] != '.' by {
                assert(front[i] == name[i]);
            }
        }
        segment_behind(schema, front);
        assert(all.drop_last() =~= schema + seq!['.'] + front);
        assert(all.last() == name[name.len() - 1]);
        assert(name =~= front.push(name.last()));
    }
}

proof fn arrays_of_neat(s: Seq<char>, n: nat)
    requires
        neat(s),
        plain(s),
        !is_array(s),
    ensures
        neat(s + brackets(n)),
        plain(s + brackets(n)),
        bottom_type(s + brackets(n)) == s,
        array_depth(s + brackets(n)) == n,
    decreases n,
{
    let all = s + brackets(n);
    if n == 0 {
        assert(all =~= s);
    } else {
        let front = s + brackets((n - 1) as nat);
        arrays_of_neat(s, (n - 1) as nat);
        assert(all =~= front + seq!['[', ']']);
        assert(all.take(all.len() - 2) =~= front);
        assert(is_array(all));
        assert(text::trimmed_end(front) == front);
        assert forall|i: int| 0 <= i < all.len() && text::is_white(#[trigger] all[i]) implies all[i]
            == ' ' && 0 < i && !text::is_white(all[i - 1]) by {
            assert(i < front.len());
            assert(all[i] == front[i]);
            assert(all[i - 1] == front[i - 1]);
        }
        assert forall|i: int| 0 <= i < all.len() implies !('A' <= #[trigger] all[i] <= 'Z')
            && all[i] != '"' by {
            if i < front.len() {
                assert(all[i] == front[i]);
            }
        }
    }
}

/// Double quotes do not matter to a type.
pub proof fn quotes_do_not_matter(input: Seq<char>)
    ensures
        canonical(text::without_char(input, '"')) == canonical(input),
{
    unquoting_lowers(input);
}

proof fn unquoting_lowers(s: Seq<char>)
    ensures
        text::without_char(text::lower(text::without_char(s, '"')), '"') == text::without_char(
            text::lower(s),
            '"',
        ),
    decreases s.len(),
{
    if s.len() > 0 {
        let front = s.drop_last();
        let c = s.last();
        unquoting_lowers(front);
        assert(text::lower(s).drop_last() =~= text::lower(front));
        assert(text::lower(s).last() == text::lower_char(c));
        if c != '"' {
            let kept = text::without_char(front, '"');
            let longer = text::lower(kept.push(c));
            assert(longer.drop_last() =~= text::lower(kept));
            assert(longer.last() == text::lower_char(c));
        }
    } else {
        assert(text::lower(s) =~= s);
    }
}

/// White space around a type does not matter.
pub proof fn space_around_does_not_matter(input: Seq<char>, c: char)
    requires
        text::is_white(c),
    ensures
        canonical(input.push(c)) == canonical(input),
        canonical(seq![c] + input) == canonical(input),
{
    let unquoted = text::without_char(text::lower(input), '"');
    let behind = input.push(c);
    assert(text::lower(behind).drop_last() =~= text::lower(input));
    assert(text::lower(behind).last() == c);
    assert(text::without_char(text::lower(behind), '"') == unquoted.push(c));
    assert(unquoted.push(c).drop_last() =~= unquoted);
    let before = seq![c] + input;
    assert(text::lower(before) =~= seq![c] + text::lower(input));
    unquoted_behind(text::lower(input), c);
    words_behind_space(unquoted, c);
}

proof fn unquoted_behind(s: Seq<char>, c: char)
    requires
        c != '"',
    ensures
        text::without_char(seq![c] + s, '"') == seq![c] + text::without_char(s, '"'),
    decreases s.len(),
{
    let all = seq![c] + s;
    if s.len() == 0 {
        assert(all =~= seq![c]);
        assert(all.drop_last() =~= seq![]);
        assert(text::without_char(seq![], '"') =~= Seq::<char>::empty());
        assert(text::without_char(all, '"') =~= seq![c] + text::without_char(s, '"'));
    } else {
        unquoted_behind(s.drop_last(), c);
        assert(all.drop_last() =~= seq![c] + s.drop_last());
        assert(text::without_char(all, '"') =~= seq![c] + text::without_char(s, '"'));
    }
}

proof fn words_behind_space(s: Seq<char>, c: char)
    requires
        text::is_white(c),
    ensures
        text::words(seq![c] + s) == text::words(s),
    decreases s.len(),
{
    let all = seq![c] + s;
    if s.len() == 0 {
        assert(all.drop_last() =~= s);
    } else {
        words_behind_space(s.drop_last(), c);
        assert(all.drop_last() =~= seq![c] + s.drop_last());
        assert(all.last() == s.last());
        if s.len() > 1 {
            assert(all[all.len() - 2] == s[s.len() - 2]);
        } else {
            assert(all[all.len() - 2] == c);
        }
    }
}

} // verus!
