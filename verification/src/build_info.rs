//! The packages that a build is made of, as its lock file has them.
use crate::text;
use vstd::prelude::*;

verus! {

/// The place that packages of the dataset library come from.
pub const LANCE_SOURCE: &'static str = "github.com/lance-format/lance";

/// A package of a lock file; what the file does not tell is empty.
#[derive(Debug)]
pub struct Package {
    pub name: String,
    pub version: String,
    pub source: String,
}

/// A package with its texts as sequences of characters.
pub ghost struct PackageModel {
    pub name: Seq<char>,
    pub version: Seq<char>,
    pub source: Seq<char>,
}

impl DeepView for Package {
    type V = PackageModel;

    open spec fn deep_view(&self) -> PackageModel {
        PackageModel { name: self.name@, version: self.version@, source: self.source@ }
    }
}

// ---------------------------------------------------------------------------
// Lines
// ---------------------------------------------------------------------------

/// The pieces of a text between its line ends.
pub open spec fn pieces(s: Seq<char>) -> Seq<Seq<char>>
    decreases s.len(),
{
    if s.len() == 0 {
        seq![seq![]]
    } else {
        let front = pieces(s.drop_last());
        if s.last() == '\n' {
            front.push(seq![])
        } else {
            front.drop_last().push(front.last().push(s.last()))
        }
    }
}

/// The lines of a text, each without the white space around it.
pub open spec fn trimmed_lines(s: Seq<char>) -> Seq<Seq<char>> {
    pieces(s).map_values(|line: Seq<char>| text::trimmed(line))
}

fn split_pieces(chars: &[char]) -> (r: Vec<Vec<char>>)
    ensures
        r.deep_view() == pieces(chars@),
{
    let ghost all = chars@;
    let mut done: Vec<Vec<char>> = Vec::new();
    let mut last: Vec<char> = Vec::new();
    assert(done.deep_view().push(last@) =~= pieces(all.take(0)));
    for i in 0..chars.len()
        invariant
            all == chars@,
            done.deep_view().push(last@) == pieces(all.take(i as int)),
    {
        let ghost before = done.deep_view();
        let ghost piece = last@;
        assert(all.take(i + 1).drop_last() =~= all.take(i as int));
        assert(before.push(piece).drop_last() =~= before);
        if chars[i] == '\n' {
            assert(last.deep_view() =~= piece);
            done.push(last);
            assert(done.deep_view() =~= before.push(piece));
            last = Vec::new();
            assert(last@ =~= seq![]);
        } else {
            last.push(chars[i]);
        }
    }
    assert(all.take(all.len() as int) =~= all);
    let ghost before = done.deep_view();
    let ghost piece = last@;
    assert(last.deep_view() =~= piece);
    done.push(last);
    assert(done.deep_view() =~= before.push(piece));
    done
}

fn split_lines(s: &str) -> (r: Vec<String>)
    ensures
        r.deep_view() == trimmed_lines(s@),
{
    let chars = text::chars_of(s);
    let parts = split_pieces(chars.as_slice());
    let ghost all = parts.deep_view();
    let mut r: Vec<String> = Vec::new();
    for i in 0..parts.len()
        invariant
            all == parts.deep_view(),
            all == pieces(s@),
            r.deep_view() =~= trimmed_lines(s@).take(i as int),
    {
        let ghost before = r.deep_view();
        assert(all.len() == parts@.len());
        assert(all[i as int] == parts@[i as int]@) by {
            assert(all[i as int] == parts@[i as int].deep_view());
            assert(parts@[i as int].deep_view() =~= parts@[i as int]@);
        }
        let line = text::text_of(text::trim(parts[i].as_slice()).as_slice());
        r.push(line);
        assert(r.deep_view() =~= before.push(line@));
    }
    assert(r.deep_view() =~= trimmed_lines(s@));
    r
}

// ---------------------------------------------------------------------------
// Packages
// ---------------------------------------------------------------------------

/// The value that a line gives a key, written as key, `=` and the value in double quotes.
pub open spec fn value_in(line: Seq<char>, key: Seq<char>) -> Option<Seq<char>> {
    let prefix = key + " = \""@;
    if text::begins_with(line, prefix) && line.len() > prefix.len() && line.last() == '"' {
        Some(line.subrange(prefix.len() as int, line.len() - 1))
    } else {
        None
    }
}

/// The value that a line gives a key, written as key, `=` and the value in double quotes.
pub fn parse_value(line: &str, key: &str) -> (r: Option<String>)
    ensures
        r.deep_view() == value_in(line@, key@),
{
    let mut prefix = key.to_owned();
    prefix.append(" = \"");
    if !text::starts_with(line, prefix.as_str()) {
        return None;
    }
    let chars = text::chars_of(line);
    let skipped = text::chars_of(prefix.as_str()).len();
    if chars.len() <= skipped || chars[chars.len() - 1] != '"' {
        return None;
    }
    let mut value = String::new();
    let last: usize = chars.len() - 1;
    for i in skipped..last
        invariant
            chars@ == line@,
            skipped <= last < chars@.len(),
            value@ == line@.subrange(skipped as int, i as int),
    {
        value.push(chars[i]);
        assert(value@ =~= line@.subrange(skipped as int, i + 1));
    }
    Some(value)
}

/// The packages of a lock file while it is read: those that are complete, and the one at hand.
pub ghost struct Reading {
    pub done: Seq<PackageModel>,
    pub current: Option<PackageModel>,
}

impl Reading {
    /// All packages.
    pub open spec fn packages(self) -> Seq<PackageModel> {
        match self.current {
            Some(package) => self.done.push(package),
            None => self.done,
        }
    }

    /// Behind one line more.
    pub open spec fn after(self, line: Seq<char>) -> Reading {
        if line == "[[package]]"@ {
            Reading {
                done: self.packages(),
                current: Some(PackageModel { name: seq![], version: seq![], source: seq![] }),
            }
        } else {
            match self.current {
                None => self,
                Some(package) => if let Some(value) = value_in(line, "name"@) {
                    Reading { current: Some(PackageModel { name: value, ..package }), ..self }
                } else if let Some(value) = value_in(line, "version"@) {
                    Reading { current: Some(PackageModel { version: value, ..package }), ..self }
                } else if let Some(value) = value_in(line, "source"@) {
                    Reading { current: Some(PackageModel { source: value, ..package }), ..self }
                } else {
                    self
                },
            }
        }
    }
}

/// The packages of a lock file behind some of its lines.
pub open spec fn reading(lines: Seq<Seq<char>>) -> Reading
    decreases lines.len(),
{
    if lines.len() == 0 {
        Reading { done: seq![], current: None }
    } else {
        reading(lines.drop_last()).after(lines.last())
    }
}

/// The packages of a lock file.
pub open spec fn lock_packages(contents: Seq<char>) -> Seq<PackageModel> {
    reading(trimmed_lines(contents)).packages()
}

fn with_line(package: Package, line: &str) -> (r: Package)
    requires
        line@ != "[[package]]"@,
    ensures
        forall|done: Seq<PackageModel>|
            (Reading { done, current: Some(r.deep_view()) }) == #[trigger] (Reading {
                done,
                current: Some(package.deep_view()),
            }).after(line@),
{
    let mut package = package;
    if let Some(value) = parse_value(line, "name") {
        package.name = value;
    } else if let Some(value) = parse_value(line, "version") {
        package.version = value;
    } else if let Some(value) = parse_value(line, "source") {
        package.source = value;
    }
    package
}

/// The packages that a lock file tells of.
pub fn read_lock_packages(contents: &str) -> (packages: Vec<Package>)
    ensures
        packages.deep_view() == lock_packages(contents@),
{
    let lines = split_lines(contents);
    let ghost all = lines.deep_view();
    let mut done: Vec<Package> = Vec::new();
    let mut current: Option<Package> = None;
    assert(done.deep_view() =~= seq![]);
    for i in 0..lines.len()
        invariant
            all == lines.deep_view(),
            reading(all.take(i as int)) == (Reading {
                done: done.deep_view(),
                current: current.deep_view(),
            }),
    {
        let line = lines[i].as_str();
        let ghost before = done.deep_view();
        assert(all[i as int] == line@);
        assert(all.take(i + 1).drop_last() =~= all.take(i as int));
        if line.eq("[[package]]") {
            if let Some(package) = current {
                done.push(package);
                assert(done.deep_view() =~= before.push(package.deep_view()));
            }
            let fresh = Package {
                name: String::new(),
                version: String::new(),
                source: String::new(),
            };
            assert(fresh.deep_view() == (PackageModel {
                name: seq![],
                version: seq![],
                source: seq![],
            })) by {
                assert(fresh.name@ =~= seq![]);
                assert(fresh.version@ =~= seq![]);
                assert(fresh.source@ =~= seq![]);
            }
            current = Some(fresh);
        } else {
            current =
            match current {
                Some(package) => Some(with_line(package, line)),
                None => None,
            };
        }
    }
    assert(all.take(all.len() as int) =~= all);
    let ghost before = done.deep_view();
    if let Some(package) = current {
        done.push(package);
        assert(done.deep_view() =~= before.push(package.deep_view()));
    }
    done
}

/// Whether a text stands within another one.
pub open spec fn holds(s: Seq<char>, part: Seq<char>) -> bool {
    exists|i: int| #[trigger] stands_at(s, part, i)
}

/// Whether a text stands within another one at position `i`.
pub open spec fn stands_at(s: Seq<char>, part: Seq<char>, i: int) -> bool {
    0 <= i && i + part.len() <= s.len() && s.subrange(i, i + part.len()) == part
}

fn stands_here(chars: &Vec<char>, part: &Vec<char>, i: usize) -> (b: bool)
    requires
        i + part@.len() <= chars@.len(),
    ensures
        b == stands_at(chars@, part@, i as int),
{
    assert(chars.len() <= usize::MAX);
    for j in 0..part.len()
        invariant
            i + part@.len() <= chars@.len() <= usize::MAX,
            forall|k: int| 0 <= k < j ==> chars@[i + k] == part@[k],
    {
        if chars[i + j] != part[j] {
            assert(chars@.subrange(i as int, i + part@.len())[j as int] != part@[j as int]);
            return false;
        }
    }
    assert(chars@.subrange(i as int, i + part@.len()) =~= part@);
    true
}

/// Whether a text stands within another one.
pub fn contains_text(s: &str, part: &str) -> (b: bool)
    ensures
        b == holds(s@, part@),
{
    let chars = text::chars_of(s);
    let wanted = text::chars_of(part);
    if chars.len() < wanted.len() {
        return false;
    }
    let last: usize = chars.len() - wanted.len();
    let mut i: usize = 0;
    while i <= last
        invariant
            chars@ == s@,
            wanted@ == part@,
            last + wanted@.len() == chars@.len(),
            i <= last + 1,
            forall|k: int| 0 <= k < i ==> !stands_at(s@, part@, k),
        decreases last + 1 - i,
    {
        if stands_here(&chars, &wanted, i) {
            return true;
        }
        if i == last {
            return false;
        }
        i += 1;
    }
    false
}

/// The first package of the given name, from some place where one is given.
pub open spec fn first_package(
    packages: Seq<PackageModel>,
    name: Seq<char>,
    place: Option<Seq<char>>,
) -> Option<PackageModel>
    decreases packages.len(),
{
    if packages.len() == 0 {
        None
    } else if packages[0].name == name && (place matches Some(part) ==> holds(
        packages[0].source,
        part,
    )) {
        Some(packages[0])
    } else {
        first_package(packages.drop_first(), name, place)
    }
}

/// The package of the given name: the first that comes from the dataset library's own place, or
/// else the first at all.
pub open spec fn package_named(packages: Seq<PackageModel>, name: Seq<char>) -> Option<
    PackageModel,
> {
    match first_package(packages, name, Some(LANCE_SOURCE@)) {
        Some(package) => Some(package),
        None => first_package(packages, name, None),
    }
}

/// The package of the given name: the first that comes from the dataset library's own place, or
/// else the first at all.
pub fn find_package<'a>(packages: &'a [Package], name: &str) -> (r: Option<&'a Package>)
    ensures
        r.deep_view() == package_named(packages.deep_view(), name@),
{
    let ghost all = packages.deep_view();
    assert(all.skip(0) =~= all);
    for i in 0..packages.len()
        invariant
            all == packages.deep_view(),
            first_package(all, name@, Some(LANCE_SOURCE@)) == first_package(
                all.skip(i as int),
                name@,
                Some(LANCE_SOURCE@),
            ),
    {
        let package = &packages[i];
        assert(all[i as int] == package.deep_view());
        assert(all.skip(i as int).drop_first() =~= all.skip(i + 1));
        if package.name.as_str().eq(name) && contains_text(package.source.as_str(), LANCE_SOURCE) {
            return Some(package);
        }
    }
    for i in 0..packages.len()
        invariant
            all == packages.deep_view(),
            first_package(all, name@, Some(LANCE_SOURCE@)) is None,
            first_package(all, name@, None) == first_package(all.skip(i as int), name@, None),
    {
        let package = &packages[i];
        assert(all[i as int] == package.deep_view());
        assert(all.skip(i as int).drop_first() =~= all.skip(i + 1));
        if package.name.as_str().eq(name) {
            return Some(package);
        }
    }
    None
}

/// The text behind the last `#`; empty where there is none.
pub open spec fn revision(source: Seq<char>) -> Seq<char>
    decreases source.len(),
{
    if source.len() == 0 || !source.contains('#') || source.last() == '#' {
        seq![]
    } else {
        revision(source.drop_last()).push(source.last())
    }
}

/// The revision in the source of a package: the text behind the last `#`.
pub fn source_revision(source: &str) -> (r: String)
    ensures
        r@ == revision(source@),
{
    let chars = text::chars_of(source);
    let mut r = String::new();
    let mut seen: bool = false;
    for i in 0..chars.len()
        invariant
            chars@ == source@,
            seen == source@.take(i as int).contains('#'),
            r@ == revision(source@.take(i as int)),
    {
        let ghost front = source@.take(i as int);
        let ghost longer = source@.take(i + 1);
        assert(longer.drop_last() =~= front);
        assert(longer =~= front.push(source@[i as int]));
        proof {
            if seen {
                let k = choose|k: int| 0 <= k < front.len() && front[k] == '#';
                assert(longer[k] == '#');
            }
            if longer.contains('#') && source@[i as int] != '#' {
                let k = choose|k: int| 0 <= k < longer.len() && longer[k] == '#';
                assert(front[k] == '#');
            }
        }
        if chars[i] == '#' {
            assert(longer[i as int] == '#');
            seen = true;
            r = String::new();
            assert(r@ =~= seq![]);
        } else if seen {
            r.push(chars[i]);
        } else {
            assert(revision(front) =~= seq![]);
        }
    }
    assert(source@.take(source@.len() as int) =~= source@);
    r
}

// ---------------------------------------------------------------------------
// What holds of packages
// ---------------------------------------------------------------------------

/// A line that gives a key a value in double quotes is read as that value.
pub proof fn values_are_read_back(key: Seq<char>, value: Seq<char>)
    ensures
        value_in(key + " = \""@ + value + seq!['"'], key) == Some(value),
{
    let prefix = key + " = \""@;
    let line = key + " = \""@ + value + seq!['"'];
    assert(line.take(prefix.len() as int) =~= prefix);
    assert(line.last() == '"');
    assert(line.subrange(prefix.len() as int, line.len() - 1) =~= value);
}

/// A line gives a key a value only where it is the key, the value in double quotes and nothing else.
pub proof fn values_are_of_their_line(line: Seq<char>, key: Seq<char>)
    ensures
        value_in(line, key) matches Some(value) ==> line == key + " = \""@ + value + seq!['"'],
{
    if let Some(value) = value_in(line, key) {
        let prefix = key + " = \""@;
        assert(line =~= line.take(prefix.len() as int) + value + seq!['"']);
    }
}

/// The revision is what stands behind the last `#`, and nothing where there is none.
pub proof fn revision_stands_behind_the_hash(source: Seq<char>, behind: Seq<char>)
    requires
        !behind.contains('#'),
    ensures
        revision(source + seq!['#'] + behind) == behind,
        revision(behind).len() == 0,
    decreases behind.len(),
{
    let all = source + seq!['#'] + behind;
    assert(all[source.len() as int] == '#');
    assert(all.contains('#'));
    if behind.len() == 0 {
        assert(all.last() == '#');
        assert(behind =~= seq![]);
    } else {
        let front = behind.drop_last();
        if front.contains('#') {
            let i = choose|i: int| 0 <= i < front.len() && front[i] == '#';
            assert(behind[i] == '#');
        }
        revision_stands_behind_the_hash(source, front);
        assert(behind.contains(behind[behind.len() - 1]));
        assert(all.last() == behind.last());
        assert(all.drop_last() =~= source + seq!['#'] + front);
        assert(behind =~= front.push(behind.last()));
    }
}

/// The lines of a text with a line more are those of the text and that line, without the white space
/// around it.
pub proof fn lines_are_read_in_order(s: Seq<char>, line: Seq<char>)
    requires
        !line.contains('\n'),
    ensures
        trimmed_lines(s + seq!['\n'] + line) == trimmed_lines(s).push(text::trimmed(line)),
        trimmed_lines(line) == seq![text::trimmed(line)],
{
    pieces_grow(s, line);
    assert(trimmed_lines(s + seq!['\n'] + line) =~= trimmed_lines(s).push(text::trimmed(line)));
    assert(trimmed_lines(line) =~= seq![text::trimmed(line)]);
}

proof fn pieces_grow(s: Seq<char>, line: Seq<char>)
    requires
        !line.contains('\n'),
    ensures
        pieces(s + seq!['\n'] + line) == pieces(s).push(line),
        pieces(line) == seq![line],
    decreases line.len(),
{
    let all = s + seq!['\n'] + line;
    if line.len() == 0 {
        assert(all =~= s.push('\n'));
        assert(all.drop_last() =~= s);
        assert(line =~= seq![]);
    } else {
        let front = line.drop_last();
        if front.contains('\n') {
            let i = choose|i: int| 0 <= i < front.len() && front[i] == '\n';
            assert(line[i] == '\n');
        }
        pieces_grow(s, front);
        assert(line.contains(line[line.len() - 1]));
        assert(all.last() == line.last());
        assert(all.drop_last() =~= s + seq!['\n'] + front);
        let before = pieces(s).push(front);
        assert(before.drop_last() =~= pieces(s));
        assert(line =~= front.push(line.last()));
        assert(seq![front].drop_last() =~= seq![]);
        assert(pieces(line) =~= seq![line]);
    }
}

/// A package begins with its line, and the lines behind it give it what they name; what stands
/// before the first package is passed over.
pub proof fn packages_are_read_line_by_line(lines: Seq<Seq<char>>, line: Seq<char>)
    ensures
        ({
            let before = reading(lines);
            let after = reading(lines.push(line));
            &&& line == "[[package]]"@ ==> after.done == before.packages() && (after.current
                matches Some(p) && p.name.len() == 0 && p.version.len() == 0 && p.source.len()
                == 0)
            &&& line != "[[package]]"@ && before.current is None ==> after == before
            &&& line != "[[package]]"@ ==> after.done == before.done
        }),
        reading(seq![]).packages().len() == 0,
{
    assert(lines.push(line).drop_last() =~= lines);
}

/// The package of a name has that name, and there is one exactly where a package has it; one from
/// the dataset library's own place comes before any other.
pub proof fn package_is_of_its_name(packages: Seq<PackageModel>, name: Seq<char>)
    ensures
        package_named(packages, name) is Some <==> exists|i: int|
            0 <= i < packages.len() && (#[trigger] packages[i]).name == name,
        package_named(packages, name) matches Some(found) ==> packages.contains(found)
            && found.name == name,
        (exists|i: int|
            0 <= i < packages.len() && (#[trigger] packages[i]).name == name && holds(
                packages[i].source,
                "github.com/lance-format/lance"@,
            )) ==> holds(
            package_named(packages, name)->Some_0.source,
            "github.com/lance-format/lance"@,
        ),
{
    first_is_of_its_name(packages, name, Some(LANCE_SOURCE@));
    first_is_of_its_name(packages, name, None);
}

proof fn first_is_of_its_name(
    packages: Seq<PackageModel>,
    name: Seq<char>,
    place: Option<Seq<char>>,
)
    ensures
        first_package(packages, name, place) is Some <==> exists|i: int|
            0 <= i < packages.len() && (#[trigger] packages[i]).name == name && (
            place matches Some(part) ==> holds(packages[i].source, part)),
        first_package(packages, name, place) matches Some(found) ==> packages.contains(found)
            && found.name == name && (place matches Some(part) ==> holds(found.source, part)),
    decreases packages.len(),
{
    if packages.len() > 0 {
        let rest = packages.drop_first();
        first_is_of_its_name(rest, name, place);
        assert(forall|i: int| 0 <= i < rest.len() ==> #[trigger] rest[i] == packages[i + 1]);
        if packages[0].name == name && (place matches Some(part) ==> holds(
            packages[0].source,
            part,
        )) {
            assert(packages.contains(packages[0]));
        } else {
            if first_package(packages, name, place) is Some {
                let i = choose|i: int|
                    0 <= i < rest.len() && (#[trigger] rest[i]).name == name && (
                    place matches Some(part) ==> holds(rest[i].source, part));
                assert(packages[i + 1] == rest[i]);
                let found = first_package(packages, name, place)->Some_0;
                let k = choose|k: int| 0 <= k < rest.len() && rest[k] == found;
                assert(packages[k + 1] == found);
            }
            if exists|i: int|
                0 <= i < packages.len() && (#[trigger] packages[i]).name == name && (
                place matches Some(part) ==> holds(packages[i].source, part)) {
                let i = choose|i: int|
                    0 <= i < packages.len() && (#[trigger] packages[i]).name == name && (
                    place matches Some(part) ==> holds(packages[i].source, part));
                assert(rest[i - 1] == packages[i]);
            }
        }
    }
}

/// A line that names a package, its version or its source is taken for that alone.
pub proof fn lines_tell_of_the_package(before: Reading, package: PackageModel, line: Seq<char>)
    requires
        before.current == Some(package),
        line != "[[package]]"@,
    ensures
        ({
            let after = before.after(line);
            &&& value_in(line, "name"@) matches Some(v) ==> after.current == Some(
                PackageModel { name: v, version: package.version, source: package.source },
            )
            &&& value_in(line, "name"@) is None ==> (value_in(line, "version"@) matches Some(v)
                ==> after.current == Some(
                PackageModel { name: package.name, version: v, source: package.source },
            ))
            &&& value_in(line, "name"@) is None && value_in(line, "version"@) is None ==> (
            value_in(line, "source"@) matches Some(v) ==> after.current == Some(
                PackageModel { name: package.name, version: package.version, source: v },
            ))
            &&& value_in(line, "name"@) is None && value_in(line, "version"@) is None && value_in(
                line,
                "source"@,
            ) is None ==> after == before
        }),
{
}

/// The packages of a lock file are those that its lines tell of.
pub proof fn lock_file_is_read_by_lines(contents: Seq<char>)
    ensures
        lock_packages(contents) == (match reading(trimmed_lines(contents)).current {
            Some(package) => reading(trimmed_lines(contents)).done.push(package),
            None => reading(trimmed_lines(contents)).done,
        }),
{
}

} // verus!
