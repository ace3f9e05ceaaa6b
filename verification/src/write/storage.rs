//! The options by which a server reaches the storage of its datasets.
use crate::order;
use crate::settings;
use crate::text;
use vstd::prelude::*;

verus! {

/// Options: names and values.
pub type Options = Vec<(String, String)>;

/// Options with their texts as sequences of characters.
pub type OptionsModel = Seq<(Seq<char>, Seq<char>)>;

/// Whether an option is one for the storage.
pub open spec fn for_storage(name: Seq<char>) -> bool {
    text::begins_with(name, "aws_"@) || text::begins_with(name, "s3_"@)
}

/// The options for the storage by name; where one is given twice, the later value.
pub open spec fn storage_table(options: OptionsModel) -> Seq<(order::Texts, Seq<char>)>
    decreases options.len(),
{
    if options.len() == 0 {
        seq![]
    } else {
        let front = storage_table(options.drop_last());
        let (name, value) = options.last();
        if for_storage(name) {
            order::with_value(front, seq![name], value)
        } else {
            front
        }
    }
}

/// The options for the storage, sorted by name.
pub open spec fn storage_options(options: OptionsModel) -> OptionsModel {
    storage_table(options).map_values(|entry: (order::Texts, Seq<char>)| (entry.0[0], entry.1))
}

/// The options for the storage of the server of the given name, given the options that the catalog
/// has for it, if any.
pub open spec fn resolved(server_name: Seq<char>, options: Option<OptionsModel>) -> Result<
    OptionsModel,
    Seq<char>,
> {
    if server_name.contains('\0') {
        Err("invalid server name"@)
    } else {
        match options {
            None => Err("foreign server '"@ + server_name + "' not found"@),
            Some(found) => Ok(storage_options(found)),
        }
    }
}

proof fn names_are_single(options: OptionsModel)
    ensures
        order::ascending(storage_table(options)),
        forall|i: int|
            0 <= i < storage_table(options).len() ==> (#[trigger] storage_table(options)[i]).0.len()
                == 1 && for_storage(storage_table(options)[i].0[0]),
    decreases options.len(),
{
    if options.len() > 0 {
        names_are_single(options.drop_last());
        let front = storage_table(options.drop_last());
        let (name, value) = options.last();
        if for_storage(name) {
            order::slot_splits(front, seq![name]);
            order::with_value_keeps_order(front, seq![name], value);
            let table = storage_table(options);
            let at = order::slot(front, seq![name]);
            assert forall|i: int| 0 <= i < table.len() implies (#[trigger] table[i]).0.len() == 1
                && for_storage(table[i].0[0]) by {
                if i != at {
                    if at < front.len() && front[at].0 == seq![name] {
                        assert(table[i] == front[i]);
                    } else if i < at {
                        assert(table[i] == front[i]);
                    } else {
                        assert(table[i] == front[i - 1]);
                    }
                }
            }
        }
    }
}

fn put(table: &mut Vec<(Vec<String>, String)>, name: &str, value: &str)
    ensures
        final(table).deep_view() == order::with_value(
            old(table).deep_view(),
            seq![name@],
            value@,
        ),
{
    let ghost before = table.deep_view();
    let mut key: Vec<String> = Vec::new();
    key.push(name.to_owned());
    let ghost k = key.deep_view();
    assert(k =~= seq![name@]);
    let i = order::find_slot(table, key.as_slice());
    assert(before.len() == table@.len());
    let mut known: bool = false;
    if i < table.len() {
        assert(before[i as int].0 == table@[i as int].0.deep_view());
        known = order::same_lists(table[i].0.as_slice(), key.as_slice());
    }
    if known {
        table.set(i, (key, value.to_owned()));
        assert(table.deep_view() =~= before.update(i as int, (k, value@)));
    } else {
        table.insert(i, (key, value.to_owned()));
        assert(table.deep_view() =~= before.insert(i as int, (k, value@)));
    }
}

fn collect_storage_options(options: &[(String, String)]) -> (r: Options)
    ensures
        r.deep_view() == storage_options(options.deep_view()),
{
    let ghost all = options.deep_view();
    let mut table: Vec<(Vec<String>, String)> = Vec::new();
    assert(table.deep_view() =~= seq![]);
    for i in 0..options.len()
        invariant
            all == options.deep_view(),
            table.deep_view() == storage_table(all.take(i as int)),
    {
        assert(all[i as int] == options@[i as int].deep_view());
        assert(all.take(i + 1).drop_last() =~= all.take(i as int));
        let name = options[i].0.as_str();
        if text::starts_with(name, "aws_") || text::starts_with(name, "s3_") {
            put(&mut table, name, options[i].1.as_str());
        }
    }
    assert(all.take(all.len() as int) =~= all);
    let ghost entries = table.deep_view();
    proof {
        names_are_single(all);
    }
    let mut r: Options = Vec::new();
    for i in 0..table.len()
        invariant
            entries == table.deep_view(),
            entries == storage_table(all),
            forall|j: int| 0 <= j < entries.len() ==> (#[trigger] entries[j]).0.len() == 1,
            r.deep_view() =~= storage_options(all).take(i as int),
    {
        let ghost before = r.deep_view();
        assert(entries.len() == table@.len());
        assert(entries[i as int] == table@[i as int].deep_view());
        assert(table@[i as int].0.deep_view().len() == table@[i as int].0@.len());
        assert(table@[i as int].0.deep_view()[0] == table@[i as int].0@[0]@);
        let one = (table[i].0[0].clone(), table[i].1.clone());
        r.push(one);
        assert(r.deep_view() =~= before.push(one.deep_view()));
    }
    assert(r.deep_view() =~= storage_options(all));
    r
}

/// The options for the storage of the server of the given name, given the options that the catalog
/// has for it, if any: those whose names begin with `aws_` or `s3_`, sorted by name. Fails where
/// the name holds a NUL or there is no such server.
pub fn resolve_storage_options(server_name: &str, options: &Option<Options>) -> (r: Result<
    Options,
    String,
>)
    ensures
        text::outcome(r) == resolved(server_name@, options.deep_view()),
{
    if text::has_char(server_name, '\0') {
        return Err("invalid server name".to_owned());
    }
    match options {
        None => {
            let mut message = "foreign server '".to_owned();
            message.append(server_name);
            message.append("' not found");
            Err(message)
        },
        Some(found) => Ok(collect_storage_options(found.as_slice())),
    }
}

/// The options for the storage of a server, if one is named; none where none is. `options` are
/// those that the catalog has for it, if any.
pub fn storage_options_vec(server_name: Option<&str>, options: &Option<Options>) -> (r: Result<
    Options,
    String,
>)
    ensures
        text::outcome(r) == (match text::text_option(server_name) {
            Some(name) => resolved(name, options.deep_view()),
            None => Ok(seq![]),
        }),
{
    match server_name {
        Some(name) => resolve_storage_options(name, options),
        None => {
            let none: Options = Vec::new();
            assert(none.deep_view() =~= seq![]);
            Ok(none)
        },
    }
}

/// The message for a dataset that could not be opened.
pub fn open_failure(uri: &str, error: &str) -> (message: String)
    ensures
        message@ == "failed to open dataset '"@ + uri@ + "': "@ + error@,
{
    let mut message = "failed to open dataset '".to_owned();
    message.append(uri);
    message.append("': ");
    message.append(error);
    message
}

// ---------------------------------------------------------------------------
// What holds of storage options
// ---------------------------------------------------------------------------

/// Every option for the storage is one that a server may have.
pub proof fn storage_options_are_known(options: OptionsModel, i: int)
    requires
        0 <= i < storage_options(options).len(),
    ensures
        for_storage(storage_options(options)[i].0),
        settings::known_option(storage_options(options)[i].0),
{
    names_are_single(options);
    assert(storage_options(options)[i].0 == storage_table(options)[i].0[0]);
}

/// The last value that is given for a storage option is the one that counts.
pub proof fn last_value_wins(options: OptionsModel, name: Seq<char>, value: Seq<char>)
    requires
        for_storage(name),
    ensures
        storage_options(options.push((name, value))).contains((name, value)),
        order::value_of(storage_table(options.push((name, value))), seq![name]) == Some(value),
{
    names_are_single(options);
    let all = options.push((name, value));
    assert(all.drop_last() =~= options);
    let front = storage_table(options);
    order::with_value_keeps_order(front, seq![name], value);
    order::slot_splits(front, seq![name]);
    let table = storage_table(all);
    let at = order::slot(front, seq![name]);
    assert(table[at] == (seq![name], value));
    assert(storage_options(all)[at] == (name, value));
}

/// The options for the storage are exactly those whose names begin with `aws_` or `s3_`, each with
/// the last value that was given for it, sorted by name and each once.
pub proof fn storage_options_are_the_last_given(options: OptionsModel, name: Seq<char>)
    ensures
        ({
            let found = order::value_of(storage_table(options), seq![name]);
            let wanted = text::begins_with(name, "aws_"@) || text::begins_with(name, "s3_"@);
            &&& found is Some <==> wanted && exists|i: int|
                0 <= i < options.len() && (#[trigger] options[i]).0 == name
            &&& found matches Some(value) ==> exists|i: int|
                {
                    &&& 0 <= i < options.len()
                    &&& (#[trigger] options[i]) == (name, value)
                    &&& forall|j: int| i < j < options.len() ==> (#[trigger] options[j]).0 != name
                }
        }),
    decreases options.len(),
{
    names_are_single(options);
    if options.len() > 0 {
        let front = options.drop_last();
        let n = options.len() - 1;
        storage_options_are_the_last_given(front, name);
        names_are_single(front);
        assert(forall|i: int| 0 <= i < front.len() ==> #[trigger] front[i] == options[i]);
        let (last, value) = options[n];
        let before = storage_table(front);
        if for_storage(last) {
            order::with_value_keeps_order(before, seq![last], value);
        }
        if last == name {
            assert(options[n].0 == name);
            if for_storage(last) {
                assert(options[n] == (name, value));
            }
        } else {
            if seq![last] == seq![name] {
                assert(seq![last][0] == seq![name][0]);
            }
            let found = order::value_of(storage_table(options), seq![name]);
            assert(found == order::value_of(before, seq![name]));
            if found is Some {
                let i = choose|i: int|
                    {
                        &&& 0 <= i < front.len()
                        &&& (#[trigger] front[i]) == (name, found->Some_0)
                        &&& forall|j: int| i < j < front.len() ==> (#[trigger] front[j]).0 != name
                    };
                assert(options[i] == (name, found->Some_0));
                assert forall|j: int| i < j < options.len() implies (
                #[trigger] options[j]).0 != name by {
                    if j < n {
                        assert(front[j].0 != name);
                    }
                }
            } else if exists|i: int| 0 <= i < options.len() && (#[trigger] options[i]).0 == name {
                let i = choose|i: int| 0 <= i < options.len() && (#[trigger] options[i]).0 == name;
                assert(front[i].0 == name);
            }
        }
    } else {
        assert(storage_table(options) =~= seq![]);
    }
}

/// The options are handed out under the names and with the values of the table, in its order.
pub proof fn storage_options_are_in_order(options: OptionsModel, i: int)
    requires
        0 <= i < storage_options(options).len(),
    ensures
        storage_options(options).len() == storage_table(options).len(),
        order::value_of(storage_table(options), seq![storage_options(options)[i].0]) == Some(
            storage_options(options)[i].1,
        ),
        forall|j: int|
            i < j < storage_options(options).len() ==> order::list_order(
                seq![storage_options(options)[i].0],
                seq![(#[trigger] storage_options(options)[j]).0],
            ) == order::Order::Less,
{
    names_are_single(options);
    let table = storage_table(options);
    assert(table[i].0 =~= seq![storage_options(options)[i].0]);
    order::value_of_meaning(table, table[i].0);
    assert forall|j: int| i < j < storage_options(options).len() implies order::list_order(
        seq![storage_options(options)[i].0],
        seq![(#[trigger] storage_options(options)[j]).0],
    ) == order::Order::Less by {
        assert(table[j].0 =~= seq![storage_options(options)[j].0]);
    }
}

/// Options are found exactly for a server that exists, by a name without NUL.
pub proof fn options_are_of_existing_servers(server_name: Seq<char>, options: Option<OptionsModel>)
    ensures
        resolved(server_name, options) is Ok <==> !server_name.contains('\0') && options is Some,
        resolved(server_name, options) matches Ok(found) ==> found == storage_options(
            options->Some_0,
        ),
{
}

} // verus!
