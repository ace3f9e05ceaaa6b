//! Listing the tables of a namespace tree, page by page.
//!
//! A walk starts at a root namespace and asks, for one namespace after the other, first for its
//! tables and then for its child namespaces. The remote answers each request with a page of
//! names; a page that carries a token is followed by a request for the next page.
use crate::order;
use std::collections::VecDeque;
use vstd::prelude::*;

verus! {

/// The path of a table or a namespace.
pub type TableId = Vec<String>;

/// What a request asks for.
#[derive(Clone, Copy, PartialEq, Eq, Structural, Debug)]
pub enum Listing {
    Tables,
    Namespaces,
}

/// A request to the remote namespace: one page of the tables or the children of a namespace.
#[derive(Debug)]
pub struct ListRequest {
    pub listing: Listing,
    pub id: TableId,
    pub page_token: Option<String>,
    pub limit: i32,
}

/// The walk through a namespace tree.
pub struct NamespaceWalk {
    out: Vec<TableId>,
    queue: VecDeque<TableId>,
    visited: Vec<TableId>,
    listing: Listing,
    page_token: Option<String>,
    limit: i32,
}

/// The state of a walk.
///
/// `queue` holds the namespaces still to be listed, the one at its front being listed now;
/// `visited` holds all that were ever queued, in the order in which they were.
pub ghost struct WalkState {
    pub out: Seq<order::Texts>,
    pub queue: Seq<order::Texts>,
    pub visited: Seq<order::Texts>,
    pub listing: Listing,
    pub page_token: Option<Seq<char>>,
    pub limit: i32,
}

/// A page of names, with the token of the page behind it.
pub ghost struct Page {
    pub names: Seq<Seq<char>>,
    pub token: Option<Seq<char>>,
}

/// The paths of the members `names` of the namespace `id`.
pub open spec fn members(id: order::Texts, names: Seq<Seq<char>>) -> Seq<order::Texts> {
    names.map_values(|name: Seq<char>| id.push(name))
}

/// `seen` followed by those of `ids` that do not occur earlier.
pub open spec fn extended(seen: Seq<order::Texts>, ids: Seq<order::Texts>) -> Seq<order::Texts>
    decreases ids.len(),
{
    if ids.len() == 0 {
        seen
    } else {
        let before = extended(seen, ids.drop_last());
        if before.contains(ids.last()) {
            before
        } else {
            before.push(ids.last())
        }
    }
}

/// Whether a token announces another page.
pub open spec fn more_pages(token: Option<Seq<char>>) -> bool {
    token is Some && token->0.len() > 0
}

/// A request: which listing of which namespace, from which page on, and for how many names.
pub type Asked = (Listing, order::Texts, Option<Seq<char>>, i32);

/// A request, if any, with its texts as sequences of characters.
pub open spec fn request_view(r: Option<ListRequest>) -> Option<Asked> {
    match r {
        Some(request) => Some(
            (
                request.listing,
                request.id.deep_view(),
                request.page_token.deep_view(),
                request.limit,
            ),
        ),
        None => None,
    }
}

impl WalkState {
    /// What the walk asks for next.
    pub open spec fn asks(self) -> Option<Asked> {
        if self.queue.len() > 0 {
            Some((self.listing, self.queue[0], self.page_token, self.limit))
        } else {
            None
        }
    }

    /// The state of a walk that has asked nothing yet.
    pub open spec fn start(root: order::Texts, limit: i32) -> WalkState {
        WalkState {
            out: seq![],
            queue: seq![root],
            visited: seq![root],
            listing: Listing::Tables,
            page_token: None,
            limit,
        }
    }

    /// The state behind an answer to the pending request.
    pub open spec fn after(self, page: Page) -> WalkState {
        let id = self.queue[0];
        let named = members(id, page.names);
        match self.listing {
            Listing::Tables => {
                let out = self.out + named;
                if more_pages(page.token) {
                    WalkState { out, page_token: page.token, ..self }
                } else {
                    WalkState { out, listing: Listing::Namespaces, page_token: None, ..self }
                }
            },
            Listing::Namespaces => {
                let visited = extended(self.visited, named);
                let queue = self.queue + visited.skip(self.visited.len() as int);
                if more_pages(page.token) {
                    WalkState { queue, visited, page_token: page.token, ..self }
                } else {
                    WalkState {
                        queue: queue.drop_first(),
                        visited,
                        listing: Listing::Tables,
                        page_token: None,
                        ..self
                    }
                }
            },
        }
    }

    /// What holds of every walk: nothing was queued twice, and what is still queued is what was
    /// queued last.
    pub open spec fn valid(self) -> bool {
        &&& self.visited.no_duplicates()
        &&& self.queue.len() <= self.visited.len()
        &&& self.queue == self.visited.skip(self.visited.len() - self.queue.len())
    }
}

impl DeepView for NamespaceWalk {
    type V = WalkState;

    closed spec fn deep_view(&self) -> WalkState {
        WalkState {
            out: self.out.deep_view(),
            queue: self.queue.deep_view(),
            visited: self.visited.deep_view(),
            listing: self.listing,
            page_token: self.page_token.deep_view(),
            limit: self.limit,
        }
    }
}

fn contains_id(ids: &Vec<TableId>, id: &[String]) -> (found: bool)
    ensures
        found == ids.deep_view().contains(id.deep_view()),
{
    for i in 0..ids.len()
        invariant
            forall|j: int| 0 <= j < i ==> #[trigger] ids.deep_view()[j] != id.deep_view(),
    {
        if order::same_lists(ids[i].as_slice(), id) {
            assert(ids.deep_view()[i as int] == id.deep_view());
            return true;
        }
    }
    false
}

/// A copy of a list of texts.
pub fn copy_list(list: &[String]) -> (copy: Vec<String>)
    ensures
        copy.deep_view() == list.deep_view(),
{
    let mut copy: Vec<String> = Vec::new();
    for i in 0..list.len()
        invariant
            copy.deep_view() == list.deep_view().take(i as int),
    {
        let ghost before = copy;
        copy.push(list[i].clone());
        assert(copy.deep_view() =~= before.deep_view().push(list@[i as int]@));
        assert(list.deep_view().take(i + 1) =~= list.deep_view().take(i as int).push(
            list@[i as int]@,
        ));
    }
    assert(list.deep_view().take(list@.len() as int) =~= list.deep_view());
    copy
}

fn member(id: &[String], name: String) -> (path: TableId)
    ensures
        path.deep_view() == id.deep_view().push(name@),
{
    let mut path = copy_list(id);
    let ghost before = path;
    path.push(name);
    assert(path.deep_view() =~= before.deep_view().push(name@));
    path
}

impl NamespaceWalk {
    /// A walk from the namespace `root_namespace_id` that asks for at most
    /// `limit_per_list_call` names per page.
    pub fn new(root_namespace_id: TableId, limit_per_list_call: i32) -> (walk: NamespaceWalk)
        ensures
            walk.deep_view() == WalkState::start(
                root_namespace_id.deep_view(),
                limit_per_list_call,
            ),
    {
        let mut queue: VecDeque<TableId> = VecDeque::new();
        let copy = copy_list(root_namespace_id.as_slice());
        queue.push_back(copy);
        let ghost root = root_namespace_id.deep_view();
        let mut visited: Vec<TableId> = Vec::new();
        visited.push(root_namespace_id);
        assert(queue.deep_view() =~= seq![root]);
        assert(visited.deep_view() =~= seq![root]);
        let out: Vec<TableId> = Vec::new();
        assert(out.deep_view() =~= seq![]);
        NamespaceWalk {
            out,
            queue,
            visited,
            listing: Listing::Tables,
            page_token: None,
            limit: limit_per_list_call,
        }
    }

    /// The request to make next; nothing is left to ask once the queue is empty.
    pub fn request(&self) -> (r: Option<ListRequest>)
        ensures
            request_view(r) == self.deep_view().asks(),
            r is Some <==> self.deep_view().queue.len() > 0,
            r matches Some(request) ==> {
                &&& request.listing == self.deep_view().listing
                &&& request.id.deep_view() == self.deep_view().queue[0]
                &&& request.page_token.deep_view() == self.deep_view().page_token
                &&& request.limit == self.deep_view().limit
            },
    {
        if self.queue.len() == 0 {
            return None;
        }
        Some(
            ListRequest {
                listing: self.listing,
                id: copy_list(self.queue[0].as_slice()),
                page_token: self.page_token.clone(),
                limit: self.limit,
            },
        )
    }

    /// Takes the answer to the pending request: a page of names and the token behind it.
    pub fn answer(&mut self, names: Vec<String>, page_token: Option<String>)
        requires
            old(self).deep_view().queue.len() > 0,
        ensures
            final(self).deep_view() == old(self).deep_view().after(
                Page { names: names.deep_view(), token: page_token.deep_view() },
            ),
    {
        let ghost before = self.deep_view();
        let ghost page = Page { names: names.deep_view(), token: page_token.deep_view() };
        let ghost id = before.queue[0];
        let ghost named = members(id, page.names);
        match self.listing {
            Listing::Tables => {
                for i in 0..names.len()
                    invariant
                        self.queue.deep_view() == before.queue,
                        self.visited.deep_view() == before.visited,
                        self.listing == Listing::Tables,
                        self.limit == before.limit,
                        before.queue.len() > 0,
                        id == before.queue[0],
                        page.names == names.deep_view(),
                        named == members(id, page.names),
                        self.out.deep_view() == before.out + named.take(i as int),
                {
                    let ghost out = self.out.deep_view();
                    assert(self.queue.deep_view().len() == self.queue@.len());
                    assert(self.queue.deep_view()[0] == self.queue@[0].deep_view());
                    let path = member(self.queue[0].as_slice(), names[i].clone());
                    self.out.push(path);
                    assert(self.out.deep_view() =~= out.push(path.deep_view()));
                    assert(path.deep_view() == named[i as int]);
                    assert(named.take(i + 1) =~= named.take(i as int).push(named[i as int]));
                    assert(before.out + named.take(i + 1) =~= (before.out + named.take(
                        i as int,
                    )).push(named[i as int]));
                }
                assert(named.take(named.len() as int) =~= named);
            },
            Listing::Namespaces => {
                assert(before.visited.skip(before.visited.len() as int) =~= seq![]);
                assert(before.queue + seq![] =~= before.queue);
                for i in 0..names.len()
                    invariant
                        self.out.deep_view() == before.out,
                        self.listing == Listing::Namespaces,
                        self.limit == before.limit,
                        before.queue.len() > 0,
                        id == before.queue[0],
                        page.names == names.deep_view(),
                        named == members(id, page.names),
                        self.visited.deep_view() == extended(before.visited, named.take(i as int)),
                        before.visited.len() <= self.visited.deep_view().len(),
                        self.queue.deep_view() == before.queue + self.visited.deep_view().skip(
                            before.visited.len() as int,
                        ),
                {
                    let ghost visited = self.visited.deep_view();
                    let ghost queue = self.queue.deep_view();
                    assert(self.queue.deep_view().len() == self.queue@.len());
                    assert(self.queue.deep_view()[0] == self.queue@[0].deep_view());
                    let path = member(self.queue[0].as_slice(), names[i].clone());
                    assert(path.deep_view() == named[i as int]);
                    assert(named.take(i + 1).drop_last() =~= named.take(i as int));
                    assert(named.take(i + 1).last() == named[i as int]);
                    if !contains_id(&self.visited, path.as_slice()) {
                        let copy = copy_list(path.as_slice());
                        self.visited.push(copy);
                        self.queue.push_back(path);
                        assert(self.visited.deep_view() =~= visited.push(path.deep_view()));
                        assert(self.queue.deep_view() =~= queue.push(path.deep_view()));
                        assert(self.visited.deep_view().skip(before.visited.len() as int)
                            =~= visited.skip(before.visited.len() as int).push(path.deep_view()));
                        assert(self.queue.deep_view() =~= before.queue
                            + self.visited.deep_view().skip(before.visited.len() as int));
                    }
                }
                assert(named.take(named.len() as int) =~= named);
            },
        }
        let more = match &page_token {
            Some(token) => !token.as_str().is_empty(),
            None => false,
        };
        assert(more == more_pages(page.token));
        if more {
            self.page_token = page_token;
        } else {
            self.page_token = None;
            match self.listing {
                Listing::Tables => {
                    self.listing = Listing::Namespaces;
                },
                Listing::Namespaces => {
                    let ghost queue = self.queue.deep_view();
                    let _first = self.queue.pop_front();
                    assert(self.queue.deep_view() =~= queue.drop_first());
                    self.listing = Listing::Tables;
                },
            }
        }
    }

    /// The tables found, in the order in which the remote named them.
    pub fn into_tables(self) -> (tables: Vec<TableId>)
        ensures
            tables.deep_view() == self.deep_view().out,
    {
        self.out
    }
}

// ---------------------------------------------------------------------------
// What holds of every walk
// ---------------------------------------------------------------------------

/// The state of a walk from `root` behind the answers `pages`.
pub open spec fn walked(root: order::Texts, limit: i32, pages: Seq<Page>) -> WalkState
    decreases pages.len(),
{
    if pages.len() == 0 {
        WalkState::start(root, limit)
    } else {
        walked(root, limit, pages.drop_last()).after(pages.last())
    }
}

/// Whether each of `pages` answers a request that the walk made.
pub open spec fn answers(root: order::Texts, limit: i32, pages: Seq<Page>) -> bool {
    forall|i: int|
        0 <= i < pages.len() ==> (#[trigger] walked(root, limit, pages.take(i))).queue.len() > 0
}

/// Whether page `i` is a page of the listing `listing` of the namespace `id`.
pub open spec fn page_of(
    root: order::Texts,
    limit: i32,
    pages: Seq<Page>,
    i: int,
    id: order::Texts,
    listing: Listing,
) -> bool {
    let asked = walked(root, limit, pages.take(i));
    &&& 0 <= i < pages.len()
    &&& asked.queue[0] == id
    &&& asked.listing == listing
}

/// Whether the listing `listing` of the namespace `id` was read to its last page.
pub open spec fn read_to_end(
    root: order::Texts,
    limit: i32,
    pages: Seq<Page>,
    id: order::Texts,
    listing: Listing,
) -> bool {
    exists|i: int| #[trigger]
        page_of(root, limit, pages, i, id, listing) && !more_pages(pages[i].token)
}

/// Whether `id` lies at or below `root`.
pub open spec fn under(root: order::Texts, id: order::Texts) -> bool {
    root.len() <= id.len() && id.take(root.len() as int) == root
}

proof fn extended_grows(seen: Seq<order::Texts>, ids: Seq<order::Texts>)
    ensures
        seen.len() <= extended(seen, ids).len(),
        extended(seen, ids).take(seen.len() as int) == seen,
        seen.no_duplicates() ==> extended(seen, ids).no_duplicates(),
        forall|k: int| 0 <= k < ids.len() ==> extended(seen, ids).contains(#[trigger] ids[k]),
        forall|k: int|
            seen.len() <= k < extended(seen, ids).len() ==> ids.contains(
                #[trigger] extended(seen, ids)[k],
            ),
    decreases ids.len(),
{
    if ids.len() == 0 {
        assert(seen.take(seen.len() as int) =~= seen);
    } else {
        let before = extended(seen, ids.drop_last());
        let now = extended(seen, ids);
        extended_grows(seen, ids.drop_last());
        assert(now.take(seen.len() as int) =~= before.take(seen.len() as int));
        assert forall|k: int| 0 <= k < ids.len() implies now.contains(#[trigger] ids[k]) by {
            if k < ids.len() - 1 {
                assert(ids.drop_last()[k] == ids[k]);
                assert(before.contains(ids[k]));
                let m = choose|m: int| 0 <= m < before.len() && before[m] == ids[k];
                assert(now[m] == ids[k]);
            } else if !before.contains(ids.last()) {
                assert(now[before.len() as int] == ids[k]);
            }
        }
        assert forall|k: int| seen.len() <= k < now.len() implies ids.contains(
            #[trigger] now[k],
        ) by {
            if k < before.len() {
                assert(ids.drop_last().contains(before[k]));
                let m = choose|m: int|
                    0 <= m < ids.drop_last().len() && ids.drop_last()[m] == before[k];
                assert(ids[m] == now[k]);
            } else {
                assert(ids[ids.len() - 1] == now[k]);
            }
        }
    }
}

/// One answer keeps a walk valid.
proof fn after_keeps_valid(s: WalkState, page: Page)
    requires
        s.valid(),
        s.queue.len() > 0,
    ensures
        s.after(page).valid(),
        s.visited.len() <= s.after(page).visited.len(),
        s.after(page).visited.take(s.visited.len() as int) == s.visited,
{
    let named = members(s.queue[0], page.names);
    let t = s.after(page);
    if s.listing == Listing::Namespaces {
        extended_grows(s.visited, named);
        let v = extended(s.visited, named);
        let queue = s.queue + v.skip(s.visited.len() as int);
        let done = s.visited.len() - s.queue.len();
        assert forall|k: int| 0 <= k < s.visited.len() implies v[k] == s.visited[k] by {
            assert(v.take(s.visited.len() as int)[k] == v[k]);
        }
        assert(queue =~= v.skip(done));
        if !more_pages(page.token) {
            assert(queue.drop_first() =~= v.skip(done + 1));
        }
    } else {
        assert(t.visited.take(s.visited.len() as int) =~= s.visited);
    }
}

/// Every walk queues a namespace at most once and lists the namespaces in the order in which it
/// queued them.
pub proof fn walk_visits_once(root: order::Texts, limit: i32, pages: Seq<Page>)
    requires
        answers(root, limit, pages),
    ensures
        walked(root, limit, pages).valid(),
    decreases pages.len(),
{
    if pages.len() == 0 {
        let s = WalkState::start(root, limit);
        assert(s.queue =~= s.visited.skip(0));
    } else {
        let before = pages.drop_last();
        answers_prefix(root, limit, pages);
        walk_visits_once(root, limit, before);
        assert(pages.take(pages.len() - 1) =~= before);
        after_keeps_valid(walked(root, limit, before), pages.last());
    }
}

proof fn answers_prefix(root: order::Texts, limit: i32, pages: Seq<Page>)
    requires
        answers(root, limit, pages),
        pages.len() > 0,
    ensures
        answers(root, limit, pages.drop_last()),
        walked(root, limit, pages.drop_last()).queue.len() > 0,
{
    let before = pages.drop_last();
    assert forall|i: int| 0 <= i < before.len() implies (#[trigger] walked(
        root,
        limit,
        before.take(i),
    )).queue.len() > 0 by {
        assert(before.take(i) =~= pages.take(i));
    }
    assert(pages.take(pages.len() - 1) =~= before);
}

/// Every walk stays at or below its root: the namespaces that it lists and the tables that it
/// finds all have the root's path in front.
pub proof fn walk_stays_under_root(root: order::Texts, limit: i32, pages: Seq<Page>)
    requires
        answers(root, limit, pages),
    ensures
        forall|k: int|
            0 <= k < walked(root, limit, pages).visited.len() ==> under(
                root,
                #[trigger] walked(root, limit, pages).visited[k],
            ),
        forall|k: int|
            0 <= k < walked(root, limit, pages).out.len() ==> under(
                root,
                #[trigger] walked(root, limit, pages).out[k],
            ),
    decreases pages.len(),
{
    if pages.len() == 0 {
        assert(root.take(root.len() as int) =~= root);
    } else {
        let before = pages.drop_last();
        let s = walked(root, limit, before);
        let t = walked(root, limit, pages);
        answers_prefix(root, limit, pages);
        walk_stays_under_root(root, limit, before);
        walk_visits_once(root, limit, before);
        let named = members(s.queue[0], pages.last().names);
        let first = s.visited.len() - s.queue.len();
        assert(s.queue[0] == s.visited[first]);
        assert(under(root, s.queue[0]));
        assert forall|k: int| 0 <= k < named.len() implies under(root, #[trigger] named[k]) by {
            assert(named[k].take(root.len() as int) =~= s.queue[0].take(root.len() as int));
        }
        extended_grows(s.visited, named);
        after_keeps_valid(s, pages.last());
        assert forall|k: int| 0 <= k < t.visited.len() implies under(
            root,
            #[trigger] t.visited[k],
        ) by {
            if k < s.visited.len() {
                assert(t.visited.take(s.visited.len() as int)[k] == t.visited[k]);
                assert(under(root, s.visited[k]));
            } else {
                assert(named.contains(t.visited[k]));
                let m = choose|m: int| 0 <= m < named.len() && named[m] == t.visited[k];
                assert(under(root, named[m]));
            }
        }
        assert forall|k: int| 0 <= k < t.out.len() implies under(root, #[trigger] t.out[k]) by {
            if k < s.out.len() {
                assert(under(root, s.out[k]));
            } else {
                assert(under(root, named[k - s.out.len()]));
            }
        }
    }
}

/// A walk finds every table, and visits every child namespace, that a page names.
pub proof fn walk_finds_what_is_named(
    root: order::Texts,
    limit: i32,
    pages: Seq<Page>,
    i: int,
    id: order::Texts,
    name: Seq<char>,
)
    requires
        answers(root, limit, pages),
        0 <= i < pages.len(),
        pages[i].names.contains(name),
    ensures
        page_of(root, limit, pages, i, id, Listing::Tables) ==> walked(root, limit, pages).out.contains(
            id.push(name),
        ),
        page_of(root, limit, pages, i, id, Listing::Namespaces) ==> walked(root, limit, pages).visited.contains(
            id.push(name),
        ),
    decreases pages.len(),
{
    let before = pages.drop_last();
    let s = walked(root, limit, before);
    let t = walked(root, limit, pages);
    answers_prefix(root, limit, pages);
    walk_visits_once(root, limit, before);
    after_keeps_valid(s, pages.last());
    let named = members(s.queue[0], pages.last().names);
    extended_grows(s.visited, named);
    if i < pages.len() - 1 {
        assert(before.take(i) =~= pages.take(i));
        assert(before[i] == pages[i]);
        walk_finds_what_is_named(root, limit, before, i, id, name);
        if page_of(root, limit, pages, i, id, Listing::Tables) {
            assert(page_of(root, limit, before, i, id, Listing::Tables));
            let m = choose|m: int| 0 <= m < s.out.len() && s.out[m] == id.push(name);
            assert(t.out[m] == id.push(name));
        }
        if page_of(root, limit, pages, i, id, Listing::Namespaces) {
            assert(page_of(root, limit, before, i, id, Listing::Namespaces));
            let m = choose|m: int| 0 <= m < s.visited.len() && s.visited[m] == id.push(name);
            assert(t.visited.take(s.visited.len() as int)[m] == t.visited[m]);
            assert(t.visited[m] == id.push(name));
        }
    } else {
        assert(pages.take(i) =~= before);
        let m = choose|m: int| 0 <= m < pages[i].names.len() && pages[i].names[m] == name;
        assert(named[m] == s.queue[0].push(name));
        if page_of(root, limit, pages, i, id, Listing::Tables) {
            assert(t.out[s.out.len() + m] == id.push(name));
        }
    }
}

/// A walk finds no table that no page names.
pub proof fn walk_finds_only_what_is_named(root: order::Texts, limit: i32, pages: Seq<Page>, k: int)
    requires
        answers(root, limit, pages),
        0 <= k < walked(root, limit, pages).out.len(),
    ensures
        exists|i: int, id: order::Texts, name: Seq<char>|
            #![trigger page_of(root, limit, pages, i, id, Listing::Tables), id.push(name)]
            page_of(root, limit, pages, i, id, Listing::Tables) && pages[i].names.contains(name)
                && walked(root, limit, pages).out[k] == id.push(name),
    decreases pages.len(),
{
    let before = pages.drop_last();
    let s = walked(root, limit, before);
    if pages.len() == 0 {
    } else {
        answers_prefix(root, limit, pages);
        assert(pages.take(pages.len() - 1) =~= before);
        if k < s.out.len() {
            walk_finds_only_what_is_named(root, limit, before, k);
            let (i, id, name) = choose|i: int, id: order::Texts, name: Seq<char>|
                #![trigger page_of(root, limit, before, i, id, Listing::Tables), id.push(name)]
                page_of(root, limit, before, i, id, Listing::Tables) && before[i].names.contains(name)
                    && s.out[k] == id.push(name);
            assert(before.take(i) =~= pages.take(i));
            assert(page_of(root, limit, pages, i, id, Listing::Tables));
            assert(pages[i].names.contains(name));
            assert(walked(root, limit, pages).out[k] == id.push(name));
        } else {
            let i = pages.len() - 1;
            let id = s.queue[0];
            let name = pages[i].names[k - s.out.len()];
            assert(page_of(root, limit, pages, i, id, Listing::Tables));
            assert(members(id, pages[i].names)[k - s.out.len()] == id.push(name));
        }
    }
}

/// A finished walk has read, of every namespace that it visited, both listings to the last page.
pub proof fn finished_walk_read_everything(
    root: order::Texts,
    limit: i32,
    pages: Seq<Page>,
    id: order::Texts,
)
    requires
        answers(root, limit, pages),
        walked(root, limit, pages).queue.len() == 0,
        walked(root, limit, pages).visited.contains(id),
    ensures
        read_to_end(root, limit, pages, id, Listing::Tables),
        read_to_end(root, limit, pages, id, Listing::Namespaces),
{
    let s = walked(root, limit, pages);
    let k = choose|k: int| 0 <= k < s.visited.len() && s.visited[k] == id;
    done_means_read(root, limit, pages, k);
}

proof fn read_to_end_lasts(
    root: order::Texts,
    limit: i32,
    pages: Seq<Page>,
    id: order::Texts,
    listing: Listing,
)
    requires
        pages.len() > 0,
        read_to_end(root, limit, pages.drop_last(), id, listing),
    ensures
        read_to_end(root, limit, pages, id, listing),
{
    let before = pages.drop_last();
    let i = choose|i: int| #[trigger]
        page_of(root, limit, before, i, id, listing) && !more_pages(before[i].token);
    assert(before.take(i) =~= pages.take(i));
    assert(page_of(root, limit, pages, i, id, listing));
}

/// The namespaces in front of the queue were read to the end, and the tables of the one at the
/// front of the queue too once its children are asked for.
proof fn done_means_read(root: order::Texts, limit: i32, pages: Seq<Page>, k: int)
    requires
        answers(root, limit, pages),
        0 <= k < walked(root, limit, pages).visited.len(),
    ensures
        k < walked(root, limit, pages).visited.len() - walked(root, limit, pages).queue.len() ==> read_to_end(
            root,
            limit,
            pages,
            walked(root, limit, pages).visited[k],
            Listing::Tables,
        ) && read_to_end(root, limit, pages, walked(root, limit, pages).visited[k], Listing::Namespaces),
        k == walked(root, limit, pages).visited.len() - walked(root, limit, pages).queue.len() && walked(
            root,
            limit,
            pages,
        ).listing == Listing::Namespaces ==> read_to_end(
            root,
            limit,
            pages,
            walked(root, limit, pages).visited[k],
            Listing::Tables,
        ),
    decreases pages.len(),
{
    let t = walked(root, limit, pages);
    if pages.len() > 0 {
        let before = pages.drop_last();
        let s = walked(root, limit, before);
        let i = pages.len() - 1;
        answers_prefix(root, limit, pages);
        walk_visits_once(root, limit, before);
        after_keeps_valid(s, pages.last());
        assert(pages.take(i) =~= before);
        let front = s.visited.len() - s.queue.len();
        assert(s.queue[0] == s.visited[front]);
        if k < s.visited.len() {
            assert(t.visited.take(s.visited.len() as int)[k] == t.visited[k]);
            done_means_read(root, limit, before, k);
            if k < front {
                read_to_end_lasts(root, limit, pages, s.visited[k], Listing::Tables);
                read_to_end_lasts(root, limit, pages, s.visited[k], Listing::Namespaces);
            } else if k == front {
                assert(page_of(root, limit, pages, i, s.queue[0], s.listing));
                if s.listing == Listing::Namespaces {
                    read_to_end_lasts(root, limit, pages, s.visited[k], Listing::Tables);
                }
            }
        }
    }
}

/// A page with a token is followed by the page behind it, of the same listing of the same namespace;
/// one without is followed by the first page of the next listing: the children of the namespace
/// behind its tables, and the tables of the next namespace behind its children.
pub proof fn pages_follow_their_tokens(s: WalkState, page: Page)
    requires
        s.queue.len() > 0,
    ensures
        s.after(page).limit == s.limit,
        page.token matches Some(token) ==> token.len() > 0 ==> s.after(page).listing == s.listing
            && s.after(page).queue[0] == s.queue[0] && s.after(page).page_token == Some(token),
        page.token is None || page.token->Some_0.len() == 0 ==> {
            &&& s.after(page).page_token is None
            &&& s.listing == Listing::Tables ==> s.after(page).listing == Listing::Namespaces
                && s.after(page).queue == s.queue
            &&& s.listing == Listing::Namespaces ==> s.after(page).listing == Listing::Tables
                && s.after(page).queue.len() + 1 >= s.queue.len() && s.after(page).queue.take(
                s.queue.len() - 1,
            ) == s.queue.drop_first()
        },
{
    let named = members(s.queue[0], page.names);
    extended_grows(s.visited, named);
    if s.listing == Listing::Namespaces {
        let all = s.queue + extended(s.visited, named).skip(s.visited.len() as int);
        assert(all.drop_first().take(s.queue.len() - 1) =~= s.queue.drop_first());
    }
}

/// A page of tables adds them all, in order, under the path of their namespace, and changes nothing
/// else that was found; a page of namespaces adds no table.
pub proof fn tables_are_found_in_order(s: WalkState, page: Page)
    requires
        s.queue.len() > 0,
    ensures
        s.listing == Listing::Tables ==> {
            &&& s.after(page).out.len() == s.out.len() + page.names.len()
            &&& s.after(page).out.take(s.out.len() as int) == s.out
            &&& forall|i: int|
                0 <= i < page.names.len() ==> s.after(page).out[s.out.len() + i]
                    == s.queue[0].push(#[trigger] page.names[i])
            &&& s.after(page).visited == s.visited
        },
        s.listing == Listing::Namespaces ==> s.after(page).out == s.out,
{
    let named = members(s.queue[0], page.names);
    if s.listing == Listing::Tables {
        let after = s.after(page).out;
        assert(after =~= s.out + named);
        assert(after.take(s.out.len() as int) =~= s.out);
        assert forall|i: int| 0 <= i < page.names.len() implies after[s.out.len() + i]
            == s.queue[0].push(#[trigger] page.names[i]) by {
            assert(after[s.out.len() + i] == named[i]);
        }
    }
}

/// A walk starts at its root, with the tables, on the first page.
pub proof fn walk_starts_at_its_root(root: order::Texts, limit: i32)
    ensures
        ({
            let s = WalkState::start(root, limit);
            s.queue == seq![root] && s.visited == seq![root] && s.out.len() == 0 && s.listing
                == Listing::Tables && s.page_token is None && s.limit == limit
        }),
{
}

/// A walk asks first for the tables of its root, and of a page with a token for the page behind it,
/// always for as many names as it was told; it asks as long as a namespace is queued.
pub proof fn walk_asks_page_by_page(root: order::Texts, limit: i32, pages: Seq<Page>, page: Page)
    requires
        answers(root, limit, pages),
        walked(root, limit, pages).queue.len() > 0,
    ensures
        WalkState::start(root, limit).asks() == Some(
            (Listing::Tables, root, None::<Seq<char>>, limit),
        ),
        walked(root, limit, pages).asks() matches Some((listing, id, token, n)) && n == limit && (
        page.token matches Some(more) ==> more.len() > 0 ==> walked(root, limit, pages).after(
            page,
        ).asks() == Some((listing, id, Some(more), limit))),
{
    limit_stays(root, limit, pages);
    let s = walked(root, limit, pages);
    pages_follow_their_tokens(s, page);
    extended_grows(s.visited, members(s.queue[0], page.names));
}

proof fn limit_stays(root: order::Texts, limit: i32, pages: Seq<Page>)
    ensures
        walked(root, limit, pages).limit == limit,
    decreases pages.len(),
{
    if pages.len() > 0 {
        limit_stays(root, limit, pages.drop_last());
    }
}

} // verus!
