//! Listing what a server offers, a page at a time and in a fixed order.

use crate::json::{list, object, push_field, push_maybe, text_if, Json, JsonView};
use crate::order::{sort, Ranked};
use crate::pagination::{paginate, PageState};
use crate::params::read_cursor;
use crate::protocol::{Entry, EntryView};
use crate::server::{PromptEntry, Server, ToolEntry};
use crate::types::{McpError, McpErrorView};
use vstd::prelude::*;
use vstd::string::*;

verus! {

/// What is said of each entry.
pub open spec fn wires(s: Seq<EntryView>) -> Seq<JsonView> {
    s.map_values(|e: EntryView| e.wire)
}

/// A page on the wire.
pub open spec fn page_json(
    field: Seq<char>,
    s: Seq<EntryView>,
    offset: int,
    page_size: int,
) -> JsonView {
    JsonView::Object(
        seq![(field, JsonView::List(wires(crate::pagination::page(s, offset, page_size))))]
            + crate::json::maybe(
            "nextCursor"@,
            match crate::pagination::next_cursor(offset, page_size, s.len() as int) {
                Some(c) => Some(JsonView::Text(c)),
                None => None,
            },
        ),
    )
}

/// All entries, by key.
pub open spec fn is_listing(s: Seq<EntryView>, all: Seq<EntryView>) -> bool {
    crate::order::in_order::<Entry>(s) && s.to_multiset() == all.to_multiset()
}

/// Whether this is the answer to a request for a page of these entries.
pub open spec fn is_page(
    r: Result<JsonView, McpErrorView>,
    all: Seq<EntryView>,
    field: Seq<char>,
    params: Option<JsonView>,
    page_size: int,
) -> bool {
    match crate::params::cursor_param(params) {
        Err(e) => r == Err::<JsonView, McpErrorView>(e),
        Ok(c) => match crate::pagination::page_at(c) {
            Err(e) => r == Err::<JsonView, McpErrorView>(e),
            Ok(offset) => exists|s: Seq<EntryView>|
                is_listing(s, all) && r == Ok::<JsonView, McpErrorView>(
                    #[trigger] page_json(field, s, offset, page_size),
                ),
        },
    }
}

/// The tools as entries.
pub open spec fn tool_entries(v: Seq<ToolEntry>) -> Seq<EntryView> {
    v.map_values(|t: ToolEntry| EntryView { key: t.name@, wire: t.wire@ })
}

/// The prompts as entries.
pub open spec fn prompt_entries(v: Seq<PromptEntry>) -> Seq<EntryView> {
    v.map_values(|p: PromptEntry| EntryView { key: p.name@, wire: p.wire@ })
}

/// Gives out a page of these entries.
pub fn list_entries(
    entries: Vec<Entry>,
    field: &str,
    params: &Option<Json>,
    page_size: usize,
) -> (r: Result<Json, McpError>)
    ensures
        is_page(
            crate::types::outcome_view(r),
            crate::order::viewed(entries@),
            field@,
            crate::json::optional(*params),
            page_size as int,
        ),
{
    let cursor = match read_cursor(params) {
        Ok(c) => c,
        Err(e) => {
            return Err(e);
        },
    };
    let asked = match &cursor {
        Some(c) => Some(c.as_str()),
        None => None,
    };
    let state = match PageState::from_cursor(asked, page_size) {
        Ok(state) => state,
        Err(e) => {
            return Err(e);
        },
    };
    let all = sort(entries);
    let ghost s = crate::order::viewed(all@);
    let (from, to, next) = paginate(all.len(), &state);
    let mut shown: Vec<Json> = Vec::new();
    let mut i: usize = from;
    let ghost page = crate::pagination::page(s, state.offset as int, state.page_size as int);
    assert(page.len() == to - from);
    assert(crate::json::items(shown@) =~= wires(page).take(0));
    while i < to
        invariant
            from <= i <= to <= all@.len(),
            s == crate::order::viewed(all@),
            page == crate::pagination::page(s, state.offset as int, state.page_size as int),
            page.len() == to - from,
            from < to ==> from == state.offset && state.offset < all@.len() && to
                == crate::pagination::page_end(
                state.offset as int,
                state.page_size as int,
                s.len() as int,
            ),
            crate::json::items(shown@) == wires(page).take(i - from),
        decreases to - i,
    {
        let one = all[i].wire.copy();
        let ghost done = shown@;
        shown.push(one);
        proof {
            assert(page[i - from] == s[i as int]);
            assert(s[i as int] == all@[i as int]@);
            assert(crate::json::items(shown@) =~= crate::json::items(done).push(one@));
            assert(wires(page).take(i - from + 1) =~= wires(page).take(i - from).push(one@));
        }
        i = i + 1;
    }
    assert(wires(page).take(to - from) =~= wires(page));
    let mut v: Vec<(String, Json)> = Vec::new();
    assert(crate::json::fields(v@) =~= Seq::empty());
    push_field(&mut v, field, list(shown));
    push_maybe(&mut v, "nextCursor", text_if(&next));
    assert(crate::json::fields(v@) =~= page_json(
        field@,
        s,
        state.offset as int,
        page_size as int,
    )->Object_0);
    let r = object(v);
    assert(is_listing(s, crate::order::viewed(entries@)));
    Ok(r)
}

fn copy_entries(v: &Vec<Entry>) -> (r: Vec<Entry>)
    ensures
        crate::order::viewed(r@) == crate::order::viewed(v@),
{
    let mut out: Vec<Entry> = Vec::new();
    let mut i: usize = 0;
    assert(crate::order::viewed(out@) =~= crate::order::viewed(v@).take(0));
    while i < v.len()
        invariant
            i <= v@.len(),
            crate::order::viewed(out@) == crate::order::viewed(v@).take(i as int),
        decreases v@.len() - i,
    {
        let ghost before = crate::order::viewed(out@);
        let one = v[i].copy();
        out.push(one);
        i = i + 1;
        assert(crate::order::viewed(out@) =~= before.push(one@));
        assert(crate::order::viewed(out@) =~= crate::order::viewed(v@).take(i as int));
    }
    assert(crate::order::viewed(v@).take(i as int) =~= crate::order::viewed(v@));
    out
}

impl Server {
    /// Lists the tools.
    pub fn handle_list_tools(&self, params: &Option<Json>) -> (r: Result<Json, McpError>)
        ensures
            is_page(
                crate::types::outcome_view(r),
                tool_entries(self.tools@),
                "tools"@,
                crate::json::optional(*params),
                self.config.page_size as int,
            ),
    {
        let mut all: Vec<Entry> = Vec::new();
        let mut i: usize = 0;
        let ghost wanted = tool_entries(self.tools@);
        assert(crate::order::viewed(all@) =~= wanted.take(0));
        while i < self.tools.len()
            invariant
                i <= self.tools@.len(),
                wanted == tool_entries(self.tools@),
                crate::order::viewed(all@) == wanted.take(i as int),
            decreases self.tools@.len() - i,
        {
            let ghost before = crate::order::viewed(all@);
            let one = Entry { key: self.tools[i].name.clone(), wire: self.tools[i].wire.copy() };
            all.push(one);
            i = i + 1;
            assert(crate::order::viewed(all@) =~= before.push(one@));
            assert(crate::order::viewed(all@) =~= wanted.take(i as int));
        }
        assert(wanted.take(i as int) =~= wanted);
        list_entries(all, "tools", params, self.config.page_size)
    }

    /// Lists the resources.
    pub fn handle_list_resources(&self, params: &Option<Json>) -> (r: Result<Json, McpError>)
        ensures
            is_page(
                crate::types::outcome_view(r),
                crate::order::viewed(self.resources@),
                "resources"@,
                crate::json::optional(*params),
                self.config.page_size as int,
            ),
    {
        list_entries(copy_entries(&self.resources), "resources", params, self.config.page_size)
    }

    /// Lists the templates for the URIs of resources.
    pub fn handle_list_resource_templates(&self, params: &Option<Json>) -> (r: Result<
        Json,
        McpError,
    >)
        ensures
            is_page(
                crate::types::outcome_view(r),
                crate::order::viewed(self.resource_templates@),
                "resourceTemplates"@,
                crate::json::optional(*params),
                self.config.page_size as int,
            ),
    {
        list_entries(
            copy_entries(&self.resource_templates),
            "resourceTemplates",
            params,
            self.config.page_size,
        )
    }

    /// Lists the prompts.
    pub fn handle_list_prompts(&self, params: &Option<Json>) -> (r: Result<Json, McpError>)
        ensures
            is_page(
                crate::types::outcome_view(r),
                prompt_entries(self.prompts@),
                "prompts"@,
                crate::json::optional(*params),
                self.config.page_size as int,
            ),
    {
        let mut all: Vec<Entry> = Vec::new();
        let mut i: usize = 0;
        let ghost wanted = prompt_entries(self.prompts@);
        assert(crate::order::viewed(all@) =~= wanted.take(0));
        while i < self.prompts.len()
            invariant
                i <= self.prompts@.len(),
                wanted == prompt_entries(self.prompts@),
                crate::order::viewed(all@) == wanted.take(i as int),
            decreases self.prompts@.len() - i,
        {
            let ghost before = crate::order::viewed(all@);
            let one = Entry {
                key: self.prompts[i].name.clone(),
                wire: self.prompts[i].wire.copy(),
            };
            all.push(one);
            i = i + 1;
            assert(crate::order::viewed(all@) =~= before.push(one@));
            assert(crate::order::viewed(all@) =~= wanted.take(i as int));
        }
        assert(wanted.take(i as int) =~= wanted);
        list_entries(all, "prompts", params, self.config.page_size)
    }
}

/// Where no two entries share a key, they are listed in one order only, so
/// that the pages of two requests fit together.
pub proof fn law_listings_are_the_same_every_time(
    all: Seq<EntryView>,
    a: Seq<EntryView>,
    b: Seq<EntryView>,
)
    requires
        forall|i: int, j: int|
            0 <= i < j < all.len() ==> (#[trigger] all[i]).key != (#[trigger] all[j]).key,
        is_listing(a, all),
        is_listing(b, all),
    ensures
        a == b,
{
    all.to_multiset_ensures();
    a.to_multiset_ensures();
    assert forall|x: EntryView, y: EntryView|
        a.contains(x) && a.contains(y) && x != y implies #[trigger] Entry::precedes(x, y)
        || Entry::precedes(y, x) by {
        assert(a.to_multiset().count(x) > 0);
        assert(a.to_multiset().count(y) > 0);
        assert(all.contains(x));
        assert(all.contains(y));
        let i = choose|i: int| 0 <= i < all.len() && all[i] == x;
        let j = choose|j: int| 0 <= j < all.len() && all[j] == y;
        assert(all[i].key != all[j].key);
        if !crate::order::text_before(x.key, y.key) && !crate::order::text_before(y.key, x.key) {
            crate::order::lemma_text_before_or_same(x.key, y.key);
        }
    }
    crate::order::law_there_is_one_order::<Entry>(a, b);
}

} // verus!
