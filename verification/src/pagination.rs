//! Pages of results from paginated ClickUp API endpoints.
use vstd::prelude::*;
use crate::json::JsonValue;
use crate::text::decimal;

verus! {

/// A single page of results from a paginated ClickUp API endpoint.
#[derive(Debug)]
pub struct PaginatedResponse<T> {
    /// The items returned on this page.
    pub data: Vec<T>,
    /// Whether this is the last page of results.
    pub last_page: bool,
}

impl<T> PaginatedResponse<T> {
    /// Creates a new `PaginatedResponse`.
    pub fn new(data: Vec<T>, last_page: bool) -> (r: Self)
        ensures
            r.data@ == data@,
            r.last_page == last_page,
    {
        PaginatedResponse { data, last_page }
    }
}

/// The common ClickUp page shape `{ "<key>": [...], "last_page": bool }`:
/// whether this is the last page (`true` unless the member says otherwise) and
/// the items' value (`None` when there is no such member: no items).
pub fn standard_page<'a>(value: &'a JsonValue, key: &str) -> (r: (bool, Option<&'a JsonValue>))
    ensures
        r.0 == (match value.spec_get("last_page"@) {
            Some(v) => match v.spec_as_bool() { Some(b) => b, None => true },
            None => true,
        }),
        match r.1 {
            Some(items) => value.spec_get(key@) == Some(*items),
            None => value.spec_get(key@) is None,
        },
{
    let last_page = match value.get("last_page") {
        Some(v) => match v.as_bool() {
            Some(b) => b,
            None => true,
        },
        None => true,
    };
    (last_page, value.get(key))
}

/// Collects the items of all pages of a paginated endpoint: the page to ask
/// for next, and whether the last page has come.
pub struct PageCollector<T> {
    /// The items so far, in page order.
    pub items: Vec<T>,
    /// The page to fetch next.
    pub page: u64,
    /// Whether the last page has been added.
    pub done: bool,
}

impl<T> PageCollector<T> {
    /// A collector that asks for page 0 first.
    pub fn new() -> (r: Self)
        ensures
            r.items@.len() == 0,
            r.page == 0,
            !r.done,
    {
        PageCollector { items: Vec::new(), page: 0, done: false }
    }

    /// Adds a fetched page: its items are appended; after the last page the
    /// collector is done, else it moves to the next page.
    pub fn add(&mut self, page: PaginatedResponse<T>)
        requires
            !page.last_page ==> old(self).page < u64::MAX,
        ensures
            final(self).items@ == old(self).items@ + page.data@,
            final(self).done == page.last_page,
            final(self).page == (if page.last_page { old(self).page } else { (old(self).page + 1) as u64 }),
    {
        let mut data = page.data;
        self.items.append(&mut data);
        self.done = page.last_page;
        if !page.last_page {
            self.page = self.page + 1;
        }
    }
}

/// The views of query parameters.
pub open spec fn params_view(v: Seq<(String, String)>) -> Seq<(Seq<char>, Seq<char>)> {
    v.map_values(|p: (String, String)| (p.0@, p.1@))
}

/// The query parameters of a request for tasks: tasks added from other lists
/// are included, then the page (when one is asked for), each status, each
/// assignee, and whether closed tasks are included (only when they are).
pub open spec fn task_query(page: Option<u64>, statuses: Seq<Seq<char>>, assignees: Seq<Seq<char>>,
    include_closed: bool) -> Seq<(Seq<char>, Seq<char>)> {
    seq![("include_timl"@, "true"@)]
        + (match page { Some(p) => seq![("page"@, decimal(p as nat))], None => Seq::empty() })
        + statuses.map_values(|s: Seq<char>| ("statuses[]"@, s))
        + assignees.map_values(|a: Seq<char>| ("assignees[]"@, a))
        + (if include_closed { seq![("include_closed"@, "true"@)] } else { Seq::empty() })
}

/// Appends one parameter with the given name for each value.
fn push_each(out: &mut Vec<(String, String)>, name: &str, values: &Vec<String>)
    ensures
        params_view(final(out)@) == params_view(old(out)@)
            + crate::filter_config::strings_view(values@).map_values(|s: Seq<char>| (name@, s)),
{
    let ghost start = params_view(out@);
    let mut i: usize = 0;
    while i < values.len()
        invariant
            i <= values.len(),
            params_view(out@) == start
                + crate::filter_config::strings_view(values@).subrange(0, i as int).map_values(|s: Seq<char>| (name@, s)),
        decreases values.len() - i,
    {
        let ghost before = out@;
        out.push((crate::text::string_of(&crate::text::chars_of(name)), values[i].clone()));
        i += 1;
        proof {
            assert(params_view(out@) =~= params_view(before).push((name@, values@[i - 1]@)));
            assert(crate::filter_config::strings_view(values@).subrange(0, i as int).map_values(|s: Seq<char>| (name@, s))
                =~= crate::filter_config::strings_view(values@).subrange(0, i - 1).map_values(|s: Seq<char>| (name@, s))
                    .push((name@, values@[i - 1]@)));
        }
    }
    proof {
        assert(crate::filter_config::strings_view(values@).subrange(0, values@.len() as int)
            =~= crate::filter_config::strings_view(values@));
    }
}

/// A parameter `(name, value)`.
fn param(name: &str, value: &str) -> (r: (String, String))
    ensures
        r.0@ == name@,
        r.1@ == value@,
{
    (crate::text::string_of(&crate::text::chars_of(name)), crate::text::string_of(&crate::text::chars_of(value)))
}

/// Builds the query parameters of a request for tasks.
pub fn task_query_params(page: Option<u64>, statuses: &Vec<String>, assignees: &Vec<String>, include_closed: bool)
    -> (r: Vec<(String, String)>)
    ensures
        params_view(r@) == task_query(page, crate::filter_config::strings_view(statuses@),
            crate::filter_config::strings_view(assignees@), include_closed),
{
    let mut out: Vec<(String, String)> = Vec::new();
    out.push(param("include_timl", "true"));
    if let Some(p) = page {
        let mut digits: Vec<char> = Vec::new();
        crate::text::push_decimal(&mut digits, p);
        let value = crate::text::string_of(&digits);
        out.push((crate::text::string_of(&crate::text::chars_of("page")), value));
    }
    let ghost head = params_view(out@);
    proof {
        assert(head =~= seq![("include_timl"@, "true"@)]
            + (match page { Some(p) => seq![("page"@, decimal(p as nat))], None => Seq::empty() }));
    }
    push_each(&mut out, "statuses[]", statuses);
    push_each(&mut out, "assignees[]", assignees);
    let ghost body = params_view(out@);
    if include_closed {
        out.push(param("include_closed", "true"));
        proof { assert(params_view(out@) =~= body.push(("include_closed"@, "true"@))); }
    }
    proof {
        assert(params_view(out@) =~= task_query(page, crate::filter_config::strings_view(statuses@),
            crate::filter_config::strings_view(assignees@), include_closed));
    }
    out
}

} // verus!
