//! The builder of request URLs for the post API.

use vstd::prelude::*;
use crate::json::{find_key, lemma_lookup_push, lemma_lookup_update, lookup};
use crate::text::{decimal, join, join_strings, push_decimal};

verus! {

/// The ApiUrl struct is used for easily generating API URLs.
///
/// `ApiUrl::new().add_tag("big_boobs").set_limit(5).to_api_url()` gives
/// `https://api.rule34.xxx/index.php?page=dapi&s=post&q=index&tags=big_boobs&limit=5&json=1`.
pub struct ApiUrl {
    /// Base URL of the API, by default `https://api.rule34.xxx/index.php?page=dapi&s=post&q=index`.
    pub api_url: String,
    /// Most posts one request returns. The API allows at most 1000; the default is 1000.
    pub req_limit: usize,
    /// Tags to search for, written as the API spells them. Empty by default.
    pub tags: Vec<String>,
    /// Whether to ask for a JSON answer. True by default.
    pub json: bool,
    /// The ids to filter by, keyed by name: `id` (the post id; best used
    /// alone), `pid` (the page id) and `cid` (the change id). A lookup finds
    /// the first member with its key. By default all three are unset.
    pub ids: Vec<(String, Option<usize>)>,
}

/// The base URL of the post API.
pub open spec fn default_base_url() -> Seq<char> {
    "https://api.rule34.xxx/index.php?page=dapi&s=post&q=index"@
}

/// The keys and values of a list of ids.
pub open spec fn ids_view(ids: Seq<(String, Option<usize>)>) -> Seq<(Seq<char>, Option<usize>)> {
    ids.map_values(|e: (String, Option<usize>)| (e.0@, e.1))
}

/// A fresh `ApiUrl`: the default base URL, limit 1000, no tags, a JSON
/// answer, and `id`, `pid`, `cid` unset.
pub open spec fn is_default_api_url(u: ApiUrl) -> bool {
    &&& u.api_url@ == default_base_url()
    &&& u.req_limit == 1000
    &&& u.tags@.len() == 0
    &&& u.json
    &&& ids_view(u.ids@) == seq![("id"@, None::<usize>), ("pid"@, None), ("cid"@, None)]
}

/// No id name occurs twice in `ids`.
pub open spec fn ids_keys_unique(ids: Seq<(String, Option<usize>)>) -> bool {
    forall|i: int, j: int|
        0 <= i < ids.len() && 0 <= j < ids.len() && i != j ==> (#[trigger] ids[i]).0@ != (#[trigger] ids[j]).0@
}

/// `after` holds `value` under `key` and, under every other key, what
/// `before` holds.
pub open spec fn sets_id(
    before: Seq<(String, Option<usize>)>,
    after: Seq<(String, Option<usize>)>,
    key: Seq<char>,
    value: Option<usize>,
) -> bool {
    &&& lookup(after, key) == Some(value)
    &&& forall|k: Seq<char>| k != key ==> #[trigger] lookup(after, k) == lookup(before, k)
}

/// The query parameter for the id `key`: `&key=value` where the id is set,
/// nothing otherwise.
pub open spec fn id_param(ids: Seq<(String, Option<usize>)>, key: Seq<char>) -> Seq<char> {
    match lookup(ids, key) {
        Some(Some(v)) => "&"@ + key + "="@ + decimal(v as nat),
        _ => seq![],
    }
}

/// The request URL for `u`: base URL, tags joined by spaces, limit, the
/// JSON switch, then the `id`, `pid` and `cid` filters.
pub open spec fn api_url_text(u: ApiUrl) -> Seq<char> {
    u.api_url@ + "&tags="@ + join(u.tags.deep_view(), " "@) + "&limit="@ + decimal(
        u.req_limit as nat,
    ) + (if u.json {
        "&json=1"@
    } else {
        seq![]
    }) + id_param(u.ids@, "id"@) + id_param(u.ids@, "pid"@) + id_param(u.ids@, "cid"@)
}

/// The query parameter for the id `key` in `ids`.
pub fn format_id(ids: &Vec<(String, Option<usize>)>, key: &str) -> (r: String)
    ensures
        r@ == id_param(ids@, key@),
{
    match find_key(ids, key) {
        Some(i) => match ids[i].1 {
            Some(value) => {
                let mut out = String::new();
                out.append("&");
                out.append(key);
                out.append("=");
                push_decimal(&mut out, value as u64);
                assert(out@ =~= id_param(ids@, key@));
                out
            },
            None => String::new(),
        },
        None => String::new(),
    }
}

/// Sets the id `key` to `value`, replacing the value it had.
fn insert_id(ids: &mut Vec<(String, Option<usize>)>, key: &str, value: Option<usize>)
    ensures
        sets_id(old(ids)@, final(ids)@, key@, value),
        ids_keys_unique(old(ids)@) ==> ids_keys_unique(final(ids)@),
{
    match find_key(ids, key) {
        Some(i) => {
            let name = ids[i].0.clone();
            ids.set(i, (name, value));
            assert(forall|j: int| 0 <= j < ids@.len() ==> #[trigger] ids@[j].0@ == old(ids)@[j].0@);
            proof {
                assert forall|k: Seq<char>| true implies #[trigger] lookup(final(ids)@, k) == if k
                    == key@ {
                    Some(value)
                } else {
                    lookup(old(ids)@, k)
                } by {
                    lemma_lookup_update(old(ids)@, i as int, (name, value), k);
                }
            }
        },
        None => {
            let name = key.to_owned();
            let ghost member = (name, value);
            ids.push((name, value));
            proof {
                assert forall|k: Seq<char>| true implies #[trigger] lookup(final(ids)@, k) == if k
                    == key@ {
                    Some(value)
                } else {
                    lookup(old(ids)@, k)
                } by {
                    lemma_lookup_push(old(ids)@, member, k);
                }
            }
        },
    }
}

/// Setting an id twice keeps the second value: every id reads as if only
/// the second setting had been made.
pub proof fn law_last_id_setting_wins(
    first: Seq<(String, Option<usize>)>,
    second: Seq<(String, Option<usize>)>,
    third: Seq<(String, Option<usize>)>,
    key: Seq<char>,
    a: Option<usize>,
    b: Option<usize>,
)
    requires
        sets_id(first, second, key, a),
        sets_id(second, third, key, b),
    ensures
        sets_id(first, third, key, b),
{
}

/// Once an id is set, the URL filters by it: `&key=value`.
pub proof fn law_set_id_filters_url(
    before: Seq<(String, Option<usize>)>,
    after: Seq<(String, Option<usize>)>,
    key: Seq<char>,
    value: usize,
)
    requires
        sets_id(before, after, key, Some(value)),
    ensures
        id_param(after, key) == "&"@ + key + "="@ + decimal(value as nat),
{
}

/// The `id`, `pid` and `cid` filters that `ids` asks for, in that order.
pub open spec fn id_filters(ids: Seq<(String, Option<usize>)>) -> Seq<char> {
    id_param(ids, "id"@) + id_param(ids, "pid"@) + id_param(ids, "cid"@)
}

/// Every request URL starts with its base URL and ends with the `id`,
/// `pid` and `cid` filters, whatever its tags, limit and JSON switch: an
/// id that is set always reaches the URL.
pub proof fn law_url_ends_with_id_filters(u: ApiUrl)
    ensures
        api_url_text(u).len() >= u.api_url@.len() + id_filters(u.ids@).len(),
        api_url_text(u).subrange(0, u.api_url@.len() as int) == u.api_url@,
        api_url_text(u).subrange(
            api_url_text(u).len() - id_filters(u.ids@).len(),
            api_url_text(u).len() as int,
        ) == id_filters(u.ids@),
{
    let filters = id_filters(u.ids@);
    let head = u.api_url@ + "&tags="@ + join(u.tags.deep_view(), " "@) + "&limit="@ + decimal(
        u.req_limit as nat,
    ) + (if u.json {
        "&json=1"@
    } else {
        seq![]
    });
    let rest = "&tags="@ + join(u.tags.deep_view(), " "@) + "&limit="@ + decimal(u.req_limit as nat)
        + (if u.json {
        "&json=1"@
    } else {
        seq![]
    });
    assert(head =~= u.api_url@ + rest);
    assert(api_url_text(u) =~= head + filters);
    assert((head + filters).subrange(0, u.api_url@.len() as int) =~= u.api_url@);
    assert((head + filters).subrange(head.len() as int, (head + filters).len() as int) =~= filters);
}

/// Switching the JSON answer on inserts exactly `&json=1` just before the
/// id filters, and changes nothing else in the URL.
pub proof fn law_json_switch_inserts_json_param(u: ApiUrl)
    ensures
        ({
            let on = api_url_text(ApiUrl { json: true, ..u });
            let off = api_url_text(ApiUrl { json: false, ..u });
            let filters = id_filters(u.ids@);
            &&& off.len() >= filters.len()
            &&& on == off.subrange(0, off.len() - filters.len()) + "&json=1"@ + filters
        }),
{
    let filters = id_filters(u.ids@);
    let head = u.api_url@ + "&tags="@ + join(u.tags.deep_view(), " "@) + "&limit="@ + decimal(
        u.req_limit as nat,
    );
    let on = api_url_text(ApiUrl { json: true, ..u });
    let off = api_url_text(ApiUrl { json: false, ..u });
    assert(off =~= head + filters);
    assert((head + filters).subrange(0, head.len() as int) =~= head);
    assert(on =~= head + "&json=1"@ + filters);
}

/// A URL built from a fresh one by adding tags and setting the limit asks
/// the default base URL for its tags joined by spaces and its limit, in
/// JSON, with no id filter.
pub proof fn law_fresh_url_text(u: ApiUrl)
    requires
        u.api_url@ == default_base_url(),
        u.json,
        ids_view(u.ids@) == seq![("id"@, None::<usize>), ("pid"@, None), ("cid"@, None)],
    ensures
        api_url_text(u) == default_base_url() + "&tags="@ + join(u.tags.deep_view(), " "@) + "&limit="@
            + decimal(u.req_limit as nat) + "&json=1"@,
{
    reveal_strlit("id");
    reveal_strlit("pid");
    reveal_strlit("cid");
    let ids = u.ids@;
    let expected = seq![("id"@, None::<usize>), ("pid"@, None), ("cid"@, None)];
    assert(ids_view(ids).len() == 3);
    assert(ids_view(ids)[0] == expected[0]);
    assert(ids_view(ids)[1] == expected[1]);
    assert(ids_view(ids)[2] == expected[2]);
    assert(ids.len() == 3);
    assert(ids[0].0@ == "id"@ && ids[0].1 is None);
    assert(ids[1].0@ == "pid"@ && ids[1].1 is None);
    assert(ids[2].0@ == "cid"@ && ids[2].1 is None);
    assert(ids.drop_first().drop_first().drop_first().len() == 0);
    assert(lookup(ids, "id"@) == Some(None::<usize>));
    assert(lookup(ids.drop_first(), "pid"@) == Some(None::<usize>));
    assert(lookup(ids, "pid"@) == Some(None::<usize>));
    assert(lookup(ids.drop_first().drop_first(), "cid"@) == Some(None::<usize>));
    assert(lookup(ids.drop_first(), "cid"@) == Some(None::<usize>));
    assert(lookup(ids, "cid"@) == Some(None::<usize>));
    assert(api_url_text(u) =~= default_base_url() + "&tags="@ + join(u.tags.deep_view(), " "@)
        + "&limit="@ + decimal(u.req_limit as nat) + "&json=1"@);
}

impl ApiUrl {
    /// Creates a new ApiUrl with default settings.
    pub fn new() -> (r: ApiUrl)
        ensures
            is_default_api_url(r),
            ids_keys_unique(r.ids@),
    {
        ApiUrl::default()
    }

    /// Sets the limit filter.
    pub fn set_limit(self, limit: usize) -> (r: Self)
        ensures
            r == (ApiUrl { req_limit: limit, ..self }),
    {
        let mut url = self;
        url.req_limit = limit;
        url
    }

    /// Adds a tag.
    pub fn add_tag(self, tag: &'static str) -> (r: Self)
        ensures
            r.tags.deep_view() == self.tags.deep_view().push(tag@),
            r == (ApiUrl { tags: r.tags, ..self }),
    {
        let mut url = self;
        url.tags.push(tag.to_owned());
        assert(url.tags.deep_view() =~= self.tags.deep_view().push(tag@));
        url
    }

    /// Adds tags, in order.
    pub fn add_tags(self, tags: Vec<String>) -> (r: Self)
        ensures
            r.tags@ == self.tags@ + tags@,
            r == (ApiUrl { tags: r.tags, ..self }),
    {
        let mut url = self;
        let mut tags = tags;
        url.tags.append(&mut tags);
        url
    }

    /// Sets the change id.
    pub fn set_cid(self, cid: usize) -> (r: Self)
        ensures
            sets_id(self.ids@, r.ids@, "cid"@, Some(cid)),
            ids_keys_unique(self.ids@) ==> ids_keys_unique(r.ids@),
            r == (ApiUrl { ids: r.ids, ..self }),
    {
        let mut url = self;
        insert_id(&mut url.ids, "cid", Some(cid));
        url
    }

    /// Sets the page id.
    pub fn set_pid(self, pid: usize) -> (r: Self)
        ensures
            sets_id(self.ids@, r.ids@, "pid"@, Some(pid)),
            ids_keys_unique(self.ids@) ==> ids_keys_unique(r.ids@),
            r == (ApiUrl { ids: r.ids, ..self }),
    {
        let mut url = self;
        insert_id(&mut url.ids, "pid", Some(pid));
        url
    }

    /// Sets the post id.
    pub fn set_id(self, id: usize) -> (r: Self)
        ensures
            sets_id(self.ids@, r.ids@, "id"@, Some(id)),
            ids_keys_unique(self.ids@) ==> ids_keys_unique(r.ids@),
            r == (ApiUrl { ids: r.ids, ..self }),
    {
        let mut url = self;
        insert_id(&mut url.ids, "id", Some(id));
        url
    }

    /// Chooses a JSON answer or not.
    pub fn set_json_formatted(self, json: bool) -> (r: Self)
        ensures
            r == (ApiUrl { json: json, ..self }),
    {
        let mut url = self;
        url.json = json;
        url
    }

    /// Returns the final request URL.
    pub fn to_api_url(&mut self) -> (r: String)
        ensures
            r@ == api_url_text(*old(self)),
            *final(self) == *old(self),
    {
        let mut out = self.api_url.clone();
        out.append("&tags=");
        let tags = join_strings(&self.tags, " ");
        out.append(tags.as_str());
        out.append("&limit=");
        push_decimal(&mut out, self.req_limit as u64);
        if self.json {
            out.append("&json=1");
        }
        let id = format_id(&self.ids, "id");
        let pid = format_id(&self.ids, "pid");
        let cid = format_id(&self.ids, "cid");
        out.append(id.as_str());
        out.append(pid.as_str());
        out.append(cid.as_str());
        assert(out@ =~= api_url_text(*self));
        out
    }
}

impl Default for ApiUrl {
    fn default() -> (r: Self)
        ensures
            is_default_api_url(r),
            ids_keys_unique(r.ids@),
    {
        let mut ids: Vec<(String, Option<usize>)> = Vec::new();
        ids.push(("id".to_owned(), None));
        ids.push(("pid".to_owned(), None));
        ids.push(("cid".to_owned(), None));
        let r = ApiUrl {
            api_url: "https://api.rule34.xxx/index.php?page=dapi&s=post&q=index".to_owned(),
            req_limit: 1000,
            tags: Vec::new(),
            json: true,
            ids,
        };
        assert(ids_view(r.ids@) =~= seq![("id"@, None::<usize>), ("pid"@, None), ("cid"@, None)]);
        proof {
            reveal_strlit("id");
            reveal_strlit("pid");
            reveal_strlit("cid");
            assert("id"@.len() == 2 && "pid"@.len() == 3 && "cid"@[0] == 'c' && "pid"@[0] == 'p');
            assert(r.ids@[0].0@ == "id"@ && r.ids@[1].0@ == "pid"@ && r.ids@[2].0@ == "cid"@);
        }
        r
    }
}

} // verus!
