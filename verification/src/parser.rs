//! The parser of the post API's JSON answers.

use vstd::prelude::*;
use crate::json::{
    serde_json_error_text, serde_json_parse, serde_json_reformat_pretty,
    serde_json_value, JsonValue,
};
use crate::post::{default_post, rating_from_text, rating_named, Post, PostView};
use crate::text::{split_words, str_eq, words};

verus! {

/// Errors of the response parser.
#[derive(Debug)]
pub enum R34Error {
    /// The answer was not valid JSON; holds `serde_json`'s error.
    JsonParseError(serde_json::Error),
    /// The answer was empty, most likely because a tag did not exist.
    R34EmptyReturn(String),
}

/// The message of the error for an empty answer.
pub open spec fn empty_answer_message() -> Seq<char> {
    "One or more Tags didn't exist."@
}

impl R34Error {
    /// The text form of the error: the message held by `R34EmptyReturn`, or
    /// what `serde_json_error_text` gives for the `serde_json` error.
    pub fn to_string(&self) -> (r: String)
        ensures
            self matches R34Error::R34EmptyReturn(m) ==> r@ == m@,
            self matches R34Error::JsonParseError(e) ==> call_ensures(serde_json_error_text, (&e,), r),
    {
        match self {
            R34Error::JsonParseError(e) => serde_json_error_text(e),
            R34Error::R34EmptyReturn(m) => m.clone(),
        }
    }
}

/// A field of a post that the parser can fill in.
#[derive(Clone, Copy, Debug, PartialEq, Eq, Structural)]
pub enum PostField {
    FileUrl,
    Image,
    Tags,
    Width,
    Height,
    Sample,
    SampleUrl,
    SampleWidth,
    SampleHeight,
    Source,
    Id,
    Score,
    ParentId,
    CommentCount,
    PreviewUrl,
    Owner,
    Rating,
}

/// The key under which a field stands in the API's answer (and in the
/// parser's configuration).
pub open spec fn field_key(f: PostField) -> Seq<char> {
    match f {
        PostField::FileUrl => "file_url"@,
        PostField::Image => "image"@,
        PostField::Tags => "tags"@,
        PostField::Width => "width"@,
        PostField::Height => "height"@,
        PostField::Sample => "sample"@,
        PostField::SampleUrl => "sample_url"@,
        PostField::SampleWidth => "sample_width"@,
        PostField::SampleHeight => "sample_height"@,
        PostField::Source => "source"@,
        PostField::Id => "id"@,
        PostField::Score => "score"@,
        PostField::ParentId => "parent_id"@,
        PostField::CommentCount => "comment_count"@,
        PostField::PreviewUrl => "preview_url"@,
        PostField::Owner => "owner"@,
        PostField::Rating => "rating"@,
    }
}

/// The field a configuration key switches, if any.
pub open spec fn field_named(k: Seq<char>) -> Option<PostField> {
    if k == "file_url"@ {
        Some(PostField::FileUrl)
    } else if k == "image"@ {
        Some(PostField::Image)
    } else if k == "tags"@ {
        Some(PostField::Tags)
    } else if k == "width"@ {
        Some(PostField::Width)
    } else if k == "height"@ {
        Some(PostField::Height)
    } else if k == "sample"@ {
        Some(PostField::Sample)
    } else if k == "sample_url"@ {
        Some(PostField::SampleUrl)
    } else if k == "sample_width"@ {
        Some(PostField::SampleWidth)
    } else if k == "sample_height"@ {
        Some(PostField::SampleHeight)
    } else if k == "source"@ {
        Some(PostField::Source)
    } else if k == "id"@ {
        Some(PostField::Id)
    } else if k == "score"@ {
        Some(PostField::Score)
    } else if k == "parent_id"@ {
        Some(PostField::ParentId)
    } else if k == "comment_count"@ {
        Some(PostField::CommentCount)
    } else if k == "preview_url"@ {
        Some(PostField::PreviewUrl)
    } else if k == "owner"@ {
        Some(PostField::Owner)
    } else if k == "rating"@ {
        Some(PostField::Rating)
    } else {
        None
    }
}

/// The field a configuration key switches, if any.
pub fn field_for_key(k: &str) -> (r: Option<PostField>)
    ensures
        r == field_named(k@),
{
    if str_eq(k, "file_url") {
        Some(PostField::FileUrl)
    } else if str_eq(k, "image") {
        Some(PostField::Image)
    } else if str_eq(k, "tags") {
        Some(PostField::Tags)
    } else if str_eq(k, "width") {
        Some(PostField::Width)
    } else if str_eq(k, "height") {
        Some(PostField::Height)
    } else if str_eq(k, "sample") {
        Some(PostField::Sample)
    } else if str_eq(k, "sample_url") {
        Some(PostField::SampleUrl)
    } else if str_eq(k, "sample_width") {
        Some(PostField::SampleWidth)
    } else if str_eq(k, "sample_height") {
        Some(PostField::SampleHeight)
    } else if str_eq(k, "source") {
        Some(PostField::Source)
    } else if str_eq(k, "id") {
        Some(PostField::Id)
    } else if str_eq(k, "score") {
        Some(PostField::Score)
    } else if str_eq(k, "parent_id") {
        Some(PostField::ParentId)
    } else if str_eq(k, "comment_count") {
        Some(PostField::CommentCount)
    } else if str_eq(k, "preview_url") {
        Some(PostField::PreviewUrl)
    } else if str_eq(k, "owner") {
        Some(PostField::Owner)
    } else if str_eq(k, "rating") {
        Some(PostField::Rating)
    } else {
        None
    }
}

/// The fields that hold numbers.
pub open spec fn is_number_field(f: PostField) -> bool {
    ||| f == PostField::Width
    ||| f == PostField::Height
    ||| f == PostField::SampleWidth
    ||| f == PostField::SampleHeight
    ||| f == PostField::Id
    ||| f == PostField::Score
    ||| f == PostField::ParentId
    ||| f == PostField::CommentCount
}

/// The string member `key` of `item`, if it is a string.
pub open spec fn text_member(item: JsonValue, key: Seq<char>) -> Option<Seq<char>> {
    match item.member(key) {
        Some(JsonValue::String(s)) => Some(s@),
        _ => None,
    }
}

/// The member `key` of `item`, if it is a number: its `u64` value, or `None`
/// for a number that is not a `u64`.
pub open spec fn number_member(item: JsonValue, key: Seq<char>) -> Option<Option<u64>> {
    match item.member(key) {
        Some(JsonValue::Number(n)) => Some(n),
        _ => None,
    }
}

/// The member `key` of `item`, if it is a boolean.
pub open spec fn bool_member(item: JsonValue, key: Seq<char>) -> Option<bool> {
    match item.member(key) {
        Some(JsonValue::Bool(b)) => Some(b),
        _ => None,
    }
}

/// `p` with the field `f` taken from `item` where `item` holds it with the
/// right type; `p` unchanged otherwise. Tags are the words of the tags
/// string; a rating string names a rating or none.
pub open spec fn fill(p: PostView, f: PostField, item: JsonValue) -> PostView {
    let key = field_key(f);
    match f {
        PostField::FileUrl => match text_member(item, key) {
            Some(s) => PostView { file_url: s, ..p },
            None => p,
        },
        PostField::Image => match text_member(item, key) {
            Some(s) => PostView { image: s, ..p },
            None => p,
        },
        PostField::Tags => match text_member(item, key) {
            Some(s) => PostView { tags: words(s), ..p },
            None => p,
        },
        PostField::Width => match number_member(item, key) {
            Some(Some(n)) => PostView { width: n, ..p },
            _ => p,
        },
        PostField::Height => match number_member(item, key) {
            Some(Some(n)) => PostView { height: n, ..p },
            _ => p,
        },
        PostField::Sample => match bool_member(item, key) {
            Some(b) => PostView { sample: b, ..p },
            None => p,
        },
        PostField::SampleUrl => match text_member(item, key) {
            Some(s) => PostView { sample_url: s, ..p },
            None => p,
        },
        PostField::SampleWidth => match number_member(item, key) {
            Some(Some(n)) => PostView { sample_width: n, ..p },
            _ => p,
        },
        PostField::SampleHeight => match number_member(item, key) {
            Some(Some(n)) => PostView { sample_height: n, ..p },
            _ => p,
        },
        PostField::Source => match text_member(item, key) {
            Some(s) => PostView { source: s, ..p },
            None => p,
        },
        PostField::Id => match number_member(item, key) {
            Some(Some(n)) => PostView { id: n, ..p },
            _ => p,
        },
        PostField::Score => match number_member(item, key) {
            Some(Some(n)) => PostView { score: n, ..p },
            _ => p,
        },
        PostField::ParentId => match number_member(item, key) {
            Some(Some(n)) => PostView { parent_id: n, ..p },
            _ => p,
        },
        PostField::CommentCount => match number_member(item, key) {
            Some(Some(n)) => PostView { comment_count: n, ..p },
            _ => p,
        },
        PostField::PreviewUrl => match text_member(item, key) {
            Some(s) => PostView { preview_url: s, ..p },
            None => p,
        },
        PostField::Owner => match text_member(item, key) {
            Some(s) => PostView { owner: s, ..p },
            None => p,
        },
        PostField::Rating => match text_member(item, key) {
            Some(s) => PostView { rating: rating_named(s), ..p },
            None => p,
        },
    }
}

/// The post that `item` gives when the configuration entries `conf` are
/// applied in order, starting from the default post: each switched-on key
/// that names a field fills that field in.
pub open spec fn post_from_entries(conf: Seq<(&'static str, bool)>, item: JsonValue) -> PostView
    decreases conf.len(),
{
    if conf.len() == 0 {
        default_post()
    } else {
        let p = post_from_entries(conf.drop_last(), item);
        let e = conf.last();
        match field_named(e.0@) {
            Some(f) => if e.1 {
                fill(p, f, item)
            } else {
                p
            },
            None => p,
        }
    }
}

/// Some switched-on entry of `conf` names the field `f`.
pub open spec fn field_enabled(conf: Seq<(&'static str, bool)>, f: PostField) -> bool {
    exists|i: int| 0 <= i < conf.len() && #[trigger] conf[i].1 && field_named(conf[i].0@) == Some(f)
}

/// A number field that is switched on holds a `u64` wherever `item` has it
/// as a number.
pub open spec fn number_fits(conf: Seq<(&'static str, bool)>, item: JsonValue, f: PostField) -> bool {
    field_enabled(conf, f) ==> number_member(item, field_key(f)) != Some(None::<u64>)
}

/// Every switched-on number field of `item` that is a number is a `u64`.
pub open spec fn item_fits(conf: Seq<(&'static str, bool)>, item: JsonValue) -> bool {
    &&& number_fits(conf, item, PostField::Width)
    &&& number_fits(conf, item, PostField::Height)
    &&& number_fits(conf, item, PostField::SampleWidth)
    &&& number_fits(conf, item, PostField::SampleHeight)
    &&& number_fits(conf, item, PostField::Id)
    &&& number_fits(conf, item, PostField::Score)
    &&& number_fits(conf, item, PostField::ParentId)
    &&& number_fits(conf, item, PostField::CommentCount)
}

/// Every element of a top-level array fits (other values have no posts).
pub open spec fn value_fits(conf: Seq<(&'static str, bool)>, value: JsonValue) -> bool {
    match value {
        JsonValue::Array(items) => forall|i: int| 0 <= i < items@.len() ==> item_fits(conf, #[trigger] items@[i]),
        _ => true,
    }
}

proof fn lemma_value_fits_array(conf: Seq<(&'static str, bool)>, items: Vec<JsonValue>, i: int)
    requires
        0 <= i < items@.len(),
        !item_fits(conf, items@[i]),
    ensures
        !value_fits(conf, JsonValue::Array(items)),
{
    let v = JsonValue::Array(items);
    assert(v is Array);
    assert(v->Array_0 == items);
    if value_fits(conf, v) {
        assert(forall|j: int| 0 <= j < items@.len() ==> item_fits(conf, #[trigger] items@[j]));
        assert(item_fits(conf, items@[i]));
    }
}

/// The posts of an answer: one per element of a top-level array, in order;
/// none for any other value.
pub open spec fn posts_of(conf: Seq<(&'static str, bool)>, value: JsonValue) -> Seq<PostView> {
    match value {
        JsonValue::Array(items) => items@.map_values(|item: JsonValue| filled_post(conf, item)),
        _ => seq![],
    }
}

/// An answer that is an array gives one post per element, in the elements'
/// order, each filled from its own element; any other answer gives none.
pub proof fn law_one_post_per_item(conf: Seq<(&'static str, bool)>, value: JsonValue)
    ensures
        value matches JsonValue::Array(items) ==> {
            &&& posts_of(conf, value).len() == items@.len()
            &&& forall|i: int|
                0 <= i < items@.len() ==> #[trigger] posts_of(conf, value)[i] == filled_post(
                    conf,
                    items@[i],
                )
        },
        !(value is Array) ==> posts_of(conf, value).len() == 0,
{
}

/// The views of a list of posts.
pub open spec fn posts_view(posts: Seq<Post>) -> Seq<PostView> {
    posts.map_values(|p: Post| p@)
}

/// Fills the field `f` of `post` from `item`.
fn fill_field(post: &mut Post, f: PostField, item: &JsonValue)
    requires
        is_number_field(f) ==> number_member(*item, field_key(f)) != Some(None::<u64>),
    ensures
        final(post)@ == fill(old(post)@, f, *item),
{
    match f {
        PostField::FileUrl => {
            if let Some(JsonValue::String(s)) = item.get("file_url") {
                post.file_url = s.clone();
            }
        },
        PostField::Image => {
            if let Some(JsonValue::String(s)) = item.get("image") {
                post.image = s.clone();
            }
        },
        PostField::Tags => {
            if let Some(JsonValue::String(s)) = item.get("tags") {
                post.tags = split_words(s.as_str());
            }
        },
        PostField::Width => {
            if let Some(JsonValue::Number(Some(n))) = item.get("width") {
                post.width = *n;
            }
        },
        PostField::Height => {
            if let Some(JsonValue::Number(Some(n))) = item.get("height") {
                post.height = *n;
            }
        },
        PostField::Sample => {
            if let Some(JsonValue::Bool(b)) = item.get("sample") {
                post.sample = *b;
            }
        },
        PostField::SampleUrl => {
            if let Some(JsonValue::String(s)) = item.get("sample_url") {
                post.sample_url = s.clone();
            }
        },
        PostField::SampleWidth => {
            if let Some(JsonValue::Number(Some(n))) = item.get("sample_width") {
                post.sample_width = *n;
            }
        },
        PostField::SampleHeight => {
            if let Some(JsonValue::Number(Some(n))) = item.get("sample_height") {
                post.sample_height = *n;
            }
        },
        PostField::Source => {
            if let Some(JsonValue::String(s)) = item.get("source") {
                post.source = s.clone();
            }
        },
        PostField::Id => {
            if let Some(JsonValue::Number(Some(n))) = item.get("id") {
                post.id = *n;
            }
        },
        PostField::Score => {
            if let Some(JsonValue::Number(Some(n))) = item.get("score") {
                post.score = *n;
            }
        },
        PostField::ParentId => {
            if let Some(JsonValue::Number(Some(n))) = item.get("parent_id") {
                post.parent_id = *n;
            }
        },
        PostField::CommentCount => {
            if let Some(JsonValue::Number(Some(n))) = item.get("comment_count") {
                post.comment_count = *n;
            }
        },
        PostField::PreviewUrl => {
            if let Some(JsonValue::String(s)) = item.get("preview_url") {
                post.preview_url = s.clone();
            }
        },
        PostField::Owner => {
            if let Some(JsonValue::String(s)) = item.get("owner") {
                post.owner = s.clone();
            }
        },
        PostField::Rating => {
            if let Some(JsonValue::String(s)) = item.get("rating") {
                post.rating = rating_from_text(s.as_str());
            }
        },
    }
}


/// The default post with the field `f` filled in from `item` when `conf`
/// switches `f` on, and the default post otherwise.
pub open spec fn filled_alone(conf: Seq<(&'static str, bool)>, item: JsonValue, f: PostField) -> PostView {
    if field_enabled(conf, f) {
        fill(default_post(), f, item)
    } else {
        default_post()
    }
}

/// The post `item` gives under `conf`: each field is taken from `item` when
/// `conf` switches it on and `item` holds it with the right type, and keeps
/// its default value otherwise.
pub open spec fn filled_post(conf: Seq<(&'static str, bool)>, item: JsonValue) -> PostView {
    PostView {
        file_url: filled_alone(conf, item, PostField::FileUrl).file_url,
        image: filled_alone(conf, item, PostField::Image).image,
        tags: filled_alone(conf, item, PostField::Tags).tags,
        width: filled_alone(conf, item, PostField::Width).width,
        height: filled_alone(conf, item, PostField::Height).height,
        sample: filled_alone(conf, item, PostField::Sample).sample,
        sample_url: filled_alone(conf, item, PostField::SampleUrl).sample_url,
        sample_width: filled_alone(conf, item, PostField::SampleWidth).sample_width,
        sample_height: filled_alone(conf, item, PostField::SampleHeight).sample_height,
        source: filled_alone(conf, item, PostField::Source).source,
        id: filled_alone(conf, item, PostField::Id).id,
        score: filled_alone(conf, item, PostField::Score).score,
        parent_id: filled_alone(conf, item, PostField::ParentId).parent_id,
        comment_count: filled_alone(conf, item, PostField::CommentCount).comment_count,
        preview_url: filled_alone(conf, item, PostField::PreviewUrl).preview_url,
        owner: filled_alone(conf, item, PostField::Owner).owner,
        rating: filled_alone(conf, item, PostField::Rating).rating,
    }
}

/// A field is switched on in `conf` exactly when it is switched on before
/// the last entry or by the last entry.
pub proof fn lemma_enabled_last(conf: Seq<(&'static str, bool)>, f: PostField)
    requires
        conf.len() > 0,
    ensures
        field_enabled(conf, f) == (field_enabled(conf.drop_last(), f) || (conf.last().1
            && field_named(conf.last().0@) == Some(f))),
{
    let init = conf.drop_last();
    if field_enabled(conf, f) {
        let i = choose|i: int| 0 <= i < conf.len() && #[trigger] conf[i].1 && field_named(conf[i].0@) == Some(f);
        if i < conf.len() - 1 {
            assert(init[i] == conf[i]);
        }
    }
    if field_enabled(init, f) {
        let i = choose|i: int| 0 <= i < init.len() && #[trigger] init[i].1 && field_named(init[i].0@) == Some(f);
        assert(init[i] == conf[i]);
    }
    if conf.last().1 && field_named(conf.last().0@) == Some(f) {
        assert(conf[conf.len() - 1] == conf.last());
    }
}

/// Two configurations that switch on the same fields give the same posts.
proof fn lemma_same_fields_same_post(
    before: Seq<(&'static str, bool)>,
    after: Seq<(&'static str, bool)>,
    item: JsonValue,
)
    requires
        forall|g: PostField| #[trigger] field_enabled(after, g) == field_enabled(before, g),
    ensures
        filled_post(before, item) == filled_post(after, item),
{
    assert(filled_post(before, item) =~= filled_post(after, item));
}

/// Switching on one more field fills that field into the post.
#[verifier::spinoff_prover]
#[verifier::rlimit(40)]
proof fn lemma_switch_on_fills(
    before: Seq<(&'static str, bool)>,
    after: Seq<(&'static str, bool)>,
    item: JsonValue,
    f: PostField,
)
    requires
        forall|g: PostField| #[trigger] field_enabled(after, g) == (field_enabled(before, g) || g == f),
    ensures
        fill(filled_post(before, item), f, item) == filled_post(after, item),
{
    assert(field_enabled(after, f));
    assert(fill(filled_post(before, item), f, item) =~= filled_post(after, item));
}

/// The order of the configuration entries does not matter: applying them
/// one by one gives the post in which each field is filled in exactly when
/// some entry switches it on.
pub proof fn law_entries_fill_enabled_fields(conf: Seq<(&'static str, bool)>, item: JsonValue)
    ensures
        post_from_entries(conf, item) == filled_post(conf, item),
    decreases conf.len(),
{
    if conf.len() == 0 {
        assert(post_from_entries(conf, item) =~= filled_post(conf, item));
    } else {
        let init = conf.drop_last();
        let e = conf.last();
        law_entries_fill_enabled_fields(init, item);
        assert forall|g: PostField| #[trigger] field_enabled(conf, g) == (field_enabled(init, g) || (
        e.1 && field_named(e.0@) == Some(g))) by {
            lemma_enabled_last(conf, g);
        }
        match field_named(e.0@) {
            Some(f) => {
                if e.1 {
                    lemma_switch_on_fills(init, conf, item, f);
                } else {
                    lemma_same_fields_same_post(init, conf, item);
                }
            },
            None => {
                lemma_same_fields_same_post(init, conf, item);
            },
        }
    }
}


/// A Parser for the API's JSON answers.
///
/// Holds which fields it fills in, as switches keyed by the field's name;
/// see `set_conf`.
pub struct R34JsonParser {
    pub conf: Vec<(&'static str, bool)>,
}

/// The keys and switches of a configuration.
pub open spec fn conf_view(conf: Seq<(&'static str, bool)>) -> Seq<(Seq<char>, bool)> {
    conf.map_values(|e: (&'static str, bool)| (e.0@, e.1))
}

/// The configuration a new parser starts with: the key of each of the
/// seventeen fields, switched on.
pub open spec fn default_conf() -> Seq<(Seq<char>, bool)> {
    seq![
        ("file_url"@, true),
        ("image"@, true),
        ("tags"@, true),
        ("width"@, true),
        ("height"@, true),
        ("sample"@, true),
        ("sample_url"@, true),
        ("sample_width"@, true),
        ("sample_height"@, true),
        ("source"@, true),
        ("id"@, true),
        ("score"@, true),
        ("parent_id"@, true),
        ("comment_count"@, true),
        ("preview_url"@, true),
        ("owner"@, true),
        ("rating"@, true),
    ]
}

/// `after` is `before` with every entry keyed `key` switched to `set`.
pub open spec fn conf_switched(
    before: Seq<(&'static str, bool)>,
    after: Seq<(&'static str, bool)>,
    key: Seq<char>,
    set: bool,
) -> bool {
    &&& after.len() == before.len()
    &&& forall|i: int|
        0 <= i < before.len() ==> (#[trigger] after[i]).0 == before[i].0 && after[i].1 == if before[i].0@
            == key {
            set
        } else {
            before[i].1
        }
}

/// No key occurs twice in `conf`.
pub open spec fn conf_keys_unique(conf: Seq<(&'static str, bool)>) -> bool {
    forall|i: int, j: int|
        0 <= i < conf.len() && 0 <= j < conf.len() && i != j ==> (#[trigger] conf[i]).0@ != (#[trigger] conf[j]).0@
}

/// Some entry of `conf` has the key `key`.
pub open spec fn has_key(conf: Seq<(&'static str, bool)>, key: Seq<char>) -> bool {
    exists|i: int| 0 <= i < conf.len() && (#[trigger] conf[i]).0@ == key
}

impl Default for R34JsonParser {
    fn default() -> (r: Self)
        ensures
            conf_view(r.conf@) == default_conf(),
            conf_keys_unique(r.conf@),
    {
        let mut conf: Vec<(&'static str, bool)> = Vec::new();
        conf.push(("file_url", true));
        conf.push(("image", true));
        conf.push(("tags", true));
        conf.push(("width", true));
        conf.push(("height", true));
        conf.push(("sample", true));
        conf.push(("sample_url", true));
        conf.push(("sample_width", true));
        conf.push(("sample_height", true));
        conf.push(("source", true));
        conf.push(("id", true));
        conf.push(("score", true));
        conf.push(("parent_id", true));
        conf.push(("comment_count", true));
        conf.push(("preview_url", true));
        conf.push(("owner", true));
        conf.push(("rating", true));
        assert(conf_view(conf@) =~= default_conf());
        proof {
            law_default_conf_keys_unique(conf@);
        }
        R34JsonParser { conf }
    }
}

/// The key of the field `f`.
fn field_key_str(f: PostField) -> (r: &'static str)
    ensures
        r@ == field_key(f),
{
    match f {
        PostField::FileUrl => "file_url",
        PostField::Image => "image",
        PostField::Tags => "tags",
        PostField::Width => "width",
        PostField::Height => "height",
        PostField::Sample => "sample",
        PostField::SampleUrl => "sample_url",
        PostField::SampleWidth => "sample_width",
        PostField::SampleHeight => "sample_height",
        PostField::Source => "source",
        PostField::Id => "id",
        PostField::Score => "score",
        PostField::ParentId => "parent_id",
        PostField::CommentCount => "comment_count",
        PostField::PreviewUrl => "preview_url",
        PostField::Owner => "owner",
        PostField::Rating => "rating",
    }
}

/// What parsing `text` gives under `conf`: the empty-answer error for an
/// empty text; `serde_json`'s error where it cannot parse the text; and
/// otherwise the posts of the parsed value.
pub open spec fn parsed_as(
    conf: Seq<(&'static str, bool)>,
    text: Seq<char>,
    r: Result<Vec<Post>, R34Error>,
) -> bool {
    if text.len() == 0 {
        r matches Err(R34Error::R34EmptyReturn(m)) && m@ == empty_answer_message()
    } else {
        match serde_json_value(text) {
            None => r matches Err(R34Error::JsonParseError(_)),
            Some(v) => r matches Ok(posts) && posts_view(posts@) == posts_of(conf, v),
        }
    }
}

/// The texts `parse_json` accepts under `conf`: those where every
/// switched-on number field of a post that is a number is a `u64`.
pub open spec fn text_accepted(conf: Seq<(&'static str, bool)>, text: Seq<char>) -> bool {
    text.len() == 0 || match serde_json_value(text) {
        Some(v) => value_fits(conf, v),
        None => true,
    }
}

impl R34JsonParser {
    /// A parser with the default configuration.
    pub fn new() -> (r: R34JsonParser)
        ensures
            conf_view(r.conf@) == default_conf(),
            conf_keys_unique(r.conf@),
    {
        R34JsonParser::default()
    }

    /// Switches the field named `key` on or off. The keys are those of the
    /// default configuration: `"file_url"`, `"image"`, `"tags"`, `"width"`,
    /// `"height"`, `"sample"`, `"sample_url"`, `"sample_width"`,
    /// `"sample_height"`, `"source"`, `"id"`, `"score"`, `"parent_id"`,
    /// `"comment_count"`, `"preview_url"`, `"owner"`, `"rating"`.
    pub fn set_conf(self, key: &'static str, set: bool) -> (r: Self)
        requires
            has_key(self.conf@, key@),
        ensures
            conf_switched(self.conf@, r.conf@, key@, set),
            conf_keys_unique(self.conf@) ==> conf_keys_unique(r.conf@),
    {
        let mut parser = self;
        let mut i: usize = 0;
        while i < parser.conf.len()
            invariant
                i <= parser.conf@.len(),
                parser.conf@.len() == self.conf@.len(),
                forall|j: int|
                    0 <= j < self.conf@.len() ==> (#[trigger] parser.conf@[j]).0 == self.conf@[j].0
                        && parser.conf@[j].1 == if j < i && self.conf@[j].0@ == key@ {
                        set
                    } else {
                        self.conf@[j].1
                    },
            decreases self.conf@.len() - i,
        {
            let k = parser.conf[i].0;
            if str_eq(k, key) {
                parser.conf.set(i, (k, set));
            }
            i = i + 1;
        }
        parser
    }

    /// Whether some switched-on entry names the field `f`.
    fn is_enabled(&self, f: PostField) -> (r: bool)
        ensures
            r == field_enabled(self.conf@, f),
    {
        let mut i: usize = 0;
        while i < self.conf.len()
            invariant
                i <= self.conf@.len(),
                forall|j: int| 0 <= j < i ==> !(#[trigger] self.conf@[j].1 && field_named(self.conf@[j].0@) == Some(f)),
            decreases self.conf@.len() - i,
        {
            let (k, on) = self.conf[i];
            if on && field_for_key(k) == Some(f) {
                assert(self.conf@[i as int].1 && field_named(self.conf@[i as int].0@) == Some(f));
                return true;
            }
            i = i + 1;
        }
        false
    }

    /// Whether the number field `f` of `item` fits.
    fn number_fits_check(&self, item: &JsonValue, f: PostField) -> (r: bool)
        ensures
            r == number_fits(self.conf@, *item, f),
    {
        if !self.is_enabled(f) {
            return true;
        }
        match item.get(field_key_str(f)) {
            Some(JsonValue::Number(None)) => false,
            _ => true,
        }
    }

    /// Whether every switched-on number field of `item` fits.
    fn item_fits_check(&self, item: &JsonValue) -> (r: bool)
        ensures
            r == item_fits(self.conf@, *item),
    {
        self.number_fits_check(item, PostField::Width) && self.number_fits_check(item, PostField::Height) && self.number_fits_check(item, PostField::SampleWidth) && self.number_fits_check(item, PostField::SampleHeight) && self.number_fits_check(item, PostField::Id) && self.number_fits_check(item, PostField::Score) && self.number_fits_check(item, PostField::ParentId) && self.number_fits_check(item, PostField::CommentCount)
    }

    /// Whether every post of `value` fits.
    pub fn value_fits_check(&self, value: &JsonValue) -> (r: bool)
        ensures
            r == value_fits(self.conf@, *value),
    {
        match value {
            JsonValue::Array(items) => {
                let mut i: usize = 0;
                while i < items.len()
                    invariant
                        i <= items@.len(),
                        forall|j: int| 0 <= j < i ==> item_fits(self.conf@, #[trigger] items@[j]),
                        *value == JsonValue::Array(*items),
                    decreases items@.len() - i,
                {
                    if !self.item_fits_check(&items[i]) {
                        assert(!item_fits(self.conf@, items@[i as int]));
                        proof { lemma_value_fits_array(self.conf@, *items, i as int); }
                        return false;
                    }
                    i = i + 1;
                }
                true
            },
            _ => true,
        }
    }

    /// The post that `item` gives.
    fn post_from_item(&self, item: &JsonValue) -> (r: Post)
        requires
            item_fits(self.conf@, *item),
        ensures
            r@ == filled_post(self.conf@, *item),
    {
        let mut post = Post::default();
        let mut i: usize = 0;
        assert(self.conf@.take(0) =~= Seq::<(&'static str, bool)>::empty());
        while i < self.conf.len()
            invariant
                i <= self.conf@.len(),
                item_fits(self.conf@, *item),
                post@ == post_from_entries(self.conf@.take(i as int), *item),
            decreases self.conf@.len() - i,
        {
            let (k, on) = self.conf[i];
            assert(self.conf@.take(i + 1).drop_last() =~= self.conf@.take(i as int));
            assert(self.conf@.take(i + 1).last() == self.conf@[i as int]);
            if on {
                match field_for_key(k) {
                    Some(f) => {
                        assert(self.conf@[i as int].1 && field_named(self.conf@[i as int].0@) == Some(f));
                        assert(field_enabled(self.conf@, f));
                        fill_field(&mut post, f, item);
                    },
                    None => {},
                }
            }
            i = i + 1;
        }
        assert(self.conf@.take(self.conf@.len() as int) =~= self.conf@);
        proof {
            law_entries_fill_enabled_fields(self.conf@, *item);
        }
        post
    }

    /// The posts of a parsed answer: one per element of a top-level array,
    /// none for any other value.
    pub fn posts_from_value(&self, value: &JsonValue) -> (r: Vec<Post>)
        requires
            value_fits(self.conf@, *value),
        ensures
            posts_view(r@) == posts_of(self.conf@, *value),
    {
        match value {
            JsonValue::Array(items) => {
                let mut out: Vec<Post> = Vec::new();
                let mut i: usize = 0;
                assert(forall|j: int| 0 <= j < items@.len() ==> item_fits(self.conf@, #[trigger] items@[j]));
                while i < items.len()
                    invariant
                        i <= items@.len(),
                        forall|j: int| 0 <= j < items@.len() ==> item_fits(self.conf@, #[trigger] items@[j]),
                        posts_view(out@) =~= items@.take(i as int).map_values(|item: JsonValue| filled_post(self.conf@, item)),
                    decreases items@.len() - i,
                {
                    assert(item_fits(self.conf@, items@[i as int]));
                    let post = self.post_from_item(&items[i]);
                    let ghost before = out@;
                    out.push(post);
                    assert(out@ =~= before.push(post));
                    assert(posts_view(out@) =~= posts_view(before).push(post@));
                    assert(items@.take(i + 1) =~= items@.take(i as int).push(items@[i as int]));
                    i = i + 1;
                }
                assert(items@.take(items@.len() as int) =~= items@);
                out
            },
            _ => Vec::new(),
        }
    }

    /// Takes a JSON text and returns the posts it holds, with the configured
    /// fields filled in.
    ///
    /// # Errors
    /// `R34EmptyReturn` for an empty text; `JsonParseError` where the text is
    /// not JSON.
    pub fn parse_json(&mut self, s: &str) -> (r: Result<Vec<Post>, R34Error>)
        requires
            text_accepted(old(self).conf@, s@),
        ensures
            *final(self) == *old(self),
            parsed_as(old(self).conf@, s@, r),
    {
        if s.is_empty() {
            return Err(R34Error::R34EmptyReturn("One or more Tags didn't exist.".to_owned()));
        }
        match serde_json_parse(s) {
            Err(e) => Err(R34Error::JsonParseError(e)),
            Ok(value) => Ok(self.posts_from_value(&value)),
        }
    }

    /// `parse_json` where it accepts `s`; `None` where some switched-on
    /// number field of a post holds a number that is not a `u64`.
    pub fn try_parse_json(&mut self, s: &str) -> (r: Option<Result<Vec<Post>, R34Error>>)
        ensures
            *final(self) == *old(self),
            r is Some <==> text_accepted(old(self).conf@, s@),
            r matches Some(res) ==> parsed_as(old(self).conf@, s@, res),
    {
        if s.is_empty() {
            return Some(self.parse_json(s));
        }
        match serde_json_parse(s) {
            Err(_) => Some(self.parse_json(s)),
            Ok(value) => {
                if self.value_fits_check(&value) {
                    Some(self.parse_json(s))
                } else {
                    None
                }
            },
        }
    }

    /// Takes the API's answer and returns its posts: the answer is parsed,
    /// pretty-printed and parsed again by `parse_json`, which gives the same
    /// posts as parsing the answer itself.
    ///
    /// # Errors
    /// `R34EmptyReturn` for an empty answer, most likely caused by a tag that
    /// does not exist; `JsonParseError` where the answer is not JSON.
    pub fn from_api_response(&mut self, s: &str) -> (r: Result<Vec<Post>, R34Error>)
        requires
            text_accepted(old(self).conf@, s@),
        ensures
            *final(self) == *old(self),
            parsed_as(old(self).conf@, s@, r),
    {
        if s.is_empty() {
            return Err(R34Error::R34EmptyReturn("One or more Tags didn't exist.".to_owned()));
        }
        match serde_json_reformat_pretty(s) {
            Err(e) => Err(R34Error::JsonParseError(e)),
            Ok(pretty) => self.parse_json(pretty.as_str()),
        }
    }

    /// `from_api_response` where it accepts `s`; `None` where some
    /// switched-on number field of a post holds a number that is not a `u64`.
    pub fn try_from_api_response(&mut self, s: &str) -> (r: Option<Result<Vec<Post>, R34Error>>)
        ensures
            *final(self) == *old(self),
            r is Some <==> text_accepted(old(self).conf@, s@),
            r matches Some(res) ==> parsed_as(old(self).conf@, s@, res),
    {
        if s.is_empty() {
            return Some(self.from_api_response(s));
        }
        match serde_json_parse(s) {
            Err(_) => Some(self.from_api_response(s)),
            Ok(value) => {
                if self.value_fits_check(&value) {
                    Some(self.from_api_response(s))
                } else {
                    None
                }
            },
        }
    }
}


/// `p` and `q` agree on the field `f`.
pub open spec fn same_field(p: PostView, q: PostView, f: PostField) -> bool {
    match f {
        PostField::FileUrl => p.file_url == q.file_url,
        PostField::Image => p.image == q.image,
        PostField::Tags => p.tags == q.tags,
        PostField::Width => p.width == q.width,
        PostField::Height => p.height == q.height,
        PostField::Sample => p.sample == q.sample,
        PostField::SampleUrl => p.sample_url == q.sample_url,
        PostField::SampleWidth => p.sample_width == q.sample_width,
        PostField::SampleHeight => p.sample_height == q.sample_height,
        PostField::Source => p.source == q.source,
        PostField::Id => p.id == q.id,
        PostField::Score => p.score == q.score,
        PostField::ParentId => p.parent_id == q.parent_id,
        PostField::CommentCount => p.comment_count == q.comment_count,
        PostField::PreviewUrl => p.preview_url == q.preview_url,
        PostField::Owner => p.owner == q.owner,
        PostField::Rating => p.rating == q.rating,
    }
}

/// Switching a key on or off with `set_conf` switches the field it names on
/// or off, and leaves every other field as it was.
pub proof fn law_set_conf_switches_field(
    before: Seq<(&'static str, bool)>,
    after: Seq<(&'static str, bool)>,
    key: Seq<char>,
    set: bool,
    g: PostField,
)
    requires
        has_key(before, key),
        conf_switched(before, after, key, set),
    ensures
        field_named(key) == Some(g) ==> field_enabled(after, g) == set,
        field_named(key) != Some(g) ==> field_enabled(after, g) == field_enabled(before, g),
{
    let k = choose|i: int| 0 <= i < before.len() && (#[trigger] before[i]).0@ == key;
    if field_named(key) == Some(g) && set {
        assert(after[k].1 && field_named(after[k].0@) == Some(g));
    }
    if field_enabled(after, g) {
        let i = choose|i: int| 0 <= i < after.len() && #[trigger] after[i].1 && field_named(after[i].0@) == Some(g);
        assert(before[i].0 == after[i].0);
        if before[i].0@ != key {
            assert(before[i].1 && field_named(before[i].0@) == Some(g));
        }
    }
    if field_enabled(before, g) && field_named(key) != Some(g) {
        let i = choose|i: int| 0 <= i < before.len() && #[trigger] before[i].1 && field_named(before[i].0@) == Some(g);
        assert(after[i].1 && field_named(after[i].0@) == Some(g));
    }
}

/// A field that the configuration does not switch on keeps its default
/// value in every post; a field it switches on holds what filling that
/// field alone into the default post gives.
pub proof fn law_fields_follow_switches(conf: Seq<(&'static str, bool)>, item: JsonValue, f: PostField)
    ensures
        !field_enabled(conf, f) ==> same_field(filled_post(conf, item), default_post(), f),
        field_enabled(conf, f) ==> same_field(filled_post(conf, item), fill(default_post(), f, item), f),
{
}


/// The fields, in the order of the default configuration.
pub open spec fn all_fields() -> Seq<PostField> {
    seq![
        PostField::FileUrl,
        PostField::Image,
        PostField::Tags,
        PostField::Width,
        PostField::Height,
        PostField::Sample,
        PostField::SampleUrl,
        PostField::SampleWidth,
        PostField::SampleHeight,
        PostField::Source,
        PostField::Id,
        PostField::Score,
        PostField::ParentId,
        PostField::CommentCount,
        PostField::PreviewUrl,
        PostField::Owner,
        PostField::Rating,
    ]
}

/// The position of a field in `all_fields`.
pub open spec fn field_index(f: PostField) -> int {
    match f {
        PostField::FileUrl => 0,
        PostField::Image => 1,
        PostField::Tags => 2,
        PostField::Width => 3,
        PostField::Height => 4,
        PostField::Sample => 5,
        PostField::SampleUrl => 6,
        PostField::SampleWidth => 7,
        PostField::SampleHeight => 8,
        PostField::Source => 9,
        PostField::Id => 10,
        PostField::Score => 11,
        PostField::ParentId => 12,
        PostField::CommentCount => 13,
        PostField::PreviewUrl => 14,
        PostField::Owner => 15,
        PostField::Rating => 16,
    }
}

/// The key of each field names that field.
pub proof fn lemma_field_key_names_field(f: PostField)
    ensures
        field_named(field_key(f)) == Some(f),
{
    reveal_strlit("file_url");
    reveal_strlit("image");
    reveal_strlit("tags");
    reveal_strlit("width");
    reveal_strlit("height");
    reveal_strlit("sample");
    reveal_strlit("sample_url");
    reveal_strlit("sample_width");
    reveal_strlit("sample_height");
    reveal_strlit("source");
    reveal_strlit("id");
    reveal_strlit("score");
    reveal_strlit("parent_id");
    reveal_strlit("comment_count");
    reveal_strlit("preview_url");
    reveal_strlit("owner");
    reveal_strlit("rating");
    assert("file_url"@.len() == 8);
    assert("image"@.len() == 5);
    assert("tags"@.len() == 4);
    assert("width"@.len() == 5);
    assert("height"@.len() == 6);
    assert("sample"@.len() == 6);
    assert("sample_url"@.len() == 10);
    assert("sample_width"@.len() == 12);
    assert("sample_height"@.len() == 13);
    assert("source"@.len() == 6);
    assert("id"@.len() == 2);
    assert("score"@.len() == 5);
    assert("parent_id"@.len() == 9);
    assert("comment_count"@.len() == 13);
    assert("preview_url"@.len() == 11);
    assert("owner"@.len() == 5);
    assert("rating"@.len() == 6);
    assert("image"@[0] == 'i');
    assert("width"@[0] == 'w');
    assert("image"@ != "width"@);
    assert("score"@[0] == 's');
    assert("image"@ != "score"@);
    assert("owner"@[0] == 'o');
    assert("image"@ != "owner"@);
    assert("height"@[0] == 'h');
    assert("sample"@[0] == 's');
    assert("height"@ != "sample"@);
    assert("source"@[0] == 's');
    assert("height"@ != "source"@);
    assert("rating"@[0] == 'r');
    assert("height"@ != "rating"@);
    assert("sample"@[1] == 'a');
    assert("source"@[1] == 'o');
    assert("sample"@ != "source"@);
    assert("score"@ != "width"@);
    assert("comment_count"@[0] == 'c');
    assert("sample_height"@[0] == 's');
    assert("comment_count"@ != "sample_height"@);
    assert("owner"@ != "width"@);
    assert("owner"@ != "score"@);
    assert("rating"@ != "sample"@);
    assert("rating"@ != "source"@);
    assert(field_named("file_url"@) == Some(PostField::FileUrl));
    assert(field_named("image"@) == Some(PostField::Image));
    assert(field_named("tags"@) == Some(PostField::Tags));
    assert(field_named("width"@) == Some(PostField::Width));
    assert(field_named("height"@) == Some(PostField::Height));
    assert(field_named("sample"@) == Some(PostField::Sample));
    assert(field_named("sample_url"@) == Some(PostField::SampleUrl));
    assert(field_named("sample_width"@) == Some(PostField::SampleWidth));
    assert(field_named("sample_height"@) == Some(PostField::SampleHeight));
    assert(field_named("source"@) == Some(PostField::Source));
    assert(field_named("id"@) == Some(PostField::Id));
    assert(field_named("score"@) == Some(PostField::Score));
    assert(field_named("parent_id"@) == Some(PostField::ParentId));
    assert(field_named("comment_count"@) == Some(PostField::CommentCount));
    assert(field_named("preview_url"@) == Some(PostField::PreviewUrl));
    assert(field_named("owner"@) == Some(PostField::Owner));
    assert(field_named("rating"@) == Some(PostField::Rating));
}

/// The entries of the default configuration: the key of each field in turn,
/// switched on.
proof fn lemma_default_conf_entries(conf: Seq<(&'static str, bool)>)
    requires
        conf_view(conf) == default_conf(),
    ensures
        conf.len() == 17,
        forall|i: int| 0 <= i < 17 ==> (#[trigger] conf[i]).1 && conf[i].0@ == field_key(all_fields()[i])
            && field_named(conf[i].0@) == Some(all_fields()[i]),
        forall|i: int| 0 <= i < 17 ==> field_index(#[trigger] all_fields()[i]) == i,
{
    assert(conf.len() == 17) by {
        assert(conf_view(conf).len() == 17);
    }
    assert forall|i: int| 0 <= i < 17 implies (#[trigger] conf[i]).1 && conf[i].0@ == field_key(all_fields()[i])
        && field_named(conf[i].0@) == Some(all_fields()[i]) by {
        assert(conf_view(conf)[i] == default_conf()[i]);
        lemma_field_key_names_field(all_fields()[i]);
    }
}

/// The default configuration switches every field on.
pub proof fn law_default_conf_fields(conf: Seq<(&'static str, bool)>, f: PostField)
    requires
        conf_view(conf) == default_conf(),
    ensures
        field_enabled(conf, f),
{
    lemma_default_conf_entries(conf);
    let i = field_index(f);
    assert(all_fields()[i] == f);
    assert(conf[i].1 && field_named(conf[i].0@) == Some(f));
}

/// The default configuration holds each key once.
pub proof fn law_default_conf_keys_unique(conf: Seq<(&'static str, bool)>)
    requires
        conf_view(conf) == default_conf(),
    ensures
        conf_keys_unique(conf),
{
    lemma_default_conf_entries(conf);
    assert forall|i: int, j: int| 0 <= i < conf.len() && 0 <= j < conf.len() && i != j implies (#[trigger] conf[i]).0@
        != (#[trigger] conf[j]).0@ by {
        if conf[i].0@ == conf[j].0@ {
            assert(field_index(all_fields()[i]) == field_index(all_fields()[j]));
        }
    }
}


/// Two configurations that switch on the same fields give the same posts,
/// whatever the order or spelling of their entries.
pub proof fn law_same_switches_same_posts(
    c1: Seq<(&'static str, bool)>,
    c2: Seq<(&'static str, bool)>,
    value: JsonValue,
)
    requires
        forall|g: PostField| #[trigger] field_enabled(c1, g) == field_enabled(c2, g),
    ensures
        posts_of(c1, value) == posts_of(c2, value),
{
    if let JsonValue::Array(items) = value {
        assert forall|i: int| 0 <= i < items@.len() implies #[trigger] filled_post(c1, items@[i]) == filled_post(
            c2,
            items@[i],
        ) by {
            lemma_same_fields_same_post(c1, c2, items@[i]);
        }
        assert(posts_of(c1, value) =~= posts_of(c2, value));
    }
}

/// Two results that both answer a text under one configuration agree: the
/// same error kind, or the same posts. `parse_json` on an answer and
/// `from_api_response` on it (which parses its pretty-printed form) thus
/// give the same posts.
pub proof fn law_answers_agree(
    conf: Seq<(&'static str, bool)>,
    text: Seq<char>,
    r1: Result<Vec<Post>, R34Error>,
    r2: Result<Vec<Post>, R34Error>,
)
    requires
        parsed_as(conf, text, r1),
        parsed_as(conf, text, r2),
    ensures
        r1 is Ok <==> r2 is Ok,
        r1 matches Ok(p1) ==> r2 matches Ok(p2) && posts_view(p1@) == posts_view(p2@),
{
}


/// Each field of a post is read from the member of the same name: a
/// switched-on text field holds the member's string, a number field the
/// member's `u64`, `sample` the member's boolean, `tags` the words of the
/// member's string and `rating` the rating it names. A field that is
/// switched off, or whose member is missing or of another type, holds its
/// default: empty, zero (`id`: 1), false, no tags, no rating.
pub proof fn law_fields_read_from_members(conf: Seq<(&'static str, bool)>, item: JsonValue)
    ensures
        filled_post(conf, item).file_url == if field_enabled(conf, PostField::FileUrl) {
            match item.member("file_url"@) {
                Some(JsonValue::String(s)) => s@,
                _ => seq![],
            }
        } else {
            seq![]
        },
        filled_post(conf, item).image == if field_enabled(conf, PostField::Image) {
            match item.member("image"@) {
                Some(JsonValue::String(s)) => s@,
                _ => seq![],
            }
        } else {
            seq![]
        },
        filled_post(conf, item).sample_url == if field_enabled(conf, PostField::SampleUrl) {
            match item.member("sample_url"@) {
                Some(JsonValue::String(s)) => s@,
                _ => seq![],
            }
        } else {
            seq![]
        },
        filled_post(conf, item).source == if field_enabled(conf, PostField::Source) {
            match item.member("source"@) {
                Some(JsonValue::String(s)) => s@,
                _ => seq![],
            }
        } else {
            seq![]
        },
        filled_post(conf, item).preview_url == if field_enabled(conf, PostField::PreviewUrl) {
            match item.member("preview_url"@) {
                Some(JsonValue::String(s)) => s@,
                _ => seq![],
            }
        } else {
            seq![]
        },
        filled_post(conf, item).owner == if field_enabled(conf, PostField::Owner) {
            match item.member("owner"@) {
                Some(JsonValue::String(s)) => s@,
                _ => seq![],
            }
        } else {
            seq![]
        },
        filled_post(conf, item).width == if field_enabled(conf, PostField::Width) {
            match item.member("width"@) {
                Some(JsonValue::Number(Some(n))) => n,
                _ => 0u64,
            }
        } else {
            0u64
        },
        filled_post(conf, item).height == if field_enabled(conf, PostField::Height) {
            match item.member("height"@) {
                Some(JsonValue::Number(Some(n))) => n,
                _ => 0u64,
            }
        } else {
            0u64
        },
        filled_post(conf, item).sample_width == if field_enabled(conf, PostField::SampleWidth) {
            match item.member("sample_width"@) {
                Some(JsonValue::Number(Some(n))) => n,
                _ => 0u64,
            }
        } else {
            0u64
        },
        filled_post(conf, item).sample_height == if field_enabled(conf, PostField::SampleHeight) {
            match item.member("sample_height"@) {
                Some(JsonValue::Number(Some(n))) => n,
                _ => 0u64,
            }
        } else {
            0u64
        },
        filled_post(conf, item).id == if field_enabled(conf, PostField::Id) {
            match item.member("id"@) {
                Some(JsonValue::Number(Some(n))) => n,
                _ => 1u64,
            }
        } else {
            1u64
        },
        filled_post(conf, item).score == if field_enabled(conf, PostField::Score) {
            match item.member("score"@) {
                Some(JsonValue::Number(Some(n))) => n,
                _ => 0u64,
            }
        } else {
            0u64
        },
        filled_post(conf, item).parent_id == if field_enabled(conf, PostField::ParentId) {
            match item.member("parent_id"@) {
                Some(JsonValue::Number(Some(n))) => n,
                _ => 0u64,
            }
        } else {
            0u64
        },
        filled_post(conf, item).comment_count == if field_enabled(conf, PostField::CommentCount) {
            match item.member("comment_count"@) {
                Some(JsonValue::Number(Some(n))) => n,
                _ => 0u64,
            }
        } else {
            0u64
        },
        filled_post(conf, item).sample == if field_enabled(conf, PostField::Sample) {
            match item.member("sample"@) {
                Some(JsonValue::Bool(b)) => b,
                _ => false,
            }
        } else {
            false
        },
        filled_post(conf, item).tags == if field_enabled(conf, PostField::Tags) {
            match item.member("tags"@) {
                Some(JsonValue::String(s)) => words(s@),
                _ => Seq::<Seq<char>>::empty(),
            }
        } else {
            Seq::<Seq<char>>::empty()
        },
        filled_post(conf, item).rating == if field_enabled(conf, PostField::Rating) {
            match item.member("rating"@) {
                Some(JsonValue::String(s)) => rating_named(s@),
                _ => None,
            }
        } else {
            None
        },
{
}

} // verus!
