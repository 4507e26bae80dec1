//! Posts as the response parser fills them in, and their text form.

use vstd::prelude::*;
use crate::text::{decimal, push_decimal, str_eq};

verus! {

/// Rating of a post.
#[derive(Clone, Copy, Debug, PartialEq, Eq, Structural)]
pub enum Rating {
    Explicit,
    Safe,
    Questionable,
}

/// The word the API uses for a rating.
pub open spec fn rating_text(r: Rating) -> Seq<char> {
    match r {
        Rating::Explicit => "explicit"@,
        Rating::Safe => "safe"@,
        Rating::Questionable => "questionable"@,
    }
}

/// The rating the API's word `s` names, if any.
pub open spec fn rating_named(s: Seq<char>) -> Option<Rating> {
    if s == "explicit"@ {
        Some(Rating::Explicit)
    } else if s == "safe"@ {
        Some(Rating::Safe)
    } else if s == "questionable"@ {
        Some(Rating::Questionable)
    } else {
        None
    }
}

/// Each rating's word names that rating, and the words that name a rating
/// are exactly the three ratings' words.
pub proof fn law_rating_words(r: Rating, s: Seq<char>)
    ensures
        rating_named(rating_text(r)) == Some(r),
        rating_named(s) == Some(r) <==> s == rating_text(r),
        rating_named(s) is None <==> (s != "explicit"@ && s != "safe"@ && s != "questionable"@),
{
    reveal_strlit("explicit");
    reveal_strlit("safe");
    reveal_strlit("questionable");
    assert("explicit"@.len() == 8 && "safe"@.len() == 4 && "questionable"@.len() == 12);
}

/// The rating the API's word `s` names, if any.
pub fn rating_from_text(s: &str) -> (r: Option<Rating>)
    ensures
        r == rating_named(s@),
{
    if str_eq(s, "explicit") {
        Some(Rating::Explicit)
    } else if str_eq(s, "safe") {
        Some(Rating::Safe)
    } else if str_eq(s, "questionable") {
        Some(Rating::Questionable)
    } else {
        None
    }
}

impl Rating {
    /// The word the API uses for this rating (the text form of a rating).
    pub fn to_string(&self) -> (r: String)
        ensures
            r@ == rating_text(*self),
    {
        match self {
            Rating::Explicit => "explicit".to_owned(),
            Rating::Safe => "safe".to_owned(),
            Rating::Questionable => "questionable".to_owned(),
        }
    }
}

/// Post struct. Holds all information about a post.
#[derive(Clone, Debug)]
pub struct Post {
    /// Url of the post's file
    pub file_url: String,
    /// Name of the post's file
    pub image: String,
    /// The post's tags
    pub tags: Vec<String>,
    /// Width of the post's file
    pub width: u64,
    /// Height of the post's file
    pub height: u64,
    /// Whether the post has a sample
    pub sample: bool,
    /// Url of the post's sample
    pub sample_url: String,
    /// Width of the post's sample file
    pub sample_width: u64,
    /// Height of the post's sample file
    pub sample_height: u64,
    /// Source of the post, e.g. a Twitter url
    pub source: String,
    /// ID of the post
    pub id: u64,
    /// Score of the post
    pub score: u64,
    /// ID of the post's parent post
    pub parent_id: u64,
    /// Number of comments on the post
    pub comment_count: u64,
    /// Url of the post's preview image
    pub preview_url: String,
    /// Name of the post's owner
    pub owner: String,
    /// Rating of the post
    pub rating: Option<Rating>,
}

/// A post with its texts as character sequences.
#[verifier::ext_equal]
pub struct PostView {
    pub file_url: Seq<char>,
    pub image: Seq<char>,
    pub tags: Seq<Seq<char>>,
    pub width: u64,
    pub height: u64,
    pub sample: bool,
    pub sample_url: Seq<char>,
    pub sample_width: u64,
    pub sample_height: u64,
    pub source: Seq<char>,
    pub id: u64,
    pub score: u64,
    pub parent_id: u64,
    pub comment_count: u64,
    pub preview_url: Seq<char>,
    pub owner: Seq<char>,
    pub rating: Option<Rating>,
}

impl View for Post {
    type V = PostView;

    open spec fn view(&self) -> PostView {
        PostView {
            file_url: self.file_url@,
            image: self.image@,
            tags: self.tags.deep_view(),
            width: self.width,
            height: self.height,
            sample: self.sample,
            sample_url: self.sample_url@,
            sample_width: self.sample_width,
            sample_height: self.sample_height,
            source: self.source@,
            id: self.id,
            score: self.score,
            parent_id: self.parent_id,
            comment_count: self.comment_count,
            preview_url: self.preview_url@,
            owner: self.owner@,
            rating: self.rating,
        }
    }
}

/// The post that parsing starts from: empty texts and tags, zero numbers,
/// no sample, no rating, and id 1.
pub open spec fn default_post() -> PostView {
    PostView {
        file_url: seq![],
        image: seq![],
        tags: seq![],
        width: 0,
        height: 0,
        sample: false,
        sample_url: seq![],
        sample_width: 0,
        sample_height: 0,
        source: seq![],
        id: 1,
        score: 0,
        parent_id: 0,
        comment_count: 0,
        preview_url: seq![],
        owner: seq![],
        rating: None,
    }
}

impl Default for Post {
    fn default() -> (r: Self)
        ensures
            r@ == default_post(),
    {
        Post {
            file_url: String::new(),
            width: 0,
            height: 0,
            image: String::new(),
            tags: Vec::new(),
            sample: false,
            sample_url: String::new(),
            sample_width: 0,
            sample_height: 0,
            source: String::new(),
            id: 1,
            score: 0,
            parent_id: 0,
            comment_count: 0,
            preview_url: String::new(),
            owner: String::new(),
            rating: None,
        }
    }
}

/// How `{:?}` writes a list of strings (`Debug` of `Vec<String>`).
pub uninterp spec fn debug_text_of_strings(items: Seq<Seq<char>>) -> Seq<char>;

/// `format!("{:?}", items)`: the `Debug` text of a list of strings. The
/// contract claims only that the text is a function of the strings; the
/// quoting and escaping are left to `std`.
#[verifier::external_body]
fn debug_strings(items: &Vec<String>) -> (r: String)
    ensures
        r@ == debug_text_of_strings(items.deep_view()),
{
    format!("{:?}", items)
}

/// The text form of a post with rating `rating`, where `tags_text` is how
/// the tags are written.
pub open spec fn post_text(p: PostView, tags_text: Seq<char>, rating: Rating) -> Seq<char> {
    "image: "@ + p.image + "\nfile_url: "@ + p.file_url + "\nwidth: "@ + decimal(p.width as nat)
        + "\nheight: "@ + decimal(p.height as nat) + "\ntags: "@ + tags_text + "\nid: "@ + decimal(
        p.id as nat,
    ) + "\nowner: "@ + p.owner + "\nrating: "@ + rating_text(rating) + "\nsample_url: "@
        + p.sample_url + "\nsample_width: "@ + decimal(p.sample_width as nat) + "\nsample_height: "@
        + decimal(p.sample_height as nat) + "\nsource: "@ + p.source + "\nscore: "@ + decimal(
        p.score as nat,
    ) + "\nparent_id: "@ + decimal(p.parent_id as nat) + "\ncomment_count: "@ + decimal(
        p.comment_count as nat,
    ) + "\npreview_url: "@ + p.preview_url + "\n"@
}

/// The named fields of the text form, in order: each entry is a field's
/// name as the text writes it (after the line break that ends the line
/// before) and that field's value.
pub open spec fn post_fields(p: PostView, tags_text: Seq<char>, rating: Rating) -> Seq<
    (Seq<char>, Seq<char>),
> {
    seq![
        ("image: "@, p.image),
        ("\nfile_url: "@, p.file_url),
        ("\nwidth: "@, decimal(p.width as nat)),
        ("\nheight: "@, decimal(p.height as nat)),
        ("\ntags: "@, tags_text),
        ("\nid: "@, decimal(p.id as nat)),
        ("\nowner: "@, p.owner),
        ("\nrating: "@, rating_text(rating)),
        ("\nsample_url: "@, p.sample_url),
        ("\nsample_width: "@, decimal(p.sample_width as nat)),
        ("\nsample_height: "@, decimal(p.sample_height as nat)),
        ("\nsource: "@, p.source),
        ("\nscore: "@, decimal(p.score as nat)),
        ("\nparent_id: "@, decimal(p.parent_id as nat)),
        ("\ncomment_count: "@, decimal(p.comment_count as nat)),
        ("\npreview_url: "@, p.preview_url),
    ]
}

/// The first `n` entries of `fields`, each name followed by its value.
pub open spec fn fields_text(fields: Seq<(Seq<char>, Seq<char>)>, n: nat) -> Seq<char>
    decreases n,
{
    if n == 0 {
        seq![]
    } else {
        fields_text(fields, (n - 1) as nat) + fields[n - 1].0 + fields[n - 1].1
    }
}

/// The text form of a post is its named fields in order, each name
/// followed by the value of the field of that name, and a final line
/// break: the `sample_height` line holds the sample height, and so on.
pub proof fn law_post_text_fields(p: PostView, tags_text: Seq<char>, rating: Rating)
    ensures
        post_fields(p, tags_text, rating).len() == 16,
        post_text(p, tags_text, rating) == fields_text(post_fields(p, tags_text, rating), 16)
            + "\n"@,
{
    let f = post_fields(p, tags_text, rating);
    reveal_with_fuel(fields_text, 17);
    assert(fields_text(f, 1) =~= "image: "@ + p.image);
    assert(post_text(p, tags_text, rating) == fields_text(f, 16) + "\n"@);
}

impl Post {
    /// The text form of the post: one `name: value` line per field, the tags
    /// written as a list. Only posts with a rating have one.
    pub fn to_string(&self) -> (r: String)
        requires
            self.rating is Some,
        ensures
            r@ == post_text(self@, debug_text_of_strings(self.tags.deep_view()), self.rating->0),
    {
        let rating = self.rating.unwrap();
        let mut out = String::new();
        out.append("image: ");
        out.append(self.image.as_str());
        out.append("\nfile_url: ");
        out.append(self.file_url.as_str());
        out.append("\nwidth: ");
        push_decimal(&mut out, self.width);
        out.append("\nheight: ");
        push_decimal(&mut out, self.height);
        out.append("\ntags: ");
        let tags_text = debug_strings(&self.tags);
        out.append(tags_text.as_str());
        out.append("\nid: ");
        push_decimal(&mut out, self.id);
        out.append("\nowner: ");
        out.append(self.owner.as_str());
        out.append("\nrating: ");
        let rating_word = rating.to_string();
        out.append(rating_word.as_str());
        out.append("\nsample_url: ");
        out.append(self.sample_url.as_str());
        out.append("\nsample_width: ");
        push_decimal(&mut out, self.sample_width);
        out.append("\nsample_height: ");
        push_decimal(&mut out, self.sample_height);
        out.append("\nsource: ");
        out.append(self.source.as_str());
        out.append("\nscore: ");
        push_decimal(&mut out, self.score);
        out.append("\nparent_id: ");
        push_decimal(&mut out, self.parent_id);
        out.append("\ncomment_count: ");
        push_decimal(&mut out, self.comment_count);
        out.append("\npreview_url: ");
        out.append(self.preview_url.as_str());
        out.append("\n");
        assert(out@ =~= post_text(self@, tags_text@, rating));
        out
    }
}

} // verus!
