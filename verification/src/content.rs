//! Documents: a front matter block and a Markdown body.

use crate::error::ZahuyachError;
use crate::text::{copy_range, string_from_chars, strings, to_chars};
use vstd::prelude::*;

verus! {

/// The HTML that the Markdown engine makes of a source text.
pub uninterp spec fn markdown_html(source: Seq<char>) -> Seq<char>;

/// Renders Markdown with `pulldown_cmark`: `Parser::new` reads the source
/// with no extension switched on, `html::push_html` writes the HTML of its
/// events. The result is named: it is a function of the source alone.
#[verifier::external_body]
pub(crate) fn markdown_to_html(source: &str) -> (html: String)
    ensures
        html@ == markdown_html(source@),
{
    let parser = pulldown_cmark::Parser::new(source);
    let mut html = String::new();
    pulldown_cmark::html::push_html(&mut html, parser);
    html
}

/// The metadata at the head of a document.
#[derive(Debug, Clone)]
pub struct FrontMatter {
    pub title: String,
    pub date: String,
    pub author: Option<String>,
    pub tags: Option<Vec<String>>,
    pub categories: Option<Vec<String>>,
    pub description: Option<String>,
    pub draft: Option<bool>,
    pub featured: Option<bool>,
}

/// One document of the site.
#[derive(Debug, Clone)]
pub struct Post {
    pub front_matter: FrontMatter,
    /// The Markdown body.
    pub content: String,
    /// The body as HTML.
    pub html_content: String,
    /// The name of the document in addresses: the stem of its file name.
    pub slug: String,
    /// Where the document was read from.
    pub file_path: String,
}

/// A front matter as plain values.
pub struct FrontMatterView {
    pub title: Seq<char>,
    pub date: Seq<char>,
    pub author: Option<Seq<char>>,
    pub tags: Option<Seq<Seq<char>>>,
    pub categories: Option<Seq<Seq<char>>>,
    pub description: Option<Seq<char>>,
    pub draft: Option<bool>,
    pub featured: Option<bool>,
}

/// A document as plain values.
pub struct PostView {
    pub front_matter: FrontMatterView,
    pub content: Seq<char>,
    pub html_content: Seq<char>,
    pub slug: Seq<char>,
    pub file_path: Seq<char>,
}

/// The text of an optional string.
pub open spec fn optional_text(value: Option<String>) -> Option<Seq<char>> {
    match value {
        Some(s) => Some(s@),
        None => None,
    }
}

/// The texts of an optional list of strings.
pub open spec fn optional_texts(value: Option<Vec<String>>) -> Option<Seq<Seq<char>>> {
    match value {
        Some(v) => Some(strings(v@)),
        None => None,
    }
}

impl View for FrontMatter {
    type V = FrontMatterView;

    open spec fn view(&self) -> FrontMatterView {
        FrontMatterView {
            title: self.title@,
            date: self.date@,
            author: optional_text(self.author),
            tags: optional_texts(self.tags),
            categories: optional_texts(self.categories),
            description: optional_text(self.description),
            draft: self.draft,
            featured: self.featured,
        }
    }
}

impl View for Post {
    type V = PostView;

    open spec fn view(&self) -> PostView {
        PostView {
            front_matter: self.front_matter@,
            content: self.content@,
            html_content: self.html_content@,
            slug: self.slug@,
            file_path: self.file_path@,
        }
    }
}

impl FrontMatterView {
    /// The tags, none where the list is absent.
    pub open spec fn tag_list(self) -> Seq<Seq<char>> {
        match self.tags {
            Some(t) => t,
            None => Seq::empty(),
        }
    }

    /// The categories, none where the list is absent.
    pub open spec fn category_list(self) -> Seq<Seq<char>> {
        match self.categories {
            Some(c) => c,
            None => Seq::empty(),
        }
    }
}

impl PostView {
    /// Whether the document is a draft: only where it says so.
    pub open spec fn is_draft(self) -> bool {
        self.front_matter.draft == Some(true)
    }

    /// The author named in the document, else `site_author`.
    pub open spec fn author_or(self, site_author: Seq<char>) -> Seq<char> {
        match self.front_matter.author {
            Some(a) => a,
            None => site_author,
        }
    }

    /// The description given in the document, else its title.
    pub open spec fn summary(self) -> Seq<char> {
        match self.front_matter.description {
            Some(d) => d,
            None => self.front_matter.title,
        }
    }
}

/// The views of a list of documents.
pub open spec fn post_views(posts: Seq<Post>) -> Seq<PostView> {
    Seq::new(posts.len(), |i: int| posts[i]@)
}

pub proof fn lemma_post_views_push(posts: Seq<Post>, post: Post)
    ensures
        post_views(posts.push(post)) == post_views(posts).push(post@),
{
    assert(post_views(posts.push(post)) =~= post_views(posts).push(post@));
}

/// Whether the marker `---` stands at index `i` of `s`.
pub open spec fn marker_at(s: Seq<char>, i: int) -> bool {
    &&& 0 <= i
    &&& i + 3 <= s.len()
    &&& s[i] == '-'
    &&& s[i + 1] == '-'
    &&& s[i + 2] == '-'
}

/// The index of the first marker at or after `from`, or the length of `s`
/// where there is none.
pub open spec fn next_marker(s: Seq<char>, from: int) -> int
    decreases s.len() - from,
{
    if from < 0 || from + 3 > s.len() {
        s.len() as int
    } else if marker_at(s, from) {
        from
    } else {
        next_marker(s, from + 1)
    }
}

/// What `next_marker` finds is the first marker from `from` on.
pub proof fn lemma_next_marker(s: Seq<char>, from: int)
    requires
        0 <= from,
    ensures
        from <= next_marker(s, from) || next_marker(s, from) == s.len(),
        next_marker(s, from) <= s.len(),
        next_marker(s, from) < s.len() ==> marker_at(s, next_marker(s, from)),
        forall|i: int| from <= i < next_marker(s, from) ==> !marker_at(s, i),
    decreases s.len() - from,
{
    if from + 3 > s.len() {
    } else if marker_at(s, from) {
    } else {
        lemma_next_marker(s, from + 1);
    }
}

/// How a document splits into front matter and body. The document begins
/// with the marker; the front matter is what stands between that marker and
/// the next one, the body what follows the next one.
pub enum Framing {
    /// The document does not begin with the marker.
    Missing,
    /// No second marker closes the front matter.
    Unclosed,
    /// The two parts.
    Parts { front_matter: Seq<char>, body: Seq<char> },
}

pub open spec fn framing(s: Seq<char>) -> Framing {
    let close = next_marker(s, 3);
    if !marker_at(s, 0) {
        Framing::Missing
    } else if close >= s.len() {
        Framing::Unclosed
    } else {
        Framing::Parts { front_matter: s.subrange(3, close), body: s.skip(close + 3) }
    }
}

/// Whether a marker stands at index `i` of `v`.
fn has_marker_at(v: &Vec<char>, i: usize) -> (r: bool)
    ensures
        r == marker_at(v@, i as int),
{
    i <= v.len() && v.len() - i >= 3 && v[i] == '-' && v[i + 1] == '-' && v[i + 2] == '-'
}

/// The index of the first marker at or after `from`, or the length of `v`.
fn find_marker(v: &Vec<char>, from: usize) -> (k: usize)
    ensures
        k == next_marker(v@, from as int),
{
    let mut i: usize = from;
    while i <= v.len() && v.len() - i >= 3
        invariant
            from <= i,
            next_marker(v@, from as int) == next_marker(v@, i as int),
        decreases v@.len() - i,
    {
        if has_marker_at(v, i) {
            return i;
        }
        i += 1;
    }
    v.len()
}

impl Post {
    /// Splits a document into its front matter and its body.
    pub fn parse_front_matter(content: &str) -> (r: Result<(String, String), ZahuyachError>)
        ensures
            match framing(content@) {
                Framing::Missing => r is Err && r->Err_0.is_invalid_input(
                    "No front matter found"@,
                ),
                Framing::Unclosed => r is Err && r->Err_0.is_invalid_input(
                    "No content after front matter"@,
                ),
                Framing::Parts { front_matter, body } => r is Ok && r->Ok_0.0@ == front_matter
                    && r->Ok_0.1@ == body,
            },
    {
        let chars = to_chars(content);
        if !has_marker_at(&chars, 0) {
            return Err(ZahuyachError::invalid_input("No front matter found"));
        }
        let close = find_marker(&chars, 3);
        if close >= chars.len() {
            return Err(ZahuyachError::invalid_input("No content after front matter"));
        }
        proof {
            lemma_next_marker(chars@, 3);
        }
        let front = copy_range(&chars, 3, close);
        let body = copy_range(&chars, close + 3, chars.len());
        assert(body@ =~= chars@.skip(close + 3));
        Ok((string_from_chars(&front), string_from_chars(&body)))
    }

    /// A document made of its parts. The body is rendered to HTML here.
    pub fn new(front_matter: FrontMatter, content: String, slug: String, file_path: String) -> (post:
        Post)
        ensures
            post@.front_matter == front_matter@,
            post@.content == content@,
            post@.html_content == markdown_html(content@),
            post@.slug == slug@,
            post@.file_path == file_path@,
    {
        let html_content = markdown_to_html(content.as_str());
        Post { front_matter, content, html_content, slug, file_path }
    }

    /// Whether the document is a draft.
    pub fn is_draft(&self) -> (r: bool)
        ensures
            r == self@.is_draft(),
    {
        match self.front_matter.draft {
            Some(b) => b,
            None => false,
        }
    }
}

/// The error for a front matter that could not be decoded: its message is
/// `Failed to parse front matter: ` and the cause.
pub fn front_matter_error(cause: &str) -> (e: ZahuyachError)
    ensures
        e.is_invalid_input("Failed to parse front matter: "@ + cause@),
{
    ZahuyachError::invalid_input_with("Failed to parse front matter: ", cause)
}

} // verus!
