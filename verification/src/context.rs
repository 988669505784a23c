//! The data that each page is rendered with.

use crate::config::{text_or, Config, Settings, SocialLinks};
use crate::content::{markdown_html, post_views, Post, PostView};
use crate::data::{text_list, Data, Entry, ListBuilder, ObjectBuilder, Tree};
use crate::deriver::{
    format_instant, formatted_instant, count_body_words, excerpt, excerpt_source, format_date, reading_minutes, reading_time,
    shown_date, slug, slugify,
};
use crate::taxonomy::{archive, archive_of, bucket_views, buckets_of, group, indices, label_sets, lemma_archive_within, lemma_year_posts_within, popular, rank_buckets, within, year_posts, year_views, ArchiveYear, Bucket, BucketView, YearView};
use crate::text::{strings, texts, to_chars, word_count};
use vstd::prelude::*;
use vstd::string::StringExecFns;

verus! {

/// A field of an object.
pub open spec fn field(name: Seq<char>, value: Tree) -> Entry {
    Entry { name, value }
}

/// A field that holds a text.
pub open spec fn text(name: Seq<char>, value: Seq<char>) -> Entry {
    Entry { name, value: Tree::Text(value) }
}

/// A field that holds a number.
pub open spec fn number(name: Seq<char>, value: int) -> Entry {
    Entry { name, value: Tree::Number(value) }
}

/// A field that holds a flag.
pub open spec fn flag(name: Seq<char>, value: bool) -> Entry {
    Entry { name, value: Tree::Flag(value) }
}

/// No fields: what an object starts from.
pub open spec fn fields() -> Seq<Entry> {
    Seq::empty()
}

/// `a` followed by `b`.
pub fn concat(a: &str, b: &str) -> (r: String)
    ensures
        r@ == a@ + b@,
{
    let mut s = a.to_owned();
    s.append(b);
    s
}

/// The text of an optional string, or `default` where it is absent.
pub fn or_default<'a>(value: &'a Option<String>, default: &'a str) -> (r: &'a str)
    ensures
        r@ == text_or(*value, default@),
{
    match value {
        Some(s) => s.as_str(),
        None => default,
    }
}

/// The time of a build, read once: the year, the moment as feeds write it,
/// and the day.
#[derive(Debug)]
pub struct Clock {
    pub year: i32,
    pub build_date: String,
    pub today: String,
}

/// The time of a build as plain values.
pub struct ClockView {
    pub year: int,
    pub build_date: Seq<char>,
    pub today: Seq<char>,
}

impl View for Clock {
    type V = ClockView;

    open spec fn view(&self) -> ClockView {
        ClockView { year: self.year as int, build_date: self.build_date@, today: self.today@ }
    }
}

/// The year of a moment.
pub uninterp spec fn moment_year(moment: chrono::NaiveDateTime) -> int;

/// The present moment in UTC: `chrono::Utc::now`, and `naive_utc` on it.
/// It depends on the clock, so nothing is claimed.
#[verifier::external_body]
fn utc_moment() -> (moment: chrono::NaiveDateTime) {
    chrono::Utc::now().naive_utc()
}

/// `chrono::Datelike::year` on a `NaiveDateTime`. The result is named.
#[verifier::external_body]
fn year_of_moment(moment: &chrono::NaiveDateTime) -> (year: i32)
    ensures
        year == moment_year(*moment),
{
    chrono::Datelike::year(moment)
}

/// The time of a build that starts at the moment `moment` of UTC: its
/// year, the moment as feeds write it (UTC's offset is `+0000`), and the
/// day.
pub open spec fn clock_at(moment: chrono::NaiveDateTime) -> ClockView {
    ClockView {
        year: moment_year(moment),
        build_date: match formatted_instant(moment, "%a, %d %b %Y %H:%M:%S"@) {
            Some(text) => text + " +0000"@,
            None => Seq::empty(),
        },
        today: match formatted_instant(moment, "%Y-%m-%d"@) {
            Some(text) => text,
            None => Seq::empty(),
        },
    }
}

impl Clock {
    /// The present moment: the clock is read once.
    pub fn now() -> (clock: Clock)
        ensures
            exists|moment: chrono::NaiveDateTime| clock@ == clock_at(moment),
    {
        let moment = utc_moment();
        Clock::at(&moment)
    }

    /// The time of a build that starts at `moment`.
    pub fn at(moment: &chrono::NaiveDateTime) -> (clock: Clock)
        ensures
            clock@ == clock_at(*moment),
    {
        let build_date = match format_instant(moment, "%a, %d %b %Y %H:%M:%S") {
            Some(text) => Some(concat(text.as_str(), " +0000")),
            None => None,
        };
        let today = format_instant(moment, "%Y-%m-%d");
        Clock::of_readings(year_of_moment(moment), build_date, today)
    }

    /// The time of a build, made of what was read off the clock: the year,
    /// the moment as feeds write it, and the day. A text that could not be
    /// written is taken as empty.
    pub fn of_readings(year: i32, build_date: Option<String>, today: Option<String>) -> (clock:
        Clock)
        ensures
            clock@.year == year,
            clock@.build_date == text_or(build_date, Seq::empty()),
            clock@.today == text_or(today, Seq::empty()),
    {
        let build_date = match build_date {
            Some(text) => text,
            None => String::new(),
        };
        let today = match today {
            Some(text) => text,
            None => String::new(),
        };
        Clock { year, build_date, today }
    }
}

/// The object `social` of a site.
pub open spec fn social_tree(links: SocialLinks) -> Tree {
    Tree::Object(
        fields()
            .push(text("github"@, links.github))
            .push(text("twitter"@, links.twitter))
            .push(text("linkedin"@, links.linkedin))
            .push(text("email"@, links.email))
            .push(text("mastodon"@, links.mastodon))
            .push(text("youtube"@, links.youtube))
            .push(text("instagram"@, links.instagram))
            .push(text("facebook"@, links.facebook)),
    )
}

/// The object `site` that every page is rendered with.
pub open spec fn site_tree(s: Settings, year: int) -> Tree {
    Tree::Object(
        fields()
            .push(text("title"@, s.title))
            .push(text("description"@, s.description))
            .push(text("author"@, s.author))
            .push(text("base_url"@, s.base_url))
            .push(text("language"@, s.language))
            .push(number("current_year"@, year))
            .push(text("email"@, s.email))
            .push(text("timezone"@, s.timezone))
            .push(field("social"@, social_tree(s.social))),
    )
}

/// The object `page` that every page is rendered with.
pub open spec fn page_tree(title: Seq<char>, description: Seq<char>, url: Seq<char>) -> Tree {
    Tree::Object(
        fields().push(text("title"@, title)).push(text("description"@, description)).push(
            text("url"@, url),
        ),
    )
}

/// The object `social` of the site.
fn social_context(config: &Config) -> (r: Data)
    ensures
        r@ == social_tree(config@.social),
{
    let site_email = or_default(&config.site.email, "");
    let mut o = ObjectBuilder::new();
    proof {
        reveal_strlit("");
        assert(""@ =~= Seq::<char>::empty());
    }
    match &config.site.social {
        Some(s) => {
            o.text("github", or_default(&s.github, ""));
            o.text("twitter", or_default(&s.twitter, ""));
            o.text("linkedin", or_default(&s.linkedin, ""));
            o.text("email", or_default(&s.email, site_email));
            o.text("mastodon", or_default(&s.mastodon, ""));
            o.text("youtube", or_default(&s.youtube, ""));
            o.text("instagram", or_default(&s.instagram, ""));
            o.text("facebook", or_default(&s.facebook, ""));
        },
        None => {
            o.text("github", "");
            o.text("twitter", "");
            o.text("linkedin", "");
            o.text("email", site_email);
            o.text("mastodon", "");
            o.text("youtube", "");
            o.text("instagram", "");
            o.text("facebook", "");
        },
    }
    o.finish()
}

/// The object `site`.
pub fn site_context(config: &Config, clock: &Clock) -> (r: Data)
    ensures
        r@ == site_tree(config@, clock@.year),
{
    proof {
        reveal_strlit("");
        assert(""@ =~= Seq::<char>::empty());
    }
    let mut o = ObjectBuilder::new();
    o.text("title", config.site.title.as_str());
    o.text("description", config.site.description.as_str());
    o.text("author", config.site.author.as_str());
    o.text("base_url", config.site.base_url.as_str());
    o.text("language", or_default(&config.site.language, "ru"));
    o.field("current_year", Data::Int(clock.year as i64));
    o.text("email", or_default(&config.site.email, ""));
    o.text("timezone", or_default(&config.site.timezone, "UTC"));
    o.field("social", social_context(config));
    o.finish()
}

/// The object `page`.
pub fn page_context(title: &str, description: &str, url: &str) -> (r: Data)
    ensures
        r@ == page_tree(title@, description@, url@),
{
    let mut o = ObjectBuilder::new();
    o.text("title", title);
    o.text("description", description);
    o.text("url", url);
    o.finish()
}

/// The tags of each document.
pub open spec fn tags_of(posts: Seq<PostView>) -> Seq<Seq<Seq<char>>> {
    Seq::new(posts.len(), |i: int| posts[i].front_matter.tag_list())
}

/// The categories of each document.
pub open spec fn categories_of(posts: Seq<PostView>) -> Seq<Seq<Seq<char>>> {
    Seq::new(posts.len(), |i: int| posts[i].front_matter.category_list())
}

/// The date of each document.
pub open spec fn dates_of(posts: Seq<PostView>) -> Seq<Seq<char>> {
    Seq::new(posts.len(), |i: int| posts[i].front_matter.date)
}

/// The indices `0`, `1`, ... below `n`.
pub open spec fn leading(n: nat) -> Seq<int> {
    Seq::new(n, |k: int| k)
}

/// The address of a document's page within the site.
pub open spec fn post_url(slug: Seq<char>) -> Seq<char> {
    "/posts/"@ + slug
}

/// The address of a document's page in full.
pub open spec fn permalink(base_url: Seq<char>, slug: Seq<char>) -> Seq<char> {
    base_url + "/posts/"@ + slug
}

/// A tag in a list of tags: its name, the number of its documents and its
/// slug.
pub open spec fn tag_entry_tree(b: BucketView) -> Tree {
    Tree::Object(
        fields().push(text("name"@, b.name)).push(number("count"@, b.posts.len() as int)).push(
            text("slug"@, slug(b.name)),
        ),
    )
}

/// A category in the list of categories.
pub open spec fn category_entry_tree(b: BucketView) -> Tree {
    Tree::Object(
        fields()
            .push(text("name"@, b.name))
            .push(number("count"@, b.posts.len() as int))
            .push(text("slug"@, slug(b.name)))
            .push(flag("has_children"@, false))
            .push(flag("is_expanded"@, false))
            .push(number("posts_count"@, b.posts.len() as int)),
    )
}

/// The list `popular_tags`: the popular groups of the documents by tag.
pub open spec fn popular_tags_tree(s: Settings, posts: Seq<PostView>) -> Tree {
    let buckets = buckets_of(tags_of(posts));
    let order = popular(buckets, s.min_tag_count, s.max_tags_in_cloud);
    Tree::List(Seq::new(order.len(), |k: int| tag_entry_tree(buckets[order[k]])))
}

/// The list `categories`: every group of the documents by category.
pub open spec fn categories_tree(posts: Seq<PostView>) -> Tree {
    let buckets = buckets_of(categories_of(posts));
    Tree::List(Seq::new(buckets.len(), |k: int| category_entry_tree(buckets[k])))
}

/// A document in the list `recent_posts`.
pub open spec fn recent_entry_tree(s: Settings, p: PostView) -> Tree {
    Tree::Object(
        fields()
            .push(text("title"@, p.front_matter.title))
            .push(text("slug"@, p.slug))
            .push(text("url"@, post_url(p.slug)))
            .push(text("date"@, shown_date(p.front_matter.date, s.post_date_format)))
            .push(text("date_short"@, shown_date(p.front_matter.date, s.archive_date_format)))
            .push(text("date_iso"@, p.front_matter.date))
            .push(number("reading_time"@, reading_minutes(p.content, s.reading_speed) as int)),
    )
}

/// The smaller of two numbers.
pub open spec fn at_most(limit: nat, n: nat) -> nat {
    if limit < n {
        limit
    } else {
        n
    }
}

/// The first documents, up to `limit` of them, each as in the list
/// `recent_posts`.
pub open spec fn recent_list_tree(s: Settings, posts: Seq<PostView>, limit: nat) -> Tree {
    Tree::List(Seq::new(at_most(limit, posts.len()), |k: int| recent_entry_tree(s, posts[k])))
}

/// The list `recent_posts`: the first documents, up to the configured
/// limit.
pub open spec fn recent_posts_tree(s: Settings, posts: Seq<PostView>) -> Tree {
    recent_list_tree(s, posts, s.recent_posts_limit)
}

/// The words of all documents together.
pub open spec fn total_words(posts: Seq<PostView>) -> nat
    decreases posts.len(),
{
    if posts.len() == 0 {
        0
    } else {
        total_words(posts.drop_last()) + word_count(posts.last().content)
    }
}

/// A number as pages can hold it: at most the largest 64-bit number.
pub open spec fn capped(n: nat) -> int {
    if n > u64::MAX {
        u64::MAX as int
    } else {
        n as int
    }
}

/// The object `stats`: the numbers of documents, of their words and of
/// their categories, and the day of the build.
pub open spec fn stats_tree(posts: Seq<PostView>, today: Seq<char>) -> Tree {
    Tree::Object(
        fields()
            .push(number("total_posts"@, posts.len() as int))
            .push(number("total_words"@, capped(total_words(posts))))
            .push(number("total_categories"@, buckets_of(categories_of(posts)).len() as int))
            .push(text("last_updated"@, today)),
    )
}

/// A document in a list of documents.
pub open spec fn summary_tree(s: Settings, p: PostView) -> Tree {
    Tree::Object(
        fields()
            .push(text("title"@, p.front_matter.title))
            .push(text("slug"@, p.slug))
            .push(text("url"@, post_url(p.slug)))
            .push(text("date"@, shown_date(p.front_matter.date, s.post_date_format)))
            .push(text("date_raw"@, p.front_matter.date))
            .push(text("date_formatted"@, shown_date(p.front_matter.date, s.post_date_format)))
            .push(text("date_short"@, shown_date(p.front_matter.date, s.archive_date_format)))
            .push(text("date_iso"@, p.front_matter.date))
            .push(text("author"@, p.author_or(s.author)))
            .push(field("tags"@, text_list(p.front_matter.tag_list())))
            .push(field("categories"@, text_list(p.front_matter.category_list())))
            .push(text("description"@, p.summary()))
            .push(
                text(
                    "excerpt"@,
                    markdown_html(excerpt_source(p.content, s.excerpt_separator, s.excerpt_length)),
                ),
            )
            .push(number("reading_time"@, reading_minutes(p.content, s.reading_speed) as int))
            .push(flag("featured"@, p.front_matter.featured == Some(true)))
            .push(text("permalink"@, permalink(s.base_url, p.slug))),
    )
}

/// The list of the documents `order`, each as in a list of documents.
pub open spec fn summaries_tree(s: Settings, posts: Seq<PostView>, order: Seq<int>) -> Tree {
    Tree::List(Seq::new(order.len(), |k: int| summary_tree(s, posts[order[k]])))
}

/// The documents that a list shows of `order`: all of them, or the first
/// `limit` where there are more and the limit is not zero.
pub open spec fn listed(order: Seq<int>, limit: nat) -> Seq<int> {
    if limit > 0 && order.len() > limit {
        order.take(limit as int)
    } else {
        order
    }
}

/// The object `post` of a document's own page.
pub open spec fn post_tree(s: Settings, p: PostView) -> Tree {
    Tree::Object(
        fields()
            .push(text("title"@, p.front_matter.title))
            .push(text("content"@, p.html_content))
            .push(text("date"@, shown_date(p.front_matter.date, s.post_date_format)))
            .push(text("date_raw"@, p.front_matter.date))
            .push(text("date_formatted"@, shown_date(p.front_matter.date, s.post_date_format)))
            .push(text("date_short"@, shown_date(p.front_matter.date, s.archive_date_format)))
            .push(text("date_iso"@, p.front_matter.date))
            .push(text("author"@, p.author_or(s.author)))
            .push(field("tags"@, text_list(p.front_matter.tag_list())))
            .push(field("categories"@, text_list(p.front_matter.category_list())))
            .push(text("description"@, p.summary()))
            .push(text("slug"@, p.slug))
            .push(number("reading_time"@, reading_minutes(p.content, s.reading_speed) as int))
            .push(number("word_count"@, word_count(p.content) as int)),
    )
}

/// A document in the archive.
pub open spec fn archive_entry_tree(s: Settings, p: PostView) -> Tree {
    Tree::Object(
        fields()
            .push(text("title"@, p.front_matter.title))
            .push(text("url"@, post_url(p.slug)))
            .push(text("date"@, shown_date(p.front_matter.date, s.archive_date_format)))
            .push(text("date_iso"@, p.front_matter.date))
            .push(field("tags"@, text_list(p.front_matter.tag_list()))),
    )
}

/// An optional text: the text, or nothing.
pub open spec fn optional_text_tree(value: Option<Seq<char>>) -> Tree {
    match value {
        Some(t) => Tree::Text(t),
        None => Tree::Null,
    }
}

/// An optional list of texts: the list, or nothing.
pub open spec fn optional_list_tree(value: Option<Seq<Seq<char>>>) -> Tree {
    match value {
        Some(l) => text_list(l),
        None => Tree::Null,
    }
}

/// An optional flag: the flag, or nothing.
pub open spec fn optional_flag_tree(value: Option<bool>) -> Tree {
    match value {
        Some(b) => Tree::Flag(b),
        None => Tree::Null,
    }
}

/// A document with all that is kept of it.
pub open spec fn stored_post_tree(p: PostView) -> Tree {
    Tree::Object(
        fields()
            .push(
                field(
                    "front_matter"@,
                    Tree::Object(
                        fields()
                            .push(text("title"@, p.front_matter.title))
                            .push(text("date"@, p.front_matter.date))
                            .push(field("author"@, optional_text_tree(p.front_matter.author)))
                            .push(field("tags"@, optional_list_tree(p.front_matter.tags)))
                            .push(field("categories"@, optional_list_tree(p.front_matter.categories)))
                            .push(
                                field(
                                    "description"@,
                                    optional_text_tree(p.front_matter.description),
                                ),
                            )
                            .push(field("draft"@, optional_flag_tree(p.front_matter.draft)))
                            .push(field("featured"@, optional_flag_tree(p.front_matter.featured))),
                    ),
                ),
            )
            .push(text("content"@, p.content))
            .push(text("html_content"@, p.html_content))
            .push(text("slug"@, p.slug))
            .push(text("file_path"@, p.file_path)),
    )
}

/// The list of the documents `order`, each with all that is kept of it.
pub open spec fn stored_posts_tree(posts: Seq<PostView>, order: Seq<int>) -> Tree {
    Tree::List(Seq::new(order.len(), |k: int| stored_post_tree(posts[order[k]])))
}

/// A year of the archive: the year and its documents, month after month.
pub open spec fn archive_year_tree(s: Settings, posts: Seq<PostView>, year: YearView) -> Tree {
    let order = year_posts(year.months);
    Tree::Object(
        fields().push(text("year"@, year.year)).push(
            field(
                "posts"@,
                Tree::List(Seq::new(order.len(), |k: int| archive_entry_tree(s, posts[order[k]]))),
            ),
        ),
    )
}

/// The list `posts_by_year`: the years of the archive.
pub open spec fn posts_by_year_tree(s: Settings, posts: Seq<PostView>) -> Tree {
    let years = archive_of(dates_of(posts));
    Tree::List(Seq::new(years.len(), |y: int| archive_year_tree(s, posts, years[y])))
}

/// The months of a year, each with its documents.
pub open spec fn months_tree(posts: Seq<PostView>, months: Seq<BucketView>) -> Tree {
    Tree::Object(
        Seq::new(
            months.len(),
            |m: int| field(months[m].name, stored_posts_tree(posts, months[m].posts)),
        ),
    )
}

/// The object `posts_by_date`: for each year its months, for each month
/// its documents.
pub open spec fn posts_by_date_tree(posts: Seq<PostView>) -> Tree {
    let years = archive_of(dates_of(posts));
    Tree::Object(
        Seq::new(years.len(), |y: int| field(years[y].year, months_tree(posts, years[y].months))),
    )
}

/// The characters of each string.
pub fn chars_of_all(v: &Vec<String>) -> (r: Vec<Vec<char>>)
    ensures
        texts(r@) == strings(v@),
{
    let mut out: Vec<Vec<char>> = Vec::new();
    let mut i: usize = 0;
    while i < v.len()
        invariant
            i <= v@.len(),
            out@.len() == i,
            forall|k: int| 0 <= k < i ==> (#[trigger] out@[k])@ == v@[k]@,
        decreases v@.len() - i,
    {
        out.push(to_chars(v[i].as_str()));
        i += 1;
    }
    assert(texts(out@) =~= strings(v@));
    out
}

/// The labels of an optional list.
fn labels_of(list: &Option<Vec<String>>) -> (r: Vec<Vec<char>>)
    ensures
        texts(r@) == match list {
            Some(v) => strings(v@),
            None => Seq::empty(),
        },
{
    match list {
        Some(v) => chars_of_all(v),
        None => {
            let out: Vec<Vec<char>> = Vec::new();
            assert(texts(out@) =~= Seq::<Seq<char>>::empty());
            out
        },
    }
}

/// The tags of each document.
pub fn tag_labels(posts: &Vec<Post>) -> (r: Vec<Vec<Vec<char>>>)
    ensures
        label_sets(r@) == tags_of(post_views(posts@)),
{
    let mut out: Vec<Vec<Vec<char>>> = Vec::new();
    let mut i: usize = 0;
    while i < posts.len()
        invariant
            i <= posts@.len(),
            out@.len() == i,
            forall|k: int|
                0 <= k < i ==> texts((#[trigger] out@[k])@) == posts@[k]@.front_matter.tag_list(),
        decreases posts@.len() - i,
    {
        out.push(labels_of(&posts[i].front_matter.tags));
        i += 1;
    }
    assert(label_sets(out@) =~= tags_of(post_views(posts@)));
    out
}

/// The categories of each document.
pub fn category_labels(posts: &Vec<Post>) -> (r: Vec<Vec<Vec<char>>>)
    ensures
        label_sets(r@) == categories_of(post_views(posts@)),
{
    let mut out: Vec<Vec<Vec<char>>> = Vec::new();
    let mut i: usize = 0;
    while i < posts.len()
        invariant
            i <= posts@.len(),
            out@.len() == i,
            forall|k: int|
                0 <= k < i ==> texts((#[trigger] out@[k])@)
                    == posts@[k]@.front_matter.category_list(),
        decreases posts@.len() - i,
    {
        out.push(labels_of(&posts[i].front_matter.categories));
        i += 1;
    }
    assert(label_sets(out@) =~= categories_of(post_views(posts@)));
    out
}

/// The date of each document.
pub fn post_dates(posts: &Vec<Post>) -> (r: Vec<Vec<char>>)
    ensures
        texts(r@) == dates_of(post_views(posts@)),
{
    let mut out: Vec<Vec<char>> = Vec::new();
    let mut i: usize = 0;
    while i < posts.len()
        invariant
            i <= posts@.len(),
            out@.len() == i,
            forall|k: int| 0 <= k < i ==> (#[trigger] out@[k])@ == posts@[k]@.front_matter.date,
        decreases posts@.len() - i,
    {
        out.push(to_chars(posts[i].front_matter.date.as_str()));
        i += 1;
    }
    assert(texts(out@) =~= dates_of(post_views(posts@)));
    out
}

/// The indices `0`, `1`, ... below `n`.
pub fn leading_indices(n: usize) -> (r: Vec<usize>)
    ensures
        indices(r@) == leading(n as nat),
        forall|k: int| 0 <= k < r@.len() ==> #[trigger] r@[k] < n,
{
    let mut out: Vec<usize> = Vec::new();
    let mut i: usize = 0;
    while i < n
        invariant
            i <= n,
            out@.len() == i,
            forall|k: int| 0 <= k < i ==> #[trigger] out@[k] == k,
        decreases n - i,
    {
        out.push(i);
        i += 1;
    }
    assert(indices(out@) =~= leading(n as nat));
    out
}

/// A tag in a list of tags.
pub fn tag_entry(bucket: &Bucket) -> (r: Data)
    ensures
        r@ == tag_entry_tree(bucket@),
{
    let mut o = ObjectBuilder::new();
    o.text("name", bucket.name.as_str());
    o.field("count", Data::count(bucket.posts.len()));
    o.text("slug", slugify(bucket.name.as_str()).as_str());
    o.finish()
}

/// A category in the list of categories.
pub fn category_entry(bucket: &Bucket) -> (r: Data)
    ensures
        r@ == category_entry_tree(bucket@),
{
    let mut o = ObjectBuilder::new();
    o.text("name", bucket.name.as_str());
    o.field("count", Data::count(bucket.posts.len()));
    o.text("slug", slugify(bucket.name.as_str()).as_str());
    o.field("has_children", Data::Flag(false));
    o.field("is_expanded", Data::Flag(false));
    o.field("posts_count", Data::count(bucket.posts.len()));
    o.finish()
}

/// The list `popular_tags`.
pub fn popular_tags(config: &Config, posts: &Vec<Post>) -> (r: Data)
    ensures
        r@ == popular_tags_tree(config@, post_views(posts@)),
{
    let labels = tag_labels(posts);
    let buckets = group(&labels);
    let order = rank_buckets(&buckets, config.get_min_tag_count(), config.get_max_tags_in_cloud());
    let ghost views = buckets_of(tags_of(post_views(posts@)));
    let ghost ranks = popular(views, config@.min_tag_count, config@.max_tags_in_cloud);
    let mut list = ListBuilder::new();
    let mut k: usize = 0;
    while k < order.len()
        invariant
            k <= order@.len(),
            bucket_views(buckets@) == views,
            indices(order@) == ranks,
            forall|l: int| 0 <= l < order@.len() ==> #[trigger] order@[l] < buckets@.len(),
            list@ == Seq::new(k as nat, |l: int| tag_entry_tree(views[ranks[l]])),
        decreases order@.len() - k,
    {
        let b = order[k];
        assert(ranks[k as int] == b);
        assert(views[b as int] == buckets@[b as int]@);
        list.push(tag_entry(&buckets[b]));
        assert(list@ =~= Seq::new((k + 1) as nat, |l: int| tag_entry_tree(views[ranks[l]])));
        k += 1;
    }
    assert(list@ =~= Seq::new(ranks.len(), |l: int| tag_entry_tree(views[ranks[l]])));
    list.finish()
}

/// The list of all groups of `buckets` as tags.
pub fn all_tags(buckets: &Vec<Bucket>) -> (r: Data)
    ensures
        r@ == Tree::List(
            Seq::new(buckets@.len(), |k: int| tag_entry_tree(bucket_views(buckets@)[k])),
        ),
{
    let ghost views = bucket_views(buckets@);
    let mut list = ListBuilder::new();
    let mut k: usize = 0;
    while k < buckets.len()
        invariant
            k <= buckets@.len(),
            views == bucket_views(buckets@),
            list@ == Seq::new(k as nat, |l: int| tag_entry_tree(views[l])),
        decreases buckets@.len() - k,
    {
        list.push(tag_entry(&buckets[k]));
        assert(list@ =~= Seq::new((k + 1) as nat, |l: int| tag_entry_tree(views[l])));
        k += 1;
    }
    assert(list@ =~= Seq::new(buckets@.len(), |l: int| tag_entry_tree(views[l])));
    list.finish()
}

/// The list `categories`.
pub fn categories(posts: &Vec<Post>) -> (r: Data)
    ensures
        r@ == categories_tree(post_views(posts@)),
{
    let labels = category_labels(posts);
    let buckets = group(&labels);
    let ghost views = buckets_of(categories_of(post_views(posts@)));
    let mut list = ListBuilder::new();
    let mut k: usize = 0;
    while k < buckets.len()
        invariant
            k <= buckets@.len(),
            views == bucket_views(buckets@),
            list@ == Seq::new(k as nat, |l: int| category_entry_tree(views[l])),
        decreases buckets@.len() - k,
    {
        list.push(category_entry(&buckets[k]));
        assert(list@ =~= Seq::new((k + 1) as nat, |l: int| category_entry_tree(views[l])));
        k += 1;
    }
    assert(list@ =~= Seq::new(views.len(), |l: int| category_entry_tree(views[l])));
    list.finish()
}

/// The author of a document, or the site's where it names none.
fn author_of<'a>(config: &'a Config, post: &'a Post) -> (r: &'a str)
    ensures
        r@ == post@.author_or(config@.author),
{
    match &post.front_matter.author {
        Some(a) => a.as_str(),
        None => config.site.author.as_str(),
    }
}

/// The description of a document, or its title where it gives none.
fn summary_of(post: &Post) -> (r: &str)
    ensures
        r@ == post@.summary(),
{
    match &post.front_matter.description {
        Some(d) => d.as_str(),
        None => post.front_matter.title.as_str(),
    }
}

/// An optional list of texts as a list, empty where it is absent.
fn list_or_empty(list: &Option<Vec<String>>) -> (r: Data)
    ensures
        r@ == text_list(
            match list {
                Some(v) => strings(v@),
                None => Seq::empty(),
            },
        ),
{
    match list {
        Some(v) => Data::texts(v),
        None => {
            let empty: Vec<String> = Vec::new();
            assert(strings(empty@) =~= Seq::<Seq<char>>::empty());
            Data::texts(&empty)
        },
    }
}

/// A document in the list `recent_posts`.
pub fn recent_entry(config: &Config, post: &Post) -> (r: Data)
    requires
        config.well_formed(),
    ensures
        r@ == recent_entry_tree(config@, post@),
{
    let date = post.front_matter.date.as_str();
    let mut o = ObjectBuilder::new();
    o.text("title", post.front_matter.title.as_str());
    o.text("slug", post.slug.as_str());
    o.text("url", concat("/posts/", post.slug.as_str()).as_str());
    o.text("date", format_date(date, config.get_post_date_format()).as_str());
    o.text("date_short", format_date(date, config.get_archive_date_format()).as_str());
    o.text("date_iso", date);
    o.field(
        "reading_time",
        Data::count(reading_time(post.content.as_str(), config.get_reading_speed())),
    );
    o.finish()
}

/// The first documents, up to `limit` of them, each as in the list
/// `recent_posts`.
pub fn recent_posts(config: &Config, posts: &Vec<Post>, limit: usize) -> (r: Data)
    requires
        config.well_formed(),
    ensures
        r@ == recent_list_tree(config@, post_views(posts@), limit as nat),
{
    let n = if limit < posts.len() {
        limit
    } else {
        posts.len()
    };
    let ghost views = post_views(posts@);
    let mut list = ListBuilder::new();
    let mut k: usize = 0;
    while k < n
        invariant
            k <= n <= posts@.len(),
            config.well_formed(),
            views == post_views(posts@),
            list@ == Seq::new(k as nat, |l: int| recent_entry_tree(config@, views[l])),
        decreases n - k,
    {
        list.push(recent_entry(config, &posts[k]));
        assert(list@ =~= Seq::new((k + 1) as nat, |l: int| recent_entry_tree(config@, views[l])));
        k += 1;
    }
    list.finish()
}

/// The words of all documents together, at most the largest 64-bit number.
pub fn count_all_words(posts: &Vec<Post>) -> (n: u64)
    ensures
        n == capped(total_words(post_views(posts@))),
{
    let ghost views = post_views(posts@);
    let mut total: u64 = 0;
    let mut i: usize = 0;
    assert(views.take(0) =~= Seq::<PostView>::empty());
    while i < posts.len()
        invariant
            i <= posts@.len(),
            views == post_views(posts@),
            total == capped(total_words(views.take(i as int))),
        decreases posts@.len() - i,
    {
        let words = count_body_words(posts[i].content.as_str()) as u64;
        proof {
            assert(views.take(i + 1).drop_last() =~= views.take(i as int));
            assert(views.take(i + 1).last() == posts@[i as int]@);
        }
        total = if u64::MAX - total < words {
            u64::MAX
        } else {
            total + words
        };
        i += 1;
    }
    assert(views.take(posts@.len() as int) =~= views);
    total
}

/// The object `stats`.
pub fn site_stats(posts: &Vec<Post>, clock: &Clock) -> (r: Data)
    ensures
        r@ == stats_tree(post_views(posts@), clock@.today),
{
    let labels = category_labels(posts);
    let buckets = group(&labels);
    let mut o = ObjectBuilder::new();
    o.field("total_posts", Data::count(posts.len()));
    o.field("total_words", Data::Count(count_all_words(posts)));
    o.field("total_categories", Data::count(buckets.len()));
    o.text("last_updated", clock.today.as_str());
    assert(bucket_views(buckets@).len() == buckets@.len());
    assert(post_views(posts@).len() == posts@.len());
    o.finish()
}

/// A document in a list of documents.
pub fn post_summary(config: &Config, post: &Post) -> (r: Data)
    requires
        config.well_formed(),
    ensures
        r@ == summary_tree(config@, post@),
{
    let date = post.front_matter.date.as_str();
    let shown = format_date(date, config.get_post_date_format());
    let short = format_date(date, config.get_archive_date_format());
    let mut link = concat(config.site.base_url.as_str(), "/posts/");
    link.append(post.slug.as_str());
    let featured = match post.front_matter.featured {
        Some(b) => b,
        None => false,
    };
    let mut o = ObjectBuilder::new();
    o.text("title", post.front_matter.title.as_str());
    o.text("slug", post.slug.as_str());
    o.text("url", concat("/posts/", post.slug.as_str()).as_str());
    o.text("date", shown.as_str());
    o.text("date_raw", date);
    o.text("date_formatted", shown.as_str());
    o.text("date_short", short.as_str());
    o.text("date_iso", date);
    o.text("author", author_of(config, post));
    o.field("tags", list_or_empty(&post.front_matter.tags));
    o.field("categories", list_or_empty(&post.front_matter.categories));
    o.text("description", summary_of(post));
    o.text(
        "excerpt",
        excerpt(
            post.content.as_str(),
            config.get_excerpt_separator(),
            config.get_excerpt_length(),
        ).as_str(),
    );
    o.field(
        "reading_time",
        Data::count(reading_time(post.content.as_str(), config.get_reading_speed())),
    );
    o.field("featured", Data::Flag(featured));
    o.text("permalink", link.as_str());
    o.finish()
}

/// The documents that a list shows of `order`.
pub fn limited(order: &Vec<usize>, limit: usize) -> (r: Vec<usize>)
    ensures
        indices(r@) == listed(indices(order@), limit as nat),
        r@.len() <= order@.len(),
        forall|k: int| 0 <= k < r@.len() ==> #[trigger] r@[k] == order@[k],
{
    let n = if limit > 0 && order.len() > limit {
        limit
    } else {
        order.len()
    };
    let mut out: Vec<usize> = Vec::new();
    let mut k: usize = 0;
    while k < n
        invariant
            k <= n <= order@.len(),
            out@.len() == k,
            forall|l: int| 0 <= l < k ==> #[trigger] out@[l] == order@[l],
        decreases n - k,
    {
        out.push(order[k]);
        k += 1;
    }
    assert(indices(out@) =~= listed(indices(order@), limit as nat));
    out
}

/// The list of the documents `order`, each as in a list of documents.
pub fn summaries(config: &Config, posts: &Vec<Post>, order: &Vec<usize>) -> (r: Data)
    requires
        config.well_formed(),
        forall|k: int| 0 <= k < order@.len() ==> #[trigger] order@[k] < posts@.len(),
    ensures
        r@ == summaries_tree(config@, post_views(posts@), indices(order@)),
{
    let ghost views = post_views(posts@);
    let ghost picks = indices(order@);
    let mut list = ListBuilder::new();
    let mut k: usize = 0;
    while k < order.len()
        invariant
            k <= order@.len(),
            config.well_formed(),
            views == post_views(posts@),
            picks == indices(order@),
            forall|l: int| 0 <= l < order@.len() ==> #[trigger] order@[l] < posts@.len(),
            list@ == Seq::new(k as nat, |l: int| summary_tree(config@, views[picks[l]])),
        decreases order@.len() - k,
    {
        let i = order[k];
        assert(picks[k as int] == i);
        list.push(post_summary(config, &posts[i]));
        assert(list@ =~= Seq::new(
            (k + 1) as nat,
            |l: int| summary_tree(config@, views[picks[l]]),
        ));
        k += 1;
    }
    assert(list@ =~= Seq::new(picks.len(), |l: int| summary_tree(config@, views[picks[l]])));
    list.finish()
}

/// The object `post` of a document's own page.
pub fn post_details(config: &Config, post: &Post) -> (r: Data)
    requires
        config.well_formed(),
    ensures
        r@ == post_tree(config@, post@),
{
    let date = post.front_matter.date.as_str();
    let shown = format_date(date, config.get_post_date_format());
    let short = format_date(date, config.get_archive_date_format());
    let mut o = ObjectBuilder::new();
    o.text("title", post.front_matter.title.as_str());
    o.text("content", post.html_content.as_str());
    o.text("date", shown.as_str());
    o.text("date_raw", date);
    o.text("date_formatted", shown.as_str());
    o.text("date_short", short.as_str());
    o.text("date_iso", date);
    o.text("author", author_of(config, post));
    o.field("tags", list_or_empty(&post.front_matter.tags));
    o.field("categories", list_or_empty(&post.front_matter.categories));
    o.text("description", summary_of(post));
    o.text("slug", post.slug.as_str());
    o.field(
        "reading_time",
        Data::count(reading_time(post.content.as_str(), config.get_reading_speed())),
    );
    o.field("word_count", Data::count(count_body_words(post.content.as_str())));
    o.finish()
}

/// A document in the archive.
pub fn archive_entry(config: &Config, post: &Post) -> (r: Data)
    ensures
        r@ == archive_entry_tree(config@, post@),
{
    let date = post.front_matter.date.as_str();
    let mut o = ObjectBuilder::new();
    o.text("title", post.front_matter.title.as_str());
    o.text("url", concat("/posts/", post.slug.as_str()).as_str());
    o.text("date", format_date(date, config.get_archive_date_format()).as_str());
    o.text("date_iso", date);
    o.field("tags", list_or_empty(&post.front_matter.tags));
    o.finish()
}

/// An optional text.
fn optional_text(value: &Option<String>) -> (r: Data)
    ensures
        r@ == optional_text_tree(crate::content::optional_text(*value)),
{
    match value {
        Some(t) => Data::text(t.as_str()),
        None => Data::Null,
    }
}

/// An optional list of texts.
fn optional_list(value: &Option<Vec<String>>) -> (r: Data)
    ensures
        r@ == optional_list_tree(crate::content::optional_texts(*value)),
{
    match value {
        Some(l) => Data::texts(l),
        None => Data::Null,
    }
}

/// An optional flag.
fn optional_flag(value: Option<bool>) -> (r: Data)
    ensures
        r@ == optional_flag_tree(value),
{
    match value {
        Some(b) => Data::Flag(b),
        None => Data::Null,
    }
}

/// A document with all that is kept of it.
pub fn stored_post(post: &Post) -> (r: Data)
    ensures
        r@ == stored_post_tree(post@),
{
    let mut f = ObjectBuilder::new();
    f.text("title", post.front_matter.title.as_str());
    f.text("date", post.front_matter.date.as_str());
    f.field("author", optional_text(&post.front_matter.author));
    f.field("tags", optional_list(&post.front_matter.tags));
    f.field("categories", optional_list(&post.front_matter.categories));
    f.field("description", optional_text(&post.front_matter.description));
    f.field("draft", optional_flag(post.front_matter.draft));
    f.field("featured", optional_flag(post.front_matter.featured));
    let mut o = ObjectBuilder::new();
    o.field("front_matter", f.finish());
    o.text("content", post.content.as_str());
    o.text("html_content", post.html_content.as_str());
    o.text("slug", post.slug.as_str());
    o.text("file_path", post.file_path.as_str());
    o.finish()
}

/// The list of the documents `order`, each with all that is kept of it.
pub fn stored_posts(posts: &Vec<Post>, order: &Vec<usize>) -> (r: Data)
    requires
        forall|k: int| 0 <= k < order@.len() ==> #[trigger] order@[k] < posts@.len(),
    ensures
        r@ == stored_posts_tree(post_views(posts@), indices(order@)),
{
    let ghost views = post_views(posts@);
    let ghost picks = indices(order@);
    let mut list = ListBuilder::new();
    let mut k: usize = 0;
    while k < order.len()
        invariant
            k <= order@.len(),
            views == post_views(posts@),
            picks == indices(order@),
            forall|l: int| 0 <= l < order@.len() ==> #[trigger] order@[l] < posts@.len(),
            list@ == Seq::new(k as nat, |l: int| stored_post_tree(views[picks[l]])),
        decreases order@.len() - k,
    {
        let i = order[k];
        assert(picks[k as int] == i);
        list.push(stored_post(&posts[i]));
        assert(list@ =~= Seq::new((k + 1) as nat, |l: int| stored_post_tree(views[picks[l]])));
        k += 1;
    }
    assert(list@ =~= Seq::new(picks.len(), |l: int| stored_post_tree(views[picks[l]])));
    list.finish()
}

/// The documents of a year, month after month.
pub fn flatten_year(months: &Vec<Bucket>) -> (r: Vec<usize>)
    ensures
        indices(r@) == year_posts(bucket_views(months@)),
{
    let ghost views = bucket_views(months@);
    let mut out: Vec<usize> = Vec::new();
    let mut m: usize = 0;
    assert(indices(out@) =~= Seq::<int>::empty());
    assert(views.take(0) =~= Seq::<BucketView>::empty());
    while m < months.len()
        invariant
            m <= months@.len(),
            views == bucket_views(months@),
            indices(out@) == year_posts(views.take(m as int)),
        decreases months@.len() - m,
    {
        let ghost before = indices(out@);
        let list = &months[m].posts;
        let mut l: usize = 0;
        assert(before + indices(list@).take(0) =~= before);
        while l < list.len()
            invariant
                l <= list@.len(),
                indices(out@) == before + indices(list@).take(l as int),
            decreases list@.len() - l,
        {
            let ghost old_out = indices(out@);
            out.push(list[l]);
            assert(indices(out@) =~= old_out.push(list@[l as int] as int));
            assert(before + indices(list@).take(l + 1) =~= (before + indices(list@).take(
                l as int,
            )).push(list@[l as int] as int));
            l += 1;
        }
        proof {
            assert(indices(list@).take(list@.len() as int) =~= indices(list@));
            assert(views.take(m + 1).drop_last() =~= views.take(m as int));
            assert(views.take(m + 1).last().posts == indices(list@));
        }
        m += 1;
    }
    assert(views.take(months@.len() as int) =~= views);
    out
}

/// A year of the archive.
pub fn archive_year(config: &Config, posts: &Vec<Post>, year: &ArchiveYear) -> (r: Data)
    requires
        within(year@.months, posts@.len() as int),
    ensures
        r@ == archive_year_tree(config@, post_views(posts@), year@),
{
    let order = flatten_year(&year.months);
    let ghost views = post_views(posts@);
    let ghost picks = year_posts(year@.months);
    proof {
        lemma_year_posts_within(year@.months, posts@.len() as int);
    }
    let mut list = ListBuilder::new();
    let mut k: usize = 0;
    while k < order.len()
        invariant
            k <= order@.len(),
            views == post_views(posts@),
            picks == indices(order@),
            forall|l: int| 0 <= l < picks.len() ==> 0 <= #[trigger] picks[l] < posts@.len(),
            list@ == Seq::new(k as nat, |l: int| archive_entry_tree(config@, views[picks[l]])),
        decreases order@.len() - k,
    {
        let i = order[k];
        assert(picks[k as int] == i);
        list.push(archive_entry(config, &posts[i]));
        assert(list@ =~= Seq::new(
            (k + 1) as nat,
            |l: int| archive_entry_tree(config@, views[picks[l]]),
        ));
        k += 1;
    }
    assert(list@ =~= Seq::new(picks.len(), |l: int| archive_entry_tree(config@, views[picks[l]])));
    let mut o = ObjectBuilder::new();
    o.text("year", year.year.as_str());
    o.field("posts", list.finish());
    o.finish()
}

/// The list `posts_by_year`, made of the archive `years` of `posts`.
pub fn posts_by_year(config: &Config, posts: &Vec<Post>, years: &Vec<ArchiveYear>) -> (r: Data)
    requires
        year_views(years@) == archive_of(dates_of(post_views(posts@))),
    ensures
        r@ == posts_by_year_tree(config@, post_views(posts@)),
{
    let ghost views = post_views(posts@);
    let ghost all = archive_of(dates_of(views));
    proof {
        lemma_archive_within(dates_of(views));
    }
    let mut list = ListBuilder::new();
    let mut y: usize = 0;
    while y < years.len()
        invariant
            y <= years@.len(),
            views == post_views(posts@),
            all == archive_of(dates_of(views)),
            year_views(years@) == all,
            forall|z: int|
                0 <= z < all.len() ==> within((#[trigger] all[z]).months, dates_of(views).len() as int),
            list@ == Seq::new(y as nat, |z: int| archive_year_tree(config@, views, all[z])),
        decreases years@.len() - y,
    {
        assert(all[y as int] == years@[y as int]@);
        list.push(archive_year(config, posts, &years[y]));
        assert(list@ =~= Seq::new((y + 1) as nat, |z: int| archive_year_tree(config@, views, all[z])));
        y += 1;
    }
    assert(list@ =~= Seq::new(all.len(), |z: int| archive_year_tree(config@, views, all[z])));
    list.finish()
}

/// The months of a year, each with its documents.
pub fn months_of_year(posts: &Vec<Post>, months: &Vec<Bucket>) -> (r: Data)
    requires
        within(bucket_views(months@), posts@.len() as int),
    ensures
        r@ == months_tree(post_views(posts@), bucket_views(months@)),
{
    let ghost views = post_views(posts@);
    let ghost all = bucket_views(months@);
    let mut o = ObjectBuilder::new();
    let mut m: usize = 0;
    while m < months.len()
        invariant
            m <= months@.len(),
            views == post_views(posts@),
            all == bucket_views(months@),
            within(all, posts@.len() as int),
            o@ == Seq::new(m as nat, |l: int| field(all[l].name, stored_posts_tree(views, all[l].posts))),
        decreases months@.len() - m,
    {
        let bucket = &months[m];
        assert(all[m as int] == bucket@);
        assert forall|k: int| 0 <= k < bucket.posts@.len() implies #[trigger] bucket.posts@[k]
            < posts@.len() by {
            assert(all[m as int].posts[k] == bucket.posts@[k]);
        }
        o.field(bucket.name.as_str(), stored_posts(posts, &bucket.posts));
        assert(o@ =~= Seq::new(
            (m + 1) as nat,
            |l: int| field(all[l].name, stored_posts_tree(views, all[l].posts)),
        ));
        m += 1;
    }
    assert(o@ =~= Seq::new(
        all.len(),
        |l: int| field(all[l].name, stored_posts_tree(views, all[l].posts)),
    ));
    o.finish()
}

/// The object `posts_by_date`, made of the archive `years` of `posts`.
pub fn posts_by_date(posts: &Vec<Post>, years: &Vec<ArchiveYear>) -> (r: Data)
    requires
        year_views(years@) == archive_of(dates_of(post_views(posts@))),
    ensures
        r@ == posts_by_date_tree(post_views(posts@)),
{
    let ghost views = post_views(posts@);
    let ghost all = archive_of(dates_of(views));
    proof {
        lemma_archive_within(dates_of(views));
    }
    let mut o = ObjectBuilder::new();
    let mut y: usize = 0;
    while y < years.len()
        invariant
            y <= years@.len(),
            views == post_views(posts@),
            all == archive_of(dates_of(views)),
            year_views(years@) == all,
            forall|z: int|
                0 <= z < all.len() ==> within((#[trigger] all[z]).months, dates_of(views).len() as int),
            o@ == Seq::new(y as nat, |z: int| field(all[z].year, months_tree(views, all[z].months))),
        decreases years@.len() - y,
    {
        assert(all[y as int] == years@[y as int]@);
        o.field(years[y].year.as_str(), months_of_year(posts, &years[y].months));
        assert(o@ =~= Seq::new(
            (y + 1) as nat,
            |z: int| field(all[z].year, months_tree(views, all[z].months)),
        ));
        y += 1;
    }
    assert(o@ =~= Seq::new(all.len(), |z: int| field(all[z].year, months_tree(views, all[z].months))));
    o.finish()
}

/// The groups by tag, and with them the popular tags, depend on the tags
/// of the loaded documents and on nothing else of them: whether a loaded
/// document is a draft changes no count.
pub proof fn lemma_tags_alone_count(s: Settings, a: Seq<PostView>, b: Seq<PostView>)
    requires
        a.len() == b.len(),
        forall|i: int|
            0 <= i < a.len() ==> (#[trigger] a[i]).front_matter.tags == (
            #[trigger] b[i]).front_matter.tags,
    ensures
        buckets_of(tags_of(a)) == buckets_of(tags_of(b)),
        popular_tags_tree(s, a) == popular_tags_tree(s, b),
{
    assert(tags_of(a) =~= tags_of(b));
}

} // verus!
