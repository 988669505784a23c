//! The site generator: the loaded documents, the templates, and the pages
//! that are made of them.

use crate::config::{Config, Settings};
use crate::content::{markdown_html, post_views, Post, PostView};
use crate::context::{all_tags, at_most, categories, categories_of, categories_tree, category_labels, concat, field, fields, flag, leading, leading_indices, limited, listed, number, page_context, page_tree, permalink, popular_tags, popular_tags_tree, post_dates, post_details, post_tree, post_url, posts_by_date, posts_by_date_tree, posts_by_year, posts_by_year_tree, recent_list_tree, recent_posts, recent_posts_tree, site_context, site_stats, site_tree, stats_tree, summaries, summaries_tree, tag_entry_tree, tag_labels, tags_of, text, Clock, ClockView};
use crate::data::{Data, Entry, ListBuilder, ObjectBuilder, Tree};
use crate::deriver::{
    excerpt, excerpt_source, format_date, reading_minutes, reading_time, shown_date, slug, slugify,
};
use crate::error::ZahuyachError;
use crate::loader::{
    distinct_slugs, duplicate_slug_message, find_repeat, first_repeat, insert_posts, keep, kept,
    lemma_first_repeat_is, lemma_with_posts, lemma_with_posts_distinct, newest_first, repeats_at,
    with_posts,
};
use crate::render::{no_templates, registration, render_outcome, Templates};
use crate::taxonomy::{archive, bucket_views, buckets_of, group, indices, lemma_buckets_within, within, Bucket, BucketView};
use crate::text::{stem_for, stem_with_extension, to_chars};
use vstd::prelude::*;
use vstd::string::StringExecFns;

verus! {

/// A file of the built site: its path below the output directory, with
/// `/` between its parts, and its content.
#[derive(Debug)]
pub struct OutputFile {
    pub path: String,
    pub content: String,
}

/// A file of the built site as a plain value.
pub struct FileView {
    pub path: Seq<char>,
    pub content: Seq<char>,
}

impl View for OutputFile {
    type V = FileView;

    open spec fn view(&self) -> FileView {
        FileView { path: self.path@, content: self.content@ }
    }
}

/// The views of a list of files.
pub open spec fn file_views(files: Seq<OutputFile>) -> Seq<FileView> {
    Seq::new(files.len(), |i: int| files[i]@)
}

/// One file that a build makes, and how.
#[derive(Debug)]
pub enum Job {
    /// The file holds what the template makes of the data. Where the
    /// engine fails, the build fails with `fault` and the engine's words.
    Render { template: String, path: String, data: Data, fault: String },
    /// The file holds the content as it stands.
    Write { path: String, content: String },
}

/// A job as a plain value.
pub enum JobView {
    Render { template: Seq<char>, path: Seq<char>, data: Tree, fault: Seq<char> },
    Write { path: Seq<char>, content: Seq<char> },
}

impl View for Job {
    type V = JobView;

    open spec fn view(&self) -> JobView {
        match self {
            Job::Render { template, path, data, fault } => JobView::Render {
                template: template@,
                path: path@,
                data: data@,
                fault: fault@,
            },
            Job::Write { path, content } => JobView::Write { path: path@, content: content@ },
        }
    }
}

/// The views of a list of jobs.
pub open spec fn job_views(jobs: Seq<Job>) -> Seq<JobView> {
    Seq::new(jobs.len(), |i: int| jobs[i]@)
}

pub proof fn lemma_job_views_add(a: Seq<Job>, b: Seq<Job>)
    ensures
        job_views(a + b) == job_views(a) + job_views(b),
{
    assert(job_views(a + b) =~= job_views(a) + job_views(b));
}

/// The file that a job makes, or the message of the failure.
pub open spec fn job_outcome(templates: Map<Seq<char>, Seq<char>>, job: JobView) -> Result<
    FileView,
    Seq<char>,
> {
    match job {
        JobView::Render { template, path, data, fault } => match render_outcome(
            templates,
            template,
            data,
        ) {
            Ok(content) => Ok(FileView { path, content }),
            Err(words) => Err(fault + words),
        },
        JobView::Write { path, content } => Ok(FileView { path, content }),
    }
}

/// What a run of jobs leaves: the files made, and the message of the
/// failure that ended the run, if one did.
pub struct Outcome {
    pub files: Seq<FileView>,
    pub failure: Option<Seq<char>>,
}

/// The outcome of running the jobs in their order. The first failure ends
/// the run; the files made before it stay.
pub open spec fn run_jobs(templates: Map<Seq<char>, Seq<char>>, jobs: Seq<JobView>) -> Outcome
    decreases jobs.len(),
{
    if jobs.len() == 0 {
        Outcome { files: Seq::empty(), failure: None }
    } else {
        let before = run_jobs(templates, jobs.drop_last());
        if before.failure is Some {
            before
        } else {
            match job_outcome(templates, jobs.last()) {
                Ok(file) => Outcome { files: before.files.push(file), failure: None },
                Err(message) => Outcome { files: before.files, failure: Some(message) },
            }
        }
    }
}

/// A run that has failed after its first `k` jobs has the outcome of
/// those `k` jobs.
pub proof fn lemma_failure_ends_run(
    templates: Map<Seq<char>, Seq<char>>,
    jobs: Seq<JobView>,
    k: int,
)
    requires
        0 <= k <= jobs.len(),
        run_jobs(templates, jobs.take(k)).failure is Some,
    ensures
        run_jobs(templates, jobs) == run_jobs(templates, jobs.take(k)),
    decreases jobs.len() - k,
{
    if k < jobs.len() {
        assert(jobs.take(k + 1).drop_last() =~= jobs.take(k));
        lemma_failure_ends_run(templates, jobs, k + 1);
    } else {
        assert(jobs.take(k) =~= jobs);
    }
}

/// Two runs, one after the other, are one run: the second starts only
/// where the first has not failed.
pub proof fn lemma_run_jobs_add(
    templates: Map<Seq<char>, Seq<char>>,
    a: Seq<JobView>,
    b: Seq<JobView>,
)
    ensures
        run_jobs(templates, a + b) == if run_jobs(templates, a).failure is Some {
            run_jobs(templates, a)
        } else {
            Outcome {
                files: run_jobs(templates, a).files + run_jobs(templates, b).files,
                failure: run_jobs(templates, b).failure,
            }
        },
    decreases b.len(),
{
    if b.len() == 0 {
        assert(a + b =~= a);
        assert(run_jobs(templates, a).files + run_jobs(templates, b).files =~= run_jobs(
            templates,
            a,
        ).files);
    } else {
        assert((a + b).drop_last() =~= a + b.drop_last());
        assert((a + b).last() == b.last());
        lemma_run_jobs_add(templates, a, b.drop_last());
        let first = run_jobs(templates, a);
        let rest = run_jobs(templates, b.drop_last());
        if first.failure is None && rest.failure is None {
            match job_outcome(templates, b.last()) {
                Ok(file) => {
                    assert((first.files + rest.files).push(file) =~= first.files + rest.files.push(
                        file,
                    ));
                },
                Err(_) => {},
            }
        }
    }
}

/// Whether a run with the outcome `outcome` has taken the list of files
/// from `before` to `after` and ended with `result`: the files made are
/// added, and the run fails exactly where the outcome holds a failure,
/// with its message.
pub open spec fn delivered(
    outcome: Outcome,
    before: Seq<OutputFile>,
    after: Seq<OutputFile>,
    result: Result<(), ZahuyachError>,
) -> bool {
    &&& file_views(after) == file_views(before) + outcome.files
    &&& match outcome.failure {
        Some(message) => result is Err && result->Err_0.is_invalid_input(message),
        None => result is Ok,
    }
}

/// What a generator holds, as plain values.
pub struct GeneratorView {
    pub settings: Settings,
    pub posts: Seq<PostView>,
    pub templates: Map<Seq<char>, Seq<char>>,
}

/// The generator of a site.
pub struct SiteGenerator {
    config: Config,
    handlebars: Templates,
    posts: Vec<Post>,
}

impl View for SiteGenerator {
    type V = GeneratorView;

    closed spec fn view(&self) -> GeneratorView {
        GeneratorView {
            settings: self.config@,
            posts: post_views(self.posts@),
            templates: self.handlebars@,
        }
    }
}

impl SiteGenerator {
    /// What holds of every generator: its configuration is one the build
    /// can work with, its documents stand newest first, and no two of them
    /// share a slug.
    pub closed spec fn wf(&self) -> bool {
        &&& self.config.well_formed()
        &&& newest_first(post_views(self.posts@))
        &&& distinct_slugs(post_views(self.posts@))
        &&& self.handlebars.wf()
    }

    /// The configuration that the generator was made with, whole.
    pub closed spec fn configuration(&self) -> Config {
        self.config
    }

    /// What a generator that is as it should be shows of it.
    pub proof fn lemma_wf(&self)
        requires
            self.wf(),
        ensures
            self@.settings.reading_speed >= 1,
            self@.settings == self.configuration()@,
            newest_first(self@.posts),
            distinct_slugs(self@.posts),
            crate::includes::renders(self@.templates),
    {
        self.handlebars.lemma_wf();
    }

    /// A generator without documents and without templates.
    pub fn new(config: Config) -> (r: Result<SiteGenerator, ZahuyachError>)
        requires
            config.well_formed(),
        ensures
            r is Ok,
            r->Ok_0.wf(),
            r->Ok_0.configuration() == config,
            r->Ok_0@.settings == config@,
            r->Ok_0@.posts == Seq::<PostView>::empty(),
            r->Ok_0@.templates == no_templates(),
    {
        let generator = SiteGenerator { config, handlebars: Templates::new(), posts: Vec::new() };
        assert(post_views(generator.posts@) =~= Seq::<PostView>::empty());
        Ok(generator)
    }

    /// The configuration.
    pub fn config(&self) -> (r: &Config)
        ensures
            *r == self.configuration(),
            r@ == self@.settings,
            self.wf() ==> r.well_formed(),
    {
        &self.config
    }

    /// The loaded documents.
    pub fn posts(&self) -> (r: &Vec<Post>)
        ensures
            post_views(r@) == self@.posts,
    {
        &self.posts
    }

    /// Takes documents into the collection. Drafts enter only where the
    /// configuration builds drafts. Each document is put behind those that
    /// are not older, so the collection stays newest first. Where two
    /// documents, at hand or handed in, would share a slug, nothing is
    /// loaded and the first slug that repeats is reported.
    pub fn load_posts(&mut self, candidates: Vec<Post>) -> (r: Result<(), ZahuyachError>)
        requires
            old(self).wf(),
        ensures
            final(self).wf(),
            newest_first(final(self)@.posts),
            distinct_slugs(final(self)@.posts),
            final(self).configuration() == old(self).configuration(),
            final(self)@.settings == old(self)@.settings,
            final(self)@.templates == old(self)@.templates,
            ({
                let more = kept(post_views(candidates@), old(self)@.settings.include_drafts);
                let all = old(self)@.posts + more;
                let at = first_repeat(all, 0);
                if at < all.len() {
                    &&& r is Err
                    &&& r->Err_0.is_invalid_input(duplicate_slug_message(all[at].slug))
                    &&& final(self)@.posts == old(self)@.posts
                } else {
                    &&& r is Ok
                    &&& final(self)@.posts == with_posts(old(self)@.posts, more)
                }
            }),
    {
        let more = keep(candidates, self.config.include_drafts());
        let ghost all = post_views(self.posts@) + post_views(more@);
        let mut slugs: Vec<Vec<char>> = Vec::new();
        let mut i: usize = 0;
        while i < self.posts.len()
            invariant
                i <= self.posts@.len(),
                *self == *old(self),
                all == post_views(self.posts@) + post_views(more@),
                slugs@.len() == i,
                forall|k: int| 0 <= k < i ==> (#[trigger] slugs@[k])@ == all[k].slug,
            decreases self.posts@.len() - i,
        {
            assert(all[i as int] == self.posts@[i as int]@);
            slugs.push(to_chars(self.posts[i].slug.as_str()));
            i += 1;
        }
        let mut j: usize = 0;
        while j < more.len()
            invariant
                j <= more@.len(),
                *self == *old(self),
                all == post_views(self.posts@) + post_views(more@),
                slugs@.len() == self.posts@.len() + j,
                forall|k: int| 0 <= k < slugs@.len() ==> (#[trigger] slugs@[k])@ == all[k].slug,
            decreases more@.len() - j,
        {
            assert(all[self.posts@.len() + j] == more@[j as int]@);
            slugs.push(to_chars(more[j].slug.as_str()));
            j += 1;
        }
        let at = find_repeat(&slugs);
        proof {
            if at < all.len() {
                let i = choose|i: int| 0 <= i < at && (#[trigger] slugs@[i])@ == slugs@[at as int]@;
                assert(all[i].slug == all[at as int].slug);
                assert(repeats_at(all, at as int));
            }
            assert forall|j: int| 0 <= j < at implies !repeats_at(all, j) by {
                if repeats_at(all, j) {
                    let i = choose|i: int| 0 <= i < j && (#[trigger] all[i]).slug == all[j].slug;
                    assert(slugs@[i]@ == slugs@[j]@);
                }
            }
            lemma_first_repeat_is(all, at as int);
        }
        if at < slugs.len() {
            let message = concat(
                "Duplicate slug: ",
                crate::text::string_from_chars(&slugs[at]).as_str(),
            );
            return Err(ZahuyachError::InvalidInput(message));
        }
        proof {
            lemma_with_posts(post_views(self.posts@), post_views(more@));
            lemma_with_posts_distinct(post_views(self.posts@), post_views(more@));
        }
        insert_posts(&mut self.posts, more);
        Ok(())
    }

    /// The name under which a file of the templates directory is
    /// registered: its stem, if its extension is `html`.
    pub fn template_name(file_name: &str) -> (r: Option<String>)
        ensures
            r is Some == stem_for(file_name@, "html"@) is Some,
            r is Some ==> r->Some_0@ == stem_for(file_name@, "html"@)->Some_0,
    {
        stem_with_extension(file_name, "html")
    }

    /// The slug of a file of the content directory: its stem, if its
    /// extension is `md`.
    pub fn document_slug(file_name: &str) -> (r: Option<String>)
        ensures
            r is Some == stem_for(file_name@, "md"@) is Some,
            r is Some ==> r->Some_0@ == stem_for(file_name@, "md"@)->Some_0,
    {
        stem_with_extension(file_name, "md")
    }

    /// Registers the template `name`, in place of an earlier one of that
    /// name. A source is refused, and nothing changes, where an include of
    /// it does not name its template plainly, where with it the includes
    /// among the templates would form a cycle, and where the engine cannot
    /// read it.
    pub fn load_template(&mut self, name: &str, source: &str) -> (r: Result<(), ZahuyachError>)
        requires
            old(self).wf(),
        ensures
            final(self).wf(),
            final(self).configuration() == old(self).configuration(),
            final(self)@.settings == old(self)@.settings,
            final(self)@.posts == old(self)@.posts,
            match registration(old(self)@.templates, name@, source@) {
                Ok(held) => r is Ok && final(self)@.templates == held,
                Err(message) => r is Err && r->Err_0.is_invalid_input(message)
                    && final(self)@.templates == old(self)@.templates,
            },
    {
        self.handlebars.register(name, source)
    }

    /// Whether a template `name` is registered.
    pub fn has_template(&self, name: &str) -> (r: bool)
        ensures
            r == self@.templates.dom().contains(name@),
    {
        self.handlebars.has(name)
    }
}

/// The path of a document's page.
pub open spec fn post_path(slug: Seq<char>) -> Seq<char> {
    "posts/"@ + slug + ".html"@
}

/// The path of a tag's page.
pub open spec fn tag_path(slug: Seq<char>) -> Seq<char> {
    "tags/"@ + slug + ".html"@
}

/// The path of a category's page.
pub open spec fn category_path(slug: Seq<char>) -> Seq<char> {
    "categories/"@ + slug + "/index.html"@
}

/// The fields that most pages share: the site, and the lists beside the
/// page's own matter.
pub open spec fn site_field(g: GeneratorView, c: ClockView) -> Entry {
    field("site"@, site_tree(g.settings, c.year))
}

pub open spec fn categories_field(g: GeneratorView) -> Entry {
    field("categories"@, categories_tree(g.posts))
}

pub open spec fn popular_tags_field(g: GeneratorView) -> Entry {
    field("popular_tags"@, popular_tags_tree(g.settings, g.posts))
}

pub open spec fn recent_posts_field(g: GeneratorView) -> Entry {
    field("recent_posts"@, recent_posts_tree(g.settings, g.posts))
}

/// The data of the page of document `i`.
pub open spec fn post_page_tree(g: GeneratorView, c: ClockView, i: int) -> Tree {
    let p = g.posts[i];
    Tree::Object(
        fields()
            .push(site_field(g, c))
            .push(field("post"@, post_tree(g.settings, p)))
            .push(categories_field(g))
            .push(popular_tags_field(g))
            .push(recent_posts_field(g))
            .push(field("page"@, page_tree(p.front_matter.title, p.summary(), post_url(p.slug)))),
    )
}

/// The data of the index page.
pub open spec fn index_tree(g: GeneratorView, c: ClockView) -> Tree {
    Tree::Object(
        fields()
            .push(site_field(g, c))
            .push(
                field(
                    "posts"@,
                    summaries_tree(
                        g.settings,
                        g.posts,
                        listed(leading(g.posts.len()), g.settings.posts_per_page),
                    ),
                ),
            )
            .push(popular_tags_field(g))
            .push(categories_field(g))
            .push(recent_posts_field(g))
            .push(field("stats"@, stats_tree(g.posts, c.today)))
            .push(
                field(
                    "page"@,
                    page_tree(
                        "\u{413}\u{43b}\u{430}\u{432}\u{43d}\u{430}\u{44f}"@,
                        g.settings.description,
                        "/"@,
                    ),
                ),
            ),
    )
}

/// The data of the archive page.
pub open spec fn archive_tree(g: GeneratorView, c: ClockView) -> Tree {
    Tree::Object(
        fields()
            .push(site_field(g, c))
            .push(field("posts_by_year"@, posts_by_year_tree(g.settings, g.posts)))
            .push(field("posts_by_date"@, posts_by_date_tree(g.posts)))
            .push(number("total_posts"@, g.posts.len() as int))
            .push(categories_field(g))
            .push(popular_tags_field(g))
            .push(recent_posts_field(g))
            .push(
                field(
                    "page"@,
                    page_tree(
                        "\u{410}\u{440}\u{445}\u{438}\u{432}"@,
                        "\u{410}\u{440}\u{445}\u{438}\u{432} \u{432}\u{441}\u{435}\u{445} \u{441}\u{442}\u{430}\u{442}\u{435}\u{439} \u{431}\u{43b}\u{43e}\u{433}\u{430}"@,
                        "/archive"@,
                    ),
                ),
            ),
    )
}

/// The list of every tag of the documents.
pub open spec fn all_tags_tree(g: GeneratorView) -> Tree {
    let buckets = buckets_of(tags_of(g.posts));
    Tree::List(Seq::new(buckets.len(), |k: int| tag_entry_tree(buckets[k])))
}

/// The data of the page that lists the tags.
pub open spec fn tags_index_tree(g: GeneratorView, c: ClockView) -> Tree {
    Tree::Object(
        fields()
            .push(site_field(g, c))
            .push(field("all_tags"@, all_tags_tree(g)))
            .push(categories_field(g))
            .push(
                field(
                    "page"@,
                    page_tree(
                        "\u{422}\u{435}\u{433}\u{438}"@,
                        "\u{412}\u{441}\u{435} \u{442}\u{435}\u{433}\u{438} \u{431}\u{43b}\u{43e}\u{433}\u{430}"@,
                        "/tags"@,
                    ),
                ),
            ),
    )
}

/// The name and the slug of a tag or a category.
pub open spec fn label_tree(name: Seq<char>) -> Tree {
    Tree::Object(fields().push(text("name"@, name)).push(text("slug"@, slug(name))))
}

/// The data of the page of the tag `b`.
pub open spec fn tag_page_tree(g: GeneratorView, c: ClockView, b: BucketView) -> Tree {
    Tree::Object(
        fields()
            .push(site_field(g, c))
            .push(field("tag"@, label_tree(b.name)))
            .push(field("posts"@, summaries_tree(g.settings, g.posts, b.posts)))
            .push(categories_field(g))
            .push(popular_tags_field(g))
            .push(
                field(
                    "page"@,
                    page_tree(
                        "\u{422}\u{435}\u{433}: "@ + b.name,
                        "\u{412}\u{441}\u{435} \u{441}\u{442}\u{430}\u{442}\u{44c}\u{438} \u{441} \u{442}\u{435}\u{433}\u{43e}\u{43c} "@
                            + b.name,
                        "/tags/"@ + slug(b.name),
                    ),
                ),
            ),
    )
}

/// The data of the page of the category `b`.
pub open spec fn category_page_tree(g: GeneratorView, c: ClockView, b: BucketView) -> Tree {
    Tree::Object(
        fields()
            .push(site_field(g, c))
            .push(field("category"@, label_tree(b.name)))
            .push(field("posts"@, summaries_tree(g.settings, g.posts, b.posts)))
            .push(categories_field(g))
            .push(popular_tags_field(g))
            .push(
                field(
                    "page"@,
                    page_tree(
                        "\u{41a}\u{430}\u{442}\u{435}\u{433}\u{43e}\u{440}\u{438}\u{44f}: "@ + b.name,
                        "\u{412}\u{441}\u{435} \u{441}\u{442}\u{430}\u{442}\u{44c}\u{438} \u{432} \u{43a}\u{430}\u{442}\u{435}\u{433}\u{43e}\u{440}\u{438}\u{438} "@
                            + b.name,
                        "/categories/"@ + slug(b.name),
                    ),
                ),
            ),
    )
}

/// A document in the feed.
pub open spec fn feed_item_tree(s: Settings, p: PostView) -> Tree {
    Tree::Object(
        fields()
            .push(text("title"@, p.front_matter.title))
            .push(text("link"@, permalink(s.base_url, p.slug)))
            .push(text("description"@, p.summary()))
            .push(text("content"@, p.html_content))
            .push(text("pub_date"@, p.front_matter.date))
            .push(text("author"@, p.author_or(s.author))),
    )
}

/// The data of the feed: the site, the first documents up to the feed's
/// limit, and the moment of the build.
pub open spec fn feed_tree(g: GeneratorView, c: ClockView) -> Tree {
    Tree::Object(
        fields()
            .push(site_field(g, c))
            .push(
                field(
                    "posts"@,
                    Tree::List(
                        Seq::new(
                            at_most(g.settings.rss_limit, g.posts.len()),
                            |k: int| feed_item_tree(g.settings, g.posts[k]),
                        ),
                    ),
                ),
            )
            .push(text("build_date"@, c.build_date)),
    )
}

/// The data of the page about the site.
pub open spec fn about_tree(g: GeneratorView, c: ClockView) -> Tree {
    Tree::Object(
        fields()
            .push(site_field(g, c))
            .push(recent_posts_field(g))
            .push(popular_tags_field(g))
            .push(field("page"@, page_tree("About"@, "About this blog"@, "/about"@)))
            .push(flag("is_about"@, true)),
    )
}

/// The data of the page for addresses that lead nowhere.
pub open spec fn not_found_tree(g: GeneratorView, c: ClockView) -> Tree {
    Tree::Object(
        fields()
            .push(site_field(g, c))
            .push(recent_posts_field(g))
            .push(popular_tags_field(g))
            .push(
                field(
                    "page"@,
                    page_tree(
                        "404 - Page Not Found"@,
                        "The page you're looking for doesn't exist"@,
                        "/404.html"@,
                    ),
                ),
            ),
    )
}

/// A document in the feed that is made without a template.
pub open spec fn plain_feed_item(s: Settings, p: PostView) -> Seq<char> {
    "\n<item>"@ + "\n<title>"@ + p.front_matter.title + "</title>"@ + "\n<link>"@ + permalink(
        s.base_url,
        p.slug,
    ) + "</link>"@ + "\n<description>"@ + p.summary() + "</description>"@ + "\n<pubDate>"@
        + p.front_matter.date + "</pubDate>"@ + "\n</item>"@
}

/// The first `n` documents in the feed that is made without a template.
pub open spec fn plain_feed_items(s: Settings, posts: Seq<PostView>, n: nat) -> Seq<char>
    decreases n,
{
    if n == 0 {
        Seq::empty()
    } else {
        plain_feed_items(s, posts, (n - 1) as nat) + plain_feed_item(s, posts[n - 1])
    }
}

/// The head of the feed that is made without a template.
pub open spec fn plain_feed_head(s: Settings, c: ClockView) -> Seq<char> {
    "<?xml version=\"1.0\" encoding=\"UTF-8\"?>"@ + "\n"@ + "<rss version=\"2.0\">"@ + "\n<channel>"@
        + "\n<title>"@ + s.title + "</title>"@ + "\n<description>"@ + s.description
        + "</description>"@ + "\n<link>"@ + s.base_url + "</link>"@ + "\n<lastBuildDate>"@
        + c.build_date + "</lastBuildDate>"@
}

/// The feed that is made without a template: the channel of the site and
/// the first documents up to the feed's limit. No text in it is escaped.
pub open spec fn plain_feed(g: GeneratorView, c: ClockView) -> Seq<char> {
    plain_feed_head(g.settings, c) + plain_feed_items(
        g.settings,
        g.posts,
        at_most(g.settings.rss_limit, g.posts.len()),
    ) + "\n</channel>"@ + "\n</rss>"@
}

/// What ordinary pages fail with.
pub open spec fn render_fault() -> Seq<char> {
    "Template render error: "@
}

/// The job, if `present`, and else none.
pub open spec fn optional_job(present: bool, job: JobView) -> Seq<JobView> {
    if present {
        Seq::empty().push(job)
    } else {
        Seq::empty()
    }
}

/// The jobs, if `enabled`, and else none.
pub open spec fn optional_jobs(enabled: bool, jobs: Seq<JobView>) -> Seq<JobView> {
    if enabled {
        jobs
    } else {
        Seq::empty()
    }
}

/// Whether the generator holds a template `name`.
pub open spec fn has(g: GeneratorView, name: Seq<char>) -> bool {
    g.templates.dom().contains(name)
}

/// The job of the page of document `i`.
pub open spec fn post_job(g: GeneratorView, c: ClockView, i: int) -> JobView {
    JobView::Render {
        template: "post"@,
        path: post_path(g.posts[i].slug),
        data: post_page_tree(g, c, i),
        fault: render_fault(),
    }
}

/// The pages of the documents, one for each in their order; none without
/// the template `post`.
pub open spec fn post_jobs(g: GeneratorView, c: ClockView) -> Seq<JobView> {
    optional_jobs(has(g, "post"@), Seq::new(g.posts.len(), |i: int| post_job(g, c, i)))
}

/// The index page; none without the template `index`.
pub open spec fn index_jobs(g: GeneratorView, c: ClockView) -> Seq<JobView> {
    optional_job(
        has(g, "index"@),
        JobView::Render {
            template: "index"@,
            path: "index.html"@,
            data: index_tree(g, c),
            fault: render_fault(),
        },
    )
}

/// The archive page; none without the template `archive`.
pub open spec fn archive_jobs(g: GeneratorView, c: ClockView) -> Seq<JobView> {
    optional_job(
        has(g, "archive"@),
        JobView::Render {
            template: "archive"@,
            path: "archive.html"@,
            data: archive_tree(g, c),
            fault: render_fault(),
        },
    )
}

/// The page about the site; none without the template `about`.
pub open spec fn about_jobs(g: GeneratorView, c: ClockView) -> Seq<JobView> {
    optional_job(
        has(g, "about"@),
        JobView::Render {
            template: "about"@,
            path: "about.html"@,
            data: about_tree(g, c),
            fault: "About template render error: "@,
        },
    )
}

/// The job of the page of the tag `b`.
pub open spec fn tag_job(g: GeneratorView, c: ClockView, b: BucketView) -> JobView {
    JobView::Render {
        template: "tag"@,
        path: tag_path(slug(b.name)),
        data: tag_page_tree(g, c, b),
        fault: render_fault(),
    }
}

/// The pages of the tags: the list of all tags where there is a template
/// `tags`, then one page for each tag, in the order of their names, where
/// there is a template `tag`.
pub open spec fn tag_jobs(g: GeneratorView, c: ClockView) -> Seq<JobView> {
    let buckets = buckets_of(tags_of(g.posts));
    optional_job(
        has(g, "tags"@),
        JobView::Render {
            template: "tags"@,
            path: "tags/index.html"@,
            data: tags_index_tree(g, c),
            fault: render_fault(),
        },
    ) + optional_jobs(has(g, "tag"@), Seq::new(buckets.len(), |k: int| tag_job(g, c, buckets[k])))
}

/// The job of the page of the category `b`.
pub open spec fn category_job(g: GeneratorView, c: ClockView, b: BucketView) -> JobView {
    JobView::Render {
        template: "category"@,
        path: category_path(slug(b.name)),
        data: category_page_tree(g, c, b),
        fault: render_fault(),
    }
}

/// The pages of the categories, one for each in the order of their names;
/// none without the template `category`.
pub open spec fn category_jobs(g: GeneratorView, c: ClockView) -> Seq<JobView> {
    let buckets = buckets_of(categories_of(g.posts));
    optional_jobs(
        has(g, "category"@),
        Seq::new(buckets.len(), |k: int| category_job(g, c, buckets[k])),
    )
}

/// Whether the generator holds no template at all.
pub open spec fn has_none(g: GeneratorView) -> bool {
    forall|name: Seq<char>| !g.templates.dom().contains(name)
}

/// The feed: made with the template `rss` where there is one, and written
/// plainly where there are templates but none for the feed. A site without
/// any template has no feed.
pub open spec fn feed_jobs(g: GeneratorView, c: ClockView) -> Seq<JobView> {
    if has_none(g) {
        Seq::empty()
    } else if has(g, "rss"@) {
        Seq::empty().push(
            JobView::Render {
                template: "rss"@,
                path: g.settings.rss_filename,
                data: feed_tree(g, c),
                fault: "RSS template render error: "@,
            },
        )
    } else {
        Seq::empty().push(
            JobView::Write { path: g.settings.rss_filename, content: plain_feed(g, c) },
        )
    }
}

/// The page for addresses that lead nowhere; none without the template
/// `404`.
pub open spec fn not_found_jobs(g: GeneratorView, c: ClockView) -> Seq<JobView> {
    optional_job(
        has(g, "404"@),
        JobView::Render {
            template: "404"@,
            path: "404.html"@,
            data: not_found_tree(g, c),
            fault: "404 template render error: "@,
        },
    )
}

/// All that a build makes, in the order in which it is made: the pages of
/// the documents, the index, the archive, the page about the site, the
/// pages of the tags and of the categories where they are switched on, the
/// feed where it is switched on, and the page for addresses that lead
/// nowhere.
pub open spec fn site_jobs(g: GeneratorView, c: ClockView) -> Seq<JobView> {
    post_jobs(g, c) + index_jobs(g, c) + archive_jobs(g, c) + about_jobs(g, c) + optional_jobs(
        g.settings.tags_enabled,
        tag_jobs(g, c),
    ) + optional_jobs(g.settings.categories_enabled, category_jobs(g, c)) + optional_jobs(
        g.settings.rss_enabled,
        feed_jobs(g, c),
    ) + not_found_jobs(g, c)
}

/// A build depends on nothing but the configuration, the documents, the
/// templates and the time it was given: two generators that agree in
/// these make the same files and fail alike.
pub proof fn lemma_build_is_determined(
    a: GeneratorView,
    b: GeneratorView,
    c: ClockView,
    d: ClockView,
)
    requires
        a.settings == b.settings,
        a.posts =~= b.posts,
        a.templates =~= b.templates,
        c == d,
    ensures
        site_jobs(a, c) == site_jobs(b, d),
        run_jobs(a.templates, site_jobs(a, c)) == run_jobs(b.templates, site_jobs(b, d)),
{
    assert(a.posts == b.posts);
    assert(a.templates == b.templates);
    assert(a == b);
}

/// The parts that most pages share, made once for a build.
struct Shared {
    site: Data,
    categories: Data,
    popular_tags: Data,
    recent_posts: Data,
}

impl Shared {
    /// Whether the parts are those of the generator `g` at the time `c`.
    spec fn fits(&self, g: GeneratorView, c: ClockView) -> bool {
        &&& self.site@ == site_tree(g.settings, c.year)
        &&& self.categories@ == categories_tree(g.posts)
        &&& self.popular_tags@ == popular_tags_tree(g.settings, g.posts)
        &&& self.recent_posts@ == recent_posts_tree(g.settings, g.posts)
    }
}

/// A job that renders.
fn render_job(template: &str, path: String, data: Data, fault: &str) -> (r: Job)
    ensures
        r@ == (JobView::Render { template: template@, path: path@, data: data@, fault: fault@ }),
{
    Job::Render { template: template.to_owned(), path, data, fault: fault.to_owned() }
}

/// Adds `more` behind `jobs`.
fn add_jobs(jobs: &mut Vec<Job>, more: Vec<Job>)
    ensures
        job_views(final(jobs)@) == job_views(old(jobs)@) + job_views(more@),
{
    let mut rest = more;
    proof {
        lemma_job_views_add(jobs@, rest@);
    }
    jobs.append(&mut rest);
}

/// No jobs.
fn no_jobs() -> (r: Vec<Job>)
    ensures
        job_views(r@) == Seq::<JobView>::empty(),
{
    let r: Vec<Job> = Vec::new();
    assert(job_views(r@) =~= Seq::<JobView>::empty());
    r
}

/// The one job.
fn one_job(job: Job) -> (r: Vec<Job>)
    ensures
        job_views(r@) == Seq::<JobView>::empty().push(job@),
{
    let mut r: Vec<Job> = Vec::new();
    r.push(job);
    assert(job_views(r@) =~= Seq::<JobView>::empty().push(job@));
    r
}

/// Adds `open`, `value` and `close` to `out`.
fn append_tagged(out: &mut String, open: &str, value: &str, close: &str)
    ensures
        final(out)@ == old(out)@ + open@ + value@ + close@,
{
    out.append(open);
    out.append(value);
    out.append(close);
}

impl SiteGenerator {
    /// The parts that most pages share.
    fn shared(&self, clock: &Clock) -> (r: Shared)
        requires
            self.wf(),
        ensures
            r.fits(self@, clock@),
    {
        Shared {
            site: site_context(&self.config, clock),
            categories: categories(&self.posts),
            popular_tags: popular_tags(&self.config, &self.posts),
            recent_posts: recent_posts(
                &self.config,
                &self.posts,
                self.config.get_recent_posts_limit(),
            ),
        }
    }

    fn post_page(&self, shared: &Shared, clock: &Clock, i: usize) -> (r: Data)
        requires
            self.wf(),
            shared.fits(self@, clock@),
            i < self@.posts.len(),
        ensures
            r@ == post_page_tree(self@, clock@, i as int),
    {
        let post = &self.posts[i];
        let description = match &post.front_matter.description {
            Some(d) => d.as_str(),
            None => post.front_matter.title.as_str(),
        };
        let mut o = ObjectBuilder::new();
        o.field("site", shared.site.duplicate());
        o.field("post", post_details(&self.config, post));
        o.field("categories", shared.categories.duplicate());
        o.field("popular_tags", shared.popular_tags.duplicate());
        o.field("recent_posts", shared.recent_posts.duplicate());
        o.field(
            "page",
            page_context(
                post.front_matter.title.as_str(),
                description,
                concat("/posts/", post.slug.as_str()).as_str(),
            ),
        );
        o.finish()
    }

    fn index_page(&self, shared: &Shared, clock: &Clock) -> (r: Data)
        requires
            self.wf(),
            shared.fits(self@, clock@),
        ensures
            r@ == index_tree(self@, clock@),
    {
        let all = leading_indices(self.posts.len());
        let shown = limited(&all, self.config.get_posts_per_page());
        let mut o = ObjectBuilder::new();
        o.field("site", shared.site.duplicate());
        o.field("posts", summaries(&self.config, &self.posts, &shown));
        o.field("popular_tags", shared.popular_tags.duplicate());
        o.field("categories", shared.categories.duplicate());
        o.field("recent_posts", shared.recent_posts.duplicate());
        o.field("stats", site_stats(&self.posts, clock));
        o.field(
            "page",
            page_context(
                "\u{413}\u{43b}\u{430}\u{432}\u{43d}\u{430}\u{44f}",
                self.config.site.description.as_str(),
                "/",
            ),
        );
        o.finish()
    }

    fn archive_page(&self, shared: &Shared, clock: &Clock) -> (r: Data)
        requires
            self.wf(),
            shared.fits(self@, clock@),
        ensures
            r@ == archive_tree(self@, clock@),
    {
        let dates = post_dates(&self.posts);
        let years = archive(&dates);
        let mut o = ObjectBuilder::new();
        o.field("site", shared.site.duplicate());
        o.field("posts_by_year", posts_by_year(&self.config, &self.posts, &years));
        o.field("posts_by_date", posts_by_date(&self.posts, &years));
        o.field("total_posts", Data::count(self.posts.len()));
        o.field("categories", shared.categories.duplicate());
        o.field("popular_tags", shared.popular_tags.duplicate());
        o.field("recent_posts", shared.recent_posts.duplicate());
        o.field(
            "page",
            page_context(
                "\u{410}\u{440}\u{445}\u{438}\u{432}",
                "\u{410}\u{440}\u{445}\u{438}\u{432} \u{432}\u{441}\u{435}\u{445} \u{441}\u{442}\u{430}\u{442}\u{435}\u{439} \u{431}\u{43b}\u{43e}\u{433}\u{430}",
                "/archive",
            ),
        );
        o.finish()
    }

    fn tags_index_page(&self, shared: &Shared, clock: &Clock, buckets: &Vec<Bucket>) -> (r: Data)
        requires
            self.wf(),
            shared.fits(self@, clock@),
            bucket_views(buckets@) == buckets_of(tags_of(self@.posts)),
        ensures
            r@ == tags_index_tree(self@, clock@),
    {
        let mut o = ObjectBuilder::new();
        o.field("site", shared.site.duplicate());
        o.field("all_tags", all_tags(buckets));
        o.field("categories", shared.categories.duplicate());
        o.field(
            "page",
            page_context(
                "\u{422}\u{435}\u{433}\u{438}",
                "\u{412}\u{441}\u{435} \u{442}\u{435}\u{433}\u{438} \u{431}\u{43b}\u{43e}\u{433}\u{430}",
                "/tags",
            ),
        );
        o.finish()
    }

    /// The name and the slug of a tag or a category.
    fn label(name: &str, label_slug: &str) -> (r: Data)
        requires
            label_slug@ == slug(name@),
        ensures
            r@ == label_tree(name@),
    {
        let mut o = ObjectBuilder::new();
        o.text("name", name);
        o.text("slug", label_slug);
        o.finish()
    }

    fn tag_page(&self, shared: &Shared, clock: &Clock, bucket: &Bucket, tag_slug: &str) -> (r: Data)
        requires
            self.wf(),
            shared.fits(self@, clock@),
            tag_slug@ == slug(bucket@.name),
            forall|k: int| 0 <= k < bucket.posts@.len() ==> #[trigger] bucket.posts@[k] < self@.posts.len(),
        ensures
            r@ == tag_page_tree(self@, clock@, bucket@),
    {
        let name = bucket.name.as_str();
        let mut o = ObjectBuilder::new();
        o.field("site", shared.site.duplicate());
        o.field("tag", Self::label(name, tag_slug));
        o.field("posts", summaries(&self.config, &self.posts, &bucket.posts));
        o.field("categories", shared.categories.duplicate());
        o.field("popular_tags", shared.popular_tags.duplicate());
        o.field(
            "page",
            page_context(
                concat("\u{422}\u{435}\u{433}: ", name).as_str(),
                concat(
                    "\u{412}\u{441}\u{435} \u{441}\u{442}\u{430}\u{442}\u{44c}\u{438} \u{441} \u{442}\u{435}\u{433}\u{43e}\u{43c} ",
                    name,
                ).as_str(),
                concat("/tags/", tag_slug).as_str(),
            ),
        );
        o.finish()
    }

    fn category_page(
        &self,
        shared: &Shared,
        clock: &Clock,
        bucket: &Bucket,
        category_slug: &str,
    ) -> (r: Data)
        requires
            self.wf(),
            shared.fits(self@, clock@),
            category_slug@ == slug(bucket@.name),
            forall|k: int| 0 <= k < bucket.posts@.len() ==> #[trigger] bucket.posts@[k] < self@.posts.len(),
        ensures
            r@ == category_page_tree(self@, clock@, bucket@),
    {
        let name = bucket.name.as_str();
        let mut o = ObjectBuilder::new();
        o.field("site", shared.site.duplicate());
        o.field("category", Self::label(name, category_slug));
        o.field("posts", summaries(&self.config, &self.posts, &bucket.posts));
        o.field("categories", shared.categories.duplicate());
        o.field("popular_tags", shared.popular_tags.duplicate());
        o.field(
            "page",
            page_context(
                concat("\u{41a}\u{430}\u{442}\u{435}\u{433}\u{43e}\u{440}\u{438}\u{44f}: ", name).as_str(),
                concat(
                    "\u{412}\u{441}\u{435} \u{441}\u{442}\u{430}\u{442}\u{44c}\u{438} \u{432} \u{43a}\u{430}\u{442}\u{435}\u{433}\u{43e}\u{440}\u{438}\u{438} ",
                    name,
                ).as_str(),
                concat("/categories/", category_slug).as_str(),
            ),
        );
        o.finish()
    }

    fn feed_item(&self, post: &Post) -> (r: Data)
        ensures
            r@ == feed_item_tree(self@.settings, post@),
    {
        let description = match &post.front_matter.description {
            Some(d) => d.as_str(),
            None => post.front_matter.title.as_str(),
        };
        let author = match &post.front_matter.author {
            Some(a) => a.as_str(),
            None => self.config.site.author.as_str(),
        };
        let mut link = concat(self.config.site.base_url.as_str(), "/posts/");
        link.append(post.slug.as_str());
        let mut o = ObjectBuilder::new();
        o.text("title", post.front_matter.title.as_str());
        o.text("link", link.as_str());
        o.text("description", description);
        o.text("content", post.html_content.as_str());
        o.text("pub_date", post.front_matter.date.as_str());
        o.text("author", author);
        o.finish()
    }

    /// How many documents the feed holds.
    fn feed_count(&self) -> (n: usize)
        ensures
            n == at_most(self@.settings.rss_limit, self@.posts.len()),
            n <= self.posts@.len(),
    {
        let limit = self.config.get_rss_limit();
        if limit < self.posts.len() {
            limit
        } else {
            self.posts.len()
        }
    }

    fn feed_page(&self, shared: &Shared, clock: &Clock) -> (r: Data)
        requires
            self.wf(),
            shared.fits(self@, clock@),
        ensures
            r@ == feed_tree(self@, clock@),
    {
        let n = self.feed_count();
        let mut list = ListBuilder::new();
        let mut k: usize = 0;
        while k < n
            invariant
                k <= n <= self.posts@.len(),
                list@ == Seq::new(
                    k as nat,
                    |l: int| feed_item_tree(self@.settings, self@.posts[l]),
                ),
            decreases n - k,
        {
            list.push(self.feed_item(&self.posts[k]));
            assert(list@ =~= Seq::new(
                (k + 1) as nat,
                |l: int| feed_item_tree(self@.settings, self@.posts[l]),
            ));
            k += 1;
        }
        let mut o = ObjectBuilder::new();
        o.field("site", shared.site.duplicate());
        o.field("posts", list.finish());
        o.text("build_date", clock.build_date.as_str());
        o.finish()
    }

    fn about_page(&self, shared: &Shared, clock: &Clock) -> (r: Data)
        requires
            self.wf(),
            shared.fits(self@, clock@),
        ensures
            r@ == about_tree(self@, clock@),
    {
        let mut o = ObjectBuilder::new();
        o.field("site", shared.site.duplicate());
        o.field("recent_posts", shared.recent_posts.duplicate());
        o.field("popular_tags", shared.popular_tags.duplicate());
        o.field("page", page_context("About", "About this blog", "/about"));
        o.field("is_about", Data::Flag(true));
        o.finish()
    }

    fn not_found_page(&self, shared: &Shared, clock: &Clock) -> (r: Data)
        requires
            self.wf(),
            shared.fits(self@, clock@),
        ensures
            r@ == not_found_tree(self@, clock@),
    {
        let mut o = ObjectBuilder::new();
        o.field("site", shared.site.duplicate());
        o.field("recent_posts", shared.recent_posts.duplicate());
        o.field("popular_tags", shared.popular_tags.duplicate());
        o.field(
            "page",
            page_context(
                "404 - Page Not Found",
                "The page you're looking for doesn't exist",
                "/404.html",
            ),
        );
        o.finish()
    }

    /// The data of the page of document `i`.
    pub fn create_post_data(&self, i: usize, clock: &Clock) -> (r: Data)
        requires
            self.wf(),
            i < self@.posts.len(),
        ensures
            r@ == post_page_tree(self@, clock@, i as int),
    {
        let shared = self.shared(clock);
        self.post_page(&shared, clock, i)
    }

    /// The object `site`.
    pub fn get_site_context(&self, clock: &Clock) -> (r: Data)
        ensures
            r@ == site_tree(self@.settings, clock@.year),
    {
        site_context(&self.config, clock)
    }

    /// The documents `order` as a list shows them: all of them, or the
    /// first `limit` where there are more and the limit is not zero.
    pub fn get_posts_list_context(&self, order: &Vec<usize>, limit: usize) -> (r: Data)
        requires
            self.wf(),
            forall|k: int| 0 <= k < order@.len() ==> #[trigger] order@[k] < self@.posts.len(),
        ensures
            r@ == summaries_tree(self@.settings, self@.posts, listed(indices(order@), limit as nat)),
    {
        let shown = limited(order, limit);
        summaries(&self.config, &self.posts, &shown)
    }

    /// The list `popular_tags`.
    pub fn get_popular_tags(&self) -> (r: Data)
        ensures
            r@ == popular_tags_tree(self@.settings, self@.posts),
    {
        popular_tags(&self.config, &self.posts)
    }

    /// The list `categories`.
    pub fn get_categories_tree(&self) -> (r: Data)
        ensures
            r@ == categories_tree(self@.posts),
    {
        categories(&self.posts)
    }

    /// The first documents, up to `limit` of them, as the list
    /// `recent_posts` shows them.
    pub fn get_recent_posts(&self, limit: usize) -> (r: Data)
        requires
            self.wf(),
        ensures
            r@ == recent_list_tree(self@.settings, self@.posts, limit as nat),
    {
        recent_posts(&self.config, &self.posts, limit)
    }

    /// The object `stats`.
    pub fn get_site_stats(&self, clock: &Clock) -> (r: Data)
        ensures
            r@ == stats_tree(self@.posts, clock@.today),
    {
        site_stats(&self.posts, clock)
    }

    /// The slug of a tag or a category.
    pub fn slugify(&self, text: &str) -> (r: String)
        ensures
            r@ == slug(text@),
    {
        slugify(text)
    }

    /// A date as a document's page shows it.
    pub fn format_date(&self, date: &str) -> (r: String)
        ensures
            r@ == shown_date(date@, self@.settings.post_date_format),
    {
        format_date(date, self.config.get_post_date_format())
    }

    /// A date as lists show it.
    pub fn format_date_short(&self, date: &str) -> (r: String)
        ensures
            r@ == shown_date(date@, self@.settings.archive_date_format),
    {
        format_date(date, self.config.get_archive_date_format())
    }

    /// The minutes it takes to read `content`; never zero.
    pub fn calculate_reading_time(&self, content: &str) -> (r: usize)
        requires
            self.wf(),
        ensures
            r == reading_minutes(content@, self@.settings.reading_speed),
            r >= 1,
    {
        reading_time(content, self.config.get_reading_speed())
    }

    /// The excerpt of `content`, as HTML.
    pub fn create_excerpt(&self, content: &str) -> (r: String)
        ensures
            r@ == markdown_html(
                excerpt_source(
                    content@,
                    self@.settings.excerpt_separator,
                    self@.settings.excerpt_length,
                ),
            ),
    {
        excerpt(content, self.config.get_excerpt_separator(), self.config.get_excerpt_length())
    }

    /// The feed as it is written where there is no template for it.
    pub fn generate_simple_rss(&self, clock: &Clock) -> (r: String)
        ensures
            r@ == plain_feed(self@, clock@),
    {
        let mut rss = String::new();
        rss.append("<?xml version=\"1.0\" encoding=\"UTF-8\"?>");
        rss.append("\n");
        rss.append("<rss version=\"2.0\">");
        rss.append("\n<channel>");
        append_tagged(&mut rss, "\n<title>", self.config.site.title.as_str(), "</title>");
        append_tagged(
            &mut rss,
            "\n<description>",
            self.config.site.description.as_str(),
            "</description>",
        );
        append_tagged(&mut rss, "\n<link>", self.config.site.base_url.as_str(), "</link>");
        append_tagged(&mut rss, "\n<lastBuildDate>", clock.build_date.as_str(), "</lastBuildDate>");
        let ghost head = plain_feed_head(self@.settings, clock@);
        assert(rss@ =~= head);
        let n = self.feed_count();
        let mut k: usize = 0;
        assert(head + plain_feed_items(self@.settings, self@.posts, 0) =~= head);
        while k < n
            invariant
                k <= n <= self.posts@.len(),
                rss@ == head + plain_feed_items(self@.settings, self@.posts, k as nat),
            decreases n - k,
        {
            let post = &self.posts[k];
            let description = match &post.front_matter.description {
                Some(d) => d.as_str(),
                None => post.front_matter.title.as_str(),
            };
            let mut link = concat(self.config.site.base_url.as_str(), "/posts/");
            link.append(post.slug.as_str());
            let ghost before = rss@;
            rss.append("\n<item>");
            append_tagged(&mut rss, "\n<title>", post.front_matter.title.as_str(), "</title>");
            append_tagged(&mut rss, "\n<link>", link.as_str(), "</link>");
            append_tagged(&mut rss, "\n<description>", description, "</description>");
            append_tagged(&mut rss, "\n<pubDate>", post.front_matter.date.as_str(), "</pubDate>");
            rss.append("\n</item>");
            assert(rss@ =~= before + plain_feed_item(self@.settings, self@.posts[k as int]));
            assert(before + plain_feed_item(self@.settings, self@.posts[k as int]) =~= head
                + plain_feed_items(self@.settings, self@.posts, (k + 1) as nat));
            k += 1;
        }
        rss.append("\n</channel>");
        rss.append("\n</rss>");
        rss
    }
}

impl SiteGenerator {
    /// The pages of the documents.
    pub fn post_jobs(&self, clock: &Clock) -> (jobs: Vec<Job>)
        requires
            self.wf(),
        ensures
            job_views(jobs@) == post_jobs(self@, clock@),
    {
        if !self.has_template("post") {
            return no_jobs();
        }
        let shared = self.shared(clock);
        let mut jobs: Vec<Job> = Vec::new();
        let mut i: usize = 0;
        while i < self.posts.len()
            invariant
                i <= self.posts@.len(),
                self.wf(),
                shared.fits(self@, clock@),
                jobs@.len() == i,
                forall|k: int| 0 <= k < i ==> (#[trigger] jobs@[k])@ == post_job(self@, clock@, k),
            decreases self.posts@.len() - i,
        {
            let mut path = concat("posts/", self.posts[i].slug.as_str());
            path.append(".html");
            let data = self.post_page(&shared, clock, i);
            jobs.push(render_job("post", path, data, "Template render error: "));
            i += 1;
        }
        assert(job_views(jobs@) =~= post_jobs(self@, clock@));
        jobs
    }

    /// The index page.
    pub fn index_jobs(&self, clock: &Clock) -> (jobs: Vec<Job>)
        requires
            self.wf(),
        ensures
            job_views(jobs@) == index_jobs(self@, clock@),
    {
        if !self.has_template("index") {
            return no_jobs();
        }
        let shared = self.shared(clock);
        let data = self.index_page(&shared, clock);
        one_job(render_job("index", "index.html".to_owned(), data, "Template render error: "))
    }

    /// The archive page.
    pub fn archive_jobs(&self, clock: &Clock) -> (jobs: Vec<Job>)
        requires
            self.wf(),
        ensures
            job_views(jobs@) == archive_jobs(self@, clock@),
    {
        if !self.has_template("archive") {
            return no_jobs();
        }
        let shared = self.shared(clock);
        let data = self.archive_page(&shared, clock);
        one_job(render_job("archive", "archive.html".to_owned(), data, "Template render error: "))
    }

    /// The page about the site.
    pub fn about_jobs(&self, clock: &Clock) -> (jobs: Vec<Job>)
        requires
            self.wf(),
        ensures
            job_views(jobs@) == about_jobs(self@, clock@),
    {
        if !self.has_template("about") {
            return no_jobs();
        }
        let shared = self.shared(clock);
        let data = self.about_page(&shared, clock);
        one_job(render_job("about", "about.html".to_owned(), data, "About template render error: "))
    }

    /// The pages of the tags.
    pub fn tag_jobs(&self, clock: &Clock) -> (jobs: Vec<Job>)
        requires
            self.wf(),
        ensures
            job_views(jobs@) == tag_jobs(self@, clock@),
    {
        let with_list = self.has_template("tags");
        let with_pages = self.has_template("tag");
        if !with_list && !with_pages {
            let jobs = no_jobs();
            assert(job_views(jobs@) =~= tag_jobs(self@, clock@));
            return jobs;
        }
        let shared = self.shared(clock);
        let labels = tag_labels(&self.posts);
        let buckets = group(&labels);
        let ghost views = buckets_of(tags_of(self@.posts));
        proof {
            lemma_buckets_within(tags_of(self@.posts));
        }
        let mut jobs = if with_list {
            let data = self.tags_index_page(&shared, clock, &buckets);
            one_job(render_job("tags", "tags/index.html".to_owned(), data, "Template render error: "))
        } else {
            no_jobs()
        };
        let ghost head = job_views(jobs@);
        if with_pages {
            let mut pages: Vec<Job> = Vec::new();
            let mut k: usize = 0;
            while k < buckets.len()
                invariant
                    k <= buckets@.len(),
                    self.wf(),
                    shared.fits(self@, clock@),
                    views == bucket_views(buckets@),
                    within(views, self@.posts.len() as int),
                    pages@.len() == k,
                    forall|l: int|
                        0 <= l < k ==> (#[trigger] pages@[l])@ == tag_job(self@, clock@, views[l]),
                decreases buckets@.len() - k,
            {
                let bucket = &buckets[k];
                assert(views[k as int] == bucket@);
                assert forall|l: int| 0 <= l < bucket.posts@.len() implies #[trigger] bucket.posts@[l]
                    < self@.posts.len() by {
                    assert(views[k as int].posts[l] == bucket.posts@[l]);
                }
                let tag_slug = slugify(bucket.name.as_str());
                let mut path = concat("tags/", tag_slug.as_str());
                path.append(".html");
                let data = self.tag_page(&shared, clock, bucket, tag_slug.as_str());
                pages.push(render_job("tag", path, data, "Template render error: "));
                k += 1;
            }
            assert(job_views(pages@) =~= Seq::new(
                views.len(),
                |l: int| tag_job(self@, clock@, views[l]),
            ));
            add_jobs(&mut jobs, pages);
        } else {
            assert(head + Seq::<JobView>::empty() =~= head);
        }
        jobs
    }

    /// The pages of the categories.
    pub fn category_jobs(&self, clock: &Clock) -> (jobs: Vec<Job>)
        requires
            self.wf(),
        ensures
            job_views(jobs@) == category_jobs(self@, clock@),
    {
        if !self.has_template("category") {
            return no_jobs();
        }
        let shared = self.shared(clock);
        let labels = category_labels(&self.posts);
        let buckets = group(&labels);
        let ghost views = buckets_of(categories_of(self@.posts));
        proof {
            lemma_buckets_within(categories_of(self@.posts));
        }
        let mut pages: Vec<Job> = Vec::new();
        let mut k: usize = 0;
        while k < buckets.len()
            invariant
                k <= buckets@.len(),
                self.wf(),
                shared.fits(self@, clock@),
                views == bucket_views(buckets@),
                within(views, self@.posts.len() as int),
                pages@.len() == k,
                forall|l: int|
                    0 <= l < k ==> (#[trigger] pages@[l])@ == category_job(self@, clock@, views[l]),
            decreases buckets@.len() - k,
        {
            let bucket = &buckets[k];
            assert(views[k as int] == bucket@);
            assert forall|l: int| 0 <= l < bucket.posts@.len() implies #[trigger] bucket.posts@[l]
                < self@.posts.len() by {
                assert(views[k as int].posts[l] == bucket.posts@[l]);
            }
            let category_slug = slugify(bucket.name.as_str());
            let mut path = concat("categories/", category_slug.as_str());
            path.append("/index.html");
            let data = self.category_page(&shared, clock, bucket, category_slug.as_str());
            pages.push(render_job("category", path, data, "Template render error: "));
            k += 1;
        }
        assert(job_views(pages@) =~= category_jobs(self@, clock@));
        pages
    }

    /// The feed.
    pub fn feed_jobs(&self, clock: &Clock) -> (jobs: Vec<Job>)
        requires
            self.wf(),
        ensures
            job_views(jobs@) == feed_jobs(self@, clock@),
    {
        if self.handlebars.is_empty() {
            return no_jobs();
        }
        let path = self.config.get_rss_filename().to_owned();
        if self.has_template("rss") {
            let shared = self.shared(clock);
            let data = self.feed_page(&shared, clock);
            one_job(render_job("rss", path, data, "RSS template render error: "))
        } else {
            one_job(Job::Write { path, content: self.generate_simple_rss(clock) })
        }
    }

    /// The page for addresses that lead nowhere.
    pub fn not_found_jobs(&self, clock: &Clock) -> (jobs: Vec<Job>)
        requires
            self.wf(),
        ensures
            job_views(jobs@) == not_found_jobs(self@, clock@),
    {
        if !self.has_template("404") {
            return no_jobs();
        }
        let shared = self.shared(clock);
        let data = self.not_found_page(&shared, clock);
        one_job(render_job("404", "404.html".to_owned(), data, "404 template render error: "))
    }

    /// All that a build makes, in the order in which it is made.
    pub fn plan(&self, clock: &Clock) -> (jobs: Vec<Job>)
        requires
            self.wf(),
        ensures
            job_views(jobs@) == site_jobs(self@, clock@),
    {
        let mut jobs = self.post_jobs(clock);
        add_jobs(&mut jobs, self.index_jobs(clock));
        add_jobs(&mut jobs, self.archive_jobs(clock));
        add_jobs(&mut jobs, self.about_jobs(clock));
        if self.config.is_tags_enabled() {
            add_jobs(&mut jobs, self.tag_jobs(clock));
        } else {
            add_jobs(&mut jobs, no_jobs());
        }
        if self.config.is_categories_enabled() {
            add_jobs(&mut jobs, self.category_jobs(clock));
        } else {
            add_jobs(&mut jobs, no_jobs());
        }
        if self.config.is_rss_enabled() {
            add_jobs(&mut jobs, self.feed_jobs(clock));
        } else {
            add_jobs(&mut jobs, no_jobs());
        }
        add_jobs(&mut jobs, self.not_found_jobs(clock));
        jobs
    }

    /// Runs the jobs in their order and adds the files they make to `out`.
    /// The first job that fails ends the run; the files made before it
    /// stay in `out`.
    pub fn run(&self, jobs: &Vec<Job>, out: &mut Vec<OutputFile>) -> (r: Result<(), ZahuyachError>)
        requires
            self.wf(),
        ensures
            delivered(run_jobs(self@.templates, job_views(jobs@)), old(out)@, final(out)@, r),
    {
        let ghost views = job_views(jobs@);
        let ghost start = file_views(out@);
        let ghost templates = self@.templates;
        let mut i: usize = 0;
        assert(views.take(0) =~= Seq::<JobView>::empty());
        assert(start + run_jobs(templates, views.take(0)).files =~= start);
        while i < jobs.len()
            invariant
                i <= jobs@.len(),
                self.wf(),
                views == job_views(jobs@),
                templates == self@.templates,
                start == file_views(old(out)@),
                run_jobs(templates, views.take(i as int)).failure is None,
                file_views(out@) == start + run_jobs(templates, views.take(i as int)).files,
            decreases jobs@.len() - i,
        {
            let ghost before = run_jobs(templates, views.take(i as int));
            let ghost files = file_views(out@);
            proof {
                assert(views.take(i + 1).drop_last() =~= views.take(i as int));
                assert(views.take(i + 1).last() == jobs@[i as int]@);
            }
            match &jobs[i] {
                Job::Render { template, path, data, fault } => {
                    match self.handlebars.render(template.as_str(), data) {
                        Ok(content) => {
                            let file = OutputFile { path: path.clone(), content };
                            out.push(file);
                            assert(file_views(out@) =~= files.push(file@));
                            assert(files.push(file@) =~= start + before.files.push(file@));
                        },
                        Err(words) => {
                            proof {
                                lemma_failure_ends_run(templates, views, i + 1);
                            }
                            return Err(
                                ZahuyachError::invalid_input_with(fault.as_str(), words.as_str()),
                            );
                        },
                    }
                },
                Job::Write { path, content } => {
                    let file = OutputFile { path: path.clone(), content: content.clone() };
                    out.push(file);
                    assert(file_views(out@) =~= files.push(file@));
                    assert(files.push(file@) =~= start + before.files.push(file@));
                },
            }
            i += 1;
        }
        assert(views.take(jobs@.len() as int) =~= views);
        Ok(())
    }

    /// Makes the pages of the documents and adds them to `out`.
    pub fn generate_posts(&self, clock: &Clock, out: &mut Vec<OutputFile>) -> (r: Result<
        (),
        ZahuyachError,
    >)
        requires
            self.wf(),
        ensures
            delivered(
                run_jobs(self@.templates, post_jobs(self@, clock@)),
                old(out)@,
                final(out)@,
                r,
            ),
    {
        let jobs = self.post_jobs(clock);
        self.run(&jobs, out)
    }

    /// Makes the index page and adds it to `out`.
    pub fn generate_index(&self, clock: &Clock, out: &mut Vec<OutputFile>) -> (r: Result<
        (),
        ZahuyachError,
    >)
        requires
            self.wf(),
        ensures
            delivered(
                run_jobs(self@.templates, index_jobs(self@, clock@)),
                old(out)@,
                final(out)@,
                r,
            ),
    {
        let jobs = self.index_jobs(clock);
        self.run(&jobs, out)
    }

    /// Makes the archive page and adds it to `out`.
    pub fn generate_archive(&self, clock: &Clock, out: &mut Vec<OutputFile>) -> (r: Result<
        (),
        ZahuyachError,
    >)
        requires
            self.wf(),
        ensures
            delivered(
                run_jobs(self@.templates, archive_jobs(self@, clock@)),
                old(out)@,
                final(out)@,
                r,
            ),
    {
        let jobs = self.archive_jobs(clock);
        self.run(&jobs, out)
    }

    /// Makes the pages of the tags and adds them to `out`.
    pub fn generate_tags_pages(&self, clock: &Clock, out: &mut Vec<OutputFile>) -> (r: Result<
        (),
        ZahuyachError,
    >)
        requires
            self.wf(),
        ensures
            delivered(
                run_jobs(self@.templates, tag_jobs(self@, clock@)),
                old(out)@,
                final(out)@,
                r,
            ),
    {
        let jobs = self.tag_jobs(clock);
        self.run(&jobs, out)
    }

    /// Makes the pages of the categories and adds them to `out`.
    pub fn generate_categories_pages(&self, clock: &Clock, out: &mut Vec<OutputFile>) -> (r: Result<
        (),
        ZahuyachError,
    >)
        requires
            self.wf(),
        ensures
            delivered(
                run_jobs(self@.templates, category_jobs(self@, clock@)),
                old(out)@,
                final(out)@,
                r,
            ),
    {
        let jobs = self.category_jobs(clock);
        self.run(&jobs, out)
    }

    /// Makes the feed and adds it to `out`.
    pub fn generate_rss_feed(&self, clock: &Clock, out: &mut Vec<OutputFile>) -> (r: Result<
        (),
        ZahuyachError,
    >)
        requires
            self.wf(),
        ensures
            delivered(
                run_jobs(self@.templates, feed_jobs(self@, clock@)),
                old(out)@,
                final(out)@,
                r,
            ),
    {
        let jobs = self.feed_jobs(clock);
        self.run(&jobs, out)
    }

    /// Makes the page about the site and adds it to `out`.
    pub fn generate_about_page(&self, clock: &Clock, out: &mut Vec<OutputFile>) -> (r: Result<
        (),
        ZahuyachError,
    >)
        requires
            self.wf(),
        ensures
            delivered(
                run_jobs(self@.templates, about_jobs(self@, clock@)),
                old(out)@,
                final(out)@,
                r,
            ),
    {
        let jobs = self.about_jobs(clock);
        self.run(&jobs, out)
    }

    /// Makes the page for addresses that lead nowhere and adds it to `out`.
    pub fn generate_404_page(&self, clock: &Clock, out: &mut Vec<OutputFile>) -> (r: Result<
        (),
        ZahuyachError,
    >)
        requires
            self.wf(),
        ensures
            delivered(
                run_jobs(self@.templates, not_found_jobs(self@, clock@)),
                old(out)@,
                final(out)@,
                r,
            ),
    {
        let jobs = self.not_found_jobs(clock);
        self.run(&jobs, out)
    }

    /// Builds the site: makes every file of it, in order, and adds them to
    /// `out`. The first page that fails ends the build; the files made
    /// before it stay in `out`.
    pub fn build(&self, clock: &Clock, out: &mut Vec<OutputFile>) -> (r: Result<(), ZahuyachError>)
        requires
            self.wf(),
        ensures
            delivered(
                run_jobs(self@.templates, site_jobs(self@, clock@)),
                old(out)@,
                final(out)@,
                r,
            ),
    {
        let jobs = self.plan(clock);
        self.run(&jobs, out)
    }

    /// The directories below the output directory that every build makes.
    pub fn output_directories() -> (r: Vec<String>)
        ensures
            r@.len() == 4,
            r@[0]@ == "posts"@,
            r@[1]@ == "categories"@,
            r@[2]@ == "tags"@,
            r@[3]@ == "static"@,
    {
        let mut r: Vec<String> = Vec::new();
        r.push("posts".to_owned());
        r.push("categories".to_owned());
        r.push("tags".to_owned());
        r.push("static".to_owned());
        r
    }
}

} // verus!
