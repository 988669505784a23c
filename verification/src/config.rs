//! The configuration of a site, as the build consumes it.

use vstd::prelude::*;

verus! {

#[derive(Debug, Clone)]
pub struct Config {
    pub site: SiteConfig,
    pub build: BuildConfig,
    pub markdown: Option<MarkdownConfig>,
    pub content: Option<ContentConfig>,
    pub rss: Option<RssConfig>,
    pub pagination: Option<PaginationConfig>,
    pub features: Option<FeaturesConfig>,
    pub date_format: Option<DateFormatConfig>,
    pub taxonomy: Option<TaxonomyConfig>,
    pub display: Option<DisplayConfig>,
}

#[derive(Debug, Clone)]
pub struct SiteConfig {
    pub title: String,
    pub description: String,
    pub author: String,
    pub base_url: String,
    pub language: Option<String>,
    pub timezone: Option<String>,
    pub email: Option<String>,
    pub social: Option<SocialConfig>,
}

#[derive(Debug, Clone)]
pub struct BuildConfig {
    pub output_dir: String,
    pub content_dir: String,
    pub static_dir: String,
    pub templates_dir: String,
    pub clean_output: Option<bool>,
    pub generate_rss: Option<bool>,
    pub rss_limit: Option<usize>,
    pub generate_sitemap: Option<bool>,
    pub clean_urls: Option<bool>,
    pub include_drafts: Option<bool>,
}

#[derive(Debug, Clone)]
pub struct MarkdownConfig {
    pub enable_tables: Option<bool>,
    pub enable_footnotes: Option<bool>,
    pub enable_strikethrough: Option<bool>,
    pub enable_tasklists: Option<bool>,
    pub enable_smart_punctuation: Option<bool>,
    pub enable_heading_attributes: Option<bool>,
    pub syntax_highlighting: Option<bool>,
    pub syntax_theme: Option<String>,
}

#[derive(Debug, Clone)]
pub struct ContentConfig {
    pub enable_smart_quotes: Option<bool>,
    pub enable_emoji: Option<bool>,
    pub external_links_new_tab: Option<bool>,
    pub add_anchor_links: Option<bool>,
    pub auto_excerpt: Option<bool>,
    pub excerpt_length: Option<usize>,
    pub excerpt_separator: Option<String>,
    /// Words per minute.
    pub reading_speed: Option<usize>,
}

#[derive(Debug, Clone)]
pub struct RssConfig {
    pub enabled: Option<bool>,
    pub limit: Option<usize>,
    pub full_content: Option<bool>,
    pub filename: Option<String>,
}

#[derive(Debug, Clone)]
pub struct PaginationConfig {
    pub posts_per_page: Option<usize>,
    pub pages_in_nav: Option<usize>,
    pub infinite_scroll: Option<bool>,
}

#[derive(Debug, Clone)]
pub struct FeaturesConfig {
    pub dark_mode: Option<bool>,
    pub light_mode: Option<bool>,
    pub auto_theme: Option<bool>,
    pub responsive: Option<bool>,
    pub seo_optimized: Option<bool>,
    pub rss_feed: Option<bool>,
    pub syntax_highlighting: Option<bool>,
    pub reading_time: Option<bool>,
    pub social_links: Option<bool>,
    pub code_copy: Option<bool>,
    pub back_to_top: Option<bool>,
    pub reading_progress: Option<bool>,
}

#[derive(Debug, Clone)]
pub struct DateFormatConfig {
    pub posts: Option<String>,
    pub archive: Option<String>,
    pub full: Option<String>,
}

#[derive(Debug, Clone)]
pub struct TaxonomyConfig {
    pub enable_tags: Option<bool>,
    pub enable_categories: Option<bool>,
    pub min_tag_count: Option<usize>,
    pub max_tags_in_cloud: Option<usize>,
}

#[derive(Debug, Clone)]
pub struct DisplayConfig {
    pub popular_tags_limit: Option<usize>,
    pub recent_posts_limit: Option<usize>,
    pub related_posts_limit: Option<usize>,
}

#[derive(Debug, Clone)]
pub struct SocialConfig {
    pub github: Option<String>,
    pub twitter: Option<String>,
    pub linkedin: Option<String>,
    pub email: Option<String>,
    pub mastodon: Option<String>,
    pub youtube: Option<String>,
    pub instagram: Option<String>,
    pub facebook: Option<String>,
}

/// The text of an optional string, or `default` where it is absent.
pub open spec fn text_or(value: Option<String>, default: Seq<char>) -> Seq<char> {
    match value {
        Some(s) => s@,
        None => default,
    }
}

/// The links to social networks that pages show, each empty where it is not
/// configured.
pub struct SocialLinks {
    pub github: Seq<char>,
    pub twitter: Seq<char>,
    pub linkedin: Seq<char>,
    pub email: Seq<char>,
    pub mastodon: Seq<char>,
    pub youtube: Seq<char>,
    pub instagram: Seq<char>,
    pub facebook: Seq<char>,
}

/// What the build reads of a configuration, with every default applied.
pub struct Settings {
    pub title: Seq<char>,
    pub description: Seq<char>,
    pub author: Seq<char>,
    pub base_url: Seq<char>,
    pub language: Seq<char>,
    pub timezone: Seq<char>,
    pub email: Seq<char>,
    pub social: SocialLinks,
    pub post_date_format: Seq<char>,
    pub archive_date_format: Seq<char>,
    pub excerpt_separator: Seq<char>,
    pub excerpt_length: nat,
    pub reading_speed: nat,
    pub rss_limit: nat,
    pub rss_filename: Seq<char>,
    pub rss_enabled: bool,
    pub posts_per_page: nat,
    pub include_drafts: bool,
    pub tags_enabled: bool,
    pub categories_enabled: bool,
    pub min_tag_count: nat,
    pub max_tags_in_cloud: nat,
    pub recent_posts_limit: nat,
}

impl SiteConfig {
    /// The social links of the site. The e-mail link falls back to the
    /// site's own address.
    pub open spec fn social_links(&self) -> SocialLinks {
        let site_email = text_or(self.email, Seq::empty());
        match self.social {
            Some(s) => SocialLinks {
                github: text_or(s.github, Seq::empty()),
                twitter: text_or(s.twitter, Seq::empty()),
                linkedin: text_or(s.linkedin, Seq::empty()),
                email: text_or(s.email, site_email),
                mastodon: text_or(s.mastodon, Seq::empty()),
                youtube: text_or(s.youtube, Seq::empty()),
                instagram: text_or(s.instagram, Seq::empty()),
                facebook: text_or(s.facebook, Seq::empty()),
            },
            None => SocialLinks {
                github: Seq::empty(),
                twitter: Seq::empty(),
                linkedin: Seq::empty(),
                email: site_email,
                mastodon: Seq::empty(),
                youtube: Seq::empty(),
                instagram: Seq::empty(),
                facebook: Seq::empty(),
            },
        }
    }
}

impl View for Config {
    type V = Settings;

    open spec fn view(&self) -> Settings {
        Settings {
            title: self.site.title@,
            description: self.site.description@,
            author: self.site.author@,
            base_url: self.site.base_url@,
            language: text_or(self.site.language, "ru"@),
            timezone: text_or(self.site.timezone, "UTC"@),
            email: text_or(self.site.email, Seq::empty()),
            social: self.site.social_links(),
            post_date_format: self.post_date_format(),
            archive_date_format: self.archive_date_format(),
            excerpt_separator: self.excerpt_separator(),
            excerpt_length: self.excerpt_length() as nat,
            reading_speed: self.reading_speed() as nat,
            rss_limit: self.rss_limit() as nat,
            rss_filename: self.rss_filename(),
            rss_enabled: self.rss_enabled(),
            posts_per_page: self.posts_per_page() as nat,
            include_drafts: self.drafts_included(),
            tags_enabled: self.tags_enabled(),
            categories_enabled: self.categories_enabled(),
            min_tag_count: self.min_tag_count() as nat,
            max_tags_in_cloud: self.max_tags_in_cloud() as nat,
            recent_posts_limit: self.recent_posts_limit() as nat,
        }
    }
}

impl Config {
    /// The line that ends a post's excerpt: `<!-- more -->` unless configured.
    pub open spec fn excerpt_separator(&self) -> Seq<char> {
        match self.content {
            Some(c) => text_or(c.excerpt_separator, "<!-- more -->"@),
            None => "<!-- more -->"@,
        }
    }

    /// The number of paragraphs of an excerpt: 3 unless configured.
    pub open spec fn excerpt_length(&self) -> usize {
        match self.content {
            Some(c) => c.excerpt_length.unwrap_or(3),
            None => 3,
        }
    }

    /// Words read per minute: 200 unless configured.
    pub open spec fn reading_speed(&self) -> usize {
        match self.content {
            Some(c) => c.reading_speed.unwrap_or(200),
            None => 200,
        }
    }

    /// The number of posts in the feed: the feed's own limit, else the
    /// build's, else 20.
    pub open spec fn rss_limit(&self) -> usize {
        match self.rss {
            Some(r) => match r.limit {
                Some(n) => n,
                None => self.build.rss_limit.unwrap_or(20),
            },
            None => self.build.rss_limit.unwrap_or(20),
        }
    }

    /// The number of posts on the index page: 10 unless configured.
    pub open spec fn posts_per_page(&self) -> usize {
        match self.pagination {
            Some(p) => p.posts_per_page.unwrap_or(10),
            None => 10,
        }
    }

    /// The file name of the feed: `feed.xml` unless configured.
    pub open spec fn rss_filename(&self) -> Seq<char> {
        match self.rss {
            Some(r) => text_or(r.filename, "feed.xml"@),
            None => "feed.xml"@,
        }
    }

    /// Whether a feed is made: the feed's own switch, else the build's,
    /// else yes.
    pub open spec fn rss_enabled(&self) -> bool {
        match self.rss {
            Some(r) => match r.enabled {
                Some(b) => b,
                None => self.build.generate_rss.unwrap_or(true),
            },
            None => self.build.generate_rss.unwrap_or(true),
        }
    }

    /// Whether the output directory is emptied first: yes unless configured.
    pub open spec fn clean_output(&self) -> bool {
        self.build.clean_output.unwrap_or(true)
    }

    /// Whether drafts are built: no unless configured.
    pub open spec fn drafts_included(&self) -> bool {
        self.build.include_drafts.unwrap_or(false)
    }

    /// The largest number of tags in the tag cloud: 50 unless configured.
    pub open spec fn max_tags_in_cloud(&self) -> usize {
        match self.taxonomy {
            Some(t) => t.max_tags_in_cloud.unwrap_or(50),
            None => 50,
        }
    }

    /// The number of posts a tag needs to enter the tag cloud: 1 unless
    /// configured.
    pub open spec fn min_tag_count(&self) -> usize {
        match self.taxonomy {
            Some(t) => t.min_tag_count.unwrap_or(1),
            None => 1,
        }
    }

    /// Whether tag pages are made: yes unless configured.
    pub open spec fn tags_enabled(&self) -> bool {
        match self.taxonomy {
            Some(t) => t.enable_tags.unwrap_or(true),
            None => true,
        }
    }

    /// Whether category pages are made: no unless configured.
    pub open spec fn categories_enabled(&self) -> bool {
        match self.taxonomy {
            Some(t) => t.enable_categories.unwrap_or(false),
            None => false,
        }
    }

    /// The length of the list of popular tags: 20 unless configured.
    pub open spec fn popular_tags_limit(&self) -> usize {
        match self.display {
            Some(d) => d.popular_tags_limit.unwrap_or(20),
            None => 20,
        }
    }

    /// The length of the list of recent posts: 5 unless configured.
    pub open spec fn recent_posts_limit(&self) -> usize {
        match self.display {
            Some(d) => d.recent_posts_limit.unwrap_or(5),
            None => 5,
        }
    }

    /// The length of the list of related posts: 3 unless configured.
    pub open spec fn related_posts_limit(&self) -> usize {
        match self.display {
            Some(d) => d.related_posts_limit.unwrap_or(3),
            None => 3,
        }
    }

    /// The pattern a post's date is shown with: `%B %d, %Y` unless
    /// configured.
    pub open spec fn post_date_format(&self) -> Seq<char> {
        match self.date_format {
            Some(f) => text_or(f.posts, "%B %d, %Y"@),
            None => "%B %d, %Y"@,
        }
    }

    /// The pattern a date is shown with in lists: `%b %d` unless configured.
    pub open spec fn archive_date_format(&self) -> Seq<char> {
        match self.date_format {
            Some(f) => text_or(f.archive, "%b %d"@),
            None => "%b %d"@,
        }
    }

    /// A configuration the build can work with: the reading speed, by which
    /// word counts are divided, is not zero.
    pub open spec fn well_formed(&self) -> bool {
        self.reading_speed() >= 1
    }

    pub fn get_excerpt_separator(&self) -> (r: &str)
        ensures
            r@ == self.excerpt_separator(),
    {
        match &self.content {
            Some(c) => match &c.excerpt_separator {
                Some(s) => s.as_str(),
                None => "<!-- more -->",
            },
            None => "<!-- more -->",
        }
    }

    pub fn get_excerpt_length(&self) -> (r: usize)
        ensures
            r == self.excerpt_length(),
    {
        match &self.content {
            Some(c) => match c.excerpt_length {
                Some(n) => n,
                None => 3,
            },
            None => 3,
        }
    }

    pub fn get_reading_speed(&self) -> (r: usize)
        ensures
            r == self.reading_speed(),
    {
        match &self.content {
            Some(c) => match c.reading_speed {
                Some(n) => n,
                None => 200,
            },
            None => 200,
        }
    }

    pub fn get_rss_limit(&self) -> (r: usize)
        ensures
            r == self.rss_limit(),
    {
        let own = match &self.rss {
            Some(r) => r.limit,
            None => None,
        };
        match own {
            Some(n) => n,
            None => match self.build.rss_limit {
                Some(n) => n,
                None => 20,
            },
        }
    }

    pub fn get_posts_per_page(&self) -> (r: usize)
        ensures
            r == self.posts_per_page(),
    {
        match &self.pagination {
            Some(p) => match p.posts_per_page {
                Some(n) => n,
                None => 10,
            },
            None => 10,
        }
    }

    pub fn get_rss_filename(&self) -> (r: &str)
        ensures
            r@ == self.rss_filename(),
    {
        match &self.rss {
            Some(r) => match &r.filename {
                Some(s) => s.as_str(),
                None => "feed.xml",
            },
            None => "feed.xml",
        }
    }

    pub fn is_rss_enabled(&self) -> (r: bool)
        ensures
            r == self.rss_enabled(),
    {
        let own = match &self.rss {
            Some(r) => r.enabled,
            None => None,
        };
        match own {
            Some(b) => b,
            None => match self.build.generate_rss {
                Some(b) => b,
                None => true,
            },
        }
    }

    pub fn should_clean_output(&self) -> (r: bool)
        ensures
            r == self.clean_output(),
    {
        match self.build.clean_output {
            Some(b) => b,
            None => true,
        }
    }

    pub fn include_drafts(&self) -> (r: bool)
        ensures
            r == self.drafts_included(),
    {
        match self.build.include_drafts {
            Some(b) => b,
            None => false,
        }
    }

    pub fn get_max_tags_in_cloud(&self) -> (r: usize)
        ensures
            r == self.max_tags_in_cloud(),
    {
        match &self.taxonomy {
            Some(t) => match t.max_tags_in_cloud {
                Some(n) => n,
                None => 50,
            },
            None => 50,
        }
    }

    pub fn get_min_tag_count(&self) -> (r: usize)
        ensures
            r == self.min_tag_count(),
    {
        match &self.taxonomy {
            Some(t) => match t.min_tag_count {
                Some(n) => n,
                None => 1,
            },
            None => 1,
        }
    }

    pub fn is_tags_enabled(&self) -> (r: bool)
        ensures
            r == self.tags_enabled(),
    {
        match &self.taxonomy {
            Some(t) => match t.enable_tags {
                Some(b) => b,
                None => true,
            },
            None => true,
        }
    }

    pub fn is_categories_enabled(&self) -> (r: bool)
        ensures
            r == self.categories_enabled(),
    {
        match &self.taxonomy {
            Some(t) => match t.enable_categories {
                Some(b) => b,
                None => false,
            },
            None => false,
        }
    }

    pub fn get_popular_tags_limit(&self) -> (r: usize)
        ensures
            r == self.popular_tags_limit(),
    {
        match &self.display {
            Some(d) => match d.popular_tags_limit {
                Some(n) => n,
                None => 20,
            },
            None => 20,
        }
    }

    pub fn get_recent_posts_limit(&self) -> (r: usize)
        ensures
            r == self.recent_posts_limit(),
    {
        match &self.display {
            Some(d) => match d.recent_posts_limit {
                Some(n) => n,
                None => 5,
            },
            None => 5,
        }
    }

    pub fn get_related_posts_limit(&self) -> (r: usize)
        ensures
            r == self.related_posts_limit(),
    {
        match &self.display {
            Some(d) => match d.related_posts_limit {
                Some(n) => n,
                None => 3,
            },
            None => 3,
        }
    }

    /// The pattern a post's date is shown with.
    pub fn get_post_date_format(&self) -> (r: &str)
        ensures
            r@ == self.post_date_format(),
    {
        match &self.date_format {
            Some(f) => match &f.posts {
                Some(s) => s.as_str(),
                None => "%B %d, %Y",
            },
            None => "%B %d, %Y",
        }
    }

    /// The pattern a date is shown with in lists.
    pub fn get_archive_date_format(&self) -> (r: &str)
        ensures
            r@ == self.archive_date_format(),
    {
        match &self.date_format {
            Some(f) => match &f.archive {
                Some(s) => s.as_str(),
                None => "%b %d",
            },
            None => "%b %d",
        }
    }

    /// Whether the build can work with this configuration.
    pub fn is_well_formed(&self) -> (r: bool)
        ensures
            r == self.well_formed(),
    {
        self.get_reading_speed() >= 1
    }
}

} // verus!
