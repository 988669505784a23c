use zahuyach::config::{
    BuildConfig, Config, ContentConfig, DateFormatConfig, DisplayConfig, FeaturesConfig,
    MarkdownConfig, PaginationConfig, RssConfig, SiteConfig, SocialConfig, TaxonomyConfig,
};

fn table<'a>(t: &'a toml::Table, key: &str) -> Option<&'a toml::Table> {
    t.get(key).and_then(|v| v.as_table())
}

fn text(t: &toml::Table, key: &str) -> Option<String> {
    t.get(key).and_then(|v| v.as_str()).map(|s| s.to_string())
}

fn flag(t: &toml::Table, key: &str) -> Option<bool> {
    t.get(key).and_then(|v| v.as_bool())
}

fn count(t: &toml::Table, key: &str) -> Option<usize> {
    t.get(key).and_then(|v| v.as_integer()).map(|n| n as usize)
}

fn config_of(source: &str) -> Config {
    let root: toml::Table = toml::from_str(source).unwrap();
    let site = table(&root, "site").unwrap();
    let build = table(&root, "build").unwrap();
    Config {
        site: SiteConfig {
            title: text(site, "title").unwrap(),
            description: text(site, "description").unwrap(),
            author: text(site, "author").unwrap(),
            base_url: text(site, "base_url").unwrap(),
            language: text(site, "language"),
            timezone: text(site, "timezone"),
            email: text(site, "email"),
            social: table(site, "social").map(|s| SocialConfig {
                github: text(s, "github"),
                twitter: text(s, "twitter"),
                linkedin: text(s, "linkedin"),
                email: text(s, "email"),
                mastodon: text(s, "mastodon"),
                youtube: text(s, "youtube"),
                instagram: text(s, "instagram"),
                facebook: text(s, "facebook"),
            }),
        },
        build: BuildConfig {
            output_dir: text(build, "output_dir").unwrap(),
            content_dir: text(build, "content_dir").unwrap(),
            static_dir: text(build, "static_dir").unwrap(),
            templates_dir: text(build, "templates_dir").unwrap(),
            clean_output: flag(build, "clean_output"),
            generate_rss: flag(build, "generate_rss"),
            rss_limit: count(build, "rss_limit"),
            generate_sitemap: flag(build, "generate_sitemap"),
            clean_urls: flag(build, "clean_urls"),
            include_drafts: flag(build, "include_drafts"),
        },
        markdown: table(&root, "markdown").map(|m| MarkdownConfig {
            enable_tables: flag(m, "enable_tables"),
            enable_footnotes: flag(m, "enable_footnotes"),
            enable_strikethrough: flag(m, "enable_strikethrough"),
            enable_tasklists: flag(m, "enable_tasklists"),
            enable_smart_punctuation: flag(m, "enable_smart_punctuation"),
            enable_heading_attributes: flag(m, "enable_heading_attributes"),
            syntax_highlighting: flag(m, "syntax_highlighting"),
            syntax_theme: text(m, "syntax_theme"),
        }),
        content: table(&root, "content").map(|c| ContentConfig {
            enable_smart_quotes: flag(c, "enable_smart_quotes"),
            enable_emoji: flag(c, "enable_emoji"),
            external_links_new_tab: flag(c, "external_links_new_tab"),
            add_anchor_links: flag(c, "add_anchor_links"),
            auto_excerpt: flag(c, "auto_excerpt"),
            excerpt_length: count(c, "excerpt_length"),
            excerpt_separator: text(c, "excerpt_separator"),
            reading_speed: count(c, "reading_speed"),
        }),
        rss: table(&root, "rss").map(|r| RssConfig {
            enabled: flag(r, "enabled"),
            limit: count(r, "limit"),
            full_content: flag(r, "full_content"),
            filename: text(r, "filename"),
        }),
        pagination: table(&root, "pagination").map(|p| PaginationConfig {
            posts_per_page: count(p, "posts_per_page"),
            pages_in_nav: count(p, "pages_in_nav"),
            infinite_scroll: flag(p, "infinite_scroll"),
        }),
        features: table(&root, "features").map(|f| FeaturesConfig {
            dark_mode: flag(f, "dark_mode"),
            light_mode: flag(f, "light_mode"),
            auto_theme: flag(f, "auto_theme"),
            responsive: flag(f, "responsive"),
            seo_optimized: flag(f, "seo_optimized"),
            rss_feed: flag(f, "rss_feed"),
            syntax_highlighting: flag(f, "syntax_highlighting"),
            reading_time: flag(f, "reading_time"),
            social_links: flag(f, "social_links"),
            code_copy: flag(f, "code_copy"),
            back_to_top: flag(f, "back_to_top"),
            reading_progress: flag(f, "reading_progress"),
        }),
        date_format: table(&root, "date_format").map(|d| DateFormatConfig {
            posts: text(d, "posts"),
            archive: text(d, "archive"),
            full: text(d, "full"),
        }),
        taxonomy: table(&root, "taxonomy").map(|t| TaxonomyConfig {
            enable_tags: flag(t, "enable_tags"),
            enable_categories: flag(t, "enable_categories"),
            min_tag_count: count(t, "min_tag_count"),
            max_tags_in_cloud: count(t, "max_tags_in_cloud"),
        }),
        display: table(&root, "display").map(|d| DisplayConfig {
            popular_tags_limit: count(d, "popular_tags_limit"),
            recent_posts_limit: count(d, "recent_posts_limit"),
            related_posts_limit: count(d, "related_posts_limit"),
        }),
    }
}

#[test]
fn test_config_defaults() {
    let config = Config {
        site: SiteConfig {
            title: "Test".to_string(),
            description: "Test".to_string(),
            author: "Test".to_string(),
            base_url: "http://test.com".to_string(),
            language: None,
            timezone: None,
            email: None,
            social: None,
        },
        build: BuildConfig {
            output_dir: "dist".to_string(),
            content_dir: "content".to_string(),
            static_dir: "static".to_string(),
            templates_dir: "templates".to_string(),
            clean_output: None,
            generate_rss: None,
            rss_limit: None,
            generate_sitemap: None,
            clean_urls: None,
            include_drafts: None,
        },
        markdown: None,
        content: None,
        rss: None,
        pagination: None,
        features: None,
        date_format: None,
        taxonomy: None,
        display: None,
    };

    assert_eq!(config.get_excerpt_separator(), "<!-- more -->");
    assert_eq!(config.get_excerpt_length(), 3);
    assert_eq!(config.get_reading_speed(), 200);
    assert_eq!(config.get_rss_limit(), 20);
    assert_eq!(config.get_posts_per_page(), 10);
    assert_eq!(config.get_rss_filename(), "feed.xml");
    assert!(config.is_rss_enabled());
    assert!(config.should_clean_output());
    assert!(!config.include_drafts());
}

#[test]
fn test_config_from_toml() {
    let toml_str = r#"
[site]
title = "Test Blog"
description = "A test blog"
author = "Test Author"
base_url = "https://test.com"
language = "en"
timezone = "Europe/Moscow"
email = "test@test.com"

[site.social]
github = "https://github.com/test"
twitter = "https://twitter.com/test"
linkedin = "https://linkedin.com/in/test"
email = "social@test.com"

[build]
output_dir = "public"
content_dir = "posts"
static_dir = "assets"
templates_dir = "themes"
clean_output = false
generate_rss = true
rss_limit = 30
generate_sitemap = true
clean_urls = false
include_drafts = true

[markdown]
enable_tables = true
enable_footnotes = false
enable_strikethrough = true
enable_tasklists = true
enable_smart_punctuation = false
enable_heading_attributes = true
syntax_highlighting = true
syntax_theme = "monokai"

[content]
enable_smart_quotes = false
enable_emoji = true
external_links_new_tab = false
add_anchor_links = true
auto_excerpt = false
excerpt_length = 5
excerpt_separator = "<!--break-->"
reading_speed = 250

[rss]
enabled = false
limit = 15
full_content = false
filename = "atom.xml"

[pagination]
posts_per_page = 20
pages_in_nav = 7
infinite_scroll = true

[features]
dark_mode = true
light_mode = false
auto_theme = true
reading_time = false

[date_format]
posts = "%d/%m/%Y"
archive = "%d.%m"
full = "%d/%m/%Y %H:%M"

[taxonomy]
enable_tags = false
enable_categories = true
min_tag_count = 2
max_tags_in_cloud = 100

[display]
popular_tags_limit = 30
recent_posts_limit = 10
related_posts_limit = 5
"#;

    let config: Config = config_of(toml_str);

    // Test site config
    assert_eq!(config.site.title, "Test Blog");
    assert_eq!(config.site.description, "A test blog");
    assert_eq!(config.site.author, "Test Author");
    assert_eq!(config.site.base_url, "https://test.com");
    assert_eq!(config.site.language.as_ref().unwrap(), "en");
    assert_eq!(config.site.timezone.as_ref().unwrap(), "Europe/Moscow");
    assert_eq!(config.site.email.as_ref().unwrap(), "test@test.com");

    // Test social config
    let social = config.site.social.as_ref().unwrap();
    assert_eq!(social.github.as_ref().unwrap(), "https://github.com/test");
    assert_eq!(social.twitter.as_ref().unwrap(), "https://twitter.com/test");
    assert_eq!(social.email.as_ref().unwrap(), "social@test.com");

    // Test build config
    assert_eq!(config.build.output_dir, "public");
    assert_eq!(config.build.content_dir, "posts");
    assert_eq!(config.build.static_dir, "assets");
    assert_eq!(config.build.templates_dir, "themes");
    assert_eq!(config.build.clean_output, Some(false));
    assert_eq!(config.build.generate_rss, Some(true));
    assert_eq!(config.build.rss_limit, Some(30));
    assert_eq!(config.build.include_drafts, Some(true));

    // Test markdown config
    let markdown = config.markdown.as_ref().unwrap();
    assert_eq!(markdown.enable_tables, Some(true));
    assert_eq!(markdown.enable_footnotes, Some(false));
    assert_eq!(markdown.syntax_theme.as_ref().unwrap(), "monokai");

    // Test content config
    let content = config.content.as_ref().unwrap();
    assert_eq!(content.enable_smart_quotes, Some(false));
    assert_eq!(content.excerpt_separator.as_ref().unwrap(), "<!--break-->");
    assert_eq!(content.reading_speed, Some(250));

    // Test RSS config
    let rss = config.rss.as_ref().unwrap();
    assert_eq!(rss.enabled, Some(false));
    assert_eq!(rss.limit, Some(15));
    assert_eq!(rss.filename.as_ref().unwrap(), "atom.xml");

    // Test helper methods
    assert_eq!(config.get_excerpt_separator(), "<!--break-->");
    assert_eq!(config.get_excerpt_length(), 5);
    assert_eq!(config.get_reading_speed(), 250);
    assert_eq!(config.get_rss_limit(), 15);
    assert_eq!(config.get_posts_per_page(), 20);
    assert_eq!(config.get_rss_filename(), "atom.xml");
    assert!(!config.is_rss_enabled());
    assert!(!config.should_clean_output());
    assert!(config.include_drafts());
    assert_eq!(config.get_popular_tags_limit(), 30);
    assert_eq!(config.get_recent_posts_limit(), 10);
    assert_eq!(config.get_max_tags_in_cloud(), 100);
    assert!(!config.is_tags_enabled());
    assert!(config.is_categories_enabled());
}

#[test]
fn test_config_fallbacks() {
    let mut config = config_of(
        "[site]\ntitle = \"T\"\ndescription = \"D\"\nauthor = \"A\"\nbase_url = \"u\"\n[build]\noutput_dir = \"o\"\ncontent_dir = \"c\"\nstatic_dir = \"s\"\ntemplates_dir = \"t\"\nrss_limit = 7\ngenerate_rss = false\n",
    );
    assert_eq!(config.get_rss_limit(), 7);
    assert!(!config.is_rss_enabled());
    assert_eq!(config.get_max_tags_in_cloud(), 50);
    assert_eq!(config.get_min_tag_count(), 1);
    assert!(config.is_tags_enabled());
    assert!(!config.is_categories_enabled());
    assert_eq!(config.get_popular_tags_limit(), 20);
    assert_eq!(config.get_recent_posts_limit(), 5);
    assert_eq!(config.get_related_posts_limit(), 3);
    assert_eq!(config.get_post_date_format(), "%B %d, %Y");
    assert_eq!(config.get_archive_date_format(), "%b %d");
    assert!(config.is_well_formed());
    config.content = Some(ContentConfig {
        enable_smart_quotes: None,
        enable_emoji: None,
        external_links_new_tab: None,
        add_anchor_links: None,
        auto_excerpt: None,
        excerpt_length: None,
        excerpt_separator: None,
        reading_speed: Some(0),
    });
    assert!(!config.is_well_formed());
}
