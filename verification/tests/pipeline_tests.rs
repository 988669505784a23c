use zahuyach::config::{BuildConfig, Config, ContentConfig, RssConfig, SiteConfig, TaxonomyConfig};
use zahuyach::content::{FrontMatter, Post};
use zahuyach::context::Clock;
use zahuyach::data::Data;
use zahuyach::generator::{Job, OutputFile, SiteGenerator};
use zahuyach::templates::BasicTemplate;

fn config() -> Config {
    Config {
        site: SiteConfig {
            title: "Site".to_string(),
            description: "About things".to_string(),
            author: "Ann".to_string(),
            base_url: "https://example.org".to_string(),
            language: None,
            timezone: None,
            email: Some("ann@example.org".to_string()),
            social: None,
        },
        build: BuildConfig {
            output_dir: "dist".to_string(),
            content_dir: "content".to_string(),
            static_dir: "static".to_string(),
            templates_dir: "templates".to_string(),
            clean_output: None,
            generate_rss: None,
            rss_limit: None,
            generate_sitemap: None,
            clean_urls: None,
            include_drafts: None,
        },
        markdown: None,
        content: None,
        rss: None,
        pagination: None,
        features: None,
        date_format: None,
        taxonomy: None,
        display: None,
    }
}

fn taxonomy(min_tag_count: usize, max_tags_in_cloud: Option<usize>) -> Option<TaxonomyConfig> {
    Some(TaxonomyConfig {
        enable_tags: None,
        enable_categories: Some(true),
        min_tag_count: Some(min_tag_count),
        max_tags_in_cloud,
    })
}

fn post(slug: &str, date: &str, tags: &[&str], body: &str) -> Post {
    Post::new(
        FrontMatter {
            title: format!("Title of {}", slug),
            date: date.to_string(),
            author: None,
            tags: Some(tags.iter().map(|t| t.to_string()).collect()),
            categories: None,
            description: None,
            draft: None,
            featured: None,
        },
        body.to_string(),
        slug.to_string(),
        format!("content/{}.md", slug),
    )
}

fn clock() -> Clock {
    Clock {
        year: 2024,
        build_date: "Mon, 01 Apr 2024 10:00:00 +0000".to_string(),
        today: "2024-04-01".to_string(),
    }
}

fn field<'a>(data: &'a Data, name: &str) -> &'a Data {
    match data {
        Data::Object(fields) => match fields.iter().find(|f| f.name == name) {
            Some(f) => &f.value,
            None => panic!("no field {}", name),
        },
        _ => panic!("no object"),
    }
}

fn items(data: &Data) -> &Vec<Data> {
    match data {
        Data::List(items) => items,
        _ => panic!("no list"),
    }
}

fn text_of(data: &Data) -> &str {
    match data {
        Data::Text(s) => s.as_str(),
        _ => panic!("no text"),
    }
}

fn number_of(data: &Data) -> i128 {
    match data {
        Data::Count(n) => *n as i128,
        Data::Int(n) => *n as i128,
        _ => panic!("no number"),
    }
}

fn three_documents(min_tag_count: usize) -> SiteGenerator {
    let mut c = config();
    c.taxonomy = taxonomy(min_tag_count, None);
    let mut generator = SiteGenerator::new(c).unwrap();
    generator
        .load_posts(vec![
            post("march", "2024-03-01", &["a"], "one two three"),
            post("january", "2024-01-15", &["a", "b"], "one"),
            post("february", "2024-02-20", &["b"], "one two"),
        ])
        .unwrap();
    generator
}

fn data_of<'a>(jobs: &'a [Job], wanted: &str) -> &'a Data {
    for job in jobs {
        if let Job::Render { path, data, .. } = job {
            if path == wanted {
                return data;
            }
        }
    }
    panic!("no job for {}", wanted)
}

fn paths_of(files: &[OutputFile]) -> Vec<String> {
    files.iter().map(|f| f.path.clone()).collect()
}

#[test]
fn test_three_documents_are_loaded_newest_first() {
    let generator = three_documents(2);
    let slugs: Vec<&str> = generator.posts().iter().map(|p| p.slug.as_str()).collect();
    assert_eq!(slugs, vec!["march", "february", "january"]);
}

#[test]
fn test_three_documents_popular_tags() {
    let generator = three_documents(2);
    let tags = generator.get_popular_tags();
    let tags = items(&tags);
    assert_eq!(tags.len(), 2);
    assert_eq!(text_of(field(&tags[0], "name")), "a");
    assert_eq!(number_of(field(&tags[0], "count")), 2);
    assert_eq!(text_of(field(&tags[0], "slug")), "a");
    assert_eq!(text_of(field(&tags[1], "name")), "b");
    assert_eq!(number_of(field(&tags[1], "count")), 2);
}

#[test]
fn test_three_documents_archive() {
    let mut generator = three_documents(2);
    generator.load_template("archive", "{{total_posts}}").unwrap();
    let jobs = generator.archive_jobs(&clock());
    let data = data_of(&jobs, "archive.html");
    let years = items(field(data, "posts_by_year"));
    assert_eq!(years.len(), 1);
    assert_eq!(text_of(field(&years[0], "year")), "2024");
    let posts = items(field(&years[0], "posts"));
    let dates: Vec<&str> = posts.iter().map(|p| text_of(field(p, "date_iso"))).collect();
    assert_eq!(dates, vec!["2024-03-01", "2024-02-20", "2024-01-15"]);
    assert_eq!(text_of(field(&posts[0], "url")), "/posts/march");
    assert_eq!(number_of(field(data, "total_posts")), 3);
    let by_date = field(field(data, "posts_by_date"), "2024");
    let march = items(field(by_date, "03"));
    assert_eq!(march.len(), 1);
    assert_eq!(text_of(field(&march[0], "slug")), "march");
    assert_eq!(text_of(field(field(&march[0], "front_matter"), "date")), "2024-03-01");
    assert!(matches!(field(field(&march[0], "front_matter"), "author"), Data::Null));
}

#[test]
fn test_archive_orders_years_and_months_and_skips_undated() {
    let mut generator = SiteGenerator::new(config()).unwrap();
    generator
        .load_posts(vec![
            post("a", "2023-12-05", &[], ""),
            post("b", "2024-01-10", &[], ""),
            post("c", "2024-11-02", &[], ""),
            post("d", "undated", &[], ""),
            post("e", "2024-11-20", &[], ""),
        ])
        .unwrap();
    generator.load_template("archive", "x").unwrap();
    let jobs = generator.archive_jobs(&clock());
    let years = items(field(data_of(&jobs, "archive.html"), "posts_by_year"));
    let names: Vec<&str> = years.iter().map(|y| text_of(field(y, "year"))).collect();
    assert_eq!(names, vec!["2024", "2023"]);
    let first: Vec<&str> =
        items(field(&years[0], "posts")).iter().map(|p| text_of(field(p, "date_iso"))).collect();
    assert_eq!(first, vec!["2024-11-20", "2024-11-02", "2024-01-10"]);
    let second: Vec<&str> =
        items(field(&years[1], "posts")).iter().map(|p| text_of(field(p, "date_iso"))).collect();
    assert_eq!(second, vec!["2023-12-05"]);
}

#[test]
fn test_tag_filtering_boundary() {
    let generator = three_documents(2);
    let mut c = config();
    c.taxonomy = taxonomy(3, None);
    let mut strict = SiteGenerator::new(c).unwrap();
    strict
        .load_posts(vec![
            post("x", "2024-01-01", &["a", "b"], ""),
            post("y", "2024-01-02", &["a", "b"], ""),
            post("z", "2024-01-03", &["a"], ""),
        ])
        .unwrap();
    // `a` has exactly three documents and stays, `b` has two and goes
    let tags = strict.get_popular_tags();
    let names: Vec<&str> = items(&tags).iter().map(|t| text_of(field(t, "name"))).collect();
    assert_eq!(names, vec!["a"]);
    assert_eq!(items(&generator.get_popular_tags()).len(), 2);
}

#[test]
fn test_popular_tags_rank_by_count_then_name_and_are_capped() {
    let mut c = config();
    c.taxonomy = taxonomy(1, Some(3));
    let mut generator = SiteGenerator::new(c).unwrap();
    generator
        .load_posts(vec![
            post("x", "2024-01-01", &["zeta", "beta", "alpha"], ""),
            post("y", "2024-01-02", &["zeta", "gamma"], ""),
            post("z", "2024-01-03", &["zeta", "beta", "beta"], ""),
        ])
        .unwrap();
    let tags = generator.get_popular_tags();
    let found: Vec<(&str, i128)> = items(&tags)
        .iter()
        .map(|t| (text_of(field(t, "name")), number_of(field(t, "count"))))
        .collect();
    // a tag named twice by one document counts once
    assert_eq!(found, vec![("zeta", 3), ("beta", 2), ("alpha", 1)]);
}

#[test]
fn test_categories_are_grouped_by_name() {
    let mut generator = SiteGenerator::new(config()).unwrap();
    let mut first = post("x", "2024-01-01", &[], "");
    first.front_matter.categories = Some(vec!["rust".to_string(), "code".to_string()]);
    let mut second = post("y", "2024-01-02", &[], "");
    second.front_matter.categories = Some(vec!["rust".to_string()]);
    generator.load_posts(vec![first, second]).unwrap();
    let tree = generator.get_categories_tree();
    let found: Vec<(&str, i128)> = items(&tree)
        .iter()
        .map(|t| (text_of(field(t, "name")), number_of(field(t, "posts_count"))))
        .collect();
    assert_eq!(found, vec![("code", 1), ("rust", 2)]);
    assert!(matches!(field(&items(&tree)[0], "has_children"), Data::Flag(false)));
    let stats = generator.get_site_stats(&clock());
    assert_eq!(number_of(field(&stats, "total_categories")), 2);
    assert_eq!(number_of(field(&stats, "total_posts")), 2);
    assert_eq!(text_of(field(&stats, "last_updated")), "2024-04-01");
}

#[test]
fn test_drafts_are_left_out_unless_included() {
    let mut draft = post("draft", "2024-05-01", &["a"], "");
    draft.front_matter.draft = Some(true);
    let mut generator = SiteGenerator::new(config()).unwrap();
    generator.load_posts(vec![draft.clone(), post("done", "2024-04-01", &["a"], "")]).unwrap();
    let slugs: Vec<&str> = generator.posts().iter().map(|p| p.slug.as_str()).collect();
    assert_eq!(slugs, vec!["done"]);
    assert_eq!(number_of(field(&items(&generator.get_popular_tags())[0], "count")), 1);

    let mut c = config();
    c.build.include_drafts = Some(true);
    let mut with_drafts = SiteGenerator::new(c).unwrap();
    with_drafts.load_posts(vec![draft, post("done", "2024-04-01", &["a"], "")]).unwrap();
    let slugs: Vec<&str> = with_drafts.posts().iter().map(|p| p.slug.as_str()).collect();
    assert_eq!(slugs, vec!["draft", "done"]);
    assert_eq!(number_of(field(&items(&with_drafts.get_popular_tags())[0], "count")), 2);
}

#[test]
fn test_equal_dates_keep_their_order() {
    let mut generator = SiteGenerator::new(config()).unwrap();
    generator
        .load_posts(vec![
            post("first", "2024-01-01", &[], ""),
            post("second", "2024-01-01", &[], ""),
            post("newer", "2024-01-02", &[], ""),
        ])
        .unwrap();
    generator.load_posts(vec![post("third", "2024-01-01", &[], "")]).unwrap();
    let slugs: Vec<&str> = generator.posts().iter().map(|p| p.slug.as_str()).collect();
    assert_eq!(slugs, vec!["newer", "first", "second", "third"]);
}

#[test]
fn test_duplicate_slug_is_an_error() {
    let mut generator = SiteGenerator::new(config()).unwrap();
    generator.load_posts(vec![post("one", "2024-01-01", &[], "")]).unwrap();
    let result = generator
        .load_posts(vec![post("two", "2024-01-02", &[], ""), post("one", "2024-01-03", &[], "")]);
    assert_eq!(result.unwrap_err().message(), "Error: Invalid input: Duplicate slug: one");
    assert_eq!(generator.posts().len(), 1);
}

#[test]
fn test_empty_templates_build() {
    let mut c = config();
    c.rss = Some(RssConfig { enabled: Some(false), limit: None, full_content: None, filename: None });
    let mut generator = SiteGenerator::new(c).unwrap();
    generator.load_posts(vec![post("one", "2024-01-01", &["a"], "text")]).unwrap();
    let mut files = Vec::new();
    assert!(generator.build(&clock(), &mut files).is_ok());
    assert!(files.is_empty());
}

#[test]
fn test_empty_templates_build_writes_no_feed() {
    let mut generator = SiteGenerator::new(config()).unwrap();
    generator.load_posts(vec![post("one", "2024-01-01", &["a"], "text")]).unwrap();
    assert!(generator.config().is_rss_enabled());
    let mut files = Vec::new();
    assert!(generator.build(&clock(), &mut files).is_ok());
    assert!(files.is_empty());
    assert!(generator.plan(&clock()).is_empty());
}

#[test]
fn test_plain_feed_is_written_beside_other_templates() {
    let mut generator = SiteGenerator::new(config()).unwrap();
    generator.load_posts(vec![post("one", "2024-01-01", &["a"], "text")]).unwrap();
    generator.load_template("about", "{{page.title}}").unwrap();
    let mut files = Vec::new();
    assert!(generator.build(&clock(), &mut files).is_ok());
    assert_eq!(paths_of(&files), vec!["about.html", "feed.xml"]);
    assert_eq!(
        files[1].content,
        "<?xml version=\"1.0\" encoding=\"UTF-8\"?>\n<rss version=\"2.0\">\n<channel>\n<title>Site</title>\n<description>About things</description>\n<link>https://example.org</link>\n<lastBuildDate>Mon, 01 Apr 2024 10:00:00 +0000</lastBuildDate>\n<item>\n<title>Title of one</title>\n<link>https://example.org/posts/one</link>\n<description>Title of one</description>\n<pubDate>2024-01-01</pubDate>\n</item>\n</channel>\n</rss>"
    );
}

#[test]
fn test_plain_feed_is_limited_and_not_escaped() {
    let mut c = config();
    c.site.title = "A & B".to_string();
    c.rss = Some(RssConfig { enabled: None, limit: Some(1), full_content: None, filename: None });
    let mut generator = SiteGenerator::new(c).unwrap();
    generator
        .load_posts(vec![post("old", "2024-01-01", &[], ""), post("new", "2024-02-01", &[], "")])
        .unwrap();
    let feed = generator.generate_simple_rss(&clock());
    assert!(feed.contains("<title>A & B</title>"));
    assert!(feed.contains("/posts/new"));
    assert!(!feed.contains("/posts/old"));
}

#[test]
fn test_build_renders_every_family_in_order() {
    let mut c = config();
    c.taxonomy = taxonomy(1, None);
    let mut generator = SiteGenerator::new(c).unwrap();
    generator
        .load_posts(vec![
            post("one", "2024-01-01", &["Rust Lang"], "text"),
            post("two", "2024-02-01", &["go"], "text"),
        ])
        .unwrap();
    let mut with_category = post("three", "2024-03-01", &[], "text");
    with_category.front_matter.categories = Some(vec!["Notes".to_string()]);
    generator.load_posts(vec![with_category]).unwrap();
    for name in ["post", "index", "archive", "about", "tags", "tag", "category", "rss", "404"] {
        generator.load_template(name, "{{page.title}}|{{site.title}}").unwrap();
        assert!(generator.has_template(name));
    }
    assert!(!generator.has_template("missing"));
    let mut files = Vec::new();
    generator.build(&clock(), &mut files).unwrap();
    assert_eq!(
        paths_of(&files),
        vec![
            "posts/three.html",
            "posts/two.html",
            "posts/one.html",
            "index.html",
            "archive.html",
            "about.html",
            "tags/index.html",
            "tags/rust-lang.html",
            "tags/go.html",
            "categories/notes/index.html",
            "feed.xml",
            "404.html",
        ]
    );
    assert_eq!(files[0].content, "Title of three|Site");
    assert_eq!(files[5].content, "About|Site");
    assert_eq!(files[7].content, "\u{422}\u{435}\u{433}: Rust Lang|Site");
    assert_eq!(files[11].content, "404 - Page Not Found|Site");
}

#[test]
fn test_post_page_is_rendered_with_its_data() {
    let mut generator = SiteGenerator::new(config()).unwrap();
    generator
        .load_posts(vec![post("hello", "2024-03-01T10:00:00+02:00", &["a", "b"], "Some *text* here")])
        .unwrap();
    generator
        .load_template(
            "post",
            "{{post.title}};{{post.date}};{{post.date_short}};{{post.author}};{{post.reading_time}};{{post.word_count}};{{#each post.tags}}[{{this}}]{{/each}};{{{post.content}}};{{page.url}};{{site.current_year}};{{site.language}};{{site.social.email}}",
        )
        .unwrap();
    let mut files = Vec::new();
    generator.generate_posts(&clock(), &mut files).unwrap();
    assert_eq!(paths_of(&files), vec!["posts/hello.html"]);
    assert_eq!(
        files[0].content,
        "Title of hello;March 01, 2024;Mar 01;Ann;1;3;[a][b];<p>Some <em>text</em> here</p>\n;/posts/hello;2024;ru;ann@example.org"
    );
}

#[test]
fn test_index_lists_posts_with_limit() {
    let mut c = config();
    c.pagination = Some(zahuyach::config::PaginationConfig {
        posts_per_page: Some(2),
        pages_in_nav: None,
        infinite_scroll: None,
    });
    let mut generator = SiteGenerator::new(c).unwrap();
    generator
        .load_posts(vec![
            post("a", "2024-01-01", &[], "x"),
            post("b", "2024-01-02", &[], "x"),
            post("c", "2024-01-03", &[], "x"),
        ])
        .unwrap();
    generator
        .load_template("index", "{{#each posts}}{{slug}}:{{permalink}}:{{featured}};{{/each}}{{stats.total_words}}")
        .unwrap();
    let mut files = Vec::new();
    generator.generate_index(&clock(), &mut files).unwrap();
    assert_eq!(
        files[0].content,
        "c:https://example.org/posts/c:false;b:https://example.org/posts/b:false;3"
    );
    let all = generator.get_posts_list_context(&vec![0, 1, 2], 0);
    assert_eq!(items(&all).len(), 3);
    assert_eq!(items(&generator.get_recent_posts(2)).len(), 2);
    assert_eq!(items(&generator.get_recent_posts(9)).len(), 3);
}

#[test]
fn test_render_failure_ends_the_build_and_keeps_earlier_files() {
    let mut generator = SiteGenerator::new(config()).unwrap();
    generator.load_posts(vec![post("one", "2024-01-01", &[], "text")]).unwrap();
    generator.load_template("post", "{{post.slug}}").unwrap();
    generator.load_template("index", "{{unknown_helper site}}").unwrap();
    generator.load_template("archive", "never").unwrap();
    let mut files = Vec::new();
    let error = generator.build(&clock(), &mut files).unwrap_err();
    assert!(error.message().starts_with("Error: Invalid input: Template render error: "));
    assert_eq!(paths_of(&files), vec!["posts/one.html"]);
    assert_eq!(files[0].content, "one");
}

#[test]
fn test_family_specific_failure_messages() {
    let mut generator = SiteGenerator::new(config()).unwrap();
    for name in ["about", "404", "rss"] {
        generator.load_template(name, "{{unknown_helper site}}").unwrap();
    }
    let mut files = Vec::new();
    let about = generator.generate_about_page(&clock(), &mut files).unwrap_err();
    assert!(about.message().starts_with("Error: Invalid input: About template render error: "));
    let missing = generator.generate_404_page(&clock(), &mut files).unwrap_err();
    assert!(missing.message().starts_with("Error: Invalid input: 404 template render error: "));
    let feed = generator.generate_rss_feed(&clock(), &mut files).unwrap_err();
    assert!(feed.message().starts_with("Error: Invalid input: RSS template render error: "));
    assert!(files.is_empty());
}

#[test]
fn test_template_that_cannot_be_read_is_refused() {
    let mut generator = SiteGenerator::new(config()).unwrap();
    let error = generator.load_template("post", "{{#if x}}never closed").unwrap_err();
    assert!(error.message().starts_with("Error: Invalid input: Template error: "));
    assert!(!generator.has_template("post"));
}

#[test]
fn test_feed_template_gets_latest_posts() {
    let mut c = config();
    c.rss = Some(RssConfig {
        enabled: None,
        limit: Some(1),
        full_content: None,
        filename: Some("atom.xml".to_string()),
    });
    let mut generator = SiteGenerator::new(c).unwrap();
    generator
        .load_posts(vec![post("old", "2024-01-01", &[], "o"), post("new", "2024-02-01", &[], "n")])
        .unwrap();
    generator
        .load_template("rss", "{{build_date}}{{#each posts}}|{{link}}|{{pub_date}}|{{author}}{{/each}}")
        .unwrap();
    let mut files = Vec::new();
    generator.generate_rss_feed(&clock(), &mut files).unwrap();
    assert_eq!(paths_of(&files), vec!["atom.xml"]);
    assert_eq!(
        files[0].content,
        "Mon, 01 Apr 2024 10:00:00 +0000|https://example.org/posts/new|2024-02-01|Ann"
    );
}

#[test]
fn test_two_builds_make_the_same_files() {
    let make = || {
        let mut generator = three_documents(1);
        for name in ["post", "index", "tags", "tag", "archive"] {
            generator
                .load_template(name, "{{#each popular_tags}}{{name}}{{count}}{{/each}}{{page.url}}")
                .unwrap();
        }
        let mut files = Vec::new();
        generator.build(&clock(), &mut files).unwrap();
        files.into_iter().map(|f| (f.path, f.content)).collect::<Vec<_>>()
    };
    assert_eq!(make(), make());
}

#[test]
fn test_generator_helpers_follow_the_configuration() {
    let mut c = config();
    c.content = Some(ContentConfig {
        enable_smart_quotes: None,
        enable_emoji: None,
        external_links_new_tab: None,
        add_anchor_links: None,
        auto_excerpt: None,
        excerpt_length: Some(1),
        excerpt_separator: Some("<!--break-->".to_string()),
        reading_speed: Some(2),
    });
    let generator = SiteGenerator::new(c).unwrap();
    assert_eq!(generator.calculate_reading_time("a b c d e"), 2);
    assert_eq!(generator.calculate_reading_time(""), 1);
    assert_eq!(generator.create_excerpt("one\n\ntwo"), "<p>one</p>\n");
    assert_eq!(generator.create_excerpt("one\n\ntwo\n <!--break--> \nthree"), "<p>one</p>\n<p>two</p>\n");
    assert_eq!(generator.slugify("Hello, World!"), "hello-world");
    assert_eq!(generator.format_date("2024-03-01 10:20:30"), "March 01, 2024");
    assert_eq!(generator.format_date_short("2024-03-01 10:20:30"), "Mar 01");
    assert_eq!(generator.config().get_reading_speed(), 2);
    let site = generator.get_site_context(&clock());
    assert_eq!(text_of(field(&site, "timezone")), "UTC");
    assert_eq!(number_of(field(&site, "current_year")), 2024);
    assert_eq!(text_of(field(field(&site, "social"), "github")), "");
    assert_eq!(
        SiteGenerator::output_directories(),
        vec!["posts", "categories", "tags", "static"]
    );
}

#[test]
fn test_create_post_data_has_the_fields_of_a_post_page() {
    let generator = three_documents(1);
    let data = generator.create_post_data(1, &clock());
    assert_eq!(text_of(field(field(&data, "post"), "slug")), "february");
    assert_eq!(text_of(field(field(&data, "post"), "description")), "Title of february");
    assert_eq!(text_of(field(field(&data, "post"), "date_raw")), "2024-02-20");
    assert_eq!(text_of(field(field(&data, "post"), "date")), "February 20, 2024");
    assert_eq!(text_of(field(field(&data, "post"), "date_short")), "Feb 20");
    assert_eq!(number_of(field(field(&data, "post"), "word_count")), 2);
    assert_eq!(text_of(field(field(&data, "page"), "url")), "/posts/february");
    assert_eq!(items(field(&data, "recent_posts")).len(), 3);
    assert_eq!(items(field(&data, "categories")).len(), 0);
    assert_eq!(text_of(field(field(&data, "site"), "title")), "Site");
}

#[test]
fn test_file_names_decide_what_is_loaded() {
    assert_eq!(SiteGenerator::template_name("post.html"), Some("post".to_string()));
    assert_eq!(SiteGenerator::template_name("a.b.html"), Some("a.b".to_string()));
    assert_eq!(SiteGenerator::template_name("post.hbs"), None);
    assert_eq!(SiteGenerator::template_name(".html"), None);
    assert_eq!(SiteGenerator::template_name("html"), None);
    assert_eq!(SiteGenerator::document_slug("hello-world.md"), Some("hello-world".to_string()));
    assert_eq!(SiteGenerator::document_slug("notes.txt"), None);
    assert_eq!(SiteGenerator::document_slug(".."), None);
}

#[test]
fn test_clock_reads_the_present() {
    let now = Clock::now();
    assert!(now.year >= 2024);
    assert_eq!(now.today.len(), 10);
    assert!(now.today.starts_with(&now.year.to_string()));
    assert!(now.build_date.ends_with(" +0000"));
    assert!(now.build_date.contains(&now.year.to_string()));
}

#[test]
fn test_clock_at_a_moment() {
    let moment = chrono::NaiveDate::from_ymd_opt(2024, 4, 1).unwrap().and_hms_opt(10, 0, 0).unwrap();
    let clock = Clock::at(&moment);
    assert_eq!(clock.year, 2024);
    assert_eq!(clock.build_date, "Mon, 01 Apr 2024 10:00:00 +0000");
    assert_eq!(clock.today, "2024-04-01");
}

#[test]
fn test_partials_are_included() {
    let mut generator = SiteGenerator::new(config()).unwrap();
    generator.load_posts(vec![post("one", "2024-01-01", &[], "text")]).unwrap();
    generator.load_template("about", "{{> header}}|{{page.title}}|{{~> footer ~}}").unwrap();
    generator.load_template("header", "<{{site.title}}>{{>footer}}").unwrap();
    generator.load_template("footer", "[{{site.author}}]").unwrap();
    let mut files = Vec::new();
    generator.generate_about_page(&clock(), &mut files).unwrap();
    assert_eq!(files[0].content, "<Site>[Ann]|About|[Ann]");
}

#[test]
fn test_a_missing_partial_fails_the_page() {
    let mut generator = SiteGenerator::new(config()).unwrap();
    generator.load_template("about", "{{> nowhere}}").unwrap();
    let mut files = Vec::new();
    let error = generator.generate_about_page(&clock(), &mut files).unwrap_err();
    assert!(error.message().starts_with("Error: Invalid input: About template render error: "));
}

#[test]
fn test_cycles_of_includes_are_refused() {
    let mut generator = SiteGenerator::new(config()).unwrap();
    let own = generator.load_template("a", "{{> a}}").unwrap_err();
    assert_eq!(
        own.message(),
        "Error: Invalid input: Template error: templates include one another without end"
    );
    assert!(!generator.has_template("a"));
    generator.load_template("a", "{{> b}}").unwrap();
    generator.load_template("b", "{{> c}} and {{> d}}").unwrap();
    generator.load_template("c", "leaf").unwrap();
    let closing = generator.load_template("c", "x {{ > a }} y").unwrap_err();
    assert_eq!(
        closing.message(),
        "Error: Invalid input: Template error: templates include one another without end"
    );
    // the earlier template of that name is still there, and still renders
    generator.load_template("d", "end").unwrap();
    generator.load_template("about", "{{> a}}").unwrap();
    let mut files = Vec::new();
    generator.generate_about_page(&clock(), &mut files).unwrap();
    assert_eq!(files[0].content, "leaf and end");
    // a template may be replaced by one that breaks a chain
    generator.load_template("b", "plain").unwrap();
    generator.load_template("c", "{{> a}}").unwrap();
}

#[test]
fn test_includes_that_are_not_plain_are_refused() {
    let mut generator = SiteGenerator::new(config()).unwrap();
    for source in [
        "{{> (lookup . 'name')}}",
        "{{#> layout}}body{{/layout}}",
        "{{#*inline \"part\"}}x{{/inline}}{{> part}}",
        "{{> @partial-block}}",
        "{{> some.name}}",
        "{{> 'quoted'}}",
        "{{~ # > layout}}x{{/layout}}",
        "{{* decorator}}",
        "{{>}}",
    ] {
        let error = generator.load_template("t", source).unwrap_err();
        assert_eq!(
            error.message(),
            "Error: Invalid input: Template error: an include must name its template plainly, as in {{> name}}",
            "for {}",
            source
        );
    }
    assert!(!generator.has_template("t"));
    generator
        .load_template("t", "a > b {{#if x}}{{x}}{{/if}} {{{raw}}} {{> plain_name-1 key=1}}")
        .unwrap();
}

#[test]
fn test_archive_tags_and_categories_are_generated_alone() {
    let mut c = config();
    c.taxonomy = taxonomy(1, None);
    let mut generator = SiteGenerator::new(c).unwrap();
    let mut first = post("one", "2024-01-01", &["x", "y"], "text");
    first.front_matter.categories = Some(vec!["Big Things".to_string()]);
    generator.load_posts(vec![first, post("two", "2024-02-01", &["y"], "text")]).unwrap();
    let mut files = Vec::new();
    generator.generate_archive(&clock(), &mut files).unwrap();
    generator.generate_tags_pages(&clock(), &mut files).unwrap();
    generator.generate_categories_pages(&clock(), &mut files).unwrap();
    assert!(files.is_empty());

    generator.load_template("archive", "{{#each posts_by_year}}{{year}}:{{#each posts}}{{title}},{{/each}}{{/each}}").unwrap();
    generator.load_template("tag", "{{tag.name}}/{{tag.slug}}:{{#each posts}}{{slug}},{{/each}}").unwrap();
    generator.load_template("category", "{{category.slug}}:{{#each posts}}{{slug}},{{/each}}{{page.url}}").unwrap();
    generator.generate_archive(&clock(), &mut files).unwrap();
    generator.generate_tags_pages(&clock(), &mut files).unwrap();
    generator.generate_categories_pages(&clock(), &mut files).unwrap();
    let found: Vec<(&str, &str)> =
        files.iter().map(|f| (f.path.as_str(), f.content.as_str())).collect();
    assert_eq!(
        found,
        vec![
            ("archive.html", "2024:Title of two,Title of one,"),
            ("tags/x.html", "x/x:one,"),
            ("tags/y.html", "y/y:two,one,"),
            ("categories/big-things/index.html", "big-things:one,/categories/big-things"),
        ]
    );

    generator.load_template("tags", "{{#each all_tags}}{{name}}={{count}};{{/each}}").unwrap();
    let mut more = Vec::new();
    generator.generate_tags_pages(&clock(), &mut more).unwrap();
    assert_eq!(paths_of(&more), vec!["tags/index.html", "tags/x.html", "tags/y.html"]);
    assert_eq!(more[0].content, "x=1;y=2;");
}

#[test]
fn test_disabled_families_are_not_planned() {
    let mut c = config();
    c.taxonomy = Some(TaxonomyConfig {
        enable_tags: Some(false),
        enable_categories: Some(false),
        min_tag_count: None,
        max_tags_in_cloud: None,
    });
    c.rss = Some(RssConfig { enabled: Some(false), limit: None, full_content: None, filename: None });
    let mut generator = SiteGenerator::new(c).unwrap();
    let mut first = post("one", "2024-01-01", &["x"], "text");
    first.front_matter.categories = Some(vec!["c".to_string()]);
    generator.load_posts(vec![first]).unwrap();
    for name in ["tags", "tag", "category", "rss", "404"] {
        generator.load_template(name, "x").unwrap();
    }
    let jobs = generator.plan(&clock());
    let paths: Vec<&str> = jobs
        .iter()
        .map(|job| match job {
            Job::Render { path, .. } => path.as_str(),
            Job::Write { path, .. } => path.as_str(),
        })
        .collect();
    assert_eq!(paths, vec!["404.html"]);
}

#[test]
fn test_basic_project_builds() {
    let source = BasicTemplate::get("content/hello-world.md").unwrap();
    let (front, body) = Post::parse_front_matter(&source).unwrap();
    assert!(front.contains("title: \"Hello, world\""));
    let first = Post::new(
        FrontMatter {
            title: "Hello, world".to_string(),
            date: "2024-01-01".to_string(),
            author: None,
            tags: Some(vec!["hello".to_string()]),
            categories: None,
            description: Some("The first post of a new blog".to_string()),
            draft: None,
            featured: None,
        },
        body,
        SiteGenerator::document_slug("hello-world.md").unwrap(),
        "content/hello-world.md".to_string(),
    );
    let mut generator = SiteGenerator::new(config()).unwrap();
    generator.load_posts(vec![first]).unwrap();
    for file in ["templates/index.html", "templates/post.html"] {
        let name = SiteGenerator::template_name(file.rsplit('/').next().unwrap()).unwrap();
        generator.load_template(&name, &BasicTemplate::get(file).unwrap()).unwrap();
    }
    let mut files = Vec::new();
    generator.build(&clock(), &mut files).unwrap();
    assert_eq!(paths_of(&files), vec!["posts/hello-world.html", "index.html", "feed.xml"]);
    assert!(files[0].content.contains("<h1>Hello, world</h1>"));
    assert!(files[1].content.contains("<p>Welcome to your new blog.</p>"));
    assert!(!files[1].content.contains("Edit this post"));
}

#[test]
fn test_clock_is_made_of_its_readings() {
    let clock = Clock::of_readings(2031, Some("Tue, 02 Jan 2031 03:04:05 +0000".to_string()), None);
    assert_eq!(clock.year, 2031);
    assert_eq!(clock.build_date, "Tue, 02 Jan 2031 03:04:05 +0000");
    assert_eq!(clock.today, "");
    let other = Clock::of_readings(-5, None, Some("2031-01-02".to_string()));
    assert_eq!(other.year, -5);
    assert_eq!(other.build_date, "");
    assert_eq!(other.today, "2031-01-02");
}
