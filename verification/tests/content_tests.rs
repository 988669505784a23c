use zahuyach::cli::{Cli, Commands};
use zahuyach::commands::builder;
use zahuyach::commands::init::{check_target_directory, success_message, validate_project_name};
use zahuyach::commands::serve;
use zahuyach::content::{front_matter_error, FrontMatter, Post};
use zahuyach::deriver::{
    excerpt, excerpt_markdown, format_date, reading_time, slug_of_lowered, slugify,
};
use zahuyach::error::ZahuyachError;

#[test]
fn test_front_matter_is_split_from_body() {
    let (front, body) =
        Post::parse_front_matter("---\ntitle: T\ndate: 2024-01-01\n---\nBody --- text\n").unwrap();
    assert_eq!(front, "\ntitle: T\ndate: 2024-01-01\n");
    assert_eq!(body, "\nBody --- text\n");
}

#[test]
fn test_front_matter_missing() {
    let error = Post::parse_front_matter("title: T\n---\n").unwrap_err();
    assert_eq!(error.message(), "Error: Invalid input: No front matter found");
    assert!(Post::parse_front_matter("").is_err());
    assert!(Post::parse_front_matter("--").is_err());
}

#[test]
fn test_front_matter_unclosed() {
    let error = Post::parse_front_matter("---\ntitle: T\n").unwrap_err();
    assert_eq!(error.message(), "Error: Invalid input: No content after front matter");
    assert!(Post::parse_front_matter("---").is_err());
    assert!(Post::parse_front_matter("-----").is_err());
    let (front, body) = Post::parse_front_matter("------").unwrap();
    assert_eq!((front.as_str(), body.as_str()), ("", ""));
}

#[test]
fn test_front_matter_error_carries_the_cause() {
    assert_eq!(
        front_matter_error("missing field `title`").message(),
        "Error: Invalid input: Failed to parse front matter: missing field `title`"
    );
}

#[test]
fn test_post_is_rendered_and_drafts_are_known() {
    let mut front_matter = FrontMatter {
        title: "T".to_string(),
        date: "2024-01-01".to_string(),
        author: None,
        tags: None,
        categories: None,
        description: None,
        draft: None,
        featured: None,
    };
    let post = Post::new(front_matter.clone(), "# Head\n\ntext".to_string(), "s".to_string(), "p".to_string());
    assert_eq!(post.html_content, "<h1>Head</h1>\n<p>text</p>\n");
    assert_eq!(post.content, "# Head\n\ntext");
    assert!(!post.is_draft());
    front_matter.draft = Some(false);
    assert!(!Post::new(front_matter.clone(), String::new(), "s".to_string(), "p".to_string()).is_draft());
    front_matter.draft = Some(true);
    assert!(Post::new(front_matter, String::new(), "s".to_string(), "p".to_string()).is_draft());
}

#[test]
fn test_reading_time_floor() {
    assert_eq!(reading_time("", 200), 1);
    assert_eq!(reading_time("one", 200), 1);
    assert_eq!(reading_time("   \n\t ", 1), 1);
}

#[test]
fn test_reading_time_divides_words_by_speed() {
    let body = "word ".repeat(450);
    assert_eq!(reading_time(&body, 200), 2);
    assert_eq!(reading_time(&body, 150), 3);
    assert_eq!(reading_time("a  b\u{a0}c\nd", 1), 4);
    assert_eq!(reading_time("a b c", 2), 1);
}

#[test]
fn test_excerpt_takes_first_paragraphs() {
    assert_eq!(
        excerpt_markdown("para one\n\npara two\n\npara three", "<!-- more -->", 2),
        "para one\n\npara two"
    );
    assert_eq!(
        excerpt("para one\n\npara two\n\npara three", "<!-- more -->", 2),
        "<p>para one</p>\n<p>para two</p>\n"
    );
}

#[test]
fn test_excerpt_edge_cases() {
    assert_eq!(excerpt_markdown("one\ntwo\n\n\n \nthree", "<!-- more -->", 5), "one\ntwo\n\nthree");
    assert_eq!(excerpt_markdown("one\n\ntwo", "<!-- more -->", 0), "");
    assert_eq!(excerpt_markdown("", "<!-- more -->", 3), "");
    assert_eq!(excerpt_markdown("\n\n  \n", "<!-- more -->", 3), "");
    assert_eq!(excerpt_markdown("one\r\ntwo\r\n\r\nthree\r\n", "<!-- more -->", 1), "one\ntwo");
    assert_eq!(excerpt("", "<!-- more -->", 3), "");
}

#[test]
fn test_excerpt_separator_precedence() {
    let body = "one\n\n  <!-- more -->  \n\ntwo\n\nthree\n<!-- more -->\nfour";
    assert_eq!(excerpt_markdown(body, "<!-- more -->", 3), "one\n");
    assert_eq!(excerpt_markdown(body, "<!-- more -->", 0), "one\n");
    assert_eq!(excerpt(body, "<!-- more -->", 3), "<p>one</p>\n");
    assert_eq!(excerpt_markdown("<!-- more -->\nrest", "<!-- more -->", 3), "");
    assert_eq!(excerpt_markdown("a\nb\n<!--x-->\nc", "<!--x-->", 1), "a\nb");
}

#[test]
fn test_slugify() {
    assert_eq!(slugify("Hello World"), "hello-world");
    assert_eq!(slugify("  Rust & C++!  "), "rust-c");
    assert_eq!(slugify("a--b__c"), "a-b-c");
    assert_eq!(slugify("\u{41f}\u{440}\u{438}\u{432}\u{435}\u{442} \u{41c}\u{438}\u{440}"), "\u{43f}\u{440}\u{438}\u{432}\u{435}\u{442}-\u{43c}\u{438}\u{440}");
    assert_eq!(slugify("\u{401}\u{436}"), "\u{451}\u{436}");
    assert_eq!(slugify("caf\u{e9} 2024"), "caf-2024");
    assert_eq!(slugify("!!!"), "");
    assert_eq!(slugify(""), "");
}

#[test]
fn test_slug_of_lowered_text() {
    assert_eq!(slug_of_lowered("hello world"), "hello-world");
    assert_eq!(slug_of_lowered("-a--b-"), "a-b");
    // capitals are not kept: lowering is the caller's part
    assert_eq!(slug_of_lowered("Hello World"), "ello-orld");
    assert_eq!(slug_of_lowered(""), "");
}

#[test]
fn test_format_date() {
    assert_eq!(format_date("2024-03-01T10:20:30+02:00", "%B %d, %Y"), "March 01, 2024");
    assert_eq!(format_date("2024-03-01T10:20:30+02:00", "%H:%M"), "10:20");
    assert_eq!(format_date("2024-03-01 10:20:30", "%b %d"), "Mar 01");
    assert_eq!(format_date("2024-03-01 10:20:30", "%Y/%m/%d %H.%M.%S"), "2024/03/01 10.20.30");
    assert_eq!(format_date("2024-03-01", "%B %d, %Y"), "March 01, 2024");
    assert_eq!(format_date("2024-03-01", "%b %d %H:%M"), "Mar 01 00:00");
}

#[test]
fn test_format_date_falls_back_to_the_text() {
    assert_eq!(format_date("2024-13-01", "%B %d, %Y"), "2024-13-01");
    assert_eq!(format_date("2024-03", "%B %d, %Y"), "2024-03");
    assert_eq!(format_date("yesterday", "%B %d, %Y"), "yesterday");
    assert_eq!(format_date("2024-03-01T10:20:30", "%b %d"), "2024-03-01T10:20:30");
    assert_eq!(format_date("", "%b %d"), "");
    assert_eq!(format_date("2024-03-01 10:20:30", "%Q"), "2024-03-01 10:20:30");
}

#[test]
fn test_validate_project_name() {
    for name in ["my-blog", "blog123", "my_blog"] {
        assert!(validate_project_name(name).is_ok(), "Expected '{}' to be valid", name);
    }
    for name in [
        "",
        ".hidden",
        "-invalid",
        "with/slash",
        "with\\backslash",
        "with:colon",
        "with*asterisk",
        "with?question",
        "with\"quote",
        "with<bracket",
        "with>bracket",
        "with|pipe",
    ] {
        assert!(validate_project_name(name).is_err(), "Expected '{}' to be invalid", name);
    }
}

#[test]
fn test_validate_project_name_messages() {
    assert_eq!(
        validate_project_name("").unwrap_err().message(),
        "Error: Invalid input: Project name cannot be empty"
    );
    assert_eq!(
        validate_project_name(".a/b").unwrap_err().message(),
        "Error: Invalid input: Project name cannot contain invalid characters '/\\:*?\"<>|'"
    );
    assert_eq!(
        validate_project_name("-a").unwrap_err().message(),
        "Error: Invalid input: Project name cannot start with a dot '.' or hyphen '-'."
    );
}

#[test]
fn test_target_directory_rules() {
    assert!(check_target_directory(true, false, true, "blog").is_ok());
    assert!(check_target_directory(true, true, true, "blog").is_ok());
    assert_eq!(
        check_target_directory(true, true, false, "/tmp/blog").unwrap_err().message(),
        "Error: Invalid input: Directory '/tmp/blog' already exists and is not empty"
    );
    assert!(check_target_directory(false, true, true, ".").is_ok());
    assert_eq!(
        check_target_directory(false, true, false, ".").unwrap_err().message(),
        "Error: Invalid input: Current directory is not empty. Please run in an empty directory or specify a project name."
    );
    assert_eq!(
        success_message("blog", "/tmp/blog"),
        "Successfully initialized new blog project: blog in directory /tmp/blog"
    );
}

#[test]
fn test_command_messages() {
    assert_eq!(
        builder::missing_config_error().message(),
        "Error: Invalid input: config.toml not found. Make sure you're in a Zahuyach project directory."
    );
    assert_eq!(
        builder::missing_content_error("content").message(),
        "Error: Invalid input: Content directory 'content' does not exist"
    );
    assert_eq!(
        builder::missing_templates_error("templates").message(),
        "Error: Invalid input: Templates directory 'templates' does not exist"
    );
    assert_eq!(builder::config_error("bad").message(), "Error: Invalid input: Failed to parse config: bad");
    assert_eq!(builder::template_name_error().message(), "Error: Invalid input: Invalid template name");
    assert_eq!(builder::success_message("dist"), "Successfully built site to 'dist'");
    assert_eq!(
        serve::missing_output_error("dist").message(),
        "Error: Invalid input: Output directory 'dist' does not exist. Please run 'zahuyach build' first."
    );
}

#[test]
fn test_error_messages() {
    let invalid = ZahuyachError::InvalidInput("bad".to_string());
    assert_eq!(invalid.message(), "Error: Invalid input: bad");
    let io = ZahuyachError::from(std::io::Error::new(std::io::ErrorKind::NotFound, "gone"));
    assert!(matches!(io, ZahuyachError::Io(_)));
    assert_eq!(io.message(), "IO error: gone");
    assert_eq!(ZahuyachError::invalid_input_with("a: ", "b").message(), "Error: Invalid input: a: b");
}

#[test]
fn test_cli_holds_its_command() {
    let cli = Cli::new(Commands::Build { dir: "dist".to_string() });
    assert_eq!(cli.get_command(), &Commands::Build { dir: "dist".to_string() });
    assert_eq!(Cli::new(Commands::Serve { port: 3000 }).into_command(), Commands::Serve { port: 3000 });
    assert_ne!(
        Cli::new(Commands::Init { name: "a".to_string() }),
        Cli::new(Commands::Init { name: "b".to_string() })
    );
}
