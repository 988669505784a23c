//! The basic project that a new blog starts from.

use crate::text::{same_text, strings, to_chars};
use vstd::prelude::*;

verus! {

/// The files of the basic project.
pub struct BasicTemplate;

/// The configuration of the basic project.
pub const CONFIG_FILE: &'static str = "[site]\ntitle = \"My Blog\"\ndescription = \"A blog built with Zahuyach\"\nauthor = \"Author\"\nbase_url = \"http://localhost:3000\"\nlanguage = \"en\"\n\n[build]\noutput_dir = \"dist\"\ncontent_dir = \"content\"\nstatic_dir = \"static\"\ntemplates_dir = \"templates\"\nclean_output = true\ninclude_drafts = false\n\n[content]\nexcerpt_length = 3\nexcerpt_separator = \"<!-- more -->\"\nreading_speed = 200\n\n[rss]\nenabled = true\nlimit = 20\nfilename = \"feed.xml\"\n\n[pagination]\nposts_per_page = 10\n\n[taxonomy]\nenable_tags = true\nenable_categories = false\nmin_tag_count = 1\nmax_tags_in_cloud = 50\n\n[display]\nrecent_posts_limit = 5\n";

/// The first post of the basic project.
pub const FIRST_POST_FILE: &'static str = "---\ntitle: \"Hello, world\"\ndate: \"2024-01-01\"\ntags:\n  - hello\ndescription: \"The first post of a new blog\"\n---\n\nWelcome to your new blog.\n\n<!-- more -->\n\nEdit this post in `content/hello-world.md`, or add new ones beside it.\n";

/// The index template of the basic project.
pub const INDEX_TEMPLATE_FILE: &'static str = "<!DOCTYPE html>\n<html lang=\"{{site.language}}\">\n<head>\n<meta charset=\"utf-8\">\n<title>{{site.title}}</title>\n<link rel=\"stylesheet\" href=\"/static/style.css\">\n</head>\n<body>\n<h1>{{site.title}}</h1>\n<p>{{site.description}}</p>\n{{#each posts}}\n<article>\n<h2><a href=\"{{url}}.html\">{{title}}</a></h2>\n<p class=\"meta\">{{date}} - {{reading_time}} min</p>\n{{{excerpt}}}\n</article>\n{{/each}}\n<footer>{{site.current_year}} {{site.author}}</footer>\n</body>\n</html>\n";

/// The post template of the basic project.
pub const POST_TEMPLATE_FILE: &'static str = "<!DOCTYPE html>\n<html lang=\"{{site.language}}\">\n<head>\n<meta charset=\"utf-8\">\n<title>{{page.title}} - {{site.title}}</title>\n<link rel=\"stylesheet\" href=\"/static/style.css\">\n</head>\n<body>\n<p><a href=\"/\">{{site.title}}</a></p>\n<article>\n<h1>{{post.title}}</h1>\n<p class=\"meta\">{{post.date}} - {{post.author}} - {{post.reading_time}} min</p>\n{{{post.content}}}\n<ul class=\"tags\">\n{{#each post.tags}}\n<li>{{this}}</li>\n{{/each}}\n</ul>\n</article>\n<footer>{{site.current_year}} {{site.author}}</footer>\n</body>\n</html>\n";

/// The style sheet of the basic project.
pub const STYLE_FILE: &'static str = "body {\n  max-width: 40rem;\n  margin: 2rem auto;\n  padding: 0 1rem;\n  font-family: sans-serif;\n  line-height: 1.5;\n}\n\n.meta {\n  color: #666;\n}\n";

impl BasicTemplate {
    /// The paths of the files of the basic project, relative to the
    /// project's directory.
    pub open spec fn paths() -> Seq<Seq<char>> {
        Seq::empty().push("config.toml"@).push("content/hello-world.md"@).push(
            "templates/index.html"@,
        ).push("templates/post.html"@).push("static/style.css"@)
    }

    /// The paths of the files of the basic project.
    pub fn iter() -> (r: Vec<String>)
        ensures
            strings(r@) == Self::paths(),
    {
        let mut r: Vec<String> = Vec::new();
        r.push("config.toml".to_owned());
        r.push("content/hello-world.md".to_owned());
        r.push("templates/index.html".to_owned());
        r.push("templates/post.html".to_owned());
        r.push("static/style.css".to_owned());
        assert(strings(r@) =~= Self::paths());
        r
    }

    /// The content of the file `path` of the basic project.
    pub open spec fn content(path: Seq<char>) -> Seq<char> {
        if path == "config.toml"@ {
            CONFIG_FILE@
        } else if path == "content/hello-world.md"@ {
            FIRST_POST_FILE@
        } else if path == "templates/index.html"@ {
            INDEX_TEMPLATE_FILE@
        } else if path == "templates/post.html"@ {
            POST_TEMPLATE_FILE@
        } else {
            STYLE_FILE@
        }
    }

    /// The content of the file `path` of the basic project, if there is
    /// such a file.
    pub fn get(path: &str) -> (r: Option<String>)
        ensures
            r is Some == Self::paths().contains(path@),
            r is Some ==> r->Some_0@ == Self::content(path@),
    {
        let wanted = to_chars(path);
        let ghost paths = Self::paths();
        if same_text(&wanted, &to_chars("config.toml")) {
            assert(paths[0] == path@);
            Some(CONFIG_FILE.to_owned())
        } else if same_text(&wanted, &to_chars("content/hello-world.md")) {
            assert(paths[1] == path@);
            Some(FIRST_POST_FILE.to_owned())
        } else if same_text(&wanted, &to_chars("templates/index.html")) {
            assert(paths[2] == path@);
            Some(INDEX_TEMPLATE_FILE.to_owned())
        } else if same_text(&wanted, &to_chars("templates/post.html")) {
            assert(paths[3] == path@);
            Some(POST_TEMPLATE_FILE.to_owned())
        } else if same_text(&wanted, &to_chars("static/style.css")) {
            assert(paths[4] == path@);
            Some(STYLE_FILE.to_owned())
        } else {
            assert forall|k: int| 0 <= k < paths.len() implies paths[k] != path@ by {
                if k == 0 {
                } else if k == 1 {
                } else if k == 2 {
                } else if k == 3 {
                } else {
                }
            }
            None
        }
    }
}

/// Returns a list of all files in the basic template
pub fn list_basic_template_files() -> (r: Vec<String>)
    ensures
        strings(r@) == BasicTemplate::paths(),
{
    BasicTemplate::iter()
}

} // verus!
