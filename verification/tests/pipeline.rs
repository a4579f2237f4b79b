use neur::config::{Config, ConfigError, Options};
use neur::generator::{Generator, GeneratorError, OutputFile, SourceFile};
use neur::paths::FilePath;

fn path(segs: &[&str]) -> FilePath {
    let mut v: Vec<String> = Vec::new();
    for s in segs {
        v.push((*s).to_string());
    }
    FilePath { segments: v }
}

fn file(segs: &[&str], content: &str) -> SourceFile {
    SourceFile { path: path(segs), content: content.as_bytes().to_vec() }
}

fn config(minify: bool) -> Config {
    Config { source: path(&["src"]), output: path(&["dist"]), minify }
}

fn run(minify: bool, files: Vec<SourceFile>) -> Vec<OutputFile> {
    let mut g = Generator::new(config(minify), &files).unwrap();
    g.run(&files).unwrap()
}

fn segs(p: &FilePath) -> Vec<String> {
    p.segments.clone()
}

#[test]
fn unknown_extension_copied_byte_identical() {
    let bytes: Vec<u8> = vec![0u8, 159, 146, 150, 255, 10, 13];
    let files = vec![SourceFile { path: path(&["img", "logo.png"]), content: bytes.clone() }];
    let outs = run(false, files);
    assert_eq!(outs.len(), 1);
    assert_eq!(segs(&outs[0].path), vec!["dist".to_string(), "img".into(), "logo.png".into()]);
    assert_eq!(outs[0].content, bytes);
}

#[test]
fn file_without_extension_copied() {
    let files = vec![file(&["LICENSE"], "verbatim text\n")];
    let outs = run(false, files);
    assert_eq!(outs.len(), 1);
    assert_eq!(outs[0].content, b"verbatim text\n".to_vec());
}

#[test]
fn stylesheet_is_rewritten() {
    let files = vec![file(&["style.css"], "body {  color: #ff0000;  }\n")];
    let outs = run(true, files);
    assert_eq!(outs.len(), 1);
    assert_eq!(segs(&outs[0].path), vec!["dist".to_string(), "style.css".into()]);
    let text = String::from_utf8(outs[0].content.clone()).unwrap();
    assert_eq!(text, "body{color:red}");
}

#[test]
fn stylesheet_minification_idempotent() {
    let source = "body {  color: #ff0000;  margin: 0px 0px 0px 0px; }\n.a { color: red }\n";
    let files = vec![file(&["style.css"], source)];
    let outs = run(true, files);
    let first = String::from_utf8(outs[0].content.clone()).unwrap();
    let again = run(true, vec![file(&["style.css"], &first)]);
    let second = String::from_utf8(again[0].content.clone()).unwrap();
    assert_eq!(first, second);
}

#[test]
fn ordinary_page_rendered_at_mirrored_path() {
    let files = vec![file(&["about.html"], "<p>{{ 1 + 1 }}</p>")];
    let outs = run(false, files);
    assert_eq!(outs.len(), 1);
    assert_eq!(segs(&outs[0].path), vec!["dist".to_string(), "about.html".into()]);
    assert_eq!(outs[0].content, b"<p>2</p>".to_vec());
}

#[test]
fn single_underscore_partial_produces_no_output() {
    let files = vec![file(&["_nav.html"], "<nav></nav>")];
    let outs = run(false, files);
    assert_eq!(outs.len(), 0);
}

#[test]
fn double_underscore_page_is_ordinary() {
    let files = vec![file(&["__special.html"], "<p>ok</p>")];
    let outs = run(false, files);
    assert_eq!(outs.len(), 1);
    assert_eq!(segs(&outs[0].path), vec!["dist".to_string(), "__special.html".into()]);
    assert_eq!(outs[0].content, b"<p>ok</p>".to_vec());
}

#[test]
fn page_can_include_partial() {
    let files = vec![
        file(&["_header.html"], "<header>hi</header>"),
        file(&["index.html"], "{% include \"_header.html\" %}<main></main>"),
    ];
    let outs = run(false, files);
    assert_eq!(outs.len(), 1);
    let text = String::from_utf8(outs[0].content.clone()).unwrap();
    assert_eq!(text, "<header>hi</header><main></main>");
}

#[test]
fn document_with_layout_embeds_body_unescaped() {
    let files = vec![
        file(&["blog", "_template.html"], "<article>{{ content }}</article>"),
        file(&["blog", "post.md"], "# Hello\n"),
    ];
    let outs = run(false, files);
    assert_eq!(outs.len(), 1);
    assert_eq!(
        segs(&outs[0].path),
        vec!["dist".to_string(), "blog".into(), "post.html".into()]
    );
    let text = String::from_utf8(outs[0].content.clone()).unwrap();
    assert!(text.starts_with("<article>"));
    assert!(text.ends_with("</article>"));
    assert!(text.contains("<h1>Hello</h1>"));
    assert!(!text.contains("&lt;h1&gt;"));
}

#[test]
fn document_without_layout_equals_fallback_body() {
    let files = vec![file(&["notes.md"], "Some *text*\n")];
    let outs = run(false, files);
    assert_eq!(outs.len(), 1);
    assert_eq!(segs(&outs[0].path), vec!["dist".to_string(), "notes.html".into()]);
    let mut options = comrak::Options::default();
    options.extension.front_matter_delimiter = Some("---".to_string());
    let expected = comrak::markdown_to_html("Some *text*\n", &options);
    assert_eq!(outs[0].content, expected.into_bytes());
}

#[test]
fn layout_scenario_with_front_matter_title() {
    let layout = "<html><head><title>{{ title }}</title></head><body>{{ content }}</body></html>";
    let post = "---\ntitle: \"Hi\"\n---\n# Hello\n";
    let files = vec![
        file(&["_template.html"], layout),
        file(&["post.md"], post),
    ];
    let outs = run(false, files);
    assert_eq!(outs.len(), 1);
    assert_eq!(segs(&outs[0].path), vec!["dist".to_string(), "post.html".into()]);
    let text = String::from_utf8(outs[0].content.clone()).unwrap();
    assert!(text.contains("<title>Hi</title>"));
    assert!(text.contains("<h1>Hello</h1>"));
    assert!(text.starts_with("<html>"));
    assert!(text.ends_with("</html>"));
}

#[test]
fn minified_page_no_longer_than_plain() {
    let page = "<p>\n    spaced   out\n</p>\n<div>\n  <span>x</span>\n</div>\n";
    let plain = run(false, vec![file(&["a.html"], page)]);
    let small = run(true, vec![file(&["a.html"], page)]);
    assert!(small[0].content.len() <= plain[0].content.len());
}

#[test]
fn minified_stylesheet_no_longer_than_plain() {
    let sheet = "body {\n  color: #ff0000;\n}\n";
    let plain = run(false, vec![file(&["a.css"], sheet)]);
    let small = run(true, vec![file(&["a.css"], sheet)]);
    assert!(small[0].content.len() <= plain[0].content.len());
}

#[test]
fn nested_output_rejected_before_generation() {
    let cli = Options {
        source: Some(path(&["dist_input"])),
        output: Some(path(&["dist_input", "out"])),
        minify: None,
        minify_cli: None,
    };
    let r = Config::parse(cli, None);
    assert!(matches!(r, Err(ConfigError::ValidationError(_))));
}

#[test]
fn nested_source_rejected() {
    let cli = Options {
        source: Some(path(&["a", "b"])),
        output: Some(path(&["a"])),
        minify: None,
        minify_cli: None,
    };
    assert!(matches!(Config::parse(cli, None), Err(ConfigError::ValidationError(_))));
}

#[test]
fn config_defaults_and_precedence() {
    let cli = Options { source: None, output: None, minify: None, minify_cli: None };
    let c = Config::parse(cli, None).unwrap();
    assert_eq!(segs(&c.source), vec!["src".to_string()]);
    assert_eq!(segs(&c.output), vec!["dist".to_string()]);
    assert!(!c.minify);

    let cli = Options {
        source: Some(path(&["site"])),
        output: None,
        minify: None,
        minify_cli: Some(None),
    };
    let from_file = Options {
        source: Some(path(&["ignored"])),
        output: Some(path(&["public"])),
        minify: Some(false),
        minify_cli: None,
    };
    let c = Config::parse(cli, Some(from_file)).unwrap();
    assert_eq!(segs(&c.source), vec!["site".to_string()]);
    assert_eq!(segs(&c.output), vec!["public".to_string()]);
    assert!(c.minify);
}

#[test]
fn bad_stylesheet_reports_its_path() {
    let files = vec![file(&["styles", "broken.css"], "..{} body")];
    let mut g = Generator::new(config(false), &files).unwrap();
    match g.run(&files) {
        Err(GeneratorError::Css { file: f, .. }) => {
            assert_eq!(segs(&f), vec!["styles".to_string(), "broken.css".into()]);
        },
        other => panic!("expected a stylesheet error, got {:?}", other.is_ok()),
    }
}

#[test]
fn bad_front_matter_reports_its_path() {
    let files = vec![file(&["post.md"], "---\ntitle: [unclosed\n---\nbody\n")];
    let mut g = Generator::new(config(false), &files).unwrap();
    match g.run(&files) {
        Err(GeneratorError::Frontmatter { file: f, .. }) => {
            assert_eq!(segs(&f), vec!["post.md".to_string()]);
        },
        other => panic!("expected a front-matter error, got {:?}", other.is_ok()),
    }
}

#[test]
fn invalid_utf8_markup_fails_construction() {
    let files = vec![SourceFile {
        path: path(&["bad.html"]),
        content: vec![0xffu8, 0xfe, 0x00],
    }];
    match Generator::new(config(false), &files) {
        Err(GeneratorError::Utf8 { file: f }) => {
            assert_eq!(segs(&f), vec!["bad.html".to_string()]);
        },
        _ => panic!("expected an encoding error"),
    }
}

#[test]
fn broken_template_fails_construction() {
    let files = vec![file(&["bad.html"], "{% if %}")];
    assert!(matches!(
        Generator::new(config(false), &files),
        Err(GeneratorError::Tera(_))
    ));
}

#[test]
fn front_matter_cannot_shadow_body() {
    let files = vec![
        file(&["_template.html"], "<main>{{ content }}</main>"),
        file(&["page.md"], "---\ncontent: \"shadow\"\n---\nbody text\n"),
    ];
    let outs = run(false, files);
    assert_eq!(outs.len(), 1);
    let text = String::from_utf8(outs[0].content.clone()).unwrap();
    assert!(text.contains("body text"));
    assert!(!text.contains("shadow"));
}

#[test]
fn layout_applies_to_nearest_registered_ancestor() {
    let files = vec![
        file(&["_template.html"], "<outer>{{ content }}</outer>"),
        file(&["blog", "_template.html"], "<inner>{{ content }}</inner>"),
        file(&["blog", "deep", "note.md"], "plain\n"),
        file(&["top.md"], "hi\n"),
    ];
    let outs = run(false, files);
    assert_eq!(outs.len(), 2);
    for o in &outs {
        let text = String::from_utf8(o.content.clone()).unwrap();
        let p = segs(&o.path);
        if p == vec!["dist".to_string(), "blog".into(), "deep".into(), "note.html".into()] {
            assert!(text.starts_with("<inner>"));
            assert!(text.contains("plain"));
        } else {
            assert_eq!(p, vec!["dist".to_string(), "top.html".into()]);
            assert!(text.starts_with("<outer>"));
            assert!(text.contains("hi"));
        }
    }
}

#[test]
fn fallback_strips_front_matter() {
    let doc = "---\ntitle: \"T\"\n---\nBody here\n";
    let files = vec![file(&["solo.md"], doc)];
    let outs = run(false, files);
    let text = String::from_utf8(outs[0].content.clone()).unwrap();
    assert!(text.contains("Body here"));
    assert!(!text.contains("title"));
}

#[test]
fn leading_dot_name_is_copied_verbatim() {
    let files = vec![file(&[".gitignore"], "dist\n")];
    let outs = run(false, files);
    assert_eq!(outs.len(), 1);
    assert_eq!(segs(&outs[0].path), vec!["dist".to_string(), ".gitignore".into()]);
    assert_eq!(outs[0].content, b"dist\n".to_vec());
}

#[test]
fn mixed_tree_minified() {
    let files = vec![
        file(&["_template.html"], "<body>{{ content }}</body>"),
        file(&["index.html"], "<p>  hi  </p>"),
        file(&["post.md"], "# A\n"),
        file(&["style.css"], "a { color: #ff0000 }"),
        file(&["data.txt"], "raw"),
    ];
    let outs = run(true, files);
    assert_eq!(outs.len(), 4);
    let paths: Vec<Vec<String>> = outs.iter().map(|o| segs(&o.path)).collect();
    assert!(paths.contains(&vec!["dist".to_string(), "index.html".into()]));
    assert!(paths.contains(&vec!["dist".to_string(), "post.html".into()]));
    assert!(paths.contains(&vec!["dist".to_string(), "style.css".into()]));
    assert!(paths.contains(&vec!["dist".to_string(), "data.txt".into()]));
}

#[test]
fn multi_dot_document_forces_only_last_extension() {
    let files = vec![file(&["notes.v2.md"], "x\n")];
    let outs = run(false, files);
    assert_eq!(outs.len(), 1);
    assert_eq!(segs(&outs[0].path), vec!["dist".to_string(), "notes.v2.html".into()]);
}
