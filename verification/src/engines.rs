//! The outside transformation engines, behind trusted declarations: the
//! stylesheet rewriter, the document renderer, the markup compactor and the
//! template engine.  Each wrapper's contract states what the named outside
//! function is relied upon for, and nothing more.

use vstd::prelude::*;
use vstd::utf8::{valid_utf8, decode_utf8, encode_utf8};
use lightningcss::printer::PrinterOptions;
use lightningcss::stylesheet::{MinifyOptions, ParserOptions, StyleSheet};
use lightningcss::targets::{Browsers, Targets};

verus! {

#[verifier::external_type_specification]
#[verifier::external_body]
pub struct ExTera(tera::Tera);

#[verifier::external_type_specification]
#[verifier::external_body]
pub struct ExContext(tera::Context);

#[verifier::external_type_specification]
#[verifier::external_body]
pub struct ExTomlValue(toml::Value);

/// The templates a template engine instance holds, by name.
pub uninterp spec fn tera_templates(t: tera::Tera) -> Map<Seq<char>, Seq<char>>;

/// The name suffixes for which the engine instance autoescapes interpolated
/// values.
pub uninterp spec fn tera_autoescape_suffixes(t: tera::Tera) -> Seq<Seq<char>>;

/// The bindings a rendering context holds: each value as the text that
/// stands for it.
pub uninterp spec fn context_entries(c: tera::Context) -> Map<Seq<char>, Seq<char>>;

/// The text that stands for a structured settings value carried through from
/// a document's front matter.
pub uninterp spec fn toml_repr(v: toml::Value) -> Seq<char>;

/// A resolved browser-support target set, as plain version numbers.  It is
/// the library's image of the stylesheet engine's target description, fixed
/// at construction so that every stylesheet of a run is printed against the
/// same targets.
#[derive(Clone, Copy, Debug)]
pub struct BrowserTargets {
    pub android: Option<u32>,
    pub chrome: Option<u32>,
    pub edge: Option<u32>,
    pub firefox: Option<u32>,
    pub ie: Option<u32>,
    pub ios_saf: Option<u32>,
    pub opera: Option<u32>,
    pub safari: Option<u32>,
    pub samsung: Option<u32>,
}

/// What the stylesheet engine prints for a source text, a whitespace switch
/// and a resolved target set.
pub uninterp spec fn css_of(source: Seq<char>, minify: bool, targets: BrowserTargets) -> Seq<char>;

/// Whether the stylesheet engine accepts a source text: parsing and
/// structural minification succeed for these arguments.
pub uninterp spec fn css_ok(source: Seq<char>, minify: bool, targets: BrowserTargets) -> bool;

/// Whether the front-matter parser accepts a document text.
pub uninterp spec fn frontmatter_ok(document: Seq<char>) -> bool;

/// Whether the template engine, holding the given templates, accepts one
/// more template source under a name.
pub uninterp spec fn template_ok(
    templates: Map<Seq<char>, Seq<char>>,
    name: Seq<char>,
    source: Seq<char>,
) -> bool;

/// What the document engine renders for a document text and a front-matter
/// delimiter.
pub uninterp spec fn html_of_markdown(document: Seq<char>, delimiter: Seq<char>) -> Seq<char>;

/// What the markup compactor leaves of a page.
pub uninterp spec fn minified_html_of(page: Seq<u8>) -> Seq<u8>;

/// The suffix list a fresh template engine autoescapes for.
pub open spec fn default_autoescape_suffixes() -> Seq<Seq<char>> {
    seq![".html"@, ".htm"@, ".xml"@]
}

/// Relies on `tera::Tera::default`: a fresh engine holds no templates and
/// autoescapes for the standard markup suffixes.
#[verifier::external_body]
pub fn tera_new() -> (t: tera::Tera)
    ensures
        (tera_templates(t) == Map::<Seq<char>, Seq<char>>::empty()),
        tera_autoescape_suffixes(t) == default_autoescape_suffixes(),
{
    tera::Tera::default()
}

/// Relies on `tera::Tera::add_raw_template`: registers one template source
/// under a name and leaves the autoescape suffixes alone.
#[verifier::external_body]
pub fn tera_add_template(t: &mut tera::Tera, name: &str, content: &str) -> (r: Result<
    (),
    String,
>)
    ensures
        r is Ok <==> template_ok(tera_templates(*old(t)), name@, content@),
        r is Ok ==> tera_templates(*final(t)) == tera_templates(*old(t)).insert(
            name@,
            content@,
        ),
        tera_autoescape_suffixes(*final(t)) == tera_autoescape_suffixes(*old(t)),
{
    t.add_raw_template(name, content).map_err(|e| e.to_string())
}

/// Relies on `tera::Tera::autoescape_on`: replaces the suffix list that
/// autoescaping applies to and leaves the templates alone.
#[verifier::external_body]
pub fn tera_autoescape_on(t: &mut tera::Tera, suffixes: Vec<&'static str>)
    ensures
        tera_templates(*final(t)) == tera_templates(*old(t)),
        tera_autoescape_suffixes(*final(t)) == suffixes.deep_view(),
{
    t.autoescape_on(suffixes)
}

/// Relies on `tera::Tera::render`: renders a registered template against a
/// context.  Built-in template functions may draw on the clock or on
/// randomness, so nothing is claimed of the text that comes back.
#[verifier::external_body]
pub fn tera_render(t: &tera::Tera, name: &str, ctx: &tera::Context) -> (r: Result<
    String,
    String,
>) {
    t.render(name, ctx).map_err(|e| e.to_string())
}

/// Relies on `tera::Context::new`: an empty rendering context.
#[verifier::external_body]
pub fn context_new() -> (c: tera::Context)
    ensures
        (context_entries(c) == Map::<Seq<char>, Seq<char>>::empty()),
{
    tera::Context::new()
}

/// Relies on `tera::Context::try_insert`: binds a name to a text value.
/// Serializing a string never fails, so the call always succeeds.
#[verifier::external_body]
pub fn context_insert_text(c: &mut tera::Context, key: &str, value: &str) -> (r: Result<
    (),
    String,
>)
    ensures
        r is Ok,
        context_entries(*final(c)) == context_entries(*old(c)).insert(key@, value@),
{
    c.try_insert(key, value).map_err(|e| e.to_string())
}

/// Relies on `tera::Context::try_insert`: binds a name to a structured
/// settings value carried through from the front matter.  Serializing such a
/// value (strings, numbers, booleans, datetimes, arrays, string-keyed
/// tables) never fails, so the call always succeeds.
#[verifier::external_body]
pub fn context_insert_value(c: &mut tera::Context, key: &str, value: &toml::Value) -> (r: Result<
    (),
    String,
>)
    ensures
        r is Ok,
        context_entries(*final(c)) == context_entries(*old(c)).insert(
            key@,
            toml_repr(*value),
        ),
{
    c.try_insert(key, value).map_err(|e| e.to_string())
}

/// Relies on `markdown_frontmatter::parse`: splits a document into its
/// front-matter mapping, handed back as key/value pairs, and its body.
/// Acceptance is deterministic in the text; the order of the pairs follows a
/// hash map and is rightly left unclaimed.
#[verifier::external_body]
pub fn frontmatter_pairs(document: &str) -> (r: Result<Vec<(String, toml::Value)>, String>)
    ensures
        r is Ok <==> frontmatter_ok(document@),
{
    match markdown_frontmatter::parse::<std::collections::HashMap<String, toml::Value>>(document) {
        Ok((map, _rest)) => Ok(map.into_iter().collect()),
        Err(e) => Err(e.to_string()),
    }
}

/// Relies on `Browsers::from_browserslist`: resolves a browser-support
/// query against the bundled release data.  A rolling query such as one
/// naming the last few years is read against the clock, so nothing is
/// claimed of the outcome; the caller handles every one.
#[verifier::external_body]
pub fn resolve_browsers(policy: &str) -> (r: Result<Option<BrowserTargets>, String>) {
    match Browsers::from_browserslist(std::iter::once(policy)) {
        Ok(Some(b)) => Ok(Some(BrowserTargets {
            android: b.android, chrome: b.chrome, edge: b.edge, firefox: b.firefox,
            ie: b.ie, ios_saf: b.ios_saf, opera: b.opera, safari: b.safari,
            samsung: b.samsung,
        })),
        Ok(None) => Ok(None),
        Err(e) => Err(e.to_string()),
    }
}

/// Relies on lightningcss's `StyleSheet::parse`, `StyleSheet::minify` and
/// `StyleSheet::to_css` in sequence: with the target set already resolved to
/// plain version numbers, acceptance and the printed stylesheet are
/// functions of the source text, the whitespace switch and the targets
/// alone.  The three calls share one wrapper because the parsed stylesheet
/// borrows the source text and cannot cross a wrapper boundary.
#[verifier::external_body]
pub fn css_rewrite(source: &str, minify: bool, targets: &BrowserTargets) -> (r: Result<
    String,
    String,
>)
    ensures
        r is Ok <==> css_ok(source@, minify, *targets),
        r matches Ok(text) ==> text@ == css_of(source@, minify, *targets),
{
    let browsers = Some(Browsers {
        android: targets.android, chrome: targets.chrome, edge: targets.edge,
        firefox: targets.firefox, ie: targets.ie, ios_saf: targets.ios_saf,
        opera: targets.opera, safari: targets.safari, samsung: targets.samsung,
    });
    let mut styles = StyleSheet::parse(source, ParserOptions::default()).map_err(
        |e| e.to_string(),
    )?;
    styles.minify(MinifyOptions::default()).map_err(|e| e.to_string())?;
    let out = styles.to_css(PrinterOptions {
        minify,
        targets: Targets { browsers, ..Targets::default() },
        ..PrinterOptions::default()
    }).map_err(|e| e.to_string())?;
    Ok(out.code)
}

/// Relies on `comrak::markdown_to_html`: deterministic in the document text
/// and the front-matter delimiter.
#[verifier::external_body]
pub fn markdown_body_html(document: &str, front_matter_delimiter: &str) -> (r: String)
    ensures
        r@ == html_of_markdown(document@, front_matter_delimiter@),
{
    let mut options = comrak::Options::default();
    options.extension.front_matter_delimiter = Some(front_matter_delimiter.to_string());
    comrak::markdown_to_html(document, &options)
}

/// Relies on `minify_html::minify` with the default configuration:
/// deterministic in the input bytes.
#[verifier::external_body]
pub fn minify_markup(page: &Vec<u8>) -> (r: Vec<u8>)
    ensures
        r@ == minified_html_of(page@),
{
    minify_html::minify(page, &minify_html::Cfg::default())
}

/// Relies on `String::from_utf8`: succeeds exactly on valid UTF-8 and keeps
/// the bytes as they were.
#[verifier::external_body]
pub fn decode_text(bytes: &Vec<u8>) -> (r: Option<String>)
    ensures
        r is Some <==> valid_utf8(bytes@),
        r matches Some(s) ==> s@ == decode_utf8(bytes@) && encode_utf8(s@) == bytes@,
{
    String::from_utf8(bytes.clone()).ok()
}

} // verus!
