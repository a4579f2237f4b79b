//! The pipeline: dispatches each file of the source tree on its extension,
//! rewrites stylesheets, renders markup pages, binds content documents to the
//! layout registered for their directory, and copies everything else byte for
//! byte.  The walker in the surrounding binary reads the tree and writes the
//! outputs; everything decided here is verified.

use vstd::prelude::*;
use vstd::utf8::{valid_utf8, decode_utf8, encode_utf8};
use crate::config::Config;
use crate::paths::{FilePath, extension, extension_of, force_markup_name, forced_markup_of, joined};
use crate::engines::{
    tera_templates, tera_autoescape_suffixes, context_entries, toml_repr, css_of, css_ok,
    frontmatter_ok, template_ok, BrowserTargets, html_of_markdown, minified_html_of,
    default_autoescape_suffixes, tera_new, tera_add_template, tera_autoescape_on, tera_render,
    context_new, context_insert_text, context_insert_value, frontmatter_pairs, resolve_browsers,
    css_rewrite, markdown_body_html, minify_markup, decode_text,
};
use vstd::pervasive::unreached;

verus! {

broadcast use vstd::string::group_string_axioms;

/// One regular file of the source tree, at its path relative to the source
/// root.
pub struct SourceFile {
    pub path: FilePath,
    pub content: Vec<u8>,
}

/// One file the run wants written, at its path relative to the filesystem
/// root the output directory names.
pub struct OutputFile {
    pub path: FilePath,
    pub content: Vec<u8>,
}

/// Why a run failed.  Stylesheet and front-matter failures carry the
/// offending file's path, so the broken input can be located.
#[derive(Debug)]
pub enum GeneratorError {
    Io(String),
    Tera(String),
    Css { file: FilePath, err: String },
    Frontmatter { file: FilePath, err: String },
    Utf8 { file: FilePath },
    Policy(String),
}

/// The generator: the configuration, the template engine seeded with every
/// markup file of the tree, the registry of directories that provide a
/// layout, and the browser-support targets resolved once for the run.
pub struct Generator {
    pub config: Config,
    pub tera: tera::Tera,
    pub templates: Vec<FilePath>,
    pub targets: BrowserTargets,
}

/// The last path component: the file's name.
pub open spec fn file_name_of(f: SourceFile) -> Seq<char> {
    f.path@.last()
}

/// The file's extension.
pub open spec fn ext_of(f: SourceFile) -> Seq<char> {
    extension_of(f.path@.last())
}

pub open spec fn is_stylesheet(f: SourceFile) -> bool {
    ext_of(f) == "css"@
}

pub open spec fn is_markup(f: SourceFile) -> bool {
    ext_of(f) == "html"@
}

pub open spec fn is_document(f: SourceFile) -> bool {
    ext_of(f) == "md"@
}

/// A file of no recognized kind: passed through untouched.
pub open spec fn is_plain(f: SourceFile) -> bool {
    !is_stylesheet(f) && !is_markup(f) && !is_document(f)
}

/// The escaping rule on markup names: exactly one leading underscore marks a
/// partial, which is never rendered to an output of its own.
pub open spec fn is_partial_name(name: Seq<char>) -> bool {
    name.len() >= 1 && name[0] == '_' && !(name.len() >= 2 && name[1] == '_')
}

/// A markup page that is rendered to the mirrored path: no leading
/// underscore, or two or more of them.
pub open spec fn is_ordinary_page(f: SourceFile) -> bool {
    is_markup(f) && !is_partial_name(file_name_of(f))
}

/// The reserved layout file: its directory is registered in the layout
/// registry.
pub open spec fn is_layout_file(f: SourceFile) -> bool {
    is_markup(f) && file_name_of(f) == "_template.html"@
}

/// Whether processing the file produces an output file.
pub open spec fn emits(f: SourceFile) -> bool {
    if is_markup(f) {
        !is_partial_name(file_name_of(f))
    } else {
        true
    }
}

/// The mirrored path a file's output occupies (or would occupy): re-rooted
/// under the output directory, with a document's extension forced to the
/// markup extension.
pub open spec fn hyp_dest(output: Seq<Seq<char>>, f: SourceFile) -> Seq<Seq<char>> {
    if is_document(f) {
        output + f.path@.drop_last().push(forced_markup_of(f.path@.last()))
    } else {
        output + f.path@
    }
}

/// How many of the first `i` files emit an output.
pub open spec fn emit_count(files: Seq<SourceFile>, i: int) -> int
    decreases i,
{
    if i <= 0 {
        0
    } else {
        emit_count(files, i - 1) + if emits(files[i - 1]) {
            1int
        } else {
            0int
        }
    }
}

/// The template sources the engine is seeded with: every markup file, under
/// its path relative to the source root.
pub open spec fn markup_map(files: Seq<SourceFile>) -> Map<Seq<char>, Seq<char>>
    decreases files.len(),
{
    if files.len() == 0 {
        Map::empty()
    } else {
        let m = markup_map(files.drop_last());
        let f = files.last();
        if is_markup(f) && valid_utf8(f.content@) {
            m.insert(joined(f.path@), decode_utf8(f.content@))
        } else {
            m
        }
    }
}

/// The directories the layout registry accumulates, in discovery order.
pub open spec fn layout_dirs(files: Seq<SourceFile>) -> Seq<Seq<Seq<char>>>
    decreases files.len(),
{
    if files.len() == 0 {
        Seq::empty()
    } else {
        let d = layout_dirs(files.drop_last());
        if is_layout_file(files.last()) {
            d.push(files.last().path@.drop_last())
        } else {
            d
        }
    }
}

/// The views of a sequence of paths.
pub open spec fn path_views(v: Seq<FilePath>) -> Seq<Seq<Seq<char>>> {
    v.map_values(|p: FilePath| p@)
}

/// Whether some registered layout directory lies on the directory's
/// ancestor chain, the directory itself included.
pub open spec fn under_layout(layouts: Seq<Seq<Seq<char>>>, dir: Seq<Seq<char>>) -> bool {
    exists|k: int| 0 <= k < layouts.len() && (#[trigger] layouts[k]).is_prefix_of(dir)
}

/// Whether the engine accepts the tree's markup files as templates, in
/// input order: every markup file decodes, and each template source is
/// accepted against the templates registered before it.
pub open spec fn seeding_ok(files: Seq<SourceFile>) -> bool
    decreases files.len(),
{
    if files.len() == 0 {
        true
    } else {
        let rest = files.drop_last();
        let f = files.last();
        seeding_ok(rest) && (is_markup(f) ==> valid_utf8(f.content@) && template_ok(
            markup_map(rest),
            joined(f.path@),
            decode_utf8(f.content@),
        ))
    }
}

/// The inputs on which processing a file involves no outside judgement, so
/// success is owed: plain files, partials, accepted stylesheets, and
/// documents with accepted front matter outside every layout directory.
pub open spec fn file_safe(
    f: SourceFile,
    minify: bool,
    targets: BrowserTargets,
    layouts: Seq<Seq<Seq<char>>>,
) -> bool {
    if is_stylesheet(f) {
        valid_utf8(f.content@) && css_ok(decode_utf8(f.content@), minify, targets)
    } else if is_markup(f) {
        is_partial_name(file_name_of(f))
    } else if is_document(f) {
        valid_utf8(f.content@) && frontmatter_ok(decode_utf8(f.content@)) && !under_layout(
            layouts,
            f.path@.drop_last(),
        )
    } else {
        true
    }
}

/// The bindings a sequence of front-matter pairs contributes to a rendering
/// context, later pairs winning.
pub open spec fn bound_pairs(pairs: Seq<(String, toml::Value)>) -> Map<Seq<char>, Seq<char>>
    decreases pairs.len(),
{
    if pairs.len() == 0 {
        Map::empty()
    } else {
        bound_pairs(pairs.drop_last()).insert(pairs.last().0@, toml_repr(pairs.last().1))
    }
}

/// The bytes written for a rendered page under the given whitespace switch.
pub open spec fn page_bytes(text: Seq<char>, minify: bool) -> Seq<u8> {
    if minify {
        minified_html_of(encode_utf8(text))
    } else {
        encode_utf8(text)
    }
}

/// What one output owes to the file it came from.
pub open spec fn out_matches(
    output: Seq<Seq<char>>,
    minify: bool,
    targets: BrowserTargets,
    layouts: Seq<Seq<Seq<char>>>,
    f: SourceFile,
    o: OutputFile,
) -> bool {
    &&& o.path@ == hyp_dest(output, f)
    &&& (is_plain(f) ==> o.content@ == f.content@)
    &&& (is_stylesheet(f) ==> valid_utf8(f.content@) && o.content@ == encode_utf8(
        css_of(decode_utf8(f.content@), minify, targets),
    ))
    &&& (is_document(f) ==> valid_utf8(f.content@) && (if under_layout(
        layouts,
        f.path@.drop_last(),
    ) {
        exists|rendered: Seq<char>| o.content@ == #[trigger] page_bytes(rendered, minify)
    } else {
        o.content@ == page_bytes(html_of_markdown(decode_utf8(f.content@), "---"@), minify)
    }))
    &&& (is_ordinary_page(f) ==> exists|rendered: Seq<char>|
        o.content@ == #[trigger] page_bytes(rendered, minify))
}

/// What a successful run owes to its inputs: one output per emitting file,
/// in input order, each output owed to its file, and nothing else emitted.
pub open spec fn run_post(
    output: Seq<Seq<char>>,
    minify: bool,
    targets: BrowserTargets,
    layouts: Seq<Seq<Seq<char>>>,
    files: Seq<SourceFile>,
    outs: Seq<OutputFile>,
) -> bool {
    &&& outs.len() == emit_count(files, files.len() as int)
    &&& (forall|i: int|
        0 <= i < files.len() && emits(files[i]) ==> {
            &&& 0 <= #[trigger] emit_count(files, i) < outs.len()
            &&& out_matches(output, minify, targets, layouts, files[i], outs[emit_count(files, i)])
        })
}

/// The three recognized extensions differ from one another.
proof fn lemma_ext_distinct()
    ensures
        "css"@ != "html"@,
        "css"@ != "md"@,
        "html"@ != "md"@,
{
    reveal_strlit("css");
    reveal_strlit("html");
    reveal_strlit("md");
    assert("css"@.len() == 3);
    assert("html"@.len() == 4);
    assert("md"@.len() == 2);
}

/// Every output slot below the emitted count belongs to some emitting file.
proof fn lemma_emit_surjective(files: Seq<SourceFile>, n: int, j: int)
    requires
        0 <= n <= files.len(),
        0 <= j < emit_count(files, n),
    ensures
        exists|k: int|
            0 <= k < n && emits(files[k]) && #[trigger] emit_count(files, k) == j,
    decreases n,
{
    if emits(files[n - 1]) && j == emit_count(files, n - 1) {
        assert(emit_count(files, n - 1) == j);
    } else {
        lemma_emit_surjective(files, n - 1, j);
    }
}

/// No two files of the tree claim the same mirrored output path.  A tree
/// with distinct file paths can only break this where a document and a
/// markup page share their directory and stem.
pub open spec fn no_dest_collisions(output: Seq<Seq<char>>, files: Seq<SourceFile>) -> bool {
    forall|i1: int, i2: int|
        0 <= i1 < files.len() && 0 <= i2 < files.len() && i1 != i2 ==> #[trigger] hyp_dest(
            output,
            files[i1],
        ) != #[trigger] hyp_dest(output, files[i2])
}

/// Every file outside the three recognized kinds is emitted byte-identical
/// at its mirrored path.
pub proof fn lemma_plain_copied(
    output: Seq<Seq<char>>,
    minify: bool,
    targets: BrowserTargets,
    layouts: Seq<Seq<Seq<char>>>,
    files: Seq<SourceFile>,
    outs: Seq<OutputFile>,
    i: int,
)
    requires
        run_post(output, minify, targets, layouts, files, outs),
        0 <= i < files.len(),
        is_plain(files[i]),
    ensures
        0 <= emit_count(files, i) < outs.len(),
        outs[emit_count(files, i)].content@ == files[i].content@,
        outs[emit_count(files, i)].path@ == output + files[i].path@,
{
    assert(emits(files[i]));
    assert(out_matches(output, minify, targets, layouts, files[i], outs[emit_count(files, i)]));
}

/// An ordinary markup page is emitted at its mirrored path and, when the
/// tree has no destination collisions, at no other output stands that path;
/// a single-underscore partial is emitted nowhere.
pub proof fn lemma_page_outputs(
    output: Seq<Seq<char>>,
    minify: bool,
    targets: BrowserTargets,
    layouts: Seq<Seq<Seq<char>>>,
    files: Seq<SourceFile>,
    outs: Seq<OutputFile>,
    i: int,
)
    requires
        run_post(output, minify, targets, layouts, files, outs),
        no_dest_collisions(output, files),
        0 <= i < files.len(),
        is_markup(files[i]),
    ensures
        is_ordinary_page(files[i]) ==> {
            &&& 0 <= emit_count(files, i) < outs.len()
            &&& outs[emit_count(files, i)].path@ == output + files[i].path@
            &&& forall|j: int|
                0 <= j < outs.len() && j != emit_count(files, i) ==> #[trigger] outs[j].path@
                    != output + files[i].path@
        },
        !is_ordinary_page(files[i]) ==> forall|j: int|
            0 <= j < outs.len() ==> #[trigger] outs[j].path@ != hyp_dest(output, files[i]),
{
    lemma_ext_distinct();
    if is_ordinary_page(files[i]) {
        assert(emits(files[i]));
        assert(out_matches(output, minify, targets, layouts, files[i], outs[emit_count(files, i)]));
        assert(hyp_dest(output, files[i]) == output + files[i].path@);
        assert forall|j: int|
            0 <= j < outs.len() && j != emit_count(files, i) implies #[trigger] outs[j].path@
            != output + files[i].path@ by {
            lemma_emit_surjective(files, files.len() as int, j);
            let k = choose|k: int|
                0 <= k < files.len() && emits(files[k]) && #[trigger] emit_count(files, k) == j;
            assert(out_matches(output, minify, targets, layouts, files[k], outs[j]));
            if k == i {
                assert(false);
            } else {
                assert(hyp_dest(output, files[k]) != hyp_dest(output, files[i]));
            }
        }
    } else {
        assert forall|j: int| 0 <= j < outs.len() implies #[trigger] outs[j].path@ != hyp_dest(
            output,
            files[i],
        ) by {
            lemma_emit_surjective(files, files.len() as int, j);
            let k = choose|k: int|
                0 <= k < files.len() && emits(files[k]) && #[trigger] emit_count(files, k) == j;
            assert(out_matches(output, minify, targets, layouts, files[k], outs[j]));
            assert(k != i);
            assert(hyp_dest(output, files[k]) != hyp_dest(output, files[i]));
        }
    }
}

/// A document whose directory registered no layout is emitted as exactly the
/// fallback rendering of its body, at its mirrored path with the markup
/// extension forced.
pub proof fn lemma_fallback_document(
    output: Seq<Seq<char>>,
    minify: bool,
    targets: BrowserTargets,
    layouts: Seq<Seq<Seq<char>>>,
    files: Seq<SourceFile>,
    outs: Seq<OutputFile>,
    i: int,
)
    requires
        run_post(output, minify, targets, layouts, files, outs),
        0 <= i < files.len(),
        is_document(files[i]),
        !under_layout(layouts, files[i].path@.drop_last()),
    ensures
        0 <= emit_count(files, i) < outs.len(),
        outs[emit_count(files, i)].content@ == page_bytes(
            html_of_markdown(decode_utf8(files[i].content@), "---"@),
            minify,
        ),
        outs[emit_count(files, i)].path@ == output + files[i].path@.drop_last().push(
            forced_markup_of(files[i].path@.last()),
        ),
{
    lemma_ext_distinct();
    assert(emits(files[i]));
    assert(out_matches(output, minify, targets, layouts, files[i], outs[emit_count(files, i)]));
}

/// A prefix of an acceptable tree is acceptable.
proof fn lemma_seeding_prefix(files: Seq<SourceFile>, m: int)
    requires
        0 <= m <= files.len(),
        seeding_ok(files),
    ensures
        seeding_ok(files.take(m)),
    decreases files.len(),
{
    if m < files.len() {
        assert(seeding_ok(files.drop_last()));
        assert(files.drop_last().take(m) =~= files.take(m));
        lemma_seeding_prefix(files.drop_last(), m);
    } else {
        assert(files.take(m) =~= files);
    }
}

impl Generator {
    /// Builds the generator: resolves the rolling browser-support policy to
    /// a fixed target set, seeds the template engine with every markup file
    /// of the tree under its path relative to the source root, and registers
    /// in the layout registry the directory of every reserved layout file.
    pub fn new(config: Config, files: &Vec<SourceFile>) -> (r: Result<Generator, GeneratorError>)
        requires
            forall|i: int| 0 <= i < files@.len() ==> (#[trigger] files@[i]).path@.len() > 0,
        ensures
            r matches Ok(g) ==> {
                &&& g.config.source@ == config.source@
                &&& g.config.output@ == config.output@
                &&& g.config.minify == config.minify
                &&& tera_templates(g.tera) == markup_map(files@)
                &&& tera_autoescape_suffixes(g.tera) == default_autoescape_suffixes()
                &&& path_views(g.templates@) == layout_dirs(files@)
                &&& seeding_ok(files@)
            },
            r matches Err(e) ==> {
                &&& (e matches GeneratorError::Policy(_) || e matches GeneratorError::Utf8 {
                    ..
                } || e matches GeneratorError::Tera(_))
                &&& (!(e matches GeneratorError::Policy(_)) ==> !seeding_ok(files@))
                &&& (e matches GeneratorError::Utf8 { file } ==> exists|i: int|
                    0 <= i < files@.len() && is_markup(#[trigger] files@[i]) && !valid_utf8(
                        files@[i].content@,
                    ) && file@ == files@[i].path@)
            },
    {
        let targets = match resolve_browsers("last 4 years") {
            Ok(Some(t)) => t,
            Ok(None) => {
                return Err(GeneratorError::Policy(
                    "The browser-support policy matched no browsers.".to_owned(),
                ));
            },
            Err(e) => {
                return Err(GeneratorError::Policy(e));
            },
        };
        let mut engine = tera_new();
        let mut registry: Vec<FilePath> = Vec::new();
        let mut i: usize = 0;
        proof {
            assert(files@.take(0) =~= Seq::<SourceFile>::empty());
            assert(path_views(registry@) =~= layout_dirs(files@.take(0)));
        }
        while i < files.len()
            invariant
                i <= files@.len(),
                forall|k: int| 0 <= k < files@.len() ==> (#[trigger] files@[k]).path@.len() > 0,
                tera_templates(engine) == markup_map(files@.take(i as int)),
                tera_autoescape_suffixes(engine) == default_autoescape_suffixes(),
                path_views(registry@) == layout_dirs(files@.take(i as int)),
                seeding_ok(files@.take(i as int)),
            decreases files@.len() - i,
        {
            let f = &files[i];
            proof {
                assert(files@.take(i + 1).drop_last() =~= files@.take(i as int));
                assert(files@.take(i + 1).last() == files@[i as int]);
            }
            let name = f.path.file_name().unwrap();
            let ext = extension(name.as_str());
            if ext == "html".to_owned() {
                let text = match decode_text(&f.content) {
                    Some(t) => t,
                    None => {
                        proof {
                            assert(!seeding_ok(files@.take(i + 1)));
                            if seeding_ok(files@) {
                                lemma_seeding_prefix(files@, i + 1);
                            }
                            assert(is_markup(files@[i as int]));
                        }
                        return Err(GeneratorError::Utf8 { file: f.path.duplicate() });
                    },
                };
                let tname = f.path.to_name();
                let ghost pre_templates = tera_templates(engine);
                match tera_add_template(&mut engine, tname.as_str(), text.as_str()) {
                    Ok(_) => {},
                    Err(e) => {
                        proof {
                            assert(!template_ok(pre_templates, joined(f.path@), text@));
                            assert(!seeding_ok(files@.take(i + 1)));
                            if seeding_ok(files@) {
                                lemma_seeding_prefix(files@, i + 1);
                            }
                        }
                        return Err(GeneratorError::Tera(e));
                    },
                }
                if *name == "_template.html".to_owned() {
                    registry.push(f.path.parent());
                    proof {
                        assert(path_views(registry@) =~= layout_dirs(files@.take(i + 1)));
                    }
                } else {
                    proof {
                        assert(path_views(registry@) =~= layout_dirs(files@.take(i + 1)));
                    }
                }
            } else {
                proof {
                    assert(path_views(registry@) =~= layout_dirs(files@.take(i + 1)));
                }
            }
            i = i + 1;
        }
        proof {
            assert(files@.take(files@.len() as int) =~= files@);
        }
        Ok(Generator { config, tera: engine, templates: registry, targets })
    }

    /// Processes the whole tree in input order and hands back the outputs to
    /// write, one per emitting file.
    pub fn run(&mut self, files: &Vec<SourceFile>) -> (r: Result<
        Vec<OutputFile>,
        GeneratorError,
    >)
        requires
            forall|i: int| 0 <= i < files@.len() ==> (#[trigger] files@[i]).path@.len() > 0,
            tera_autoescape_suffixes(old(self).tera) == default_autoescape_suffixes(),
        ensures
            final(self).templates == old(self).templates,
            final(self).config == old(self).config,
            tera_templates(final(self).tera) == tera_templates(old(self).tera),
            tera_autoescape_suffixes(final(self).tera) == default_autoescape_suffixes(),
            final(self).targets == old(self).targets,
            r matches Ok(outs) ==> run_post(
                old(self).config.output@,
                old(self).config.minify,
                old(self).targets,
                path_views(old(self).templates@),
                files@,
                outs@,
            ),
            (forall|i: int|
                0 <= i < files@.len() ==> #[trigger] file_safe(
                    files@[i],
                    old(self).config.minify,
                    old(self).targets,
                    path_views(old(self).templates@),
                )) ==> r is Ok,
            r matches Err(e) ==> {
                &&& !(e matches GeneratorError::Io(_)) && !(e matches GeneratorError::Policy(_))
                &&& (e matches GeneratorError::Css { file, .. } ==> exists|i: int|
                    0 <= i < files@.len() && is_stylesheet(#[trigger] files@[i]) && file@
                        == files@[i].path@)
                &&& (e matches GeneratorError::Frontmatter { file, .. } ==> exists|i: int|
                    0 <= i < files@.len() && is_document(#[trigger] files@[i]) && file@
                        == files@[i].path@)
                &&& (e matches GeneratorError::Utf8 { file } ==> exists|i: int|
                    0 <= i < files@.len() && (#[trigger] files@[i]).path@ == file@)
            },
    {
        let mut outs: Vec<OutputFile> = Vec::new();
        let mut i: usize = 0;
        while i < files.len()
            invariant
                i <= files@.len(),
                forall|k: int| 0 <= k < files@.len() ==> (#[trigger] files@[k]).path@.len() > 0,
                self.templates == old(self).templates,
                self.config == old(self).config,
                self.targets == old(self).targets,
                tera_templates(self.tera) == tera_templates(old(self).tera),
                tera_autoescape_suffixes(self.tera) == default_autoescape_suffixes(),
                outs@.len() == emit_count(files@, i as int),
                forall|k: int|
                    0 <= k < i && emits(files@[k]) ==> {
                        &&& 0 <= #[trigger] emit_count(files@, k) < outs@.len()
                        &&& out_matches(
                            old(self).config.output@,
                            old(self).config.minify,
                            old(self).targets,
                            path_views(old(self).templates@),
                            files@[k],
                            outs@[emit_count(files@, k)],
                        )
                    },
            decreases files@.len() - i,
        {
            let ghost prev_count = emit_count(files@, i as int);
            let ghost outs0 = outs@;
            match self.file(&files[i]) {
                Ok(Some(o)) => {
                    proof {
                        assert(emits(files@[i as int]));
                        assert(emit_count(files@, i + 1) == prev_count + 1);
                    }
                    outs.push(o);
                    proof {
                        assert(outs@ == outs0.push(o));
                        assert(outs@[prev_count] == o);
                        assert forall|k: int| 0 <= k < i + 1 && emits(files@[k]) implies {
                            &&& 0 <= #[trigger] emit_count(files@, k) < outs@.len()
                            &&& out_matches(
                                old(self).config.output@,
                                old(self).config.minify,
                                old(self).targets,
                                path_views(old(self).templates@),
                                files@[k],
                                outs@[emit_count(files@, k)],
                            )
                        } by {
                            if k < i {
                                assert(0 <= emit_count(files@, k) < outs0.len());
                                assert(outs@[emit_count(files@, k)] == outs0[emit_count(
                                    files@,
                                    k,
                                )]);
                            } else {
                                assert(emit_count(files@, k) == prev_count);
                            }
                        }
                    }
                },
                Ok(None) => {
                    proof {
                        assert(!emits(files@[i as int]));
                        assert(emit_count(files@, i + 1) == prev_count);
                    }
                },
                Err(e) => {
                    proof {
                        assert(!file_safe(
                            files@[i as int],
                            old(self).config.minify,
                            old(self).targets,
                            path_views(old(self).templates@),
                        ));
                    }
                    return Err(e);
                },
            }
            i = i + 1;
        }
        Ok(outs)
    }

    /// Dispatches one file on its extension; hands back its output, or
    /// nothing for a partial.
    fn file(&mut self, f: &SourceFile) -> (r: Result<Option<OutputFile>, GeneratorError>)
        requires
            f.path@.len() > 0,
            tera_autoescape_suffixes(old(self).tera) == default_autoescape_suffixes(),
        ensures
            final(self).templates == old(self).templates,
            final(self).config == old(self).config,
            tera_templates(final(self).tera) == tera_templates(old(self).tera),
            tera_autoescape_suffixes(final(self).tera) == default_autoescape_suffixes(),
            final(self).targets == old(self).targets,
            r matches Ok(out) ==> {
                &&& (out is Some <==> emits(*f))
                &&& (out matches Some(o) ==> out_matches(
                    old(self).config.output@,
                    old(self).config.minify,
                    old(self).targets,
                    path_views(old(self).templates@),
                    *f,
                    o,
                ))
            },
            file_safe(
                *f,
                old(self).config.minify,
                old(self).targets,
                path_views(old(self).templates@),
            ) ==> r is Ok,
            r matches Err(e) ==> {
                &&& !(e matches GeneratorError::Io(_)) && !(e matches GeneratorError::Policy(_))
                &&& (e matches GeneratorError::Utf8 { file } ==> file@ == f.path@ && !valid_utf8(
                    f.content@,
                ) && (is_stylesheet(*f) || is_document(*f)))
                &&& (e matches GeneratorError::Css { file, .. } ==> is_stylesheet(*f) && file@
                    == f.path@ && valid_utf8(f.content@) && !css_ok(
                    decode_utf8(f.content@),
                    old(self).config.minify,
                    old(self).targets,
                ))
                &&& (e matches GeneratorError::Frontmatter { file, .. } ==> is_document(*f)
                    && file@ == f.path@ && valid_utf8(f.content@) && !frontmatter_ok(
                    decode_utf8(f.content@),
                ))
                &&& (e matches GeneratorError::Tera(_) ==> is_ordinary_page(*f) || (is_document(
                    *f,
                ) && under_layout(path_views(old(self).templates@), f.path@.drop_last())))
            },
    {
        let name = f.path.file_name().unwrap();
        let ext = extension(name.as_str());
        proof {
            lemma_ext_distinct();
        }
        if ext == "css".to_owned() {
            match self.css(f) {
                Ok(o) => Ok(Some(o)),
                Err(e) => Err(e),
            }
        } else if ext == "html".to_owned() {
            self.html(f)
        } else if ext == "md".to_owned() {
            match self.markdown(f) {
                Ok(o) => Ok(Some(o)),
                Err(e) => Err(e),
            }
        } else {
            let mut content: Vec<u8> = Vec::new();
            let mut k: usize = 0;
            while k < f.content.len()
                invariant
                    k <= f.content@.len(),
                    content@ == f.content@.take(k as int),
                decreases f.content@.len() - k,
            {
                content.push(f.content[k]);
                proof {
                    assert(content@ =~= f.content@.take(k + 1));
                }
                k = k + 1;
            }
            proof {
                assert(f.content@.take(f.content@.len() as int) =~= f.content@);
            }
            Ok(Some(OutputFile { path: self.dest(&f.path), content }))
        }
    }

    /// The mirrored output path of a source-relative path.
    fn dest(&self, path: &FilePath) -> (r: FilePath)
        ensures
            r@ == self.config.output@ + path@,
    {
        path.rebase_under(&self.config.output)
    }

    /// Rewrites one stylesheet: parse, structural minification, print under
    /// the whitespace switch and the target set resolved at construction.
    fn css(&self, f: &SourceFile) -> (r: Result<OutputFile, GeneratorError>)
        requires
            f.path@.len() > 0,
            is_stylesheet(*f),
        ensures
            r matches Ok(o) ==> out_matches(
                self.config.output@,
                self.config.minify,
                self.targets,
                path_views(self.templates@),
                *f,
                o,
            ),
            r is Ok <==> valid_utf8(f.content@) && css_ok(
                decode_utf8(f.content@),
                self.config.minify,
                self.targets,
            ),
            r matches Err(e) ==> ((e matches GeneratorError::Utf8 { file } && file@ == f.path@
                && !valid_utf8(f.content@)) || (e matches GeneratorError::Css { file, .. }
                && file@ == f.path@ && valid_utf8(f.content@) && !css_ok(
                decode_utf8(f.content@),
                self.config.minify,
                self.targets,
            ))),
    {
        proof {
            lemma_ext_distinct();
        }
        let text = match decode_text(&f.content) {
            Some(t) => t,
            None => {
                return Err(GeneratorError::Utf8 { file: f.path.duplicate() });
            },
        };
        match css_rewrite(text.as_str(), self.config.minify, &self.targets) {
            Ok(out) => Ok(
                OutputFile { path: self.dest(&f.path), content: out.as_str().as_bytes_vec() },
            ),
            Err(e) => Err(GeneratorError::Css { file: f.path.duplicate(), err: e }),
        }
    }

    /// Renders one markup file: a partial yields nothing, an ordinary page
    /// is rendered by name against an empty context and compacted when the
    /// configuration asks for it.
    fn html(&mut self, f: &SourceFile) -> (r: Result<Option<OutputFile>, GeneratorError>)
        requires
            f.path@.len() > 0,
            is_markup(*f),
        ensures
            final(self).templates == old(self).templates,
            final(self).config == old(self).config,
            tera_templates(final(self).tera) == tera_templates(old(self).tera),
            tera_autoescape_suffixes(final(self).tera) == tera_autoescape_suffixes(
                old(self).tera,
            ),
            final(self).targets == old(self).targets,
            r matches Ok(out) ==> {
                &&& (out is Some <==> !is_partial_name(file_name_of(*f)))
                &&& (out matches Some(o) ==> out_matches(
                    old(self).config.output@,
                    old(self).config.minify,
                    old(self).targets,
                    path_views(old(self).templates@),
                    *f,
                    o,
                ))
            },
            is_partial_name(file_name_of(*f)) ==> r is Ok,
            r matches Err(e) ==> (e matches GeneratorError::Tera(_)
                && !is_partial_name(file_name_of(*f))),
    {
        proof {
            lemma_ext_distinct();
        }
        let name = f.path.file_name().unwrap();
        let n = name.as_str();
        let len = n.unicode_len();
        let partial = len >= 1 && n.get_char(0) == '_' && !(len >= 2 && n.get_char(1) == '_');
        if partial {
            return Ok(None);
        }
        let tname = f.path.to_name();
        let ctx = context_new();
        match tera_render(&self.tera, tname.as_str(), &ctx) {
            Ok(rendered) => {
                let bytes = rendered.as_str().as_bytes_vec();
                let content = if self.config.minify {
                    minify_markup(&bytes)
                } else {
                    bytes
                };
                proof {
                    assert(content@ == page_bytes(rendered@, self.config.minify));
                }
                Ok(Some(OutputFile { path: self.dest(&f.path), content }))
            },
            Err(e) => Err(GeneratorError::Tera(e)),
        }
    }

    /// Converts one content document: front matter and body are split, the
    /// body is rendered to markup, the context is bound, and the result goes
    /// through the layout registered for the nearest ancestor directory, or
    /// through the minimal fallback that emits the body alone.
    fn markdown(&mut self, f: &SourceFile) -> (r: Result<OutputFile, GeneratorError>)
        requires
            f.path@.len() > 0,
            is_document(*f),
            tera_autoescape_suffixes(old(self).tera) == default_autoescape_suffixes(),
        ensures
            final(self).templates == old(self).templates,
            final(self).config == old(self).config,
            tera_templates(final(self).tera) == tera_templates(old(self).tera),
            tera_autoescape_suffixes(final(self).tera) == default_autoescape_suffixes(),
            final(self).targets == old(self).targets,
            r matches Ok(o) ==> out_matches(
                old(self).config.output@,
                old(self).config.minify,
                old(self).targets,
                path_views(old(self).templates@),
                *f,
                o,
            ),
            !valid_utf8(f.content@) ==> (r matches Err(e) && e matches GeneratorError::Utf8 {
                file,
            } && file@ == f.path@),
            valid_utf8(f.content@) && !frontmatter_ok(decode_utf8(f.content@)) ==> (r matches Err(
                e,
            ) && e matches GeneratorError::Frontmatter { file, .. } && file@ == f.path@),
            valid_utf8(f.content@) && frontmatter_ok(decode_utf8(f.content@)) && !under_layout(
                path_views(old(self).templates@),
                f.path@.drop_last(),
            ) ==> r is Ok,
            r matches Err(e) ==> ((e matches GeneratorError::Utf8 { file } && file@ == f.path@
                && !valid_utf8(f.content@)) || (e matches GeneratorError::Frontmatter {
                file,
                ..
            } && file@ == f.path@ && valid_utf8(f.content@) && !frontmatter_ok(
                decode_utf8(f.content@),
            )) || (e matches GeneratorError::Tera(_) && under_layout(
                path_views(old(self).templates@),
                f.path@.drop_last(),
            ))),
    {
        proof {
            lemma_ext_distinct();
        }
        let text = match decode_text(&f.content) {
            Some(t) => t,
            None => {
                return Err(GeneratorError::Utf8 { file: f.path.duplicate() });
            },
        };
        let body = markdown_body_html(text.as_str(), "---");
        let pairs = match frontmatter_pairs(text.as_str()) {
            Ok(p) => p,
            Err(e) => {
                return Err(GeneratorError::Frontmatter { file: f.path.duplicate(), err: e });
            },
        };
        let ctx = bind_context(body.as_str(), &pairs);

        let parent = f.path.parent();
        let rendered: String = match find_layout_dir(&self.templates, &parent) {
            Some(layout_dir) => {
                proof {
                    let k = choose|k: int|
                        0 <= k < path_views(self.templates@).len() && path_views(
                            self.templates@,
                        )[k] == layout_dir@;
                    assert((#[trigger] path_views(self.templates@)[k]).is_prefix_of(parent@));
                    assert(under_layout(path_views(self.templates@), parent@));
                }
                let mut tpath = layout_dir;
                tpath.push("_template.html".to_owned());
                let tname = tpath.to_name();
                tera_autoescape_on(&mut self.tera, Vec::new());
                let res = tera_render(&self.tera, tname.as_str(), &ctx);
                let mut suffixes: Vec<&'static str> = Vec::new();
                suffixes.push(".html");
                suffixes.push(".htm");
                suffixes.push(".xml");
                proof {
                    assert(suffixes.deep_view() =~= default_autoescape_suffixes());
                }
                tera_autoescape_on(&mut self.tera, suffixes);
                match res {
                    Ok(s) => s,
                    Err(e) => {
                        return Err(GeneratorError::Tera(e));
                    },
                }
            },
            None => body,
        };

        let mut dest = parent.rebase_under(&self.config.output);
        dest.push(force_markup_name(name_str(f)));
        let bytes = rendered.as_str().as_bytes_vec();
        let content = if self.config.minify {
            minify_markup(&bytes)
        } else {
            bytes
        };
        proof {
            assert(content@ == page_bytes(rendered@, self.config.minify));
            assert(dest@ =~= self.config.output@ + f.path@.drop_last().push(
                forced_markup_of(f.path@.last()),
            ));
        }
        Ok(OutputFile { path: dest, content })
    }
}

/// The file's name as a borrowed string.
fn name_str(f: &SourceFile) -> (r: &str)
    requires
        f.path@.len() > 0,
    ensures
        r@ == file_name_of(*f),
{
    f.path.file_name().unwrap().as_str()
}

/// Binds the rendering context for one document: every front-matter pair,
/// then the rendered body under the reserved `content` key, so that no
/// front-matter key can shadow the body.  Binding never fails: serializing
/// these values cannot error.
pub fn bind_context(body: &str, pairs: &Vec<(String, toml::Value)>) -> (c: tera::Context)
    ensures
        context_entries(c) == bound_pairs(pairs@).insert("content"@, body@),
{
    let mut ctx = context_new();
    let mut i: usize = 0;
    proof {
        assert(pairs@.take(0) =~= Seq::<(String, toml::Value)>::empty());
        assert(context_entries(ctx) =~= bound_pairs(pairs@.take(0)));
    }
    while i < pairs.len()
        invariant
            i <= pairs@.len(),
            context_entries(ctx) == bound_pairs(pairs@.take(i as int)),
        decreases pairs@.len() - i,
    {
        proof {
            assert(pairs@.take(i + 1).drop_last() =~= pairs@.take(i as int));
            assert(pairs@.take(i + 1).last() == pairs@[i as int]);
        }
        match context_insert_value(&mut ctx, pairs[i].0.as_str(), &pairs[i].1) {
            Ok(_) => {},
            Err(_) => unreached(),
        }
        i = i + 1;
    }
    proof {
        assert(pairs@.take(pairs@.len() as int) =~= pairs@);
    }
    match context_insert_text(&mut ctx, "content", body) {
        Ok(_) => ctx,
        Err(_) => unreached(),
    }
}

/// Whether the registry holds a directory with these components.
fn contains_path(v: &Vec<FilePath>, p: &FilePath) -> (r: bool)
    ensures
        r == path_views(v@).contains(p@),
{
    let mut i: usize = 0;
    while i < v.len()
        invariant
            i <= v@.len(),
            forall|j: int| 0 <= j < i ==> (#[trigger] v@[j])@ != p@,
        decreases v@.len() - i,
    {
        if v[i].same_as(p) {
            proof {
                assert(path_views(v@)[i as int] == p@);
            }
            return true;
        }
        i = i + 1;
    }
    proof {
        assert(forall|j: int|
            0 <= j < path_views(v@).len() ==> #[trigger] path_views(v@)[j] == v@[j]@);
    }
    false
}

/// The nearest registered layout directory on the ancestor chain of `dir`,
/// the directory itself included.
fn find_layout_dir(registry: &Vec<FilePath>, dir: &FilePath) -> (r: Option<FilePath>)
    ensures
        r matches Some(d) ==> path_views(registry@).contains(d@) && d@.is_prefix_of(dir@),
        r is None ==> !under_layout(path_views(registry@), dir@),
{
    let mut l: usize = dir.segments.len();
    loop
        invariant
            l <= dir.segments.len(),
            forall|k: int|
                0 <= k < registry@.len() ==> !((#[trigger] registry@[k])@.is_prefix_of(dir@)
                    && registry@[k]@.len() > l),
        decreases l,
    {
        let cand = dir.truncated(l);
        if contains_path(registry, &cand) {
            proof {
                assert(cand@ =~= dir@.subrange(0, l as int));
                assert(cand@.is_prefix_of(dir@));
            }
            return Some(cand);
        }
        proof {
            assert forall|k: int|
                0 <= k < registry@.len() implies !((#[trigger] registry@[k])@.is_prefix_of(dir@)
                && registry@[k]@.len() >= l) by {
                if registry@[k]@.is_prefix_of(dir@) && registry@[k]@.len() == l {
                    assert(registry@[k]@ =~= cand@);
                    assert(path_views(registry@)[k] == registry@[k]@);
                    assert(path_views(registry@).contains(cand@));
                }
            }
        }
        if l == 0 {
            proof {
                assert forall|k: int| 0 <= k < path_views(registry@).len() implies !(
                #[trigger] path_views(registry@)[k]).is_prefix_of(dir@) by {
                    assert(path_views(registry@)[k] == registry@[k]@);
                }
                assert(!under_layout(path_views(registry@), dir@));
            }
            return None;
        }
        l = l - 1;
    }
}

} // verus!
