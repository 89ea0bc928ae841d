//! Rules: the core orchestrator. A rule holds a glob pattern set, an ordered
//! chain of fallible content filters, a static context, an optional wrapping
//! template and a route function; executing it runs the full per-document
//! pipeline over every matched source file. A copy is the degenerate rule
//! that only relocates bytes.
//!
//! Pattern matching and all file reading and writing stay with the embedding
//! program: a rule here is executed against the already-loaded text of each
//! matched file, and returns the output path and content to write.
use vstd::prelude::*;

use crate::context::{yaml_string_value, Variables};
use crate::document::{fm_body, fm_metadata, Document};
use crate::route::{route_spec, Route};
use crate::shortcodes::{expand_shortcodes, expand_spec, Shortcode};
use crate::templates::{templates_of, tera_add_template, tera_render};
use crate::text::{string_of, to_chars};
use crate::BuildError;
use pandoc::{
    InputFormat, InputKind, MarkdownExtension, OutputFormat, OutputKind, Pandoc, PandocOption,
    PandocOutput,
};

pub use crate::document::parse_front_matter;

verus! {

/// One source file as loaded from disk: its path and its raw text.
pub struct SourceFile {
    pub path: String,
    pub text: String,
}

/// One output file as it should be written: its path and its content.
pub struct OutputFile {
    pub path: String,
    pub content: String,
}

/// A content filter: one of the closed set of transformations a rule can
/// chain. Each receives a document and produces a new one, or fails with a
/// conversion error.
pub enum Filter {
    /// Rewrite inline shortcodes against this ordered handler list.
    ExpandShortcodes(Vec<Shortcode>),
    /// Convert the body from markdown to HTML through the external document
    /// converter.
    PandocMarkdown,
    /// Fold the body's ASCII letters to upper case.
    Uppercase,
}

/// A character with an ASCII lower-case letter folded to its upper-case
/// counterpart.
pub open spec fn upper_char(c: char) -> char {
    if 97 <= c as u32 && c as u32 <= 122 {
        (((c as u32) - 32) as u8) as char
    } else {
        c
    }
}

/// A text with every ASCII lower-case letter folded to upper case.
pub open spec fn upper_spec(s: Seq<char>) -> Seq<char> {
    s.map_values(|c: char| upper_char(c))
}

/// Folding to upper case twice is the same as folding once: the `Uppercase`
/// filter is idempotent.
pub proof fn lemma_upper_idempotent(s: Seq<char>)
    ensures
        upper_spec(upper_spec(s)) == upper_spec(s),
{
    assert(upper_spec(upper_spec(s)) =~= upper_spec(s));
}

/// What holds of a filter's output for a given input when it succeeds: the
/// path and metadata are kept, and the content is transformed as the filter
/// variant says (the external converter's output is not specified).
pub open spec fn filter_rel(f: Filter, input: Document, output: Document) -> bool {
    &&& output.path@ == input.path@
    &&& output.metadata@ == input.metadata@
    &&& match f {
        Filter::ExpandShortcodes(hs) => output.content@ == expand_spec(input.content@, hs@),
        Filter::PandocMarkdown => true,
        Filter::Uppercase => output.content@ == upper_spec(input.content@),
    }
}

/// The filters that cannot fail: every one that does not call out to the
/// external document converter.
pub open spec fn filter_total(f: Filter) -> bool {
    !(f is PandocMarkdown)
}

/// The chain relation: `d1` is reachable from `d0` by applying each filter
/// once, in order, each one succeeding.
pub open spec fn chain_rel(fs: Seq<Filter>, d0: Document, d1: Document) -> bool
    decreases fs.len(),
{
    if fs.len() == 0 {
        d1.path@ == d0.path@ && d1.content@ == d0.content@ && d1.metadata@ == d0.metadata@
    } else {
        exists|mid: Document|
            filter_rel(fs[0], d0, mid) && chain_rel(fs.skip(1), mid, d1)
    }
}

proof fn lemma_chain_snoc(fs: Seq<Filter>, g: Filter, d0: Document, dmid: Document, d1: Document)
    requires
        chain_rel(fs, d0, dmid),
        filter_rel(g, dmid, d1),
    ensures
        chain_rel(fs.push(g), d0, d1),
    decreases fs.len(),
{
    if fs.len() == 0 {
        assert(filter_rel(g, d0, d1));
        assert(fs.push(g)[0] == g);
        assert(fs.push(g).skip(1) =~= Seq::<Filter>::empty());
        assert(chain_rel(fs.push(g).skip(1), d1, d1));
    } else {
        let mid = choose|mid: Document|
            filter_rel(fs[0], d0, mid) && chain_rel(fs.skip(1), mid, dmid);
        lemma_chain_snoc(fs.skip(1), g, mid, dmid, d1);
        assert(fs.push(g).skip(1) =~= fs.skip(1).push(g));
        assert(fs.push(g)[0] == fs[0]);
        assert(filter_rel(fs.push(g)[0], d0, mid) && chain_rel(fs.push(g).skip(1), mid, d1));
    }
}

/// Relies on the external document converter: the body is piped through a
/// markdown-to-HTML conversion whose outcome depends on the converter
/// installed on the machine, so nothing is promised of the result; a failure
/// is reported as a message.
#[verifier::external_body]
fn run_pandoc(content: &str) -> Result<String, String> {
    let mut p = Pandoc::new();
    let exts = vec![
        MarkdownExtension::Smart, MarkdownExtension::LatexMacros, MarkdownExtension::FencedCodeBlocks,
        MarkdownExtension::PipeTables, MarkdownExtension::GridTables, MarkdownExtension::HeaderAttributes,
        MarkdownExtension::AutoIdentifiers, MarkdownExtension::TexMathDollars, MarkdownExtension::RawHtml,
        MarkdownExtension::FencedDivs, MarkdownExtension::Abbreviations, MarkdownExtension::NativeDivs,
    ];
    p.set_input_format(InputFormat::Markdown, exts).set_output_format(OutputFormat::Html5, vec![MarkdownExtension::RawHtml]);
    p.set_input(InputKind::Pipe(content.to_string())).set_output(OutputKind::Pipe).add_option(PandocOption::MathJax(None));
    match p.execute() {
        Ok(PandocOutput::ToBuffer(html)) => Ok(html),
        Ok(_) => Err("unexpected converter output form".to_string()),
        Err(e) => Err(format!("{:?}", e)),
    }
}

/// Converts the document body from markdown to HTML through the external
/// converter; path and metadata are kept.
fn pandoc_markdown_to_html(doc: Document) -> (r: Result<Document, BuildError>)
    ensures
        r matches Ok(d) ==> filter_rel(Filter::PandocMarkdown, doc, d),
        r matches Err(e) ==> e is Conversion,
{
    let Document { path, content, metadata } = doc;
    match run_pandoc(content.as_str()) {
        Ok(html) => Ok(Document { path, content: html, metadata }),
        Err(m) => Err(BuildError::Conversion(m)),
    }
}

/// Folds the ASCII letters of a text to upper case.
fn upper_exec(s: &str) -> (r: String)
    ensures
        r@ == upper_spec(s@),
{
    let cs = to_chars(s);
    let mut out: Vec<char> = Vec::new();
    let mut i: usize = 0;
    while i < cs.len()
        invariant
            i <= cs.len(),
            out@ =~= cs@.subrange(0, i as int).map_values(|c: char| upper_char(c)),
        decreases cs.len() - i,
    {
        let c = cs[i];
        let u: u32 = c as u32;
        if 97 <= u && u <= 122 {
            out.push(((u - 32) as u8) as char);
        } else {
            out.push(c);
        }
        proof {
            assert(cs@.subrange(0, i + 1).map_values(|c: char| upper_char(c)) =~= cs@.subrange(
                0,
                i as int,
            ).map_values(|c: char| upper_char(c)).push(upper_char(cs@[i as int])));
        }
        i = i + 1;
    }
    proof {
        assert(cs@.subrange(0, cs@.len() as int) =~= cs@);
    }
    string_of(out)
}

/// Applies one filter to a document: the first failure is the chain's
/// failure. Every filter but the external converter always succeeds.
pub fn apply_filter(f: &Filter, doc: Document) -> (r: Result<Document, BuildError>)
    ensures
        r matches Ok(d) ==> filter_rel(*f, doc, d),
        filter_total(*f) ==> r is Ok,
        r matches Err(e) ==> e is Conversion,
{
    match f {
        Filter::ExpandShortcodes(hs) => {
            let Document { path, content, metadata } = doc;
            let expanded = expand_shortcodes(content.as_str(), hs);
            Ok(Document { path, content: expanded, metadata })
        },
        Filter::PandocMarkdown => pandoc_markdown_to_html(doc),
        Filter::Uppercase => {
            let Document { path, content, metadata } = doc;
            let upper = upper_exec(content.as_str());
            Ok(Document { path, content: upper, metadata })
        },
    }
}

/// A filter that converts markdown bodies to HTML through the external
/// converter.
pub fn pandoc_markdown_compiler() -> (f: Filter)
    ensures
        f is PandocMarkdown,
{
    Filter::PandocMarkdown
}

/// A filter that expands inline shortcodes against this handler list.
pub fn expand_shortcodes_compiler(handlers: Vec<Shortcode>) -> (f: Filter)
    ensures
        f matches Filter::ExpandShortcodes(hs) && hs == handlers,
{
    Filter::ExpandShortcodes(handlers)
}

/// A pattern-scoped transformation pipeline: produces one output file per
/// matched source file.
pub struct Rule {
    pub pattern: Vec<String>,
    pub filters: Vec<Filter>,
    pub context: Variables,
    pub template: Option<String>,
    pub route: Route,
}

/// What holds of one produced output file for one source file, when the rule
/// succeeds on it against a registry holding `templates`: the output path is
/// the route's; where a wrapping template is set, it was registered (as one
/// of `templates` or as the file's own body template); and the content came
/// from the per-document pipeline — the metadata header split off, the body
/// pre-rendered as a template (`dmid.content` is whatever the renderer
/// returned), the filter chain applied once each in order, and, where no
/// wrapping template is set, the final document's content written unchanged.
pub open spec fn processed_rel(
    rule: Rule,
    site: Seq<char>,
    public: Seq<char>,
    templates: Map<Seq<char>, Seq<char>>,
    file: SourceFile,
    out: OutputFile,
) -> bool {
    &&& route_spec(rule.route, file.path@, site, public) matches Some(p) && out.path@ == p
    &&& rule.template matches Some(t) ==> templates.insert(
        file.path@,
        fm_body(file.text@),
    ).dom().contains(t@)
    &&& exists|dmid: Document, dfin: Document|
        {
            &&& dmid.path@ == file.path@
            &&& dmid.metadata@ == fm_metadata(file.text@)
            &&& #[trigger] chain_rel(rule.filters@, dmid, dfin)
            &&& (rule.template is None ==> out.content@ == dfin.content@)
        }
}

/// The registry as it stands after registering each file's parsed body
/// under the file's own path, in order, into a registry holding
/// `templates`.
pub open spec fn registered_bodies(
    templates: Map<Seq<char>, Seq<char>>,
    files: Seq<SourceFile>,
) -> Map<Seq<char>, Seq<char>>
    decreases files.len(),
{
    if files.len() == 0 {
        templates
    } else {
        registered_bodies(templates, files.drop_last()).insert(
            files.last().path@,
            fm_body(files.last().text@),
        )
    }
}

impl Rule {
    /// A rule over these glob patterns, with no filters, an empty static
    /// context, no wrapping template, and the identity route.
    pub fn load(pattern: &[&str]) -> (r: Rule)
        ensures
            r.pattern@.len() == pattern@.len(),
            forall|i: int| 0 <= i < pattern@.len() ==> r.pattern@[i]@ == pattern@[i]@,
            r.filters@ == Seq::<Filter>::empty(),
            r.context@ == Map::<Seq<char>, serde_yaml::Value>::empty(),
            r.template is None,
            r.route is Identity,
    {
        let mut pats: Vec<String> = Vec::new();
        let mut i: usize = 0;
        while i < pattern.len()
            invariant
                i <= pattern@.len(),
                pats@.len() == i,
                forall|j: int| 0 <= j < i ==> pats@[j]@ == pattern@[j]@,
            decreases pattern@.len() - i,
        {
            pats.push(pattern[i].to_owned());
            i = i + 1;
        }
        Rule {
            pattern: pats,
            filters: Vec::new(),
            context: Variables::new(),
            template: None,
            route: Route::Identity,
        }
    }

    /// Appends a filter to the chain.
    pub fn compiler(self, filter: Filter) -> (r: Rule)
        ensures
            r.filters@ == self.filters@.push(filter),
            r.pattern == self.pattern,
            r.context == self.context,
            r.template == self.template,
            r.route == self.route,
    {
        let mut out = self;
        out.filters.push(filter);
        out
    }

    /// Replaces the static context.
    pub fn context(self, ctx: Variables) -> (r: Rule)
        ensures
            r.context == ctx,
            r.pattern == self.pattern,
            r.filters == self.filters,
            r.template == self.template,
            r.route == self.route,
    {
        let mut out = self;
        out.context = ctx;
        out
    }

    /// Sets the wrapping template name.
    pub fn template(self, template: &str) -> (r: Rule)
        ensures
            r.template matches Some(t) && t@ == template@,
            r.pattern == self.pattern,
            r.filters == self.filters,
            r.context == self.context,
            r.route == self.route,
    {
        let mut out = self;
        out.template = Some(template.to_owned());
        out
    }

    /// Replaces the route strategy.
    pub fn route(self, router: Route) -> (r: Rule)
        ensures
            r.route == router,
            r.pattern == self.pattern,
            r.filters == self.filters,
            r.context == self.context,
            r.template == self.template,
    {
        let mut out = self;
        out.route = router;
        out
    }

    /// Runs the per-document pipeline on one loaded source file: split the
    /// front matter, layer the context (document metadata overriding the
    /// rule's static context), pre-render the body as a template registered
    /// under the file's own path, apply the filter chain in order, wrap in
    /// the named template if one is set (the rendered body entering the
    /// context under the reserved key `content`, overriding everything), and
    /// compute the output path.
    fn process_document(
        &self,
        site_dir: &str,
        public_dir: &str,
        tera: &mut tera::Tera,
        file: &SourceFile,
    ) -> (r: Result<OutputFile, BuildError>)
        ensures
            r matches Ok(out) ==> processed_rel(
                *self,
                site_dir@,
                public_dir@,
                templates_of(*old(tera)),
                *file,
                out,
            ),
            r is Ok ==> templates_of(*final(tera)) == templates_of(*old(tera)).insert(
                file.path@,
                fm_body(file.text@),
            ),
            r matches Err(e) ==> e is Template || e is Conversion || e is Route,
            route_spec(self.route, file.path@, site_dir@, public_dir@) is None ==> r is Err,
    {
        let (metadata, body) = parse_front_matter(file.text.as_str());
        let ctx = self.context.merged(&metadata);
        match tera_add_template(tera, file.path.as_str(), body.as_str()) {
            Ok(u) => u,
            Err(e) => {
                return Err(BuildError::Template(e));
            },
        }
        let md = match tera_render(tera, file.path.as_str(), &ctx) {
            Ok(s) => s,
            Err(e) => {
                return Err(BuildError::Template(e));
            },
        };
        let mut doc = Document { path: file.path.clone(), content: md, metadata };
        let ghost d0 = doc;
        let mut i: usize = 0;
        while i < self.filters.len()
            invariant
                i <= self.filters@.len(),
                chain_rel(self.filters@.subrange(0, i as int), d0, doc),
            decreases self.filters@.len() - i,
        {
            let ghost dprev = doc;
            doc =
            match apply_filter(&self.filters[i], doc) {
                Ok(d2) => d2,
                Err(e) => {
                    return Err(e);
                },
            };
            proof {
                lemma_chain_snoc(self.filters@.subrange(0, i as int), self.filters@[i as int], d0, dprev, doc);
                assert(self.filters@.subrange(0, i + 1) =~= self.filters@.subrange(
                    0,
                    i as int,
                ).push(self.filters@[i as int]));
            }
            i = i + 1;
        }
        proof {
            assert(self.filters@.subrange(0, self.filters@.len() as int) =~= self.filters@);
        }
        let ghost dfin = doc;
        let content = match &self.template {
            Some(tname) => {
                let mut ctx2 = ctx;
                ctx2.insert("content".to_owned(), yaml_string_value(doc.content.as_str()));
                match tera_render(tera, tname.as_str(), &ctx2) {
                    Ok(h) => h,
                    Err(e) => {
                        return Err(BuildError::Template(e));
                    },
                }
            },
            None => doc.content,
        };
        let out_path = self.route.apply(file.path.as_str(), site_dir, public_dir)?;
        let out = OutputFile { path: out_path, content };
        proof {
            assert(d0.path@ == file.path@ && d0.metadata@ == fm_metadata(file.text@) && chain_rel(
                self.filters@,
                d0,
                dfin,
            ) && (self.template is None ==> out.content@ == dfin.content@));
        }
        Ok(out)
    }

    /// Executes the rule over the loaded source files, in their given order:
    /// the full pipeline per file, stopping at the first failure (a template
    /// render, a filter conversion, or a path outside the source root). On
    /// success there is exactly one output file per source file, each as
    /// `processed_rel` says against the registry as it stood for that file,
    /// every file's route succeeded, and the registry has gained exactly
    /// each file's parsed body under the file's own path.
    pub fn execute(
        &self,
        site_dir: &str,
        public_dir: &str,
        tera: &mut tera::Tera,
        files: Vec<SourceFile>,
    ) -> (r: Result<Vec<OutputFile>, BuildError>)
        ensures
            r matches Ok(outs) ==> outs@.len() == files@.len() && forall|i: int|
                0 <= i < files@.len() ==> #[trigger] processed_rel(
                    *self,
                    site_dir@,
                    public_dir@,
                    registered_bodies(templates_of(*old(tera)), files@.subrange(0, i)),
                    files@[i],
                    outs@[i],
                ),
            r is Ok ==> templates_of(*final(tera)) == registered_bodies(
                templates_of(*old(tera)),
                files@,
            ),
            r is Ok ==> forall|i: int|
                0 <= i < files@.len() ==> #[trigger] route_spec(
                    self.route,
                    files@[i].path@,
                    site_dir@,
                    public_dir@,
                ) is Some,
            r matches Err(e) ==> e is Template || e is Conversion || e is Route,
            files@.len() == 0 ==> r is Ok,
    {
        let mut outs: Vec<OutputFile> = Vec::new();
        let mut i: usize = 0;
        while i < files.len()
            invariant
                i <= files@.len(),
                outs@.len() == i,
                templates_of(*tera) == registered_bodies(
                    templates_of(*old(tera)),
                    files@.subrange(0, i as int),
                ),
                forall|j: int|
                    0 <= j < i ==> #[trigger] processed_rel(
                        *self,
                        site_dir@,
                        public_dir@,
                        registered_bodies(templates_of(*old(tera)), files@.subrange(0, j)),
                        files@[j],
                        outs@[j],
                    ),
            decreases files@.len() - i,
        {
            let out = self.process_document(site_dir, public_dir, tera, &files[i])?;
            outs.push(out);
            proof {
                assert(files@.subrange(0, i + 1).drop_last() =~= files@.subrange(0, i as int));
                assert(files@.subrange(0, i + 1).last() == files@[i as int]);
            }
            i = i + 1;
        }
        proof {
            assert(files@.subrange(0, files@.len() as int) =~= files@);
            assert forall|i: int|
                0 <= i < files@.len() implies #[trigger] route_spec(
                self.route,
                files@[i].path@,
                site_dir@,
                public_dir@,
            ) is Some by {
                assert(processed_rel(
                    *self,
                    site_dir@,
                    public_dir@,
                    registered_bodies(templates_of(*old(tera)), files@.subrange(0, i)),
                    files@[i],
                    outs@[i],
                ));
            }
        }
        Ok(outs)
    }
}

/// A pattern-scoped verbatim relocation of matched source files.
pub struct Copy {
    pub pattern: Vec<String>,
    pub route: Route,
}

/// One planned relocation: which file to copy, and where to.
pub struct CopyAction {
    pub source: String,
    pub dest: String,
}

/// What holds of one planned relocation for one matched file: it names that
/// file, and its destination is what the route computes for it.
pub open spec fn copy_rel(
    route: Route,
    site: Seq<char>,
    public: Seq<char>,
    path: Seq<char>,
    act: CopyAction,
) -> bool {
    &&& act.source@ == path
    &&& route_spec(route, path, site, public) matches Some(p) && act.dest@ == p
}

impl Copy {
    /// A copy over these glob patterns, with the identity route.
    pub fn source(pattern: &[&str]) -> (r: Copy)
        ensures
            r.pattern@.len() == pattern@.len(),
            forall|i: int| 0 <= i < pattern@.len() ==> r.pattern@[i]@ == pattern@[i]@,
            r.route is Identity,
    {
        let mut pats: Vec<String> = Vec::new();
        let mut i: usize = 0;
        while i < pattern.len()
            invariant
                i <= pattern@.len(),
                pats@.len() == i,
                forall|j: int| 0 <= j < i ==> pats@[j]@ == pattern@[j]@,
            decreases pattern@.len() - i,
        {
            pats.push(pattern[i].to_owned());
            i = i + 1;
        }
        Copy { pattern: pats, route: Route::Identity }
    }

    /// Replaces the route strategy.
    pub fn route(self, router: Route) -> (r: Copy)
        ensures
            r.route == router,
            r.pattern == self.pattern,
    {
        let mut out = self;
        out.route = router;
        out
    }

    /// Plans the relocations for the matched files, in their given order:
    /// one action per file, stopping at the first path that does not lie
    /// under the source root. It succeeds exactly when every file's route
    /// succeeds.
    pub fn execute(&self, site_dir: &str, public_dir: &str, files: Vec<String>) -> (r: Result<
        Vec<CopyAction>,
        BuildError,
    >)
        ensures
            r matches Ok(acts) ==> acts@.len() == files@.len() && forall|i: int|
                0 <= i < files@.len() ==> #[trigger] copy_rel(
                    self.route,
                    site_dir@,
                    public_dir@,
                    files@[i]@,
                    acts@[i],
                ),
            r is Ok <==> forall|i: int|
                0 <= i < files@.len() ==> #[trigger] route_spec(
                    self.route,
                    files@[i]@,
                    site_dir@,
                    public_dir@,
                ) is Some,
    {
        let mut acts: Vec<CopyAction> = Vec::new();
        let mut i: usize = 0;
        while i < files.len()
            invariant
                i <= files@.len(),
                acts@.len() == i,
                forall|j: int|
                    0 <= j < i ==> #[trigger] copy_rel(
                        self.route,
                        site_dir@,
                        public_dir@,
                        files@[j]@,
                        acts@[j],
                    ),
            decreases files@.len() - i,
        {
            let dest = self.route.apply(files[i].as_str(), site_dir, public_dir)?;
            acts.push(CopyAction { source: files[i].clone(), dest });
            i = i + 1;
        }
        proof {
            assert forall|i: int|
                0 <= i < files@.len() implies #[trigger] route_spec(
                self.route,
                files@[i]@,
                site_dir@,
                public_dir@,
            ) is Some by {
                assert(copy_rel(self.route, site_dir@, public_dir@, files@[i]@, acts@[i]));
            }
        }
        Ok(acts)
    }
}

} // verus!
