//! A content-build pipeline: pattern-matched transformation rules turn a tree
//! of source documents into a tree of output files.
use vstd::prelude::*;

pub mod context;
pub mod document;
pub mod route;
pub mod rule;
pub mod shortcodes;
pub mod templates;
pub mod text;

pub use document::Document;
pub use rule::Rule;
pub use shortcodes::{expand_shortcodes, Shortcode};

verus! {

/// Everything that can abort a build: every kind other than a malformed
/// metadata header (which is recovered locally into empty metadata) is fatal
/// and propagates to the caller of the build.
#[derive(Debug)]
pub enum BuildError {
    /// An invalid glob pattern, detected where a rule's pattern set is first
    /// used.
    Pattern(String),
    /// A filesystem failure, reported by the embedding program.
    Io(String),
    /// A render failure from the template engine.
    Template(tera::Error),
    /// A content filter's transformation failed.
    Conversion(String),
    /// A source path that does not lie under the source root; the path is
    /// carried along.
    Route(String),
}

/// Relative path a static file server should look up for a request path:
/// leading slashes are dropped, and an empty request maps to `index.html`.
pub open spec fn request_rel_spec(p: Seq<char>) -> Seq<char>
    decreases p.len(),
{
    if p.len() > 0 && p[0] == '/' {
        request_rel_spec(p.skip(1))
    } else if p.len() == 0 {
        seq!['i', 'n', 'd', 'e', 'x', '.', 'h', 't', 'm', 'l']
    } else {
        p
    }
}

/// Computes the file path, relative to the output root, that a request path
/// asks for.
pub fn request_rel_path(p: &str) -> (r: String)
    ensures
        r@ == request_rel_spec(p@),
{
    let cs = text::to_chars(p);
    proof {
        assert(cs@.skip(0) =~= cs@);
    }
    let mut i: usize = 0;
    while i < cs.len() && cs[i] == '/'
        invariant
            i <= cs.len(),
            cs@ == p@,
            request_rel_spec(p@) == request_rel_spec(cs@.skip(i as int)),
        decreases cs.len() - i,
    {
        proof {
            assert(cs@.skip(i as int).skip(1) =~= cs@.skip(i as int + 1));
        }
        i = i + 1;
    }
    if i == cs.len() {
        let out = "index.html".to_owned();
        proof {
            reveal_strlit("index.html");
            assert(cs@.skip(i as int) =~= Seq::<char>::empty());
            assert(out@ =~= seq!['i', 'n', 'd', 'e', 'x', '.', 'h', 't', 'm', 'l']);
        }
        out
    } else {
        let out = text::subvec(&cs, i, cs.len());
        proof {
            assert(out@ =~= cs@.skip(i as int));
        }
        text::string_of(out)
    }
}

/// The whole site: the two roots, the ordered rules and copies, and the
/// template registry. A build runs every rule, then every copy, in
/// declaration order; the embedding program walks the source tree, hands
/// each rule the text of its matched files, and writes what comes back.
pub struct Site {
    pub site_dir: String,
    pub public_dir: String,
    pub rules: Vec<Rule>,
    pub copies: Vec<rule::Copy>,
    pub tera: tera::Tera,
}

impl Site {
    /// A site over the two roots, with no rules, no copies, and an empty
    /// template registry.
    pub fn new(site_dir: &str, public_dir: &str) -> (s: Site)
        ensures
            s.site_dir@ == site_dir@,
            s.public_dir@ == public_dir@,
            s.rules@ == Seq::<Rule>::empty(),
            s.copies@ == Seq::<rule::Copy>::empty(),
            templates::templates_of(s.tera).dom() == Set::<Seq<char>>::empty(),
    {
        Site {
            site_dir: site_dir.to_owned(),
            public_dir: public_dir.to_owned(),
            rules: Vec::new(),
            copies: Vec::new(),
            tera: templates::tera_new(),
        }
    }

    /// Appends a rule; rules run in the order they were added.
    pub fn rule(self, rule: Rule) -> (s: Site)
        ensures
            s.rules@ == self.rules@.push(rule),
            s.site_dir == self.site_dir,
            s.public_dir == self.public_dir,
            s.copies == self.copies,
            s.tera == self.tera,
    {
        let mut out = self;
        out.rules.push(rule);
        out
    }

    /// Appends a copy; copies run after all rules, in the order they were
    /// added.
    pub fn copy(self, copy: rule::Copy) -> (s: Site)
        ensures
            s.copies@ == self.copies@.push(copy),
            s.site_dir == self.site_dir,
            s.public_dir == self.public_dir,
            s.rules == self.rules,
            s.tera == self.tera,
    {
        let mut out = self;
        out.copies.push(copy);
        out
    }

    /// Registers one template source under a name; it succeeds exactly when
    /// the template engine accepts the source into the current registry. The
    /// embedding program reads template files from disk and registers each
    /// through this.
    pub fn add_template(&mut self, name: &str, source: &str) -> (r: Result<(), BuildError>)
        ensures
            r is Ok <==> templates::tera_accepts(
                templates::templates_of(old(self).tera),
                name@,
                source@,
            ),
            r is Ok ==> templates::templates_of(final(self).tera) == templates::templates_of(
                old(self).tera,
            ).insert(name@, source@),
            r matches Err(e) ==> e is Template,
            final(self).site_dir == old(self).site_dir,
            final(self).public_dir == old(self).public_dir,
            final(self).rules == old(self).rules,
            final(self).copies == old(self).copies,
    {
        match templates::tera_add_template(&mut self.tera, name, source) {
            Ok(u) => Ok(u),
            Err(e) => Err(BuildError::Template(e)),
        }
    }

    /// Replaces the template registry with an empty one. The registry is
    /// build-scoped: each rebuild starts from a fresh registry rather than
    /// an accumulation, so a rebuild loop calls this (and re-registers its
    /// template files) before building again.
    pub fn reset_templates(&mut self)
        ensures
            templates::templates_of(final(self).tera).dom() == Set::<Seq<char>>::empty(),
            final(self).site_dir == old(self).site_dir,
            final(self).public_dir == old(self).public_dir,
            final(self).rules == old(self).rules,
            final(self).copies == old(self).copies,
    {
        self.tera = templates::tera_new();
    }
}

} // verus!
