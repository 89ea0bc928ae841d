//! Per-document variable contexts: string-keyed mappings of dynamic values,
//! merged by layering (later layers override earlier ones on key collision).
use vstd::prelude::*;

use crate::document::Document;

verus! {

/// Dynamic metadata values are those of the structured-data language used for
/// front-matter headers; the library carries them through opaquely.
#[verifier::external_type_specification]
#[verifier::external_body]
pub struct ExYamlValue(serde_yaml::Value);

/// The dynamic value that holds a given text as a string scalar.
pub uninterp spec fn yaml_string(s: Seq<char>) -> serde_yaml::Value;

/// Relies on the structured-data language's string constructor: the value it
/// builds depends on the characters alone.
#[verifier::external_body]
pub(crate) fn yaml_string_value(s: &str) -> (v: serde_yaml::Value)
    ensures
        v == yaml_string(s@),
{
    serde_yaml::Value::String(s.to_string())
}

/// Relies on `serde_yaml::Value::clone` returning a value equal to its input.
#[verifier::external_body]
pub(crate) fn clone_value(v: &serde_yaml::Value) -> (r: serde_yaml::Value)
    ensures
        r == *v,
{
    v.clone()
}

/// The mapping that a sequence of key/value pairs denotes: a later pair with
/// the same key overrides an earlier one.
pub open spec fn pairs_map(s: Seq<(String, serde_yaml::Value)>) -> Map<
    Seq<char>,
    serde_yaml::Value,
>
    decreases s.len(),
{
    if s.len() == 0 {
        Map::empty()
    } else {
        pairs_map(s.drop_last()).insert(s.last().0@, s.last().1)
    }
}

/// A string-keyed mapping of dynamic values; insertion order is kept only so
/// that a later insertion overrides an earlier one.
pub struct Variables {
    pub(crate) pairs: Vec<(String, serde_yaml::Value)>,
}

impl View for Variables {
    type V = Map<Seq<char>, serde_yaml::Value>;

    closed spec fn view(&self) -> Map<Seq<char>, serde_yaml::Value> {
        pairs_map(self.pairs@)
    }
}

proof fn lemma_pairs_map_absent(s: Seq<(String, serde_yaml::Value)>, key: Seq<char>)
    requires
        forall|j: int| 0 <= j < s.len() ==> s[j].0@ != key,
    ensures
        !pairs_map(s).dom().contains(key),
    decreases s.len(),
{
    if s.len() > 0 {
        lemma_pairs_map_absent(s.drop_last(), key);
    }
}

proof fn lemma_pairs_map_found(s: Seq<(String, serde_yaml::Value)>, key: Seq<char>, i: int)
    requires
        0 <= i < s.len(),
        s[i].0@ == key,
        forall|j: int| i < j < s.len() ==> s[j].0@ != key,
    ensures
        pairs_map(s).dom().contains(key),
        pairs_map(s)[key] == s[i].1,
    decreases s.len(),
{
    if i + 1 < s.len() {
        lemma_pairs_map_found(s.drop_last(), key, i);
    }
}

proof fn lemma_pairs_map_concat(s1: Seq<(String, serde_yaml::Value)>, s2: Seq<
    (String, serde_yaml::Value),
>)
    ensures
        pairs_map(s1 + s2) == pairs_map(s1).union_prefer_right(pairs_map(s2)),
    decreases s2.len(),
{
    if s2.len() == 0 {
        assert(s1 + s2 =~= s1);
        assert(pairs_map(s1).union_prefer_right(Map::empty()) =~= pairs_map(s1));
    } else {
        lemma_pairs_map_concat(s1, s2.drop_last());
        assert((s1 + s2).drop_last() =~= s1 + s2.drop_last());
        assert((s1 + s2).last() == s2.last());
        assert(pairs_map(s1).union_prefer_right(pairs_map(s2.drop_last())).insert(
            s2.last().0@,
            s2.last().1,
        ) =~= pairs_map(s1).union_prefer_right(
            pairs_map(s2.drop_last()).insert(s2.last().0@, s2.last().1),
        ));
    }
}

impl Variables {
    /// The empty mapping.
    pub fn new() -> (r: Variables)
        ensures
            r@ == Map::<Seq<char>, serde_yaml::Value>::empty(),
    {
        Variables { pairs: Vec::new() }
    }

    /// Binds `k` to `v`, overriding any earlier binding of `k`.
    pub fn insert(&mut self, k: String, v: serde_yaml::Value)
        ensures
            final(self)@ == old(self)@.insert(k@, v),
    {
        self.pairs.push((k, v));
        proof {
            assert(self.pairs@.drop_last() =~= old(self).pairs@);
        }
    }

    /// Builder form of `insert`, for assembling a context of static defaults.
    pub fn var(self, k: &str, v: serde_yaml::Value) -> (r: Variables)
        ensures
            r@ == self@.insert(k@, v),
    {
        let mut out = self;
        out.insert(k.to_owned(), v);
        out
    }

    /// Looks the key up; the most recent binding wins.
    pub fn get(&self, k: &str) -> (r: Option<&serde_yaml::Value>)
        ensures
            r is Some <==> self@.dom().contains(k@),
            r is Some ==> *r->Some_0 == self@[k@],
    {
        let ks: String = k.to_owned();
        let n: usize = self.pairs.len();
        let mut i: usize = n;
        while i > 0
            invariant
                i <= n,
                n == self.pairs.len(),
                ks@ == k@,
                forall|j: int| i <= j < n ==> self.pairs@[j].0@ != k@,
            decreases i,
        {
            i = i - 1;
            let p = &self.pairs[i];
            if p.0 == ks {
                proof {
                    lemma_pairs_map_found(self.pairs@, k@, i as int);
                }
                return Some(&p.1);
            }
        }
        proof {
            lemma_pairs_map_absent(self.pairs@, k@);
        }
        None
    }

    /// Adds all of `other`'s bindings, overriding `self`'s on key collision.
    pub fn extend(&mut self, other: &Variables)
        ensures
            final(self)@ == old(self)@.union_prefer_right(other@),
    {
        let ghost p0 = self.pairs@;
        let mut j: usize = 0;
        while j < other.pairs.len()
            invariant
                j <= other.pairs.len(),
                self.pairs@ =~= p0 + other.pairs@.subrange(0, j as int),
            decreases other.pairs.len() - j,
        {
            let p = &other.pairs[j];
            self.pairs.push((p.0.clone(), clone_value(&p.1)));
            j = j + 1;
        }
        proof {
            assert(self.pairs@ =~= p0 + other.pairs@);
            lemma_pairs_map_concat(p0, other.pairs@);
        }
    }

    /// The layered mapping: `other`'s bindings override `self`'s.
    pub fn merged(&self, other: &Variables) -> (r: Variables)
        ensures
            r@ == self@.union_prefer_right(other@),
    {
        let mut out: Vec<(String, serde_yaml::Value)> = Vec::new();
        let mut i: usize = 0;
        while i < self.pairs.len()
            invariant
                i <= self.pairs.len(),
                out@ =~= self.pairs@.subrange(0, i as int),
            decreases self.pairs.len() - i,
        {
            let p = &self.pairs[i];
            out.push((p.0.clone(), clone_value(&p.1)));
            i = i + 1;
        }
        let mut j: usize = 0;
        while j < other.pairs.len()
            invariant
                j <= other.pairs.len(),
                out@ =~= self.pairs@ + other.pairs@.subrange(0, j as int),
            decreases other.pairs.len() - j,
        {
            let p = &other.pairs[j];
            out.push((p.0.clone(), clone_value(&p.1)));
            j = j + 1;
        }
        proof {
            assert(out@ =~= self.pairs@ + other.pairs@);
            lemma_pairs_map_concat(self.pairs@, other.pairs@);
        }
        Variables { pairs: out }
    }
}

/// One pure extractor run by a mining pass: derives variables from a
/// document. Extractors form a closed set of capability-tagged variants, so
/// that every derived mapping is fully specified.
pub enum Miner {
    /// Copies the named metadata entry, if the document has one, under its
    /// own key.
    Field(String),
    /// Binds the given key to the document's path.
    PathVar(String),
    /// Binds the given key to the document's body.
    BodyVar(String),
}

/// The variables one extractor derives from a document.
pub open spec fn miner_spec(m: Miner, doc: Document) -> Map<Seq<char>, serde_yaml::Value> {
    match m {
        Miner::Field(k) => if doc.metadata@.dom().contains(k@) {
            Map::<Seq<char>, serde_yaml::Value>::empty().insert(k@, doc.metadata@[k@])
        } else {
            Map::<Seq<char>, serde_yaml::Value>::empty()
        },
        Miner::PathVar(k) => Map::<Seq<char>, serde_yaml::Value>::empty().insert(
            k@,
            yaml_string(doc.path@),
        ),
        Miner::BodyVar(k) => Map::<Seq<char>, serde_yaml::Value>::empty().insert(
            k@,
            yaml_string(doc.content@),
        ),
    }
}

/// The merged output of an ordered extractor list over one document: a later
/// extractor overrides an earlier one on key collision.
pub open spec fn mine_spec(ms: Seq<Miner>, doc: Document) -> Map<Seq<char>, serde_yaml::Value>
    decreases ms.len(),
{
    if ms.len() == 0 {
        Map::empty()
    } else {
        mine_spec(ms.drop_last(), doc).union_prefer_right(miner_spec(ms.last(), doc))
    }
}

/// The aggregate result of a mining pass: the derived variables of each
/// mined document, keyed by its path, in the documents' order.
pub type Data = Vec<(String, Variables)>;

/// Runs one extractor over one document.
fn run_miner(m: &Miner, doc: &Document) -> (r: Variables)
    ensures
        r@ == miner_spec(*m, *doc),
{
    match m {
        Miner::Field(k) => {
            match doc.metadata.get(k.as_str()) {
                Some(v) => {
                    let mut out = Variables::new();
                    out.insert(k.clone(), clone_value(v));
                    out
                },
                None => Variables::new(),
            }
        },
        Miner::PathVar(k) => {
            let mut out = Variables::new();
            out.insert(k.clone(), yaml_string_value(doc.path.as_str()));
            out
        },
        Miner::BodyVar(k) => {
            let mut out = Variables::new();
            out.insert(k.clone(), yaml_string_value(doc.content.as_str()));
            out
        },
    }
}

/// A mining pass: a glob pattern set and an ordered list of pure extractors,
/// run read-only over every matched document ahead of a build.
pub struct Mine {
    pub pattern: Vec<String>,
    pub miners: Vec<Miner>,
}

impl Mine {
    /// An empty mining pass.
    pub fn new() -> (r: Mine)
        ensures
            r.pattern@ == Seq::<String>::empty(),
            r.miners@ == Seq::<Miner>::empty(),
    {
        Mine { pattern: Vec::new(), miners: Vec::new() }
    }

    /// Replaces the glob pattern set.
    pub fn pattern(self, pattern: &[&str]) -> (r: Mine)
        ensures
            r.pattern@.len() == pattern@.len(),
            forall|i: int| 0 <= i < pattern@.len() ==> r.pattern@[i]@ == pattern@[i]@,
            r.miners == self.miners,
    {
        let mut pats: Vec<String> = Vec::new();
        let mut i: usize = 0;
        while i < pattern.len()
            invariant
                i <= pattern@.len(),
                pats@.len() == i,
                forall|j: int| 0 <= j < i ==> pats@[j]@ == pattern@[j]@,
            decreases pattern@.len() - i,
        {
            pats.push(pattern[i].to_owned());
            i = i + 1;
        }
        let mut out = self;
        out.pattern = pats;
        out
    }

    /// Appends an extractor.
    pub fn miner(self, f: Miner) -> (r: Mine)
        ensures
            r.miners@ == self.miners@.push(f),
            r.pattern == self.pattern,
    {
        let mut out = self;
        out.miners.push(f);
        out
    }

    /// Runs every extractor over every matched document, in order, merging
    /// each document's derived variables (later extractors override earlier
    /// ones) into one entry per document, keyed by its path.
    pub fn execute(&self, docs: Vec<Document>) -> (d: Data)
        ensures
            d@.len() == docs@.len(),
            forall|i: int|
                0 <= i < docs@.len() ==> (#[trigger] d@[i]).0@ == docs@[i].path@ && d@[i].1@
                    == mine_spec(self.miners@, docs@[i]),
    {
        let mut data: Data = Vec::new();
        let mut i: usize = 0;
        while i < docs.len()
            invariant
                i <= docs@.len(),
                data@.len() == i,
                forall|j: int|
                    0 <= j < i ==> (#[trigger] data@[j]).0@ == docs@[j].path@ && data@[j].1@
                        == mine_spec(self.miners@, docs@[j]),
            decreases docs.len() - i,
        {
            let doc = &docs[i];
            let mut ctx = Variables::new();
            let mut k: usize = 0;
            while k < self.miners.len()
                invariant
                    k <= self.miners@.len(),
                    ctx@ == mine_spec(self.miners@.subrange(0, k as int), *doc),
                decreases self.miners@.len() - k,
            {
                let vars = run_miner(&self.miners[k], doc);
                ctx.extend(&vars);
                proof {
                    assert(self.miners@.subrange(0, k + 1).drop_last() =~= self.miners@.subrange(
                        0,
                        k as int,
                    ));
                    assert(self.miners@.subrange(0, k + 1).last() == self.miners@[k as int]);
                }
                k = k + 1;
            }
            proof {
                assert(self.miners@.subrange(0, self.miners@.len() as int) =~= self.miners@);
            }
            data.push((doc.path.clone(), ctx));
            i = i + 1;
        }
        data
    }
}

} // verus!
