//! The in-memory representation of one source file, and the front-matter
//! parser that splits raw file text into a metadata header and a body.
use vstd::prelude::*;

use crate::context::Variables;
use crate::text::{
    check_match_at, matches_at, string_of, subvec, to_chars, trim_chars, trim_spec,
};

verus! {

/// One source file: its path, its body text, and its parsed metadata header.
pub struct Document {
    pub path: String,
    pub content: String,
    pub metadata: Variables,
}

/// The three-character marker that opens and closes a metadata header.
pub open spec fn fm_delim() -> Seq<char> {
    seq!['-', '-', '-']
}

/// Position of the first delimiter occurrence at or after `i`, if any.
pub open spec fn find_delim(s: Seq<char>, i: int) -> Option<int>
    decreases s.len() - i,
{
    if i < 0 || i + 3 > s.len() {
        None
    } else if matches_at(s, i, fm_delim()) {
        Some(i)
    } else {
        find_delim(s, i + 1)
    }
}

/// Whether the text both opens with the delimiter and closes the header with
/// a second occurrence of it.
pub open spec fn has_front_matter(s: Seq<char>) -> bool {
    matches_at(s, 0, fm_delim()) && find_delim(s.skip(3), 0) is Some
}

/// The header region between the two delimiters.
pub open spec fn fm_meta_text(s: Seq<char>) -> Seq<char>
    recommends
        has_front_matter(s),
{
    s.skip(3).subrange(0, find_delim(s.skip(3), 0)->Some_0)
}

/// The body: what follows the closing delimiter, trimmed of surrounding
/// whitespace — or the whole text when there is no well-formed header.
pub open spec fn fm_body(s: Seq<char>) -> Seq<char> {
    if has_front_matter(s) {
        trim_spec(s.skip(3).skip(find_delim(s.skip(3), 0)->Some_0 + 3))
    } else {
        s
    }
}

/// What the header parses to. A malformed header is recovered locally: it
/// yields the empty mapping rather than an error, so that one bad header
/// cannot abort a whole build.
pub open spec fn fm_metadata(s: Seq<char>) -> Map<Seq<char>, serde_yaml::Value> {
    if has_front_matter(s) {
        match yaml_vars(fm_meta_text(s)) {
            Some(m) => m,
            None => Map::empty(),
        }
    } else {
        Map::empty()
    }
}

/// The string-keyed mapping that the structured-data language gives to a
/// header text, or `None` where that text does not parse as a mapping.
pub uninterp spec fn yaml_vars(s: Seq<char>) -> Option<Map<Seq<char>, serde_yaml::Value>>;

/// Relies on `serde_yaml::from_str`: whether a text parses as a string-keyed
/// mapping, and to which one, is a function of that text alone.
#[verifier::external_body]
fn parse_yaml_vars(s: &str) -> (r: Option<Variables>)
    ensures
        r is Some <==> yaml_vars(s@) is Some,
        r is Some ==> r->Some_0@ == yaml_vars(s@)->Some_0,
{
    match serde_yaml::from_str::<std::collections::BTreeMap<String, serde_yaml::Value>>(s) {
        Ok(m) => Some(Variables { pairs: m.into_iter().collect() }),
        Err(_) => None,
    }
}

/// Splits raw file text into its metadata mapping and its body.
///
/// For all inputs without a leading delimiter, or without a closing one, the
/// metadata is empty and the body is the input itself, unchanged.
pub fn parse_front_matter(raw: &str) -> (r: (Variables, String))
    ensures
        r.0@ == fm_metadata(raw@),
        r.1@ == fm_body(raw@),
        !has_front_matter(raw@) ==> r.0@ == Map::<Seq<char>, serde_yaml::Value>::empty() && r.1@
            == raw@,
{
    let cs = to_chars(raw);
    let dl: Vec<char> = vec!['-', '-', '-'];
    proof {
        assert(dl@ =~= fm_delim());
    }
    if !check_match_at(&cs, 0, &dl) {
        return (Variables::new(), raw.to_owned());
    }
    let st = subvec(&cs, 3, cs.len());
    proof {
        assert(st@ =~= raw@.skip(3));
    }
    let n: usize = st.len();
    let limit: usize = if n >= 3 {
        n - 2
    } else {
        0
    };
    let mut j: usize = 0;
    while j < limit && !check_match_at(&st, j, &dl)
        invariant
            j <= limit,
            n == st.len(),
            limit == if n >= 3 {
                (n - 2) as int
            } else {
                0
            },
            dl@ == fm_delim(),
            find_delim(st@, 0) == find_delim(st@, j as int),
        decreases limit - j,
    {
        j = j + 1;
    }
    if j < limit {
        proof {
            assert(find_delim(st@, 0) == Some(j as int));
        }
        let meta_str = string_of(subvec(&st, 0, j));
        let body_vec = subvec(&st, j + 3, st.len());
        proof {
            assert(body_vec@ =~= st@.skip(j + 3));
        }
        let body = string_of(trim_chars(&body_vec));
        let metadata = match parse_yaml_vars(meta_str.as_str()) {
            Some(v) => v,
            None => Variables::new(),
        };
        (metadata, body)
    } else {
        proof {
            assert(find_delim(st@, 0) is None);
        }
        (Variables::new(), raw.to_owned())
    }
}

impl Document {
    /// Builds the document a loaded file denotes: with `splitmeta`, the text
    /// is split by `parse_front_matter`; without it, the text is the body as
    /// is and the metadata is empty.
    pub fn from_text(splitmeta: bool, path: String, text: &str) -> (d: Document)
        ensures
            d.path@ == path@,
            splitmeta ==> d.content@ == fm_body(text@) && d.metadata@ == fm_metadata(text@),
            !splitmeta ==> d.content@ == text@ && d.metadata@ == Map::<
                Seq<char>,
                serde_yaml::Value,
            >::empty(),
    {
        if splitmeta {
            let (metadata, content) = parse_front_matter(text);
            Document { path, content, metadata }
        } else {
            Document { path, content: text.to_owned(), metadata: Variables::new() }
        }
    }
}

} // verus!
