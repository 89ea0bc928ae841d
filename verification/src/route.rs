//! Route functions: pure computations of an output path from a source path
//! and the two root directories. Paths are `/`-separated strings; a source
//! path that does not lie under the source root is rejected with a typed
//! error.
use vstd::prelude::*;

use crate::text::{check_match_at, string_of, subvec, to_chars};
use crate::BuildError;

verus! {

/// The path relative to `root`: what follows `root` and one separator, or
/// `None` where the path does not lie strictly under `root`.
pub open spec fn rel_spec(path: Seq<char>, root: Seq<char>) -> Option<Seq<char>> {
    if path.len() > root.len() + 1 && path.subrange(0, root.len() as int) == root && path[root.len() as int]
        == '/' {
        Some(path.skip(root.len() as int + 1))
    } else {
        None
    }
}

/// `a`, one separator, `b`.
pub open spec fn join_spec(a: Seq<char>, b: Seq<char>) -> Seq<char> {
    a + seq!['/'] + b
}

/// The last index strictly below `j` that holds `c`, if any.
pub open spec fn last_index_of(s: Seq<char>, c: char, j: int) -> Option<int>
    decreases j,
{
    if j <= 0 || j > s.len() {
        None
    } else if s[j - 1] == c {
        Some(j - 1)
    } else {
        last_index_of(s, c, j - 1)
    }
}

/// The file name: what follows the last separator.
pub open spec fn name_start(s: Seq<char>) -> int {
    match last_index_of(s, '/', s.len() as int) {
        Some(p) => p + 1,
        None => 0,
    }
}

/// Where the extension (with its dot) begins, or the length if the name has
/// none. A dot that opens the file name does not begin an extension.
pub open spec fn ext_start(s: Seq<char>) -> int {
    match last_index_of(s, '.', s.len() as int) {
        Some(d) => if d > name_start(s) {
            d
        } else {
            s.len() as int
        },
        None => s.len() as int,
    }
}

/// The path with its extension replaced by `ext` (or removed, when `ext` is
/// empty).
pub open spec fn with_ext_spec(p: Seq<char>, ext: Seq<char>) -> Seq<char> {
    p.subrange(0, ext_start(p)) + (if ext.len() > 0 {
        seq!['.'] + ext
    } else {
        Seq::<char>::empty()
    })
}

/// `identity`: the output path mirrors the source path under the output
/// root, extension unchanged.
pub open spec fn id_route_spec(path: Seq<char>, site: Seq<char>, public: Seq<char>) -> Option<
    Seq<char>,
> {
    match rel_spec(path, site) {
        Some(rel) => Some(join_spec(public, rel)),
        None => None,
    }
}

/// `nice`: output root, the source's parent directory, the file stem as a
/// folder, `index.html`.
pub open spec fn nice_route_spec(path: Seq<char>, site: Seq<char>, public: Seq<char>) -> Option<
    Seq<char>,
> {
    match rel_spec(path, site) {
        Some(rel) => {
            let name = rel.skip(name_start(rel));
            let stem = name.subrange(0, ext_start(rel) - name_start(rel));
            let tail = join_spec(stem, seq!['i', 'n', 'd', 'e', 'x', '.', 'h', 't', 'm', 'l']);
            match last_index_of(rel, '/', rel.len() as int) {
                Some(p) => Some(join_spec(public, join_spec(rel.subrange(0, p), tail))),
                None => Some(join_spec(public, tail)),
            }
        },
        None => None,
    }
}

/// Extension remap: the identity route with the extension replaced.
pub open spec fn ext_route_spec(
    path: Seq<char>,
    site: Seq<char>,
    public: Seq<char>,
    ext: Seq<char>,
) -> Option<Seq<char>> {
    match rel_spec(path, site) {
        Some(rel) => Some(with_ext_spec(join_spec(public, rel), ext)),
        None => None,
    }
}

/// A route strategy: one of the closed set that ships with the engine.
pub enum Route {
    /// Mirror the source path.
    Identity,
    /// Slug folder: parent, stem, `index.html`.
    Nice,
    /// Mirror the source path, with this extension instead.
    Extension(String),
}

/// What a strategy computes for a source path, or `None` where the path does
/// not lie under the source root.
pub open spec fn route_spec(r: Route, path: Seq<char>, site: Seq<char>, public: Seq<char>) -> Option<
    Seq<char>,
> {
    match r {
        Route::Identity => id_route_spec(path, site, public),
        Route::Nice => nice_route_spec(path, site, public),
        Route::Extension(e) => ext_route_spec(path, site, public, e@),
    }
}

/// Splits off the part of `path` below `site_dir`, or reports the path as
/// outside the source root.
fn rel_chars(path: &str, site_dir: &str) -> (r: Result<Vec<char>, BuildError>)
    ensures
        match rel_spec(path@, site_dir@) {
            Some(rel) => r matches Ok(v) && v@ == rel,
            None => r matches Err(e) && (e matches BuildError::Route(p) && p@ == path@),
        },
{
    let pc = to_chars(path);
    let sc = to_chars(site_dir);
    if pc.len() > sc.len() && pc.len() - sc.len() >= 2 && check_match_at(&pc, 0, &sc) && pc[sc.len()]
        == '/' {
        let rel = subvec(&pc, sc.len() + 1, pc.len());
        proof {
            assert(rel@ =~= path@.skip(site_dir@.len() as int + 1));
        }
        Ok(rel)
    } else {
        Err(BuildError::Route(path.to_owned()))
    }
}

/// Finds the last occurrence of `c`.
fn find_last(cs: &Vec<char>, c: char) -> (r: Option<usize>)
    ensures
        match last_index_of(cs@, c, cs@.len() as int) {
            Some(p) => r matches Some(q) && q as int == p && 0 <= p < cs.len(),
            None => r is None,
        },
{
    let mut j: usize = cs.len();
    while j > 0
        invariant
            j <= cs.len(),
            last_index_of(cs@, c, cs@.len() as int) == last_index_of(cs@, c, j as int),
        decreases j,
    {
        if cs[j - 1] == c {
            return Some(j - 1);
        }
        j = j - 1;
    }
    None
}

/// Appends `b` to `a` after a separator.
fn join_push(a: &mut Vec<char>, b: &Vec<char>)
    ensures
        final(a)@ == join_spec(old(a)@, b@),
{
    let ghost a0 = a@;
    a.push('/');
    let mut i: usize = 0;
    while i < b.len()
        invariant
            i <= b.len(),
            a@ =~= a0 + seq!['/'] + b@.subrange(0, i as int),
        decreases b.len() - i,
    {
        a.push(b[i]);
        i = i + 1;
    }
    proof {
        assert(a@ =~= join_spec(a0, b@));
    }
}

/// The `identity` route strategy.
pub fn id_route(path: &str, site_dir: &str, public_dir: &str) -> (r: Result<String, BuildError>)
    ensures
        match id_route_spec(path@, site_dir@, public_dir@) {
            Some(o) => r matches Ok(s) && s@ == o,
            None => r matches Err(e) && (e matches BuildError::Route(p) && p@ == path@),
        },
{
    let rel = rel_chars(path, site_dir)?;
    let mut out = to_chars(public_dir);
    join_push(&mut out, &rel);
    Ok(string_of(out))
}

/// The `nice` route strategy: `posts/hello.md` becomes
/// `posts/hello/index.html` under the output root.
pub fn nice_route(path: &str, site_dir: &str, public_dir: &str) -> (r: Result<String, BuildError>)
    ensures
        match nice_route_spec(path@, site_dir@, public_dir@) {
            Some(o) => r matches Ok(s) && s@ == o,
            None => r matches Err(e) && (e matches BuildError::Route(p) && p@ == path@),
        },
{
    let rel = rel_chars(path, site_dir)?;
    let nstart: usize = match find_last(&rel, '/') {
        Some(p) => p + 1,
        None => 0,
    };
    let cut: usize = match find_last(&rel, '.') {
        Some(d) => {
            if d > nstart {
                d
            } else {
                rel.len()
            }
        },
        None => rel.len(),
    };
    proof {
        assert(nstart as int == name_start(rel@));
        assert(cut as int == ext_start(rel@));
    }
    let stem = subvec(&rel, nstart, cut);
    proof {
        assert(stem@ =~= rel@.skip(name_start(rel@)).subrange(
            0,
            ext_start(rel@) - name_start(rel@),
        ));
    }
    let index_chars: Vec<char> = vec!['i', 'n', 'd', 'e', 'x', '.', 'h', 't', 'm', 'l'];
    let mut tail = stem;
    join_push(&mut tail, &index_chars);
    let mut out = to_chars(public_dir);
    if nstart > 0 {
        let dir = subvec(&rel, 0, nstart - 1);
        join_push(&mut out, &dir);
        join_push(&mut out, &tail);
    } else {
        join_push(&mut out, &tail);
    }
    Ok(string_of(out))
}

/// The extension-remap route strategy, as a value of the closed `Route` set.
pub fn set_extension(ext: &str) -> (r: Route)
    ensures
        r matches Route::Extension(e) && e@ == ext@,
{
    Route::Extension(ext.to_owned())
}

/// Replaces the extension of the path held in `p`.
fn with_ext_chars(p: Vec<char>, ext: &Vec<char>) -> (r: Vec<char>)
    ensures
        r@ == with_ext_spec(p@, ext@),
{
    let nstart: usize = match find_last(&p, '/') {
        Some(q) => q + 1,
        None => 0,
    };
    let cut: usize = match find_last(&p, '.') {
        Some(d) => {
            if d > nstart {
                d
            } else {
                p.len()
            }
        },
        None => p.len(),
    };
    proof {
        assert(cut as int == ext_start(p@));
    }
    let mut out = subvec(&p, 0, cut);
    if ext.len() > 0 {
        let ghost o0 = out@;
        out.push('.');
        let mut i: usize = 0;
        while i < ext.len()
            invariant
                i <= ext.len(),
                out@ =~= o0 + seq!['.'] + ext@.subrange(0, i as int),
            decreases ext.len() - i,
        {
            out.push(ext[i]);
            i = i + 1;
        }
        proof {
            assert(out@ =~= with_ext_spec(p@, ext@));
        }
    } else {
        proof {
            assert(out@ =~= with_ext_spec(p@, ext@));
        }
    }
    out
}

impl Route {
    /// Computes the output path this strategy gives to a source path.
    pub fn apply(&self, path: &str, site_dir: &str, public_dir: &str) -> (r: Result<
        String,
        BuildError,
    >)
        ensures
            match route_spec(*self, path@, site_dir@, public_dir@) {
                Some(o) => r matches Ok(s) && s@ == o,
                None => r matches Err(e) && (e matches BuildError::Route(p) && p@ == path@),
            },
    {
        match self {
            Route::Identity => id_route(path, site_dir, public_dir),
            Route::Nice => nice_route(path, site_dir, public_dir),
            Route::Extension(e) => {
                let rel = rel_chars(path, site_dir)?;
                let mut out = to_chars(public_dir);
                join_push(&mut out, &rel);
                let ev = to_chars(e.as_str());
                let res = with_ext_chars(out, &ev);
                Ok(string_of(res))
            },
        }
    }
}

} // verus!
