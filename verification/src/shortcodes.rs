//! The shortcode expander: a single-pass, character-indexed scanner that
//! rewrites escape-introduced inline macros inside document bodies.
//!
//! The syntax is the escape-character one: a `\` immediately followed by a
//! registered tag name introduces an invocation; zero or more brace-delimited
//! arguments may follow back-to-back, with nested braces tracked by a depth
//! counter. Malformed or unmatched syntax degrades to literal passthrough:
//! the escape character is emitted as is and scanning resumes one character
//! later.
use vstd::prelude::*;

use crate::text::{matches_at, string_of, to_chars};
use vstd::string::StringExecFns;

verus! {

/// How a matched shortcode renders its argument list. Handlers form a closed
/// set of capability-tagged variants, so that every expansion is fully
/// specified.
pub enum RenderFn {
    /// The first argument (empty if none was given), between a prefix and a
    /// suffix.
    Wrap(String, String),
    /// A fixed replacement text; the arguments are discarded.
    Const(String),
}

/// A registered shortcode: its tag name and its rendering.
pub struct Shortcode {
    pub tag: String,
    pub render: RenderFn,
}

/// The text a handler produces for an ordered argument list.
pub open spec fn render_spec(r: RenderFn, args: Seq<Seq<char>>) -> Seq<char> {
    match r {
        RenderFn::Wrap(pre, suf) => pre@ + (if args.len() > 0 {
            args[0]
        } else {
            Seq::<char>::empty()
        }) + suf@,
        RenderFn::Const(s) => s@,
    }
}

/// The views of a list of argument strings.
pub open spec fn views_of(ss: Seq<String>) -> Seq<Seq<char>> {
    ss.map_values(|s: String| s@)
}

/// Scans a brace group from position `j`, already `depth` braces deep, with
/// `acc` the content gathered so far: the group's content and the position
/// one past its closing brace, or `None` if the group never closes.
pub open spec fn brace_scan(cs: Seq<char>, j: int, depth: int, acc: Seq<char>) -> Option<
    (Seq<char>, int),
>
    decreases cs.len() - j,
{
    if j < 0 || j >= cs.len() {
        None
    } else if cs[j] == '}' && depth == 1 {
        Some((acc, j + 1))
    } else if cs[j] == '}' {
        brace_scan(cs, j + 1, depth - 1, acc.push('}'))
    } else if cs[j] == '{' {
        brace_scan(cs, j + 1, depth + 1, acc.push('{'))
    } else {
        brace_scan(cs, j + 1, depth, acc.push(cs[j]))
    }
}

/// The brace group starting at `i` (which must hold an opening brace), if it
/// is terminated.
pub open spec fn brace_group(cs: Seq<char>, i: int) -> Option<(Seq<char>, int)> {
    if 0 <= i < cs.len() && cs[i] == '{' {
        brace_scan(cs, i + 1, 1, Seq::empty())
    } else {
        None
    }
}

proof fn lemma_brace_scan_advances(cs: Seq<char>, j: int, depth: int, acc: Seq<char>)
    ensures
        brace_scan(cs, j, depth, acc) matches Some(g) ==> j < g.1 <= cs.len(),
    decreases cs.len() - j,
{
    if 0 <= j < cs.len() {
        if cs[j] == '}' && depth == 1 {
        } else if cs[j] == '}' {
            lemma_brace_scan_advances(cs, j + 1, depth - 1, acc.push('}'));
        } else if cs[j] == '{' {
            lemma_brace_scan_advances(cs, j + 1, depth + 1, acc.push('{'));
        } else {
            lemma_brace_scan_advances(cs, j + 1, depth, acc.push(cs[j]));
        }
    }
}

proof fn lemma_brace_group_advances(cs: Seq<char>, i: int)
    ensures
        brace_group(cs, i) matches Some(g) ==> i + 1 < g.1 <= cs.len(),
{
    if 0 <= i < cs.len() && cs[i] == '{' {
        lemma_brace_scan_advances(cs, i + 1, 1, Seq::empty());
    }
}

/// Zero or more brace groups, back to back, starting at `i`: the list of
/// their contents and the position after the last one — or `None` as soon as
/// one group is unterminated.
pub open spec fn parse_args(cs: Seq<char>, i: int) -> Option<(Seq<Seq<char>>, int)>
    decreases cs.len() - i,
    via parse_args_dec
{
    if 0 <= i < cs.len() && cs[i] == '{' {
        match brace_group(cs, i) {
            Some(g) => match parse_args(cs, g.1) {
                Some(rest) => Some((seq![g.0] + rest.0, rest.1)),
                None => None,
            },
            None => None,
        }
    } else {
        Some((Seq::empty(), i))
    }
}

#[via_fn]
proof fn parse_args_dec(cs: Seq<char>, i: int) {
    lemma_brace_group_advances(cs, i);
}

proof fn lemma_parse_args_advances(cs: Seq<char>, i: int)
    requires
        0 <= i <= cs.len(),
    ensures
        parse_args(cs, i) matches Some(ar) ==> i <= ar.1 <= cs.len(),
    decreases cs.len() - i,
{
    if i < cs.len() && cs[i] == '{' {
        lemma_brace_group_advances(cs, i);
        match brace_group(cs, i) {
            Some(g) => {
                lemma_parse_args_advances(cs, g.1);
            },
            None => {},
        }
    }
}

/// Index of the first registered handler, from `k` on, whose tag follows the
/// escape character at `i` (first-registered-match-wins).
pub open spec fn first_match(cs: Seq<char>, i: int, hs: Seq<Shortcode>, k: int) -> Option<int>
    decreases hs.len() - k,
{
    if k < 0 || k >= hs.len() {
        None
    } else if matches_at(cs, i + 1, hs[k].tag@) {
        Some(k)
    } else {
        first_match(cs, i, hs, k + 1)
    }
}

/// One attempted match at position `i`: the rendered replacement and the
/// position after the whole matched span, or `None` where the position does
/// not hold an escape character, no tag matches, or an argument group is
/// unterminated.
pub open spec fn expand_step(cs: Seq<char>, i: int, hs: Seq<Shortcode>) -> Option<
    (Seq<char>, int),
> {
    if 0 <= i < cs.len() && cs[i] == '\\' {
        match first_match(cs, i, hs, 0) {
            Some(k) => match parse_args(cs, i + 1 + hs[k].tag@.len()) {
                Some(ar) => Some((render_spec(hs[k].render, ar.0), ar.1)),
                None => None,
            },
            None => None,
        }
    } else {
        None
    }
}

proof fn lemma_first_match_tag_fits(cs: Seq<char>, i: int, hs: Seq<Shortcode>, k: int)
    ensures
        first_match(cs, i, hs, k) matches Some(m) ==> k <= m < hs.len() && matches_at(
            cs,
            i + 1,
            hs[m].tag@,
        ),
    decreases hs.len() - k,
{
    if 0 <= k < hs.len() && !matches_at(cs, i + 1, hs[k].tag@) {
        lemma_first_match_tag_fits(cs, i, hs, k + 1);
    }
}

proof fn lemma_expand_step_advances(cs: Seq<char>, i: int, hs: Seq<Shortcode>)
    ensures
        expand_step(cs, i, hs) matches Some(st) ==> i < st.1 <= cs.len(),
{
    if 0 <= i < cs.len() && cs[i] == '\\' {
        lemma_first_match_tag_fits(cs, i, hs, 0);
        match first_match(cs, i, hs, 0) {
            Some(k) => {
                lemma_parse_args_advances(cs, i + 1 + hs[k].tag@.len());
            },
            None => {},
        }
    }
}

/// The expansion of the text from position `i` on: each attempted match
/// either succeeds and splices its rendering, or the character is passed
/// through literally and scanning resumes one position later.
pub open spec fn expand_from(cs: Seq<char>, i: int, hs: Seq<Shortcode>) -> Seq<char>
    decreases cs.len() - i,
    via expand_from_dec
{
    if i < 0 || i >= cs.len() {
        Seq::empty()
    } else {
        match expand_step(cs, i, hs) {
            Some(st) => st.0 + expand_from(cs, st.1, hs),
            None => seq![cs[i]] + expand_from(cs, i + 1, hs),
        }
    }
}

#[via_fn]
proof fn expand_from_dec(cs: Seq<char>, i: int, hs: Seq<Shortcode>) {
    lemma_expand_step_advances(cs, i, hs);
}

/// The full expansion of a text against an ordered handler list.
pub open spec fn expand_spec(s: Seq<char>, hs: Seq<Shortcode>) -> Seq<char> {
    expand_from(s, 0, hs)
}

/// With no registered handlers, expansion passes every input through
/// unchanged.
pub proof fn lemma_expand_no_handlers(s: Seq<char>)
    ensures
        expand_spec(s, Seq::<Shortcode>::empty()) == s,
{
    lemma_expand_from_no_handlers(s, 0);
    assert(s.subrange(0, s.len() as int) =~= s);
}

proof fn lemma_expand_from_no_handlers(s: Seq<char>, i: int)
    requires
        0 <= i <= s.len(),
    ensures
        expand_from(s, i, Seq::<Shortcode>::empty()) == s.subrange(i, s.len() as int),
    decreases s.len() - i,
{
    if i < s.len() {
        lemma_expand_from_no_handlers(s, i + 1);
        assert(seq![s[i]] + s.subrange(i + 1, s.len() as int) =~= s.subrange(i, s.len() as int));
    } else {
        assert(s.subrange(i, s.len() as int) =~= Seq::<char>::empty());
    }
}

/// Parses one brace-delimited argument group starting at `start`: its content
/// with nested braces kept literally, and the position one past the closing
/// brace. `None` where `start` holds no opening brace or the group never
/// closes.
pub fn parse_braced(input: &[char], start: usize) -> (r: Option<(String, usize)>)
    ensures
        match brace_group(input@, start as int) {
            Some(g) => r matches Some(p) && p.0@ == g.0 && p.1 == g.1,
            None => r is None,
        },
{
    if start >= input.len() || input[start] != '{' {
        return None;
    }
    let mut j: usize = start + 1;
    let mut depth: usize = 1;
    let mut content: Vec<char> = Vec::new();
    while j < input.len()
        invariant
            start < input.len(),
            input@[start as int] == '{',
            start + 1 <= j <= input.len(),
            1 <= depth <= j,
            brace_scan(input@, start + 1, 1, Seq::empty()) == brace_scan(
                input@,
                j as int,
                depth as int,
                content@,
            ),
        decreases input.len() - j,
    {
        let c = input[j];
        if c == '}' && depth == 1 {
            return Some((string_of(content), j + 1));
        } else if c == '}' {
            depth = depth - 1;
            content.push('}');
        } else if c == '{' {
            depth = depth + 1;
            content.push('{');
        } else {
            content.push(c);
        }
        j = j + 1;
    }
    None
}

/// Finds the first registered handler whose tag follows the escape character
/// at `i`.
fn find_handler(cs: &Vec<char>, i: usize, handlers: &Vec<Shortcode>) -> (r: Option<usize>)
    requires
        i < cs@.len(),
    ensures
        match first_match(cs@, i as int, handlers@, 0) {
            Some(m) => r matches Some(k) && k as int == m && m < handlers@.len(),
            None => r is None,
        },
{
    let mut k: usize = 0;
    while k < handlers.len()
        invariant
            k <= handlers.len(),
            i < cs.len(),
            first_match(cs@, i as int, handlers@, 0) == first_match(
                cs@,
                i as int,
                handlers@,
                k as int,
            ),
        decreases handlers.len() - k,
    {
        let tag = to_chars(handlers[k].tag.as_str());
        if crate::text::check_match_at(cs, i + 1, &tag) {
            return Some(k);
        }
        k = k + 1;
    }
    None
}

/// Collects the abutting brace groups that follow a matched tag. `None` as
/// soon as one group is unterminated.
fn collect_args(cs: &Vec<char>, p0: usize) -> (r: Option<(Vec<String>, usize)>)
    requires
        p0 <= cs@.len(),
    ensures
        match parse_args(cs@, p0 as int) {
            Some(ar) => r matches Some(p) && views_of(p.0@) == ar.0 && p.1 == ar.1 && p.1
                <= cs@.len(),
            None => r is None,
        },
{
    let mut args: Vec<String> = Vec::new();
    let mut pos: usize = p0;
    loop
        invariant
            pos <= cs@.len(),
            match parse_args(cs@, pos as int) {
                Some(ar) => parse_args(cs@, p0 as int) == Some::<(Seq<Seq<char>>, int)>(
                    (views_of(args@) + ar.0, ar.1),
                ),
                None => parse_args(cs@, p0 as int) is None,
            },
        decreases cs@.len() - pos,
    {
        if pos >= cs.len() || cs[pos] != '{' {
            proof {
                assert(parse_args(cs@, pos as int) == Some::<(Seq<Seq<char>>, int)>(
                    (Seq::<Seq<char>>::empty(), pos as int),
                ));
                assert(views_of(args@) + Seq::<Seq<char>>::empty() =~= views_of(args@));
            }
            return Some((args, pos));
        }
        proof {
            lemma_brace_group_advances(cs@, pos as int);
        }
        match parse_braced(cs.as_slice(), pos) {
            Some(p) => {
                let ghost old_args = args@;
                let ghost g = brace_group(cs@, pos as int)->Some_0;
                args.push(p.0);
                proof {
                    assert(views_of(args@) =~= views_of(old_args).push(g.0));
                    match parse_args(cs@, g.1) {
                        Some(ar2) => {
                            assert(views_of(old_args) + (seq![g.0] + ar2.0) =~= views_of(
                                old_args,
                            ).push(g.0) + ar2.0);
                        },
                        None => {},
                    }
                }
                pos = p.1;
            },
            None => {
                return None;
            },
        }
    }
}

/// Renders a handler against its collected arguments.
fn render(r: &RenderFn, args: &Vec<String>) -> (out: String)
    ensures
        out@ == render_spec(*r, views_of(args@)),
{
    match r {
        RenderFn::Wrap(pre, suf) => {
            let mut s = pre.clone();
            if args.len() > 0 {
                s.append(args[0].as_str());
            }
            s.append(suf.as_str());
            proof {
                if args@.len() == 0 {
                    assert(pre@ + Seq::<char>::empty() + suf@ =~= pre@ + suf@);
                }
            }
            s
        },
        RenderFn::Const(c) => c.clone(),
    }
}

/// Expands every shortcode invocation in `input` against the ordered handler
/// list, left to right in a single pass; unmatched or malformed syntax is
/// passed through unchanged.
pub fn expand_shortcodes(input: &str, handlers: &Vec<Shortcode>) -> (out: String)
    ensures
        out@ == expand_spec(input@, handlers@),
{
    let cs = to_chars(input);
    let mut out: Vec<char> = Vec::new();
    let mut i: usize = 0;
    while i < cs.len()
        invariant
            i <= cs@.len(),
            cs@ == input@,
            out@ + expand_from(cs@, i as int, handlers@) == expand_spec(input@, handlers@),
        decreases cs@.len() - i,
    {
        let ghost i0 = i as int;
        let mut matched: bool = false;
        if cs[i] == '\\' {
            if let Some(k) = find_handler(&cs, i, handlers) {
                proof {
                    lemma_first_match_tag_fits(cs@, i as int, handlers@, 0);
                }
                let tag = to_chars(handlers[k].tag.as_str());
                let p0: usize = i + 1 + tag.len();
                match collect_args(&cs, p0) {
                    Some(ca) => {
                        let rendered = render(&handlers[k].render, &ca.0);
                        let mut rv = to_chars(rendered.as_str());
                        let ghost out0 = out@;
                        out.append(&mut rv);
                        proof {
                            lemma_expand_step_advances(cs@, i0, handlers@);
                            let st = expand_step(cs@, i0, handlers@)->Some_0;
                            assert(out@ =~= out0 + st.0);
                            assert(out0 + (st.0 + expand_from(cs@, st.1, handlers@)) =~= (out0
                                + st.0) + expand_from(cs@, st.1, handlers@));
                        }
                        i = ca.1;
                        matched = true;
                    },
                    None => {},
                }
            }
        }
        if !matched {
            proof {
                assert(expand_step(cs@, i0, handlers@) is None);
            }
            let ghost out0 = out@;
            out.push(cs[i]);
            proof {
                assert(out@ =~= out0 + seq![cs@[i0]]);
                assert(out0 + (seq![cs@[i0]] + expand_from(cs@, i0 + 1, handlers@)) =~= (out0
                    + seq![cs@[i0]]) + expand_from(cs@, i0 + 1, handlers@));
            }
            i = i + 1;
        }
    }
    proof {
        assert(out@ + expand_from(cs@, i as int, handlers@) =~= out@);
    }
    string_of(out)
}

} // verus!
