//! The commands of an SVG path as footprint solid regions carry them: the
//! tokens and the command state machine, with coordinates left as text.

use vstd::prelude::*;

use crate::text::{is_whitespace, string_of, unicode_white_space, views};

verus! {

/// Whether `c` separates the tokens of a path: a comma or white space.
pub open spec fn path_sep(c: char) -> bool {
    c == ',' || unicode_white_space(c)
}

/// The tokens of a path: the maximal runs of characters that are not
/// separators, in order (splitting on separators and dropping the empty
/// pieces).
pub open spec fn path_tokens(s: Seq<char>) -> Seq<Seq<char>>
    decreases s.len(),
{
    if s.len() == 0 {
        Seq::empty()
    } else {
        let w = path_tokens(s.drop_last());
        if path_sep(s.last()) {
            w
        } else if s.len() >= 2 && !path_sep(s[s.len() - 2]) {
            w.drop_last().push(w.last().push(s.last()))
        } else {
            w.push(seq![s.last()])
        }
    }
}

/// The tokens of a path.
fn path_tokens_of(s: &str) -> (r: Vec<Vec<char>>)
    ensures
        views(r@) == path_tokens(s@),
{
    let mut out: Vec<Vec<char>> = Vec::new();
    let mut cur: Vec<char> = Vec::new();
    let ghost v = s@;
    let ghost mut i: int = 0;
    assert(v.take(0) =~= Seq::<char>::empty());
    for c in it: s.chars()
        invariant
            it.seq() == v,
            i == it.index(),
            0 <= i <= v.len(),
            path_tokens(v.take(i)) == if cur@.len() == 0 {
                views(out@)
            } else {
                views(out@).push(cur@)
            },
            cur@.len() > 0 <==> (i > 0 && !path_sep(v[i - 1])),
    {
        let ghost t = v.take(i + 1);
        assert(t.drop_last() =~= v.take(i));
        assert(t.last() == c);
        assert(i > 0 ==> t[t.len() - 2] == v[i - 1]);
        let ghost before = out@;
        if c == ',' || is_whitespace(c) {
            if cur.len() > 0 {
                out.push(cur);
                cur = Vec::new();
                assert(views(out@) =~= views(before).push(out@.last()@));
            }
        } else {
            if cur.len() > 0 {
                let ghost w = views(out@).push(cur@);
                cur.push(c);
                assert(w.drop_last().push(w.last().push(c)) =~= views(out@).push(cur@));
            } else {
                cur.push(c);
                assert(cur@ =~= seq![c]);
            }
        }
        proof {
            i = i + 1;
        }
    }
    assert(v.take(v.len() as int) =~= v);
    if cur.len() > 0 {
        let ghost before = out@;
        out.push(cur);
        assert(views(out@) =~= views(before).push(out@.last()@));
    }
    out
}

/// One step of a path, with its coordinates as the text of their tokens.
#[derive(Debug, PartialEq)]
pub enum PathStep {
    /// A move, line or arc to the point `(x, y)`.
    Point(String, String),
    /// A horizontal line to `x`.
    Horizontal(String),
    /// A vertical line to `y`.
    Vertical(String),
    /// A close back to the first point.
    Close,
}

/// One step of a path, with its coordinates as character sequences.
pub enum PathStepView {
    Point(Seq<char>, Seq<char>),
    Horizontal(Seq<char>),
    Vertical(Seq<char>),
    Close,
}

impl View for PathStep {
    type V = PathStepView;

    open spec fn view(&self) -> PathStepView {
        match self {
            PathStep::Point(x, y) => PathStepView::Point(x@, y@),
            PathStep::Horizontal(x) => PathStepView::Horizontal(x@),
            PathStep::Vertical(y) => PathStepView::Vertical(y@),
            PathStep::Close => PathStepView::Close,
        }
    }
}

/// The views of a sequence of steps.
pub open spec fn step_views(v: Seq<PathStep>) -> Seq<PathStepView> {
    v.map_values(|s: PathStep| s@)
}

/// Whether `c` is an ASCII letter, which starts a command token.
pub open spec fn is_ascii_alpha(c: char) -> bool {
    ('a' <= c && c <= 'z') || ('A' <= c && c <= 'Z')
}

/// The first character of a token, NUL for an empty one.
pub open spec fn first_char(t: Seq<char>) -> char {
    if t.len() > 0 {
        t[0]
    } else {
        '\0'
    }
}

/// `x` followed by the steps `rest`, where these exist.
pub open spec fn prepend(x: PathStepView, rest: Option<Seq<PathStepView>>) -> Option<
    Seq<PathStepView>,
> {
    match rest {
        Some(r) => Some(seq![x] + r),
        None => None,
    }
}

/// The steps read from the tokens `t` from position `i` on, `last` being
/// the command in force. A token starting with an ASCII letter is a
/// command; any other token repeats the command in force. `M`, `L` take a
/// point, `H` an x, `V` a y, `A` seven numbers of which the last two are its
/// end point; one of them without enough tokens left ends the path. `Z` and
/// `z` close it. Anything else skips a token. None where the reading never
/// ends: a token that is not a command while a close is in force.
pub open spec fn steps_from(t: Seq<Seq<char>>, i: int, last: char) -> Option<Seq<PathStepView>>
    decreases t.len() + 1 - i,
{
    if i < 0 || i >= t.len() {
        Some(Seq::empty())
    } else {
        let f = first_char(t[i]);
        let is_cmd = is_ascii_alpha(f);
        let cmd = if is_cmd {
            f
        } else {
            last
        };
        let j = if is_cmd {
            i + 1
        } else {
            i
        };
        if cmd == 'M' || cmd == 'L' {
            if j + 1 < t.len() {
                prepend(PathStepView::Point(t[j], t[j + 1]), steps_from(t, j + 2, cmd))
            } else {
                Some(Seq::empty())
            }
        } else if cmd == 'H' {
            if j < t.len() {
                prepend(PathStepView::Horizontal(t[j]), steps_from(t, j + 1, cmd))
            } else {
                Some(Seq::empty())
            }
        } else if cmd == 'V' {
            if j < t.len() {
                prepend(PathStepView::Vertical(t[j]), steps_from(t, j + 1, cmd))
            } else {
                Some(Seq::empty())
            }
        } else if cmd == 'A' {
            if j + 6 < t.len() {
                prepend(PathStepView::Point(t[j + 5], t[j + 6]), steps_from(t, j + 7, cmd))
            } else {
                Some(Seq::empty())
            }
        } else if cmd == 'Z' || cmd == 'z' {
            if is_cmd {
                prepend(PathStepView::Close, steps_from(t, j, cmd))
            } else {
                None
            }
        } else {
            steps_from(t, j + 1, cmd)
        }
    }
}

/// The steps of the path `path`; none where reading it never ends.
pub open spec fn path_steps_spec(path: Seq<char>) -> Option<Seq<PathStepView>> {
    steps_from(path_tokens(path), 0, '\0')
}

/// `prefix` followed by the steps `rest`, where these exist.
pub open spec fn after(prefix: Seq<PathStepView>, rest: Option<Seq<PathStepView>>) -> Option<
    Seq<PathStepView>,
> {
    match rest {
        Some(r) => Some(prefix + r),
        None => None,
    }
}

/// The steps of an SVG path: where reading the path ends, the steps in
/// order; none where it never ends (a number after a close command).
pub fn svg_path_steps(path: &str) -> (r: Option<Vec<PathStep>>)
    ensures
        match r {
            Some(v) => path_steps_spec(path@) == Some(step_views(v@)),
            None => path_steps_spec(path@) is None,
        },
{
    let toks = path_tokens_of(path);
    let ghost t = views(toks@);
    let n = toks.len();
    let mut out: Vec<PathStep> = Vec::new();
    let mut i: usize = 0;
    let mut last: char = '\0';
    assert(step_views(out@) =~= Seq::<PathStepView>::empty());
    assert(after(Seq::empty(), steps_from(t, 0, '\0')) =~= steps_from(t, 0, '\0')) by {
        match steps_from(t, 0, '\0') {
            Some(r) => {
                assert(Seq::<PathStepView>::empty() + r =~= r);
            },
            None => {},
        }
    }
    while i < n
        invariant
            i <= n == toks@.len() == t.len(),
            t == views(toks@),
            path_tokens(path@) == t,
            path_steps_spec(path@) == after(step_views(out@), steps_from(t, i as int, last)),
        decreases n - i,
    {
        let ghost before = step_views(out@);
        let tok = &toks[i];
        assert(t[i as int] == tok@);
        let f = if tok.len() > 0 {
            tok[0]
        } else {
            '\0'
        };
        let is_cmd = ('a' <= f && f <= 'z') || ('A' <= f && f <= 'Z');
        let cmd = if is_cmd {
            f
        } else {
            last
        };
        let j: usize = if is_cmd {
            i + 1
        } else {
            i
        };
        let ghost rest = steps_from(t, i as int, last);
        let step: PathStep;
        let next: usize;
        if cmd == 'M' || cmd == 'L' {
            if n - j > 1 {
                step = PathStep::Point(string_of(&toks[j]), string_of(&toks[j + 1]));
                next = j + 2;
            } else {
                proof {
                    assert(before + Seq::<PathStepView>::empty() =~= before);
                }
                return Some(out);
            }
        } else if cmd == 'H' {
            if j < n {
                step = PathStep::Horizontal(string_of(&toks[j]));
                next = j + 1;
            } else {
                proof {
                    assert(before + Seq::<PathStepView>::empty() =~= before);
                }
                return Some(out);
            }
        } else if cmd == 'V' {
            if j < n {
                step = PathStep::Vertical(string_of(&toks[j]));
                next = j + 1;
            } else {
                proof {
                    assert(before + Seq::<PathStepView>::empty() =~= before);
                }
                return Some(out);
            }
        } else if cmd == 'A' {
            if n - j > 6 {
                step = PathStep::Point(string_of(&toks[j + 5]), string_of(&toks[j + 6]));
                next = j + 7;
            } else {
                proof {
                    assert(before + Seq::<PathStepView>::empty() =~= before);
                }
                return Some(out);
            }
        } else if cmd == 'Z' || cmd == 'z' {
            if is_cmd {
                step = PathStep::Close;
                next = j;
            } else {
                return None;
            }
        } else {
            assert(rest == steps_from(t, j + 1, cmd));
            if j >= n {
                proof {
                    assert(before + Seq::<PathStepView>::empty() =~= before);
                }
                return Some(out);
            }
            i = j + 1;
            last = cmd;
            continue;
        }
        proof {
            assert(rest == prepend(step@, steps_from(t, next as int, cmd)));
            match steps_from(t, next as int, cmd) {
                Some(r) => {
                    assert(before + (seq![step@] + r) =~= before.push(step@) + r);
                },
                None => {},
            }
        }
        out.push(step);
        assert(step_views(out@) =~= before.push(step@));
        i = next;
        last = cmd;
    }
    proof {
        assert(steps_from(t, i as int, last) == Some(Seq::<PathStepView>::empty()));
        assert(step_views(out@) + Seq::<PathStepView>::empty() =~= step_views(out@));
    }
    Some(out)
}

} // verus!
