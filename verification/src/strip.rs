//! Removal of CJK ideographs from human-visible strings (`--strip-chinese`).

use vstd::prelude::*;

use crate::text::{
    chars_of, is_whitespace, join_spaced, lemma_trim, lemma_trim_end, no_edge_ws, string_of,
    trim, trim_chars, trim_end, trim_start, unicode_white_space, ws_words,
};
use crate::types::{EeFootprint, EeFootprintInfo, EeSymbol, EeSymbolInfo};

verus! {

/// Whether `c` is a CJK ideograph: in the Unified Ideographs block or its
/// Extension A.
pub open spec fn is_cjk_char(c: char) -> bool {
    let u = c as u32;
    (0x3400 <= u && u <= 0x4DBF) || (0x4E00 <= u && u <= 0x9FFF)
}

/// The length of the run of CJK ideographs at the start of `s`.
pub open spec fn cjk_run(s: Seq<char>) -> nat
    decreases s.len(),
{
    if s.len() > 0 && is_cjk_char(s[0]) {
        1 + cjk_run(s.drop_first())
    } else {
        0
    }
}

/// A CJK run is never longer than the sequence.
pub proof fn lemma_cjk_run_bound(s: Seq<char>)
    ensures
        cjk_run(s) <= s.len(),
        forall|i: int| 0 <= i < cjk_run(s) ==> is_cjk_char(#[trigger] s[i]),
        cjk_run(s) < s.len() ==> !is_cjk_char(s[cjk_run(s) as int]),
    decreases s.len(),
{
    if s.len() > 0 && is_cjk_char(s[0]) {
        lemma_cjk_run_bound(s.drop_first());
        assert forall|i: int| 0 <= i < cjk_run(s) implies is_cjk_char(#[trigger] s[i]) by {
            if i > 0 {
                assert(s[i] == s.drop_first()[i - 1]);
            }
        }
        if cjk_run(s) < s.len() {
            assert(s[cjk_run(s) as int] == s.drop_first()[cjk_run(s.drop_first()) as int]);
        }
    }
}

/// The length of the match of the pattern `\(?[CJK]+\)?` at the start of
/// `s`: an optional ASCII `(`, a non-empty run of CJK ideographs and an
/// optional ASCII `)`; zero where the pattern does not match there.
pub open spec fn cjk_match_len(s: Seq<char>) -> nat {
    let o: nat = if s.len() > 0 && s[0] == '(' {
        1
    } else {
        0
    };
    let k = cjk_run(s.skip(o as int));
    if k == 0 {
        0
    } else if o + k < s.len() && s[(o + k) as int] == ')' {
        o + k + 1
    } else {
        o + k
    }
}

/// A match never runs past the end, and only a match can start at a CJK
/// ideograph.
pub proof fn lemma_cjk_match_len(s: Seq<char>)
    ensures
        cjk_match_len(s) <= s.len(),
        s.len() > 0 && is_cjk_char(s[0]) ==> cjk_match_len(s) > 0,
{
    let o: int = if s.len() > 0 && s[0] == '(' {
        1
    } else {
        0
    };
    if o <= s.len() {
        lemma_cjk_run_bound(s.skip(o));
    }
    if s.len() > 0 && is_cjk_char(s[0]) {
        assert(s.skip(0) =~= s);
    }
}

/// `s` with every match of the pattern `\(?[CJK]+\)?` removed, scanning from
/// the left.
pub open spec fn remove_cjk(s: Seq<char>) -> Seq<char>
    decreases s.len(),
{
    if s.len() == 0 {
        s
    } else if cjk_match_len(s) > 0 {
        proof {
            lemma_cjk_match_len(s);
        }
        remove_cjk(s.skip(cjk_match_len(s) as int))
    } else {
        seq![s[0]] + remove_cjk(s.drop_first())
    }
}

/// `s` with each maximal run of white space replaced by one space.
pub open spec fn collapse_ws(s: Seq<char>) -> Seq<char>
    decreases s.len(),
{
    if s.len() == 0 {
        s
    } else if unicode_white_space(s.last()) {
        if s.len() >= 2 && unicode_white_space(s[s.len() - 2]) {
            collapse_ws(s.drop_last())
        } else {
            collapse_ws(s.drop_last()).push(' ')
        }
    } else {
        collapse_ws(s.drop_last()).push(s.last())
    }
}

/// The result of `--strip-chinese` on a string: CJK runs (each with an ASCII
/// `(` just before it and an ASCII `)` just after it) removed, white space runs collapsed to one
/// space, and the ends trimmed.
pub open spec fn strip_cjk_spec(s: Seq<char>) -> Seq<char> {
    trim(collapse_ws(remove_cjk(s)))
}

/// Whether `c` is a CJK ideograph.
pub fn is_cjk(c: char) -> (r: bool)
    ensures
        r == is_cjk_char(c),
{
    let u = c as u32;
    (0x3400 <= u && u <= 0x4DBF) || (0x4E00 <= u && u <= 0x9FFF)
}

/// The end of the run of CJK ideographs that starts at `from`.
fn cjk_run_end(v: &Vec<char>, from: usize) -> (end: usize)
    requires
        from <= v.len(),
    ensures
        from <= end <= v.len(),
        end == from + cjk_run(v@.skip(from as int)),
{
    let n = v.len();
    let mut j = from;
    while j < n
        invariant
            from <= j <= n == v.len(),
            cjk_run(v@.skip(from as int)) == (j - from) + cjk_run(v@.skip(j as int)),
        ensures
            from <= j <= n,
            cjk_run(v@.skip(from as int)) == (j - from) + cjk_run(v@.skip(j as int)),
            j < n ==> !is_cjk_char(v@[j as int]),
        decreases n - j,
    {
        if !is_cjk(v[j]) {
            break;
        }
        assert(v@.skip(j as int).drop_first() =~= v@.skip(j + 1));
        assert(v@.skip(j as int)[0] == v@[j as int]);
        j += 1;
    }
    if j < n {
        assert(v@.skip(j as int)[0] == v@[j as int]);
    }
    j
}

/// The characters of `v` with CJK runs, and the parentheses beside them,
/// removed.
fn remove_cjk_chars(v: &Vec<char>) -> (r: Vec<char>)
    ensures
        r@ == remove_cjk(v@),
{
    let n = v.len();
    let mut out: Vec<char> = Vec::new();
    let mut i: usize = 0;
    assert(v@.skip(0) =~= v@);
    while i < n
        invariant
            i <= n == v.len(),
            remove_cjk(v@) == out@ + remove_cjk(v@.skip(i as int)),
        decreases n - i,
    {
        let ghost s = v@.skip(i as int);
        let c = v[i];
        assert(s[0] == c);
        assert(s.drop_first() =~= v@.skip(i + 1));
        let o: usize = if c == '(' {
            1
        } else {
            0
        };
        let j = cjk_run_end(v, i + o);
        assert(s.skip(o as int) =~= v@.skip((i + o) as int));
        if j > i + o {
            let e: usize = if j < n && v[j] == ')' {
                j + 1
            } else {
                j
            };
            proof {
                assert(j < n ==> s[(j - i) as int] == v@[j as int]);
                assert(cjk_match_len(s) == e - i);
                assert(s.skip(e - i) =~= v@.skip(e as int));
            }
            i = e;
            continue;
        }
        proof {
            assert(cjk_match_len(s) == 0);
            assert(out@.push(c) + remove_cjk(v@.skip(i + 1)) =~= out@ + (seq![c] + remove_cjk(
                v@.skip(i + 1),
            )));
        }
        out.push(c);
        i += 1;
    }
    assert(remove_cjk(v@.skip(n as int)) =~= Seq::<char>::empty());
    assert(out@ + Seq::<char>::empty() =~= out@);
    out
}

/// The characters of `v` with white-space runs collapsed to one space.
fn collapse_ws_chars(v: &Vec<char>) -> (r: Vec<char>)
    ensures
        r@ == collapse_ws(v@),
{
    let n = v.len();
    let mut out: Vec<char> = Vec::new();
    let mut prev_ws = false;
    let mut i: usize = 0;
    assert(v@.take(0) =~= Seq::<char>::empty());
    while i < n
        invariant
            i <= n == v.len(),
            out@ == collapse_ws(v@.take(i as int)),
            prev_ws == (i > 0 && unicode_white_space(v@[i - 1])),
        decreases n - i,
    {
        let c = v[i];
        let ghost t = v@.take(i + 1);
        assert(t.drop_last() =~= v@.take(i as int));
        assert(t.last() == c);
        assert(i > 0 ==> t[t.len() - 2] == v@[i - 1]);
        if is_whitespace(c) {
            if !prev_ws {
                out.push(' ');
            }
            prev_ws = true;
        } else {
            out.push(c);
            prev_ws = false;
        }
        i += 1;
    }
    assert(v@.take(n as int) =~= v@);
    out
}

/// Strips CJK ideographs (and an ASCII parenthesis just before or just after
/// each run of them) from a string, collapses the white space left over to single spaces and trims
/// the ends.
pub fn strip_cjk(input: &str) -> (r: String)
    ensures
        r@ == strip_cjk_spec(input@),
        no_cjk(r@),
        ws_only_spaces(r@),
        no_adjacent_ws(r@),
        no_edge_ws(r@),
{
    proof {
        lemma_strip_cjk_shape(input@);
    }
    let chars = chars_of(input);
    let removed = remove_cjk_chars(&chars);
    let collapsed = collapse_ws_chars(&removed);
    let trimmed = trim_chars(&collapsed);
    string_of(&trimmed)
}

// ---------------------------------------------------------------------------
// Properties of stripped strings
// ---------------------------------------------------------------------------

/// `s` holds no CJK ideograph.
pub open spec fn no_cjk(s: Seq<char>) -> bool {
    forall|i: int| 0 <= i < s.len() ==> !is_cjk_char(#[trigger] s[i])
}

/// The only white space in `s` is the ordinary space.
pub open spec fn ws_only_spaces(s: Seq<char>) -> bool {
    forall|i: int| 0 <= i < s.len() && unicode_white_space(#[trigger] s[i]) ==> s[i] == ' '
}

/// No two neighbours in `s` are both white space.
pub open spec fn no_adjacent_ws(s: Seq<char>) -> bool {
    forall|i: int|
        0 <= i && i + 1 < s.len() ==> !(unicode_white_space(#[trigger] s[i]) && unicode_white_space(
            s[i + 1],
        ))
}

proof fn lemma_remove_cjk_no_cjk(s: Seq<char>)
    ensures
        no_cjk(remove_cjk(s)),
    decreases s.len(),
{
    lemma_cjk_match_len(s);
    if s.len() == 0 {
    } else if cjk_match_len(s) > 0 {
        lemma_remove_cjk_no_cjk(s.skip(cjk_match_len(s) as int));
    } else {
        lemma_remove_cjk_no_cjk(s.drop_first());
        let r = remove_cjk(s);
        assert forall|i: int| 0 <= i < r.len() implies !is_cjk_char(#[trigger] r[i]) by {
            if i > 0 {
                assert(r[i] == remove_cjk(s.drop_first())[i - 1]);
            }
        }
    }
}

proof fn lemma_remove_cjk_identity(s: Seq<char>)
    requires
        no_cjk(s),
    ensures
        remove_cjk(s) == s,
    decreases s.len(),
{
    if s.len() > 0 {
        let t = s.drop_first();
        assert(no_cjk(t)) by {
            assert forall|i: int| 0 <= i < t.len() implies !is_cjk_char(#[trigger] t[i]) by {
                assert(t[i] == s[i + 1]);
            }
        }
        let o: int = if s[0] == '(' {
            1
        } else {
            0
        };
        let u = s.skip(o);
        assert(u.len() > 0 ==> u[0] == s[o]);
        assert(cjk_run(u) == 0);
        assert(cjk_match_len(s) == 0);
        lemma_remove_cjk_identity(t);
        assert(seq![s[0]] + t =~= s);
    }
}

proof fn lemma_collapse_ws(s: Seq<char>)
    ensures
        collapse_ws(s).len() == 0 <==> s.len() == 0,
        collapse_ws(s).len() > 0 ==> (unicode_white_space(collapse_ws(s).last()) <==> (
        unicode_white_space(s.last()) && unicode_white_space(' '))),
        no_adjacent_ws(collapse_ws(s)),
        ws_only_spaces(collapse_ws(s)),
        forall|i: int|
            0 <= i < collapse_ws(s).len() ==> #[trigger] collapse_ws(s)[i] == ' ' || s.contains(
                collapse_ws(s)[i],
            ),
    decreases s.len(),
{
    if s.len() > 0 {
        let init = s.drop_last();
        lemma_collapse_ws(init);
        let p = collapse_ws(init);
        let r = collapse_ws(s);
        assert forall|c: char| init.contains(c) implies s.contains(c) by {
            let k = choose|k: int| 0 <= k < init.len() && init[k] == c;
            assert(s[k] == c);
        }
        assert(s.contains(s.last())) by {
            assert(s[s.len() - 1] == s.last());
        }
        if unicode_white_space(s.last()) && s.len() >= 2 && unicode_white_space(s[s.len() - 2]) {
            assert(init.last() == s[s.len() - 2]);
        } else {
            assert forall|i: int| 0 <= i < r.len() - 1 implies r[i] == p[i] by {}
            if s.len() >= 2 {
                assert(init.last() == s[s.len() - 2]);
            }
        }
    }
}

proof fn lemma_collapse_identity(s: Seq<char>)
    requires
        ws_only_spaces(s),
        no_adjacent_ws(s),
    ensures
        collapse_ws(s) == s,
    decreases s.len(),
{
    if s.len() > 0 {
        let init = s.drop_last();
        assert(ws_only_spaces(init)) by {
            assert forall|i: int|
                0 <= i < init.len() && unicode_white_space(#[trigger] init[i]) implies init[i]
                == ' ' by {
                assert(init[i] == s[i]);
            }
        }
        assert(no_adjacent_ws(init)) by {
            assert forall|i: int| 0 <= i && i + 1 < init.len() implies !(unicode_white_space(
                #[trigger] init[i],
            ) && unicode_white_space(init[i + 1])) by {
                assert(init[i] == s[i] && init[i + 1] == s[i + 1]);
            }
        }
        lemma_collapse_identity(init);
        if unicode_white_space(s.last()) {
            assert(s.last() == s[s.len() - 1]);
            if s.len() >= 2 {
                assert(!unicode_white_space(s[s.len() - 2]));
            }
        }
        assert(init.push(s.last()) =~= s);
    }
}

/// Properties that survive taking a contiguous piece.
proof fn lemma_piece_keeps(s: Seq<char>, a: int, b: int)
    requires
        0 <= a <= b <= s.len(),
    ensures
        no_cjk(s) ==> no_cjk(s.subrange(a, b)),
        ws_only_spaces(s) ==> ws_only_spaces(s.subrange(a, b)),
        no_adjacent_ws(s) ==> no_adjacent_ws(s.subrange(a, b)),
{
    let t = s.subrange(a, b);
    assert forall|i: int| 0 <= i < t.len() implies t[i] == s[a + i] by {}
    if no_adjacent_ws(s) {
        assert forall|i: int| 0 <= i && i + 1 < t.len() implies !(unicode_white_space(
            #[trigger] t[i],
        ) && unicode_white_space(t[i + 1])) by {
            assert(t[i] == s[a + i] && t[i + 1] == s[a + i + 1]);
        }
    }
}

/// The shape of every stripped string: no CJK ideograph, no white space but
/// single spaces between other characters, none at either end.
proof fn lemma_strip_cjk_shape(s: Seq<char>)
    ensures
        no_cjk(strip_cjk_spec(s)),
        ws_only_spaces(strip_cjk_spec(s)),
        no_adjacent_ws(strip_cjk_spec(s)),
        no_edge_ws(strip_cjk_spec(s)),
{
    let r1 = remove_cjk(s);
    lemma_remove_cjk_no_cjk(s);
    let r2 = collapse_ws(r1);
    lemma_collapse_ws(r1);
    assert(no_cjk(r2)) by {
        assert forall|i: int| 0 <= i < r2.len() implies !is_cjk_char(#[trigger] r2[i]) by {
            if r2[i] != ' ' {
                let k = choose|k: int| 0 <= k < r1.len() && r1[k] == r2[i];
                assert(!is_cjk_char(r1[k]));
            }
        }
    }
    lemma_trim(r2);
    let (a, b) = choose|a: int, b: int| 0 <= a <= b <= r2.len() && trim(r2) == r2.subrange(a, b);
    lemma_piece_keeps(r2, a, b);
}

/// Stripping is idempotent: a stripped string is left as it is.
pub proof fn lemma_strip_cjk_idempotent(s: Seq<char>)
    ensures
        strip_cjk_spec(strip_cjk_spec(s)) == strip_cjk_spec(s),
{
    let r = strip_cjk_spec(s);
    lemma_strip_cjk_shape(s);
    lemma_remove_cjk_identity(r);
    lemma_collapse_identity(r);
    lemma_trim(r);
}

/// A string without CJK ideographs keeps all its characters, parentheses
/// included; only its white space is collapsed and trimmed.
pub proof fn lemma_strip_cjk_without_cjk(s: Seq<char>)
    requires
        no_cjk(s),
    ensures
        strip_cjk_spec(s) == trim(collapse_ws(s)),
{
    lemma_remove_cjk_identity(s);
}

/// Appending a character to a string appends it to the string's
/// trimmed-start form, unless both are white space only.
proof fn lemma_trim_start_push(x: Seq<char>, d: char)
    ensures
        trim_start(x.push(d)) == if trim_start(x).len() == 0 && unicode_white_space(d) {
            Seq::<char>::empty()
        } else {
            trim_start(x).push(d)
        },
    decreases x.len(),
{
    if x.len() == 0 {
        let e = Seq::<char>::empty();
        assert(x.push(d).drop_first() =~= e);
        assert(trim_start(e) == e);
        assert(x =~= e);
        assert(x.push(d)[0] == d);
    } else {
        assert(x.push(d)[0] == x[0]);
        if unicode_white_space(x[0]) {
            assert(x.push(d).drop_first() =~= x.drop_first().push(d));
            lemma_trim_start_push(x.drop_first(), d);
        }
    }
}

/// What `ws_words` keeps: each word ends with a character that is not white
/// space, and a string ending in such a character has a word.
proof fn lemma_ws_words_last(s: Seq<char>)
    ensures
        ws_words(s).len() > 0 ==> ws_words(s).last().len() > 0 && !unicode_white_space(
            ws_words(s).last().last(),
        ),
        s.len() > 0 && !unicode_white_space(s.last()) ==> ws_words(s).len() > 0,
        s.len() == 0 ==> ws_words(s).len() == 0,
    decreases s.len(),
{
    if s.len() > 0 {
        lemma_ws_words_last(s.drop_last());
        if s.len() >= 2 {
            assert(s.drop_last().last() == s[s.len() - 2]);
        }
    }
}

/// The start-trimmed, collapsed form of `s` is its words joined by spaces,
/// with one more space where `s` ends in white space after a word.
proof fn lemma_collapse_words(s: Seq<char>)
    ensures
        trim_start(collapse_ws(s)) == if ws_words(s).len() == 0 {
            Seq::<char>::empty()
        } else if unicode_white_space(s.last()) {
            join_spaced(ws_words(s)).push(' ')
        } else {
            join_spaced(ws_words(s))
        },
    decreases s.len(),
{
    lemma_ws_words_last(s);
    if s.len() > 0 {
        let p = s.drop_last();
        let c = s.last();
        let w = ws_words(p);
        lemma_collapse_words(p);
        lemma_ws_words_last(p);
        if p.len() > 0 {
            assert(p.last() == s[s.len() - 2]);
        }
        lemma_trim_start_push(collapse_ws(p), c);
        lemma_trim_start_push(collapse_ws(p), ' ');
        if !unicode_white_space(c) {
            if p.len() > 0 && !unicode_white_space(p.last()) {
                let nw = w.drop_last().push(w.last().push(c));
                if w.len() >= 2 {
                    assert(nw.drop_last() =~= w.drop_last());
                    assert(join_spaced(nw) =~= join_spaced(w).push(c));
                } else {
                    assert(join_spaced(nw) =~= join_spaced(w).push(c));
                }
            } else if w.len() > 0 {
                let nw = w.push(seq![c]);
                assert(nw.drop_last() =~= w);
                assert(join_spaced(nw) =~= join_spaced(w).push(' ').push(c));
            } else {
                assert(join_spaced(w.push(seq![c])) =~= seq![c]);
                assert(Seq::<char>::empty().push(c) =~= seq![c]);
            }
        }
    }
}

/// Joined words end with a character that is not white space.
proof fn lemma_join_words_end(s: Seq<char>)
    ensures
        ws_words(s).len() > 0 ==> join_spaced(ws_words(s)).len() > 0 && !unicode_white_space(
            join_spaced(ws_words(s)).last(),
        ),
{
    lemma_ws_words_last(s);
    let w = ws_words(s);
    if w.len() >= 2 {
        let j = join_spaced(w);
        assert(j.last() == w.last().last());
    }
}

/// A string without CJK ideographs strips to its white-space separated words
/// joined by single spaces (`split_whitespace` then `join(" ")`).
pub proof fn lemma_strip_cjk_words(s: Seq<char>)
    requires
        no_cjk(s),
    ensures
        strip_cjk_spec(s) == join_spaced(ws_words(s)),
{
    lemma_remove_cjk_identity(s);
    lemma_collapse_words(s);
    lemma_join_words_end(s);
    let w = ws_words(s);
    if w.len() > 0 {
        let j = join_spaced(w);
        lemma_trim_end(j);
        if unicode_white_space(s.last()) {
            assert(j.push(' ').drop_last() =~= j);
        }
    }
}

// ---------------------------------------------------------------------------
// Stripping component descriptions
// ---------------------------------------------------------------------------

/// `new` is `old` with its human-visible fields stripped.
pub open spec fn symbol_info_stripped(new: EeSymbolInfo, old: EeSymbolInfo) -> bool {
    &&& new.name@ == strip_cjk_spec(old.name@)
    &&& new.manufacturer@ == strip_cjk_spec(old.manufacturer@)
    &&& new.mpn@ == strip_cjk_spec(old.mpn@)
    &&& new.description@ == strip_cjk_spec(old.description@)
    &&& new.keywords@ == strip_cjk_spec(old.keywords@)
    &&& new.package@ == strip_cjk_spec(old.package@)
    &&& new.prefix == old.prefix
    &&& new.datasheet == old.datasheet
    &&& new.lcsc_id == old.lcsc_id
}

/// `new` is `old` with its human-visible fields stripped.
pub open spec fn footprint_info_stripped(new: EeFootprintInfo, old: EeFootprintInfo) -> bool {
    &&& new.name@ == strip_cjk_spec(old.name@)
    &&& new.manufacturer@ == strip_cjk_spec(old.manufacturer@)
    &&& new.mpn@ == strip_cjk_spec(old.mpn@)
    &&& new.description@ == strip_cjk_spec(old.description@)
    &&& new.fp_type == old.fp_type
    &&& new.model_3d_uuid == old.model_3d_uuid
    &&& new.lcsc_id == old.lcsc_id
}

/// Stripping a symbol's description a second time changes nothing.
pub proof fn lemma_strip_symbol_info_idempotent(a: EeSymbolInfo, b: EeSymbolInfo, c: EeSymbolInfo)
    requires
        symbol_info_stripped(b, a),
        symbol_info_stripped(c, b),
    ensures
        c.name@ == b.name@,
        c.manufacturer@ == b.manufacturer@,
        c.mpn@ == b.mpn@,
        c.description@ == b.description@,
        c.keywords@ == b.keywords@,
        c.package@ == b.package@,
        c.prefix == b.prefix,
        c.datasheet == b.datasheet,
        c.lcsc_id == b.lcsc_id,
{
    lemma_strip_cjk_idempotent(a.name@);
    lemma_strip_cjk_idempotent(a.manufacturer@);
    lemma_strip_cjk_idempotent(a.mpn@);
    lemma_strip_cjk_idempotent(a.description@);
    lemma_strip_cjk_idempotent(a.keywords@);
    lemma_strip_cjk_idempotent(a.package@);
}

/// Strips the name, manufacturer, part number, description, keywords and
/// package of a symbol's description.
pub fn strip_chinese_symbol_info(info: &mut EeSymbolInfo)
    ensures
        symbol_info_stripped(*final(info), *old(info)),
{
    info.name = strip_cjk(info.name.as_str());
    info.manufacturer = strip_cjk(info.manufacturer.as_str());
    info.mpn = strip_cjk(info.mpn.as_str());
    info.description = strip_cjk(info.description.as_str());
    info.keywords = strip_cjk(info.keywords.as_str());
    info.package = strip_cjk(info.package.as_str());
}

/// Strips the description of a symbol and of each of its further units;
/// geometry is left as it is.
pub fn strip_chinese_symbol<G>(ee: &mut EeSymbol<G>)
    ensures
        symbol_info_stripped(final(ee).info, old(ee).info),
        final(ee).geometry == old(ee).geometry,
        final(ee).sub_symbols@.len() == old(ee).sub_symbols@.len(),
        forall|i: int|
            0 <= i < old(ee).sub_symbols@.len() ==> {
                let n = #[trigger] final(ee).sub_symbols@[i];
                let o = old(ee).sub_symbols@[i];
                &&& symbol_info_stripped(n.info, o.info)
                &&& n.geometry == o.geometry
                &&& n.sub_symbols == o.sub_symbols
            },
{
    strip_chinese_symbol_info(&mut ee.info);
    let mut rest: Vec<EeSymbol<G>> = Vec::new();
    std::mem::swap(&mut rest, &mut ee.sub_symbols);
    let ghost orig = rest@;
    let n = rest.len();
    let mut done: Vec<EeSymbol<G>> = Vec::new();
    let mut i: usize = 0;
    while i < n
        invariant
            i <= n == orig.len(),
            rest@ == orig.skip(i as int),
            done@.len() == i,
            forall|j: int|
                0 <= j < i ==> {
                    let a = #[trigger] done@[j];
                    let o = orig[j];
                    &&& symbol_info_stripped(a.info, o.info)
                    &&& a.geometry == o.geometry
                    &&& a.sub_symbols == o.sub_symbols
                },
        decreases n - i,
    {
        let mut sub = rest.remove(0);
        assert(orig.skip(i as int)[0] == orig[i as int]);
        assert(orig.skip(i as int).remove(0) =~= orig.skip(i + 1));
        strip_chinese_symbol_info(&mut sub.info);
        done.push(sub);
        i += 1;
    }
    ee.sub_symbols = done;
}

/// Strips the name, manufacturer, part number and description of a
/// footprint; geometry is left as it is.
pub fn strip_chinese_footprint<G>(fp: &mut EeFootprint<G>)
    ensures
        footprint_info_stripped(final(fp).info, old(fp).info),
        final(fp).geometry == old(fp).geometry,
{
    fp.info.name = strip_cjk(fp.info.name.as_str());
    fp.info.manufacturer = strip_cjk(fp.info.manufacturer.as_str());
    fp.info.mpn = strip_cjk(fp.info.mpn.as_str());
    fp.info.description = strip_cjk(fp.info.description.as_str());
}

} // verus!
