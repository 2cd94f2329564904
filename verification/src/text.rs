//! Character-level string utilities shared by the parsers.
//!
//! Every operation works on the `Seq<char>` view of a string; the spec
//! functions here are the vocabulary that the other modules' contracts use.

use vstd::prelude::*;

verus! {

broadcast use vstd::string::group_string_axioms;

// ---------------------------------------------------------------------------
// Conversions between `str`, `String` and `Vec<char>`
// ---------------------------------------------------------------------------

/// The characters of `s`, in order.
pub fn chars_of(s: &str) -> (r: Vec<char>)
    ensures
        r@ == s@,
{
    let mut out: Vec<char> = Vec::new();
    for c in it: s.chars()
        invariant
            it.seq() == s@,
            out@ == it.seq().take(it.index() as int),
    {
        out.push(c);
    }
    out
}

/// Appends one character to a string (`String::push`).
#[verifier::external_body]
fn push_char(s: &mut String, c: char)
    ensures
        final(s)@ == old(s)@.push(c),
{
    s.push(c);
}

/// A string holding exactly the given characters.
pub fn string_of(v: &Vec<char>) -> (r: String)
    ensures
        r@ == v@,
{
    let mut out = String::new();
    let mut i: usize = 0;
    while i < v.len()
        invariant
            i <= v.len(),
            out@ == v@.take(i as int),
        decreases v.len() - i,
    {
        push_char(&mut out, v[i]);
        assert(v@.take(i as int).push(v@[i as int]) =~= v@.take(i + 1));
        i += 1;
    }
    assert(v@.take(v.len() as int) =~= v@);
    out
}

/// The characters `v[from..to]`.
pub fn subvec(v: &Vec<char>, from: usize, to: usize) -> (r: Vec<char>)
    requires
        from <= to <= v.len(),
    ensures
        r@ == v@.subrange(from as int, to as int),
{
    let mut out: Vec<char> = Vec::new();
    let mut i: usize = from;
    while i < to
        invariant
            from <= i <= to <= v.len(),
            out@ == v@.subrange(from as int, i as int),
        decreases to - i,
    {
        out.push(v[i]);
        assert(v@.subrange(from as int, i as int).push(v@[i as int]) =~= v@.subrange(
            from as int,
            i + 1,
        ));
        i += 1;
    }
    out
}

/// The one-character sequence `c`.
pub fn single(c: char) -> (r: Vec<char>)
    ensures
        r@ == seq![c],
{
    let mut v: Vec<char> = Vec::new();
    v.push(c);
    v
}

/// A one-character sequence is determined by its character.
pub proof fn lemma_seq1(d: Seq<char>, c: char)
    ensures
        d == seq![c] <==> (d.len() == 1 && d[0] == c),
{
    if d.len() == 1 && d[0] == c {
        assert(d =~= seq![c]);
    }
}

/// A two-character sequence is determined by its characters.
pub proof fn lemma_seq2(d: Seq<char>, a: char, b: char)
    ensures
        d == seq![a, b] <==> (d.len() == 2 && d[0] == a && d[1] == b),
{
    if d.len() == 2 && d[0] == a && d[1] == b {
        assert(d =~= seq![a, b]);
    }
}

/// Whether two character sequences are equal.
pub fn chars_eq(a: &Vec<char>, b: &Vec<char>) -> (r: bool)
    ensures
        r == (a@ == b@),
{
    if a.len() != b.len() {
        return false;
    }
    let mut i: usize = 0;
    while i < a.len()
        invariant
            a.len() == b.len(),
            i <= a.len(),
            forall|j: int| 0 <= j < i ==> a@[j] == b@[j],
        decreases a.len() - i,
    {
        if a[i] != b[i] {
            return false;
        }
        i += 1;
    }
    assert(a@ =~= b@);
    true
}

// ---------------------------------------------------------------------------
// White space and trimming
// ---------------------------------------------------------------------------

/// Whether `c` has the Unicode `White_Space` property: the ASCII tab, line
/// feed, vertical tab, form feed, carriage return and space, the next line
/// and no-break space, the Ogham space mark, the spaces from en quad to hair
/// space, the line and paragraph separators, the narrow no-break space, the
/// medium mathematical space and the ideographic space.
pub open spec fn unicode_white_space(c: char) -> bool {
    let u = c as u32;
    ||| 0x09 <= u <= 0x0D
    ||| u == 0x20
    ||| u == 0x85
    ||| u == 0xA0
    ||| u == 0x1680
    ||| 0x2000 <= u <= 0x200A
    ||| u == 0x2028
    ||| u == 0x2029
    ||| u == 0x202F
    ||| u == 0x205F
    ||| u == 0x3000
}

/// Whether `c` is white space (`char::is_whitespace`).
pub fn is_whitespace(c: char) -> (r: bool)
    ensures
        r == unicode_white_space(c),
{
    let u = c as u32;
    (0x09 <= u && u <= 0x0D) || u == 0x20 || u == 0x85 || u == 0xA0 || u == 0x1680 || (0x2000
        <= u && u <= 0x200A) || u == 0x2028 || u == 0x2029 || u == 0x202F || u == 0x205F || u
        == 0x3000
}

/// `s` without its leading white space.
pub open spec fn trim_start(s: Seq<char>) -> Seq<char>
    decreases s.len(),
{
    if s.len() > 0 && unicode_white_space(s[0]) {
        trim_start(s.drop_first())
    } else {
        s
    }
}

/// `s` without its trailing white space.
pub open spec fn trim_end(s: Seq<char>) -> Seq<char>
    decreases s.len(),
{
    if s.len() > 0 && unicode_white_space(s.last()) {
        trim_end(s.drop_last())
    } else {
        s
    }
}

/// `s` without leading and trailing white space (`str::trim`).
pub open spec fn trim(s: Seq<char>) -> Seq<char> {
    trim_end(trim_start(s))
}

/// `s` neither starts nor ends with white space.
pub open spec fn no_edge_ws(s: Seq<char>) -> bool {
    s.len() > 0 ==> !unicode_white_space(s[0]) && !unicode_white_space(s.last())
}

pub proof fn lemma_trim_start(s: Seq<char>)
    ensures
        exists|a: int| 0 <= a <= s.len() && trim_start(s) == s.skip(a),
        trim_start(s).len() > 0 ==> !unicode_white_space(trim_start(s)[0]),
        s.len() > 0 && !unicode_white_space(s[0]) ==> trim_start(s) == s,
    decreases s.len(),
{
    if s.len() > 0 && unicode_white_space(s[0]) {
        lemma_trim_start(s.drop_first());
        let a = choose|a: int|
            0 <= a <= s.drop_first().len() && trim_start(s.drop_first()) == s.drop_first().skip(
                a,
            );
        assert(s.drop_first().skip(a) =~= s.skip(a + 1));
    } else {
        assert(s.skip(0) =~= s);
    }
}

pub proof fn lemma_trim_end(s: Seq<char>)
    ensures
        exists|b: int| 0 <= b <= s.len() && trim_end(s) == s.take(b),
        trim_end(s).len() > 0 ==> !unicode_white_space(trim_end(s).last()),
        s.len() > 0 && !unicode_white_space(s.last()) ==> trim_end(s) == s,
    decreases s.len(),
{
    if s.len() > 0 && unicode_white_space(s.last()) {
        lemma_trim_end(s.drop_last());
        let b = choose|b: int|
            0 <= b <= s.drop_last().len() && trim_end(s.drop_last()) == s.drop_last().take(b);
        assert(s.drop_last().take(b) =~= s.take(b));
    } else {
        assert(s.take(s.len() as int) =~= s);
    }
}

/// `trim(s)` is a contiguous piece of `s` without white space at its ends,
/// and `s` itself where `s` has no white space at its ends.
pub proof fn lemma_trim(s: Seq<char>)
    ensures
        exists|a: int, b: int| 0 <= a <= b <= s.len() && trim(s) == s.subrange(a, b),
        no_edge_ws(trim(s)),
        no_edge_ws(s) ==> trim(s) == s,
{
    lemma_trim_start(s);
    let t = trim_start(s);
    lemma_trim_end(t);
    let a = choose|a: int| 0 <= a <= s.len() && t == s.skip(a);
    let b = choose|b: int| 0 <= b <= t.len() && trim_end(t) == t.take(b);
    assert(t.take(b) =~= s.subrange(a, a + b));
    if trim(s).len() > 0 {
        assert(trim(s)[0] == t[0]);
    }
    if no_edge_ws(s) && s.len() > 0 {
        assert(t == s);
    }
}

/// The trimmed copy of `v`.
pub fn trim_chars(v: &Vec<char>) -> (r: Vec<char>)
    ensures
        r@ == trim(v@),
{
    let n = v.len();
    let mut a: usize = 0;
    assert(v@.subrange(0, n as int) =~= v@);
    while a < n
        invariant
            a <= n == v.len(),
            trim_start(v@) == trim_start(v@.subrange(a as int, n as int)),
        ensures
            a <= n == v.len(),
            trim_start(v@) == trim_start(v@.subrange(a as int, n as int)),
            a < n ==> !unicode_white_space(v@[a as int]),
        decreases n - a,
    {
        if !is_whitespace(v[a]) {
            break;
        }
        assert(v@.subrange(a as int, n as int).drop_first() =~= v@.subrange(a + 1, n as int));
        a += 1;
    }
    assert(v@.subrange(a as int, n as int).len() > 0 ==> v@.subrange(a as int, n as int)[0]
        == v@[a as int]);
    assert(trim_start(v@) == v@.subrange(a as int, n as int));
    let mut b: usize = n;
    while b > a
        invariant
            a <= b <= n == v.len(),
            trim_start(v@) == v@.subrange(a as int, n as int),
            trim(v@) == trim_end(v@.subrange(a as int, b as int)),
        ensures
            a <= b <= n == v.len(),
            trim(v@) == trim_end(v@.subrange(a as int, b as int)),
            b > a ==> !unicode_white_space(v@[b - 1]),
        decreases b - a,
    {
        if !is_whitespace(v[b - 1]) {
            break;
        }
        assert(v@.subrange(a as int, b as int).drop_last() =~= v@.subrange(a as int, b - 1));
        b -= 1;
    }
    assert(v@.subrange(a as int, b as int).len() > 0 ==> v@.subrange(a as int, b as int).last()
        == v@[b - 1]);
    subvec(v, a, b)
}

// ---------------------------------------------------------------------------
// Splitting
// ---------------------------------------------------------------------------

/// The character views of a list of character vectors.
pub open spec fn views(v: Seq<Vec<char>>) -> Seq<Seq<char>> {
    v.map_values(|x: Vec<char>| x@)
}

/// The pieces of `s` between occurrences of `sep` (`str::split` with a
/// `char` pattern): there is always one more piece than separators.
pub open spec fn split_on(s: Seq<char>, sep: char) -> Seq<Seq<char>>
    decreases s.len(),
{
    if s.len() == 0 {
        seq![Seq::<char>::empty()]
    } else {
        let init = split_on(s.drop_last(), sep);
        if s.last() == sep {
            init.push(Seq::<char>::empty())
        } else {
            init.update(init.len() - 1, init.last().push(s.last()))
        }
    }
}

/// The pieces `fields` joined with `sep` between each two of them
/// (`[&str]::join` with a one-character separator).
pub open spec fn join_on(fields: Seq<Seq<char>>, sep: char) -> Seq<char>
    decreases fields.len(),
{
    if fields.len() == 0 {
        Seq::empty()
    } else if fields.len() == 1 {
        fields[0]
    } else {
        join_on(fields.drop_last(), sep) + seq![sep] + fields.last()
    }
}

/// None of `fields` holds `sep`.
pub open spec fn free_of(fields: Seq<Seq<char>>, sep: char) -> bool {
    forall|i: int| 0 <= i < fields.len() ==> !(#[trigger] fields[i]).contains(sep)
}

/// Appending a piece without `sep` extends the last piece of the split.
proof fn lemma_split_on_append(x: Seq<char>, b: Seq<char>, sep: char)
    requires
        !b.contains(sep),
    ensures
        split_on(x + b, sep) == split_on(x, sep).update(
            split_on(x, sep).len() - 1,
            split_on(x, sep).last() + b,
        ),
    decreases b.len(),
{
    lemma_split_on_nonempty(x, sep);
    let sx = split_on(x, sep);
    if b.len() == 0 {
        assert(x + b =~= x);
        assert(sx.last() + b =~= sx.last());
        assert(sx.update(sx.len() - 1, sx.last()) =~= sx);
    } else {
        let b1 = b.drop_last();
        assert(!b1.contains(sep)) by {
            if b1.contains(sep) {
                let k = choose|k: int| 0 <= k < b1.len() && b1[k] == sep;
                assert(b[k] == sep);
            }
        }
        assert(b.contains(b.last())) by {
            assert(b[b.len() - 1] == b.last());
        }
        lemma_split_on_append(x, b1, sep);
        assert((x + b).drop_last() =~= x + b1);
        assert((x + b).last() == b.last());
        assert((sx.last() + b1).push(b.last()) =~= sx.last() + b);
        assert(sx.update(sx.len() - 1, sx.last() + b1).update(
            sx.len() - 1,
            (sx.last() + b1).push(b.last()),
        ) =~= sx.update(sx.len() - 1, sx.last() + b));
    }
}

/// Splitting fields that were joined with a separator none of them holds
/// gives the fields back.
pub proof fn lemma_split_join(fields: Seq<Seq<char>>, sep: char)
    requires
        fields.len() >= 1,
        free_of(fields, sep),
    ensures
        split_on(join_on(fields, sep), sep) == fields,
    decreases fields.len(),
{
    let e = Seq::<char>::empty();
    if fields.len() == 1 {
        assert(!fields[0].contains(sep));
        lemma_split_on_append(e, fields[0], sep);
        assert(e + fields[0] =~= fields[0]);
        assert(split_on(e, sep) =~= seq![e]);
        assert(e + fields[0] =~= fields[0]);
        assert(seq![e].update(0, e + fields[0]) =~= fields);
    } else {
        let init = fields.drop_last();
        assert(free_of(init, sep)) by {
            assert forall|i: int| 0 <= i < init.len() implies !(#[trigger] init[i]).contains(
                sep,
            ) by {
                assert(init[i] == fields[i]);
            }
        }
        lemma_split_join(init, sep);
        let a = join_on(init, sep) + seq![sep];
        assert(a.drop_last() =~= join_on(init, sep));
        assert(a.last() == sep);
        assert(split_on(a, sep) == init.push(e));
        assert(!fields.last().contains(sep)) by {
            assert(fields.last() == fields[fields.len() - 1]);
        }
        lemma_split_on_append(a, fields.last(), sep);
        assert(e + fields.last() =~= fields.last());
        assert(init.push(e).update(init.len() as int, e + fields.last()) =~= fields);
    }
}

/// `split_on` never yields an empty list.
pub proof fn lemma_split_on_nonempty(s: Seq<char>, sep: char)
    ensures
        split_on(s, sep).len() >= 1,
    decreases s.len(),
{
    if s.len() > 0 {
        lemma_split_on_nonempty(s.drop_last(), sep);
    }
}

/// The pieces of `v` between occurrences of `sep`.
pub fn split_char(v: &Vec<char>, sep: char) -> (r: Vec<Vec<char>>)
    ensures
        views(r@) == split_on(v@, sep),
{
    let mut pieces: Vec<Vec<char>> = Vec::new();
    let mut cur: Vec<char> = Vec::new();
    let n = v.len();
    let mut i: usize = 0;
    assert(v@.take(0) =~= Seq::<char>::empty());
    assert(views(pieces@).push(cur@) =~= seq![Seq::<char>::empty()]);
    while i < n
        invariant
            i <= n == v.len(),
            views(pieces@).push(cur@) == split_on(v@.take(i as int), sep),
        decreases n - i,
    {
        let ghost before = views(pieces@);
        let ghost cur_before = cur@;
        assert(v@.take(i + 1).drop_last() =~= v@.take(i as int));
        assert(v@.take(i + 1).last() == v@[i as int]);
        if v[i] == sep {
            pieces.push(cur);
            cur = Vec::new();
            assert(views(pieces@) =~= before.push(cur_before));
            assert(views(pieces@).push(cur@) =~= before.push(cur_before).push(
                Seq::<char>::empty(),
            ));
        } else {
            cur.push(v[i]);
            assert(views(pieces@).push(cur@) =~= before.push(cur_before).update(
                before.len() as int,
                cur_before.push(v@[i as int]),
            ));
        }
        i += 1;
    }
    assert(v@.take(n as int) =~= v@);
    let ghost before = views(pieces@);
    let ghost cur_before = cur@;
    pieces.push(cur);
    assert(views(pieces@) =~= before.push(cur_before));
    pieces
}

/// The pieces of `s` between non-overlapping occurrences of the two-character
/// separator `c c`, matched from the left (`str::split` with the pattern
/// `"cc"`).
pub open spec fn split_on_pair(s: Seq<char>, c: char) -> Seq<Seq<char>>
    decreases s.len(),
{
    if s.len() < 2 {
        seq![s]
    } else if s[0] == c && s[1] == c {
        seq![Seq::<char>::empty()] + split_on_pair(s.skip(2), c)
    } else {
        let rest = split_on_pair(s.drop_first(), c);
        rest.update(0, seq![s[0]] + rest[0])
    }
}

/// A string without `c` is a single piece when split on `c c`.
pub proof fn lemma_split_on_pair_without(s: Seq<char>, c: char)
    requires
        !s.contains(c),
    ensures
        split_on_pair(s, c) == seq![s],
    decreases s.len(),
{
    if s.len() >= 2 {
        let t = s.drop_first();
        assert(s[0] != c) by {
            if s[0] == c {
                assert(s.contains(c));
            }
        }
        assert(!t.contains(c)) by {
            if t.contains(c) {
                let k = choose|k: int| 0 <= k < t.len() && t[k] == c;
                assert(s[k + 1] == c);
            }
        }
        lemma_split_on_pair_without(t, c);
        assert(seq![s[0]] + t =~= s);
        assert(seq![t].update(0, seq![s[0]] + t) =~= seq![s]);
    }
}

/// Joining pieces without `c` on another separator gives a string without
/// `c`.
pub proof fn lemma_join_on_free(fields: Seq<Seq<char>>, sep: char, c: char)
    requires
        sep != c,
        free_of(fields, c),
    ensures
        !join_on(fields, sep).contains(c),
    decreases fields.len(),
{
    if fields.len() >= 2 {
        let init = fields.drop_last();
        assert(free_of(init, c)) by {
            assert forall|i: int| 0 <= i < init.len() implies !(#[trigger] init[i]).contains(c) by {
                assert(init[i] == fields[i]);
            }
        }
        lemma_join_on_free(init, sep, c);
        let j = join_on(fields, sep);
        let a = join_on(init, sep);
        let l = fields.last();
        assert(!l.contains(c)) by {
            assert(l == fields[fields.len() - 1]);
        }
        if j.contains(c) {
            let k = choose|k: int| 0 <= k < j.len() && j[k] == c;
            if k < a.len() {
                assert(j[k] == a[k]);
            } else if k > a.len() {
                assert(j[k] == l[k - a.len() - 1]);
            }
        }
    } else if fields.len() == 1 {
        assert(!fields[0].contains(c));
    }
}

/// The pieces `segs` joined with the two-character separator `c c`.
pub open spec fn join_on_pair(segs: Seq<Seq<char>>, c: char) -> Seq<char>
    decreases segs.len(),
{
    if segs.len() == 0 {
        Seq::empty()
    } else if segs.len() == 1 {
        segs[0]
    } else {
        segs[0] + seq![c, c] + join_on_pair(segs.drop_first(), c)
    }
}

/// A first piece without `c`, then `c c`, splits off as one piece.
proof fn lemma_split_on_pair_prefix(a: Seq<char>, b: Seq<char>, c: char)
    requires
        !a.contains(c),
    ensures
        split_on_pair(a + seq![c, c] + b, c) == seq![a] + split_on_pair(b, c),
    decreases a.len(),
{
    let s = a + seq![c, c] + b;
    if a.len() == 0 {
        assert(s[0] == c && s[1] == c);
        assert(s.skip(2) =~= b);
        assert(a =~= Seq::<char>::empty());
    } else {
        let t = a.drop_first();
        assert(s[0] == a[0]);
        assert(a[0] != c) by {
            if a[0] == c {
                assert(a.contains(c));
            }
        }
        assert(!t.contains(c)) by {
            if t.contains(c) {
                let k = choose|k: int| 0 <= k < t.len() && t[k] == c;
                assert(a[k + 1] == c);
            }
        }
        assert(s.drop_first() =~= t + seq![c, c] + b);
        lemma_split_on_pair_prefix(t, b, c);
        assert(seq![a[0]] + t =~= a);
        assert((seq![t] + split_on_pair(b, c)).update(0, seq![a[0]] + t) =~= seq![a]
            + split_on_pair(b, c));
    }
}

/// Splitting pieces joined with `c c`, none of which holds `c`, gives the
/// pieces back.
pub proof fn lemma_split_pair_join(segs: Seq<Seq<char>>, c: char)
    requires
        segs.len() >= 1,
        free_of(segs, c),
    ensures
        split_on_pair(join_on_pair(segs, c), c) == segs,
    decreases segs.len(),
{
    assert(!segs[0].contains(c));
    if segs.len() == 1 {
        lemma_split_on_pair_without(segs[0], c);
        assert(seq![segs[0]] =~= segs);
    } else {
        let rest = segs.drop_first();
        assert(free_of(rest, c)) by {
            assert forall|i: int| 0 <= i < rest.len() implies !(#[trigger] rest[i]).contains(c) by {
                assert(rest[i] == segs[i + 1]);
            }
        }
        lemma_split_pair_join(rest, c);
        lemma_split_on_pair_prefix(segs[0], join_on_pair(rest, c), c);
        assert(seq![segs[0]] + rest =~= segs);
    }
}

/// `split_on_pair` never yields an empty list.
pub proof fn lemma_split_on_pair_nonempty(s: Seq<char>, c: char)
    ensures
        split_on_pair(s, c).len() >= 1,
    decreases s.len(),
{
    if s.len() >= 2 {
        if s[0] == c && s[1] == c {
            lemma_split_on_pair_nonempty(s.skip(2), c);
        } else {
            lemma_split_on_pair_nonempty(s.drop_first(), c);
        }
    }
}

/// The result of splitting, given the pieces already closed (`done`), the
/// piece being built (`cur`) and the split of the rest of the input.
pub open spec fn join_split(
    done: Seq<Seq<char>>,
    cur: Seq<char>,
    rest: Seq<Seq<char>>,
) -> Seq<Seq<char>> {
    done + seq![cur + rest[0]] + rest.skip(1)
}

/// The pieces of `v` between non-overlapping occurrences of `c c`.
pub fn split_pair(v: &Vec<char>, c: char) -> (r: Vec<Vec<char>>)
    ensures
        views(r@) == split_on_pair(v@, c),
{
    let mut pieces: Vec<Vec<char>> = Vec::new();
    let mut cur: Vec<char> = Vec::new();
    let n = v.len();
    let mut i: usize = 0;
    proof {
        lemma_split_on_pair_nonempty(v@, c);
        assert(v@.skip(0) =~= v@);
        let rest = split_on_pair(v@, c);
        assert(join_split(Seq::empty(), Seq::empty(), rest) =~= rest);
    }
    while n - i > 1
        invariant
            i <= n == v.len(),
            split_on_pair(v@, c) == join_split(
                views(pieces@),
                cur@,
                split_on_pair(v@.skip(i as int), c),
            ),
        decreases n - i,
    {
        let ghost before = views(pieces@);
        let ghost cur_before = cur@;
        let ghost tail = v@.skip(i as int);
        assert(tail[0] == v@[i as int] && tail[1] == v@[i + 1]);
        if v[i] == c && v[i + 1] == c {
            assert(tail.skip(2) =~= v@.skip(i + 2));
            proof {
                lemma_split_on_pair_nonempty(v@.skip(i + 2), c);
            }
            pieces.push(cur);
            cur = Vec::new();
            proof {
                let r2 = split_on_pair(v@.skip(i + 2), c);
                assert(views(pieces@) =~= before.push(cur_before));
                assert(join_split(before, cur_before, seq![Seq::<char>::empty()] + r2)
                    =~= join_split(views(pieces@), cur@, r2));
            }
            i += 2;
        } else {
            assert(tail.drop_first() =~= v@.skip(i + 1));
            proof {
                lemma_split_on_pair_nonempty(v@.skip(i + 1), c);
            }
            cur.push(v[i]);
            proof {
                let r1 = split_on_pair(v@.skip(i + 1), c);
                assert(cur_before + (seq![v@[i as int]] + r1[0]) =~= cur@ + r1[0]);
                assert(join_split(before, cur_before, r1.update(0, seq![v@[i as int]] + r1[0]))
                    =~= join_split(before, cur@, r1));
            }
            i += 1;
        }
    }
    let ghost before = views(pieces@);
    let ghost cur_before = cur@;
    let ghost tail = v@.skip(i as int);
    if i < n {
        cur.push(v[i]);
        assert(tail =~= seq![v@[i as int]]);
    } else {
        assert(tail =~= Seq::<char>::empty());
    }
    assert(cur@ =~= cur_before + tail);
    pieces.push(cur);
    assert(views(pieces@) =~= before.push(cur_before + tail));
    assert(join_split(before, cur_before, seq![tail]) =~= before.push(cur_before + tail));
    pieces
}

/// The `i`-th element of `parts`, if there is one (`<[&str]>::get`).
pub open spec fn field(parts: Seq<Seq<char>>, i: int) -> Option<Seq<char>> {
    if 0 <= i < parts.len() {
        Some(parts[i])
    } else {
        None
    }
}

/// The `i`-th element of `parts`, or `default` where there is none.
pub open spec fn field_or(parts: Seq<Seq<char>>, i: int, default: Seq<char>) -> Seq<char> {
    if 0 <= i < parts.len() {
        parts[i]
    } else {
        default
    }
}

/// The view of an optional string.
pub open spec fn opt_view(o: Option<String>) -> Option<Seq<char>> {
    match o {
        Some(s) => Some(s@),
        None => None,
    }
}

/// The `i`-th piece as an owned string, if there is one.
pub fn at(parts: &Vec<Vec<char>>, i: usize) -> (r: Option<String>)
    ensures
        opt_view(r) == field(views(parts@), i as int),
{
    if i < parts.len() {
        Some(string_of(&parts[i]))
    } else {
        None
    }
}

/// The `i`-th piece as an owned string, or the empty string.
pub fn get_field_or_empty(parts: &Vec<Vec<char>>, i: usize) -> (r: String)
    ensures
        r@ == field_or(views(parts@), i as int, Seq::empty()),
{
    if i < parts.len() {
        string_of(&parts[i])
    } else {
        String::new()
    }
}

// ---------------------------------------------------------------------------
// Searching
// ---------------------------------------------------------------------------

/// The index of the first `c` in `s`, or `s.len()` where there is none.
pub open spec fn index_of(s: Seq<char>, c: char) -> int
    decreases s.len(),
{
    if s.len() == 0 {
        0
    } else if s[0] == c {
        0
    } else {
        1 + index_of(s.drop_first(), c)
    }
}

/// What `index_of` is: the first position holding `c`, or the length.
pub proof fn lemma_index_of(s: Seq<char>, c: char)
    ensures
        0 <= index_of(s, c) <= s.len(),
        index_of(s, c) < s.len() ==> s[index_of(s, c)] == c,
        forall|j: int| 0 <= j < index_of(s, c) ==> s[j] != c,
        s.contains(c) <==> index_of(s, c) < s.len(),
    decreases s.len(),
{
    if s.len() > 0 && s[0] != c {
        lemma_index_of(s.drop_first(), c);
        assert forall|j: int| 0 <= j < index_of(s, c) implies s[j] != c by {
            if j > 0 {
                assert(s[j] == s.drop_first()[j - 1]);
            }
        }
        if s.contains(c) {
            let k = choose|k: int| 0 <= k < s.len() && s[k] == c;
            assert(s.drop_first()[k - 1] == c);
        }
        if index_of(s, c) < s.len() {
            assert(s[index_of(s, c)] == s.drop_first()[index_of(s.drop_first(), c)]);
        }
    } else if s.len() > 0 {
        assert(s.contains(c));
    }
}

/// The position of the first `c` in `v` (`str::find` with a `char`).
pub fn find_char(v: &Vec<char>, c: char) -> (r: Option<usize>)
    ensures
        r == (if index_of(v@, c) < v@.len() {
            Some(index_of(v@, c) as usize)
        } else {
            None::<usize>
        }),
{
    let n = v.len();
    let mut i: usize = 0;
    assert(v@.skip(0) =~= v@);
    while i < n
        invariant
            i <= n == v.len(),
            index_of(v@, c) == i + index_of(v@.skip(i as int), c),
        decreases n - i,
    {
        assert(v@.skip(i as int)[0] == v@[i as int]);
        if v[i] == c {
            return Some(i);
        }
        assert(v@.skip(i as int).drop_first() =~= v@.skip(i + 1));
        i += 1;
    }
    proof {
        lemma_index_of(v@, c);
    }
    None
}

/// Whether `p` occurs in `s` as a contiguous piece.
pub open spec fn has_infix(s: Seq<char>, p: Seq<char>) -> bool {
    exists|i: int| 0 <= i && i + p.len() <= s.len() && #[trigger] s.subrange(i, i + p.len()) == p
}

/// Whether `p` occurs in `v` (`str::contains` with a string pattern).
pub fn contains_infix(v: &Vec<char>, p: &Vec<char>) -> (r: bool)
    ensures
        r == has_infix(v@, p@),
{
    if p.len() > v.len() {
        return false;
    }
    let last = v.len() - p.len();
    let mut i: usize = 0;
    while i <= last
        invariant
            last == v.len() - p.len(),
            p.len() <= v.len(),
            forall|j: int| 0 <= j < i ==> #[trigger] v@.subrange(j, j + p@.len()) != p@,
        ensures
            forall|j: int| 0 <= j <= last ==> #[trigger] v@.subrange(j, j + p@.len()) != p@,
        decreases last + 1 - i,
    {
        let piece = subvec(v, i, i + p.len());
        if chars_eq(&piece, p) {
            return true;
        }
        if i == last {
            break;
        }
        i += 1;
    }
    assert forall|j: int| 0 <= j && j + p@.len() <= v@.len() implies #[trigger] v@.subrange(
        j,
        j + p@.len(),
    ) != p@ by {
        assert(j <= last);
    }
    false
}

// ---------------------------------------------------------------------------
// ASCII case
// ---------------------------------------------------------------------------

/// `c` with an ASCII upper-case letter mapped to lower case.
pub open spec fn ascii_lower(c: char) -> char {
    if 'A' <= c && c <= 'Z' {
        ((c as u32) + 32) as char
    } else {
        c
    }
}

/// `char::to_ascii_lowercase`, whose whole behaviour is `ascii_lower`.
pub fn to_ascii_lower(c: char) -> (r: char)
    ensures
        r == ascii_lower(c),
{
    if 'A' <= c && c <= 'Z' {
        ((c as u8) + 32) as char
    } else {
        c
    }
}

/// `s` with ASCII upper-case letters mapped to lower case
/// (`str::to_ascii_lowercase`).
pub open spec fn lower_all(s: Seq<char>) -> Seq<char> {
    s.map_values(|c: char| ascii_lower(c))
}

/// The ASCII lower-case copy of `v`.
pub fn lower_chars(v: &Vec<char>) -> (r: Vec<char>)
    ensures
        r@ == lower_all(v@),
{
    let mut out: Vec<char> = Vec::new();
    let mut i: usize = 0;
    while i < v.len()
        invariant
            i <= v.len(),
            out@ =~= v@.take(i as int).map_values(|c: char| ascii_lower(c)),
        decreases v.len() - i,
    {
        out.push(to_ascii_lower(v[i]));
        i += 1;
    }
    assert(v@.take(v.len() as int) =~= v@);
    out
}

/// Whether `a` and `b` are equal up to ASCII case (`str::eq_ignore_ascii_case`).
pub open spec fn eq_ignore_ascii_case(a: Seq<char>, b: Seq<char>) -> bool {
    a.len() == b.len() && forall|i: int| 0 <= i < a.len() ==> ascii_lower(a[i]) == ascii_lower(
        b[i],
    )
}

/// Whether `a` and `b` are equal up to ASCII case.
pub fn chars_eq_ignore_ascii_case(a: &Vec<char>, b: &Vec<char>) -> (r: bool)
    ensures
        r == eq_ignore_ascii_case(a@, b@),
{
    if a.len() != b.len() {
        return false;
    }
    let mut i: usize = 0;
    while i < a.len()
        invariant
            a.len() == b.len(),
            i <= a.len(),
            forall|j: int| 0 <= j < i ==> ascii_lower(a@[j]) == ascii_lower(b@[j]),
        decreases a.len() - i,
    {
        if to_ascii_lower(a[i]) != to_ascii_lower(b[i]) {
            return false;
        }
        i += 1;
    }
    true
}

/// `c` in ASCII upper case: `a` to `z` become `A` to `Z`, everything else
/// is kept.
pub open spec fn ascii_upper(c: char) -> char {
    if 'a' <= c && c <= 'z' {
        ((c as u32) - 32) as char
    } else {
        c
    }
}

/// Every character of `s` is ASCII.
pub open spec fn all_ascii(s: Seq<char>) -> bool {
    forall|i: int| 0 <= i < s.len() ==> (#[trigger] s[i] as u32) < 128
}

/// `s` with each character in ASCII upper case.
pub open spec fn upper_all(s: Seq<char>) -> Seq<char> {
    s.map_values(|c: char| ascii_upper(c))
}

/// The Unicode upper-case mapping of `s`, as `str::to_uppercase` computes it.
pub uninterp spec fn unicode_uppercase(s: Seq<char>) -> Seq<char>;

/// `str::to_uppercase`: its documentation defines the result by the Unicode
/// `Uppercase` mapping of each character, which is named here, not spelled
/// out. On ASCII text that mapping is the ASCII one (the documentation of
/// `char::to_ascii_uppercase` points to `to_uppercase` for upper-casing
/// "ASCII characters in addition to non-ASCII characters"), which is stated.
#[verifier::external_body]
pub fn to_uppercase(s: &str) -> (r: String)
    ensures
        r@ == unicode_uppercase(s@),
        all_ascii(s@) ==> r@ == upper_all(s@),
{
    s.to_uppercase()
}

// ---------------------------------------------------------------------------
// Editing
// ---------------------------------------------------------------------------

/// `s` with every `c` removed (`str::replace(c, "")`).
pub open spec fn remove_all(s: Seq<char>, c: char) -> Seq<char>
    decreases s.len(),
{
    if s.len() == 0 {
        s
    } else if s.last() == c {
        remove_all(s.drop_last(), c)
    } else {
        remove_all(s.drop_last(), c).push(s.last())
    }
}

/// `remove_all(s, c)` holds no `c`.
pub proof fn lemma_remove_all_excludes(s: Seq<char>, c: char)
    ensures
        !remove_all(s, c).contains(c),
    decreases s.len(),
{
    if s.len() > 0 {
        lemma_remove_all_excludes(s.drop_last(), c);
        let p = remove_all(s.drop_last(), c);
        if s.last() != c {
            assert forall|i: int| 0 <= i < p.push(s.last()).len() implies p.push(s.last())[i]
                != c by {
                if i < p.len() {
                    assert(p.push(s.last())[i] == p[i]);
                }
            }
        }
    }
}

/// The copy of `v` without any `c`.
pub fn remove_char(v: &Vec<char>, c: char) -> (r: Vec<char>)
    ensures
        r@ == remove_all(v@, c),
{
    let mut out: Vec<char> = Vec::new();
    let mut i: usize = 0;
    assert(v@.take(0) =~= Seq::<char>::empty());
    while i < v.len()
        invariant
            i <= v.len(),
            out@ == remove_all(v@.take(i as int), c),
        decreases v.len() - i,
    {
        assert(v@.take(i + 1).drop_last() =~= v@.take(i as int));
        if v[i] != c {
            out.push(v[i]);
        }
        i += 1;
    }
    assert(v@.take(v.len() as int) =~= v@);
    out
}

/// `s` with every trailing `"pt"` removed (`str::trim_end_matches("pt")`).
pub open spec fn strip_pt(s: Seq<char>) -> Seq<char>
    decreases s.len(),
{
    if s.len() >= 2 && s[s.len() - 2] == 'p' && s[s.len() - 1] == 't' {
        strip_pt(s.subrange(0, s.len() - 2))
    } else {
        s
    }
}

/// The copy of `v` without its trailing `"pt"` suffixes.
pub fn strip_pt_chars(v: &Vec<char>) -> (r: Vec<char>)
    ensures
        r@ == strip_pt(v@),
{
    let mut e: usize = v.len();
    assert(v@.subrange(0, e as int) =~= v@);
    while e >= 2
        invariant
            e <= v.len(),
            strip_pt(v@) == strip_pt(v@.subrange(0, e as int)),
        ensures
            e <= v.len(),
            strip_pt(v@) == strip_pt(v@.subrange(0, e as int)),
            e >= 2 ==> !(v@[e - 2] == 'p' && v@[e - 1] == 't'),
        decreases e,
    {
        if !(v[e - 2] == 'p' && v[e - 1] == 't') {
            break;
        }
        assert(v@.subrange(0, e as int).subrange(0, e - 2) =~= v@.subrange(0, e - 2));
        e -= 2;
    }
    subvec(v, 0, e)
}

/// The white-space separated words of `s` (`str::split_whitespace`): each
/// character that is not white space extends the word of the character
/// before it, or starts a new word after white space or at the start.
pub open spec fn ws_words(s: Seq<char>) -> Seq<Seq<char>>
    decreases s.len(),
{
    if s.len() == 0 {
        Seq::empty()
    } else {
        let w = ws_words(s.drop_last());
        if unicode_white_space(s.last()) {
            w
        } else if s.len() >= 2 && !unicode_white_space(s[s.len() - 2]) {
            w.drop_last().push(w.last().push(s.last()))
        } else {
            w.push(seq![s.last()])
        }
    }
}

/// The pieces of `parts` joined by single spaces (`[&str]::join(" ")`).
pub open spec fn join_spaced(parts: Seq<Seq<char>>) -> Seq<char>
    decreases parts.len(),
{
    if parts.len() == 0 {
        Seq::empty()
    } else if parts.len() == 1 {
        parts[0]
    } else {
        join_spaced(parts.drop_last()) + seq![' '] + parts.last()
    }
}

} // verus!
