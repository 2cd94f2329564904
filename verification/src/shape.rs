//! Reading EasyEDA shape strings.
//!
//! A shape is a `~`-separated string whose first field names its kind; pins
//! are further divided into `^^`-separated segments. Reading a shape here
//! picks out its fields by position, decides its flags, and leaves the
//! numeric fields as text for the program to convert to coordinates.

use vstd::prelude::*;

use crate::text::{
    at, chars_eq, chars_of, field, field_or, free_of, get_field_or_empty, join_on, lemma_seq1,
    join_on_pair, lemma_join_on_free, lemma_seq2, lemma_split_join, lemma_split_on_pair_without,
    lemma_split_pair_join,
    lemma_split_on_nonempty, lemma_split_on_pair_nonempty, lower_all, lower_chars, opt_view,
    single, split_char, split_on, split_on_pair, split_pair, string_of, strip_pt,
    strip_pt_chars, trim, trim_chars, views,
};
use crate::types::EeSymbolArc;

verus! {

// ---------------------------------------------------------------------------
// Flags
// ---------------------------------------------------------------------------

/// Whether a flag word means "yes": after trimming and lowering ASCII case
/// it is one of `true`, `1`, `yes`, `on`, `show`, `y`, `t`.
pub open spec fn truthy_word(w: Seq<char>) -> bool {
    ||| w == seq!['t', 'r', 'u', 'e']
    ||| w == seq!['1']
    ||| w == seq!['y', 'e', 's']
    ||| w == seq!['o', 'n']
    ||| w == seq!['s', 'h', 'o', 'w']
    ||| w == seq!['y']
    ||| w == seq!['t']
}

/// The boolean value of an optional flag field; a missing field is `false`.
pub open spec fn parse_b_spec(s: Option<Seq<char>>) -> bool {
    match s {
        Some(v) => truthy_word(lower_all(trim(v))),
        None => false,
    }
}

/// The boolean value of an optional flag field.
pub fn parse_b(s: Option<&str>) -> (r: bool)
    ensures
        r == parse_b_spec(
            match s {
                Some(v) => Some(v@),
                None => None,
            },
        ),
{
    match s {
        Some(v) => parse_b_chars(Some(&chars_of(v))),
        None => false,
    }
}

/// The boolean value of an optional flag field, given as characters.
fn parse_b_chars(s: Option<&Vec<char>>) -> (r: bool)
    ensures
        r == parse_b_spec(match s {
            Some(v) => Some(v@),
            None => None,
        }),
{
    match s {
        Some(v) => {
            let w = lower_chars(&trim_chars(v));
            chars_eq(&w, &vec!['t', 'r', 'u', 'e']) || chars_eq(&w, &single('1')) || chars_eq(
                &w,
                &vec!['y', 'e', 's'],
            ) || chars_eq(&w, &vec!['o', 'n']) || chars_eq(&w, &vec!['s', 'h', 'o', 'w'])
                || chars_eq(&w, &single('y')) || chars_eq(&w, &single('t'))
        },
        None => false,
    }
}

/// Whether a fill-colour field asks for a fill: present and none of ``,
/// `none`, `None`.
pub open spec fn fill_spec(f: Option<Seq<char>>) -> bool {
    match f {
        Some(s) => !(s.len() == 0 || s == seq!['n', 'o', 'n', 'e'] || s == seq!['N', 'o', 'n', 'e']),
        None => false,
    }
}

/// Whether the fill-colour field `i` of `parts` asks for a fill.
fn fill_at(parts: &Vec<Vec<char>>, i: usize) -> (r: bool)
    ensures
        r == fill_spec(field(views(parts@), i as int)),
{
    if i < parts.len() {
        let s = &parts[i];
        !(s.len() == 0 || chars_eq(s, &vec!['n', 'o', 'n', 'e']) || chars_eq(
            s,
            &vec!['N', 'o', 'n', 'e'],
        ))
    } else {
        false
    }
}

/// Whether a colour word names no fill: empty, `none` or `None`.
pub open spec fn no_fill_word(w: Seq<char>) -> bool {
    w.len() == 0 || w == seq!['n', 'o', 'n', 'e'] || w == seq!['N', 'o', 'n', 'e']
}

/// Whether a marker field is set: not empty and not `0`.
pub open spec fn marker_set(s: Seq<char>) -> bool {
    s.len() > 0 && s != seq!['0']
}

fn marker_set_exec(s: &Vec<char>) -> (r: bool)
    ensures
        r == marker_set(s@),
{
    s.len() > 0 && !chars_eq(s, &single('0'))
}

// ---------------------------------------------------------------------------
// Symbol pins
// ---------------------------------------------------------------------------

/// The fields of a symbol pin, numeric ones still as text.
#[derive(Debug)]
pub struct PinFields {
    pub is_displayed: bool,
    /// The electrical type number.
    pub pin_type: String,
    pub pos_x: String,
    pub pos_y: String,
    pub rotation: String,
    /// The pin number, such as `1` or `VCC`.
    pub designator: String,
    /// The pin's path `M x y h len`, where the pin has a path segment.
    pub path: Option<String>,
    pub name: String,
    pub is_inverted: bool,
    pub is_clock: bool,
}

/// The field `i` of the `~`-separated segment `k` of a pin, or empty where
/// there is no such segment or field.
pub open spec fn segment_field(segs: Seq<Seq<char>>, k: int, i: int) -> Seq<char> {
    if k < segs.len() {
        field_or(split_on(segs[k], '~'), i, Seq::empty())
    } else {
        Seq::empty()
    }
}

/// Whether the marker at the start of segment `k` of a pin is set.
pub open spec fn segment_marker(segs: Seq<Seq<char>>, k: int) -> bool {
    k < segs.len() && marker_set(split_on(segs[k], '~')[0])
}

/// What a pin shape holds: `P~settings^^dot^^path^^name^^num^^dot_bis^^clock`,
/// where the settings are `~`-separated and at least seven long.
pub open spec fn pin_spec(shape: Seq<char>, p: PinFields) -> bool {
    let segs = split_on_pair(shape, '^');
    let settings = split_on(segs[0], '~');
    &&& p.is_displayed == parse_b_spec(Some(settings[1]))
    &&& p.pin_type@ == settings[2]
    &&& p.pos_x@ == settings[4]
    &&& p.pos_y@ == settings[5]
    &&& p.rotation@ == settings[6]
    &&& p.designator@ == segment_field(segs, 4, 4)
    &&& opt_view(p.path) == (if segs.len() > 2 {
        Some(split_on(segs[2], '~')[0])
    } else {
        None
    })
    &&& p.name@ == segment_field(segs, 3, 4)
    &&& p.is_inverted == segment_marker(segs, 5)
    &&& p.is_clock == segment_marker(segs, 6)
}

/// Whether a pin shape has enough settings to be read.
pub open spec fn pin_readable(shape: Seq<char>) -> bool {
    split_on(split_on_pair(shape, '^')[0], '~').len() >= 7
}

fn segment_field_exec(segs: &Vec<Vec<char>>, k: usize, i: usize) -> (r: String)
    ensures
        r@ == segment_field(views(segs@), k as int, i as int),
{
    if k < segs.len() {
        let sub = split_char(&segs[k], '~');
        get_field_or_empty(&sub, i)
    } else {
        String::new()
    }
}

fn segment_marker_exec(segs: &Vec<Vec<char>>, k: usize) -> (r: bool)
    ensures
        r == segment_marker(views(segs@), k as int),
{
    if k < segs.len() {
        let sub = split_char(&segs[k], '~');
        proof {
            lemma_split_on_nonempty(segs@[k as int]@, '~');
        }
        marker_set_exec(&sub[0])
    } else {
        false
    }
}

/// Reads a pin shape; `None` where its settings have fewer than seven
/// fields.
pub fn parse_pin(shape: &str) -> (r: Option<PinFields>)
    ensures
        r is Some <==> pin_readable(shape@),
        r matches Some(p) ==> pin_spec(shape@, p),
{
    let chars = chars_of(shape);
    let segs = split_pair(&chars, '^');
    proof {
        lemma_split_on_pair_nonempty(chars@, '^');
    }
    let settings = split_char(&segs[0], '~');
    if settings.len() < 7 {
        return None;
    }
    let path = if segs.len() > 2 {
        let sub = split_char(&segs[2], '~');
        proof {
            lemma_split_on_nonempty(segs@[2]@, '~');
        }
        Some(string_of(&sub[0]))
    } else {
        None
    };
    Some(
        PinFields {
            is_displayed: parse_b_chars(Some(&settings[1])),
            pin_type: string_of(&settings[2]),
            pos_x: string_of(&settings[4]),
            pos_y: string_of(&settings[5]),
            rotation: string_of(&settings[6]),
            designator: segment_field_exec(&segs, 4, 4),
            path,
            name: segment_field_exec(&segs, 3, 4),
            is_inverted: segment_marker_exec(&segs, 5),
            is_clock: segment_marker_exec(&segs, 6),
        },
    )
}

/// A pin written as its `^^`-separated segments, whose settings are
/// `P~display~type~number~x~y~rotation~...`, whose fourth segment is the
/// name's `~`-separated fields and whose fifth is the number's, is readable
/// and reads its flag, type, position and rotation from those settings, its
/// name from the fifth field of the name segment and its designator from the
/// fifth field of the number segment.
pub proof fn lemma_pin_fields(
    segs: Seq<Seq<char>>,
    f: Seq<Seq<char>>,
    n: Seq<Seq<char>>,
    m: Seq<Seq<char>>,
    p: PinFields,
)
    requires
        segs.len() >= 5,
        free_of(segs, '^'),
        f.len() >= 7,
        free_of(f, '~'),
        segs[0] == join_on(f, '~'),
        n.len() >= 5,
        free_of(n, '~'),
        segs[3] == join_on(n, '~'),
        m.len() >= 5,
        free_of(m, '~'),
        segs[4] == join_on(m, '~'),
        pin_spec(join_on_pair(segs, '^'), p),
    ensures
        pin_readable(join_on_pair(segs, '^')),
        p.is_displayed == parse_b_spec(Some(f[1])),
        p.pin_type@ == f[2],
        p.pos_x@ == f[4],
        p.pos_y@ == f[5],
        p.rotation@ == f[6],
        p.name@ == n[4],
        p.designator@ == m[4],
{
    lemma_split_pair_join(segs, '^');
    lemma_split_join(f, '~');
    lemma_split_join(n, '~');
    lemma_split_join(m, '~');
}

// ---------------------------------------------------------------------------
// Symbol shapes
// ---------------------------------------------------------------------------

/// A symbol shape, numeric fields still as text.
#[derive(Debug)]
pub enum SymbolShape {
    /// `P~...`: a pin.
    Pin(PinFields),
    /// `R~x~y~rx~ry~width~height~stroke~stroke_width~stroke_style~fill~...`.
    Rectangle { pos_x: String, pos_y: String, width: String, height: String, fill: bool },
    /// `C~cx~cy~radius~stroke~stroke_width~stroke_style~fill~...`.
    Circle { center_x: String, center_y: String, radius: String, fill: bool },
    /// `E~cx~cy~rx~ry~stroke~stroke_width~stroke_style~fill~...`.
    Ellipse {
        center_x: String,
        center_y: String,
        radius_x: String,
        radius_y: String,
        fill: bool,
    },
    /// `PL~points~...~fill~...` (open) or `PG~points~...` (closed, filled).
    Polyline { points: String, fill: bool },
    /// `A~path~...`.
    Arc(EeSymbolArc),
    /// `T~type~x~y~rotation~color~font~font_size~...~text~...`; the font size
    /// without its `pt` unit.
    Text { pos_x: String, pos_y: String, rotation: String, text: String, font_size: String },
    /// A shape of another kind, or one with too few fields.
    Ignored,
}

/// What `parse_symbol_shape` yields for a shape string.
pub open spec fn symbol_shape_spec(shape: Seq<char>, r: SymbolShape) -> bool {
    let parts = split_on(shape, '~');
    let d = parts[0];
    &&& (r is Pin <==> d == seq!['P'] && pin_readable(shape))
    &&& (r is Rectangle <==> d == seq!['R'] && parts.len() >= 7)
    &&& (r is Circle <==> d == seq!['C'] && parts.len() >= 4)
    &&& (r is Ellipse <==> d == seq!['E'] && parts.len() >= 5)
    &&& (r is Polyline <==> (d == seq!['P', 'L'] || d == seq!['P', 'G']) && parts.len() >= 2)
    &&& (r is Arc <==> d == seq!['A'] && parts.len() >= 2)
    &&& (r is Text <==> d == seq!['T'] && parts.len() >= 13 && parts[12].len() > 0)
    &&& (r matches SymbolShape::Pin(p) ==> pin_spec(shape, p))
    &&& (r matches SymbolShape::Rectangle { pos_x, pos_y, width, height, fill } ==> pos_x@
        == parts[1] && pos_y@ == parts[2] && width@ == parts[5] && height@ == parts[6] && fill
        == fill_spec(field(parts, 10)))
    &&& (r matches SymbolShape::Circle { center_x, center_y, radius, fill } ==> center_x@
        == parts[1] && center_y@ == parts[2] && radius@ == parts[3] && fill == fill_spec(
        field(parts, 7),
    ))
    &&& (r matches SymbolShape::Ellipse { center_x, center_y, radius_x, radius_y, fill }
        ==> center_x@ == parts[1] && center_y@ == parts[2] && radius_x@ == parts[3]
        && radius_y@ == parts[4] && fill == fill_spec(field(parts, 8)))
    &&& (r matches SymbolShape::Polyline { points, fill } ==> points@ == parts[1] && fill == (d
        == seq!['P', 'G'] || fill_spec(field(parts, 5))))
    &&& (r matches SymbolShape::Arc(a) ==> a.raw_path@ == parts[1])
    &&& (r matches SymbolShape::Text { pos_x, pos_y, rotation, text, font_size } ==> pos_x@
        == parts[2] && pos_y@ == parts[3] && rotation@ == parts[4] && text@ == parts[12]
        && font_size@ == strip_pt(parts[7]))
}

/// Reads a symbol shape string by its kind.
pub fn parse_symbol_shape(shape: &str) -> (r: SymbolShape)
    ensures
        symbol_shape_spec(shape@, r),
{
    let chars = chars_of(shape);
    let parts = split_char(&chars, '~');
    proof {
        lemma_split_on_nonempty(chars@, '~');
    }
    let d = &parts[0];
    let n = parts.len();
    proof {
        lemma_seq1(d@, 'P');
        lemma_seq1(d@, 'R');
        lemma_seq1(d@, 'C');
        lemma_seq1(d@, 'E');
        lemma_seq1(d@, 'A');
        lemma_seq1(d@, 'T');
        lemma_seq2(d@, 'P', 'L');
        lemma_seq2(d@, 'P', 'G');
    }
    if chars_eq(d, &single('P')) {
        match parse_pin(shape) {
            Some(p) => SymbolShape::Pin(p),
            None => SymbolShape::Ignored,
        }
    } else if chars_eq(d, &single('R')) {
        if n < 7 {
            return SymbolShape::Ignored;
        }
        SymbolShape::Rectangle {
            pos_x: string_of(&parts[1]),
            pos_y: string_of(&parts[2]),
            width: string_of(&parts[5]),
            height: string_of(&parts[6]),
            fill: fill_at(&parts, 10),
        }
    } else if chars_eq(d, &single('C')) {
        if n < 4 {
            return SymbolShape::Ignored;
        }
        SymbolShape::Circle {
            center_x: string_of(&parts[1]),
            center_y: string_of(&parts[2]),
            radius: string_of(&parts[3]),
            fill: fill_at(&parts, 7),
        }
    } else if chars_eq(d, &single('E')) {
        if n < 5 {
            return SymbolShape::Ignored;
        }
        SymbolShape::Ellipse {
            center_x: string_of(&parts[1]),
            center_y: string_of(&parts[2]),
            radius_x: string_of(&parts[3]),
            radius_y: string_of(&parts[4]),
            fill: fill_at(&parts, 8),
        }
    } else if chars_eq(d, &vec!['P', 'L']) || chars_eq(d, &vec!['P', 'G']) {
        if n < 2 {
            return SymbolShape::Ignored;
        }
        let closed = chars_eq(d, &vec!['P', 'G']);
        SymbolShape::Polyline { points: string_of(&parts[1]), fill: closed || fill_at(&parts, 5) }
    } else if chars_eq(d, &single('A')) {
        if n < 2 {
            return SymbolShape::Ignored;
        }
        SymbolShape::Arc(EeSymbolArc { raw_path: string_of(&parts[1]) })
    } else if chars_eq(d, &single('T')) {
        if n < 13 || parts[12].len() == 0 {
            return SymbolShape::Ignored;
        }
        SymbolShape::Text {
            pos_x: string_of(&parts[2]),
            pos_y: string_of(&parts[3]),
            rotation: string_of(&parts[4]),
            text: string_of(&parts[12]),
            font_size: string_of(&strip_pt_chars(&parts[7])),
        }
    } else {
        SymbolShape::Ignored
    }
}

/// A symbol shape written as its `~`-separated fields reads each field back
/// from its documented position: a rectangle `R~x~y~rx~ry~width~height~...`,
/// a circle `C~cx~cy~radius~...`, an ellipse `E~cx~cy~rx~ry~...` with each
/// radius its own field, a polyline `PL~points~...` or `PG~points~...` (the
/// latter filled), an arc `A~path~...` and a text `T~type~x~y~rotation~...`
/// whose thirteenth field is its text. A pin `P~display~type~number~x~y~rotation`
/// without further segments reads its settings from those positions. A
/// string of no known kind is ignored.
pub proof fn lemma_symbol_shape_fields(f: Seq<Seq<char>>, r: SymbolShape)
    requires
        f.len() >= 1,
        free_of(f, '~'),
        symbol_shape_spec(join_on(f, '~'), r),
    ensures
        f[0] == seq!['P'] && f.len() >= 7 && free_of(f, '^') ==> (r matches SymbolShape::Pin(p)
            && p.is_displayed == parse_b_spec(Some(f[1])) && p.pin_type@ == f[2] && p.pos_x@
            == f[4] && p.pos_y@ == f[5] && p.rotation@ == f[6] && p.path is None),
        f[0] == seq!['R'] && f.len() >= 7 ==> (r matches SymbolShape::Rectangle {
            pos_x,
            pos_y,
            width,
            height,
            ..
        } && pos_x@ == f[1] && pos_y@ == f[2] && width@ == f[5] && height@ == f[6]),
        f[0] == seq!['C'] && f.len() >= 4 ==> (r matches SymbolShape::Circle {
            center_x,
            center_y,
            radius,
            ..
        } && center_x@ == f[1] && center_y@ == f[2] && radius@ == f[3]),
        f[0] == seq!['E'] && f.len() >= 5 ==> (r matches SymbolShape::Ellipse {
            center_x,
            center_y,
            radius_x,
            radius_y,
            ..
        } && center_x@ == f[1] && center_y@ == f[2] && radius_x@ == f[3] && radius_y@ == f[4]),
        (f[0] == seq!['P', 'L'] || f[0] == seq!['P', 'G']) && f.len() >= 2 ==> (
        r matches SymbolShape::Polyline { points, fill } && points@ == f[1] && (f[0] == seq![
            'P',
            'G',
        ] ==> fill)),
        f[0] == seq!['A'] && f.len() >= 2 ==> (r matches SymbolShape::Arc(a) && a.raw_path@
            == f[1]),
        f[0] == seq!['T'] && f.len() >= 13 && f[12].len() > 0 ==> (r matches SymbolShape::Text {
            pos_x,
            pos_y,
            rotation,
            text,
            ..
        } && pos_x@ == f[2] && pos_y@ == f[3] && rotation@ == f[4] && text@ == f[12]),
        f[0] == seq!['R'] && f.len() >= 7 ==> (r matches SymbolShape::Rectangle { fill, .. } && (
        fill <==> f.len() > 10 && !no_fill_word(f[10]))),
        f[0] == seq!['C'] && f.len() >= 4 ==> (r matches SymbolShape::Circle { fill, .. } && (fill
            <==> f.len() > 7 && !no_fill_word(f[7]))),
        f[0] == seq!['E'] && f.len() >= 5 ==> (r matches SymbolShape::Ellipse { fill, .. } && (
        fill <==> f.len() > 8 && !no_fill_word(f[8]))),
        f[0] == seq!['P', 'L'] && f.len() >= 2 ==> (r matches SymbolShape::Polyline { fill, .. }
            && (fill <==> f.len() > 5 && !no_fill_word(f[5]))),
        f[0] == seq!['T'] && f.len() >= 13 && f[12].len() > 0 ==> (r matches SymbolShape::Text {
            font_size,
            ..
        } && font_size@ == strip_pt(f[7])),
        !(f[0] == seq!['P'] || f[0] == seq!['R'] || f[0] == seq!['C'] || f[0] == seq!['E']
            || f[0] == seq!['P', 'L'] || f[0] == seq!['P', 'G'] || f[0] == seq!['A'] || f[0]
            == seq!['T']) ==> r is Ignored,
{
    lemma_split_join(f, '~');
    if free_of(f, '^') {
        lemma_join_on_free(f, '~', '^');
        lemma_split_on_pair_without(join_on(f, '~'), '^');
    }
}

// ---------------------------------------------------------------------------
// Footprint shapes
// ---------------------------------------------------------------------------

/// The fields of a footprint pad, numeric ones still as text:
/// `PAD~shape~x~y~width~height~layer~net~number~hole_radius~points~rotation~id~hole_length~hole_points~plated~...`.
#[derive(Debug)]
pub struct PadFields {
    /// `ELLIPSE`, `RECT`, `OVAL` or `POLYGON`.
    pub shape: String,
    pub center_x: String,
    pub center_y: String,
    pub width: String,
    pub height: String,
    pub layer: String,
    pub number: String,
    pub hole_radius: Option<String>,
    /// The custom outline of a polygon pad.
    pub points: String,
    pub rotation: Option<String>,
    /// The slot length of a slotted hole.
    pub hole_length: Option<String>,
    pub is_plated: bool,
}

/// The fields of a footprint text, numeric ones still as text:
/// `TEXT~kind~x~y~stroke_width~rotation~mirror~layer~net~font_size~text~display~...`.
#[derive(Debug)]
pub struct TextFields {
    /// `P` for the designator, `N` for the name.
    pub kind: String,
    pub center_x: String,
    pub center_y: String,
    pub stroke_width: String,
    pub rotation: String,
    pub layer: String,
    /// The font size without its `pt` unit.
    pub font_size: String,
    pub text: String,
    pub is_displayed: bool,
}

/// A footprint shape, numeric fields still as text.
#[derive(Debug)]
pub enum FootprintShape {
    Pad(PadFields),
    /// `TRACK~stroke_width~layer~net~points~...`.
    Track { stroke_width: String, layer: String, points: String },
    /// `HOLE~x~y~radius~...`.
    Hole { center_x: String, center_y: String, radius: String },
    /// `VIA~x~y~diameter~net~drill_radius~...`.
    Via { center_x: String, center_y: String, diameter: String, drill_radius: String },
    /// `CIRCLE~cx~cy~radius~stroke_width~layer~...`.
    Circle { cx: String, cy: String, radius: String, stroke_width: String, layer: String },
    /// `ARC~stroke_width~layer~net~path~...`.
    Arc { stroke_width: String, layer: String, raw_path: String },
    /// `RECT~x~y~width~height~layer~id~locked~stroke_width~...`.
    Rect {
        x: String,
        y: String,
        width: String,
        height: String,
        layer: String,
        stroke_width: String,
    },
    Text(TextFields),
    /// `SOLIDREGION~layer~net~path~type~...`.
    SolidRegion { layer: String, raw_path: String, region_type: String },
    /// `SVGNODE~json`: the JSON text of an embedded node (the 3D model).
    SvgNode(String),
    /// A shape of another kind, or one with too few fields.
    Ignored,
}

pub open spec fn word_pad() -> Seq<char> {
    seq!['P', 'A', 'D']
}

pub open spec fn word_track() -> Seq<char> {
    seq!['T', 'R', 'A', 'C', 'K']
}

pub open spec fn word_hole() -> Seq<char> {
    seq!['H', 'O', 'L', 'E']
}

pub open spec fn word_via() -> Seq<char> {
    seq!['V', 'I', 'A']
}

pub open spec fn word_circle() -> Seq<char> {
    seq!['C', 'I', 'R', 'C', 'L', 'E']
}

pub open spec fn word_arc() -> Seq<char> {
    seq!['A', 'R', 'C']
}

pub open spec fn word_rect() -> Seq<char> {
    seq!['R', 'E', 'C', 'T']
}

pub open spec fn word_text() -> Seq<char> {
    seq!['T', 'E', 'X', 'T']
}

pub open spec fn word_solid_region() -> Seq<char> {
    seq!['S', 'O', 'L', 'I', 'D', 'R', 'E', 'G', 'I', 'O', 'N']
}

pub open spec fn word_svg_node() -> Seq<char> {
    seq!['S', 'V', 'G', 'N', 'O', 'D', 'E']
}

/// Whether a pad is plated: its plating field, where present, is not `N`.
pub open spec fn plated_spec(f: Option<Seq<char>>) -> bool {
    match f {
        Some(v) => v != seq!['N'],
        None => true,
    }
}

/// Whether a footprint text is shown: its display field, where present, is
/// neither empty nor `0`.
pub open spec fn displayed_spec(f: Option<Seq<char>>) -> bool {
    match f {
        Some(v) => marker_set(v),
        None => true,
    }
}

/// What `parse_footprint_shape` yields for a shape string.
pub open spec fn footprint_shape_spec(shape: Seq<char>, r: FootprintShape) -> bool {
    let parts = split_on(shape, '~');
    let d = parts[0];
    &&& (r is Pad <==> d == word_pad() && parts.len() >= 7)
    &&& (r is Track <==> d == word_track() && parts.len() >= 5)
    &&& (r is Hole <==> d == word_hole() && parts.len() >= 4)
    &&& (r is Via <==> d == word_via() && parts.len() >= 6)
    &&& (r is Circle <==> d == word_circle() && parts.len() >= 6)
    &&& (r is Arc <==> d == word_arc() && parts.len() >= 5)
    &&& (r is Rect <==> d == word_rect() && parts.len() >= 9)
    &&& (r is Text <==> d == word_text() && parts.len() >= 11)
    &&& (r is SolidRegion <==> d == word_solid_region() && parts.len() >= 5)
    &&& (r is SvgNode <==> d == word_svg_node() && parts.len() >= 2)
    &&& (r matches FootprintShape::Pad(p) ==> {
        &&& p.shape@ == parts[1]
        &&& p.center_x@ == parts[2]
        &&& p.center_y@ == parts[3]
        &&& p.width@ == parts[4]
        &&& p.height@ == parts[5]
        &&& p.layer@ == parts[6]
        &&& p.number@ == field_or(parts, 8, Seq::empty())
        &&& opt_view(p.hole_radius) == field(parts, 9)
        &&& p.points@ == field_or(parts, 10, Seq::empty())
        &&& opt_view(p.rotation) == field(parts, 11)
        &&& opt_view(p.hole_length) == field(parts, 13)
        &&& p.is_plated == plated_spec(field(parts, 15))
    })
    &&& (r matches FootprintShape::Track { stroke_width, layer, points } ==> stroke_width@
        == parts[1] && layer@ == parts[2] && points@ == parts[4])
    &&& (r matches FootprintShape::Hole { center_x, center_y, radius } ==> center_x@ == parts[1]
        && center_y@ == parts[2] && radius@ == parts[3])
    &&& (r matches FootprintShape::Via { center_x, center_y, diameter, drill_radius }
        ==> center_x@ == parts[1] && center_y@ == parts[2] && diameter@ == parts[3]
        && drill_radius@ == parts[5])
    &&& (r matches FootprintShape::Circle { cx, cy, radius, stroke_width, layer } ==> cx@
        == parts[1] && cy@ == parts[2] && radius@ == parts[3] && stroke_width@ == parts[4]
        && layer@ == parts[5])
    &&& (r matches FootprintShape::Arc { stroke_width, layer, raw_path } ==> stroke_width@
        == parts[1] && layer@ == parts[2] && raw_path@ == parts[4])
    &&& (r matches FootprintShape::Rect { x, y, width, height, layer, stroke_width } ==> x@
        == parts[1] && y@ == parts[2] && width@ == parts[3] && height@ == parts[4] && layer@
        == parts[5] && stroke_width@ == parts[8])
    &&& (r matches FootprintShape::Text(t) ==> {
        &&& t.kind@ == parts[1]
        &&& t.center_x@ == parts[2]
        &&& t.center_y@ == parts[3]
        &&& t.stroke_width@ == parts[4]
        &&& t.rotation@ == parts[5]
        &&& t.layer@ == parts[7]
        &&& t.font_size@ == strip_pt(parts[9])
        &&& t.text@ == parts[10]
        &&& t.is_displayed == displayed_spec(field(parts, 11))
    })
    &&& (r matches FootprintShape::SolidRegion { layer, raw_path, region_type } ==> layer@
        == parts[1] && raw_path@ == parts[3] && region_type@ == parts[4])
    &&& (r matches FootprintShape::SvgNode(json) ==> json@ == parts[1])
}

/// `d` is the word `w` only where their lengths and first characters agree.
proof fn lemma_word_shape(d: Seq<char>, w: Seq<char>)
    ensures
        d == w ==> d.len() == w.len() && (w.len() > 0 ==> d[0] == w[0]),
{
}

/// Reads a footprint shape string by its kind.
pub fn parse_footprint_shape(shape: &str) -> (r: FootprintShape)
    ensures
        footprint_shape_spec(shape@, r),
{
    let chars = chars_of(shape);
    let parts = split_char(&chars, '~');
    proof {
        lemma_split_on_nonempty(chars@, '~');
    }
    let d = &parts[0];
    let n = parts.len();
    proof {
        lemma_word_shape(d@, word_pad());
        lemma_word_shape(d@, word_track());
        lemma_word_shape(d@, word_hole());
        lemma_word_shape(d@, word_via());
        lemma_word_shape(d@, word_circle());
        lemma_word_shape(d@, word_arc());
        lemma_word_shape(d@, word_rect());
        lemma_word_shape(d@, word_text());
        lemma_word_shape(d@, word_solid_region());
        lemma_word_shape(d@, word_svg_node());
    }
    if chars_eq(d, &vec!['P', 'A', 'D']) {
        if n < 7 {
            return FootprintShape::Ignored;
        }
        let is_plated = if 15 < n {
            !chars_eq(&parts[15], &single('N'))
        } else {
            true
        };
        FootprintShape::Pad(
            PadFields {
                shape: string_of(&parts[1]),
                center_x: string_of(&parts[2]),
                center_y: string_of(&parts[3]),
                width: string_of(&parts[4]),
                height: string_of(&parts[5]),
                layer: string_of(&parts[6]),
                number: get_field_or_empty(&parts, 8),
                hole_radius: at(&parts, 9),
                points: get_field_or_empty(&parts, 10),
                rotation: at(&parts, 11),
                hole_length: at(&parts, 13),
                is_plated,
            },
        )
    } else if chars_eq(d, &vec!['T', 'R', 'A', 'C', 'K']) {
        if n < 5 {
            return FootprintShape::Ignored;
        }
        FootprintShape::Track {
            stroke_width: string_of(&parts[1]),
            layer: string_of(&parts[2]),
            points: string_of(&parts[4]),
        }
    } else if chars_eq(d, &vec!['H', 'O', 'L', 'E']) {
        if n < 4 {
            return FootprintShape::Ignored;
        }
        FootprintShape::Hole {
            center_x: string_of(&parts[1]),
            center_y: string_of(&parts[2]),
            radius: string_of(&parts[3]),
        }
    } else if chars_eq(d, &vec!['V', 'I', 'A']) {
        if n < 6 {
            return FootprintShape::Ignored;
        }
        FootprintShape::Via {
            center_x: string_of(&parts[1]),
            center_y: string_of(&parts[2]),
            diameter: string_of(&parts[3]),
            drill_radius: string_of(&parts[5]),
        }
    } else if chars_eq(d, &vec!['C', 'I', 'R', 'C', 'L', 'E']) {
        if n < 6 {
            return FootprintShape::Ignored;
        }
        FootprintShape::Circle {
            cx: string_of(&parts[1]),
            cy: string_of(&parts[2]),
            radius: string_of(&parts[3]),
            stroke_width: string_of(&parts[4]),
            layer: string_of(&parts[5]),
        }
    } else if chars_eq(d, &vec!['A', 'R', 'C']) {
        if n < 5 {
            return FootprintShape::Ignored;
        }
        FootprintShape::Arc {
            stroke_width: string_of(&parts[1]),
            layer: string_of(&parts[2]),
            raw_path: string_of(&parts[4]),
        }
    } else if chars_eq(d, &vec!['R', 'E', 'C', 'T']) {
        if n < 9 {
            return FootprintShape::Ignored;
        }
        FootprintShape::Rect {
            x: string_of(&parts[1]),
            y: string_of(&parts[2]),
            width: string_of(&parts[3]),
            height: string_of(&parts[4]),
            layer: string_of(&parts[5]),
            stroke_width: string_of(&parts[8]),
        }
    } else if chars_eq(d, &vec!['T', 'E', 'X', 'T']) {
        if n < 11 {
            return FootprintShape::Ignored;
        }
        let is_displayed = if 11 < n {
            marker_set_exec(&parts[11])
        } else {
            true
        };
        FootprintShape::Text(
            TextFields {
                kind: string_of(&parts[1]),
                center_x: string_of(&parts[2]),
                center_y: string_of(&parts[3]),
                stroke_width: string_of(&parts[4]),
                rotation: string_of(&parts[5]),
                layer: string_of(&parts[7]),
                font_size: string_of(&strip_pt_chars(&parts[9])),
                text: string_of(&parts[10]),
                is_displayed,
            },
        )
    } else if chars_eq(d, &vec!['S', 'O', 'L', 'I', 'D', 'R', 'E', 'G', 'I', 'O', 'N']) {
        if n < 5 {
            return FootprintShape::Ignored;
        }
        FootprintShape::SolidRegion {
            layer: string_of(&parts[1]),
            raw_path: string_of(&parts[3]),
            region_type: string_of(&parts[4]),
        }
    } else if chars_eq(d, &vec!['S', 'V', 'G', 'N', 'O', 'D', 'E']) {
        if n < 2 {
            return FootprintShape::Ignored;
        }
        FootprintShape::SvgNode(string_of(&parts[1]))
    } else {
        FootprintShape::Ignored
    }
}

/// A footprint shape written as its `~`-separated fields reads each field
/// back from its documented position: a pad
/// `PAD~shape~x~y~width~height~layer~...` (width and height each their own
/// field), a track `TRACK~stroke_width~layer~net~points~...`, a hole
/// `HOLE~x~y~radius~...`, a via `VIA~x~y~diameter~net~drill_radius~...`, a
/// circle `CIRCLE~cx~cy~radius~stroke_width~layer~...`, an arc
/// `ARC~stroke_width~layer~net~path~...`, a rectangle
/// `RECT~x~y~width~height~layer~id~locked~stroke_width~...`, a text
/// `TEXT~kind~x~y~stroke_width~rotation~mirror~layer~net~font_size~text~...`,
/// a solid region `SOLIDREGION~layer~net~path~type~...` and an embedded node
/// `SVGNODE~json`. A string of no known kind is ignored.
pub proof fn lemma_footprint_shape_fields(f: Seq<Seq<char>>, r: FootprintShape)
    requires
        f.len() >= 1,
        free_of(f, '~'),
        footprint_shape_spec(join_on(f, '~'), r),
    ensures
        f[0] == word_pad() && f.len() >= 7 ==> (r matches FootprintShape::Pad(p) && p.shape@
            == f[1] && p.center_x@ == f[2] && p.center_y@ == f[3] && p.width@ == f[4]
            && p.height@ == f[5] && p.layer@ == f[6]),
        f[0] == word_pad() && f.len() >= 16 ==> (r matches FootprintShape::Pad(p) && p.number@
            == f[8] && opt_view(p.hole_radius) == Some(f[9]) && p.points@ == f[10] && opt_view(
            p.rotation,
        ) == Some(f[11]) && opt_view(p.hole_length) == Some(f[13]) && (p.is_plated <==> f[15]
            != seq!['N'])),
        f[0] == word_pad() && 7 <= f.len() <= 8 ==> (r matches FootprintShape::Pad(p)
            && p.number@.len() == 0 && p.hole_radius is None && p.rotation is None
            && p.hole_length is None && p.is_plated),
        f[0] == word_track() && f.len() >= 5 ==> (r matches FootprintShape::Track {
            stroke_width,
            layer,
            points,
        } && stroke_width@ == f[1] && layer@ == f[2] && points@ == f[4]),
        f[0] == word_hole() && f.len() >= 4 ==> (r matches FootprintShape::Hole {
            center_x,
            center_y,
            radius,
        } && center_x@ == f[1] && center_y@ == f[2] && radius@ == f[3]),
        f[0] == word_via() && f.len() >= 6 ==> (r matches FootprintShape::Via {
            center_x,
            center_y,
            diameter,
            drill_radius,
        } && center_x@ == f[1] && center_y@ == f[2] && diameter@ == f[3] && drill_radius@
            == f[5]),
        f[0] == word_circle() && f.len() >= 6 ==> (r matches FootprintShape::Circle {
            cx,
            cy,
            radius,
            stroke_width,
            layer,
        } && cx@ == f[1] && cy@ == f[2] && radius@ == f[3] && stroke_width@ == f[4] && layer@
            == f[5]),
        f[0] == word_arc() && f.len() >= 5 ==> (r matches FootprintShape::Arc {
            stroke_width,
            layer,
            raw_path,
        } && stroke_width@ == f[1] && layer@ == f[2] && raw_path@ == f[4]),
        f[0] == word_rect() && f.len() >= 9 ==> (r matches FootprintShape::Rect {
            x,
            y,
            width,
            height,
            layer,
            stroke_width,
        } && x@ == f[1] && y@ == f[2] && width@ == f[3] && height@ == f[4] && layer@ == f[5]
            && stroke_width@ == f[8]),
        f[0] == word_text() && f.len() >= 11 ==> (r matches FootprintShape::Text(t) && t.kind@
            == f[1] && t.center_x@ == f[2] && t.center_y@ == f[3] && t.stroke_width@ == f[4]
            && t.rotation@ == f[5] && t.layer@ == f[7] && t.text@ == f[10]),
        f[0] == word_text() && f.len() >= 11 ==> (r matches FootprintShape::Text(t) && t.font_size@
            == strip_pt(f[9]) && (t.is_displayed <==> f.len() <= 11 || marker_set(f[11]))),
        f[0] == word_solid_region() && f.len() >= 5 ==> (r matches FootprintShape::SolidRegion {
            layer,
            raw_path,
            region_type,
        } && layer@ == f[1] && raw_path@ == f[3] && region_type@ == f[4]),
        f[0] == word_svg_node() && f.len() >= 2 ==> (r matches FootprintShape::SvgNode(json)
            && json@ == f[1]),
        !(f[0] == word_pad() || f[0] == word_track() || f[0] == word_hole() || f[0]
            == word_via() || f[0] == word_circle() || f[0] == word_arc() || f[0] == word_rect()
            || f[0] == word_text() || f[0] == word_solid_region() || f[0] == word_svg_node())
            ==> r is Ignored,
{
    lemma_split_join(f, '~');
}

} // verus!
