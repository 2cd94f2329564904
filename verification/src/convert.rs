//! The decisions of the conversion to Altium primitives that do not depend
//! on floating-point coordinates: layer numbers, pad and pin styles, and
//! bounding boxes in Altium's integer units.

use vstd::prelude::*;

use crate::text::{
    chars_eq, chars_of, find_char, index_of, lemma_index_of, single, string_of, subvec,
    to_uppercase, unicode_uppercase, all_ascii, upper_all,
};
use crate::types::{EeFootprintSolidRegion, EePinElectrical};

verus! {

// ---------------------------------------------------------------------------
// Layers
// ---------------------------------------------------------------------------

/// The Altium layer number for an EasyEDA layer id; unknown ids go to
/// Mechanical 1 (57).
pub open spec fn altium_layer(layer_id: i32) -> i32 {
    if layer_id == 1 {
        1
    } else if layer_id == 2 {
        32
    } else if layer_id == 3 {
        33
    } else if layer_id == 4 {
        34
    } else if layer_id == 5 {
        35
    } else if layer_id == 6 {
        36
    } else if layer_id == 7 {
        37
    } else if layer_id == 8 {
        38
    } else if layer_id == 10 {
        56
    } else if layer_id == 11 {
        74
    } else if layer_id == 12 {
        57
    } else if layer_id == 13 {
        69
    } else if layer_id == 14 {
        70
    } else if layer_id == 15 {
        71
    } else {
        57
    }
}

/// The Altium layer number for an EasyEDA layer id.
pub fn ee_layer_to_altium(layer_id: i32) -> (r: i32)
    ensures
        r == altium_layer(layer_id),
{
    match layer_id {
        1 => 1,
        2 => 32,
        3 => 33,
        4 => 34,
        5 => 35,
        6 => 36,
        7 => 37,
        8 => 38,
        10 => 56,
        11 => 74,
        12 => 57,
        13 => 69,
        14 => 70,
        15 => 71,
        99 => 57,
        _ => 57,
    }
}

/// Whether a solid region on this EasyEDA layer is kept: the silkscreen and
/// solder-mask layers (3, 4, 13, 14) and the component-shape layer (99).
pub open spec fn solid_region_layer_allowed(layer_id: i32) -> bool {
    layer_id == 3 || layer_id == 4 || layer_id == 13 || layer_id == 14 || layer_id == 99
}

/// Whether a solid region on this EasyEDA layer is kept.
pub fn ee_layer_allowed_for_solid_region(layer_id: i32) -> (r: bool)
    ensures
        r == solid_region_layer_allowed(layer_id),
{
    layer_id == 3 || layer_id == 4 || layer_id == 13 || layer_id == 14 || layer_id == 99
}

/// Whether a solid region becomes an Altium region: it is of type `solid` or
/// `npth` and lies on an allowed layer (its outline must still have three
/// points).
pub open spec fn solid_region_kept(region_type: Seq<char>, layer_id: i32) -> bool {
    (region_type == seq!['s', 'o', 'l', 'i', 'd'] || region_type == seq!['n', 'p', 't', 'h'])
        && solid_region_layer_allowed(layer_id)
}

/// Whether a solid region becomes an Altium region, as far as its type and
/// layer decide.
pub fn solid_region_accepted(sr: &EeFootprintSolidRegion) -> (r: bool)
    ensures
        r == solid_region_kept(sr.region_type@, sr.layer_id),
{
    let t = chars_of(sr.region_type.as_str());
    (chars_eq(&t, &vec!['s', 'o', 'l', 'i', 'd']) || chars_eq(&t, &vec!['n', 'p', 't', 'h']))
        && ee_layer_allowed_for_solid_region(sr.layer_id)
}

// ---------------------------------------------------------------------------
// Pads and texts
// ---------------------------------------------------------------------------

/// The pad number shown in Altium: the part inside the first parentheses,
/// where the number has a `(` before its first `)`, else the number itself:
/// `A(1)` becomes `1`.
pub open spec fn normalized_pad_number(num: Seq<char>) -> Seq<char> {
    let l = index_of(num, '(');
    let r = index_of(num, ')');
    if l < num.len() && r < num.len() && r > l {
        num.subrange(l + 1, r)
    } else {
        num
    }
}

/// Normalizing a pad number twice is the same as once: the part inside the
/// parentheses holds no `)`.
pub proof fn lemma_normalize_pad_number_idempotent(num: Seq<char>)
    ensures
        normalized_pad_number(normalized_pad_number(num)) == normalized_pad_number(num),
{
    lemma_index_of(num, '(');
    lemma_index_of(num, ')');
    let l = index_of(num, '(');
    let r = index_of(num, ')');
    if l < num.len() && r < num.len() && r > l {
        let t = num.subrange(l + 1, r);
        assert(!t.contains(')')) by {
            assert forall|i: int| 0 <= i < t.len() implies t[i] != ')' by {
                assert(t[i] == num[l + 1 + i]);
            }
        }
        lemma_index_of(t, ')');
    } else {
        lemma_index_of(num, ')');
    }
}

/// The pad number shown in Altium.
pub fn normalize_pad_number(num: &str) -> (r: String)
    ensures
        r@ == normalized_pad_number(num@),
{
    let chars = chars_of(num);
    proof {
        lemma_index_of(chars@, '(');
        lemma_index_of(chars@, ')');
    }
    match (find_char(&chars, '('), find_char(&chars, ')')) {
        (Some(l), Some(r)) => {
            if r > l {
                return string_of(&subvec(&chars, l + 1, r));
            }
        },
        _ => {},
    }
    num.to_owned()
}

/// The shape of an Altium pad.
#[derive(Debug, Clone, Copy, PartialEq, Eq)]
pub enum PadShape {
    Round,
    Rectangular,
}

/// The Altium pad shape for an upper-cased EasyEDA pad shape name: `ELLIPSE`
/// and `OVAL` are round, everything else is rectangular.
pub open spec fn pad_shape_spec(u: Seq<char>) -> PadShape {
    if u == seq!['E', 'L', 'L', 'I', 'P', 'S', 'E'] || u == seq!['O', 'V', 'A', 'L'] {
        PadShape::Round
    } else {
        PadShape::Rectangular
    }
}

/// The Altium pad shape for an EasyEDA pad shape name, in any letter case.
pub fn pad_shape(shape: &str) -> (r: PadShape)
    ensures
        r == pad_shape_spec(unicode_uppercase(shape@)),
        all_ascii(shape@) ==> r == pad_shape_spec(upper_all(shape@)),
{
    let u = chars_of(to_uppercase(shape).as_str());
    if chars_eq(&u, &vec!['E', 'L', 'L', 'I', 'P', 'S', 'E']) || chars_eq(
        &u,
        &vec!['O', 'V', 'A', 'L'],
    ) {
        PadShape::Round
    } else {
        PadShape::Rectangular
    }
}

/// What a footprint text is in Altium: `(is_designator, is_comment)`, for
/// the kinds `P` and `N`.
pub fn text_roles(kind: &str) -> (r: (bool, bool))
    ensures
        r.0 == (kind@ == seq!['P']),
        r.1 == (kind@ == seq!['N']),
{
    let k = chars_of(kind);
    (chars_eq(&k, &single('P')), chars_eq(&k, &single('N')))
}

// ---------------------------------------------------------------------------
// Pins
// ---------------------------------------------------------------------------

/// The electrical type of an Altium pin.
#[derive(Debug, Clone, Copy, PartialEq, Eq)]
pub enum PinElectricalType {
    Input,
    Output,
    InputOutput,
    Power,
    Passive,
}

/// The Altium electrical type for an EasyEDA one; an unspecified pin is
/// passive.
pub fn ee_pin_electrical(e: EePinElectrical) -> (r: PinElectricalType)
    ensures
        r == (match e {
            EePinElectrical::Input => PinElectricalType::Input,
            EePinElectrical::Output => PinElectricalType::Output,
            EePinElectrical::Bidirectional => PinElectricalType::InputOutput,
            EePinElectrical::Power => PinElectricalType::Power,
            EePinElectrical::Unspecified => PinElectricalType::Passive,
        }),
{
    match e {
        EePinElectrical::Input => PinElectricalType::Input,
        EePinElectrical::Output => PinElectricalType::Output,
        EePinElectrical::Bidirectional => PinElectricalType::InputOutput,
        EePinElectrical::Power => PinElectricalType::Power,
        EePinElectrical::Unspecified => PinElectricalType::Passive,
    }
}

/// The side a pin points to.
#[derive(Debug, Clone, Copy, PartialEq, Eq)]
pub enum PinOrientation {
    Right,
    Up,
    Left,
    Down,
}

/// The orientation of a pin rotated by `rotation_deg` degrees: the quarter
/// turn that the rotation, taken modulo 360, falls in.
pub open spec fn orientation_spec(rotation_deg: i32) -> PinOrientation {
    let q = (rotation_deg as int % 360) / 90;
    if q == 0 {
        PinOrientation::Right
    } else if q == 1 {
        PinOrientation::Up
    } else if q == 2 {
        PinOrientation::Left
    } else {
        PinOrientation::Down
    }
}

/// Turning a pin by a full turn does not change its orientation.
pub proof fn lemma_orientation_full_turn(rotation_deg: i32)
    requires
        rotation_deg + 360 <= i32::MAX,
    ensures
        orientation_spec((rotation_deg + 360) as i32) == orientation_spec(rotation_deg),
{
    assert((rotation_deg + 360) % 360 == rotation_deg as int % 360) by (nonlinear_arith);
}

/// The orientation of a pin rotated by `rotation_deg` degrees.
pub fn ee_orientation(rotation_deg: i32) -> (r: PinOrientation)
    ensures
        r == orientation_spec(rotation_deg),
{
    let m = (rotation_deg % 360 + 360) % 360;
    assert(m == rotation_deg as int % 360);
    match m / 90 {
        0 => PinOrientation::Right,
        1 => PinOrientation::Up,
        2 => PinOrientation::Left,
        _ => PinOrientation::Down,
    }
}

/// The font id for the symbol's texts: 2 (the custom font) where a font was
/// chosen, else 1.
pub fn text_font_id(use_custom_pin_font: bool) -> (r: i32)
    ensures
        r == (if use_custom_pin_font {
            2i32
        } else {
            1i32
        }),
{
    if use_custom_pin_font {
        2
    } else {
        1
    }
}

/// How an Altium pin is drawn, apart from its position.
#[derive(Debug)]
pub struct PinStyle {
    pub name: Option<String>,
    pub designator: Option<String>,
    pub show_name: bool,
    pub show_designator: bool,
    pub is_hidden: bool,
    /// 3 (clock) or 0.
    pub symbol_inner_edge: i32,
    /// 1 (dot) or 0.
    pub symbol_outer_edge: i32,
    /// 2 (custom font) or 0, for both name and designator.
    pub font_mode: i32,
    pub custom_font_id: i32,
}

/// The optional form of a string: none where it is empty.
pub open spec fn nonempty_view(s: Seq<char>) -> Option<Seq<char>> {
    if s.len() > 0 {
        Some(s)
    } else {
        None
    }
}

/// How an Altium pin is drawn: an empty name or number is not shown, a pin
/// that EasyEDA hides is hidden, a clock pin gets the clock edge and an
/// inverted pin the dot; with a custom font the name and number use it.
pub fn pin_style(
    name: &str,
    designator: &str,
    is_displayed: bool,
    is_inverted: bool,
    is_clock: bool,
    use_custom_pin_font: bool,
) -> (r: PinStyle)
    ensures
        crate::text::opt_view(r.name) == nonempty_view(name@),
        crate::text::opt_view(r.designator) == nonempty_view(designator@),
        r.show_name == (name@.len() > 0),
        r.show_designator == (designator@.len() > 0),
        r.is_hidden == !is_displayed,
        r.symbol_inner_edge == (if is_clock {
            3i32
        } else {
            0i32
        }),
        r.symbol_outer_edge == (if is_inverted {
            1i32
        } else {
            0i32
        }),
        r.font_mode == (if use_custom_pin_font {
            2i32
        } else {
            0i32
        }),
        r.custom_font_id == (if use_custom_pin_font {
            2i32
        } else {
            0i32
        }),
{
    let has_name = name.unicode_len() > 0;
    let has_designator = designator.unicode_len() > 0;
    let (font_mode, custom_font_id) = if use_custom_pin_font {
        (2, text_font_id(use_custom_pin_font))
    } else {
        (0, 0)
    };
    PinStyle {
        name: if has_name {
            Some(name.to_owned())
        } else {
            None
        },
        designator: if has_designator {
            Some(designator.to_owned())
        } else {
            None
        },
        show_name: has_name,
        show_designator: has_designator,
        is_hidden: !is_displayed,
        symbol_inner_edge: if is_clock {
            3
        } else {
            0
        },
        symbol_outer_edge: if is_inverted {
            1
        } else {
            0
        },
        font_mode,
        custom_font_id,
    }
}

// ---------------------------------------------------------------------------
// Bounding boxes, in Altium's integer units
// ---------------------------------------------------------------------------

/// `(min_x, min_y, max_x, max_y)` is the tightest box around `points`.
pub open spec fn is_bbox(points: Seq<(i32, i32)>, b: (i32, i32, i32, i32)) -> bool {
    &&& forall|i: int|
        0 <= i < points.len() ==> b.0 <= (#[trigger] points[i]).0 <= b.2 && b.1 <= points[i].1
            <= b.3
    &&& exists|i: int| 0 <= i < points.len() && (#[trigger] points[i]).0 == b.0
    &&& exists|i: int| 0 <= i < points.len() && (#[trigger] points[i]).1 == b.1
    &&& exists|i: int| 0 <= i < points.len() && (#[trigger] points[i]).0 == b.2
    &&& exists|i: int| 0 <= i < points.len() && (#[trigger] points[i]).1 == b.3
}

/// The running box of the first `k` points, started from the empty box
/// `(i32::MAX, i32::MAX, i32::MIN, i32::MIN)`.
fn bbox_fold(points: &Vec<(i32, i32)>) -> (r: (i32, i32, i32, i32))
    ensures
        points@.len() > 0 ==> is_bbox(points@, r),
        r.0 == i32::MAX <==> forall|i: int|
            0 <= i < points@.len() ==> (#[trigger] points@[i]).0 == i32::MAX,
{
    let mut min_x = i32::MAX;
    let mut min_y = i32::MAX;
    let mut max_x = i32::MIN;
    let mut max_y = i32::MIN;
    let n = points.len();
    let mut k: usize = 0;
    while k < n
        invariant
            k <= n == points@.len(),
            k == 0 ==> min_x == i32::MAX && min_y == i32::MAX && max_x == i32::MIN && max_y
                == i32::MIN,
            forall|i: int|
                0 <= i < k ==> min_x <= (#[trigger] points@[i]).0 <= max_x && min_y
                    <= points@[i].1 <= max_y,
            k > 0 ==> exists|i: int| 0 <= i < k && (#[trigger] points@[i]).0 == min_x,
            k > 0 ==> exists|i: int| 0 <= i < k && (#[trigger] points@[i]).1 == min_y,
            k > 0 ==> exists|i: int| 0 <= i < k && (#[trigger] points@[i]).0 == max_x,
            k > 0 ==> exists|i: int| 0 <= i < k && (#[trigger] points@[i]).1 == max_y,
            min_x == i32::MAX <==> forall|i: int| 0 <= i < k ==> (#[trigger] points@[i]).0
                == i32::MAX,
        decreases n - k,
    {
        let (x, y) = points[k];
        if x < min_x {
            min_x = x;
        }
        if x > max_x {
            max_x = x;
        }
        if y < min_y {
            min_y = y;
        }
        if y > max_y {
            max_y = y;
        }
        assert(points@[k as int] == (x, y));
        assert(k == 0 ==> points@[k as int].0 == min_x && points@[k as int].1 == min_y
            && points@[k as int].0 == max_x && points@[k as int].1 == max_y);
        k += 1;
    }
    (min_x, min_y, max_x, max_y)
}

/// The box around the pins of a symbol unit, none where it has no pins.
pub fn pins_bbox(points: &Vec<(i32, i32)>) -> (r: Option<(i32, i32, i32, i32)>)
    ensures
        r is None <==> points@.len() == 0,
        r matches Some(b) ==> is_bbox(points@, b),
{
    if points.len() == 0 {
        return None;
    }
    Some(bbox_fold(points))
}

/// The outline of a footprint's 3D body: the corners of the box around its
/// pad locations and track ends, counter-clockwise from the lower left; a
/// square of half-width `half` about the origin where no point has an x
/// coordinate below `i32::MAX` (in particular where there is no point).
pub fn component_bbox_outline(points: &Vec<(i32, i32)>, half: i32) -> (r: Vec<(i32, i32)>)
    requires
        half > i32::MIN,
    ensures
        r@.len() == 4,
        (forall|i: int| 0 <= i < points@.len() ==> (#[trigger] points@[i]).0 == i32::MAX) ==> r@
            == seq![((-half) as i32, (-half) as i32), (half, (-half) as i32), (half, half), ((-half) as i32, half)],
        (exists|i: int| 0 <= i < points@.len() && (#[trigger] points@[i]).0 != i32::MAX)
            ==> exists|b: (i32, i32, i32, i32)|
            is_bbox(points@, b) && r@ == seq![(b.0, b.1), (b.2, b.1), (b.2, b.3), (b.0, b.3)],
{
    let (min_x, min_y, max_x, max_y) = bbox_fold(points);
    if min_x == i32::MAX {
        let neg = -half;
        let v = vec![(neg, neg), (half, neg), (half, half), (neg, half)];
        return v;
    }
    let v = vec![(min_x, min_y), (max_x, min_y), (max_x, max_y), (min_x, max_y)];
    assert(is_bbox(points@, (min_x, min_y, max_x, max_y)));
    v
}

/// The corners `((left, bottom), (right, top))` of a symbol's body
/// rectangle: the rectangle's own corners put in order, then widened to take
/// in the unit's pins.
pub open spec fn body_rectangle_spec(
    x0: i32,
    y0: i32,
    x1: i32,
    y1: i32,
    pins: Option<(i32, i32, i32, i32)>,
) -> ((i32, i32), (i32, i32)) {
    let lx = if x0 <= x1 { x0 } else { x1 };
    let rx = if x0 <= x1 { x1 } else { x0 };
    let by = if y0 <= y1 { y0 } else { y1 };
    let ty = if y0 <= y1 { y1 } else { y0 };
    match pins {
        Some(p) => (
            (if p.0 < lx { p.0 } else { lx }, if p.1 < by { p.1 } else { by }),
            (if p.2 > rx { p.2 } else { rx }, if p.3 > ty { p.3 } else { ty }),
        ),
        None => ((lx, by), (rx, ty)),
    }
}

/// The corners of a symbol's body rectangle, given two opposite corners of
/// EasyEDA's rectangle and the box around the unit's pins.
pub fn body_rectangle(
    x0: i32,
    y0: i32,
    x1: i32,
    y1: i32,
    pins: Option<(i32, i32, i32, i32)>,
) -> (r: ((i32, i32), (i32, i32)))
    ensures
        r == body_rectangle_spec(x0, y0, x1, y1, pins),
        r.0.0 <= r.1.0 && r.0.1 <= r.1.1,
{
    let mut lx = if x0 <= x1 { x0 } else { x1 };
    let mut rx = if x0 <= x1 { x1 } else { x0 };
    let mut by = if y0 <= y1 { y0 } else { y1 };
    let mut ty = if y0 <= y1 { y1 } else { y0 };
    if let Some((pmin_x, pmin_y, pmax_x, pmax_y)) = pins {
        if pmin_x < lx {
            lx = pmin_x;
        }
        if pmax_x > rx {
            rx = pmax_x;
        }
        if pmin_y < by {
            by = pmin_y;
        }
        if pmax_y > ty {
            ty = pmax_y;
        }
    }
    ((lx, by), (rx, ty))
}

/// The body rectangle contains both given corners and, where there are
/// pins, the pins' box; and it is the least such box: each of its edges is
/// one of the given corners' or the pins' box's.
pub proof fn lemma_body_rectangle_least(
    x0: i32,
    y0: i32,
    x1: i32,
    y1: i32,
    pins: Option<(i32, i32, i32, i32)>,
)
    ensures
        ({
            let r = body_rectangle_spec(x0, y0, x1, y1, pins);
            &&& r.0.0 <= x0 && r.0.0 <= x1 && r.1.0 >= x0 && r.1.0 >= x1
            &&& r.0.1 <= y0 && r.0.1 <= y1 && r.1.1 >= y0 && r.1.1 >= y1
            &&& (pins matches Some(p) ==> r.0.0 <= p.0 && r.0.1 <= p.1 && r.1.0 >= p.2 && r.1.1
                >= p.3)
            &&& (r.0.0 == x0 || r.0.0 == x1 || (pins matches Some(p) && r.0.0 == p.0))
            &&& (r.0.1 == y0 || r.0.1 == y1 || (pins matches Some(p) && r.0.1 == p.1))
            &&& (r.1.0 == x0 || r.1.0 == x1 || (pins matches Some(p) && r.1.0 == p.2))
            &&& (r.1.1 == y0 || r.1.1 == y1 || (pins matches Some(p) && r.1.1 == p.3))
        }),
{
}

} // verus!
