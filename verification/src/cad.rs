//! Reading the component record of the EasyEDA API into symbols and
//! footprints.
//!
//! The record's `dataStr` (symbol) and `packageDetail.dataStr` (footprint)
//! hold a `head` with the component parameters and a `shape` array of shape
//! strings. Coordinates are left as their JSON sources; everything else is
//! decided here.

use vstd::prelude::*;

use crate::error::Error;
use crate::json::{
    get, get_spec, numeric_source, numeric_source_matches, or_null, safe_string_of,
    safe_string_spec, JsonValue, NumericSource,
};
use crate::meta::{
    canvas_origin_fields, datasheet_spec, datasheet_url, footprint_is_smd, footprint_type,
    first_nonempty, is_smd_spec, lemma_pick_two, pick_spec, pick_str, sanitize_component_name, sanitized_name, str_views,
    string_elements, tags_spec, tags_to_string,
};
use crate::shape::{
    footprint_shape_spec, parse_footprint_shape, parse_symbol_shape, symbol_shape_spec,
    FootprintShape, SymbolShape,
};
use crate::text::split_on;
use crate::types::{EeFootprint, EeFootprintInfo, EeSymbol, EeSymbolInfo};

verus! {

/// Where the coordinates of a symbol unit come from, and its shapes.
#[derive(Debug)]
pub struct SymbolSource {
    pub bbox_x: NumericSource,
    pub bbox_y: NumericSource,
    pub bbox_width: NumericSource,
    pub bbox_height: NumericSource,
    pub head_x: NumericSource,
    pub head_y: NumericSource,
    pub shapes: Vec<SymbolShape>,
}

/// Where the coordinates of a footprint come from, and its shapes.
#[derive(Debug)]
pub struct FootprintSource {
    pub head_x: NumericSource,
    pub head_y: NumericSource,
    /// The canvas origin fields, where the canvas string has them.
    pub canvas_origin: Option<(String, String)>,
    pub shapes: Vec<FootprintShape>,
}

/// The member `key` of an optional value.
pub open spec fn get_opt(v: Option<JsonValue>, key: Seq<char>) -> Option<JsonValue> {
    match v {
        Some(x) => get_spec(x, key),
        None => None,
    }
}

/// The string members of a `shape` array, empty where it is missing or not
/// an array.
pub open spec fn shape_strings(v: Option<JsonValue>) -> Seq<Seq<char>> {
    match v {
        Some(JsonValue::Array(items)) => string_elements(items@),
        _ => Seq::empty(),
    }
}

/// The text of a string value, none for anything else (`Value::as_str`).
pub open spec fn as_str_spec(v: Option<JsonValue>) -> Option<Seq<char>> {
    match v {
        Some(JsonValue::String(s)) => Some(s@),
        _ => None,
    }
}

/// A symbol unit read from its `dataStr`, component parameters, LCSC record,
/// bounding box and head.
pub open spec fn symbol_unit_spec(
    u: EeSymbol<SymbolSource>,
    datastr: JsonValue,
    c_para: JsonValue,
    lcsc: JsonValue,
    bbox: JsonValue,
    head: JsonValue,
    description: Seq<char>,
) -> bool {
    let strs = shape_strings(get_spec(datastr, "shape"@));
    let number = safe_string_spec(or_null(get_spec(lcsc, "number"@)));
    &&& u.info.name@ == sanitized_name(safe_string_spec(or_null(get_spec(c_para, "name"@))))
    &&& u.info.prefix@ == safe_string_spec(or_null(get_spec(c_para, "pre"@)))
    &&& u.info.package@ == safe_string_spec(or_null(get_spec(c_para, "package"@)))
    &&& u.info.manufacturer@ == pick_spec(
        c_para,
        str_views(seq!["Manufacturer", "BOM_Manufacturer"]),
    )
    &&& u.info.mpn@ == pick_spec(
        c_para,
        str_views(seq!["Manufacturer Part", "BOM_Manufacturer Part"]),
    )
    &&& u.info.datasheet@ == datasheet_spec(
        safe_string_spec(or_null(get_spec(lcsc, "url"@))),
        number,
    )
    &&& u.info.lcsc_id@ == number
    &&& u.info.keywords@ == tags_spec(get_spec(datastr, "tags"@))
    &&& u.info.description@ == description
    &&& numeric_source_matches(u.geometry.bbox_x, get_spec(bbox, "x"@))
    &&& numeric_source_matches(u.geometry.bbox_y, get_spec(bbox, "y"@))
    &&& numeric_source_matches(u.geometry.bbox_width, get_spec(bbox, "width"@))
    &&& numeric_source_matches(u.geometry.bbox_height, get_spec(bbox, "height"@))
    &&& numeric_source_matches(u.geometry.head_x, get_spec(head, "x"@))
    &&& numeric_source_matches(u.geometry.head_y, get_spec(head, "y"@))
    &&& u.geometry.shapes@.len() == strs.len()
    &&& forall|i: int|
        0 <= i < strs.len() ==> symbol_shape_spec(strs[i], #[trigger] u.geometry.shapes@[i])
}

/// The string members of the array `items`, read in order.
fn string_items(items: &Vec<JsonValue>) -> (r: Vec<String>)
    ensures
        r@.map_values(|s: String| s@) == string_elements(items@),
{
    let mut out: Vec<String> = Vec::new();
    let n = items.len();
    let mut i: usize = 0;
    assert(items@.take(0) =~= Seq::<JsonValue>::empty());
    assert(out@.map_values(|s: String| s@) =~= Seq::<Seq<char>>::empty());
    while i < n
        invariant
            i <= n == items@.len(),
            out@.map_values(|s: String| s@) == string_elements(items@.take(i as int)),
        decreases n - i,
    {
        assert(items@.take(i + 1).drop_last() =~= items@.take(i as int));
        assert(items@.take(i + 1).last() == items@[i as int]);
        match &items[i] {
            JsonValue::String(s) => {
                let ghost before = out@;
                out.push(s.clone());
                assert(out@.map_values(|s: String| s@) =~= before.map_values(|s: String| s@).push(
                    s@,
                ));
            },
            _ => {},
        }
        i += 1;
    }
    assert(items@.take(n as int) =~= items@);
    out
}

/// The shape strings of a `dataStr`.
fn shape_string_list(datastr: &JsonValue) -> (r: Vec<String>)
    ensures
        r@.map_values(|s: String| s@) == shape_strings(get_spec(*datastr, "shape"@)),
{
    match get(datastr, "shape") {
        Some(JsonValue::Array(items)) => string_items(items),
        _ => {
            let v: Vec<String> = Vec::new();
            assert(v@.map_values(|s: String| s@) =~= Seq::<Seq<char>>::empty());
            v
        },
    }
}

/// Reads one symbol unit.
pub fn build_symbol_unit(
    datastr: &JsonValue,
    c_para: &JsonValue,
    lcsc: &JsonValue,
    bbox: &JsonValue,
    head: &JsonValue,
    description: &str,
) -> (r: Result<EeSymbol<SymbolSource>, Error>)
    ensures
        r matches Ok(u) && symbol_unit_spec(u, *datastr, *c_para, *lcsc, *bbox, *head, description@)
            && u.sub_symbols@.len() == 0,
{
    let url = safe_string_of(get(lcsc, "url"));
    let number = safe_string_of(get(lcsc, "number"));
    let info = EeSymbolInfo {
        name: sanitize_component_name(safe_string_of(get(c_para, "name")).as_str()),
        prefix: safe_string_of(get(c_para, "pre")),
        package: safe_string_of(get(c_para, "package")),
        manufacturer: pick_str(c_para, &["Manufacturer", "BOM_Manufacturer"]),
        mpn: pick_str(c_para, &["Manufacturer Part", "BOM_Manufacturer Part"]),
        datasheet: datasheet_url(url.as_str(), number.as_str()),
        lcsc_id: number,
        keywords: tags_to_string(get(datastr, "tags")),
        description: description.to_owned(),
    };
    let strs = shape_string_list(datastr);
    let ghost sv = strs@.map_values(|s: String| s@);
    let mut shapes: Vec<SymbolShape> = Vec::new();
    let n = strs.len();
    let mut i: usize = 0;
    while i < n
        invariant
            i <= n == strs@.len() == sv.len(),
            sv == strs@.map_values(|s: String| s@),
            shapes@.len() == i,
            forall|j: int| 0 <= j < i ==> symbol_shape_spec(sv[j], #[trigger] shapes@[j]),
        decreases n - i,
    {
        shapes.push(parse_symbol_shape(strs[i].as_str()));
        i += 1;
    }
    Ok(
        EeSymbol {
            info,
            geometry: SymbolSource {
                bbox_x: numeric_source(get(bbox, "x")),
                bbox_y: numeric_source(get(bbox, "y")),
                bbox_width: numeric_source(get(bbox, "width")),
                bbox_height: numeric_source(get(bbox, "height")),
                head_x: numeric_source(get(head, "x")),
                head_y: numeric_source(get(head, "y")),
                shapes,
            },
            sub_symbols: Vec::new(),
        },
    )
}

/// Whether a subpart has a `dataStr` with a `head`.
pub open spec fn subpart_ok(sp: JsonValue) -> bool {
    get_spec(sp, "dataStr"@) is Some && get_opt(get_spec(sp, "dataStr"@), "head"@) is Some
}

/// The error text for a subpart without a `dataStr` or `head`.
pub open spec fn subpart_error(sp: JsonValue) -> Seq<char> {
    if get_spec(sp, "dataStr"@) is None {
        "subpart missing dataStr"@
    } else {
        "subpart missing dataStr.head"@
    }
}

/// The further units of a multi-unit component: the elements of its
/// `subparts` array, none where it has none.
pub open spec fn subparts_of(api: JsonValue) -> Seq<JsonValue> {
    match get_spec(api, "subparts"@) {
        Some(JsonValue::Array(items)) => items@,
        _ => Seq::empty(),
    }
}

/// A further unit read from its subpart record, with the component's LCSC
/// record and description.
pub open spec fn subpart_unit_spec(
    u: EeSymbol<SymbolSource>,
    sp: JsonValue,
    lcsc: JsonValue,
    description: Seq<char>,
) -> bool {
    let ds = or_null(get_spec(sp, "dataStr"@));
    let head = or_null(get_spec(ds, "head"@));
    &&& symbol_unit_spec(
        u,
        ds,
        or_null(get_spec(head, "c_para"@)),
        lcsc,
        or_null(get_spec(ds, "BBox"@)),
        head,
        description,
    )
    &&& u.sub_symbols@.len() == 0
}

/// What `parse_symbol` yields for an API record.
pub open spec fn parse_symbol_spec(api: JsonValue, r: Result<EeSymbol<SymbolSource>, Error>) -> bool {
    let ds = get_spec(api, "dataStr"@);
    let head = get_opt(ds, "head"@);
    let subs = subparts_of(api);
    let lcsc = or_null(get_spec(api, "lcsc"@));
    let description = safe_string_spec(or_null(get_spec(api, "description"@)));
    if ds is None {
        r matches Err(Error::Parse(m)) && m@ == "missing dataStr"@
    } else if head is None {
        r matches Err(Error::Parse(m)) && m@ == "missing dataStr.head"@
    } else if exists|k: int| 0 <= k < subs.len() && !subpart_ok(#[trigger] subs[k]) {
        exists|k: int|
            0 <= k < subs.len() && !subpart_ok(#[trigger] subs[k]) && (forall|j: int|
                0 <= j < k ==> subpart_ok(#[trigger] subs[j])) && (r matches Err(Error::Parse(m))
                && m@ == subpart_error(subs[k]))
    } else {
        r matches Ok(sym) && {
            let d = or_null(ds);
            let h = or_null(head);
            &&& symbol_unit_spec(
                sym,
                d,
                or_null(get_spec(h, "c_para"@)),
                lcsc,
                or_null(get_spec(d, "BBox"@)),
                h,
                description,
            )
            &&& sym.sub_symbols@.len() == subs.len()
            &&& forall|i: int|
                0 <= i < subs.len() ==> subpart_unit_spec(
                    #[trigger] sym.sub_symbols@[i],
                    subs[i],
                    lcsc,
                    description,
                )
        }
    }
}

/// Reads the symbol of an API record, with the further units of a
/// multi-unit component.
pub fn parse_symbol(api_result: &JsonValue) -> (r: Result<EeSymbol<SymbolSource>, Error>)
    ensures
        parse_symbol_spec(*api_result, r),
{
    let null = JsonValue::Null;
    let datastr = match get(api_result, "dataStr") {
        Some(d) => d,
        None => {
            return Err(Error::Parse(String::from_str("missing dataStr")));
        },
    };
    let head = match get(datastr, "head") {
        Some(h) => h,
        None => {
            return Err(Error::Parse(String::from_str("missing dataStr.head")));
        },
    };
    let bbox = match get(datastr, "BBox") {
        Some(b) => b,
        None => &null,
    };
    let c_para = match get(head, "c_para") {
        Some(c) => c,
        None => &null,
    };
    let lcsc = match get(api_result, "lcsc") {
        Some(l) => l,
        None => &null,
    };
    let description = safe_string_of(get(api_result, "description"));
    let mut sym = match build_symbol_unit(datastr, c_para, lcsc, bbox, head, description.as_str()) {
        Ok(s) => s,
        Err(e) => {
            return Err(e);
        },
    };
    let ghost subs = subparts_of(*api_result);
    match get(api_result, "subparts") {
        Some(JsonValue::Array(items)) => {
            let n = items.len();
            let mut i: usize = 0;
            while i < n
                invariant
                    i <= n == items@.len(),
                    items@ == subs,
                    subs == subparts_of(*api_result),
                    null == JsonValue::Null,
                    get_spec(*api_result, "dataStr"@) == Some(*datastr),
                    get_spec(*datastr, "head"@) == Some(*head),
                    sym.sub_symbols@.len() == i,
                    forall|j: int| 0 <= j < i ==> subpart_ok(#[trigger] subs[j]),
                    forall|j: int|
                        0 <= j < i ==> subpart_unit_spec(
                            #[trigger] sym.sub_symbols@[j],
                            subs[j],
                            *lcsc,
                            description@,
                        ),
                    symbol_unit_spec(
                        sym,
                        *datastr,
                        *c_para,
                        *lcsc,
                        *bbox,
                        *head,
                        description@,
                    ),
                decreases n - i,
            {
                let sp = &items[i];
                let sp_datastr = match get(sp, "dataStr") {
                    Some(d) => d,
                    None => {
                        assert(subs[i as int] == *sp);
                        assert(!subpart_ok(subs[i as int]));
                        return Err(Error::Parse(String::from_str("subpart missing dataStr")));
                    },
                };
                let sp_head = match get(sp_datastr, "head") {
                    Some(h) => h,
                    None => {
                        assert(subs[i as int] == *sp);
                        assert(!subpart_ok(subs[i as int]));
                        return Err(
                            Error::Parse(String::from_str("subpart missing dataStr.head")),
                        );
                    },
                };
                assert(subs[i as int] == *sp);
                assert(get_spec(*sp, "dataStr"@) == Some(*sp_datastr));
                assert(subpart_ok(subs[i as int]));
                let sp_bbox = match get(sp_datastr, "BBox") {
                    Some(b) => b,
                    None => &null,
                };
                let sp_cpara = match get(sp_head, "c_para") {
                    Some(c) => c,
                    None => &null,
                };
                let sub = match build_symbol_unit(
                    sp_datastr,
                    sp_cpara,
                    lcsc,
                    sp_bbox,
                    sp_head,
                    description.as_str(),
                ) {
                    Ok(s) => s,
                    Err(e) => {
                        return Err(e);
                    },
                };
                assert(*sp_bbox == or_null(get_spec(*sp_datastr, "BBox"@)));
                assert(*sp_cpara == or_null(get_spec(*sp_head, "c_para"@)));
                assert(subpart_unit_spec(sub, subs[i as int], *lcsc, description@));
                sym.sub_symbols.push(sub);
                assert(sym.sub_symbols@[i as int] == sub);
                i += 1;
            }
        },
        _ => {},
    }
    Ok(sym)
}

/// The footprint of an API record: its parameters and type, its coordinate
/// sources and its shapes.
pub open spec fn footprint_spec(
    f: EeFootprint<FootprintSource>,
    api: JsonValue,
    pkg: JsonValue,
    datastr: JsonValue,
    head: JsonValue,
) -> bool {
    let c_para = or_null(get_spec(head, "c_para"@));
    let assembly = as_str_spec(
        get_opt(get_opt(get_spec(api, "customData"@), "jlcPara"@), "assemblyProcess"@),
    );
    let title = as_str_spec(get_spec(pkg, "title"@));
    let smt = get_spec(api, "SMT"@) == Some(JsonValue::Bool(true));
    let is_smd = is_smd_spec(
        match assembly {
            Some(a) => a,
            None => Seq::empty(),
        },
        smt,
        match title {
            Some(t) => t,
            None => Seq::empty(),
        },
    );
    let canvas = as_str_spec(get_spec(datastr, "canvas"@));
    let strs = shape_strings(get_spec(datastr, "shape"@));
    &&& f.info.name@ == safe_string_spec(or_null(get_spec(c_para, "package"@)))
    &&& f.info.fp_type@ == (if is_smd {
        "smd"@
    } else {
        "tht"@
    })
    &&& f.info.model_3d_uuid@ == safe_string_spec(or_null(get_spec(c_para, "3DModel"@)))
    &&& f.info.manufacturer@ == pick_spec(
        c_para,
        str_views(seq!["Manufacturer", "BOM_Manufacturer"]),
    )
    &&& f.info.mpn@ == pick_spec(
        c_para,
        str_views(seq!["Manufacturer Part", "BOM_Manufacturer Part"]),
    )
    &&& f.info.lcsc_id@ == safe_string_spec(
        or_null(get_opt(get_spec(api, "lcsc"@), "number"@)),
    )
    &&& f.info.description@ == safe_string_spec(or_null(get_spec(api, "description"@)))
    &&& numeric_source_matches(f.geometry.head_x, get_spec(head, "x"@))
    &&& numeric_source_matches(f.geometry.head_y, get_spec(head, "y"@))
    &&& (match canvas {
        Some(c) => (f.geometry.canvas_origin is Some <==> split_on(c, '~').len() > 17) && (
        f.geometry.canvas_origin matches Some((x, y)) ==> x@ == split_on(c, '~')[16] && y@
            == split_on(c, '~')[17]),
        None => f.geometry.canvas_origin is None,
    })
    &&& f.geometry.shapes@.len() == strs.len()
    &&& forall|i: int|
        0 <= i < strs.len() ==> footprint_shape_spec(strs[i], #[trigger] f.geometry.shapes@[i])
}

/// What `parse_footprint` yields for an API record.
pub open spec fn parse_footprint_spec(
    api: JsonValue,
    r: Result<EeFootprint<FootprintSource>, Error>,
) -> bool {
    let pkg = get_spec(api, "packageDetail"@);
    let ds = get_opt(pkg, "dataStr"@);
    let head = get_opt(ds, "head"@);
    if pkg is None {
        r matches Err(Error::Parse(m)) && m@ == "missing packageDetail"@
    } else if ds is None {
        r matches Err(Error::Parse(m)) && m@ == "missing packageDetail.dataStr"@
    } else if head is None {
        r matches Err(Error::Parse(m)) && m@ == "missing packageDetail.dataStr.head"@
    } else {
        r matches Ok(f) && footprint_spec(f, api, or_null(pkg), or_null(ds), or_null(head))
    }
}

/// The text of an optional string member, empty where it is missing or not
/// a string.
fn str_or_empty(v: Option<&JsonValue>) -> (r: String)
    ensures
        r@ == match as_str_spec(
            match v {
                Some(x) => Some(*x),
                None => None,
            },
        ) {
            Some(s) => s,
            None => Seq::empty(),
        },
{
    match v {
        Some(JsonValue::String(s)) => s.clone(),
        _ => String::new(),
    }
}

/// The member `key` of an optional value.
fn get_in<'a>(v: Option<&'a JsonValue>, key: &str) -> (r: Option<&'a JsonValue>)
    ensures
        match r {
            Some(x) => get_opt(
                match v {
                    Some(y) => Some(*y),
                    None => None,
                },
                key@,
            ) == Some(*x),
            None => get_opt(
                match v {
                    Some(y) => Some(*y),
                    None => None,
                },
                key@,
            ) is None,
        },
{
    match v {
        Some(x) => get(x, key),
        None => None,
    }
}

/// Reads the footprint of an API record.
pub fn parse_footprint(api_result: &JsonValue) -> (r: Result<EeFootprint<FootprintSource>, Error>)
    ensures
        parse_footprint_spec(*api_result, r),
{
    let null = JsonValue::Null;
    let pkg = match get(api_result, "packageDetail") {
        Some(p) => p,
        None => {
            return Err(Error::Parse(String::from_str("missing packageDetail")));
        },
    };
    let datastr = match get(pkg, "dataStr") {
        Some(d) => d,
        None => {
            return Err(Error::Parse(String::from_str("missing packageDetail.dataStr")));
        },
    };
    let head = match get(datastr, "head") {
        Some(h) => h,
        None => {
            return Err(Error::Parse(String::from_str("missing packageDetail.dataStr.head")));
        },
    };
    let c_para = match get(head, "c_para") {
        Some(c) => c,
        None => &null,
    };
    let assembly = str_or_empty(
        get_in(get_in(get(api_result, "customData"), "jlcPara"), "assemblyProcess"),
    );
    let title = str_or_empty(get(pkg, "title"));
    let smt = match get(api_result, "SMT") {
        Some(JsonValue::Bool(b)) => *b,
        _ => false,
    };
    let is_smd = footprint_is_smd(assembly.as_str(), smt, title.as_str());
    let info = EeFootprintInfo {
        name: safe_string_of(get(c_para, "package")),
        fp_type: footprint_type(is_smd),
        model_3d_uuid: safe_string_of(get(c_para, "3DModel")),
        manufacturer: pick_str(c_para, &["Manufacturer", "BOM_Manufacturer"]),
        mpn: pick_str(c_para, &["Manufacturer Part", "BOM_Manufacturer Part"]),
        lcsc_id: safe_string_of(get_in(get(api_result, "lcsc"), "number")),
        description: safe_string_of(get(api_result, "description")),
    };
    let canvas_origin = match get(datastr, "canvas") {
        Some(JsonValue::String(c)) => canvas_origin_fields(c.as_str()),
        _ => None,
    };
    let strs = shape_string_list(datastr);
    let ghost sv = strs@.map_values(|s: String| s@);
    let mut shapes: Vec<FootprintShape> = Vec::new();
    let n = strs.len();
    let mut i: usize = 0;
    while i < n
        invariant
            i <= n == strs@.len() == sv.len(),
            sv == strs@.map_values(|s: String| s@),
            shapes@.len() == i,
            forall|j: int| 0 <= j < i ==> footprint_shape_spec(sv[j], #[trigger] shapes@[j]),
        decreases n - i,
    {
        shapes.push(parse_footprint_shape(strs[i].as_str()));
        i += 1;
    }
    Ok(
        EeFootprint {
            info,
            geometry: FootprintSource {
                head_x: numeric_source(get(head, "x")),
                head_y: numeric_source(get(head, "y")),
                canvas_origin,
                shapes,
            },
        },
    )
}

/// The component parameters of a footprint record:
/// `packageDetail.dataStr.head.c_para`, `Null` where missing.
pub open spec fn footprint_c_para(api: JsonValue) -> JsonValue {
    or_null(
        get_opt(
            get_opt(get_opt(get_spec(api, "packageDetail"@), "dataStr"@), "head"@),
            "c_para"@,
        ),
    )
}

/// A footprint record is read exactly when it has `packageDetail.dataStr.head`,
/// and the footprint then names its manufacturer by the component
/// parameters' `Manufacturer` where that is not empty, else by
/// `BOM_Manufacturer`; its part number by `Manufacturer Part`, else
/// `BOM_Manufacturer Part`; its name by `package` and its 3D model by
/// `3DModel`.
pub proof fn lemma_footprint_part_fields(api: JsonValue, r: Result<EeFootprint<FootprintSource>, Error>)
    requires
        parse_footprint_spec(api, r),
    ensures
        r is Ok <==> get_opt(get_opt(get_spec(api, "packageDetail"@), "dataStr"@), "head"@) is Some,
        r matches Ok(f) ==> {
            let c = footprint_c_para(api);
            &&& f.info.manufacturer@ == first_nonempty(
                safe_string_spec(or_null(get_spec(c, "Manufacturer"@))),
                safe_string_spec(or_null(get_spec(c, "BOM_Manufacturer"@))),
            )
            &&& f.info.mpn@ == first_nonempty(
                safe_string_spec(or_null(get_spec(c, "Manufacturer Part"@))),
                safe_string_spec(or_null(get_spec(c, "BOM_Manufacturer Part"@))),
            )
            &&& f.info.name@ == safe_string_spec(or_null(get_spec(c, "package"@)))
            &&& f.info.model_3d_uuid@ == safe_string_spec(or_null(get_spec(c, "3DModel"@)))
        },
{
    let c = footprint_c_para(api);
    lemma_pick_two(c, "Manufacturer"@, "BOM_Manufacturer"@);
    lemma_pick_two(c, "Manufacturer Part"@, "BOM_Manufacturer Part"@);
    assert(str_views(seq!["Manufacturer", "BOM_Manufacturer"]) =~= seq![
        "Manufacturer"@,
        "BOM_Manufacturer"@,
    ]);
    assert(str_views(seq!["Manufacturer Part", "BOM_Manufacturer Part"]) =~= seq![
        "Manufacturer Part"@,
        "BOM_Manufacturer Part"@,
    ]);
}

/// A symbol record that is read names its manufacturer by the head's
/// component parameters' `Manufacturer` where that is not empty, else by
/// `BOM_Manufacturer`, and its part number by `Manufacturer Part`, else
/// `BOM_Manufacturer Part`; its name is the sanitized `name`, its prefix
/// `pre`, its package `package`, and its LCSC id the LCSC record's `number`.
pub proof fn lemma_symbol_part_fields(api: JsonValue, r: Result<EeSymbol<SymbolSource>, Error>)
    requires
        parse_symbol_spec(api, r),
    ensures
        r matches Ok(sym) ==> {
            let c = or_null(get_opt(get_opt(get_spec(api, "dataStr"@), "head"@), "c_para"@));
            &&& sym.info.manufacturer@ == first_nonempty(
                safe_string_spec(or_null(get_spec(c, "Manufacturer"@))),
                safe_string_spec(or_null(get_spec(c, "BOM_Manufacturer"@))),
            )
            &&& sym.info.mpn@ == first_nonempty(
                safe_string_spec(or_null(get_spec(c, "Manufacturer Part"@))),
                safe_string_spec(or_null(get_spec(c, "BOM_Manufacturer Part"@))),
            )
            &&& sym.info.name@ == sanitized_name(safe_string_spec(or_null(get_spec(c, "name"@))))
            &&& sym.info.prefix@ == safe_string_spec(or_null(get_spec(c, "pre"@)))
            &&& sym.info.package@ == safe_string_spec(or_null(get_spec(c, "package"@)))
            &&& sym.info.lcsc_id@ == safe_string_spec(
                or_null(get_opt(get_spec(api, "lcsc"@), "number"@)),
            )
        },
{
    let c = or_null(get_opt(get_opt(get_spec(api, "dataStr"@), "head"@), "c_para"@));
    lemma_pick_two(c, "Manufacturer"@, "BOM_Manufacturer"@);
    lemma_pick_two(c, "Manufacturer Part"@, "BOM_Manufacturer Part"@);
    assert(str_views(seq!["Manufacturer", "BOM_Manufacturer"]) =~= seq![
        "Manufacturer"@,
        "BOM_Manufacturer"@,
    ]);
    assert(str_views(seq!["Manufacturer Part", "BOM_Manufacturer Part"]) =~= seq![
        "Manufacturer Part"@,
        "BOM_Manufacturer Part"@,
    ]);
}

} // verus!
