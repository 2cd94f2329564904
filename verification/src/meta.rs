//! The descriptive fields of a component: names, part numbers, URLs and
//! parameters, as read from the CAD data and as written to the libraries.

use vstd::prelude::*;

use crate::json::{
    get, get_spec, numeric_source, numeric_source_matches, or_null, safe_string, safe_string_of,
    safe_string_spec, JsonValue, NumericSource,
};
use crate::text::{
    chars_eq, chars_eq_ignore_ascii_case, chars_of, contains_infix, eq_ignore_ascii_case,
    find_char, has_infix, index_of, join_spaced, lemma_index_of, lemma_remove_all_excludes,
    lemma_trim, remove_all, remove_char, split_char, split_on, string_of, subvec, trim,
    trim_chars, views,
};
use crate::types::{EeFootprintInfo, EeSymbolInfo};

verus! {

// ---------------------------------------------------------------------------
// Reading the CAD data
// ---------------------------------------------------------------------------

/// `s` up to (not including) its first `(` or `[`.
pub open spec fn before_bracket(s: Seq<char>) -> Seq<char> {
    let a = index_of(s, '(');
    let b = index_of(s, '[');
    s.take(if a < b { a } else { b })
}

/// A component name without the packaging note that EasyEDA appends in
/// parentheses or brackets, trimmed.
pub open spec fn sanitized_name(s: Seq<char>) -> Seq<char> {
    trim(before_bracket(s))
}

/// A sanitized name holds no `(` or `[`, and sanitizing it again leaves it
/// as it is.
pub proof fn lemma_sanitized_name_idempotent(s: Seq<char>)
    ensures
        !sanitized_name(s).contains('('),
        !sanitized_name(s).contains('['),
        sanitized_name(sanitized_name(s)) == sanitized_name(s),
{
    lemma_index_of(s, '(');
    lemma_index_of(s, '[');
    let b = before_bracket(s);
    assert(!b.contains('(') && !b.contains('[')) by {
        assert forall|i: int| 0 <= i < b.len() implies b[i] != '(' && b[i] != '[' by {
            assert(b[i] == s[i]);
        }
    }
    let t = sanitized_name(s);
    lemma_trim(b);
    let (x, y) = choose|x: int, y: int| 0 <= x <= y <= b.len() && trim(b) == b.subrange(x, y);
    assert(!t.contains('(') && !t.contains('[')) by {
        assert forall|i: int| 0 <= i < t.len() implies t[i] != '(' && t[i] != '[' by {
            assert(t[i] == b[x + i]);
        }
    }
    lemma_index_of(t, '(');
    lemma_index_of(t, '[');
    assert(before_bracket(t) =~= t);
    lemma_trim(t);
}

/// Drops everything from the first `(` or `[` of a component name and trims
/// the rest: `ATmega328P (TQFP)` becomes `ATmega328P`.
pub fn sanitize_component_name(name: &str) -> (r: String)
    ensures
        r@ == sanitized_name(name@),
{
    let chars = chars_of(name);
    proof {
        lemma_index_of(chars@, '(');
        lemma_index_of(chars@, '[');
    }
    let mut end = chars.len();
    match find_char(&chars, '(') {
        Some(i) => {
            end = i;
        },
        None => {},
    }
    match find_char(&chars, '[') {
        Some(i) => {
            if i < end {
                end = i;
            }
        },
        None => {},
    }
    let kept = subvec(&chars, 0, end);
    assert(kept@ =~= before_bracket(chars@));
    string_of(&trim_chars(&kept))
}

/// The views of a list of string slices.
pub open spec fn str_views(keys: Seq<&str>) -> Seq<Seq<char>> {
    keys.map_values(|k: &str| k@)
}

/// The string form of the first of `keys` that `c_para` has with a value
/// whose string form is not empty; the empty string where there is none.
pub open spec fn pick_spec(c_para: JsonValue, keys: Seq<Seq<char>>) -> Seq<char>
    decreases keys.len(),
{
    if keys.len() == 0 {
        Seq::empty()
    } else {
        match get_spec(c_para, keys[0]) {
            Some(v) if safe_string_spec(v).len() > 0 => safe_string_spec(v),
            _ => pick_spec(c_para, keys.drop_first()),
        }
    }
}

/// `a` where it is not empty, else `b`.
pub open spec fn first_nonempty(a: Seq<char>, b: Seq<char>) -> Seq<char> {
    if a.len() > 0 {
        a
    } else {
        b
    }
}

/// Picking from two keys gives the first key's value where it is not empty,
/// else the second key's (empty where both are).
pub proof fn lemma_pick_two(c_para: JsonValue, k1: Seq<char>, k2: Seq<char>)
    ensures
        pick_spec(c_para, seq![k1, k2]) == first_nonempty(
            safe_string_spec(or_null(get_spec(c_para, k1))),
            safe_string_spec(or_null(get_spec(c_para, k2))),
        ),
{
    let ks = seq![k1, k2];
    let one = seq![k2];
    let none = Seq::<Seq<char>>::empty();
    assert(ks.drop_first() =~= one);
    assert(one.drop_first() =~= none);
    assert(ks[0] == k1 && one[0] == k2);
    assert(pick_spec(c_para, none) == Seq::<char>::empty());
    assert(safe_string_spec(JsonValue::Null).len() == 0);
    assert(pick_spec(c_para, one) == safe_string_spec(or_null(get_spec(c_para, k2))));
}

/// The value of the first of several keys (tried in order) that the
/// parameters have with a non-empty value; the empty string where there is
/// none.
pub fn pick_str(c_para: &JsonValue, keys: &[&str]) -> (r: String)
    ensures
        r@ == pick_spec(*c_para, str_views(keys@)),
{
    let n = keys.len();
    let ghost ks = str_views(keys@);
    let mut i: usize = 0;
    assert(ks.skip(0) =~= ks);
    while i < n
        invariant
            i <= n == keys@.len() == ks.len(),
            ks == str_views(keys@),
            pick_spec(*c_para, ks) == pick_spec(*c_para, ks.skip(i as int)),
        decreases n - i,
    {
        assert(ks.skip(i as int)[0] == keys@[i as int]@);
        assert(ks.skip(i as int).drop_first() =~= ks.skip(i + 1));
        match get(c_para, keys[i]) {
            Some(v) => {
                let s = safe_string(v);
                if s.as_str().unicode_len() > 0 {
                    return s;
                }
            },
            None => {},
        }
        i += 1;
    }
    String::new()
}

/// The string elements of `items`, in order.
pub open spec fn string_elements(items: Seq<JsonValue>) -> Seq<Seq<char>>
    decreases items.len(),
{
    if items.len() == 0 {
        Seq::empty()
    } else {
        match items.last() {
            JsonValue::String(s) => string_elements(items.drop_last()).push(s@),
            _ => string_elements(items.drop_last()),
        }
    }
}

/// The keywords of a symbol given its tags: the string elements of the tag
/// array joined by spaces (other elements are skipped); empty where the
/// tags are missing or not an array.
pub open spec fn tags_spec(tags: Option<JsonValue>) -> Seq<char> {
    match tags {
        Some(JsonValue::Array(items)) => join_spaced(string_elements(items@)),
        _ => Seq::empty(),
    }
}

/// The keywords of a symbol given its tags.
pub fn tags_to_string(tags: Option<&JsonValue>) -> (r: String)
    ensures
        r@ == tags_spec(
            match tags {
                Some(t) => Some(*t),
                None => None,
            },
        ),
{
    match tags {
        Some(JsonValue::Array(t)) => {
            let n = t.len();
            let mut out = String::new();
            let mut count: usize = 0;
            let mut i: usize = 0;
            assert(t@.take(0) =~= Seq::<JsonValue>::empty());
            while i < n
                invariant
                    i <= n == t@.len(),
                    out@ == join_spaced(string_elements(t@.take(i as int))),
                    count == string_elements(t@.take(i as int)).len(),
                    count <= i,
                decreases n - i,
            {
                let ghost prev = string_elements(t@.take(i as int));
                assert(t@.take(i + 1).drop_last() =~= t@.take(i as int));
                assert(t@.take(i + 1).last() == t@[i as int]);
                match &t[i] {
                    JsonValue::String(s) => {
                        if count > 0 {
                            out.append(" ");
                        }
                        out.append(s.as_str());
                        proof {
                            let now = prev.push(s@);
                            assert(now.drop_last() =~= prev);
                            reveal_strlit(" ");
                            if count > 0 {
                                assert(now.len() >= 2);
                                assert(now.last() == s@);
                                assert(join_spaced(now) =~= join_spaced(prev) + seq![' '] + s@);
                            } else {
                                assert(now =~= seq![s@]);
                                assert(out@ =~= s@);
                            }
                        }
                        count += 1;
                    },
                    _ => {},
                }
                i += 1;
            }
            assert(t@.take(n as int) =~= t@);
            out
        },
        _ => String::new(),
    }
}

/// The datasheet link of a component: the LCSC URL where there is one, else
/// the LCSC datasheet address built from the part number, else empty.
pub open spec fn datasheet_spec(url: Seq<char>, number: Seq<char>) -> Seq<char> {
    if url.len() > 0 {
        url
    } else if number.len() > 0 {
        "https://www.lcsc.com/datasheet/"@ + number + ".pdf"@
    } else {
        Seq::empty()
    }
}

/// The datasheet link of a component.
pub fn datasheet_url(url: &str, lcsc_number: &str) -> (r: String)
    ensures
        r@ == datasheet_spec(url@, lcsc_number@),
{
    if url.unicode_len() > 0 {
        url.to_owned()
    } else if lcsc_number.unicode_len() > 0 {
        String::from_str("https://www.lcsc.com/datasheet/").concat(lcsc_number).concat(".pdf")
    } else {
        String::new()
    }
}

/// Whether a footprint is surface-mount: by the assembly process where one
/// is given (`SMT`, in any ASCII case), else by the SMT flag unless the
/// package title marks a through-hole part (`-TH_`).
pub open spec fn is_smd_spec(assembly: Seq<char>, smt: bool, title: Seq<char>) -> bool {
    if assembly.len() > 0 {
        eq_ignore_ascii_case(assembly, seq!['S', 'M', 'T'])
    } else {
        smt && !has_infix(title, seq!['-', 'T', 'H', '_'])
    }
}

/// Whether a footprint is surface-mount.
pub fn footprint_is_smd(assembly: &str, smt: bool, title: &str) -> (r: bool)
    ensures
        r == is_smd_spec(assembly@, smt, title@),
{
    let a = chars_of(assembly);
    if a.len() > 0 {
        chars_eq_ignore_ascii_case(&a, &vec!['S', 'M', 'T'])
    } else {
        smt && !contains_infix(&chars_of(title), &vec!['-', 'T', 'H', '_'])
    }
}

/// The footprint type name: `smd` or `tht`.
pub fn footprint_type(is_smd: bool) -> (r: String)
    ensures
        r@ == (if is_smd {
            "smd"@
        } else {
            "tht"@
        }),
{
    if is_smd {
        String::from_str("smd")
    } else {
        String::from_str("tht")
    }
}

/// The canvas origin fields (positions 16 and 17 of the `~`-separated
/// canvas string), where the canvas string has more than 17 fields.
pub fn canvas_origin_fields(canvas: &str) -> (r: Option<(String, String)>)
    ensures
        r is Some <==> split_on(canvas@, '~').len() > 17,
        r matches Some((x, y)) ==> x@ == split_on(canvas@, '~')[16] && y@ == split_on(
            canvas@,
            '~',
        )[17],
{
    let parts = split_char(&chars_of(canvas), '~');
    if parts.len() > 17 {
        Some((string_of(&parts[16]), string_of(&parts[17])))
    } else {
        None
    }
}

// ---------------------------------------------------------------------------
// Writing the symbol library
// ---------------------------------------------------------------------------

/// The description of a converted symbol: the component's own description,
/// else `manufacturer mpn`, else the part number alone; none where all are
/// empty.
pub open spec fn symbol_description_spec(info: EeSymbolInfo) -> Option<Seq<char>> {
    if info.description@.len() > 0 {
        Some(info.description@)
    } else if info.mpn@.len() > 0 && info.manufacturer@.len() > 0 {
        Some(info.manufacturer@ + seq![' '] + info.mpn@)
    } else if info.mpn@.len() > 0 {
        Some(info.mpn@)
    } else {
        None
    }
}

/// The description of a converted symbol.
pub fn symbol_description(info: &EeSymbolInfo) -> (r: Option<String>)
    ensures
        match r {
            Some(s) => symbol_description_spec(*info) == Some(s@),
            None => symbol_description_spec(*info) is None,
        },
{
    let has_description = info.description.as_str().unicode_len() > 0;
    let has_mpn = info.mpn.as_str().unicode_len() > 0;
    let has_manufacturer = info.manufacturer.as_str().unicode_len() > 0;
    if has_description {
        Some(info.description.clone())
    } else if has_mpn && has_manufacturer {
        let mut s = info.manufacturer.clone();
        s.append(" ");
        s.append(info.mpn.as_str());
        proof {
            reveal_strlit(" ");
            assert(s@ =~= info.manufacturer@ + seq![' '] + info.mpn@);
        }
        Some(s)
    } else if has_mpn {
        Some(info.mpn.clone())
    } else {
        None
    }
}

/// The designator prefix of a converted symbol: EasyEDA's prefix without its
/// `?` placeholders (`U?` becomes `U`).
pub fn designator_prefix(prefix: &str) -> (r: String)
    ensures
        r@ == remove_all(prefix@, '?'),
        !r@.contains('?'),
{
    proof {
        lemma_remove_all_excludes(prefix@, '?');
    }
    string_of(&remove_char(&chars_of(prefix), '?'))
}

/// The design item id of a converted symbol: `name-lcsc_id`.
pub fn design_item_id(info: &EeSymbolInfo) -> (r: String)
    ensures
        r@ == info.name@ + "-"@ + info.lcsc_id@,
{
    info.name.clone().concat("-").concat(info.lcsc_id.as_str())
}

/// The list of `(name, value)` pairs of `entries`.
pub open spec fn pair_views(entries: Seq<(String, String)>) -> Seq<(Seq<char>, Seq<char>)> {
    entries.map_values(|e: (String, String)| (e.0@, e.1@))
}

/// The hidden parameters of a converted symbol that come from its
/// description: manufacturer, part number, LCSC part, datasheet and
/// keywords, each where it is not empty, in that order.
pub open spec fn builtin_parameters_spec(info: EeSymbolInfo) -> Seq<(Seq<char>, Seq<char>)> {
    let a = if info.manufacturer@.len() > 0 {
        seq![("Manufacturer"@, info.manufacturer@)]
    } else {
        Seq::empty()
    };
    let b = if info.mpn@.len() > 0 {
        seq![("MPN"@, info.mpn@)]
    } else {
        Seq::empty()
    };
    let c = if info.lcsc_id@.len() > 0 {
        seq![("LCSC Part"@, info.lcsc_id@)]
    } else {
        Seq::empty()
    };
    let d = if info.datasheet@.len() > 0 {
        seq![("Datasheet"@, info.datasheet@)]
    } else {
        Seq::empty()
    };
    let e = if info.keywords@.len() > 0 {
        seq![("Keywords"@, info.keywords@)]
    } else {
        Seq::empty()
    };
    a + b + c + d + e
}

fn push_if_present(out: &mut Vec<(String, String)>, name: &str, value: &String)
    ensures
        pair_views(final(out)@) == pair_views(old(out)@) + (if value@.len() > 0 {
            seq![(name@, value@)]
        } else {
            Seq::empty()
        }),
{
    if value.as_str().unicode_len() > 0 {
        let ghost before = out@;
        out.push((name.to_owned(), value.clone()));
        assert(pair_views(out@) =~= pair_views(before) + seq![(name@, value@)]);
    } else {
        assert(pair_views(out@) =~= pair_views(out@) + Seq::<(Seq<char>, Seq<char>)>::empty());
    }
}

/// The hidden parameters of a converted symbol that come from its
/// description.
pub fn builtin_parameters(info: &EeSymbolInfo) -> (r: Vec<(String, String)>)
    ensures
        pair_views(r@) == builtin_parameters_spec(*info),
{
    let mut v: Vec<(String, String)> = Vec::new();
    assert(pair_views(v@) =~= Seq::<(Seq<char>, Seq<char>)>::empty());
    push_if_present(&mut v, "Manufacturer", &info.manufacturer);
    push_if_present(&mut v, "MPN", &info.mpn);
    push_if_present(&mut v, "LCSC Part", &info.lcsc_id);
    push_if_present(&mut v, "Datasheet", &info.datasheet);
    push_if_present(&mut v, "Keywords", &info.keywords);
    assert(pair_views(v@) =~= builtin_parameters_spec(*info));
    v
}

/// All hidden parameters of a converted symbol: those from its description,
/// then the custom fields given on the command line.
pub fn symbol_parameters(info: &EeSymbolInfo, custom_fields: &Vec<(String, String)>) -> (r: Vec<
    (String, String),
>)
    ensures
        pair_views(r@) == builtin_parameters_spec(*info) + pair_views(custom_fields@),
{
    let mut v = builtin_parameters(info);
    let ghost base = pair_views(v@);
    let n = custom_fields.len();
    let mut i: usize = 0;
    while i < n
        invariant
            i <= n == custom_fields@.len(),
            pair_views(v@) == base + pair_views(custom_fields@.take(i as int)),
        decreases n - i,
    {
        let ghost before = v@;
        let (k, val) = &custom_fields[i];
        v.push((k.clone(), val.clone()));
        assert(pair_views(custom_fields@.take(i + 1)) =~= pair_views(custom_fields@.take(
            i as int,
        )).push((k@, val@)));
        assert(pair_views(v@) =~= pair_views(before).push((k@, val@)));
        i += 1;
    }
    assert(custom_fields@.take(n as int) =~= custom_fields@);
    v
}

/// The extra parameters of a converted footprint: LCSC part, manufacturer
/// and part number, each where it is not empty, in that order.
pub open spec fn footprint_parameters_spec(info: EeFootprintInfo) -> Seq<(Seq<char>, Seq<char>)> {
    let a = if info.lcsc_id@.len() > 0 {
        seq![("LCSC Part"@, info.lcsc_id@)]
    } else {
        Seq::empty()
    };
    let b = if info.manufacturer@.len() > 0 {
        seq![("Manufacturer"@, info.manufacturer@)]
    } else {
        Seq::empty()
    };
    let c = if info.mpn@.len() > 0 {
        seq![("MPN"@, info.mpn@)]
    } else {
        Seq::empty()
    };
    a + b + c
}

/// The extra parameters of a converted footprint.
pub fn footprint_parameters(info: &EeFootprintInfo) -> (r: Vec<(String, String)>)
    ensures
        pair_views(r@) == footprint_parameters_spec(*info),
{
    let mut v: Vec<(String, String)> = Vec::new();
    assert(pair_views(v@) =~= Seq::<(Seq<char>, Seq<char>)>::empty());
    push_if_present(&mut v, "LCSC Part", &info.lcsc_id);
    push_if_present(&mut v, "Manufacturer", &info.manufacturer);
    push_if_present(&mut v, "MPN", &info.mpn);
    assert(pair_views(v@) =~= footprint_parameters_spec(*info));
    v
}

/// The string form of the member `key` of `attrs`, empty where it is missing.
pub open spec fn attr_text(attrs: JsonValue, key: Seq<char>) -> Seq<char> {
    safe_string_spec(or_null(get_spec(attrs, key)))
}

/// The comma-separated pieces of `s`, each trimmed.
pub open spec fn trimmed_pieces(s: Seq<char>) -> Seq<Seq<char>> {
    split_on(s, ',').map_values(|p: Seq<char>| trim(p))
}

/// The comma-separated pieces of `s`, each trimmed.
fn trimmed_pieces_of(s: &String) -> (r: Vec<String>)
    ensures
        r@.map_values(|x: String| x@) == trimmed_pieces(s@),
{
    let parts = split_char(&chars_of(s.as_str()), ',');
    let ghost pv = views(parts@);
    let mut out: Vec<String> = Vec::new();
    let n = parts.len();
    let mut i: usize = 0;
    while i < n
        invariant
            i <= n == parts@.len(),
            pv == views(parts@),
            pv == split_on(s@, ','),
            out@.map_values(|x: String| x@) == pv.take(i as int).map_values(
                |p: Seq<char>| trim(p),
            ),
        decreases n - i,
    {
        let ghost before = out@;
        out.push(string_of(&trim_chars(&parts[i])));
        assert(pv[i as int] == parts@[i as int]@);
        assert(pv.take(i + 1).map_values(|p: Seq<char>| trim(p)) =~= pv.take(i as int).map_values(
            |p: Seq<char>| trim(p),
        ).push(trim(pv[i as int])));
        assert(out@.map_values(|x: String| x@) =~= before.map_values(|x: String| x@).push(
            trim(pv[i as int]),
        ));
        i += 1;
    }
    assert(pv.take(n as int) =~= pv);
    out
}

/// The 3D model that an `SVGNODE` names: its uuid and title, the pieces of
/// its origin and rotation, and the source of its height.
#[derive(Debug)]
pub struct SvgNodeModel {
    pub uuid: String,
    pub name: String,
    pub origin: Vec<String>,
    pub rotation: Vec<String>,
    pub z: NumericSource,
}

/// `r` is the model that the `SVGNODE` value `node` names: none where it
/// has no `attrs` or its `uuid` is empty; else the uuid, the title as the
/// name, the trimmed comma-separated pieces of `c_origin` and `c_rotation`,
/// and the source of `z`.
pub open spec fn svgnode_model_matches(r: Option<SvgNodeModel>, node: JsonValue) -> bool {
    match get_spec(node, "attrs"@) {
        None => r is None,
        Some(attrs) => if attr_text(attrs, "uuid"@).len() == 0 {
            r is None
        } else {
            match r {
                None => false,
                Some(m) => {
                    &&& m.uuid@ == attr_text(attrs, "uuid"@)
                    &&& m.name@ == attr_text(attrs, "title"@)
                    &&& m.origin@.map_values(|x: String| x@) == trimmed_pieces(
                        attr_text(attrs, "c_origin"@),
                    )
                    &&& m.rotation@.map_values(|x: String| x@) == trimmed_pieces(
                        attr_text(attrs, "c_rotation"@),
                    )
                    &&& numeric_source_matches(m.z, get_spec(attrs, "z"@))
                },
            }
        },
    }
}

/// The 3D model that an `SVGNODE` value names, if any.
pub fn svgnode_model(node: &JsonValue) -> (r: Option<SvgNodeModel>)
    ensures
        svgnode_model_matches(r, *node),
{
    let attrs = match get(node, "attrs") {
        Some(a) => a,
        None => return None,
    };
    let uuid = safe_string_of(get(attrs, "uuid"));
    if uuid.as_str().unicode_len() == 0 {
        return None;
    }
    let name = safe_string_of(get(attrs, "title"));
    let origin = trimmed_pieces_of(&safe_string_of(get(attrs, "c_origin")));
    let rotation = trimmed_pieces_of(&safe_string_of(get(attrs, "c_rotation")));
    let z = numeric_source(get(attrs, "z"));
    Some(SvgNodeModel { uuid, name, origin, rotation, z })
}

// ---------------------------------------------------------------------------
// Writing the footprint library
// ---------------------------------------------------------------------------

/// The file name of an embedded 3D model: the model's name, or its uuid where
/// it has no name, with `.step` appended.
pub open spec fn model_file_name_spec(name: Seq<char>, uuid: Seq<char>) -> Seq<char> {
    (if name.len() > 0 {
        name
    } else {
        uuid
    }) + ".step"@
}

/// The file name of an embedded 3D model.
pub fn model_file_name(name: &str, uuid: &str) -> (r: String)
    ensures
        r@ == model_file_name_spec(name@, uuid@),
{
    if name.unicode_len() > 0 {
        name.to_owned().concat(".step")
    } else {
        uuid.to_owned().concat(".step")
    }
}

/// Whether a model with this uuid is already among the library's models.
pub fn model_already_attached(model_ids: &Vec<String>, uuid: &str) -> (r: bool)
    ensures
        r <==> exists|i: int| 0 <= i < model_ids@.len() && #[trigger] model_ids@[i]@ == uuid@,
{
    let n = model_ids.len();
    let u = chars_of(uuid);
    let mut i: usize = 0;
    while i < n
        invariant
            i <= n == model_ids@.len(),
            u@ == uuid@,
            forall|j: int| 0 <= j < i ==> #[trigger] model_ids@[j]@ != uuid@,
        decreases n - i,
    {
        if chars_eq(&chars_of(model_ids[i].as_str()), &u) {
            return true;
        }
        i += 1;
    }
    false
}

/// The unique id of a footprint library: its own, or `AAAAAAAA` where it
/// has none.
pub fn default_unique_id(current: &str) -> (r: String)
    ensures
        r@ == (if current@.len() > 0 {
            current@
        } else {
            "AAAAAAAA"@
        }),
{
    if current.unicode_len() > 0 {
        current.to_owned()
    } else {
        String::from_str("AAAAAAAA")
    }
}

} // verus!
