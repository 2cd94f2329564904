//! The EasyEDA API's addresses, its cache file names, and the reading of
//! its answer envelope.

use vstd::prelude::*;

use crate::error::Error;
use crate::json::{get, get_spec, JsonValue};
use crate::text::{chars_eq, chars_of, string_of};

verus! {

/// The address of a component's CAD data.
pub fn cad_data_url(lcsc_id: &str) -> (r: String)
    ensures
        r@ == "https://easyeda.com/api/products/"@ + lcsc_id@ + "/components"@,
{
    String::from_str("https://easyeda.com/api/products/").concat(lcsc_id).concat("/components")
}

/// The address of a 3D model's STEP body.
pub fn step_url(uuid: &str) -> (r: String)
    ensures
        r@ == "https://modules.easyeda.com/qAxj6KHrDKw4blvCG8QJPs7Y/"@ + uuid@,
{
    String::from_str("https://modules.easyeda.com/qAxj6KHrDKw4blvCG8QJPs7Y/").concat(uuid)
}

/// The address of a 3D model's OBJ mesh.
pub fn obj_url(uuid: &str) -> (r: String)
    ensures
        r@ == "https://modules.easyeda.com/3dmodel/"@ + uuid@,
{
    String::from_str("https://modules.easyeda.com/3dmodel/").concat(uuid)
}

/// `c`, with a path separator replaced by `_`.
pub open spec fn safe_path_char(c: char) -> char {
    if c == '/' || c == '\\' {
        '_'
    } else {
        c
    }
}

/// The cache file name of an identifier: path separators replaced by `_`,
/// then `.` and the extension.
pub open spec fn cache_file_name_spec(identifier: Seq<char>, ext: Seq<char>) -> Seq<char> {
    identifier.map_values(|c: char| safe_path_char(c)) + seq!['.'] + ext
}

/// The cache file name of an identifier, such as `C2040.json`.
pub fn cache_file_name(identifier: &str, ext: &str) -> (r: String)
    ensures
        r@ == cache_file_name_spec(identifier@, ext@),
        forall|i: int| 0 <= i < identifier@.len() ==> r@[i] != '/' && r@[i] != '\\',
{
    let id = chars_of(identifier);
    let mut out: Vec<char> = Vec::new();
    let mut i: usize = 0;
    while i < id.len()
        invariant
            i <= id.len(),
            out@ =~= id@.take(i as int).map_values(|c: char| safe_path_char(c)),
        decreases id.len() - i,
    {
        let c = id[i];
        out.push(if c == '/' || c == '\\' { '_' } else { c });
        i += 1;
    }
    assert(id@.take(id.len() as int) =~= id@);
    out.push('.');
    let e = chars_of(ext);
    let mut j: usize = 0;
    let ghost base = out@;
    while j < e.len()
        invariant
            j <= e.len(),
            out@ =~= base + e@.take(j as int),
        decreases e.len() - j,
    {
        out.push(e[j]);
        j += 1;
    }
    assert(e@.take(e.len() as int) =~= e@);
    string_of(&out)
}

/// The position of the first member named `key`, where there is one.
fn member_position(members: &Vec<(String, JsonValue)>, key: &str) -> (r: Option<usize>)
    ensures
        match r {
            Some(i) => i < members@.len() && crate::json::member_index(members@, key@) == i,
            None => crate::json::member_index(members@, key@) == members@.len(),
        },
{
    let k = chars_of(key);
    let n = members.len();
    let mut i: usize = 0;
    assert(members@.skip(0) =~= members@);
    while i < n
        invariant
            i <= n == members@.len(),
            k@ == key@,
            crate::json::member_index(members@, key@) == i + crate::json::member_index(
                members@.skip(i as int),
                key@,
            ),
        decreases n - i,
    {
        assert(members@.skip(i as int)[0] == members@[i as int]);
        if chars_eq(&chars_of(members[i].0.as_str()), &k) {
            return Some(i);
        }
        assert(members@.skip(i as int).drop_first() =~= members@.skip(i + 1));
        i += 1;
    }
    assert(members@.skip(n as int) =~= Seq::<(String, JsonValue)>::empty());
    None
}

/// The `result` of an API answer: refused where the answer says
/// `success: false`, and where it has no `result`. `message_json` is the
/// JSON text of the answer's `message` member, as the caller serialised it;
/// the refusal quotes it where that member is present, and nothing where it
/// is missing.
pub fn extract_result(v: JsonValue, message_json: &str) -> (r: Result<JsonValue, Error>)
    ensures
        get_spec(v, "success"@) == Some(JsonValue::Bool(false)) ==> (r matches Err(Error::Api(m))
            && m@ == "API returned success=false: "@ + (if get_spec(v, "message"@) is Some {
            message_json@
        } else {
            Seq::<char>::empty()
        })),
        get_spec(v, "success"@) != Some(JsonValue::Bool(false)) ==> match get_spec(v, "result"@) {
            Some(x) => r == Ok::<JsonValue, Error>(x),
            None => (r matches Err(Error::Api(m)) && m@ == "missing 'result' in API response"@),
        },
{
    let refused = match get(&v, "success") {
        Some(JsonValue::Bool(b)) => !*b,
        _ => false,
    };
    if refused {
        let prefix = String::from_str("API returned success=false: ");
        if get(&v, "message").is_some() {
            return Err(Error::Api(prefix.concat(message_json)));
        }
        assert(prefix@ + Seq::<char>::empty() =~= prefix@);
        return Err(Error::Api(prefix));
    }
    match v {
        JsonValue::Object(mut members) => match member_position(&members, "result") {
            Some(i) => {
                let (_, x) = members.remove(i);
                Ok(x)
            },
            None => Err(Error::Api(String::from_str("missing 'result' in API response"))),
        },
        _ => Err(Error::Api(String::from_str("missing 'result' in API response"))),
    }
}

} // verus!
