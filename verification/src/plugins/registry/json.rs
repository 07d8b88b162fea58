//! The few JSON readings the registry sources make of tool output and lock
//! files, each through `serde_json`.
use vstd::prelude::*;

verus! {

/// What `serde_json` reads as the keys of the object under `field` of the
/// JSON document `text`, in the order its map yields them: `None` when the
/// text is not JSON or `field` is not an object.
pub uninterp spec fn json_object_keys_of(text: Seq<char>, field: Seq<char>) -> Option<Seq<Seq<char>>>;

/// What `serde_json` reads under `field` of each element of the array
/// under `key`: for each element, its `f1` and `f2` members when they are
/// strings. Outer `None`: the text is not JSON; inner `None`: `key` is not
/// an array.
pub uninterp spec fn json_array_pairs_of(
    text: Seq<char>,
    key: Seq<char>,
    f1: Seq<char>,
    f2: Seq<char>,
) -> Option<Option<Seq<(Option<Seq<char>>, Option<Seq<char>>)>>>;

/// What `serde_json` reads as the string under `field` of the JSON document
/// in `bytes`: `None` when the bytes are not JSON, the field is absent or
/// not a string.
pub uninterp spec fn json_str_field_of(bytes: Seq<u8>, field: Seq<char>) -> Option<Seq<char>>;

/// The views of optional strings.
pub open spec fn opt_pair_views(ps: Seq<(Option<String>, Option<String>)>) -> Seq<
    (Option<Seq<char>>, Option<Seq<char>>),
> {
    ps.map_values(
        |p: (Option<String>, Option<String>)|
            (crate::text::opt_view(p.0), crate::text::opt_view(p.1)),
    )
}

/// `serde_json::from_str::<Value>` followed by `get(field)`,
/// `as_object()` and the object's keys. The contract ties the keys to
/// `json_object_keys_of` and claims nothing of them.
#[verifier::external_body]
pub(crate) fn json_object_keys(text: &str, field: &str) -> (r: Option<Vec<String>>)
    ensures
        match r {
            Some(ks) => json_object_keys_of(text@, field@) == Some(ks.deep_view()),
            None => json_object_keys_of(text@, field@) is None,
        },
{
    let v = serde_json::from_str::<serde_json::Value>(text).ok()?;
    Some(v.get(field)?.as_object()?.keys().cloned().collect())
}

/// `serde_json::from_str::<Value>` followed by `get(key)`, `as_array()`
/// and, per element, `get(f1)` / `get(f2)` with `as_str()`. The contract
/// ties the result to `json_array_pairs_of` and claims nothing of it.
#[verifier::external_body]
pub(crate) fn json_array_pairs(text: &str, key: &str, f1: &str, f2: &str) -> (r: Option<
    Option<Vec<(Option<String>, Option<String>)>>,
>)
    ensures
        match r {
            Some(Some(ps)) => json_array_pairs_of(text@, key@, f1@, f2@) == Some(
                Some(opt_pair_views(ps@)),
            ),
            Some(None) => json_array_pairs_of(text@, key@, f1@, f2@) == Some(
                None::<Seq<(Option<Seq<char>>, Option<Seq<char>>)>>,
            ),
            None => json_array_pairs_of(text@, key@, f1@, f2@) is None,
        },
{
    let v = serde_json::from_str::<serde_json::Value>(text).ok()?;
    let Some(arr) = v.get(key).and_then(serde_json::Value::as_array) else {
        return Some(None);
    };
    let mut out = Vec::new();
    for e in arr {
        let a = e.get(f1).and_then(serde_json::Value::as_str).map(str::to_string);
        let b = e.get(f2).and_then(serde_json::Value::as_str).map(str::to_string);
        out.push((a, b));
    }
    Some(Some(out))
}

/// `serde_json::from_slice::<Value>` followed by `get(field)` and
/// `as_str()`. The contract ties the result to `json_str_field_of` and
/// claims nothing of it.
#[verifier::external_body]
pub(crate) fn json_str_field(bytes: &[u8], field: &str) -> (r: Option<String>)
    ensures
        crate::text::opt_view(r) == json_str_field_of(bytes@, field@),
{
    let v = serde_json::from_slice::<serde_json::Value>(bytes).ok()?;
    v.get(field)?.as_str().map(str::to_string)
}

} // verus!
