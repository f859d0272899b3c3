//! Secrets never leave the machine inside a bundle: the configuration JSON
//! is copied with its DPAPI blobs and SMTP user name blanked.

use vstd::prelude::*;

verus! {

#[verifier::external_type_specification]
#[verifier::external_body]
pub struct ExJsonValue(serde_json::Value);

/// `serde_json::from_str::<serde_json::Value>(text).ok()`: the value the
/// JSON text stands for, `None` when it is not JSON. A function of the text
/// alone.
pub uninterp spec fn json_parse(text: Seq<char>) -> Option<serde_json::Value>;

/// The top-level object of a JSON value: each key bound to the compact JSON
/// text (`serde_json::to_string`) of its value; `None` when the value is not
/// an object.
pub uninterp spec fn json_entries(v: serde_json::Value) -> Option<Map<Seq<char>, Seq<char>>>;

/// `serde_json::to_string_pretty(v)`: the value printed with indentation.
pub uninterp spec fn json_pretty(v: serde_json::Value) -> Seq<char>;

/// The text is JSON.
pub open spec fn is_json_text(text: Seq<char>) -> bool {
    json_parse(text) is Some
}

/// The compact JSON text of a string that needs no escaping.
pub open spec fn json_string_text(s: Seq<char>) -> Seq<char> {
    seq!['"'] + s + seq!['"']
}

/// Printable ASCII other than `"` and `\`: serde_json writes such a string
/// between quotes as it is.
pub open spec fn plain_json_string(s: Seq<char>) -> bool {
    forall|i: int| 0 <= i < s.len() ==> {
        let c = #[trigger] s[i];
        ' ' <= c && c <= '~' && c != '"' && c != '\\'
    }
}

/// `serde_json::from_str::<serde_json::Value>(text).ok()`. Claimed: the
/// result is the value the text stands for (a function of the text alone).
#[verifier::external_body]
fn parse_json(text: &str) -> (r: Option<serde_json::Value>)
    ensures
        r == json_parse(text@),
{
    serde_json::from_str::<serde_json::Value>(text).ok()
}

/// `Value::as_object` then `Map::contains_key`. Claimed: whether `v` is an
/// object with the key.
#[verifier::external_body]
fn object_has_key(v: &serde_json::Value, key: &str) -> (r: bool)
    ensures
        r == (json_entries(*v) matches Some(m) && m.contains_key(key@)),
{
    match v.as_object() {
        Some(o) => o.contains_key(key),
        None => false,
    }
}

/// `Value::as_object_mut` then `Map::insert` of a JSON string. Claimed: an
/// object gets the key bound to the string (replacing any value it had),
/// every other entry kept; any other value is left as it was. The string is
/// one serde_json writes between quotes as it is.
#[verifier::external_body]
fn object_set_string(v: &mut serde_json::Value, key: &str, text: &str)
    requires
        plain_json_string(text@),
    ensures
        json_entries(*old(v)) matches Some(m) ==> json_entries(*final(v)) == Some(
            m.insert(key@, json_string_text(text@)),
        ),
        json_entries(*old(v)) is None ==> *final(v) == *old(v),
{
    match v.as_object_mut() {
        Some(o) => {
            o.insert(key.to_string(), serde_json::Value::String(text.to_string()));
        },
        None => {},
    }
}

/// `serde_json::to_string_pretty(v).ok()`. Claimed: the printed text; a
/// `Value` always prints (its map keys are strings and the output is a
/// byte vector).
#[verifier::external_body]
fn to_pretty_json(v: &serde_json::Value) -> (r: Option<String>)
    ensures
        crate::text::opt_view(r) == Some(json_pretty(*v)),
{
    serde_json::to_string_pretty(v).ok()
}

/// What a redacted field reads.
pub const REDACTED: &'static str = "<redacted>";

/// The fields that hold secrets.
pub open spec fn secret_keys() -> Seq<Seq<char>> {
    seq!["EncryptedPasswordBlob"@, "EncryptedWebhookUrlBlob"@, "SmtpUsername"@]
}

fn secret_key(i: usize) -> (k: &'static str)
    requires
        i < 3,
    ensures
        k@ == secret_keys()[i as int],
{
    if i == 0 {
        "EncryptedPasswordBlob"
    } else if i == 1 {
        "EncryptedWebhookUrlBlob"
    } else {
        "SmtpUsername"
    }
}

/// The entries after redacting the first `n` secret keys: each one that is
/// present is bound to the JSON string `<redacted>`; no key is added.
pub open spec fn redact_first(m: Map<Seq<char>, Seq<char>>, n: int) -> Map<Seq<char>, Seq<char>>
    decreases n,
{
    if n <= 0 {
        m
    } else {
        let prev = redact_first(m, n - 1);
        let k = secret_keys()[n - 1];
        if prev.contains_key(k) { prev.insert(k, json_string_text(REDACTED@)) } else { prev }
    }
}

/// `v1` is `v0` redacted: for an object, its entries with every secret key
/// present bound to `<redacted>` and nothing else changed; any other value
/// unchanged.
pub open spec fn redaction_of(v0: serde_json::Value, v1: serde_json::Value) -> bool {
    match json_entries(v0) {
        Some(m) => json_entries(v1) == Some(redact_first(m, 3)),
        None => v1 == v0,
    }
}

/// The configuration JSON with every secret field that is present in its
/// top-level object set to `<redacted>`, pretty-printed. Text that is not
/// JSON comes back as it is.
pub fn redact_config_json(json: &str) -> (r: String)
    ensures
        !is_json_text(json@) ==> r@ == json@,
        is_json_text(json@) ==> exists|v: serde_json::Value|
            #[trigger] json_pretty(v) == r@ && redaction_of(json_parse(json@)->0, v),
{
    proof {
        reveal_strlit("<redacted>");
    }
    assert(plain_json_string(REDACTED@));
    match parse_json(json) {
        None => String::from_str(json),
        Some(v) => {
            let ghost v0 = v;
            let mut v = v;
            let mut i: usize = 0;
            while i < 3
                invariant
                    i <= 3,
                    plain_json_string(REDACTED@),
                    match json_entries(v0) {
                        Some(m) => json_entries(v) == Some(redact_first(m, i as int)),
                        None => v == v0,
                    },
                decreases 3 - i,
            {
                let k = secret_key(i);
                if object_has_key(&v, k) {
                    object_set_string(&mut v, k, REDACTED);
                }
                i = i + 1;
            }
            match to_pretty_json(&v) {
                Some(s) => s,
                None => String::from_str(json),
            }
        },
    }
}

} // verus!
