use vstd::prelude::*;

use crate::allocator::bake_reply_matches;
use crate::allocator::calculate_cookies;
use crate::allocator::BakeReply;
use crate::error::RecipeParseError;
use crate::json::pantry_object_entries;
use crate::json::quantities_of;
use crate::json::recipe_object_entries;
use crate::json::schema_ok;
use crate::json::split_recipe_from_pantry;
use crate::json::JsonValue;

verus! {

/// The byte that separates a token's name from its value: ASCII `=`.
pub const SEPARATOR: u8 = 61;

/// What the standard padded base64 alphabet makes of a byte sequence.
pub uninterp spec fn b64_encoding(bytes: Seq<u8>) -> Seq<u8>;

/// What decoding a byte sequence as standard padded base64 yields: the
/// decoded bytes, or nothing when the sequence is not valid base64.
pub uninterp spec fn b64_decoding(text: Seq<u8>) -> Option<Seq<u8>>;

/// What parsing a byte sequence as a JSON document yields, carried into the
/// crate's own value type: the document, or nothing when the bytes are not
/// well-formed JSON.
pub uninterp spec fn json_parsing(bytes: Seq<u8>) -> Option<JsonValue>;

/// Relies on base64's `STANDARD` engine `encode`: the encoding depends on the
/// input bytes alone, and `decode` of the encoding yields those bytes back.
#[verifier::external_body]
fn b64_encode(bytes: &Vec<u8>) -> (r: Vec<u8>)
    ensures
        r@ == b64_encoding(bytes@),
        b64_decoding(r@) == Some(bytes@),
{
    base64::Engine::encode(&base64::engine::general_purpose::STANDARD, bytes).into_bytes()
}

/// Relies on base64's `STANDARD` engine `decode`: whether the input is valid
/// base64, and what it decodes to, depend on the input alone; an invalid
/// symbol or wrong padding yields an error.
#[verifier::external_body]
fn b64_decode(text: &Vec<u8>) -> (r: Option<Vec<u8>>)
    ensures
        r is Some <==> b64_decoding(text@) is Some,
        r matches Some(bytes) ==> b64_decoding(text@) == Some(bytes@),
{
    base64::Engine::decode(&base64::engine::general_purpose::STANDARD, text).ok()
}

/// Relies on `serde_json::from_slice`: whether the bytes are a well-formed
/// JSON document, and which document they are, depend on the bytes alone.
/// The parsed document is carried over by `from_parsed`; this contract covers
/// the composition of the two.
#[verifier::external_body]
fn parse_json(bytes: &Vec<u8>) -> (r: Option<JsonValue>)
    ensures
        r == json_parsing(bytes@),
{
    serde_json::from_slice::<serde_json::Value>(bytes).ok().map(from_parsed)
}

/// Declares serde_json's document type, so that `from_parsed` may take it;
/// the type stays opaque and only passes from the parse to the conversion.
#[verifier::external_type_specification]
#[verifier::external_body]
pub struct ExJsonDocument(serde_json::Value);

/// Carries a parsed serde_json document into the crate's own value type, one
/// variant to one variant; a number becomes the `u64` that serde_json's
/// `as_u64` reads from it, when it reads one.
#[verifier::external_body]
fn from_parsed(v: serde_json::Value) -> JsonValue {
    match v {
        serde_json::Value::Null => JsonValue::Null,
        serde_json::Value::Bool(b) => JsonValue::Bool(b),
        serde_json::Value::Number(n) => JsonValue::Number(n.as_u64()),
        serde_json::Value::String(s) => JsonValue::Text(s),
        serde_json::Value::Array(a) => JsonValue::Array(a.into_iter().map(from_parsed).collect()),
        serde_json::Value::Object(m) => JsonValue::Object(
            m.into_iter().map(|(k, w)| (k, from_parsed(w))).collect(),
        ),
    }
}

/// The position of the first separator byte, or the length when none occurs.
pub open spec fn first_separator(t: Seq<u8>) -> int
    decreases t.len(),
{
    if t.len() == 0 {
        0
    } else if t[0] == SEPARATOR {
        0
    } else {
        1 + first_separator(t.drop_first())
    }
}

/// Whether the token holds a separator at all.
pub open spec fn has_separator(t: Seq<u8>) -> bool {
    first_separator(t) < t.len()
}

/// The value part of a token: the bytes after the first separator.
pub open spec fn token_payload(t: Seq<u8>) -> Seq<u8> {
    t.subrange(first_separator(t) + 1, t.len() as int)
}

/// `first_separator` names the first separator position: every byte before it
/// is another byte, and it lies within the sequence exactly when a separator
/// occurs at all.
pub proof fn lemma_first_separator(t: Seq<u8>)
    ensures
        0 <= first_separator(t) <= t.len(),
        first_separator(t) < t.len() ==> t[first_separator(t)] == SEPARATOR,
        forall|i: int| 0 <= i < first_separator(t) ==> t[i] != SEPARATOR,
    decreases t.len(),
{
    if t.len() > 0 && t[0] != SEPARATOR {
        lemma_first_separator(t.drop_first());
        if first_separator(t) < t.len() {
            assert(t[first_separator(t)] == t.drop_first()[first_separator(t) - 1]);
        }
        assert forall|i: int| 0 <= i < first_separator(t) implies t[i] != SEPARATOR by {
            if i > 0 {
                assert(t[i] == t.drop_first()[i - 1]);
            }
        }
    }
}

/// The result a token decodes to: the parsed document, or the first failure
/// among a missing separator, an invalid base64 value and unparseable bytes.
pub open spec fn spec_decode(t: Seq<u8>) -> Result<JsonValue, RecipeParseError> {
    if !has_separator(t) {
        Err(RecipeParseError::MalformedToken)
    } else {
        match b64_decoding(token_payload(t)) {
            None => Err(RecipeParseError::EncodingError),
            Some(bytes) => match json_parsing(bytes) {
                None => Err(RecipeParseError::FormatError),
                Some(doc) => Ok(doc),
            },
        }
    }
}

/// The position of the token's first separator byte, if any.
fn find_separator(token: &Vec<u8>) -> (r: Option<usize>)
    ensures
        r is Some <==> has_separator(token@),
        r matches Some(s) ==> s == first_separator(token@),
{
    let n = token.len();
    let mut i: usize = 0;
    while i < n
        invariant
            i <= n,
            n == token@.len(),
            forall|j: int| 0 <= j < i ==> token@[j] != SEPARATOR,
        decreases n - i,
    {
        if token[i] == SEPARATOR {
            proof {
                lemma_first_separator(token@);
            }
            return Some(i);
        }
        i += 1;
    }
    proof {
        lemma_first_separator(token@);
    }
    None
}

/// Decodes a transport token: splits `name=value` at the first separator,
/// decodes the value from standard base64, and parses the decoded bytes as a
/// JSON document.  Each stage that fails names its own failure.
#[verifier::loop_isolation(false)]
pub fn decode(token: &Vec<u8>) -> (r: Result<JsonValue, RecipeParseError>)
    ensures
        r == spec_decode(token@),
{
    let sep = match find_separator(token) {
        Some(s) => s,
        None => {
            return Err(RecipeParseError::MalformedToken);
        },
    };
    let n = token.len();
    let mut payload: Vec<u8> = Vec::new();
    let mut j = sep + 1;
    while j < n
        invariant
            sep + 1 <= j <= n,
            payload@ == token@.subrange(sep + 1, j as int),
        decreases n - j,
    {
        payload.push(token[j]);
        proof {
            assert(payload@ =~= token@.subrange(sep + 1, j + 1));
        }
        j += 1;
    }
    proof {
        assert(payload@ == token_payload(token@));
    }
    let bytes = match b64_decode(&payload) {
        Some(b) => b,
        None => {
            return Err(RecipeParseError::EncodingError);
        },
    };
    match parse_json(&bytes) {
        Some(doc) => Ok(doc),
        None => Err(RecipeParseError::FormatError),
    }
}

/// Builds a `name=value` token whose value is the standard base64 encoding
/// of the payload bytes.  The name must be free of the separator byte, so
/// that decoding splits the token where it was built.
#[verifier::loop_isolation(false)]
pub fn encode_token(name: &Vec<u8>, payload: &Vec<u8>) -> (r: Vec<u8>)
    requires
        forall|i: int| 0 <= i < name@.len() ==> name@[i] != SEPARATOR,
    ensures
        r@ == name@ + seq![SEPARATOR] + b64_encoding(payload@),
        b64_decoding(b64_encoding(payload@)) == Some(payload@),
{
    let encoded = b64_encode(payload);
    let mut out: Vec<u8> = Vec::new();
    let n = name.len();
    let mut i: usize = 0;
    while i < n
        invariant
            i <= n,
            out@ == name@.take(i as int),
        decreases n - i,
    {
        out.push(name[i]);
        proof {
            assert(out@ =~= name@.take(i + 1));
        }
        i += 1;
    }
    out.push(SEPARATOR);
    let m = encoded.len();
    let mut j: usize = 0;
    while j < m
        invariant
            j <= m,
            out@ == name@ + seq![SEPARATOR] + encoded@.take(j as int),
        decreases m - j,
    {
        out.push(encoded[j]);
        proof {
            assert(out@ =~= name@ + seq![SEPARATOR] + encoded@.take(j + 1));
        }
        j += 1;
    }
    proof {
        assert(name@.take(name@.len() as int) =~= name@);
        assert(encoded@.take(encoded@.len() as int) =~= encoded@);
        assert(out@ =~= name@ + seq![SEPARATOR] + b64_encoding(payload@));
    }
    out
}

/// Round trip: a token built from a name and a document's bytes decodes back
/// to exactly the document those bytes parse to, and to the format failure
/// when the bytes are no JSON document.
#[verifier::loop_isolation(false)]
pub fn decode_built_token(name: &Vec<u8>, payload: &Vec<u8>) -> (r: Result<
    JsonValue,
    RecipeParseError,
>)
    requires
        forall|i: int| 0 <= i < name@.len() ==> name@[i] != SEPARATOR,
    ensures
        json_parsing(payload@) matches Some(doc) ==> r == Ok::<JsonValue, RecipeParseError>(doc),
        json_parsing(payload@) is None ==> r == Err::<JsonValue, RecipeParseError>(
            RecipeParseError::FormatError,
        ),
{
    let token = encode_token(name, payload);
    proof {
        let t = token@;
        lemma_first_separator(t);
        assert(t[name@.len() as int] == SEPARATOR);
        assert forall|i: int| 0 <= i < name@.len() implies t[i] != SEPARATOR by {
            assert(t[i] == name@[i]);
        }
        assert(first_separator(t) == name@.len());
        assert(token_payload(t) =~= b64_encoding(payload@));
    }
    decode(&token)
}

/// Decodes a token and computes the bake result over it: the unit count the
/// pantry allows and the residual stock.  A decode failure is handed through;
/// a document without the two object fields is the schema failure.
pub fn bake(token: &Vec<u8>) -> (r: Result<BakeReply, RecipeParseError>)
    ensures
        spec_decode(token@) matches Err(e) ==> r == Err::<BakeReply, RecipeParseError>(e),
        spec_decode(token@) matches Ok(doc) ==> {
            &&& !schema_ok(doc) ==> r == Err::<BakeReply, RecipeParseError>(
                RecipeParseError::SchemaError,
            )
            &&& schema_ok(doc) ==> (r matches Ok(reply) && reply.pantry.wf()
                && bake_reply_matches(
                reply,
                quantities_of(recipe_object_entries(doc)),
                quantities_of(pantry_object_entries(doc)),
            ))
        },
{
    let doc = match decode(token) {
        Ok(d) => d,
        Err(e) => {
            return Err(e);
        },
    };
    let bakery = match split_recipe_from_pantry(doc) {
        Ok(b) => b,
        Err(e) => {
            return Err(e);
        },
    };
    Ok(calculate_cookies(bakery))
}

} // verus!
