use vstd::prelude::*;
use sha2::{Digest, Sha256};
use vstd::string::StringSliceAdditionalSpecFns;

verus! {

/// ASCII `,`.
pub const COMMA: u8 = 44;
/// ASCII `[`.
pub const OPEN_BRACKET: u8 = 91;
/// ASCII `]`.
pub const CLOSE_BRACKET: u8 = 93;
/// ASCII `0`.
pub const DIGIT_ZERO: u8 = 48;
/// ASCII `a`.
pub const LETTER_A: u8 = 97;

/// What SHA-256 gives for `data` (named, not defined here).
pub uninterp spec fn sha256(data: Seq<u8>) -> Seq<u8>;

/// What serde_json writes for the string `text`: the text as a quoted JSON
/// string with its special characters escaped (named, not defined here).
pub uninterp spec fn json_string(text: Seq<char>) -> Seq<u8>;

/// The SHA-256 digest of `data`, computed by the `sha2` crate
/// (`Sha256::digest`). Trusted: the digest is `sha256(data)` and is 32 bytes
/// long (sha2 fixes the output size of `Sha256` at 32 bytes).
#[verifier::external_body]
fn sha256_digest(data: &[u8]) -> (digest: Vec<u8>)
    ensures
        digest@ == sha256(data@),
        digest@.len() == 32,
{
    Sha256::digest(data).to_vec()
}

/// The JSON encoding of the string `text`, written by `serde_json::to_vec`.
/// Trusted: the bytes are `json_string(text)`. Serializing a `str` into a
/// vector cannot fail (serde_json only reports errors of the writer, and a
/// vector never refuses bytes), so the empty fallback is never taken.
#[verifier::external_body]
fn json_encode_str(text: &str) -> (json: Vec<u8>)
    ensures
        json@ == json_string(text@),
{
    serde_json::to_vec(text).unwrap_or_default()
}

/// Appends `c` to `s` (std's `String::push`). Trusted: the characters of
/// `s` afterwards are those before followed by `c`.
#[verifier::external_body]
fn push_char(s: &mut String, c: char)
    ensures
        final(s)@ == old(s)@.push(c),
{
    s.push(c);
}

/// The byte strings held by `items`.
pub open spec fn byte_strings(items: Seq<Vec<u8>>) -> Seq<Seq<u8>> {
    items.map_values(|v: Vec<u8>| v@)
}

/// The characters of `model`, if any.
pub open spec fn model_chars(model: Option<&str>) -> Option<Seq<char>> {
    match model {
        Some(m) => Some(m@),
        None => None,
    }
}

/// The cacheable prefix of a conversation: every message but the trailing
/// one (the trailing user turn fragments the prefix space).
pub open spec fn cacheable_messages(messages: Seq<Seq<u8>>) -> Seq<Seq<u8>> {
    if messages.len() == 0 {
        messages
    } else {
        messages.drop_last()
    }
}

/// The items separated by commas.
pub open spec fn comma_joined(items: Seq<Seq<u8>>) -> Seq<u8>
    decreases items.len(),
{
    if items.len() == 0 {
        Seq::empty()
    } else if items.len() == 1 {
        items[0]
    } else {
        comma_joined(items.drop_last()) + seq![COMMA] + items.last()
    }
}

/// A JSON array of the already-encoded JSON values `items`.
pub open spec fn json_array(items: Seq<Seq<u8>>) -> Seq<u8> {
    seq![OPEN_BRACKET] + comma_joined(items) + seq![CLOSE_BRACKET]
}

/// The JSON encoding of an optional model name.
pub open spec fn json_model(model: Option<Seq<char>>) -> Seq<u8> {
    match model {
        Some(m) => json_string(m),
        None => "null".spec_bytes(),
    }
}

/// The compact JSON object
/// `{"system":…,"tools":…,"model":…,"prefix_messages":[…]}` whose values
/// are the JSON encodings `system`, `tools`, the model name and the
/// cacheable prefix of `messages`.
pub open spec fn payload(
    messages: Seq<Seq<u8>>,
    system: Seq<u8>,
    tools: Seq<u8>,
    model: Option<Seq<char>>,
) -> Seq<u8> {
    "{\"system\":".spec_bytes() + system + ",\"tools\":".spec_bytes() + tools
        + ",\"model\":".spec_bytes() + json_model(model) + ",\"prefix_messages\":".spec_bytes()
        + json_array(cacheable_messages(messages)) + "}".spec_bytes()
}

/// The lower-case hexadecimal digit of `d` (for `0 <= d < 16`).
pub open spec fn hex_digit(d: int) -> char {
    if d < 10 {
        (48 + d) as char
    } else {
        (87 + d) as char
    }
}

/// Two lower-case hexadecimal digits per byte, most significant first.
pub open spec fn hex_lower(bytes: Seq<u8>) -> Seq<char>
    decreases bytes.len(),
{
    if bytes.len() == 0 {
        Seq::empty()
    } else {
        hex_lower(bytes.drop_last()) + seq![
            hex_digit((bytes.last() / 16) as int),
            hex_digit((bytes.last() % 16) as int),
        ]
    }
}

/// The prefix id of a serialized payload: the first 8 bytes of its SHA-256
/// digest in lower-case hexadecimal.
pub open spec fn prefix_id_of(blob: Seq<u8>) -> Seq<char> {
    hex_lower(sha256(blob).take(8))
}

/// The fingerprint of a call's cacheable prefix.
pub open spec fn fingerprint_of(
    messages: Seq<Seq<u8>>,
    system: Seq<u8>,
    tools: Seq<u8>,
    model: Option<Seq<char>>,
) -> Seq<char> {
    prefix_id_of(payload(messages, system, tools, model))
}

/// Two hexadecimal digits per byte.
pub proof fn lemma_hex_lower_len(bytes: Seq<u8>)
    ensures
        hex_lower(bytes).len() == 2 * bytes.len(),
    decreases bytes.len(),
{
    if bytes.len() > 0 {
        lemma_hex_lower_len(bytes.drop_last());
    }
}

/// The lower-case hexadecimal digit of `d`.
fn hex_char(d: u8) -> (c: char)
    requires
        d < 16,
    ensures
        c == hex_digit(d as int),
{
    if d < 10 {
        (DIGIT_ZERO + d) as char
    } else {
        (LETTER_A + d - 10) as char
    }
}

/// Appends `bytes` to `out`.
fn append_bytes(out: &mut Vec<u8>, bytes: &[u8])
    ensures
        final(out)@ == old(out)@ + bytes@,
{
    let mut i: usize = 0;
    while i < bytes.len()
        invariant
            i <= bytes@.len(),
            out@ == old(out)@ + bytes@.take(i as int),
        decreases bytes@.len() - i,
    {
        out.push(bytes[i]);
        assert(out@ =~= old(out)@ + bytes@.take(i + 1));
        i = i + 1;
    }
    assert(bytes@.take(bytes@.len() as int) =~= bytes@);
}

/// The prefix id of an already serialized payload: the first 8 bytes of its
/// SHA-256 digest as 16 lower-case hexadecimal digits.
pub fn prefix_id(blob: &[u8]) -> (id: String)
    ensures
        id@ == prefix_id_of(blob@),
        id@.len() == 16,
{
    let digest = sha256_digest(blob);
    let mut id = String::new();
    let mut i: usize = 0;
    while i < 8
        invariant
            digest@.len() == 32,
            i <= 8,
            id@ == hex_lower(digest@.take(i as int)),
        decreases 8 - i,
    {
        let byte = digest[i];
        push_char(&mut id, hex_char(byte / 16));
        push_char(&mut id, hex_char(byte % 16));
        assert(digest@.take(i + 1).drop_last() =~= digest@.take(i as int));
        assert(id@ =~= hex_lower(digest@.take(i + 1)));
        i = i + 1;
    }
    proof {
        lemma_hex_lower_len(digest@.take(8));
    }
    id
}

/// Serializes the payload of a call from the JSON encodings of its
/// messages, system prompt and tools, and its model name.
pub fn encode_payload(messages: &[Vec<u8>], system: &[u8], tools: &[u8], model: Option<&str>) -> (blob:
    Vec<u8>)
    ensures
        blob@ == payload(byte_strings(messages@), system@, tools@, model_chars(model)),
{
    let ghost items = byte_strings(messages@);
    let mut blob: Vec<u8> = Vec::new();
    append_bytes(&mut blob, "{\"system\":".as_bytes());
    append_bytes(&mut blob, system);
    append_bytes(&mut blob, ",\"tools\":".as_bytes());
    append_bytes(&mut blob, tools);
    append_bytes(&mut blob, ",\"model\":".as_bytes());
    match model {
        Some(m) => {
            let json = json_encode_str(m);
            append_bytes(&mut blob, json.as_slice());
        },
        None => {
            append_bytes(&mut blob, "null".as_bytes());
        },
    }
    append_bytes(&mut blob, ",\"prefix_messages\":".as_bytes());
    let ghost head = blob@;
    blob.push(OPEN_BRACKET);
    let count: usize = if messages.len() == 0 {
        0
    } else {
        messages.len() - 1
    };
    let mut k: usize = 0;
    while k < count
        invariant
            count <= messages@.len(),
            count == cacheable_messages(items).len(),
            items == byte_strings(messages@),
            k <= count,
            blob@ == head + seq![OPEN_BRACKET] + comma_joined(items.take(k as int)),
        decreases count - k,
    {
        if k > 0 {
            blob.push(COMMA);
        }
        append_bytes(&mut blob, messages[k].as_slice());
        assert(items.take(k + 1).drop_last() =~= items.take(k as int));
        assert(items[k as int] == messages@[k as int]@);
        assert(blob@ =~= head + seq![OPEN_BRACKET] + comma_joined(items.take(k + 1)));
        k = k + 1;
    }
    assert(items.take(count as int) =~= cacheable_messages(items));
    blob.push(CLOSE_BRACKET);
    append_bytes(&mut blob, "}".as_bytes());
    assert(blob@ =~= payload(items, system@, tools@, model_chars(model)));
    blob
}

/// Stable id of the cacheable prefix of a call, from the JSON encodings of
/// its messages, system prompt and tools, and its model name. The trailing
/// message (the user turn) is left out, so calls that differ only there get
/// the same id.
pub fn fingerprint(messages: &[Vec<u8>], system: &[u8], tools: &[u8], model: Option<&str>) -> (id:
    String)
    ensures
        id@ == fingerprint_of(byte_strings(messages@), system@, tools@, model_chars(model)),
        id@.len() == 16,
{
    let blob = encode_payload(messages, system, tools, model);
    prefix_id(blob.as_slice())
}

} // verus!
