use vstd::prelude::*;
use vstd::string::*;
use vstd::utf8::*;

verus! {

/// Address of the upstream manifest's metadata.
pub const MANIFEST_URL: &'static str =
    "https://api.github.com/repos/Anuken/MindustryMods/contents/mods.json";

/// The user agent that the job announces.
pub const USER_AGENT: &'static str = "Mindustry-Mods-Backend";

/// The encodings that a contents envelope may declare.
pub enum Encoding {
    Base64,
}

/// The contents envelope of the upstream API: an encoding tag and the encoded body.
pub struct Contents {
    pub encoding: Encoding,
    pub content: String,
}

/// Why an envelope's body could not be decoded.
#[derive(Debug, PartialEq, Eq, Structural)]
pub enum DecodeFailure {
    /// The body is not valid base64.
    InvalidBase64,
    /// The decoded bytes are not UTF-8 text.
    InvalidUtf8,
}

/// The one request that the job makes.
pub struct FetchRequest {
    pub url: String,
    /// Value of the `Authorization` header.
    pub authorization: String,
    /// Value of the `User-Agent` header.
    pub user_agent: String,
}

#[verifier::external_type_specification]
#[verifier::external_body]
pub struct ExDecodeError(base64::DecodeError);

/// The bytes that standard base64 decoding makes of `b`, or `None` where `b`
/// is not valid standard base64.
pub uninterp spec fn base64_decoded(b: Seq<u8>) -> Option<Seq<u8>>;

/// Relies on `base64::decode`: decodes standard base64 with padding, and fails
/// exactly on input that is not valid base64. It sizes its buffer as
/// `len * 4 / 3`, so the length is bounded to keep that from overflowing.
#[verifier::external_body]
fn decode_base64(b: &Vec<u8>) -> (r: Result<Vec<u8>, base64::DecodeError>)
    requires
        b@.len() <= usize::MAX / 4,
    ensures
        r matches Ok(d) ==> base64_decoded(b@) == Some(d@),
        r is Err ==> base64_decoded(b@) is None,
{
    base64::decode(b)
}

/// Relies on `String::from_utf8`: succeeds exactly on valid UTF-8, whose
/// characters it then holds.
#[verifier::external_body]
fn utf8_text(b: Vec<u8>) -> (r: Option<String>)
    ensures
        r is Some <==> valid_utf8(b@),
        r matches Some(s) ==> s@ == decode_utf8(b@),
{
    String::from_utf8(b).ok()
}

/// `b` without its newline bytes.
pub open spec fn without_newlines(b: Seq<u8>) -> Seq<u8>
    decreases b.len(),
{
    if b.len() == 0 {
        seq![]
    } else if b.last() == 10u8 {
        without_newlines(b.drop_last())
    } else {
        without_newlines(b.drop_last()).push(b.last())
    }
}

proof fn lemma_without_newlines_len(b: Seq<u8>)
    ensures
        without_newlines(b).len() <= b.len(),
    decreases b.len(),
{
    if b.len() > 0 {
        lemma_without_newlines_len(b.drop_last());
    }
}

/// The bytes of `text` without its line breaks.
pub fn strip_newlines(text: &str) -> (r: Vec<u8>)
    ensures
        r@ == without_newlines(encode_utf8(text@)),
{
    let b = text.as_bytes();
    let mut r: Vec<u8> = Vec::new();
    let mut i: usize = 0;
    while i < b.len()
        invariant
            b@ == encode_utf8(text@),
            i <= b@.len(),
            r@ == without_newlines(b@.subrange(0, i as int)),
        decreases b@.len() - i,
    {
        proof {
            let t = b@.subrange(0, i + 1);
            assert(t.drop_last() =~= b@.subrange(0, i as int));
            assert(t.last() == b@[i as int]);
        }
        if b[i] != 10u8 {
            r.push(b[i]);
        }
        i = i + 1;
    }
    proof {
        assert(b@.subrange(0, b@.len() as int) =~= b@);
    }
    r
}

/// What decoding a body whose bytes are `body` gives.
pub open spec fn decoding_of(body: Seq<u8>) -> Result<Seq<char>, DecodeFailure> {
    match base64_decoded(without_newlines(body)) {
        None => Err(DecodeFailure::InvalidBase64),
        Some(d) => if valid_utf8(d) {
            Ok(decode_utf8(d))
        } else {
            Err(DecodeFailure::InvalidUtf8)
        },
    }
}

/// The text of the base64 payload `decoded`, once decoded: `None` stands for
/// a body that was not valid base64.
pub fn decoded_text(decoded: Option<Vec<u8>>) -> (r: Result<String, DecodeFailure>)
    ensures
        decoded is None ==> r == Err::<String, DecodeFailure>(DecodeFailure::InvalidBase64),
        decoded matches Some(d) ==> (valid_utf8(d@) <==> r is Ok),
        decoded matches Some(d) ==> (r matches Ok(t) ==> t@ == decode_utf8(d@)),
        decoded matches Some(d) ==> (r matches Err(e) ==> e == DecodeFailure::InvalidUtf8),
{
    match decoded {
        None => Err(DecodeFailure::InvalidBase64),
        Some(d) => match utf8_text(d) {
            Some(t) => Ok(t),
            None => Err(DecodeFailure::InvalidUtf8),
        },
    }
}

/// Decodes the body of an envelope according to its declared encoding; line
/// breaks in the body are ignored.
pub fn decode_contents(c: &Contents) -> (r: Result<String, DecodeFailure>)
    requires
        encode_utf8(c.content@).len() <= usize::MAX / 4,
    ensures
        r matches Ok(t) ==> decoding_of(encode_utf8(c.content@)) == Ok::<
            Seq<char>,
            DecodeFailure,
        >(t@),
        r matches Err(e) ==> decoding_of(encode_utf8(c.content@)) == Err::<
            Seq<char>,
            DecodeFailure,
        >(e),
{
    match c.encoding {
        Encoding::Base64 => {
            let body = strip_newlines(c.content.as_str());
            proof {
                lemma_without_newlines_len(encode_utf8(c.content@));
            }
            let decoded = match decode_base64(&body) {
                Ok(d) => Some(d),
                Err(_) => None,
            };
            decoded_text(decoded)
        },
    }
}

/// The request to make with credential `token`, or `None` where no credential
/// is configured and the job has nothing to do.
pub fn plan_fetch(token: Option<String>) -> (r: Option<FetchRequest>)
    ensures
        token is None <==> r is None,
        r matches Some(q) ==> q.url@ == MANIFEST_URL@,
        r matches Some(q) ==> q.user_agent@ == USER_AGENT@,
        r matches Some(q) ==> (token matches Some(t) && q.authorization@ == t@),
{
    match token {
        None => None,
        Some(t) => Some(
            FetchRequest {
                url: String::from_str(MANIFEST_URL),
                authorization: t,
                user_agent: String::from_str(USER_AGENT),
            },
        ),
    }
}

} // verus!
