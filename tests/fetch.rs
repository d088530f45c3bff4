use mindustry_mods::date::from_tt;
use mindustry_mods::fetch::{
    decode_contents, decoded_text, plan_fetch, strip_newlines, Contents, DecodeFailure, Encoding,
    MANIFEST_URL, USER_AGENT,
};

fn envelope(body: &str) -> Contents {
    Contents { encoding: Encoding::Base64, content: body.to_string() }
}

#[test]
fn decodes_wrapped_base64() {
    assert_eq!(decode_contents(&envelope("aGVsbG8=\n")), Ok("hello".to_string()));
}

#[test]
fn decodes_across_line_breaks() {
    assert_eq!(decode_contents(&envelope("aGVs\nbG8g\nd29y\nbGQ=\n")), Ok("hello world".to_string()));
}

#[test]
fn empty_body_decodes_to_empty_text() {
    assert_eq!(decode_contents(&envelope("")), Ok(String::new()));
}

#[test]
fn invalid_base64_fails() {
    assert_eq!(decode_contents(&envelope("!!!!")), Err(DecodeFailure::InvalidBase64));
}

#[test]
fn non_utf8_payload_fails() {
    assert_eq!(decode_contents(&envelope("/w==")), Err(DecodeFailure::InvalidUtf8));
}

#[test]
fn decoded_text_of_bytes() {
    assert_eq!(decoded_text(Some(b"mods".to_vec())), Ok("mods".to_string()));
    assert_eq!(decoded_text(Some(vec![0xc3])), Err(DecodeFailure::InvalidUtf8));
    assert_eq!(decoded_text(None), Err(DecodeFailure::InvalidBase64));
}

#[test]
fn newlines_removed() {
    assert_eq!(strip_newlines("ab\ncd\n"), b"abcd".to_vec());
    assert!(strip_newlines("\n\n").is_empty());
}

#[test]
fn missing_credential_does_nothing() {
    assert!(plan_fetch(None).is_none());
}

#[test]
fn credential_goes_into_authorization() {
    let q = plan_fetch(Some("token abc".to_string())).unwrap();
    assert_eq!(q.authorization, "token abc");
    assert_eq!(q.url, MANIFEST_URL);
    assert_eq!(q.url, "https://api.github.com/repos/Anuken/MindustryMods/contents/mods.json");
    assert_eq!(q.user_agent, USER_AGENT);
    assert_eq!(q.user_agent, "Mindustry-Mods-Backend");
}

#[test]
fn timestamp_from_milliseconds() {
    let t = from_tt(1_234_567);
    assert_eq!(t.secs, 1_234);
    assert_eq!(t.nanos, 567_000_000);
}

#[test]
fn timestamp_of_epoch() {
    let t = from_tt(0);
    assert_eq!((t.secs, t.nanos), (0, 0));
}

#[test]
fn timestamp_past_u32_saturates_low_part() {
    let t = from_tt(5_000_000_000);
    assert_eq!(t.secs, 5_000_000);
    assert_eq!(t.nanos, 295_000_000);
}
