use parpress::cloudinary::{destroy_image_reply, destroy_request, sign_params, sign_upload};
use parpress::models::users::SignatureResponse;
use parpress::reply::{Reply, ReplyBody};

#[test]
fn upload_signature_known_value() {
    assert_eq!(
        sign_upload(1_700_000_000, "abc", "key123".to_string()),
        SignatureResponse {
            timestamp: 1_700_000_000,
            signature: "0c057bd2f2ef882ea4abe379aa16139064aab947".to_string(),
            api_key: "key123".to_string(),
        }
    );
}

#[test]
fn signature_is_sha1_hex() {
    // SHA-1 of the empty string.
    assert_eq!(sign_params(""), "da39a3ee5e6b4b0d3255bfef95601890afd80709");
    assert_eq!(sign_params("abc"), "a9993e364706816aba3e25717850c26c9cd0d89d");
    assert_eq!(sign_params("é").len(), 40);
}

#[test]
fn destroy_request_fields() {
    let r = destroy_request("books/cover1", 1_700_000_000, "abc", "key123".to_string(), "demo");
    assert_eq!(r.url, "https://api.cloudinary.com/v1_1/demo/image/destroy");
    assert_eq!(
        r.form,
        vec![
            ("public_id".to_string(), "books/cover1".to_string()),
            ("api_key".to_string(), "key123".to_string()),
            ("timestamp".to_string(), "1700000000".to_string()),
            ("signature".to_string(), "ea2b19eb603f4fbfcda5a49af05d6c8c3727a98d".to_string()),
        ]
    );
}

#[test]
fn destroy_reply_relays_valid_status() {
    assert_eq!(destroy_image_reply(Some((200, "ok"))), Reply { status: 200, body: ReplyBody::Json("ok") });
    assert_eq!(destroy_image_reply(Some((404, "nf"))).status, 404);
    assert_eq!(destroy_image_reply(Some((100, "x"))).status, 100);
    assert_eq!(destroy_image_reply(Some((999, "x"))).status, 999);
}

#[test]
fn destroy_reply_replaces_invalid_status() {
    assert_eq!(destroy_image_reply(Some((99, "x"))), Reply { status: 500, body: ReplyBody::Json("x") });
    assert_eq!(destroy_image_reply(Some((1000, "x"))).status, 500);
    assert_eq!(destroy_image_reply(Some((0, "x"))).status, 500);
}

#[test]
fn destroy_reply_on_failed_request() {
    assert_eq!(
        destroy_image_reply::<()>(None),
        Reply { status: 500, body: ReplyBody::Message("Failed delete image".to_string()) }
    );
}
