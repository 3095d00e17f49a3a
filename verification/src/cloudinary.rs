//! Signed requests to Cloudinary: the upload signature handed to clients,
//! the signed form that deletes an uploaded image, and the reply relayed
//! from Cloudinary's answer.
use vstd::prelude::*;
use vstd::utf8::encode_utf8;

use crate::codec::{hex_encode, hex_lower, status_code_is_valid};
use crate::crypto::{sha1_digest, sha1_spec};
use crate::models::users::SignatureResponse;
use crate::reply::{is_message, message_reply, Reply, ReplyBody};
use crate::text::{decimal_text, u64_to_string};

verus! {

/// Cloudinary's signature of a parameter text (parameters followed by the
/// API secret): the lowercase hex SHA-1 digest of its UTF-8 bytes.
pub open spec fn signature_of(text: Seq<char>) -> Seq<char> {
    hex_lower(sha1_spec(encode_utf8(text)))
}

/// The text signed for an upload: `timestamp=<timestamp><secret>`.
pub open spec fn upload_params_text(timestamp: u64, api_secret: Seq<char>) -> Seq<char> {
    "timestamp="@ + decimal_text(timestamp as nat) + api_secret
}

/// The text signed to delete an image:
/// `public_id=<id>&timestamp=<timestamp><secret>`.
pub open spec fn destroy_params_text(
    public_id: Seq<char>,
    timestamp: u64,
    api_secret: Seq<char>,
) -> Seq<char> {
    "public_id="@ + public_id + "&timestamp="@ + decimal_text(timestamp as nat) + api_secret
}

/// The address of Cloudinary's image deletion for a cloud.
pub open spec fn destroy_url_text(cloud_name: Seq<char>) -> Seq<char> {
    "https://api.cloudinary.com/v1_1/"@ + cloud_name + "/image/destroy"@
}

/// The upload text is `timestamp=`, then the whole decimal timestamp, then
/// the whole API secret, whatever their lengths: each part stands at its
/// place, and nothing else is in the text.
pub proof fn lemma_upload_text_parts(timestamp: u64, api_secret: Seq<char>)
    ensures
        ({
            let text = upload_params_text(timestamp, api_secret);
            let d = decimal_text(timestamp as nat);
            let k = d.len() as int;
            &&& text.len() == 10 + d.len() + api_secret.len()
            &&& text.subrange(0, 10) == "timestamp="@
            &&& text.subrange(10, 10 + k) == d
            &&& text.subrange(10 + k, text.len() as int) == api_secret
        }),
{
    reveal_strlit("timestamp=");
    let text = upload_params_text(timestamp, api_secret);
    let d = decimal_text(timestamp as nat);
    let k = d.len() as int;
    assert(text.subrange(0, 10) =~= "timestamp="@);
    assert(text.subrange(10, 10 + k) =~= d);
    assert(text.subrange(10 + k, text.len() as int) =~= api_secret);
}

/// The text signed to delete an image is `public_id=`, the whole public id,
/// `&timestamp=`, the whole decimal timestamp and the whole API secret,
/// whatever their lengths: each part stands at its place.
pub proof fn lemma_destroy_text_parts(public_id: Seq<char>, timestamp: u64, api_secret: Seq<char>)
    ensures
        ({
            let text = destroy_params_text(public_id, timestamp, api_secret);
            let d = decimal_text(timestamp as nat);
            let k = d.len() as int;
            let n = public_id.len() as int;
            &&& text.len() == 10 + n + 11 + d.len() + api_secret.len()
            &&& text.subrange(0, 10) == "public_id="@
            &&& text.subrange(10, 10 + n) == public_id
            &&& text.subrange(10 + n, 21 + n) == "&timestamp="@
            &&& text.subrange(21 + n, 21 + n + k) == d
            &&& text.subrange(21 + n + k, text.len() as int) == api_secret
        }),
{
    reveal_strlit("public_id=");
    reveal_strlit("&timestamp=");
    let text = destroy_params_text(public_id, timestamp, api_secret);
    let d = decimal_text(timestamp as nat);
    let k = d.len() as int;
    let n = public_id.len() as int;
    assert(text.subrange(0, 10) =~= "public_id="@);
    assert(text.subrange(10, 10 + n) =~= public_id);
    assert(text.subrange(10 + n, 21 + n) =~= "&timestamp="@);
    assert(text.subrange(21 + n, 21 + n + k) =~= d);
    assert(text.subrange(21 + n + k, text.len() as int) =~= api_secret);
}

/// Signs a parameter text: lowercase hex of the SHA-1 digest of its UTF-8
/// bytes, 40 characters.
pub fn sign_params(text: &str) -> (signature: String)
    ensures
        signature@ == signature_of(text@),
        signature@ == hex_lower(sha1_spec(encode_utf8(text@))),
        signature@.len() == 40,
{
    let digest = sha1_digest(text.as_bytes());
    proof {
        crate::codec::lemma_hex_lower_len(digest@);
    }
    hex_encode(digest.as_slice())
}

/// The signature a client needs to upload an image at `timestamp` (seconds
/// since the UNIX epoch).
pub fn sign_upload(timestamp: u64, api_secret: &str, api_key: String) -> (r: SignatureResponse)
    ensures
        r.timestamp == timestamp,
        r.api_key == api_key,
        r.signature@ == signature_of(upload_params_text(timestamp, api_secret@)),
        r.signature@ == hex_lower(
            sha1_spec(encode_utf8("timestamp="@ + decimal_text(timestamp as nat) + api_secret@)),
        ),
        r.signature@.len() == 40,
{
    let mut params = "timestamp=".to_owned();
    let ts = u64_to_string(timestamp);
    params.append(ts.as_str());
    params.append(api_secret);
    let signature = sign_params(params.as_str());
    SignatureResponse { timestamp, signature, api_key }
}

/// A signed form request to Cloudinary: where it goes and its fields, in
/// order.
#[derive(Debug, Clone, PartialEq, Eq)]
pub struct DestroyRequest {
    pub url: String,
    pub form: Vec<(String, String)>,
}

/// The signed request that deletes the image `public_id` at `timestamp`:
/// fields `public_id`, `api_key`, `timestamp` and `signature`.
pub fn destroy_request(
    public_id: &str,
    timestamp: u64,
    api_secret: &str,
    api_key: String,
    cloud_name: &str,
) -> (r: DestroyRequest)
    ensures
        r.url@ == destroy_url_text(cloud_name@),
        r.form@.len() == 4,
        r.form@[0].0@ == "public_id"@ && r.form@[0].1@ == public_id@,
        r.form@[1].0@ == "api_key"@ && r.form@[1].1 == api_key,
        r.form@[2].0@ == "timestamp"@ && r.form@[2].1@ == decimal_text(timestamp as nat),
        r.form@[3].0@ == "signature"@ && r.form@[3].1@ == signature_of(
            destroy_params_text(public_id@, timestamp, api_secret@),
        ),
        r.form@[3].1@ == hex_lower(
            sha1_spec(
                encode_utf8(
                    "public_id="@ + public_id@ + "&timestamp="@ + decimal_text(timestamp as nat)
                        + api_secret@,
                ),
            ),
        ),
        r.form@[3].1@ == hex_lower(
            sha1_spec(
                encode_utf8(
                    "public_id="@ + r.form@[0].1@ + "&timestamp="@ + r.form@[2].1@ + api_secret@,
                ),
            ),
        ),
{
    let ts = u64_to_string(timestamp);
    let mut params = "public_id=".to_owned();
    params.append(public_id);
    params.append("&timestamp=");
    params.append(ts.as_str());
    params.append(api_secret);
    let signature = sign_params(params.as_str());
    let mut url = "https://api.cloudinary.com/v1_1/".to_owned();
    url.append(cloud_name);
    url.append("/image/destroy");
    let mut form: Vec<(String, String)> = Vec::new();
    form.push(("public_id".to_owned(), public_id.to_owned()));
    form.push(("api_key".to_owned(), api_key));
    form.push(("timestamp".to_owned(), ts));
    form.push(("signature".to_owned(), signature));
    DestroyRequest { url, form }
}

/// The reply relayed from Cloudinary's answer to a deletion: its status
/// (500 when it is not a valid HTTP status) with its JSON body, or 500 with
/// a message when the request could not be made.
pub fn destroy_image_reply<T>(upstream: Option<(u16, T)>) -> (r: Reply<T>)
    ensures
        match upstream {
            Some((code, body)) => r == Reply {
                status: if 100 <= code < 1000 {
                    code
                } else {
                    500
                },
                body: ReplyBody::Json(body),
            },
            None => r.status == 500 && is_message(r.body, "Failed delete image"@),
        },
{
    match upstream {
        Some((code, body)) => {
            let status = if status_code_is_valid(code) {
                code
            } else {
                500
            };
            Reply { status, body: ReplyBody::Json(body) }
        },
        None => message_reply(500, "Failed delete image"),
    }
}

} // verus!
