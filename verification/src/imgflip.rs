//! The captioning client core: the provider's response envelope, its
//! decoding into a `CaptionResponse`, and the parameter list for one
//! captioning request. The network call itself is left to the caller;
//! everything here is a function of plain values.

use vstd::prelude::*;

use crate::registry::TemplateRegistry;
use crate::text::{dec_rep, push_decimal};

verus! {

/// What the provider's JSON response envelope holds: the `success`
/// flag, the `data` object's `url` and `page_url` when both are
/// present, and the `error_message` string when present; nothing when
/// the text is not a JSON object with a boolean `success` field.
pub uninterp spec fn caption_envelope_of(s: Seq<char>) -> Option<
    (bool, Option<(Seq<char>, Seq<char>)>, Option<Seq<char>>),
>;

/// Relies on serde_json: `from_str::<Value>` parses the response body,
/// and the `Value` accessors `get`, `as_bool` and `as_str` read the
/// envelope's fields; the outcome depends on the body text alone.
#[verifier::external_body]
fn parse_envelope(body: &str) -> (r: Option<(bool, Option<(String, String)>, Option<String>)>)
    ensures
        r.deep_view() == caption_envelope_of(body@),
{
    let v: serde_json::Value = serde_json::from_str(body).ok()?;
    let success = v.get("success")?.as_bool()?;
    let url = v.get("data").and_then(|d| d.get("url")).and_then(serde_json::Value::as_str);
    let page = v.get("data").and_then(|d| d.get("page_url")).and_then(serde_json::Value::as_str);
    let data = match (url, page) {
        (Some(u), Some(p)) => Some((u.to_owned(), p.to_owned())),
        _ => None,
    };
    let err = v.get("error_message").and_then(serde_json::Value::as_str).map(str::to_owned);
    Some((success, data, err))
}

/// One decoded captioning response from the provider.
#[derive(Clone, Debug)]
pub struct CaptionResponse {
    pub success: bool,
    pub data: CaptionResponseData,
}

/// The payload of a captioning response: the generated image's URLs on
/// success, or the provider's error message.
#[derive(Clone, Debug)]
pub enum CaptionResponseData {
    Data { url: String, page_url: String },
    ErrorMessage(String),
}

/// A failure of the captioning client before a provider-reported
/// outcome was obtained: the transport failed, or the response body
/// could not be decoded (the raw body is kept).
#[derive(Clone, Debug)]
pub enum ClientError {
    Transport(String),
    Decode(String),
}

/// The user-facing text of a client failure.
pub fn client_error_text(e: &ClientError) -> (r: String)
    ensures
        e matches ClientError::Transport(m) ==> r@ == m@,
        e matches ClientError::Decode(b) ==> r@ == b@,
{
    match e {
        ClientError::Transport(m) => m.clone(),
        ClientError::Decode(b) => b.clone(),
    }
}

/// How a response body decodes: a well-formed envelope with a `data`
/// object yields its URLs, one with an `error_message` yields the
/// message, and anything else fails with the raw body kept.
pub open spec fn decode_spec(body: Seq<char>, r: Result<CaptionResponse, ClientError>) -> bool {
    match caption_envelope_of(body) {
        Option::Some(env) => match env.1 {
            Option::Some(d) => r matches Ok(resp) && resp.success == env.0 && (
            resp.data matches CaptionResponseData::Data { url, page_url } && url@ == d.0
                && page_url@ == d.1),
            Option::None => match env.2 {
                Option::Some(m) => r matches Ok(resp) && resp.success == env.0 && (
                resp.data matches CaptionResponseData::ErrorMessage(t) && t@ == m),
                Option::None => r matches Err(ClientError::Decode(b)) && b@ == body,
            },
        },
        Option::None => r matches Err(ClientError::Decode(b)) && b@ == body,
    }
}

/// Decodes one provider response body.
pub fn decode_caption_response(body: &str) -> (r: Result<CaptionResponse, ClientError>)
    ensures
        decode_spec(body@, r),
{
    match parse_envelope(body) {
        Some((success, data, err)) => match data {
            Some((url, page_url)) => Ok(
                CaptionResponse { success, data: CaptionResponseData::Data { url, page_url } },
            ),
            None => match err {
                Some(m) => Ok(
                    CaptionResponse { success, data: CaptionResponseData::ErrorMessage(m) },
                ),
                None => Err(ClientError::Decode(body.to_owned())),
            },
        },
        None => Err(ClientError::Decode(body.to_owned())),
    }
}

/// The reply text a decoded response produces: the image URL on a
/// `Data` payload, the provider's message on an `ErrorMessage` payload.
pub fn caption_reply(resp: &CaptionResponse) -> (r: String)
    ensures
        resp.data matches CaptionResponseData::Data { url, page_url } ==> r@ == url@,
        resp.data matches CaptionResponseData::ErrorMessage(m) ==> r@ == m@,
{
    match &resp.data {
        CaptionResponseData::Data { url, page_url: _ } => url.clone(),
        CaptionResponseData::ErrorMessage(m) => m.clone(),
    }
}

/// The reply text for one raw response body: the image URL, or the
/// provider's error message, or the raw body when it does not decode.
pub open spec fn body_reply_text(body: Seq<char>) -> Seq<char> {
    match caption_envelope_of(body) {
        Option::Some(env) => match env.1 {
            Option::Some(d) => d.0,
            Option::None => match env.2 {
                Option::Some(m) => m,
                Option::None => body,
            },
        },
        Option::None => body,
    }
}

/// Decodes one response body and renders the reply text for it.
pub fn reply_for_body(body: &str) -> (r: String)
    ensures
        r@ == body_reply_text(body@),
{
    match decode_caption_response(body) {
        Ok(resp) => caption_reply(&resp),
        Err(e) => client_error_text(&e),
    }
}

/// The parameter name for caption box `n`: `boxes[`n`][text]`.
pub open spec fn box_param_name(n: int) -> Seq<char> {
    "boxes["@ + dec_rep(n) + "][text]"@
}

/// The query parameters of one captioning request: the template id and
/// the credentials, then one positional `boxes[`n`][text]` parameter
/// per caption text.
pub open spec fn caption_params(
    username: Seq<char>,
    password: Seq<char>,
    template_id: Seq<char>,
    texts: Seq<Seq<char>>,
) -> Seq<(Seq<char>, Seq<char>)> {
    seq![
        ("template_id"@, template_id),
        ("username"@, username),
        ("password"@, password),
    ] + Seq::new(texts.len(), |n: int| (box_param_name(n), texts[n]))
}

/// The captioning service: the provider credentials and the template
/// registry the bot serves.
pub struct ImgflipClient {
    pub username: String,
    pub password: String,
    pub registry: TemplateRegistry,
}

impl ImgflipClient {
    /// Well-formed: the registry is.
    pub open spec fn wf(self) -> bool {
        self.registry.wf()
    }

    /// A client with the given credentials and an empty registry.
    pub fn new(username: String, password: String) -> (r: Self)
        ensures
            r.wf(),
            r.username@ == username@,
            r.password@ == password@,
            r.registry.names_view() == Seq::<Seq<char>>::empty(),
    {
        let registry = TemplateRegistry::new();
        ImgflipClient { username, password, registry }
    }

    /// Replaces the template mapping with the one `source` encodes; on a
    /// parse failure the previous mapping is kept and `false` comes back.
    pub fn update_template_map(&mut self, source: &str) -> (ok: bool)
        requires
            old(self).wf(),
        ensures
            final(self).wf(),
            final(self).username == old(self).username,
            final(self).password == old(self).password,
            !ok ==> crate::registry::json_string_map_of(source@) is None && final(self).registry
                == old(self).registry,
            ok ==> (crate::registry::json_string_map_of(source@) matches Some(pairs)
                && final(self).registry.entries_view() == crate::registry::spec_load(pairs)),
    {
        self.registry.reload(source)
    }

    /// All known template names.
    pub fn list_memes(&self) -> (r: Vec<String>)
        ensures
            r.deep_view() == self.registry.names_view(),
    {
        self.registry.list()
    }

    /// The query parameters for one captioning request against the
    /// given template, one caption box per entry of `texts`.
    pub fn build_caption_params(&self, template_id: &str, texts: &Vec<String>) -> (r: Vec<
        (String, String),
    >)
        ensures
            r.deep_view() == caption_params(
                self.username@,
                self.password@,
                template_id@,
                texts.deep_view(),
            ),
    {
        let mut params: Vec<(String, String)> = Vec::new();
        params.push((String::from_str("template_id"), template_id.to_owned()));
        params.push((String::from_str("username"), self.username.clone()));
        params.push((String::from_str("password"), self.password.clone()));
        let ghost fixed = params.deep_view();
        proof {
            assert(fixed =~~= caption_params(
                self.username@,
                self.password@,
                template_id@,
                texts.deep_view(),
            ).take(3));
        }
        let n = texts.len();
        let mut i: usize = 0;
        while i < n
            invariant
                n == texts@.len(),
                0 <= i <= n,
                params.deep_view() =~~= caption_params(
                    self.username@,
                    self.password@,
                    template_id@,
                    texts.deep_view(),
                ).take(3 + i as int),
            decreases n - i,
        {
            let mut name = String::from_str("boxes[");
            push_decimal(&mut name, i);
            name.append("][text]");
            assert(name@ == box_param_name(i as int));
            let ghost before = params.deep_view();
            params.push((name, texts[i].clone()));
            proof {
                assert(params.deep_view() =~~= before.push(
                    (box_param_name(i as int), texts.deep_view()[i as int]),
                ));
                assert(params.deep_view() =~~= caption_params(
                    self.username@,
                    self.password@,
                    template_id@,
                    texts.deep_view(),
                ).take(3 + i as int + 1));
            }
            i = i + 1;
        }
        proof {
            assert(caption_params(
                self.username@,
                self.password@,
                template_id@,
                texts.deep_view(),
            ).take(3 + n as int) =~~= caption_params(
                self.username@,
                self.password@,
                template_id@,
                texts.deep_view(),
            ));
        }
        params
    }
}

} // verus!
