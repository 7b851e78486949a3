//! The publish sink's side that can be computed: the envelope of a decoded message.
use vstd::prelude::*;
use crate::json::{member, object, quote, quoted};

verus! {

/// A decoded feed message: its type, and its payload as JSON text.
#[derive(Clone, Debug, PartialEq, Eq)]
pub struct WsResponse {
    pub message_type: String,
    pub data: String,
}

/// A message ready for the durable stream: content type and body.
#[derive(Clone, Debug, PartialEq, Eq)]
pub struct Envelope {
    pub content_type: String,
    pub body: String,
}

pub open spec fn json_content_type() -> Seq<char> {
    "application/json"@
}

/// `{"messageType":<type>,"data":<payload>}`.
pub open spec fn envelope_text(r: WsResponse) -> Seq<char> {
    object(seq![member("messageType"@, quoted(r.message_type@)), member("data"@, r.data@)])
}

impl Envelope {
    /// The envelope that carries a decoded message to the durable stream.
    pub fn for_response(resp: &WsResponse) -> (r: Envelope)
        ensures
            r.content_type@ == json_content_type(),
            r.body@ == envelope_text(*resp),
    {
        let mut body = String::from_str("{");
        body.append(quote("messageType").as_str());
        body.append(":");
        body.append(quote(resp.message_type.as_str()).as_str());
        body.append(",");
        body.append(quote("data").as_str());
        body.append(":");
        body.append(resp.data.as_str());
        body.append("}");
        proof {
            reveal_strlit("{");
            reveal_strlit("}");
            reveal_strlit(":");
            reveal_strlit(",");
            let m = seq![member("messageType"@, quoted(resp.message_type@)), member("data"@, resp.data@)];
            assert(m.drop_last() =~= seq![m[0]]);
            assert(crate::json::comma_joined(m.drop_last()) == m[0]);
            assert(body@ =~= envelope_text(*resp));
        }
        Envelope { content_type: String::from_str("application/json"), body }
    }
}

} // verus!
