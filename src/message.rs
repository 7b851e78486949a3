//! The records that the pipeline exchanges, and the wire text it emits.
use vstd::prelude::*;
use crate::json::{
    append_comma_joined, lemma_quoted_injective, lemma_quoted_prefix_injective,
    lemma_string_array_injective, member, object, quote, quoted, string_array,
};

verus! {

/// A market-data category; each has its own feed and ticker set.
#[derive(Clone, Copy, Debug, PartialEq, Eq, Structural)]
pub enum AssetClass {
    Forex,
    Crypto,
    Equity,
}

/// The name of an asset class as it appears in log lines and error details.
pub open spec fn label_of(ac: AssetClass) -> Seq<char> {
    match ac {
        AssetClass::Forex => "Forex"@,
        AssetClass::Crypto => "Crypto"@,
        AssetClass::Equity => "Equity"@,
    }
}

/// The path segment under the feed base address that serves an asset class.
pub open spec fn path_of(ac: AssetClass) -> Seq<char> {
    match ac {
        AssetClass::Forex => "fx"@,
        AssetClass::Crypto => "crypto"@,
        AssetClass::Equity => "iex"@,
    }
}

impl AssetClass {
    pub fn label(&self) -> (r: String)
        ensures
            r@ == label_of(*self),
    {
        match self {
            AssetClass::Forex => String::from_str("Forex"),
            AssetClass::Crypto => String::from_str("Crypto"),
            AssetClass::Equity => String::from_str("Equity"),
        }
    }

    pub fn path(&self) -> (r: String)
        ensures
            r@ == path_of(*self),
    {
        match self {
            AssetClass::Forex => String::from_str("fx"),
            AssetClass::Crypto => String::from_str("crypto"),
            AssetClass::Equity => String::from_str("iex"),
        }
    }
}

/// A failure while reading from or sending to a feed channel, with its detail.
#[derive(Clone, Debug, PartialEq, Eq)]
pub enum MsgError {
    ReadError(String),
    SendError(String),
}

pub open spec fn msg_error_text(e: MsgError) -> Seq<char> {
    match e {
        MsgError::ReadError(d) => "Read error: "@ + d@,
        MsgError::SendError(d) => "Send error: "@ + d@,
    }
}

impl MsgError {
    /// The error as one line of text.
    pub fn message(&self) -> (r: String)
        ensures
            r@ == msg_error_text(*self),
    {
        match self {
            MsgError::ReadError(d) => String::from_str("Read error: ").concat(d.as_str()),
            MsgError::SendError(d) => String::from_str("Send error: ").concat(d.as_str()),
        }
    }
}

/// What a subscription asks for; every field may be left out.
#[derive(Clone, Debug, PartialEq, Eq)]
pub struct SubscribeData {
    pub subscription_id: Option<String>,
    pub threshold_level: Option<String>,
    pub tickers: Option<Vec<String>>,
}

pub open spec fn opt_text(o: Option<String>) -> Option<Seq<char>> {
    match o {
        Some(s) => Some(s@),
        None => None,
    }
}

/// The JSON string literal of an optional text, where it is given.
pub open spec fn quoted_text(o: Option<String>) -> Option<Seq<char>> {
    match o {
        Some(s) => Some(quoted(s@)),
        None => None,
    }
}

pub open spec fn texts(v: Seq<String>) -> Seq<Seq<char>> {
    v.map_values(|s: String| s@)
}

/// The members that a present field contributes to the `eventData` object.
pub open spec fn opt_member(key: Seq<char>, value: Option<Seq<char>>) -> Seq<Seq<char>> {
    match value {
        Some(v) => seq![member(key, v)],
        None => Seq::empty(),
    }
}

/// The `eventData` object: absent fields are left out, present ones are written
/// in the order subscription id, threshold level, tickers.
pub open spec fn subscribe_data_text(d: SubscribeData) -> Seq<char> {
    object(data_members(d))
}

/// The members of the `eventData` object, one per present field.
pub open spec fn data_members(d: SubscribeData) -> Seq<Seq<char>> {
    opt_member("subscriptionId"@, quoted_text(d.subscription_id))
        + opt_member("thresholdLevel"@, quoted_text(d.threshold_level))
        + opt_member("tickers"@, tickers_text(d.tickers))
}

pub open spec fn present_count(d: SubscribeData) -> nat {
    (if d.subscription_id is Some { 1nat } else { 0nat }) + (if d.threshold_level is Some {
        1nat
    } else {
        0nat
    }) + (if d.tickers is Some { 1nat } else { 0nat })
}

proof fn lemma_member_injective(k1: Seq<char>, v1: Seq<char>, k2: Seq<char>, v2: Seq<char>)
    requires
        member(k1, v1) == member(k2, v2),
    ensures
        k1 == k2,
        v1 == v2,
{
    assert(member(k1, v1) =~= quoted(k1) + (seq![':'] + v1));
    assert(member(k2, v2) =~= quoted(k2) + (seq![':'] + v2));
    lemma_quoted_prefix_injective(k1, k2, seq![':'] + v1, seq![':'] + v2);
    assert(v1 =~= (seq![':'] + v1).drop_first());
    assert(v2 =~= (seq![':'] + v2).drop_first());
}

/// Absent fields are left out of the handshake and present ones are written
/// as they are: the `eventData` object holds one member per present field, and
/// two records with the same members have the same fields, value for value.
pub proof fn lemma_subscribe_data_fields(a: SubscribeData, b: SubscribeData)
    ensures
        data_members(a).len() == present_count(a),
        data_members(a) == data_members(b) ==> opt_text(a.subscription_id) == opt_text(b.subscription_id)
            && opt_text(a.threshold_level) == opt_text(b.threshold_level) && (a.tickers is Some
            <==> b.tickers is Some) && (a.tickers is Some ==> texts(a.tickers->Some_0@) == texts(
            b.tickers->Some_0@)),
{
    if data_members(a) == data_members(b) {
        let ma = data_members(a);
        let mb = data_members(b);
        let sid: Seq<char> = "subscriptionId"@;
        let th: Seq<char> = "thresholdLevel"@;
        let tk: Seq<char> = "tickers"@;
        reveal_strlit("subscriptionId");
        reveal_strlit("thresholdLevel");
        reveal_strlit("tickers");
        assert(sid != th && sid != tk && th != tk) by {
            assert(sid[0] != th[0]);
            assert(sid[0] != tk[0]);
            assert(th[1] != tk[1]);
        }
        let ka = key_list(a);
        let kb = key_list(b);
        let va = value_list(a);
        let vb = value_list(b);
        lemma_members_split(a);
        lemma_members_split(b);
        assert forall|i: int| 0 <= i < ma.len() implies ka[i] == kb[i] && va[i] == vb[i] by {
            assert(ma[i] == mb[i]);
            assert(data_members(a)[i] == member(ka[i], va[i]));
            assert(data_members(b)[i] == member(kb[i], vb[i]));
            lemma_member_injective(ka[i], va[i], kb[i], vb[i]);
        }
        assert(ka =~= kb);
        assert(va =~= vb);
        assert(a.subscription_id is Some <==> b.subscription_id is Some) by {
            assert(a.subscription_id is Some <==> (ka.len() > 0 && ka[0] == sid));
            assert(b.subscription_id is Some <==> (kb.len() > 0 && kb[0] == sid));
        }
        assert(a.tickers is Some <==> b.tickers is Some) by {
            assert(a.tickers is Some <==> (ka.len() > 0 && ka.last() == tk));
            assert(b.tickers is Some <==> (kb.len() > 0 && kb.last() == tk));
        }
        assert(a.threshold_level is Some <==> b.threshold_level is Some);
        if let Some(x) = a.subscription_id {
            assert(va[0] == quoted(x@));
            lemma_quoted_injective(x@, b.subscription_id->Some_0@);
        }
        if let Some(x) = a.threshold_level {
            let j = if a.subscription_id is Some { 1int } else { 0int };
            assert(va[j] == quoted(x@));
            lemma_quoted_injective(x@, b.threshold_level->Some_0@);
        }
        if let Some(x) = a.tickers {
            let j = ma.len() - 1;
            assert(va[j] == string_array(texts(x@)));
            lemma_string_array_injective(texts(x@), texts(b.tickers->Some_0@));
        }
    }
}

/// The names of the members of the `eventData` object, in order.
spec fn key_list(d: SubscribeData) -> Seq<Seq<char>> {
    (if d.subscription_id is Some { seq!["subscriptionId"@] } else { Seq::empty() }) + (
    if d.threshold_level is Some {
        seq!["thresholdLevel"@]
    } else {
        Seq::empty()
    }) + (if d.tickers is Some { seq!["tickers"@] } else { Seq::empty() })
}

/// The values of the members of the `eventData` object, in order.
spec fn value_list(d: SubscribeData) -> Seq<Seq<char>> {
    (if d.subscription_id is Some { seq![quoted(d.subscription_id->Some_0@)] } else { Seq::empty() })
        + (if d.threshold_level is Some {
        seq![quoted(d.threshold_level->Some_0@)]
    } else {
        Seq::empty()
    }) + (if d.tickers is Some { seq![string_array(texts(d.tickers->Some_0@))] } else { Seq::empty() })
}

proof fn lemma_members_split(d: SubscribeData)
    ensures
        data_members(d).len() == present_count(d),
        key_list(d).len() == present_count(d),
        value_list(d).len() == present_count(d),
        forall|i: int|
            0 <= i < data_members(d).len() ==> #[trigger] data_members(d)[i] == member(key_list(d)[i], value_list(d)[i]),
{
    assert forall|i: int|
        0 <= i < data_members(d).len() implies #[trigger] data_members(d)[i] == member(key_list(d)[i], value_list(d)[i]) by {
    }
}

/// The JSON array of the tickers, where they are given.
pub open spec fn tickers_text(t: Option<Vec<String>>) -> Option<Seq<char>> {
    match t {
        Some(t) => Some(string_array(texts(t@))),
        None => None,
    }
}

/// The subscribe handshake sent once on a fresh channel.
#[derive(Clone, Debug, PartialEq, Eq)]
pub struct SubscribeRequest {
    pub event_name: String,
    pub authorization: String,
    pub event_data: SubscribeData,
}

pub open spec fn subscribe_request_text(r: SubscribeRequest) -> Seq<char> {
    object(
        seq![
            member("eventName"@, quoted(r.event_name@)),
            member("authorization"@, quoted(r.authorization@)),
            member("eventData"@, subscribe_data_text(r.event_data)),
        ],
    )
}

/// The threshold level that every dispatch loop subscribes with.
pub open spec fn default_threshold() -> Seq<char> {
    "5"@
}

impl SubscribeRequest {
    /// The handshake that a dispatch loop sends: event "subscribe", the
    /// credential, no subscription id, the fixed threshold and the tickers.
    pub fn for_tickers(credential: String, tickers: Vec<String>) -> (r: SubscribeRequest)
        ensures
            r.event_name@ == "subscribe"@,
            r.authorization == credential,
            r.event_data.subscription_id is None,
            opt_text(r.event_data.threshold_level) == Some(default_threshold()),
            r.event_data.tickers == Some(tickers),
    {
        SubscribeRequest {
            event_name: String::from_str("subscribe"),
            authorization: credential,
            event_data: SubscribeData {
                subscription_id: None,
                threshold_level: Some(String::from_str("5")),
                tickers: Some(tickers),
            },
        }
    }
}

fn member_string(key: &str, value: &str) -> (r: String)
    ensures
        r@ == member(key@, value@),
{
    let mut r = quote(key);
    r.append(":");
    proof {
        reveal_strlit(":");
    }
    r.append(value);
    r
}

/// The JSON array of the quoted tickers.
pub fn string_array_text(items: &Vec<String>) -> (r: String)
    ensures
        r@ == string_array(texts(items@)),
{
    let mut quoted_items: Vec<String> = Vec::new();
    let mut i: usize = 0;
    while i < items.len()
        invariant
            i <= items.len(),
            quoted_items@.len() == i,
            forall|j: int| 0 <= j < i ==> #[trigger] quoted_items@[j]@ == quoted(items@[j]@),
        decreases items.len() - i,
    {
        quoted_items.push(quote(items[i].as_str()));
        i = i + 1;
    }
    let mut r = String::from_str("[");
    append_comma_joined(&mut r, &quoted_items);
    r.append("]");
    proof {
        reveal_strlit("[");
        reveal_strlit("]");
        assert(quoted_items@.map_values(|p: String| p@) =~= texts(items@).map_values(
            |s: Seq<char>| quoted(s),
        ));
    }
    r
}

/// Writes an object from its members.
fn object_text(members: &Vec<String>) -> (r: String)
    ensures
        r@ == object(members@.map_values(|p: String| p@)),
{
    let mut r = String::from_str("{");
    append_comma_joined(&mut r, members);
    r.append("}");
    proof {
        reveal_strlit("{");
        reveal_strlit("}");
    }
    r
}

impl SubscribeData {
    /// The `eventData` object of the handshake.
    pub fn to_json(&self) -> (r: String)
        ensures
            r@ == subscribe_data_text(*self),
    {
        let mut members: Vec<String> = Vec::new();
        let ghost sid = opt_member("subscriptionId"@, quoted_text(self.subscription_id));
        let ghost th = opt_member("thresholdLevel"@, quoted_text(self.threshold_level));
        let ghost tk = opt_member("tickers"@, tickers_text(self.tickers));
        match &self.subscription_id {
            Some(s) => members.push(member_string("subscriptionId", quote(s.as_str()).as_str())),
            None => {},
        }
        assert(members@.map_values(|p: String| p@) =~= sid);
        match &self.threshold_level {
            Some(s) => members.push(member_string("thresholdLevel", quote(s.as_str()).as_str())),
            None => {},
        }
        assert(members@.map_values(|p: String| p@) =~= sid + th);
        match &self.tickers {
            Some(t) => {
                let list = string_array_text(t);
                members.push(member_string("tickers", list.as_str()));
            },
            None => {},
        }
        assert(members@.map_values(|p: String| p@) =~= sid + th + tk);
        object_text(&members)
    }
}

impl SubscribeRequest {
    /// The handshake as the JSON text of one text frame.
    pub fn to_json(&self) -> (r: String)
        ensures
            r@ == subscribe_request_text(*self),
    {
        let mut members: Vec<String> = Vec::new();
        let name = quote(self.event_name.as_str());
        members.push(member_string("eventName", name.as_str()));
        let auth = quote(self.authorization.as_str());
        members.push(member_string("authorization", auth.as_str()));
        let data = self.event_data.to_json();
        members.push(member_string("eventData", data.as_str()));
        assert(members@.map_values(|p: String| p@) =~= seq![
            member("eventName"@, quoted(self.event_name@)),
            member("authorization"@, quoted(self.authorization@)),
            member("eventData"@, subscribe_data_text(self.event_data)),
        ]);
        object_text(&members)
    }
}

} // verus!
