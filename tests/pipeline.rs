use mdworkers::config::{ClientError, Config, ConfigError};
use mdworkers::dispatch::{Dispatcher, Frame, Phase, Received, Step};
use mdworkers::json::quote;
use mdworkers::message::{AssetClass, MsgError, SubscribeData, SubscribeRequest};
use mdworkers::publish::{Envelope, WsResponse};
use mdworkers::run::{replay, Event};

fn s(x: &str) -> String {
    x.to_string()
}

fn text_event(decoded: Result<WsResponse, MsgError>, acknowledged: bool) -> Event {
    Event { received: Received::Frame(Frame::Text(s("{}"))), decoded, acknowledged }
}

fn other_event(received: Received) -> Event {
    Event { received, decoded: Err(MsgError::ReadError(s("not decoded"))), acknowledged: false }
}

fn trade(price: &str) -> WsResponse {
    WsResponse { message_type: s("trade"), data: format!("{{\"price\":{}}}", price) }
}

#[test]
fn handshake_for_two_tickers() {
    let req = SubscribeRequest::for_tickers(s("key"), vec![s("EURUSD"), s("GBPUSD")]);
    let body = req.to_json();
    assert!(body.contains("\"tickers\":[\"EURUSD\",\"GBPUSD\"]"));
    assert!(body.contains("\"thresholdLevel\":\"5\""));
    assert!(!body.contains("subscriptionId"));
    assert_eq!(
        body,
        "{\"eventName\":\"subscribe\",\"authorization\":\"key\",\"eventData\":{\"thresholdLevel\":\"5\",\"tickers\":[\"EURUSD\",\"GBPUSD\"]}}"
    );
}

#[test]
fn handshake_fields_round_trip() {
    let data = SubscribeData {
        subscription_id: Some(s("sub-1")),
        threshold_level: Some(s("7")),
        tickers: Some(vec![s("btcusd"), s("a\"b\\c")]),
    };
    let req = SubscribeRequest { event_name: s("subscribe"), authorization: s("k\n1"), event_data: data };
    let v: serde_json::Value = serde_json::from_str(&req.to_json()).unwrap();
    assert_eq!(v["eventName"], "subscribe");
    assert_eq!(v["authorization"], "k\n1");
    assert_eq!(v["eventData"]["subscriptionId"], "sub-1");
    assert_eq!(v["eventData"]["thresholdLevel"], "7");
    assert_eq!(v["eventData"]["tickers"][0], "btcusd");
    assert_eq!(v["eventData"]["tickers"][1], "a\"b\\c");
    assert_eq!(v["eventData"]["tickers"].as_array().unwrap().len(), 2);
}

#[test]
fn handshake_omits_absent_fields() {
    let data = SubscribeData { subscription_id: None, threshold_level: None, tickers: None };
    assert_eq!(data.to_json(), "{}");
    let only_id = SubscribeData { subscription_id: Some(s("x")), threshold_level: None, tickers: None };
    assert_eq!(only_id.to_json(), "{\"subscriptionId\":\"x\"}");
    let empty_list = SubscribeData { subscription_id: None, threshold_level: None, tickers: Some(vec![]) };
    assert_eq!(empty_list.to_json(), "{\"tickers\":[]}");
}

#[test]
fn quote_escapes_like_json() {
    let raw = "a\"b\\c\nd\u{1}\té";
    assert_eq!(quote(raw), "\"a\\\"b\\\\c\\nd\\u0001\\té\"");
    assert_eq!(quote(raw), serde_json::to_string(raw).unwrap());
    assert_eq!(quote(""), "\"\"");
}

#[test]
fn envelope_of_trade() {
    let env = Envelope::for_response(&trade("1.5"));
    assert_eq!(env.content_type, "application/json");
    assert_eq!(env.body, "{\"messageType\":\"trade\",\"data\":{\"price\":1.5}}");
    let v: serde_json::Value = serde_json::from_str(&env.body).unwrap();
    assert_eq!(v["messageType"], "trade");
    assert_eq!(v["data"]["price"], 1.5);
}

#[test]
fn one_trade_frame_is_published_once() {
    let events = vec![text_event(Ok(trade("1.5")), true)];
    let (delivered, outcome) = replay(AssetClass::Crypto, Ok(()), &events);
    assert_eq!(outcome, Ok(()));
    assert_eq!(delivered.len(), 1);
    assert_eq!(delivered[0].content_type, "application/json");
    let v: serde_json::Value = serde_json::from_str(&delivered[0].body).unwrap();
    assert_eq!(v["messageType"], "trade");
    assert_eq!(v["data"]["price"], 1.5);
}

#[test]
fn malformed_middle_frame_is_skipped() {
    let events = vec![
        text_event(Ok(trade("1")), true),
        text_event(Err(MsgError::ReadError(s("expected value at line 1"))), true),
        text_event(Ok(trade("3")), true),
    ];
    let (delivered, outcome) = replay(AssetClass::Forex, Ok(()), &events);
    assert_eq!(outcome, Ok(()));
    assert_eq!(delivered.len(), 2);
    assert_eq!(delivered[0].body, "{\"messageType\":\"trade\",\"data\":{\"price\":1}}");
    assert_eq!(delivered[1].body, "{\"messageType\":\"trade\",\"data\":{\"price\":3}}");
}

#[test]
fn failed_publish_does_not_stop_loop() {
    let events = vec![
        text_event(Ok(trade("1")), false),
        text_event(Ok(trade("2")), true),
        other_event(Received::Frame(Frame::Close)),
    ];
    let (delivered, outcome) = replay(AssetClass::Equity, Ok(()), &events);
    assert_eq!(outcome, Ok(()));
    assert_eq!(delivered.len(), 1);
    assert_eq!(delivered[0].body, "{\"messageType\":\"trade\",\"data\":{\"price\":2}}");
}

#[test]
fn close_frame_ends_with_success() {
    let events = vec![
        other_event(Received::Frame(Frame::Ping(vec![1]))),
        other_event(Received::Frame(Frame::Close)),
        text_event(Ok(trade("9")), true),
    ];
    let (delivered, outcome) = replay(AssetClass::Forex, Ok(()), &events);
    assert_eq!(outcome, Ok(()));
    assert!(delivered.is_empty());
}

#[test]
fn read_failure_names_asset_class() {
    let events = vec![
        text_event(Ok(trade("1")), true),
        other_event(Received::ReadFailed(s("connection reset"))),
        text_event(Ok(trade("2")), true),
    ];
    let (delivered, outcome) = replay(AssetClass::Forex, Ok(()), &events);
    assert_eq!(delivered.len(), 1);
    assert_eq!(outcome, Err(MsgError::ReadError(s("Forex WebSocket error: connection reset"))));
}

#[test]
fn failed_handshake_reads_nothing() {
    let events = vec![text_event(Ok(trade("1")), true)];
    let err = MsgError::SendError(s("broken pipe"));
    let (delivered, outcome) = replay(AssetClass::Crypto, Err(err.clone()), &events);
    assert!(delivered.is_empty());
    assert_eq!(outcome, Err(err));
}

#[test]
fn exhausted_channel_is_success() {
    let (delivered, outcome) = replay(AssetClass::Crypto, Ok(()), &vec![]);
    assert!(delivered.is_empty());
    assert_eq!(outcome, Ok(()));
    let events = vec![other_event(Received::Exhausted), text_event(Ok(trade("1")), true)];
    let (delivered, outcome) = replay(AssetClass::Crypto, Ok(()), &events);
    assert!(delivered.is_empty());
    assert_eq!(outcome, Ok(()));
}

#[test]
fn dispatcher_classifies_frames() {
    let mut d = Dispatcher::new(AssetClass::Equity);
    assert_eq!(d.phase, Phase::Handshaking);
    assert_eq!(d.on_handshake(Ok(())), None);
    assert_eq!(d.phase, Phase::Streaming);
    assert_eq!(d.on_received(&Received::Frame(Frame::Text(s("x")))), Step::Decode);
    assert_eq!(d.on_received(&Received::Frame(Frame::Binary(vec![0]))), Step::Decode);
    assert_eq!(d.on_received(&Received::Frame(Frame::Ping(vec![]))), Step::Skip);
    assert_eq!(d.on_received(&Received::Frame(Frame::Pong(vec![]))), Step::Skip);
    assert_eq!(d.on_received(&Received::Frame(Frame::Raw(vec![]))), Step::Skip);
    assert_eq!(d.on_decoded(&Err(MsgError::ReadError(s("bad")))), None);
    assert_eq!(d.phase, Phase::Streaming);
    assert_eq!(d.on_received(&Received::Frame(Frame::Close)), Step::Finish(Ok(())));
    assert_eq!(d.phase, Phase::Closed);
}

#[test]
fn dispatcher_handshake_failure() {
    let mut d = Dispatcher::new(AssetClass::Forex);
    let e = MsgError::SendError(s("closed"));
    assert_eq!(d.on_handshake(Err(e.clone())), Some(e));
    assert_eq!(d.phase, Phase::Failed);
}

#[test]
fn config_from_values() {
    let c = Config::from_values(Some(s("wss://feed")), Some(s("k"))).unwrap();
    assert_eq!(c.url, "wss://feed");
    assert_eq!(c.api_key, "k");
    assert_eq!(c.feed_url(AssetClass::Forex), "wss://feed/fx");
    assert_eq!(c.feed_url(AssetClass::Crypto), "wss://feed/crypto");
    assert_eq!(c.feed_url(AssetClass::Equity), "wss://feed/iex");
    assert_eq!(Config::from_values(None, None), Err(ConfigError::NotFound(s("TIINGO_WS_URL"))));
    assert_eq!(Config::from_values(Some(s("u")), None), Err(ConfigError::NotFound(s("TIINGO_API_KEY"))));
}

#[test]
fn error_messages() {
    assert_eq!(ConfigError::NotFound(s("TIINGO_WS_URL")).message(), "TIINGO_WS_URL must be set");
    assert_eq!(ClientError::InternalServerError.message(), "Internal server error occurred");
    assert_eq!(ClientError::ConnectionFailed(s("x")).message(), "Connection failed: x");
    assert_eq!(ClientError::InvalidResponse(s("y")).message(), "Invalid response: y");
    assert_eq!(MsgError::ReadError(s("r")).message(), "Read error: r");
    assert_eq!(MsgError::SendError(s("w")).message(), "Send error: w");
    assert_eq!(AssetClass::Crypto.label(), "Crypto");
}
