use package_tracker::tg::{
    Batcher, BotProp, Delivery, ErrorResp, NotifyError, SendMsgParam, delivery_failure,
};

#[test]
fn test_send_message() {
    let mut bot = Batcher::new();
    bot.send_message(
        "<b>Test Message</b>\n<code>if you see this message with markup, test is pass</code>",
    );
    assert_eq!(
        bot.tick(),
        Some(
            "<b>Test Message</b>\n<code>if you see this message with markup, test is pass</code>"
                .to_string()
        )
    );
    bot.send_message("Multiple text 1");
    bot.send_message("Multiple text 2");
    bot.send_message("Multiple text 3");
    bot.send_message("Multiple text 4");
    bot.send_message("Multiple text 5");
    bot.send_message("Multiple text 6");
    bot.send_message(
        "If you see 6 <code>Multiple Text *</code> combine with this message, test is pass",
    );
    assert_eq!(
        bot.tick(),
        Some(
            "Multiple text 1\nMultiple text 2\nMultiple text 3\nMultiple text 4\nMultiple text 5\nMultiple text 6\nIf you see 6 <code>Multiple Text *</code> combine with this message, test is pass"
                .to_string()
        )
    );
    assert_eq!(bot.tick(), None);
}

#[test]
fn a_burst_is_one_message_in_call_order() {
    let mut b = Batcher::new();
    b.send_message("one");
    b.send_message("two");
    b.send_message("three");
    assert_eq!(b.len(), 3);
    assert_eq!(b.tick(), Some("one\ntwo\nthree".to_string()));
    assert_eq!(b.len(), 0);
}

#[test]
fn an_idle_tick_sends_nothing() {
    let mut b = Batcher::new();
    assert_eq!(b.tick(), None);
    b.send_message("only");
    assert_eq!(b.tick(), Some("only".to_string()));
    assert_eq!(b.tick(), None);
    assert_eq!(b.tick(), None);
}

#[test]
fn closing_hands_over_what_is_pending() {
    let mut b = Batcher::new();
    b.send_message("last");
    b.send_message("words");
    assert_eq!(b.close(), Some("last\nwords".to_string()));
    assert_eq!(b.close(), None);
    assert_eq!(b.len(), 0);
}

#[test]
fn ticks_deliver_in_tick_order() {
    let mut b = Batcher::new();
    b.send_message("a");
    let first = b.tick();
    b.send_message("b");
    b.send_message("c");
    let second = b.tick();
    assert_eq!(first, Some("a".to_string()));
    assert_eq!(second, Some("b\nc".to_string()));
}

#[test]
fn bot_endpoint_is_the_normalised_base_url() {
    let prop = BotProp::new("123:abc", -100).ok().unwrap();
    assert_eq!(prop.group_id, -100);
    assert_eq!(prop.api_endpoint, "https://api.telegram.org/bot123:abc/");
    let odd = BotProp::new("a b", 1).ok().unwrap();
    assert_eq!(odd.api_endpoint, "https://api.telegram.org/bota%20b/");
}

#[test]
fn send_message_url_is_joined_onto_the_endpoint() {
    let prop = BotProp::new("123:abc", -100).ok().unwrap();
    assert_eq!(
        prop.send_message_url(),
        Some("https://api.telegram.org/bot123:abc/sendMessage".to_string())
    );
    let broken = BotProp { group_id: 1, api_endpoint: "not a url".to_string() };
    assert_eq!(broken.send_message_url(), None);
}

#[test]
fn an_unparsed_endpoint_is_refused() {
    assert!(matches!(BotProp::from_parsed(None, 5), Err(NotifyError::BadEndpoint)));
    let ok = BotProp::from_parsed(Some("https://example.org/".to_string()), 5).ok().unwrap();
    assert_eq!(ok.group_id, 5);
    assert_eq!(ok.api_endpoint, "https://example.org/");
}

#[test]
fn send_param_marks_the_text_as_html() {
    let p = SendMsgParam::new(-42, "<b>hi</b>");
    assert_eq!(p.chat_id, -42);
    assert_eq!(p.text, "<b>hi</b>");
    assert_eq!(p.parse_mode, "HTML");
}

#[test]
fn delivery_failures_are_described_and_success_is_silent() {
    assert_eq!(delivery_failure(&Delivery::Answered(200, None)), None);
    assert_eq!(
        delivery_failure(&Delivery::Answered(
            200,
            Some(ErrorResp { description: "ignored".to_string() })
        )),
        None
    );
    assert_eq!(
        delivery_failure(&Delivery::Answered(
            400,
            Some(ErrorResp { description: "Bad Request: chat not found".to_string() })
        )),
        Some("fail to send message: Bad Request: chat not found".to_string())
    );
    assert_eq!(
        delivery_failure(&Delivery::Answered(502, None)),
        Some("fail to send request, also the api doesn't response as expected".to_string())
    );
    assert_eq!(
        delivery_failure(&Delivery::Failed("connection reset".to_string())),
        Some("fail to send request to telegram: connection reset".to_string())
    );
}
