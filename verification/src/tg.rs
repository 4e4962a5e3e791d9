//! The notifier: notices are queued as they come, merged on every tick into
//! one message, and handed to the chat endpoint one message at a time.

use crate::model::opt_text_view;
use crate::text::{join, join_text, texts_view};
use vstd::prelude::*;

verus! {

/// What the URL parser makes of a text: the normalised text of the absolute
/// URL that it reads from `input`, or nothing where it reads none.
pub uninterp spec fn url_parse_text(input: Seq<char>) -> Option<Seq<char>>;

/// What the URL parser makes of a reference against a base: the normalised
/// text of the URL that `input` names relative to the URL read from `base`,
/// or nothing where `base` is no absolute URL or `input` cannot be resolved
/// against it.
pub uninterp spec fn url_join_text(base: Seq<char>, input: Seq<char>) -> Option<Seq<char>>;

/// Calls `reqwest::Url::parse` and gives the text of the URL it returns.
/// Nothing is claimed of that text but that it is the parser's answer for
/// this input.
#[verifier::external_body]
fn parse_url(input: &str) -> (r: Option<String>)
    ensures
        opt_text_view(r) == url_parse_text(input@),
{
    reqwest::Url::parse(input).ok().map(String::from)
}

/// Calls `reqwest::Url::join` on the URL that `base` spells and gives the
/// text of the URL it returns. Nothing is claimed of that text but that it is
/// the parser's answer for this base and this reference.
#[verifier::external_body]
fn join_url(base: &str, input: &str) -> (r: Option<String>)
    ensures
        opt_text_view(r) == url_join_text(base@, input@),
{
    reqwest::Url::parse(base).ok()?.join(input).ok().map(String::from)
}

/// Why the notifier could not be set up.
#[derive(Clone, Copy, PartialEq, Eq, Structural, Debug)]
pub enum NotifyError {
    /// The bot token does not make a URL.
    BadEndpoint,
}

/// What the deliverer needs to reach the chat: the group to write to and the
/// bot's API endpoint.
pub struct BotProp {
    /// The group that notices go to.
    pub group_id: i64,
    /// The bot's API base URL, as the URL parser normalised it.
    pub api_endpoint: String,
}

/// What a [`BotProp`] says.
pub struct BotPropView {
    pub group_id: i64,
    pub api_endpoint: Seq<char>,
}

impl View for BotProp {
    type V = BotPropView;

    open spec fn view(&self) -> BotPropView {
        BotPropView { group_id: self.group_id, api_endpoint: self.api_endpoint@ }
    }
}

/// The text of a bot's API base URL before it is parsed.
pub open spec fn bot_base_text(token: Seq<char>) -> Seq<char> {
    "https://api.telegram.org/bot"@ + token + "/"@
}

impl BotProp {
    /// The properties for a group and an endpoint that the URL parser has
    /// answered for: refused where the parser read no URL.
    pub fn from_parsed(parsed: Option<String>, group_id: i64) -> (r: Result<BotProp, NotifyError>)
        ensures
            match parsed {
                Some(url) => r is Ok && r->Ok_0@ == (BotPropView {
                    group_id,
                    api_endpoint: url@,
                }),
                None => r == Err::<BotProp, NotifyError>(NotifyError::BadEndpoint),
            },
    {
        match parsed {
            Some(api_endpoint) => Ok(BotProp { group_id, api_endpoint }),
            None => Err(NotifyError::BadEndpoint),
        }
    }

    /// The properties of the bot with the given token, writing to the given
    /// group. Refused where the token does not make a URL.
    pub fn new(token: &str, group_id: i64) -> (r: Result<BotProp, NotifyError>)
        ensures
            match url_parse_text(bot_base_text(token@)) {
                Some(url) => r is Ok && r->Ok_0@ == (BotPropView { group_id, api_endpoint: url }),
                None => r == Err::<BotProp, NotifyError>(NotifyError::BadEndpoint),
            },
    {
        let mut final_url = "https://api.telegram.org/bot".to_owned();
        final_url.append(token);
        final_url.append("/");
        BotProp::from_parsed(parse_url(final_url.as_str()), group_id)
    }

    /// The URL of the endpoint's method for sending a message, or nothing
    /// where the parser cannot resolve it against the endpoint.
    pub fn send_message_url(&self) -> (r: Option<String>)
        ensures
            opt_text_view(r) == url_join_text(self@.api_endpoint, "sendMessage"@),
    {
        join_url(self.api_endpoint.as_str(), "sendMessage")
    }
}

/// The body of a request to send a message.
pub struct SendMsgParam {
    /// The chat to write to.
    pub chat_id: i64,
    /// The message.
    pub text: String,
    /// How the chat is to read the message's markup.
    pub parse_mode: &'static str,
}

impl SendMsgParam {
    /// The request that sends `text` to the group `chat_id`, marked up as HTML.
    pub fn new(chat_id: i64, text: &str) -> (r: SendMsgParam)
        ensures
            r.chat_id == chat_id,
            r.text@ == text@,
            r.parse_mode@ == "HTML"@,
    {
        SendMsgParam { chat_id, text: text.to_owned(), parse_mode: "HTML" }
    }
}

/// What the chat endpoint answers where it refuses a request.
pub struct ErrorResp {
    /// The refusal in the endpoint's words.
    pub description: String,
}

/// How an attempt to deliver one message ended.
pub enum Delivery {
    /// The endpoint answered with this HTTP status and, where the status is
    /// not 200, with this refusal if its answer could be read.
    Answered(u16, Option<ErrorResp>),
    /// The request did not get through; the text says why.
    Failed(String),
}

/// The line to log for a delivery that failed; nothing for one that the
/// endpoint answered with status 200.
pub open spec fn failure_text(d: Delivery) -> Option<Seq<char>> {
    match d {
        Delivery::Answered(status, refusal) => if status == 200 {
            None
        } else {
            match refusal {
                Some(e) => Some("fail to send message: "@ + e.description@),
                None => Some(
                    "fail to send request, also the api doesn't response as expected"@,
                ),
            }
        },
        Delivery::Failed(why) => Some("fail to send request to telegram: "@ + why@),
    }
}

/// Decides what to log after a delivery attempt. Whatever the outcome, the
/// deliverer goes on with the next message: a failure is not retried.
pub fn delivery_failure(d: &Delivery) -> (r: Option<String>)
    ensures
        opt_text_view(r) == failure_text(*d),
{
    match d {
        Delivery::Answered(status, refusal) => {
            if *status == 200 {
                None
            } else {
                match refusal {
                    Some(e) => {
                        let mut out = "fail to send message: ".to_owned();
                        out.append(e.description.as_str());
                        Some(out)
                    },
                    None => Some(
                        "fail to send request, also the api doesn't response as expected".to_owned(),
                    ),
                }
            }
        },
        Delivery::Failed(why) => {
            let mut out = "fail to send request to telegram: ".to_owned();
            out.append(why.as_str());
            Some(out)
        },
    }
}

/// What can happen to the batcher.
pub enum QueueEvent {
    /// A notice was enqueued.
    Text(Seq<char>),
    /// The tick interval has passed.
    Tick,
    /// The producing side was closed.
    Closed,
}

/// The message that merges a batch: its texts in order, a newline between
/// neighbours.
pub open spec fn merged(batch: Seq<Seq<char>>) -> Seq<char> {
    join_text(batch, "\n"@)
}

/// The batch after an event.
pub open spec fn batch_after(batch: Seq<Seq<char>>, ev: QueueEvent) -> Seq<Seq<char>> {
    match ev {
        QueueEvent::Text(t) => batch.push(t),
        QueueEvent::Tick => Seq::empty(),
        QueueEvent::Closed => Seq::empty(),
    }
}

/// The message that an event hands to the deliverer: a tick or the closing
/// hands over the merged batch, unless the batch is empty; a text hands over
/// nothing.
pub open spec fn forwarded(batch: Seq<Seq<char>>, ev: QueueEvent) -> Option<Seq<char>> {
    match ev {
        QueueEvent::Text(_) => None,
        QueueEvent::Tick => if batch.len() == 0 {
            None
        } else {
            Some(merged(batch))
        },
        QueueEvent::Closed => if batch.len() == 0 {
            None
        } else {
            Some(merged(batch))
        },
    }
}

/// The batch after the first `n` of a run of events.
pub open spec fn batch_after_all(batch: Seq<Seq<char>>, events: Seq<QueueEvent>, n: nat) -> Seq<
    Seq<char>,
>
    decreases n,
{
    if n == 0 {
        batch
    } else {
        batch_after(batch_after_all(batch, events, (n - 1) as nat), events[n - 1])
    }
}

/// The messages that the first `n` of a run of events hand to the deliverer,
/// in order.
pub open spec fn forwarded_by_all(batch: Seq<Seq<char>>, events: Seq<QueueEvent>, n: nat) -> Seq<
    Seq<char>,
>
    decreases n,
{
    if n == 0 {
        Seq::empty()
    } else {
        let before = forwarded_by_all(batch, events, (n - 1) as nat);
        match forwarded(batch_after_all(batch, events, (n - 1) as nat), events[n - 1]) {
            Some(m) => before.push(m),
            None => before,
        }
    }
}

/// A burst of notices followed by one tick.
pub open spec fn burst(texts: Seq<Seq<char>>) -> Seq<QueueEvent> {
    texts.map_values(|t: Seq<char>| QueueEvent::Text(t)).push(QueueEvent::Tick)
}

/// The notices accepted since the last tick, in the order in which they came.
pub struct Batcher {
    pending: Vec<String>,
}

impl View for Batcher {
    type V = Seq<Seq<char>>;

    closed spec fn view(&self) -> Seq<Seq<char>> {
        texts_view(self.pending@)
    }
}

impl Batcher {
    /// A batcher with nothing pending.
    pub fn new() -> (r: Batcher)
        ensures
            r@ == Seq::<Seq<char>>::empty(),
    {
        let r = Batcher { pending: Vec::new() };
        assert(r@ =~= Seq::<Seq<char>>::empty());
        r
    }

    /// How many notices are pending.
    pub fn len(&self) -> (r: usize)
        ensures
            r == self@.len(),
    {
        self.pending.len()
    }

    /// Accepts a notice. This always succeeds and hands nothing over.
    pub fn send_message(&mut self, text: &str)
        ensures
            final(self)@ == batch_after(old(self)@, QueueEvent::Text(text@)),
    {
        let ghost before = self.pending@;
        self.pending.push(text.to_owned());
        proof {
            assert(texts_view(self.pending@) =~= texts_view(before).push(text@));
        }
    }

    /// A tick: hands over the pending notices as one message and starts an
    /// empty batch; hands over nothing where nothing is pending.
    pub fn tick(&mut self) -> (r: Option<String>)
        ensures
            opt_text_view(r) == forwarded(old(self)@, QueueEvent::Tick),
            final(self)@ == batch_after(old(self)@, QueueEvent::Tick),
    {
        self.flush()
    }

    /// The producing side was closed: hands over what is still pending, as
    /// on a tick. After this the deliverer is to stop.
    pub fn close(&mut self) -> (r: Option<String>)
        ensures
            opt_text_view(r) == forwarded(old(self)@, QueueEvent::Closed),
            final(self)@ == batch_after(old(self)@, QueueEvent::Closed),
    {
        self.flush()
    }

    fn flush(&mut self) -> (r: Option<String>)
        ensures
            opt_text_view(r) == if old(self)@.len() == 0 {
                None
            } else {
                Some(merged(old(self)@))
            },
            final(self)@ == Seq::<Seq<char>>::empty(),
    {
        if self.pending.len() == 0 {
            assert(self@ =~= Seq::<Seq<char>>::empty());
            return None;
        }
        let message = join(&self.pending, "\n");
        self.pending = Vec::new();
        assert(self@ =~= Seq::<Seq<char>>::empty());
        Some(message)
    }
}

/// After a burst of notices from an empty batch, the batch holds the
/// notices in the order in which they came, and nothing was handed over.
pub proof fn lemma_texts_only_queue(texts: Seq<Seq<char>>, n: nat)
    requires
        n <= texts.len(),
    ensures
        batch_after_all(Seq::empty(), burst(texts), n) == texts.take(n as int),
        forwarded_by_all(Seq::empty(), burst(texts), n) == Seq::<Seq<char>>::empty(),
    decreases n,
{
    if n == 0 {
        assert(texts.take(0) =~= Seq::<Seq<char>>::empty());
    } else {
        lemma_texts_only_queue(texts, (n - 1) as nat);
        assert(burst(texts)[n - 1] == QueueEvent::Text(texts[n - 1]));
        assert(texts.take(n as int) =~= texts.take(n - 1).push(texts[n - 1]));
    }
}

/// Notices that come within one tick window reach the deliverer as exactly
/// one message: their texts in the order in which they came, a newline
/// between neighbours. The batch is empty afterwards.
pub proof fn law_burst_is_one_message(texts: Seq<Seq<char>>)
    requires
        texts.len() > 0,
    ensures
        forwarded_by_all(Seq::empty(), burst(texts), burst(texts).len()) == seq![
            join_text(texts, "\n"@),
        ],
        batch_after_all(Seq::empty(), burst(texts), burst(texts).len()) == Seq::<
            Seq<char>,
        >::empty(),
{
    let n = texts.len();
    lemma_texts_only_queue(texts, n);
    assert(texts.take(n as int) =~= texts);
    assert(burst(texts).len() == n + 1);
    assert(burst(texts)[n as int] == QueueEvent::Tick);
    assert(forwarded_by_all(Seq::empty(), burst(texts), n + 1) =~= seq![join_text(texts, "\n"@)]);
}

/// A tick in whose window no notice came hands nothing to the deliverer: so
/// the first tick of a new batcher, and so a tick that follows a tick or
/// the closing, whatever was pending before.
pub proof fn law_idle_tick_is_silent(batch: Seq<Seq<char>>, ev: QueueEvent)
    requires
        ev is Tick || ev is Closed,
    ensures
        forwarded(Seq::empty(), QueueEvent::Tick) is None,
        forwarded(batch_after(batch, ev), QueueEvent::Tick) is None,
        batch_after(batch_after(batch, ev), QueueEvent::Tick) == Seq::<Seq<char>>::empty(),
{
}

} // verus!
