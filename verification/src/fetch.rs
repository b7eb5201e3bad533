//! The decisions of the fetcher: what to do with each answer of the server
//! while it walks the pages of a delta listing.

use crate::item::{views, Item, ItemView};
use crate::page::{page_of_text, parse_page, SyncLink, SyncLinkView, SyncPage, SyncPageView};
use vstd::prelude::*;

verus! {

/// Whether a byte is one of the characters `0` to `9`.
pub open spec fn is_digit(b: u8) -> bool {
    48 <= b <= 57
}

/// The number that a run of decimal digits writes.
pub open spec fn digits_value(digits: Seq<u8>) -> nat
    decreases digits.len(),
{
    if digits.len() == 0 {
        0
    } else {
        digits_value(digits.drop_last()) * 10 + (digits.last() - 48) as nat
    }
}

/// Whether every byte is a decimal digit.
pub open spec fn all_digits(digits: Seq<u8>) -> bool {
    forall|i: int| 0 <= i < digits.len() ==> is_digit(#[trigger] digits[i])
}

/// The bytes without a leading `+`.
pub open spec fn without_sign(bytes: Seq<u8>) -> Seq<u8> {
    if bytes.len() > 0 && bytes[0] == 43 {
        bytes.drop_first()
    } else {
        bytes
    }
}

/// The number of seconds that a header value names: an optional `+` and at
/// least one decimal digit, nothing else, and a value within `u64`.
pub open spec fn seconds_of(bytes: Seq<u8>) -> Option<u64> {
    let digits = without_sign(bytes);
    if digits.len() > 0 && all_digits(digits) && digits_value(digits) <= u64::MAX {
        Some(digits_value(digits) as u64)
    } else {
        None
    }
}

/// A run of digits writes no less than each of its front parts.
proof fn lemma_digits_prefix(digits: Seq<u8>, n: int)
    requires
        0 <= n <= digits.len(),
        all_digits(digits),
    ensures
        digits_value(digits.take(n)) <= digits_value(digits),
    decreases digits.len() - n,
{
    if n < digits.len() {
        assert(digits.take(n + 1).drop_last() =~= digits.take(n));
        assert(digits.take(n + 1).last() == digits[n]);
        assert(is_digit(digits[n]));
        lemma_digits_prefix(digits, n + 1);
    } else {
        assert(digits.take(n) =~= digits);
    }
}

/// Reads the number of seconds that a header value names.
pub fn parse_seconds(bytes: &[u8]) -> (r: Option<u64>)
    ensures
        r == seconds_of(bytes@),
{
    let start: usize = if bytes.len() > 0 && bytes[0] == 43 {
        1
    } else {
        0
    };
    let ghost digits = without_sign(bytes@);
    assert(digits =~= bytes@.skip(start as int));
    if start == bytes.len() {
        return None;
    }
    let mut value: u64 = 0;
    let mut i: usize = start;
    while i < bytes.len()
        invariant
            start <= i <= bytes.len(),
            digits == bytes@.skip(start as int),
            digits == without_sign(bytes@),
            all_digits(digits.take(i - start)),
            value as nat == digits_value(digits.take(i - start)),
        decreases bytes.len() - i,
    {
        let b = bytes[i];
        proof {
            assert(digits[i - start] == b);
            assert(digits.take(i - start + 1).drop_last() =~= digits.take(i - start));
            assert(digits.take(i - start + 1).last() == b);
        }
        if b < 48 || b > 57 {
            assert(!is_digit(digits[i - start]));
            return None;
        }
        let d: u64 = (b - 48) as u64;
        if value > (u64::MAX - d) / 10 {
            proof {
                if all_digits(digits) {
                    lemma_digits_prefix(digits, i - start + 1);
                }
            }
            return None;
        }
        value = value * 10 + d;
        proof {
            assert forall|k: int| 0 <= k < i - start + 1 implies is_digit(
                #[trigger] digits.take(i - start + 1)[k],
            ) by {
                if k < i - start {
                    assert(is_digit(digits.take(i - start)[k]));
                }
            }
        }
        i += 1;
    }
    assert(digits.take(i - start) =~= digits);
    Some(value)
}

/// Calls `String::from_utf8`: the text that the bytes encode where they are
/// valid UTF-8, and nothing where they are not.
#[verifier::external_body]
fn text_from_utf8(bytes: Vec<u8>) -> (r: Option<String>)
    ensures
        match r {
            Some(s) => vstd::utf8::valid_utf8(bytes@) && s@ == vstd::utf8::decode_utf8(bytes@),
            None => !vstd::utf8::valid_utf8(bytes@),
        },
{
    match String::from_utf8(bytes) {
        Ok(s) => Some(s),
        Err(_) => None,
    }
}

/// What came back for one request, as the transport hands it over.
#[derive(Debug)]
pub enum Reply {
    /// No answer: the request failed on the way.
    Failed,
    /// An answer: its status, the values of its `Location` and
    /// `Retry-After` headers where it has them, and its body where it
    /// could be read in full.
    Answer {
        status: u16,
        location: Option<Vec<u8>>,
        retry_after: Option<Vec<u8>>,
        body: Option<String>,
    },
}

/// What an answer means to the fetcher.
#[derive(Debug)]
pub enum Event {
    /// The request failed on the way.
    NoAnswer,
    /// 200 with a page.
    Page(SyncPage),
    /// 200, and the body could not be read in full.
    PartialBody,
    /// 200, and the body is no page.
    BadPage,
    /// 410 or 401: the cursor has expired. Holds the address that the server
    /// gave for a fresh start, if it gave one in valid UTF-8.
    Expired(Option<String>),
    /// Another status with `Retry-After`: the seconds, where the header
    /// names a number.
    SlowDown(Option<u64>),
    /// Another status without `Retry-After`.
    Unexpected,
}

/// An `Event` as the contracts see it.
pub enum EventView {
    NoAnswer,
    Page(SyncPageView),
    PartialBody,
    BadPage,
    Expired(Option<Seq<char>>),
    SlowDown(Option<u64>),
    Unexpected,
}

impl View for Event {
    type V = EventView;

    open spec fn view(&self) -> EventView {
        match *self {
            Event::NoAnswer => EventView::NoAnswer,
            Event::Page(page) => EventView::Page(page@),
            Event::PartialBody => EventView::PartialBody,
            Event::BadPage => EventView::BadPage,
            Event::Expired(location) => EventView::Expired(crate::item::text_of(location)),
            Event::SlowDown(seconds) => EventView::SlowDown(seconds),
            Event::Unexpected => EventView::Unexpected,
        }
    }
}

/// The address that a `Location` header gives: its text where the bytes are
/// valid UTF-8.
pub open spec fn location_of(location: Option<Vec<u8>>) -> Option<Seq<char>> {
    match location {
        Some(bytes) => if vstd::utf8::valid_utf8(bytes@) {
            Some(vstd::utf8::decode_utf8(bytes@))
        } else {
            None
        },
        None => None,
    }
}

/// What a reply means, given the page that its body describes.
pub open spec fn event_of(reply: Reply, page: Option<SyncPageView>) -> EventView {
    match reply {
        Reply::Failed => EventView::NoAnswer,
        Reply::Answer { status, location, retry_after, body } => if status == 200 {
            match (body, page) {
                (None, _) => EventView::PartialBody,
                (Some(_), Some(p)) => EventView::Page(p),
                (Some(_), None) => EventView::BadPage,
            }
        } else if status == 410 || status == 401 {
            EventView::Expired(location_of(location))
        } else {
            match retry_after {
                Some(bytes) => EventView::SlowDown(seconds_of(bytes@)),
                None => EventView::Unexpected,
            }
        },
    }
}

/// The page that the body of a reply describes, where it has a body.
pub open spec fn page_of_reply(reply: Reply) -> Option<SyncPageView> {
    match reply {
        Reply::Answer { body: Some(text), .. } => page_of_text(text@),
        _ => None,
    }
}

/// Says what an answer other than 200 means.
fn classify_status(status: u16, location: Option<Vec<u8>>, retry_after: Option<Vec<u8>>) -> (r:
    Event)
    requires
        status != 200,
    ensures
        r@ == event_of(Reply::Answer { status, location, retry_after, body: None }, None),
{
    if status == 410 || status == 401 {
        match location {
            Some(bytes) => Event::Expired(text_from_utf8(bytes)),
            None => Event::Expired(None),
        }
    } else {
        match retry_after {
            Some(bytes) => Event::SlowDown(parse_seconds(bytes.as_slice())),
            None => Event::Unexpected,
        }
    }
}

/// Says what the body of a 200 answer means, given the page read from it.
pub fn classify_body(body_read: bool, page: Option<SyncPage>) -> (r: Event)
    ensures
        r@ == (if !body_read {
            EventView::PartialBody
        } else {
            match page {
                Some(p) => EventView::Page(p@),
                None => EventView::BadPage,
            }
        }),
{
    if !body_read {
        Event::PartialBody
    } else {
        match page {
            Some(p) => Event::Page(p),
            None => Event::BadPage,
        }
    }
}

/// Says what a reply means. The body of a 200 answer is read as a page.
pub fn classify(reply: Reply) -> (r: Event)
    ensures
        r@ == event_of(reply, page_of_reply(reply)),
{
    match reply {
        Reply::Failed => Event::NoAnswer,
        Reply::Answer { status, location, retry_after, body } => {
            if status == 200 {
                match body {
                    Some(text) => classify_body(true, parse_page(text.as_str())),
                    None => classify_body(false, None),
                }
            } else {
                classify_status(status, location, retry_after)
            }
        },
    }
}

/// Why the fetcher gave up.
#[derive(Debug, Clone, Copy, PartialEq, Eq, Structural)]
pub enum Failure {
    /// Requests kept failing on the way.
    Transport,
    /// Bodies kept arriving in part.
    PartialBody,
    /// Bodies kept being no page.
    BadPage,
    /// The server kept answering with a status that says nothing.
    Unexpected,
    /// A `Retry-After` header named no number of seconds.
    RetryAfter,
}

impl Failure {
    /// The words of a failure that the caller may report and survive;
    /// `None` for one that it may not survive.
    pub open spec fn words(self) -> Option<Seq<char>> {
        match self {
            Failure::Transport => Some("Error fetching items"@),
            Failure::PartialBody => Some("Partial response"@),
            Failure::BadPage => Some("Could not deserialize sync page"@),
            Failure::Unexpected => Some("Unexpected response"@),
            Failure::RetryAfter => None,
        }
    }

    /// The words of the failure, where it has any.
    pub fn message(&self) -> (r: Option<String>)
        ensures
            crate::item::text_of(r) == self.words(),
    {
        match self {
            Failure::Transport => Some(String::from_str("Error fetching items")),
            Failure::PartialBody => Some(String::from_str("Partial response")),
            Failure::BadPage => Some(String::from_str("Could not deserialize sync page")),
            Failure::Unexpected => Some(String::from_str("Unexpected response")),
            Failure::RetryAfter => None,
        }
    }
}

/// What the fetcher asks of its driver after an event. Unless it is done
/// or gives up, the driver then requests the fetcher's `link`.
#[derive(Debug)]
pub enum Outcome {
    /// Hand the batch to the applier.
    Page(Vec<Item>),
    /// Hand the batch to the applier and end: the listing is complete, and
    /// the next synchronisation resumes from this address.
    Complete(Vec<Item>, String),
    /// Tell the applier to forget what it has: the listing starts afresh.
    Restart,
    /// Sleep for so many seconds.
    Wait(u64),
    /// Give up.
    Abort(Failure),
}

/// An `Outcome` as the contracts see it.
pub enum OutcomeView {
    Page(Seq<ItemView>),
    Complete(Seq<ItemView>, Seq<char>),
    Restart,
    Wait(u64),
    Abort(Failure),
}

impl View for Outcome {
    type V = OutcomeView;

    open spec fn view(&self) -> OutcomeView {
        match *self {
            Outcome::Page(batch) => OutcomeView::Page(views(batch@)),
            Outcome::Complete(batch, link) => OutcomeView::Complete(views(batch@), link@),
            Outcome::Restart => OutcomeView::Restart,
            Outcome::Wait(seconds) => OutcomeView::Wait(seconds),
            Outcome::Abort(failure) => OutcomeView::Abort(failure),
        }
    }
}

/// How often a request that says nothing is repeated before the fetcher
/// gives up, and how often one that failed on the way.
pub const MAX_RETRIES: u32 = 3;

/// The seconds to sleep before a request that says nothing is repeated.
pub const RETRY_DELAY: u64 = 30;

/// The seconds to sleep before the request is repeated that has failed on
/// the way `retries` times: 1, then 16 times as long each time.
pub open spec fn backoff(retries: u32) -> u64 {
    if retries == 0 {
        1
    } else if retries == 1 {
        16
    } else {
        256
    }
}

/// The state of the fetcher between two requests.
#[derive(Debug)]
pub struct Fetcher {
    /// The address from which a listing starts afresh.
    pub reset_link: String,
    /// The address to request next.
    pub link: String,
    /// How often a request that said nothing was repeated.
    pub fail_count: u32,
    /// How often the current request failed on the way.
    pub transport_retries: u32,
}

/// A `Fetcher` as the contracts see it.
pub struct FetcherView {
    pub reset_link: Seq<char>,
    pub link: Seq<char>,
    pub fail_count: u32,
    pub transport_retries: u32,
}

impl View for Fetcher {
    type V = FetcherView;

    open spec fn view(&self) -> FetcherView {
        FetcherView {
            reset_link: self.reset_link@,
            link: self.link@,
            fail_count: self.fail_count,
            transport_retries: self.transport_retries,
        }
    }
}

impl FetcherView {
    /// Repeats the request after a pause, unless that was done three times:
    /// then gives up with `failure`.
    pub open spec fn retry(self, failure: Failure) -> (FetcherView, OutcomeView) {
        if self.fail_count < MAX_RETRIES {
            (
                FetcherView { fail_count: (self.fail_count + 1) as u32, ..self },
                OutcomeView::Wait(RETRY_DELAY),
            )
        } else {
            (self, OutcomeView::Abort(failure))
        }
    }

    /// The state after an event that came with an answer: the next request
    /// has not failed on the way yet.
    pub open spec fn answered(self) -> FetcherView {
        FetcherView { transport_retries: 0, ..self }
    }

    /// The state after `event`, and what the fetcher asks for.
    pub open spec fn step(self, event: EventView) -> (FetcherView, OutcomeView) {
        match event {
            EventView::NoAnswer => if self.transport_retries < MAX_RETRIES {
                (
                    FetcherView {
                        transport_retries: (self.transport_retries + 1) as u32,
                        ..self
                    },
                    OutcomeView::Wait(backoff(self.transport_retries)),
                )
            } else {
                (self, OutcomeView::Abort(Failure::Transport))
            },
            EventView::Page(page) => match page.link {
                SyncLinkView::More(next) => (
                    FetcherView { link: next, fail_count: 0, ..self.answered() },
                    OutcomeView::Page(page.value),
                ),
                SyncLinkView::Done(delta) => (
                    FetcherView { fail_count: 0, ..self.answered() },
                    OutcomeView::Complete(page.value, delta),
                ),
            },
            EventView::PartialBody => self.answered().retry(Failure::PartialBody),
            EventView::BadPage => self.answered().retry(Failure::BadPage),
            EventView::Expired(location) => (
                FetcherView {
                    link: match location {
                        Some(fresh) => fresh,
                        None => self.reset_link,
                    },
                    ..self.answered()
                },
                OutcomeView::Restart,
            ),
            EventView::SlowDown(Some(seconds)) => (self.answered(), OutcomeView::Wait(seconds)),
            EventView::SlowDown(None) => (self.answered(), OutcomeView::Abort(Failure::RetryAfter)),
            EventView::Unexpected => self.answered().retry(Failure::Unexpected),
        }
    }
}

impl Fetcher {
    /// A fetcher that starts at `link` and starts afresh at `reset_link`.
    pub fn new(reset_link: String, link: String) -> (r: Fetcher)
        ensures
            r@ == (FetcherView {
                reset_link: reset_link@,
                link: link@,
                fail_count: 0,
                transport_retries: 0,
            }),
    {
        Fetcher { reset_link, link, fail_count: 0, transport_retries: 0 }
    }

    fn retry(&mut self, failure: Failure) -> (r: Outcome)
        ensures
            (final(self)@, r@) == old(self)@.retry(failure),
    {
        if self.fail_count < MAX_RETRIES {
            self.fail_count += 1;
            Outcome::Wait(RETRY_DELAY)
        } else {
            Outcome::Abort(failure)
        }
    }

    /// Takes an event in: moves to the next state and says what to do.
    pub fn advance(&mut self, event: Event) -> (r: Outcome)
        ensures
            (final(self)@, r@) == old(self)@.step(event@),
    {
        match event {
            Event::NoAnswer => {
                if self.transport_retries < MAX_RETRIES {
                    let seconds: u64 = if self.transport_retries == 0 {
                        1
                    } else if self.transport_retries == 1 {
                        16
                    } else {
                        256
                    };
                    self.transport_retries += 1;
                    Outcome::Wait(seconds)
                } else {
                    Outcome::Abort(Failure::Transport)
                }
            },
            Event::Page(page) => {
                self.transport_retries = 0;
                self.fail_count = 0;
                match page.link {
                    SyncLink::More(next) => {
                        self.link = next;
                        Outcome::Page(page.value)
                    },
                    SyncLink::Done(delta) => Outcome::Complete(page.value, delta),
                }
            },
            Event::PartialBody => {
                self.transport_retries = 0;
                self.retry(Failure::PartialBody)
            },
            Event::BadPage => {
                self.transport_retries = 0;
                self.retry(Failure::BadPage)
            },
            Event::Expired(location) => {
                self.transport_retries = 0;
                match location {
                    Some(fresh) => {
                        self.link = fresh;
                    },
                    None => {
                        self.link = self.reset_link.clone();
                    },
                }
                Outcome::Restart
            },
            Event::SlowDown(Some(seconds)) => {
                self.transport_retries = 0;
                Outcome::Wait(seconds)
            },
            Event::SlowDown(None) => {
                self.transport_retries = 0;
                Outcome::Abort(Failure::RetryAfter)
            },
            Event::Unexpected => {
                self.transport_retries = 0;
                self.retry(Failure::Unexpected)
            },
        }
    }

    /// Takes a reply in: says what it means, moves to the next state and
    /// says what to do.
    pub fn on_reply(&mut self, reply: Reply) -> (r: Outcome)
        ensures
            (final(self)@, r@) == old(self)@.step(event_of(reply, page_of_reply(reply))),
    {
        let event = classify(reply);
        self.advance(event)
    }
}

/// The fetcher ends a listing on a page that carries the address for the
/// next synchronisation, and on nothing else; it then hands out that very
/// address, which is not empty where the page's is not.
pub proof fn law_completes_with_delta_link(state: FetcherView, event: EventView)
    ensures
        state.step(event).1 is Complete <==> (event is Page && event->Page_0.link is Done),
        state.step(event).1 is Complete ==> {
            &&& state.step(event).1->Complete_1 == event->Page_0.link->Done_0
            &&& state.step(event).1->Complete_0 == event->Page_0.value
            &&& (event->Page_0.link->Done_0.len() > 0 ==> state.step(event).1->Complete_1.len()
                > 0)
        },
{
}

} // verus!
