//! Waiting for clangd's answer to a request.
use vstd::prelude::*;

use crate::json::{self, Json, JsonView};
use crate::lsp_cpp::error::{ShimError, ShimErrorView};
use crate::rpc;
use crate::text;

verus! {

/// The outcome of a request in views.
pub open spec fn json_outcome(r: Result<Json, ShimError>) -> Result<JsonView, ShimErrorView> {
    match r {
        Ok(j) => Ok(j@),
        Err(e) => Err(e@),
    }
}

/// Waiting for the answer to one request.
#[derive(Debug)]
pub struct Exchange {
    /// Number of the request.
    pub id: i64,
    /// What is said before the words of an error that is answered.
    pub refusal: String,
    /// When waiting ends.
    pub deadline_ns: u128,
}

/// What an [`Exchange`] stands for.
pub struct ExchangeView {
    pub id: i64,
    pub refusal: Seq<char>,
    pub deadline_ns: u128,
}

impl View for Exchange {
    type V = ExchangeView;

    open spec fn view(&self) -> ExchangeView {
        ExchangeView { id: self.id, refusal: self.refusal@, deadline_ns: self.deadline_ns }
    }
}

/// What happens while an answer is awaited.
#[derive(Debug)]
pub enum Heard {
    /// The clock was read.
    Clock {
        now_ns: u128,
    },
    /// A message came, or reading one failed.
    Message(Result<Json, ShimError>),
}

/// What a [`Heard`] stands for.
pub enum HeardView {
    Clock { now_ns: u128 },
    Message(Result<JsonView, ShimErrorView>),
}

impl View for Heard {
    type V = HeardView;

    open spec fn view(&self) -> HeardView {
        match self {
            Heard::Clock { now_ns } => HeardView::Clock { now_ns: *now_ns },
            Heard::Message(m) => HeardView::Message(json_outcome(*m)),
        }
    }
}

/// What is done next.
#[derive(Debug)]
pub enum Listening {
    /// The clock is read.
    CheckClock,
    /// A message is read.
    Read,
    /// Waiting took too long.
    Expired,
    /// The answer is here.
    Done(Result<Json, ShimError>),
}

/// What a [`Listening`] stands for.
pub enum ListeningView {
    CheckClock,
    Read,
    Expired,
    Done(Result<JsonView, ShimErrorView>),
}

impl View for Listening {
    type V = ListeningView;

    open spec fn view(&self) -> ListeningView {
        match self {
            Listening::CheckClock => ListeningView::CheckClock,
            Listening::Read => ListeningView::Read,
            Listening::Expired => ListeningView::Expired,
            Listening::Done(r) => ListeningView::Done(json_outcome(*r)),
        }
    }
}

/// The number of a message.
pub open spec fn message_id(message: JsonView) -> Option<i64> {
    match json::json_get(message, "id"@) {
        Some(id) => json::json_i64(id),
        None => None,
    }
}

/// What the answer to a request says: its error, else its result, which is
/// `null` where there is none.
pub open spec fn answer(refusal: Seq<char>, message: JsonView) -> Result<JsonView, ShimErrorView> {
    match json::json_get(message, "error"@) {
        Some(err) => Err(ShimErrorView::Protocol(refusal + json::json_text(err))),
        None => Ok(rpc::member_or_null(message, "result"@)),
    }
}

/// What is done next while an answer is awaited. Messages under another number,
/// or under none, are passed over.
pub open spec fn listen(exchange: ExchangeView, heard: HeardView) -> ListeningView {
    match heard {
        HeardView::Clock { now_ns } => if now_ns > exchange.deadline_ns {
            ListeningView::Expired
        } else {
            ListeningView::Read
        },
        HeardView::Message(Err(e)) => ListeningView::Done(Err(e)),
        HeardView::Message(Ok(message)) => if message_id(message) == Some(exchange.id) {
            ListeningView::Done(answer(exchange.refusal, message))
        } else {
            ListeningView::CheckClock
        },
    }
}

impl Exchange {
    /// Decides what is done next.
    pub fn step(&self, heard: Heard) -> (next: Listening)
        ensures
            next@ == listen(self@, heard@),
    {
        match heard {
            Heard::Clock { now_ns } => {
                if now_ns > self.deadline_ns {
                    Listening::Expired
                } else {
                    Listening::Read
                }
            },
            Heard::Message(Err(e)) => Listening::Done(Err(e)),
            Heard::Message(Ok(message)) => {
                let ours = match message.get("id") {
                    Some(id) => match id.as_i64() {
                        Some(n) => n == self.id,
                        None => false,
                    },
                    None => false,
                };
                if !ours {
                    return Listening::CheckClock;
                }
                match message.get("error") {
                    Some(err) => {
                        let words = text::concat(self.refusal.as_str(), err.to_text().as_str());
                        Listening::Done(Err(ShimError::Protocol(words)))
                    },
                    None => match message.get("result") {
                        Some(result) => Listening::Done(Ok(result.clone())),
                        None => Listening::Done(Ok(Json::Null)),
                    },
                }
            },
        }
    }
}

/// What waiting has come to after some messages, where the clock never ran out.
pub open spec fn settled(
    exchange: ExchangeView,
    messages: Seq<Result<JsonView, ShimErrorView>>,
) -> Option<Result<JsonView, ShimErrorView>>
    decreases messages.len(),
{
    if messages.len() == 0 {
        None
    } else {
        match listen(exchange, HeardView::Message(messages[0])) {
            ListeningView::Done(r) => Some(r),
            _ => settled(exchange, messages.drop_first()),
        }
    }
}

/// Whether a message is no answer to a request.
pub open spec fn foreign(exchange: ExchangeView, m: Result<JsonView, ShimErrorView>) -> bool {
    m is Ok && message_id(m->Ok_0) != Some(exchange.id)
}

/// However many notifications and answers to other requests come first, the
/// request is settled by its own answer and by nothing before it.
pub proof fn law_own_answer_settles(
    exchange: ExchangeView,
    before: Seq<Result<JsonView, ShimErrorView>>,
    message: JsonView,
    after: Seq<Result<JsonView, ShimErrorView>>,
)
    requires
        forall|i: int| 0 <= i < before.len() ==> foreign(exchange, #[trigger] before[i]),
        message_id(message) == Some(exchange.id),
    ensures
        settled(exchange, before) is None,
        settled(exchange, before + seq![Ok::<JsonView, ShimErrorView>(message)] + after) == Some(
            answer(exchange.refusal, message),
        ),
    decreases before.len(),
{
    let own = seq![Ok::<JsonView, ShimErrorView>(message)];
    let all = before + own + after;
    if before.len() == 0 {
        assert(all[0] == own[0]);
    } else {
        let rest = before.drop_first();
        assert(foreign(exchange, before[0]));
        assert forall|i: int| 0 <= i < rest.len() implies foreign(exchange, #[trigger] rest[i]) by {
            assert(rest[i] == before[i + 1]);
        }
        law_own_answer_settles(exchange, rest, message, after);
        assert(all[0] == before[0]);
        assert(all.drop_first() =~= rest + own + after);
    }
}

/// What is heard under the awaited number ends the wait: the result as it was
/// answered, whatever it is, or the error in the words of the server. What is
/// heard under another number, or under none, does not.
pub proof fn law_answer_is_handed_back(exchange: ExchangeView, message: JsonView)
    ensures
        ({
            let next = listen(exchange, HeardView::Message(Ok(message)));
            let own = json::json_get(message, "id"@) == Some(json::json_int(exchange.id as int));
            &&& own && json::json_get(message, "error"@) is None && json::json_get(
                message,
                "result"@,
            ) is Some ==> next == ListeningView::Done(
                Ok(json::json_get(message, "result"@)->0),
            )
            &&& own && json::json_get(message, "error"@) is None && json::json_get(
                message,
                "result"@,
            ) is None ==> next == ListeningView::Done(Ok(JsonView::Null))
            &&& own && json::json_get(message, "error"@) is Some ==> next == ListeningView::Done(
                Err(
                    ShimErrorView::Protocol(
                        exchange.refusal + json::json_text(json::json_get(message, "error"@)->0),
                    ),
                ),
            )
            &&& !own ==> next == ListeningView::CheckClock
        }),
{
    let id = json::json_int(exchange.id as int);
    assert(id->Number_0->Int_0 == exchange.id);
    match json::json_get(message, "id"@) {
        Some(JsonView::Number(json::NumberView::Int(i))) => {
            assert(i64::MIN <= i <= i64::MAX ==> (i as i64) as int == i);
        },
        _ => {},
    }
}

/// The wait goes on up to its deadline and no longer, and a read that fails ends
/// it with that failure.
pub proof fn law_wait_ends_at_its_deadline(
    exchange: ExchangeView,
    now_ns: u128,
    failure: ShimErrorView,
)
    ensures
        now_ns <= exchange.deadline_ns ==> listen(exchange, HeardView::Clock { now_ns })
            == ListeningView::Read,
        now_ns > exchange.deadline_ns ==> listen(exchange, HeardView::Clock { now_ns })
            == ListeningView::Expired,
        listen(exchange, HeardView::Message(Err(failure))) == ListeningView::Done(Err(failure)),
{
}

} // verus!
