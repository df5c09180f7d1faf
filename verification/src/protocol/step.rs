//! What an endpoint does in answer to an event of its session.
use vstd::prelude::*;

use crate::error::SyncError;
use crate::protocol::messages;
use crate::protocol::messages::{Message, MessageView, PageData};

verus! {

/// What an endpoint does in answer to an event of its session.
#[derive(Debug)]
pub enum Step {
    /// Send these messages in order, then wait for the next message.
    Reply(Vec<Message>),
    /// Send these messages in order; the session is complete.
    Finish(Vec<Message>),
    /// Read the whole database and report its bytes.
    ReadContent,
    /// Cut the database behind its first `page_count` pages; the session is then
    /// complete.
    Cut { page_count: u32 },
    /// Write these pages in order, send these messages in order, then wait for
    /// the next message.
    Write { pages: Vec<PageData>, reply: Vec<Message> },
    /// Try to send the text as an error message, then fail with a protocol
    /// error of that text.
    Violation(String),
    /// Send an error message with this text, then fail with a page-size
    /// mismatch.
    PageSizeMismatch { message: String, origin: u32, replica: u32 },
    /// Fail with a protocol error of this text.
    Fail(String),
}

/// The content of a [`Step`].
#[verifier::ext_equal]
pub enum StepView {
    Reply(Seq<MessageView>),
    Finish(Seq<MessageView>),
    ReadContent,
    Cut { page_count: u32 },
    Write { pages: Seq<(u32, Seq<u8>)>, reply: Seq<MessageView> },
    Violation(Seq<char>),
    PageSizeMismatch { message: Seq<char>, origin: u32, replica: u32 },
    Fail(Seq<char>),
}

impl View for Step {
    type V = StepView;

    open spec fn view(&self) -> StepView {
        match *self {
            Step::Reply(m) => StepView::Reply(messages::message_views(m@)),
            Step::Finish(m) => StepView::Finish(messages::message_views(m@)),
            Step::ReadContent => StepView::ReadContent,
            Step::Cut { page_count } => StepView::Cut { page_count },
            Step::Write { pages, reply } => StepView::Write {
                pages: messages::page_views(pages@),
                reply: messages::message_views(reply@),
            },
            Step::Violation(m) => StepView::Violation(m@),
            Step::PageSizeMismatch { message, origin, replica } => StepView::PageSizeMismatch {
                message: message@,
                origin,
                replica,
            },
            Step::Fail(m) => StepView::Fail(m@),
        }
    }
}

impl Step {
    /// The error that a failing step ends the session with.
    pub fn error(&self) -> (r: Option<SyncError>)
        ensures
            match self@ {
                StepView::Violation(m) => r is Some && r->0.is_protocol(m),
                StepView::Fail(m) => r is Some && r->0.is_protocol(m),
                StepView::PageSizeMismatch { origin, replica, .. } => r == Some(
                    SyncError::PageSizeMismatch { origin, replica },
                ),
                _ => r is None,
            },
    {
        match self {
            Step::Violation(m) => Some(SyncError::Protocol(m.clone())),
            Step::Fail(m) => Some(SyncError::Protocol(m.clone())),
            Step::PageSizeMismatch { origin, replica, .. } => Some(
                SyncError::PageSizeMismatch { origin: *origin, replica: *replica },
            ),
            _ => None,
        }
    }
}

/// What a step does is what it says.
pub proof fn law_steps_say_what_they_do(
    messages: Vec<Message>,
    pages: Vec<PageData>,
    page_count: u32,
    text: String,
    origin: u32,
    replica: u32,
)
    ensures
        Step::Reply(messages)@ == StepView::Reply(messages::message_views(messages@)),
        Step::Finish(messages)@ == StepView::Finish(messages::message_views(messages@)),
        Step::ReadContent@ == StepView::ReadContent,
        (Step::Cut { page_count })@ == (StepView::Cut { page_count }),
        (Step::Write { pages, reply: messages })@ == (StepView::Write {
            pages: messages::page_views(pages@),
            reply: messages::message_views(messages@),
        }),
        Step::Violation(text)@ == StepView::Violation(text@),
        Step::Fail(text)@ == StepView::Fail(text@),
        (Step::PageSizeMismatch { message: text, origin, replica })@ == (
        StepView::PageSizeMismatch { message: text@, origin, replica }),
        messages::message_views(messages@).len() == messages@.len(),
        forall|i: int|
            0 <= i < messages@.len() ==> #[trigger] messages::message_views(messages@)[i]
                == messages@[i]@,
{
}

} // verus!
