use llm::chat::{ChatMessage, MessageType};
use vstd::prelude::*;

use crate::chat::{Chat, ChatUpdate};
use crate::message::{role_of, Message};
use crate::node::Node;

verus! {

/// What the provider did, as reported by whoever talks to it.
#[derive(Debug)]
pub enum ProviderEvent {
    /// The request could not be made or was refused, with a description.
    Failed(String),
    /// The request was accepted and a stream of fragments is open.
    Accepted,
    /// One text fragment arrived.
    Fragment(String),
    /// The stream is exhausted, or broke off mid-way.
    Ended,
}

/// Where a generation run stands.
#[derive(Debug, Clone, Copy, PartialEq, Eq, Structural)]
pub enum RunState {
    /// The request is out; no answer yet.
    Requested,
    /// Fragments are being appended to the pending reply.
    Streaming,
    /// The run is over: it failed, or its stream ended.
    Done,
}

/// The decisions of one generation run: which update to publish for each
/// provider event, and when a fragment goes into the conversation.
///
/// Runs are not serialised against each other: two runs driven on the same
/// conversation both append to whichever message is shown last when their
/// fragments arrive. A caller that must avoid this starts a run only after
/// the previous one is `Done`.
#[derive(Debug)]
pub struct Generation {
    state: RunState,
}

impl Generation {
    pub closed spec fn spec_state(&self) -> RunState {
        self.state
    }

    /// Opens a run whose request has just been sent; the update to publish
    /// is `RequestSent`.
    pub fn start() -> (r: (Generation, ChatUpdate))
        ensures
            r.0.spec_state() == RunState::Requested,
            r.1 == ChatUpdate::RequestSent,
    {
        (Generation { state: RunState::Requested }, ChatUpdate::RequestSent)
    }

    pub fn state(&self) -> (r: RunState)
        ensures
            r == self.spec_state(),
    {
        self.state
    }

    /// Takes one provider event. A failed request ends the run with an
    /// `Error`; an accepted one opens the stream (`MessageCreated`); each
    /// fragment of the open stream is appended to the last shown message
    /// (`StreamUpdate`); the end of the stream closes the run
    /// (`StreamFinished`). An event that does not fit the run's state is
    /// ignored: nothing changes and nothing is published.
    pub fn on_event(&mut self, chat: &mut Chat, event: ProviderEvent) -> (r: Option<ChatUpdate>)
        requires
            old(chat).wf(),
        ensures
            final(chat).wf(),
            final(chat).next_id() == old(chat).next_id(),
            match (old(self).spec_state(), event) {
                (RunState::Requested, ProviderEvent::Failed(e)) => {
                    &&& final(self).spec_state() == RunState::Done
                    &&& r == Some(ChatUpdate::Error(e))
                    &&& final(chat).tree() == old(chat).tree()
                },
                (RunState::Requested, ProviderEvent::Accepted) => {
                    &&& final(self).spec_state() == RunState::Streaming
                    &&& r == Some(ChatUpdate::MessageCreated)
                    &&& final(chat).tree() == old(chat).tree()
                },
                (RunState::Streaming, ProviderEvent::Fragment(f)) => {
                    &&& final(self).spec_state() == RunState::Streaming
                    &&& r == Some(ChatUpdate::StreamUpdate)
                    &&& old(chat).history().len() == 0 ==> final(chat).tree() == old(chat).tree()
                    &&& old(chat).history().len() > 0 ==> old(chat).tree().changed_at(
                        final(chat).tree(),
                        (old(chat).history().len() - 1) as nat,
                        |o: Node, n: Node| Node::text_extended(o, n, f@),
                    )
                },
                (RunState::Streaming, ProviderEvent::Ended) => {
                    &&& final(self).spec_state() == RunState::Done
                    &&& r == Some(ChatUpdate::StreamFinished)
                    &&& final(chat).tree() == old(chat).tree()
                },
                _ => {
                    &&& final(self).spec_state() == old(self).spec_state()
                    &&& r == None::<ChatUpdate>
                    &&& final(chat).tree() == old(chat).tree()
                },
            },
    {
        match (self.state, event) {
            (RunState::Requested, ProviderEvent::Failed(e)) => {
                self.state = RunState::Done;
                Some(ChatUpdate::Error(e))
            },
            (RunState::Requested, ProviderEvent::Accepted) => {
                self.state = RunState::Streaming;
                Some(ChatUpdate::MessageCreated)
            },
            (RunState::Streaming, ProviderEvent::Fragment(f)) => {
                chat.append_to_last_message(f.as_str());
                Some(ChatUpdate::StreamUpdate)
            },
            (RunState::Streaming, ProviderEvent::Ended) => {
                self.state = RunState::Done;
                Some(ChatUpdate::StreamFinished)
            },
            _ => None,
        }
    }
}

impl Chat {
    /// The messages a generation request carries: the shown conversation
    /// without its last turn, the pending reply that the run is to fill.
    pub fn request_history(&self) -> (r: Vec<Message>)
        requires
            self.wf(),
        ensures
            self.history().len() == 0 ==> r@ == Seq::<Message>::empty(),
            self.history().len() > 0 ==> r@ == self.history().drop_last(),
    {
        let mut history = self.get_history();
        let _ = history.pop();
        history
    }

    /// The request of a generation run: each shown message but the last (the
    /// pending reply) as a provider message, the user's with the `User`
    /// role, the character's with the `Assistant` role, oldest first.
    pub fn request_messages(&self) -> (r: Vec<ChatMessage>)
        requires
            self.wf(),
        ensures
            r@.len() == if self.history().len() > 0 { self.history().len() - 1 } else { 0 },
            forall|i: int|
                0 <= i < r@.len() ==> {
                    &&& (#[trigger] r@[i]).role == role_of(self.history()[i].owner)
                    &&& r@[i].message_type == MessageType::Text
                    &&& r@[i].content@ == self.history()[i].text@
                },
    {
        let history = self.request_history();
        let mut messages: Vec<ChatMessage> = Vec::new();
        let mut i: usize = 0;
        while i < history.len()
            invariant
                i <= history@.len(),
                history@.len() == if self.history().len() > 0 { self.history().len() - 1 } else { 0 },
                forall|j: int| 0 <= j < history@.len() ==> history@[j] == #[trigger] self.history()[j],
                messages@.len() == i,
                forall|j: int|
                    0 <= j < i ==> {
                        &&& (#[trigger] messages@[j]).role == role_of(self.history()[j].owner)
                        &&& messages@[j].message_type == MessageType::Text
                        &&& messages@[j].content@ == self.history()[j].text@
                    },
            decreases history@.len() - i,
        {
            messages.push(history[i].to_chat_message());
            i += 1;
        }
        messages
    }
}

} // verus!
