use vstd::prelude::*;

use crate::message::{Message, OwnerType};
use crate::node::Node;
use crate::text::{trim, trimmed};

verus! {

/// Progress of a generation run, in the order an observer receives it.
#[derive(Debug)]
pub enum ChatUpdate {
    /// The request went out to the provider.
    RequestSent,
    /// The provider accepted the request; fragments follow.
    MessageCreated,
    /// A fragment was appended to the pending reply.
    StreamUpdate,
    /// The stream ended, cleanly or cut short.
    StreamFinished,
    /// The request failed; nothing was generated.
    Error(String),
}

/// An empty character turn with identity `id`: the slot a generation run fills.
pub open spec fn is_placeholder(m: Message, id: usize) -> bool {
    &&& m.owner == OwnerType::Char(0)
    &&& m.text@ == Seq::<char>::empty()
    &&& m.id == id
}

/// A user turn with these characters and identity `id`.
pub open spec fn is_user_turn(m: Message, text: Seq<char>, id: usize) -> bool {
    &&& m.owner == OwnerType::User
    &&& m.text@ == text
    &&& m.id == id
}

/// The conversation store: the tree of turns and the counter that gives each
/// new message its identity.
///
/// Depths count turns of the shown conversation from 0. An operation at a
/// depth where no turn is shown is a caller's error: the operations require
/// the depth to be in range rather than clamping it.
#[derive(Debug)]
pub struct Chat {
    root: Node,
    messages_ids: usize,
}

impl Chat {
    /// The tree of turns.
    pub closed spec fn tree(&self) -> Node {
        self.root
    }

    /// The identity the next new message receives.
    pub closed spec fn next_id(&self) -> usize {
        self.messages_ids
    }

    /// The tree is well formed (see `Node::wf`).
    pub open spec fn wf(&self) -> bool {
        self.tree().wf()
    }

    /// The conversation as currently shown, oldest first.
    pub open spec fn history(&self) -> Seq<Message> {
        self.tree().history()
    }

    /// The `(selected + 1, number of alternatives)` pair of each shown turn.
    pub open spec fn structure(&self) -> Seq<(usize, usize)> {
        self.tree().structure()
    }

    /// The identity the next new message receives.
    pub fn next_message_id(&self) -> (r: usize)
        ensures
            r == self.next_id(),
    {
        self.messages_ids
    }

    /// A conversation that opens with the character's greetings as the
    /// alternatives of its first turn, the first one shown.
    pub fn with_greetings(greetings: Vec<String>) -> (r: Chat)
        ensures
            r.wf(),
            r.next_id() == greetings@.len(),
            r.tree().selected == 0,
            r.tree().messages@.len() == greetings@.len(),
            forall|i: int|
                #![trigger r.tree().messages@[i]]
                #![trigger r.tree().childs@[i]]
                0 <= i < greetings@.len() ==> {
                    &&& r.tree().messages@[i].owner == OwnerType::Char(0)
                    &&& r.tree().messages@[i].text@ == greetings@[i]@
                    &&& r.tree().messages@[i].id == i
                    &&& r.tree().childs@[i].is_blank()
                },
    {
        let mut root = Node::new();
        let mut i: usize = 0;
        while i < greetings.len()
            invariant
                i <= greetings@.len(),
                root.messages@.len() == i,
                root.childs@.len() == i,
                root.selected == 0,
                forall|j: int|
                    #![trigger root.messages@[j]]
                    #![trigger root.childs@[j]]
                    0 <= j < i ==> {
                        &&& root.messages@[j].owner == OwnerType::Char(0)
                        &&& root.messages@[j].text@ == greetings@[j]@
                        &&& root.messages@[j].id == j
                        &&& root.childs@[j].is_blank()
                    },
            decreases greetings@.len() - i,
        {
            root.messages.push(Message::from_char(0, greetings[i].clone(), i));
            root.childs.push(Node::new());
            i += 1;
        }
        proof {
            assert forall|j: int| 0 <= j < root.childs@.len() implies (#[trigger] root.childs@[j]).wf() by {
                assert(root.childs@[j].is_blank());
            }
        }
        Chat { root, messages_ids: i }
    }

    /// Takes the user's turn, without its surrounding whitespace, when
    /// anything is left of it, then an empty character turn that a generation
    /// run is to fill: a reply is always owed, so a blank submission asks the
    /// character to go on.
    pub fn add_user_message(&mut self, text: String)
        requires
            old(self).wf(),
            old(self).next_id() < usize::MAX - 1,
        ensures
            final(self).wf(),
            ({
                let h = old(self).history();
                let s = old(self).structure();
                let t = trimmed(text@);
                let id = old(self).next_id();
                if t.len() > 0 {
                    &&& final(self).history().len() == h.len() + 2
                    &&& final(self).history().take(h.len() as int) == h
                    &&& is_user_turn(final(self).history()[h.len() as int], t, id)
                    &&& is_placeholder(final(self).history()[h.len() + 1int], (id + 1) as usize)
                    &&& final(self).structure() == s.push((1usize, 1usize)).push((1usize, 1usize))
                    &&& final(self).next_id() == id + 2
                } else {
                    &&& final(self).history().len() == h.len() + 1
                    &&& final(self).history().take(h.len() as int) == h
                    &&& is_placeholder(final(self).history()[h.len() as int], id)
                    &&& final(self).structure() == s.push((1usize, 1usize))
                    &&& final(self).next_id() == id + 1
                }
            }),
    {
        let text = trim(text.as_str());
        if !text.as_str().is_empty() {
            let m = Message::from_user(text, self.messages_ids);
            self.root.push(m);
            self.messages_ids += 1;
        }
        let reply = Message::empty_from_char(0, self.messages_ids);
        self.root.push(reply);
        self.messages_ids += 1;
        proof {
            let h = old(self).history();
            assert(self.root.history().take(h.len() as int) =~= h);
        }
    }

    /// Shows the next alternative at `depth`. Returns `true` when a new empty
    /// alternative was opened there and has to be generated.
    pub fn next(&mut self, depth: usize) -> (r: bool)
        requires
            old(self).wf(),
            depth < old(self).history().len(),
            old(self).next_id() < usize::MAX,
        ensures
            final(self).wf(),
            old(self).tree().changed_at(
                final(self).tree(),
                depth as nat,
                |o: Node, n: Node| Node::advanced(o, n, old(self).next_id()),
            ),
            r == old(self).tree().node_at(depth as nat).at_frontier(),
            final(self).next_id() == if r { old(self).next_id() + 1 } else { old(self).next_id() as int },
    {
        let r = self.root.next(depth, self.messages_ids);
        if r {
            self.messages_ids += 1;
        }
        r
    }

    /// Shows the previous alternative at `depth`, if there is one.
    pub fn previous(&mut self, depth: usize)
        requires
            old(self).wf(),
            depth < old(self).history().len(),
        ensures
            final(self).wf(),
            old(self).tree().changed_at(
                final(self).tree(),
                depth as nat,
                |o: Node, n: Node| Node::retreated(o, n),
            ),
            final(self).next_id() == old(self).next_id(),
    {
        self.root.previous(depth);
    }

    /// Records `text`, without its surrounding whitespace, as a new
    /// alternative of the turn at `depth`. Returns `true` when the edited turn
    /// was the user's: a new reply then waits to be generated.
    pub fn add_edit(&mut self, depth: usize, text: String) -> (r: bool)
        requires
            old(self).wf(),
            depth < old(self).history().len(),
            old(self).next_id() < usize::MAX - 1,
        ensures
            final(self).wf(),
            old(self).tree().changed_at(
                final(self).tree(),
                depth as nat,
                |o: Node, n: Node| Node::edited(o, n, old(self).next_id(), trimmed(text@)),
            ),
            r == (old(self).history()[depth as int].owner == OwnerType::User),
            final(self).next_id() == if r { old(self).next_id() + 2 } else { old(self).next_id() + 1 },
    {
        let text = trim(text.as_str());
        let r = self.root.add_edit(depth, self.messages_ids, text);
        self.messages_ids += 1;
        if r {
            self.messages_ids += 1;
        }
        r
    }

    /// Removes the turn shown at `depth` and everything after it.
    pub fn delete(&mut self, depth: usize)
        requires
            old(self).wf(),
            depth < old(self).history().len(),
        ensures
            final(self).wf(),
            old(self).tree().changed_at(
                final(self).tree(),
                depth as nat,
                |o: Node, n: Node| Node::removed(o, n),
            ),
            final(self).next_id() == old(self).next_id(),
    {
        self.root.delete(depth);
    }

    /// Appends a streamed fragment to the last shown message.
    pub fn append_to_last_message(&mut self, fragment: &str)
        requires
            old(self).wf(),
        ensures
            final(self).wf(),
            final(self).next_id() == old(self).next_id(),
            old(self).history().len() == 0 ==> final(self).tree() == old(self).tree(),
            old(self).history().len() > 0 ==> old(self).tree().changed_at(
                final(self).tree(),
                (old(self).history().len() - 1) as nat,
                |o: Node, n: Node| Node::text_extended(o, n, fragment@),
            ),
    {
        self.root.append_to_last_message(fragment);
    }

    /// A copy of the conversation as currently shown, oldest first.
    pub fn get_history(&self) -> (r: Vec<Message>)
        requires
            self.wf(),
        ensures
            r@ == self.history(),
    {
        let mut history = Vec::new();
        self.root.get_history(&mut history);
        proof {
            assert(history@ =~= self.history());
        }
        history
    }

    /// For each shown turn, `(selected + 1, number of alternatives)`.
    pub fn get_history_structure(&self) -> (r: Vec<(usize, usize)>)
        requires
            self.wf(),
        ensures
            r@ == self.structure(),
    {
        let mut structure = Vec::new();
        self.root.get_history_structure(&mut structure);
        proof {
            assert(structure@ =~= self.structure());
        }
        structure
    }
}

/// The title of a conversation between the user and the character.
pub fn chat_title(user_name: &str, char_name: &str) -> (r: String)
    ensures
        r@ == user_name@ + "'s chat with "@ + char_name@,
{
    let mut title = user_name.to_owned();
    title.append("'s chat with ");
    title.append(char_name);
    title
}

} // verus!
