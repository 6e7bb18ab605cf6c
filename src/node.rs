use vstd::prelude::*;

use crate::message::{Message, OwnerType};

verus! {

/// One turn slot of the conversation: the alternatives said at this point,
/// one subtree per alternative (the turns that follow it), and which
/// alternative is currently shown.
#[derive(Debug)]
pub struct Node {
    pub messages: Vec<Message>,
    pub childs: Vec<Node>,
    pub selected: usize,
}

impl Node {
    /// Every node of the tree has one subtree per alternative and selects one
    /// of its alternatives; a node without alternatives selects 0.
    pub open spec fn wf(self) -> bool
        decreases self,
    {
        &&& self.childs@.len() == self.messages@.len()
        &&& (self.messages@.len() > 0 ==> self.selected < self.messages@.len())
        &&& (self.messages@.len() == 0 ==> self.selected == 0)
        &&& forall|i: int| 0 <= i < self.childs@.len() ==> (#[trigger] self.childs@[i]).wf()
    }

    /// A node with nothing said at it yet.
    pub open spec fn is_blank(self) -> bool {
        &&& self.messages@.len() == 0
        &&& self.childs@.len() == 0
        &&& self.selected == 0
    }

    /// Whether this node shows a message (its selected alternative exists).
    pub open spec fn shows(self) -> bool {
        self.selected < self.messages@.len() && self.selected < self.childs@.len()
    }

    /// The selected path read from this node down: one message per depth,
    /// ending at the first node with no alternatives.
    pub open spec fn history(self) -> Seq<Message>
        decreases self,
    {
        if self.shows() {
            seq![self.messages@[self.selected as int]] + self.childs@[self.selected as int].history()
        } else {
            Seq::empty()
        }
    }

    /// Along the selected path, one `(selected + 1, number of alternatives)`
    /// pair per depth.
    pub open spec fn structure(self) -> Seq<(usize, usize)>
        decreases self,
    {
        if self.shows() {
            seq![((self.selected + 1) as usize, self.messages@.len() as usize)]
                + self.childs@[self.selected as int].structure()
        } else {
            Seq::empty()
        }
    }

    /// The node reached by following the selected alternative `depth` times.
    pub open spec fn node_at(self, depth: nat) -> Node
        decreases depth,
    {
        if depth == 0 {
            self
        } else {
            self.childs@[self.selected as int].node_at((depth - 1) as nat)
        }
    }

    /// `new` equals `self` but at the node `depth` steps down the selected
    /// path, where the two are related by `step`.
    pub open spec fn changed_at(self, new: Node, depth: nat, step: spec_fn(Node, Node) -> bool) -> bool
        decreases depth,
    {
        if depth == 0 {
            step(self, new)
        } else {
            &&& new.messages@ == self.messages@
            &&& new.selected == self.selected
            &&& new.childs@.len() == self.childs@.len()
            &&& forall|i: int|
                0 <= i < self.childs@.len() && i != self.selected ==> new.childs@[i] == self.childs@[i]
            &&& self.childs@[self.selected as int].changed_at(
                new.childs@[self.selected as int],
                (depth - 1) as nat,
                step,
            )
        }
    }

    /// `new.childs` is `old.childs` with `c` added at the end.
    pub open spec fn child_added(old: Node, new: Node, c: spec_fn(Node) -> bool) -> bool {
        &&& new.childs@.len() == old.childs@.len() + 1
        &&& new.childs@.drop_last() == old.childs@
        &&& c(new.childs@.last())
    }

    /// `m` is appended as the last alternative, with a blank subtree; the
    /// selection stays.
    pub open spec fn appended(old: Node, new: Node, m: Message) -> bool {
        &&& new.messages@ == old.messages@.push(m)
        &&& Node::child_added(old, new, |c: Node| c.is_blank())
        &&& new.selected == old.selected
    }

    /// The selected alternative's text grows by `fragment`; nothing else changes.
    pub open spec fn text_extended(old: Node, new: Node, fragment: Seq<char>) -> bool {
        let s = old.selected as int;
        &&& new.messages@.len() == old.messages@.len()
        &&& forall|i: int| 0 <= i < old.messages@.len() && i != s ==> new.messages@[i] == old.messages@[i]
        &&& new.messages@[s].owner == old.messages@[s].owner
        &&& new.messages@[s].id == old.messages@[s].id
        &&& new.messages@[s].text@ == old.messages@[s].text@ + fragment
        &&& new.childs@ == old.childs@
        &&& new.selected == old.selected
    }

    /// The selection moves back by one, staying at the first alternative.
    pub open spec fn retreated(old: Node, new: Node) -> bool {
        &&& new.messages@ == old.messages@
        &&& new.childs@ == old.childs@
        &&& new.selected == (if old.selected > 0 { old.selected - 1 } else { 0 })
    }

    /// Whether the selected alternative is the last one, so that moving
    /// forward has to open a new alternative.
    pub open spec fn at_frontier(self) -> bool {
        self.selected + 1 >= self.messages@.len()
    }

    /// The selection moves forward by one. At the frontier a new alternative
    /// is opened first: same owner as the selected one, no text, identity
    /// `id`, and a blank subtree.
    pub open spec fn advanced(old: Node, new: Node, id: usize) -> bool {
        let s = old.selected as int;
        &&& new.selected == old.selected + 1
        &&& if old.at_frontier() {
            &&& new.messages@.len() == old.messages@.len() + 1
            &&& new.messages@.drop_last() == old.messages@
            &&& new.messages@.last().owner == old.messages@[s].owner
            &&& new.messages@.last().text@ == Seq::<char>::empty()
            &&& new.messages@.last().id == id
            &&& Node::child_added(old, new, |c: Node| c.is_blank())
        } else {
            &&& new.messages@ == old.messages@
            &&& new.childs@ == old.childs@
        }
    }

    /// A subtree that holds one empty character turn with identity `id`,
    /// itself followed by a blank node: a reply waiting to be generated.
    pub open spec fn is_pending_reply(self, id: usize) -> bool {
        &&& self.messages@.len() == 1
        &&& self.messages@[0].owner == OwnerType::Char(0)
        &&& self.messages@[0].text@ == Seq::<char>::empty()
        &&& self.messages@[0].id == id
        &&& self.childs@.len() == 1
        &&& self.childs@[0].is_blank()
        &&& self.selected == 0
    }

    /// A new alternative with the selected one's owner, `text` and identity
    /// `id` is appended and selected. Its subtree holds a pending reply with
    /// identity `id + 1` when the replaced turn was the user's, and is blank
    /// otherwise.
    pub open spec fn edited(old: Node, new: Node, id: usize, text: Seq<char>) -> bool {
        let owner = old.messages@[old.selected as int].owner;
        &&& new.messages@.len() == old.messages@.len() + 1
        &&& new.messages@.drop_last() == old.messages@
        &&& new.messages@.last().owner == owner
        &&& new.messages@.last().text@ == text
        &&& new.messages@.last().id == id
        &&& new.selected == old.messages@.len()
        &&& if owner == OwnerType::User {
            Node::child_added(old, new, |c: Node| c.is_pending_reply((id + 1) as usize))
        } else {
            Node::child_added(old, new, |c: Node| c.is_blank())
        }
    }

    /// The selected alternative and its subtree are removed; the selection
    /// moves back by one, staying at the first alternative.
    pub open spec fn removed(old: Node, new: Node) -> bool {
        &&& new.messages@ == old.messages@.remove(old.selected as int)
        &&& new.childs@ == old.childs@.remove(old.selected as int)
        &&& new.selected == (if old.selected > 0 { old.selected - 1 } else { 0 })
    }

    pub fn new() -> (r: Node)
        ensures
            r.is_blank(),
            r.wf(),
    {
        Node { messages: Vec::new(), childs: Vec::new(), selected: 0 }
    }

    /// Moves the selection at `depth` back by one; at the first alternative
    /// nothing changes.
    pub fn previous(&mut self, depth: usize)
        requires
            old(self).wf(),
            depth < old(self).history().len(),
        ensures
            final(self).wf(),
            old(self).changed_at(*final(self), depth as nat, |o: Node, n: Node| Node::retreated(o, n)),
        decreases depth,
    {
        if depth == 0 {
            if self.selected > 0 {
                self.selected -= 1;
            }
        } else {
            let s = self.selected;
            self.childs[s].previous(depth - 1);
            proof {
                assert forall|i: int| 0 <= i < self.childs@.len() implies (#[trigger] self.childs@[i]).wf() by {
                    if i != s {
                        assert(self.childs@[i] == old(self).childs@[i]);
                    }
                }
            }
        }
    }

    /// Adds `message` at the end of the selected path: as an alternative of
    /// the first node that has none, with a blank subtree after it.
    pub fn push(&mut self, message: Message)
        requires
            old(self).wf(),
        ensures
            final(self).wf(),
            old(self).changed_at(
                *final(self),
                old(self).history().len(),
                |o: Node, n: Node| Node::appended(o, n, message),
            ),
            final(self).history() == old(self).history().push(message),
            final(self).structure() == old(self).structure().push((1usize, 1usize)),
        decreases old(self).history().len(),
    {
        if self.childs.len() == 0 {
            self.messages.push(message);
            self.childs.push(Node::new());
            proof {
                assert(self.childs@.drop_last() =~= old(self).childs@);
                assert(self.childs@[0].history() =~= Seq::<Message>::empty());
                assert(self.childs@[0].structure() =~= Seq::<(usize, usize)>::empty());
                assert(self.history() =~= seq![message]);
                assert(self.structure() =~= seq![(1usize, 1usize)]);
            }
        } else {
            let s = self.selected;
            self.childs[s].push(message);
            proof {
                assert forall|i: int| 0 <= i < self.childs@.len() implies (#[trigger] self.childs@[i]).wf() by {
                    if i != s {
                        assert(self.childs@[i] == old(self).childs@[i]);
                    }
                }
                assert(self.history() =~= old(self).history().push(message));
                assert(self.structure() =~= old(self).structure().push((1usize, 1usize)));
            }
        }
    }

    /// Moves the selection at `depth` forward by one. At the last alternative
    /// a new empty one with identity `ids` is opened and selected, and `true`
    /// says that it waits to be generated; otherwise an alternative generated
    /// before is shown again and the result is `false`.
    pub fn next(&mut self, depth: usize, ids: usize) -> (r: bool)
        requires
            old(self).wf(),
            depth < old(self).history().len(),
        ensures
            final(self).wf(),
            old(self).changed_at(*final(self), depth as nat, |o: Node, n: Node| Node::advanced(o, n, ids)),
            r == old(self).node_at(depth as nat).at_frontier(),
        decreases depth,
    {
        proof {
            self.lemma_history_at(depth as nat);
        }
        if depth == 0 {
            let n = self.messages.len();
            if self.selected + 1 >= n {
                let brother = self.messages[self.selected].create_brother(ids);
                self.messages.push(brother);
                self.childs.push(Node::new());
                self.selected = self.selected + 1;
                proof {
                    assert(self.messages@.drop_last() =~= old(self).messages@);
                    assert(self.childs@.drop_last() =~= old(self).childs@);
                    assert forall|i: int| 0 <= i < self.childs@.len() implies (#[trigger] self.childs@[i]).wf() by {
                        if i < old(self).childs@.len() {
                            assert(self.childs@[i] == old(self).childs@[i]);
                        }
                    }
                }
                true
            } else {
                self.selected = self.selected + 1;
                false
            }
        } else {
            let s = self.selected;
            let r = self.childs[s].next(depth - 1, ids);
            proof {
                assert forall|i: int| 0 <= i < self.childs@.len() implies (#[trigger] self.childs@[i]).wf() by {
                    if i != s {
                        assert(self.childs@[i] == old(self).childs@[i]);
                    }
                }
            }
            r
        }
    }

    /// Records `text` as a new alternative of the message at `depth`, with
    /// the same owner and identity `ids`, and selects it. When the replaced
    /// message was the user's, a pending character reply with identity
    /// `ids + 1` follows it and the result is `true`; a replaced character
    /// turn owes no reply and the result is `false`.
    pub fn add_edit(&mut self, depth: usize, ids: usize, text: String) -> (r: bool)
        requires
            old(self).wf(),
            depth < old(self).history().len(),
            ids < usize::MAX,
        ensures
            final(self).wf(),
            old(self).changed_at(
                *final(self),
                depth as nat,
                |o: Node, n: Node| Node::edited(o, n, ids, text@),
            ),
            r == (old(self).history()[depth as int].owner == OwnerType::User),
        decreases depth,
    {
        proof {
            self.lemma_history_at(depth as nat);
        }
        if depth == 0 {
            let mut edit = self.messages[self.selected].create_brother(ids);
            edit.text = text;
            self.messages.push(edit);
            let mut new_node = Node::new();
            let mut added_response = false;
            if let OwnerType::User = self.messages[self.selected].owner {
                new_node.messages.push(Message::empty_from_char(0, ids + 1));
                new_node.childs.push(Node::new());
                added_response = true;
            }
            self.childs.push(new_node);
            self.selected = self.messages.len() - 1;
            proof {
                assert(self.messages@.drop_last() =~= old(self).messages@);
                assert(self.childs@.drop_last() =~= old(self).childs@);
                assert forall|i: int| 0 <= i < self.childs@.len() implies (#[trigger] self.childs@[i]).wf() by {
                    if i < old(self).childs@.len() {
                        assert(self.childs@[i] == old(self).childs@[i]);
                    } else {
                        let c = self.childs@[i];
                        assert forall|j: int| 0 <= j < c.childs@.len() implies (#[trigger] c.childs@[j]).wf() by {
                            assert(c.childs@[j].is_blank());
                        }
                    }
                }
            }
            added_response
        } else {
            let s = self.selected;
            let r = self.childs[s].add_edit(depth - 1, ids, text);
            proof {
                assert forall|i: int| 0 <= i < self.childs@.len() implies (#[trigger] self.childs@[i]).wf() by {
                    if i != s {
                        assert(self.childs@[i] == old(self).childs@[i]);
                    }
                }
            }
            r
        }
    }

    /// Removes the message shown at `depth` together with everything that
    /// follows it, and shows the alternative before it (or the new first
    /// one). Removing the only alternative leaves that node empty, which
    /// ends the selected path there.
    pub fn delete(&mut self, depth: usize)
        requires
            old(self).wf(),
            depth < old(self).history().len(),
        ensures
            final(self).wf(),
            old(self).changed_at(*final(self), depth as nat, |o: Node, n: Node| Node::removed(o, n)),
        decreases depth,
    {
        if depth == 0 {
            let s = self.selected;
            let _ = self.messages.remove(s);
            let _ = self.childs.remove(s);
            if self.selected > 0 {
                self.selected -= 1;
            }
            proof {
                assert forall|i: int| 0 <= i < self.childs@.len() implies (#[trigger] self.childs@[i]).wf() by {
                    if i < s {
                        assert(self.childs@[i] == old(self).childs@[i]);
                    } else {
                        assert(self.childs@[i] == old(self).childs@[i + 1]);
                    }
                }
            }
        } else {
            let s = self.selected;
            self.childs[s].delete(depth - 1);
            proof {
                assert forall|i: int| 0 <= i < self.childs@.len() implies (#[trigger] self.childs@[i]).wf() by {
                    if i != s {
                        assert(self.childs@[i] == old(self).childs@[i]);
                    }
                }
            }
        }
    }

    /// Appends `text` to the last message of the selected path, the one a
    /// generation run is streaming into. Without any message nothing changes.
    pub fn append_to_last_message(&mut self, text: &str)
        requires
            old(self).wf(),
        ensures
            final(self).wf(),
            old(self).history().len() == 0 ==> *final(self) == *old(self),
            old(self).history().len() > 0 ==> old(self).changed_at(
                *final(self),
                (old(self).history().len() - 1) as nat,
                |o: Node, n: Node| Node::text_extended(o, n, text@),
            ),
        decreases old(self).history().len(),
    {
        if self.messages.len() == 0 {
            return;
        }
        let s = self.selected;
        if self.childs[s].childs.len() == 0 {
            self.messages[s].text.append(text);
            proof {
                assert(self.childs@[s as int].history() =~= Seq::<Message>::empty());
                assert(self.messages@ =~= old(self).messages@.update(s as int, self.messages@[s as int]));
            }
        } else {
            self.childs[s].append_to_last_message(text);
            proof {
                assert forall|i: int| 0 <= i < self.childs@.len() implies (#[trigger] self.childs@[i]).wf() by {
                    if i != s {
                        assert(self.childs@[i] == old(self).childs@[i]);
                    }
                }
            }
        }
    }

    /// Appends the selected path, read from this node down, to `history`.
    pub fn get_history(&self, history: &mut Vec<Message>)
        requires
            self.wf(),
        ensures
            final(history)@ == old(history)@ + self.history(),
        decreases self.history().len(),
    {
        if self.messages.len() > 0 {
            history.push(self.messages[self.selected].clone());
            self.childs[self.selected].get_history(history);
            proof {
                assert(final(history)@ =~= old(history)@ + self.history());
            }
        } else {
            proof {
                assert(final(history)@ =~= old(history)@ + self.history());
            }
        }
    }

    /// Appends, for each depth of the selected path from this node down, the
    /// pair `(selected + 1, number of alternatives)` to `structure`.
    pub fn get_history_structure(&self, structure: &mut Vec<(usize, usize)>)
        requires
            self.wf(),
        ensures
            final(structure)@ == old(structure)@ + self.structure(),
        decreases self.history().len(),
    {
        if self.messages.len() > 0 {
            structure.push((self.selected + 1, self.messages.len()));
            self.childs[self.selected].get_history_structure(structure);
            proof {
                assert(final(structure)@ =~= old(structure)@ + self.structure());
            }
        } else {
            proof {
                assert(final(structure)@ =~= old(structure)@ + self.structure());
            }
        }
    }

    /// On a well-formed tree, the message at `depth` of the selected path is
    /// the selected alternative of the node at `depth`, and that node is
    /// well formed.
    pub proof fn lemma_history_at(self, depth: nat)
        requires
            self.wf(),
            depth < self.history().len(),
        ensures
            self.node_at(depth).wf(),
            self.node_at(depth).shows(),
            self.history()[depth as int] == self.node_at(depth).messages@[self.node_at(depth).selected as int],
            self.history().subrange(depth as int, self.history().len() as int)
                == self.node_at(depth).history(),
        decreases depth,
    {
        if depth > 0 {
            let c = self.childs@[self.selected as int];
            c.lemma_history_at((depth - 1) as nat);
            assert(self.history().subrange(depth as int, self.history().len() as int)
                =~= c.history().subrange(depth - 1, c.history().len() as int));
        } else {
            assert(self.history().subrange(0, self.history().len() as int) =~= self.history());
        }
    }

    /// A change at `depth` keeps the selected path above `depth`: the path of
    /// `new` is the first `depth` messages of the old path followed by the path
    /// read from the changed node, and the same holds of the structure.
    pub proof fn lemma_changed_at(self, new: Node, depth: nat, step: spec_fn(Node, Node) -> bool)
        requires
            self.changed_at(new, depth, step),
            depth <= self.history().len(),
        ensures
            step(self.node_at(depth), new.node_at(depth)),
            self.history() == self.history().take(depth as int) + self.node_at(depth).history(),
            self.structure() == self.structure().take(depth as int) + self.node_at(depth).structure(),
            new.history() == self.history().take(depth as int) + new.node_at(depth).history(),
            new.structure() == self.structure().take(depth as int) + new.node_at(depth).structure(),
            self.structure().len() == self.history().len(),
        decreases depth,
    {
        self.lemma_structure_len();
        if depth == 0 {
            assert(self.history().take(0) + self.history() =~= self.history());
            assert(self.structure().take(0) + self.structure() =~= self.structure());
            assert(self.history().take(0) + new.history() =~= new.history());
            assert(self.structure().take(0) + new.structure() =~= new.structure());
        } else {
            let s = self.selected as int;
            let c = self.childs@[s];
            let nc = new.childs@[s];
            c.lemma_changed_at(nc, (depth - 1) as nat, step);
            assert(self.history().take(depth as int) =~= seq![self.messages@[s]] + c.history().take(depth - 1));
            assert(self.structure().take(depth as int) =~= seq![
                ((self.selected + 1) as usize, self.messages@.len() as usize),
            ] + c.structure().take(depth - 1));
            assert(self.history() =~= self.history().take(depth as int) + self.node_at(depth).history());
            assert(self.structure() =~= self.structure().take(depth as int) + self.node_at(depth).structure());
            assert(new.history() =~= self.history().take(depth as int) + new.node_at(depth).history());
            assert(new.structure() =~= self.structure().take(depth as int) + new.node_at(depth).structure());
        }
    }

    /// The structure has one entry per message of the selected path.
    pub proof fn lemma_structure_len(self)
        ensures
            self.structure().len() == self.history().len(),
        decreases self,
    {
        if self.shows() {
            self.childs@[self.selected as int].lemma_structure_len();
        }
    }
}

} // verus!
