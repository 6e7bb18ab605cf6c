//! What the operations of the conversation tree mean for the conversation as
//! it is shown: the selected path (`history`) and its breadcrumbs
//! (`structure`). Each law takes a tree `old` and the tree `new` that an
//! operation at `depth` made of it, as the operation's own contract
//! describes it.
use vstd::prelude::*;

use crate::chat::is_placeholder;
use crate::message::{flush, joined, scan, styled_runs, OwnerType, Style};
use crate::node::Node;

verus! {

/// Moving back at a turn whose first alternative is shown changes nothing
/// that is shown.
pub proof fn law_previous_at_first_alternative(old: Node, new: Node, depth: nat)
    requires
        old.wf(),
        depth < old.history().len(),
        old.node_at(depth).selected == 0,
        old.changed_at(new, depth, |o: Node, n: Node| Node::retreated(o, n)),
    ensures
        new.history() == old.history(),
        new.structure() == old.structure(),
{
    old.lemma_history_at(depth);
    old.lemma_changed_at(new, depth, |o: Node, n: Node| Node::retreated(o, n));
    let a = old.node_at(depth);
    let b = new.node_at(depth);
    assert(b.history() == a.history());
    assert(b.structure() == a.structure());
}

/// Moving forward at a turn that has a later alternative shows that
/// alternative, already generated, with no new alternative opened.
pub proof fn law_next_replays_alternative(old: Node, new: Node, depth: nat, id: usize)
    requires
        old.wf(),
        depth < old.history().len(),
        !old.node_at(depth).at_frontier(),
        old.changed_at(new, depth, |o: Node, n: Node| Node::advanced(o, n, id)),
    ensures
        new.history().len() > depth,
        new.history().take(depth as int) == old.history().take(depth as int),
        new.history()[depth as int] == old.node_at(depth).messages@[old.node_at(depth).selected + 1],
        new.structure()[depth as int] == (
            (old.node_at(depth).selected + 2) as usize,
            old.node_at(depth).messages@.len() as usize,
        ),
{
    old.lemma_history_at(depth);
    old.lemma_changed_at(new, depth, |o: Node, n: Node| Node::advanced(o, n, id));
    let b = new.node_at(depth);
    assert(b.shows());
    assert(new.history()[depth as int] == b.history()[0]);
    assert(new.structure()[depth as int] == b.structure()[0]);
}

/// Moving forward at the last alternative of a turn opens a new, empty
/// alternative of the same owner there; it is shown, and the conversation
/// ends with it.
pub proof fn law_next_opens_alternative(old: Node, new: Node, depth: nat, id: usize)
    requires
        old.wf(),
        depth < old.history().len(),
        old.node_at(depth).at_frontier(),
        old.changed_at(new, depth, |o: Node, n: Node| Node::advanced(o, n, id)),
    ensures
        new.history().len() == depth + 1,
        new.history().take(depth as int) == old.history().take(depth as int),
        new.history()[depth as int].owner == old.history()[depth as int].owner,
        new.history()[depth as int].text@ == Seq::<char>::empty(),
        new.history()[depth as int].id == id,
        new.structure()[depth as int] == (
            (old.node_at(depth).messages@.len() + 1) as usize,
            (old.node_at(depth).messages@.len() + 1) as usize,
        ),
{
    old.lemma_history_at(depth);
    old.lemma_changed_at(new, depth, |o: Node, n: Node| Node::advanced(o, n, id));
    let b = new.node_at(depth);
    let s = b.selected as int;
    assert(b.childs@[s] == b.childs@.last());
    assert(b.childs@[s].history() =~= Seq::empty());
    assert(b.history() =~= seq![b.messages@[s]]);
    assert(new.history()[depth as int] == b.history()[0]);
    assert(new.structure()[depth as int] == b.structure()[0]);
}

/// Editing a character turn records the new text as its shown alternative
/// and owes no reply: the conversation ends at the edited turn.
pub proof fn law_edit_character_turn(old: Node, new: Node, depth: nat, id: usize, text: Seq<char>)
    requires
        old.wf(),
        depth < old.history().len(),
        old.history()[depth as int].owner != OwnerType::User,
        old.changed_at(new, depth, |o: Node, n: Node| Node::edited(o, n, id, text)),
    ensures
        new.history().len() == depth + 1,
        new.history().take(depth as int) == old.history().take(depth as int),
        new.history()[depth as int].owner == old.history()[depth as int].owner,
        new.history()[depth as int].text@ == text,
        new.structure().len() == depth + 1,
{
    old.lemma_history_at(depth);
    old.lemma_changed_at(new, depth, |o: Node, n: Node| Node::edited(o, n, id, text));
    let b = new.node_at(depth);
    let s = b.selected as int;
    assert(b.childs@[s] == b.childs@.last());
    assert(b.childs@[s].history() =~= Seq::empty());
    assert(b.childs@[s].structure() =~= Seq::empty());
    assert(b.history() =~= seq![b.messages@[s]]);
    assert(new.history()[depth as int] == b.history()[0]);
}

/// Editing a user turn records the new text as its shown alternative and
/// opens an empty character reply right after it, which the conversation
/// now ends with.
pub proof fn law_edit_user_turn(old: Node, new: Node, depth: nat, id: usize, text: Seq<char>)
    requires
        old.wf(),
        depth < old.history().len(),
        id < usize::MAX,
        old.history()[depth as int].owner == OwnerType::User,
        old.changed_at(new, depth, |o: Node, n: Node| Node::edited(o, n, id, text)),
    ensures
        new.history().len() == depth + 2,
        new.history().take(depth as int) == old.history().take(depth as int),
        new.history()[depth as int].owner == OwnerType::User,
        new.history()[depth as int].text@ == text,
        is_placeholder(new.history()[depth + 1int], (id + 1) as usize),
        new.structure().len() == depth + 2,
        new.structure()[depth + 1int] == (1usize, 1usize),
{
    old.lemma_history_at(depth);
    old.lemma_changed_at(new, depth, |o: Node, n: Node| Node::edited(o, n, id, text));
    let b = new.node_at(depth);
    let s = b.selected as int;
    let c = b.childs@[s];
    assert(c == b.childs@.last());
    assert(c.childs@[0].history() =~= Seq::empty());
    assert(c.childs@[0].structure() =~= Seq::empty());
    assert(c.history() =~= seq![c.messages@[0]]);
    assert(c.structure() =~= seq![(1usize, 1usize)]);
    assert(b.history() =~= seq![b.messages@[s], c.messages@[0]]);
    assert(b.structure() =~= seq![((b.selected + 1) as usize, b.messages@.len() as usize), (1usize, 1usize)]);
    assert(new.history()[depth as int] == b.history()[0]);
    assert(new.history()[depth + 1int] == b.history()[1]);
    assert(new.structure()[depth + 1int] == b.structure()[1]);
}

/// Deleting the turn shown at `depth` keeps the turns before it. If the turn
/// had other alternatives, the one before the deleted one (or the new first
/// one) is shown in its place and the count drops by one; if it had none,
/// the conversation now ends before `depth`.
pub proof fn law_delete(old: Node, new: Node, depth: nat)
    requires
        old.wf(),
        depth < old.history().len(),
        old.changed_at(new, depth, |o: Node, n: Node| Node::removed(o, n)),
    ensures
        new.history().take(depth as int) == old.history().take(depth as int),
        ({
            let a = old.node_at(depth);
            let kept = if a.selected > 0 { a.selected - 1 } else { 0int };
            if a.messages@.len() > 1 {
                &&& new.history().len() > depth
                &&& new.history()[depth as int] == a.messages@.remove(a.selected as int)[kept]
                &&& new.structure()[depth as int] == ((kept + 1) as usize, (a.messages@.len() - 1) as usize)
            } else {
                &&& new.history().len() == depth
                &&& new.structure().len() == depth
            }
        }),
{
    old.lemma_history_at(depth);
    old.lemma_changed_at(new, depth, |o: Node, n: Node| Node::removed(o, n));
    let a = old.node_at(depth);
    let b = new.node_at(depth);
    if a.messages@.len() > 1 {
        assert(b.shows());
        assert(new.history()[depth as int] == b.history()[0]);
        assert(new.structure()[depth as int] == b.structure()[0]);
    } else {
        assert(!b.shows());
        assert(new.history() =~= old.history().take(depth as int));
        assert(new.structure() =~= old.structure().take(depth as int));
    }
}

/// Styling loses nothing and adds nothing: the styled runs of a line, put
/// one after another, give the line back, and none of them is empty.
pub proof fn law_runs_cover_line(text: Seq<char>)
    ensures
        joined(styled_runs(text)) == text,
        forall|i: int| 0 <= i < styled_runs(text).len() ==> (#[trigger] styled_runs(text)[i]).0.len() > 0,
{
    lemma_scan_covers(text);
    let (runs, cur, st) = scan(text);
    lemma_flush_joined(runs, cur, st);
}

proof fn lemma_flush_joined(runs: Seq<(Seq<char>, Style)>, cur: Seq<char>, st: Style)
    requires
        forall|i: int| 0 <= i < runs.len() ==> (#[trigger] runs[i]).0.len() > 0,
    ensures
        joined(flush(runs, cur, st)) == joined(runs) + cur,
        forall|i: int| 0 <= i < flush(runs, cur, st).len() ==> (#[trigger] flush(runs, cur, st)[i]).0.len() > 0,
{
    if cur.len() > 0 {
        assert(runs.push((cur, st)).drop_last() =~= runs);
    } else {
        assert(joined(runs) + cur =~= joined(runs));
    }
}

proof fn lemma_scan_covers(text: Seq<char>)
    ensures
        joined(scan(text).0) + scan(text).1 == text,
        forall|i: int| 0 <= i < scan(text).0.len() ==> (#[trigger] scan(text).0[i]).0.len() > 0,
    decreases text.len(),
{
    if text.len() == 0 {
        assert(joined(scan(text).0) + scan(text).1 =~= text);
    } else {
        let prefix = text.drop_last();
        lemma_scan_covers(prefix);
        let (runs, cur, st) = scan(prefix);
        let c = text.last();
        assert(prefix.push(c) =~= text);
        if !crate::message::is_marker(c) {
            assert(joined(runs) + cur.push(c) =~= (joined(runs) + cur).push(c));
        } else if st != Style::Normal {
            lemma_flush_joined(runs, cur.push(c), st);
            assert(joined(runs) + cur.push(c) + Seq::<char>::empty() =~= (joined(runs) + cur).push(c));
        } else {
            lemma_flush_joined(runs, cur, st);
            assert(joined(runs) + cur + seq![c] =~= (joined(runs) + cur).push(c));
        }
    }
}

/// A streamed fragment lands at the end of the last shown message: that
/// message keeps its owner and identity, every other shown turn and the
/// breadcrumbs stay as they were. Fragments thus accumulate in the order
/// they are applied.
pub proof fn law_fragment_extends_last_message(old: Node, new: Node, fragment: Seq<char>)
    requires
        old.wf(),
        old.history().len() > 0,
        old.changed_at(
            new,
            (old.history().len() - 1) as nat,
            |o: Node, n: Node| Node::text_extended(o, n, fragment),
        ),
    ensures
        new.history().len() == old.history().len(),
        new.history().drop_last() == old.history().drop_last(),
        new.history().last().owner == old.history().last().owner,
        new.history().last().id == old.history().last().id,
        new.history().last().text@ == old.history().last().text@ + fragment,
        new.structure() == old.structure(),
{
    let d = (old.history().len() - 1) as nat;
    old.lemma_history_at(d);
    old.lemma_changed_at(new, d, |o: Node, n: Node| Node::text_extended(o, n, fragment));
    let a = old.node_at(d);
    let b = new.node_at(d);
    let s = a.selected as int;
    assert(a.history().len() == 1);
    assert(a.childs@[s].history().len() == 0);
    assert(b.childs@[s] == a.childs@[s]);
    assert(b.history() =~= seq![b.messages@[s]]);
    assert(a.history() =~= seq![a.messages@[s]]);
    assert(b.structure() =~= a.structure());
    assert(new.history().drop_last() =~= old.history().drop_last());
}

} // verus!
