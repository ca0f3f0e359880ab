//! Saved conversations with the assistant: a list in which each
//! conversation is found by its identifier.

use vstd::prelude::*;
use vstd::string::*;
use crate::text::str_eq;

verus! {

/// One message of a conversation.
#[derive(Debug, Clone)]
pub struct Message {
    pub role: String,
    pub content: String,
    pub timestamp: u64,
}

/// A conversation with the assistant.
#[derive(Debug, Clone)]
pub struct Conversation {
    pub id: String,
    pub title: String,
    pub timestamp: u64,
    pub messages: Vec<Message>,
}

/// The identifier of conversation `i`.
pub open spec fn id_at(list: Seq<Conversation>, i: int) -> Seq<char> {
    list[i].id@
}

/// The first index at which `list` holds a conversation with identifier
/// `id`, or the length of `list` where it holds none.
pub open spec fn first_with_id(list: Seq<Conversation>, id: Seq<char>) -> int
    decreases list.len(),
{
    if list.len() == 0 {
        0
    } else if list[0].id@ == id {
        0
    } else {
        1 + first_with_id(list.drop_first(), id)
    }
}

/// `list` with `conversation` in place of the first conversation that has
/// its identifier, or at the end where there is none.
pub open spec fn saved(list: Seq<Conversation>, conversation: Conversation) -> Seq<Conversation> {
    let i = first_with_id(list, conversation.id@);
    if i < list.len() {
        list.update(i, conversation)
    } else {
        list.push(conversation)
    }
}

/// `list` without the conversations that have identifier `id`.
pub open spec fn deleted(list: Seq<Conversation>, id: Seq<char>) -> Seq<Conversation>
    decreases list.len(),
{
    if list.len() == 0 {
        Seq::empty()
    } else if list[0].id@ == id {
        deleted(list.drop_first(), id)
    } else {
        seq![list[0]] + deleted(list.drop_first(), id)
    }
}

/// Where a prefix holds no conversation with the identifier, the first one
/// that has it lies behind the prefix.
pub proof fn lemma_first_with_id(list: Seq<Conversation>, id: Seq<char>, n: int)
    requires
        0 <= n <= list.len(),
        forall|j: int| 0 <= j < n ==> #[trigger] id_at(list, j) != id,
        n == list.len() || id_at(list, n) == id,
    ensures
        first_with_id(list, id) == n,
    decreases n,
{
    if n > 0 {
        assert(id_at(list, 0) != id);
        let rest = list.drop_first();
        assert forall|j: int| 0 <= j < n - 1 implies #[trigger] id_at(rest, j) != id by {
            assert(id_at(list, j + 1) != id);
        }
        lemma_first_with_id(rest, id, n - 1);
    }
}

/// Files `conversation` in `list`: in place of the one with its
/// identifier, or at the end.
pub fn save(list: &mut Vec<Conversation>, conversation: Conversation)
    ensures
        final(list)@ == saved(old(list)@, conversation),
{
    let mut i: usize = 0;
    while i < list.len()
        invariant
            list@ == old(list)@,
            i <= list.len(),
            forall|j: int| 0 <= j < i ==> #[trigger] id_at(list@, j) != conversation.id@,
        decreases list.len() - i,
    {
        if str_eq(list[i].id.as_str(), conversation.id.as_str()) {
            proof {
                assert(id_at(list@, i as int) == conversation.id@);
                lemma_first_with_id(list@, conversation.id@, i as int);
            }
            list.set(i, conversation);
            return ;
        }
        i += 1;
    }
    proof {
        lemma_first_with_id(list@, conversation.id@, i as int);
    }
    list.push(conversation);
}

/// Deleting distributes over a prefix without the identifier.
pub proof fn lemma_deleted_behind_prefix(list: Seq<Conversation>, id: Seq<char>, n: int)
    requires
        0 <= n <= list.len(),
        forall|j: int| 0 <= j < n ==> #[trigger] id_at(list, j) != id,
    ensures
        deleted(list, id) == list.take(n) + deleted(list.skip(n), id),
    decreases n,
{
    if n == 0 {
        assert(list.skip(0) =~= list);
        assert(list.take(0) + deleted(list, id) =~= deleted(list, id));
    } else {
        assert(id_at(list, 0) != id);
        let rest = list.drop_first();
        assert forall|j: int| 0 <= j < n - 1 implies #[trigger] id_at(rest, j) != id by {
            assert(id_at(list, j + 1) != id);
        }
        lemma_deleted_behind_prefix(rest, id, n - 1);
        assert(rest.skip(n - 1) =~= list.skip(n));
        assert(seq![list[0]] + (rest.take(n - 1) + deleted(list.skip(n), id)) =~= list.take(n)
            + deleted(list.skip(n), id));
    }
}

/// Removes from `list` every conversation with identifier `id`, keeping
/// the others in order.
pub fn delete(list: &mut Vec<Conversation>, id: &str)
    ensures
        final(list)@ == deleted(old(list)@, id@),
{
    let mut i: usize = 0;
    proof {
        lemma_deleted_behind_prefix(list@, id@, 0);
    }
    while i < list.len()
        invariant
            i <= list.len(),
            forall|j: int| 0 <= j < i ==> #[trigger] id_at(list@, j) != id@,
            deleted(old(list)@, id@) == list@.take(i as int) + deleted(list@.skip(i as int), id@),
        decreases list.len() - i,
    {
        let ghost before = list@;
        let ghost tail = before.skip(i as int);
        if str_eq(list[i].id.as_str(), id) {
            let _ = list.remove(i);
            proof {
                assert(tail[0] == before[i as int]);
                assert(tail.drop_first() =~= list@.skip(i as int));
                assert(list@.take(i as int) =~= before.take(i as int));
                assert forall|j: int| 0 <= j < i implies #[trigger] id_at(list@, j) != id@ by {
                    assert(id_at(before, j) != id@);
                }
            }
        } else {
            proof {
                assert(tail[0] == before[i as int]);
                assert(tail.drop_first() =~= before.skip(i + 1));
                assert(before.take(i as int) + (seq![tail[0]] + deleted(before.skip(i + 1), id@))
                    =~= before.take(i + 1) + deleted(before.skip(i + 1), id@));
                assert(id_at(before, i as int) != id@);
            }
            i += 1;
        }
    }
    proof {
        assert(list@.skip(i as int) =~= Seq::<Conversation>::empty());
        assert(list@.take(i as int) =~= list@);
        assert(list@ + Seq::<Conversation>::empty() =~= list@);
    }
}

} // verus!
