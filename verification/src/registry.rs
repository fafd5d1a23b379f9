//! The connection registry: the ordered collection of connected
//! participants, looked up by identity or by turn position.

use vstd::prelude::*;

use crate::player::{player_wf, Player, PlayerType};
use crate::protocol::PublishRequest;
use tokio::sync::mpsc::UnboundedSender;

verus! {

/// The chip balance every participant starts with.
pub const STARTING_CHIPS: u32 = 500;

/// One connected participant: an opaque identity, the outbound channel
/// handle once the socket handshake has completed, the turn position
/// assigned at registration and never reassigned, and the embedded player.
pub struct Client {
    pub id: String,
    pub sender: Option<UnboundedSender<PublishRequest>>,
    pub position: usize,
    pub player: Player,
}

/// The shared registry of connections, mutated under one exclusive lock
/// held by the caller for the duration of each operation.
pub struct Registry {
    pub clients: Vec<Client>,
}

/// Relies on `str`'s `PartialEq` implementation: two string slices are
/// equal exactly when their character sequences are.
#[verifier::external_body]
pub(crate) fn str_eq(a: &str, b: &str) -> (r: bool)
    ensures
        r == (a@ == b@),
{
    a == b
}

/// The index of the first client carrying `id`, or -1 when no client does.
pub open spec fn first_with_id(clients: Seq<Client>, id: Seq<char>) -> int
    decreases clients.len(),
{
    if clients.len() == 0 {
        -1
    } else if clients[0].id@ == id {
        0
    } else {
        let r = first_with_id(clients.drop_first(), id);
        if r == -1 {
            -1
        } else {
            r + 1
        }
    }
}

/// The index of the first client at turn position `position`, or -1.
pub open spec fn first_at_position(clients: Seq<Client>, position: int) -> int
    decreases clients.len(),
{
    if clients.len() == 0 {
        -1
    } else if clients[0].position == position {
        0
    } else {
        let r = first_at_position(clients.drop_first(), position);
        if r == -1 {
            -1
        } else {
            r + 1
        }
    }
}

/// `first_with_id` names the first match: a match exists exactly when the
/// result is not -1, and nothing before the result matches.
pub proof fn lemma_first_with_id(clients: Seq<Client>, id: Seq<char>)
    ensures
        first_with_id(clients, id) == -1 <==> (forall|j: int|
            0 <= j < clients.len() ==> clients[j].id@ != id),
        first_with_id(clients, id) != -1 ==> {
            &&& 0 <= first_with_id(clients, id) < clients.len()
            &&& clients[first_with_id(clients, id)].id@ == id
            &&& forall|j: int| 0 <= j < first_with_id(clients, id) ==> clients[j].id@ != id
        },
    decreases clients.len(),
{
    if clients.len() > 0 && clients[0].id@ != id {
        lemma_first_with_id(clients.drop_first(), id);
        assert(forall|j: int|
            1 <= j < clients.len() ==> clients[j] == clients.drop_first()[j - 1]);
    }
}

/// `first_at_position` names the first match, in the same way.
pub proof fn lemma_first_at_position(clients: Seq<Client>, position: int)
    ensures
        first_at_position(clients, position) == -1 <==> (forall|j: int|
            0 <= j < clients.len() ==> clients[j].position != position),
        first_at_position(clients, position) != -1 ==> {
            &&& 0 <= first_at_position(clients, position) < clients.len()
            &&& clients[first_at_position(clients, position)].position == position
            &&& forall|j: int|
                0 <= j < first_at_position(clients, position) ==> clients[j].position != position
        },
    decreases clients.len(),
{
    if clients.len() > 0 && clients[0].position != position {
        lemma_first_at_position(clients.drop_first(), position);
        assert(forall|j: int|
            1 <= j < clients.len() ==> clients[j] == clients.drop_first()[j - 1]);
    }
}

/// Two registries whose clients sit at the same positions agree on where
/// the first client at any position stands.
pub proof fn lemma_first_at_position_same_positions(a: Seq<Client>, b: Seq<Client>, position: int)
    requires
        a.len() == b.len(),
        forall|k: int| 0 <= k < a.len() ==> a[k].position == b[k].position,
    ensures
        first_at_position(a, position) == first_at_position(b, position),
    decreases a.len(),
{
    if a.len() > 0 {
        assert(forall|k: int|
            0 <= k < a.drop_first().len() ==> a.drop_first()[k].position
                == b.drop_first()[k].position);
        lemma_first_at_position_same_positions(a.drop_first(), b.drop_first(), position);
    }
}

/// `clients` with every client carrying `id` removed, order kept.
pub open spec fn remove_id(clients: Seq<Client>, id: Seq<char>) -> Seq<Client>
    decreases clients.len(),
{
    if clients.len() == 0 {
        clients
    } else if clients[0].id@ == id {
        remove_id(clients.drop_first(), id)
    } else {
        seq![clients[0]] + remove_id(clients.drop_first(), id)
    }
}

/// Removing an identity that no client carries leaves the registry as it was.
pub proof fn lemma_remove_id_absent(clients: Seq<Client>, id: Seq<char>)
    requires
        forall|j: int| 0 <= j < clients.len() ==> clients[j].id@ != id,
    ensures
        remove_id(clients, id) == clients,
    decreases clients.len(),
{
    if clients.len() > 0 {
        assert(forall|j: int|
            0 <= j < clients.drop_first().len() ==> clients.drop_first()[j].id@ != id);
        lemma_remove_id_absent(clients.drop_first(), id);
        assert(seq![clients[0]] + clients.drop_first() =~= clients);
    }
}

/// Removing the same identity twice removes no more than removing it once:
/// `unregister` is idempotent.
pub proof fn lemma_remove_id_idempotent(clients: Seq<Client>, id: Seq<char>)
    ensures
        remove_id(remove_id(clients, id), id) == remove_id(clients, id),
    decreases clients.len(),
{
    if clients.len() > 0 {
        lemma_remove_id_idempotent(clients.drop_first(), id);
        if clients[0].id@ != id {
            let rest = remove_id(clients.drop_first(), id);
            assert((seq![clients[0]] + rest).drop_first() =~= rest);
        }
    }
}

/// Every client that survives a removal stood somewhere in the sequence
/// before it.
pub proof fn lemma_remove_id_membership(clients: Seq<Client>, id: Seq<char>, k: int)
    requires
        0 <= k < remove_id(clients, id).len(),
    ensures
        exists|j: int| 0 <= j < clients.len() && remove_id(clients, id)[k] == clients[j],
    decreases clients.len(),
{
    if clients.len() > 0 {
        if clients[0].id@ == id {
            lemma_remove_id_membership(clients.drop_first(), id, k);
            let j = choose|j: int|
                0 <= j < clients.drop_first().len() && remove_id(clients.drop_first(), id)[k]
                    == clients.drop_first()[j];
            assert(remove_id(clients, id)[k] == clients[j + 1]);
        } else {
            if k == 0 {
                assert(remove_id(clients, id)[0] == clients[0]);
            } else {
                lemma_remove_id_membership(clients.drop_first(), id, k - 1);
                let j = choose|j: int|
                    0 <= j < clients.drop_first().len() && remove_id(clients.drop_first(), id)[k
                        - 1] == clients.drop_first()[j];
                assert(remove_id(clients, id)[k] == clients[j + 1]);
            }
        }
    }
}

impl Registry {
    /// Every embedded player is well formed.
    pub open spec fn wf(self) -> bool {
        forall|i: int|
            0 <= i < self.clients@.len() ==> player_wf(#[trigger] self.clients@[i].player)
    }

    pub fn new() -> (r: Registry)
        ensures
            r.clients@.len() == 0,
            r.wf(),
    {
        Registry { clients: Vec::new() }
    }

    /// Appends a new connection at the next position with a default player:
    /// the fixed starting chip balance, an empty hand, no bet, no channel.
    /// Registration never fails.
    pub fn register(&mut self, id: String, user_name: String) -> (position: usize)
        requires
            old(self).clients@.len() < usize::MAX,
        ensures
            position == old(self).clients@.len(),
            final(self).clients@.len() == old(self).clients@.len() + 1,
            forall|i: int|
                0 <= i < old(self).clients@.len() ==> final(self).clients@[i] == old(
                    self,
                ).clients@[i],
            ({
                let c = final(self).clients@.last();
                &&& c.id == id
                &&& c.sender is None
                &&& c.position == old(self).clients@.len()
                &&& c.player.user_name == user_name
                &&& c.player.player_type == PlayerType::Human
                &&& c.player.hand@.len() == 0
                &&& c.player.hand_value == 0
                &&& c.player.chips == STARTING_CHIPS
                &&& c.player.current_bet == 0
            }),
            old(self).wf() ==> final(self).wf(),
    {
        let position = self.clients.len();
        self.clients.push(
            Client {
                id,
                sender: None,
                position,
                player: Player {
                    user_name,
                    player_type: PlayerType::Human,
                    hand: Vec::new(),
                    hand_value: 0,
                    chips: STARTING_CHIPS,
                    current_bet: 0,
                },
            },
        );
        position
    }

    /// Looks a connection up by identity; returns the index of the first
    /// match. Absence is a normal outcome, not an error.
    pub fn find_by_identity(&self, id: &str) -> (r: Option<usize>)
        ensures
            first_with_id(self.clients@, id@) == -1 <==> r is None,
            r matches Some(i) ==> i as int == first_with_id(self.clients@, id@),
    {
        proof {
            lemma_first_with_id(self.clients@, id@);
        }
        let mut i: usize = 0;
        while i < self.clients.len()
            invariant
                0 <= i <= self.clients@.len(),
                forall|j: int| 0 <= j < i ==> self.clients@[j].id@ != id@,
                first_with_id(self.clients@, id@) == -1 <==> (forall|j: int|
                    0 <= j < self.clients@.len() ==> self.clients@[j].id@ != id@),
                first_with_id(self.clients@, id@) != -1 ==> {
                    &&& 0 <= first_with_id(self.clients@, id@) < self.clients@.len()
                    &&& self.clients@[first_with_id(self.clients@, id@)].id@ == id@
                    &&& forall|j: int|
                        0 <= j < first_with_id(self.clients@, id@) ==> self.clients@[j].id@ != id@
                },
            decreases self.clients@.len() - i,
        {
            if str_eq(self.clients[i].id.as_str(), id) {
                return Some(i);
            }
            i = i + 1;
        }
        None
    }

    /// Looks a connection up by turn position; returns the index of the
    /// first match.
    pub fn find_by_position(&self, position: usize) -> (r: Option<usize>)
        ensures
            first_at_position(self.clients@, position as int) == -1 <==> r is None,
            r matches Some(i) ==> i as int == first_at_position(self.clients@, position as int),
    {
        proof {
            lemma_first_at_position(self.clients@, position as int);
        }
        let mut i: usize = 0;
        while i < self.clients.len()
            invariant
                0 <= i <= self.clients@.len(),
                forall|j: int| 0 <= j < i ==> self.clients@[j].position != position,
                first_at_position(self.clients@, position as int) == -1 <==> (forall|j: int|
                    0 <= j < self.clients@.len() ==> self.clients@[j].position != position),
                first_at_position(self.clients@, position as int) != -1 ==> {
                    &&& 0 <= first_at_position(self.clients@, position as int)
                        < self.clients@.len()
                    &&& self.clients@[first_at_position(self.clients@, position as int)].position
                        == position
                    &&& forall|j: int|
                        0 <= j < first_at_position(self.clients@, position as int)
                            ==> self.clients@[j].position != position
                },
            decreases self.clients@.len() - i,
        {
            if self.clients[i].position == position {
                return Some(i);
            }
            i = i + 1;
        }
        None
    }

    /// Sets the outbound channel of the connection carrying `id` once its
    /// socket handshake completes; a no-op when the identity is absent.
    pub fn attach_sender(&mut self, id: &str, sender: UnboundedSender<PublishRequest>)
        ensures
            first_with_id(old(self).clients@, id@) == -1 ==> *final(self) == *old(self),
            first_with_id(old(self).clients@, id@) != -1 ==> {
                let i = first_with_id(old(self).clients@, id@);
                &&& final(self).clients@.len() == old(self).clients@.len()
                &&& forall|k: int|
                    0 <= k < old(self).clients@.len() && k != i ==> final(self).clients@[k] == old(
                        self,
                    ).clients@[k]
                &&& final(self).clients@[i].id == old(self).clients@[i].id
                &&& final(self).clients@[i].sender is Some
                &&& final(self).clients@[i].position == old(self).clients@[i].position
                &&& final(self).clients@[i].player == old(self).clients@[i].player
            },
            old(self).wf() ==> final(self).wf(),
    {
        proof {
            lemma_first_with_id(self.clients@, id@);
        }
        let found = self.find_by_identity(id);
        match found {
            Some(i) => {
                let ghost before = self.clients@;
                let mut c = self.clients.remove(i);
                c.sender = Some(sender);
                self.clients.insert(i, c);
                proof {
                    assert(self.clients@ =~= before.update(i as int, self.clients@[i as int]));
                }
            },
            None => {},
        }
    }

    /// Removes every connection carrying `id`; safe to call for an identity
    /// that was never registered or was already removed.
    pub fn unregister(&mut self, id: &str)
        ensures
            final(self).clients@ == remove_id(old(self).clients@, id@),
            old(self).wf() ==> final(self).wf(),
    {
        let ghost orig = self.clients@;
        let mut kept: Vec<Client> = Vec::new();
        while self.clients.len() > 0
            invariant
                kept@ + remove_id(self.clients@, id@) =~= remove_id(orig, id@),
            decreases self.clients@.len(),
        {
            let c = self.clients.remove(0);
            let ghost before = kept@;
            if !str_eq(c.id.as_str(), id) {
                kept.push(c);
                proof {
                    assert(kept@ =~= before + seq![c]);
                }
            }
        }
        self.clients = kept;
        proof {
            assert(self.clients@ =~= remove_id(orig, id@));
            if old(self).wf() {
                assert forall|i: int|
                    0 <= i < self.clients@.len() implies player_wf(
                    #[trigger] self.clients@[i].player,
                ) by {
                    lemma_remove_id_membership(orig, id@, i);
                }
            }
        }
    }
}

} // verus!
