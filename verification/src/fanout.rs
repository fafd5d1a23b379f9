//! Broadcast fan-out: hands one event to every attached connection's
//! outbound queue, never blocking on — and never failing because of — any
//! single consumer.

use vstd::prelude::*;

use crate::protocol::PublishRequest;
use crate::registry::{str_eq, Client, Registry};
use tokio::sync::mpsc::error::SendError;
use tokio::sync::mpsc::UnboundedSender;

verus! {

#[verifier::external_type_specification]
#[verifier::external_body]
#[verifier::reject_recursive_types(T)]
pub struct ExUnboundedSender<T>(UnboundedSender<T>);

#[verifier::external_type_specification]
#[verifier::external_body]
#[verifier::reject_recursive_types(T)]
pub struct ExSendError<T>(SendError<T>);

/// Relies on tokio's `UnboundedSender::send`: enqueueing onto an unbounded
/// channel never blocks and never panics; it returns `Err` carrying the
/// message back when the receive half is closed. Which of the two outcomes
/// happens depends on the far end, so nothing more is promised.
pub assume_specification<T>[ UnboundedSender::<T>::send ](
    s: &UnboundedSender<T>,
    message: T,
) -> Result<(), SendError<T>>;

/// The identities that a publish with this filter reaches: every client
/// whose outbound channel is attached, except the filtered identity.
pub open spec fn recipient_ids(clients: Seq<Client>, filter: Option<Seq<char>>) -> Seq<Seq<char>>
    decreases clients.len(),
{
    if clients.len() == 0 {
        Seq::empty()
    } else {
        let rest = recipient_ids(clients.drop_first(), filter);
        if clients[0].sender is Some && (match filter {
            Some(f) => clients[0].id@ != f,
            None => true,
        }) {
            seq![clients[0].id@] + rest
        } else {
            rest
        }
    }
}

/// Extending the clients by one extends the recipients by that client's
/// identity exactly when it is attached and not filtered.
proof fn lemma_recipient_ids_take_succ(clients: Seq<Client>, filter: Option<Seq<char>>, i: int)
    requires
        0 <= i < clients.len(),
    ensures
        recipient_ids(clients.take(i + 1), filter) == if clients[i].sender is Some && (match filter {
            Some(f) => clients[i].id@ != f,
            None => true,
        }) {
            recipient_ids(clients.take(i), filter) + seq![clients[i].id@]
        } else {
            recipient_ids(clients.take(i), filter)
        },
    decreases i,
{
    if i == 0 {
        assert(clients.take(1).drop_first() =~= clients.take(0));
        assert(recipient_ids(clients.take(0), filter) == Seq::<Seq<char>>::empty());
        if clients[0].sender is Some && (match filter {
            Some(f) => clients[0].id@ != f,
            None => true,
        }) {
            assert(seq![clients[0].id@] + Seq::<Seq<char>>::empty() =~= Seq::<Seq<char>>::empty()
                + seq![clients[0].id@]);
        }
    } else {
        lemma_recipient_ids_take_succ(clients.drop_first(), filter, i - 1);
        assert(clients.take(i + 1).drop_first() =~= clients.drop_first().take(i));
        assert(clients.take(i).drop_first() =~= clients.drop_first().take(i - 1));
        if clients.take(i + 1)[0].sender is Some && (match filter {
            Some(f) => clients.take(i + 1)[0].id@ != f,
            None => true,
        }) {
            if clients[i].sender is Some && (match filter {
                Some(f) => clients[i].id@ != f,
                None => true,
            }) {
                assert(seq![clients[0].id@] + (recipient_ids(clients.drop_first().take(i - 1),
                    filter) + seq![clients[i].id@]) =~= (seq![clients[0].id@] + recipient_ids(
                    clients.drop_first().take(i - 1),
                    filter,
                )) + seq![clients[i].id@]);
            }
        }
    }
}

/// Publishes one event: walks the registry snapshot once and enqueues the
/// event onto the outbound channel of every attached connection other than
/// the filtered one. A full or closed channel on one connection cannot
/// block the walk or keep any other connection from being reached; the
/// returned list names, in registry order, every identity that was handed
/// the event.
pub fn publish(registry: &Registry, body: &PublishRequest, filter_client_id: Option<&str>) -> (delivered: Vec<
    String,
>)
    ensures
        delivered@.map_values(|s: String| s@) == recipient_ids(
            registry.clients@,
            match filter_client_id {
                Some(f) => Some(f@),
                None => None,
            },
        ),
{
    let ghost filter: Option<Seq<char>> = match filter_client_id {
        Some(f) => Some(f@),
        None => None,
    };
    let mut delivered: Vec<String> = Vec::new();
    let mut i: usize = 0;
    while i < registry.clients.len()
        invariant
            0 <= i <= registry.clients@.len(),
            filter == (match filter_client_id {
                Some(f) => Some(f@),
                None => None::<Seq<char>>,
            }),
            delivered@.map_values(|s: String| s@) == recipient_ids(
                registry.clients@.take(i as int),
                filter,
            ),
        decreases registry.clients@.len() - i,
    {
        let c = &registry.clients[i];
        let filtered = match filter_client_id {
            Some(f) => str_eq(c.id.as_str(), f),
            None => false,
        };
        let ghost before = delivered@;
        if !filtered {
            match &c.sender {
                Some(sender) => {
                    let _ = sender.send(body.clone());
                    delivered.push(c.id.clone());
                    proof {
                        assert(delivered@.map_values(|s: String| s@) =~= before.map_values(
                            |s: String| s@,
                        ) + seq![registry.clients@[i as int].id@]);
                    }
                },
                None => {},
            }
        }
        proof {
            lemma_recipient_ids_take_succ(registry.clients@, filter, i as int);
        }
        i = i + 1;
    }
    proof {
        assert(registry.clients@.take(registry.clients@.len() as int) =~= registry.clients@);
    }
    delivered
}

} // verus!
