//! The client list of the blocking server: clients are served one after
//! the other, and a client that is done is swapped out with the last one.
use crate::io_outcome::IoOutcome;
use vstd::prelude::*;

verus! {

/// Whether a client is still connected after it was served.
#[derive(Clone, Copy, Debug, PartialEq, Eq, Structural)]
pub enum ConnectionStatus {
    Established,
    Closed,
}

/// The connected clients, in the order in which they are served. A client
/// is whatever the event loop talks to: a stream, or its file descriptor.
pub struct Connection<S> {
    clients: Vec<S>,
}

impl<S> View for Connection<S> {
    type V = Seq<S>;

    closed spec fn view(&self) -> Seq<S> {
        self.clients@
    }
}

/// The client list after the client at `index` is dropped: the last client
/// takes its place.
pub open spec fn swap_removed<S>(clients: Seq<S>, index: int) -> Seq<S> {
    clients.update(index, clients.last()).drop_last()
}

impl<S> Connection<S> {
    /// An empty list.
    pub fn new() -> (conn: Self)
        ensures
            conn@ == Seq::<S>::empty(),
    {
        Connection { clients: Vec::new() }
    }

    /// Adds `stream` at the end of the list once its greeting went out, as
    /// `greeted` says; otherwise drops it and returns the error.
    pub fn accept_new_client<E>(&mut self, stream: S, greeted: Result<(), E>) -> (res: Result<(), E>)
        ensures
            match greeted {
                Ok(_) => final(self)@ == old(self)@.push(stream) && res is Ok,
                Err(e) => final(self)@ == old(self)@ && res == Err::<(), E>(e),
            },
    {
        match greeted {
            Ok(()) => {
                self.clients.push(stream);
                Ok(())
            },
            Err(e) => Err(e),
        }
    }

    /// The number of connected clients.
    pub fn len(&self) -> (n: usize)
        ensures
            n == self@.len(),
    {
        self.clients.len()
    }

    /// The client at `index`, to be served.
    pub fn client_mut(&mut self, index: usize) -> (client: &mut S)
        requires
            index < old(self)@.len(),
        ensures
            *client == old(self)@[index as int],
            final(self)@ == old(self)@.update(index as int, *final(client)),
    {
        &mut self.clients[index]
    }

    /// Records how serving the client at `index` ended and returns the index
    /// of the next client to serve, with the client to close, if any: the
    /// next one when the client is still connected; otherwise the client is
    /// dropped from the list and handed back to be closed, the last client
    /// takes its place, and that place is served next.
    pub fn settle<E>(&mut self, index: usize, status: Result<ConnectionStatus, E>) -> (res: (
        usize,
        Option<S>,
    ))
        requires
            index < old(self)@.len(),
        ensures
            (final(self)@, res.0 as int) == sweep_step(old(self)@, index as int, stays(status)),
            stays(status) ==> res.1 is None,
            !stays(status) ==> res.1 == Some(old(self)@[index as int]),
            final(self)@.len() - res.0 < old(self)@.len() - index,
    {
        let count = self.clients.len();
        assert(index < count);
        match status {
            Ok(ConnectionStatus::Established) => (index + 1, None),
            _ => {
                let removed = self.clients.swap_remove(index);
                (index, Some(removed))
            },
        }
    }
}

/// Whether a client served with the result `status` stays in the list.
pub open spec fn stays<E>(status: Result<ConnectionStatus, E>) -> bool {
    status == Ok::<ConnectionStatus, E>(ConnectionStatus::Established)
}

/// One step of a pass over the clients: the list and the next index after
/// the client at `index` was served, staying or not.
pub open spec fn sweep_step<S>(clients: Seq<S>, index: int, stays: bool) -> (Seq<S>, int) {
    if stays {
        (clients, index + 1)
    } else {
        (swap_removed(clients, index), index)
    }
}

/// The client list after a pass that starts at `index` and in which the
/// clients served in turn stay or not as `outcomes` says.
pub open spec fn sweep_clients<S>(clients: Seq<S>, index: int, outcomes: Seq<bool>) -> Seq<S>
    decreases outcomes.len(),
{
    if outcomes.len() == 0 || index < 0 || index >= clients.len() {
        clients
    } else {
        let (next_clients, next_index) = sweep_step(clients, index, outcomes[0]);
        sweep_clients(next_clients, next_index, outcomes.drop_first())
    }
}

/// The clients served by that pass, in the order in which they are served.
pub open spec fn sweep_served<S>(clients: Seq<S>, index: int, outcomes: Seq<bool>) -> Seq<S>
    decreases outcomes.len(),
{
    if outcomes.len() == 0 || index < 0 || index >= clients.len() {
        Seq::empty()
    } else {
        let (next_clients, next_index) = sweep_step(clients, index, outcomes[0]);
        seq![clients[index]] + sweep_served(next_clients, next_index, outcomes.drop_first())
    }
}

/// The clients served by that pass that stay, in the order in which they
/// are served.
pub open spec fn sweep_kept<S>(clients: Seq<S>, index: int, outcomes: Seq<bool>) -> Seq<S>
    decreases outcomes.len(),
{
    if outcomes.len() == 0 || index < 0 || index >= clients.len() {
        Seq::empty()
    } else {
        let (next_clients, next_index) = sweep_step(clients, index, outcomes[0]);
        let rest = sweep_kept(next_clients, next_index, outcomes.drop_first());
        if outcomes[0] {
            seq![clients[index]] + rest
        } else {
            rest
        }
    }
}

/// What follows a read from a client of the blocking server.
#[derive(Debug)]
pub enum AfterRead<E> {
    /// The read received this many bytes: report them and answer the client.
    Respond(usize),
    /// Serving the client ends here with this result.
    Finish(Result<ConnectionStatus, E>),
}

/// What follows the read `read` from a client: a closed connection on a read
/// of zero bytes, an answer on data, a connection that stays when the
/// socket was not ready, and the error of any other failure.
pub fn after_read<E>(read: IoOutcome<E>) -> (next: AfterRead<E>)
    ensures
        match read {
            IoOutcome::Done(n) => if n == 0 {
                next == AfterRead::<E>::Finish(Ok(ConnectionStatus::Closed))
            } else {
                next == AfterRead::<E>::Respond(n)
            },
            IoOutcome::WouldBlock(_) => next == AfterRead::<E>::Finish(
                Ok(ConnectionStatus::Established),
            ),
            IoOutcome::Failed(e) => next == AfterRead::<E>::Finish(Err(e)),
        },
{
    match read {
        IoOutcome::Done(n) => if n == 0 {
            AfterRead::Finish(Ok(ConnectionStatus::Closed))
        } else {
            AfterRead::Respond(n)
        },
        IoOutcome::WouldBlock(_) => AfterRead::Finish(Ok(ConnectionStatus::Established)),
        IoOutcome::Failed(e) => AfterRead::Finish(Err(e)),
    }
}

/// What the blocking server makes of the write of a message to a client:
/// a socket that is not ready skips the message, as if it went through.
pub fn send_message_result<E>(write: IoOutcome<E>) -> (res: Result<(), E>)
    ensures
        match write {
            IoOutcome::Failed(e) => res == Err::<(), E>(e),
            _ => res is Ok,
        },
{
    match write {
        IoOutcome::Failed(e) => Err(e),
        _ => Ok(()),
    }
}

/// What follows the write of the answer to a client: the connection stays
/// unless the write failed otherwise than by a socket that was not ready.
pub fn after_reply<E>(write: IoOutcome<E>) -> (status: Result<ConnectionStatus, E>)
    ensures
        match write {
            IoOutcome::Failed(e) => status == Err::<ConnectionStatus, E>(e),
            _ => status == Ok::<ConnectionStatus, E>(ConnectionStatus::Established),
        },
{
    match send_message_result(write) {
        Ok(()) => Ok(ConnectionStatus::Established),
        Err(e) => Err(e),
    }
}

/// Only a client still established stays; a client that closed or whose
/// serving failed is dropped. A client that stays keeps its place and the
/// pass moves on; a dropped one leaves the list, which loses exactly that
/// client, and its place is served next.
pub proof fn lemma_sweep_step<S, E>(clients: Seq<S>, index: int, e: E)
    requires
        0 <= index < clients.len(),
    ensures
        stays(Ok::<ConnectionStatus, E>(ConnectionStatus::Established)),
        !stays(Ok::<ConnectionStatus, E>(ConnectionStatus::Closed)),
        !stays(Err::<ConnectionStatus, E>(e)),
        sweep_step(clients, index, true) == (clients, index + 1),
        sweep_step(clients, index, false).1 == index,
        sweep_step(clients, index, false).0.len() == clients.len() - 1,
        sweep_step(clients, index, false).0.to_multiset() == clients.to_multiset().remove(
            clients[index],
        ),
{
    lemma_swap_removed_multiset(clients, index);
}

/// Dropping the client at `index` keeps every other client: the multiset of
/// clients loses exactly that one.
pub proof fn lemma_swap_removed_multiset<S>(clients: Seq<S>, index: int)
    requires
        0 <= index < clients.len(),
    ensures
        swap_removed(clients, index).to_multiset() == clients.to_multiset().remove(clients[index]),
{
    broadcast use vstd::seq_lib::group_to_multiset_ensures;

    let last = clients.len() - 1;
    let updated = clients.update(index, clients.last());
    assert(updated.drop_last() =~= updated.remove(last));
    if index == last {
        assert(updated.remove(last) =~= clients.remove(index));
    } else {
        // Both the replaced client and the moved last client leave the
        // multiset once: the updated list less its last slot is the list
        // less `clients[index]`.
        assert(updated.remove(index) =~= clients.remove(index));
        assert(updated[last] == updated[index]);
    }
}

proof fn lemma_prepend_multiset<S>(x: S, s: Seq<S>)
    ensures
        (seq![x] + s).to_multiset() == s.to_multiset().insert(x),
{
    broadcast use vstd::seq_lib::group_to_multiset_ensures;
    broadcast use vstd::multiset::group_multiset_axioms;

    vstd::seq_lib::lemma_multiset_commutative(seq![x], s);
    assert(seq![x] =~= Seq::<S>::empty().push(x));
    assert(Seq::<S>::empty().to_multiset() =~= vstd::multiset::Multiset::<S>::empty());
    assert(s.to_multiset().insert(x) =~= vstd::multiset::Multiset::<S>::empty().insert(x).add(s.to_multiset()));
}

/// The clients served by a pass that do not stay, in the order in which
/// they are served: those that `settle` hands back to be closed.
pub open spec fn sweep_dropped<S>(clients: Seq<S>, index: int, outcomes: Seq<bool>) -> Seq<S>
    decreases outcomes.len(),
{
    if outcomes.len() == 0 || index < 0 || index >= clients.len() {
        Seq::empty()
    } else {
        let (next_clients, next_index) = sweep_step(clients, index, outcomes[0]);
        let rest = sweep_dropped(next_clients, next_index, outcomes.drop_first());
        if outcomes[0] {
            rest
        } else {
            seq![clients[index]] + rest
        }
    }
}

/// One round of the blocking server: the clients accepted since the last
/// round join the end of the list, then a pass serves the whole list, each
/// client staying or not as `outcomes` says.
pub open spec fn server_round<S>(clients: Seq<S>, accepted: Seq<S>, outcomes: Seq<bool>) -> Seq<S> {
    sweep_clients(clients + accepted, 0, outcomes)
}

/// The client list after successive rounds, round `k` accepting
/// `accepted[k]` and serving with `outcomes[k]`.
pub open spec fn server_run<S>(
    clients: Seq<S>,
    accepted: Seq<Seq<S>>,
    outcomes: Seq<Seq<bool>>,
) -> Seq<S>
    decreases accepted.len(),
{
    if accepted.len() == 0 || outcomes.len() == 0 {
        clients
    } else {
        server_run(
            server_round(clients, accepted[0], outcomes[0]),
            accepted.drop_first(),
            outcomes.drop_first(),
        )
    }
}

/// Every client served by a pass either stays or is handed back: as
/// multisets, the served clients are the kept ones and the dropped ones.
pub proof fn lemma_sweep_split<S>(clients: Seq<S>, index: int, outcomes: Seq<bool>)
    ensures
        sweep_served(clients, index, outcomes).to_multiset() == sweep_kept(
            clients,
            index,
            outcomes,
        ).to_multiset().add(sweep_dropped(clients, index, outcomes).to_multiset()),
    decreases outcomes.len(),
{
    broadcast use vstd::seq_lib::group_to_multiset_ensures;
    broadcast use vstd::multiset::group_multiset_axioms;

    if outcomes.len() == 0 || index < 0 || index >= clients.len() {
        assert(Seq::<S>::empty().to_multiset() =~= vstd::multiset::Multiset::<S>::empty());
        assert(vstd::multiset::Multiset::<S>::empty().add(vstd::multiset::Multiset::<S>::empty())
            =~= vstd::multiset::Multiset::<S>::empty());
    } else {
        let x = clients[index];
        let (c, i) = sweep_step(clients, index, outcomes[0]);
        let rest = outcomes.drop_first();
        lemma_sweep_split(c, i, rest);
        lemma_prepend_multiset(x, sweep_served(c, i, rest));
        if outcomes[0] {
            lemma_prepend_multiset(x, sweep_kept(c, i, rest));
            assert(sweep_kept(c, i, rest).to_multiset().add(
                sweep_dropped(c, i, rest).to_multiset(),
            ).insert(x) =~= sweep_kept(c, i, rest).to_multiset().insert(x).add(
                sweep_dropped(c, i, rest).to_multiset(),
            ));
        } else {
            lemma_prepend_multiset(x, sweep_dropped(c, i, rest));
            assert(sweep_kept(c, i, rest).to_multiset().add(
                sweep_dropped(c, i, rest).to_multiset(),
            ).insert(x) =~= sweep_kept(c, i, rest).to_multiset().add(
                sweep_dropped(c, i, rest).to_multiset().insert(x),
            ));
        }
    }
}

/// A pass never brings in a client: whatever is in the list afterwards was
/// in it before.
pub proof fn lemma_sweep_only_keeps<S>(clients: Seq<S>, index: int, outcomes: Seq<bool>, x: S)
    requires
        sweep_clients(clients, index, outcomes).contains(x),
    ensures
        clients.contains(x),
    decreases outcomes.len(),
{
    if outcomes.len() == 0 || index < 0 || index >= clients.len() {
    } else {
        let (c, i) = sweep_step(clients, index, outcomes[0]);
        lemma_sweep_only_keeps(c, i, outcomes.drop_first(), x);
        if !outcomes[0] {
            let k = choose|k: int| 0 <= k < c.len() && c[k] == x;
            if k == index {
                assert(clients[clients.len() - 1] == x);
            } else {
                assert(clients[k] == x);
            }
        }
    }
}

/// A whole pass over a list without repeated clients leaves a list without
/// repeated clients, in which no client that the pass handed back remains.
pub proof fn lemma_sweep_drops_for_good<S>(clients: Seq<S>, outcomes: Seq<bool>, x: S)
    requires
        clients.no_duplicates(),
        outcomes.len() == clients.len(),
    ensures
        sweep_clients(clients, 0, outcomes).no_duplicates(),
        sweep_dropped(clients, 0, outcomes).contains(x) ==> !sweep_clients(
            clients,
            0,
            outcomes,
        ).contains(x),
{
    broadcast use vstd::seq_lib::group_to_multiset_ensures;
    broadcast use vstd::multiset::group_multiset_axioms;

    lemma_sweep(clients, 0, outcomes);
    lemma_sweep_split(clients, 0, outcomes);
    let f = sweep_clients(clients, 0, outcomes);
    assert(clients.subrange(0, clients.len() as int) =~= clients);
    assert(f.subrange(0, f.len() as int) =~= f);
    clients.lemma_multiset_has_no_duplicates();
    let kept = sweep_kept(clients, 0, outcomes).to_multiset();
    let dropped = sweep_dropped(clients, 0, outcomes).to_multiset();
    assert forall|y: S| f.to_multiset().contains(y) implies f.to_multiset().count(y) == 1 by {
        assert(clients.to_multiset().count(y) == kept.count(y) + dropped.count(y));
        assert(clients.to_multiset().count(y) > 0);
    }
    f.lemma_multiset_has_no_duplicates_conv();
    if sweep_dropped(clients, 0, outcomes).contains(x) {
        assert(dropped.count(x) > 0);
        assert(clients.to_multiset().count(x) > 0);
        assert(clients.to_multiset().count(x) == 1);
        assert(kept.count(x) == 0);
    }
}

/// A client that is neither in the list nor accepted in any of the
/// following rounds is in none of the lists those rounds leave.
pub proof fn lemma_server_run_keeps_out<S>(
    clients: Seq<S>,
    accepted: Seq<Seq<S>>,
    outcomes: Seq<Seq<bool>>,
    x: S,
)
    requires
        !clients.contains(x),
        forall|k: int| 0 <= k < accepted.len() ==> !(#[trigger] accepted[k]).contains(x),
    ensures
        !server_run(clients, accepted, outcomes).contains(x),
    decreases accepted.len(),
{
    if accepted.len() == 0 || outcomes.len() == 0 {
    } else {
        let joined = clients + accepted[0];
        assert(!joined.contains(x)) by {
            if joined.contains(x) {
                let k = choose|k: int| 0 <= k < joined.len() && joined[k] == x;
                if k < clients.len() {
                    assert(clients[k] == x);
                } else {
                    assert(accepted[0][k - clients.len()] == x);
                }
            }
        }
        if server_round(clients, accepted[0], outcomes[0]).contains(x) {
            lemma_sweep_only_keeps(joined, 0, outcomes[0], x);
        }
        let later = accepted.drop_first();
        assert forall|k: int| 0 <= k < later.len() implies !(#[trigger] later[k]).contains(x) by {
            assert(later[k] == accepted[k + 1]);
        }
        lemma_server_run_keeps_out(
            server_round(clients, accepted[0], outcomes[0]),
            later,
            outcomes.drop_first(),
            x,
        );
    }
}

/// A round serves only clients that were in the list or that it accepted:
/// with `lemma_server_run_keeps_out`, a client that no round accepted and
/// that was not in the list at the start is never served.
pub proof fn lemma_round_serves_only_listed<S>(
    clients: Seq<S>,
    accepted: Seq<S>,
    outcomes: Seq<bool>,
    x: S,
)
    requires
        outcomes.len() == clients.len() + accepted.len(),
        sweep_served(clients + accepted, 0, outcomes).contains(x),
    ensures
        clients.contains(x) || accepted.contains(x),
{
    broadcast use vstd::seq_lib::group_to_multiset_ensures;

    let joined = clients + accepted;
    lemma_sweep(joined, 0, outcomes);
    assert(joined.subrange(0, joined.len() as int) =~= joined);
    assert(joined.to_multiset().count(x) > 0);
    let k = choose|k: int| 0 <= k < joined.len() && joined[k] == x;
    if k < clients.len() {
        assert(clients[k] == x);
    } else {
        assert(accepted[k - clients.len()] == x);
    }
}

/// A client that a round of the blocking server hands back to be closed is
/// in none of the lists that round and the following rounds leave, unless
/// a later round accepts it again; the round's list, open descriptors all
/// different, is served in full.
pub proof fn lemma_handed_back_client_stays_out<S>(
    clients: Seq<S>,
    accepted: Seq<S>,
    outcomes: Seq<bool>,
    later_accepted: Seq<Seq<S>>,
    later_outcomes: Seq<Seq<bool>>,
    x: S,
)
    requires
        (clients + accepted).no_duplicates(),
        outcomes.len() == clients.len() + accepted.len(),
        sweep_dropped(clients + accepted, 0, outcomes).contains(x),
        forall|k: int| 0 <= k < later_accepted.len() ==> !(#[trigger] later_accepted[k]).contains(x),
    ensures
        !server_round(clients, accepted, outcomes).contains(x),
        !server_run(server_round(clients, accepted, outcomes), later_accepted, later_outcomes).contains(x),
{
    lemma_sweep_drops_for_good(clients + accepted, outcomes, x);
    lemma_server_run_keeps_out(
        server_round(clients, accepted, outcomes),
        later_accepted,
        later_outcomes,
        x,
    );
}

/// A whole pass over the clients, from `index` to the end of the list,
/// serves each client from `index` on exactly once and no other, keeps the
/// clients before `index` where they are, and leaves after them exactly the
/// served clients that stayed.
pub proof fn lemma_sweep<S>(clients: Seq<S>, index: int, outcomes: Seq<bool>)
    requires
        0 <= index <= clients.len(),
        outcomes.len() == clients.len() - index,
    ensures
        sweep_served(clients, index, outcomes).to_multiset() == clients.subrange(
            index,
            clients.len() as int,
        ).to_multiset(),
        sweep_clients(clients, index, outcomes).len() >= index,
        sweep_clients(clients, index, outcomes).subrange(0, index) == clients.subrange(0, index),
        sweep_clients(clients, index, outcomes).subrange(
            index,
            sweep_clients(clients, index, outcomes).len() as int,
        ).to_multiset() == sweep_kept(clients, index, outcomes).to_multiset(),
    decreases outcomes.len(),
{
    broadcast use vstd::seq_lib::group_to_multiset_ensures;

    if index == clients.len() {
        assert(clients.subrange(index, clients.len() as int) =~= Seq::<S>::empty());
        let f = sweep_clients(clients, index, outcomes);
        assert(f.subrange(index, f.len() as int) =~= Seq::<S>::empty());
        return;
    }
    let x = clients[index];
    let rest = outcomes.drop_first();
    let tail = clients.subrange(index, clients.len() as int);
    assert(tail =~= seq![x] + clients.subrange(index + 1, clients.len() as int));
    lemma_prepend_multiset(x, clients.subrange(index + 1, clients.len() as int));
    if outcomes[0] {
        lemma_sweep(clients, index + 1, rest);
        let f = sweep_clients(clients, index + 1, rest);
        assert(f.subrange(0, index) =~= f.subrange(0, index + 1).subrange(0, index));
        assert(clients.subrange(0, index) =~= clients.subrange(0, index + 1).subrange(0, index));
        assert(f[index] == f.subrange(0, index + 1)[index]);
        assert(f.subrange(index, f.len() as int) =~= seq![x] + f.subrange(index + 1, f.len() as int));
        lemma_prepend_multiset(x, f.subrange(index + 1, f.len() as int));
        lemma_prepend_multiset(x, sweep_kept(clients, index + 1, rest));
        lemma_prepend_multiset(x, sweep_served(clients, index + 1, rest));
    } else {
        let moved = swap_removed(clients, index);
        lemma_sweep(moved, index, rest);
        lemma_prepend_multiset(x, sweep_served(moved, index, rest));
        assert(moved.subrange(0, index) =~= clients.subrange(0, index));
        // The list from `index` on, after the swap, is the old list from
        // `index` on with its first client swapped out.
        assert(moved.subrange(index, moved.len() as int) =~= swap_removed(tail, 0));
        lemma_swap_removed_multiset(tail, 0);
        assert(tail.to_multiset().remove(x) =~= clients.subrange(
            index + 1,
            clients.len() as int,
        ).to_multiset()) by {
            broadcast use vstd::multiset::group_multiset_axioms;
        }
    }
}

} // verus!
