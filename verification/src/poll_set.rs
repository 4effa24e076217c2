//! The list of file descriptors that the poll servers watch.
use crate::vfs::ConnectionStatus;
use vstd::prelude::*;

verus! {

/// One watched file descriptor: what to wait for (`events`) and what the
/// last poll reported (`revents`), as in the system's `pollfd`.
#[derive(Clone, Copy, Debug, PartialEq, Eq, Structural)]
pub struct PollFd {
    pub fd: i32,
    pub events: i16,
    pub revents: i16,
}

/// The `POLLIN` flag: there is data to read.
pub open spec fn pollin() -> i16 {
    1
}

/// `libc::POLLIN`, which the libc crate defines as `0x1` on every Unix
/// target the servers run on.
#[verifier::external_body]
fn libc_pollin() -> (flag: i16)
    ensures
        flag == pollin(),
{
    libc::POLLIN
}

/// Whether the last poll reported data to read on `entry`.
pub open spec fn is_readable(entry: PollFd) -> bool {
    entry.revents & pollin() != 0
}

/// A watch for data to read on `fd`, with nothing reported yet.
pub fn create_pool_fd(fd: i32) -> (entry: PollFd)
    ensures
        entry == (PollFd { fd, events: pollin(), revents: 0 }),
{
    PollFd { fd, events: libc_pollin(), revents: 0 }
}

/// Adds a watch for `events` on `fd` at the end of `fds`.
pub fn register_pollfd(fds: &mut Vec<PollFd>, fd: i32, events: i16)
    ensures
        final(fds)@ == old(fds)@.push(PollFd { fd, events, revents: 0 }),
{
    fds.push(PollFd { fd, events, revents: 0 });
}

/// The entries of `fds` on which the last poll reported data to read, in
/// their order.
pub fn readable(fds: &Vec<PollFd>) -> (ready: Vec<PollFd>)
    ensures
        ready@ == fds@.filter(|entry: PollFd| is_readable(entry)),
{
    let pollin_flag = libc_pollin();
    let mut ready: Vec<PollFd> = Vec::new();
    let mut i: usize = 0;
    while i < fds.len()
        invariant
            pollin_flag == pollin(),
            i <= fds@.len(),
            ready@ == fds@.take(i as int).filter(|entry: PollFd| is_readable(entry)),
        decreases fds@.len() - i,
    {
        let entry = fds[i];
        proof {
            assert(fds@.take(i as int + 1) =~= fds@.take(i as int).push(entry));
            fds@.take(i as int).lemma_filter_push(entry, |e: PollFd| is_readable(e));
        }
        if entry.revents & pollin_flag != 0 {
            ready.push(entry);
        }
        i = i + 1;
    }
    assert(fds@.take(fds@.len() as int) =~= fds@);
    ready
}

/// Stops watching `fd`: removes every entry for it and keeps the others in
/// their order.
pub fn remove_fd(fds: &mut Vec<PollFd>, fd: i32)
    ensures
        final(fds)@ == old(fds)@.filter(|entry: PollFd| entry.fd != fd),
{
    let mut kept: Vec<PollFd> = Vec::new();
    let mut i: usize = 0;
    while i < fds.len()
        invariant
            i <= fds@.len(),
            fds@ == old(fds)@,
            kept@ == fds@.take(i as int).filter(|entry: PollFd| entry.fd != fd),
        decreases fds@.len() - i,
    {
        let entry = fds[i];
        proof {
            assert(fds@.take(i as int + 1) =~= fds@.take(i as int).push(entry));
            fds@.take(i as int).lemma_filter_push(entry, |e: PollFd| e.fd != fd);
        }
        if entry.fd != fd {
            kept.push(entry);
        }
        i = i + 1;
    }
    assert(fds@.take(fds@.len() as int) =~= fds@);
    *fds = kept;
}

/// Records how serving the client `fd` ended: unless it is still
/// established, it stops being watched, and the result says that its file
/// descriptor must be closed.
pub fn settle_client<E>(fds: &mut Vec<PollFd>, fd: i32, status: &Result<ConnectionStatus, E>) -> (close: bool)
    ensures
        close == !(status matches Ok(ConnectionStatus::Established)),
        close ==> final(fds)@ == old(fds)@.filter(|entry: PollFd| entry.fd != fd),
        !close ==> final(fds)@ == old(fds)@,
{
    match status {
        Ok(ConnectionStatus::Established) => false,
        _ => {
            remove_fd(fds, fd);
            true
        },
    }
}

/// An entry is readable exactly when the lowest bit of what the poll
/// reported, the `POLLIN` bit, is set.
pub proof fn lemma_is_readable(entry: PollFd)
    ensures
        is_readable(entry) <==> (entry.revents & 1i16) == 1i16,
        pollin() == 1,
{
    let r = entry.revents;
    assert((r & 1i16 != 0i16) <==> (r & 1i16 == 1i16)) by (bit_vector);
}

/// After `fd` stops being watched, an entry remains exactly when it was
/// there before and watches another file descriptor.
pub proof fn lemma_remove_fd_entries(fds: Seq<PollFd>, fd: i32, entry: PollFd)
    ensures
        fds.filter(|e: PollFd| e.fd != fd).contains(entry) <==> (fds.contains(entry) && entry.fd
            != fd),
{
    broadcast use vstd::seq_lib::group_filter_ensures;

    let kept = fds.filter(|e: PollFd| e.fd != fd);
    if fds.contains(entry) && entry.fd != fd {
        let i = choose|i: int| 0 <= i < fds.len() && fds[i] == entry;
        assert(kept.contains(fds[i]));
    }
    if kept.contains(entry) {
        lemma_kept_entries_were_there(fds, fd, entry);
    }
}

proof fn lemma_kept_entries_were_there(fds: Seq<PollFd>, fd: i32, entry: PollFd)
    requires
        fds.filter(|e: PollFd| e.fd != fd).contains(entry),
    ensures
        fds.contains(entry),
    decreases fds.len(),
{
    let pred = |e: PollFd| e.fd != fd;
    if fds.len() == 0 {
        reveal(Seq::filter);
        assert(fds.filter(pred) =~= Seq::<PollFd>::empty());
    } else {
        let rest = fds.drop_last();
        assert(rest.push(fds.last()) =~= fds);
        rest.lemma_filter_push(fds.last(), pred);
        if entry != fds.last() {
            let kept = fds.filter(pred);
            let j = choose|j: int| 0 <= j < kept.len() && kept[j] == entry;
            if pred(fds.last()) {
                assert(rest.filter(pred)[j] == entry);
            } else {
                assert(rest.filter(pred)[j] == entry);
            }
            lemma_kept_entries_were_there(rest, fd, entry);
            assert(rest.contains(entry));
            let k = choose|k: int| 0 <= k < rest.len() && rest[k] == entry;
            assert(fds[k] == entry);
        } else {
            assert(fds[fds.len() - 1] == entry);
        }
    }
}

} // verus!
