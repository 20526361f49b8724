//! The event dispatcher: a single-threaded, readiness-driven state machine
//! over the connection table.
//!
//! The dispatcher itself performs no socket work.  The surrounding event
//! loop calls [`Echo::notify`] with each submitted URL, performs the
//! resolution, connect, write and read it is asked for, and feeds every
//! outcome back through [`Echo::connected`], [`Echo::writable`],
//! [`Echo::wrote`], [`Echo::readable`] and [`Echo::io_failed`].  Each entry
//! point says exactly how the table changes; entries for other identifiers
//! are never touched, so no connection's failure or progress can affect
//! another's.

use std::collections::HashMap;

use vstd::prelude::*;
use vstd::string::StrSliceExecFns;

use crate::action::{body, encoded_bytes, HttpAction, HttpActionView};
use crate::conn::{conn_wf, total_to_write, ClientInfo, ClientView, ConnState, FetchError};
use crate::urlinfo::{parse_url, url_parts_spec, UrlPartsView};

verus! {

broadcast use vstd::std_specs::hash::group_hash_axioms;

/// What the loop is asked to do after a successful submission: resolve
/// `host`, open a non-blocking connection to it on `port`, and report the
/// outcome for connection `id` through [`Echo::connected`].
pub struct ConnectRequest {
    pub id: u64,
    pub host: String,
    pub port: u16,
}

/// The outcome of the resolve-and-connect step performed by the loop.
pub enum ConnectOutcome {
    /// A socket is open and registered for readiness under the identifier.
    Success,
    /// The host resolved to no address.
    NoAddress,
    /// The connection could not be opened.
    Failed,
}

/// The outcome of one non-blocking read performed by the loop.
pub enum ReadOutcome {
    /// The read returned these bytes.
    Data(Vec<u8>),
    /// The read reported the peer closed the connection.
    Closed,
}

/// The connection `c` after its lifecycle state changes to `s`.
pub open spec fn with_state(c: ClientView, s: ConnState) -> ClientView {
    ClientView { state: s, ..c }
}

/// The connection `c` after `n` more request bytes are confirmed written:
/// the cursor advances by `n`, capped at the end of the request, and the
/// connection awaits the response once the whole request is out.
pub open spec fn after_write(c: ClientView, n: nat) -> ClientView {
    let w = if c.written + n <= total_to_write(c) {
        c.written + n
    } else {
        total_to_write(c)
    };
    ClientView {
        written: w,
        state: if w == total_to_write(c) {
            ConnState::AwaitingRead
        } else {
            ConnState::Writing
        },
        ..c
    }
}

/// The connection `c` after the bytes `d` arrive: they are appended to the
/// accumulation buffer, and a connection that awaited the response is now
/// reading it.
pub open spec fn after_read(c: ClientView, d: Seq<u8>) -> ClientView {
    ClientView {
        buffered: c.buffered + d,
        state: if c.state is AwaitingRead {
            ConnState::Reading
        } else {
            c.state
        },
        ..c
    }
}

/// The freshly inserted connection for url components `p`: connecting, with
/// an empty buffer and nothing written.
pub open spec fn fresh_conn(p: (Seq<char>, Seq<char>, u16)) -> ClientView {
    ClientView {
        action: HttpActionView::Get(UrlPartsView { host: p.0, path: p.1, port: p.2 }),
        state: ConnState::Connecting,
        buffered: Seq::empty(),
        written: 0,
    }
}

/// Every registered identifier was allocated below the counter, and every
/// connection is well formed.
pub open spec fn table_inv(t: Map<u64, ClientView>, next_id: u64) -> bool {
    &&& forall|k: u64| #[trigger] t.dom().contains(k) ==> k < next_id
    &&& forall|k: u64| #[trigger] t.dom().contains(k) ==> conn_wf(t[k])
}

/// Removing any entry preserves the table invariant.
pub proof fn lemma_table_inv_remove(t: Map<u64, ClientView>, next_id: u64, k: u64)
    requires
        table_inv(t, next_id),
    ensures
        table_inv(t.remove(k), next_id),
{
}

/// Inserting a well-formed entry under an allocated identifier preserves
/// the table invariant.
pub proof fn lemma_table_inv_insert(t: Map<u64, ClientView>, next_id: u64, k: u64, v: ClientView)
    requires
        table_inv(t, next_id),
        k < next_id,
        conn_wf(v),
    ensures
        table_inv(t.insert(k, v), next_id),
{
}

/// The event dispatcher: owns the connection table and the identifier
/// counter.  One instance serves all in-flight fetches.
pub struct Echo {
    pub client_info: HashMap<u64, ClientInfo>,
    pub next_id: u64,
}

impl Echo {
    /// The table as a map from identifier to connection value.
    pub open spec fn table(&self) -> Map<u64, ClientView> {
        self.client_info@.map_values(|c: ClientInfo| c@)
    }

    /// The identifier the next submission will receive.
    pub open spec fn next_id_spec(&self) -> u64 {
        self.next_id
    }

    /// The dispatcher invariant: every registered identifier was allocated
    /// below the counter, and every connection is well formed.
    pub open spec fn inv(&self) -> bool {
        table_inv(self.table(), self.next_id)
    }

    pub fn new() -> (e: Echo)
        ensures
            e.inv(),
            e.table() == Map::<u64, ClientView>::empty(),
            e.next_id_spec() == 0,
    {
        let e = Echo { client_info: HashMap::new(), next_id: 0 };
        proof {
            assert(e.table() =~= Map::<u64, ClientView>::empty());
        }
        e
    }

    /// The number of in-flight connections.
    pub fn len(&self) -> (n: usize)
        ensures
            n == self.table().len(),
    {
        proof {
            lemma_map_values_dom(self.client_info@);
        }
        self.client_info.len()
    }

    /// Whether a further submission can still receive a fresh identifier.
    /// Exhausting the 64-bit identifier space is unreachable in practice,
    /// but callers test this before submitting.
    pub fn has_capacity(&self) -> (b: bool)
        ensures
            b == (self.next_id_spec() < u64::MAX),
    {
        self.next_id < u64::MAX
    }

    /// Submit a fetch: parse the URL and either register a fresh connection
    /// and hand back the resolve-and-connect work, or fulfill the handle
    /// with a parse failure and change nothing.
    pub fn notify(
        &mut self,
        url_s: &str,
        complete: eventual::Complete<Box<Vec<u8>>, &'static str>,
    ) -> (r: Option<ConnectRequest>)
        requires
            old(self).inv(),
            old(self).next_id_spec() < u64::MAX,
        ensures
            final(self).inv(),
            r is Some <==> url_parts_spec(url_s@) is Some,
            (r matches Some(req) ==> {
                &&& req.id == old(self).next_id_spec()
                &&& !old(self).table().dom().contains(req.id)
                &&& url_parts_spec(url_s@) matches Some(p) && req.host@ == p.0 && req.port == p.2
                    && final(self).table() == old(self).table().insert(req.id, fresh_conn(p))
                &&& final(self).next_id_spec() == old(self).next_id_spec() + 1
            }),
            (r is None ==> final(self).table() == old(self).table() && final(self).next_id_spec()
                == old(self).next_id_spec()),
    {
        match parse_url(url_s) {
            None => {
                crate::conn::fail_complete(complete, FetchError::Parse.reason());
                None
            },
            Some(parts) => {
                let ghost gv = fresh_conn((parts.host@, parts.path@, parts.port));
                let id = self.next_id;
                self.next_id = id + 1;
                let host = parts.host.clone();
                let port = parts.port;
                let info = ClientInfo {
                    action: HttpAction::Get(parts),
                    complete,
                    mut_buf: Vec::new(),
                    state: ConnState::Connecting,
                    written: 0,
                };
                proof {
                    lemma_map_values_dom(self.client_info@);
                    lemma_map_values_insert(self.client_info@, id, info);
                }
                self.client_info.insert(id, info);
                proof {
                    assert(self.table() =~= old(self).table().insert(id, gv));
                    assert forall|k: u64| self.table().dom().contains(k) implies k
                        < self.next_id by {}
                    assert forall|k: u64| self.table().dom().contains(k) implies conn_wf(
                        self.table()[k],
                    ) by {
                        if k != id {
                            assert(old(self).table().dom().contains(k));
                        } else {
                            assert(conn_wf(gv));
                        }
                    }
                }
                Some(ConnectRequest { id, host, port })
            },
        }
    }

    /// Record the outcome of the resolve-and-connect step for `id`.  On
    /// success the connection waits for the socket to become writable; on
    /// failure its handle is fulfilled with the failure kind and its entry
    /// is dropped, and no other entry changes.  An unknown identifier or a
    /// connection past `Connecting` is left untouched: a stale notification
    /// is a no-op, never a fault.
    pub fn connected(&mut self, id: u64, outcome: ConnectOutcome)
        requires
            old(self).inv(),
        ensures
            final(self).inv(),
            final(self).next_id_spec() == old(self).next_id_spec(),
            (!old(self).table().dom().contains(id) || !(old(self).table()[id].state is Connecting))
                ==> final(self).table() == old(self).table(),
            (old(self).table().dom().contains(id) && old(self).table()[id].state is Connecting)
                ==> final(self).table() == (match outcome {
                ConnectOutcome::Success => old(self).table().insert(
                    id,
                    with_state(old(self).table()[id], ConnState::AwaitingWrite),
                ),
                ConnectOutcome::NoAddress => old(self).table().remove(id),
                ConnectOutcome::Failed => old(self).table().remove(id),
            }),
    {
        proof {
            lemma_map_values_dom(self.client_info@);
            lemma_map_values_remove(self.client_info@, id);
        }
        match self.client_info.remove(&id) {
            None => {
                proof {
                    assert(self.table() =~= old(self).table());
                }
            },
            Some(mut info) => {
                proof {
                    assert(old(self).table()[id] == info@);
                }
                match info.state {
                    ConnState::Connecting => {
                        match outcome {
                            ConnectOutcome::Success => {
                                info.state = ConnState::AwaitingWrite;
                                proof {
                                    lemma_map_values_insert(self.client_info@, id, info);
                                }
                                self.client_info.insert(id, info);
                                proof {
                                    let t0 = old(self).table();
                                    assert(self.table() =~= t0.insert(
                                        id,
                                        with_state(t0[id], ConnState::AwaitingWrite),
                                    ));
                                    lemma_table_inv_insert(
                                        t0,
                                        self.next_id,
                                        id,
                                        with_state(t0[id], ConnState::AwaitingWrite),
                                    );
                                }
                            },
                            ConnectOutcome::NoAddress => {
                                info.fail(FetchError::Resolution);
                                proof {
                                    lemma_table_inv_remove(old(self).table(), self.next_id, id);
                                }
                            },
                            ConnectOutcome::Failed => {
                                info.fail(FetchError::Connect);
                                proof {
                                    lemma_table_inv_remove(old(self).table(), self.next_id, id);
                                }
                            },
                        }
                    },
                    _ => {
                        proof {
                            lemma_map_values_insert(self.client_info@, id, info);
                        }
                        self.client_info.insert(id, info);
                        proof {
                            assert(self.table() =~= old(self).table());
                        }
                    },
                }
            },
        }
    }

    /// The socket for `id` became writable: hand back the request bytes
    /// still to send, from the write cursor to the end, and mark the
    /// connection as writing.  `None`, with nothing changed, when the
    /// identifier is unknown or the connection is not in a writing state.
    pub fn writable(&mut self, id: u64) -> (r: Option<Vec<u8>>)
        requires
            old(self).inv(),
        ensures
            final(self).inv(),
            final(self).next_id_spec() == old(self).next_id_spec(),
            r is Some <==> (old(self).table().dom().contains(id) && (old(self).table()[id].state
                is AwaitingWrite || old(self).table()[id].state is Writing)),
            (r matches Some(v) ==> v@ == encoded_bytes(old(self).table()[id].action).skip(
                old(self).table()[id].written as int,
            ) && final(self).table() == old(self).table().insert(
                id,
                with_state(old(self).table()[id], ConnState::Writing),
            )),
            (r is None ==> final(self).table() == old(self).table()),
    {
        proof {
            lemma_map_values_dom(self.client_info@);
            lemma_map_values_remove(self.client_info@, id);
        }
        match self.client_info.remove(&id) {
            None => {
                proof {
                    assert(self.table() =~= old(self).table());
                }
                None
            },
            Some(mut info) => {
                proof {
                    assert(old(self).table()[id] == info@);
                }
                match info.state {
                    ConnState::AwaitingWrite | ConnState::Writing => {
                        let s = body(&info.action);
                        let bytes = s.as_str().as_bytes_vec();
                        proof {
                            assert(bytes@ == encoded_bytes(info@.action));
                            assert(conn_wf(info@));
                        }
                        let mut out: Vec<u8> = Vec::new();
                        let mut i: usize = info.written;
                        while i < bytes.len()
                            invariant
                                info.written <= i <= bytes.len(),
                                out@ == bytes@.subrange(info.written as int, i as int),
                            decreases bytes.len() - i,
                        {
                            let b = bytes[i];
                            out.push(b);
                            i = i + 1;
                        }
                        info.state = ConnState::Writing;
                        proof {
                            lemma_map_values_insert(self.client_info@, id, info);
                        }
                        self.client_info.insert(id, info);
                        proof {
                            let t0 = old(self).table();
                            assert(out@ =~= encoded_bytes(t0[id].action).skip(
                                t0[id].written as int,
                            ));
                            assert(self.table() =~= t0.insert(
                                id,
                                with_state(t0[id], ConnState::Writing),
                            ));
                            lemma_table_inv_insert(
                                t0,
                                self.next_id,
                                id,
                                with_state(t0[id], ConnState::Writing),
                            );
                        }
                        Some(out)
                    },
                    _ => {
                        proof {
                            lemma_map_values_insert(self.client_info@, id, info);
                        }
                        self.client_info.insert(id, info);
                        proof {
                            assert(self.table() =~= old(self).table());
                        }
                        None
                    },
                }
            },
        }
    }

    /// The loop confirmed that `n` more bytes of the request for `id` went
    /// out.  The write cursor advances by exactly `n`, capped at the end of
    /// the request, so no byte is ever skipped or sent twice; once the
    /// whole request is confirmed out the connection turns to await the
    /// response.  Meaningful only for a connection that is writing; any
    /// other identifier is left untouched.
    pub fn wrote(&mut self, id: u64, n: usize)
        requires
            old(self).inv(),
        ensures
            final(self).inv(),
            final(self).next_id_spec() == old(self).next_id_spec(),
            (!old(self).table().dom().contains(id) || !(old(self).table()[id].state is Writing))
                ==> final(self).table() == old(self).table(),
            (old(self).table().dom().contains(id) && old(self).table()[id].state is Writing)
                ==> final(self).table() == old(self).table().insert(
                id,
                after_write(old(self).table()[id], n as nat),
            ),
    {
        proof {
            lemma_map_values_dom(self.client_info@);
            lemma_map_values_remove(self.client_info@, id);
        }
        match self.client_info.remove(&id) {
            None => {
                proof {
                    assert(self.table() =~= old(self).table());
                }
            },
            Some(mut info) => {
                proof {
                    assert(old(self).table()[id] == info@);
                }
                match info.state {
                    ConnState::Writing => {
                        let s = body(&info.action);
                        let total = s.as_str().as_bytes_vec().len();
                        proof {
                            assert(total == total_to_write(info@));
                            assert(conn_wf(info@));
                        }
                        let rem = total - info.written;
                        let adv = if n < rem {
                            n
                        } else {
                            rem
                        };
                        info.written = info.written + adv;
                        if info.written == total {
                            info.state = ConnState::AwaitingRead;
                        }
                        proof {
                            assert(info@ == after_write(old(self).table()[id], n as nat));
                            lemma_map_values_insert(self.client_info@, id, info);
                        }
                        self.client_info.insert(id, info);
                        proof {
                            let t0 = old(self).table();
                            assert(self.table() =~= t0.insert(id, after_write(t0[id], n as nat)));
                            lemma_table_inv_insert(
                                t0,
                                self.next_id,
                                id,
                                after_write(t0[id], n as nat),
                            );
                        }
                    },
                    _ => {
                        proof {
                            lemma_map_values_insert(self.client_info@, id, info);
                        }
                        self.client_info.insert(id, info);
                        proof {
                            assert(self.table() =~= old(self).table());
                        }
                    },
                }
            },
        }
    }

    /// A read outcome arrived for `id`.  Bytes are appended to the
    /// accumulation buffer, which only ever grows until the terminal event.
    /// A peer close is the terminal event: the entry leaves the table and
    /// the handle is fulfilled with exactly the accumulated bytes.  The
    /// result says whether the connection completed.  An unknown identifier
    /// is a no-op: a stale readiness notification is not a fault.
    pub fn readable(&mut self, id: u64, outcome: ReadOutcome) -> (completed: bool)
        requires
            old(self).inv(),
        ensures
            final(self).inv(),
            final(self).next_id_spec() == old(self).next_id_spec(),
            !old(self).table().dom().contains(id) ==> final(self).table() == old(self).table()
                && !completed,
            old(self).table().dom().contains(id) ==> (match outcome {
                ReadOutcome::Data(d) => final(self).table() == old(self).table().insert(
                    id,
                    after_read(old(self).table()[id], d@),
                ) && !completed,
                ReadOutcome::Closed => final(self).table() == old(self).table().remove(id)
                    && completed,
            }),
    {
        proof {
            lemma_map_values_dom(self.client_info@);
            lemma_map_values_remove(self.client_info@, id);
        }
        match self.client_info.remove(&id) {
            None => {
                proof {
                    assert(self.table() =~= old(self).table());
                }
                false
            },
            Some(mut info) => {
                proof {
                    assert(old(self).table()[id] == info@);
                }
                match outcome {
                    ReadOutcome::Data(d) => {
                        info.add_to_buffer(d);
                        match info.state {
                            ConnState::AwaitingRead => {
                                info.state = ConnState::Reading;
                            },
                            _ => {},
                        }
                        proof {
                            assert(info@ == after_read(old(self).table()[id], d@));
                            lemma_map_values_insert(self.client_info@, id, info);
                        }
                        self.client_info.insert(id, info);
                        proof {
                            let t0 = old(self).table();
                            assert(self.table() =~= t0.insert(id, after_read(t0[id], d@)));
                            lemma_table_inv_insert(t0, self.next_id, id, after_read(t0[id], d@));
                        }
                        false
                    },
                    ReadOutcome::Closed => {
                        info.complete();
                        proof {
                            lemma_table_inv_remove(old(self).table(), self.next_id, id);
                        }
                        true
                    },
                }
            },
        }
    }

    /// A read or write on the socket for `id` failed.  The failure is
    /// confined to that connection: its handle is fulfilled with the I/O
    /// failure kind and its entry leaves the table, and no other entry
    /// changes.  An unknown identifier is a no-op.
    pub fn io_failed(&mut self, id: u64)
        requires
            old(self).inv(),
        ensures
            final(self).inv(),
            final(self).next_id_spec() == old(self).next_id_spec(),
            !old(self).table().dom().contains(id) ==> final(self).table() == old(self).table(),
            old(self).table().dom().contains(id) ==> final(self).table() == old(self).table().remove(
                id,
            ),
    {
        proof {
            lemma_map_values_dom(self.client_info@);
            lemma_map_values_remove(self.client_info@, id);
        }
        match self.client_info.remove(&id) {
            None => {
                proof {
                    assert(self.table() =~= old(self).table());
                }
            },
            Some(info) => {
                info.fail(FetchError::Io);
                proof {
                    lemma_table_inv_remove(old(self).table(), self.next_id, id);
                }
            },
        }
    }
}

/// The domain of the value-mapped table is the domain of the table.
pub proof fn lemma_map_values_dom(m: Map<u64, ClientInfo>)
    ensures
        m.map_values(|c: ClientInfo| c@).dom() =~= m.dom(),
        m.map_values(|c: ClientInfo| c@).len() == m.len(),
{
    assert(m.map_values(|c: ClientInfo| c@).dom() =~= m.dom());
}

/// Mapping values commutes with inserting an entry.
pub proof fn lemma_map_values_insert(m: Map<u64, ClientInfo>, k: u64, v: ClientInfo)
    ensures
        m.insert(k, v).map_values(|c: ClientInfo| c@) =~= m.map_values(|c: ClientInfo| c@).insert(
            k,
            v@,
        ),
{
}

/// Mapping values commutes with removing an entry.
pub proof fn lemma_map_values_remove(m: Map<u64, ClientInfo>, k: u64)
    ensures
        m.remove(k).map_values(|c: ClientInfo| c@) =~= m.map_values(|c: ClientInfo| c@).remove(k),
{
}

} // verus!
