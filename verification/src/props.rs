//! Library-wide laws, stated and proved over the dispatcher's model.

use vstd::prelude::*;

use crate::action::encoded_request;
use crate::conn::{total_to_write, ClientView};
use crate::dispatch::{after_read, after_write, Echo};
use crate::urlinfo::UrlPartsView;

verus! {

/// The needle occurs in the haystack starting at index `i`.
pub open spec fn match_at(hay: Seq<char>, needle: Seq<char>, i: int) -> bool {
    &&& 0 <= i
    &&& i + needle.len() <= hay.len()
    &&& hay.subrange(i, i + needle.len()) == needle
}

/// Law (request markers): for url components whose path and host contain
/// neither `G` nor `H` — as the fixed header text does nowhere but in its
/// own markers — the encoded request contains `GET <path>` at exactly one
/// position and `Host: <host>` at exactly one position.
pub proof fn lemma_request_markers_once(u: UrlPartsView)
    requires
        forall|j: int| 0 <= j < u.path.len() ==> u.path[j] != 'G' && u.path[j] != 'H',
        forall|j: int| 0 <= j < u.host.len() ==> u.host[j] != 'G' && u.host[j] != 'H',
    ensures
        match_at(encoded_request(u), "GET "@ + u.path, 0),
        forall|i: int| match_at(encoded_request(u), "GET "@ + u.path, i) ==> i == 0,
        match_at(encoded_request(u), "Host: "@ + u.host, u.path.len() + 16int),
        forall|i: int|
            match_at(encoded_request(u), "Host: "@ + u.host, i) ==> i == u.path.len() + 16int,
{
    reveal_strlit("GET ");
    reveal_strlit("  HTTP/1.1\r\nHost: ");
    reveal_strlit("\r\nUser-Agent: curl/7.37.1\r\nAccept */*\r\n\r\n");
    reveal_strlit("Host: ");
    let a = "GET "@;
    let b = "  HTTP/1.1\r\nHost: "@;
    let c = "\r\nUser-Agent: curl/7.37.1\r\nAccept */*\r\n\r\n"@;
    let hm = "Host: "@;
    let e = encoded_request(u);
    let p = u.path.len() as int;
    let h = u.host.len() as int;
    assert(a.len() == 4);
    assert(b.len() == 18);
    assert(c.len() == 41);
    assert(hm.len() == 6);
    assert(e.len() == 63 + p + h);
    assert forall|i: int| 0 <= i < e.len() && e[i] == 'G' implies i == 0 by {
        if 4 <= i < 4 + p {
            assert(e[i] == u.path[i - 4]);
        } else if 4 + p <= i < 22 + p {
            assert(e[i] == b[i - 4 - p]);
        } else if 22 + p <= i < 22 + p + h {
            assert(e[i] == u.host[i - 22 - p]);
        } else if 22 + p + h <= i {
            assert(e[i] == c[i - 22 - p - h]);
        } else {
            assert(e[i] == a[i]);
        }
    }
    assert forall|i: int| 0 <= i < e.len() && e[i] == 'H' implies i == p + 6 || i == p + 16 by {
        if 4 <= i < 4 + p {
            assert(e[i] == u.path[i - 4]);
        } else if 4 + p <= i < 22 + p {
            assert(e[i] == b[i - 4 - p]);
        } else if 22 + p <= i < 22 + p + h {
            assert(e[i] == u.host[i - 22 - p]);
        } else if 22 + p + h <= i {
            assert(e[i] == c[i - 22 - p - h]);
        } else {
            assert(e[i] == a[i]);
        }
    }
    assert(match_at(e, a + u.path, 0)) by {
        assert(e.subrange(0, 4 + p) =~= a + u.path);
    }
    assert forall|i: int| match_at(e, a + u.path, i) implies i == 0 by {
        let n1 = a + u.path;
        assert(n1[0] == 'G');
        assert(e.subrange(i, i + n1.len())[0] == e[i]);
        assert(e[i] == 'G');
    }
    assert(match_at(e, hm + u.host, p + 16)) by {
        assert(e.subrange(p + 16, p + 22 + h) =~= hm + u.host);
    }
    assert forall|i: int| match_at(e, hm + u.host, i) implies i == p + 16 by {
        let n2 = hm + u.host;
        assert(n2[0] == 'H');
        assert(e.subrange(i, i + n2.len())[0] == e[i]);
        assert(e[i] == 'H');
        if i == p + 6 {
            assert(e.subrange(i, i + n2.len())[1] == e[i + 1]);
            assert(e[p + 7] == b[3]);
            assert(n2[1] == 'o');
        }
    }
}

/// Law: the identifier the next submission receives is never already in the
/// table, so every submission gets a fresh identifier and its own entry;
/// together with the submission contract, which hands out the counter and
/// then raises it, distinct submissions receive distinct identifiers.
pub proof fn lemma_next_id_is_fresh(e: Echo)
    requires
        e.inv(),
    ensures
        !e.table().dom().contains(e.next_id_spec()),
{
}

/// Law (isolation, insert): updating or adding the entry for one identifier
/// leaves every other connection's entry — its state, cursor and buffer —
/// exactly as it was.  Every dispatcher step that keeps a connection alive
/// changes the table by such an insert.
pub proof fn lemma_insert_isolated(t: Map<u64, ClientView>, id: u64, v: ClientView, other: u64)
    requires
        other != id,
    ensures
        t.insert(id, v).dom().contains(other) == t.dom().contains(other),
        t.dom().contains(other) ==> t.insert(id, v)[other] == t[other],
{
}

/// Law (isolation, remove): completing or failing one connection drops only
/// its own entry; every other connection's entry is exactly as it was.
/// Every dispatcher step that ends a connection changes the table by such a
/// remove.
pub proof fn lemma_remove_isolated(t: Map<u64, ClientView>, id: u64, other: u64)
    requires
        other != id,
    ensures
        t.remove(id).dom().contains(other) == t.dom().contains(other),
        t.dom().contains(other) ==> t.remove(id)[other] == t[other],
{
}

/// The concatenation of a sequence of chunks.
pub open spec fn concat_chunks(cs: Seq<Seq<u8>>) -> Seq<u8>
    decreases cs.len(),
{
    if cs.len() == 0 {
        Seq::empty()
    } else {
        cs.first() + concat_chunks(cs.drop_first())
    }
}

/// The connection `c` after the chunks `cs` arrive one readiness event at a
/// time, exactly as [`crate::dispatch::Echo::readable`] records them.
pub open spec fn conn_after_reads(c: ClientView, cs: Seq<Seq<u8>>) -> ClientView
    decreases cs.len(),
{
    if cs.len() == 0 {
        c
    } else {
        conn_after_reads(after_read(c, cs.first()), cs.drop_first())
    }
}

/// Law (no loss, no duplication): however the response is cut into chunks,
/// a connection that receives them one readiness event at a time ends with
/// its buffer holding its previous bytes followed by exactly the
/// concatenation of the chunks.  On peer close that buffer is what the
/// completion handle is fulfilled with.
pub proof fn lemma_reads_accumulate_exactly(c: ClientView, cs: Seq<Seq<u8>>)
    ensures
        conn_after_reads(c, cs).buffered == c.buffered + concat_chunks(cs),
    decreases cs.len(),
{
    if cs.len() == 0 {
        assert(c.buffered + concat_chunks(cs) =~= c.buffered);
    } else {
        lemma_reads_accumulate_exactly(after_read(c, cs.first()), cs.drop_first());
        assert((c.buffered + cs.first()) + concat_chunks(cs.drop_first()) =~= c.buffered + (
        cs.first() + concat_chunks(cs.drop_first())));
    }
}

/// The write cursor after one confirmation of `n` bytes, capped at the end
/// of the request, exactly as [`crate::dispatch::after_write`] moves it.
pub open spec fn advance_cap(len: nat, w: nat, n: nat) -> nat {
    if w + n <= len {
        (w + n) as nat
    } else {
        len
    }
}

/// The write cursor after a sequence of confirmed write sizes.
pub open spec fn cursor_after(len: nat, w: nat, ns: Seq<nat>) -> nat
    decreases ns.len(),
{
    if ns.len() == 0 {
        w
    } else {
        cursor_after(len, advance_cap(len, w, ns.first()), ns.drop_first())
    }
}

/// The bytes the socket receives over a sequence of confirmed write sizes:
/// at each step the dispatcher hands out the bytes from the cursor on, the
/// socket takes the next `n` of them, and the cursor advances by exactly
/// those `n`.
pub open spec fn pieces_after(bytes: Seq<u8>, w: nat, ns: Seq<nat>) -> Seq<u8>
    decreases ns.len(),
{
    if ns.len() == 0 {
        Seq::empty()
    } else {
        bytes.subrange(w as int, advance_cap(bytes.len(), w, ns.first()) as int) + pieces_after(
            bytes,
            advance_cap(bytes.len(), w, ns.first()),
            ns.drop_first(),
        )
    }
}

/// Law (partial writes): whatever sizes the socket accepts per write call,
/// the bytes it receives are exactly one contiguous stretch of the request,
/// from the starting cursor to the final one — no byte repeated, none
/// skipped.
pub proof fn lemma_partial_writes_cover(bytes: Seq<u8>, w: nat, ns: Seq<nat>)
    requires
        w <= bytes.len(),
    ensures
        w <= cursor_after(bytes.len(), w, ns) <= bytes.len(),
        bytes.subrange(0, w as int) + pieces_after(bytes, w, ns) == bytes.subrange(
            0,
            cursor_after(bytes.len(), w, ns) as int,
        ),
    decreases ns.len(),
{
    if ns.len() == 0 {
        assert(bytes.subrange(0, w as int) + pieces_after(bytes, w, ns) =~= bytes.subrange(
            0,
            w as int,
        ));
    } else {
        let w1 = advance_cap(bytes.len(), w, ns.first());
        lemma_partial_writes_cover(bytes, w1, ns.drop_first());
        assert(bytes.subrange(0, w as int) + bytes.subrange(w as int, w1 as int) =~= bytes.subrange(
            0,
            w1 as int,
        ));
        assert(bytes.subrange(0, w as int) + pieces_after(bytes, w, ns) =~= (bytes.subrange(
            0,
            w as int,
        ) + bytes.subrange(w as int, w1 as int)) + pieces_after(bytes, w1, ns.drop_first()));
    }
}

/// The dispatcher's write step moves the cursor exactly as the write law's
/// [`advance_cap`] does, and turns the connection to await the response
/// precisely when the cursor reaches the end of the request.
pub proof fn lemma_after_write_matches_advance(c: ClientView, n: nat)
    ensures
        after_write(c, n).written == advance_cap(total_to_write(c), c.written, n),
        after_write(c, n).state is AwaitingRead <==> after_write(c, n).written == total_to_write(
            c,
        ),
{
}

/// Law (partial writes, whole request): once the cursor has reached the end
/// of the request — the condition under which the dispatcher turns the
/// connection to await the response — the socket has received the complete
/// request, each byte exactly once.
pub proof fn lemma_full_write_exact(bytes: Seq<u8>, ns: Seq<nat>)
    requires
        cursor_after(bytes.len(), 0, ns) == bytes.len(),
    ensures
        pieces_after(bytes, 0, ns) == bytes,
{
    lemma_partial_writes_cover(bytes, 0, ns);
    assert(bytes.subrange(0, 0) + pieces_after(bytes, 0, ns) =~= pieces_after(bytes, 0, ns));
    assert(bytes.subrange(0, bytes.len() as int) =~= bytes);
}

} // verus!
