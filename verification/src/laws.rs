//! What holds of the frame assembler's transitions, whatever the packets.

use vstd::prelude::*;
use crate::frame::{FrameRole, FrameView, PacketView};
use crate::integrity::checksum_bytes;
use crate::transition::{
    closing_payload, end_body, end_valid, entry_at, entry_index, failures, grown, has_entry, opened, outcome,
    outcome_given, run, same_key, step, step_given, unique_keys, whole, Fifos, IntegrityError, Outcome,
};

verus! {

/// Where keys are unique, an entry with the key is the entry with the key.
pub proof fn lemma_entry_found(s: Seq<FrameView>, xid: u32, port_id: u16, i: int)
    requires
        unique_keys(s),
        entry_at(s, xid, port_id, i),
    ensures
        has_entry(s, xid, port_id),
        entry_index(s, xid, port_id) == i,
{
    let j = entry_index(s, xid, port_id);
    assert(entry_at(s, xid, port_id, j));
    if i < j {
        assert(!same_key(s[i], s[j]));
    } else if j < i {
        assert(!same_key(s[j], s[i]));
    }
}

/// Removing an entry keeps the keys unique, and leaves none with its key.
pub proof fn lemma_remove_keeps_unique(s: Seq<FrameView>, i: int)
    requires
        unique_keys(s),
        0 <= i < s.len(),
    ensures
        unique_keys(s.remove(i)),
        !has_entry(s.remove(i), s[i].xid, s[i].props.port_id),
{
    let r = s.remove(i);
    assert forall|a: int, b: int| 0 <= a < b < r.len() implies !same_key(
        #[trigger] r[a],
        #[trigger] r[b],
    ) by {
        let a0 = if a < i { a } else { a + 1 };
        let b0 = if b < i { b } else { b + 1 };
        assert(r[a] == s[a0] && r[b] == s[b0]);
        assert(!same_key(s[a0], s[b0]));
    }
    assert forall|a: int| !entry_at(r, s[i].xid, s[i].props.port_id, a) by {
        if 0 <= a < r.len() {
            let a0 = if a < i { a } else { a + 1 };
            assert(r[a] == s[a0]);
            if a0 < i {
                assert(!same_key(s[a0], s[i]));
            } else {
                assert(!same_key(s[i], s[a0]));
            }
        }
    }
}

/// Adding an entry whose key is not yet there keeps the keys unique.
pub proof fn lemma_push_keeps_unique(s: Seq<FrameView>, f: FrameView)
    requires
        unique_keys(s),
        !has_entry(s, f.xid, f.props.port_id),
    ensures
        unique_keys(s.push(f)),
{
    let r = s.push(f);
    assert forall|a: int, b: int| 0 <= a < b < r.len() implies !same_key(
        #[trigger] r[a],
        #[trigger] r[b],
    ) by {
        if b < s.len() {
            assert(!same_key(s[a], s[b]));
        } else {
            assert(!entry_at(s, f.xid, f.props.port_id, a));
        }
    }
}

/// Replacing an entry by one of the same key keeps the keys unique.
pub proof fn lemma_update_keeps_unique(s: Seq<FrameView>, i: int, f: FrameView)
    requires
        unique_keys(s),
        0 <= i < s.len(),
        same_key(s[i], f),
    ensures
        unique_keys(s.update(i, f)),
{
    let r = s.update(i, f);
    assert forall|a: int, b: int| 0 <= a < b < r.len() implies !same_key(
        #[trigger] r[a],
        #[trigger] r[b],
    ) by {
        assert(!same_key(s[a], s[b]));
    }
}

/// Whatever packet is taken, and whatever its checksum turns out to be, no
/// two growing messages share a key afterwards.
pub proof fn law_keys_stay_unique(st: Fifos, p: PacketView, sum: (u8, u8))
    requires
        unique_keys(st.incomplete),
    ensures
        unique_keys(step_given(st, p, sum).incomplete),
        unique_keys(step(st, p).incomplete),
{
    lemma_keys_stay_unique(st, p, sum);
    lemma_keys_stay_unique(st, p, checksum_bytes(closing_payload(st, p)));
}

proof fn lemma_keys_stay_unique(st: Fifos, p: PacketView, sum: (u8, u8))
    requires
        unique_keys(st.incomplete),
    ensures
        unique_keys(step_given(st, p, sum).incomplete),
{
    let s = st.incomplete;
    let i = entry_index(s, p.xid, p.props.port_id);
    if has_entry(s, p.xid, p.props.port_id) {
        assert(entry_at(s, p.xid, p.props.port_id, i));
        lemma_remove_keeps_unique(s, i);
        match outcome_given(st, p, sum) {
            Outcome::Restarted => {
                lemma_push_keeps_unique(s.remove(i), opened(p));
            },
            Outcome::Appended => {
                lemma_update_keeps_unique(s, i, grown(s[i], p.data()));
            },
            _ => {},
        }
    } else {
        match outcome_given(st, p, sum) {
            Outcome::Started => {
                lemma_push_keeps_unique(s, opened(p));
            },
            _ => {},
        }
    }
}

/// Whatever batch is taken, no two growing messages share a key afterwards.
pub proof fn law_keys_stay_unique_over_batch(st: Fifos, ps: Seq<PacketView>)
    requires
        unique_keys(st.incomplete),
    ensures
        unique_keys(run(st, ps).incomplete),
    decreases ps.len(),
{
    if ps.len() > 0 {
        law_keys_stay_unique_over_batch(st, ps.drop_last());
        law_keys_stay_unique(run(st, ps.drop_last()), ps.last(), (0, 0));
    }
}

/// Taking two batches one after the other is taking them as one batch: where
/// a receive call cuts a stream of packets does not matter.
pub proof fn law_batches_compose(st: Fifos, first: Seq<PacketView>, second: Seq<PacketView>)
    ensures
        run(st, first + second) == run(run(st, first), second),
        failures(st, first + second) == failures(st, first) + failures(run(st, first), second),
    decreases second.len(),
{
    if second.len() == 0 {
        assert(first + second =~= first);
        assert(failures(st, first) + failures(run(st, first), second) =~= failures(st, first));
    } else {
        let shorter = second.drop_last();
        law_batches_compose(st, first, shorter);
        assert((first + second).drop_last() =~= first + shorter);
        assert((first + second).last() == second.last());
        let mid = run(st, first + shorter);
        let f = (IntegrityError { identifier: second.last().xid, port_id: second.last().props.port_id });
        if outcome(mid, second.last()) == Outcome::Corrupt {
            assert((failures(st, first) + failures(run(st, first), shorter)).push(f) =~= failures(st, first)
                + failures(run(st, first), shorter).push(f));
        }
    }
}

/// A message that fits one fragment goes to the back of the complete queue
/// as it came, and the growing messages are not touched.
pub proof fn law_single_delivered(st: Fifos, p: PacketView)
    requires
        p.role == FrameRole::Single,
    ensures
        outcome(st, p) == Outcome::Delivered,
        step(st, p).complete == st.complete.push(whole(p)),
        step(st, p).incomplete == st.incomplete,
        whole(p).xid == p.xid,
        whole(p).payload == p.payload,
        whole(p).payload_size == p.payload_size,
        whole(p).props == p.props,
{
}

/// An end fragment whose checksum does not fit the accumulated payload
/// delivers nothing, removes the growing message and reports the failure.
pub proof fn law_bad_checksum_discards(st: Fifos, p: PacketView)
    requires
        unique_keys(st.incomplete),
        p.role == FrameRole::End,
        has_entry(st.incomplete, p.xid, p.props.port_id),
        !end_valid(st.incomplete[entry_index(st.incomplete, p.xid, p.props.port_id)], p),
    ensures
        outcome(st, p) == Outcome::Corrupt,
        step(st, p).complete == st.complete,
        !has_entry(step(st, p).incomplete, p.xid, p.props.port_id),
        step(st, p).incomplete.len() == st.incomplete.len() - 1,
        failures(st, seq![p]) == seq![(IntegrityError { identifier: p.xid, port_id: p.props.port_id })],
{
    let i = entry_index(st.incomplete, p.xid, p.props.port_id);
    assert(entry_at(st.incomplete, p.xid, p.props.port_id, i));
    lemma_remove_keeps_unique(st.incomplete, i);
    let one = seq![p];
    assert(one.drop_last() =~= Seq::<PacketView>::empty());
    assert(run(st, one.drop_last()) == st);
    assert(failures(st, one.drop_last()) =~= Seq::<IntegrityError>::empty());
    assert(failures(st, one) =~= seq![
        (IntegrityError { identifier: p.xid, port_id: p.props.port_id }),
    ]);
}

/// A continuation or end fragment that finds no growing message of its key
/// is dropped: nothing changes, no entry is made and no failure is reported.
pub proof fn law_orphan_dropped(st: Fifos, p: PacketView)
    requires
        p.role == FrameRole::Continuation || p.role == FrameRole::End,
        !has_entry(st.incomplete, p.xid, p.props.port_id),
    ensures
        outcome(st, p) == Outcome::Orphan,
        step(st, p) == st,
        failures(st, seq![p]) == Seq::<IntegrityError>::empty(),
{
    let one = seq![p];
    assert(one.drop_last() =~= Seq::<PacketView>::empty());
    assert(run(st, one.drop_last()) == st);
    assert(failures(st, one.drop_last()) =~= Seq::<IntegrityError>::empty());
}

/// The bytes that a run of fragments carries, in arrival order.
pub open spec fn joined(fragments: Seq<PacketView>) -> Seq<u8>
    decreases fragments.len(),
{
    if fragments.len() == 0 {
        Seq::empty()
    } else {
        joined(fragments.drop_last()) + fragments.last().data()
    }
}

/// `first`, `middle` and `last` are the fragments of one message: a start
/// fragment, any number of continuation fragments and an end fragment, all of
/// one key.
pub open spec fn is_transfer(first: PacketView, middle: Seq<PacketView>, last: PacketView) -> bool {
    &&& first.role == FrameRole::Start
    &&& last.role == FrameRole::End
    &&& last.xid == first.xid
    &&& last.props.port_id == first.props.port_id
    &&& forall|k: int|
        0 <= k < middle.len() ==> (#[trigger] middle[k]).role == FrameRole::Continuation
            && middle[k].xid == first.xid && middle[k].props.port_id == first.props.port_id
}

/// The payload that the fragments of one message add up to, without the checksum.
pub open spec fn message_bytes(first: PacketView, middle: Seq<PacketView>, last: PacketView) -> Seq<u8> {
    first.data() + joined(middle) + end_body(last)
}

/// After a start fragment and its continuation fragments, the message is
/// growing under its key with the bytes received so far.
proof fn lemma_growing(st: Fifos, first: PacketView, middle: Seq<PacketView>)
    requires
        unique_keys(st.incomplete),
        first.role == FrameRole::Start,
        forall|k: int|
            0 <= k < middle.len() ==> (#[trigger] middle[k]).role == FrameRole::Continuation
                && middle[k].xid == first.xid && middle[k].props.port_id == first.props.port_id,
    ensures
        ({
            let mid = run(st, seq![first] + middle);
            let i = entry_index(mid.incomplete, first.xid, first.props.port_id);
            &&& mid.complete == st.complete
            &&& unique_keys(mid.incomplete)
            &&& entry_at(mid.incomplete, first.xid, first.props.port_id, i)
            &&& mid.incomplete[i].payload == first.data() + joined(middle)
            &&& mid.incomplete[i].props == first.props
        }),
    decreases middle.len(),
{
    let batch = seq![first] + middle;
    law_keys_stay_unique_over_batch(st, batch);
    if middle.len() == 0 {
        assert(batch.drop_last() =~= Seq::<PacketView>::empty());
        assert(batch.last() == first);
        assert(run(st, batch.drop_last()) == st);
        let mid = step(st, first);
        assert(run(st, batch) == mid);
        let at = mid.incomplete.len() - 1;
        assert(mid.incomplete[at] == opened(first));
        assert(entry_at(mid.incomplete, first.xid, first.props.port_id, at));
        lemma_entry_found(mid.incomplete, first.xid, first.props.port_id, at);
        assert(first.data() + joined(middle) =~= first.data());
    } else {
        let shorter = middle.drop_last();
        lemma_growing(st, first, shorter);
        assert(batch.drop_last() =~= seq![first] + shorter);
        assert(batch.last() == middle.last());
        let pre = run(st, seq![first] + shorter);
        let p = middle.last();
        let i = entry_index(pre.incomplete, first.xid, first.props.port_id);
        assert(has_entry(pre.incomplete, p.xid, p.props.port_id));
        let mid = step(pre, p);
        assert(run(st, batch) == mid);
        assert(mid.incomplete[i] == grown(pre.incomplete[i], p.data()));
        assert(entry_at(mid.incomplete, first.xid, first.props.port_id, i));
        lemma_entry_found(mid.incomplete, first.xid, first.props.port_id, i);
        assert(first.data() + joined(shorter) + p.data() =~= first.data() + joined(middle));
    }
}

/// A message split over a start fragment, continuation fragments and an end
/// fragment with the right checksum arrives whole: the complete queue gains
/// one frame whose payload is the fragments' bytes in arrival order, without
/// the checksum, and no growing message of its key is left.
pub proof fn law_transfer_reassembled(
    st: Fifos,
    first: PacketView,
    middle: Seq<PacketView>,
    last: PacketView,
)
    requires
        unique_keys(st.incomplete),
        is_transfer(first, middle, last),
        last.data_len() >= 2,
        checksum_bytes(message_bytes(first, middle, last)) == (
            last.data()[last.data_len() - 2],
            last.data()[last.data_len() - 1],
        ),
    ensures
        ({
            let after = run(st, (seq![first] + middle).push(last));
            let bytes = message_bytes(first, middle, last);
            &&& after.complete == st.complete.push(
                (FrameView {
                    xid: first.xid,
                    payload: bytes,
                    payload_size: bytes.len() as usize,
                    props: first.props,
                }),
            )
            &&& !has_entry(after.incomplete, first.xid, first.props.port_id)
            &&& unique_keys(after.incomplete)
            &&& failures(st, (seq![first] + middle).push(last)) == failures(st, seq![first] + middle)
        }),
{
    let prefix = seq![first] + middle;
    let batch = prefix.push(last);
    lemma_growing(st, first, middle);
    assert(batch.drop_last() =~= prefix);
    assert(batch.last() == last);
    let pre = run(st, prefix);
    let i = entry_index(pre.incomplete, first.xid, first.props.port_id);
    let e = pre.incomplete[i];
    assert(has_entry(pre.incomplete, last.xid, last.props.port_id));
    assert(e.payload + end_body(last) == message_bytes(first, middle, last));
    assert(end_valid(e, last));
    assert(outcome(pre, last) == Outcome::Completed);
    lemma_remove_keeps_unique(pre.incomplete, i);
    let bytes = message_bytes(first, middle, last);
    assert(bytes.len() == e.payload.len() + end_body(last).len());
}

} // verus!
