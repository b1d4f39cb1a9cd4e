//! The decisions of an MTU node: it signs and hash-chains every event it
//! produces, and re-gossips each peer event once, and only when its
//! signature checks out. The program around it runs the sockets.
use vstd::prelude::*;
use crate::sim::crypto::{
    ed25519_public_key, ed25519_signature, ed25519_verifies, event_digest, event_hash,
    event_verifies, sign_event, verify_event, SigningKey,
};
use crate::sim::types::{ControlEvent, RtuMessage};
use crate::text::{decimal, push_decimal, push_str, string_push};

verus! {

/// The event that `produce_event` makes: the given fields, sequence number
/// and previous hash, signed with the key.
pub open spec fn produced(
    e: ControlEvent,
    name: Seq<char>,
    seq: u64,
    prev_hash: Seq<u8>,
    verifying_key: Seq<u8>,
    secret: Seq<u8>,
    payload: Seq<char>,
) -> bool {
    &&& e.sender@ == name
    &&& e.seq == seq
    &&& e.prev_hash@ == prev_hash
    &&& e.payload@ == payload
    &&& e.verifying_key@ == verifying_key
    &&& e.signature@ == ed25519_signature(secret, event_digest(e))
    &&& e.signature@.len() == 64
    &&& ed25519_verifies(ed25519_public_key(secret), event_digest(e), e.signature@)
}

/// Makes the next event of a chain: signs it, makes its hash the chain's
/// previous hash, and advances the sequence number.
pub fn produce_event(
    name: &str,
    seq: &mut u64,
    prev_hash: &mut [u8; 32],
    vk_bytes: &[u8],
    signing_key: &SigningKey,
    payload: String,
) -> (e: ControlEvent)
    requires
        *old(seq) < u64::MAX,
    ensures
        produced(e, name@, *old(seq), old(prev_hash)@, vk_bytes@, signing_key.secret(), payload@),
        final(prev_hash)@ == event_digest(e),
        *final(seq) == *old(seq) + 1,
{
    let mut event = ControlEvent {
        sender: name.to_owned(),
        seq: *seq,
        prev_hash: *prev_hash,
        payload,
        verifying_key: vstd::slice::slice_to_vec(vk_bytes),
        signature: Vec::new(),
    };
    sign_event(&mut event, signing_key);
    *prev_hash = event_hash(&event);
    *seq = *seq + 1;
    event
}

/// The text an RTU sends as its `seq`-th reading.
pub open spec fn sensor_reading(seq: u64) -> Seq<char> {
    "sensor-reading:"@ + decimal(seq as nat)
}

/// The payload of an RTU's `seq`-th reading.
pub fn sensor_reading_payload(seq: u64) -> (r: String)
    ensures
        r@ == sensor_reading(seq),
{
    let mut s = "sensor-reading:".to_owned();
    push_decimal(&mut s, seq);
    s
}

/// What a node does with an event from a peer.
#[derive(Debug, Clone, PartialEq, Eq)]
pub enum PeerVerdict {
    /// Seen before: dropped.
    Duplicate,
    /// New, but its signature does not check out: dropped.
    Rejected,
    /// New and verified: to be gossiped to every peer.
    Forward(ControlEvent),
}

/// What handling a peer event does to the seen hashes and what it decides:
/// a seen event is a duplicate; a new one is marked seen, and forwarded if
/// and only if its signature checks out.
pub open spec fn peer_outcome(
    seen: Set<Seq<u8>>,
    event: ControlEvent,
    r: PeerVerdict,
    seen_after: Set<Seq<u8>>,
) -> bool {
    if seen.contains(event_digest(event)) {
        r == PeerVerdict::Duplicate && seen_after == seen
    } else {
        seen_after == seen.insert(event_digest(event)) && (if event_verifies(event) {
            r == PeerVerdict::Forward(event)
        } else {
            r == PeerVerdict::Rejected
        })
    }
}

/// An MTU node: its name, its place in its own chain, its keys, and the
/// hashes of every event it has seen.
pub struct MtuNode {
    name: String,
    seq: u64,
    prev_hash: [u8; 32],
    vk_bytes: Vec<u8>,
    signing_key: SigningKey,
    seen: Vec<[u8; 32]>,
}

impl MtuNode {
    /// The node's name.
    pub closed spec fn node_name(&self) -> Seq<char> {
        self.name@
    }

    /// The sequence number of the node's next event.
    pub closed spec fn next_seq(&self) -> u64 {
        self.seq
    }

    /// The hash of the node's last event (zeros before the first).
    pub closed spec fn chain_head(&self) -> Seq<u8> {
        self.prev_hash@
    }

    /// The node's secret key.
    pub closed spec fn secret(&self) -> Seq<u8> {
        self.signing_key.secret()
    }

    /// The verifying key the node puts in its events.
    pub closed spec fn verifying_key(&self) -> Seq<u8> {
        self.vk_bytes@
    }

    /// The hashes of the events the node has seen.
    pub closed spec fn seen(&self) -> Set<Seq<u8>> {
        Set::new(|h: Seq<u8>| exists|i: int| 0 <= i < self.seen@.len() && #[trigger] self.seen@[i]@ == h)
    }

    /// The node's invariant: it carries the verifying key of its own key.
    pub closed spec fn wf(&self) -> bool {
        self.vk_bytes@ == ed25519_public_key(self.signing_key.secret()) && self.vk_bytes@.len() == 32
    }

    /// A node that has produced and seen nothing yet.
    pub fn new(name: String, signing_key: SigningKey) -> (r: Self)
        ensures
            r.wf(),
            r.node_name() == name@,
            r.next_seq() == 0,
            r.chain_head() == Seq::new(32, |i: int| 0u8),
            r.secret() == signing_key.secret(),
            r.verifying_key() == ed25519_public_key(signing_key.secret()),
            r.seen() == Set::<Seq<u8>>::empty(),
    {
        let vk = signing_key.verifying_key();
        let r = MtuNode {
            name,
            seq: 0,
            prev_hash: [0u8; 32],
            vk_bytes: vstd::slice::slice_to_vec(vk.as_slice()),
            signing_key,
            seen: Vec::new(),
        };
        assert(r.prev_hash@ =~= Seq::new(32, |i: int| 0u8));
        assert(r.seen() =~= Set::<Seq<u8>>::empty());
        r
    }

    /// The sequence number of the node's next event.
    pub fn next_sequence(&self) -> (r: u64)
        ensures
            r == self.next_seq(),
    {
        self.seq
    }

    /// Whether a hash has been seen.
    fn has_seen(&self, hash: &[u8; 32]) -> (r: bool)
        ensures
            r == self.seen().contains(hash@),
    {
        let n = self.seen.len();
        let mut i: usize = 0;
        while i < n
            invariant
                n == self.seen@.len(),
                i <= n,
                forall|j: int| 0 <= j < i ==> #[trigger] self.seen@[j]@ != hash@,
            decreases n - i,
        {
            let mut k: usize = 0;
            let mut same = true;
            while k < 32
                invariant
                    k <= 32,
                    i < n,
                    n == self.seen@.len(),
                    self.seen@[i as int]@.len() == 32,
                    hash@.len() == 32,
                    same == (forall|j: int| 0 <= j < k ==> self.seen@[i as int]@[j] == hash@[j]),
                decreases 32 - k,
            {
                if self.seen[i][k] != hash[k] {
                    same = false;
                }
                k = k + 1;
            }
            if same {
                assert(self.seen@[i as int]@ =~= hash@);
                return true;
            }
            i = i + 1;
        }
        false
    }

    /// Records a hash as seen.
    fn mark_seen(&mut self, hash: [u8; 32])
        ensures
            final(self).seen() == old(self).seen().insert(hash@),
            final(self).name == old(self).name,
            final(self).seq == old(self).seq,
            final(self).prev_hash == old(self).prev_hash,
            final(self).vk_bytes == old(self).vk_bytes,
            final(self).signing_key == old(self).signing_key,
    {
        let ghost before = self.seen@;
        self.seen.push(hash);
        assert(self.seen() =~= old(self).seen().insert(hash@)) by {
            assert forall|h: Seq<u8>| self.seen().contains(h) <==> old(self).seen().insert(
                hash@,
            ).contains(h) by {
                if self.seen().contains(h) {
                    let i = choose|i: int| 0 <= i < self.seen@.len() && #[trigger] self.seen@[i]@ == h;
                    if i < before.len() {
                        assert(before[i]@ == h);
                    }
                }
                if old(self).seen().contains(h) {
                    let i = choose|i: int| 0 <= i < before.len() && #[trigger] before[i]@ == h;
                    assert(self.seen@[i]@ == h);
                }
                if h == hash@ {
                    assert(self.seen@[before.len() as int]@ == h);
                }
            }
        }
    }

    /// Produces, signs and marks as seen the node's next event.
    fn produce(&mut self, payload: String) -> (e: ControlEvent)
        requires
            old(self).wf(),
            old(self).next_seq() < u64::MAX,
        ensures
            final(self).wf(),
            produced(
                e,
                old(self).node_name(),
                old(self).next_seq(),
                old(self).chain_head(),
                old(self).verifying_key(),
                old(self).secret(),
                payload@,
            ),
            event_verifies(e),
            final(self).chain_head() == event_digest(e),
            final(self).next_seq() == old(self).next_seq() + 1,
            final(self).seen() == old(self).seen().insert(event_digest(e)),
            final(self).node_name() == old(self).node_name(),
            final(self).secret() == old(self).secret(),
            final(self).verifying_key() == old(self).verifying_key(),
    {
        let event = produce_event(
            self.name.as_str(),
            &mut self.seq,
            &mut self.prev_hash,
            self.vk_bytes.as_slice(),
            &self.signing_key,
            payload,
        );
        let hash = event_hash(&event);
        self.mark_seen(hash);
        event
    }

    /// The node's heartbeat: a signed event saying it is alive, to gossip.
    pub fn heartbeat(&mut self) -> (e: ControlEvent)
        requires
            old(self).wf(),
            old(self).next_seq() < u64::MAX,
        ensures
            final(self).wf(),
            produced(
                e,
                old(self).node_name(),
                old(self).next_seq(),
                old(self).chain_head(),
                old(self).verifying_key(),
                old(self).secret(),
                "heartbeat from "@ + old(self).node_name(),
            ),
            event_verifies(e),
            final(self).chain_head() == event_digest(e),
            final(self).next_seq() == old(self).next_seq() + 1,
            final(self).seen() == old(self).seen().insert(event_digest(e)),
            final(self).node_name() == old(self).node_name(),
            final(self).secret() == old(self).secret(),
            final(self).verifying_key() == old(self).verifying_key(),
    {
        let mut payload = "heartbeat from ".to_owned();
        push_str(&mut payload, self.name.as_str());
        self.produce(payload)
    }

    /// A message from the node's RTU becomes a signed event, to gossip.
    pub fn on_rtu_message(&mut self, msg: RtuMessage) -> (e: ControlEvent)
        requires
            old(self).wf(),
            old(self).next_seq() < u64::MAX,
        ensures
            final(self).wf(),
            produced(
                e,
                old(self).node_name(),
                old(self).next_seq(),
                old(self).chain_head(),
                old(self).verifying_key(),
                old(self).secret(),
                msg.payload@,
            ),
            event_verifies(e),
            final(self).chain_head() == event_digest(e),
            final(self).next_seq() == old(self).next_seq() + 1,
            final(self).seen() == old(self).seen().insert(event_digest(e)),
            final(self).node_name() == old(self).node_name(),
            final(self).secret() == old(self).secret(),
            final(self).verifying_key() == old(self).verifying_key(),
    {
        self.produce(msg.payload)
    }

    /// An event from a peer: dropped when seen before; otherwise marked seen,
    /// and forwarded when its signature checks out.
    pub fn on_peer_event(&mut self, event: ControlEvent) -> (r: PeerVerdict)
        requires
            old(self).wf(),
        ensures
            final(self).wf(),
            final(self).node_name() == old(self).node_name(),
            final(self).next_seq() == old(self).next_seq(),
            final(self).chain_head() == old(self).chain_head(),
            final(self).secret() == old(self).secret(),
            final(self).verifying_key() == old(self).verifying_key(),
            peer_outcome(old(self).seen(), event, r, final(self).seen()),
    {
        let hash = event_hash(&event);
        if self.has_seen(&hash) {
            return PeerVerdict::Duplicate;
        }
        self.mark_seen(hash);
        if !verify_event(&event) {
            return PeerVerdict::Rejected;
        }
        PeerVerdict::Forward(event)
    }
}

/// Every event a node produces is accepted by the verification its peers
/// apply: its signature checks out under the verifying key it carries.
pub proof fn lemma_produced_events_verify(
    e: ControlEvent,
    name: Seq<char>,
    seq: u64,
    prev_hash: Seq<u8>,
    secret: Seq<u8>,
    payload: Seq<char>,
)
    requires
        produced(e, name, seq, prev_hash, ed25519_public_key(secret), secret, payload),
        ed25519_public_key(secret).len() == 32,
    ensures
        event_verifies(e),
{
}

/// A peer event is forwarded at most once: handled a second time (or any
/// later time, the seen set only growing), it is a duplicate.
pub proof fn lemma_gossip_at_most_once(
    seen: Set<Seq<u8>>,
    event: ControlEvent,
    first: PeerVerdict,
    seen_after_first: Set<Seq<u8>>,
    second: PeerVerdict,
    seen_after_second: Set<Seq<u8>>,
)
    requires
        peer_outcome(seen, event, first, seen_after_first),
        peer_outcome(seen_after_first, event, second, seen_after_second),
    ensures
        second == PeerVerdict::Duplicate,
        seen_after_second == seen_after_first,
{
}

/// Only events whose signature checks out are forwarded, and unchanged.
pub proof fn lemma_only_verified_events_are_forwarded(
    seen: Set<Seq<u8>>,
    event: ControlEvent,
    r: PeerVerdict,
    seen_after: Set<Seq<u8>>,
)
    requires
        peer_outcome(seen, event, r, seen_after),
        r is Forward,
    ensures
        event_verifies(event),
        r == PeerVerdict::Forward(event),
{
}

} // verus!

verus! {

/// The comma-separated fields of a text (one field more than there are commas).
pub open spec fn comma_fields(s: Seq<char>) -> Seq<Seq<char>>
    decreases s.len(),
{
    if s.len() == 0 {
        seq![Seq::empty()]
    } else {
        let f = comma_fields(s.drop_last());
        if s.last() == ',' {
            f.push(Seq::empty())
        } else {
            f.update(f.len() - 1, f.last().push(s.last()))
        }
    }
}

/// The fields that are not empty, in order.
pub open spec fn nonempty(fields: Seq<Seq<char>>) -> Seq<Seq<char>>
    decreases fields.len(),
{
    if fields.len() == 0 {
        Seq::empty()
    } else if fields.last().len() == 0 {
        nonempty(fields.drop_last())
    } else {
        nonempty(fields.drop_last()).push(fields.last())
    }
}

proof fn lemma_comma_fields_nonempty(s: Seq<char>)
    ensures
        comma_fields(s).len() >= 1,
    decreases s.len(),
{
    if s.len() > 0 {
        lemma_comma_fields_nonempty(s.drop_last());
    }
}

/// The peer addresses of a comma-separated list, empty entries skipped.
pub fn parse_peer_list(peers: &str) -> (r: Vec<String>)
    ensures
        r@.map_values(|p: String| p@) == nonempty(comma_fields(peers@)),
{
    let n = peers.unicode_len();
    let mut done: Vec<String> = Vec::new();
    let mut current = String::new();
    let mut i: usize = 0;
    assert(peers@.take(0) =~= Seq::<char>::empty());
    while i < n
        invariant
            n == peers@.len(),
            i <= n,
            comma_fields(peers@.take(i as int)).len() >= 1,
            done@.map_values(|p: String| p@) == nonempty(
                comma_fields(peers@.take(i as int)).drop_last(),
            ),
            current@ == comma_fields(peers@.take(i as int)).last(),
        decreases n - i,
    {
        let c = peers.get_char(i);
        let ghost f = comma_fields(peers@.take(i as int));
        proof {
            lemma_comma_fields_nonempty(peers@.take(i as int));
        }
        assert(peers@.take(i + 1).drop_last() =~= peers@.take(i as int));
        assert(peers@.take(i + 1).last() == c);
        if c == ',' {
            let ghost before = done@.map_values(|p: String| p@);
            if current.unicode_len() > 0 {
                done.push(current);
                assert(done@.map_values(|p: String| p@) =~= before.push(f.last()));
            } else {
                assert(done@.map_values(|p: String| p@) =~= before);
            }
            current = String::new();
            assert(comma_fields(peers@.take(i + 1)).drop_last() =~= f);
            assert(f.drop_last().push(f.last()) =~= f);
        } else {
            string_push(&mut current, c);
            assert(comma_fields(peers@.take(i + 1)).drop_last() =~= f.drop_last());
        }
        i = i + 1;
    }
    assert(peers@.take(n as int) =~= peers@);
    let ghost f = comma_fields(peers@);
    let ghost before = done@.map_values(|p: String| p@);
    if current.unicode_len() > 0 {
        done.push(current);
        assert(done@.map_values(|p: String| p@) =~= before.push(f.last()));
    }
    assert(f.drop_last().push(f.last()) =~= f);
    done
}

} // verus!
