//! The on-chain log of RTU control events: signed MTUs submit events under a
//! 32-byte ID; each ID is taken once, and a stored event never changes.
use vstd::prelude::*;

verus! {

/// An MTU account.
pub type AccountId = u64;

/// Who dispatches a call.
#[derive(Debug, Clone, Copy, PartialEq, Eq)]
pub enum Origin {
    /// A call signed by this account.
    Signed(AccountId),
    /// The root origin.
    Root,
    /// An unsigned call.
    Unsigned,
}

/// The bounds that the chain configures.
#[derive(Debug, Clone, Copy, PartialEq, Eq)]
pub struct Config {
    /// The maximum length of an RTU ID.
    pub max_rtu_id_len: u32,
    /// The maximum length of an event name.
    pub max_event_name_len: u32,
    /// The maximum length of an event description.
    pub max_event_desc_len: u32,
}

/// The clock of the chain, in Unix milliseconds.
pub trait UnixTime {
    /// The current time in milliseconds since the Unix epoch.
    fn now_millis(&self) -> u64;
}

/// An RTU control event stored on-chain.
#[derive(Debug, Clone, PartialEq, Eq)]
pub struct OnChainControlEvent {
    /// The MTU that submitted this event.
    pub source_mtu: AccountId,
    /// Identifier of the target RTU.
    pub rtu_id: Vec<u8>,
    /// Name/type of the control event.
    pub event_name: Vec<u8>,
    /// Description of the event and its parameters.
    pub event_description: Vec<u8>,
    /// Timestamp when the event was created/submitted (Unix time in milliseconds).
    pub event_timestamp: u64,
    /// Timestamp when the event was recorded on-chain (Unix time in milliseconds).
    pub on_chain_timestamp: u64,
}

/// The contents of a stored event.
pub struct StoredEvent {
    pub source_mtu: AccountId,
    pub rtu_id: Seq<u8>,
    pub event_name: Seq<u8>,
    pub event_description: Seq<u8>,
    pub event_timestamp: u64,
    pub on_chain_timestamp: u64,
}

impl View for OnChainControlEvent {
    type V = StoredEvent;

    open spec fn view(&self) -> StoredEvent {
        StoredEvent {
            source_mtu: self.source_mtu,
            rtu_id: self.rtu_id@,
            event_name: self.event_name@,
            event_description: self.event_description@,
            event_timestamp: self.event_timestamp,
            on_chain_timestamp: self.on_chain_timestamp,
        }
    }
}

/// What the pallet announces.
#[derive(Debug, Clone, Copy, PartialEq, Eq)]
pub enum Event {
    /// A new RTU control event was logged on-chain.
    ControlEventLogged { event_id: [u8; 32], source_mtu: AccountId },
}

/// Why the pallet refuses a call.
#[derive(Debug, Clone, Copy, PartialEq, Eq)]
pub enum Error {
    /// The event ID has already been logged (duplicate event).
    EventAlreadyExists,
    /// The RTU ID exceeds its maximum length.
    InvalidRtuId,
    /// The event name exceeds its maximum length.
    InvalidEventName,
    /// The event description exceeds its maximum length.
    InvalidEventDescription,
}

/// Why a dispatch fails.
#[derive(Debug, Clone, Copy, PartialEq, Eq)]
pub enum DispatchError {
    /// The call was not signed.
    BadOrigin,
    /// The pallet refused the call.
    Module(Error),
}

/// The pallet: its configuration, its clock, the stored events by ID, and
/// the events it has announced.
pub struct Pallet<T: UnixTime> {
    config: Config,
    time: T,
    control_events: Vec<([u8; 32], OnChainControlEvent)>,
    deposited: Vec<Event>,
}

/// The map from event IDs to stored events that a list of entries holds.
pub open spec fn entries_map(entries: Seq<([u8; 32], OnChainControlEvent)>) -> Map<
    Seq<u8>,
    StoredEvent,
>
    decreases entries.len(),
{
    if entries.len() == 0 {
        Map::empty()
    } else {
        entries_map(entries.drop_last()).insert(entries.last().0@, entries.last().1@)
    }
}

/// No ID occurs twice among the entries.
pub open spec fn unique_ids(entries: Seq<([u8; 32], OnChainControlEvent)>) -> bool {
    forall|i: int, j: int|
        0 <= i < entries.len() && 0 <= j < entries.len() && i != j ==> #[trigger] entries[i].0@
            != #[trigger] entries[j].0@
}

/// The refusal, if any, of a call: an unsigned origin first, then a taken
/// ID, then an RTU ID, event name or description over its bound.
pub open spec fn dispatch_error(
    config: Config,
    stored: Map<Seq<u8>, StoredEvent>,
    origin: Origin,
    event_id: Seq<u8>,
    rtu_id: Seq<u8>,
    event_name: Seq<u8>,
    event_description: Seq<u8>,
) -> Option<DispatchError> {
    if !(origin is Signed) {
        Some(DispatchError::BadOrigin)
    } else if stored.contains_key(event_id) {
        Some(DispatchError::Module(Error::EventAlreadyExists))
    } else if rtu_id.len() > config.max_rtu_id_len {
        Some(DispatchError::Module(Error::InvalidRtuId))
    } else if event_name.len() > config.max_event_name_len {
        Some(DispatchError::Module(Error::InvalidEventName))
    } else if event_description.len() > config.max_event_desc_len {
        Some(DispatchError::Module(Error::InvalidEventDescription))
    } else {
        None
    }
}

/// What a call of `log_control_event` does when the chain's clock reads
/// `now`: a refused call changes nothing; an accepted one stores the event
/// under its ID, with `now` as its on-chain time, and announces it.
pub open spec fn log_outcome(
    config: Config,
    stored: Map<Seq<u8>, StoredEvent>,
    announced: Seq<Event>,
    origin: Origin,
    event_id: [u8; 32],
    rtu_id: Seq<u8>,
    event_name: Seq<u8>,
    event_description: Seq<u8>,
    event_timestamp: u64,
    now: u64,
    r: Result<(), DispatchError>,
    new_stored: Map<Seq<u8>, StoredEvent>,
    new_announced: Seq<Event>,
) -> bool {
    match dispatch_error(config, stored, origin, event_id@, rtu_id, event_name, event_description) {
        Some(e) => r == Err::<(), DispatchError>(e) && new_stored == stored && new_announced
            == announced,
        None => {
            &&& r is Ok
            &&& new_stored == stored.insert(event_id@, new_stored[event_id@])
            &&& new_stored[event_id@].source_mtu == origin->Signed_0
            &&& new_stored[event_id@].rtu_id == rtu_id
            &&& new_stored[event_id@].event_name == event_name
            &&& new_stored[event_id@].event_description == event_description
            &&& new_stored[event_id@].event_timestamp == event_timestamp
            &&& new_stored[event_id@].on_chain_timestamp == now
            &&& new_announced == announced.push(
                Event::ControlEventLogged { event_id, source_mtu: origin->Signed_0 },
            )
        },
    }
}

proof fn lemma_entries_map_domain(entries: Seq<([u8; 32], OnChainControlEvent)>, k: Seq<u8>)
    ensures
        entries_map(entries).contains_key(k) <==> exists|i: int|
            0 <= i < entries.len() && #[trigger] entries[i].0@ == k,
    decreases entries.len(),
{
    if entries.len() > 0 {
        let prev = entries.drop_last();
        lemma_entries_map_domain(prev, k);
        if entries_map(entries).contains_key(k) {
            if k == entries.last().0@ {
                assert(entries[entries.len() - 1].0@ == k);
            } else {
                let i = choose|i: int| 0 <= i < prev.len() && #[trigger] prev[i].0@ == k;
                assert(entries[i].0@ == k);
            }
        }
        if exists|i: int| 0 <= i < entries.len() && #[trigger] entries[i].0@ == k {
            let i = choose|i: int| 0 <= i < entries.len() && #[trigger] entries[i].0@ == k;
            if i < entries.len() - 1 {
                assert(prev[i].0@ == k);
            }
        }
    }
}

proof fn lemma_entries_map_value(entries: Seq<([u8; 32], OnChainControlEvent)>, i: int)
    requires
        unique_ids(entries),
        0 <= i < entries.len(),
    ensures
        entries_map(entries).contains_key(entries[i].0@),
        entries_map(entries)[entries[i].0@] == entries[i].1@,
    decreases entries.len(),
{
    let prev = entries.drop_last();
    if i < entries.len() - 1 {
        assert(unique_ids(prev)) by {
            assert forall|a: int, b: int|
                0 <= a < prev.len() && 0 <= b < prev.len() && a != b implies #[trigger] prev[a].0@
                != #[trigger] prev[b].0@ by {
                assert(prev[a] == entries[a]);
                assert(prev[b] == entries[b]);
            }
        }
        lemma_entries_map_value(prev, i);
        assert(entries[i].0@ != entries[entries.len() - 1].0@);
        assert(prev[i] == entries[i]);
    }
}

/// Whether two event IDs are the same.
fn same_id(a: &[u8; 32], b: &[u8; 32]) -> (r: bool)
    ensures
        r == (a@ == b@),
{
    let mut i: usize = 0;
    while i < 32
        invariant
            i <= 32,
            a@.len() == 32,
            b@.len() == 32,
            forall|j: int| 0 <= j < i ==> a@[j] == b@[j],
        decreases 32 - i,
    {
        if a[i] != b[i] {
            return false;
        }
        i = i + 1;
    }
    assert(a@ =~= b@);
    true
}

impl<T: UnixTime> Pallet<T> {
    /// The stored events by ID.
    pub closed spec fn stored(&self) -> Map<Seq<u8>, StoredEvent> {
        entries_map(self.control_events@)
    }

    /// The events announced so far, oldest first.
    pub closed spec fn announced(&self) -> Seq<Event> {
        self.deposited@
    }

    /// The pallet's clock.
    pub closed spec fn clock(&self) -> T {
        self.time
    }

    /// The configured bounds.
    pub closed spec fn bounds(&self) -> Config {
        self.config
    }

    /// The pallet's invariant: no ID is stored twice.
    pub closed spec fn wf(&self) -> bool {
        unique_ids(self.control_events@)
    }

    /// A pallet with the given bounds and clock, nothing stored or announced.
    pub fn new(config: Config, time: T) -> (r: Self)
        ensures
            r.wf(),
            r.stored() == Map::<Seq<u8>, StoredEvent>::empty(),
            r.announced() == Seq::<Event>::empty(),
            r.bounds() == config,
    {
        let r = Pallet { config, time, control_events: Vec::new(), deposited: Vec::new() };
        assert(r.stored() =~= Map::<Seq<u8>, StoredEvent>::empty());
        r
    }

    /// The position of an ID among the stored entries.
    fn find(&self, event_id: &[u8; 32]) -> (r: Option<usize>)
        requires
            self.wf(),
        ensures
            r matches Some(i) ==> i < self.control_events@.len() && self.control_events@[i as int].0@
                == event_id@,
            r is None <==> !self.stored().contains_key(event_id@),
    {
        let n = self.control_events.len();
        let mut i: usize = 0;
        while i < n
            invariant
                n == self.control_events@.len(),
                i <= n,
                forall|j: int| 0 <= j < i ==> #[trigger] self.control_events@[j].0@ != event_id@,
            decreases n - i,
        {
            if same_id(&self.control_events[i].0, event_id) {
                proof {
                    lemma_entries_map_domain(self.control_events@, event_id@);
                    assert(self.control_events@[i as int].0@ == event_id@);
                }
                return Some(i);
            }
            i = i + 1;
        }
        proof {
            lemma_entries_map_domain(self.control_events@, event_id@);
        }
        None
    }

    /// The event stored under an ID, if any.
    pub fn control_events(&self, event_id: &[u8; 32]) -> (r: Option<OnChainControlEvent>)
        requires
            self.wf(),
        ensures
            r is Some <==> self.stored().contains_key(event_id@),
            r matches Some(e) ==> e@ == self.stored()[event_id@],
    {
        match self.find(event_id) {
            Some(i) => {
                let e = &self.control_events[i].1;
                proof {
                    lemma_entries_map_value(self.control_events@, i as int);
                }
                let copy = OnChainControlEvent {
                    source_mtu: e.source_mtu,
                    rtu_id: vstd::slice::slice_to_vec(e.rtu_id.as_slice()),
                    event_name: vstd::slice::slice_to_vec(e.event_name.as_slice()),
                    event_description: vstd::slice::slice_to_vec(e.event_description.as_slice()),
                    event_timestamp: e.event_timestamp,
                    on_chain_timestamp: e.on_chain_timestamp,
                };
                Some(copy)
            },
            None => None,
        }
    }

    /// Whether an event has been announced.
    pub fn has_event(&self, event: &Event) -> (r: bool)
        ensures
            r == self.announced().contains(*event),
    {
        let n = self.deposited.len();
        let mut i: usize = 0;
        while i < n
            invariant
                n == self.deposited@.len(),
                i <= n,
                forall|j: int| 0 <= j < i ==> self.deposited@[j] != *event,
            decreases n - i,
        {
            let Event::ControlEventLogged { event_id: a, source_mtu: s } = &self.deposited[i];
            let Event::ControlEventLogged { event_id: b, source_mtu: t } = event;
            if *s == *t && same_id(a, b) {
                proof {
                    assert(a@ =~= b@);
                    assert(*a == *b);
                }
                return true;
            }
            i = i + 1;
        }
        false
    }

    /// The refusal of a call, if any, or the account that signed it.
    fn check(
        &self,
        origin: Origin,
        event_id: &[u8; 32],
        rtu_id: &Vec<u8>,
        event_name: &Vec<u8>,
        event_description: &Vec<u8>,
    ) -> (r: Result<AccountId, DispatchError>)
        requires
            self.wf(),
        ensures
            match dispatch_error(
                self.config,
                self.stored(),
                origin,
                event_id@,
                rtu_id@,
                event_name@,
                event_description@,
            ) {
                Some(e) => r == Err::<AccountId, DispatchError>(e),
                None => r == Ok::<AccountId, DispatchError>(origin->Signed_0),
            },
    {
        let source_mtu = match origin {
            Origin::Signed(who) => who,
            _ => return Err(DispatchError::BadOrigin),
        };
        if self.find(event_id).is_some() {
            return Err(DispatchError::Module(Error::EventAlreadyExists));
        }
        if rtu_id.len() > self.config.max_rtu_id_len as usize {
            return Err(DispatchError::Module(Error::InvalidRtuId));
        }
        if event_name.len() > self.config.max_event_name_len as usize {
            return Err(DispatchError::Module(Error::InvalidEventName));
        }
        if event_description.len() > self.config.max_event_desc_len as usize {
            return Err(DispatchError::Module(Error::InvalidEventDescription));
        }
        Ok(source_mtu)
    }

    /// Stores an event under a new ID and announces it.
    fn store(
        &mut self,
        source_mtu: AccountId,
        event_id: [u8; 32],
        rtu_id: Vec<u8>,
        event_name: Vec<u8>,
        event_description: Vec<u8>,
        event_timestamp: u64,
        on_chain_timestamp: u64,
    )
        requires
            old(self).wf(),
            !old(self).stored().contains_key(event_id@),
        ensures
            final(self).wf(),
            final(self).config == old(self).config,
            final(self).stored() == old(self).stored().insert(
                event_id@,
                StoredEvent {
                    source_mtu,
                    rtu_id: rtu_id@,
                    event_name: event_name@,
                    event_description: event_description@,
                    event_timestamp,
                    on_chain_timestamp,
                },
            ),
            final(self).announced() == old(self).announced().push(
                Event::ControlEventLogged { event_id, source_mtu },
            ),
    {
        let control_event = OnChainControlEvent {
            source_mtu,
            rtu_id,
            event_name,
            event_description,
            event_timestamp,
            on_chain_timestamp,
        };
        let ghost before = self.control_events@;
        proof {
            lemma_entries_map_domain(before, event_id@);
        }
        self.control_events.push((event_id, control_event));
        assert(self.control_events@.drop_last() =~= before);
        assert(unique_ids(self.control_events@)) by {
            assert forall|i: int, j: int|
                0 <= i < self.control_events@.len() && 0 <= j < self.control_events@.len() && i
                    != j implies #[trigger] self.control_events@[i].0@
                != #[trigger] self.control_events@[j].0@ by {
                if i < before.len() && j < before.len() {
                    assert(self.control_events@[i] == before[i]);
                    assert(self.control_events@[j] == before[j]);
                } else if i < before.len() {
                    assert(self.control_events@[i] == before[i]);
                } else {
                    assert(self.control_events@[j] == before[j]);
                }
            }
        }
        self.deposited.push(Event::ControlEventLogged { event_id, source_mtu });
    }

    /// Submits a new RTU control event at the chain time `now`. The caller
    /// must be signed; the ID must be new; the RTU ID, name and description
    /// must fit their bounds. On success the event is stored with `now` as
    /// its on-chain time and its logging is announced; on failure nothing
    /// changes.
    pub fn log_control_event_at(
        &mut self,
        now: u64,
        origin: Origin,
        event_id: [u8; 32],
        rtu_id: Vec<u8>,
        event_name: Vec<u8>,
        event_description: Vec<u8>,
        event_timestamp: u64,
    ) -> (r: Result<(), DispatchError>)
        requires
            old(self).wf(),
        ensures
            final(self).wf(),
            final(self).bounds() == old(self).bounds(),
            log_outcome(
                old(self).bounds(),
                old(self).stored(),
                old(self).announced(),
                origin,
                event_id,
                rtu_id@,
                event_name@,
                event_description@,
                event_timestamp,
                now,
                r,
                final(self).stored(),
                final(self).announced(),
            ),
    {
        match self.check(origin, &event_id, &rtu_id, &event_name, &event_description) {
            Err(e) => Err(e),
            Ok(source_mtu) => {
                self.store(
                    source_mtu,
                    event_id,
                    rtu_id,
                    event_name,
                    event_description,
                    event_timestamp,
                    now,
                );
                Ok(())
            },
        }
    }

    /// Submits a new RTU control event, as `log_control_event_at` does, with
    /// the time that the pallet's clock reads once the call is accepted. What
    /// the clock reads is up to the clock; the outcome is that of
    /// `log_control_event_at` for some reading.
    pub fn log_control_event(
        &mut self,
        origin: Origin,
        event_id: [u8; 32],
        rtu_id: Vec<u8>,
        event_name: Vec<u8>,
        event_description: Vec<u8>,
        event_timestamp: u64,
    ) -> (r: Result<(), DispatchError>)
        requires
            old(self).wf(),
        ensures
            final(self).wf(),
            final(self).bounds() == old(self).bounds(),
            exists|now: u64|
                log_outcome(
                    old(self).bounds(),
                    old(self).stored(),
                    old(self).announced(),
                    origin,
                    event_id,
                    rtu_id@,
                    event_name@,
                    event_description@,
                    event_timestamp,
                    now,
                    r,
                    final(self).stored(),
                    final(self).announced(),
                ),
            r is Ok ==> call_ensures(
                T::now_millis,
                (&old(self).clock(),),
                final(self).stored()[event_id@].on_chain_timestamp,
            ),
    {
        let ghost b = self.bounds();
        let ghost s0 = self.stored();
        let ghost a0 = self.announced();
        match self.check(origin, &event_id, &rtu_id, &event_name, &event_description) {
            Err(e) => {
                assert(log_outcome(
                    b,
                    s0,
                    a0,
                    origin,
                    event_id,
                    rtu_id@,
                    event_name@,
                    event_description@,
                    event_timestamp,
                    0,
                    Err(e),
                    self.stored(),
                    self.announced(),
                ));
                Err(e)
            },
            Ok(source_mtu) => {
                let read_clock = T::now_millis;
                let now = read_clock(&self.time);
                let ghost rtu = rtu_id@;
                let ghost name = event_name@;
                let ghost desc = event_description@;
                self.store(
                    source_mtu,
                    event_id,
                    rtu_id,
                    event_name,
                    event_description,
                    event_timestamp,
                    now,
                );
                assert(log_outcome(
                    b,
                    s0,
                    a0,
                    origin,
                    event_id,
                    rtu,
                    name,
                    desc,
                    event_timestamp,
                    now,
                    Ok(()),
                    self.stored(),
                    self.announced(),
                ));
                Ok(())
            },
        }
    }
}

} // verus!
