use vstd::prelude::*;

verus! {

/// Client id handed to foreign callers: an index into the pool.
pub type MbusClientId = u8;

/// Sentinel id meaning "no valid client".
pub const MBUS_INVALID_CLIENT_ID: MbusClientId = 0xFF;

/// A pool slot holds either a TCP or a serial client.
pub enum ClientSlot<TCP, SERIAL> {
    /// A Modbus TCP client.
    Tcp(TCP),
    /// A Modbus serial (RTU / ASCII) client.
    Serial(SERIAL),
}

/// Why a pool operation was refused.
#[derive(Debug, Clone, Copy, PartialEq, Eq, Structural)]
pub enum PoolError {
    /// Every slot is occupied.
    PoolFull,
    /// The id names no occupied slot.
    InvalidClientId,
    /// The slot holds a client of the other kind.
    ClientTypeMismatch,
}

/// Whether slot `i` of `s` holds a client.
pub open spec fn occupied<TCP, SERIAL>(s: Seq<Option<ClientSlot<TCP, SERIAL>>>, i: int) -> bool {
    0 <= i < s.len() && s[i] is Some
}

/// Position of the first free slot of `s` at or after `i`.
pub open spec fn first_free_from<TCP, SERIAL>(s: Seq<Option<ClientSlot<TCP, SERIAL>>>, i: int) -> Option<int>
    decreases s.len() - i,
{
    if i < 0 || i >= s.len() {
        None
    } else if s[i] is None {
        Some(i)
    } else {
        first_free_from(s, i + 1)
    }
}

/// A fixed-capacity pool of client slots, addressed by small integer ids.
pub struct Pool<TCP, SERIAL> {
    slots: Vec<Option<ClientSlot<TCP, SERIAL>>>,
}

impl<TCP, SERIAL> View for Pool<TCP, SERIAL> {
    type V = Seq<Option<ClientSlot<TCP, SERIAL>>>;

    closed spec fn view(&self) -> Seq<Option<ClientSlot<TCP, SERIAL>>> {
        self.slots@
    }
}

impl<TCP, SERIAL> Pool<TCP, SERIAL> {
    /// Creates a pool of `max_clients` free slots.
    pub fn new(max_clients: usize) -> (r: Pool<TCP, SERIAL>)
        ensures
            r@.len() == max_clients,
            forall|i: int| 0 <= i < max_clients ==> #[trigger] r@[i] is None,
    {
        let mut slots: Vec<Option<ClientSlot<TCP, SERIAL>>> = Vec::new();
        let mut i: usize = 0;
        while i < max_clients
            invariant
                i <= max_clients,
                slots@.len() == i,
                forall|j: int| 0 <= j < i ==> #[trigger] slots@[j] is None,
            decreases max_clients - i,
        {
            slots.push(None);
            i = i + 1;
        }
        Pool { slots }
    }

    /// Puts `value` into the first free slot and returns its id; `None`
    /// when every slot is occupied.
    pub fn allocate(&mut self, value: ClientSlot<TCP, SERIAL>) -> (r: Option<MbusClientId>)
        ensures
            match first_free_from(old(self)@, 0) {
                None => r is None && final(self)@ == old(self)@,
                Some(i) => r == Some(i as MbusClientId) && final(self)@ == old(self)@.update(i, Some(value)),
            },
    {
        let n = self.slots.len();
        let mut i: usize = 0;
        while i < n
            invariant
                i <= n,
                n == self.slots@.len(),
                self.slots@ == old(self)@,
                first_free_from(old(self)@, 0) == first_free_from(old(self)@, i as int),
            decreases n - i,
        {
            if self.slots[i].is_none() {
                self.slots.set(i, Some(value));
                return Some(i as MbusClientId);
            }
            i = i + 1;
        }
        None
    }

    /// Empties the slot at `id`; `false` when it names no occupied slot.
    pub fn free(&mut self, id: MbusClientId) -> (r: bool)
        ensures
            r == occupied(old(self)@, id as int),
            r ==> final(self)@ == old(self)@.update(id as int, None),
            !r ==> final(self)@ == old(self)@,
    {
        let idx = id as usize;
        if idx >= self.slots.len() {
            return false;
        }
        if self.slots[idx].is_none() {
            return false;
        }
        self.slots.set(idx, None);
        true
    }

    /// Whether `id` names an occupied slot.
    pub fn is_occupied(&self, id: MbusClientId) -> (r: bool)
        ensures
            r == occupied(self@, id as int),
    {
        let idx = id as usize;
        if idx >= self.slots.len() {
            return false;
        }
        self.slots[idx].is_some()
    }

    /// Mutable access to the TCP client at `id`; `None` when the slot is
    /// free, out of range, or holds a serial client.
    pub fn get_tcp_mut(&mut self, id: MbusClientId) -> (r: Option<&mut TCP>)
        ensures
            match r {
                Some(t) => occupied(old(self)@, id as int)
                    && old(self)@[id as int] == Some(ClientSlot::<TCP, SERIAL>::Tcp(*t))
                    && final(self)@ == old(self)@.update(id as int, Some(ClientSlot::<TCP, SERIAL>::Tcp(*final(t)))),
                None => !(occupied(old(self)@, id as int) && old(self)@[id as int]->Some_0 is Tcp)
                    && final(self)@ == old(self)@,
            },
    {
        let idx = id as usize;
        if idx >= self.slots.len() {
            return None;
        }
        match &mut self.slots[idx] {
            Some(ClientSlot::Tcp(inner)) => Some(inner),
            _ => None,
        }
    }

    /// Mutable access to the serial client at `id`; `None` when the slot is
    /// free, out of range, or holds a TCP client.
    pub fn get_serial_mut(&mut self, id: MbusClientId) -> (r: Option<&mut SERIAL>)
        ensures
            match r {
                Some(t) => occupied(old(self)@, id as int)
                    && old(self)@[id as int] == Some(ClientSlot::<TCP, SERIAL>::Serial(*t))
                    && final(self)@ == old(self)@.update(id as int, Some(ClientSlot::<TCP, SERIAL>::Serial(*final(t)))),
                None => !(occupied(old(self)@, id as int) && old(self)@[id as int]->Some_0 is Serial)
                    && final(self)@ == old(self)@,
            },
    {
        let idx = id as usize;
        if idx >= self.slots.len() {
            return None;
        }
        match &mut self.slots[idx] {
            Some(ClientSlot::Serial(inner)) => Some(inner),
            _ => None,
        }
    }

    /// Allocates a slot for a TCP client.
    ///
    /// Fails with `PoolFull` when every slot is occupied.
    pub fn allocate_tcp(&mut self, inner: TCP) -> (r: Result<MbusClientId, PoolError>)
        ensures
            match first_free_from(old(self)@, 0) {
                None => r == Err::<MbusClientId, PoolError>(PoolError::PoolFull) && final(self)@ == old(self)@,
                Some(i) => r == Ok::<MbusClientId, PoolError>(i as MbusClientId)
                    && final(self)@ == old(self)@.update(i, Some(ClientSlot::<TCP, SERIAL>::Tcp(inner))),
            },
    {
        match self.allocate(ClientSlot::Tcp(inner)) {
            Some(id) => Ok(id),
            None => Err(PoolError::PoolFull),
        }
    }

    /// Allocates a slot for a serial client.
    ///
    /// Fails with `PoolFull` when every slot is occupied.
    pub fn allocate_serial(&mut self, inner: SERIAL) -> (r: Result<MbusClientId, PoolError>)
        ensures
            match first_free_from(old(self)@, 0) {
                None => r == Err::<MbusClientId, PoolError>(PoolError::PoolFull) && final(self)@ == old(self)@,
                Some(i) => r == Ok::<MbusClientId, PoolError>(i as MbusClientId)
                    && final(self)@ == old(self)@.update(i, Some(ClientSlot::<TCP, SERIAL>::Serial(inner))),
            },
    {
        match self.allocate(ClientSlot::Serial(inner)) {
            Some(id) => Ok(id),
            None => Err(PoolError::PoolFull),
        }
    }

    /// The TCP client at `id`.
    ///
    /// Fails with `InvalidClientId` when `id` names no occupied slot and with
    /// `ClientTypeMismatch` when the slot holds a serial client.
    pub fn lookup_tcp(&mut self, id: MbusClientId) -> (r: Result<&mut TCP, PoolError>)
        ensures
            !occupied(old(self)@, id as int) ==> (r matches Err(e) && e == PoolError::InvalidClientId),
            occupied(old(self)@, id as int) && old(self)@[id as int]->Some_0 is Serial ==> (r matches Err(e)
                && e == PoolError::ClientTypeMismatch),
            match r {
                Ok(t) => old(self)@[id as int] == Some(ClientSlot::<TCP, SERIAL>::Tcp(*t))
                    && final(self)@ == old(self)@.update(id as int, Some(ClientSlot::<TCP, SERIAL>::Tcp(*final(t)))),
                Err(_) => final(self)@ == old(self)@,
            },
    {
        if !self.is_occupied(id) {
            return Err(PoolError::InvalidClientId);
        }
        match self.get_tcp_mut(id) {
            Some(t) => Ok(t),
            None => Err(PoolError::ClientTypeMismatch),
        }
    }

    /// The serial client at `id`.
    ///
    /// Fails with `InvalidClientId` when `id` names no occupied slot and with
    /// `ClientTypeMismatch` when the slot holds a TCP client.
    pub fn lookup_serial(&mut self, id: MbusClientId) -> (r: Result<&mut SERIAL, PoolError>)
        ensures
            !occupied(old(self)@, id as int) ==> (r matches Err(e) && e == PoolError::InvalidClientId),
            occupied(old(self)@, id as int) && old(self)@[id as int]->Some_0 is Tcp ==> (r matches Err(e)
                && e == PoolError::ClientTypeMismatch),
            match r {
                Ok(t) => old(self)@[id as int] == Some(ClientSlot::<TCP, SERIAL>::Serial(*t))
                    && final(self)@ == old(self)@.update(id as int, Some(ClientSlot::<TCP, SERIAL>::Serial(*final(t)))),
                Err(_) => final(self)@ == old(self)@,
            },
    {
        if !self.is_occupied(id) {
            return Err(PoolError::InvalidClientId);
        }
        match self.get_serial_mut(id) {
            Some(t) => Ok(t),
            None => Err(PoolError::ClientTypeMismatch),
        }
    }
}

proof fn lemma_first_free_found<TCP, SERIAL>(s: Seq<Option<ClientSlot<TCP, SERIAL>>>, i: int)
    ensures
        first_free_from(s, i) matches Some(k) ==> i <= k < s.len() && s[k] is None && forall|j: int|
            i <= j < k ==> #[trigger] s[j] is Some,
        first_free_from(s, i) is None ==> forall|j: int| 0 <= i <= j < s.len() ==> #[trigger] s[j] is Some,
    decreases s.len() - i,
{
    if 0 <= i < s.len() && s[i] is Some {
        lemma_first_free_found(s, i + 1);
    }
}

/// Allocation takes a free slot and never disturbs an occupied one: the
/// slot it fills was free, every slot before it was occupied, the new client
/// is found again under the returned id (for pools of at most 256 slots, so
/// that ids are distinct), and it is refused only when no slot is free.
pub proof fn lemma_allocate_takes_free_slot<TCP, SERIAL>(s: Seq<Option<ClientSlot<TCP, SERIAL>>>, value: ClientSlot<TCP, SERIAL>)
    requires
        s.len() <= 256,
    ensures
        match first_free_from(s, 0) {
            Some(i) => {
                &&& !occupied(s, i)
                &&& forall|j: int| 0 <= j < i ==> #[trigger] occupied(s, j)
                &&& (i as MbusClientId) as int == i
                &&& occupied(s.update(i, Some(value)), (i as MbusClientId) as int)
                &&& s.update(i, Some(value))[(i as MbusClientId) as int] == Some(value)
                &&& forall|j: int| 0 <= j < s.len() && j != i ==> #[trigger] s.update(i, Some(value))[j] == s[j]
            },
            None => forall|j: int| 0 <= j < s.len() ==> #[trigger] occupied(s, j),
        },
{
    lemma_first_free_found(s, 0);
    if first_free_from(s, 0) is None {
        assert forall|j: int| 0 <= j < s.len() implies #[trigger] occupied(s, j) by {
            assert(s[j] is Some);
        }
    } else {
        let i = first_free_from(s, 0)->Some_0;
        assert forall|j: int| 0 <= j < i implies #[trigger] occupied(s, j) by {
            assert(s[j] is Some);
        }
    }
}

/// A freed slot is free afterwards and can be allocated again.
pub proof fn lemma_free_releases_slot<TCP, SERIAL>(s: Seq<Option<ClientSlot<TCP, SERIAL>>>, id: MbusClientId)
    requires
        occupied(s, id as int),
    ensures
        !occupied(s.update(id as int, None), id as int),
        first_free_from(s.update(id as int, None), 0) is Some,
{
    let t = s.update(id as int, None);
    lemma_first_free_found(t, 0);
    if first_free_from(t, 0) is None {
        assert(t[id as int] is Some);
    }
}

} // verus!
