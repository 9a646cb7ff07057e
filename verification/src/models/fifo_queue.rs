use vstd::prelude::*;

verus! {

/// The maximum number of registers a single Read FIFO Queue response returns.
pub const MAX_FIFO_QUEUE_COUNT_PER_PDU: usize = 31;

/// The mathematical content of a FIFO queue read.
pub struct FifoQueueView {
    /// Address of the FIFO pointer that was read.
    pub ptr_address: u16,
    /// The whole register buffer (`MAX_FIFO_QUEUE_COUNT_PER_PDU` values).
    pub queue: Seq<u16>,
    /// Number of valid registers at the front of the buffer.
    pub length: nat,
}

/// The registers returned by a Read FIFO Queue request.
#[derive(Debug, Clone, Copy)]
pub struct FifoQueue {
    ptr_address: u16,
    queue: [u16; MAX_FIFO_QUEUE_COUNT_PER_PDU],
    length: usize,
}

impl View for FifoQueue {
    type V = FifoQueueView;

    closed spec fn view(&self) -> FifoQueueView {
        FifoQueueView { ptr_address: self.ptr_address, queue: self.queue@, length: self.length as nat }
    }
}

impl FifoQueue {
    #[verifier::type_invariant]
    spec fn inv(self) -> bool {
        self.length <= MAX_FIFO_QUEUE_COUNT_PER_PDU
    }

    /// Creates an empty queue for the FIFO pointer at `ptr_address`.
    pub fn new(ptr_address: u16) -> (r: FifoQueue)
        ensures
            r@ == (FifoQueueView {
                ptr_address,
                queue: Seq::new(MAX_FIFO_QUEUE_COUNT_PER_PDU as nat, |i: int| 0u16),
                length: 0,
            }),
    {
        let q = FifoQueue { ptr_address, queue: [0u16; MAX_FIFO_QUEUE_COUNT_PER_PDU], length: 0 };
        assert(q@.queue =~= Seq::new(MAX_FIFO_QUEUE_COUNT_PER_PDU as nat, |i: int| 0u16));
        q
    }

    /// Address of the FIFO pointer.
    pub fn ptr_address(&self) -> (r: u16)
        ensures
            r == self@.ptr_address,
    {
        self.ptr_address
    }

    /// The valid registers: the first `length` values of the buffer.
    pub fn queue(&self) -> (r: &[u16])
        ensures
            r@ == self@.queue.take(self@.length as int),
    {
        proof {
            use_type_invariant(self);
        }
        vstd::slice::slice_subrange(self.queue.as_slice(), 0, self.length)
    }

    /// Number of valid registers.
    pub fn length(&self) -> (r: usize)
        ensures
            r == self@.length,
            r <= MAX_FIFO_QUEUE_COUNT_PER_PDU,
    {
        proof {
            use_type_invariant(self);
        }
        self.length
    }

    /// Loads the register buffer and sets the number of valid registers,
    /// clamped to `MAX_FIFO_QUEUE_COUNT_PER_PDU`.
    pub fn with_values(self, values: [u16; MAX_FIFO_QUEUE_COUNT_PER_PDU], length: usize) -> (r: FifoQueue)
        ensures
            r@ == (FifoQueueView {
                ptr_address: self@.ptr_address,
                queue: values@,
                length: if length <= MAX_FIFO_QUEUE_COUNT_PER_PDU {
                    length as nat
                } else {
                    MAX_FIFO_QUEUE_COUNT_PER_PDU as nat
                },
            }),
    {
        let clamped = if length <= MAX_FIFO_QUEUE_COUNT_PER_PDU {
            length
        } else {
            MAX_FIFO_QUEUE_COUNT_PER_PDU
        };
        FifoQueue { ptr_address: self.ptr_address, queue: values, length: clamped }
    }
}

} // verus!
