//! The bidirectional stack arena: one fixed byte buffer holding two stacks of
//! length-tagged frames that grow from opposite ends toward each other.
//!
//! The front stack fills the buffer from offset zero upward, the back stack
//! from the last offset downward. A frame is a payload of at most 255 bytes
//! together with one byte holding the payload's length. The length byte is
//! placed on the side of the frame that faces the free gap, so that the newest
//! frame of either stack can be found from the cursor alone.

use vstd::prelude::*;

verus! {

/// The largest payload a single frame can carry.
pub const MAX_FRAME_LEN: usize = 255;

/// Why a push or a pop on the arena was refused.
#[derive(Debug, Clone, Copy, PartialEq, Eq, Structural)]
pub enum StackError {
    /// The free gap between the two stacks cannot hold the frame.
    InsufficientCapacity,
    /// The payload is longer than a frame's one-byte length can express.
    DataTooLarge,
    /// The stack popped from holds no frame.
    Underflow,
}

impl StackError {
    /// The text of this error as a sequence of characters.
    pub open spec fn message_model(&self) -> Seq<char> {
        match self {
            StackError::InsufficientCapacity => "Not enough space in BidirectionalStack"@,
            StackError::DataTooLarge => "Data size exceeds maximum allowed length"@,
            StackError::Underflow => "Stack underflow - attempted to read from empty stack"@,
        }
    }

    /// The text of this error.
    pub fn message(&self) -> (text: String)
        ensures
            text@ == self.message_model(),
    {
        match self {
            StackError::InsufficientCapacity => String::from_str(
                "Not enough space in BidirectionalStack",
            ),
            StackError::DataTooLarge => String::from_str(
                "Data size exceeds maximum allowed length",
            ),
            StackError::Underflow => String::from_str(
                "Stack underflow - attempted to read from empty stack",
            ),
        }
    }
}

/// Total bytes that a sequence of frames occupies: each payload plus its length byte.
pub open spec fn frames_size(frames: Seq<Seq<u8>>) -> nat
    decreases frames.len(),
{
    if frames.len() == 0 {
        0
    } else {
        frames_size(frames.drop_last()) + frames.last().len() + 1
    }
}

/// The arena as a mathematical value: the frames of either stack, oldest first
/// (so the top of a stack is the last element), and the byte capacity both share.
pub struct ArenaModel {
    pub front: Seq<Seq<u8>>,
    pub back: Seq<Seq<u8>>,
    pub capacity: nat,
}

impl ArenaModel {
    /// An arena of the given capacity with both stacks empty.
    pub open spec fn empty(capacity: nat) -> ArenaModel {
        ArenaModel { front: Seq::empty(), back: Seq::empty(), capacity }
    }

    /// Offset of the next free byte of the front stack; zero when it is empty.
    pub open spec fn front_cursor(self) -> int {
        frames_size(self.front) as int
    }

    /// Offset just above the free gap, where the newest back frame begins;
    /// equal to the capacity when the back stack is empty.
    pub open spec fn back_cursor(self) -> int {
        self.capacity - frames_size(self.back)
    }

    /// Bytes left in the gap between the two stacks.
    pub open spec fn available(self) -> int {
        self.back_cursor() - self.front_cursor()
    }

    /// The two stacks do not overlap and every frame fits its length byte.
    pub open spec fn wf(self) -> bool {
        &&& self.front_cursor() <= self.back_cursor()
        &&& forall|i: int|
            0 <= i < self.front.len() ==> (#[trigger] self.front[i]).len() <= MAX_FRAME_LEN
        &&& forall|i: int|
            0 <= i < self.back.len() ==> (#[trigger] self.back[i]).len() <= MAX_FRAME_LEN
    }

    /// The error with which a push of `data` on either end is refused, if it is:
    /// an oversized payload is reported before a lack of room, and room is
    /// lacking unless the gap holds the payload and its length byte.
    pub open spec fn push_error(self, data: Seq<u8>) -> Option<StackError> {
        if data.len() > MAX_FRAME_LEN {
            Some(StackError::DataTooLarge)
        } else if self.available() < data.len() + 1 {
            Some(StackError::InsufficientCapacity)
        } else {
            None
        }
    }

    /// The arena with `data` as the newest frame of the front stack.
    pub open spec fn push_front(self, data: Seq<u8>) -> ArenaModel {
        ArenaModel { front: self.front.push(data), ..self }
    }

    /// The arena with `data` as the newest frame of the back stack.
    pub open spec fn push_back(self, data: Seq<u8>) -> ArenaModel {
        ArenaModel { back: self.back.push(data), ..self }
    }

    /// The arena without the newest frame of the front stack.
    pub open spec fn pop_front(self) -> ArenaModel {
        ArenaModel { front: self.front.drop_last(), ..self }
    }

    /// The arena without the newest frame of the back stack.
    pub open spec fn pop_back(self) -> ArenaModel {
        ArenaModel { back: self.back.drop_last(), ..self }
    }

    /// The arena with both stacks emptied.
    pub open spec fn clear(self) -> ArenaModel {
        ArenaModel::empty(self.capacity)
    }
}

/// Pushing a frame grows the occupied bytes by the payload and one length byte.
pub proof fn lemma_frames_size_push(frames: Seq<Seq<u8>>, data: Seq<u8>)
    ensures
        frames_size(frames.push(data)) == frames_size(frames) + data.len() + 1,
{
    assert(frames.push(data).drop_last() =~= frames);
}

/// A push that is not refused keeps the arena well formed and uses up the
/// payload's length plus one byte of the gap.
pub proof fn lemma_push_keeps_wf(m: ArenaModel, data: Seq<u8>)
    requires
        m.wf(),
        m.push_error(data) is None,
    ensures
        m.push_front(data).wf(),
        m.push_back(data).wf(),
        m.push_front(data).available() == m.available() - data.len() - 1,
        m.push_back(data).available() == m.available() - data.len() - 1,
{
    lemma_frames_size_push(m.front, data);
    lemma_frames_size_push(m.back, data);
}

/// A pop keeps the arena well formed and gives the popped payload's length
/// plus one byte back to the gap.
pub proof fn lemma_pop_keeps_wf(m: ArenaModel)
    requires
        m.wf(),
    ensures
        m.front.len() > 0 ==> m.pop_front().wf() && m.pop_front().available() == m.available()
            + m.front.last().len() + 1,
        m.back.len() > 0 ==> m.pop_back().wf() && m.pop_back().available() == m.available()
            + m.back.last().len() + 1,
{
}

/// Frame round trip: a payload of at most 255 bytes that was pushed on either
/// end is what the next pop from that end returns, and that pop puts the arena,
/// and with it the cursor, back to where it was before the push.
pub proof fn lemma_round_trip(m: ArenaModel, data: Seq<u8>)
    ensures
        m.push_front(data).front.last() == data,
        m.push_front(data).pop_front() == m,
        m.push_front(data).pop_front().front_cursor() == m.front_cursor(),
        m.push_back(data).back.last() == data,
        m.push_back(data).pop_back() == m,
        m.push_back(data).pop_back().back_cursor() == m.back_cursor(),
{
    assert(m.front.push(data).drop_last() =~= m.front);
    assert(m.back.push(data).drop_last() =~= m.back);
}

/// Capacity boundary: a payload as long as the whole gap is refused, because
/// its length byte has no room; a payload one byte shorter than the gap, if
/// it fits a frame, is accepted.
pub proof fn lemma_capacity_boundary(m: ArenaModel, data: Seq<u8>)
    requires
        m.wf(),
    ensures
        data.len() == m.available() ==> m.push_error(data) is Some,
        data.len() + 1 == m.available() && data.len() <= MAX_FRAME_LEN ==> m.push_error(data)
            is None,
{
}

/// Stack discipline: two frames pushed on the same end come back newest first,
/// after which the arena is as it was.
pub proof fn lemma_lifo(m: ArenaModel, a: Seq<u8>, b: Seq<u8>)
    ensures
        m.push_front(a).push_front(b).front.last() == b,
        m.push_front(a).push_front(b).pop_front().front.last() == a,
        m.push_front(a).push_front(b).pop_front().pop_front() == m,
        m.push_back(a).push_back(b).back.last() == b,
        m.push_back(a).push_back(b).pop_back().back.last() == a,
        m.push_back(a).push_back(b).pop_back().pop_back() == m,
{
    lemma_round_trip(m, a);
    lemma_round_trip(m.push_front(a), b);
    lemma_round_trip(m.push_back(a), b);
}

/// Bidirectionality: a push or a pop on one end leaves the frames of the other
/// end untouched, so interleaved pushes on the two ends can be reordered
/// without changing what either stack holds.
pub proof fn lemma_ends_independent(m: ArenaModel, a: Seq<u8>, b: Seq<u8>)
    ensures
        m.push_front(a).back == m.back,
        m.pop_front().back == m.back,
        m.push_back(b).front == m.front,
        m.pop_back().front == m.front,
        m.push_front(a).push_back(b) == m.push_back(b).push_front(a),
        m.push_front(a).push_back(b).pop_front() == m.push_back(b),
        m.push_front(a).push_back(b).pop_back() == m.push_front(a),
{
    lemma_round_trip(m, a);
    lemma_round_trip(m, b);
    lemma_round_trip(m.push_back(b), a);
    lemma_round_trip(m.push_front(a), b);
}

/// Frames of the front stack as laid out in `buf[0..end)`: each frame is its
/// payload followed by its length byte, so the newest length sits at `end - 1`.
spec fn front_frames_of(buf: Seq<u8>, end: int) -> Seq<Seq<u8>>
    decreases end,
{
    if end <= 0 || end > buf.len() {
        Seq::empty()
    } else {
        let start = end - 1 - buf[end - 1];
        if start < 0 {
            Seq::empty()
        } else {
            front_frames_of(buf, start).push(buf.subrange(start, end - 1))
        }
    }
}

/// `buf[0..end)` is exactly a run of front frames.
spec fn front_valid(buf: Seq<u8>, end: int) -> bool
    decreases end,
{
    end == 0 || (0 < end <= buf.len() && {
        let start = end - 1 - buf[end - 1];
        start >= 0 && front_valid(buf, start)
    })
}

/// Frames of the back stack as laid out in `buf[start..)`: each frame is its
/// length byte followed by its payload, so the newest length sits at `start`.
spec fn back_frames_of(buf: Seq<u8>, start: int) -> Seq<Seq<u8>>
    decreases buf.len() - start,
{
    if start < 0 || start >= buf.len() {
        Seq::empty()
    } else {
        let next = start + 1 + buf[start];
        if next > buf.len() {
            Seq::empty()
        } else {
            back_frames_of(buf, next).push(buf.subrange(start + 1, next))
        }
    }
}

/// `buf[start..)` is exactly a run of back frames.
spec fn back_valid(buf: Seq<u8>, start: int) -> bool
    decreases buf.len() - start,
{
    start == buf.len() || (0 <= start < buf.len() && {
        let next = start + 1 + buf[start];
        next <= buf.len() && back_valid(buf, next)
    })
}

/// The front frames depend only on the bytes below the cursor.
proof fn lemma_front_local(a: Seq<u8>, b: Seq<u8>, end: int)
    requires
        a.len() == b.len(),
        forall|i: int| 0 <= i < end && i < a.len() ==> a[i] == b[i],
    ensures
        front_valid(a, end) == front_valid(b, end),
        front_frames_of(a, end) == front_frames_of(b, end),
    decreases end,
{
    if 0 < end <= a.len() {
        let start = end - 1 - a[end - 1];
        if start >= 0 {
            lemma_front_local(a, b, start);
            assert(a.subrange(start, end - 1) =~= b.subrange(start, end - 1));
        }
    }
}

/// The back frames depend only on the bytes at and above the cursor.
proof fn lemma_back_local(a: Seq<u8>, b: Seq<u8>, start: int)
    requires
        a.len() == b.len(),
        forall|i: int| start <= i < a.len() && 0 <= i ==> a[i] == b[i],
    ensures
        back_valid(a, start) == back_valid(b, start),
        back_frames_of(a, start) == back_frames_of(b, start),
    decreases a.len() - start,
{
    if 0 <= start < a.len() {
        let next = start + 1 + a[start];
        if next <= a.len() {
            lemma_back_local(a, b, next);
            assert(a.subrange(start + 1, next) =~= b.subrange(start + 1, next));
        }
    }
}

/// A valid front run of `end` bytes holds frames of `end` bytes in all.
proof fn lemma_front_size(buf: Seq<u8>, end: int)
    requires
        front_valid(buf, end),
    ensures
        frames_size(front_frames_of(buf, end)) == end,
        (front_frames_of(buf, end).len() == 0) == (end == 0),
        forall|i: int|
            0 <= i < front_frames_of(buf, end).len() ==> (#[trigger] front_frames_of(
                buf,
                end,
            )[i]).len() <= MAX_FRAME_LEN,
    decreases end,
{
    if end != 0 {
        let start = end - 1 - buf[end - 1];
        lemma_front_size(buf, start);
        let rest = front_frames_of(buf, start);
        let top = buf.subrange(start, end - 1);
        assert(rest.push(top).drop_last() =~= rest);
    }
}

/// A valid back run from `start` holds frames of `buf.len() - start` bytes in all.
proof fn lemma_back_size(buf: Seq<u8>, start: int)
    requires
        back_valid(buf, start),
    ensures
        frames_size(back_frames_of(buf, start)) == buf.len() - start,
        (back_frames_of(buf, start).len() == 0) == (start == buf.len()),
        forall|i: int|
            0 <= i < back_frames_of(buf, start).len() ==> (#[trigger] back_frames_of(
                buf,
                start,
            )[i]).len() <= MAX_FRAME_LEN,
    decreases buf.len() - start,
{
    if start != buf.len() {
        let next = start + 1 + buf[start];
        lemma_back_size(buf, next);
        let rest = back_frames_of(buf, next);
        let top = buf.subrange(start + 1, next);
        assert(rest.push(top).drop_last() =~= rest);
    }
}

/// A bidirectional stack over `CAPACITY` bytes.
///
/// Both stacks live in one buffer and share its free space; neither has a
/// size limit of its own. The view is an [`ArenaModel`].
#[derive(Debug)]
pub struct BidirectionalStack<const CAPACITY: usize> {
    buffer: [u8; CAPACITY],
    /// Next free offset of the front stack.
    front_index: usize,
    /// Offset of the newest back frame; `CAPACITY` when there is none.
    back_index: usize,
}

impl<const CAPACITY: usize> View for BidirectionalStack<CAPACITY> {
    type V = ArenaModel;

    closed spec fn view(&self) -> ArenaModel {
        ArenaModel {
            front: front_frames_of(self.buffer@, self.front_index as int),
            back: back_frames_of(self.buffer@, self.back_index as int),
            capacity: CAPACITY as nat,
        }
    }
}

impl<const CAPACITY: usize> BidirectionalStack<CAPACITY> {
    #[verifier::type_invariant]
    spec fn inv(self) -> bool {
        &&& self.front_index <= self.back_index <= CAPACITY
        &&& front_valid(self.buffer@, self.front_index as int)
        &&& back_valid(self.buffer@, self.back_index as int)
    }

    /// Every stack value is well formed as a model, and its two cursors are
    /// the ones the model derives from the frames.
    proof fn lemma_view(&self)
        requires
            self.inv(),
        ensures
            self@.wf(),
            self@.capacity == CAPACITY,
            self@.front_cursor() == self.front_index,
            self@.back_cursor() == self.back_index,
            (self@.front.len() == 0) == (self.front_index == 0),
            (self@.back.len() == 0) == (self.back_index == CAPACITY),
    {
        lemma_front_size(self.buffer@, self.front_index as int);
        lemma_back_size(self.buffer@, self.back_index as int);
    }

    /// Creates an empty stack.
    pub fn new() -> (s: Self)
        ensures
            s@ == ArenaModel::empty(CAPACITY as nat),
    {
        BidirectionalStack { buffer: [0u8; CAPACITY], front_index: 0, back_index: CAPACITY }
    }

    /// Returns the number of bytes left between the two stacks.
    pub fn available_capacity(&self) -> (n: usize)
        ensures
            n == self@.available(),
            self@.wf(),
            self@.capacity == CAPACITY,
    {
        proof {
            use_type_invariant(self);
            self.lemma_view();
        }
        self.back_index - self.front_index
    }

    /// Returns true if the front stack holds no frame.
    pub fn is_empty_front(&self) -> (b: bool)
        ensures
            b == (self@.front.len() == 0),
    {
        proof {
            use_type_invariant(self);
            self.lemma_view();
        }
        self.front_index == 0
    }

    /// Returns true if the back stack holds no frame.
    pub fn is_empty_back(&self) -> (b: bool)
        ensures
            b == (self@.back.len() == 0),
    {
        proof {
            use_type_invariant(self);
            self.lemma_view();
        }
        self.back_index == CAPACITY
    }

    /// Returns true if neither stack holds a frame.
    pub fn is_empty(&self) -> (b: bool)
        ensures
            b == (self@.front.len() == 0 && self@.back.len() == 0),
    {
        self.is_empty_front() && self.is_empty_back()
    }

    /// Checks that the gap can take a payload of `data_size` bytes and its length byte.
    fn has_capacity_for(&self, data_size: usize) -> (b: bool)
        ensures
            b == (self@.available() >= data_size + 1),
            self@.wf(),
            self@.capacity == CAPACITY,
    {
        self.available_capacity() > data_size
    }

    /// Pushes `data` as a new frame on the front stack.
    ///
    /// A refused push leaves the stack exactly as it was.
    pub fn push_front(&mut self, data: &[u8]) -> (r: Result<(), StackError>)
        ensures
            match old(self)@.push_error(data@) {
                Some(e) => r == Err::<(), StackError>(e) && *final(self) == *old(self),
                None => r is Ok && final(self)@ == old(self)@.push_front(data@),
            },
    {
        let n = data.len();
        if n > MAX_FRAME_LEN {
            return Err(StackError::DataTooLarge);
        }
        if !self.has_capacity_for(n) {
            return Err(StackError::InsufficientCapacity);
        }
        proof {
            use_type_invariant(&*self);
            self.lemma_view();
        }
        let start = self.front_index;
        let ghost before = self.buffer@;
        let mut i: usize = 0;
        while i < n
            invariant
                n == data@.len(),
                n <= MAX_FRAME_LEN,
                i <= n,
                start == self.front_index,
                start + n < self.back_index <= CAPACITY,
                self.back_index == old(self).back_index,
                before == old(self).buffer@,
                front_valid(self.buffer@, start as int),
                back_valid(self.buffer@, self.back_index as int),
                forall|j: int| 0 <= j < start ==> self.buffer@[j] == before[j],
                forall|j: int| self.back_index <= j < CAPACITY ==> self.buffer@[j] == before[j],
                forall|j: int| 0 <= j < i ==> self.buffer@[start + j] == data@[j],
            decreases n - i,
        {
            proof {
                let after = self.buffer@.update(start + i, data@[i as int]);
                lemma_front_local(self.buffer@, after, start as int);
                lemma_back_local(self.buffer@, after, self.back_index as int);
            }
            self.buffer[start + i] = data[i];
            i += 1;
        }
        proof {
            let after = self.buffer@.update(start + n, n as u8);
            lemma_front_local(self.buffer@, after, start as int);
            lemma_back_local(self.buffer@, after, self.back_index as int);
        }
        self.buffer[start + n] = n as u8;
        self.front_index = start + n + 1;
        proof {
            lemma_front_local(before, self.buffer@, start as int);
            lemma_back_local(before, self.buffer@, self.back_index as int);
            assert(self.buffer@.subrange(start as int, start + n) =~= data@);
        }
        Ok(())
    }

    /// Pops the newest frame of the front stack and returns its payload.
    pub fn pop_front(&mut self) -> (r: Result<Vec<u8>, StackError>)
        ensures
            old(self)@.wf(),
            match r {
                Ok(payload) => {
                    &&& old(self)@.front.len() > 0
                    &&& payload@ == old(self)@.front.last()
                    &&& final(self)@ == old(self)@.pop_front()
                },
                Err(e) => {
                    &&& e == StackError::Underflow
                    &&& old(self)@.front.len() == 0
                    &&& *final(self) == *old(self)
                },
            },
    {
        proof {
            use_type_invariant(&*self);
            self.lemma_view();
        }
        if self.is_empty_front() {
            return Err(StackError::Underflow);
        }
        let n = self.buffer[self.front_index - 1] as usize;
        let start = self.front_index - 1 - n;
        let mut result: Vec<u8> = Vec::with_capacity(n);
        let mut i: usize = 0;
        while i < n
            invariant
                i <= n,
                start + n < CAPACITY,
                result@ == self.buffer@.subrange(start as int, start + i),
            decreases n - i,
        {
            result.push(self.buffer[start + i]);
            i += 1;
            assert(result@ =~= self.buffer@.subrange(start as int, start + i));
        }
        self.front_index = start;
        proof {
            let rest = front_frames_of(self.buffer@, start as int);
            assert(rest.push(result@).drop_last() =~= rest);
        }
        Ok(result)
    }

    /// Returns a copy of the payload of the newest front frame and leaves it in place.
    pub fn peek_front(&self) -> (r: Result<Vec<u8>, StackError>)
        ensures
            match r {
                Ok(payload) => self@.front.len() > 0 && payload@ == self@.front.last(),
                Err(e) => e == StackError::Underflow && self@.front.len() == 0,
            },
    {
        if self.is_empty_front() {
            return Err(StackError::Underflow);
        }
        proof {
            use_type_invariant(self);
            self.lemma_view();
        }
        let n = self.buffer[self.front_index - 1] as usize;
        let start = self.front_index - 1 - n;
        let mut result: Vec<u8> = Vec::with_capacity(n);
        let mut i: usize = 0;
        while i < n
            invariant
                i <= n,
                start + n < CAPACITY,
                result@ == self.buffer@.subrange(start as int, start + i),
            decreases n - i,
        {
            result.push(self.buffer[start + i]);
            i += 1;
            assert(result@ =~= self.buffer@.subrange(start as int, start + i));
        }
        Ok(result)
    }

    /// Pushes `data` as a new frame on the back stack.
    ///
    /// A refused push leaves the stack exactly as it was.
    pub fn push_back(&mut self, data: &[u8]) -> (r: Result<(), StackError>)
        ensures
            match old(self)@.push_error(data@) {
                Some(e) => r == Err::<(), StackError>(e) && *final(self) == *old(self),
                None => r is Ok && final(self)@ == old(self)@.push_back(data@),
            },
    {
        let n = data.len();
        if n > MAX_FRAME_LEN {
            return Err(StackError::DataTooLarge);
        }
        if !self.has_capacity_for(n) {
            return Err(StackError::InsufficientCapacity);
        }
        proof {
            use_type_invariant(&*self);
            self.lemma_view();
        }
        let old_back = self.back_index;
        let start = old_back - n - 1;
        let ghost before = self.buffer@;
        proof {
            let after = self.buffer@.update(start as int, n as u8);
            lemma_front_local(self.buffer@, after, self.front_index as int);
            lemma_back_local(self.buffer@, after, old_back as int);
        }
        self.buffer[start] = n as u8;
        let mut i: usize = 0;
        while i < n
            invariant
                n == data@.len(),
                n <= MAX_FRAME_LEN,
                i <= n,
                old_back == self.back_index,
                old_back <= CAPACITY,
                start + n + 1 == old_back,
                self.front_index <= start,
                self.front_index == old(self).front_index,
                before == old(self).buffer@,
                front_valid(self.buffer@, self.front_index as int),
                back_valid(self.buffer@, old_back as int),
                forall|j: int| 0 <= j < self.front_index ==> self.buffer@[j] == before[j],
                forall|j: int| old_back <= j < CAPACITY ==> self.buffer@[j] == before[j],
                self.buffer@[start as int] == n,
                forall|j: int| 0 <= j < i ==> self.buffer@[start + 1 + j] == data@[j],
            decreases n - i,
        {
            proof {
                let after = self.buffer@.update(start + 1 + i, data@[i as int]);
                lemma_front_local(self.buffer@, after, self.front_index as int);
                lemma_back_local(self.buffer@, after, old_back as int);
            }
            self.buffer[start + 1 + i] = data[i];
            i += 1;
        }
        self.back_index = start;
        proof {
            lemma_front_local(before, self.buffer@, self.front_index as int);
            lemma_back_local(before, self.buffer@, old_back as int);
            assert(self.buffer@.subrange(start + 1, old_back as int) =~= data@);
        }
        Ok(())
    }

    /// Pops the newest frame of the back stack and returns its payload.
    pub fn pop_back(&mut self) -> (r: Result<Vec<u8>, StackError>)
        ensures
            old(self)@.wf(),
            match r {
                Ok(payload) => {
                    &&& old(self)@.back.len() > 0
                    &&& payload@ == old(self)@.back.last()
                    &&& final(self)@ == old(self)@.pop_back()
                },
                Err(e) => {
                    &&& e == StackError::Underflow
                    &&& old(self)@.back.len() == 0
                    &&& *final(self) == *old(self)
                },
            },
    {
        proof {
            use_type_invariant(&*self);
            self.lemma_view();
        }
        if self.is_empty_back() {
            return Err(StackError::Underflow);
        }
        let start = self.back_index;
        let n = self.buffer[start] as usize;
        let mut result: Vec<u8> = Vec::with_capacity(n);
        let mut i: usize = 0;
        while i < n
            invariant
                i <= n,
                start + 1 + n <= CAPACITY,
                result@ == self.buffer@.subrange(start + 1, start + 1 + i),
            decreases n - i,
        {
            result.push(self.buffer[start + 1 + i]);
            i += 1;
            assert(result@ =~= self.buffer@.subrange(start + 1, start + 1 + i));
        }
        self.back_index = start + 1 + n;
        proof {
            let rest = back_frames_of(self.buffer@, start + 1 + n);
            assert(rest.push(result@).drop_last() =~= rest);
        }
        Ok(result)
    }

    /// Empties both stacks by resetting the cursors; the bytes stay as they are.
    pub fn clear(&mut self)
        ensures
            final(self)@ == old(self)@.clear(),
    {
        proof {
            use_type_invariant(&*self);
        }
        self.front_index = 0;
        self.back_index = CAPACITY;
    }
}

impl<const CAPACITY: usize> Default for BidirectionalStack<CAPACITY> {
    fn default() -> (s: Self)
        ensures
            s@ == ArenaModel::empty(CAPACITY as nat),
    {
        BidirectionalStack::new()
    }
}

impl<const CAPACITY: usize> Clone for BidirectionalStack<CAPACITY> {
    fn clone(&self) -> (s: Self)
        ensures
            s == *self,
    {
        proof {
            use_type_invariant(self);
        }
        BidirectionalStack {
            buffer: self.buffer,
            front_index: self.front_index,
            back_index: self.back_index,
        }
    }
}

} // verus!
