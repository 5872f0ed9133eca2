//! Admission of connections, before any request on them is known.
use vstd::prelude::*;

verus! {

/// The connections that are kept free for probes from the same host.
pub const LOOPBACK_RESERVE: usize = 4;

/// The longest accepted request head, in bytes.
pub const MAX_HEAD_BYTES: usize = 16_384;

/// How many connections are served, and for how long.
#[derive(Clone, Copy, Debug, PartialEq, Eq, Structural)]
pub struct ConnectionLimits {
    pub max_connections: usize,
    /// The longest time for the head of a request, in milliseconds.
    pub header_millis: u64,
    /// The longest time for a connection, in milliseconds.
    pub lifetime_millis: u64,
}

impl Default for ConnectionLimits {
    fn default() -> (limits: Self)
        ensures
            limits == (ConnectionLimits {
                max_connections: 512,
                header_millis: 5_000,
                lifetime_millis: 30_000,
            }),
    {
        ConnectionLimits { max_connections: 512, header_millis: 5_000, lifetime_millis: 30_000 }
    }
}

/// The open connections, and how many there may be.
#[derive(Clone, Copy, Debug, PartialEq, Eq, Structural)]
pub struct ConnectionGate {
    pub max_connections: usize,
    pub remote: usize,
    pub loopback: usize,
}

impl ConnectionGate {
    /// How many connections other hosts may hold: all but the reserve, and at least one.
    pub open spec fn remote_limit(self) -> nat {
        if self.max_connections > LOOPBACK_RESERVE {
            (self.max_connections - LOOPBACK_RESERVE) as nat
        } else if self.max_connections > 0 {
            1
        } else {
            0
        }
    }

    /// Whether the open connections are within the limits.
    pub open spec fn wf(self) -> bool {
        &&& self.remote + self.loopback <= self.max_connections
        &&& self.remote <= self.remote_limit()
    }

    /// Whether there is room for a connection.
    pub open spec fn has_room(self, loopback: bool) -> bool {
        &&& self.remote + self.loopback < self.max_connections
        &&& loopback || self.remote < self.remote_limit()
    }

    /// A gate without open connections.
    pub fn new(max_connections: usize) -> (gate: ConnectionGate)
        ensures
            gate == (ConnectionGate { max_connections, remote: 0, loopback: 0 }),
            gate.wf(),
    {
        ConnectionGate { max_connections, remote: 0, loopback: 0 }
    }

    /// Takes a place for a connection, where there is room.
    pub fn enter(&mut self, loopback: bool) -> (entered: bool)
        requires
            old(self).wf(),
        ensures
            final(self).wf(),
            entered == old(self).has_room(loopback),
            *final(self) == if !entered {
                *old(self)
            } else if loopback {
                ConnectionGate { loopback: (old(self).loopback + 1) as usize, ..*old(self) }
            } else {
                ConnectionGate { remote: (old(self).remote + 1) as usize, ..*old(self) }
            },
    {
        if self.remote >= self.max_connections - self.loopback {
            return false;
        }
        if loopback {
            self.loopback += 1;
            return true;
        }
        let limit = if self.max_connections > LOOPBACK_RESERVE {
            self.max_connections - LOOPBACK_RESERVE
        } else {
            1
        };
        if self.remote >= limit {
            return false;
        }
        self.remote += 1;
        true
    }

    /// Gives back the place of a connection.
    pub fn leave(&mut self, loopback: bool)
        requires
            old(self).wf(),
            loopback ==> old(self).loopback > 0,
            !loopback ==> old(self).remote > 0,
        ensures
            final(self).wf(),
            *final(self) == if loopback {
                ConnectionGate { loopback: (old(self).loopback - 1) as usize, ..*old(self) }
            } else {
                ConnectionGate { remote: (old(self).remote - 1) as usize, ..*old(self) }
            },
    {
        if loopback {
            self.loopback -= 1;
        } else {
            self.remote -= 1;
        }
    }
}

/// However many connections other hosts hold, probes from the same host find the reserve.
pub proof fn law_probes_find_room(gate: ConnectionGate)
    requires
        gate.wf(),
        gate.max_connections > LOOPBACK_RESERVE,
        gate.loopback < LOOPBACK_RESERVE,
    ensures
        gate.has_room(true),
{
}

/// A place that was given back is free again.
pub proof fn law_leaving_frees_a_place(gate: ConnectionGate, loopback: bool)
    requires
        gate.wf(),
        loopback ==> gate.loopback > 0,
        !loopback ==> gate.remote > 0,
    ensures
        loopback ==> (ConnectionGate { loopback: (gate.loopback - 1) as usize, ..gate }).has_room(
            true,
        ),
        !loopback ==> (ConnectionGate { remote: (gate.remote - 1) as usize, ..gate }).has_room(
            false,
        ),
{
}

/// How many bytes the empty lines before a request take up. A line is closed by a line feed, with
/// or without a carriage return before it.
pub open spec fn leading_lines(bytes: Seq<u8>) -> int
    decreases bytes.len(),
{
    if bytes.len() == 0 {
        0
    } else {
        let before = leading_lines(bytes.drop_last());
        let length = bytes.len() as int;
        if bytes.last() == 10 && (before == length - 1 || (before == length - 2 && bytes[before]
            == 13)) {
            length
        } else {
            before
        }
    }
}

/// Whether the empty line that ends a request head is closed at a place: behind the empty lines
/// before the request, a line feed and then one more, with or without a carriage return between
/// them.
pub open spec fn head_ends_at(bytes: Seq<u8>, end: int) -> bool {
    let start = leading_lines(bytes);
    &&& end <= bytes.len()
    &&& {
        ||| start <= end - 2 && bytes[end - 2] == 10 && bytes[end - 1] == 10
        ||| start <= end - 3 && bytes[end - 3] == 10 && bytes[end - 2] == 13 && bytes[end - 1] == 10
    }
}

/// Whether bytes hold a whole request head.
pub open spec fn holds_head(bytes: Seq<u8>) -> bool {
    exists|end: int| #[trigger] head_ends_at(bytes, end)
}

/// How far a request head has come in.
#[derive(Clone, Copy, Debug, PartialEq, Eq, Structural)]
pub enum HeadState {
    Incomplete,
    Complete,
    TooLong,
}

/// Watches the bytes of a connection for the end of the request head.
#[derive(Debug, PartialEq)]
pub struct HeadWatch {
    head: Vec<u8>,
    /// Where the request starts, behind the empty lines before it.
    start: usize,
    state: HeadState,
}

impl HeadWatch {
    /// The bytes that have come in while the head was incomplete.
    pub closed spec fn received(self) -> Seq<u8> {
        self.head@
    }

    /// How far the head has come in.
    pub closed spec fn progress(self) -> HeadState {
        self.state
    }

    /// Whether the request is known to start where it does.
    pub closed spec fn start_known(self) -> bool {
        self.start == leading_lines(self.head@)
    }

    /// Whether the progress is that of the bytes.
    pub open spec fn wf(self) -> bool {
        match self.progress() {
            HeadState::Incomplete => {
                &&& !holds_head(self.received())
                &&& self.received().len() <= MAX_HEAD_BYTES
                &&& self.start_known()
            },
            HeadState::Complete => true,
            HeadState::TooLong => true,
        }
    }

    /// A connection on which nothing has come in.
    pub fn new() -> (watch: HeadWatch)
        ensures
            watch.wf(),
            watch.received() == Seq::<u8>::empty(),
            watch.progress() == HeadState::Incomplete,
    {
        HeadWatch { head: Vec::new(), start: 0, state: HeadState::Incomplete }
    }

    /// How far the head has come in.
    pub fn state(&self) -> (state: HeadState)
        ensures
            state == self.progress(),
    {
        self.state
    }

    /// Takes in bytes. The head is complete with the empty line that ends it; one that is too long
    /// without it stays so.
    pub fn receive(&mut self, bytes: &[u8])
        requires
            old(self).wf(),
        ensures
            final(self).wf(),
            old(self).progress() != HeadState::Incomplete ==> final(self).progress() == old(
                self,
            ).progress(),
            old(self).progress() == HeadState::Incomplete ==> final(self).progress()
                == head_state(old(self).received() + bytes@),
            final(self).progress() == HeadState::Incomplete ==> final(self).received() == old(
                self,
            ).received() + bytes@,
    {
        match self.state {
            HeadState::Incomplete => {},
            _ => {
                return;
            },
        }
        let ghost before = self.head@;
        let ghost whole = before + bytes@;
        let mut i: usize = 0;
        while i < bytes.len()
            invariant
                i <= bytes@.len(),
                before == old(self).head@,
                old(self).state == HeadState::Incomplete,
                whole == before + bytes@,
                self.head@ == whole.take((before.len() + i) as int),
                before.len() + i <= whole.len(),
                self.head@.len() <= MAX_HEAD_BYTES,
                self.state == HeadState::Incomplete,
                self.start == leading_lines(self.head@),
                !holds_head(self.head@),
            decreases bytes@.len() - i,
        {
            let ghost shorter = self.head@;
            self.head.push(bytes[i]);
            assert(self.head@ =~= whole.take((before.len() + i + 1) as int));
            let length = self.head.len();
            let feed = self.head[length - 1] == 10;
            let returned = length >= 2 && self.head[length - 2] == 13;
            proof {
                assert(self.head@.drop_last() =~= shorter);
                lemma_leading_lines_are_bounded(shorter);
            }
            if feed && (self.start == length - 1 || (returned && self.start == length - 2)) {
                self.start = length;
            }
            let start = self.start;
            let ended = feed && ((length >= 2 && start <= length - 2 && self.head[length - 2] == 10)
                || (returned && length >= 3 && start <= length - 3 && self.head[length - 3] == 10));
            proof {
                lemma_one_more_byte(shorter, bytes@[i as int]);
                assert(self.head@ =~= shorter.push(bytes@[i as int]));
                lemma_leading_lines_are_bounded(self.head@);
                assert(ended == head_ends_at(self.head@, length as int));
                lemma_first_end(whole, (before.len() + i + 1) as int);
            }
            if ended {
                self.state = if length <= MAX_HEAD_BYTES {
                    HeadState::Complete
                } else {
                    HeadState::TooLong
                };
                return;
            }
            if length > MAX_HEAD_BYTES {
                self.state = HeadState::TooLong;
                return;
            }
            i += 1;
        }
        assert(whole.take((before.len() + i) as int) =~= whole);
    }
}

/// The progress of a head of which the given bytes have come in.
pub open spec fn head_state(bytes: Seq<u8>) -> HeadState {
    let start = if bytes.len() > MAX_HEAD_BYTES {
        bytes.take(MAX_HEAD_BYTES as int)
    } else {
        bytes
    };
    if holds_head(start) {
        HeadState::Complete
    } else if bytes.len() > MAX_HEAD_BYTES {
        HeadState::TooLong
    } else {
        HeadState::Incomplete
    }
}

/// The empty lines before a request are some of its bytes.
proof fn lemma_leading_lines_are_bounded(bytes: Seq<u8>)
    ensures
        0 <= leading_lines(bytes) <= bytes.len(),
    decreases bytes.len(),
{
    if bytes.len() > 0 {
        lemma_leading_lines_are_bounded(bytes.drop_last());
    }
}

/// Where two more bytes stand behind the empty lines before a request, those are all of them.
proof fn lemma_leading_lines_are_settled(bytes: Seq<u8>, length: int)
    requires
        0 <= length <= bytes.len(),
        leading_lines(bytes.take(length)) <= length - 2,
    ensures
        leading_lines(bytes) == leading_lines(bytes.take(length)),
    decreases bytes.len() - length,
{
    if length == bytes.len() {
        assert(bytes.take(length) =~= bytes);
    } else {
        let longer = bytes.take(length + 1);
        assert(longer.drop_last() =~= bytes.take(length));
        lemma_leading_lines_are_settled(bytes, length + 1);
    }
}

/// One more byte ends a head only at its own place.
proof fn lemma_one_more_byte(bytes: Seq<u8>, byte: u8)
    requires
        !holds_head(bytes),
    ensures
        holds_head(bytes.push(byte)) <==> head_ends_at(
            bytes.push(byte),
            (bytes.len() + 1) as int,
        ),
{
    let more = bytes.push(byte);
    assert(more.drop_last() =~= bytes);
    lemma_leading_lines_are_bounded(bytes);
    if holds_head(more) {
        let end = choose|end: int| #[trigger] head_ends_at(more, end);
        if end <= bytes.len() {
            assert(head_ends_at(bytes, end));
        }
    }
}

/// The progress of a head is that of its first bytes, as soon as they complete it or are too many.
proof fn lemma_first_end(whole: Seq<u8>, length: int)
    requires
        0 <= length <= whole.len(),
    ensures
        holds_head(whole.take(length)) && length <= MAX_HEAD_BYTES ==> head_state(whole)
            == HeadState::Complete,
        length > MAX_HEAD_BYTES && !holds_head(whole.take(length - 1)) && length - 1
            == MAX_HEAD_BYTES ==> head_state(whole) == HeadState::TooLong,
        length == whole.len() && !holds_head(whole) && length <= MAX_HEAD_BYTES ==> head_state(
            whole,
        ) == HeadState::Incomplete,
{
    let start = if whole.len() > MAX_HEAD_BYTES {
        whole.take(MAX_HEAD_BYTES as int)
    } else {
        whole
    };
    if holds_head(whole.take(length)) && length <= MAX_HEAD_BYTES {
        let first = whole.take(length);
        let end = choose|end: int| #[trigger] head_ends_at(first, end);
        assert(start.take(length) =~= first);
        lemma_leading_lines_are_bounded(first);
        lemma_leading_lines_are_settled(start, length);
        assert(head_ends_at(start, end));
    }
}

/// Empty lines alone complete no head.
pub proof fn law_empty_lines_complete_no_head(bytes: Seq<u8>)
    requires
        leading_lines(bytes) == bytes.len(),
    ensures
        head_state(bytes) != HeadState::Complete,
{
    if head_state(bytes) == HeadState::Complete {
        let start = if bytes.len() > MAX_HEAD_BYTES {
            bytes.take(MAX_HEAD_BYTES as int)
        } else {
            bytes
        };
        let end = choose|end: int| #[trigger] head_ends_at(start, end);
        assert(bytes.take(start.len() as int) =~= start);
        lemma_leading_lines_are_settled(bytes, start.len() as int);
    }
}

/// A head that is complete stays so, whatever comes in behind it.
pub proof fn law_complete_heads_stay_complete(bytes: Seq<u8>, more: Seq<u8>)
    requires
        head_state(bytes) == HeadState::Complete,
    ensures
        head_state(bytes + more) == HeadState::Complete,
{
    let whole = bytes + more;
    let length = if bytes.len() > MAX_HEAD_BYTES {
        MAX_HEAD_BYTES as int
    } else {
        bytes.len() as int
    };
    assert(whole.take(length) =~= bytes.take(length));
    assert(bytes.take(bytes.len() as int) =~= bytes);
    lemma_first_end(whole, length);
}

/// A connection finds room where fewer than the maximum are open and, unless it comes from the same
/// host, where other hosts hold fewer than the maximum less the reserve of four; at least one place
/// is open to them.
pub proof fn law_other_hosts_leave_the_reserve_free(gate: ConnectionGate, loopback: bool)
    ensures
        gate.has_room(loopback) <==> {
            &&& gate.remote + gate.loopback < gate.max_connections
            &&& loopback || gate.remote + 4 < gate.max_connections || gate.remote == 0
        },
{
}

/// Only an empty line within the accepted length completes a head: a line feed, then another one,
/// with or without a carriage return between them.
pub proof fn law_only_empty_lines_complete_heads(bytes: Seq<u8>)
    ensures
        head_state(bytes) == HeadState::Complete ==> exists|end: int| #[trigger]
            empty_line_closes(bytes, end) && end <= 16_384,
        head_state(bytes) == HeadState::TooLong ==> bytes.len() > 16_384,
        head_state(bytes) == HeadState::Incomplete ==> bytes.len() <= 16_384,
{
    if head_state(bytes) == HeadState::Complete {
        let start = if bytes.len() > MAX_HEAD_BYTES {
            bytes.take(MAX_HEAD_BYTES as int)
        } else {
            bytes
        };
        let end = choose|end: int| #[trigger] head_ends_at(start, end);
        lemma_leading_lines_are_bounded(start);
        assert(empty_line_closes(bytes, end));
    }
}

/// Whether an empty line is closed at a place.
pub open spec fn empty_line_closes(bytes: Seq<u8>, end: int) -> bool {
    &&& 2 <= end <= bytes.len()
    &&& bytes[end - 1] == 10
    &&& bytes[end - 2] == 10 || (end >= 3 && bytes[end - 2] == 13 && bytes[end - 3] == 10)
}

/// In bytes that do not start with an empty line, any empty line within the accepted length
/// completes the head, wherever it stands.
pub proof fn law_empty_lines_complete_heads(bytes: Seq<u8>, end: int)
    requires
        empty_line_closes(bytes, end),
        end <= 16_384,
        bytes[0] != 10,
        bytes[0] != 13,
    ensures
        head_state(bytes) == HeadState::Complete,
{
    let start = if bytes.len() > MAX_HEAD_BYTES {
        bytes.take(MAX_HEAD_BYTES as int)
    } else {
        bytes
    };
    lemma_no_leading_lines(start);
    assert(head_ends_at(start, end));
}

proof fn lemma_no_leading_lines(bytes: Seq<u8>)
    requires
        bytes.len() > 0 ==> bytes[0] != 10 && bytes[0] != 13,
    ensures
        leading_lines(bytes) == 0,
    decreases bytes.len(),
{
    if bytes.len() > 0 {
        lemma_no_leading_lines(bytes.drop_last());
    }
}

/// An empty line before a request makes no difference to whether the head is there.
pub proof fn law_empty_lines_before_a_request_are_skipped(line: Seq<u8>, bytes: Seq<u8>)
    requires
        line == seq![10u8] || line == seq![13u8, 10u8],
    ensures
        holds_head(line + bytes) <==> holds_head(bytes),
{
    let more = line + bytes;
    let shift = line.len() as int;
    lemma_one_more_leading_line(line, bytes);
    if holds_head(bytes) {
        let end = choose|end: int| #[trigger] head_ends_at(bytes, end);
        lemma_leading_lines_are_bounded(bytes);
        assert(head_ends_at(more, end + shift));
    }
    if holds_head(more) {
        let end = choose|end: int| #[trigger] head_ends_at(more, end);
        lemma_leading_lines_are_bounded(bytes);
        assert(head_ends_at(bytes, end - shift));
    }
}

proof fn lemma_one_more_leading_line(line: Seq<u8>, bytes: Seq<u8>)
    requires
        line == seq![10u8] || line == seq![13u8, 10u8],
    ensures
        leading_lines(line + bytes) == line.len() + leading_lines(bytes),
    decreases bytes.len(),
{
    let more = line + bytes;
    if bytes.len() == 0 {
        assert(more =~= line);
        reveal_with_fuel(leading_lines, 3);
        if line == seq![13u8, 10u8] {
            assert(line.drop_last() =~= seq![13u8]);
            assert(seq![13u8].drop_last() =~= Seq::<u8>::empty());
        } else {
            assert(line.drop_last() =~= Seq::<u8>::empty());
        }
    } else {
        let before = bytes.drop_last();
        lemma_one_more_leading_line(line, before);
        lemma_leading_lines_are_bounded(before);
        assert(more.drop_last() =~= line + before);
    }
}

} // verus!
