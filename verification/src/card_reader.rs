//! From raw scans to card identities.
//!
//! The hardware is polled elsewhere.  What a poll brought back is handed to a
//! [`Reader`], which extracts the card's identity, holds back scans that
//! follow an emitted one too closely, and says what to do with the rest.

use vstd::prelude::*;
use vstd::string::StringExecFns;

verus! {

/// Number of bytes of a scan that make up the card's identity.
pub const SIGNIFICANT_BYTES: usize = 8;

/// Shortest time between two emitted identities, in milliseconds.
pub const DEBOUNCE_MS: u64 = 2000;

/// Where the `n`-th byte of the identity stands in a scan: 2, 18, 34, ..., 114.
pub open spec fn significant_index(n: int) -> int {
    2 + 16 * n
}

/// The bytes of the scan that make up the identity.
pub open spec fn significant_bytes(buf: Seq<u8>) -> Seq<u8> {
    Seq::new(SIGNIFICANT_BYTES as nat, |n: int| buf[significant_index(n)])
}

/// A scan carries an identity where it holds all the significant bytes and
/// none of them is zero.
pub open spec fn is_complete_scan(buf: Seq<u8>) -> bool {
    &&& buf.len() > significant_index(SIGNIFICANT_BYTES - 1)
    &&& forall|n: int| 0 <= n < SIGNIFICANT_BYTES ==> buf[#[trigger] significant_index(n)] != 0
}

/// The upper-case hexadecimal digit of a value below 16.
pub open spec fn hex_digit(nibble: int) -> char {
    if nibble == 0 {
        '0'
    } else if nibble == 1 {
        '1'
    } else if nibble == 2 {
        '2'
    } else if nibble == 3 {
        '3'
    } else if nibble == 4 {
        '4'
    } else if nibble == 5 {
        '5'
    } else if nibble == 6 {
        '6'
    } else if nibble == 7 {
        '7'
    } else if nibble == 8 {
        '8'
    } else if nibble == 9 {
        '9'
    } else if nibble == 10 {
        'A'
    } else if nibble == 11 {
        'B'
    } else if nibble == 12 {
        'C'
    } else if nibble == 13 {
        'D'
    } else if nibble == 14 {
        'E'
    } else {
        'F'
    }
}

/// The bytes written as two upper-case hexadecimal digits each.
pub open spec fn hex_string(bytes: Seq<u8>) -> Seq<char>
    decreases bytes.len(),
{
    if bytes.len() == 0 {
        Seq::empty()
    } else {
        hex_string(bytes.drop_last()).push(hex_digit(bytes.last() as int / 16)).push(
            hex_digit(bytes.last() as int % 16),
        )
    }
}

/// The identity of the card that a complete scan shows.
pub open spec fn card_identity(buf: Seq<u8>) -> Seq<char> {
    hex_string(significant_bytes(buf))
}

/// The digit of `nibble`, as a string.
fn hex_digit_str(nibble: u8) -> (digit: &'static str)
    requires
        nibble < 16,
    ensures
        digit@ == seq![hex_digit(nibble as int)],
{
    proof {
        reveal_strlit("0");
        reveal_strlit("1");
        reveal_strlit("2");
        reveal_strlit("3");
        reveal_strlit("4");
        reveal_strlit("5");
        reveal_strlit("6");
        reveal_strlit("7");
        reveal_strlit("8");
        reveal_strlit("9");
        reveal_strlit("A");
        reveal_strlit("B");
        reveal_strlit("C");
        reveal_strlit("D");
        reveal_strlit("E");
        reveal_strlit("F");
    }
    let digit = if nibble == 0 {
        "0"
    } else if nibble == 1 {
        "1"
    } else if nibble == 2 {
        "2"
    } else if nibble == 3 {
        "3"
    } else if nibble == 4 {
        "4"
    } else if nibble == 5 {
        "5"
    } else if nibble == 6 {
        "6"
    } else if nibble == 7 {
        "7"
    } else if nibble == 8 {
        "8"
    } else if nibble == 9 {
        "9"
    } else if nibble == 10 {
        "A"
    } else if nibble == 11 {
        "B"
    } else if nibble == 12 {
        "C"
    } else if nibble == 13 {
        "D"
    } else if nibble == 14 {
        "E"
    } else {
        "F"
    };
    assert(digit@ =~= seq![hex_digit(nibble as int)]);
    digit
}

/// Reads the card's identity out of a scan: the eight significant bytes in
/// upper-case hexadecimal, sixteen digits in all.  A scan that is too short,
/// or in which one of those bytes is zero, shows no card.
pub fn extract_card_id(buf: &[u8]) -> (card_id: Option<String>)
    ensures
        match card_id {
            Some(id) => is_complete_scan(buf@) && id@ == card_identity(buf@),
            None => !is_complete_scan(buf@),
        },
{
    let mut card_id = String::new();
    let mut n: usize = 0;
    while n < SIGNIFICANT_BYTES
        invariant
            n <= SIGNIFICANT_BYTES,
            n > 0 ==> buf@.len() > significant_index(n - 1),
            forall|m: int| 0 <= m < n ==> buf@[#[trigger] significant_index(m)] != 0,
            card_id@ == hex_string(significant_bytes(buf@).take(n as int)),
        decreases SIGNIFICANT_BYTES - n,
    {
        let i: usize = 2 + 16 * n;
        if i >= buf.len() {
            assert(significant_index(SIGNIFICANT_BYTES - 1) >= significant_index(n as int));
            return None;
        }
        let byte = buf[i];
        if byte == 0 {
            assert(buf@[significant_index(n as int)] == 0);
            return None;
        }
        proof {
            let longer = significant_bytes(buf@).take(n + 1);
            assert(longer.drop_last() =~= significant_bytes(buf@).take(n as int));
            assert(longer.last() == byte);
        }
        card_id.append(hex_digit_str(byte / 16));
        card_id.append(hex_digit_str(byte % 16));
        assert(card_id@ =~= hex_string(significant_bytes(buf@).take(n as int)).push(
            hex_digit(byte as int / 16),
        ).push(hex_digit(byte as int % 16)));
        n += 1;
    }
    assert(significant_bytes(buf@).take(SIGNIFICANT_BYTES as int) =~= significant_bytes(buf@));
    Some(card_id)
}

/// How a poll of the hardware ended.
#[derive(Clone, Copy, Debug, PartialEq, Eq)]
pub enum ReadEvent {
    /// The read came back; the scan is in the buffer.
    Scan,
    /// Nothing arrived in time.
    Timeout,
    /// The read failed for another reason.
    Failure,
}

/// What the reading loop does after a poll.
#[derive(Debug, PartialEq, Eq)]
pub enum ReaderAction {
    /// Send this card identity to the control loop.
    Emit(String),
    /// Nothing to send; poll again.
    Retry,
    /// Log the failure, then poll again.
    Report,
}

/// Mathematical model of a [`ReaderAction`].
pub enum ReaderActionView {
    Emit(Seq<char>),
    Retry,
    Report,
}

impl View for ReaderAction {
    type V = ReaderActionView;

    open spec fn view(&self) -> ReaderActionView {
        match self {
            ReaderAction::Emit(card_id) => ReaderActionView::Emit(card_id@),
            ReaderAction::Retry => ReaderActionView::Retry,
            ReaderAction::Report => ReaderActionView::Report,
        }
    }
}

/// Time that has passed since the last emitted scan.  A clock that seems to
/// have run backwards counts as no time at all.
pub open spec fn elapsed_ms(last_scan_ms: u64, now_ms: u64) -> int {
    if now_ms >= last_scan_ms {
        now_ms - last_scan_ms
    } else {
        0
    }
}

/// A poll leads to an emission where it brought a complete scan and the
/// debounce window since the last emission is over.
pub open spec fn emits(last_scan_ms: u64, event: ReadEvent, buf: Seq<u8>, now_ms: u64) -> bool {
    &&& event is Scan
    &&& is_complete_scan(buf)
    &&& elapsed_ms(last_scan_ms, now_ms) >= DEBOUNCE_MS
}

/// What the reading loop does after a poll that ended with `event` at `now_ms`.
pub open spec fn reader_action(
    last_scan_ms: u64,
    event: ReadEvent,
    buf: Seq<u8>,
    now_ms: u64,
) -> ReaderActionView {
    if emits(last_scan_ms, event, buf, now_ms) {
        ReaderActionView::Emit(card_identity(buf))
    } else if event is Failure {
        ReaderActionView::Report
    } else {
        ReaderActionView::Retry
    }
}

/// The time of the last emission after a poll.
pub open spec fn next_last_scan(
    last_scan_ms: u64,
    event: ReadEvent,
    buf: Seq<u8>,
    now_ms: u64,
) -> u64 {
    if emits(last_scan_ms, event, buf, now_ms) {
        now_ms
    } else {
        last_scan_ms
    }
}

/// The debouncing state of the reading loop.
pub struct Reader {
    /// When the last identity was emitted, or the loop was started, in
    /// milliseconds of a clock that does not run backwards.
    pub last_scan_ms: u64,
}

impl Reader {
    /// A reader that starts at `now_ms`.  The debounce window runs from the
    /// start as it does from an emission.
    pub fn new(now_ms: u64) -> (reader: Reader)
        ensures
            reader.last_scan_ms == now_ms,
    {
        Reader { last_scan_ms: now_ms }
    }

    /// Decides what follows a poll that ended with `event` at `now_ms`; `buf`
    /// is the buffer the hardware read into.
    pub fn on_read(&mut self, event: ReadEvent, buf: &[u8], now_ms: u64) -> (action: ReaderAction)
        ensures
            action@ == reader_action(old(self).last_scan_ms, event, buf@, now_ms),
            final(self).last_scan_ms == next_last_scan(
                old(self).last_scan_ms,
                event,
                buf@,
                now_ms,
            ),
    {
        match event {
            ReadEvent::Scan => {
                match extract_card_id(buf) {
                    Some(card_id) => {
                        if now_ms < self.last_scan_ms || now_ms - self.last_scan_ms
                            < DEBOUNCE_MS {
                            ReaderAction::Retry
                        } else {
                            self.last_scan_ms = now_ms;
                            ReaderAction::Emit(card_id)
                        }
                    },
                    None => ReaderAction::Retry,
                }
            },
            ReadEvent::Timeout => ReaderAction::Retry,
            ReadEvent::Failure => ReaderAction::Report,
        }
    }
}

/// One poll of a run of the reading loop.
pub struct Read {
    pub event: ReadEvent,
    pub buf: Seq<u8>,
    pub at_ms: u64,
}

/// One identity that a run of the reading loop sent.
pub struct Emission {
    pub at_ms: u64,
    pub card_id: Seq<char>,
}

/// All that a reader sends over a run of polls, in order.
pub open spec fn emissions(last_scan_ms: u64, reads: Seq<Read>) -> Seq<Emission>
    decreases reads.len(),
{
    if reads.len() == 0 {
        Seq::empty()
    } else {
        let first = reads.first();
        let rest = emissions(
            next_last_scan(last_scan_ms, first.event, first.buf, first.at_ms),
            reads.drop_first(),
        );
        if emits(last_scan_ms, first.event, first.buf, first.at_ms) {
            seq![Emission { at_ms: first.at_ms, card_id: card_identity(first.buf) }] + rest
        } else {
            rest
        }
    }
}

/// Whatever the polls bring, and whenever: the reader lets a full debounce
/// window pass before its first emission, and between any two emissions.  In
/// particular no identity is sent twice within the window.
pub proof fn lemma_emissions_are_debounced(last_scan_ms: u64, reads: Seq<Read>)
    ensures
        forall|i: int|
            0 <= i < emissions(last_scan_ms, reads).len() ==> #[trigger] emissions(
                last_scan_ms,
                reads,
            )[i].at_ms - last_scan_ms >= DEBOUNCE_MS,
        forall|i: int, j: int|
            0 <= i < j < emissions(last_scan_ms, reads).len() ==> #[trigger] emissions(
                last_scan_ms,
                reads,
            )[j].at_ms - #[trigger] emissions(last_scan_ms, reads)[i].at_ms >= DEBOUNCE_MS,
    decreases reads.len(),
{
    if reads.len() > 0 {
        let first = reads.first();
        let next = next_last_scan(last_scan_ms, first.event, first.buf, first.at_ms);
        let rest = emissions(next, reads.drop_first());
        lemma_emissions_are_debounced(next, reads.drop_first());
        if emits(last_scan_ms, first.event, first.buf, first.at_ms) {
            let all = emissions(last_scan_ms, reads);
            assert(all.len() == rest.len() + 1);
            assert(all[0].at_ms == first.at_ms);
            assert forall|i: int| 1 <= i < all.len() implies all[i] == rest[i - 1] by {}
            assert forall|i: int| 0 <= i < all.len() implies #[trigger] all[i].at_ms
                - last_scan_ms >= DEBOUNCE_MS by {
                if i > 0 {
                    assert(all[i] == rest[i - 1]);
                }
            }
            assert forall|i: int, j: int| 0 <= i < j < all.len() implies #[trigger] all[j].at_ms
                - #[trigger] all[i].at_ms >= DEBOUNCE_MS by {
                assert(all[j] == rest[j - 1]);
                if i > 0 {
                    assert(all[i] == rest[i - 1]);
                }
            }
        }
    }
}

} // verus!
