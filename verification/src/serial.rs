//! The receiving side of the USB serial port: the bytes that came in and
//! were not read yet, and the readers that take them off the front.

use std::collections::VecDeque;
use vstd::prelude::*;

verus! {

/// The error of a read that found no byte waiting.
pub const NO_DATA: &'static str = "usb_serial_getchar returned -1";

/// The error of an integer read that met a byte that is neither the
/// delimiter nor a decimal digit.
pub const NOT_A_DIGIT: &'static str = "expected a decimal digit";

/// The error of an integer read whose digits spell more than 32 bits hold.
pub const TOO_LARGE: &'static str = "integer does not fit in 32 bits";

/// What the raw read of one character returns when nothing is waiting.
pub const RAW_NO_DATA: i32 = -1;

/// The byte in a character that the raw read returned: its low eight bits.
pub open spec fn byte_of(raw: i32) -> u8 {
    (raw % 256) as u8
}

/// Whether `byte` is an ASCII decimal digit.
pub open spec fn is_digit(byte: u8) -> bool {
    0x30 <= byte <= 0x39
}

/// The number that the decimal digits `digits` spell, the first digit being
/// the most significant; 0 where there is none.
pub open spec fn decimal_value(digits: Seq<u8>) -> int
    decreases digits.len(),
{
    if digits.len() == 0 {
        0
    } else {
        decimal_value(digits.drop_last()) * 10 + (digits.last() - 0x30)
    }
}

/// Whether an integer read takes the byte at index `k` of `rx` as one more
/// digit: it is a digit, not the delimiter, and the number still fits with it.
pub open spec fn reads_on(rx: Seq<u8>, delimiter: u8, k: int) -> bool {
    &&& 0 <= k < rx.len()
    &&& rx[k] != delimiter
    &&& is_digit(rx[k])
    &&& decimal_value(rx.take(k + 1)) <= u32::MAX
}

/// Whether an integer read of `rx` stops at index `k`: it takes every byte
/// before `k` as a digit, and not the one at `k`, if there is one.
pub open spec fn stops_at(rx: Seq<u8>, delimiter: u8, k: int) -> bool {
    &&& 0 <= k <= rx.len()
    &&& forall|j: int| 0 <= j < k ==> #[trigger] reads_on(rx, delimiter, j)
    &&& !reads_on(rx, delimiter, k)
}

/// The index at which an integer read of `rx` stops.
pub open spec fn stop_index(rx: Seq<u8>, delimiter: u8) -> int {
    choose|k: int| stops_at(rx, delimiter, k)
}

/// What an integer read of `rx` returns, with the text of the error in
/// place of the error. It is the number that the digits before the stop
/// spell, if the byte at the stop is the delimiter.
pub open spec fn read_int_outcome(rx: Seq<u8>, delimiter: u8) -> Result<u32, Seq<char>> {
    let k = stop_index(rx, delimiter);
    if k >= rx.len() {
        Err(NO_DATA@)
    } else if rx[k] == delimiter {
        Ok(decimal_value(rx.take(k)) as u32)
    } else if !is_digit(rx[k]) {
        Err(NOT_A_DIGIT@)
    } else {
        Err(TOO_LARGE@)
    }
}

/// What an integer read of `rx` leaves unread: the bytes behind the one at
/// which it stopped.
pub open spec fn unread_after_int(rx: Seq<u8>, delimiter: u8) -> Seq<u8> {
    let k = stop_index(rx, delimiter);
    if k >= rx.len() {
        Seq::<u8>::empty()
    } else {
        rx.skip(k + 1)
    }
}

/// At most one index stops an integer read.
pub proof fn lemma_stop_unique(rx: Seq<u8>, delimiter: u8, a: int, b: int)
    requires
        stops_at(rx, delimiter, a),
        stops_at(rx, delimiter, b),
    ensures
        a == b,
{
    if a < b {
        assert(reads_on(rx, delimiter, a));
    } else if b < a {
        assert(reads_on(rx, delimiter, b));
    }
}

/// An integer read that stops at `k` stops at `stop_index`: the two are one.
pub proof fn lemma_stop_index(rx: Seq<u8>, delimiter: u8, k: int)
    requires
        stops_at(rx, delimiter, k),
    ensures
        stop_index(rx, delimiter) == k,
{
    lemma_stop_unique(rx, delimiter, k, stop_index(rx, delimiter));
}

/// One more digit multiplies the number by ten and adds the digit.
pub proof fn lemma_decimal_value_step(rx: Seq<u8>, k: int)
    requires
        0 <= k < rx.len(),
    ensures
        decimal_value(rx.take(k + 1)) == decimal_value(rx.take(k)) * 10 + (rx[k] - 0x30),
{
    assert(rx.take(k + 1).drop_last() =~= rx.take(k));
}

/// The onboard USB serial port, as far as reading goes: a queue of the bytes
/// that came in, oldest first.
pub struct Serial {
    rx: VecDeque<u8>,
}

impl View for Serial {
    type V = Seq<u8>;

    /// The bytes that came in and were not read yet, oldest first.
    closed spec fn view(&self) -> Seq<u8> {
        self.rx@
    }
}

impl Serial {
    /// A port on which nothing came in yet.
    pub fn new() -> (serial: Serial)
        ensures
            serial@ == Seq::<u8>::empty(),
    {
        Serial { rx: VecDeque::new() }
    }

    /// Takes in what the raw read of one character returned: its byte goes to
    /// the back of the queue, unless it says that nothing was waiting.
    pub fn receive(&mut self, raw: i32) -> (taken: bool)
        ensures
            taken == (raw != RAW_NO_DATA),
            taken ==> final(self)@ == old(self)@.push(byte_of(raw)),
            !taken ==> final(self)@ == old(self)@,
    {
        if raw == RAW_NO_DATA {
            return false;
        }
        let low: i32 = raw & 0xff;
        assert(low == raw % 256) by (bit_vector)
            requires
                low == raw & 0xff,
        ;
        self.rx.push_back(low as u8);
        true
    }

    /// Is serial data available?
    pub fn readable(&self) -> (some: bool)
        ensures
            some == (self@.len() > 0),
    {
        self.rx.len() > 0
    }

    /// Read a byte. There has to be one: see `readable`.
    pub fn read_byte(&mut self) -> (byte: u8)
        requires
            old(self)@.len() > 0,
        ensures
            byte == old(self)@[0],
            final(self)@ == old(self)@.skip(1),
    {
        match self.rx.pop_front() {
            Some(byte) => {
                assert(self@ =~= old(self)@.skip(1));
                byte
            },
            None => 0,
        }
    }

    /// Try to read a byte
    pub fn try_read_byte(&mut self) -> (res: Result<u8, &'static str>)
        ensures
            match res {
                Ok(byte) => {
                    &&& old(self)@.len() > 0
                    &&& byte == old(self)@[0]
                    &&& final(self)@ == old(self)@.skip(1)
                },
                Err(e) => {
                    &&& old(self)@.len() == 0
                    &&& final(self)@ == old(self)@
                    &&& e@ == NO_DATA@
                },
            },
    {
        match self.rx.pop_front() {
            Some(byte) => {
                assert(self@ =~= old(self)@.skip(1));
                Ok(byte)
            },
            None => Err(NO_DATA),
        }
    }

    /// Reads a decimal number up to `delimiter`, and takes the delimiter off
    /// the queue with it. The read stops at the first byte that is no digit
    /// to take: the delimiter, which ends the number; the end of the queue; a
    /// byte that is no decimal digit; a digit with which the number no longer
    /// fits in 32 bits. But for the delimiter these are errors. The byte at
    /// which the read stopped and the bytes before it are gone from the queue.
    pub fn try_read_int_until(&mut self, delimiter: u8) -> (res: Result<u32, &'static str>)
        ensures
            stops_at(old(self)@, delimiter, stop_index(old(self)@, delimiter)),
            final(self)@ == unread_after_int(old(self)@, delimiter),
            match res {
                Ok(n) => read_int_outcome(old(self)@, delimiter) == Ok::<u32, Seq<char>>(n),
                Err(e) => read_int_outcome(old(self)@, delimiter) == Err::<u32, Seq<char>>(e@),
            },
    {
        let ghost rx = self@;
        let ghost mut k: int = 0;
        let mut result: u32 = 0;
        loop
            invariant
                0 <= k <= rx.len(),
                rx == old(self)@,
                self@ == rx.skip(k),
                forall|j: int| 0 <= j < k ==> #[trigger] reads_on(rx, delimiter, j),
                result == decimal_value(rx.take(k)),
            decreases rx.len() - k,
        {
            let byte = match self.try_read_byte() {
                Ok(byte) => byte,
                Err(e) => {
                    proof {
                        lemma_stop_index(rx, delimiter, k);
                    }
                    return Err(e);
                },
            };
            proof {
                assert(byte == rx[k]);
                assert(self@ =~= rx.skip(k + 1));
                lemma_decimal_value_step(rx, k);
            }
            if byte == delimiter {
                proof {
                    lemma_stop_index(rx, delimiter, k);
                }
                return Ok(result);
            }
            if byte < 0x30 || byte > 0x39 {
                proof {
                    lemma_stop_index(rx, delimiter, k);
                }
                return Err(NOT_A_DIGIT);
            }
            let digit: u32 = (byte - 0x30) as u32;
            let next = match result.checked_mul(10) {
                Some(tens) => tens.checked_add(digit),
                None => None,
            };
            match next {
                Some(n) => {
                    result = n;
                    proof {
                        k = k + 1;
                    }
                },
                None => {
                    proof {
                        lemma_stop_index(rx, delimiter, k);
                    }
                    return Err(TOO_LARGE);
                },
            }
        }
    }
}

} // verus!
