//! GPIO pin utilities. A pin is handed out at most once; it has to come back
//! to the row before it can be handed out again.

use vstd::prelude::*;
use crate::raw::RawOp;
use crate::sim::{replay, BoardView};

verus! {

/// Number of pins on the board.
pub const NUM_PINS: usize = 34;

/// The pin that the built-in LED hangs on.
pub const LED_PIN: usize = 13;

/// Milliseconds that a pull-up is given to raise the voltage of its pin.
pub const PULLUP_SETTLE_MS: u32 = 1;

#[derive(Debug, Copy, Clone, PartialEq, Eq, Structural)]
pub enum PinMode {
    /// Read digital signal, by determining whether voltage is 0V or more
    Input,
    /// High current output (~40mA). This current can e.g. light up leds.
    ///
    /// If interest is to just check whether two pins are connected, use `InputPullup`
    /// voltage source for that. Do not connect `Output` pin directly to `Input` pin,
    /// as output may produce too high current for input.
    Output,
    /// `InputPullup` is similar to `Input`, and it is made for implementing push buttons. Voltage
    /// is raised for pin, but it is done so that maximum output current output is very low.
    /// If this pin is not connected to anything, then voltage is high. If pin is connected to
    /// ground, then voltage is low on the pin. High and low values are measured with
    /// `digital_read`. Alternatively to connecting other end to ground is to connect it to
    /// pin which is set to mode `OutputOpenDrain`.
    InputPullup,
    InputPulldown,
    /// This pin is connected to ground, in default LOW state. However, if HIGH
    /// is written to it, then this pin is not connected to anything.
    OutputOpenDrain,
}

/// Why a request to the pin row or to a pin was turned down.
#[derive(Debug, Copy, Clone, PartialEq, Eq, Structural)]
pub enum PinError {
    /// The board has no pin of that number.
    IndexOutOfRange,
    /// The pin is out already and has not come back.
    PinAlreadyReserved,
    /// A level was written to a pin in `mode`, which is no output mode.
    InvalidPinOperation { mode: PinMode },
    /// The pin that came back was not out.
    DoubleRelease,
    /// The pin row was made before.
    SingletonAlreadyConstructed,
}

impl PinError {
    /// The text that `message` gives for this error.
    pub open spec fn message_text(self) -> Seq<char> {
        match self {
            PinError::IndexOutOfRange => "Pin number out of range"@,
            PinError::PinAlreadyReserved => "Pin already reserved"@,
            PinError::InvalidPinOperation { mode: PinMode::Input } =>
                "Tried to write to pin while it was in `INPUT` mode. \
                \nSet pin to pullup mode by using `pin.set_mode(PinMode::InputPullup)`"@,
            PinError::InvalidPinOperation { mode: _ } =>
                "Tried to write to pin while it was not in `OUTPUT` mode. \
                \nPin must be set to `OUTPUT` for it to be written."@,
            PinError::DoubleRelease => "Internal error! Pin returned while it was not reserved"@,
            PinError::SingletonAlreadyConstructed => "Singleton creation called second time"@,
        }
    }

    /// A line for the user. A write to an input pin gets a hint of its own.
    pub fn message(&self) -> (text: &'static str)
        ensures
            text@ == self.message_text(),
    {
        match self {
            PinError::IndexOutOfRange => "Pin number out of range",
            PinError::PinAlreadyReserved => "Pin already reserved",
            PinError::InvalidPinOperation { mode: PinMode::Input } =>
                "Tried to write to pin while it was in `INPUT` mode. \
                \nSet pin to pullup mode by using `pin.set_mode(PinMode::InputPullup)`",
            PinError::InvalidPinOperation { mode: _ } =>
                "Tried to write to pin while it was not in `OUTPUT` mode. \
                \nPin must be set to `OUTPUT` for it to be written.",
            PinError::DoubleRelease => "Internal error! Pin returned while it was not reserved",
            PinError::SingletonAlreadyConstructed => "Singleton creation called second time",
        }
    }
}

/// Object corresponding to physical pin. There is only one instance per pin.
/// To prevent duplication, fields are private, and Copy and Clone are not derived.
#[derive(Debug)]
pub struct Pin {
    num: u8,  // there are strictly less than 256 ports on teensy board
    mode: PinMode,
}

/// What a `Pin` holds: its number and the mode it was last set to.
pub struct PinView {
    pub num: u8,
    pub mode: PinMode,
}

impl View for Pin {
    type V = PinView;

    closed spec fn view(&self) -> PinView {
        PinView { num: self.num, mode: self.mode }
    }
}

/// Whether a level may be written to a pin in `mode`.
pub open spec fn is_output(mode: PinMode) -> bool {
    mode is Output || mode is OutputOpenDrain
}

/// The accesses that put pin `num` into `mode`. Input mode also switches a
/// pull-up off, with one low write.
pub open spec fn set_mode_ops(num: u8, mode: PinMode) -> Seq<RawOp> {
    if mode is Input {
        seq![RawOp::SetMode { pin: num, mode }, RawOp::Write { pin: num, high: false }]
    } else {
        seq![RawOp::SetMode { pin: num, mode }]
    }
}

/// The accesses that go with handing out pin `num` in `mode`: the mode is set,
/// an output is switched off, and a pull-up is given time to settle.
pub open spec fn acquire_ops(num: u8, mode: PinMode) -> Seq<RawOp> {
    set_mode_ops(num, mode) + match mode {
        PinMode::Output => seq![RawOp::Write { pin: num, high: false }],
        PinMode::InputPullup => seq![RawOp::Delay { ms: PULLUP_SETTLE_MS }],
        _ => Seq::<RawOp>::empty(),
    }
}

/// The accesses that go with handing out the LED pin: those of an output,
/// and one more low write.
pub open spec fn led_ops() -> Seq<RawOp> {
    acquire_ops(LED_PIN as u8, PinMode::Output).push(
        RawOp::Write { pin: LED_PIN as u8, high: false },
    )
}

/// The accesses that go with taking back pin `num`, last set to `mode`: an
/// output is switched off.
pub open spec fn release_ops(num: u8, mode: PinMode) -> Seq<RawOp> {
    if is_output(mode) {
        seq![RawOp::Write { pin: num, high: false }]
    } else {
        Seq::<RawOp>::empty()
    }
}

/// A row in which no pin is out.
pub open spec fn all_free() -> Seq<bool> {
    Seq::new(NUM_PINS as nat, |i: int| false)
}

/// Why pin `num` cannot be handed out from a row with flags `used`, if it cannot.
pub open spec fn acquire_error(used: Seq<bool>, num: int) -> Option<PinError> {
    if !(0 <= num < used.len()) {
        Some(PinError::IndexOutOfRange)
    } else if used[num] {
        Some(PinError::PinAlreadyReserved)
    } else {
        None
    }
}

/// The flags after pin `num` was handed out.
pub open spec fn after_acquire(used: Seq<bool>, num: int) -> Seq<bool> {
    used.update(num, true)
}

/// Why pin `num` cannot be taken back into a row with flags `used`, if it cannot.
pub open spec fn release_error(used: Seq<bool>, num: int) -> Option<PinError> {
    if 0 <= num < used.len() && used[num] {
        None
    } else {
        Some(PinError::DoubleRelease)
    }
}

/// The flags after pin `num` was taken back.
pub open spec fn after_release(used: Seq<bool>, num: int) -> Seq<bool> {
    used.update(num, false)
}

impl Pin {
    #[verifier::type_invariant]
    spec fn on_board(&self) -> bool {
        (self.num as int) < NUM_PINS
    }

    /// Set pin mode
    /// If setting to `INPUT`, then pullup resistor is disabled.
    /// If setting to `INPUT_PULLUP`, it may take time to rise voltage.
    /// Returns the accesses to perform.
    pub fn set_mode(&mut self, mode: PinMode) -> (ops: Vec<RawOp>)
        ensures
            final(self)@ == (PinView { num: old(self)@.num, mode }),
            ops@ == set_mode_ops(old(self)@.num, mode),
    {
        proof {
            use_type_invariant(&*self);
        }
        let mut ops: Vec<RawOp> = Vec::new();
        ops.push(RawOp::SetMode { pin: self.num, mode });
        self.mode = mode;
        if mode == PinMode::Input {
            // Disable pullup in input mode
            ops.push(RawOp::Write { pin: self.num, high: false });
        }
        ops
    }

    /// Set pin to high (true) or low (false). Returns the write to perform,
    /// or an error for a pin that is in no output mode.
    pub fn digital_write(&mut self, val: bool) -> (res: Result<RawOp, PinError>)
        ensures
            final(self)@ == old(self)@,
            is_output(old(self)@.mode) ==> res == Ok::<RawOp, PinError>(
                RawOp::Write { pin: old(self)@.num, high: val },
            ),
            !is_output(old(self)@.mode) ==> res == Err::<RawOp, PinError>(
                PinError::InvalidPinOperation { mode: old(self)@.mode },
            ),
    {
        match self.mode {
            PinMode::Output | PinMode::OutputOpenDrain => Ok(RawOp::Write { pin: self.num, high: val }),
            _ => Err(PinError::InvalidPinOperation { mode: self.mode }),
        }
    }

    /// Read high (true) or low (false) state from pin. `raw` is the level
    /// that the raw read of this pin returned: zero is low, all else is high.
    pub fn digital_read(&self, raw: u8) -> (high: bool)
        ensures
            high == (raw != 0),
    {
        raw != 0u8
    }

    /// Return pin number
    pub fn get_num(&self) -> (num: usize)
        ensures
            num == self@.num,
            num < NUM_PINS,
    {
        proof {
            use_type_invariant(self);
        }
        self.num as usize
    }

    /// Return pin mode
    pub fn get_mode(&self) -> (mode: PinMode)
        ensures
            mode == self@.mode,
    {
        self.mode
    }
}

/// PinRow keeps book what GPIO pins are used and what are free. There is only one
/// pin-object per physical pin, so pin can be "taken out" from PinRow, and then "returned"
/// if it is not used anymore.
pub struct PinRow([bool; NUM_PINS]);

impl View for PinRow {
    type V = Seq<bool>;

    /// One flag per pin: whether the pin is out.
    closed spec fn view(&self) -> Seq<bool> {
        self.0@
    }
}

impl PinRow {
    /// A row has one flag for each pin of the board.
    pub proof fn lemma_len(&self)
        ensures
            self@.len() == NUM_PINS,
    {
    }

    /// Returns the struct that controls the GPIO pins, with every pin free.
    /// It can be made only once: `available` is the flag that says whether it
    /// still can, and it is down after the call, whatever it was before.
    pub fn new_once(available: &mut bool) -> (res: Result<PinRow, PinError>)
        ensures
            *final(available) == flag_after_new_once(*old(available)),
            match res {
                Ok(row) => new_once_result(*old(available)) == Ok::<Seq<bool>, PinError>(row@),
                Err(e) => new_once_result(*old(available)) == Err::<Seq<bool>, PinError>(e),
            },
    {
        let state = *available;
        *available = false;
        if !state {
            return Err(PinError::SingletonAlreadyConstructed);
        }
        let row = PinRow([false; NUM_PINS]);
        assert(row@ =~= all_free());
        Ok(row)
    }

    /// Checks if pin has been already reserved. If false, then `get_pin()` can be called for that
    pub fn is_used(&self, num: usize) -> (res: Result<bool, PinError>)
        ensures
            num < NUM_PINS ==> res == Ok::<bool, PinError>(self@[num as int]),
            num >= NUM_PINS ==> res == Err::<bool, PinError>(PinError::IndexOutOfRange),
    {
        if num >= NUM_PINS {
            return Err(PinError::IndexOutOfRange);
        }
        Ok(self.0[num])
    }

    /// Reserve pin for usage. Returns the pin and the accesses that set it
    /// up, or the reason why the pin cannot be had; then nothing has changed.
    pub fn get_pin(&mut self, num: usize, mode: PinMode) -> (res: Result<(Pin, Vec<RawOp>), PinError>)
        ensures
            final(self)@.len() == NUM_PINS,
            match res {
                Ok((pin, ops)) => {
                    &&& acquire_error(old(self)@, num as int) is None
                    &&& final(self)@ == after_acquire(old(self)@, num as int)
                    &&& pin@ == (PinView { num: num as u8, mode })
                    &&& ops@ == acquire_ops(num as u8, mode)
                },
                Err(e) => {
                    &&& acquire_error(old(self)@, num as int) == Some(e)
                    &&& final(self)@ == old(self)@
                },
            },
    {
        if num >= NUM_PINS {
            return Err(PinError::IndexOutOfRange);
        }
        // If value in arrays is true, then that pin can not be "taken out".
        if self.0[num] {
            return Err(PinError::PinAlreadyReserved);
        }
        let mut pin = Pin { num: num as u8, mode };
        let mut ops = pin.set_mode(mode);
        if mode == PinMode::Output {
            // By default output is off
            ops.push(RawOp::Write { pin: pin.num, high: false });
        }
        if mode == PinMode::InputPullup {
            ops.push(RawOp::Delay { ms: PULLUP_SETTLE_MS });
        }
        self.0[num] = true;
        assert(ops@ =~= acquire_ops(num as u8, mode));
        Ok((pin, ops))
    }

    /// Return led pin and set it to output
    pub fn get_led(&mut self) -> (res: Result<(Pin, Vec<RawOp>), PinError>)
        ensures
            final(self)@.len() == NUM_PINS,
            match res {
                Ok((pin, ops)) => {
                    &&& acquire_error(old(self)@, LED_PIN as int) is None
                    &&& final(self)@ == after_acquire(old(self)@, LED_PIN as int)
                    &&& pin@ == (PinView { num: LED_PIN as u8, mode: PinMode::Output })
                    &&& ops@ == led_ops()
                },
                Err(e) => {
                    &&& acquire_error(old(self)@, LED_PIN as int) == Some(e)
                    &&& final(self)@ == old(self)@
                },
            },
    {
        match self.get_pin(LED_PIN, PinMode::Output) {
            Ok((led, mut ops)) => {
                ops.push(RawOp::Write { pin: led.num, high: false });
                Ok((led, ops))
            },
            Err(e) => Err(e),
        }
    }

    /// Give pin back to pool (consumes Pin). Returns the accesses that leave
    /// the pin switched off, or an error for a pin that the row has as free.
    pub fn return_pin(&mut self, pin: Pin) -> (res: Result<Vec<RawOp>, PinError>)
        ensures
            final(self)@.len() == NUM_PINS,
            match res {
                Ok(ops) => {
                    &&& release_error(old(self)@, pin@.num as int) is None
                    &&& final(self)@ == after_release(old(self)@, pin@.num as int)
                    &&& ops@ == release_ops(pin@.num, pin@.mode)
                },
                Err(e) => {
                    &&& release_error(old(self)@, pin@.num as int) == Some(e)
                    &&& final(self)@ == old(self)@
                },
            },
    {
        proof {
            use_type_invariant(&pin);
        }
        let num = pin.num as usize;
        if !self.0[num] {
            return Err(PinError::DoubleRelease);
        }
        let mut ops: Vec<RawOp> = Vec::new();
        match pin.mode {
            PinMode::Output | PinMode::OutputOpenDrain => {
                ops.push(RawOp::Write { pin: pin.num, high: false });
            },
            _ => {},
        }
        self.0[num] = false;
        Ok(ops)
    }
}

/// A request to a pin row, as far as the flags go.
pub enum RowCall {
    /// Hand out pin `num`.
    Acquire { num: int },
    /// Take back pin `num`.
    Release { num: int },
}

/// The flags after one request: a request that is turned down changes nothing.
pub open spec fn row_step(used: Seq<bool>, call: RowCall) -> Seq<bool> {
    match call {
        RowCall::Acquire { num } => if acquire_error(used, num) is None {
            after_acquire(used, num)
        } else {
            used
        },
        RowCall::Release { num } => if release_error(used, num) is None {
            after_release(used, num)
        } else {
            used
        },
    }
}

/// The flags after the requests `calls`, made in order.
pub open spec fn row_run(used: Seq<bool>, calls: Seq<RowCall>) -> Seq<bool>
    decreases calls.len(),
{
    if calls.len() == 0 {
        used
    } else {
        row_step(row_run(used, calls.drop_last()), calls.last())
    }
}

/// A pin that was handed out is not handed out again: the next request for
/// it is turned down as already reserved.
pub proof fn lemma_acquire_twice_fails(used: Seq<bool>, num: int)
    requires
        acquire_error(used, num) is None,
    ensures
        acquire_error(after_acquire(used, num), num) == Some(PinError::PinAlreadyReserved),
{
}

/// A pin that is out stays out through every run of requests that does not
/// take it back, and every request for it after such a run is turned down as
/// already reserved.
pub proof fn lemma_reserved_until_released(used: Seq<bool>, calls: Seq<RowCall>, num: int)
    requires
        0 <= num < used.len(),
        used[num],
        forall|k: int| 0 <= k < calls.len() ==> calls[k] != (RowCall::Release { num }),
    ensures
        row_run(used, calls).len() == used.len(),
        row_run(used, calls)[num],
        acquire_error(row_run(used, calls), num) == Some(PinError::PinAlreadyReserved),
    decreases calls.len(),
{
    if calls.len() > 0 {
        lemma_reserved_until_released(used, calls.drop_last(), num);
    }
}

/// A request touches no flag but that of its own pin.
pub proof fn lemma_other_pins_untouched(used: Seq<bool>, call: RowCall, other: int)
    requires
        0 <= other < used.len(),
        call != (RowCall::Acquire { num: other }),
        call != (RowCall::Release { num: other }),
    ensures
        row_step(used, call).len() == used.len(),
        row_step(used, call)[other] == used[other],
{
}

/// Handing a free pin out and taking it back leaves the row as it was: the
/// pin is free, and it can be handed out again.
pub proof fn lemma_release_restores(used: Seq<bool>, num: int)
    requires
        acquire_error(used, num) is None,
    ensures
        release_error(after_acquire(used, num), num) is None,
        after_release(after_acquire(used, num), num) == used,
        !after_release(after_acquire(used, num), num)[num],
        acquire_error(after_release(after_acquire(used, num), num), num) is None,
{
    assert(after_release(after_acquire(used, num), num) =~= used);
}

/// A pin that comes back twice is turned down the second time.
pub proof fn lemma_release_twice_fails(used: Seq<bool>, num: int)
    requires
        release_error(used, num) is None,
    ensures
        release_error(after_release(used, num), num) == Some(PinError::DoubleRelease),
{
}

/// On whatever board, a pin handed out as an output is low once the accesses
/// that go with it are done; so is the LED pin.
pub proof fn lemma_output_starts_low(board: BoardView, num: u8)
    requires
        (num as int) < board.levels.len(),
    ensures
        !replay(board, acquire_ops(num, PinMode::Output)).levels[num as int],
        num == LED_PIN ==> !replay(board, led_ops()).levels[num as int],
{
    let ops = acquire_ops(num, PinMode::Output);
    assert(ops =~= seq![
        RawOp::SetMode { pin: num, mode: PinMode::Output },
        RawOp::Write { pin: num, high: false },
    ]);
    lemma_replay_ends_low(board, ops.drop_last(), num);
    assert(ops.drop_last().push(RawOp::Write { pin: num, high: false }) =~= ops);
    if num == LED_PIN {
        lemma_replay_ends_low(board, ops, num);
    }
}

/// On whatever board, a pin taken back as an output of either kind is low
/// once the accesses that go with it are done.
pub proof fn lemma_release_leaves_low(board: BoardView, num: u8, mode: PinMode)
    requires
        (num as int) < board.levels.len(),
        is_output(mode),
    ensures
        !replay(board, release_ops(num, mode)).levels[num as int],
{
    let ops = release_ops(num, mode);
    assert(ops =~= Seq::<RawOp>::empty().push(RawOp::Write { pin: num, high: false }));
    lemma_replay_ends_low(board, Seq::<RawOp>::empty(), num);
}

/// On whatever board, the level written to an output pin is the level that a
/// read of the board then finds.
pub proof fn lemma_write_is_observed(board: BoardView, num: u8, val: bool)
    requires
        (num as int) < board.levels.len(),
    ensures
        replay(board, seq![RawOp::Write { pin: num, high: val }]).levels[num as int] == val,
{
    let ops = seq![RawOp::Write { pin: num, high: val }];
    assert(ops.drop_last() =~= Seq::<RawOp>::empty());
    assert(replay(board, ops.drop_last()) == board);
    lemma_replay_keeps_size(board, ops.drop_last());
}

/// A replay leaves the board with the pins it had.
pub proof fn lemma_replay_keeps_size(board: BoardView, ops: Seq<RawOp>)
    ensures
        replay(board, ops).levels.len() == board.levels.len(),
        replay(board, ops).modes.len() == board.modes.len(),
    decreases ops.len(),
{
    if ops.len() > 0 {
        lemma_replay_keeps_size(board, ops.drop_last());
    }
}

/// Accesses that end in a low write to `num` leave `num` low.
proof fn lemma_replay_ends_low(board: BoardView, before: Seq<RawOp>, num: u8)
    requires
        (num as int) < board.levels.len(),
    ensures
        !replay(board, before.push(RawOp::Write { pin: num, high: false })).levels[num as int],
{
    let ops = before.push(RawOp::Write { pin: num, high: false });
    assert(ops.drop_last() =~= before);
    lemma_replay_keeps_size(board, before);
}

/// What a call of `new_once` returns when it finds the flag as `available`:
/// the flags of a fresh row, or the reason why there is none.
pub open spec fn new_once_result(available: bool) -> Result<Seq<bool>, PinError> {
    if available {
        Ok(all_free())
    } else {
        Err(PinError::SingletonAlreadyConstructed)
    }
}

/// How a call of `new_once` leaves the flag that it found as `available`: down.
pub open spec fn flag_after_new_once(available: bool) -> bool {
    false
}

/// The pin row is made at most once: whatever the flag was before a call of
/// `new_once`, the call after it is turned down, and so is every later one.
pub proof fn lemma_second_new_once_fails(available: bool)
    ensures
        new_once_result(flag_after_new_once(available)) == Err::<Seq<bool>, PinError>(
            PinError::SingletonAlreadyConstructed,
        ),
        flag_after_new_once(flag_after_new_once(available)) == flag_after_new_once(available),
{
}

} // verus!
