//! Clock settings of the primary SPI port.
//!
//! A transfer is configured by one 32-bit control word. The word is derived
//! from a requested maximum clock rate, a bit order and a clock mode, against
//! the bus frequency and the table of clock divisors of the board.

use vstd::prelude::*;

verus! {

/// Frequency of the peripheral bus that feeds the SPI clock, in hertz.
pub const F_BUS: u32 = 48_000_000;

/// The clock divisors of the board, from the fastest clock to the slowest.
pub const CTAR_DIV_TABLE: [u16; 23] = [
    2, 3, 4, 5, 6, 8, 10, 12, 16, 20, 24, 32, 40, 56, 64, 96, 128, 192, 256, 384, 512, 640, 768,
];

/// Frame-size field of the control word, set for 8-bit transfers.
pub const CTAR_FMSZ_8BIT: u32 = 0x3800_0000;

/// Flag of the control word: the least significant bit is sent first.
pub const CTAR_LSBFE: u32 = 0x0100_0000;

/// Flag of the control word: data is captured on the trailing clock edge.
pub const CTAR_CPHA: u32 = 0x0200_0000;

/// Flag of the control word: the clock idles high.
pub const CTAR_CPOL: u32 = 0x0400_0000;

/// Bit order for SPI data TX/RX
#[derive(Debug, PartialEq, Eq, Structural)]
pub enum BitOrder {
    MsbFirst,
    LsbFirst,
}

/// Data TX Mode
#[derive(Debug, PartialEq, Eq, Structural)]
pub enum Mode {
    Mode0,
    Mode1,
    Mode2,
    Mode3,
}

/// A divisor table that the encoder can walk: it has an entry, and no entry is zero.
pub open spec fn valid_div_table(table: Seq<u16>) -> bool {
    &&& table.len() > 0
    &&& forall|i: int| 0 <= i < table.len() ==> #[trigger] table[i] > 0
}

/// Whether the clock that divisor `div` gives lies strictly below `max_clock`.
pub open spec fn below_max(max_clock: u32, f_bus: u32, div: u16) -> bool {
    max_clock > f_bus / (div as u32)
}

/// Whether the search through `table` ends at index `k`: no earlier entry
/// brings the clock below `max_clock`, and entry `k` does or is the last one.
pub open spec fn is_selected(max_clock: u32, f_bus: u32, table: Seq<u16>, k: int) -> bool {
    &&& 0 <= k < table.len()
    &&& forall|j: int| 0 <= j < k ==> !below_max(max_clock, f_bus, #[trigger] table[j])
    &&& (below_max(max_clock, f_bus, table[k]) || k == table.len() - 1)
}

/// The index in `table` at which the search ends.
pub open spec fn selected_index(max_clock: u32, f_bus: u32, table: Seq<u16>) -> int {
    choose|k: int| is_selected(max_clock, f_bus, table, k)
}

/// The divisor that the search selects, widened to a word.
pub open spec fn selected_divisor(max_clock: u32, f_bus: u32, table: Seq<u16>) -> u32 {
    table[selected_index(max_clock, f_bus, table)] as u32
}

/// The flag that `order` contributes to the control word.
pub open spec fn order_flag(order: BitOrder) -> u32 {
    match order {
        BitOrder::MsbFirst => 0,
        BitOrder::LsbFirst => CTAR_LSBFE,
    }
}

/// The flags that `mode` contributes to the control word.
pub open spec fn mode_flags(mode: Mode) -> u32 {
    match mode {
        Mode::Mode0 => 0,
        Mode::Mode1 => CTAR_CPHA,
        Mode::Mode2 => CTAR_CPOL,
        Mode::Mode3 => 0x0600_0000,
    }
}

/// Whether `mode` captures data on the trailing clock edge.
pub open spec fn shifts_phase(mode: Mode) -> bool {
    mode is Mode1 || mode is Mode3
}

/// The divisor word with bits 12 to 15 moved down to bits 8 to 11.
pub open spec fn phase_shifted(t: u32) -> u32 {
    (t & 0xFFFF_0FFF) | ((t & 0xF000) >> 4)
}

/// The divisor word as `mode` places it in the control word.
pub open spec fn divisor_field(mode: Mode, t: u32) -> u32 {
    if shifts_phase(mode) {
        phase_shifted(t)
    } else {
        t
    }
}

/// The control word for a divisor word `t` that was already selected.
pub open spec fn ctar_of_divisor(order: BitOrder, mode: Mode, t: u32) -> u32 {
    CTAR_FMSZ_8BIT | order_flag(order) | mode_flags(mode) | divisor_field(mode, t)
}

/// A control word with the phase flag set and the low half, the divisor
/// word, shifted as the phase flag asks.
pub open spec fn with_phase(ctar: u32) -> u32 {
    (ctar & 0xFFFF_0000) | CTAR_CPHA | phase_shifted(ctar & 0xFFFF)
}

/// The control word for a requested clock rate, bit order and mode, against
/// a divisor table and a bus frequency.
pub open spec fn ctar_word(
    max_clock: u32,
    order: BitOrder,
    mode: Mode,
    table: Seq<u16>,
    f_bus: u32,
) -> u32 {
    ctar_of_divisor(order, mode, selected_divisor(max_clock, f_bus, table))
}

/// The control word against the divisor table and bus frequency of the board.
pub open spec fn board_ctar_word(max_clock: u32, order: BitOrder, mode: Mode) -> u32 {
    ctar_word(max_clock, order, mode, CTAR_DIV_TABLE@, F_BUS)
}

/// At most one index ends the search.
pub proof fn lemma_selected_unique(max_clock: u32, f_bus: u32, table: Seq<u16>, a: int, b: int)
    requires
        is_selected(max_clock, f_bus, table, a),
        is_selected(max_clock, f_bus, table, b),
    ensures
        a == b,
{
    if a < b {
        assert(!below_max(max_clock, f_bus, table[a]));
    } else if b < a {
        assert(!below_max(max_clock, f_bus, table[b]));
    }
}

/// The search through a table with an entry ends at `selected_index`, and nowhere else.
pub proof fn lemma_selected_index(max_clock: u32, f_bus: u32, table: Seq<u16>)
    requires
        table.len() > 0,
    ensures
        is_selected(max_clock, f_bus, table, selected_index(max_clock, f_bus, table)),
        forall|k: int|
            is_selected(max_clock, f_bus, table, k) ==> k == selected_index(
                max_clock,
                f_bus,
                table,
            ),
{
    lemma_search_ends(max_clock, f_bus, table, 0);
    let s = selected_index(max_clock, f_bus, table);
    assert forall|k: int| is_selected(max_clock, f_bus, table, k) implies k == s by {
        lemma_selected_unique(max_clock, f_bus, table, k, s);
    }
}

/// If no entry before `from` brings the clock below `max_clock`, the search ends
/// at some index from `from` on.
proof fn lemma_search_ends(max_clock: u32, f_bus: u32, table: Seq<u16>, from: int)
    requires
        0 <= from < table.len(),
        forall|j: int| 0 <= j < from ==> !below_max(max_clock, f_bus, #[trigger] table[j]),
    ensures
        exists|k: int| is_selected(max_clock, f_bus, table, k),
    decreases table.len() - from,
{
    if below_max(max_clock, f_bus, table[from]) || from == table.len() - 1 {
        assert(is_selected(max_clock, f_bus, table, from));
    } else {
        lemma_search_ends(max_clock, f_bus, table, from + 1);
    }
}

/// Selects the divisor for `max_clock`: the first entry of `table` whose clock,
/// `f_bus` divided by the entry, lies strictly below `max_clock`, and the last
/// entry if there is none.
pub fn select_divisor(max_clock: u32, table: &[u16], f_bus: u32) -> (t: u32)
    requires
        valid_div_table(table@),
    ensures
        t == selected_divisor(max_clock, f_bus, table@),
        is_selected(max_clock, f_bus, table@, selected_index(max_clock, f_bus, table@)),
{
    let n: usize = table.len();
    let mut i: usize = 0;
    while i + 1 < n && max_clock <= f_bus / (table[i] as u32)
        invariant
            n == table@.len(),
            i < n,
            valid_div_table(table@),
            forall|j: int| 0 <= j < i ==> !below_max(max_clock, f_bus, #[trigger] table@[j]),
        decreases n - i,
    {
        i += 1;
    }
    proof {
        assert(is_selected(max_clock, f_bus, table@, i as int));
        lemma_selected_index(max_clock, f_bus, table@);
    }
    table[i] as u32
}

/// Folds the bit order, the mode and a selected divisor word `t` into a control word.
pub fn encode_divisor(order: &BitOrder, mode: &Mode, t: u32) -> (ctar: u32)
    ensures
        ctar == ctar_of_divisor(*order, *mode, t),
{
    let mut t: u32 = t;
    let mut c: u32 = CTAR_FMSZ_8BIT;
    match order {
        BitOrder::MsbFirst => {
            assert(c == c | 0) by (bit_vector);
        },
        BitOrder::LsbFirst => {
            c |= CTAR_LSBFE;
        },
    }
    let ghost c1 = c;
    match mode {
        Mode::Mode0 => {
            assert(c1 == c1 | 0) by (bit_vector);
        },
        Mode::Mode1 => {
            c |= CTAR_CPHA;
            t = (t & 0xFFFF_0FFF) | ((t & 0xF000) >> 4);
        },
        Mode::Mode2 => {
            c |= CTAR_CPOL;
        },
        Mode::Mode3 => {
            c |= 0x0600_0000;
            t = (t & 0xFFFF_0FFF) | ((t & 0xF000) >> 4);
        },
    }
    c | t
}

/// Computes the control word for a requested maximum clock rate, a bit order
/// and a mode, against the divisor table and the bus frequency given.
pub fn encode_ctar(max_clock: u32, order: &BitOrder, mode: &Mode, table: &[u16], f_bus: u32) -> (ctar: u32)
    requires
        valid_div_table(table@),
    ensures
        ctar == ctar_word(max_clock, *order, *mode, table@, f_bus),
{
    let t = select_divisor(max_clock, table, f_bus);
    encode_divisor(order, mode, t)
}

/// Settings structure for the SPI peripheral
#[derive(Debug, PartialEq, Eq, Structural)]
pub struct SpiSettings {
    max_clock: u32,
    order: BitOrder,
    mode: Mode,
    ctar: u32,
}

/// What a `SpiSettings` value holds.
pub struct SpiSettingsView {
    pub max_clock: u32,
    pub order: BitOrder,
    pub mode: Mode,
    pub ctar: u32,
}

impl View for SpiSettings {
    type V = SpiSettingsView;

    closed spec fn view(&self) -> SpiSettingsView {
        SpiSettingsView {
            max_clock: self.max_clock,
            order: self.order,
            mode: self.mode,
            ctar: self.ctar,
        }
    }
}

impl SpiSettings {
    /// The cached control word is the one that the other three fields give.
    #[verifier::type_invariant]
    spec fn well_formed(&self) -> bool {
        self.ctar == board_ctar_word(self.max_clock, self.order, self.mode)
    }

    /// Settings for transfers at no more than `max_clock` hertz. The control
    /// word is computed here, once, against the board's divisor table and bus
    /// frequency.
    pub fn new(max_clock: u32, order: BitOrder, mode: Mode) -> (settings: SpiSettings)
        ensures
            settings@ == (SpiSettingsView {
                max_clock,
                order,
                mode,
                ctar: board_ctar_word(max_clock, order, mode),
            }),
    {
        let ctar = Self::render(max_clock, &order, &mode);
        SpiSettings { max_clock, order, mode, ctar }
    }

    fn render(max_clock: u32, order: &BitOrder, mode: &Mode) -> (ctar: u32)
        ensures
            ctar == board_ctar_word(max_clock, *order, *mode),
    {
        let table = CTAR_DIV_TABLE;
        assert(valid_div_table(table@));
        encode_ctar(max_clock, order, mode, table.as_slice(), F_BUS)
    }

    /// The control word to hand to the peripheral when a transaction begins.
    pub fn ctar(&self) -> (word: u32)
        ensures
            word == self@.ctar,
            word == board_ctar_word(self@.max_clock, self@.order, self@.mode),
    {
        proof {
            use_type_invariant(self);
        }
        self.ctar
    }
}

/// Settings made from the same three arguments are the same, control word
/// and all.
pub proof fn lemma_settings_determined_by_arguments(a: SpiSettingsView, b: SpiSettingsView)
    requires
        a.ctar == board_ctar_word(a.max_clock, a.order, a.mode),
        b.ctar == board_ctar_word(b.max_clock, b.order, b.mode),
        a.max_clock == b.max_clock,
        a.order == b.order,
        a.mode == b.mode,
    ensures
        a.ctar == b.ctar,
        a == b,
{
}

/// Mode 2 differs from mode 0 in the polarity flag, and in nothing else.
pub proof fn lemma_mode2_sets_polarity_only(
    max_clock: u32,
    order: BitOrder,
    table: Seq<u16>,
    f_bus: u32,
)
    ensures
        ctar_word(max_clock, order, Mode::Mode2, table, f_bus) == ctar_word(
            max_clock,
            order,
            Mode::Mode0,
            table,
            f_bus,
        ) | CTAR_CPOL,
        ctar_word(max_clock, order, Mode::Mode0, table, f_bus) & CTAR_CPOL == 0,
        ctar_word(max_clock, order, Mode::Mode2, table, f_bus) ^ ctar_word(
            max_clock,
            order,
            Mode::Mode0,
            table,
            f_bus,
        ) == CTAR_CPOL,
{
    let t = selected_divisor(max_clock, f_bus, table);
    let f = order_flag(order);
    assert(t <= 0xFFFF);
    assert(f == 0 || f == 0x0100_0000);
    assert({
        &&& (0x3800_0000u32 | f | 0x0400_0000 | t) == (0x3800_0000u32 | f | 0 | t) | 0x0400_0000
        &&& (0x3800_0000u32 | f | 0 | t) & 0x0400_0000 == 0
        &&& (0x3800_0000u32 | f | 0x0400_0000 | t) ^ (0x3800_0000u32 | f | 0 | t) == 0x0400_0000
    }) by (bit_vector)
        requires
            t <= 0xFFFF,
            f == 0 || f == 0x0100_0000,
    ;
}

/// Modes 1 and 3 differ from modes 0 and 2 in the phase flag and in the
/// place of one field of the divisor word: its bits 12 to 15 stand four
/// places lower. The upper half of the word is otherwise the same.
pub proof fn lemma_phase_modes_set_phase_and_shift(
    max_clock: u32,
    order: BitOrder,
    table: Seq<u16>,
    f_bus: u32,
)
    ensures
        ctar_word(max_clock, order, Mode::Mode1, table, f_bus) == with_phase(
            ctar_word(max_clock, order, Mode::Mode0, table, f_bus),
        ),
        ctar_word(max_clock, order, Mode::Mode3, table, f_bus) == with_phase(
            ctar_word(max_clock, order, Mode::Mode2, table, f_bus),
        ),
        ctar_word(max_clock, order, Mode::Mode0, table, f_bus) & CTAR_CPHA == 0,
        ctar_word(max_clock, order, Mode::Mode2, table, f_bus) & CTAR_CPHA == 0,
{
    let t = selected_divisor(max_clock, f_bus, table);
    let f = order_flag(order);
    assert(t <= 0xFFFF);
    assert(f == 0 || f == 0x0100_0000);
    assert({
        let m0 = 0x3800_0000u32 | f | 0 | t;
        let m1 = 0x3800_0000u32 | f | 0x0200_0000 | ((t & 0xFFFF_0FFF) | ((t & 0xF000) >> 4));
        let m2 = 0x3800_0000u32 | f | 0x0400_0000 | t;
        let m3 = 0x3800_0000u32 | f | 0x0600_0000 | ((t & 0xFFFF_0FFF) | ((t & 0xF000) >> 4));
        &&& m1 == (m0 & 0xFFFF_0000) | 0x0200_0000 | (((m0 & 0xFFFF) & 0xFFFF_0FFF) | (((m0
            & 0xFFFF) & 0xF000) >> 4))
        &&& m3 == (m2 & 0xFFFF_0000) | 0x0200_0000 | (((m2 & 0xFFFF) & 0xFFFF_0FFF) | (((m2
            & 0xFFFF) & 0xF000) >> 4))
        &&& m0 & 0x0200_0000 == 0
        &&& m2 & 0x0200_0000 == 0
    }) by (bit_vector)
        requires
            t <= 0xFFFF,
            f == 0 || f == 0x0100_0000,
    ;
}

/// Against a table in rising order, the divisor selected is the smallest one
/// that brings the clock below `max_clock`, wherever there is one.
pub proof fn lemma_selects_fastest_below_max(max_clock: u32, f_bus: u32, table: Seq<u16>, j: int)
    requires
        forall|a: int, b: int| 0 <= a <= b < table.len() ==> table[a] <= table[b],
        0 <= j < table.len(),
        below_max(max_clock, f_bus, table[j]),
    ensures
        selected_divisor(max_clock, f_bus, table) <= table[j],
        below_max(max_clock, f_bus, table[selected_index(max_clock, f_bus, table)]),
{
    lemma_selected_index(max_clock, f_bus, table);
    let k = selected_index(max_clock, f_bus, table);
    if j < k {
        assert(!below_max(max_clock, f_bus, table[j]));
    }
}

} // verus!
