use teensy3::spi::{
    encode_ctar, encode_divisor, select_divisor, BitOrder, Mode, SpiSettings, CTAR_CPHA,
    CTAR_CPOL, CTAR_DIV_TABLE, CTAR_FMSZ_8BIT, CTAR_LSBFE, F_BUS,
};

const TABLE: [u16; 4] = [2, 4, 8, 16];
const BUS: u32 = 16_000_000;

#[test]
fn five_megahertz_selects_divisor_four() {
    assert_eq!(select_divisor(5_000_000, &TABLE, BUS), 4);
    assert_eq!(
        encode_ctar(5_000_000, &BitOrder::MsbFirst, &Mode::Mode0, &TABLE, BUS),
        0x3800_0004
    );
}

#[test]
fn clock_equal_to_the_request_is_passed_over() {
    assert_eq!(select_divisor(8_000_000, &TABLE, BUS), 4);
    assert_eq!(select_divisor(8_000_001, &TABLE, BUS), 2);
    assert_eq!(select_divisor(4_000_000, &TABLE, BUS), 8);
    assert_eq!(select_divisor(4_000_001, &TABLE, BUS), 4);
}

#[test]
fn request_above_every_clock_selects_the_first_entry() {
    assert_eq!(select_divisor(u32::MAX, &TABLE, BUS), 2);
    assert_eq!(select_divisor(16_000_000, &TABLE, BUS), 2);
}

#[test]
fn request_below_every_clock_falls_back_to_the_last_entry() {
    assert_eq!(select_divisor(0, &TABLE, BUS), 16);
    assert_eq!(select_divisor(1, &TABLE, BUS), 16);
    assert_eq!(select_divisor(1_000_000, &TABLE, BUS), 16);
    assert_eq!(select_divisor(1_000_001, &TABLE, BUS), 16);
}

#[test]
fn table_of_one_entry() {
    assert_eq!(select_divisor(0, &[7], BUS), 7);
    assert_eq!(select_divisor(u32::MAX, &[7], BUS), 7);
}

#[test]
fn table_need_not_be_ordered() {
    assert_eq!(select_divisor(5_000_000, &[2, 16, 4], BUS), 16);
}

#[test]
fn flag_constants() {
    assert_eq!(CTAR_FMSZ_8BIT, (7 & 15) << 27);
    assert_eq!(CTAR_LSBFE, 0x0100_0000);
    assert_eq!(CTAR_CPHA, 0x0200_0000);
    assert_eq!(CTAR_CPOL, 0x0400_0000);
    assert_eq!(F_BUS, 48_000_000);
    assert_eq!(CTAR_DIV_TABLE.len(), 23);
    assert_eq!(CTAR_DIV_TABLE[0], 2);
    assert_eq!(CTAR_DIV_TABLE[22], 768);
}

#[test]
fn bit_order_sets_one_flag() {
    assert_eq!(encode_divisor(&BitOrder::MsbFirst, &Mode::Mode0, 4), 0x3800_0004);
    assert_eq!(encode_divisor(&BitOrder::LsbFirst, &Mode::Mode0, 4), 0x3900_0004);
}

#[test]
fn each_mode_on_a_small_divisor() {
    assert_eq!(encode_divisor(&BitOrder::MsbFirst, &Mode::Mode0, 4), 0x3800_0004);
    assert_eq!(encode_divisor(&BitOrder::MsbFirst, &Mode::Mode1, 4), 0x3A00_0004);
    assert_eq!(encode_divisor(&BitOrder::MsbFirst, &Mode::Mode2, 4), 0x3C00_0004);
    assert_eq!(encode_divisor(&BitOrder::MsbFirst, &Mode::Mode3, 4), 0x3E00_0004);
    assert_eq!(encode_divisor(&BitOrder::LsbFirst, &Mode::Mode3, 4), 0x3F00_0004);
}

#[test]
fn phase_modes_shift_bits_12_to_15_down() {
    assert_eq!(encode_divisor(&BitOrder::MsbFirst, &Mode::Mode0, 0x5123), 0x3800_5123);
    assert_eq!(encode_divisor(&BitOrder::MsbFirst, &Mode::Mode2, 0x5123), 0x3C00_5123);
    assert_eq!(encode_divisor(&BitOrder::MsbFirst, &Mode::Mode1, 0x5123), 0x3A00_0523);
    assert_eq!(encode_divisor(&BitOrder::MsbFirst, &Mode::Mode3, 0x5123), 0x3E00_0523);
    assert_eq!(encode_divisor(&BitOrder::MsbFirst, &Mode::Mode1, 0xF000), 0x3A00_0F00);
    assert_eq!(encode_divisor(&BitOrder::MsbFirst, &Mode::Mode1, 0xA0FF), 0x3A00_0AFF);
}

#[test]
fn mode_two_differs_from_mode_zero_in_the_polarity_bit() {
    for max_clock in [0, 1_000_000, 5_000_000, 8_000_000, u32::MAX] {
        for order in [BitOrder::MsbFirst, BitOrder::LsbFirst] {
            let m0 = encode_ctar(max_clock, &order, &Mode::Mode0, &TABLE, BUS);
            let m2 = encode_ctar(max_clock, &order, &Mode::Mode2, &TABLE, BUS);
            assert_eq!(m0 ^ m2, CTAR_CPOL);
            assert_eq!(m2, m0 | CTAR_CPOL);
        }
    }
}

#[test]
fn modes_one_and_three_add_phase_and_shift() {
    let table: [u16; 3] = [0x0002, 0x5123, 0xF0F0];
    for max_clock in [0, 100, 8_000_001, u32::MAX] {
        for order in [BitOrder::MsbFirst, BitOrder::LsbFirst] {
            let m0 = encode_ctar(max_clock, &order, &Mode::Mode0, &table, BUS);
            let m1 = encode_ctar(max_clock, &order, &Mode::Mode1, &table, BUS);
            let m2 = encode_ctar(max_clock, &order, &Mode::Mode2, &table, BUS);
            let m3 = encode_ctar(max_clock, &order, &Mode::Mode3, &table, BUS);
            let shift = |w: u32| ((w & 0xFFFF) & 0xFFFF_0FFF) | (((w & 0xFFFF) & 0xF000) >> 4);
            assert_eq!(m1, (m0 & 0xFFFF_0000) | CTAR_CPHA | shift(m0));
            assert_eq!(m3, (m2 & 0xFFFF_0000) | CTAR_CPHA | shift(m2));
        }
    }
}

#[test]
fn same_arguments_same_settings() {
    let a = SpiSettings::new(4_000_000, BitOrder::LsbFirst, Mode::Mode3);
    let b = SpiSettings::new(4_000_000, BitOrder::LsbFirst, Mode::Mode3);
    assert_eq!(a.ctar(), b.ctar());
    assert_eq!(a, b);
    let c = SpiSettings::new(4_000_000, BitOrder::LsbFirst, Mode::Mode2);
    assert_ne!(a, c);
}

#[test]
fn settings_against_the_board_table() {
    assert_eq!(SpiSettings::new(4_000_000, BitOrder::MsbFirst, Mode::Mode0).ctar(), 0x3800_0010);
    assert_eq!(SpiSettings::new(4_000_001, BitOrder::MsbFirst, Mode::Mode0).ctar(), 0x3800_000C);
    assert_eq!(SpiSettings::new(u32::MAX, BitOrder::MsbFirst, Mode::Mode0).ctar(), 0x3800_0002);
    assert_eq!(SpiSettings::new(24_000_001, BitOrder::MsbFirst, Mode::Mode0).ctar(), 0x3800_0002);
    assert_eq!(SpiSettings::new(24_000_000, BitOrder::MsbFirst, Mode::Mode0).ctar(), 0x3800_0003);
    assert_eq!(SpiSettings::new(0, BitOrder::MsbFirst, Mode::Mode0).ctar(), 0x3800_0300);
    assert_eq!(SpiSettings::new(0, BitOrder::LsbFirst, Mode::Mode1).ctar(), 0x3B00_0300);
}

#[test]
fn settings_agree_with_the_encoder() {
    for max_clock in [0, 62_500, 62_501, 1_000_000, 12_000_000, 48_000_000] {
        let word = encode_ctar(max_clock, &BitOrder::LsbFirst, &Mode::Mode2, &CTAR_DIV_TABLE, F_BUS);
        assert_eq!(SpiSettings::new(max_clock, BitOrder::LsbFirst, Mode::Mode2).ctar(), word);
    }
}
