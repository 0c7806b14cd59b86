use agon_control::joypad::{
    clear_state, on_axis_motion, on_button, on_hat_motion, set_virtual_pad, HatState, PinWrite, Port,
};

fn c(pin: u8, level: bool) -> PinWrite {
    PinWrite::One { port: Port::C, pin, level }
}

fn d(pin: u8, level: bool) -> PinWrite {
    PinWrite::One { port: Port::D, pin, level }
}

fn apply(c_pins: &mut u8, d_pins: &mut u8, writes: &[PinWrite]) {
    for write in writes {
        match *write {
            PinWrite::All { port: Port::C, levels } => *c_pins = levels,
            PinWrite::All { port: Port::D, levels } => *d_pins = levels,
            PinWrite::One { port, pin, level } => {
                let pins = if port == Port::C { &mut *c_pins } else { &mut *d_pins };
                if level {
                    *pins |= 1 << pin;
                } else {
                    *pins &= !(1 << pin);
                }
            }
        }
    }
}

#[test]
fn clearing_sets_all_joypad_pins_high() {
    assert_eq!(
        clear_state(),
        vec![
            PinWrite::All { port: Port::C, levels: 0xff },
            d(4, true),
            d(5, true),
            d(6, true),
            d(7, true),
        ]
    );
    let (mut cp, mut dp) = (0u8, 0b0000_0101u8);
    apply(&mut cp, &mut dp, &clear_state());
    assert_eq!((cp, dp), (0xff, 0b1111_0101));
}

#[test]
fn axes_drive_the_directions() {
    assert_eq!(on_axis_motion(0, 0, -16384), vec![c(5, false), c(7, true)]);
    assert_eq!(on_axis_motion(0, 0, -16383), vec![c(5, true), c(7, true)]);
    assert_eq!(on_axis_motion(0, 0, 16383), vec![c(5, true), c(7, true)]);
    assert_eq!(on_axis_motion(0, 0, 16384), vec![c(5, true), c(7, false)]);
    assert_eq!(on_axis_motion(0, 1, i16::MIN), vec![c(1, false), c(3, true)]);
    assert_eq!(on_axis_motion(1, 1, i16::MAX), vec![c(0, true), c(2, false)]);
    assert_eq!(on_axis_motion(1, 0, 0), vec![c(4, true), c(6, true)]);
    assert_eq!(on_axis_motion(0, 2, i16::MAX), vec![]);
    assert_eq!(on_axis_motion(257, 1, 0), on_axis_motion(1, 1, 0));
}

#[test]
fn hats_drive_the_directions() {
    assert_eq!(
        on_hat_motion(0, 0, HatState::Centered),
        vec![c(1, true), c(7, true), c(3, true), c(5, true)]
    );
    assert_eq!(
        on_hat_motion(3, 9, HatState::Centered),
        vec![c(0, true), c(6, true), c(2, true), c(4, true)]
    );
    assert_eq!(on_hat_motion(0, 0, HatState::Up), vec![c(1, false)]);
    assert_eq!(on_hat_motion(0, 0, HatState::Right), vec![c(7, false)]);
    assert_eq!(on_hat_motion(0, 0, HatState::Down), vec![c(3, false)]);
    assert_eq!(on_hat_motion(1, 0, HatState::Left), vec![c(4, false)]);
    for diagonal in [HatState::RightUp, HatState::RightDown, HatState::LeftUp, HatState::LeftDown] {
        assert_eq!(on_hat_motion(0, 0, diagonal), vec![]);
    }
}

#[test]
fn buttons_drive_port_d() {
    assert_eq!(on_button(0, 0, true), vec![d(5, false)]);
    assert_eq!(on_button(0, 1, true), vec![d(7, false)]);
    assert_eq!(on_button(1, 0, true), vec![d(4, false)]);
    assert_eq!(on_button(1, 1, false), vec![d(6, true)]);
    assert_eq!(on_button(0, 2, false), vec![d(5, true)]);
    assert_eq!(on_button(u32::MAX, 255, false), vec![d(6, true)]);
}

#[test]
fn a_released_button_reads_open() {
    let (mut cp, mut dp) = (0xff, 0xff);
    apply(&mut cp, &mut dp, &on_button(0, 1, true));
    assert_eq!(dp, 0b0111_1111);
    apply(&mut cp, &mut dp, &on_button(0, 1, false));
    assert_eq!((cp, dp), (0xff, 0xff));
}

#[test]
fn the_virtual_pad_drives_its_port() {
    assert_eq!(
        set_virtual_pad(0, true, 0x001 | 0x010),
        vec![c(1, true), c(7, true), c(3, true), c(5, false), d(5, false), d(7, true)]
    );
    assert_eq!(
        set_virtual_pad(1, true, 0xffff),
        vec![c(0, false), c(6, false), c(2, false), c(4, false), d(4, false), d(6, false)]
    );
}

#[test]
fn the_virtual_pad_lands_on_host_pins() {
    for port in [0u32, 1] {
        let hats = [
            (0x004, HatState::Up),
            (0x002, HatState::Right),
            (0x008, HatState::Down),
            (0x001, HatState::Left),
        ];
        for (bit, state) in hats {
            let (mut cp, mut dp, mut ch, mut dh) = (0xff, 0xff, 0xff, 0xff);
            apply(&mut cp, &mut dp, &set_virtual_pad(port, true, bit));
            apply(&mut ch, &mut dh, &on_hat_motion(port, 0, state));
            assert_eq!((cp, dp), (ch, dh));
        }
        for (bit, button) in [(0x010, 0), (0x020, 1)] {
            let (mut cp, mut dp, mut ch, mut dh) = (0xff, 0xff, 0xff, 0xff);
            apply(&mut cp, &mut dp, &set_virtual_pad(port, true, bit));
            apply(&mut ch, &mut dh, &on_button(port, button, true));
            assert_eq!((cp, dp), (ch, dh));
        }
    }
}

#[test]
fn an_unplugged_pad_is_idle() {
    assert_eq!(set_virtual_pad(0, false, 0xffff), set_virtual_pad(0, true, 0));
    let (mut cp, mut dp) = (0, 0);
    apply(&mut cp, &mut dp, &set_virtual_pad(0, false, 0xffff));
    assert_eq!((cp, dp), (0b1010_1010, 0b1010_0000));
}

#[test]
fn other_pad_buttons_are_ignored() {
    assert_eq!(set_virtual_pad(1, true, 0xffc0), set_virtual_pad(1, true, 0));
}

#[test]
fn the_ports_share_no_pin() {
    let (mut cp, mut dp) = (0xff, 0xff);
    apply(&mut cp, &mut dp, &set_virtual_pad(0, true, 0x3f));
    assert_eq!((cp, dp), (0b0101_0101, 0b0101_1111));
    apply(&mut cp, &mut dp, &set_virtual_pad(1, true, 0));
    assert_eq!((cp, dp), (0b0101_0101, 0b0101_1111));
}

#[test]
fn centring_the_hat_opens_every_direction() {
    let (mut cp, mut dp) = (0xff, 0xff);
    apply(&mut cp, &mut dp, &on_hat_motion(0, 0, HatState::Up));
    apply(&mut cp, &mut dp, &on_hat_motion(0, 0, HatState::Left));
    assert_eq!(cp, 0b1101_1101);
    apply(&mut cp, &mut dp, &on_hat_motion(0, 0, HatState::Centered));
    assert_eq!((cp, dp), (0xff, 0xff));
}
