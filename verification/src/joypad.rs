//! Joypads on the GPIO input pins.
//!
//! Two ports share the pins: every second joystick drives port 2. The d-pads are on GPIO port C,
//! two pins for each direction, and the fire buttons are on GPIO port D. The pins are pulled
//! high, so a pressed switch reads low, `false`.
//!
//! Each function says which pins to write, in order.

use vstd::prelude::*;

verus! {

/// A GPIO port.
#[derive(Clone, Copy, Debug, PartialEq, Eq, Structural)]
pub enum Port {
    C,
    D,
}

/// A write to GPIO input pins.
#[derive(Clone, Copy, Debug, PartialEq, Eq, Structural)]
pub enum PinWrite {
    /// Sets all eight pins of a port, pin `i` to bit `i`.
    All { port: Port, levels: u8 },
    /// Sets one pin.
    One { port: Port, pin: u8, level: bool },
}

/// The position of a hat switch.
#[derive(Clone, Copy, Debug, PartialEq, Eq, Structural)]
pub enum HatState {
    Centered,
    Up,
    Right,
    Down,
    Left,
    RightUp,
    RightDown,
    LeftUp,
    LeftDown,
}

/// A direction of a d-pad.
#[derive(Clone, Copy, Debug, PartialEq, Eq, Structural)]
pub enum Direction {
    Up,
    Right,
    Down,
    Left,
}

pub const PIN_PORT1_DPAD_UP: u8 = 1;

pub const PIN_PORT1_DPAD_RIGHT: u8 = 7;

pub const PIN_PORT1_DPAD_DOWN: u8 = 3;

pub const PIN_PORT1_DPAD_LEFT: u8 = 5;

/// An axis counts as pushed once it is half-way out.
pub const AXIS_THRESHOLD: i16 = 16384;

/// The buttons of a virtual pad that the machine has: one bit each.
pub const PAD_LEFT: u16 = 0x001;

pub const PAD_RIGHT: u16 = 0x002;

pub const PAD_UP: u16 = 0x004;

pub const PAD_DOWN: u16 = 0x008;

pub const PAD_A: u16 = 0x010;

pub const PAD_B: u16 = 0x020;

/// The pin of a d-pad direction on GPIO port C. The pins of joystick port 2 stand just below those
/// of joystick port 1.
pub open spec fn dpad_pin(joystick_num: u32, direction: Direction) -> int {
    let port1 = match direction {
        Direction::Up => PIN_PORT1_DPAD_UP,
        Direction::Right => PIN_PORT1_DPAD_RIGHT,
        Direction::Down => PIN_PORT1_DPAD_DOWN,
        Direction::Left => PIN_PORT1_DPAD_LEFT,
    };
    port1 - joystick_num % 2
}

/// The pin of a fire button on GPIO port D. A joystick has two; further buttons double them.
pub open spec fn button_pin(joystick_num: u32, button_idx: u8) -> int {
    5 - joystick_num % 2 + 2 * (button_idx % 2)
}

/// A write to the pin of a d-pad direction.
pub open spec fn dpad_write(joystick_num: u32, direction: Direction, level: bool) -> PinWrite {
    PinWrite::One { port: Port::C, pin: dpad_pin(joystick_num, direction) as u8, level }
}

/// A write to the pin of a fire button.
pub open spec fn button_write(joystick_num: u32, button_idx: u8, level: bool) -> PinWrite {
    PinWrite::One { port: Port::D, pin: button_pin(joystick_num, button_idx) as u8, level }
}

/// The writes that open every joypad switch.
pub open spec fn clear_writes() -> Seq<PinWrite> {
    seq![
        PinWrite::All { port: Port::C, levels: 0xff },
        PinWrite::One { port: Port::D, pin: 4, level: true },
        PinWrite::One { port: Port::D, pin: 5, level: true },
        PinWrite::One { port: Port::D, pin: 6, level: true },
        PinWrite::One { port: Port::D, pin: 7, level: true },
    ]
}

/// The writes that a move of an axis gives: axis 0 goes left and right, axis 1 up and down, and
/// further axes give none.
pub open spec fn axis_writes(joystick_num: u32, axis_idx: u8, value: i16) -> Seq<PinWrite> {
    let (back, forth) = if axis_idx == 0 {
        (Direction::Left, Direction::Right)
    } else {
        (Direction::Up, Direction::Down)
    };
    if axis_idx > 1 {
        Seq::empty()
    } else {
        seq![
            dpad_write(joystick_num, back, value > -AXIS_THRESHOLD),
            dpad_write(joystick_num, forth, value < AXIS_THRESHOLD),
        ]
    }
}

/// The writes that a move of a hat gives: back to the centre, all four directions open; to a
/// straight direction, that one closes; a diagonal gives none.
pub open spec fn hat_writes(joystick_num: u32, state: HatState) -> Seq<PinWrite> {
    match state {
        HatState::Centered => seq![
            dpad_write(joystick_num, Direction::Up, true),
            dpad_write(joystick_num, Direction::Right, true),
            dpad_write(joystick_num, Direction::Down, true),
            dpad_write(joystick_num, Direction::Left, true),
        ],
        HatState::Up => seq![dpad_write(joystick_num, Direction::Up, false)],
        HatState::Right => seq![dpad_write(joystick_num, Direction::Right, false)],
        HatState::Down => seq![dpad_write(joystick_num, Direction::Down, false)],
        HatState::Left => seq![dpad_write(joystick_num, Direction::Left, false)],
        _ => Seq::empty(),
    }
}

/// The writes that a button gives.
pub open spec fn button_writes(joystick_num: u32, button_idx: u8, is_down: bool) -> Seq<PinWrite> {
    seq![button_write(joystick_num, button_idx, !is_down)]
}

/// Whether a virtual pad holds a button; one that is not plugged in holds none.
pub open spec fn pad_held(connected: bool, buttons: u16, bit: u16) -> bool {
    connected && buttons & bit != 0
}

/// The writes that the state of a virtual pad gives.
pub open spec fn pad_writes(port: u32, connected: bool, buttons: u16) -> Seq<PinWrite> {
    seq![
        dpad_write(port, Direction::Up, !pad_held(connected, buttons, PAD_UP)),
        dpad_write(port, Direction::Right, !pad_held(connected, buttons, PAD_RIGHT)),
        dpad_write(port, Direction::Down, !pad_held(connected, buttons, PAD_DOWN)),
        dpad_write(port, Direction::Left, !pad_held(connected, buttons, PAD_LEFT)),
        button_write(port, 0, !pad_held(connected, buttons, PAD_A)),
        button_write(port, 1, !pad_held(connected, buttons, PAD_B)),
    ]
}

/// How far the pins of a joystick stand below those of joystick port 1.
fn pin_offset(joystick_num: u32) -> (offset: u8)
    ensures
        offset == joystick_num % 2,
{
    let low = (joystick_num & 1) as u8;
    assert(joystick_num & 1 == joystick_num % 2) by (bit_vector);
    low
}

/// Writes the pin of a d-pad direction.
fn set_dpad(joystick_num: u32, direction: Direction, level: bool) -> (write: PinWrite)
    ensures
        write == dpad_write(joystick_num, direction, level),
{
    let port1: u8 = match direction {
        Direction::Up => PIN_PORT1_DPAD_UP,
        Direction::Right => PIN_PORT1_DPAD_RIGHT,
        Direction::Down => PIN_PORT1_DPAD_DOWN,
        Direction::Left => PIN_PORT1_DPAD_LEFT,
    };
    PinWrite::One { port: Port::C, pin: port1 - pin_offset(joystick_num), level }
}

/// Writes the pin of a fire button.
fn set_button(joystick_num: u32, button_idx: u8, level: bool) -> (write: PinWrite)
    ensures
        write == button_write(joystick_num, button_idx, level),
{
    let pin: u8 = 5 - pin_offset(joystick_num) + 2 * (button_idx % 2);
    PinWrite::One { port: Port::D, pin, level }
}

/// Opens every joypad switch.
pub fn clear_state() -> (writes: Vec<PinWrite>)
    ensures
        writes@ == clear_writes(),
{
    let writes = vec![
        PinWrite::All { port: Port::C, levels: 0xff },
        PinWrite::One { port: Port::D, pin: 4, level: true },
        PinWrite::One { port: Port::D, pin: 5, level: true },
        PinWrite::One { port: Port::D, pin: 6, level: true },
        PinWrite::One { port: Port::D, pin: 7, level: true },
    ];
    assert(writes@ =~= clear_writes());
    writes
}

/// A joystick's axis moved.
pub fn on_axis_motion(joystick_num: u32, axis_idx: u8, value: i16) -> (writes: Vec<PinWrite>)
    ensures
        writes@ == axis_writes(joystick_num, axis_idx, value),
{
    if axis_idx > 1 {
        return Vec::new();
    }
    let (back, forth) = if axis_idx == 0 {
        (Direction::Left, Direction::Right)
    } else {
        (Direction::Up, Direction::Down)
    };
    let back_open = value > -AXIS_THRESHOLD;
    let forth_open = value < AXIS_THRESHOLD;
    let writes = vec![
        set_dpad(joystick_num, back, back_open),
        set_dpad(joystick_num, forth, forth_open),
    ];
    assert(writes@ =~= axis_writes(joystick_num, axis_idx, value));
    writes
}

/// A joystick's hat moved. All hats of a joystick count alike.
pub fn on_hat_motion(joystick_num: u32, _hat_idx: u8, state: HatState) -> (writes: Vec<PinWrite>)
    ensures
        writes@ == hat_writes(joystick_num, state),
{
    let writes = match state {
        HatState::Centered => vec![
            set_dpad(joystick_num, Direction::Up, true),
            set_dpad(joystick_num, Direction::Right, true),
            set_dpad(joystick_num, Direction::Down, true),
            set_dpad(joystick_num, Direction::Left, true),
        ],
        HatState::Up => vec![set_dpad(joystick_num, Direction::Up, false)],
        HatState::Right => vec![set_dpad(joystick_num, Direction::Right, false)],
        HatState::Down => vec![set_dpad(joystick_num, Direction::Down, false)],
        HatState::Left => vec![set_dpad(joystick_num, Direction::Left, false)],
        _ => Vec::new(),
    };
    assert(writes@ =~= hat_writes(joystick_num, state));
    writes
}

/// A joystick's button went down or up.
pub fn on_button(joystick_num: u32, button_idx: u8, is_down: bool) -> (writes: Vec<PinWrite>)
    ensures
        writes@ == button_writes(joystick_num, button_idx, is_down),
{
    let writes = vec![set_button(joystick_num, button_idx, !is_down)];
    assert(writes@ =~= button_writes(joystick_num, button_idx, is_down));
    writes
}

/// Drives a joystick port from a virtual pad. The machine's port is a d-pad and two fire buttons;
/// the pad's other buttons have no pin.
pub fn set_virtual_pad(port: u32, connected: bool, buttons: u16) -> (writes: Vec<PinWrite>)
    ensures
        writes@ == pad_writes(port, connected, buttons),
{
    let writes = vec![
        set_dpad(port, Direction::Up, !(connected && buttons & PAD_UP != 0)),
        set_dpad(port, Direction::Right, !(connected && buttons & PAD_RIGHT != 0)),
        set_dpad(port, Direction::Down, !(connected && buttons & PAD_DOWN != 0)),
        set_dpad(port, Direction::Left, !(connected && buttons & PAD_LEFT != 0)),
        set_button(port, 0, !(connected && buttons & PAD_A != 0)),
        set_button(port, 1, !(connected && buttons & PAD_B != 0)),
    ];
    assert(writes@ =~= pad_writes(port, connected, buttons));
    writes
}

/// The level of a pin after a write, from its level before.
pub open spec fn level_after(write: PinWrite, port: Port, pin: u8, before: bool) -> bool {
    match write {
        PinWrite::All { port: p, levels } => if p == port {
            levels & (1u8 << pin) != 0
        } else {
            before
        },
        PinWrite::One { port: p, pin: i, level } => if p == port && i == pin {
            level
        } else {
            before
        },
    }
}

/// The level of a pin after some writes, from its level before them.
pub open spec fn level(writes: Seq<PinWrite>, port: Port, pin: u8, before: bool) -> bool
    decreases writes.len(),
{
    if writes.len() == 0 {
        before
    } else {
        level_after(writes.last(), port, pin, level(writes.drop_last(), port, pin, before))
    }
}

/// The pins that a joystick drives.
pub open spec fn drives(joystick_num: u32, port: Port, pin: u8) -> bool {
    match port {
        Port::C => {
            ||| pin == dpad_pin(joystick_num, Direction::Up)
            ||| pin == dpad_pin(joystick_num, Direction::Right)
            ||| pin == dpad_pin(joystick_num, Direction::Down)
            ||| pin == dpad_pin(joystick_num, Direction::Left)
        },
        Port::D => {
            ||| pin == button_pin(joystick_num, 0)
            ||| pin == button_pin(joystick_num, 1)
        },
    }
}

/// Whether every write goes to a single pin that the joystick drives.
pub open spec fn stays_on(joystick_num: u32, writes: Seq<PinWrite>) -> bool {
    forall|i: int|
        0 <= i < writes.len() ==> ((#[trigger] writes[i]) matches PinWrite::One { port, pin, .. }
            && drives(joystick_num, port, pin))
}

/// The writes of two rounds, one after the other.
proof fn lemma_level_concat(a: Seq<PinWrite>, b: Seq<PinWrite>, port: Port, pin: u8, before: bool)
    ensures
        level(a + b, port, pin, before) == level(b, port, pin, level(a, port, pin, before)),
    decreases b.len(),
{
    if b.len() == 0 {
        assert(a + b =~= a);
    } else {
        lemma_level_concat(a, b.drop_last(), port, pin, before);
        assert((a + b).drop_last() =~= a + b.drop_last());
    }
}

/// Pins that no write goes to keep their level.
proof fn lemma_level_elsewhere(
    joystick_num: u32,
    writes: Seq<PinWrite>,
    port: Port,
    pin: u8,
    before: bool,
)
    requires
        stays_on(joystick_num, writes),
        !drives(joystick_num, port, pin),
    ensures
        level(writes, port, pin, before) == before,
    decreases writes.len(),
{
    if writes.len() != 0 {
        let rest = writes.drop_last();
        assert forall|i: int| 0 <= i < rest.len() implies ((#[trigger] rest[i]) matches PinWrite::One {
            port,
            pin,
            ..
        } && drives(joystick_num, port, pin)) by {
            assert(rest[i] == writes[i]);
        }
        lemma_level_elsewhere(joystick_num, rest, port, pin, before);
        assert(writes[writes.len() - 1] == writes.last());
    }
}

/// Every event of a joystick writes to pins that it drives, and to no other.
pub proof fn law_events_stay_on_their_pins(
    joystick_num: u32,
    axis_idx: u8,
    value: i16,
    state: HatState,
    button_idx: u8,
    is_down: bool,
    connected: bool,
    buttons: u16,
)
    ensures
        stays_on(joystick_num, axis_writes(joystick_num, axis_idx, value)),
        stays_on(joystick_num, hat_writes(joystick_num, state)),
        stays_on(joystick_num, button_writes(joystick_num, button_idx, is_down)),
        stays_on(joystick_num, pad_writes(joystick_num, connected, buttons)),
{
}

/// The two joystick ports share no pin: joysticks of different parity drive different ones. So an
/// event of one leaves every pin of the other as it is.
pub proof fn law_ports_share_no_pin(
    one: u32,
    other: u32,
    writes: Seq<PinWrite>,
    port: Port,
    pin: u8,
    before: bool,
)
    requires
        one % 2 != other % 2,
        stays_on(one, writes),
        drives(other, port, pin),
    ensures
        !drives(one, port, pin),
        level(writes, port, pin, before) == before,
{
    lemma_level_elsewhere(one, writes, port, pin, before);
}

/// Every second joystick counts for the same port: joysticks of the same parity give the same
/// writes.
pub proof fn law_every_second_joystick(
    one: u32,
    other: u32,
    axis_idx: u8,
    value: i16,
    state: HatState,
    button_idx: u8,
    is_down: bool,
    connected: bool,
    buttons: u16,
)
    requires
        one % 2 == other % 2,
    ensures
        axis_writes(one, axis_idx, value) == axis_writes(other, axis_idx, value),
        hat_writes(one, state) == hat_writes(other, state),
        button_writes(one, button_idx, is_down) == button_writes(other, button_idx, is_down),
        pad_writes(one, connected, buttons) == pad_writes(other, connected, buttons),
{
}

/// Clearing opens every switch of both ports, whatever the pins were before, and leaves the
/// lower half of GPIO port D as it is.
pub proof fn law_clear_opens_every_switch(joystick_num: u32, port: Port, pin: u8, before: bool)
    ensures
        drives(joystick_num, port, pin) ==> level(clear_writes(), port, pin, before),
        port == Port::D && pin < 4 ==> level(clear_writes(), port, pin, before) == before,
{
    reveal_with_fuel(level, 6);
    let w = clear_writes();
    assert(w.drop_last().drop_last().drop_last().drop_last().drop_last() =~= Seq::empty());
    if port == Port::C && pin < 8 {
        assert(0xffu8 & (1u8 << pin) != 0) by (bit_vector)
            requires
                pin < 8,
        ;
    }
}

/// A hat back at the centre opens all four directions, whatever was closed before, and the hat
/// pushed in a straight direction closes that one alone.
pub proof fn law_hat(joystick_num: u32, direction: Direction, before: bool)
    ensures
        level(
            hat_writes(joystick_num, HatState::Centered),
            Port::C,
            dpad_pin(joystick_num, direction) as u8,
            before,
        ),
        level(
            hat_writes(joystick_num, HatState::Up),
            Port::C,
            dpad_pin(joystick_num, direction) as u8,
            before,
        ) == (direction != Direction::Up && before),
        level(
            hat_writes(joystick_num, HatState::Right),
            Port::C,
            dpad_pin(joystick_num, direction) as u8,
            before,
        ) == (direction != Direction::Right && before),
        level(
            hat_writes(joystick_num, HatState::Down),
            Port::C,
            dpad_pin(joystick_num, direction) as u8,
            before,
        ) == (direction != Direction::Down && before),
        level(
            hat_writes(joystick_num, HatState::Left),
            Port::C,
            dpad_pin(joystick_num, direction) as u8,
            before,
        ) == (direction != Direction::Left && before),
{
    reveal_with_fuel(level, 5);
}

/// Letting a button go undoes pressing it: its pin reads open again.
pub proof fn law_button_release(joystick_num: u32, button_idx: u8, before: bool)
    ensures
        !level(
            button_writes(joystick_num, button_idx, true),
            Port::D,
            button_pin(joystick_num, button_idx) as u8,
            before,
        ),
        level(
            button_writes(joystick_num, button_idx, true) + button_writes(
                joystick_num,
                button_idx,
                false,
            ),
            Port::D,
            button_pin(joystick_num, button_idx) as u8,
            before,
        ),
{
    let pin = button_pin(joystick_num, button_idx) as u8;
    reveal_with_fuel(level, 2);
    lemma_level_concat(
        button_writes(joystick_num, button_idx, true),
        button_writes(joystick_num, button_idx, false),
        Port::D,
        pin,
        before,
    );
}

/// An axis never closes both of its directions, and closes neither near its centre.
pub proof fn law_axis(joystick_num: u32, value: i16, before: bool)
    ensures
        ({
            let left = level(
                axis_writes(joystick_num, 0, value),
                Port::C,
                dpad_pin(joystick_num, Direction::Left) as u8,
                before,
            );
            let right = level(
                axis_writes(joystick_num, 0, value),
                Port::C,
                dpad_pin(joystick_num, Direction::Right) as u8,
                before,
            );
            let up = level(
                axis_writes(joystick_num, 1, value),
                Port::C,
                dpad_pin(joystick_num, Direction::Up) as u8,
                before,
            );
            let down = level(
                axis_writes(joystick_num, 1, value),
                Port::C,
                dpad_pin(joystick_num, Direction::Down) as u8,
                before,
            );
            &&& left == (value > -AXIS_THRESHOLD) && right == (value < AXIS_THRESHOLD)
            &&& up == (value > -AXIS_THRESHOLD) && down == (value < AXIS_THRESHOLD)
            &&& left || right
            &&& up || down
        }),
{
    reveal_with_fuel(level, 3);
}

/// A virtual pad sets every pin of its port: one reads closed just where the pad is plugged in and
/// holds its button, whatever the pins were before.
pub proof fn law_pad_sets_every_pin(port_num: u32, connected: bool, buttons: u16, before: bool)
    ensures
        ({
            let writes = pad_writes(port_num, connected, buttons);
            let up = dpad_pin(port_num, Direction::Up) as u8;
            let right = dpad_pin(port_num, Direction::Right) as u8;
            let down = dpad_pin(port_num, Direction::Down) as u8;
            let left = dpad_pin(port_num, Direction::Left) as u8;
            let a = button_pin(port_num, 0) as u8;
            let b = button_pin(port_num, 1) as u8;
            &&& level(writes, Port::C, up, before) == !pad_held(connected, buttons, PAD_UP)
            &&& level(writes, Port::C, right, before) == !pad_held(connected, buttons, PAD_RIGHT)
            &&& level(writes, Port::C, down, before) == !pad_held(connected, buttons, PAD_DOWN)
            &&& level(writes, Port::C, left, before) == !pad_held(connected, buttons, PAD_LEFT)
            &&& level(writes, Port::D, a, before) == !pad_held(connected, buttons, PAD_A)
            &&& level(writes, Port::D, b, before) == !pad_held(connected, buttons, PAD_B)
        }),
{
    reveal_with_fuel(level, 7);
}

/// A virtual pad lands on the exact pins that host joystick input does: from open switches, a pad
/// that holds one direction, or one fire button, leaves every pin as the hat pushed that way, or
/// the button pressed, leaves it.
pub proof fn law_pad_lands_on_host_pins(port_num: u32, port: Port, pin: u8)
    ensures
        level(pad_writes(port_num, true, PAD_UP), port, pin, true) == level(
            hat_writes(port_num, HatState::Up),
            port,
            pin,
            true,
        ),
        level(pad_writes(port_num, true, PAD_RIGHT), port, pin, true) == level(
            hat_writes(port_num, HatState::Right),
            port,
            pin,
            true,
        ),
        level(pad_writes(port_num, true, PAD_DOWN), port, pin, true) == level(
            hat_writes(port_num, HatState::Down),
            port,
            pin,
            true,
        ),
        level(pad_writes(port_num, true, PAD_LEFT), port, pin, true) == level(
            hat_writes(port_num, HatState::Left),
            port,
            pin,
            true,
        ),
        level(pad_writes(port_num, true, PAD_A), port, pin, true) == level(
            button_writes(port_num, 0, true),
            port,
            pin,
            true,
        ),
        level(pad_writes(port_num, true, PAD_B), port, pin, true) == level(
            button_writes(port_num, 1, true),
            port,
            pin,
            true,
        ),
{
    reveal_with_fuel(level, 7);
    lemma_pad_bits();
}

/// A pad's bits are apart.
proof fn lemma_pad_bits()
    ensures
        forall|a: u16, b: u16|
            #![trigger pad_held(true, a, b)]
            (a == 1 || a == 2 || a == 4 || a == 8 || a == 16 || a == 32) && (b == 1 || b == 2 || b == 4
                || b == 8 || b == 16 || b == 32) ==> pad_held(true, a, b) == (a == b),
{
    assert forall|a: u16, b: u16|
        #![trigger pad_held(true, a, b)]
        (a == 1 || a == 2 || a == 4 || a == 8 || a == 16 || a == 32) && (b == 1 || b == 2 || b == 4
            || b == 8 || b == 16 || b == 32) implies pad_held(true, a, b) == (a == b) by {
        assert((a & b != 0) == (a == b)) by (bit_vector)
            requires
                a == 1 || a == 2 || a == 4 || a == 8 || a == 16 || a == 32,
                b == 1 || b == 2 || b == 4 || b == 8 || b == 16 || b == 32,
        ;
    }
}

/// A pad that is not plugged in reads as idle: it writes what a pad that holds nothing writes,
/// and every pin of its port reads open.
pub proof fn law_unplugged_pad_is_idle(port_num: u32, buttons: u16, port: Port, pin: u8, before: bool)
    ensures
        pad_writes(port_num, false, buttons) == pad_writes(port_num, true, 0),
        drives(port_num, port, pin) ==> level(
            pad_writes(port_num, false, buttons),
            port,
            pin,
            before,
        ),
{
    assert(forall|b: u16| #![trigger 0u16 & b] 0u16 & b == 0) by {
        assert(forall|b: u16| #![trigger 0u16 & b] 0u16 & b == 0) by (bit_vector);
    }
    assert(pad_writes(port_num, false, buttons) =~= pad_writes(port_num, true, 0));
    reveal_with_fuel(level, 7);
}

/// The pad's buttons that the machine does not have make no difference.
pub proof fn law_other_pad_buttons_are_ignored(port_num: u32, connected: bool, buttons: u16)
    ensures
        pad_writes(port_num, connected, buttons) == pad_writes(port_num, connected, buttons & 0x3f),
{
    assert((buttons & 0x3f) & 1 == buttons & 1) by (bit_vector);
    assert((buttons & 0x3f) & 2 == buttons & 2) by (bit_vector);
    assert((buttons & 0x3f) & 4 == buttons & 4) by (bit_vector);
    assert((buttons & 0x3f) & 8 == buttons & 8) by (bit_vector);
    assert((buttons & 0x3f) & 16 == buttons & 16) by (bit_vector);
    assert((buttons & 0x3f) & 32 == buttons & 32) by (bit_vector);
    assert(pad_writes(port_num, connected, buttons) =~= pad_writes(
        port_num,
        connected,
        buttons & 0x3f,
    ));
}

/// The pins: a joystick's up, down, left and right are pins 1, 3, 5 and 7 of GPIO port C, and its
/// two fire buttons pins 5 and 7 of GPIO port D; for the joysticks of port 2, one less each.
pub proof fn law_pins(joystick_num: u32, button_idx: u8)
    ensures
        ({
            let below: int = if joystick_num % 2 == 0 {
                0
            } else {
                1
            };
            &&& dpad_pin(joystick_num, Direction::Up) == 1 - below
            &&& dpad_pin(joystick_num, Direction::Down) == 3 - below
            &&& dpad_pin(joystick_num, Direction::Left) == 5 - below
            &&& dpad_pin(joystick_num, Direction::Right) == 7 - below
            &&& button_idx % 2 == 0 ==> button_pin(joystick_num, button_idx) == 5 - below
            &&& button_idx % 2 == 1 ==> button_pin(joystick_num, button_idx) == 7 - below
        }),
{
}

/// A write to a direction or to a fire button is one to its pin, at the level that was asked for.
pub proof fn law_writes_go_to_pins(
    joystick_num: u32,
    direction: Direction,
    button_idx: u8,
    level: bool,
)
    ensures
        dpad_write(joystick_num, direction, level) matches PinWrite::One { port, pin, level: l }
            && port == Port::C && pin == dpad_pin(joystick_num, direction) && l == level,
        button_write(joystick_num, button_idx, level) matches PinWrite::One { port, pin, level: l }
            && port == Port::D && pin == button_pin(joystick_num, button_idx) && l == level,
{
}

/// Clearing sets all of GPIO port C high, and then pins 4 to 7 of GPIO port D, and writes nothing
/// else.
pub proof fn law_clear_writes(i: int)
    ensures
        clear_writes().len() == 5,
        clear_writes()[0] == (PinWrite::All { port: Port::C, levels: 0xff }),
        1 <= i <= 4 ==> clear_writes()[i] == (PinWrite::One {
            port: Port::D,
            pin: (3 + i) as u8,
            level: true,
        }),
{
}

/// An axis writes both of its directions, the one back first: the first axis left and right, the
/// second up and down, and no other axis anything. A direction is closed just where the axis is
/// out by 16384 or more that way.
pub proof fn law_axis_writes(joystick_num: u32, axis_idx: u8, value: i16)
    ensures
        ({
            let writes = axis_writes(joystick_num, axis_idx, value);
            let below: int = if joystick_num % 2 == 0 {
                0
            } else {
                1
            };
            let back = PinWrite::One {
                port: Port::C,
                pin: if axis_idx == 0 {
                    (5 - below) as u8
                } else {
                    (1 - below) as u8
                },
                level: !(value <= -16384),
            };
            let forth = PinWrite::One {
                port: Port::C,
                pin: if axis_idx == 0 {
                    (7 - below) as u8
                } else {
                    (3 - below) as u8
                },
                level: !(value >= 16384),
            };
            &&& axis_idx <= 1 ==> writes.len() == 2 && writes[0] == back && writes[1] == forth
            &&& axis_idx > 1 ==> writes.len() == 0
        }),
{
}

/// A hat in a straight direction writes that one low and nothing else; back at the centre it
/// writes all four high, and in between two directions it writes nothing.
pub proof fn law_hat_writes(joystick_num: u32)
    ensures
        hat_writes(joystick_num, HatState::Up) == seq![
            dpad_write(joystick_num, Direction::Up, false),
        ],
        hat_writes(joystick_num, HatState::Right) == seq![
            dpad_write(joystick_num, Direction::Right, false),
        ],
        hat_writes(joystick_num, HatState::Down) == seq![
            dpad_write(joystick_num, Direction::Down, false),
        ],
        hat_writes(joystick_num, HatState::Left) == seq![
            dpad_write(joystick_num, Direction::Left, false),
        ],
        hat_writes(joystick_num, HatState::Centered) == seq![
            dpad_write(joystick_num, Direction::Up, true),
            dpad_write(joystick_num, Direction::Right, true),
            dpad_write(joystick_num, Direction::Down, true),
            dpad_write(joystick_num, Direction::Left, true),
        ],
        hat_writes(joystick_num, HatState::RightUp).len() == 0,
        hat_writes(joystick_num, HatState::RightDown).len() == 0,
        hat_writes(joystick_num, HatState::LeftUp).len() == 0,
        hat_writes(joystick_num, HatState::LeftDown).len() == 0,
{
}

/// A button writes its own pin and nothing else: low while it is down, high once it is up.
pub proof fn law_button_writes(joystick_num: u32, button_idx: u8, is_down: bool)
    ensures
        button_writes(joystick_num, button_idx, is_down).len() == 1,
        button_writes(joystick_num, button_idx, is_down)[0] matches PinWrite::One {
            port,
            pin,
            level,
        } && port == Port::D && pin == button_pin(joystick_num, button_idx) && level != is_down,
{
}

/// A virtual pad writes six pins: up, right, down, left and its two fire buttons, each low just
/// where the pad is plugged in and the button's bit is set.
pub proof fn law_pad_writes(port_num: u32, connected: bool, buttons: u16)
    ensures
        pad_writes(port_num, connected, buttons).len() == 6,
        pad_writes(port_num, connected, buttons)[0] == dpad_write(
            port_num,
            Direction::Up,
            !(connected && buttons & 4 != 0),
        ),
        pad_writes(port_num, connected, buttons)[1] == dpad_write(
            port_num,
            Direction::Right,
            !(connected && buttons & 2 != 0),
        ),
        pad_writes(port_num, connected, buttons)[2] == dpad_write(
            port_num,
            Direction::Down,
            !(connected && buttons & 8 != 0),
        ),
        pad_writes(port_num, connected, buttons)[3] == dpad_write(
            port_num,
            Direction::Left,
            !(connected && buttons & 1 != 0),
        ),
        pad_writes(port_num, connected, buttons)[4] == button_write(
            port_num,
            0,
            !(connected && buttons & 16 != 0),
        ),
        pad_writes(port_num, connected, buttons)[5] == button_write(
            port_num,
            1,
            !(connected && buttons & 32 != 0),
        ),
{
}

} // verus!
