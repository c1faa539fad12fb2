use vstd::prelude::*;
use crate::arch::registers::{RegisterBlock, word};
use crate::arch::arm::page::{PageTable, mapped_sld, pages_for};

verus! {

pub const GPFSEL0: u32 = 0x00;
pub const GPFSEL1: u32 = 0x04;
pub const GPFSEL2: u32 = 0x08;
pub const GPFSEL3: u32 = 0x0C;
pub const GPFSEL4: u32 = 0x10;
pub const GPFSEL5: u32 = 0x14;
pub const GPSET0: u32 = 0x1C;
pub const GPSET1: u32 = 0x20;
pub const GPCLR0: u32 = 0x28;
pub const GPCLR1: u32 = 0x2C;
pub const GPLEV0: u32 = 0x34;
pub const GPLEV1: u32 = 0x38;
pub const GPEDS0: u32 = 0x40;
pub const GPEDS1: u32 = 0x44;
pub const GPREN0: u32 = 0x4C;
pub const GPREN1: u32 = 0x50;
pub const GPFEN0: u32 = 0x58;
pub const GPFEN1: u32 = 0x5C;
pub const GPHEN0: u32 = 0x64;
pub const GPHEN1: u32 = 0x68;
pub const GPLEN0: u32 = 0x70;
pub const GPLEN1: u32 = 0x74;
pub const GPAREN0: u32 = 0x7C;
pub const GPAREN1: u32 = 0x80;
pub const GPAFEN0: u32 = 0x88;
pub const GPAFEN1: u32 = 0x8C;
/// Controls the pull up/down of all pins.
pub const GPPUD: u32 = 0x94;
/// Clocks the pull up/down into pins 0..32.
pub const GPPUDCLK0: u32 = 0x98;
/// Clocks the pull up/down into pins 32..54.
pub const GPPUDCLK1: u32 = 0x9C;
pub const TEST: u32 = 0xB0;

/// Number of 32-bit registers from `GPFSEL0` to `TEST`.
pub const GPIO_REGISTERS: usize = 45;

/// Function of a pin.
#[derive(Clone, Copy, PartialEq, Eq, Structural, Debug)]
pub enum Mode {
    Input,
    Output,
    Alt0,
    Alt1,
    Alt2,
    Alt3,
    Alt4,
    Alt5,
}

/// The three-bit function-select code of a mode.
pub open spec fn mode_code(m: Mode) -> u32 {
    match m {
        Mode::Input => 0b000,
        Mode::Output => 0b001,
        Mode::Alt0 => 0b100,
        Mode::Alt1 => 0b101,
        Mode::Alt2 => 0b110,
        Mode::Alt3 => 0b111,
        Mode::Alt4 => 0b011,
        Mode::Alt5 => 0b010,
    }
}

impl Mode {
    /// The three-bit function-select code.
    pub fn code(self) -> (r: u32)
        ensures
            r == mode_code(self),
    {
        match self {
            Mode::Input => 0b000,
            Mode::Output => 0b001,
            Mode::Alt0 => 0b100,
            Mode::Alt1 => 0b101,
            Mode::Alt2 => 0b110,
            Mode::Alt3 => 0b111,
            Mode::Alt4 => 0b011,
            Mode::Alt5 => 0b010,
        }
    }
}

/// Level of a pin.
#[derive(Clone, Copy, PartialEq, Eq, Structural, Debug)]
pub enum Level {
    Low,
    High,
}

impl Level {
    /// `true` for `Low`.
    pub fn is_low(self) -> (r: bool)
        ensures
            r == (self == Level::Low),
    {
        match self {
            Level::Low => true,
            Level::High => false,
        }
    }

    /// `true` for `High`.
    pub fn is_high(self) -> (r: bool)
        ensures
            r == (self == Level::High),
    {
        !self.is_low()
    }
}

/// Which changes of a pin raise an event.
#[derive(Clone, Copy, PartialEq, Eq, Structural, Debug)]
pub enum EventDetectionType {
    NoDetect,
    RisingEdge,
    FallingEdge,
    Transition,
    High,
    Low,
    AsyncRisingEdge,
    AsyncFallingEdge,
}

/// Pull resistor setting of a pin.
#[derive(Clone, Copy, PartialEq, Eq, Structural, Debug)]
pub enum PullUpDown {
    Disable,
    PullDown,
    PullUp,
}

impl PullUpDown {
    /// The value of the setting in the pull-up/down register.
    pub fn code(self) -> (r: u32)
        ensures
            r == match self { PullUpDown::Disable => 0u32, PullUpDown::PullDown => 1u32, PullUpDown::PullUp => 2u32 },
    {
        match self {
            PullUpDown::Disable => 0,
            PullUpDown::PullDown => 1,
            PullUpDown::PullUp => 2,
        }
    }
}

/// The register of a pair (`reg0` for pins 0..32, the next one for 32..54)
/// that holds pin `ch`.
pub open spec fn bank_reg(reg0: u32, ch: u8) -> u32 {
    if ch < 32 { reg0 } else { (reg0 + 4) as u32 }
}

/// The bit of pin `ch` in its register of a pair.
pub open spec fn bank_bit(ch: u8) -> u32 {
    if ch < 32 { 1u32 << (ch as u32) } else { 1u32 << ((ch - 32) as u32) }
}

/// `regs` with `bank_bit(ch)` set in the register of the pair at `reg0`.
pub open spec fn with_bit_set(regs: Seq<u32>, reg0: u32, ch: u8) -> Seq<u32> {
    regs.update(word(bank_reg(reg0, ch)), regs[word(bank_reg(reg0, ch))] | bank_bit(ch))
}

/// `regs` with `bank_bit(ch)` cleared in the register of the pair at `reg0`.
pub open spec fn with_bit_clear(regs: Seq<u32>, reg0: u32, ch: u8) -> Seq<u32> {
    regs.update(word(bank_reg(reg0, ch)), regs[word(bank_reg(reg0, ch))] & !bank_bit(ch))
}

/// A GPIO pin, 0 to 53.
pub struct Channel(u8);

impl Channel {
    /// The pin number.
    pub closed spec fn number(&self) -> u8 {
        self.0
    }

    /// Internal invariant: a pin that exists.
    pub closed spec fn wf(&self) -> bool {
        self.0 <= 53
    }

    /// Sets the function of pin `channel` (0 to 53) to `mode` and returns the pin.
    pub fn with_mode(gpio: &mut RegisterBlock, channel: u8, mode: Mode) -> (r: Channel)
        requires
            channel <= 53,
            old(gpio)@.len() == GPIO_REGISTERS,
        ensures
            r.wf(),
            r.number() == channel,
            final(gpio)@ == old(gpio)@.update(
                (channel / 10) as int,
                (old(gpio)@[(channel / 10) as int] & !(0b111u32 << ((channel % 10) * 3) as u32))
                    | (mode_code(mode) << ((channel % 10) * 3) as u32),
            ),
    {
        let (reg, bit) = if channel <= 9 {
            (GPFSEL0, channel)
        } else if channel <= 19 {
            (GPFSEL1, channel - 10)
        } else if channel <= 29 {
            (GPFSEL2, channel - 20)
        } else if channel <= 39 {
            (GPFSEL3, channel - 30)
        } else if channel <= 49 {
            (GPFSEL4, channel - 40)
        } else {
            (GPFSEL5, channel - 50)
        };
        let shift = (bit * 3) as u32;
        gpio.store(reg, gpio.load(reg) & !(0b111u32 << shift) | mode.code() << shift);
        Channel(channel)
    }

    /// Makes pin `channel` an input.
    pub fn with_input(gpio: &mut RegisterBlock, channel: u8) -> (r: Channel)
        requires
            channel <= 53,
            old(gpio)@.len() == GPIO_REGISTERS,
        ensures
            r.wf(),
            r.number() == channel,
            final(gpio)@ == old(gpio)@.update(
                (channel / 10) as int,
                (old(gpio)@[(channel / 10) as int] & !(0b111u32 << ((channel % 10) * 3) as u32))
                    | (mode_code(Mode::Input) << ((channel % 10) * 3) as u32),
            ),
    {
        Channel::with_mode(gpio, channel, Mode::Input)
    }

    /// Makes pin `channel` an output.
    pub fn with_output(gpio: &mut RegisterBlock, channel: u8) -> (r: Channel)
        requires
            channel <= 53,
            old(gpio)@.len() == GPIO_REGISTERS,
        ensures
            r.wf(),
            r.number() == channel,
            final(gpio)@ == old(gpio)@.update(
                (channel / 10) as int,
                (old(gpio)@[(channel / 10) as int] & !(0b111u32 << ((channel % 10) * 3) as u32))
                    | (mode_code(Mode::Output) << ((channel % 10) * 3) as u32),
            ),
    {
        Channel::with_mode(gpio, channel, Mode::Output)
    }

    /// The register of the pair at `reg0` holding this pin, and its bit.
    fn regs_shift(&self, reg0: u32) -> (r: (u32, u32))
        requires
            self.wf(),
            reg0 <= 0x90,
        ensures
            r.0 == bank_reg(reg0, self.number()),
            r.1 == bank_bit(self.number()),
    {
        if self.0 <= 31 {
            (reg0, 1u32 << (self.0 as u32))
        } else {
            (reg0 + 4, 1u32 << ((self.0 - 32) as u32))
        }
    }

    /// Drives the pin high: writes its bit to the set register.
    pub fn set(&self, gpio: &mut RegisterBlock)
        requires
            self.wf(),
            old(gpio)@.len() == GPIO_REGISTERS,
        ensures
            final(gpio)@ == old(gpio)@.update(word(bank_reg(GPSET0, self.number())), bank_bit(self.number())),
    {
        let (reg, bit) = self.regs_shift(GPSET0);
        gpio.store(reg, bit);
    }

    /// Drives the pin low: writes its bit to the clear register.
    pub fn clear(&self, gpio: &mut RegisterBlock)
        requires
            self.wf(),
            old(gpio)@.len() == GPIO_REGISTERS,
        ensures
            final(gpio)@ == old(gpio)@.update(word(bank_reg(GPCLR0, self.number())), bank_bit(self.number())),
    {
        let (reg, bit) = self.regs_shift(GPCLR0);
        gpio.store(reg, bit);
    }

    /// The level of the pin, from the level register.
    pub fn level(&self, gpio: &RegisterBlock) -> (r: Level)
        requires
            self.wf(),
            gpio@.len() == GPIO_REGISTERS,
        ensures
            r == if gpio@[word(bank_reg(GPLEV0, self.number()))] & bank_bit(self.number()) == 0 { Level::Low } else { Level::High },
    {
        let (reg, bit) = self.regs_shift(GPLEV0);
        if gpio.load(reg) & bit == 0 {
            Level::Low
        } else {
            Level::High
        }
    }

    /// Reports the event-detect status: the pin's masked status bit is
    /// compared with 1, so only pins 0 and 32 can report `true`.
    pub fn event_status(&self, gpio: &RegisterBlock) -> (r: bool)
        requires
            self.wf(),
            gpio@.len() == GPIO_REGISTERS,
        ensures
            r == (gpio@[word(bank_reg(GPEDS0, self.number()))] & bank_bit(self.number()) == 1),
    {
        let (reg, bit) = self.regs_shift(GPEDS0);
        gpio.load(reg) & bit == 1
    }

    /// Applies the pull setting `pud` to the pin: writes the setting, sets
    /// the pin's bit in the event-detect register of its pair, then clears
    /// the setting and that register. The pauses the hardware needs between
    /// the writes are the caller's to make; the register values left behind
    /// are what is stated.
    pub fn set_pull(&self, gpio: &mut RegisterBlock, pud: PullUpDown)
        requires
            self.wf(),
            old(gpio)@.len() == GPIO_REGISTERS,
        ensures
            final(gpio)@ == old(gpio)@.update(word(GPPUD), 0).update(word(bank_reg(GPEDS0, self.number())), 0),
    {
        let (reg, bit) = self.regs_shift(GPEDS0);
        gpio.store(GPPUD, pud.code());
        gpio.store(reg, gpio.load(reg) | bit);
        gpio.store(GPPUD, 0);
        gpio.store(reg, 0);
        proof {
            assert(gpio@ =~= old(gpio)@.update(word(GPPUD), 0).update(word(bank_reg(GPEDS0, self.number())), 0));
        }
    }

    /// Acknowledges the pin's event: sets its bit in the event-detect register.
    pub fn clear_event(&self, gpio: &mut RegisterBlock)
        requires
            self.wf(),
            old(gpio)@.len() == GPIO_REGISTERS,
        ensures
            final(gpio)@ == with_bit_set(old(gpio)@, GPEDS0, self.number()),
    {
        let (reg, bit) = self.regs_shift(GPEDS0);
        gpio.store(reg, gpio.load(reg) | bit);
    }

    /// Sets the pin's bit in the register of the pair at `reg0`.
    fn set_bit(&self, gpio: &mut RegisterBlock, reg0: u32)
        requires
            self.wf(),
            reg0 % 4 == 0,
            reg0 <= 0x90,
            old(gpio)@.len() == GPIO_REGISTERS,
        ensures
            final(gpio)@ == with_bit_set(old(gpio)@, reg0, self.number()),
    {
        let (reg, bit) = self.regs_shift(reg0);
        gpio.store(reg, gpio.load(reg) | bit);
    }

    /// Clears the pin's bit in the register of the pair at `reg0`.
    fn clear_bit(&self, gpio: &mut RegisterBlock, reg0: u32)
        requires
            self.wf(),
            reg0 % 4 == 0,
            reg0 <= 0x90,
            old(gpio)@.len() == GPIO_REGISTERS,
        ensures
            final(gpio)@ == with_bit_clear(old(gpio)@, reg0, self.number()),
    {
        let (reg, bit) = self.regs_shift(reg0);
        gpio.store(reg, gpio.load(reg) & !bit);
    }

    /// Chooses which changes of the pin raise events: `NoDetect` clears the
    /// pin in all six detect-enable registers; every other kind sets it in
    /// its register (`Transition` in both the rising and falling ones).
    pub fn set_event_type(&self, gpio: &mut RegisterBlock, event: EventDetectionType)
        requires
            self.wf(),
            old(gpio)@.len() == GPIO_REGISTERS,
        ensures
            final(gpio)@ == match event {
                EventDetectionType::NoDetect => with_bit_clear(with_bit_clear(with_bit_clear(with_bit_clear(
                    with_bit_clear(with_bit_clear(old(gpio)@, GPREN0, self.number()), GPFEN0, self.number()),
                    GPHEN0, self.number()), GPLEN0, self.number()), GPAREN0, self.number()), GPAFEN0, self.number()),
                EventDetectionType::RisingEdge => with_bit_set(old(gpio)@, GPREN0, self.number()),
                EventDetectionType::FallingEdge => with_bit_set(old(gpio)@, GPFEN0, self.number()),
                EventDetectionType::Transition => with_bit_set(with_bit_set(old(gpio)@, GPREN0, self.number()), GPFEN0, self.number()),
                EventDetectionType::High => with_bit_set(old(gpio)@, GPHEN0, self.number()),
                EventDetectionType::Low => with_bit_set(old(gpio)@, GPLEN0, self.number()),
                EventDetectionType::AsyncRisingEdge => with_bit_set(old(gpio)@, GPAREN0, self.number()),
                EventDetectionType::AsyncFallingEdge => with_bit_set(old(gpio)@, GPAFEN0, self.number()),
            },
    {
        match event {
            EventDetectionType::NoDetect => {
                self.clear_bit(gpio, GPREN0);
                self.clear_bit(gpio, GPFEN0);
                self.clear_bit(gpio, GPHEN0);
                self.clear_bit(gpio, GPLEN0);
                self.clear_bit(gpio, GPAREN0);
                self.clear_bit(gpio, GPAFEN0);
            },
            EventDetectionType::RisingEdge => {
                self.set_bit(gpio, GPREN0);
            },
            EventDetectionType::FallingEdge => {
                self.set_bit(gpio, GPFEN0);
            },
            EventDetectionType::Transition => {
                self.set_bit(gpio, GPREN0);
                self.set_bit(gpio, GPFEN0);
            },
            EventDetectionType::High => {
                self.set_bit(gpio, GPHEN0);
            },
            EventDetectionType::Low => {
                self.set_bit(gpio, GPLEN0);
            },
            EventDetectionType::AsyncRisingEdge => {
                self.set_bit(gpio, GPAREN0);
            },
            EventDetectionType::AsyncFallingEdge => {
                self.set_bit(gpio, GPAFEN0);
            },
        }
    }
}

/// Maps the GPIO registers, from `base + GPFSEL0` up to `base + TEST`, onto
/// themselves.
pub fn map_pages(table: &mut PageTable, base: u32)
    requires
        old(table).wf(),
        base + TEST <= u32::MAX,
        old(table).coarse_over(base as int / 4096, pages_for(TEST as int)),
    ensures
        final(table).wf(),
        final(table).sld_base() == old(table).sld_base(),
        final(table).first_level() == old(table).first_level(),
        final(table).second_level() == mapped_sld(old(table).second_level(), base as int / 4096, pages_for(TEST as int), base, true, true),
{
    table.map_direct(PageTable::FLAGS_KERNEL, base + GPFSEL0, TEST - GPFSEL0);
}

} // verus!
