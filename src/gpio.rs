use vstd::prelude::*;

verus! {

/// One pin of a 32-pin port.
#[derive(Clone, Copy, Debug, PartialEq, Eq, Structural)]
pub enum Pin {
    P0,
    P1,
    P2,
    P3,
    P4,
    P5,
    P6,
    P7,
    P8,
    P9,
    P10,
    P11,
    P12,
    P13,
    P14,
    P15,
    P16,
    P17,
    P18,
    P19,
    P20,
    P21,
    P22,
    P23,
    P24,
    P25,
    P26,
    P27,
    P28,
    P29,
    P30,
    P31,
}

impl Pin {
    /// The pin's number, 0 to 31.
    pub open spec fn number_spec(&self) -> u32 {
        match *self {
            Pin::P0 => 0,
            Pin::P1 => 1,
            Pin::P2 => 2,
            Pin::P3 => 3,
            Pin::P4 => 4,
            Pin::P5 => 5,
            Pin::P6 => 6,
            Pin::P7 => 7,
            Pin::P8 => 8,
            Pin::P9 => 9,
            Pin::P10 => 10,
            Pin::P11 => 11,
            Pin::P12 => 12,
            Pin::P13 => 13,
            Pin::P14 => 14,
            Pin::P15 => 15,
            Pin::P16 => 16,
            Pin::P17 => 17,
            Pin::P18 => 18,
            Pin::P19 => 19,
            Pin::P20 => 20,
            Pin::P21 => 21,
            Pin::P22 => 22,
            Pin::P23 => 23,
            Pin::P24 => 24,
            Pin::P25 => 25,
            Pin::P26 => 26,
            Pin::P27 => 27,
            Pin::P28 => 28,
            Pin::P29 => 29,
            Pin::P30 => 30,
            Pin::P31 => 31,
        }
    }

    /// The pin's number, 0 to 31.
    pub fn number(&self) -> (r: u32)
        ensures
            r == self.number_spec(),
            r < 32,
    {
        match *self {
            Pin::P0 => 0,
            Pin::P1 => 1,
            Pin::P2 => 2,
            Pin::P3 => 3,
            Pin::P4 => 4,
            Pin::P5 => 5,
            Pin::P6 => 6,
            Pin::P7 => 7,
            Pin::P8 => 8,
            Pin::P9 => 9,
            Pin::P10 => 10,
            Pin::P11 => 11,
            Pin::P12 => 12,
            Pin::P13 => 13,
            Pin::P14 => 14,
            Pin::P15 => 15,
            Pin::P16 => 16,
            Pin::P17 => 17,
            Pin::P18 => 18,
            Pin::P19 => 19,
            Pin::P20 => 20,
            Pin::P21 => 21,
            Pin::P22 => 22,
            Pin::P23 => 23,
            Pin::P24 => 24,
            Pin::P25 => 25,
            Pin::P26 => 26,
            Pin::P27 => 27,
            Pin::P28 => 28,
            Pin::P29 => 29,
            Pin::P30 => 30,
            Pin::P31 => 31,
        }
    }

    /// The pin numbered `p`, where there is one.
    pub fn from_u32(p: u32) -> (r: Option<Pin>)
        ensures
            r is Some <==> p < 32,
            r matches Some(pin) ==> pin.number_spec() == p,
    {
        match p {
            0 => Some(Pin::P0),
            1 => Some(Pin::P1),
            2 => Some(Pin::P2),
            3 => Some(Pin::P3),
            4 => Some(Pin::P4),
            5 => Some(Pin::P5),
            6 => Some(Pin::P6),
            7 => Some(Pin::P7),
            8 => Some(Pin::P8),
            9 => Some(Pin::P9),
            10 => Some(Pin::P10),
            11 => Some(Pin::P11),
            12 => Some(Pin::P12),
            13 => Some(Pin::P13),
            14 => Some(Pin::P14),
            15 => Some(Pin::P15),
            16 => Some(Pin::P16),
            17 => Some(Pin::P17),
            18 => Some(Pin::P18),
            19 => Some(Pin::P19),
            20 => Some(Pin::P20),
            21 => Some(Pin::P21),
            22 => Some(Pin::P22),
            23 => Some(Pin::P23),
            24 => Some(Pin::P24),
            25 => Some(Pin::P25),
            26 => Some(Pin::P26),
            27 => Some(Pin::P27),
            28 => Some(Pin::P28),
            29 => Some(Pin::P29),
            30 => Some(Pin::P30),
            31 => Some(Pin::P31),
            _ => None,
        }
    }
}

/// A set of pins of one port, one bit per pin.
#[derive(Clone, Copy, Debug, PartialEq, Eq, Structural)]
pub struct Pins(pub u32);

/// The pin numbered `n` is in `bits`.
pub open spec fn has_pin(bits: u32, n: u32) -> bool {
    n < 32 && (bits >> n) & 1 == 1
}

impl Pins {
    /// Walks the pins of the set in ascending order.
    pub fn iter(&self) -> (r: PinIterator)
        ensures
            r.bits == self.0,
            r.next_pin == 0,
    {
        PinIterator::new(*self)
    }

    /// The set holding `pin` alone.
    pub fn from_pin(pin: Pin) -> (r: Pins)
        ensures
            r.0 == 1u32 << pin.number_spec(),
    {
        let n = pin.number();
        Pins(1u32 << n)
    }
}

/// Walks the pins of a set in ascending order.
pub struct PinIterator {
    pub bits: u32,
    /// Number of the next pin to look at.
    pub next_pin: u32,
}

impl PinIterator {
    pub fn new(pins: Pins) -> (r: PinIterator)
        ensures
            r.bits == pins.0,
            r.next_pin == 0,
    {
        PinIterator { bits: pins.0, next_pin: 0 }
    }

    /// The next pin of the set, at or after `next_pin`; `None` once past the last.
    pub fn next(&mut self) -> (r: Option<Pin>)
        requires
            old(self).next_pin <= 32,
        ensures
            final(self).bits == old(self).bits,
            final(self).next_pin <= 32,
            r matches Some(p) ==> {
                &&& has_pin(old(self).bits, p.number_spec())
                &&& old(self).next_pin <= p.number_spec()
                &&& final(self).next_pin == p.number_spec() + 1
                &&& forall|n: u32|
                    old(self).next_pin <= n < p.number_spec() ==> !#[trigger] has_pin(
                        old(self).bits,
                        n,
                    )
            },
            r is None ==> final(self).next_pin == 32 && forall|n: u32|
                old(self).next_pin <= n < 32 ==> !#[trigger] has_pin(old(self).bits, n),
    {
        while self.next_pin < 32
            invariant
                self.next_pin <= 32,
                self.bits == old(self).bits,
                old(self).next_pin <= self.next_pin,
                forall|n: u32|
                    old(self).next_pin <= n < self.next_pin ==> !#[trigger] has_pin(old(self).bits, n),
            decreases 32 - self.next_pin,
        {
            let n = self.next_pin;
            self.next_pin = n + 1;
            if (self.bits >> n) & 1 == 1 {
                let p = Pin::from_u32(n);
                match p {
                    Some(pin) => {
                        return Some(pin);
                    },
                    None => {},
                }
            }
        }
        None
    }
}

/// How a pin is configured.
#[derive(Clone, Copy, Debug, PartialEq, Eq, Structural)]
pub enum IOConfig {
    /// Neither input nor output.
    Disconnected,
    /// Input.
    Input,
    /// Output, starting at a low level.
    OutputLow,
    /// Output, starting at a high level.
    OutputHigh,
    /// Output, starting at logical 0.
    OutputInactive,
    /// Output, starting at logical 1.
    OutputActive,
}

/// How an output pin is configured.
#[derive(Clone, Copy, Debug, PartialEq, Eq, Structural)]
pub enum OutputConfig {
    OutputLow,
    OutputHigh,
    OutputInactive,
    OutputActive,
}

pub open spec fn io_config_of(oc: OutputConfig) -> IOConfig {
    match oc {
        OutputConfig::OutputLow => IOConfig::OutputLow,
        OutputConfig::OutputHigh => IOConfig::OutputHigh,
        OutputConfig::OutputInactive => IOConfig::OutputInactive,
        OutputConfig::OutputActive => IOConfig::OutputActive,
    }
}

impl From<OutputConfig> for IOConfig {
    fn from(oc: OutputConfig) -> (r: IOConfig) {
        match oc {
            OutputConfig::OutputLow => IOConfig::OutputLow,
            OutputConfig::OutputHigh => IOConfig::OutputHigh,
            OutputConfig::OutputInactive => IOConfig::OutputInactive,
            OutputConfig::OutputActive => IOConfig::OutputActive,
        }
    }
}

impl vstd::std_specs::convert::FromSpecImpl<OutputConfig> for IOConfig {
    open spec fn obeys_from_spec() -> bool {
        true
    }

    open spec fn from_spec(oc: OutputConfig) -> IOConfig {
        io_config_of(oc)
    }
}

/// Handle of a GPIO port device.
#[derive(Clone, Copy, Debug, PartialEq, Eq, Structural)]
pub struct DeviceRef(pub usize);

/// A group of pins of one port, owned together.
pub trait PinGroup {
    spec fn mask_spec(&self) -> Pins;

    fn get_mask(&self) -> (r: Pins)
        ensures
            r == self.mask_spec(),
    ;
}

/// `sub` is a subset of `all`.
pub open spec fn subset(all: u32, sub: u32) -> bool {
    all & sub == sub
}

/// Pins configured as inputs.
pub struct InputPinGroup(pub DeviceRef, pub Pins);

/// Input pins that raise interrupts.
pub struct InterruptPinGroup(pub InputPinGroup);

/// Pins configured as outputs.
pub struct OutputPinGroup(pub DeviceRef, pub Pins);

impl PinGroup for InputPinGroup {
    open spec fn mask_spec(&self) -> Pins {
        self.1
    }

    fn get_mask(&self) -> (r: Pins) {
        self.1
    }
}

impl PinGroup for InterruptPinGroup {
    open spec fn mask_spec(&self) -> Pins {
        self.0.1
    }

    fn get_mask(&self) -> (r: Pins) {
        self.0.get_mask()
    }
}

impl PinGroup for OutputPinGroup {
    open spec fn mask_spec(&self) -> Pins {
        self.1
    }

    fn get_mask(&self) -> (r: Pins) {
        self.1
    }
}

impl InputPinGroup {
    /// Splits off `pins`, which must all belong to the group: the first group
    /// holds `pins`, the second the rest.
    pub fn split(self, pins: Pins) -> (r: Option<(InputPinGroup, InputPinGroup)>)
        ensures
            r is Some <==> subset(self.1.0, pins.0),
            r matches Some((a, b)) ==> a.0 == self.0 && b.0 == self.0 && a.1 == pins && b.1.0
                == self.1.0 & !pins.0,
    {
        if self.1.0 & pins.0 == pins.0 {
            let rest = Pins(self.1.0 & !pins.0);
            Some((InputPinGroup(self.0, pins), InputPinGroup(self.0, rest)))
        } else {
            None
        }
    }
}

impl OutputPinGroup {
    /// Splits off `pins`, which must all belong to the group: the first group
    /// holds `pins`, the second the rest.
    pub fn split(self, pins: Pins) -> (r: Option<(OutputPinGroup, OutputPinGroup)>)
        ensures
            r is Some <==> subset(self.1.0, pins.0),
            r matches Some((a, b)) ==> a.0 == self.0 && b.0 == self.0 && a.1 == pins && b.1.0
                == self.1.0 & !pins.0,
    {
        if self.1.0 & pins.0 == pins.0 {
            let rest = Pins(self.1.0 & !pins.0);
            Some((OutputPinGroup(self.0, pins), OutputPinGroup(self.0, rest)))
        } else {
            None
        }
    }
}

impl InterruptPinGroup {
    /// The same pins as plain inputs.
    pub fn into_input(self) -> (r: InputPinGroup)
        ensures
            r == self.0,
    {
        self.0
    }

    /// The pins as plain inputs, borrowed.
    pub fn as_input(&self) -> (r: &InputPinGroup)
        ensures
            *r == self.0,
    {
        &self.0
    }
}

/// Splitting a group gives two disjoint groups that together hold exactly
/// the pins of the original.
pub proof fn lemma_split_partitions(all: u32, sub: u32)
    requires
        subset(all, sub),
    ensures
        sub & (all & !sub) == 0,
        sub | (all & !sub) == all,
{
    assert(sub & (all & !sub) == 0) by (bit_vector);
    assert(sub | (all & !sub) == all) by (bit_vector)
        requires all & sub == sub;
}

} // verus!
