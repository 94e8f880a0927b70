//! Chips (in Groupie terms: adapters) and the buses they sit on.

use vstd::prelude::*;

use crate::text::{concat_str, digit_char, digit_to_char, format_radix, format_signed, push_char, radix_text, signed_decimal};

verus! {

/// The kind of bus a chip sits on, as libsensors numbers them (0 to 8, in this order).
#[derive(Clone, Copy, Debug, PartialEq, Eq, Structural)]
pub enum BusType {
    I2C,
    ISA,
    PCI,
    SPI,
    VIRTUAL,
    ACPI,
    HID,
    MDIO,
    SCSI,
}

/// The short name of each bus type.
pub open spec fn bus_type_name(t: BusType) -> Seq<char> {
    match t {
        BusType::I2C => seq!['i', '2', 'c'],
        BusType::ISA => seq!['i', 's', 'a'],
        BusType::PCI => seq!['p', 'c', 'i'],
        BusType::SPI => seq!['s', 'p', 'i'],
        BusType::VIRTUAL => seq!['v', 'i', 'r', 't'],
        BusType::ACPI => seq!['a', 'c', 'p', 'i'],
        BusType::HID => seq!['h', 'i', 'd'],
        BusType::MDIO => seq!['m', 'd', 'i', 'o'],
        BusType::SCSI => seq!['s', 'c', 's', 'i'],
    }
}

/// The number libsensors uses for each bus type.
pub open spec fn bus_type_number(t: BusType) -> int {
    match t {
        BusType::I2C => 0,
        BusType::ISA => 1,
        BusType::PCI => 2,
        BusType::SPI => 3,
        BusType::VIRTUAL => 4,
        BusType::ACPI => 5,
        BusType::HID => 6,
        BusType::MDIO => 7,
        BusType::SCSI => 8,
    }
}

impl BusType {
    /// The short name of this bus type, as libsensors writes it in chip names.
    pub fn str_repr(&self) -> (r: &'static str)
        ensures
            r@ == bus_type_name(*self),
    {
        proof {
            reveal_strlit("i2c");
            reveal_strlit("isa");
            reveal_strlit("pci");
            reveal_strlit("spi");
            reveal_strlit("virt");
            reveal_strlit("acpi");
            reveal_strlit("hid");
            reveal_strlit("mdio");
            reveal_strlit("scsi");
        }
        match self {
            BusType::I2C => "i2c",
            BusType::ISA => "isa",
            BusType::PCI => "pci",
            BusType::SPI => "spi",
            BusType::VIRTUAL => "virt",
            BusType::ACPI => "acpi",
            BusType::HID => "hid",
            BusType::MDIO => "mdio",
            BusType::SCSI => "scsi",
        }
    }

    /// The bus type that libsensors numbers `value`, if any.
    pub fn from_repr(value: i16) -> (r: Option<BusType>)
        ensures
            r matches Some(t) ==> bus_type_number(t) == value,
            r is None ==> forall|t: BusType| bus_type_number(t) != value,
    {
        match value {
            0 => Some(BusType::I2C),
            1 => Some(BusType::ISA),
            2 => Some(BusType::PCI),
            3 => Some(BusType::SPI),
            4 => Some(BusType::VIRTUAL),
            5 => Some(BusType::ACPI),
            6 => Some(BusType::HID),
            7 => Some(BusType::MDIO),
            8 => Some(BusType::SCSI),
            _ => None,
        }
    }

    /// The number libsensors uses for this bus type.
    pub fn to_repr(&self) -> (r: i16)
        ensures
            r == bus_type_number(*self),
    {
        match self {
            BusType::I2C => 0,
            BusType::ISA => 1,
            BusType::PCI => 2,
            BusType::SPI => 3,
            BusType::VIRTUAL => 4,
            BusType::ACPI => 5,
            BusType::HID => 6,
            BusType::MDIO => 7,
            BusType::SCSI => 8,
        }
    }
}

/// A raw bus type number that libsensors does not define.
#[derive(Debug, Clone, Copy, PartialEq, Eq, Structural)]
pub enum BusError {
    VariantNotFound,
}

/// The bus a chip sits on: its type and number.
#[derive(Clone, Copy, Debug, PartialEq, Eq, Structural)]
pub struct Bus {
    pub type_: BusType,
    pub nr: i16,
}

impl Bus {
    /// The bus that the raw libsensors bus id (`type_`, `nr`) describes;
    /// an error if the type number is unknown.
    pub fn try_from(type_: i16, nr: i16) -> (r: Result<Bus, BusError>)
        ensures
            r matches Ok(b) ==> bus_type_number(b.type_) == type_ && b.nr == nr,
            r is Err ==> forall|t: BusType| bus_type_number(t) != type_,
    {
        match BusType::from_repr(type_) {
            Some(t) => Ok(Bus { type_: t, nr }),
            None => Err(BusError::VariantNotFound),
        }
    }

    /// The bus as displayed: `<type>-<number>`.
    pub fn to_string(&self) -> (r: String)
        ensures
            r@ == bus_type_name(self.type_) + seq!['-'] + signed_decimal(self.nr as int),
    {
        let mut s = concat_str(self.type_.str_repr(), "-");
        proof {
            reveal_strlit("-");
        }
        let digits = format_signed(self.nr as i64);
        s.append(digits.as_str());
        s
    }
}

/// The big-endian bytes of `v` as a 32-bit two's complement number.
pub open spec fn be_bytes(v: i32) -> Seq<nat> {
    let u = (v as int + if v < 0 { 0x1_0000_0000int } else { 0 }) as nat;
    seq![(u / 0x100_0000) % 0x100, (u / 0x1_0000) % 0x100, (u / 0x100) % 0x100, u % 0x100]
}

/// Two lowercase hexadecimal digits for a byte (as `{:02x}` writes it).
pub open spec fn hex_byte(b: nat) -> Seq<char> {
    seq![digit_char(b / 16, false), digit_char(b % 16, false)]
}

/// The bytes of `bytes` from the first non-zero one on, each as two hexadecimal digits.
pub open spec fn hex_without_leading_zero_bytes(bytes: Seq<nat>) -> Seq<char>
    decreases bytes.len(),
{
    if bytes.len() == 0 {
        Seq::empty()
    } else if bytes[0] == 0 {
        hex_without_leading_zero_bytes(bytes.drop_first())
    } else {
        hex_all(bytes)
    }
}

/// Every byte of `bytes` as two hexadecimal digits.
pub open spec fn hex_all(bytes: Seq<nat>) -> Seq<char>
    decreases bytes.len(),
{
    if bytes.len() == 0 {
        Seq::empty()
    } else {
        hex_byte(bytes[0]) + hex_all(bytes.drop_first())
    }
}

/// How a chip is displayed: `<prefix>-<bus>-` followed by its address as hexadecimal bytes,
/// leading zero bytes left out.
pub open spec fn chip_display(prefix: Seq<char>, bus: Bus, addr: i32) -> Seq<char> {
    prefix + seq!['-'] + bus_type_name(bus.type_) + seq!['-'] + signed_decimal(bus.nr as int) + seq!['-']
        + hex_without_leading_zero_bytes(be_bytes(addr))
}

/// The parts of a chip that describe it: the name prefix, the bus and the address.
pub struct ChipName {
    pub prefix: String,
    pub bus: Bus,
    pub addr: i32,
}

fn push_hex_byte(s: &mut String, b: u32)
    requires
        b < 256,
    ensures
        final(s)@ == old(s)@ + hex_byte(b as nat),
{
    push_char(s, digit_to_char((b / 16) as u64, false));
    push_char(s, digit_to_char((b % 16) as u64, false));
}

impl ChipName {
    /// The chip as displayed: `<prefix>-<bus>-<address bytes in hexadecimal>`.
    pub fn to_string(&self) -> (r: String)
        ensures
            r@ == chip_display(self.prefix@, self.bus, self.addr),
    {
        let mut s = concat_str(self.prefix.as_str(), "-");
        proof {
            reveal_strlit("-");
        }
        let bus = self.bus.to_string();
        s.append(bus.as_str());
        push_char(&mut s, '-');
        let w: i64 = if self.addr < 0 { self.addr as i64 + 0x1_0000_0000i64 } else { self.addr as i64 };
        let bytes: [i64; 4] = [(w / 0x100_0000) % 0x100, (w / 0x1_0000) % 0x100, (w / 0x100) % 0x100, w % 0x100];
        let ghost spec_bytes = be_bytes(self.addr);
        assert(spec_bytes.len() == 4);
        assert(forall|k: int| 0 <= k < 4 ==> bytes@[k] as nat == spec_bytes[k] && 0 <= bytes@[k] < 256);
        let ghost base = s@;
        assert(spec_bytes.skip(0) =~= spec_bytes);
        let mut started = false;
        let mut i: usize = 0;
        while i < 4
            invariant
                i <= 4,
                spec_bytes == be_bytes(self.addr),
                spec_bytes.len() == 4,
                forall|k: int| 0 <= k < 4 ==> bytes@[k] as nat == spec_bytes[k] && 0 <= bytes@[k] < 256,
                !started ==> forall|k: int| 0 <= k < i ==> spec_bytes[k] == 0,
                !started ==> s@ == base,
                started ==> s@ + hex_all(spec_bytes.skip(i as int)) == base + hex_without_leading_zero_bytes(spec_bytes),
                !started ==> hex_without_leading_zero_bytes(spec_bytes.skip(i as int)) == hex_without_leading_zero_bytes(spec_bytes),
            decreases 4 - i,
        {
            let b = bytes[i];
            proof {
                let rest = spec_bytes.skip(i as int);
                assert(rest[0] == spec_bytes[i as int]);
                assert(rest.drop_first() == spec_bytes.skip(i + 1));
            }
            if b != 0 || started {
                if !started {
                    assert(hex_without_leading_zero_bytes(spec_bytes.skip(i as int)) == hex_all(spec_bytes.skip(i as int)));
                }
                push_hex_byte(&mut s, b as u32);
                started = true;
                assert(hex_all(spec_bytes.skip(i as int)) == hex_byte(b as nat) + hex_all(spec_bytes.skip(i + 1)));
                assert(s@ + hex_all(spec_bytes.skip(i + 1)) == base + hex_without_leading_zero_bytes(spec_bytes));
            }
            i = i + 1;
        }
        proof {
            assert(spec_bytes.skip(4).len() == 0);
            assert(hex_all(spec_bytes.skip(4)) == Seq::<char>::empty());
            if !started {
                assert(hex_without_leading_zero_bytes(spec_bytes.skip(4)) == Seq::<char>::empty());
            }
        }
        s
    }
}

/// Different bus types have different numbers, so reading back the number of a bus type
/// (`BusType::from_repr` of `BusType::to_repr`) gives that bus type again.
pub proof fn bus_type_number_round_trip(a: BusType, b: BusType)
    ensures
        bus_type_number(a) == bus_type_number(b) ==> a == b,
{
}

} // verus!
