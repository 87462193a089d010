//! Register contents of the sensors on the I2C bus.

use crate::bytes;
use vstd::prelude::*;

verus! {

/// First data register of the MPU6050.
pub const MPU6050_ACCEL_XOUT_H: u8 = 0x3B;

/// Power register of the MPU6050.
pub const MPU6050_PWR_MGMT_1: u8 = 0x6B;

/// Bytes in an MPU6050 sample: acceleration, temperature, turn rate.
pub const MPU6050_BYTES: usize = 14;

/// First data register of the QMC5883.
pub const QMC5883_DATA_X_L: u8 = 0x00;

/// Bytes in a QMC5883 sample.
pub const QMC5883_BYTES: usize = 6;

/// First pressure register of the BMP280.
pub const BMP280_PRESS_MSB: u8 = 0xF7;

/// Bytes in a BMP280 sample: pressure, temperature.
pub const BMP280_BYTES: usize = 6;

/// An MPU6050 sample in counts.
#[derive(Clone, Copy, Debug, PartialEq, Eq, Structural)]
pub struct MpuCounts {
    pub ax: i16,
    pub ay: i16,
    pub az: i16,
    pub gx: i16,
    pub gy: i16,
    pub gz: i16,
}

/// A compass sample in counts.
#[derive(Clone, Copy, Debug, PartialEq, Eq, Structural)]
pub struct MagCounts {
    pub x: i16,
    pub y: i16,
    pub z: i16,
}

/// The bytes that wake the MPU6050 up.
pub fn mpu6050_wake() -> (tx: [u8; 2])
    ensures
        tx@ == seq![MPU6050_PWR_MGMT_1, 0u8],
{
    let tx: [u8; 2] = [MPU6050_PWR_MGMT_1, 0u8];
    assert(tx@ =~= seq![MPU6050_PWR_MGMT_1, 0u8]);
    tx
}

/// The counts in an MPU6050 sample: high byte first, the temperature left out.
pub open spec fn is_mpu_counts(c: MpuCounts, raw: Seq<u8>) -> bool {
    &&& c.ax == bytes::i16_of(raw[0], raw[1])
    &&& c.ay == bytes::i16_of(raw[2], raw[3])
    &&& c.az == bytes::i16_of(raw[4], raw[5])
    &&& c.gx == bytes::i16_of(raw[8], raw[9])
    &&& c.gy == bytes::i16_of(raw[10], raw[11])
    &&& c.gz == bytes::i16_of(raw[12], raw[13])
}

/// An inertial sensor on an I2C bus.
#[derive(Clone, Copy, Debug, PartialEq, Eq, Structural)]
pub struct ImuMpu6050 {
    /// Address on the bus.
    pub addr: u16,
}

impl ImuMpu6050 {
    /// A sensor whose bus could be opened and that was woken up: `wake` is what the
    /// call and the device said to that.
    pub fn new(addr: u16, opened: bool, wake: (i32, i32)) -> (s: Option<ImuMpu6050>)
        ensures
            s == if opened && wake == (0i32, 0i32) {
                Some(ImuMpu6050 { addr })
            } else {
                None
            },
    {
        if !opened || wake.0 != 0 || wake.1 != 0 {
            None
        } else {
            Some(ImuMpu6050 { addr })
        }
    }

    /// The counts of a sample; none where reading the registers failed.
    pub fn read(&self, rc: i32, raw: &[u8; 14]) -> (c: Option<MpuCounts>)
        ensures
            match c {
                Some(x) => rc == 0 && is_mpu_counts(x, raw@),
                None => rc != 0,
            },
    {
        if rc != 0 {
            return None;
        }
        Some(
            MpuCounts {
                ax: bytes::i16_from(raw[0], raw[1]),
                ay: bytes::i16_from(raw[2], raw[3]),
                az: bytes::i16_from(raw[4], raw[5]),
                gx: bytes::i16_from(raw[8], raw[9]),
                gy: bytes::i16_from(raw[10], raw[11]),
                gz: bytes::i16_from(raw[12], raw[13]),
            },
        )
    }
}

/// A compass on an I2C bus.
#[derive(Clone, Copy, Debug, PartialEq, Eq, Structural)]
pub struct MagQmc5883 {
    /// Address on the bus.
    pub addr: u16,
}

impl MagQmc5883 {
    /// A compass whose bus could be opened.
    pub fn new(addr: u16, opened: bool) -> (s: Option<MagQmc5883>)
        ensures
            s == if opened {
                Some(MagQmc5883 { addr })
            } else {
                None
            },
    {
        if opened {
            Some(MagQmc5883 { addr })
        } else {
            None
        }
    }

    /// The counts of a sample, low byte first; none where reading the registers
    /// failed.
    pub fn read(&self, rc: i32, raw: &[u8; 6]) -> (c: Option<MagCounts>)
        ensures
            match c {
                Some(v) => rc == 0 && v.x == bytes::i16_of(raw@[1], raw@[0]) && v.y
                    == bytes::i16_of(raw@[3], raw@[2]) && v.z == bytes::i16_of(raw@[5], raw@[4]),
                None => rc != 0,
            },
    {
        if rc != 0 {
            return None;
        }
        Some(
            MagCounts {
                x: bytes::i16_from(raw[1], raw[0]),
                y: bytes::i16_from(raw[3], raw[2]),
                z: bytes::i16_from(raw[5], raw[4]),
            },
        )
    }
}

/// A barometer on an I2C bus.
#[derive(Clone, Copy, Debug, PartialEq, Eq, Structural)]
pub struct BaroBmp280 {
    /// Address on the bus.
    pub addr: u16,
}

impl BaroBmp280 {
    /// A barometer whose bus could be opened.
    pub fn new(addr: u16, opened: bool) -> (s: Option<BaroBmp280>)
        ensures
            s == if opened {
                Some(BaroBmp280 { addr })
            } else {
                None
            },
    {
        if opened {
            Some(BaroBmp280 { addr })
        } else {
            None
        }
    }

    /// The pressure count of a sample, the upper 20 of its first 24 bits; none where
    /// reading the registers failed.
    pub fn read_pressure(&self, rc: i32, raw: &[u8; 6]) -> (p: Option<u32>)
        ensures
            p == if rc == 0 {
                Some(((0x1_0000 * raw@[0] + 0x100 * raw@[1] + raw@[2]) / 16) as u32)
            } else {
                None
            },
    {
        if rc != 0 {
            return None;
        }
        let all: u32 = 0x1_0000 * raw[0] as u32 + 0x100 * raw[1] as u32 + raw[2] as u32;
        Some(all / 16)
    }
}

/// The counts of a sample are where its two bytes are, high byte first, and no byte of
/// the temperature counts.
pub proof fn law_counts_are_the_registers(c: MpuCounts, e: MpuCounts, raw: Seq<u8>, other: Seq<u8>)
    requires
        raw.len() == 14,
        other.len() == 14,
        is_mpu_counts(c, raw),
        is_mpu_counts(e, other),
    ensures
        c.ax % 256 == raw[1] && c.ay % 256 == raw[3] && c.az % 256 == raw[5],
        c.gx % 256 == raw[9] && c.gy % 256 == raw[11] && c.gz % 256 == raw[13],
        c.ax < 0 <==> raw[0] >= 128,
        c.ay < 0 <==> raw[2] >= 128,
        c.az < 0 <==> raw[4] >= 128,
        c.gx < 0 <==> raw[8] >= 128,
        c.gy < 0 <==> raw[10] >= 128,
        c.gz < 0 <==> raw[12] >= 128,
        raw.take(6) == other.take(6) && raw.skip(8) == other.skip(8) ==> c == e,
{
    if raw.take(6) == other.take(6) && raw.skip(8) == other.skip(8) {
        assert forall|i: int| 0 <= i < 6 implies #[trigger] raw[i] == other[i] by {
            assert(raw.take(6)[i] == other.take(6)[i]);
        }
        assert forall|i: int| 8 <= i < 14 implies #[trigger] raw[i] == other[i] by {
            assert(raw.skip(8)[i - 8] == other.skip(8)[i - 8]);
        }
    }
}

/// Of the three reads: a failed transfer gives no sample. The compass has its low byte
/// first, the barometer the upper 20 bits of its first three bytes.
pub proof fn law_register_reads(
    imu: &ImuMpu6050,
    mag: &MagQmc5883,
    baro: &BaroBmp280,
    rc: i32,
    raw: &[u8; 14],
    six: &[u8; 6],
    c: Option<MpuCounts>,
    m: Option<MagCounts>,
    p: Option<u32>,
)
    requires
        call_ensures(ImuMpu6050::read, (imu, rc, raw), c),
        call_ensures(MagQmc5883::read, (mag, rc, six), m),
        call_ensures(BaroBmp280::read_pressure, (baro, rc, six), p),
    ensures
        c is Some <==> rc == 0,
        m is Some <==> rc == 0,
        p is Some <==> rc == 0,
        c matches Some(x) ==> x.ax % 256 == raw@[1] && x.ay % 256 == raw@[3] && x.az % 256
            == raw@[5] && x.gx % 256 == raw@[9] && x.gy % 256 == raw@[11] && x.gz % 256 == raw@[13],
        c matches Some(x) ==> (x.ax < 0 <==> raw@[0] >= 128) && (x.ay < 0 <==> raw@[2] >= 128) && (
        x.az < 0 <==> raw@[4] >= 128) && (x.gx < 0 <==> raw@[8] >= 128) && (x.gy < 0 <==> raw@[10]
            >= 128) && (x.gz < 0 <==> raw@[12] >= 128),
        m matches Some(v) ==> v.x % 256 == six@[0] && v.y % 256 == six@[2] && v.z % 256 == six@[4],
        m matches Some(v) ==> (v.x < 0 <==> six@[1] >= 128) && (v.y < 0 <==> six@[3] >= 128) && (
        v.z < 0 <==> six@[5] >= 128),
        p matches Some(v) ==> 16 * v <= 0x1_0000 * six@[0] + 0x100 * six@[1] + six@[2] < 16 * v
            + 16,
{
}

} // verus!
