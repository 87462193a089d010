//! Devices of the operating system: names, the life of a handle, and transfers on
//! the buses.

use crate::text;
use vstd::prelude::*;

verus! {

/// Bytes for a device name, with its terminator.
pub const NAME_BUF: usize = 32;

/// What a service returns where the table does not offer it.
pub const NO_SERVICE: i32 = -1;

/// A device name in its buffer: the bytes, then zeros; none where there is no
/// room for a terminator.
pub open spec fn name_buffer(name: Seq<u8>) -> Option<Seq<u8>> {
    if name.len() >= NAME_BUF {
        None
    } else {
        Some(name + Seq::new((NAME_BUF - name.len()) as nat, |i: int| 0u8))
    }
}

/// Puts a device name into a buffer for a lookup.
pub fn device_name(name: &str) -> (r: Option<[u8; 32]>)
    ensures
        match r {
            Some(buf) => name_buffer(text::utf8(name@)) == Some(buf@),
            None => name_buffer(text::utf8(name@)) is None,
        },
{
    let b = name.as_bytes();
    if b.len() >= NAME_BUF {
        return None;
    }
    let mut buf: [u8; 32] = [0u8; 32];
    let mut i: usize = 0;
    assert(buf@ =~= b@.take(0) + Seq::new((NAME_BUF - 0) as nat, |j: int| 0u8));
    while i < b.len()
        invariant
            i <= b@.len() < NAME_BUF,
            buf@ == b@.take(i as int) + Seq::new((NAME_BUF - i) as nat, |j: int| 0u8),
        decreases b@.len() - i,
    {
        buf[i] = b[i];
        i = i + 1;
        assert(buf@ =~= b@.take(i as int) + Seq::new((NAME_BUF - i) as nat, |j: int| 0u8));
    }
    assert(b@.take(i as int) =~= b@);
    Some(buf)
}

/// The result of a service that may be missing from the table.
pub fn service_result(rc: Option<i32>) -> (r: i32)
    ensures
        r == match rc {
            Some(x) => x,
            None => NO_SERVICE,
        },
{
    match rc {
        Some(x) => x,
        None => NO_SERVICE,
    }
}

/// The life of a device handle.
#[derive(Clone, Copy, Debug, PartialEq, Eq, Structural)]
pub struct Device {
    /// Whether the device was opened through this handle.
    pub opened: bool,
}

impl Device {
    /// A handle from a lookup that found a device or not.
    pub fn get(found: bool) -> (h: Option<Device>)
        ensures
            h == if found {
                Some(Device { opened: false })
            } else {
                None
            },
    {
        if found {
            Some(Device { opened: false })
        } else {
            None
        }
    }

    /// A handle from a lookup and an attempt to open: there is one only where the
    /// device was found and opened. `rc` is none where the service is missing.
    pub fn open(found: bool, rc: Option<i32>) -> (h: Option<Device>)
        ensures
            h == if found && rc == Some(0i32) {
                Some(Device { opened: true })
            } else {
                None
            },
    {
        if !found {
            return None;
        }
        match rc {
            Some(x) => if x == 0 {
                Some(Device { opened: true })
            } else {
                None
            },
            None => None,
        }
    }

    /// Whether opening needs a call of the service.
    pub fn needs_open(&self) -> (b: bool)
        ensures
            b == !self.opened,
    {
        !self.opened
    }

    /// Takes in the result of an attempt to open a handle; `rc` is ignored where
    /// it is open already.
    pub fn open_dev(&mut self, rc: Option<i32>) -> (r: i32)
        ensures
            r == if old(self).opened {
                0
            } else {
                match rc {
                    Some(x) => x,
                    None => NO_SERVICE,
                }
            },
            final(self).opened == (r == 0),
            *final(self) == opened_by(*old(self), rc),
    {
        if self.opened {
            return 0;
        }
        let r: i32 = service_result(rc);
        if r == 0 {
            self.opened = true;
        }
        r
    }

    /// Gives the handle up; says whether the device has to be closed. It is
    /// closed once for each time it was opened.
    pub fn release(&mut self) -> (close: bool)
        ensures
            close == old(self).opened,
            !final(self).opened,
    {
        let close: bool = self.opened;
        self.opened = false;
        close
    }
}

/// A handle after an attempt to open it.
pub open spec fn opened_by(d: Device, rc: Option<i32>) -> Device {
    Device { opened: d.opened || rc == Some(0i32) }
}

/// A handle after several attempts to open it.
pub open spec fn opened_by_all(d: Device, rcs: Seq<Option<i32>>) -> Device
    decreases rcs.len(),
{
    if rcs.len() == 0 {
        d
    } else {
        opened_by(opened_by_all(d, rcs.drop_last()), rcs.last())
    }
}

/// However often a handle that was only looked up is opened, it has to be closed
/// exactly where one of the attempts succeeded.
pub proof fn law_closed_iff_opened(rcs: Seq<Option<i32>>)
    ensures
        opened_by_all(Device { opened: false }, rcs).opened <==> exists|i: int|
            0 <= i < rcs.len() && #[trigger] rcs[i] == Some(0i32),
    decreases rcs.len(),
{
    if rcs.len() > 0 {
        let part = rcs.drop_last();
        law_closed_iff_opened(part);
        if exists|i: int| 0 <= i < rcs.len() && #[trigger] rcs[i] == Some(0i32) {
            let i = choose|i: int| 0 <= i < rcs.len() && #[trigger] rcs[i] == Some(0i32);
            if i < part.len() {
                assert(part[i] == Some(0i32));
            }
        }
        if opened_by_all(Device { opened: false }, part).opened {
            let i = choose|i: int| 0 <= i < part.len() && #[trigger] part[i] == Some(0i32);
            assert(rcs[i] == Some(0i32));
        } else if rcs.last() == Some(0i32) {
            assert(rcs[rcs.len() - 1] == Some(0i32));
        }
    }
}

/// A transfer on an I2C bus.
pub struct I2cXfer {
    /// Seven-bit address.
    pub addr: u16,
    /// Bytes to send, or room for those to receive.
    pub buf: Vec<u8>,
    /// Number of bytes.
    pub len: u16,
    /// Set by the driver: zero where the device answered.
    pub result: i32,
}

/// A transfer on an SPI bus.
pub struct SpiXfer {
    /// Bytes to send; none to send `0xFF`.
    pub tx_buf: Option<Vec<u8>>,
    /// Room for the bytes received; none to drop them.
    pub rx_buf: Option<Vec<u8>>,
    /// Number of bytes.
    pub len: u16,
}

/// A transfer went well: the call and the device both say so.
pub open spec fn xfer_ok(rc: i32, result: i32) -> bool {
    rc == 0 && result == 0
}

/// The first half of reading registers: send the number of the first one.
pub fn i2c_register(addr: u16, reg: u8) -> (x: I2cXfer)
    ensures
        x.addr == addr,
        x.buf@ == seq![reg],
        x.len == 1,
        x.result == 0,
{
    let mut buf: Vec<u8> = Vec::new();
    buf.push(reg);
    assert(buf@ =~= seq![reg]);
    I2cXfer { addr, buf, len: 1, result: 0 }
}

/// The second half, after the first ended with `rc` and `result`: receive `n`
/// bytes. The transfer counts bytes in 16 bits.
pub fn i2c_read(addr: u16, rc: i32, result: i32, n: usize) -> (r: Option<I2cXfer>)
    ensures
        match r {
            Some(x) => xfer_ok(rc, result) && x.addr == addr && x.len == n % 0x1_0000 && x.result
                == 0 && x.buf@ == Seq::new(n as nat, |i: int| 0u8),
            None => !xfer_ok(rc, result),
        },
{
    if rc != 0 || result != 0 {
        return None;
    }
    let mut buf: Vec<u8> = Vec::new();
    let mut i: usize = 0;
    assert(buf@ =~= Seq::new(0, |j: int| 0u8));
    while i < n
        invariant
            i <= n,
            buf@ == Seq::new(i as nat, |j: int| 0u8),
        decreases n - i,
    {
        buf.push(0);
        i = i + 1;
        assert(buf@ =~= Seq::new(i as nat, |j: int| 0u8));
    }
    Some(I2cXfer { addr, buf, len: (n % 0x1_0000) as u16, result: 0 })
}

/// The outcome of reading registers, from the outcomes of its two halves; the
/// second is none where the first failed.
pub fn i2c_write_read(first: (i32, i32), second: Option<(i32, i32)>) -> (r: i32)
    ensures
        r == if xfer_ok(first.0, first.1) && (second matches Some((rc, result)) && xfer_ok(
            rc,
            result,
        )) {
            0i32
        } else {
            -1i32
        },
{
    if first.0 != 0 || first.1 != 0 {
        return -1;
    }
    match second {
        Some((rc, result)) => if rc != 0 || result != 0 {
            -1
        } else {
            0
        },
        None => -1,
    }
}

/// A name that fits, with room for a terminator, lies in its buffer as it is and ends
/// where it ended; a longer one is refused.
pub proof fn law_name_reads_back(name: Seq<u8>)
    requires
        forall|i: int| 0 <= i < name.len() ==> #[trigger] name[i] != 0,
    ensures
        name_buffer(name) is Some <==> name.len() < 32,
        name_buffer(name) matches Some(b) ==> b.len() == 32 && text::before_nul(b) == name,
{
    if name_buffer(name) is Some {
        let b = name_buffer(name)->0;
        text::law_name_ends_at_the_first_zero(b);
        let n = text::before_nul(b).len() as int;
        if n < name.len() {
            assert(b[n] == name[n]);
        } else if n > name.len() {
            assert(b[name.len() as int] == 0);
        }
        assert(b.take(n) =~= name);
    }
}

/// A transfer went well only where neither the call nor the device reports an error.
pub proof fn law_transfer_needs_both(rc: i32, result: i32)
    ensures
        xfer_ok(rc, result) ==> rc == 0,
        xfer_ok(rc, result) ==> result == 0,
        xfer_ok(0, 0),
{
}

/// Of the life of a handle: one that was opened is to be closed once, and one that was
/// only looked up, or could not be opened, never.
pub proof fn law_handle_is_closed_once(
    found: bool,
    rc: Option<i32>,
    h: Option<Device>,
    a: &mut Device,
    b: &mut Device,
    first: bool,
    second: bool,
)
    requires
        call_ensures(Device::open, (found, rc), h),
        h == Some(*old(a)),
        call_ensures(Device::release, (a,), first),
        *old(b) == *final(a),
        call_ensures(Device::release, (b,), second),
    ensures
        found && rc == Some(0i32),
        first,
        !second,
{
}

/// Of `open_dev`: a handle that is open stays so and does not need the service; any
/// other is open afterwards exactly where the service said so, and its answer is handed
/// on.
pub proof fn law_open_dev(d: &mut Device, rc: Option<i32>, needs: bool, r: i32)
    requires
        call_ensures(Device::needs_open, (&*old(d),), needs),
        call_ensures(Device::open_dev, (d, rc), r),
    ensures
        needs <==> !old(d).opened,
        !needs ==> r == 0 && final(d).opened,
        needs ==> (final(d).opened <==> rc == Some(0i32)),
        needs ==> (rc matches Some(x) ==> r == x),
        needs && rc is None ==> r == -1,
{
}

/// Of reading registers: the number of the first register is sent before anything is
/// read, and the whole went well only where both halves did.
pub proof fn law_register_transfer(
    addr: u16,
    reg: u8,
    x: I2cXfer,
    first: (i32, i32),
    n: usize,
    y: Option<I2cXfer>,
    second: Option<(i32, i32)>,
    r: i32,
)
    requires
        call_ensures(i2c_register, (addr, reg), x),
        call_ensures(i2c_read, (addr, first.0, first.1, n), y),
        call_ensures(i2c_write_read, (first, second), r),
    ensures
        x.addr == addr && x.len == 1 && x.buf@.len() == 1 && x.buf@[0] == reg,
        y is Some <==> first.0 == 0 && first.1 == 0,
        y matches Some(z) ==> z.addr == addr && z.buf@.len() == n && (n < 0x1_0000 ==> z.len == n),
        r == 0 <==> first.0 == 0 && first.1 == 0 && second == Some((0i32, 0i32)),
        r == 0 || r == -1,
{
}

} // verus!
