//! Parsing of the NAV-PVT frames that a u-blox GNSS receiver sends.
use vstd::prelude::*;

verus! {

/// The two-byte Fletcher checksum of `msg`, as UBX frames use it.
pub open spec fn fletcher(msg: Seq<u8>) -> (u8, u8)
    decreases msg.len(),
{
    if msg.len() == 0 {
        (0, 0)
    } else {
        let (a, b) = fletcher(msg.drop_last());
        let a2 = ((a + msg.last()) % 256) as u8;
        (a2, ((b + a2) % 256) as u8)
    }
}

/// Compute the checksum for a message.
///
/// The message should include the normal leading sync bytes
/// but not include any space at the end for a checksum.
pub fn checksum(msg: &[u8]) -> (r: [u8; 2])
    requires
        msg@.len() >= 2,
    ensures
        r@ == seq![fletcher(msg@.skip(2)).0, fletcher(msg@.skip(2)).1],
{
    let mut a: u8 = 0;
    let mut b: u8 = 0;
    let mut i: usize = 2;
    while i < msg.len()
        invariant
            2 <= i <= msg@.len(),
            (a, b) == fletcher(msg@.subrange(2, i as int)),
        decreases msg@.len() - i,
    {
        assert(msg@.subrange(2, i + 1).drop_last() =~= msg@.subrange(2, i as int));
        a = a.wrapping_add(msg[i]);
        b = b.wrapping_add(a);
        i = i + 1;
    }
    assert(msg@.subrange(2, msg@.len() as int) =~= msg@.skip(2));
    [a, b]
}

/// Position, velocity and time, as parsed from a NAV-PVT frame.
#[derive(Copy, Clone, Debug)]
pub struct PVT {
    pub itow: u32,
    pub year: u16,
    pub month: u8,
    pub day: u8,
    pub hour: u8,
    pub minute: u8,
    pub second: u8,
    pub valid_date: bool,
    pub valid_time: bool,
    pub fully_resolved: bool,
    pub fix: bool,
    pub num_sv: u8,
}

#[derive(Copy, Clone, Debug, PartialEq, Eq, Structural)]
pub enum PVTError {
    /// Sync bytes in most recent frame were wrong.
    BadSync,
    /// Class or ID bytes in most recent frame were wrong.
    BadClassID,
    /// Length bytes in most recent frame were wrong.
    BadLength,
    /// Checksum in most recent frame was wrong.
    BadChecksum,
    /// iTOW on most recent frame was not different from last PVT.
    SameTOW,
    /// No PVT frame has been received.
    /// The u8 counts how many times NoPVT is returned.
    NoPVT(u8),
}

/// The number stored little-endian in four bytes.
pub open spec fn le_u32(b0: u8, b1: u8, b2: u8, b3: u8) -> u32 {
    (b0 as int + b1 as int * 0x100 + b2 as int * 0x10000 + b3 as int * 0x1000000) as u32
}

/// What is wrong with a 100-byte frame, checked in this order, if anything.
pub open spec fn frame_error(buf: Seq<u8>) -> Option<PVTError> {
    if buf[0] != 0xB5 || buf[1] != 0x62 {
        Some(PVTError::BadSync)
    } else if buf[2] != 0x01 || buf[3] != 0x07 {
        Some(PVTError::BadClassID)
    } else if buf[4] != 92 || buf[5] != 0 {
        Some(PVTError::BadLength)
    } else if buf[98] != fletcher(buf.subrange(2, 98)).0 || buf[99] != fletcher(buf.subrange(2, 98)).1 {
        Some(PVTError::BadChecksum)
    } else {
        None
    }
}

/// The fields of a NAV-PVT frame, whose payload starts at byte 6.
pub open spec fn pvt_fields(buf: Seq<u8>) -> PVT {
    PVT {
        itow: le_u32(buf[6], buf[7], buf[8], buf[9]),
        year: (buf[10] as int + buf[11] as int * 0x100) as u16,
        month: buf[12],
        day: buf[13],
        hour: buf[14],
        minute: buf[15],
        second: buf[16],
        valid_date: buf[17] & 1 != 0,
        valid_time: buf[17] & 2 != 0,
        fully_resolved: buf[17] & 4 != 0,
        fix: buf[26] > 1,
        num_sv: buf[29],
    }
}

impl PVT {
    /// Parse a complete 100-byte NAV-PVT frame, sync bytes and checksum included.
    pub fn try_from(buf: &[u8; 100]) -> (r: Result<Self, PVTError>)
        ensures
            r == match frame_error(buf@) {
                Some(e) => Err(e),
                None => Ok(pvt_fields(buf@)),
            },
    {
        if buf[0] != 0xB5 || buf[1] != 0x62 {
            return Err(PVTError::BadSync);
        }
        if buf[2] != 0x01 || buf[3] != 0x07 {
            return Err(PVTError::BadClassID);
        }
        if buf[4] != 92 || buf[5] != 0 {
            return Err(PVTError::BadLength);
        }
        let ck = checksum(&buf[0..98]);
        assert(buf@.subrange(0, 98).skip(2) =~= buf@.subrange(2, 98));
        if buf[98] != ck[0] || buf[99] != ck[1] {
            return Err(PVTError::BadChecksum);
        }

        Ok(PVT {
            itow: buf[6] as u32 + buf[7] as u32 * 0x100 + buf[8] as u32 * 0x10000 + buf[9] as u32 * 0x1000000,
            year: buf[10] as u16 + buf[11] as u16 * 0x100,
            month: buf[12],
            day: buf[13],
            hour: buf[14],
            minute: buf[15],
            second: buf[16],
            valid_date: buf[17] & 0b0001 != 0,
            valid_time: buf[17] & 0b0010 != 0,
            fully_resolved: buf[17] & 0b0100 != 0,
            fix: buf[26] > 1,
            num_sv: buf[29],
        })
    }
}

/// What the receiver state holds after a frame has arrived: the new PVT,
/// unless it repeats the time of week of the last one accepted.
pub open spec fn after_frame(last_itow: u32, parsed: Result<PVT, PVTError>) -> (Result<PVT, PVTError>, u32) {
    match parsed {
        Ok(pvt) => if pvt.itow != last_itow {
            (Ok(pvt), pvt.itow)
        } else {
            (Err(PVTError::SameTOW), last_itow)
        },
        Err(e) => (Err(e), last_itow),
    }
}

/// Latest navigation solution received from a u-blox receiver.
///
/// The receiver's DMA and UART handling stays with the caller, which hands
/// each complete frame to `dma_isr`.
pub struct UBlox {
    pvt: Result<PVT, PVTError>,
    last_itow: u32,
}

impl UBlox {
    pub closed spec fn pvt_spec(&self) -> Result<PVT, PVTError> {
        self.pvt
    }

    pub closed spec fn last_itow_spec(&self) -> u32 {
        self.last_itow
    }

    /// A receiver state with no PVT received yet.
    pub fn new() -> (r: Self)
        ensures
            r.pvt_spec() == Err::<PVT, PVTError>(PVTError::NoPVT(0)),
            r.last_itow_spec() == 0,
    {
        UBlox { pvt: Err(PVTError::NoPVT(0)), last_itow: 0 }
    }

    /// Handle a newly received frame.
    ///
    /// A valid PVT is kept unless its iTOW equals the last one accepted,
    /// which marks a duplicate; a parse error is kept as the latest result.
    pub fn dma_isr(&mut self, buf: &[u8; 100])
        ensures
            ({
                let parsed = match frame_error(buf@) {
                    Some(e) => Err(e),
                    None => Ok(pvt_fields(buf@)),
                };
                let next = after_frame(old(self).last_itow_spec(), parsed);
                final(self).pvt_spec() == next.0 && final(self).last_itow_spec() == next.1
            }),
    {
        let pvt = PVT::try_from(buf);
        match pvt {
            Ok(pvt) => if pvt.itow != self.last_itow {
                self.pvt = Ok(pvt);
                self.last_itow = pvt.itow;
            } else {
                self.pvt = Err(PVTError::SameTOW)
            },
            Err(e) => self.pvt = Err(e),
        }
    }

    /// Take the most recently received PVT, if any.
    ///
    /// After calling, returns `PVTError::NoPVT` until a new PVT is received,
    /// with the u8 member counting up, saturating, each time.
    pub fn pvt(&mut self) -> (r: Result<PVT, PVTError>)
        ensures
            r == old(self).pvt_spec(),
            final(self).last_itow_spec() == old(self).last_itow_spec(),
            final(self).pvt_spec() == match old(self).pvt_spec() {
                Err(PVTError::NoPVT(n)) => Err(PVTError::NoPVT(if n == u8::MAX { n } else { (n + 1) as u8 })),
                _ => Err::<PVT, PVTError>(PVTError::NoPVT(0)),
            },
    {
        let pvt = self.pvt;
        self.pvt = match pvt {
            Err(PVTError::NoPVT(n)) => Err(PVTError::NoPVT(n.saturating_add(1))),
            _ => Err(PVTError::NoPVT(0)),
        };
        pvt
    }
}

} // verus!
