//! The firmware variable accessor, apart from the platform calls themselves:
//! which variables exist, the checks made before a read, and how what the
//! platform reported becomes a value or an error.
use crate::codec::{units_from_bytes, EfiError, EfiVar};
use vstd::prelude::*;

verus! {

/// The vendor namespace of the boot loader interface's variables.
pub const SYSTEMD_LOADER_VENDOR_GUID: &'static str = "{4a67b082-0a4c-41cf-b6c7-440b29bb8c4f}";

/// The variable that names the default boot menu entry.
pub const DEFAULT_VAR_NAME: &'static str = "LoaderEntryDefault";

/// The variable that names the boot menu entry for the next boot only.
pub const ONESHOT_VAR_NAME: &'static str = "LoaderEntryOneShot";

/// The buffer size that a `get` reads with.
pub const GET_BUFFER_SIZE: usize = 1024;

/// One of the two boot loader variables that can be read or written.
#[derive(Debug, Clone, Copy, PartialEq, Eq, Structural)]
pub enum Vars {
    OneShot,
    Default,
}

impl Vars {
    /// The firmware name of the variable.
    pub fn to_var_str(self) -> (r: &'static str)
        ensures
            r@ == (match self {
                Vars::OneShot => ONESHOT_VAR_NAME@,
                Vars::Default => DEFAULT_VAR_NAME@,
            }),
    {
        match self {
            Vars::OneShot => ONESHOT_VAR_NAME,
            Vars::Default => DEFAULT_VAR_NAME,
        }
    }
}

/// A read buffer size is usable when it is positive, even, and fits in 32 bits.
pub open spec fn valid_capacity(capacity: int) -> bool {
    0 < capacity <= u32::MAX && capacity % 2 == 0
}

/// The reported byte count, rounded up to an even number.
pub open spec fn even_len(reported: int) -> int {
    reported + reported % 2
}

/// The units that a read of `reported` bytes into `b` yields, in the given byte order.
pub open spec fn read_units(b: Seq<u8>, reported: int, little: bool) -> Seq<u16> {
    units_from_bytes(b.take(even_len(reported)), little)
}

/// The zeroed buffer that the platform reads a variable into, made before any
/// platform call; an unusable size is refused.
pub fn read_buffer(capacity: usize) -> (r: Result<Vec<u8>, EfiError>)
    ensures
        r is Ok <==> valid_capacity(capacity as int),
        r matches Ok(b) ==> b@ == Seq::new(capacity as nat, |i: int| 0u8),
        r is Err ==> r == Err::<Vec<u8>, EfiError>(EfiError::InvalidBufferSize),
{
    if capacity == 0 || capacity % 2 != 0 || capacity > 0xFFFF_FFFF {
        return Err(EfiError::InvalidBufferSize);
    }
    let mut b: Vec<u8> = Vec::new();
    let mut i: usize = 0;
    while i < capacity
        invariant
            i <= capacity,
            b@ == Seq::new(i as nat, |k: int| 0u8),
        decreases capacity - i,
    {
        b.push(0);
        i += 1;
        assert(b@ =~= Seq::new(i as nat, |k: int| 0u8));
    }
    Ok(b)
}

/// The variable read into `buf`, given the byte count that the platform
/// reported and the error code it left. A count of zero is the platform's
/// failure signal; an odd count is rounded up so that the last unit is kept,
/// and the bytes are then read as units in the machine's byte order.
pub fn finish_read(buf: &Vec<u8>, reported: u32, last_error: u32) -> (r: Result<EfiVar, EfiError>)
    requires
        buf@.len() % 2 == 0,
        reported <= buf@.len(),
    ensures
        reported == 0 ==> r == Err::<EfiVar, EfiError>(EfiError::VariableRead { code: last_error }),
        reported != 0 ==> r is Ok,
        r matches Ok(v) ==> v@ == read_units(buf@, reported as int, true) || v@ == read_units(
            buf@,
            reported as int,
            false,
        ),
{
    if reported == 0 {
        return Err(EfiError::VariableRead { code: last_error });
    }
    let len: usize = buf.len();
    let r: usize = reported as usize;
    assert(r % 2 == 1 ==> r < len);
    let n: usize = if r % 2 == 1 {
        r + 1
    } else {
        r
    };
    let mut bytes: Vec<u8> = Vec::new();
    let mut units: Vec<u16> = Vec::new();
    let mut i: usize = 0;
    while i < n
        invariant
            n <= buf@.len(),
            n % 2 == 0,
            i <= n,
            bytes@ == buf@.take(i as int),
            2 * units@.len() == i + i % 2,
        decreases n - i,
    {
        bytes.push(buf[i]);
        if i % 2 == 0 {
            units.push(0);
        }
        i += 1;
        assert(bytes@ =~= buf@.take(i as int));
    }
    crate::codec::read_native_units(bytes.as_slice(), &mut units);
    Ok(EfiVar::from_units(units))
}

/// The outcome of a write, given whether the platform reported success and the
/// error code it left.
pub fn write_outcome(succeeded: bool, last_error: u32) -> (r: Result<(), EfiError>)
    ensures
        r == (if succeeded {
            Ok::<(), EfiError>(())
        } else {
            Err(EfiError::VariableWrite { code: last_error })
        }),
{
    if succeeded {
        Ok(())
    } else {
        Err(EfiError::VariableWrite { code: last_error })
    }
}

} // verus!
