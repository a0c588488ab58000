use bootentry::accessor::{
    finish_read, read_buffer, write_outcome, Vars, DEFAULT_VAR_NAME, GET_BUFFER_SIZE,
    ONESHOT_VAR_NAME, SYSTEMD_LOADER_VENDOR_GUID,
};
use bootentry::codec::{EfiError, EfiVar};

fn native_bytes(units: &[u16]) -> Vec<u8> {
    units.iter().flat_map(|u| u.to_ne_bytes()).collect()
}

/// A read of `stored` into a fresh buffer of `capacity` bytes.
fn simulated_read(stored: &[u8], capacity: usize) -> Result<EfiVar, EfiError> {
    let mut buf = read_buffer(capacity)?;
    buf[..stored.len()].copy_from_slice(stored);
    finish_read(&buf, stored.len() as u32, 0)
}

#[test]
fn variable_names() {
    assert_eq!(Vars::Default.to_var_str(), "LoaderEntryDefault");
    assert_eq!(Vars::OneShot.to_var_str(), "LoaderEntryOneShot");
    assert_eq!(DEFAULT_VAR_NAME, "LoaderEntryDefault");
    assert_eq!(ONESHOT_VAR_NAME, "LoaderEntryOneShot");
    assert_eq!(SYSTEMD_LOADER_VENDOR_GUID, "{4a67b082-0a4c-41cf-b6c7-440b29bb8c4f}");
}

#[test]
fn read_buffer_is_zeroed() {
    let b = read_buffer(GET_BUFFER_SIZE).unwrap();
    assert_eq!(b.len(), 1024);
    assert!(b.iter().all(|x| *x == 0));
    assert_eq!(read_buffer(512).unwrap().len(), 512);
}

#[test]
fn read_buffer_odd_capacity_rejected() {
    assert_eq!(read_buffer(3), Err(EfiError::InvalidBufferSize));
    assert_eq!(read_buffer(1023), Err(EfiError::InvalidBufferSize));
}

#[test]
fn read_buffer_zero_capacity_rejected() {
    assert_eq!(read_buffer(0), Err(EfiError::InvalidBufferSize));
}

#[test]
fn read_zero_bytes_is_read_error() {
    let buf = read_buffer(16).unwrap();
    let r = finish_read(&buf, 0, 203);
    assert!(matches!(r, Err(EfiError::VariableRead { code: 203 })));
}

#[test]
fn read_odd_count_rounds_up() {
    let mut buf = read_buffer(8).unwrap();
    buf[..4].copy_from_slice(&native_bytes(&[0x1234, 0xABCD]));
    let v = finish_read(&buf, 3, 0).unwrap();
    assert_eq!(v.units(), &vec![0x1234, 0xABCD]);
}

#[test]
fn read_even_count_takes_that_many_bytes() {
    let mut buf = read_buffer(8).unwrap();
    buf.copy_from_slice(&native_bytes(&[1, 2, 3, 4]));
    let v = finish_read(&buf, 4, 0).unwrap();
    assert_eq!(v.units(), &vec![1, 2]);
}

#[test]
fn read_uses_machine_byte_order() {
    let mut buf = read_buffer(2).unwrap();
    buf.copy_from_slice(&[0x01, 0x02]);
    let v = finish_read(&buf, 2, 0).unwrap();
    assert_eq!(v.units(), &vec![u16::from_ne_bytes([0x01, 0x02])]);
}

#[test]
fn get_default_reads_auto_windows() {
    let stored = native_bytes(EfiVar::encode("auto-windows").units());
    assert_eq!(stored.len(), 26);
    let v = simulated_read(&stored, GET_BUFFER_SIZE).unwrap();
    let value = v.decode_as_string().unwrap();
    assert_eq!(value, "auto-windows");
    assert_eq!(
        format!("{} is currently set to: {}", Vars::Default.to_var_str(), value),
        "LoaderEntryDefault is currently set to: auto-windows"
    );
}

#[test]
fn set_oneshot_then_get_returns_value() {
    let written = EfiVar::encode("ubuntu");
    let size = written.byte_len().unwrap();
    assert_eq!(size, 14);
    let stored = native_bytes(written.units());
    assert_eq!(write_outcome(true, 0), Ok(()));
    let v = simulated_read(&stored, GET_BUFFER_SIZE).unwrap();
    assert_eq!(v.decode_as_string().unwrap(), "ubuntu");
}

#[test]
fn write_failure_carries_code() {
    assert_eq!(write_outcome(false, 5), Err(EfiError::VariableWrite { code: 5 }));
}
