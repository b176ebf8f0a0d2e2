//! Reads from the configuration space of a virtio device.
use vstd::prelude::*;

verus! {

/// The guest's buffer after a read at `offset`: as many bytes of the configuration as are
/// there and asked for, and the buffer as it was behind them.
pub open spec fn config_read(config: Seq<u8>, offset: u64, data: Seq<u8>) -> Seq<u8> {
    if offset >= config.len() || offset + data.len() > u64::MAX {
        data
    } else {
        let available = config.len() - offset;
        let count = if data.len() < available {
            data.len() as int
        } else {
            available
        };
        config.subrange(offset as int, offset + count) + data.skip(count)
    }
}

/// Copies the configuration from `offset` on into the guest's buffer.
pub fn read_config_space(config: &Vec<u8>, offset: u64, data: &mut Vec<u8>)
    ensures
        final(data)@ == config_read(config@, offset, old(data)@),
{
    let config_len: u64 = config.len() as u64;
    if offset >= config_len {
        return;
    }
    if offset.checked_add(data.len() as u64).is_none() {
        return;
    }
    let start: usize = offset as usize;
    let available: usize = config.len() - start;
    let count: usize = if data.len() < available {
        data.len()
    } else {
        available
    };
    let mut i: usize = 0;
    let ghost before = data@;
    while i < count
        invariant
            i <= count,
            count <= data.len(),
            start + count <= config.len(),
            data@ == config@.subrange(start as int, start + i) + before.skip(i as int),
            data@.len() == before.len(),
        decreases count - i,
    {
        data.set(i, config[start + i]);
        assert(data@ == config@.subrange(start as int, start + i + 1) + before.skip(i + 1));
        i = i + 1;
    }
}

/// The bytes of a word, the lowest first.
pub open spec fn le_bytes(value: u32) -> Seq<u8> {
    seq![
        (value % 256) as u8,
        (value / 256 % 256) as u8,
        (value / 65536 % 256) as u8,
        (value / 16777216 % 256) as u8,
    ]
}

/// Appends the bytes of a word, the lowest first.
pub fn push_le(bytes: &mut Vec<u8>, value: u32)
    ensures
        final(bytes)@ == old(bytes)@ + le_bytes(value),
{
    bytes.push((value % 256) as u8);
    bytes.push((value / 256 % 256) as u8);
    bytes.push((value / 65536 % 256) as u8);
    bytes.push((value / 16777216 % 256) as u8);
    assert(bytes@ == old(bytes)@ + le_bytes(value));
}

/// A read returns the bytes of the configuration that it covers and leaves the rest of
/// the buffer alone; it never changes the buffer's length.
pub proof fn law_config_read_is_bounded(config: Seq<u8>, offset: u64, data: Seq<u8>, i: int)
    requires
        0 <= i < data.len(),
    ensures
        config_read(config, offset, data).len() == data.len(),
        config_read(config, offset, data)[i] == if offset + data.len() <= u64::MAX && offset + i
            < config.len() {
            config[offset + i]
        } else {
            data[i]
        },
{
}

} // verus!
