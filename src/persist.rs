//! The frame around the serialized image cache in its state file: a magic
//! tag, the payload's length as eight little-endian bytes, and the payload.
use vstd::prelude::*;

verus! {

/// The tag that opens every state file.
pub open spec fn magic() -> Seq<u8> {
    seq![0x50u8, 0x4bu8, 0x47u8, 0x53u8]
}

/// The eight little-endian bytes of `n`.
pub open spec fn le_bytes(n: u64) -> Seq<u8> {
    seq![
        (n & 0xff) as u8,
        ((n >> 8u64) & 0xff) as u8,
        ((n >> 16u64) & 0xff) as u8,
        ((n >> 24u64) & 0xff) as u8,
        ((n >> 32u64) & 0xff) as u8,
        ((n >> 40u64) & 0xff) as u8,
        ((n >> 48u64) & 0xff) as u8,
        ((n >> 56u64) & 0xff) as u8,
    ]
}

/// The number eight little-endian bytes stand for.
pub open spec fn le_value(b: Seq<u8>) -> u64 {
    (b[0] as u64) | ((b[1] as u64) << 8u64) | ((b[2] as u64) << 16u64) | ((b[3] as u64) << 24u64)
        | ((b[4] as u64) << 32u64) | ((b[5] as u64) << 40u64) | ((b[6] as u64) << 48u64) | ((
    b[7] as u64) << 56u64)
}

/// The framed form of `payload`.
pub open spec fn frame_spec(payload: Seq<u8>) -> Seq<u8> {
    magic() + le_bytes(payload.len() as u64) + payload
}

/// The payload a state file holds, when it is well framed.
pub open spec fn unframe_spec(bytes: Seq<u8>) -> Option<Seq<u8>> {
    if bytes.len() >= 12 && bytes.subrange(0, 4) == magic() && le_value(bytes.subrange(4, 12))
        == bytes.len() - 12 {
        Some(bytes.subrange(12, bytes.len() as int))
    } else {
        None
    }
}

/// Why a state file could not be read.
#[derive(Debug)]
pub enum FrameError {
    /// The bytes are not a well-framed state file.
    Corrupt,
}

proof fn lemma_le_round_trip(n: u64)
    ensures
        le_value(le_bytes(n)) == n,
{
    assert(((n & 0xff) as u8 as u64) | ((((n >> 8u64) & 0xff) as u8 as u64) << 8u64) | ((((n
        >> 16u64) & 0xff) as u8 as u64) << 16u64) | ((((n >> 24u64) & 0xff) as u8 as u64) << 24u64)
        | ((((n >> 32u64) & 0xff) as u8 as u64) << 32u64) | ((((n >> 40u64) & 0xff) as u8 as u64)
        << 40u64) | ((((n >> 48u64) & 0xff) as u8 as u64) << 48u64) | ((((n >> 56u64) & 0xff) as u8
        as u64) << 56u64) == n) by (bit_vector);
}

/// Reading a framed payload back gives the payload.
pub proof fn lemma_frame_round_trip(payload: Seq<u8>)
    requires
        payload.len() + 12 <= u64::MAX,
    ensures
        unframe_spec(frame_spec(payload)) == Some(payload),
{
    let f = frame_spec(payload);
    lemma_le_round_trip(payload.len() as u64);
    assert(f.subrange(0, 4) =~= magic());
    assert(f.subrange(4, 12) =~= le_bytes(payload.len() as u64));
    assert(f.subrange(12, f.len() as int) =~= payload);
}

/// Frames a serialized cache for its state file.
pub fn frame(payload: &Vec<u8>) -> (r: Vec<u8>)
    requires
        payload@.len() + 12 <= u64::MAX,
    ensures
        r@ == frame_spec(payload@),
{
    let mut out: Vec<u8> = vec![0x50u8, 0x4bu8, 0x47u8, 0x53u8];
    let n = payload.len() as u64;
    out.push((n & 0xff) as u8);
    out.push(((n >> 8u64) & 0xff) as u8);
    out.push(((n >> 16u64) & 0xff) as u8);
    out.push(((n >> 24u64) & 0xff) as u8);
    out.push(((n >> 32u64) & 0xff) as u8);
    out.push(((n >> 40u64) & 0xff) as u8);
    out.push(((n >> 48u64) & 0xff) as u8);
    out.push(((n >> 56u64) & 0xff) as u8);
    proof {
        assert(out@ =~= magic() + le_bytes(n));
    }
    let mut i: usize = 0;
    let ghost head = out@;
    while i < payload.len()
        invariant
            i <= payload@.len(),
            out@ == head + payload@.subrange(0, i as int),
        decreases payload@.len() - i,
    {
        out.push(payload[i]);
        proof {
            assert(out@ =~= head + payload@.subrange(0, i + 1));
        }
        i = i + 1;
    }
    proof {
        assert(payload@.subrange(0, payload@.len() as int) =~= payload@);
    }
    out
}

/// Reads the payload of a state file, refusing bytes that are not well
/// framed.
pub fn unframe(bytes: &Vec<u8>) -> (r: Result<Vec<u8>, FrameError>)
    ensures
        match r {
            Ok(p) => unframe_spec(bytes@) == Some(p@),
            Err(_) => unframe_spec(bytes@).is_none(),
        },
{
    let n = bytes.len();
    if n < 12 {
        return Err(FrameError::Corrupt);
    }
    if !(bytes[0] == 0x50u8 && bytes[1] == 0x4bu8 && bytes[2] == 0x47u8 && bytes[3] == 0x53u8) {
        proof {
            if bytes@.subrange(0, 4) == magic() {
                assert(bytes@.subrange(0, 4)[0] == bytes@[0]);
                assert(bytes@.subrange(0, 4)[1] == bytes@[1]);
                assert(bytes@.subrange(0, 4)[2] == bytes@[2]);
                assert(bytes@.subrange(0, 4)[3] == bytes@[3]);
            }
        }
        return Err(FrameError::Corrupt);
    }
    proof {
        assert(bytes@.subrange(0, 4) =~= magic());
    }
    let len: u64 = (bytes[4] as u64) | ((bytes[5] as u64) << 8u64) | ((bytes[6] as u64) << 16u64)
        | ((bytes[7] as u64) << 24u64) | ((bytes[8] as u64) << 32u64) | ((bytes[9] as u64) << 40u64)
        | ((bytes[10] as u64) << 48u64) | ((bytes[11] as u64) << 56u64);
    proof {
        let h = bytes@.subrange(4, 12);
        assert(h[0] == bytes@[4] && h[1] == bytes@[5] && h[2] == bytes@[6] && h[3] == bytes@[7]);
        assert(h[4] == bytes@[8] && h[5] == bytes@[9] && h[6] == bytes@[10] && h[7] == bytes@[11]);
        assert(len == le_value(h));
    }
    if len as u128 != (n - 12) as u128 {
        return Err(FrameError::Corrupt);
    }
    let mut out: Vec<u8> = Vec::new();
    let mut i: usize = 12;
    while i < n
        invariant
            n == bytes@.len(),
            12 <= i <= n,
            out@ == bytes@.subrange(12, i as int),
        decreases n - i,
    {
        out.push(bytes[i]);
        proof {
            assert(out@ =~= bytes@.subrange(12, i + 1));
        }
        i = i + 1;
    }
    Ok(out)
}

} // verus!
