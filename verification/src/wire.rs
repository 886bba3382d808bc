//! The building blocks of the container: bytes, numbers and
//! count-prefixed sequences, each with the bytes it is written as and the
//! way those bytes are read back.
//!
//! Numbers are written least significant byte first. A sequence is written
//! as the number of its items in four bytes, then the items one after
//! another.

use vstd::prelude::*;

verus! {

/// Why bytes could not be read as a file, or a value could not be written.
#[derive(Clone, Copy, Debug, PartialEq, Eq, Structural)]
pub enum FcmError {
    /// The input ended inside a field that needs `expected` bytes from
    /// `offset` on, where only `available` are left.
    UnexpectedEof { offset: usize, expected: usize, available: usize },
    /// The byte `tag` at `offset` names no variant.
    UnknownTag { offset: usize, tag: u8 },
    /// The count at `offset` asks for at least `expected` bytes behind it,
    /// where only `available` are left.
    CountOverrun { offset: usize, expected: usize, available: usize },
    /// The bytes of the text whose count stands at `offset` are not UTF-8.
    InvalidText { offset: usize },
    /// The file is complete at `offset`, and `available` bytes follow.
    TrailingBytes { offset: usize, available: usize },
    /// The value has a sequence too long to count in four bytes, or a
    /// thumbnail that is not as large as its block size says.
    Unencodable,
}

impl FcmError {
    /// Whether the error is a short read rather than a fault of the
    /// format.
    pub fn is_io(&self) -> (r: bool)
        ensures
            r == (*self is UnexpectedEof),
    {
        match self {
            FcmError::UnexpectedEof { .. } => true,
            _ => false,
        }
    }
}

/// What reading a value gives: the value and the offset behind it.
pub type Read<T> = Result<(T, int), FcmError>;

/// The error for a field of `expected` bytes at `at` that the input is too
/// short for.
pub open spec fn eof(bytes: Seq<u8>, at: int, expected: int) -> FcmError {
    FcmError::UnexpectedEof {
        offset: at as usize,
        expected: expected as usize,
        available: (bytes.len() - at) as usize,
    }
}

/// The four bytes of `v`, least significant first.
pub open spec fn le32(v: u32) -> Seq<u8> {
    seq![
        (v % 256) as u8,
        (v / 256 % 256) as u8,
        (v / 65536 % 256) as u8,
        (v / 16777216) as u8,
    ]
}

/// The number whose four bytes, least significant first, are given.
pub open spec fn from_le32(b0: u8, b1: u8, b2: u8, b3: u8) -> u32 {
    (b0 + 256 * b1 + 65536 * b2 + 16777216 * b3) as u32
}

/// A signed number as the unsigned number with the same four bytes.
pub open spec fn unsigned(v: i32) -> u32 {
    if v < 0 {
        (v + 0x1_0000_0000) as u32
    } else {
        v as u32
    }
}

/// The signed number with the same four bytes as `v`.
pub open spec fn signed(v: u32) -> i32 {
    if v >= 0x8000_0000 {
        (v - 0x1_0000_0000) as i32
    } else {
        v as i32
    }
}

/// The byte at `at`.
pub open spec fn read_u8(bytes: Seq<u8>, at: int) -> Read<u8> {
    if bytes.len() - at < 1 {
        Err(eof(bytes, at, 1))
    } else {
        Ok((bytes[at], at + 1))
    }
}

/// The unsigned number in the four bytes at `at`.
pub open spec fn read_u32(bytes: Seq<u8>, at: int) -> Read<u32> {
    if bytes.len() - at < 4 {
        Err(eof(bytes, at, 4))
    } else {
        Ok((from_le32(bytes[at], bytes[at + 1], bytes[at + 2], bytes[at + 3]), at + 4))
    }
}

/// The signed number in the four bytes at `at`.
pub open spec fn read_i32(bytes: Seq<u8>, at: int) -> Read<i32> {
    match read_u32(bytes, at) {
        Err(e) => Err(e),
        Ok((v, next)) => Ok((signed(v), next)),
    }
}

/// A truth value as a byte: zero or one.
pub open spec fn bool_byte(b: bool) -> u8 {
    if b {
        1
    } else {
        0
    }
}

/// The truth value in the byte at `at`.
pub open spec fn read_bool(bytes: Seq<u8>, at: int) -> Read<bool> {
    match read_u8(bytes, at) {
        Err(e) => Err(e),
        Ok((b, next)) => if b == 0 {
            Ok((false, next))
        } else if b == 1 {
            Ok((true, next))
        } else {
            Err(FcmError::UnknownTag { offset: at as usize, tag: b })
        },
    }
}

/// `count` bytes from `at` on.
pub open spec fn read_blob(bytes: Seq<u8>, at: int, count: int) -> Read<Seq<u8>> {
    if bytes.len() - at < count {
        Err(eof(bytes, at, count))
    } else {
        Ok((bytes.subrange(at, at + count), at + count))
    }
}

/// Writing four bytes and reading them back gives the number written.
pub proof fn lemma_le32(v: u32)
    ensures
        le32(v).len() == 4,
        from_le32(le32(v)[0], le32(v)[1], le32(v)[2], le32(v)[3]) == v,
        signed(unsigned(signed(v))) == signed(v),
{
}

/// A signed number survives the trip through its unsigned twin.
pub proof fn lemma_signed(v: i32)
    ensures
        signed(unsigned(v)) == v,
{
}

/// What lies at `at` in `bytes` is `part`.
pub open spec fn holds(bytes: Seq<u8>, at: int, part: Seq<u8>) -> bool {
    &&& 0 <= at
    &&& at + part.len() <= bytes.len()
    &&& bytes.subrange(at, at + part.len()) == part
}

/// If a run of bytes lies at `at`, its front lies at `at` and its back
/// behind that.
pub proof fn lemma_holds_split(bytes: Seq<u8>, at: int, front: Seq<u8>, back: Seq<u8>)
    requires
        holds(bytes, at, front + back),
    ensures
        holds(bytes, at, front),
        holds(bytes, at + front.len(), back),
{
    let whole = front + back;
    assert(bytes.subrange(at, at + front.len()) =~= whole.subrange(0, front.len() as int));
    assert(whole.subrange(0, front.len() as int) =~= front);
    assert(bytes.subrange(at + front.len(), at + front.len() + back.len()) =~= whole.subrange(
        front.len() as int,
        whole.len() as int,
    ));
    assert(whole.subrange(front.len() as int, whole.len() as int) =~= back);
}

/// What was written as a number is read as that number.
pub proof fn lemma_read_u32(bytes: Seq<u8>, at: int, v: u32)
    requires
        holds(bytes, at, le32(v)),
    ensures
        read_u32(bytes, at) == Ok::<_, FcmError>((v, at + 4)),
        read_i32(bytes, at) == Ok::<_, FcmError>((signed(v), at + 4)),
{
    lemma_le32(v);
    let part = bytes.subrange(at, at + 4);
    assert(part[0] == bytes[at]);
    assert(part[1] == bytes[at + 1]);
    assert(part[2] == bytes[at + 2]);
    assert(part[3] == bytes[at + 3]);
}

/// What was written as a byte is read as that byte.
pub proof fn lemma_read_u8(bytes: Seq<u8>, at: int, v: u8)
    requires
        holds(bytes, at, seq![v]),
    ensures
        read_u8(bytes, at) == Ok::<_, FcmError>((v, at + 1)),
        read_bool(bytes, at) == if v == 0 {
            Ok::<_, FcmError>((false, at + 1))
        } else if v == 1 {
            Ok((true, at + 1))
        } else {
            Err(FcmError::UnknownTag { offset: at as usize, tag: v })
        },
{
    let part = bytes.subrange(at, at + 1);
    assert(part[0] == bytes[at]);
}

/// Appends one byte.
pub fn put_u8(out: &mut Vec<u8>, v: u8)
    ensures
        final(out)@ == old(out)@ + seq![v],
{
    out.push(v);
    assert(out@ =~= old(out)@ + seq![v]);
}

/// Appends the four bytes of `v`.
pub fn put_u32(out: &mut Vec<u8>, v: u32)
    ensures
        final(out)@ == old(out)@ + le32(v),
{
    out.push((v % 256) as u8);
    out.push((v / 256 % 256) as u8);
    out.push((v / 65536 % 256) as u8);
    out.push((v / 16777216) as u8);
    assert(out@ =~= old(out)@ + le32(v));
}

/// Appends the four bytes of `v`.
pub fn put_i32(out: &mut Vec<u8>, v: i32)
    ensures
        final(out)@ == old(out)@ + le32(unsigned(v)),
{
    let u: u32 = if v < 0 {
        (v as i64 + 0x1_0000_0000) as u32
    } else {
        v as u32
    };
    put_u32(out, u);
}

/// Appends a truth value.
pub fn put_bool(out: &mut Vec<u8>, v: bool)
    ensures
        final(out)@ == old(out)@ + seq![bool_byte(v)],
{
    put_u8(out, if v {
        1
    } else {
        0
    });
}

/// Appends `blob`.
pub fn put_blob(out: &mut Vec<u8>, blob: &Vec<u8>)
    ensures
        final(out)@ == old(out)@ + blob@,
{
    let mut i: usize = 0;
    assert(out@ =~= old(out)@ + blob@.take(0));
    while i < blob.len()
        invariant
            i <= blob@.len(),
            out@ == old(out)@ + blob@.take(i as int),
        decreases blob@.len() - i,
    {
        out.push(blob[i]);
        assert(out@ =~= old(out)@ + blob@.take(i + 1));
        i = i + 1;
    }
    assert(blob@.take(blob@.len() as int) =~= blob@);
}

/// What a function that reads a plain value returned, as a specification
/// value.
pub open spec fn got<T>(r: Result<(T, usize), FcmError>) -> Read<T> {
    match r {
        Ok((v, next)) => Ok((v, next as int)),
        Err(e) => Err(e),
    }
}

/// The error for a field of `expected` bytes at `at` that the input is too
/// short for.
pub fn short(bytes: &[u8], at: usize, expected: usize) -> (e: FcmError)
    requires
        at <= bytes@.len(),
    ensures
        e == eof(bytes@, at as int, expected as int),
{
    FcmError::UnexpectedEof { offset: at, expected, available: bytes.len() - at }
}

/// Reads one byte.
pub fn get_u8(bytes: &[u8], at: usize) -> (r: Result<(u8, usize), FcmError>)
    requires
        at <= bytes@.len(),
    ensures
        got(r) == read_u8(bytes@, at as int),
        r matches Ok((_, next)) ==> at < next <= bytes@.len(),
{
    if bytes.len() - at < 1 {
        return Err(short(bytes, at, 1));
    }
    Ok((bytes[at], at + 1))
}

/// Reads an unsigned number of four bytes.
pub fn get_u32(bytes: &[u8], at: usize) -> (r: Result<(u32, usize), FcmError>)
    requires
        at <= bytes@.len(),
    ensures
        got(r) == read_u32(bytes@, at as int),
        r matches Ok((_, next)) ==> at < next <= bytes@.len(),
{
    if bytes.len() - at < 4 {
        return Err(short(bytes, at, 4));
    }
    let v: u32 = bytes[at] as u32 + 256 * (bytes[at + 1] as u32) + 65536 * (bytes[at + 2] as u32)
        + 16777216 * (bytes[at + 3] as u32);
    Ok((v, at + 4))
}

/// Reads a signed number of four bytes.
pub fn get_i32(bytes: &[u8], at: usize) -> (r: Result<(i32, usize), FcmError>)
    requires
        at <= bytes@.len(),
    ensures
        got(r) == read_i32(bytes@, at as int),
        r matches Ok((_, next)) ==> at < next <= bytes@.len(),
{
    match get_u32(bytes, at) {
        Err(e) => Err(e),
        Ok((v, next)) => {
            let s: i32 = if v >= 0x8000_0000 {
                (v as i64 - 0x1_0000_0000) as i32
            } else {
                v as i32
            };
            Ok((s, next))
        },
    }
}

/// Reads a truth value.
pub fn get_bool(bytes: &[u8], at: usize) -> (r: Result<(bool, usize), FcmError>)
    requires
        at <= bytes@.len(),
    ensures
        got(r) == read_bool(bytes@, at as int),
        r matches Ok((_, next)) ==> at < next <= bytes@.len(),
{
    match get_u8(bytes, at) {
        Err(e) => Err(e),
        Ok((b, next)) => if b == 0 {
            Ok((false, next))
        } else if b == 1 {
            Ok((true, next))
        } else {
            Err(FcmError::UnknownTag { offset: at, tag: b })
        },
    }
}

/// Reads `count` bytes.
pub fn get_blob(bytes: &[u8], at: usize, count: usize) -> (r: Result<(Vec<u8>, usize), FcmError>)
    requires
        at <= bytes@.len(),
    ensures
        match r {
            Ok((blob, next)) => read_blob(bytes@, at as int, count as int) == Ok::<_, FcmError>(
                (blob@, next as int),
            ) && at <= next <= bytes@.len(),
            Err(e) => read_blob(bytes@, at as int, count as int) == Err::<(Seq<u8>, int), _>(e),
        },
{
    if bytes.len() - at < count {
        return Err(short(bytes, at, count));
    }
    let mut blob: Vec<u8> = Vec::new();
    let mut i: usize = 0;
    while i < count
        invariant
            i <= count,
            at + count <= bytes@.len() <= usize::MAX,
            blob@ == bytes@.subrange(at as int, at + i),
        decreases count - i,
    {
        blob.push(bytes[at + i]);
        assert(blob@ =~= bytes@.subrange(at as int, at + i + 1));
        i = i + 1;
    }
    Ok((blob, at + count))
}

} // verus!
