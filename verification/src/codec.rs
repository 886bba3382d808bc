//! How the values of the container are written and read: a common shape
//! for all of them, count-prefixed sequences, and points.
//!
//! For every kind of value the bytes it is written as are stated once
//! (`wire`), the way bytes are read once (`read`), and it is proved that
//! reading what was written gives the value back.

use vstd::prelude::*;
use crate::geometry::Point;
use crate::wire::{
    get_i32,
    get_u32,
    holds,
    le32,
    lemma_holds_split,
    lemma_le32,
    lemma_read_u32,
    lemma_signed,
    put_i32,
    put_u32,
    read_i32,
    read_u32,
    unsigned,
    FcmError,
    Read,
};

verus! {

/// A kind of value that the container holds.
pub trait Wire: View + Sized {
    /// Whether a value can be written: its sequences are short enough to
    /// count.
    spec fn valid(v: Self::V) -> bool;

    /// The bytes a value is written as.
    spec fn wire(v: Self::V) -> Seq<u8>;

    /// The value that starts at `at`, and the offset behind it.
    spec fn read(bytes: Seq<u8>, at: int) -> Read<Self::V>;

    /// A value takes at least one byte.
    proof fn lemma_wire_nonempty(v: Self::V)
        requires
            Self::valid(v),
        ensures
            Self::wire(v).len() >= 1,
    ;

    /// Reading the bytes of a value gives the value.
    proof fn lemma_read_wire(v: Self::V, bytes: Seq<u8>, at: int)
        requires
            Self::valid(v),
            holds(bytes, at, Self::wire(v)),
            bytes.len() <= usize::MAX,
        ensures
            Self::read(bytes, at) == Ok::<_, FcmError>((v, at + Self::wire(v).len())),
    ;

    /// Whether the value can be written.
    fn is_valid(&self) -> (r: bool)
        ensures
            r == Self::valid(self@),
    ;

    /// Appends the bytes of the value.
    fn put(&self, out: &mut Vec<u8>)
        requires
            Self::valid(self@),
        ensures
            final(out)@ == old(out)@ + Self::wire(self@),
    ;

    /// Reads a value.
    fn get(bytes: &[u8], at: usize) -> (r: Result<(Self, usize), FcmError>)
        requires
            at <= bytes@.len(),
        ensures
            decoded(r) == Self::read(bytes@, at as int),
            r matches Ok((_, next)) ==> at < next <= bytes@.len(),
    ;
}

/// What a function that reads a value returned, as a specification value.
pub open spec fn decoded<T: View>(r: Result<(T, usize), FcmError>) -> Read<T::V> {
    match r {
        Ok((v, next)) => Ok((v@, next as int)),
        Err(e) => Err(e),
    }
}

/// The views of a run of values.
pub open spec fn views<T: View>(items: Seq<T>) -> Seq<T::V> {
    items.map_values(|t: T| t@)
}

/// The bytes of a run of values, one after another.
pub open spec fn wire_all<T: Wire>(items: Seq<T::V>) -> Seq<u8>
    decreases items.len(),
{
    if items.len() == 0 {
        Seq::empty()
    } else {
        wire_all::<T>(items.drop_last()) + T::wire(items.last())
    }
}

/// The bytes of a sequence: its length, then its items.
#[verifier::opaque]
pub open spec fn wire_seq<T: Wire>(items: Seq<T::V>) -> Seq<u8> {
    le32(items.len() as u32) + wire_all::<T>(items)
}

/// Whether a sequence can be written: its length fits in four bytes and
/// each item can be written.
pub open spec fn valid_seq<T: Wire>(items: Seq<T::V>) -> bool {
    &&& items.len() <= u32::MAX
    &&& forall|i: int| 0 <= i < items.len() ==> T::valid(#[trigger] items[i])
}

/// `count` values one after another from `at` on.
pub open spec fn read_all<T: Wire>(bytes: Seq<u8>, at: int, count: nat) -> Read<Seq<T::V>>
    decreases count,
{
    if count == 0 {
        Ok((Seq::empty(), at))
    } else {
        match read_all::<T>(bytes, at, (count - 1) as nat) {
            Err(e) => Err(e),
            Ok((items, mid)) => match T::read(bytes, mid) {
                Err(e) => Err(e),
                Ok((item, next)) => Ok((items.push(item), next)),
            },
        }
    }
}

/// The sequence that starts at `at`: a count that does not ask for more
/// items than bytes are left, then the items.
#[verifier::opaque]
pub open spec fn read_seq<T: Wire>(bytes: Seq<u8>, at: int) -> Read<Seq<T::V>> {
    match read_u32(bytes, at) {
        Err(e) => Err(e),
        Ok((count, start)) => if count > bytes.len() - start {
            Err(
                FcmError::CountOverrun {
                    offset: at as usize,
                    expected: count as usize,
                    available: (bytes.len() - start) as usize,
                },
            )
        } else {
            read_all::<T>(bytes, start, count as nat)
        },
    }
}

/// The bytes of a run of valid values are at least as many as the values.
pub proof fn lemma_wire_all_len<T: Wire>(items: Seq<T::V>)
    requires
        forall|i: int| 0 <= i < items.len() ==> T::valid(#[trigger] items[i]),
    ensures
        wire_all::<T>(items).len() >= items.len(),
    decreases items.len(),
{
    if items.len() > 0 {
        let front = items.drop_last();
        assert forall|i: int| 0 <= i < front.len() implies T::valid(#[trigger] front[i]) by {
            assert(front[i] == items[i]);
        }
        lemma_wire_all_len::<T>(front);
        T::lemma_wire_nonempty(items.last());
    }
}

/// Reading the bytes of a run of values gives the values.
pub proof fn lemma_read_wire_all<T: Wire>(items: Seq<T::V>, bytes: Seq<u8>, at: int)
    requires
        forall|i: int| 0 <= i < items.len() ==> T::valid(#[trigger] items[i]),
        holds(bytes, at, wire_all::<T>(items)),
        bytes.len() <= usize::MAX,
    ensures
        read_all::<T>(bytes, at, items.len()) == Ok::<_, FcmError>(
            (items, at + wire_all::<T>(items).len()),
        ),
    decreases items.len(),
{
    if items.len() == 0 {
        assert(items =~= Seq::empty());
    } else {
        let front = items.drop_last();
        assert forall|i: int| 0 <= i < front.len() implies T::valid(#[trigger] front[i]) by {
            assert(front[i] == items[i]);
        }
        lemma_holds_split(bytes, at, wire_all::<T>(front), T::wire(items.last()));
        lemma_read_wire_all::<T>(front, bytes, at);
        T::lemma_read_wire(items.last(), bytes, at + wire_all::<T>(front).len());
        assert(front.push(items.last()) =~= items);
    }
}

/// Reading the bytes of a sequence gives the sequence.
pub proof fn lemma_read_wire_seq<T: Wire>(items: Seq<T::V>, bytes: Seq<u8>, at: int)
    requires
        valid_seq::<T>(items),
        holds(bytes, at, wire_seq::<T>(items)),
        bytes.len() <= usize::MAX,
    ensures
        read_seq::<T>(bytes, at) == Ok::<_, FcmError>((items, at + wire_seq::<T>(items).len())),
        wire_seq::<T>(items).len() >= 4,
{
    reveal(wire_seq);
    reveal(read_seq);
    let count = items.len() as u32;
    lemma_le32(count);
    lemma_holds_split(bytes, at, le32(count), wire_all::<T>(items));
    lemma_read_u32(bytes, at, count);
    lemma_wire_all_len::<T>(items);
    lemma_read_wire_all::<T>(items, bytes, at + 4);
}

/// Whether each of `items` can be written and they are few enough to
/// count.
pub fn is_valid_vec<T: Wire>(items: &Vec<T>) -> (r: bool)
    ensures
        r == valid_seq::<T>(views(items@)),
{
    if items.len() > u32::MAX as usize {
        return false;
    }
    let mut i: usize = 0;
    while i < items.len()
        invariant
            i <= items@.len(),
            forall|k: int| 0 <= k < i ==> T::valid(#[trigger] views(items@)[k]),
        decreases items@.len() - i,
    {
        if !items[i].is_valid() {
            assert(!T::valid(views(items@)[i as int]));
            return false;
        }
        i = i + 1;
    }
    true
}

/// Appends the bytes of a sequence.
pub fn put_vec<T: Wire>(items: &Vec<T>, out: &mut Vec<u8>)
    requires
        valid_seq::<T>(views(items@)),
    ensures
        final(out)@ == old(out)@ + wire_seq::<T>(views(items@)),
{
    reveal(wire_seq);
    put_u32(out, items.len() as u32);
    let mut i: usize = 0;
    assert(views(items@).take(0) =~= Seq::empty());
    assert(out@ =~= old(out)@ + le32(items@.len() as u32) + wire_all::<T>(views(items@).take(0)));
    while i < items.len()
        invariant
            i <= items@.len(),
            valid_seq::<T>(views(items@)),
            out@ == old(out)@ + le32(items@.len() as u32) + wire_all::<T>(
                views(items@).take(i as int),
            ),
        decreases items@.len() - i,
    {
        let ghost before = views(items@).take(i as int);
        let ghost now = views(items@).take(i + 1);
        assert(T::valid(views(items@)[i as int]));
        items[i].put(out);
        proof {
            assert(now.drop_last() =~= before);
            assert(now.last() == items@[i as int]@);
            assert(out@ =~= old(out)@ + le32(items@.len() as u32) + wire_all::<T>(now));
        }
        i = i + 1;
    }
    proof {
        assert(views(items@).take(items@.len() as int) =~= views(items@));
        assert(out@ =~= old(out)@ + (le32(items@.len() as u32) + wire_all::<T>(views(items@))));
    }
}

/// What a function that reads a sequence returned, as a specification
/// value.
pub open spec fn decoded_vec<T: View>(r: Result<(Vec<T>, usize), FcmError>) -> Read<Seq<T::V>> {
    match r {
        Ok((items, next)) => Ok((views(items@), next as int)),
        Err(e) => Err(e),
    }
}

/// Reads a sequence.
pub fn get_vec<T: Wire>(bytes: &[u8], at: usize) -> (r: Result<(Vec<T>, usize), FcmError>)
    requires
        at <= bytes@.len(),
    ensures
        decoded_vec(r) == read_seq::<T>(bytes@, at as int),
        r matches Ok((_, next)) ==> at < next <= bytes@.len(),
{
    reveal(read_seq);
    let (count, start) = match get_u32(bytes, at) {
        Err(e) => {
            return Err(e);
        },
        Ok(found) => found,
    };
    if count as u64 > (bytes.len() - start) as u64 {
        return Err(
            FcmError::CountOverrun {
                offset: at,
                expected: count as usize,
                available: bytes.len() - start,
            },
        );
    }
    let mut items: Vec<T> = Vec::new();
    let mut pos: usize = start;
    let mut i: u32 = 0;
    assert(views(items@) =~= Seq::empty());
    while i < count
        invariant
            i <= count,
            start <= pos <= bytes@.len(),
            at < start,
            read_u32(bytes@, at as int) == Ok::<_, FcmError>((count, start as int)),
            count <= bytes@.len() - start,
            read_all::<T>(bytes@, start as int, i as nat) == Ok::<_, FcmError>(
                (views(items@), pos as int),
            ),
        decreases count - i,
    {
        let ghost before = views(items@);
        match T::get(bytes, pos) {
            Err(e) => {
                proof {
                    reveal(read_seq);
                    assert(T::read(bytes@, pos as int) == Err::<(T::V, int), _>(e));
                    assert(read_all::<T>(bytes@, start as int, ((i + 1) as nat - 1) as nat)
                        == read_all::<T>(bytes@, start as int, i as nat));
                    assert(read_all::<T>(bytes@, start as int, (i + 1) as nat) == Err::<
                        (Seq<T::V>, int),
                        _,
                    >(e));
                    lemma_read_all_fails::<T>(bytes@, start as int, (i + 1) as nat, count as nat);
                }
                return Err(e);
            },
            Ok((item, next)) => {
                items.push(item);
                assert(views(items@) =~= before.push(item@));
                pos = next;
            },
        }
        i = i + 1;
    }
    Ok((items, pos))
}

/// Once a value cannot be read, no longer run of values can.
pub proof fn lemma_read_all_fails<T: Wire>(bytes: Seq<u8>, at: int, failed: nat, count: nat)
    requires
        failed <= count,
        read_all::<T>(bytes, at, failed) is Err,
    ensures
        read_all::<T>(bytes, at, count) == read_all::<T>(bytes, at, failed),
    decreases count,
{
    if failed < count {
        lemma_read_all_fails::<T>(bytes, at, failed, (count - 1) as nat);
    }
}

impl View for Point {
    type V = Point;

    open spec fn view(&self) -> Point {
        *self
    }
}

/// The bytes of a point: x, then y.
pub open spec fn wire_point(p: Point) -> Seq<u8> {
    le32(unsigned(p.x)) + le32(unsigned(p.y))
}

/// The point at `at`.
pub open spec fn read_point(bytes: Seq<u8>, at: int) -> Read<Point> {
    match read_i32(bytes, at) {
        Err(e) => Err(e),
        Ok((x, mid)) => match read_i32(bytes, mid) {
            Err(e) => Err(e),
            Ok((y, next)) => Ok((Point { x, y }, next)),
        },
    }
}

/// Reading the bytes of a point gives the point.
pub proof fn lemma_read_wire_point(p: Point, bytes: Seq<u8>, at: int)
    requires
        holds(bytes, at, wire_point(p)),
    ensures
        wire_point(p).len() == 8,
        read_point(bytes, at) == Ok::<_, FcmError>((p, at + 8)),
{
    lemma_le32(unsigned(p.x));
    lemma_le32(unsigned(p.y));
    lemma_holds_split(bytes, at, le32(unsigned(p.x)), le32(unsigned(p.y)));
    lemma_read_u32(bytes, at, unsigned(p.x));
    lemma_read_u32(bytes, at + 4, unsigned(p.y));
    lemma_signed(p.x);
    lemma_signed(p.y);
}

impl Wire for Point {
    open spec fn valid(v: Point) -> bool {
        true
    }

    open spec fn wire(v: Point) -> Seq<u8> {
        wire_point(v)
    }

    open spec fn read(bytes: Seq<u8>, at: int) -> Read<Point> {
        read_point(bytes, at)
    }

    proof fn lemma_wire_nonempty(v: Point) {
        lemma_le32(unsigned(v.x));
    }

    proof fn lemma_read_wire(v: Point, bytes: Seq<u8>, at: int) {
        lemma_read_wire_point(v, bytes, at);
    }

    fn is_valid(&self) -> (r: bool) {
        true
    }

    fn put(&self, out: &mut Vec<u8>) {
        put_i32(out, self.x);
        put_i32(out, self.y);
        assert(out@ =~= old(out)@ + wire_point(*self));
    }

    fn get(bytes: &[u8], at: usize) -> (r: Result<(Point, usize), FcmError>) {
        let (x, mid) = match get_i32(bytes, at) {
            Err(e) => {
                return Err(e);
            },
            Ok(found) => found,
        };
        let (y, next) = match get_i32(bytes, mid) {
            Err(e) => {
                return Err(e);
            },
            Ok(found) => found,
        };
        Ok((Point { x, y }, next))
    }
}

} // verus!
