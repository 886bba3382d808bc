//! How numbers, optional values and the shapes of the geometry are written
//! and read.
//!
//! An optional value is one byte, zero or one, and the value if the byte
//! is one. An outline is one byte, zero for straight segments and one for
//! curves, and the sequence of its segments.

use vstd::prelude::*;
use crate::codec::{
    get_vec,
    is_valid_vec,
    lemma_read_wire_point,
    lemma_read_wire_seq,
    put_vec,
    read_point,
    read_seq,
    valid_seq,
    views,
    wire_point,
    wire_seq,
    Wire,
};
use crate::geometry::{
    outline_views,
    Outline,
    OutlineView,
    PathShape,
    PathShapeView,
    Point,
    SegmentBezier,
    SegmentLine,
};
use crate::wire::{
    bool_byte,
    get_bool,
    get_u32,
    get_u8,
    holds,
    le32,
    lemma_holds_split,
    lemma_le32,
    lemma_read_u32,
    lemma_read_u8,
    put_bool,
    put_u32,
    put_u8,
    read_bool,
    read_u32,
    read_u8,
    FcmError,
    Read,
};

verus! {

impl Wire for u32 {
    open spec fn valid(v: u32) -> bool {
        true
    }

    open spec fn wire(v: u32) -> Seq<u8> {
        le32(v)
    }

    open spec fn read(bytes: Seq<u8>, at: int) -> Read<u32> {
        read_u32(bytes, at)
    }

    proof fn lemma_wire_nonempty(v: u32) {
        lemma_le32(v);
    }

    proof fn lemma_read_wire(v: u32, bytes: Seq<u8>, at: int) {
        lemma_le32(v);
        lemma_read_u32(bytes, at, v);
    }

    fn is_valid(&self) -> (r: bool) {
        true
    }

    fn put(&self, out: &mut Vec<u8>) {
        put_u32(out, *self);
    }

    fn get(bytes: &[u8], at: usize) -> (r: Result<(u32, usize), FcmError>) {
        get_u32(bytes, at)
    }
}

impl Wire for bool {
    open spec fn valid(v: bool) -> bool {
        true
    }

    open spec fn wire(v: bool) -> Seq<u8> {
        seq![bool_byte(v)]
    }

    open spec fn read(bytes: Seq<u8>, at: int) -> Read<bool> {
        read_bool(bytes, at)
    }

    proof fn lemma_wire_nonempty(v: bool) {
    }

    proof fn lemma_read_wire(v: bool, bytes: Seq<u8>, at: int) {
        lemma_read_u8(bytes, at, bool_byte(v));
    }

    fn is_valid(&self) -> (r: bool) {
        true
    }

    fn put(&self, out: &mut Vec<u8>) {
        put_bool(out, *self);
    }

    fn get(bytes: &[u8], at: usize) -> (r: Result<(bool, usize), FcmError>) {
        get_bool(bytes, at)
    }
}

/// The view of an optional value.
pub open spec fn opt_view<T: View>(o: Option<T>) -> Option<T::V> {
    match o {
        Some(v) => Some(v@),
        None => None,
    }
}

/// The bytes of an optional value: one byte, zero or one, and the value
/// if the byte is one.
#[verifier::opaque]
pub open spec fn wire_opt<T: Wire>(o: Option<T::V>) -> Seq<u8> {
    match o {
        None => seq![0u8],
        Some(v) => seq![1u8] + T::wire(v),
    }
}

/// Whether an optional value can be written.
pub open spec fn valid_opt<T: Wire>(o: Option<T::V>) -> bool {
    match o {
        None => true,
        Some(v) => T::valid(v),
    }
}

/// The optional value at `at`.
#[verifier::opaque]
pub open spec fn read_opt<T: Wire>(bytes: Seq<u8>, at: int) -> Read<Option<T::V>> {
    match read_u8(bytes, at) {
        Err(e) => Err(e),
        Ok((tag, next)) => if tag == 0 {
            Ok((None, next))
        } else if tag == 1 {
            match T::read(bytes, next) {
                Err(e) => Err(e),
                Ok((v, end)) => Ok((Some(v), end)),
            }
        } else {
            Err(FcmError::UnknownTag { offset: at as usize, tag })
        },
    }
}

/// Reading the bytes of an optional value gives the value.
pub proof fn lemma_read_wire_opt<T: Wire>(o: Option<T::V>, bytes: Seq<u8>, at: int)
    requires
        valid_opt::<T>(o),
        holds(bytes, at, wire_opt::<T>(o)),
        bytes.len() <= usize::MAX,
    ensures
        read_opt::<T>(bytes, at) == Ok::<_, FcmError>((o, at + wire_opt::<T>(o).len())),
        wire_opt::<T>(o).len() >= 1,
{
    reveal(wire_opt);
    reveal(read_opt);
    match o {
        None => {
            lemma_read_u8(bytes, at, 0u8);
        },
        Some(v) => {
            lemma_holds_split(bytes, at, seq![1u8], T::wire(v));
            lemma_read_u8(bytes, at, 1u8);
            T::lemma_read_wire(v, bytes, at + 1);
        },
    }
}

/// Whether an optional value can be written.
pub fn is_valid_opt<T: Wire>(o: &Option<T>) -> (r: bool)
    ensures
        r == valid_opt::<T>(opt_view(*o)),
{
    match o {
        None => true,
        Some(v) => v.is_valid(),
    }
}

/// Appends the bytes of an optional value.
pub fn put_opt<T: Wire>(o: &Option<T>, out: &mut Vec<u8>)
    requires
        valid_opt::<T>(opt_view(*o)),
    ensures
        final(out)@ == old(out)@ + wire_opt::<T>(opt_view(*o)),
{
    reveal(wire_opt);
    match o {
        None => {
            put_u8(out, 0);
        },
        Some(v) => {
            put_u8(out, 1);
            v.put(out);
            assert(out@ =~= old(out)@ + (seq![1u8] + T::wire(v@)));
        },
    }
}

/// What a function that reads an optional value returned, as a
/// specification value.
pub open spec fn decoded_opt<T: View>(r: Result<(Option<T>, usize), FcmError>) -> Read<
    Option<T::V>,
> {
    match r {
        Ok((o, next)) => Ok((opt_view(o), next as int)),
        Err(e) => Err(e),
    }
}

/// Reads an optional value.
pub fn get_opt<T: Wire>(bytes: &[u8], at: usize) -> (r: Result<(Option<T>, usize), FcmError>)
    requires
        at <= bytes@.len(),
    ensures
        decoded_opt(r) == read_opt::<T>(bytes@, at as int),
        r matches Ok((_, next)) ==> at < next <= bytes@.len(),
{
    reveal(read_opt);
    let (tag, next) = match get_u8(bytes, at) {
        Err(e) => {
            return Err(e);
        },
        Ok(found) => found,
    };
    if tag == 0 {
        Ok((None, next))
    } else if tag == 1 {
        match T::get(bytes, next) {
            Err(e) => Err(e),
            Ok((v, end)) => Ok((Some(v), end)),
        }
    } else {
        Err(FcmError::UnknownTag { offset: at, tag })
    }
}

impl View for SegmentLine {
    type V = SegmentLine;

    open spec fn view(&self) -> SegmentLine {
        *self
    }
}

impl Wire for SegmentLine {
    open spec fn valid(v: SegmentLine) -> bool {
        true
    }

    open spec fn wire(v: SegmentLine) -> Seq<u8> {
        wire_point(v.end)
    }

    open spec fn read(bytes: Seq<u8>, at: int) -> Read<SegmentLine> {
        match read_point(bytes, at) {
            Err(e) => Err(e),
            Ok((end, next)) => Ok((SegmentLine { end }, next)),
        }
    }

    proof fn lemma_wire_nonempty(v: SegmentLine) {
        Point::lemma_wire_nonempty(v.end);
    }

    proof fn lemma_read_wire(v: SegmentLine, bytes: Seq<u8>, at: int) {
        lemma_read_wire_point(v.end, bytes, at);
    }

    fn is_valid(&self) -> (r: bool) {
        true
    }

    fn put(&self, out: &mut Vec<u8>) {
        self.end.put(out);
    }

    fn get(bytes: &[u8], at: usize) -> (r: Result<(SegmentLine, usize), FcmError>) {
        match Point::get(bytes, at) {
            Err(e) => Err(e),
            Ok((end, next)) => Ok((SegmentLine { end }, next)),
        }
    }
}

impl View for SegmentBezier {
    type V = SegmentBezier;

    open spec fn view(&self) -> SegmentBezier {
        *self
    }
}

impl Wire for SegmentBezier {
    open spec fn valid(v: SegmentBezier) -> bool {
        true
    }

    open spec fn wire(v: SegmentBezier) -> Seq<u8> {
        wire_point(v.control1) + wire_point(v.control2) + wire_point(v.end)
    }

    open spec fn read(bytes: Seq<u8>, at: int) -> Read<SegmentBezier> {
        match read_point(bytes, at) {
            Err(e) => Err(e),
            Ok((control1, a)) => match read_point(bytes, a) {
                Err(e) => Err(e),
                Ok((control2, b)) => match read_point(bytes, b) {
                    Err(e) => Err(e),
                    Ok((end, next)) => Ok((SegmentBezier { control1, control2, end }, next)),
                },
            },
        }
    }

    proof fn lemma_wire_nonempty(v: SegmentBezier) {
        Point::lemma_wire_nonempty(v.end);
    }

    proof fn lemma_read_wire(v: SegmentBezier, bytes: Seq<u8>, at: int) {
        lemma_holds_split(
            bytes,
            at,
            wire_point(v.control1) + wire_point(v.control2),
            wire_point(v.end),
        );
        lemma_holds_split(bytes, at, wire_point(v.control1), wire_point(v.control2));
        lemma_read_wire_point(v.control1, bytes, at);
        lemma_read_wire_point(v.control2, bytes, at + 8);
        lemma_read_wire_point(v.end, bytes, at + 16);
    }

    fn is_valid(&self) -> (r: bool) {
        true
    }

    fn put(&self, out: &mut Vec<u8>) {
        self.control1.put(out);
        self.control2.put(out);
        self.end.put(out);
        assert(out@ =~= old(out)@ + (wire_point(self.control1) + wire_point(self.control2)
            + wire_point(self.end)));
    }

    fn get(bytes: &[u8], at: usize) -> (r: Result<(SegmentBezier, usize), FcmError>) {
        let (control1, a) = match Point::get(bytes, at) {
            Err(e) => {
                return Err(e);
            },
            Ok(found) => found,
        };
        let (control2, b) = match Point::get(bytes, a) {
            Err(e) => {
                return Err(e);
            },
            Ok(found) => found,
        };
        let (end, next) = match Point::get(bytes, b) {
            Err(e) => {
                return Err(e);
            },
            Ok(found) => found,
        };
        Ok((SegmentBezier { control1, control2, end }, next))
    }
}

/// The views of segments are the segments.
pub proof fn lemma_views_of_lines(items: Seq<SegmentLine>)
    ensures
        views(items) == items,
{
    assert(views(items) =~= items);
}

/// The views of curves are the curves.
pub proof fn lemma_views_of_curves(items: Seq<SegmentBezier>)
    ensures
        views(items) == items,
{
    assert(views(items) =~= items);
}

/// The views of points are the points.
pub proof fn lemma_views_of_points(items: Seq<Point>)
    ensures
        views(items) == items,
{
    assert(views(items) =~= items);
}

impl Wire for Outline {
    open spec fn valid(v: OutlineView) -> bool {
        match v {
            OutlineView::Line(segments) => valid_seq::<SegmentLine>(segments),
            OutlineView::Bezier(segments) => valid_seq::<SegmentBezier>(segments),
        }
    }

    open spec fn wire(v: OutlineView) -> Seq<u8> {
        match v {
            OutlineView::Line(segments) => seq![0u8] + wire_seq::<SegmentLine>(segments),
            OutlineView::Bezier(segments) => seq![1u8] + wire_seq::<SegmentBezier>(segments),
        }
    }

    open spec fn read(bytes: Seq<u8>, at: int) -> Read<OutlineView> {
        match read_u8(bytes, at) {
            Err(e) => Err(e),
            Ok((tag, next)) => if tag == 0 {
                match read_seq::<SegmentLine>(bytes, next) {
                    Err(e) => Err(e),
                    Ok((segments, end)) => Ok((OutlineView::Line(segments), end)),
                }
            } else if tag == 1 {
                match read_seq::<SegmentBezier>(bytes, next) {
                    Err(e) => Err(e),
                    Ok((segments, end)) => Ok((OutlineView::Bezier(segments), end)),
                }
            } else {
                Err(FcmError::UnknownTag { offset: at as usize, tag })
            },
        }
    }

    proof fn lemma_wire_nonempty(v: OutlineView) {
    }

    proof fn lemma_read_wire(v: OutlineView, bytes: Seq<u8>, at: int) {
        match v {
            OutlineView::Line(segments) => {
                lemma_holds_split(bytes, at, seq![0u8], wire_seq::<SegmentLine>(segments));
                lemma_read_u8(bytes, at, 0u8);
                lemma_read_wire_seq::<SegmentLine>(segments, bytes, at + 1);
            },
            OutlineView::Bezier(segments) => {
                lemma_holds_split(bytes, at, seq![1u8], wire_seq::<SegmentBezier>(segments));
                lemma_read_u8(bytes, at, 1u8);
                lemma_read_wire_seq::<SegmentBezier>(segments, bytes, at + 1);
            },
        }
    }

    fn is_valid(&self) -> (r: bool) {
        match self {
            Outline::Line(segments) => {
                proof {
                    lemma_views_of_lines(segments@);
                }
                is_valid_vec(segments)
            },
            Outline::Bezier(segments) => {
                proof {
                    lemma_views_of_curves(segments@);
                }
                is_valid_vec(segments)
            },
        }
    }

    fn put(&self, out: &mut Vec<u8>) {
        match self {
            Outline::Line(segments) => {
                proof {
                    lemma_views_of_lines(segments@);
                }
                put_u8(out, 0);
                put_vec(segments, out);
                assert(out@ =~= old(out)@ + (seq![0u8] + wire_seq::<SegmentLine>(segments@)));
            },
            Outline::Bezier(segments) => {
                proof {
                    lemma_views_of_curves(segments@);
                }
                put_u8(out, 1);
                put_vec(segments, out);
                assert(out@ =~= old(out)@ + (seq![1u8] + wire_seq::<SegmentBezier>(segments@)));
            },
        }
    }

    fn get(bytes: &[u8], at: usize) -> (r: Result<(Outline, usize), FcmError>) {
        let (tag, next) = match get_u8(bytes, at) {
            Err(e) => {
                return Err(e);
            },
            Ok(found) => found,
        };
        if tag == 0 {
            match get_vec::<SegmentLine>(bytes, next) {
                Err(e) => Err(e),
                Ok((segments, end)) => {
                    proof {
                        lemma_views_of_lines(segments@);
                    }
                    Ok((Outline::Line(segments), end))
                },
            }
        } else if tag == 1 {
            match get_vec::<SegmentBezier>(bytes, next) {
                Err(e) => Err(e),
                Ok((segments, end)) => {
                    proof {
                        lemma_views_of_curves(segments@);
                    }
                    Ok((Outline::Bezier(segments), end))
                },
            }
        } else {
            Err(FcmError::UnknownTag { offset: at, tag })
        }
    }
}

/// The views of outlines, said in either way.
pub proof fn lemma_views_of_outlines(items: Seq<Outline>)
    ensures
        views(items) == outline_views(items),
{
    assert(views(items) =~= outline_views(items));
}

impl Wire for PathShape {
    open spec fn valid(v: PathShapeView) -> bool {
        valid_seq::<Outline>(v.outlines)
    }

    open spec fn wire(v: PathShapeView) -> Seq<u8> {
        wire_point(v.start) + wire_seq::<Outline>(v.outlines)
    }

    open spec fn read(bytes: Seq<u8>, at: int) -> Read<PathShapeView> {
        match read_point(bytes, at) {
            Err(e) => Err(e),
            Ok((start, next)) => match read_seq::<Outline>(bytes, next) {
                Err(e) => Err(e),
                Ok((outlines, end)) => Ok((PathShapeView { start, outlines }, end)),
            },
        }
    }

    proof fn lemma_wire_nonempty(v: PathShapeView) {
        Point::lemma_wire_nonempty(v.start);
    }

    proof fn lemma_read_wire(v: PathShapeView, bytes: Seq<u8>, at: int) {
        lemma_holds_split(bytes, at, wire_point(v.start), wire_seq::<Outline>(v.outlines));
        lemma_read_wire_point(v.start, bytes, at);
        lemma_read_wire_seq::<Outline>(v.outlines, bytes, at + 8);
    }

    fn is_valid(&self) -> (r: bool) {
        proof {
            lemma_views_of_outlines(self.outlines@);
        }
        is_valid_vec(&self.outlines)
    }

    fn put(&self, out: &mut Vec<u8>) {
        proof {
            lemma_views_of_outlines(self.outlines@);
        }
        self.start.put(out);
        put_vec(&self.outlines, out);
        assert(out@ =~= old(out)@ + (wire_point(self.start) + wire_seq::<Outline>(
            outline_views(self.outlines@),
        )));
    }

    fn get(bytes: &[u8], at: usize) -> (r: Result<(PathShape, usize), FcmError>) {
        let (start, next) = match Point::get(bytes, at) {
            Err(e) => {
                return Err(e);
            },
            Ok(found) => found,
        };
        match get_vec::<Outline>(bytes, next) {
            Err(e) => Err(e),
            Ok((outlines, end)) => {
                proof {
                    lemma_views_of_outlines(outlines@);
                }
                Ok((PathShape { start, outlines }, end))
            },
        }
    }
}

} // verus!
