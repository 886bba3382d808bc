//! How a file is written and read.
//!
//! A file is its header, its cut parameters and its piece table, one after
//! another, and nothing behind them. A text is written as the number of its
//! UTF-8 bytes and those bytes. The thumbnail is written without a count:
//! it has as many bytes as the two block sizes in front of it multiply to.

use vstd::prelude::*;
use vstd::utf8::{decode_utf8, encode_utf8, valid_utf8};
use crate::codec::{
    get_vec,
    is_valid_vec,
    lemma_read_wire_seq,
    put_vec,
    read_seq,
    valid_seq,
    views,
    wire_seq,
    Wire,
};
use crate::codec_shapes::{
    get_opt,
    is_valid_opt,
    lemma_read_wire_opt,
    lemma_views_of_points,
    opt_view,
    put_opt,
    read_opt,
    valid_opt,
    wire_opt,
};
use crate::geometry::{PathShape, Point};
use crate::model::{
    AlignmentData,
    AlignmentDataView,
    CutData,
    CutDataView,
    FcmFile,
    FcmFileView,
    FileHeader,
    FileHeaderView,
    FileType,
    FileVariant,
    Generator,
    Path,
    PathTool,
    PathView,
    Piece,
    PieceRestrictions,
    PieceTable,
    PieceTableView,
    PieceView,
    Transform,
};
use crate::wire::{
    bool_byte,
    get_blob,
    get_bool,
    get_u32,
    get_u8,
    holds,
    le32,
    lemma_holds_split,
    lemma_le32,
    lemma_read_u32,
    lemma_read_u8,
    put_blob,
    put_bool,
    put_u32,
    put_u8,
    read_blob,
    read_bool,
    read_u32,
    read_u8,
    FcmError,
    Read,
};

verus! {

/// Appending in two steps is appending the two parts joined.
pub proof fn lemma_join(head: Seq<u8>, part: Seq<u8>, rest: Seq<u8>)
    ensures
        (head + part) + rest == head + (part + rest),
{
    assert((head + part) + rest =~= head + (part + rest));
}

/// A number at the front of a run of bytes is read as that number, and the
/// rest of the run lies behind it.
pub proof fn lemma_front_u32(bytes: Seq<u8>, at: int, v: u32, rest: Seq<u8>)
    requires
        holds(bytes, at, le32(v) + rest),
    ensures
        read_u32(bytes, at) == Ok::<_, FcmError>((v, at + 4)),
        holds(bytes, at + 4, rest),
        (le32(v) + rest).len() == 4 + rest.len(),
{
    lemma_le32(v);
    lemma_holds_split(bytes, at, le32(v), rest);
    lemma_read_u32(bytes, at, v);
}

/// A byte at the front of a run of bytes is read as that byte, and the rest
/// of the run lies behind it.
pub proof fn lemma_front_u8(bytes: Seq<u8>, at: int, v: u8, rest: Seq<u8>)
    requires
        holds(bytes, at, seq![v] + rest),
    ensures
        read_u8(bytes, at) == Ok::<_, FcmError>((v, at + 1)),
        holds(bytes, at + 1, rest),
        (seq![v] + rest).len() == 1 + rest.len(),
{
    lemma_holds_split(bytes, at, seq![v], rest);
    lemma_read_u8(bytes, at, v);
}

/// An optional value at the front of a run of bytes is read as that value,
/// and the rest of the run lies behind it.
pub proof fn lemma_front_opt<T: Wire>(bytes: Seq<u8>, at: int, o: Option<T::V>, rest: Seq<u8>)
    requires
        valid_opt::<T>(o),
        holds(bytes, at, wire_opt::<T>(o) + rest),
        bytes.len() <= usize::MAX,
    ensures
        read_opt::<T>(bytes, at) == Ok::<_, FcmError>((o, at + wire_opt::<T>(o).len())),
        holds(bytes, at + wire_opt::<T>(o).len(), rest),
        (wire_opt::<T>(o) + rest).len() == wire_opt::<T>(o).len() + rest.len(),
{
    lemma_holds_split(bytes, at, wire_opt::<T>(o), rest);
    lemma_read_wire_opt::<T>(o, bytes, at);
}

/// The bytes of a text: the number of its UTF-8 bytes, then those bytes.
#[verifier::opaque]
pub open spec fn wire_text(s: Seq<char>) -> Seq<u8> {
    le32(encode_utf8(s).len() as u32) + encode_utf8(s)
}

/// Whether a text can be written: its UTF-8 bytes can be counted in four
/// bytes.
pub open spec fn valid_text(s: Seq<char>) -> bool {
    encode_utf8(s).len() <= u32::MAX
}

/// The text at `at`: a count that does not overrun the input, and as many
/// bytes that are UTF-8.
#[verifier::opaque]
pub open spec fn read_text(bytes: Seq<u8>, at: int) -> Read<Seq<char>> {
    match read_u32(bytes, at) {
        Err(e) => Err(e),
        Ok((count, start)) => if count > bytes.len() - start {
            Err(
                FcmError::CountOverrun {
                    offset: at as usize,
                    expected: count as usize,
                    available: (bytes.len() - start) as usize,
                },
            )
        } else if !valid_utf8(bytes.subrange(start, start + count)) {
            Err(FcmError::InvalidText { offset: at as usize })
        } else {
            Ok((decode_utf8(bytes.subrange(start, start + count)), start + count))
        },
    }
}

/// Reading the bytes of a text gives the text.
pub proof fn lemma_read_wire_text(s: Seq<char>, bytes: Seq<u8>, at: int)
    requires
        valid_text(s),
        holds(bytes, at, wire_text(s)),
    ensures
        read_text(bytes, at) == Ok::<_, FcmError>((s, at + wire_text(s).len())),
        wire_text(s).len() == 4 + encode_utf8(s).len(),
{
    reveal(wire_text);
    reveal(read_text);
    let raw = encode_utf8(s);
    lemma_front_u32(bytes, at, raw.len() as u32, raw);
    vstd::utf8::encode_utf8_valid_utf8(s);
    vstd::utf8::encode_utf8_decode_utf8(s);
}

/// A text at the front of a run of bytes is read as that text, and the
/// rest of the run lies behind it.
pub proof fn lemma_front_text(bytes: Seq<u8>, at: int, s: Seq<char>, rest: Seq<u8>)
    requires
        valid_text(s),
        holds(bytes, at, wire_text(s) + rest),
    ensures
        read_text(bytes, at) == Ok::<_, FcmError>((s, at + wire_text(s).len())),
        holds(bytes, at + wire_text(s).len(), rest),
        (wire_text(s) + rest).len() == wire_text(s).len() + rest.len(),
{
    lemma_holds_split(bytes, at, wire_text(s), rest);
    lemma_read_wire_text(s, bytes, at);
}

/// `String::from_utf8` of the standard library: gives the text whose UTF-8
/// bytes are `raw` if `raw` is UTF-8, and nothing if it is not. Taken on
/// trust from its documentation.
#[verifier::external_body]
fn text_from_utf8(raw: Vec<u8>) -> (r: Option<String>)
    ensures
        match r {
            Some(s) => valid_utf8(raw@) && s@ == decode_utf8(raw@),
            None => !valid_utf8(raw@),
        },
{
    match String::from_utf8(raw) {
        Ok(s) => Some(s),
        Err(_) => None,
    }
}

/// Whether a text can be written.
pub fn is_valid_text(s: &String) -> (r: bool)
    ensures
        r == valid_text(s@),
{
    let raw = s.as_str().as_bytes_vec();
    raw.len() <= u32::MAX as usize
}

/// Appends the bytes of a text.
pub fn put_text(s: &String, out: &mut Vec<u8>)
    requires
        valid_text(s@),
    ensures
        final(out)@ == old(out)@ + wire_text(s@),
{
    reveal(wire_text);
    let raw = s.as_str().as_bytes_vec();
    put_u32(out, raw.len() as u32);
    put_blob(out, &raw);
    assert(out@ =~= old(out)@ + (le32(raw@.len() as u32) + raw@));
}

/// What a function that reads a text returned, as a specification value.
pub open spec fn decoded_text(r: Result<(String, usize), FcmError>) -> Read<Seq<char>> {
    match r {
        Ok((s, next)) => Ok((s@, next as int)),
        Err(e) => Err(e),
    }
}

/// Reads a text.
pub fn get_text(bytes: &[u8], at: usize) -> (r: Result<(String, usize), FcmError>)
    requires
        at <= bytes@.len(),
    ensures
        decoded_text(r) == read_text(bytes@, at as int),
        r matches Ok((_, next)) ==> at < next <= bytes@.len(),
{
    reveal(read_text);
    let (count, start) = match get_u32(bytes, at) {
        Err(e) => {
            return Err(e);
        },
        Ok(found) => found,
    };
    if count as u64 > (bytes.len() - start) as u64 {
        return Err(
            FcmError::CountOverrun {
                offset: at,
                expected: count as usize,
                available: bytes.len() - start,
            },
        );
    }
    let (raw, next) = match get_blob(bytes, start, count as usize) {
        Err(e) => {
            return Err(e);
        },
        Ok(found) => found,
    };
    match text_from_utf8(raw) {
        None => Err(FcmError::InvalidText { offset: at }),
        Some(s) => Ok((s, next)),
    }
}

impl View for Transform {
    type V = Transform;

    open spec fn view(&self) -> Transform {
        *self
    }
}

impl Wire for Transform {
    open spec fn valid(v: Transform) -> bool {
        true
    }

    open spec fn wire(v: Transform) -> Seq<u8> {
        le32(v.a) + (le32(v.b) + (le32(v.c) + (le32(v.d) + (le32(v.tx) + le32(v.ty)))))
    }

    open spec fn read(bytes: Seq<u8>, at: int) -> Read<Transform> {
        match read_u32(bytes, at) {
            Err(e) => Err(e),
            Ok((a, at1)) => match read_u32(bytes, at1) {
                Err(e) => Err(e),
                Ok((b, at2)) => match read_u32(bytes, at2) {
                    Err(e) => Err(e),
                    Ok((c, at3)) => match read_u32(bytes, at3) {
                        Err(e) => Err(e),
                        Ok((d, at4)) => match read_u32(bytes, at4) {
                            Err(e) => Err(e),
                            Ok((tx, at5)) => match read_u32(bytes, at5) {
                                Err(e) => Err(e),
                                Ok((ty, next)) => Ok((Transform { a, b, c, d, tx, ty }, next)),
                            },
                        },
                    },
                },
            },
        }
    }

    proof fn lemma_wire_nonempty(v: Transform) {
        lemma_le32(v.a);
    }

    proof fn lemma_read_wire(v: Transform, bytes: Seq<u8>, at: int) {
        let r5 = le32(v.ty);
        let r4 = le32(v.tx) + r5;
        let r3 = le32(v.d) + r4;
        let r2 = le32(v.c) + r3;
        let r1 = le32(v.b) + r2;
        lemma_front_u32(bytes, at, v.a, r1);
        lemma_front_u32(bytes, at + 4, v.b, r2);
        lemma_front_u32(bytes, at + 8, v.c, r3);
        lemma_front_u32(bytes, at + 12, v.d, r4);
        lemma_front_u32(bytes, at + 16, v.tx, r5);
        lemma_le32(v.ty);
        lemma_read_u32(bytes, at + 20, v.ty);
    }

    fn is_valid(&self) -> (r: bool) {
        true
    }

    fn put(&self, out: &mut Vec<u8>) {
        put_u32(out, self.a);
        put_u32(out, self.b);
        put_u32(out, self.c);
        put_u32(out, self.d);
        put_u32(out, self.tx);
        put_u32(out, self.ty);
        assert(out@ =~= old(out)@ + Transform::wire(*self));
    }

    fn get(bytes: &[u8], at: usize) -> (r: Result<(Transform, usize), FcmError>) {
        let (a, at1) = match get_u32(bytes, at) {
            Err(e) => {
                return Err(e);
            },
            Ok(found) => found,
        };
        let (b, at2) = match get_u32(bytes, at1) {
            Err(e) => {
                return Err(e);
            },
            Ok(found) => found,
        };
        let (c, at3) = match get_u32(bytes, at2) {
            Err(e) => {
                return Err(e);
            },
            Ok(found) => found,
        };
        let (d, at4) = match get_u32(bytes, at3) {
            Err(e) => {
                return Err(e);
            },
            Ok(found) => found,
        };
        let (tx, at5) = match get_u32(bytes, at4) {
            Err(e) => {
                return Err(e);
            },
            Ok(found) => found,
        };
        let (ty, next) = match get_u32(bytes, at5) {
            Err(e) => {
                return Err(e);
            },
            Ok(found) => found,
        };
        Ok((Transform { a, b, c, d, tx, ty }, next))
    }
}

impl Wire for Path {
    open spec fn valid(v: PathView) -> bool {
        &&& valid_opt::<PathShape>(v.shape)
        &&& valid_seq::<Point>(v.rhinestones)
    }

    open spec fn wire(v: PathView) -> Seq<u8> {
        le32(v.tool.bits) + (wire_opt::<PathShape>(v.shape) + (wire_opt::<u32>(
            v.rhinestone_diameter,
        ) + wire_seq::<Point>(v.rhinestones)))
    }

    open spec fn read(bytes: Seq<u8>, at: int) -> Read<PathView> {
        match read_u32(bytes, at) {
            Err(e) => Err(e),
            Ok((bits, at1)) => match read_opt::<PathShape>(bytes, at1) {
                Err(e) => Err(e),
                Ok((shape, at2)) => match read_opt::<u32>(bytes, at2) {
                    Err(e) => Err(e),
                    Ok((rhinestone_diameter, at3)) => match read_seq::<Point>(bytes, at3) {
                        Err(e) => Err(e),
                        Ok((rhinestones, next)) => Ok(
                            (
                                PathView {
                                    tool: PathTool { bits },
                                    shape,
                                    rhinestone_diameter,
                                    rhinestones,
                                },
                                next,
                            ),
                        ),
                    },
                },
            },
        }
    }

    proof fn lemma_wire_nonempty(v: PathView) {
        lemma_le32(v.tool.bits);
    }

    proof fn lemma_read_wire(v: PathView, bytes: Seq<u8>, at: int) {
        let r3 = wire_seq::<Point>(v.rhinestones);
        let r2 = wire_opt::<u32>(v.rhinestone_diameter) + r3;
        let r1 = wire_opt::<PathShape>(v.shape) + r2;
        lemma_front_u32(bytes, at, v.tool.bits, r1);
        lemma_front_opt::<PathShape>(bytes, at + 4, v.shape, r2);
        let at2 = at + 4 + wire_opt::<PathShape>(v.shape).len();
        lemma_front_opt::<u32>(bytes, at2, v.rhinestone_diameter, r3);
        let at3 = at2 + wire_opt::<u32>(v.rhinestone_diameter).len();
        lemma_read_wire_seq::<Point>(v.rhinestones, bytes, at3);
    }

    fn is_valid(&self) -> (r: bool) {
        proof {
            lemma_views_of_points(self.rhinestones@);
        }
        is_valid_opt(&self.shape) && is_valid_vec(&self.rhinestones)
    }

    fn put(&self, out: &mut Vec<u8>) {
        proof {
            lemma_views_of_points(self.rhinestones@);
        }
        put_u32(out, self.tool.bits);
        put_opt(&self.shape, out);
        put_opt(&self.rhinestone_diameter, out);
        put_vec(&self.rhinestones, out);
        assert(opt_view(self.rhinestone_diameter) == self@.rhinestone_diameter);
        assert(out@ =~= old(out)@ + Path::wire(self@));
    }

    fn get(bytes: &[u8], at: usize) -> (r: Result<(Path, usize), FcmError>) {
        let (bits, at1) = match get_u32(bytes, at) {
            Err(e) => {
                return Err(e);
            },
            Ok(found) => found,
        };
        let (shape, at2) = match get_opt::<PathShape>(bytes, at1) {
            Err(e) => {
                return Err(e);
            },
            Ok(found) => found,
        };
        let (rhinestone_diameter, at3) = match get_opt::<u32>(bytes, at2) {
            Err(e) => {
                return Err(e);
            },
            Ok(found) => found,
        };
        let (rhinestones, next) = match get_vec::<Point>(bytes, at3) {
            Err(e) => {
                return Err(e);
            },
            Ok(found) => found,
        };
        proof {
            lemma_views_of_points(rhinestones@);
            assert(opt_view(rhinestone_diameter) == rhinestone_diameter);
        }
        Ok((Path { tool: PathTool { bits }, shape, rhinestone_diameter, rhinestones }, next))
    }
}

/// The views of paths, said in either way.
pub proof fn lemma_views_of_paths(items: Seq<Path>)
    ensures
        views(items) == items.map_values(|p: Path| p@),
{
    assert(views(items) =~= items.map_values(|p: Path| p@));
}

impl Wire for Piece {
    open spec fn valid(v: PieceView) -> bool {
        &&& valid_text(v.label)
        &&& valid_seq::<Path>(v.paths)
    }

    open spec fn wire(v: PieceView) -> Seq<u8> {
        le32(v.width) + (le32(v.height) + (wire_opt::<Transform>(v.transform) + (le32(
            v.expansion_limit_value,
        ) + (le32(v.reduction_limit_value) + (le32(v.restriction_flags.bits) + (wire_text(
            v.label,
        ) + wire_seq::<Path>(v.paths)))))))
    }

    open spec fn read(bytes: Seq<u8>, at: int) -> Read<PieceView> {
        match read_u32(bytes, at) {
            Err(e) => Err(e),
            Ok((width, at1)) => match read_u32(bytes, at1) {
                Err(e) => Err(e),
                Ok((height, at2)) => match read_opt::<Transform>(bytes, at2) {
                    Err(e) => Err(e),
                    Ok((transform, at3)) => match read_u32(bytes, at3) {
                        Err(e) => Err(e),
                        Ok((expansion_limit_value, at4)) => match read_u32(bytes, at4) {
                            Err(e) => Err(e),
                            Ok((reduction_limit_value, at5)) => match read_u32(bytes, at5) {
                                Err(e) => Err(e),
                                Ok((bits, at6)) => match read_text(bytes, at6) {
                                    Err(e) => Err(e),
                                    Ok((label, at7)) => match read_seq::<Path>(bytes, at7) {
                                        Err(e) => Err(e),
                                        Ok((paths, next)) => Ok(
                                            (
                                                PieceView {
                                                    width,
                                                    height,
                                                    transform,
                                                    expansion_limit_value,
                                                    reduction_limit_value,
                                                    restriction_flags: PieceRestrictions { bits },
                                                    label,
                                                    paths,
                                                },
                                                next,
                                            ),
                                        ),
                                    },
                                },
                            },
                        },
                    },
                },
            },
        }
    }

    proof fn lemma_wire_nonempty(v: PieceView) {
        lemma_le32(v.width);
    }

    proof fn lemma_read_wire(v: PieceView, bytes: Seq<u8>, at: int) {
        let r7 = wire_seq::<Path>(v.paths);
        let r6 = wire_text(v.label) + r7;
        let r5 = le32(v.restriction_flags.bits) + r6;
        let r4 = le32(v.reduction_limit_value) + r5;
        let r3 = le32(v.expansion_limit_value) + r4;
        let r2 = wire_opt::<Transform>(v.transform) + r3;
        let r1 = le32(v.height) + r2;
        lemma_front_u32(bytes, at, v.width, r1);
        lemma_front_u32(bytes, at + 4, v.height, r2);
        lemma_front_opt::<Transform>(bytes, at + 8, v.transform, r3);
        let at3 = at + 8 + wire_opt::<Transform>(v.transform).len();
        lemma_front_u32(bytes, at3, v.expansion_limit_value, r4);
        lemma_front_u32(bytes, at3 + 4, v.reduction_limit_value, r5);
        lemma_front_u32(bytes, at3 + 8, v.restriction_flags.bits, r6);
        lemma_front_text(bytes, at3 + 12, v.label, r7);
        let at7 = at3 + 12 + wire_text(v.label).len();
        lemma_read_wire_seq::<Path>(v.paths, bytes, at7);
    }

    fn is_valid(&self) -> (r: bool) {
        proof {
            lemma_views_of_paths(self.paths@);
        }
        is_valid_text(&self.label) && is_valid_vec(&self.paths)
    }

    fn put(&self, out: &mut Vec<u8>) {
        proof {
            lemma_views_of_paths(self.paths@);
        }
        assert(opt_view(self.transform) == self@.transform);
        let ghost v = self@;
        let ghost s0 = out@;
        put_u32(out, self.width);
        let ghost s1 = out@;
        put_u32(out, self.height);
        let ghost s2 = out@;
        put_opt(&self.transform, out);
        let ghost s3 = out@;
        put_u32(out, self.expansion_limit_value);
        let ghost s4 = out@;
        put_u32(out, self.reduction_limit_value);
        let ghost s5 = out@;
        put_u32(out, self.restriction_flags.bits);
        let ghost s6 = out@;
        put_text(&self.label, out);
        let ghost s7 = out@;
        put_vec(&self.paths, out);
        proof {
            let r7 = wire_seq::<Path>(v.paths);
            let r6 = wire_text(v.label) + r7;
            let r5 = le32(v.restriction_flags.bits) + r6;
            let r4 = le32(v.reduction_limit_value) + r5;
            let r3 = le32(v.expansion_limit_value) + r4;
            let r2 = wire_opt::<Transform>(v.transform) + r3;
            let r1 = le32(v.height) + r2;
            lemma_join(s6, wire_text(v.label), r7);
            lemma_join(s5, le32(v.restriction_flags.bits), r6);
            lemma_join(s4, le32(v.reduction_limit_value), r5);
            lemma_join(s3, le32(v.expansion_limit_value), r4);
            lemma_join(s2, wire_opt::<Transform>(v.transform), r3);
            lemma_join(s1, le32(v.height), r2);
            lemma_join(s0, le32(v.width), r1);
        }
    }

    fn get(bytes: &[u8], at: usize) -> (r: Result<(Piece, usize), FcmError>) {
        let (width, at1) = match get_u32(bytes, at) {
            Err(e) => {
                return Err(e);
            },
            Ok(found) => found,
        };
        let (height, at2) = match get_u32(bytes, at1) {
            Err(e) => {
                return Err(e);
            },
            Ok(found) => found,
        };
        let (transform, at3) = match get_opt::<Transform>(bytes, at2) {
            Err(e) => {
                return Err(e);
            },
            Ok(found) => found,
        };
        let (expansion_limit_value, at4) = match get_u32(bytes, at3) {
            Err(e) => {
                return Err(e);
            },
            Ok(found) => found,
        };
        let (reduction_limit_value, at5) = match get_u32(bytes, at4) {
            Err(e) => {
                return Err(e);
            },
            Ok(found) => found,
        };
        let (bits, at6) = match get_u32(bytes, at5) {
            Err(e) => {
                return Err(e);
            },
            Ok(found) => found,
        };
        let (label, at7) = match get_text(bytes, at6) {
            Err(e) => {
                return Err(e);
            },
            Ok(found) => found,
        };
        let (paths, next) = match get_vec::<Path>(bytes, at7) {
            Err(e) => {
                return Err(e);
            },
            Ok(found) => found,
        };
        proof {
            lemma_views_of_paths(paths@);
            assert(opt_view(transform) == transform);
        }
        Ok(
            (
                Piece {
                    width,
                    height,
                    transform,
                    expansion_limit_value,
                    reduction_limit_value,
                    restriction_flags: PieceRestrictions { bits },
                    label,
                    paths,
                },
                next,
            ),
        )
    }
}

impl Wire for (u32, Piece) {
    open spec fn valid(v: (u32, PieceView)) -> bool {
        Piece::valid(v.1)
    }

    open spec fn wire(v: (u32, PieceView)) -> Seq<u8> {
        le32(v.0) + Piece::wire(v.1)
    }

    open spec fn read(bytes: Seq<u8>, at: int) -> Read<(u32, PieceView)> {
        match read_u32(bytes, at) {
            Err(e) => Err(e),
            Ok((id, at1)) => match Piece::read(bytes, at1) {
                Err(e) => Err(e),
                Ok((piece, next)) => Ok(((id, piece), next)),
            },
        }
    }

    proof fn lemma_wire_nonempty(v: (u32, PieceView)) {
        lemma_le32(v.0);
    }

    proof fn lemma_read_wire(v: (u32, PieceView), bytes: Seq<u8>, at: int) {
        lemma_front_u32(bytes, at, v.0, Piece::wire(v.1));
        Piece::lemma_read_wire(v.1, bytes, at + 4);
    }

    fn is_valid(&self) -> (r: bool) {
        self.1.is_valid()
    }

    fn put(&self, out: &mut Vec<u8>) {
        put_u32(out, self.0);
        self.1.put(out);
        assert(out@ =~= old(out)@ + (le32(self.0) + Piece::wire(self.1@)));
    }

    fn get(bytes: &[u8], at: usize) -> (r: Result<((u32, Piece), usize), FcmError>) {
        let (id, at1) = match get_u32(bytes, at) {
            Err(e) => {
                return Err(e);
            },
            Ok(found) => found,
        };
        match Piece::get(bytes, at1) {
            Err(e) => Err(e),
            Ok((piece, next)) => Ok(((id, piece), next)),
        }
    }
}

/// The views of the entries of a piece table, said in either way.
pub proof fn lemma_views_of_entries(items: Seq<(u32, Piece)>)
    ensures
        views(items) == items.map_values(|e: (u32, Piece)| e@),
{
    assert(views(items) =~= items.map_values(|e: (u32, Piece)| e@));
}

impl Wire for AlignmentData {
    open spec fn valid(v: AlignmentDataView) -> bool {
        valid_seq::<Point>(v.marks)
    }

    open spec fn wire(v: AlignmentDataView) -> Seq<u8> {
        seq![bool_byte(v.needed)] + wire_seq::<Point>(v.marks)
    }

    open spec fn read(bytes: Seq<u8>, at: int) -> Read<AlignmentDataView> {
        match read_bool(bytes, at) {
            Err(e) => Err(e),
            Ok((needed, at1)) => match read_seq::<Point>(bytes, at1) {
                Err(e) => Err(e),
                Ok((marks, next)) => Ok((AlignmentDataView { needed, marks }, next)),
            },
        }
    }

    proof fn lemma_wire_nonempty(v: AlignmentDataView) {
    }

    proof fn lemma_read_wire(v: AlignmentDataView, bytes: Seq<u8>, at: int) {
        lemma_front_u8(bytes, at, bool_byte(v.needed), wire_seq::<Point>(v.marks));
        lemma_read_wire_seq::<Point>(v.marks, bytes, at + 1);
    }

    fn is_valid(&self) -> (r: bool) {
        proof {
            lemma_views_of_points(self.marks@);
        }
        is_valid_vec(&self.marks)
    }

    fn put(&self, out: &mut Vec<u8>) {
        proof {
            lemma_views_of_points(self.marks@);
        }
        put_bool(out, self.needed);
        put_vec(&self.marks, out);
        assert(out@ =~= old(out)@ + AlignmentData::wire(self@));
    }

    fn get(bytes: &[u8], at: usize) -> (r: Result<(AlignmentData, usize), FcmError>) {
        let (needed, at1) = match get_bool(bytes, at) {
            Err(e) => {
                return Err(e);
            },
            Ok(found) => found,
        };
        match get_vec::<Point>(bytes, at1) {
            Err(e) => Err(e),
            Ok((marks, next)) => {
                proof {
                    lemma_views_of_points(marks@);
                }
                Ok((AlignmentData { needed, marks }, next))
            },
        }
    }
}

/// The byte that stands for a file type.
pub open spec fn file_type_byte(t: FileType) -> u8 {
    match t {
        FileType::Cut => 0,
        FileType::PrintAndCut => 1,
    }
}

/// The file type at `at`.
pub open spec fn read_file_type(bytes: Seq<u8>, at: int) -> Read<FileType> {
    match read_u8(bytes, at) {
        Err(e) => Err(e),
        Ok((tag, next)) => if tag == 0 {
            Ok((FileType::Cut, next))
        } else if tag == 1 {
            Ok((FileType::PrintAndCut, next))
        } else {
            Err(FcmError::UnknownTag { offset: at as usize, tag })
        },
    }
}

/// The byte that stands for a variant of the container.
pub open spec fn variant_byte(v: FileVariant) -> u8 {
    match v {
        FileVariant::FCM => 0,
        FileVariant::VCM => 1,
    }
}

/// The variant at `at`.
pub open spec fn read_variant(bytes: Seq<u8>, at: int) -> Read<FileVariant> {
    match read_u8(bytes, at) {
        Err(e) => Err(e),
        Ok((tag, next)) => if tag == 0 {
            Ok((FileVariant::FCM, next))
        } else if tag == 1 {
            Ok((FileVariant::VCM, next))
        } else {
            Err(FcmError::UnknownTag { offset: at as usize, tag })
        },
    }
}

/// The bytes of a generator: zero for the application, one for the web
/// service, then the version.
pub open spec fn wire_generator(g: Generator) -> Seq<u8> {
    match g {
        Generator::App(version) => seq![0u8] + le32(version),
        Generator::Web(version) => seq![1u8] + le32(version),
    }
}

/// The generator at `at`.
pub open spec fn read_generator(bytes: Seq<u8>, at: int) -> Read<Generator> {
    match read_u8(bytes, at) {
        Err(e) => Err(e),
        Ok((tag, at1)) => if tag > 1 {
            Err(FcmError::UnknownTag { offset: at as usize, tag })
        } else {
            match read_u32(bytes, at1) {
                Err(e) => Err(e),
                Ok((version, next)) => if tag == 0 {
                    Ok((Generator::App(version), next))
                } else {
                    Ok((Generator::Web(version), next))
                },
            }
        },
    }
}

/// A generator at the front of a run of bytes is read as that generator,
/// and the rest of the run lies behind it.
pub proof fn lemma_front_generator(bytes: Seq<u8>, at: int, g: Generator, rest: Seq<u8>)
    requires
        holds(bytes, at, wire_generator(g) + rest),
    ensures
        read_generator(bytes, at) == Ok::<_, FcmError>((g, at + 5)),
        holds(bytes, at + 5, rest),
        wire_generator(g).len() == 5,
{
    lemma_holds_split(bytes, at, wire_generator(g), rest);
    match g {
        Generator::App(version) => {
            lemma_le32(version);
            lemma_front_u8(bytes, at, 0u8, le32(version));
            lemma_read_u32(bytes, at + 1, version);
        },
        Generator::Web(version) => {
            lemma_le32(version);
            lemma_front_u8(bytes, at, 1u8, le32(version));
            lemma_read_u32(bytes, at + 1, version);
        },
    }
}

/// Whether the cut parameters can be written.
pub open spec fn valid_cut_data(v: CutDataView) -> bool {
    valid_opt::<AlignmentData>(v.alignment)
}

/// The bytes of the cut parameters.
#[verifier::opaque]
pub open spec fn wire_cut_data(v: CutDataView) -> Seq<u8> {
    seq![file_type_byte(v.file_type)] + (le32(v.mat_id) + (le32(v.cut_width) + (le32(
        v.cut_height,
    ) + (le32(v.seam_allowance_width) + wire_opt::<AlignmentData>(v.alignment)))))
}

/// The cut parameters at `at`.
#[verifier::opaque]
pub open spec fn read_cut_data(bytes: Seq<u8>, at: int) -> Read<CutDataView> {
    match read_file_type(bytes, at) {
        Err(e) => Err(e),
        Ok((file_type, at1)) => match read_u32(bytes, at1) {
            Err(e) => Err(e),
            Ok((mat_id, at2)) => match read_u32(bytes, at2) {
                Err(e) => Err(e),
                Ok((cut_width, at3)) => match read_u32(bytes, at3) {
                    Err(e) => Err(e),
                    Ok((cut_height, at4)) => match read_u32(bytes, at4) {
                        Err(e) => Err(e),
                        Ok((seam_allowance_width, at5)) => match read_opt::<AlignmentData>(
                            bytes,
                            at5,
                        ) {
                            Err(e) => Err(e),
                            Ok((alignment, next)) => Ok(
                                (
                                    CutDataView {
                                        file_type,
                                        mat_id,
                                        cut_width,
                                        cut_height,
                                        seam_allowance_width,
                                        alignment,
                                    },
                                    next,
                                ),
                            ),
                        },
                    },
                },
            },
        },
    }
}

/// The cut parameters at the front of a run of bytes are read as they
/// were written, and the rest of the run lies behind them.
pub proof fn lemma_front_cut_data(bytes: Seq<u8>, at: int, v: CutDataView, rest: Seq<u8>)
    requires
        valid_cut_data(v),
        holds(bytes, at, wire_cut_data(v) + rest),
        bytes.len() <= usize::MAX,
    ensures
        read_cut_data(bytes, at) == Ok::<_, FcmError>((v, at + wire_cut_data(v).len())),
        holds(bytes, at + wire_cut_data(v).len(), rest),
{
    reveal(wire_cut_data);
    reveal(read_cut_data);
    lemma_holds_split(bytes, at, wire_cut_data(v), rest);
    let r5 = wire_opt::<AlignmentData>(v.alignment);
    let r4 = le32(v.seam_allowance_width) + r5;
    let r3 = le32(v.cut_height) + r4;
    let r2 = le32(v.cut_width) + r3;
    let r1 = le32(v.mat_id) + r2;
    lemma_front_u8(bytes, at, file_type_byte(v.file_type), r1);
    lemma_front_u32(bytes, at + 1, v.mat_id, r2);
    lemma_front_u32(bytes, at + 5, v.cut_width, r3);
    lemma_front_u32(bytes, at + 9, v.cut_height, r4);
    lemma_front_u32(bytes, at + 13, v.seam_allowance_width, r5);
    lemma_read_wire_opt::<AlignmentData>(v.alignment, bytes, at + 17);
}

/// Appends the bytes of the cut parameters.
pub fn put_cut_data(v: &CutData, out: &mut Vec<u8>)
    requires
        valid_cut_data(v@),
    ensures
        final(out)@ == old(out)@ + wire_cut_data(v@),
{
    proof {
        reveal(wire_cut_data);
    }
    put_u8(
        out,
        match v.file_type {
            FileType::Cut => 0,
            FileType::PrintAndCut => 1,
        },
    );
    put_u32(out, v.mat_id);
    put_u32(out, v.cut_width);
    put_u32(out, v.cut_height);
    put_u32(out, v.seam_allowance_width);
    assert(opt_view(v.alignment) == v@.alignment);
    put_opt(&v.alignment, out);
    assert(out@ =~= old(out)@ + wire_cut_data(v@));
}

/// What a function that reads a value returned, as a specification value.
pub open spec fn decoded_cut_data(r: Result<(CutData, usize), FcmError>) -> Read<CutDataView> {
    match r {
        Ok((v, next)) => Ok((v@, next as int)),
        Err(e) => Err(e),
    }
}

/// Reads the cut parameters.
pub fn get_cut_data(bytes: &[u8], at: usize) -> (r: Result<(CutData, usize), FcmError>)
    requires
        at <= bytes@.len(),
    ensures
        decoded_cut_data(r) == read_cut_data(bytes@, at as int),
        r matches Ok((_, next)) ==> at < next <= bytes@.len(),
{
    proof {
        reveal(read_cut_data);
    }
    let (tag, at1) = match get_u8(bytes, at) {
        Err(e) => {
            return Err(e);
        },
        Ok(found) => found,
    };
    let file_type = if tag == 0 {
        FileType::Cut
    } else if tag == 1 {
        FileType::PrintAndCut
    } else {
        return Err(FcmError::UnknownTag { offset: at, tag });
    };
    let (mat_id, at2) = match get_u32(bytes, at1) {
        Err(e) => {
            return Err(e);
        },
        Ok(found) => found,
    };
    let (cut_width, at3) = match get_u32(bytes, at2) {
        Err(e) => {
            return Err(e);
        },
        Ok(found) => found,
    };
    let (cut_height, at4) = match get_u32(bytes, at3) {
        Err(e) => {
            return Err(e);
        },
        Ok(found) => found,
    };
    let (seam_allowance_width, at5) = match get_u32(bytes, at4) {
        Err(e) => {
            return Err(e);
        },
        Ok(found) => found,
    };
    let (alignment, next) = match get_opt::<AlignmentData>(bytes, at5) {
        Err(e) => {
            return Err(e);
        },
        Ok(found) => found,
    };
    let v = CutData { file_type, mat_id, cut_width, cut_height, seam_allowance_width, alignment };
    assert(opt_view(v.alignment) == v@.alignment);
    Ok((v, next))
}

/// How many bytes the thumbnail of a header has.
pub open spec fn thumbnail_len(v: FileHeaderView) -> int {
    v.thumbnail_block_size_width * v.thumbnail_block_size_height
}

/// Whether a header can be written: its texts can be counted and its
/// thumbnail is as large as its block size says.
pub open spec fn valid_header(v: FileHeaderView) -> bool {
    &&& valid_text(v.version)
    &&& valid_text(v.short_name)
    &&& valid_text(v.long_name)
    &&& valid_text(v.author_name)
    &&& valid_text(v.copyright)
    &&& v.thumbnail.len() == thumbnail_len(v)
}

/// The bytes of a header.
#[verifier::opaque]
pub open spec fn wire_header(v: FileHeaderView) -> Seq<u8> {
    seq![variant_byte(v.variant)] + (wire_text(v.version) + (le32(v.content_id) + (wire_text(
        v.short_name,
    ) + (wire_text(v.long_name) + (wire_text(v.author_name) + (wire_text(v.copyright) + (
    seq![v.thumbnail_block_size_width] + (seq![v.thumbnail_block_size_height] + (v.thumbnail + (
    wire_generator(v.generator) + wire_opt::<bool>(v.print_to_cut)))))))))))
}

/// The header at `at`.
#[verifier::opaque]
pub open spec fn read_header(bytes: Seq<u8>, at: int) -> Read<FileHeaderView> {
    match read_variant(bytes, at) {
        Err(e) => Err(e),
        Ok((variant, at1)) => match read_text(bytes, at1) {
            Err(e) => Err(e),
            Ok((version, at2)) => match read_u32(bytes, at2) {
                Err(e) => Err(e),
                Ok((content_id, at3)) => match read_text(bytes, at3) {
                    Err(e) => Err(e),
                    Ok((short_name, at4)) => match read_text(bytes, at4) {
                        Err(e) => Err(e),
                        Ok((long_name, at5)) => match read_text(bytes, at5) {
                            Err(e) => Err(e),
                            Ok((author_name, at6)) => match read_text(bytes, at6) {
                                Err(e) => Err(e),
                                Ok((copyright, at7)) => read_header_tail(
                                    bytes,
                                    at7,
                                    FileHeaderView {
                                        variant,
                                        version,
                                        content_id,
                                        short_name,
                                        long_name,
                                        author_name,
                                        copyright,
                                        thumbnail_block_size_width: 0,
                                        thumbnail_block_size_height: 0,
                                        thumbnail: Seq::empty(),
                                        generator: Generator::App(0),
                                        print_to_cut: None,
                                    },
                                ),
                            },
                        },
                    },
                },
            },
        },
    }
}

/// The back of a header at `at`, from the block sizes on, put into
/// `front`.
pub open spec fn read_header_tail(bytes: Seq<u8>, at: int, front: FileHeaderView) -> Read<
    FileHeaderView,
> {
    match read_u8(bytes, at) {
        Err(e) => Err(e),
        Ok((width, at1)) => match read_u8(bytes, at1) {
            Err(e) => Err(e),
            Ok((height, at2)) => match read_blob(bytes, at2, width * height) {
                Err(e) => Err(e),
                Ok((thumbnail, at3)) => match read_generator(bytes, at3) {
                    Err(e) => Err(e),
                    Ok((generator, at4)) => match read_opt::<bool>(bytes, at4) {
                        Err(e) => Err(e),
                        Ok((print_to_cut, next)) => Ok(
                            (
                                FileHeaderView {
                                    thumbnail_block_size_width: width,
                                    thumbnail_block_size_height: height,
                                    thumbnail,
                                    generator,
                                    print_to_cut,
                                    ..front
                                },
                                next,
                            ),
                        ),
                    },
                },
            },
        },
    }
}

/// A header at the front of a run of bytes is read as it was written, and
/// the rest of the run lies behind it.
pub proof fn lemma_front_header(bytes: Seq<u8>, at: int, v: FileHeaderView, rest: Seq<u8>)
    requires
        valid_header(v),
        holds(bytes, at, wire_header(v) + rest),
        bytes.len() <= usize::MAX,
    ensures
        read_header(bytes, at) == Ok::<_, FcmError>((v, at + wire_header(v).len())),
        holds(bytes, at + wire_header(v).len(), rest),
{
    reveal(wire_header);
    reveal(read_header);
    lemma_holds_split(bytes, at, wire_header(v), rest);
    let r11 = wire_opt::<bool>(v.print_to_cut);
    let r10 = wire_generator(v.generator) + r11;
    let r9 = v.thumbnail + r10;
    let r8 = seq![v.thumbnail_block_size_height] + r9;
    let r7 = seq![v.thumbnail_block_size_width] + r8;
    let r6 = wire_text(v.copyright) + r7;
    let r5 = wire_text(v.author_name) + r6;
    let r4 = wire_text(v.long_name) + r5;
    let r3 = wire_text(v.short_name) + r4;
    let r2 = le32(v.content_id) + r3;
    let r1 = wire_text(v.version) + r2;
    lemma_front_u8(bytes, at, variant_byte(v.variant), r1);
    lemma_front_text(bytes, at + 1, v.version, r2);
    let at2 = at + 1 + wire_text(v.version).len();
    lemma_front_u32(bytes, at2, v.content_id, r3);
    lemma_front_text(bytes, at2 + 4, v.short_name, r4);
    let at4 = at2 + 4 + wire_text(v.short_name).len();
    lemma_front_text(bytes, at4, v.long_name, r5);
    let at5 = at4 + wire_text(v.long_name).len();
    lemma_front_text(bytes, at5, v.author_name, r6);
    let at6 = at5 + wire_text(v.author_name).len();
    lemma_front_text(bytes, at6, v.copyright, r7);
    let at7 = at6 + wire_text(v.copyright).len();
    lemma_front_u8(bytes, at7, v.thumbnail_block_size_width, r8);
    lemma_front_u8(bytes, at7 + 1, v.thumbnail_block_size_height, r9);
    lemma_holds_split(bytes, at7 + 2, v.thumbnail, r10);
    let at9 = at7 + 2 + v.thumbnail.len();
    lemma_front_generator(bytes, at9, v.generator, r11);
    lemma_read_wire_opt::<bool>(v.print_to_cut, bytes, at9 + 5);
    let front = FileHeaderView {
        thumbnail_block_size_width: 0,
        thumbnail_block_size_height: 0,
        thumbnail: Seq::empty(),
        generator: Generator::App(0),
        print_to_cut: None,
        ..v
    };
    assert(read_header_tail(bytes, at7, front) == Ok::<_, FcmError>(
        (v, at + wire_header(v).len()),
    ));
}

/// The number of bytes in a thumbnail of `width` by `height` blocks.
pub fn block_bytes(width: u8, height: u8) -> (r: usize)
    ensures
        r == width * height,
{
    assert(0 <= width * height <= 255 * 255) by (nonlinear_arith)
        requires
            0 <= width <= 255,
            0 <= height <= 255,
    ;
    (width as usize) * (height as usize)
}

/// Whether a header can be written.
pub fn is_valid_header(v: &FileHeader) -> (r: bool)
    ensures
        r == valid_header(v@),
{
    let size: usize = block_bytes(v.thumbnail_block_size_width, v.thumbnail_block_size_height);
    is_valid_text(&v.version) && is_valid_text(&v.short_name) && is_valid_text(&v.long_name)
        && is_valid_text(&v.author_name) && is_valid_text(&v.copyright) && v.thumbnail.len()
        == size
}

/// Appends the bytes of a header.
pub fn put_header(v: &FileHeader, out: &mut Vec<u8>)
    requires
        valid_header(v@),
    ensures
        final(out)@ == old(out)@ + wire_header(v@),
{
    proof {
        reveal(wire_header);
    }
    assert(opt_view(v.print_to_cut) == v@.print_to_cut);
    let ghost h = v@;
    let ghost s0 = out@;
    put_u8(
        out,
        match v.variant {
            FileVariant::FCM => 0,
            FileVariant::VCM => 1,
        },
    );
    let ghost s1 = out@;
    put_text(&v.version, out);
    let ghost s2 = out@;
    put_u32(out, v.content_id);
    let ghost s3 = out@;
    put_text(&v.short_name, out);
    let ghost s4 = out@;
    put_text(&v.long_name, out);
    let ghost s5 = out@;
    put_text(&v.author_name, out);
    let ghost s6 = out@;
    put_text(&v.copyright, out);
    let ghost s7 = out@;
    put_u8(out, v.thumbnail_block_size_width);
    let ghost s8 = out@;
    put_u8(out, v.thumbnail_block_size_height);
    let ghost s9 = out@;
    put_blob(out, &v.thumbnail);
    let ghost s10 = out@;
    put_generator(&v.generator, out);
    let ghost s11 = out@;
    put_opt(&v.print_to_cut, out);
    proof {
        let r11 = wire_opt::<bool>(h.print_to_cut);
        let r10 = wire_generator(h.generator) + r11;
        let r9 = h.thumbnail + r10;
        let r8 = seq![h.thumbnail_block_size_height] + r9;
        let r7 = seq![h.thumbnail_block_size_width] + r8;
        let r6 = wire_text(h.copyright) + r7;
        let r5 = wire_text(h.author_name) + r6;
        let r4 = wire_text(h.long_name) + r5;
        let r3 = wire_text(h.short_name) + r4;
        let r2 = le32(h.content_id) + r3;
        let r1 = wire_text(h.version) + r2;
        lemma_join(s10, wire_generator(h.generator), r11);
        lemma_join(s9, h.thumbnail, r10);
        lemma_join(s8, seq![h.thumbnail_block_size_height], r9);
        lemma_join(s7, seq![h.thumbnail_block_size_width], r8);
        lemma_join(s6, wire_text(h.copyright), r7);
        lemma_join(s5, wire_text(h.author_name), r6);
        lemma_join(s4, wire_text(h.long_name), r5);
        lemma_join(s3, wire_text(h.short_name), r4);
        lemma_join(s2, le32(h.content_id), r3);
        lemma_join(s1, wire_text(h.version), r2);
        lemma_join(s0, seq![variant_byte(h.variant)], r1);
    }
}

/// Appends the bytes of a generator.
pub fn put_generator(g: &Generator, out: &mut Vec<u8>)
    ensures
        final(out)@ == old(out)@ + wire_generator(*g),
{
    match g {
        Generator::App(version) => {
            put_u8(out, 0);
            put_u32(out, *version);
            assert(out@ =~= old(out)@ + (seq![0u8] + le32(*version)));
        },
        Generator::Web(version) => {
            put_u8(out, 1);
            put_u32(out, *version);
            assert(out@ =~= old(out)@ + (seq![1u8] + le32(*version)));
        },
    }
}

/// What a function that reads a header returned, as a specification
/// value.
pub open spec fn decoded_header(r: Result<(FileHeader, usize), FcmError>) -> Read<
    FileHeaderView,
> {
    match r {
        Ok((v, next)) => Ok((v@, next as int)),
        Err(e) => Err(e),
    }
}

/// Reads a header.
pub fn get_header(bytes: &[u8], at: usize) -> (r: Result<(FileHeader, usize), FcmError>)
    requires
        at <= bytes@.len(),
    ensures
        decoded_header(r) == read_header(bytes@, at as int),
        r matches Ok((_, next)) ==> at < next <= bytes@.len(),
{
    proof {
        reveal(read_header);
    }
    let (tag, at1) = match get_u8(bytes, at) {
        Err(e) => {
            return Err(e);
        },
        Ok(found) => found,
    };
    let variant = if tag == 0 {
        FileVariant::FCM
    } else if tag == 1 {
        FileVariant::VCM
    } else {
        return Err(FcmError::UnknownTag { offset: at, tag });
    };
    let (version, at2) = match get_text(bytes, at1) {
        Err(e) => {
            return Err(e);
        },
        Ok(found) => found,
    };
    let (content_id, at3) = match get_u32(bytes, at2) {
        Err(e) => {
            return Err(e);
        },
        Ok(found) => found,
    };
    let (short_name, at4) = match get_text(bytes, at3) {
        Err(e) => {
            return Err(e);
        },
        Ok(found) => found,
    };
    let (long_name, at5) = match get_text(bytes, at4) {
        Err(e) => {
            return Err(e);
        },
        Ok(found) => found,
    };
    let (author_name, at6) = match get_text(bytes, at5) {
        Err(e) => {
            return Err(e);
        },
        Ok(found) => found,
    };
    let (copyright, at7) = match get_text(bytes, at6) {
        Err(e) => {
            return Err(e);
        },
        Ok(found) => found,
    };
    let (width, at8) = match get_u8(bytes, at7) {
        Err(e) => {
            return Err(e);
        },
        Ok(found) => found,
    };
    let (height, at9) = match get_u8(bytes, at8) {
        Err(e) => {
            return Err(e);
        },
        Ok(found) => found,
    };
    let size: usize = block_bytes(width, height);
    let (thumbnail, at10) = match get_blob(bytes, at9, size) {
        Err(e) => {
            return Err(e);
        },
        Ok(found) => found,
    };
    let (kind, at11) = match get_u8(bytes, at10) {
        Err(e) => {
            return Err(e);
        },
        Ok(found) => found,
    };
    if kind > 1 {
        return Err(FcmError::UnknownTag { offset: at10, tag: kind });
    }
    let (made_by, at12) = match get_u32(bytes, at11) {
        Err(e) => {
            return Err(e);
        },
        Ok(found) => found,
    };
    let generator = if kind == 0 {
        Generator::App(made_by)
    } else {
        Generator::Web(made_by)
    };
    let (print_to_cut, next) = match get_opt::<bool>(bytes, at12) {
        Err(e) => {
            return Err(e);
        },
        Ok(found) => found,
    };
    assert(opt_view(print_to_cut) == print_to_cut);
    Ok(
        (
            FileHeader {
                variant,
                version,
                content_id,
                short_name,
                long_name,
                author_name,
                copyright,
                thumbnail_block_size_width: width,
                thumbnail_block_size_height: height,
                thumbnail,
                generator,
                print_to_cut,
            },
            next,
        ),
    )
}

/// Whether a piece table can be written: its entries are few enough to
/// count, and each can be written.
pub open spec fn valid_table(t: PieceTableView) -> bool {
    valid_seq::<(u32, Piece)>(t.pieces)
}

/// The bytes of a piece table: the number of its entries, then each entry
/// as its identifier and its piece.
#[verifier::opaque]
pub open spec fn wire_table(t: PieceTableView) -> Seq<u8> {
    wire_seq::<(u32, Piece)>(t.pieces)
}

/// The piece table at `at`.
#[verifier::opaque]
pub open spec fn read_table(bytes: Seq<u8>, at: int) -> Read<PieceTableView> {
    match read_seq::<(u32, Piece)>(bytes, at) {
        Err(e) => Err(e),
        Ok((pieces, next)) => Ok((PieceTableView { pieces }, next)),
    }
}

/// Reading the bytes of a piece table gives the table.
pub proof fn lemma_read_wire_table(t: PieceTableView, bytes: Seq<u8>, at: int)
    requires
        valid_table(t),
        holds(bytes, at, wire_table(t)),
        bytes.len() <= usize::MAX,
    ensures
        read_table(bytes, at) == Ok::<_, FcmError>((t, at + wire_table(t).len())),
{
    reveal(wire_table);
    reveal(read_table);
    lemma_read_wire_seq::<(u32, Piece)>(t.pieces, bytes, at);
}

/// Whether the piece table can be written.
pub fn is_valid_table(t: &PieceTable) -> (r: bool)
    ensures
        r == valid_table(t@),
{
    proof {
        lemma_views_of_entries(t.pieces@);
    }
    is_valid_vec(&t.pieces)
}

/// Appends the bytes of a piece table.
pub fn put_table(t: &PieceTable, out: &mut Vec<u8>)
    requires
        valid_table(t@),
    ensures
        final(out)@ == old(out)@ + wire_table(t@),
{
    reveal(wire_table);
    proof {
        lemma_views_of_entries(t.pieces@);
    }
    put_vec(&t.pieces, out);
}

/// What a function that reads a piece table returned, as a specification
/// value.
pub open spec fn decoded_table(r: Result<(PieceTable, usize), FcmError>) -> Read<PieceTableView> {
    match r {
        Ok((t, next)) => Ok((t@, next as int)),
        Err(e) => Err(e),
    }
}

/// Reads a piece table.
pub fn get_table(bytes: &[u8], at: usize) -> (r: Result<(PieceTable, usize), FcmError>)
    requires
        at <= bytes@.len(),
    ensures
        decoded_table(r) == read_table(bytes@, at as int),
        r matches Ok((_, next)) ==> at < next <= bytes@.len(),
{
    reveal(read_table);
    match get_vec::<(u32, Piece)>(bytes, at) {
        Err(e) => Err(e),
        Ok((pieces, next)) => {
            proof {
                lemma_views_of_entries(pieces@);
            }
            Ok((PieceTable { pieces }, next))
        },
    }
}

impl FcmFileView {
    /// Whether the file can be written: every sequence and text in it is
    /// short enough to count, and the thumbnail is as large as its block
    /// size says.
    pub open spec fn encodable(self) -> bool {
        &&& valid_header(self.file_header)
        &&& valid_cut_data(self.cut_data)
        &&& valid_table(self.piece_table)
    }

    /// The bytes of the file.
    pub open spec fn encoded(self) -> Seq<u8> {
        wire_header(self.file_header) + (wire_cut_data(self.cut_data) + wire_table(
            self.piece_table,
        ))
    }
}

/// The file that `bytes` holds: the header, the cut parameters and the
/// piece table, and nothing behind them.
pub open spec fn decoded_file(bytes: Seq<u8>) -> Result<FcmFileView, FcmError> {
    match read_header(bytes, 0) {
        Err(e) => Err(e),
        Ok((file_header, at1)) => match read_cut_data(bytes, at1) {
            Err(e) => Err(e),
            Ok((cut_data, at2)) => match read_table(bytes, at2) {
                Err(e) => Err(e),
                Ok((piece_table, end)) => if end != bytes.len() {
                    Err(
                        FcmError::TrailingBytes {
                            offset: end as usize,
                            available: (bytes.len() - end) as usize,
                        },
                    )
                } else {
                    Ok(FcmFileView { file_header, cut_data, piece_table })
                },
            },
        },
    }
}

/// Reading a file that was written gives the file back.
pub proof fn lemma_decode_encode(f: FcmFileView)
    requires
        f.encodable(),
        f.encoded().len() <= usize::MAX,
    ensures
        decoded_file(f.encoded()) == Ok::<_, FcmError>(f),
{
    let bytes = f.encoded();
    assert(bytes.subrange(0, bytes.len() as int) =~= bytes);
    lemma_read_parts(f.file_header, f.cut_data, f.piece_table, bytes);
}

/// The three parts of a file are read one after another as they were
/// written, and the last ends where the bytes end.
proof fn lemma_read_parts(
    header: FileHeaderView,
    cut_data: CutDataView,
    table: PieceTableView,
    bytes: Seq<u8>,
)
    requires
        valid_header(header),
        valid_cut_data(cut_data),
        valid_table(table),
        holds(bytes, 0, wire_header(header) + (wire_cut_data(cut_data) + wire_table(table))),
        bytes.len() == (wire_header(header) + (wire_cut_data(cut_data) + wire_table(table))).len(),
        bytes.len() <= usize::MAX,
    ensures
        read_header(bytes, 0) == Ok::<_, FcmError>((header, wire_header(header).len() as int)),
        read_cut_data(bytes, wire_header(header).len() as int) == Ok::<_, FcmError>(
            (cut_data, (wire_header(header).len() + wire_cut_data(cut_data).len()) as int),
        ),
        read_table(bytes, (wire_header(header).len() + wire_cut_data(cut_data).len()) as int)
            == Ok::<_, FcmError>((table, bytes.len() as int)),
{
    let r2 = wire_table(table);
    let r1 = wire_cut_data(cut_data) + r2;
    let at1 = wire_header(header).len() as int;
    let at2 = at1 + wire_cut_data(cut_data).len();
    lemma_front_header(bytes, 0, header, r1);
    lemma_front_cut_data(bytes, at1, cut_data, r2);
    lemma_read_wire_table(table, bytes, at2);
}

impl FcmFile {
    /// Whether the file can be written.
    pub fn is_encodable(&self) -> (r: bool)
        ensures
            r == self@.encodable(),
    {
        assert(opt_view(self.cut_data.alignment) == self@.cut_data.alignment);
        is_valid_header(&self.file_header) && is_valid_opt(&self.cut_data.alignment)
            && is_valid_table(&self.piece_table)
    }

    /// Writes the file. Fails, with nothing written, only if the file
    /// cannot be written.
    pub fn encode(&self) -> (r: Result<Vec<u8>, FcmError>)
        ensures
            match r {
                Ok(bytes) => self@.encodable() && bytes@ == self@.encoded(),
                Err(e) => !self@.encodable() && e == FcmError::Unencodable,
            },
    {
        if !self.is_encodable() {
            return Err(FcmError::Unencodable);
        }
        let mut out: Vec<u8> = Vec::new();
        let ghost f = self@;
        let ghost s0 = out@;
        put_header(&self.file_header, &mut out);
        let ghost s1 = out@;
        put_cut_data(&self.cut_data, &mut out);
        put_table(&self.piece_table, &mut out);
        proof {
            let r2 = wire_table(f.piece_table);
            lemma_join(s1, wire_cut_data(f.cut_data), r2);
            lemma_join(s0, wire_header(f.file_header), wire_cut_data(f.cut_data) + r2);
            assert(s0 + f.encoded() =~= f.encoded());
        }
        Ok(out)
    }

    /// Reads a file. Fails with a short read where the input ends inside a
    /// field, and with a fault of the format where a tag names no variant,
    /// a count overruns the input, a text is not UTF-8, or bytes follow
    /// the file.
    pub fn decode(bytes: &[u8]) -> (r: Result<FcmFile, FcmError>)
        ensures
            match r {
                Ok(f) => decoded_file(bytes@) == Ok::<_, FcmError>(f@),
                Err(e) => decoded_file(bytes@) == Err::<FcmFileView, _>(e),
            },
    {
        let (file_header, at1) = match get_header(bytes, 0) {
            Err(e) => {
                return Err(e);
            },
            Ok(found) => found,
        };
        let (cut_data, at2) = match get_cut_data(bytes, at1) {
            Err(e) => {
                return Err(e);
            },
            Ok(found) => found,
        };
        let (piece_table, end) = match get_table(bytes, at2) {
            Err(e) => {
                return Err(e);
            },
            Ok(found) => found,
        };
        if end != bytes.len() {
            return Err(FcmError::TrailingBytes { offset: end, available: bytes.len() - end });
        }
        Ok(FcmFile { file_header, cut_data, piece_table })
    }
}

/// Written and read back, a file is what it was: whatever `decode` gives
/// for the bytes that `encode` gave for a file holds what that file holds.
pub proof fn lemma_round_trip(f: FcmFile, written: Result<Vec<u8>, FcmError>, read: Result<
    FcmFile,
    FcmError,
>)
    requires
        f@.encodable(),
        written matches Ok(bytes) && bytes@ == f@.encoded(),
        match read {
            Ok(g) => decoded_file(written->Ok_0@) == Ok::<_, FcmError>(g@),
            Err(e) => decoded_file(written->Ok_0@) == Err::<FcmFileView, _>(e),
        },
    ensures
        read matches Ok(g) && g@ == f@,
{
    let bytes = written->Ok_0;
    assert(bytes@.len() <= usize::MAX) by {
        let n = bytes.len();
    }
    lemma_decode_encode(f@);
}

} // verus!
