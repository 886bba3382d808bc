//! What a file holds: a header, the cut parameters and the pieces.
//!
//! Lengths are whole hundredths of a millimetre. The numbers of a placement
//! transform are kept as the bit patterns of 32-bit floating-point numbers,
//! which the container stores and never computes with.

use vstd::prelude::*;
use crate::geometry::{PathShape, PathShapeView, Point};

verus! {

/// The tool bit for cutting.
pub const TOOL_CUT: u32 = 1;

/// The tool bit for drawing.
pub const TOOL_DRAW: u32 = 2;

/// The tools a path is worked with, one bit for each.
#[derive(Clone, Copy, Debug, PartialEq, Eq, Structural)]
pub struct PathTool {
    pub bits: u32,
}

impl PathTool {
    /// The tool for cutting.
    pub fn cut() -> (r: PathTool)
        ensures
            r.bits == TOOL_CUT,
    {
        PathTool { bits: TOOL_CUT }
    }

    /// The tool for drawing.
    pub fn draw() -> (r: PathTool)
        ensures
            r.bits == TOOL_DRAW,
    {
        PathTool { bits: TOOL_DRAW }
    }

    /// The tools of `self` and those of `other` together.
    pub fn with(self, other: PathTool) -> (r: PathTool)
        ensures
            r.bits == self.bits | other.bits,
    {
        PathTool { bits: self.bits | other.bits }
    }

    /// Whether every tool of `other` is among those of `self`.
    pub fn has(self, other: PathTool) -> (r: bool)
        ensures
            r == (self.bits & other.bits == other.bits),
    {
        self.bits & other.bits == other.bits
    }
}

/// What may not be done to a piece, one bit for each.
#[derive(Clone, Copy, Debug, PartialEq, Eq, Structural)]
pub struct PieceRestrictions {
    pub bits: u32,
}

impl PieceRestrictions {
    /// No restriction.
    pub fn empty() -> (r: PieceRestrictions)
        ensures
            r.bits == 0,
    {
        PieceRestrictions { bits: 0 }
    }
}

/// A placement: the matrix `a b c d` and the shift `tx ty`, each the bit
/// pattern of a 32-bit floating-point number.
#[derive(Clone, Copy, Debug, PartialEq, Eq, Structural)]
pub struct Transform {
    pub a: u32,
    pub b: u32,
    pub c: u32,
    pub d: u32,
    pub tx: u32,
    pub ty: u32,
}

/// One path of a piece: the tools, the shape if it has one, and
/// rhinestones.
#[derive(Clone, Debug, PartialEq, Eq)]
pub struct Path {
    pub tool: PathTool,
    pub shape: Option<PathShape>,
    pub rhinestone_diameter: Option<u32>,
    pub rhinestones: Vec<Point>,
}

/// What a [`Path`] holds.
pub struct PathView {
    pub tool: PathTool,
    pub shape: Option<PathShapeView>,
    pub rhinestone_diameter: Option<u32>,
    pub rhinestones: Seq<Point>,
}

impl View for Path {
    type V = PathView;

    open spec fn view(&self) -> PathView {
        PathView {
            tool: self.tool,
            shape: match self.shape {
                Some(s) => Some(s@),
                None => None,
            },
            rhinestone_diameter: self.rhinestone_diameter,
            rhinestones: self.rhinestones@,
        }
    }
}

/// One unit that can be placed and cut.
#[derive(Clone, Debug, PartialEq, Eq)]
pub struct Piece {
    pub width: u32,
    pub height: u32,
    pub transform: Option<Transform>,
    pub expansion_limit_value: u32,
    pub reduction_limit_value: u32,
    pub restriction_flags: PieceRestrictions,
    pub label: String,
    pub paths: Vec<Path>,
}

/// What a [`Piece`] holds.
pub struct PieceView {
    pub width: u32,
    pub height: u32,
    pub transform: Option<Transform>,
    pub expansion_limit_value: u32,
    pub reduction_limit_value: u32,
    pub restriction_flags: PieceRestrictions,
    pub label: Seq<char>,
    pub paths: Seq<PathView>,
}

impl View for Piece {
    type V = PieceView;

    open spec fn view(&self) -> PieceView {
        PieceView {
            width: self.width,
            height: self.height,
            transform: self.transform,
            expansion_limit_value: self.expansion_limit_value,
            reduction_limit_value: self.reduction_limit_value,
            restriction_flags: self.restriction_flags,
            label: self.label@,
            paths: self.paths@.map_values(|p: Path| p@),
        }
    }
}

/// The pieces of a file with their identifiers, in the order in which they
/// were put in.
#[derive(Clone, Debug, PartialEq, Eq)]
pub struct PieceTable {
    pub pieces: Vec<(u32, Piece)>,
}

/// What a [`PieceTable`] holds.
pub struct PieceTableView {
    pub pieces: Seq<(u32, PieceView)>,
}

impl View for PieceTable {
    type V = PieceTableView;

    open spec fn view(&self) -> PieceTableView {
        PieceTableView { pieces: self.pieces@.map_values(|e: (u32, Piece)| e@) }
    }
}

impl PieceTableView {
    /// Whether no identifier stands twice.
    pub open spec fn ids_unique(self) -> bool {
        forall|i: int, j: int|
            0 <= i < j < self.pieces.len() ==> (#[trigger] self.pieces[i]).0 != (
            #[trigger] self.pieces[j]).0
    }

    /// Whether a piece stands under the identifier `id`.
    pub open spec fn has_id(self, id: u32) -> bool {
        exists|i: int| 0 <= i < self.pieces.len() && (#[trigger] self.pieces[i]).0 == id
    }
}

impl PieceTable {
    /// A table without pieces.
    pub fn new() -> (r: PieceTable)
        ensures
            r@.pieces.len() == 0,
            r@.ids_unique(),
    {
        PieceTable { pieces: Vec::new() }
    }

    /// Whether a piece stands under the identifier `id`.
    pub fn contains_id(&self, id: u32) -> (r: bool)
        ensures
            r == self@.has_id(id),
    {
        let mut i: usize = 0;
        while i < self.pieces.len()
            invariant
                i <= self.pieces@.len(),
                forall|k: int| 0 <= k < i ==> (#[trigger] self@.pieces[k]).0 != id,
            decreases self.pieces@.len() - i,
        {
            if self.pieces[i].0 == id {
                assert(self@.pieces[i as int].0 == id);
                return true;
            }
            i = i + 1;
        }
        false
    }

    /// Puts `piece` at the end of the table under `id`, unless a piece
    /// stands under `id` already: the table is then left as it is. Says
    /// whether the piece was put in.
    pub fn insert(&mut self, id: u32, piece: Piece) -> (r: bool)
        ensures
            r == !old(self)@.has_id(id),
            r ==> final(self)@.pieces == old(self)@.pieces.push((id, piece@)),
            !r ==> final(self)@ == old(self)@,
            old(self)@.ids_unique() ==> final(self)@.ids_unique(),
    {
        if self.contains_id(id) {
            return false;
        }
        self.pieces.push((id, piece));
        assert(self@.pieces =~= old(self)@.pieces.push((id, piece@)));
        true
    }

    /// Whether no identifier stands twice.
    pub fn has_unique_ids(&self) -> (r: bool)
        ensures
            r == self@.ids_unique(),
    {
        let mut j: usize = 0;
        while j < self.pieces.len()
            invariant
                j <= self.pieces@.len(),
                forall|a: int, b: int|
                    0 <= a < b < j ==> (#[trigger] self@.pieces[a]).0 != (
                    #[trigger] self@.pieces[b]).0,
            decreases self.pieces@.len() - j,
        {
            let mut i: usize = 0;
            while i < j
                invariant
                    i <= j < self.pieces@.len(),
                    forall|a: int| 0 <= a < i ==> (#[trigger] self@.pieces[a]).0 != self@.pieces[j as int].0,
                decreases j - i,
            {
                if self.pieces[i].0 == self.pieces[j].0 {
                    assert(self@.pieces[i as int].0 == self@.pieces[j as int].0);
                    return false;
                }
                i = i + 1;
            }
            j = j + 1;
        }
        true
    }
}

/// Where the registration marks stand, and whether the machine looks for
/// them.
#[derive(Clone, Debug, PartialEq, Eq)]
pub struct AlignmentData {
    pub needed: bool,
    pub marks: Vec<Point>,
}

/// What an [`AlignmentData`] holds.
pub struct AlignmentDataView {
    pub needed: bool,
    pub marks: Seq<Point>,
}

impl View for AlignmentData {
    type V = AlignmentDataView;

    open spec fn view(&self) -> AlignmentDataView {
        AlignmentDataView { needed: self.needed, marks: self.marks@ }
    }
}

/// What a file is for.
#[derive(Clone, Copy, Debug, PartialEq, Eq, Structural)]
pub enum FileType {
    Cut,
    PrintAndCut,
}

/// The cut parameters.
#[derive(Clone, Debug, PartialEq, Eq)]
pub struct CutData {
    pub file_type: FileType,
    pub mat_id: u32,
    pub cut_width: u32,
    pub cut_height: u32,
    pub seam_allowance_width: u32,
    pub alignment: Option<AlignmentData>,
}

/// What a [`CutData`] holds.
pub struct CutDataView {
    pub file_type: FileType,
    pub mat_id: u32,
    pub cut_width: u32,
    pub cut_height: u32,
    pub seam_allowance_width: u32,
    pub alignment: Option<AlignmentDataView>,
}

impl View for CutData {
    type V = CutDataView;

    open spec fn view(&self) -> CutDataView {
        CutDataView {
            file_type: self.file_type,
            mat_id: self.mat_id,
            cut_width: self.cut_width,
            cut_height: self.cut_height,
            seam_allowance_width: self.seam_allowance_width,
            alignment: match self.alignment {
                Some(a) => Some(a@),
                None => None,
            },
        }
    }
}

/// The two forms of the container.
#[derive(Clone, Copy, Debug, PartialEq, Eq, Structural)]
pub enum FileVariant {
    FCM,
    VCM,
}

/// What made a file, and in which version.
#[derive(Clone, Copy, Debug, PartialEq, Eq, Structural)]
pub enum Generator {
    App(u32),
    Web(u32),
}

/// The header of a file.
#[derive(Clone, Debug, PartialEq, Eq)]
pub struct FileHeader {
    pub variant: FileVariant,
    pub version: String,
    pub content_id: u32,
    pub short_name: String,
    pub long_name: String,
    pub author_name: String,
    pub copyright: String,
    pub thumbnail_block_size_width: u8,
    pub thumbnail_block_size_height: u8,
    pub thumbnail: Vec<u8>,
    pub generator: Generator,
    pub print_to_cut: Option<bool>,
}

/// What a [`FileHeader`] holds.
pub struct FileHeaderView {
    pub variant: FileVariant,
    pub version: Seq<char>,
    pub content_id: u32,
    pub short_name: Seq<char>,
    pub long_name: Seq<char>,
    pub author_name: Seq<char>,
    pub copyright: Seq<char>,
    pub thumbnail_block_size_width: u8,
    pub thumbnail_block_size_height: u8,
    pub thumbnail: Seq<u8>,
    pub generator: Generator,
    pub print_to_cut: Option<bool>,
}

impl View for FileHeader {
    type V = FileHeaderView;

    open spec fn view(&self) -> FileHeaderView {
        FileHeaderView {
            variant: self.variant,
            version: self.version@,
            content_id: self.content_id,
            short_name: self.short_name@,
            long_name: self.long_name@,
            author_name: self.author_name@,
            copyright: self.copyright@,
            thumbnail_block_size_width: self.thumbnail_block_size_width,
            thumbnail_block_size_height: self.thumbnail_block_size_height,
            thumbnail: self.thumbnail@,
            generator: self.generator,
            print_to_cut: self.print_to_cut,
        }
    }
}

/// A whole file.
#[derive(Clone, Debug, PartialEq, Eq)]
pub struct FcmFile {
    pub file_header: FileHeader,
    pub cut_data: CutData,
    pub piece_table: PieceTable,
}

/// What an [`FcmFile`] holds.
pub struct FcmFileView {
    pub file_header: FileHeaderView,
    pub cut_data: CutDataView,
    pub piece_table: PieceTableView,
}

impl View for FcmFile {
    type V = FcmFileView;

    open spec fn view(&self) -> FcmFileView {
        FcmFileView {
            file_header: self.file_header@,
            cut_data: self.cut_data@,
            piece_table: self.piece_table@,
        }
    }
}

impl FcmFileView {
    /// Whether the parts of the file agree on print-and-cut: the cut data
    /// carries registration marks exactly when the file is for
    /// print-and-cut, and the header says print-to-cut exactly then.
    pub open spec fn consistent(self) -> bool {
        &&& (self.cut_data.file_type is PrintAndCut) == (self.cut_data.alignment is Some)
        &&& (self.file_header.print_to_cut == Some(true)) == (self.cut_data.alignment is Some)
    }
}

impl FcmFile {
    /// A file for cutting only: no registration marks, and a header that
    /// does not say print-to-cut.
    pub fn for_cut(
        file_header: FileHeader,
        mat_id: u32,
        cut_width: u32,
        cut_height: u32,
        seam_allowance_width: u32,
        piece_table: PieceTable,
    ) -> (r: FcmFile)
        ensures
            r@.consistent(),
            r@.file_header == (FileHeaderView { print_to_cut: None, ..file_header@ }),
            r@.cut_data == (CutDataView {
                file_type: FileType::Cut,
                mat_id,
                cut_width,
                cut_height,
                seam_allowance_width,
                alignment: None,
            }),
            r@.piece_table == piece_table@,
    {
        let mut file_header = file_header;
        file_header.print_to_cut = None;
        FcmFile {
            file_header,
            cut_data: CutData {
                file_type: FileType::Cut,
                mat_id,
                cut_width,
                cut_height,
                seam_allowance_width,
                alignment: None,
            },
            piece_table,
        }
    }

    /// A file for print-and-cut: the registration marks `marks`, which the
    /// machine is to look for, and a header that says print-to-cut.
    pub fn for_print_and_cut(
        file_header: FileHeader,
        mat_id: u32,
        cut_width: u32,
        cut_height: u32,
        seam_allowance_width: u32,
        marks: Vec<Point>,
        piece_table: PieceTable,
    ) -> (r: FcmFile)
        ensures
            r@.consistent(),
            r@.file_header == (FileHeaderView { print_to_cut: Some(true), ..file_header@ }),
            r@.cut_data == (CutDataView {
                file_type: FileType::PrintAndCut,
                mat_id,
                cut_width,
                cut_height,
                seam_allowance_width,
                alignment: Some(AlignmentDataView { needed: true, marks: marks@ }),
            }),
            r@.piece_table == piece_table@,
    {
        let mut file_header = file_header;
        file_header.print_to_cut = Some(true);
        FcmFile {
            file_header,
            cut_data: CutData {
                file_type: FileType::PrintAndCut,
                mat_id,
                cut_width,
                cut_height,
                seam_allowance_width,
                alignment: Some(AlignmentData { needed: true, marks }),
            },
            piece_table,
        }
    }

    /// Whether the parts of the file agree on print-and-cut.
    pub fn is_consistent(&self) -> (r: bool)
        ensures
            r == self@.consistent(),
    {
        let marked: bool = self.cut_data.alignment.is_some();
        let for_print: bool = match self.cut_data.file_type {
            FileType::PrintAndCut => true,
            FileType::Cut => false,
        };
        let flagged: bool = match self.file_header.print_to_cut {
            Some(b) => b,
            None => false,
        };
        for_print == marked && flagged == marked
    }
}

} // verus!
