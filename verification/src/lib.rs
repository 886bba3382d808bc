//! Conversion of vector path descriptions into the geometry of a cutting
//! machine file, and the binary container that stores that geometry.
//!
//! Lengths that come from artwork are decimal fixed-point numbers
//! ([`fixed::Fixed`]); lengths inside a file are whole hundredths of a
//! millimetre held in `i32`.
//!
//! A path description goes through three stages: [`lexer`] splits it into
//! tokens, [`command`] groups the tokens into commands, and
//! [`interpreter`] carries the commands out. [`svg_path`] puts the stages
//! together and converts the result to the units of a file. [`model`]
//! holds what a file is made of, and [`codec_file`] writes and reads it.

pub mod bounds;
pub mod codec;
pub mod codec_file;
pub mod codec_shapes;
pub mod command;
pub mod decimal;
pub mod fixed;
pub mod geometry;
pub mod interpreter;
pub mod lexer;
pub mod model;
pub mod number;
pub mod registration_marks;
pub mod svg_path;
pub mod text;
pub mod wire;

pub use fixed::Fixed;
pub use geometry::{Outline, PathShape, Point, SegmentBezier, SegmentLine};
pub use model::{
    AlignmentData, CutData, FcmFile, FileHeader, FileType, FileVariant, Generator, Path, PathTool,
    Piece, PieceRestrictions, PieceTable, Transform,
};
pub use wire::FcmError;
