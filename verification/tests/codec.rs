use fcmlib::{
    AlignmentData, CutData, FcmError, FcmFile, FileHeader, FileType, FileVariant, Generator,
    Outline, Path, PathShape, PathTool, Piece, PieceRestrictions, PieceTable, Point,
    SegmentBezier, SegmentLine, Transform,
};

fn header() -> FileHeader {
    FileHeader {
        variant: FileVariant::VCM,
        version: String::from("0100"),
        content_id: 400000002,
        short_name: String::new(),
        long_name: String::from(" "),
        author_name: String::from("J\u{fc}rgen \u{2702}"),
        copyright: String::new(),
        thumbnail_block_size_width: 3,
        thumbnail_block_size_height: 3,
        thumbnail: vec![0, 1, 2, 3, 4, 5, 6, 7, 255],
        generator: Generator::App(1),
        print_to_cut: Some(true),
    }
}

fn piece() -> Piece {
    Piece {
        width: 2646,
        height: 2646,
        transform: Some(Transform {
            a: 1.0f32.to_bits(),
            b: 0,
            c: 0,
            d: 1.0f32.to_bits(),
            tx: 1323.0f32.to_bits(),
            ty: (-1323.5f32).to_bits(),
        }),
        expansion_limit_value: 0,
        reduction_limit_value: 7,
        restriction_flags: PieceRestrictions::empty(),
        label: String::from("piece"),
        paths: vec![
            Path {
                tool: PathTool { bits: 3 },
                shape: Some(PathShape {
                    start: Point { x: -1323, y: -1323 },
                    outlines: vec![
                        Outline::Line(vec![
                            SegmentLine { end: Point { x: 1323, y: -1323 } },
                            SegmentLine { end: Point { x: i32::MAX, y: i32::MIN } },
                        ]),
                        Outline::Bezier(vec![SegmentBezier {
                            control1: Point { x: 1, y: 2 },
                            control2: Point { x: 3, y: 4 },
                            end: Point { x: 5, y: -6 },
                        }]),
                        Outline::Line(vec![]),
                    ],
                }),
                rhinestone_diameter: None,
                rhinestones: vec![],
            },
            Path {
                tool: PathTool { bits: 4 },
                shape: None,
                rhinestone_diameter: Some(300),
                rhinestones: vec![Point { x: 1, y: 1 }, Point { x: -2, y: 2 }],
            },
        ],
    }
}

fn file() -> FcmFile {
    FcmFile {
        file_header: header(),
        cut_data: CutData {
            file_type: FileType::PrintAndCut,
            mat_id: 0,
            cut_width: 21590,
            cut_height: 27940,
            seam_allowance_width: 2000,
            alignment: Some(AlignmentData {
                needed: true,
                marks: vec![
                    Point { x: 1200, y: 1398 },
                    Point { x: 20390, y: 1398 },
                    Point { x: 20390, y: 26542 },
                    Point { x: 1200, y: 26542 },
                ],
            }),
        },
        piece_table: PieceTable { pieces: vec![(0, piece()), (7, piece()), (3, piece())] },
    }
}

fn small() -> FcmFile {
    FcmFile {
        file_header: FileHeader {
            variant: FileVariant::FCM,
            version: String::from("01"),
            content_id: 0x0102_0304,
            short_name: String::new(),
            long_name: String::new(),
            author_name: String::new(),
            copyright: String::new(),
            thumbnail_block_size_width: 2,
            thumbnail_block_size_height: 1,
            thumbnail: vec![0xaa, 0xbb],
            generator: Generator::Web(258),
            print_to_cut: None,
        },
        cut_data: CutData {
            file_type: FileType::Cut,
            mat_id: 1,
            cut_width: 2,
            cut_height: 3,
            seam_allowance_width: 4,
            alignment: None,
        },
        piece_table: PieceTable { pieces: vec![] },
    }
}

fn small_bytes() -> Vec<u8> {
    vec![
        0, // variant
        2, 0, 0, 0, b'0', b'1', // version
        4, 3, 2, 1, // content id
        0, 0, 0, 0, // short name
        0, 0, 0, 0, // long name
        0, 0, 0, 0, // author
        0, 0, 0, 0, // copyright
        2, 1, 0xaa, 0xbb, // thumbnail
        1, 2, 1, 0, 0, // generator
        0, // print to cut
        0, // file type
        1, 0, 0, 0, 2, 0, 0, 0, 3, 0, 0, 0, 4, 0, 0, 0, // mat, width, height, seam
        0, // alignment
        0, 0, 0, 0, // pieces
    ]
}

#[test]
fn round_trip() {
    let f = file();
    let bytes = f.encode().unwrap();
    assert_eq!(FcmFile::decode(&bytes), Ok(f));
}

#[test]
fn round_trip_of_a_small_file() {
    let f = small();
    let bytes = f.encode().unwrap();
    assert_eq!(FcmFile::decode(&bytes), Ok(f));
}

#[test]
fn bytes_of_a_small_file() {
    assert_eq!(small().encode().unwrap(), small_bytes());
    assert_eq!(FcmFile::decode(&small_bytes()), Ok(small()));
}

#[test]
fn bytes_of_a_piece_table() {
    let mut f = small();
    f.piece_table.pieces.push((
        9,
        Piece {
            width: 1,
            height: 2,
            transform: None,
            expansion_limit_value: 3,
            reduction_limit_value: 4,
            restriction_flags: PieceRestrictions { bits: 5 },
            label: String::from("\u{e9}"),
            paths: vec![Path {
                tool: PathTool { bits: 1 },
                shape: Some(PathShape {
                    start: Point { x: -1, y: 256 },
                    outlines: vec![Outline::Bezier(vec![])],
                }),
                rhinestone_diameter: Some(6),
                rhinestones: vec![],
            }],
        },
    ));
    let bytes = f.encode().unwrap();
    let table = &bytes[small_bytes().len() - 4..];
    assert_eq!(
        table,
        &[
            1, 0, 0, 0, // pieces
            9, 0, 0, 0, // id
            1, 0, 0, 0, 2, 0, 0, 0, // width, height
            0, // transform
            3, 0, 0, 0, 4, 0, 0, 0, 5, 0, 0, 0, // limits, flags
            2, 0, 0, 0, 0xc3, 0xa9, // label
            1, 0, 0, 0, // paths
            1, 0, 0, 0, // tool
            1, // shape
            0xff, 0xff, 0xff, 0xff, 0, 1, 0, 0, // start
            1, 0, 0, 0, // outlines
            1, 0, 0, 0, 0, // curves, none
            1, 6, 0, 0, 0, // diameter
            0, 0, 0, 0, // rhinestones
        ][..]
    );
    assert_eq!(FcmFile::decode(&bytes), Ok(f));
}

#[test]
fn short_reads() {
    assert_eq!(
        FcmFile::decode(&[]),
        Err(FcmError::UnexpectedEof { offset: 0, expected: 1, available: 0 })
    );
    assert_eq!(
        FcmFile::decode(&[0, 2, 0]),
        Err(FcmError::UnexpectedEof { offset: 1, expected: 4, available: 2 })
    );
    let bytes = small_bytes();
    // Inside the thumbnail.
    assert_eq!(
        FcmFile::decode(&bytes[..30]),
        Err(FcmError::UnexpectedEof { offset: 29, expected: 2, available: 1 })
    );
    // In front of the piece table.
    assert_eq!(
        FcmFile::decode(&bytes[..bytes.len() - 4]),
        Err(FcmError::UnexpectedEof { offset: 55, expected: 4, available: 0 })
    );
    for cut in 0..bytes.len() {
        match FcmFile::decode(&bytes[..cut]) {
            Err(e) => assert!(e.is_io() || matches!(e, FcmError::CountOverrun { .. })),
            Ok(_) => panic!("a cut file was read"),
        }
    }
}

#[test]
fn unknown_tags() {
    let mut bytes = small_bytes();
    bytes[0] = 2;
    assert_eq!(FcmFile::decode(&bytes), Err(FcmError::UnknownTag { offset: 0, tag: 2 }));
    assert!(!FcmError::UnknownTag { offset: 0, tag: 2 }.is_io());
    let mut bytes = small_bytes();
    bytes[31] = 9;
    assert_eq!(FcmFile::decode(&bytes), Err(FcmError::UnknownTag { offset: 31, tag: 9 }));
    let mut bytes = small_bytes();
    bytes[36] = 2;
    assert_eq!(FcmFile::decode(&bytes), Err(FcmError::UnknownTag { offset: 36, tag: 2 }));
    let mut bytes = small_bytes();
    bytes[37] = 7;
    assert_eq!(FcmFile::decode(&bytes), Err(FcmError::UnknownTag { offset: 37, tag: 7 }));
    let mut bytes = small_bytes();
    bytes[54] = 3;
    assert_eq!(FcmFile::decode(&bytes), Err(FcmError::UnknownTag { offset: 54, tag: 3 }));
}

#[test]
fn counts_that_overrun() {
    let mut bytes = small_bytes();
    let at = bytes.len() - 4;
    bytes[at] = 1;
    assert_eq!(
        FcmFile::decode(&bytes),
        Err(FcmError::CountOverrun { offset: at, expected: 1, available: 0 })
    );
    let mut bytes = small_bytes();
    bytes[1] = 200;
    assert_eq!(
        FcmFile::decode(&bytes),
        Err(FcmError::CountOverrun { offset: 1, expected: 200, available: 54 })
    );
}

#[test]
fn text_that_is_not_utf8() {
    let mut bytes = small_bytes();
    bytes[5] = 0xff;
    assert_eq!(FcmFile::decode(&bytes), Err(FcmError::InvalidText { offset: 1 }));
}

#[test]
fn trailing_bytes() {
    let mut bytes = small_bytes();
    bytes.push(0);
    bytes.push(0);
    assert_eq!(
        FcmFile::decode(&bytes),
        Err(FcmError::TrailingBytes { offset: 59, available: 2 })
    );
}

#[test]
fn thumbnail_of_the_wrong_size_cannot_be_written() {
    let mut f = small();
    f.file_header.thumbnail.push(0);
    assert!(!f.is_encodable());
    assert_eq!(f.encode(), Err(FcmError::Unencodable));
    f.file_header.thumbnail_block_size_height = 0;
    f.file_header.thumbnail = vec![];
    assert!(f.is_encodable());
    assert_eq!(FcmFile::decode(&f.encode().unwrap()), Ok(f));
}

#[test]
fn largest_thumbnail() {
    let mut f = small();
    f.file_header.thumbnail_block_size_width = 255;
    f.file_header.thumbnail_block_size_height = 255;
    f.file_header.thumbnail = vec![7; 255 * 255];
    assert_eq!(FcmFile::decode(&f.encode().unwrap()), Ok(f));
}

#[test]
fn consistency() {
    assert!(file().is_consistent());
    assert!(small().is_consistent());
    let mut f = file();
    f.file_header.print_to_cut = Some(false);
    assert!(!f.is_consistent());
    let mut f = file();
    f.file_header.print_to_cut = None;
    assert!(!f.is_consistent());
    let mut f = small();
    f.file_header.print_to_cut = Some(false);
    assert!(f.is_consistent());
    let mut f = small();
    f.file_header.print_to_cut = Some(true);
    assert!(!f.is_consistent());
    let mut f = small();
    f.cut_data.file_type = FileType::PrintAndCut;
    assert!(!f.is_consistent());
}

#[test]
fn a_file_that_is_not_consistent_can_still_be_written_and_read() {
    let mut f = file();
    f.cut_data.alignment = None;
    assert!(!f.is_consistent());
    let bytes = f.encode().unwrap();
    assert_eq!(FcmFile::decode(&bytes), Ok(f));
}

#[test]
fn made_files_are_consistent() {
    let marks = vec![Point { x: 1200, y: 1398 }];
    let made = FcmFile::for_print_and_cut(
        small().file_header,
        1,
        21590,
        27940,
        0,
        marks.clone(),
        PieceTable { pieces: vec![(0, piece())] },
    );
    assert!(made.is_consistent());
    assert_eq!(made.file_header.print_to_cut, Some(true));
    assert_eq!(made.file_header.version, "01");
    assert_eq!(made.cut_data.file_type, FileType::PrintAndCut);
    assert_eq!(made.cut_data.alignment, Some(AlignmentData { needed: true, marks }));
    assert_eq!(made.cut_data.cut_width, 21590);
    assert_eq!(made.piece_table.pieces.len(), 1);
    let made = FcmFile::for_cut(header(), 1, 2, 3, 4, PieceTable { pieces: vec![] });
    assert!(made.is_consistent());
    assert_eq!(made.file_header.print_to_cut, None);
    assert_eq!(made.cut_data.alignment, None);
    assert_eq!(made.cut_data.file_type, FileType::Cut);
    assert_eq!(made.cut_data.seam_allowance_width, 4);
    assert_eq!(FcmFile::decode(&made.encode().unwrap()), Ok(made));
}
