use qr_gen::config::{ECCLevel, Size};
use qr_gen::error::QrError;
use qr_gen::serialization::masking::{compute_mask_penalty_score_standard, compute_mask_score_micro};
use qr_gen::serialization::{
    apply_best_mask, apply_mask, compute_format_info_bits, create_alignment_pattern,
    create_alignment_pattern_coord_list, create_finder_pattern, create_qr_canvas,
    get_alignment_pattern_points, get_masking_function, insert_data_payload, insert_format_info,
    insert_version_info, Canvas, MaskPattern, Module,
};
use qr_gen::tables::lookup_capacity;

const FORMAT_INFOS_QR: [u16; 32] = [
    0x5412, 0x5125, 0x5e7c, 0x5b4b, 0x45f9, 0x40ce, 0x4f97, 0x4aa0, 0x77c4, 0x72f3, 0x7daa, 0x789d, 0x662f, 0x6318,
    0x6c41, 0x6976, 0x1689, 0x13be, 0x1ce7, 0x19d0, 0x0762, 0x0255, 0x0d0c, 0x083b, 0x355f, 0x3068, 0x3f31, 0x3a06,
    0x24b4, 0x2183, 0x2eda, 0x2bed,
];

const FORMAT_INFOS_MICRO_QR: [u16; 32] = [
    0x4445, 0x4172, 0x4e2b, 0x4b1c, 0x55ae, 0x5099, 0x5fc0, 0x5af7, 0x6793, 0x62a4, 0x6dfd, 0x68ca, 0x7678, 0x734f,
    0x7c16, 0x7921, 0x06de, 0x03e9, 0x0cb0, 0x0987, 0x1735, 0x1202, 0x1d5b, 0x186c, 0x2508, 0x203f, 0x2f66, 0x2a51,
    0x34e3, 0x31d4, 0x3e8d, 0x3bba,
];

const VERSION_INFOS: [u32; 34] = [
    0x07c94, 0x085bc, 0x09a99, 0x0a4d3, 0x0bbf6, 0x0c762, 0x0d847, 0x0e60d, 0x0f928, 0x10b78, 0x1145d, 0x12a17,
    0x13532, 0x149a6, 0x15683, 0x168c9, 0x177ec, 0x18ec4, 0x191e1, 0x1afab, 0x1b08e, 0x1cc1a, 0x1d33f, 0x1ed75,
    0x1f250, 0x209d5, 0x216f0, 0x228ba, 0x2379f, 0x24b0b, 0x2542e, 0x26a64, 0x27541, 0x28c69,
];

fn all_sizes() -> Vec<Size> {
    let mut sizes: Vec<Size> = (1..=4u8).map(Size::Micro).collect();
    sizes.extend((1..=40u8).map(Size::Standard));
    sizes
}

fn count(canvas: &Canvas, what: Module) -> usize {
    let side = canvas.width() as usize;
    let mut n = 0;
    for y in 0..side {
        for x in 0..side {
            if canvas.get(x, y) == what {
                n += 1;
            }
        }
    }
    n
}

// a canvas of a version 1 symbol whose 21 x 21 modules are given by a function of row and column
fn canvas_from(side: usize, quiet: usize, f: &dyn Fn(usize, usize) -> Module) -> Canvas {
    let mut canvas = Canvas::new(side + 2 * quiet, Module::QuietZone);
    for r in 0..side {
        for c in 0..side {
            canvas.put(quiet + c, quiet + r, f(r, c));
        }
    }
    canvas
}

fn create_masked_canvas(size: Size, pattern_index: u8) -> Canvas {
    // create canvas
    let mut canvas = create_qr_canvas(size);
    // retrieve pattern index
    let pattern = get_masking_function(pattern_index, size);
    let q = size.quiet_region_size() as usize;
    let side = canvas.width() as usize;
    // iterate over entire image and create mask in the encoding region
    for y in 0..side {
        for x in 0..side {
            if canvas.get(x, y) == Module::DataRegion {
                let m = if pattern.apply((y - q) as u32, (x - q) as u32) { Module::Dark } else { Module::Light };
                canvas.put(x, y, m);
            }
        }
    }
    canvas
}

#[test]
fn test_canvas_sizes() {
    assert_eq!(create_qr_canvas(Size::Micro(1)).dimensions(), (11+4, 11+4));
    assert_eq!(create_qr_canvas(Size::Micro(2)).dimensions(), (13+4, 13+4));
    assert_eq!(create_qr_canvas(Size::Micro(3)).dimensions(), (15+4, 15+4));
    assert_eq!(create_qr_canvas(Size::Micro(4)).dimensions(), (17+4, 17+4));
    assert_eq!(create_qr_canvas(Size::Standard(1)).dimensions(), (21+8, 21+8));
    assert_eq!(create_qr_canvas(Size::Standard(2)).dimensions(), (25+8, 25+8));
    assert_eq!(create_qr_canvas(Size::Standard(40)).dimensions(), (177+8, 177+8));
}

#[test]
fn test_canvas_dimensions_of_all_sizes() {
    for size in all_sizes() {
        let canvas = create_qr_canvas(size);
        let side = size.dimensions() + 2 * size.quiet_region_size();
        assert_eq!(canvas.dimensions(), (side, side));
        assert_eq!(canvas.width(), side);
        assert_eq!(canvas.height(), side);
    }
}

#[test]
fn test_standard() {
    let canvas = create_qr_canvas(Size::Standard(7));
    assert_eq!(canvas.dimensions(), (53, 53));
    // version 7 reserves two blocks of 18 cells for the version information
    assert_eq!(count(&canvas, Module::VersionReserved), 36);
    assert_eq!(count(&canvas, Module::FormatReserved), 30);
    // 196 codewords
    assert_eq!(count(&canvas, Module::DataRegion), 196 * 8);
}

#[test]
fn test_micro() {
    let canvas = create_qr_canvas(Size::Micro(3));
    assert_eq!(canvas.dimensions(), (19, 19));
    assert_eq!(count(&canvas, Module::VersionReserved), 0);
    assert_eq!(count(&canvas, Module::FormatReserved), 15);
    // 17 codewords, the last data codeword has four bits
    assert_eq!(count(&canvas, Module::DataRegion), 17 * 8 - 4);
}

#[test]
fn test_tableE1() {
    assert_eq!(create_alignment_pattern_coord_list(3), [6, 22]);
    assert_eq!(create_alignment_pattern_coord_list(10), [6, 28, 50]);
    assert_eq!(create_alignment_pattern_coord_list(15), [6, 26, 48, 70]);
    assert_eq!(create_alignment_pattern_coord_list(20), [6, 34, 62, 90]);
    assert_eq!(create_alignment_pattern_coord_list(27), [6, 34, 62, 90, 118]);
    assert_eq!(create_alignment_pattern_coord_list(33), [6, 30, 58, 86, 114, 142]);
    assert_eq!(create_alignment_pattern_coord_list(40), [6, 30, 58, 86, 114, 142, 170]);
}

#[test]
fn test_alignment_coordinates_end_at_the_symbol() {
    assert_eq!(create_alignment_pattern_coord_list(1), [6]);
    for v in 2..=40u8 {
        let list = create_alignment_pattern_coord_list(v);
        assert_eq!(list.len(), v as usize / 7 + 2);
        assert_eq!(list[0], 6);
        // the last centre lies six modules from the far edge
        assert_eq!(*list.last().unwrap(), 4 * v as i32 + 10);
        for pair in list.windows(2) {
            assert!(pair[1] - pair[0] >= 12);
        }
    }
}

#[test]
fn test_alignment_points() {
    assert_eq!(get_alignment_pattern_points(2), [(18, 18)]);
    assert_eq!(
        get_alignment_pattern_points(7),
        [(6, 22), (22, 6), (22, 22), (22, 38), (38, 22), (38, 38)]
    );
    for v in 2..=40u8 {
        let n = create_alignment_pattern_coord_list(v).len();
        assert_eq!(get_alignment_pattern_points(v).len(), n * n - 3);
    }
}

#[test]
fn test_finder_and_alignment_patterns() {
    let finder = create_finder_pattern();
    assert_eq!(finder.dimensions(), (9, 9));
    let rows = [
        ".........",
        ".#######.",
        ".#.....#.",
        ".#.###.#.",
        ".#.###.#.",
        ".#.###.#.",
        ".#.....#.",
        ".#######.",
        ".........",
    ];
    for (y, row) in rows.iter().enumerate() {
        for (x, ch) in row.chars().enumerate() {
            let expected = if ch == '#' { Module::Dark } else { Module::Light };
            assert_eq!(finder.get(x, y), expected);
        }
    }
    let alignment = create_alignment_pattern();
    assert_eq!(alignment.dimensions(), (5, 5));
    let rows = ["#####", "#...#", "#.#.#", "#...#", "#####"];
    for (y, row) in rows.iter().enumerate() {
        for (x, ch) in row.chars().enumerate() {
            let expected = if ch == '#' { Module::Dark } else { Module::Light };
            assert_eq!(alignment.get(x, y), expected);
        }
    }
}

#[test]
fn test_blank_canvas_version_1() {
    let canvas = create_qr_canvas(Size::Standard(1));
    let rows = [
        "#######.f????.#######",
        "#.....#.f????.#.....#",
        "#.###.#.f????.#.###.#",
        "#.###.#.f????.#.###.#",
        "#.###.#.f????.#.###.#",
        "#.....#.f????.#.....#",
        "#######.#.#.#.#######",
        "........f????........",
        "ffffff#ff????ffffffff",
        "??????.??????????????",
        "??????#??????????????",
        "??????.??????????????",
        "??????#??????????????",
        "........#????????????",
        "#######.f????????????",
        "#.....#.f????????????",
        "#.###.#.f????????????",
        "#.###.#.f????????????",
        "#.###.#.f????????????",
        "#.....#.f????????????",
        "#######.f????????????",
    ];
    for (r, row) in rows.iter().enumerate() {
        for (c, ch) in row.chars().enumerate() {
            let expected = match ch {
                '#' => Module::Dark,
                '.' => Module::Light,
                'f' => Module::FormatReserved,
                _ => Module::DataRegion,
            };
            assert_eq!(canvas.get(4 + c, 4 + r), expected, "row {} column {}", r, c);
        }
    }
    for i in 0..29 {
        for j in 0..4 {
            assert_eq!(canvas.get(i, j), Module::QuietZone);
            assert_eq!(canvas.get(j, i), Module::QuietZone);
            assert_eq!(canvas.get(i, 28 - j), Module::QuietZone);
            assert_eq!(canvas.get(28 - j, i), Module::QuietZone);
        }
    }
}

#[test]
fn test_blank_canvas_micro_2() {
    let canvas = create_qr_canvas(Size::Micro(2));
    let rows = [
        "#######.#.#.#",
        "#.....#.f????",
        "#.###.#.f????",
        "#.###.#.f????",
        "#.###.#.f????",
        "#.....#.f????",
        "#######.f????",
        "........f????",
        "#ffffffff????",
        ".????????????",
        "#????????????",
        ".????????????",
        "#????????????",
    ];
    for (r, row) in rows.iter().enumerate() {
        for (c, ch) in row.chars().enumerate() {
            let expected = match ch {
                '#' => Module::Dark,
                '.' => Module::Light,
                'f' => Module::FormatReserved,
                _ => Module::DataRegion,
            };
            assert_eq!(canvas.get(2 + c, 2 + r), expected, "row {} column {}", r, c);
        }
    }
    assert_eq!(count(&canvas, Module::QuietZone), 17 * 17 - 13 * 13);
}

#[test]
fn test_alignment_patterns_on_canvas() {
    // version 2 has one alignment pattern, centred at (18, 18)
    let canvas = create_qr_canvas(Size::Standard(2));
    let rows = ["#####", "#...#", "#.#.#", "#...#", "#####"];
    for (dy, row) in rows.iter().enumerate() {
        for (dx, ch) in row.chars().enumerate() {
            let expected = if ch == '#' { Module::Dark } else { Module::Light };
            assert_eq!(canvas.get(4 + 16 + dx, 4 + 16 + dy), expected);
        }
    }
    assert_eq!(canvas.get(4 + 15, 4 + 18), Module::DataRegion);
    // version 7: a pattern on the timing row, centred at column 22 of row 6
    let canvas = create_qr_canvas(Size::Standard(7));
    assert_eq!(canvas.get(4 + 22, 4 + 6), Module::Dark);
    assert_eq!(canvas.get(4 + 21, 4 + 6), Module::Light);
    assert_eq!(canvas.get(4 + 20, 4 + 6), Module::Dark);
    assert_eq!(canvas.get(4 + 22, 4 + 4), Module::Dark);
    assert_eq!(canvas.get(4 + 22, 4 + 5), Module::Light);
    assert_eq!(canvas.get(4 + 22, 4 + 8), Module::Dark);
    assert_eq!(canvas.get(4 + 22, 4 + 9), Module::DataRegion);
    // no pattern over the finders
    assert_eq!(canvas.get(4 + 6, 4 + 6), Module::Dark);
    assert_eq!(canvas.get(4 + 4, 4 + 4), Module::Dark);
    assert_eq!(canvas.get(4 + 38, 4 + 5), Module::Dark);
    assert_eq!(canvas.get(4 + 37, 4 + 5), Module::Light);
    assert_eq!(canvas.get(4 + 36, 4 + 5), Module::VersionReserved);
}

#[test]
fn test_encoding_region_holds_the_codewords_of_every_size() {
    for size in all_sizes() {
        let canvas = create_qr_canvas(size);
        let cells = count(&canvas, Module::DataRegion) as u32;
        let words = lookup_capacity(size, ECCLevel::L).codewords();
        let remainder = match size {
            Size::Micro(1) | Size::Micro(3) => 4,
            Size::Micro(_) => 0,
            Size::Standard(v) => match v {
                2..=6 => 7,
                14..=20 | 28..=34 => 3,
                21..=27 => 4,
                _ => 0,
            },
        };
        match size {
            Size::Micro(1) | Size::Micro(3) => assert_eq!(cells, 8 * words - 4),
            _ => assert_eq!(cells, 8 * words + remainder, "{:?}", size),
        }
    }
}

#[test]
fn masking_test_masks_micro() {
    for i in 0..4 {
        let canvas = create_masked_canvas(Size::Micro(4), i as u8);
        assert_eq!(canvas.dimensions(), (21, 21));
        assert_eq!(count(&canvas, Module::DataRegion), 0);
    }
}

#[test]
fn masking_test_masks_standard() {
    for i in 0..8 {
        let canvas = create_masked_canvas(Size::Standard(1), i as u8);
        assert_eq!(canvas.dimensions(), (29, 29));
        assert_eq!(count(&canvas, Module::DataRegion), 0);
    }
    // pattern 0 is a checkerboard: the corner at row 20, column 20 is flipped
    let canvas = create_masked_canvas(Size::Standard(1), 0);
    assert_eq!(canvas.get(24, 24), Module::Dark);
    assert_eq!(canvas.get(23, 24), Module::Light);
    // pattern 2 flips every third column
    let canvas = create_masked_canvas(Size::Standard(1), 2);
    assert_eq!(canvas.get(4 + 18, 24), Module::Dark);
    assert_eq!(canvas.get(4 + 19, 24), Module::Light);
    assert_eq!(canvas.get(4 + 20, 24), Module::Light);
}

#[test]
fn test_mask_conditions() {
    let standard: [&dyn Fn(u32, u32) -> bool; 8] = [
        &|r, c| (r + c) % 2 == 0,
        &|r, _| r % 2 == 0,
        &|_, c| c % 3 == 0,
        &|r, c| (r + c) % 3 == 0,
        &|r, c| (r / 2 + c / 3) % 2 == 0,
        &|r, c| (r * c) % 2 + (r * c) % 3 == 0,
        &|r, c| ((r * c) % 2 + (r * c) % 3) % 2 == 0,
        &|r, c| ((r + c) % 2 + (r * c) % 3) % 2 == 0,
    ];
    let micro = [1usize, 4, 6, 7];
    for r in 0..30u32 {
        for c in 0..30u32 {
            for i in 0..8u8 {
                let pattern = get_masking_function(i, Size::Standard(3));
                assert_eq!(pattern.apply(r, c), standard[i as usize](r, c));
            }
            for i in 0..4u8 {
                let pattern = get_masking_function(i, Size::Micro(3));
                assert_eq!(pattern.apply(r, c), standard[micro[i as usize]](r, c));
            }
        }
    }
    assert_eq!(get_masking_function(0, Size::Standard(1)), MaskPattern::Pattern000);
    assert_eq!(get_masking_function(0, Size::Micro(1)), MaskPattern::Pattern001);
    assert_eq!(get_masking_function(3, Size::Micro(1)), MaskPattern::Pattern111);
}

#[test]
fn test_apply_mask_touches_the_encoding_region_only() {
    let size = Size::Standard(2);
    let marker = create_qr_canvas(size);
    for pattern in 0..8u8 {
        let mut symbol = create_qr_canvas(size);
        insert_data_payload(&mut symbol, size, &[0u8; 34], &[0u8; 10]).unwrap();
        let before = symbol.duplicate();
        apply_mask(&mut symbol, pattern, size, &marker);
        let condition = get_masking_function(pattern, size);
        for y in 0..33usize {
            for x in 0..33usize {
                if marker.get(x, y) == Module::DataRegion {
                    let flip = condition.apply(y as u32 - 4, x as u32 - 4);
                    // the payload is all zero: a flipped module is dark
                    let expected = if flip { Module::Dark } else { Module::Light };
                    assert_eq!(symbol.get(x, y), expected);
                } else {
                    assert_eq!(symbol.get(x, y), before.get(x, y));
                }
            }
        }
        // masking twice gives the symbol back
        apply_mask(&mut symbol, pattern, size, &marker);
        assert_eq!(symbol, before);
    }
}

#[test]
fn test_penalty_of_a_light_symbol() {
    let canvas = canvas_from(21, 4, &|_, _| Module::Light);
    // 42 lines with a run of 21, 400 blocks, no dark module
    assert_eq!(compute_mask_penalty_score_standard(&canvas), 42 * 19 + 400 * 3 + 100);
}

#[test]
fn test_penalty_of_a_checkerboard() {
    let canvas = canvas_from(21, 4, &|r, c| if (r + c) % 2 == 0 { Module::Dark } else { Module::Light });
    assert_eq!(compute_mask_penalty_score_standard(&canvas), 0);
}

#[test]
fn test_penalty_of_a_finder_like_pattern() {
    let canvas = canvas_from(21, 4, &|r, c| {
        if r == 0 && [0, 2, 3, 4, 6].contains(&c) { Module::Dark } else { Module::Light }
    });
    // runs in rows 12 + 20 * 19, runs in columns 5 * 18 + 16 * 19, 393 blocks,
    // one pattern, 5 dark modules of 441
    assert_eq!(compute_mask_penalty_score_standard(&canvas), 392 + 394 + 393 * 3 + 40 + 90);
}

#[test]
fn test_penalty_of_patterns_with_and_without_clear_modules() {
    // the pattern in the middle of a row, dark modules on both sides
    let canvas = canvas_from(21, 4, &|r, c| {
        if r == 10 && [3, 7, 9, 10, 11, 13, 17].contains(&c) { Module::Dark } else { Module::Light }
    });
    let with_pattern = compute_mask_penalty_score_standard(&canvas);
    // take the dark module behind the pattern away: four clear modules follow
    let canvas = canvas_from(21, 4, &|r, c| {
        if r == 10 && [3, 7, 9, 10, 11, 13].contains(&c) { Module::Dark } else { Module::Light }
    });
    let with_clear = compute_mask_penalty_score_standard(&canvas);
    // rows: 3 L, D, 3 L, D, L, DDD, L, D, 3 L, D, 3 L against ... D, 7 L
    // columns: column 17 is split into runs of 10 against one run of 21
    // blocks: two blocks of rows 9 and 10 and two of rows 10 and 11 come back
    // balance: 7 against 6 dark modules, nine steps both
    assert_eq!(with_clear as i64 - with_pattern as i64, 40 + 5 + (19 - 2 * 8) + 4 * 3);
}

#[test]
fn test_micro_score() {
    // side 11: the right column below its top two modules and the bottom row
    // right of its leftmost two modules
    let canvas = canvas_from(11, 2, &|r, c| {
        if (c == 10 && r >= 5) || (r == 10 && c >= 8) || (c == 10 && r < 2) || (r == 10 && c < 2) {
            Module::Dark
        } else {
            Module::Light
        }
    });
    // six dark modules in the column, three in the row, the corner in both
    assert_eq!(compute_mask_score_micro(&canvas), 16 * 3 + 6);
    let canvas = canvas_from(11, 2, &|_, _| Module::Dark);
    assert_eq!(compute_mask_score_micro(&canvas), 16 * 9 + 9);
    let canvas = canvas_from(11, 2, &|_, _| Module::Light);
    assert_eq!(compute_mask_score_micro(&canvas), 0);
}

#[test]
fn test_best_mask_has_the_least_penalty() {
    for (size, data, ecc) in [(Size::Standard(1), 16usize, 10usize), (Size::Standard(3), 55, 15)] {
        let marker = create_qr_canvas(size);
        let mut symbol = create_qr_canvas(size);
        let data: Vec<u8> = (0..data).map(|i| (i * 29 + 7) as u8).collect();
        let ecc: Vec<u8> = (0..ecc).map(|i| (i * 101 + 3) as u8).collect();
        insert_data_payload(&mut symbol, size, &data, &ecc).unwrap();
        let (best, masked) = apply_best_mask(&symbol, size);
        let mut scores = Vec::new();
        for pattern in 0..8u8 {
            let mut copy = symbol.duplicate();
            apply_mask(&mut copy, pattern, size, &marker);
            scores.push(compute_mask_penalty_score_standard(&copy));
            if pattern == best {
                assert_eq!(copy, masked);
            }
        }
        let least = *scores.iter().min().unwrap();
        assert_eq!(scores[best as usize], least);
        assert_eq!(scores.iter().position(|&s| s == least), Some(best as usize));
    }
}

#[test]
fn test_best_mask_of_a_micro_symbol_has_the_greatest_score() {
    let size = Size::Micro(2);
    let marker = create_qr_canvas(size);
    let mut symbol = create_qr_canvas(size);
    insert_data_payload(&mut symbol, size, &[0x5A, 0x13, 0xC7, 0x08, 0xEE], &[1, 2, 3, 4, 5]).unwrap();
    let (best, masked) = apply_best_mask(&symbol, size);
    let mut scores = Vec::new();
    for pattern in 0..4u8 {
        let mut copy = symbol.duplicate();
        apply_mask(&mut copy, pattern, size, &marker);
        scores.push(compute_mask_score_micro(&copy));
    }
    let greatest = *scores.iter().max().unwrap();
    assert_eq!(scores[best as usize], greatest);
    // of masks with the same score the last is taken
    assert_eq!(scores.iter().rposition(|&s| s == greatest), Some(best as usize));
    let mut copy = symbol.duplicate();
    apply_mask(&mut copy, best, size, &marker);
    assert_eq!(copy, masked);
}

#[test]
fn test_mask_tie_is_resolved_by_the_lowest_index() {
    // the penalties are computed for all eight masks, and of the masks with
    // the least penalty the first is taken
    for fill in [0x00u8, 0xFF, 0x55, 0x0F] {
        let size = Size::Standard(1);
        let marker = create_qr_canvas(size);
        let mut symbol = create_qr_canvas(size);
        insert_data_payload(&mut symbol, size, &[fill; 19], &[fill; 7]).unwrap();
        let (best, _) = apply_best_mask(&symbol, size);
        let scores: Vec<u32> = (0..8u8)
            .map(|p| {
                let mut copy = symbol.duplicate();
                apply_mask(&mut copy, p, size, &marker);
                compute_mask_penalty_score_standard(&copy)
            })
            .collect();
        let least = *scores.iter().min().unwrap();
        assert_eq!(best as usize, scores.iter().position(|&s| s == least).unwrap());
    }
    let size = Size::Micro(1);
    let mut symbol = create_qr_canvas(size);
    insert_data_payload(&mut symbol, size, &[], &[]).unwrap();
    let (best, _) = apply_best_mask(&symbol, size);
    // of the masks of a Micro symbol with the same score the last is taken
    let marker = create_qr_canvas(size);
    let scores: Vec<u32> = (0..4u8)
        .map(|p| {
            let mut copy = symbol.duplicate();
            apply_mask(&mut copy, p, size, &marker);
            compute_mask_score_micro(&copy)
        })
        .collect();
    let greatest = *scores.iter().max().unwrap();
    assert_eq!(best as usize, scores.iter().rposition(|&s| s == greatest).unwrap());
}

#[test]
fn test_format_info_tables() {
    let levels = [(ECCLevel::M, 0usize), (ECCLevel::L, 1), (ECCLevel::H, 2), (ECCLevel::Q, 3)];
    for (level, code) in levels {
        for mask in 0..8u8 {
            assert_eq!(
                compute_format_info_bits(Size::Standard(5), level, mask),
                FORMAT_INFOS_QR[code * 8 + mask as usize]
            );
        }
    }
    let symbols = [
        (1u8, ECCLevel::L),
        (2, ECCLevel::L),
        (2, ECCLevel::M),
        (3, ECCLevel::L),
        (3, ECCLevel::M),
        (4, ECCLevel::L),
        (4, ECCLevel::M),
        (4, ECCLevel::Q),
    ];
    for (number, (k, level)) in symbols.iter().enumerate() {
        for mask in 0..4u8 {
            assert_eq!(
                compute_format_info_bits(Size::Micro(*k), *level, mask),
                FORMAT_INFOS_MICRO_QR[number * 4 + mask as usize]
            );
        }
    }
}

#[test]
fn test_format_info_on_canvas() {
    let size = Size::Standard(1);
    let mut canvas = create_qr_canvas(size);
    insert_format_info(&mut canvas, size, ECCLevel::M, 5);
    let bits = FORMAT_INFOS_QR[5];
    let main = [
        (0, 8), (1, 8), (2, 8), (3, 8), (4, 8), (5, 8), (7, 8), (8, 8),
        (8, 7), (8, 5), (8, 4), (8, 3), (8, 2), (8, 1), (8, 0),
    ];
    let side = [
        (8, 20), (8, 19), (8, 18), (8, 17), (8, 16), (8, 15), (8, 14), (13, 8),
        (14, 8), (15, 8), (16, 8), (17, 8), (18, 8), (19, 8), (20, 8),
    ];
    for i in 0..15 {
        let expected = if (bits >> (14 - i)) & 1 == 1 { Module::Dark } else { Module::Light };
        assert_eq!(canvas.get(4 + main[i].0, 4 + main[i].1), expected);
        assert_eq!(canvas.get(4 + side[i].0, 4 + side[i].1), expected);
    }
    // the dark module
    assert_eq!(canvas.get(12, 17), Module::Dark);
    assert_eq!(count(&canvas, Module::FormatReserved), 0);
    // everything else is as before
    let blank = create_qr_canvas(size);
    assert_eq!(count(&canvas, Module::DataRegion), count(&blank, Module::DataRegion));

    let size = Size::Micro(4);
    let mut canvas = create_qr_canvas(size);
    insert_format_info(&mut canvas, size, ECCLevel::Q, 2);
    let bits = FORMAT_INFOS_MICRO_QR[7 * 4 + 2];
    let cells = [
        (1, 8), (2, 8), (3, 8), (4, 8), (5, 8), (6, 8), (7, 8), (8, 8),
        (8, 7), (8, 6), (8, 5), (8, 4), (8, 3), (8, 2), (8, 1),
    ];
    for i in 0..15 {
        let expected = if (bits >> (14 - i)) & 1 == 1 { Module::Dark } else { Module::Light };
        assert_eq!(canvas.get(2 + cells[i].0, 2 + cells[i].1), expected);
    }
    assert_eq!(count(&canvas, Module::FormatReserved), 0);
}

#[test]
fn test_version_info_on_canvas() {
    for v in [7u8, 8, 23, 40] {
        let size = Size::Standard(v);
        let dim = 4 * v as usize + 17;
        let mut canvas = create_qr_canvas(size);
        insert_version_info(&mut canvas, size);
        assert_eq!(count(&canvas, Module::VersionReserved), 0);
        let bits = VERSION_INFOS[v as usize - 7];
        // bit i of the 18 bits, the least significant being bit 0, stands in
        // row i / 3 and column i % 3 of the block beside the top-right finder
        for i in 0..18usize {
            let expected = if (bits >> i) & 1 == 1 { Module::Dark } else { Module::Light };
            assert_eq!(canvas.get(4 + dim - 11 + i % 3, 4 + i / 3), expected);
            assert_eq!(canvas.get(4 + i / 3, 4 + dim - 11 + i % 3), expected);
        }
    }
    // below version 7 nothing is written
    let size = Size::Standard(6);
    let mut canvas = create_qr_canvas(size);
    insert_version_info(&mut canvas, size);
    assert_eq!(canvas, create_qr_canvas(size));
    let size = Size::Micro(4);
    let mut canvas = create_qr_canvas(size);
    insert_version_info(&mut canvas, size);
    assert_eq!(canvas, create_qr_canvas(size));
}

#[test]
fn test_placement_order() {
    let size = Size::Standard(1);
    let mut canvas = create_qr_canvas(size);
    // bits 1000 0000, 0100 0000: cells 0 and 9 of the walk are dark
    let mut data = vec![0u8; 19];
    data[0] = 0x80;
    data[1] = 0x40;
    insert_data_payload(&mut canvas, size, &data, &[0xFF; 7]).unwrap();
    // the walk starts in the bottom-right corner and goes up in two columns
    assert_eq!(canvas.get(4 + 20, 4 + 20), Module::Dark);
    assert_eq!(canvas.get(4 + 19, 4 + 20), Module::Light);
    assert_eq!(canvas.get(4 + 20, 4 + 19), Module::Light);
    // cell 9 is the left cell of the fifth row from the bottom
    assert_eq!(canvas.get(4 + 19, 4 + 16), Module::Dark);
    assert_eq!(canvas.get(4 + 20, 4 + 16), Module::Light);
    // the first strip ends at row 9, the second starts there and goes down
    assert_eq!(canvas.get(4 + 20, 4 + 9), Module::Light);
    assert_eq!(count(&canvas, Module::DataRegion), 0);
    // the error correction bits are all one: the last cells of the walk, in
    // the columns left of the timing pattern, are dark
    assert_eq!(canvas.get(4 + 0, 4 + 9), Module::Dark);
    assert_eq!(canvas.get(4 + 1, 4 + 12), Module::Dark);
    assert_eq!(canvas.get(4 + 5, 4 + 9), Module::Dark);
    // 8 * 19 data bits with two ones, 56 ones behind them
    assert_eq!(count(&canvas, Module::Dark), count(&create_qr_canvas(size), Module::Dark) + 2 + 56);
}

#[test]
fn test_placement_skips_the_timing_column() {
    // with all bits one every cell of the encoding region becomes dark, and
    // nothing else changes
    for size in [Size::Standard(2), Size::Standard(7), Size::Micro(4)] {
        let blank = create_qr_canvas(size);
        let mut canvas = create_qr_canvas(size);
        let words = lookup_capacity(size, ECCLevel::L);
        let data = vec![0xFFu8; words.data_codewords() as usize];
        let ecc = vec![0xFFu8; words.ecc_words() as usize];
        insert_data_payload(&mut canvas, size, &data, &ecc).unwrap();
        let side = canvas.width() as usize;
        let mut light = 0;
        for y in 0..side {
            for x in 0..side {
                if blank.get(x, y) == Module::DataRegion {
                    if canvas.get(x, y) == Module::Light {
                        light += 1;
                    } else {
                        assert_eq!(canvas.get(x, y), Module::Dark);
                    }
                } else {
                    assert_eq!(canvas.get(x, y), blank.get(x, y));
                }
            }
        }
        // the remainder bits stay light
        let remainder = match size {
            Size::Standard(2) => 7,
            _ => 0,
        };
        assert_eq!(light, remainder);
    }
}

#[test]
fn test_placement_walk_in_standard_symbol_left_of_timing() {
    // version 1, a single one bit as the last bit of the stream: it lands
    // on the last cell of the walk, column 0 of row 9
    let size = Size::Standard(1);
    let mut canvas = create_qr_canvas(size);
    let mut ecc = vec![0u8; 7];
    ecc[6] = 0x01;
    insert_data_payload(&mut canvas, size, &[0u8; 19], &ecc).unwrap();
    // 208 cells: strips (20,19) .. (8,7), then (5,4), (3,2), (1,0); the last
    // strip goes down from row 9 to row 12 and ends in column 0
    assert_eq!(canvas.get(4 + 0, 4 + 12), Module::Dark);
    assert_eq!(count(&canvas, Module::Dark), count(&create_qr_canvas(size), Module::Dark) + 1);
    // the bit before it stands right of it
    let mut canvas = create_qr_canvas(size);
    ecc[6] = 0x02;
    insert_data_payload(&mut canvas, size, &[0u8; 19], &ecc).unwrap();
    assert_eq!(canvas.get(4 + 1, 4 + 12), Module::Dark);
    // the first bit behind the strip of columns 8 and 7 stands in column 5
    let mut canvas = create_qr_canvas(size);
    let mut data = vec![0u8; 19];
    let mut ecc = vec![0u8; 7];
    // strips 0 to 3 hold 4 * 24 cells, strips 4 and 5 hold 2 * 40 cells, strip
    // 6 of columns 8 and 7 holds 8 cells: cell 184 is the first of strip 7
    let index = 184;
    if index / 8 < 19 {
        data[index / 8] = 0x80 >> (index % 8);
    } else {
        ecc[index / 8 - 19] = 0x80 >> (index % 8);
    }
    insert_data_payload(&mut canvas, size, &data, &ecc).unwrap();
    // strip 7 is walked downward, from row 9
    assert_eq!(canvas.get(4 + 5, 4 + 9), Module::Dark);
}

#[test]
fn test_placement_half_codeword() {
    // M1: three data codewords, the last with four bits, and two ecc codewords
    let size = Size::Micro(1);
    let mut canvas = create_qr_canvas(size);
    // the low four bits of the last data codeword are not placed
    insert_data_payload(&mut canvas, size, &[0x00, 0x00, 0x0F], &[0x80, 0x00]).unwrap();
    let blank = create_qr_canvas(size);
    assert_eq!(count(&canvas, Module::DataRegion), 0);
    assert_eq!(count(&canvas, Module::Dark), count(&blank, Module::Dark) + 1);
    // cell 20 of the walk: the first strip holds 2 x 10 cells at rows 1 to 10;
    // the second strip goes down and meets its first free cell below the
    // format information, in row 9 of column 8
    assert_eq!(canvas.get(2 + 8, 2 + 9), Module::Dark);
}

#[test]
fn test_placement_rejects_too_many_bits() {
    let size = Size::Standard(1);
    let mut canvas = create_qr_canvas(size);
    assert_eq!(
        insert_data_payload(&mut canvas, size, &[0xFFu8; 20], &[0xFFu8; 7]),
        Err(QrError::InternalInvariantViolated)
    );
    assert_eq!(canvas, create_qr_canvas(size));
    assert_eq!(
        insert_data_payload(&mut canvas, size, &[0xFFu8; 10000], &[]),
        Err(QrError::InternalInvariantViolated)
    );
    assert_eq!(insert_data_payload(&mut canvas, size, &[0xFFu8; 19], &[0xFFu8; 7]), Ok(()));
}

#[test]
fn test_placement_fills_what_is_left_with_light_modules() {
    let size = Size::Standard(1);
    let mut canvas = create_qr_canvas(size);
    insert_data_payload(&mut canvas, size, &[0xFFu8; 2], &[]).unwrap();
    assert_eq!(count(&canvas, Module::DataRegion), 0);
    assert_eq!(count(&canvas, Module::Dark), count(&create_qr_canvas(size), Module::Dark) + 16);
}

#[test]
fn test_canvas_as_bits() {
    let mut canvas = Canvas::new(3, Module::Light);
    canvas.put(2, 1, Module::Dark);
    canvas.put(0, 2, Module::Dark);
    canvas.put(0, 0, Module::QuietZone);
    canvas.put(1, 1, Module::DataRegion);
    assert_eq!(
        canvas.to_matrix(),
        vec![vec![false, false, false], vec![false, false, true], vec![true, false, false]]
    );
    let finder = create_finder_pattern().to_matrix();
    assert_eq!(finder.len(), 9);
    assert_eq!(finder[4], [false, true, false, true, true, true, false, true, false]);
}

#[test]
fn test_canvas_cells() {
    let mut canvas = Canvas::new(3, Module::Light);
    assert_eq!(canvas.dimensions(), (3, 3));
    canvas.put(2, 1, Module::Dark);
    assert_eq!(canvas.get(2, 1), Module::Dark);
    assert_eq!(canvas.get(1, 2), Module::Light);
    let copy = canvas.duplicate();
    assert_eq!(copy, canvas);
    canvas.put(0, 0, Module::DataRegion);
    assert_ne!(copy, canvas);
    assert_eq!(copy.get(0, 0), Module::Light);
}
