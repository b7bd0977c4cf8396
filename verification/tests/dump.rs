use hexamine::dump::dump_lines;
use hexamine::layout::LineFormat;
use hexamine::dumper::Dumper;
use hexamine::origin::ParseHexError;
use hexamine::run::{dump_file, resolve_origin, DumpError};

const TWENTY: &[u8] = b"ABCDEFGHIJKLMNOPQRST";

fn streamed(bytes: &[u8], origin: usize, fmt: LineFormat) -> Vec<String> {
    let mut dumper = Dumper::new(origin, fmt);
    let mut lines = Vec::new();
    for &b in bytes {
        if let Some(line) = dumper.push(b) {
            lines.push(line);
        }
    }
    if let Some(line) = dumper.finish() {
        lines.push(line);
    }
    lines
}

#[test]
fn standard_layout_on_twenty_bytes() {
    let lines = dump_file(TWENTY, None, false).unwrap();
    assert_eq!(lines.len(), 2);
    assert_eq!(
        lines[0],
        "0000:  41 42 43 44 45 46 47 48  49 4A 4B 4C 4D 4E 4F 50  ABCDEFGHIJKLMNOP\n"
    );
    assert_eq!(lines[1], format!("0010:  51 52 53 54{}  QRST\n", " ".repeat(37)));
    assert!(lines[1].ends_with("  QRST\n"));
    assert_eq!(lines[1].len(), lines[0].len() - 12);
}

#[test]
fn wozmon_layout_on_twenty_bytes() {
    let lines = dump_file(TWENTY, None, true).unwrap();
    assert_eq!(
        lines,
        vec![
            "0000: 41 42 43 44 45 46 47 48\n",
            "0008: 49 4A 4B 4C 4D 4E 4F 50\n",
            "0010: 51 52 53 54\n",
        ]
    );
}

#[test]
fn origin_from_the_first_two_bytes() {
    let file = [0x34, 0x12, 0x41, 0x42];
    let woz = dump_file(&file, Some("0"), true).unwrap();
    assert_eq!(woz, vec!["1234: 41 42\n"]);
    let std = dump_file(&file, Some("0"), false).unwrap();
    let expected = format!("1234:{} 41 42{}{}AB\n", " ".repeat(13), " ".repeat(31), " ".repeat(6));
    assert_eq!(std, vec![expected]);
    assert_eq!(resolve_origin(Some("0"), &file), Ok((0x1234, 2)));
}

#[test]
fn origin_from_a_file_of_just_two_bytes_gives_no_line() {
    assert_eq!(dump_file(&[0x00, 0x10], Some("0"), false), Ok(vec![]));
    assert_eq!(dump_file(&[0x00, 0x10], Some("0"), true), Ok(vec![]));
}

#[test]
fn origin_from_too_short_a_file_fails() {
    assert_eq!(dump_file(&[], Some("0"), false), Err(DumpError::TruncatedOrigin));
    assert_eq!(dump_file(&[0x34], Some("0"), true), Err(DumpError::TruncatedOrigin));
    assert_eq!(resolve_origin(Some("0000"), &[0x34]), Err(DumpError::TruncatedOrigin));
}

#[test]
fn origin_that_is_no_number_gives_no_dump() {
    assert_eq!(
        dump_file(TWENTY, Some("zz"), false),
        Err(DumpError::InvalidOrigin(ParseHexError::InvalidDigit))
    );
    assert_eq!(
        dump_file(TWENTY, Some(""), true),
        Err(DumpError::InvalidOrigin(ParseHexError::Empty))
    );
    assert_eq!(
        dump_file(&[], Some(&"F".repeat(33)), true),
        Err(DumpError::InvalidOrigin(ParseHexError::Overflow))
    );
    assert_eq!(
        resolve_origin(Some("12g4"), TWENTY),
        Err(DumpError::InvalidOrigin(ParseHexError::InvalidDigit))
    );
}

#[test]
fn empty_file_gives_no_line() {
    assert_eq!(dump_file(&[], None, false), Ok(vec![]));
    assert_eq!(dump_file(&[], None, true), Ok(vec![]));
    assert_eq!(dump_file(&[], Some("C000"), false), Ok(vec![]));
    assert_eq!(dump_file(&[], Some("C00F"), true), Ok(vec![]));
    assert!(dump_lines(&[], 5, LineFormat::standard(5)).is_empty());
    assert!(streamed(&[], 5, LineFormat::wozmon()).is_empty());
}

#[test]
fn explicit_origin_keeps_the_whole_file() {
    let lines = dump_file(&[0x34, 0x12, 0x41, 0x42], Some("C000"), true).unwrap();
    assert_eq!(lines, vec!["C000: 34 12 41 42\n"]);
    assert_eq!(resolve_origin(Some("C000"), &[0x34, 0x12]), Ok((0xC000, 0)));
    assert_eq!(resolve_origin(None, &[0x34, 0x12]), Ok((0, 0)));
}

#[test]
fn every_line_ends_with_one_line_feed() {
    let file: Vec<u8> = (0u8..100).collect();
    for woz in [false, true] {
        for line in dump_file(&file, Some("C005"), woz).unwrap() {
            assert!(line.ends_with('\n'));
            assert_eq!(line.matches('\n').count(), 1);
        }
    }
}

#[test]
fn same_run_twice_gives_the_same_lines() {
    let file: Vec<u8> = (0u8..=255).chain(0u8..77).collect();
    for origin in [None, Some("0"), Some("FFF9"), Some("zz")] {
        for woz in [false, true] {
            assert_eq!(dump_file(&file, origin, woz), dump_file(&file, origin, woz));
        }
    }
}

#[test]
fn unaligned_origin_shortens_the_first_line() {
    let lines = dump_file(&[1, 2, 3, 4], Some("E"), false).unwrap();
    assert_eq!(
        lines,
        vec![
            format!("000E:{} 01 02{}..\n", " ".repeat(44), " ".repeat(16)),
            format!("0010:  03 04{}  ..\n", " ".repeat(43)),
        ]
    );
}

#[test]
fn unaligned_origin_in_wozmon_layout() {
    let lines = dump_file(&[1, 2, 3, 4, 5], Some("5"), true).unwrap();
    assert_eq!(lines, vec!["0005: 01 02 03\n", "0008: 04 05\n"]);
}

#[test]
fn padding_applies_to_the_first_line_only() {
    let file: Vec<u8> = (0x30u8..0x30 + 40).collect();
    let lines = dump_file(&file, Some("1C"), false).unwrap();
    assert_eq!(lines.len(), 4);
    assert_eq!(lines[0], format!("001C:{} 30 31 32 33{}0123\n", " ".repeat(38), " ".repeat(14)));
    assert_eq!(
        lines[1],
        "0020:  34 35 36 37 38 39 3A 3B  3C 3D 3E 3F 40 41 42 43  456789:;<=>?@ABC\n"
    );
    assert_eq!(
        lines[2],
        "0030:  44 45 46 47 48 49 4A 4B  4C 4D 4E 4F 50 51 52 53  DEFGHIJKLMNOPQRS\n"
    );
    assert_eq!(lines[3], format!("0040:  54 55 56 57{}  TUVW\n", " ".repeat(37)));
}

#[test]
fn addresses_wrap_at_sixteen_bits_between_lines() {
    let file = [0xEAu8; 20];
    let lines = dump_file(&file, Some("FFF8"), true).unwrap();
    assert_eq!(
        lines,
        vec![
            "FFF8: EA EA EA EA EA EA EA EA\n",
            "0000: EA EA EA EA EA EA EA EA\n",
            "0008: EA EA EA EA\n",
        ]
    );
}

#[test]
fn origin_beyond_sixteen_bits_gives_no_dump() {
    for origin in ["10000", "12340", "FFFFF", "+10000"] {
        for woz in [false, true] {
            assert_eq!(
                dump_file(&[0xA9, 0x00], Some(origin), woz),
                Err(DumpError::InvalidOrigin(ParseHexError::Overflow))
            );
        }
    }
    assert_eq!(
        resolve_origin(Some("10000"), TWENTY),
        Err(DumpError::InvalidOrigin(ParseHexError::Overflow))
    );
}

#[test]
fn largest_origin_rolls_over_to_zero() {
    let lines = dump_file(&[1, 2, 3], Some("FFFF"), true).unwrap();
    assert_eq!(lines, vec!["FFFF: 01\n", "0000: 02 03\n"]);
    assert_eq!(resolve_origin(Some("FFFF"), &[1, 2, 3]), Ok((0xFFFF, 0)));
}

#[test]
fn stream_addresses_beyond_sixteen_bits_show_their_low_bits() {
    let woz = LineFormat::wozmon();
    assert_eq!(dump_lines(&[0xA9, 0x00], 0x12340, woz), vec!["2340: A9 00\n"]);
    assert_eq!(dump_lines(&[1, 2, 3], usize::MAX, woz), vec!["FFFF: 01\n", "0000: 02 03\n"]);
}

#[test]
fn line_count_is_the_rounded_up_quotient_from_an_aligned_origin() {
    for len in 0usize..70 {
        let file = vec![0u8; len];
        assert_eq!(dump_file(&file, None, false).unwrap().len(), (len + 15) / 16);
        assert_eq!(dump_file(&file, None, true).unwrap().len(), (len + 7) / 8);
        assert_eq!(dump_file(&file, Some("C000"), false).unwrap().len(), (len + 15) / 16);
        assert_eq!(dump_file(&file, Some("C008"), true).unwrap().len(), (len + 7) / 8);
    }
}

#[test]
fn line_count_counts_from_the_line_that_holds_the_origin() {
    for origin in 0usize..40 {
        for len in 0usize..40 {
            let file = vec![0u8; len];
            for fmt in [LineFormat::standard(origin), LineFormat::wozmon()] {
                let per_line = fmt.bytes_per_line;
                let offset = origin % per_line;
                let expected = if len == 0 { 0 } else { (offset + len + per_line - 1) / per_line };
                let lines = dump_lines(&file, origin, fmt);
                assert_eq!(lines.len(), expected);
                let fits = len == 0 || offset + (len - 1) % per_line < per_line;
                let needed = (len + per_line - 1) / per_line;
                assert_eq!(lines.len(), if fits { needed } else { needed + 1 });
            }
        }
    }
}

#[test]
fn line_addresses_step_by_the_line_length() {
    let file = vec![0u8; 100];
    for (origin, woz) in [(0usize, false), (0xC000, false), (0xFFE0, false), (0xFFF8, true), (0x10, true)] {
        let fmt = LineFormat::for_run(woz, origin);
        let lines = dump_lines(&file, origin, fmt);
        for (k, line) in lines.iter().enumerate() {
            let shown = (origin + k * fmt.bytes_per_line) % 65536;
            assert_eq!(&line[..5], format!("{:04X}:", shown));
        }
    }
}

#[test]
fn later_lines_start_at_multiples_of_the_line_length() {
    let file = vec![0u8; 50];
    let lines = dump_lines(&file, 0x0203, LineFormat::standard(0x0203));
    let shown: Vec<&str> = lines.iter().map(|l| &l[..5]).collect();
    assert_eq!(shown, vec!["0203:", "0210:", "0220:", "0230:"]);
}

#[test]
fn layouts_of_other_lengths() {
    let fmt = LineFormat { bytes_per_line: 3, bytes_per_segment: 0, left_padding: 0, show_ascii: false };
    let lines = dump_lines(&[1, 2, 3, 4, 5, 6, 7], 1, fmt);
    assert_eq!(lines, vec!["0001: 01 02\n", "0003: 03 04 05\n", "0006: 06 07\n"]);
    let one = LineFormat { bytes_per_line: 1, bytes_per_segment: 1, left_padding: 0, show_ascii: true };
    assert_eq!(dump_lines(b"Hi", 0xFFFF, one), vec!["FFFF:  48  H\n", "0000:  69  i\n"]);
}

#[test]
fn byte_by_byte_gives_the_same_lines() {
    let file: Vec<u8> = (0u8..=255).collect();
    for origin in [0usize, 1, 7, 8, 15, 16, 0x1234, 0xFFFF, 0x12345] {
        for woz in [false, true] {
            for len in [0usize, 1, 7, 8, 9, 15, 16, 17, 31, 32, 33, 256] {
                let fmt = LineFormat::for_run(woz, origin);
                assert_eq!(
                    streamed(&file[..len], origin, fmt),
                    dump_lines(&file[..len], origin, fmt)
                );
            }
        }
    }
}

#[test]
fn a_line_comes_out_with_the_byte_that_completes_it() {
    let mut dumper = Dumper::new(0x0006, LineFormat::wozmon());
    assert_eq!(dumper.push(0xA9), None);
    assert_eq!(dumper.push(0x01).as_deref(), Some("0006: A9 01\n"));
    for b in 0u8..7 {
        assert_eq!(dumper.push(b), None);
    }
    assert_eq!(dumper.push(7).as_deref(), Some("0008: 00 01 02 03 04 05 06 07\n"));
    assert_eq!(dumper.push(0x60), None);
    assert_eq!(dumper.finish().as_deref(), Some("0010: 60\n"));
}

#[test]
fn nothing_is_left_after_a_full_line() {
    let mut dumper = Dumper::new(0, LineFormat::wozmon());
    for b in 0u8..7 {
        assert_eq!(dumper.push(b), None);
    }
    assert!(dumper.push(7).is_some());
    assert_eq!(dumper.finish(), None);
    assert_eq!(Dumper::new(3, LineFormat::standard(3)).finish(), None);
}

#[test]
fn no_line_runs_past_the_sixteen_bit_limit() {
    let file = vec![0x55u8; 48];
    for origin in 0xFFE0usize..=0x1_0010 {
        for woz in [false, true] {
            let fmt = LineFormat::for_run(woz, origin);
            let lines = dump_lines(&file, origin, fmt);
            let mut next = origin;
            for line in &lines {
                let shown = usize::from_str_radix(&line[..4], 16).unwrap();
                let count = line.matches(" 55").count();
                assert_eq!(shown, next % 0x10000);
                assert!(count >= 1);
                assert!(shown + count <= 0x10000);
                assert!(next % fmt.bytes_per_line + count <= fmt.bytes_per_line);
                next += count;
            }
            assert_eq!(next, origin + file.len());
        }
    }
}
