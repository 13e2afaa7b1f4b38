use swiftpp::debugger::memory::{
    until_nul, MemoryError, MemoryInspector, MemorySnapshot, ATOMIC_ACCESS_WIDTH, MAX_ACCESS_WIDTH,
};

#[test]
fn dump_of_one_full_line() {
    let inspector = MemoryInspector::new(0);
    let text = inspector.format_memory_dump(0x1000, b"Hello, World!\n\0\x01");
    assert_eq!(
        text,
        "00001000  4865 6c6c 6f2c 2057 6f72 6c64 210a 0001  |Hello,.World!...|\n"
    );
}

#[test]
fn dump_of_a_short_last_line() {
    let inspector = MemoryInspector::new(0);
    let mut data: Vec<u8> = (0u8..16).collect();
    data.extend_from_slice(b"ABC");
    let text = inspector.format_memory_dump(0xfff0, &data);
    let expected = format!(
        "{}{}",
        "0000fff0  0001 0203 0405 0607 0809 0a0b 0c0d 0e0f  |................|\n",
        "00010000  4142 43                                  |ABC|\n"
    );
    assert_eq!(text, expected);
}

#[test]
fn dump_edges() {
    let inspector = MemoryInspector::new(0);
    assert_eq!(inspector.format_memory_dump(0x10, &[]), "");
    // one byte: 15 bytes are missing, which are 30 + 8 blanks
    assert_eq!(
        inspector.format_memory_dump(0, &[0x7e]),
        format!("00000000  7e{} |~|\n", " ".repeat(38))
    );
    // two bytes: the blank after the pair, then 28 + 7 blanks
    assert_eq!(
        inspector.format_memory_dump(0, &[0x20, 0x7f]),
        format!("00000000  207f {} |..|\n", " ".repeat(35))
    );
    // an address of more than eight digits is written in full
    assert_eq!(
        inspector.format_memory_dump(0x1_2345_6789, &[0x21]),
        format!("123456789  21{} |!|\n", " ".repeat(38))
    );
}

#[test]
fn dump_lines_agree_with_the_standard_formatting() {
    let inspector = MemoryInspector::new(0);
    let data: Vec<u8> = (0u8..=255).collect();
    let text = inspector.format_memory_dump(0xabc0, &data);
    let mut expected = String::new();
    for (i, chunk) in data.chunks(16).enumerate() {
        expected.push_str(&format!("{:08x}  ", 0xabc0 + i * 16));
        for (j, byte) in chunk.iter().enumerate() {
            expected.push_str(&format!("{:02x}", byte));
            if j % 2 == 1 {
                expected.push(' ');
            }
        }
        expected.push_str(" |");
        for &byte in chunk {
            expected.push(if byte.is_ascii_graphic() { byte as char } else { '.' });
        }
        expected.push_str("|\n");
    }
    assert_eq!(text, expected);
}

#[test]
fn read_checks_the_transfer() {
    let inspector = MemoryInspector::new(7);
    assert_eq!(inspector.process_handle, 7);
    assert_eq!(inspector.read_memory(0x10, 4, &[1, 2, 3, 4, 5]), Ok(vec![1, 2, 3, 4]));
    assert_eq!(inspector.read_memory(0x10, 4, &[1, 2, 3, 4]), Ok(vec![1, 2, 3, 4]));
    assert_eq!(
        inspector.read_memory(0x10, 4, &[1, 2, 3]),
        Err(MemoryError::ReadError { address: 0x10 })
    );
    assert_eq!(inspector.read_memory(0x10, 0, &[]), Ok(vec![]));
    assert_eq!(inspector.read_memory(0x10, 16, &[0; 16]), Ok(vec![0; 16]));
    assert_eq!(
        inspector.read_memory(0x10, 17, &[0; 17]),
        Err(MemoryError::UnsupportedWidth { width: 17 })
    );
    assert_eq!(MemoryInspector::check_width(MAX_ACCESS_WIDTH), Ok(()));
    assert_eq!(
        MemoryInspector::check_width(MAX_ACCESS_WIDTH + 1),
        Err(MemoryError::UnsupportedWidth { width: 17 })
    );
    assert!(MemoryInspector::is_atomic(ATOMIC_ACCESS_WIDTH));
    assert!(!MemoryInspector::is_atomic(ATOMIC_ACCESS_WIDTH + 1));
}

#[test]
fn write_checks_the_transfer() {
    let inspector = MemoryInspector::new(0);
    assert_eq!(inspector.write_memory(0x20, &[1, 2], 2), Ok(()));
    assert_eq!(
        inspector.write_memory(0x20, &[1, 2], 1),
        Err(MemoryError::WriteError { address: 0x20 })
    );
    assert_eq!(
        inspector.write_memory(0x20, &[0; 17], 17),
        Err(MemoryError::UnsupportedWidth { width: 17 })
    );
}

#[test]
fn dump_checks_the_transfer() {
    let inspector = MemoryInspector::new(0);
    assert_eq!(inspector.dump_memory(0x30, 3, &[9, 8, 7, 6]), Ok(vec![9, 8, 7]));
    assert_eq!(inspector.dump_memory(0x30, 100, &[0; 100]), Ok(vec![0; 100]));
    assert_eq!(
        inspector.dump_memory(0x30, 5, &[9, 8, 7, 6]),
        Err(MemoryError::ReadError { address: 0x30 })
    );
}

#[test]
fn little_endian_values() {
    assert_eq!(MemoryInspector::decode_le(&[]), Some(0));
    assert_eq!(MemoryInspector::decode_le(&[0x34, 0x12]), Some(0x1234));
    assert_eq!(MemoryInspector::decode_le(&[0x78, 0x56, 0x34, 0x12]), Some(0x1234_5678));
    assert_eq!(MemoryInspector::decode_le(&[0xff; 8]), Some(u64::MAX));
    assert_eq!(MemoryInspector::decode_le(&[1, 0, 0, 0, 0, 0, 0, 0x80]), Some(0x8000_0000_0000_0001));
    assert_eq!(MemoryInspector::decode_le(&[0; 9]), None);
}

#[test]
fn strings_end_at_the_first_nul() {
    let inspector = MemoryInspector::new(0);
    assert_eq!(inspector.read_string(0x40, 16, b"abc\0def\0"), Ok("abc".to_string()));
    // no terminator, but the room is filled
    assert_eq!(inspector.read_string(0x40, 3, b"abcdef"), Ok("abc".to_string()));
    assert_eq!(inspector.read_string(0x40, 6, b"abcdef"), Ok("abcdef".to_string()));
    // the bytes end before a terminator and before the room is filled
    assert_eq!(
        inspector.read_string(0x40, 7, b"abcdef"),
        Err(MemoryError::ReadError { address: 0x40 })
    );
    assert_eq!(inspector.read_string(0x40, 7, b""), Err(MemoryError::ReadError { address: 0x40 }));
    assert_eq!(inspector.read_string(0x40, 0, b"abc"), Ok("".to_string()));
    assert_eq!(inspector.read_string(0x40, 4, b"\0abc"), Ok("".to_string()));
    // a terminator beyond the room does not count
    assert_eq!(inspector.read_string(0x40, 2, b"ab\0"), Ok("ab".to_string()));
    assert_eq!(inspector.read_string(0x40, 8, "gr\u{fc}n\0".as_bytes()), Ok("gr\u{fc}n".to_string()));
    assert_eq!(
        inspector.read_string(0x40, 8, &[0x61, 0xff, 0x00]),
        Err(MemoryError::ReadError { address: 0x40 })
    );
    assert_eq!(until_nul(b"ab\0cd"), b"ab".to_vec());
    assert_eq!(until_nul(b"abcd"), b"abcd".to_vec());
}

#[test]
fn protection_outcome() {
    let inspector = MemoryInspector::new(0);
    assert_eq!(inspector.protect_memory(0x50, Some(4)), Ok(4));
    assert_eq!(
        inspector.protect_memory(0x50, None),
        Err(MemoryError::ProtectionError { address: 0x50 })
    );
}

fn snapshot(base: usize, cells: &[i32]) -> MemorySnapshot {
    MemorySnapshot {
        base,
        cells: cells.iter().map(|&c| if c < 0 { None } else { Some(c as u8) }).collect(),
    }
}

#[test]
fn scan_finds_aligned_matches_and_passes_over_gaps() {
    let inspector = MemoryInspector::new(0);
    //                              100      102      104       106      108      110
    let snap = snapshot(100, &[1, 2, 9, 9, 1, -1, 1, 2, 2, 1, 1, 2]);
    assert_eq!(inspector.scan_memory(100, 112, &[1, 2], &snap), vec![100, 106, 110]);
    // the stride starts at the start address
    assert_eq!(inspector.scan_memory(101, 112, &[2, 1], &snap), vec![]);
    assert_eq!(inspector.scan_memory(107, 112, &[2, 2], &snap), vec![107]);
    // the last probe must end at or before the end address
    assert_eq!(inspector.scan_memory(100, 111, &[1, 2], &snap), vec![100, 106]);
    assert_eq!(inspector.scan_memory(100, 101, &[1, 2], &snap), vec![]);
    // outside the snapshot nothing can be read
    assert_eq!(inspector.scan_memory(96, 120, &[1, 2], &snap), vec![100, 106, 110]);
    assert_eq!(inspector.scan_memory(112, 100, &[1], &snap), vec![]);
    assert_eq!(inspector.scan_memory(100, 112, &[], &snap), vec![]);
    assert_eq!(inspector.scan_memory(100, 112, &[1], &snap), vec![100, 104, 106, 109, 110]);
}

#[test]
fn snapshot_reads() {
    let snap = snapshot(10, &[5, -1, 7]);
    assert_eq!(snap.get(9), None);
    assert_eq!(snap.get(10), Some(5));
    assert_eq!(snap.get(11), None);
    assert_eq!(snap.get(12), Some(7));
    assert_eq!(snap.get(13), None);
    assert!(snap.matches(10, &[5]));
    assert!(!snap.matches(10, &[5, 6]));
    assert!(!snap.matches(12, &[7, 0]));
    assert!(snap.matches(11, &[]));
}
