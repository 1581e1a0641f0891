use exif_reader::{find_bytes, take_bytes, usizeify, usizeify_n, Endian, ExifError};

#[test]
fn test_find_bytes() {
    let haystack = b"blah blah blah \x01\x01\x24\x59\xab\xde\xad\xbe\xef wow this is something";
    let needle = b"Exif\x00\x00";

    assert_eq!(find_bytes(haystack, needle), None);

    let haystack2 = b"blah blah blah \x01\x01\x24\x59\xabExif\x00\x00\xde\xad\xbe\xef wow this
            is something";

    assert_eq!(find_bytes(haystack2, needle), Some(20));
    if let Some(index) = find_bytes(haystack2, needle) {
        assert_eq!(&haystack2[index..index + needle.len()], needle);
    }
}

#[test]
fn test_usizeify() {
    assert_eq!(usizeify(b"\x12\x34\x56\x78", Endian::BigEndian), 305419896);
    assert_eq!(
        usizeify(b"\x78\x56\x34\x12", Endian::LittleEndian),
        305419896
    );
}

#[test]
fn find_bytes_in_empty_haystack_is_none() {
    assert_eq!(find_bytes(b"", b"Exif\x00\x00"), None);
    assert_eq!(find_bytes(b"", b""), None);
}

#[test]
fn find_bytes_needle_longer_than_haystack_is_none() {
    assert_eq!(find_bytes(b"Exif", b"Exif\x00\x00"), None);
}

#[test]
fn find_bytes_at_start_and_at_end() {
    assert_eq!(find_bytes(b"Exif\x00\x00rest", b"Exif\x00\x00"), Some(0));
    assert_eq!(find_bytes(b"restExif\x00\x00", b"Exif\x00\x00"), Some(4));
    assert_eq!(find_bytes(b"Exif\x00\x00", b"Exif\x00\x00"), Some(0));
}

#[test]
fn find_bytes_returns_the_first_of_several() {
    assert_eq!(find_bytes(b"..ab..ab..ab", b"ab"), Some(2));
}

#[test]
fn find_bytes_after_a_partial_match() {
    // The occurrence starts inside a run that first looked like a match.
    assert_eq!(find_bytes(b"EExif\x00\x00", b"Exif\x00\x00"), Some(1));
    assert_eq!(find_bytes(b"ExiExif\x00\x00", b"Exif\x00\x00"), Some(3));
    assert_eq!(find_bytes(b"aab", b"ab"), Some(1));
    assert_eq!(find_bytes(b"aaab", b"aab"), Some(1));
    assert_eq!(find_bytes(b"abababc", b"ababc"), Some(2));
}

#[test]
fn find_bytes_partial_match_at_the_end_is_none() {
    assert_eq!(find_bytes(b"....Exif\x00", b"Exif\x00\x00"), None);
}

#[test]
fn find_bytes_empty_needle() {
    assert_eq!(find_bytes(b"abc", b""), Some(0));
}

#[test]
fn find_bytes_result_reconstructs_the_needle() {
    let haystacks: [&[u8]; 4] = [b"xxabcxx", b"abc", b"ababcabc", b"no match here"];
    let needle: &[u8] = b"abc";
    for haystack in haystacks {
        match find_bytes(haystack, needle) {
            Some(index) => {
                assert_eq!(&haystack[index..index + needle.len()], needle);
                for earlier in 0..index {
                    assert_ne!(&haystack[earlier..earlier + needle.len()], needle);
                }
            }
            None => {
                for start in 0..haystack.len() {
                    if start + needle.len() <= haystack.len() {
                        assert_ne!(&haystack[start..start + needle.len()], needle);
                    }
                }
            }
        }
    }
}

#[test]
fn usizeify_single_byte_is_the_byte() {
    assert_eq!(usizeify(b"\x00", Endian::LittleEndian), 0);
    assert_eq!(usizeify(b"\xff", Endian::LittleEndian), 255);
    assert_eq!(usizeify(b"\xff", Endian::BigEndian), 255);
    assert_eq!(usizeify(b"\x2a", Endian::BigEndian), 42);
}

#[test]
fn usizeify_two_bytes() {
    assert_eq!(usizeify(b"\x12\x01", Endian::LittleEndian), 274);
    assert_eq!(usizeify(b"\x01\x12", Endian::BigEndian), 274);
    assert_eq!(usizeify(b"\x01\x12", Endian::LittleEndian), 4609);
    assert_eq!(usizeify(b"\xff\xff", Endian::BigEndian), 65535);
}

#[test]
fn usizeify_four_bytes_reach_the_top_of_32_bits() {
    assert_eq!(usizeify(b"\xff\xff\xff\xff", Endian::LittleEndian), 4294967295);
    assert_eq!(usizeify(b"\xff\xff\xff\xff", Endian::BigEndian), 4294967295);
    assert_eq!(usizeify(b"\x00\x00\x00\x80", Endian::LittleEndian), 2147483648);
    assert_eq!(usizeify(b"\x10\x0a\x10\x00", Endian::BigEndian), 0x100a1000);
}

#[test]
fn usizeify_empty_slice_is_zero() {
    assert_eq!(usizeify(b"", Endian::LittleEndian), 0);
    assert_eq!(usizeify(b"", Endian::BigEndian), 0);
}

#[test]
fn usizeify_whole_word() {
    if usize::BITS == 64 {
        assert_eq!(
            usizeify(b"\x01\x02\x03\x04\x05\x06\x07\x08", Endian::BigEndian) as u64,
            0x0102030405060708u64
        );
        assert_eq!(
            usizeify(b"\x01\x02\x03\x04\x05\x06\x07\x08", Endian::LittleEndian) as u64,
            0x0807060504030201u64
        );
        assert_eq!(usizeify(&[0xff; 8], Endian::LittleEndian), usize::MAX);
    }
}

#[test]
fn usizeify_reversed_bytes_under_the_other_order() {
    let samples: [&[u8]; 6] = [
        b"\x7f",
        b"\x12\x34",
        b"\x00\xff",
        b"\x12\x34\x56\x78",
        b"\xde\xad\xbe\xef",
        b"\x00\x00\x01\x00",
    ];
    for sample in samples {
        let mut reversed = sample.to_vec();
        reversed.reverse();
        assert_eq!(
            usizeify(sample, Endian::BigEndian),
            usizeify(&reversed, Endian::LittleEndian)
        );
        assert_eq!(
            usizeify(sample, Endian::LittleEndian),
            usizeify(&reversed, Endian::BigEndian)
        );
    }
}

#[test]
fn usizeify_n_little_endian_reads_from_the_front() {
    let bytes = b"\x78\x56\x34\x12";
    assert_eq!(usizeify_n(bytes, Endian::LittleEndian, 0), 0);
    assert_eq!(usizeify_n(bytes, Endian::LittleEndian, 1), 0x78);
    assert_eq!(usizeify_n(bytes, Endian::LittleEndian, 2), 0x5678);
    assert_eq!(usizeify_n(bytes, Endian::LittleEndian, 3), 0x345678);
    assert_eq!(usizeify_n(bytes, Endian::LittleEndian, 4), 0x12345678);
}

#[test]
fn usizeify_n_big_endian_reads_from_the_back() {
    let bytes = b"\x12\x34\x56\x78";
    assert_eq!(usizeify_n(bytes, Endian::BigEndian, 0), 0);
    assert_eq!(usizeify_n(bytes, Endian::BigEndian, 1), 0x78);
    assert_eq!(usizeify_n(bytes, Endian::BigEndian, 2), 0x5678);
    assert_eq!(usizeify_n(bytes, Endian::BigEndian, 3), 0x345678);
    assert_eq!(usizeify_n(bytes, Endian::BigEndian, 4), 0x12345678);
}

#[test]
fn usizeify_n_past_the_end_reads_the_whole_slice() {
    let bytes = b"\x12\x34\x56\x78";
    assert_eq!(
        usizeify_n(bytes, Endian::BigEndian, 9),
        usizeify(bytes, Endian::BigEndian)
    );
    assert_eq!(
        usizeify_n(bytes, Endian::LittleEndian, usize::MAX),
        usizeify(bytes, Endian::LittleEndian)
    );
}

#[test]
fn usizeify_n_of_a_long_slice_reads_only_n_bytes() {
    let bytes = b"\x01\x02\x03\x04\x05\x06\x07\x08\x09\x0a\x0b\x0c";
    assert_eq!(usizeify_n(bytes, Endian::LittleEndian, 2), 0x0201);
    assert_eq!(usizeify_n(bytes, Endian::BigEndian, 2), 0x0b0c);
    assert_eq!(usizeify_n(bytes, Endian::BigEndian, 4), 0x090a0b0c);
}

#[test]
fn take_bytes_walks_through_a_buffer() {
    let bytes = b"\x01\x02\x03\x04\x05\x06";
    let mut advance = 0;
    assert_eq!(take_bytes(bytes, &mut advance, 2), Ok(&b"\x01\x02"[..]));
    assert_eq!(advance, 2);
    assert_eq!(take_bytes(bytes, &mut advance, 4), Ok(&b"\x03\x04\x05\x06"[..]));
    assert_eq!(advance, 6);
    assert_eq!(take_bytes(bytes, &mut advance, 0), Ok(&b""[..]));
    assert_eq!(advance, 6);
}

#[test]
fn take_bytes_past_the_end_is_truncated_and_keeps_the_offset() {
    let bytes = b"\x01\x02\x03\x04\x05\x06";
    let mut advance = 4;
    assert_eq!(
        take_bytes(bytes, &mut advance, 3),
        Err(ExifError::TruncatedBuffer { offset: 4, needed: 3, available: 6 })
    );
    assert_eq!(advance, 4);

    let mut beyond = 7;
    assert_eq!(
        take_bytes(bytes, &mut beyond, 0),
        Err(ExifError::TruncatedBuffer { offset: 7, needed: 0, available: 6 })
    );
    assert_eq!(beyond, 7);
}

#[test]
fn take_bytes_with_a_huge_request_is_truncated() {
    let bytes = b"\x01\x02";
    let mut advance = 1;
    assert_eq!(
        take_bytes(bytes, &mut advance, usize::MAX),
        Err(ExifError::TruncatedBuffer { offset: 1, needed: usize::MAX, available: 2 })
    );
    assert_eq!(advance, 1);
}
