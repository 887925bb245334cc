use h3::error::Error;
use h3::octets::{varint_len, varint_parse_len, Octets};
use h3::varint::MAX_VARINT;

fn written_varint(v: u64) -> Vec<u8> {
    let mut d: [u8; 16] = [0xaa; 16];
    let n = {
        let mut b = Octets::with_slice(&mut d);
        b.put_varint(v).unwrap();
        b.off()
    };
    d[..n].to_vec()
}

#[test]
fn varint_len_matches_bytes_written_at_boundaries() {
    let cases: [(u64, usize); 8] = [
        (0, 1),
        (63, 1),
        (64, 2),
        (16383, 2),
        (16384, 4),
        (1_073_741_823, 4),
        (1_073_741_824, 8),
        (4_611_686_018_427_387_903, 8),
    ];
    for (v, width) in cases.iter() {
        assert_eq!(varint_len(*v), *width);
        assert_eq!(written_varint(*v).len(), *width);
    }
}

#[test]
fn varint_round_trips_at_boundaries() {
    let cases: [u64; 8] = [
        0,
        63,
        64,
        16383,
        16384,
        1_073_741_823,
        1_073_741_824,
        4_611_686_018_427_387_903,
    ];
    for v in cases.iter() {
        let mut bytes = written_varint(*v);
        let mut b = Octets::with_slice(&mut bytes);
        assert_eq!(b.get_varint(), Ok(*v));
        assert_eq!(b.off(), varint_len(*v));
        assert_eq!(b.cap(), 0);
    }
}

#[test]
fn varint_exact_bytes() {
    assert_eq!(written_varint(37), vec![0x25]);
    assert_eq!(written_varint(15293), vec![0x7b, 0xbd]);
    assert_eq!(written_varint(494_878_333), vec![0x9d, 0x7f, 0x3e, 0x7d]);
    assert_eq!(
        written_varint(151_288_809_941_952_652),
        vec![0xc2, 0x19, 0x7c, 0x5e, 0xff, 0x14, 0xe8, 0x8c]
    );
    assert_eq!(written_varint(0), vec![0x00]);
    assert_eq!(written_varint(MAX_VARINT), vec![0xff; 8]);
}

#[test]
fn varint_reads_longer_forms() {
    let mut d: [u8; 2] = [0x40, 0x25];
    let mut b = Octets::with_slice(&mut d);
    assert_eq!(b.get_varint(), Ok(37));
    assert_eq!(b.off(), 2);

    let mut d: [u8; 8] = [0xc2, 0x19, 0x7c, 0x5e, 0xff, 0x14, 0xe8, 0x8c];
    let mut b = Octets::with_slice(&mut d);
    assert_eq!(b.get_varint(), Ok(151_288_809_941_952_652));
}

#[test]
fn varint_parse_len_reads_the_tag() {
    assert_eq!(varint_parse_len(0x00), 1);
    assert_eq!(varint_parse_len(0x3f), 1);
    assert_eq!(varint_parse_len(0x40), 2);
    assert_eq!(varint_parse_len(0x7f), 2);
    assert_eq!(varint_parse_len(0x80), 4);
    assert_eq!(varint_parse_len(0xbf), 4);
    assert_eq!(varint_parse_len(0xc0), 8);
    assert_eq!(varint_parse_len(0xff), 8);
}

#[test]
fn varint_underflow_leaves_cursor() {
    let mut d: [u8; 3] = [0x01, 0x80, 0x01];
    let mut b = Octets::with_slice(&mut d);
    assert_eq!(b.get_u8(), Ok(1));
    assert_eq!(b.get_varint(), Err(Error::BufferUnderflow));
    assert_eq!(b.off(), 1);

    let mut e: [u8; 0] = [];
    let mut b = Octets::with_slice(&mut e);
    assert_eq!(b.get_varint(), Err(Error::BufferUnderflow));
    assert_eq!(b.off(), 0);
}

#[test]
fn varint_overflow_leaves_cursor() {
    let mut d: [u8; 3] = [7; 3];
    {
        let mut b = Octets::with_slice(&mut d);
        assert_eq!(b.put_varint(16384), Err(Error::BufferOverflow));
        assert_eq!(b.off(), 0);
        assert_eq!(b.put_varint(16383), Ok(()));
        assert_eq!(b.off(), 2);
        assert_eq!(b.put_varint(64), Err(Error::BufferOverflow));
        assert_eq!(b.off(), 2);
    }
    assert_eq!(d, [0x7f, 0xff, 7]);
}

#[test]
fn bytes_and_integers() {
    let mut d: [u8; 8] = [0; 8];
    {
        let mut b = Octets::with_slice(&mut d);
        assert_eq!(b.len(), 8);
        assert_eq!(b.cap(), 8);
        assert_eq!(b.put_u8(0xab), Ok(()));
        assert_eq!(b.put_u16(0x0102), Ok(()));
        assert_eq!(b.put_bytes(&[9, 8, 7]), Ok(()));
        assert_eq!(b.off(), 6);
        assert_eq!(b.cap(), 2);
        assert_eq!(b.put_bytes(&[1, 2, 3]), Err(Error::BufferOverflow));
        assert_eq!(b.off(), 6);
        assert_eq!(b.buf(), &[0xab, 0x01, 0x02, 9, 8, 7, 0, 0]);
    }
    assert_eq!(d, [0xab, 0x01, 0x02, 9, 8, 7, 0, 0]);

    let mut b = Octets::with_slice(&mut d);
    assert_eq!(b.get_u8(), Ok(0xab));
    assert_eq!(b.get_u16(), Ok(0x0102));
    assert_eq!(b.get_bytes(3), Ok(vec![9, 8, 7]));
    assert_eq!(b.get_bytes(3), Err(Error::BufferUnderflow));
    assert_eq!(b.off(), 6);
    assert_eq!(b.get_bytes(0), Ok(vec![]));
    assert_eq!(b.get_u16(), Ok(0));
    assert_eq!(b.get_u8(), Err(Error::BufferUnderflow));
    assert_eq!(b.get_u16(), Err(Error::BufferUnderflow));
    assert_eq!(b.off(), 8);
}

#[test]
fn single_byte_errors() {
    let mut d: [u8; 1] = [5];
    let mut b = Octets::with_slice(&mut d);
    assert_eq!(b.put_u16(1), Err(Error::BufferOverflow));
    assert_eq!(b.get_u16(), Err(Error::BufferUnderflow));
    assert_eq!(b.off(), 0);
    assert_eq!(b.put_u8(6), Ok(()));
    assert_eq!(b.put_u8(7), Err(Error::BufferOverflow));
    assert_eq!(b.off(), 1);
    assert_eq!(b.buf(), &[6]);
}

#[test]
fn rewind_moves_back() {
    let mut d: [u8; 4] = [1, 2, 3, 4];
    let mut b = Octets::with_slice(&mut d);
    assert_eq!(b.get_u16(), Ok(0x0102));
    assert_eq!(b.rewind(3), Err(Error::BufferUnderflow));
    assert_eq!(b.off(), 2);
    assert_eq!(b.rewind(1), Ok(()));
    assert_eq!(b.off(), 1);
    assert_eq!(b.get_u8(), Ok(2));
    assert_eq!(b.rewind(2), Ok(()));
    assert_eq!(b.off(), 0);
    assert_eq!(b.cap(), 4);
}
