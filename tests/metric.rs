use mmv_metric::codec::{
    write_u64, Endian, F32Value, F64Value, MetricType, ENDIAN, F32_METRIC_TYPE_CODE,
    F64_METRIC_TYPE_CODE, I32_METRIC_TYPE_CODE, I64_METRIC_TYPE_CODE, STRING_METRIC_TYPE_CODE,
    U32_METRIC_TYPE_CODE, U64_METRIC_TYPE_CODE,
};
use mmv_metric::metric::{MMVMetric, Metric, Semamtics};
use mmv_metric::view::{ByteView, WriteError};
use mmv_metric::{METRIC_NAME_MAX_LEN, STRING_BLOCK_LEN};

fn encode<T: MetricType>(v: &T, order: Endian, len: usize) -> (Result<(), WriteError>, Vec<u8>) {
    let mut w = ByteView::zeroed(len, order);
    let r = v.write_to_writer(order, &mut w);
    (r, w.as_slice().to_vec())
}

fn le(bytes: &[u8]) -> u64 {
    let mut b = [0u8; 8];
    b.copy_from_slice(&bytes[..8]);
    u64::from_le_bytes(b)
}

fn be(bytes: &[u8]) -> u64 {
    let mut b = [0u8; 8];
    b.copy_from_slice(&bytes[..8]);
    u64::from_be_bytes(b)
}

#[test]
fn type_codes_are_fixed_and_distinct() {
    let codes = vec![
        5i32.type_code(),
        5u32.type_code(),
        5i64.type_code(),
        5u64.type_code(),
        F32Value { bits: 0 }.type_code(),
        F64Value { bits: 0 }.type_code(),
        String::from("x").type_code(),
    ];
    assert_eq!(codes, vec![0, 1, 2, 3, 4, 5, 6]);
    assert_eq!(codes[0], I32_METRIC_TYPE_CODE);
    assert_eq!(codes[1], U32_METRIC_TYPE_CODE);
    assert_eq!(codes[2], I64_METRIC_TYPE_CODE);
    assert_eq!(codes[3], U64_METRIC_TYPE_CODE);
    assert_eq!(codes[4], F32_METRIC_TYPE_CODE);
    assert_eq!(codes[5], F64_METRIC_TYPE_CODE);
    assert_eq!(codes[6], STRING_METRIC_TYPE_CODE);
    assert_eq!((-7i32).type_code(), 0);
    assert_eq!(String::new().type_code(), 6);
}

#[test]
fn write_u64_orders_bytes() {
    let mut w = ByteView::zeroed(10, Endian::Little);
    assert_eq!(write_u64(&mut w, Endian::Little, 0x0102030405060708), Ok(()));
    assert_eq!(w.as_slice(), &[8, 7, 6, 5, 4, 3, 2, 1, 0, 0]);
    assert_eq!(w.position(), 8);
    let mut w = ByteView::zeroed(8, Endian::Little);
    assert_eq!(write_u64(&mut w, Endian::Big, 0x0102030405060708), Ok(()));
    assert_eq!(w.as_slice(), &[1, 2, 3, 4, 5, 6, 7, 8]);
}

#[test]
fn numeric_values_encode_as_eight_bytes() {
    let (r, b) = encode(&-1i32, Endian::Little, 8);
    assert_eq!(r, Ok(()));
    assert_eq!(b, vec![0xff, 0xff, 0xff, 0xff, 0, 0, 0, 0]);
    assert_eq!(le(&b) as u32 as i32, -1);

    let (r, b) = encode(&-2i32, Endian::Big, 8);
    assert_eq!(r, Ok(()));
    assert_eq!(b, vec![0, 0, 0, 0, 0xff, 0xff, 0xff, 0xfe]);
    assert_eq!(be(&b) as u32 as i32, -2);

    let (_, b) = encode(&4000000000u32, Endian::Little, 8);
    assert_eq!(le(&b) as u32, 4000000000u32);

    let (_, b) = encode(&i64::MIN, Endian::Big, 8);
    assert_eq!(be(&b) as i64, i64::MIN);

    let (_, b) = encode(&u64::MAX, Endian::Little, 8);
    assert_eq!(b, vec![0xff; 8]);

    let f = F32Value { bits: 1.5f32.to_bits() };
    let (_, b) = encode(&f, Endian::Little, 8);
    assert_eq!(f32::from_bits(le(&b) as u32), 1.5f32);

    let g = F64Value { bits: (-0.25f64).to_bits() };
    let (_, b) = encode(&g, Endian::Big, 8);
    assert_eq!(f64::from_bits(be(&b)), -0.25f64);
}

#[test]
fn numeric_value_does_not_fit() {
    let mut w = ByteView::from_bytes(vec![9, 9, 9, 9, 9, 9, 9, 9, 9], Endian::Little);
    w.set_position(2);
    assert_eq!(7u64.write_to_writer(Endian::Little, &mut w), Err(WriteError::RegionTooSmall));
    assert_eq!(w.as_slice(), &[9, 9, 9, 9, 9, 9, 9, 9, 9]);
    assert_eq!(w.position(), 2);
}

#[test]
fn text_encodes_with_terminator() {
    let (r, b) = encode(&String::from("abc"), ENDIAN, 4);
    assert_eq!(r, Ok(()));
    assert_eq!(b, vec![0x61, 0x62, 0x63, 0x00]);
    let (r, b) = encode(&String::new(), ENDIAN, 2);
    assert_eq!(r, Ok(()));
    assert_eq!(b, vec![0, 0]);
}

#[test]
fn text_with_zero_byte_fails() {
    let mut w = ByteView::from_bytes(vec![7; 8], Endian::Little);
    assert_eq!(String::from("a\0b").write_to_writer(ENDIAN, &mut w), Err(WriteError::InteriorNul));
    assert_eq!(w.as_slice(), &[7; 8]);
    assert_eq!(w.position(), 0);
}

#[test]
fn text_does_not_fit() {
    let mut w = ByteView::from_bytes(vec![7; 3], Endian::Little);
    assert_eq!(String::from("abc").write_to_writer(ENDIAN, &mut w), Err(WriteError::RegionTooSmall));
    assert_eq!(w.as_slice(), &[7; 3]);
}

#[test]
fn name_length_bound() {
    let long = "n".repeat(METRIC_NAME_MAX_LEN);
    let ok = "n".repeat(METRIC_NAME_MAX_LEN - 1);
    assert!(Metric::try_new(&long, 1, Semamtics::Counter, 0, 1u64, "", "").is_none());
    let m = Metric::try_new(&ok, 1, Semamtics::Counter, 0, 1u64, "", "").unwrap();
    assert_eq!(m.name(), ok.as_str());
}

#[test]
fn help_length_bound() {
    let long = "h".repeat(STRING_BLOCK_LEN);
    let ok = "h".repeat(STRING_BLOCK_LEN - 1);
    assert!(Metric::try_new("m", 1, Semamtics::Instant, 0, 1u32, &long, "").is_none());
    assert!(Metric::try_new("m", 1, Semamtics::Instant, 0, 1u32, "", &long).is_none());
    let m = Metric::try_new("m", 1, Semamtics::Instant, 0, 1u32, &ok, &ok).unwrap();
    assert_eq!(m.shorthelp(), ok.as_str());
    assert_eq!(m.longhelp(), ok.as_str());
}

#[test]
fn item_keeps_low_ten_bits() {
    let m = Metric::new("m", 1034, Semamtics::Discrete, 0, 0i32, "", "");
    assert_eq!(m.item(), 10);
    let m = Metric::new("m", 1023, Semamtics::Discrete, 0, 0i32, "", "");
    assert_eq!(m.item(), 1023);
    let m = Metric::new("m", u32::MAX, Semamtics::Discrete, 0, 0i32, "", "");
    assert_eq!(m.item(), 1023);
}

#[test]
fn new_metric_metadata() {
    let m = Metric::new("cpu.load", 7, Semamtics::Instant, 42, -3i64, "short", "long text");
    assert_eq!(m.name(), "cpu.load");
    assert_eq!(m.item(), 7);
    assert_eq!(*m.sem(), Semamtics::Instant);
    assert_eq!(m.dim(), 42);
    assert_eq!(m.indom(), 0);
    assert_eq!(m.shorthelp(), "short");
    assert_eq!(m.longhelp(), "long text");
    assert_eq!(m.type_code(), I64_METRIC_TYPE_CODE);
    assert_eq!(m.val(), -3i64);
}

#[test]
fn semantics_codes() {
    assert_eq!(Semamtics::Counter.code(), 1);
    assert_eq!(Semamtics::Instant.code(), 3);
    assert_eq!(Semamtics::Discrete.code(), 4);
}

#[test]
fn set_val_then_read_back() {
    let mut m = Metric::new("m", 1, Semamtics::Counter, 0, 0u64, "", "");
    assert_eq!(m.set_val(0x1122334455667788), Ok(()));
    assert_eq!(m.val(), 0x1122334455667788);
    assert_eq!(le(m.mmap_view().as_slice()), 0x1122334455667788);
    assert_eq!(m.mmap_view().len(), STRING_BLOCK_LEN);
    assert!(m.mmap_view().as_slice()[8..].iter().all(|b| *b == 0));
    let mut out = ByteView::zeroed(8, Endian::Little);
    assert_eq!(m.write_value(&mut out), Ok(()));
    assert_eq!(le(out.as_slice()), 0x1122334455667788);

    let mut m = Metric::new("m", 1, Semamtics::Counter, 0, 0i32, "", "");
    m.set_mmap_view(ByteView::zeroed(8, Endian::Little));
    assert_eq!(m.set_val(-5), Ok(()));
    assert_eq!(m.val(), -5);
    assert_eq!(le(m.mmap_view().as_slice()) as u32 as i32, -5);
    m.set_mmap_view(ByteView::zeroed(4, Endian::Little));
    assert_eq!(m.set_val(6), Err(WriteError::RegionTooSmall));
    assert_eq!(m.val(), 6);
    assert_eq!(m.mmap_view().as_slice(), &[0, 0, 0, 0]);
}

#[test]
fn set_val_text() {
    let mut m = Metric::new("m", 1, Semamtics::Discrete, 0, String::from("x"), "", "");
    m.set_mmap_view(ByteView::from_bytes(vec![5; 6], Endian::Little));
    assert_eq!(m.set_val(String::from("hey")), Ok(()));
    assert_eq!(m.val(), "hey");
    assert_eq!(m.mmap_view().as_slice(), &[b'h', b'e', b'y', 0, 5, 5]);
    let mut out = ByteView::from_bytes(vec![5; 6], Endian::Little);
    assert_eq!(m.write_value(&mut out), Ok(()));
    assert_eq!(out.as_slice(), &[b'h', b'e', b'y', 0, 5, 5]);
    assert_eq!(m.set_val(String::from("n\0")), Err(WriteError::InteriorNul));
    assert_eq!(m.val(), "n\0");
    assert_eq!(m.mmap_view().as_slice(), &[b'h', b'e', b'y', 0, 5, 5]);
}

#[test]
fn write_value_at_cursor_position() {
    let mut m = Metric::new("m", 1, Semamtics::Counter, 0, 3u32, "", "");
    let mut cursor = ByteView::from_bytes(vec![1; 12], Endian::Little);
    cursor.set_position(2);
    assert_eq!(m.write_value(&mut cursor), Ok(()));
    assert_eq!(cursor.as_slice(), &[1, 1, 3, 0, 0, 0, 0, 0, 0, 0, 1, 1]);
    assert_eq!(cursor.position(), 10);
    assert_eq!(m.write_value(&mut cursor), Err(WriteError::RegionTooSmall));
    assert_eq!(cursor.position(), 10);
}

#[test]
fn placeholder_region_is_a_zeroed_text_block() {
    let mut m = Metric::new("m", 1, Semamtics::Counter, 0, 9u64, "", "");
    assert_eq!(m.set_val(9), Ok(()));
    let mut long = Metric::new("m", 1, Semamtics::Counter, 0, String::new(), "", "");
    let text = "t".repeat(STRING_BLOCK_LEN - 1);
    assert_eq!(m.mmap_view().as_slice()[..8], [9, 0, 0, 0, 0, 0, 0, 0]);
    assert_eq!(long.set_val(text.clone()), Ok(()));
    assert_eq!(&long.mmap_view().as_slice()[..STRING_BLOCK_LEN - 1], text.as_bytes());
    assert_eq!(long.mmap_view().as_slice()[STRING_BLOCK_LEN - 1], 0);
    assert_eq!(long.set_val("t".repeat(STRING_BLOCK_LEN)), Err(WriteError::RegionTooSmall));
    let v = ByteView::zeroed(STRING_BLOCK_LEN, Endian::Little);
    assert_eq!(v.len(), STRING_BLOCK_LEN);
    assert!(v.as_slice().iter().all(|b| *b == 0));
}

#[test]
fn set_val_uses_region_byte_order() {
    let mut m = Metric::new("m", 1, Semamtics::Counter, 0, 0u64, "", "");
    m.set_mmap_view(ByteView::zeroed(8, Endian::Big));
    assert_eq!(m.set_val(0x0102030405060708), Ok(()));
    assert_eq!(m.mmap_view().as_slice(), &[1, 2, 3, 4, 5, 6, 7, 8]);
    assert_eq!(m.mmap_view().order(), Endian::Big);
    let mut m = Metric::new("m", 1, Semamtics::Counter, 0, 0u64, "", "");
    assert_eq!(m.mmap_view().order(), ENDIAN);
    assert_eq!(m.set_val(0x0102030405060708), Ok(()));
    assert_eq!(&m.mmap_view().as_slice()[..8], &[8, 7, 6, 5, 4, 3, 2, 1]);
}

#[test]
fn write_value_bytes_for_negative_i32() {
    let mut m = Metric::new("m", 1, Semamtics::Counter, 0, -1i32, "", "");
    let mut c = ByteView::zeroed(8, Endian::Little);
    assert_eq!(m.write_value(&mut c), Ok(()));
    assert_eq!(c.position(), 8);
    assert_eq!(c.as_slice(), &[0xff, 0xff, 0xff, 0xff, 0, 0, 0, 0]);
    let mut c = ByteView::zeroed(8, Endian::Big);
    assert_eq!(m.write_value(&mut c), Ok(()));
    assert_eq!(c.as_slice(), &[0, 0, 0, 0, 0xff, 0xff, 0xff, 0xff]);
}

#[test]
fn write_value_bytes_for_f64() {
    let mut m = Metric::new("m", 1, Semamtics::Instant, 0, F64Value { bits: 1.0f64.to_bits() }, "", "");
    let mut c = ByteView::zeroed(8, Endian::Little);
    assert_eq!(m.write_value(&mut c), Ok(()));
    assert_eq!(c.as_slice(), &[0, 0, 0, 0, 0, 0, 0xf0, 0x3f]);
    let mut c = ByteView::zeroed(8, Endian::Big);
    assert_eq!(m.write_value(&mut c), Ok(()));
    assert_eq!(c.as_slice(), &[0x3f, 0xf0, 0, 0, 0, 0, 0, 0]);
}

#[test]
fn rebind_and_write_keep_value() {
    let mut m = Metric::new("m", 1, Semamtics::Discrete, 0, String::from("a\0"), "", "");
    let mut c = ByteView::zeroed(8, Endian::Little);
    assert_eq!(m.write_value(&mut c), Err(WriteError::InteriorNul));
    assert_eq!(c.as_slice(), &[0; 8]);
    assert_eq!(c.position(), 0);
    assert_eq!(m.val(), "a\0");
    m.set_mmap_view(ByteView::from_bytes(vec![4; 3], Endian::Big));
    assert_eq!(m.val(), "a\0");
    assert_eq!(m.mmap_view().as_slice(), &[4, 4, 4]);
}
