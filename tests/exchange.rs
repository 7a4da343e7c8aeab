use gutters::{
    hail, pick_up, pick_up_and_hail, throw, throw_and_wait, wait, Gutter, Log, MemGutter,
    HAIL_BYTE,
};
use std::io::ErrorKind;

/// Throws `v` from a fresh end, carries the bytes over, and picks them up on
/// the other end into `out`.
fn carry<T: Log>(v: &T, out: &mut T) -> usize {
    let mut a = MemGutter::new();
    let mut b = MemGutter::new();
    throw(&mut a, v).unwrap();
    a.forward(0, &mut b);
    let sent = a.written().len();
    pick_up(&mut b, out).unwrap();
    assert_eq!(b.available(), 0);
    sent
}

#[test]
fn round_trip_unsigned() {
    let mut x8: u8 = 0;
    assert_eq!(carry(&0xA5u8, &mut x8), 1);
    assert_eq!(x8, 0xA5);
    let mut x16: u16 = 0;
    assert_eq!(carry(&0xBEEFu16, &mut x16), 2);
    assert_eq!(x16, 0xBEEF);
    let mut x32: u32 = 0;
    assert_eq!(carry(&0xDEAD_BEEFu32, &mut x32), 4);
    assert_eq!(x32, 0xDEAD_BEEF);
    let mut x64: u64 = 0;
    assert_eq!(carry(&u64::MAX, &mut x64), 8);
    assert_eq!(x64, u64::MAX);
    assert_eq!(carry(&0x0102_0304_0506_0708u64, &mut x64), 8);
    assert_eq!(x64, 0x0102_0304_0506_0708);
}

#[test]
fn round_trip_signed() {
    let mut x8: i8 = 0;
    carry(&-128i8, &mut x8);
    assert_eq!(x8, -128);
    let mut x16: i16 = 0;
    carry(&-2i16, &mut x16);
    assert_eq!(x16, -2);
    let mut x32: i32 = 0;
    carry(&i32::MIN, &mut x32);
    assert_eq!(x32, i32::MIN);
    let mut x64: i64 = 0;
    carry(&-42i64, &mut x64);
    assert_eq!(x64, -42);
}

#[test]
fn round_trip_float_bits() {
    let v = -1234.5678f64;
    let mut bits: u64 = 0;
    carry(&v.to_bits(), &mut bits);
    assert_eq!(f64::from_bits(bits).to_bits(), v.to_bits());
}

#[test]
fn image_is_native_memory_order() {
    let mut a = MemGutter::new();
    throw(&mut a, &0x0102_0304u32).unwrap();
    assert_eq!(a.written(), 0x0102_0304u32.to_ne_bytes().to_vec());
    throw(&mut a, &-2i16).unwrap();
    let mut expected = 0x0102_0304u32.to_ne_bytes().to_vec();
    expected.extend_from_slice(&(-2i16).to_ne_bytes());
    assert_eq!(a.written(), expected);
}

#[test]
fn pick_up_reads_native_memory_order() {
    let mut b = MemGutter::with_incoming(0x1122_3344_5566_7788u64.to_ne_bytes().to_vec());
    let mut x: u64 = 0;
    pick_up(&mut b, &mut x).unwrap();
    assert_eq!(x, 0x1122_3344_5566_7788);
}

#[test]
fn pick_up_consumes_exactly_the_width() {
    let mut b = MemGutter::with_incoming(vec![1, 2, 3, 4, 5, 6, 7]);
    let mut x: u32 = 0;
    pick_up(&mut b, &mut x).unwrap();
    assert_eq!(x, u32::from_ne_bytes([1, 2, 3, 4]));
    assert_eq!(b.available(), 3);
    let mut y: u8 = 0;
    pick_up(&mut b, &mut y).unwrap();
    assert_eq!(y, 5);
    let mut z: u16 = 0;
    pick_up(&mut b, &mut z).unwrap();
    assert_eq!(z, u16::from_ne_bytes([6, 7]));
    assert_eq!(b.available(), 0);
}

#[test]
fn short_stream_fails() {
    let mut b = MemGutter::with_incoming(vec![1, 2, 3]);
    let mut x: u32 = 77;
    let e = pick_up(&mut b, &mut x).unwrap_err();
    assert_eq!(e.kind(), ErrorKind::UnexpectedEof);
    assert_eq!(x, 77);
}

#[test]
fn empty_stream_fails() {
    let mut b = MemGutter::new();
    let mut x: u8 = 9;
    let e = pick_up(&mut b, &mut x).unwrap_err();
    assert_eq!(e.kind(), ErrorKind::UnexpectedEof);
    assert_eq!(x, 9);
    let e = wait(&mut b).unwrap_err();
    assert_eq!(e.kind(), ErrorKind::UnexpectedEof);
}

#[test]
fn hail_then_wait_on_the_other_end() {
    let mut a = MemGutter::new();
    let mut b = MemGutter::new();
    hail(&mut a).unwrap();
    assert_eq!(a.written(), vec![0x0A]);
    assert_eq!(HAIL_BYTE, b'\n');
    a.forward(0, &mut b);
    wait(&mut b).unwrap();
    assert_eq!(b.available(), 0);
}

#[test]
fn wait_accepts_any_byte() {
    let mut b = MemGutter::with_incoming(vec![0x00, 0xFF, b'x']);
    wait(&mut b).unwrap();
    wait(&mut b).unwrap();
    wait(&mut b).unwrap();
    assert!(wait(&mut b).is_err());
}

#[test]
fn pick_up_and_hail_skips_hail_when_read_fails() {
    let mut b = MemGutter::with_incoming(vec![1, 2]);
    let mut x: u32 = 5;
    let e = pick_up_and_hail(&mut b, &mut x).unwrap_err();
    assert_eq!(e.kind(), ErrorKind::UnexpectedEof);
    assert!(b.written().is_empty());
    assert_eq!(x, 5);
}

#[test]
fn pick_up_and_hail_reads_then_hails() {
    let mut b = MemGutter::with_incoming(vec![3, 4, 9]);
    let mut x: u16 = 0;
    pick_up_and_hail(&mut b, &mut x).unwrap();
    assert_eq!(x, u16::from_ne_bytes([3, 4]));
    assert_eq!(b.written(), vec![0x0A]);
    assert_eq!(b.available(), 1);
}

#[test]
fn throw_and_wait_skips_wait_when_write_fails() {
    let mut a = MemGutter::with_incoming(vec![b'\n']);
    a.lose_peer();
    let e = throw_and_wait(&mut a, &7u64).unwrap_err();
    assert_eq!(e.kind(), ErrorKind::BrokenPipe);
    assert_eq!(a.available(), 1);
    assert!(a.written().is_empty());
}

#[test]
fn throw_and_wait_writes_then_waits() {
    let mut a = MemGutter::with_incoming(vec![0x41, 0x42]);
    throw_and_wait(&mut a, &0x0506u16).unwrap();
    assert_eq!(a.written(), 0x0506u16.to_ne_bytes().to_vec());
    assert_eq!(a.available(), 1);
}

#[test]
fn throw_and_wait_fails_without_answer() {
    let mut a = MemGutter::new();
    let e = throw_and_wait(&mut a, &1u8).unwrap_err();
    assert_eq!(e.kind(), ErrorKind::UnexpectedEof);
    assert_eq!(a.written(), vec![1]);
}

/// End A of a pipe whose other end, B, answers each log of eight bytes with
/// `pick_up_and_hail` as soon as it arrives.
struct Answering {
    a: MemGutter,
    b: MemGutter,
    received: u64,
    b_answered: bool,
}

impl Gutter for Answering {
    fn read_exact(&mut self, n: usize) -> std::io::Result<Vec<u8>> {
        self.a.read_exact(n)
    }

    fn write_all(&mut self, bytes: &[u8]) -> std::io::Result<()> {
        let from = self.a.written().len();
        let r = self.a.write_all(bytes);
        self.a.forward(from, &mut self.b);
        if self.b.available() >= 8 {
            let from_b = self.b.written().len();
            pick_up_and_hail(&mut self.b, &mut self.received).unwrap();
            self.b_answered = true;
            self.b.forward(from_b, &mut self.a);
        }
        r
    }
}

#[test]
fn float_crosses_with_handshake() {
    let mut ends = Answering {
        a: MemGutter::new(),
        b: MemGutter::new(),
        received: 0,
        b_answered: false,
    };
    throw_and_wait(&mut ends, &42.0f64.to_bits()).unwrap();
    assert!(ends.b_answered);
    assert_eq!(f64::from_bits(ends.received), 42.0);
    assert_eq!(ends.a.written().len(), 8);
    assert_eq!(ends.b.written(), vec![0x0A]);
    assert_eq!(ends.a.available(), 0);
    assert_eq!(ends.b.available(), 0);
}

#[test]
fn float_crosses_step_by_step() {
    let mut a = MemGutter::new();
    let mut b = MemGutter::new();
    throw(&mut a, &42.0f64.to_bits()).unwrap();
    a.forward(0, &mut b);
    let mut x: u64 = 0;
    pick_up_and_hail(&mut b, &mut x).unwrap();
    b.forward(0, &mut a);
    wait(&mut a).unwrap();
    assert_eq!(f64::from_bits(x), 42.0);
    assert_eq!(a.written().len(), 8);
    assert_eq!(b.written().len(), 1);
}

#[test]
fn throw_to_closed_peer_fails() {
    let mut a = MemGutter::new();
    a.lose_peer();
    let e = throw(&mut a, &42.0f64.to_bits()).unwrap_err();
    assert_eq!(e.kind(), ErrorKind::BrokenPipe);
    assert!(a.written().is_empty());
    let e = hail(&mut a).unwrap_err();
    assert_eq!(e.kind(), ErrorKind::BrokenPipe);
}

#[test]
fn round_trip_byte_array() {
    let mut out = [0u8; 5];
    assert_eq!(carry(&[9u8, 8, 7, 6, 5], &mut out), 5);
    assert_eq!(out, [9, 8, 7, 6, 5]);
}

#[test]
fn array_is_sent_as_is() {
    let mut a = MemGutter::new();
    throw(&mut a, &[1u8, 2, 3]).unwrap();
    assert_eq!(a.written(), vec![1, 2, 3]);
    let mut b = MemGutter::with_incoming(vec![4, 5]);
    let mut x = [0u8; 3];
    assert_eq!(pick_up(&mut b, &mut x).unwrap_err().kind(), ErrorKind::UnexpectedEof);
    assert_eq!(x, [0, 0, 0]);
}

#[test]
fn log_bytes_round_trip() {
    let bytes = 0xCAFEu16.to_bytes();
    assert_eq!(bytes, 0xCAFEu16.to_ne_bytes().to_vec());
    assert_eq!(u16::from_bytes(&bytes), 0xCAFE);
    assert_eq!(<u64 as Log>::byte_width(), 8);
    assert_eq!(<[u8; 6] as Log>::byte_width(), 6);
    assert_eq!(i32::from_bytes(&(-7i32).to_ne_bytes()), -7);
}
