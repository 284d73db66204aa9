use embedded_svc::io::{copy, copy_len, copy_len_with_progress, try_read_full, BytesReader, CopyError, ProgressFn, Read, VecWriter};

#[test]
fn copy_moves_everything() {
    let mut reader = BytesReader::new(vec![1, 2, 3, 4, 5, 6, 7]);
    let mut writer = VecWriter::new();
    let mut buf = [0u8; 3];
    let copied = copy(&mut reader, &mut writer, &mut buf);
    assert!(matches!(copied, Ok(7)));
    assert_eq!(writer.bytes(), &vec![1, 2, 3, 4, 5, 6, 7]);
}

#[test]
fn copy_len_stops_at_len_with_one_byte_buffer() {
    let mut reader = BytesReader::new(vec![9, 8, 7, 6, 5]);
    let mut writer = VecWriter::new();
    let mut buf = [0u8; 1];
    let copied = copy_len(&mut reader, &mut writer, &mut buf, 3);
    assert!(matches!(copied, Ok(3)));
    assert_eq!(writer.bytes(), &vec![9, 8, 7]);
    let mut rest = [0u8; 4];
    assert!(matches!(reader.read(&mut rest), Ok(2)));
    assert_eq!(&rest[..2], &[6, 5]);
}

#[test]
fn copy_through_empty_buffer_moves_nothing() {
    let mut reader = BytesReader::new(vec![1, 2]);
    let mut writer = VecWriter::new();
    let mut buf: [u8; 0] = [];
    assert!(matches!(copy(&mut reader, &mut writer, &mut buf), Ok(0)));
    assert!(writer.bytes().is_empty());
}

#[test]
fn copy_len_with_progress_reports_each_step() {
    let mut reader = BytesReader::new(vec![1, 2, 3, 4]);
    let mut writer = VecWriter::new();
    let mut buf = [0u8; 2];
    let steps = std::cell::RefCell::new(Vec::new());
    let mut progress = ProgressFn::new(|copied, left| steps.borrow_mut().push((copied, left)));
    let result = copy_len_with_progress(&mut reader, &mut writer, &mut buf, 10, &mut progress);
    assert!(matches!(result, Ok(4)));
    assert_eq!(steps.into_inner(), vec![(0, 10), (2, 8), (4, 6), (4, 6)]);
}

#[test]
fn try_read_full_fills_buffer() {
    let mut reader = BytesReader::new(vec![1, 2, 3, 4, 5]);
    let mut buf = [0u8; 3];
    assert!(matches!(try_read_full(&mut reader, &mut buf), Ok(3)));
    assert_eq!(buf, [1, 2, 3]);
    let mut buf2 = [0u8; 4];
    assert!(matches!(try_read_full(&mut reader, &mut buf2), Ok(2)));
    assert_eq!(&buf2[..2], &[4, 5]);
}

struct FailingReader;

impl Read for FailingReader {
    type Error = &'static str;

    fn pending(&self) -> vstd::seq::Seq<u8> {
        unreachable!("a specification, never called at run time")
    }

    fn never_fails(&self) -> bool {
        false
    }

    fn last_error(&self) -> Option<Self::Error> {
        unreachable!("a specification, never called at run time")
    }

    fn reads(&self) -> vstd::prelude::nat {
        unreachable!("a specification, never called at run time")
    }

    fn read(&mut self, _buf: &mut [u8]) -> Result<usize, Self::Error> {
        Err("broken")
    }
}

#[test]
fn copy_reports_read_failure() {
    let mut writer = VecWriter::new();
    let mut buf = [0u8; 4];
    match copy_len(&mut FailingReader, &mut writer, &mut buf, 0) {
        Ok(n) => assert_eq!(n, 0),
        Err(_) => panic!("no read should happen for a zero length"),
    }
    let mut buf = [0u8; 1];
    assert!(matches!(copy_len(&mut FailingReader, &mut writer, &mut buf, 5), Err(CopyError::Read("broken"))));
    let mut buf3 = [0u8; 3];
    assert!(matches!(try_read_full(&mut FailingReader, &mut buf3), Err(("broken", 0))));
}

#[test]
fn copy_len_stops_at_the_length_with_a_larger_source() {
    let mut reader = BytesReader::new((0u8..10).collect());
    let mut writer = VecWriter::new();
    let mut buf = [0u8; 4];
    assert!(matches!(copy_len(&mut reader, &mut writer, &mut buf, 4), Ok(4)));
    assert_eq!(writer.bytes(), &vec![0, 1, 2, 3]);
    let mut writer = VecWriter::new();
    assert!(matches!(copy_len(&mut reader, &mut writer, &mut buf, 5), Ok(5)));
    assert_eq!(writer.bytes(), &vec![4, 5, 6, 7, 8]);
}

#[test]
fn try_read_full_leaves_the_rest_of_the_buffer() {
    let mut reader = BytesReader::new(b"hello".to_vec());
    let mut buf3 = [0u8; 3];
    assert!(matches!(try_read_full(&mut reader, &mut buf3), Ok(3)));
    assert_eq!(&buf3, b"hel");
    let mut reader = BytesReader::new(b"hello".to_vec());
    let mut buf8 = [0u8; 8];
    assert!(matches!(try_read_full(&mut reader, &mut buf8), Ok(5)));
    assert_eq!(&buf8[..5], b"hello");
    assert_eq!(&buf8[5..], &[0u8; 3]);
}

#[test]
fn copy_hands_back_the_source_error() {
    let mut writer = VecWriter::new();
    let mut buf = [0u8; 4];
    assert!(matches!(copy_len(&mut FailingReader, &mut writer, &mut buf, 3), Err(CopyError::Read("broken"))));
    assert!(matches!(try_read_full(&mut FailingReader, &mut buf), Err(("broken", 0))));
}
