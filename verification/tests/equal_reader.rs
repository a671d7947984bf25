use std::io::{Cursor, Read};
use std::sync::mpsc::{channel, Receiver, Sender};
use tiny_http::util::equal_reader::{Drain, EqualReader, DRAIN_BUFFER};

/// A limited reader over a real one, which drains what is left when dropped.
struct Limited<R: Read> {
    state: EqualReader<R>,
    last_read_signal: Sender<std::io::Result<()>>,
}

fn limited<R: Read>(reader: R, size: usize) -> (Limited<R>, Receiver<std::io::Result<()>>) {
    let (tx, rx) = channel();
    let limited = Limited {
        state: EqualReader::new(reader, size),
        last_read_signal: tx,
    };
    (limited, rx)
}

impl<R: Read> Read for Limited<R> {
    fn read(&mut self, buf: &mut [u8]) -> std::io::Result<usize> {
        match self.state.begin_read(buf.len()) {
            None => Ok(0),
            Some(want) => {
                let result = self.state.reader_mut().read(&mut buf[..want]);
                self.state.end_read(result)
            }
        }
    }
}

impl<R: Read> Drop for Limited<R> {
    fn drop(&mut self) {
        let mut drain = self.state.drain();
        while let Some(want) = drain.next_read() {
            assert!(want <= DRAIN_BUFFER);
            let mut buf = vec![0u8; want];
            let result = self.state.reader_mut().read(&mut buf);
            if let Some(signal) = drain.drained(result) {
                self.last_read_signal.send(signal).ok();
            }
        }
    }
}

#[test]
fn test_limit() {
    let mut org_reader = Cursor::new("hello world".to_string().into_bytes());

    {
        let (mut equal_reader, _) = limited(org_reader.by_ref(), 5);

        let mut string = String::new();
        equal_reader.read_to_string(&mut string).unwrap();
        assert_eq!(string, "hello");
    }

    let mut string = String::new();
    org_reader.read_to_string(&mut string).unwrap();
    assert_eq!(string, " world");
}

#[test]
fn test_not_enough() {
    let mut org_reader = Cursor::new("hello world".to_string().into_bytes());

    {
        let (mut equal_reader, _) = limited(org_reader.by_ref(), 5);

        let mut vec = [0];
        equal_reader.read_exact(&mut vec).unwrap();
        assert_eq!(vec[0], b'h');
    }

    let mut string = String::new();
    org_reader.read_to_string(&mut string).unwrap();
    assert_eq!(string, " world");
}

#[test]
fn test_drop_drain_does_not_allocate_declared_size() {
    // A body declaring vastly more than it delivers: dropping the reader must
    // drain what is there and stop at EOF, without allocating the declared size.
    let org_reader = Cursor::new("hello".to_string().into_bytes());
    let (reader, rx) = limited(org_reader, 1 << 40);
    drop(reader);
    assert!(rx.recv().unwrap().is_ok());
}

#[test]
fn reads_ask_for_what_fits_the_buffer_and_the_limit() {
    let mut reader = EqualReader::new((), 10);
    assert_eq!(reader.begin_read(4), Some(4));
    assert_eq!(reader.begin_read(10), Some(10));
    assert_eq!(reader.begin_read(100), Some(10));
    assert_eq!(reader.begin_read(0), Some(0));
    assert_eq!(reader.end_read::<()>(Ok(7)), Ok(7));
    assert_eq!(reader.begin_read(100), Some(3));
    assert_eq!(reader.end_read(Err("broken")), Err("broken"));
    assert_eq!(reader.begin_read(100), Some(3));
    assert_eq!(reader.end_read::<()>(Ok(3)), Ok(3));
    assert_eq!(reader.begin_read(100), None);
}

#[test]
fn a_complete_drain_signals_nothing() {
    let (reader, rx) = limited(Cursor::new(vec![1u8; 10_000]), 10_000);
    drop(reader);
    assert!(rx.recv().is_err());
}

#[test]
fn drains_go_by_the_fixed_buffer() {
    let mut drain: Drain = EqualReader::new((), 5000).drain();
    assert_eq!(drain.next_read(), Some(4096));
    assert_eq!(drain.drained::<()>(Ok(4096)), None);
    assert_eq!(drain.next_read(), Some(904));
    assert_eq!(drain.drained::<()>(Ok(900)), None);
    assert_eq!(drain.next_read(), Some(4));
    assert_eq!(drain.drained::<()>(Ok(4)), None);
    assert_eq!(drain.next_read(), None);
}

#[test]
fn a_failing_drain_signals_the_error_and_stops() {
    let mut drain: Drain = EqualReader::new((), 50).drain();
    assert_eq!(drain.drained(Err("reset")), Some(Err("reset")));
    assert_eq!(drain.next_read(), None);
}

#[test]
fn an_ended_drain_signals_and_stops() {
    let mut drain: Drain = EqualReader::new((), 50).drain();
    assert_eq!(drain.drained::<()>(Ok(20)), None);
    assert_eq!(drain.drained::<()>(Ok(0)), Some(Ok(())));
    assert_eq!(drain.next_read(), None);
}

#[test]
fn nothing_is_drained_at_the_limit() {
    let drain: Drain = EqualReader::new((), 0).drain();
    assert_eq!(drain.next_read(), None);
}

#[test]
fn the_reader_is_left_behind_the_body_however_it_is_split() {
    for first in 0..7 {
        let mut source = Cursor::new(b"abcdefXYZ".to_vec());
        {
            let (mut body, _rx) = limited(source.by_ref(), 6);
            let mut buf = vec![0u8; first];
            body.read_exact(&mut buf).unwrap();
            assert_eq!(&buf[..], &b"abcdef"[..first]);
        }
        let mut rest = String::new();
        source.read_to_string(&mut rest).unwrap();
        assert_eq!(rest, "XYZ");
    }
}

#[test]
fn a_short_source_is_read_to_its_end() {
    let (mut body, rx) = limited(Cursor::new(b"abc".to_vec()), 10);
    let mut bytes = Vec::new();
    body.read_to_end(&mut bytes).unwrap();
    assert_eq!(bytes, b"abc");
    let mut buf = [0u8; 4];
    assert_eq!(body.read(&mut buf).unwrap(), 0);
    drop(body);
    assert!(rx.recv().unwrap().is_ok());
}
