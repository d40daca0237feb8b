use std::sync::{Arc, Mutex};

use rust_base::stream_socket::StreamSocket;

type ReadCallback = Box<dyn FnOnce(Result<Vec<u8>, &'static str>) + Send>;
type WriteCallback = Box<dyn FnOnce(Result<usize, &'static str>) + Send>;

/// Hands back what was written, and accepts a few bytes at a time.
struct Loopback {
    bytes: Mutex<Option<Vec<u8>>>,
    chunk: usize,
}

impl Loopback {
    fn new(chunk: usize) -> Self {
        Loopback { bytes: Mutex::new(Some(Vec::new())), chunk }
    }
}

impl StreamSocket<&'static str, ReadCallback, WriteCallback> for Loopback {
    fn read(&self, len: usize, cb: ReadCallback) {
        let result = match self.bytes.lock().unwrap().as_mut() {
            Some(bytes) => {
                let n = len.min(bytes.len());
                Ok(bytes.drain(..n).collect())
            }
            None => Err("not connected"),
        };
        cb(result);
    }

    fn write(&self, buf: Vec<u8>, cb: WriteCallback) {
        let result = match self.bytes.lock().unwrap().as_mut() {
            Some(bytes) => {
                let n = self.chunk.min(buf.len());
                bytes.extend_from_slice(&buf[..n]);
                Ok(n)
            }
            None => Err("not connected"),
        };
        cb(result);
    }

    fn disconnect(&self) {
        *self.bytes.lock().unwrap() = None;
    }
}

#[test]
fn a_layer_works_over_any_stream() {
    let stream: Arc<dyn StreamSocket<&'static str, ReadCallback, WriteCallback>> =
        Arc::new(Loopback::new(5));

    let accepted = Arc::new(Mutex::new(0));
    let a = Arc::clone(&accepted);
    stream.write(b"hello tls".to_vec(), Box::new(move |r| *a.lock().unwrap() = r.unwrap()));
    assert_eq!(*accepted.lock().unwrap(), 5);

    let received = Arc::new(Mutex::new(Vec::new()));
    let got = Arc::clone(&received);
    stream.read(64, Box::new(move |r| *got.lock().unwrap() = r.unwrap()));
    assert_eq!(*received.lock().unwrap(), b"hello");

    stream.disconnect();
    let failed = Arc::new(Mutex::new(false));
    let f = Arc::clone(&failed);
    stream.read(64, Box::new(move |r| *f.lock().unwrap() = r.is_err()));
    assert!(*failed.lock().unwrap());
}
