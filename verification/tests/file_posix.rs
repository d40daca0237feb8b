use std::cell::RefCell;
use std::collections::HashMap;
use std::rc::Rc;

use rust_base::blocking::{
    Access, FileError, FileRequest, FileStep, FileTask, Host, OpenFlags, Reply, Transfer,
};
use rust_base::file_posix::{FilePosix, Posting};

const ENOENT: i32 = 2;
const EBADF: i32 = 9;
const EINVAL: i32 = 22;
const POOL: u32 = 7;
const IO: u32 = 3;

type Answer<T> = Result<T, FileError<i32>>;

struct Sim;

impl Host for Sim {
    type BlockingRunner = u32;
    type IoRunner = u32;
    type ReadCallback = Box<dyn FnOnce(u32, Answer<Vec<u8>>)>;
    type WriteCallback = Box<dyn FnOnce(u32, Answer<usize>)>;
    type DoneCallback = Box<dyn FnOnce(u32, Answer<()>)>;
    type Error = i32;
}

/// Files in memory, and the descriptors that are open.
#[derive(Default)]
struct Disk {
    files: HashMap<Vec<u8>, Vec<u8>>,
    open: HashMap<i32, (Vec<u8>, OpenFlags)>,
    next_fd: i32,
    errno: i32,
    // The most that one read transfers.
    most: Option<usize>,
    calls: Vec<&'static str>,
}

impl Disk {
    fn open(&mut self, cpath: &[u8], flags: OpenFlags) -> i32 {
        self.calls.push("open");
        assert_eq!(cpath.last(), Some(&0));
        assert!(flags.close_on_exec);
        let path = cpath[..cpath.len() - 1].to_vec();
        if !self.files.contains_key(&path) {
            if !flags.create {
                self.errno = ENOENT;
                return -1;
            }
            self.files.insert(path.clone(), Vec::new());
        }
        self.next_fd += 1;
        self.open.insert(self.next_fd, (path, flags));
        self.next_fd
    }

    fn pread(&mut self, fd: i32, buf: &mut [u8], offset: i64) -> isize {
        self.calls.push("pread");
        assert!(buf.iter().all(|b| *b == 0));
        let (path, flags) = match self.open.get(&fd) {
            Some(file) => file,
            None => {
                self.errno = EBADF;
                return -1;
            }
        };
        assert_eq!(flags.access, Access::ReadOnly);
        if offset < 0 {
            self.errno = EINVAL;
            return -1;
        }
        let contents = &self.files[path];
        let start = (offset as usize).min(contents.len());
        let n = buf.len().min(contents.len() - start).min(self.most.unwrap_or(usize::MAX));
        buf[..n].copy_from_slice(&contents[start..start + n]);
        n as isize
    }

    fn write(&mut self, fd: i32, data: &[u8], offset: i64) -> isize {
        self.calls.push("write");
        let (path, flags) = match self.open.get(&fd) {
            Some(file) => file,
            None => {
                self.errno = EBADF;
                return -1;
            }
        };
        assert_eq!(flags.access, Access::WriteOnly);
        if offset < 0 {
            self.errno = EINVAL;
            return -1;
        }
        let contents = self.files.get_mut(path).unwrap();
        let start = if flags.append { contents.len() } else { offset as usize };
        if contents.len() < start + data.len() {
            contents.resize(start + data.len(), 0);
        }
        contents[start..start + data.len()].copy_from_slice(data);
        data.len() as isize
    }

    fn close(&mut self, fd: i32) {
        self.calls.push("close");
        assert!(self.open.remove(&fd).is_some());
    }

    fn read_file(&mut self, path: &[u8]) -> Result<Vec<u8>, i32> {
        self.calls.push("read_file");
        self.files.get(path).cloned().ok_or(ENOENT)
    }
}

type SharedDisk = Rc<RefCell<Disk>>;

fn new_disk() -> SharedDisk {
    Rc::new(RefCell::new(Disk::default()))
}

/// Does what the blocking runner and the I/O runner do with a posted task.
fn carry_out(disk: &SharedDisk, posting: Posting<Sim>) {
    assert_eq!(*posting.runner, POOL);
    let mut step = posting.task.start();
    loop {
        step = match step {
            FileStep::Open { path, flags, mode, resume } => {
                assert_eq!(mode, if flags.create { Some(0o666) } else { None });
                let mut d = disk.borrow_mut();
                let fd = d.open(&path, flags);
                resume.opened(fd, d.errno)
            }
            FileStep::Pread { fd, mut buf, start, offset, resume } => {
                let n = disk.borrow_mut().pread(fd, &mut buf[start..], offset);
                resume.transferred(n, buf)
            }
            FileStep::Pwrite { fd, data, offset, resume } => {
                let n = disk.borrow_mut().write(fd, &data, offset);
                resume.transferred(n)
            }
            FileStep::Write { fd, data, resume } => {
                let n = disk.borrow_mut().write(fd, &data, 0);
                resume.transferred(n)
            }
            FileStep::Close { fd, resume } => {
                disk.borrow_mut().close(fd);
                let errno = disk.borrow().errno;
                resume.closed(errno)
            }
            FileStep::ReadFile { path, resume } => {
                let result = disk.borrow_mut().read_file(&path);
                resume.finished(result)
            }
            FileStep::WriteFile { path, data, resume } => {
                disk.borrow_mut().files.insert(path, data);
                resume.finished(Ok(()))
            }
            FileStep::Post { io, reply } => {
                match reply {
                    Reply::Read { cb, result } => cb(io, result),
                    Reply::Write { cb, result } => cb(io, result),
                    Reply::Done { cb, result } => cb(io, result),
                }
                return;
            }
        };
    }
}

fn file(path: &[u8]) -> FilePosix<Sim> {
    FilePosix::new(path.to_vec(), POOL)
}

fn put(disk: &SharedDisk, path: &[u8], contents: &[u8]) {
    disk.borrow_mut().files.insert(path.to_vec(), contents.to_vec());
}

fn get(disk: &SharedDisk, path: &[u8]) -> Vec<u8> {
    disk.borrow().files[path].clone()
}

/// Reads and returns the answer.
fn read(disk: &SharedDisk, path: &[u8], offset: u64, len: usize) -> Answer<Vec<u8>> {
    let answer = Rc::new(RefCell::new(None));
    let a = Rc::clone(&answer);
    let f = file(path);
    carry_out(
        disk,
        f.read(offset, len, Some(IO), Box::new(move |_, r| *a.borrow_mut() = Some(r))),
    );
    let r = answer.borrow_mut().take().unwrap();
    r
}

/// Writes and returns the answer.
fn write(disk: &SharedDisk, path: &[u8], offset: u64, data: &[u8]) -> Answer<usize> {
    let answer = Rc::new(RefCell::new(None));
    let a = Rc::clone(&answer);
    let f = file(path);
    carry_out(
        disk,
        f.write(offset, data.to_vec(), Some(IO), Box::new(move |_, r| *a.borrow_mut() = Some(r))),
    );
    let r = answer.borrow_mut().take().unwrap();
    r
}

#[test]
fn read_all_delivers_file_contents() {
    let disk = new_disk();
    put(&disk, b"/f", b"hello world");
    let received = Rc::new(RefCell::new(Vec::new()));

    let r = Rc::clone(&received);
    let f = file(b"/f");
    carry_out(&disk, f.read_all(Some(IO), Box::new(move |_, result| *r.borrow_mut() = result.unwrap())));

    assert_eq!(*received.borrow(), b"hello world");
}

#[test]
fn read_at_offset_returns_partial_data() {
    let disk = new_disk();
    put(&disk, b"/f", b"abcdefghij");
    assert_eq!(read(&disk, b"/f", 3, 4).unwrap(), b"defg");
}

#[test]
fn write_at_offset_modifies_file() {
    let disk = new_disk();
    put(&disk, b"/f", b"0000000000");
    assert_eq!(write(&disk, b"/f", 3, b"XYZ").unwrap(), 3);

    let contents = get(&disk, b"/f");
    assert_eq!(&contents[..3], b"000");
    assert_eq!(&contents[3..6], b"XYZ");
    assert_eq!(&contents[6..], b"0000");
}

#[test]
fn write_all_creates_and_truncates_file() {
    let disk = new_disk();
    // Pre-populate with longer content to verify truncation.
    put(&disk, b"/f", b"old long content here");

    let f = file(b"/f");
    carry_out(&disk, f.write_all(b"new".to_vec(), Some(IO), Box::new(|_, result| result.unwrap())));

    assert_eq!(get(&disk, b"/f"), b"new");
}

#[test]
fn append_grows_file_across_calls() {
    let disk = new_disk();
    let f = file(b"/f");
    let file2 = file(b"/f");
    let d = Rc::clone(&disk);
    carry_out(
        &disk,
        f.append(
            b"foo".to_vec(),
            Some(IO),
            Box::new(move |io, result| {
                result.unwrap();
                carry_out(
                    &d,
                    file2.append(b"bar".to_vec(), Some(io), Box::new(|_, result| {
                        result.unwrap();
                    })),
                );
            }),
        ),
    );

    assert_eq!(get(&disk, b"/f"), b"foobar");
}

#[test]
fn callback_fires_on_io_thread() {
    let disk = new_disk();
    put(&disk, b"/f", b"check");
    let on_io = Rc::new(RefCell::new(None));

    let o = Rc::clone(&on_io);
    let f = file(b"/f");
    carry_out(
        &disk,
        f.read_all(
            Some(IO),
            Box::new(move |io, result| {
                result.unwrap();
                *o.borrow_mut() = Some(io);
            }),
        ),
    );

    assert_eq!(*on_io.borrow(), Some(IO), "callback must run on the IO thread");
}

#[test]
fn read_nonexistent_file_returns_error() {
    let disk = new_disk();
    let got_error = Rc::new(RefCell::new(false));

    let e = Rc::clone(&got_error);
    let f = file(b"/missing"); // never written to
    carry_out(&disk, f.read_all(Some(IO), Box::new(move |_, result| *e.borrow_mut() = result.is_err())));

    assert!(*got_error.borrow());
}

#[test]
fn chained_write_then_read() {
    let disk = new_disk();
    let received = Rc::new(RefCell::new(Vec::new()));

    let r = Rc::clone(&received);
    let d = Rc::clone(&disk);
    let f = file(b"/f");
    let file2 = file(b"/f");
    carry_out(
        &disk,
        f.write_all(
            b"round-trip".to_vec(),
            Some(IO),
            Box::new(move |io, result| {
                result.unwrap();
                // Chain: read the file back from inside the write callback.
                carry_out(
                    &d,
                    file2.read_all(Some(io), Box::new(move |_, result| {
                        *r.borrow_mut() = result.unwrap();
                    })),
                );
            }),
        ),
    );

    assert_eq!(*received.borrow(), b"round-trip");
}

#[test]
fn a_read_opens_reads_and_closes() {
    let disk = new_disk();
    put(&disk, b"/f", b"abc");
    assert_eq!(read(&disk, b"/f", 0, 3).unwrap(), b"abc");
    assert_eq!(disk.borrow().calls, ["open", "pread", "close"]);

    // More than the file holds: one more call finds its end.
    disk.borrow_mut().calls.clear();
    assert_eq!(read(&disk, b"/f", 0, 16).unwrap(), b"abc");
    assert_eq!(disk.borrow().calls, ["open", "pread", "pread", "close"]);
    assert!(disk.borrow().open.is_empty());
}

#[test]
fn a_read_behind_the_end_delivers_nothing() {
    let disk = new_disk();
    put(&disk, b"/f", b"abc");
    assert_eq!(read(&disk, b"/f", 3, 4).unwrap(), b"");
    assert_eq!(read(&disk, b"/f", 100, 4).unwrap(), b"");
    assert_eq!(read(&disk, b"/f", 0, 0).unwrap(), b"");
}

#[test]
fn a_missing_file_is_reported_with_the_error_of_open() {
    let disk = new_disk();
    match read(&disk, b"/missing", 0, 4) {
        Err(FileError::Io(errno)) => assert_eq!(errno, ENOENT),
        other => panic!("unexpected answer: {:?}", other),
    }
    assert_eq!(disk.borrow().calls, ["open"]);
}

#[test]
fn a_path_with_a_nul_byte_is_refused_without_any_call() {
    let disk = new_disk();
    match read(&disk, b"/a\0b", 0, 4) {
        Err(FileError::InvalidInput(message)) => assert_eq!(message, "path contains null byte"),
        other => panic!("unexpected answer: {:?}", other),
    }
    match write(&disk, b"/a\0b", 0, b"x") {
        Err(FileError::InvalidInput(message)) => assert_eq!(message, "path contains null byte"),
        other => panic!("unexpected answer: {:?}", other),
    }
    assert!(disk.borrow().calls.is_empty());
}

#[test]
fn an_offset_beyond_the_signed_range_is_negative() {
    let disk = new_disk();
    put(&disk, b"/f", b"abc");
    match read(&disk, b"/f", u64::MAX, 1) {
        Err(FileError::Io(errno)) => assert_eq!(errno, EINVAL),
        other => panic!("unexpected answer: {:?}", other),
    }
    match write(&disk, b"/f", 1 << 63, b"x") {
        Err(FileError::Io(errno)) => assert_eq!(errno, EINVAL),
        other => panic!("unexpected answer: {:?}", other),
    }
    assert_eq!(get(&disk, b"/f"), b"abc");
    assert!(disk.borrow().open.is_empty());
}

#[test]
fn a_write_creates_the_file_and_fills_the_gap() {
    let disk = new_disk();
    assert_eq!(write(&disk, b"/f", 2, b"xy").unwrap(), 2);
    assert_eq!(get(&disk, b"/f"), b"\0\0xy");
}

#[test]
fn a_read_gives_back_a_write() {
    let disk = new_disk();
    put(&disk, b"/f", b"..........");
    assert_eq!(write(&disk, b"/f", 4, b"data").unwrap(), 4);
    assert_eq!(read(&disk, b"/f", 4, 4).unwrap(), b"data");
    assert_eq!(read(&disk, b"/f", 4, 2).unwrap(), b"da");
    assert_eq!(read(&disk, b"/f", 4, 5).unwrap(), b"data.");
}

fn ignore_read() -> Box<dyn FnOnce(u32, Answer<Vec<u8>>)> {
    Box::new(|_, _| {})
}

fn ignore_write() -> Box<dyn FnOnce(u32, Answer<usize>)> {
    Box::new(|_, _| {})
}

fn task(transfer: Transfer<Sim>) -> FileTask<Sim> {
    FileTask { path: b"/f".to_vec(), io: IO, request: FileRequest::Transfer(transfer) }
}

#[test]
fn a_failed_transfer_is_reported_with_the_error_after_close() {
    let step = task(Transfer::Read { offset: 0, len: 4, cb: ignore_read() }).start();
    let step = match step {
        FileStep::Open { resume, .. } => resume.opened(5, 0),
        _ => panic!("expected open"),
    };
    let step = match step {
        FileStep::Pread { buf, resume, .. } => resume.transferred(-1, buf),
        _ => panic!("expected pread"),
    };
    let step = match step {
        FileStep::Close { fd, resume } => {
            assert_eq!(fd, 5);
            resume.closed(EBADF)
        }
        _ => panic!("expected close"),
    };
    match step {
        FileStep::Post { io, reply: Reply::Read { result: Err(FileError::Io(errno)), .. } } => {
            assert_eq!(io, IO);
            assert_eq!(errno, EBADF);
        }
        _ => panic!("expected a failed reply"),
    }
}

#[test]
fn a_short_read_goes_on_with_the_rest() {
    let step = task(Transfer::Read { offset: 9, len: 4, cb: ignore_read() }).start();
    let step = match step {
        FileStep::Open { flags, mode, resume, .. } => {
            assert_eq!(flags.access, Access::ReadOnly);
            assert!(!flags.create && !flags.append && flags.close_on_exec);
            assert_eq!(mode, None);
            resume.opened(5, 0)
        }
        _ => panic!("expected open"),
    };
    let step = match step {
        FileStep::Pread { fd, buf, start, offset, resume } => {
            assert_eq!((fd, start, offset), (5, 0, 9));
            assert_eq!(buf, [0; 4]);
            resume.transferred(2, b"ab\0\0".to_vec())
        }
        _ => panic!("expected pread"),
    };
    // Two bytes are missing; the end of the file comes first.
    let step = match step {
        FileStep::Pread { fd, buf, start, offset, resume } => {
            assert_eq!((fd, start, offset), (5, 2, 11));
            assert_eq!(buf, b"ab\0\0");
            resume.transferred(0, buf)
        }
        _ => panic!("expected pread"),
    };
    let step = match step {
        FileStep::Close { resume, .. } => resume.closed(0),
        _ => panic!("expected close"),
    };
    match step {
        FileStep::Post { reply: Reply::Read { result, .. }, .. } => {
            assert_eq!(result.unwrap(), b"ab");
        }
        _ => panic!("expected a reply"),
    }
}

#[test]
fn a_read_delivers_all_bytes_however_few_come_at_a_time() {
    let disk = new_disk();
    put(&disk, b"/f", b"abcdefghij");
    disk.borrow_mut().most = Some(1);
    assert_eq!(read(&disk, b"/f", 3, 4).unwrap(), b"defg");
    assert_eq!(disk.borrow().calls, ["open", "pread", "pread", "pread", "pread", "close"]);

    disk.borrow_mut().most = Some(3);
    assert_eq!(read(&disk, b"/f", 0, 10).unwrap(), b"abcdefghij");
    assert_eq!(read(&disk, b"/f", 4, 100).unwrap(), b"efghij");
    assert!(disk.borrow().open.is_empty());
}

#[test]
fn a_read_that_fails_half_way_is_an_error() {
    let step = task(Transfer::Read { offset: 0, len: 4, cb: ignore_read() }).start();
    let step = match step {
        FileStep::Open { resume, .. } => resume.opened(5, 0),
        _ => panic!("expected open"),
    };
    let step = match step {
        FileStep::Pread { resume, .. } => resume.transferred(3, b"abc\0".to_vec()),
        _ => panic!("expected pread"),
    };
    let step = match step {
        FileStep::Pread { start, buf, resume, .. } => {
            assert_eq!(start, 3);
            resume.transferred(-1, buf)
        }
        _ => panic!("expected pread"),
    };
    let step = match step {
        FileStep::Close { resume, .. } => resume.closed(EBADF),
        _ => panic!("expected close"),
    };
    match step {
        FileStep::Post { reply: Reply::Read { result: Err(FileError::Io(errno)), .. }, .. } => {
            assert_eq!(errno, EBADF);
        }
        _ => panic!("expected a failed reply"),
    }
}

#[test]
fn an_append_writes_at_the_end_and_reports_the_count() {
    let step = task(Transfer::Append { data: b"abc".to_vec(), cb: ignore_write() }).start();
    let step = match step {
        FileStep::Open { path, flags, mode, resume } => {
            assert_eq!(path, b"/f\0");
            assert_eq!(flags.access, Access::WriteOnly);
            assert!(flags.create && flags.append && flags.close_on_exec);
            assert_eq!(mode, Some(0o666));
            resume.opened(8, 0)
        }
        _ => panic!("expected open"),
    };
    let step = match step {
        FileStep::Write { fd, data, resume } => {
            assert_eq!(fd, 8);
            assert_eq!(data, b"abc");
            resume.transferred(2)
        }
        _ => panic!("expected write"),
    };
    let step = match step {
        FileStep::Close { fd, resume } => {
            assert_eq!(fd, 8);
            resume.closed(0)
        }
        _ => panic!("expected close"),
    };
    match step {
        FileStep::Post { reply: Reply::Write { result, .. }, .. } => assert_eq!(result.unwrap(), 2),
        _ => panic!("expected a reply"),
    }
}

#[test]
fn whole_file_errors_are_passed_on() {
    let f = file(b"/f");
    let posting = f.write_all(b"x".to_vec(), Some(IO), Box::new(|_, _| {}));
    let step = match posting.task.start() {
        FileStep::WriteFile { path, data, resume } => {
            assert_eq!(path, b"/f");
            assert_eq!(data, b"x");
            resume.finished(Err(EBADF))
        }
        _ => panic!("expected a whole-file write"),
    };
    match step {
        FileStep::Post { reply: Reply::Done { result: Err(FileError::Io(errno)), .. }, .. } => {
            assert_eq!(errno, EBADF);
        }
        _ => panic!("expected a failed reply"),
    }
}

#[test]
fn requests_on_a_sequenced_runner_take_effect_in_call_order() {
    let disk = new_disk();
    let log = Rc::new(RefCell::new(Vec::new()));
    let f = file(b"/f");

    // Both calls are made before either is carried out.
    let l = Rc::clone(&log);
    let write = f.write_all(
        b"data".to_vec(),
        Some(IO),
        Box::new(move |io, result| {
            result.unwrap();
            l.borrow_mut().push((io, "written".to_string()));
        }),
    );
    let l = Rc::clone(&log);
    let read = f.read_all(
        Some(IO),
        Box::new(move |io, result| {
            let text = String::from_utf8(result.unwrap()).unwrap();
            l.borrow_mut().push((io, text));
        }),
    );
    carry_out(&disk, write);
    carry_out(&disk, read);

    assert_eq!(*log.borrow(), [(IO, "written".to_string()), (IO, "data".to_string())]);
}
