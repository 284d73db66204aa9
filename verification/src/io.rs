use vstd::prelude::*;

verus! {

/// A source of bytes, modelled by the bytes it has still to give.
pub trait Read {
    type Error;

    /// The bytes this source will give, in order, before it reports its end.
    spec fn pending(&self) -> Seq<u8>;

    /// Whether this source never reports a failure.
    spec fn never_fails(&self) -> bool;

    /// The failure this source reported last, if any.
    spec fn last_error(&self) -> Option<Self::Error>;

    /// How many reads this source has taken.
    spec fn reads(&self) -> nat;

    /// Reads into the front of `buf` and says how many bytes it read. It reads at least one
    /// byte when `buf` is not empty and bytes are pending; `0` thus means the end of the data.
    fn read(&mut self, buf: &mut [u8]) -> (r: Result<usize, Self::Error>)
        ensures
            final(buf)@.len() == old(buf)@.len(),
            r matches Ok(n) ==> {
                &&& n <= old(buf)@.len()
                &&& n <= old(self).pending().len()
                &&& (old(buf)@.len() > 0 && old(self).pending().len() > 0 ==> n > 0)
                &&& final(buf)@.subrange(0, n as int) == old(self).pending().take(n as int)
                &&& final(buf)@.skip(n as int) == old(buf)@.skip(n as int)
                &&& final(self).pending() == old(self).pending().skip(n as int)
                &&& final(self).never_fails() == old(self).never_fails()
            },
            r is Err ==> final(self).pending() == old(self).pending(),
            r matches Err(e) ==> final(self).last_error() == Some(e),
            final(self).reads() == old(self).reads() + 1,
            old(self).never_fails() ==> r is Ok,
    ;
}

/// A sink of bytes, modelled by the bytes it has taken so far.
pub trait Write {
    type Error;

    /// Everything written so far.
    spec fn written(&self) -> Seq<u8>;

    /// Whether this sink never reports a failure.
    spec fn never_fails(&self) -> bool;

    /// The failure this sink reported last, if any.
    spec fn last_error(&self) -> Option<Self::Error>;

    /// Writes all of `data`.
    fn write_all(&mut self, data: &[u8]) -> (r: Result<(), Self::Error>)
        ensures
            r matches Err(e) ==> final(self).last_error() == Some(e),
            r is Err ==> exists|k: int|
                #![trigger data@.take(k)]
                0 <= k <= data@.len() && final(self).written() == old(self).written() + data@.take(k),
            r is Ok ==> final(self).written() == old(self).written() + data@,
            r is Ok ==> final(self).never_fails() == old(self).never_fails(),
            old(self).never_fails() ==> r is Ok,
    ;
}

/// A failure while copying: of the source or of the sink.
pub enum CopyError<R, W> {
    Read(R),
    Write(W),
}

/// The number of bytes a copy of at most `len` bytes from `pending` through a buffer of
/// `buf_len` bytes moves: none through an empty buffer.
pub open spec fn copy_count(pending: Seq<u8>, len: u64, buf_len: nat) -> nat {
    if buf_len == 0 {
        0
    } else if pending.len() <= len {
        pending.len()
    } else {
        len as nat
    }
}

/// Reads into `buf` until it is full or the source ends, and says how many bytes it read.
/// On a failure of the source, returns that error together with the bytes read before it.
pub fn try_read_full<R: Read>(read: &mut R, buf: &mut [u8]) -> (r: Result<usize, (R::Error, usize)>)
    ensures
        final(buf)@.len() == old(buf)@.len(),
        r matches Ok(size) ==> {
            &&& size as nat == if old(read).pending().len() <= old(buf)@.len() {
                old(read).pending().len()
            } else {
                old(buf)@.len()
            }
            &&& final(buf)@.subrange(0, size as int) == old(read).pending().take(size as int)
            &&& final(buf)@.skip(size as int) == old(buf)@.skip(size as int)
            &&& final(read).pending() == old(read).pending().skip(size as int)
        },
        r matches Err((e, size)) ==> size <= old(buf)@.len() && size <= old(read).pending().len()
            && final(buf)@.subrange(0, size as int) == old(read).pending().take(size as int)
            && final(read).pending() == old(read).pending().skip(size as int)
            && final(read).last_error() == Some(e),
        old(read).never_fails() ==> r is Ok,
{
    let ghost start = read.pending();
    let blen = buf.len();
    let mut offset: usize = 0;
    loop
        invariant_except_break
            blen == buf@.len(),
            offset <= buf@.len(),
            buf@.len() == old(buf)@.len(),
            start == old(read).pending(),
            offset <= start.len(),
            buf@.subrange(0, offset as int) == start.take(offset as int),
            read.pending() == start.skip(offset as int),
            offset < buf@.len() || buf@.len() == 0,
            read.never_fails() == old(read).never_fails(),
            buf@.skip(offset as int) == old(buf)@.skip(offset as int),
        ensures
            buf@.skip(offset as int) == old(buf)@.skip(offset as int),
            read.never_fails() == old(read).never_fails(),
            buf@.len() == old(buf)@.len(),
            start == old(read).pending(),
            offset <= start.len(),
            offset <= buf@.len(),
            buf@.subrange(0, offset as int) == start.take(offset as int),
            read.pending() == start.skip(offset as int),
            offset == buf@.len() || offset == start.len(),
            blen == buf@.len(),
        decreases buf@.len() - offset,
    {
        let ghost before = buf@;
        let (head, rest) = buf.split_at_mut(offset);
        let ghost head_view = head@;
        let ghost rest_before = rest@;
        let res = read.read(rest);
        let ghost rest_after = rest@;
        proof {
            assert(buf@ == head_view + rest_after);
        }
        match res {
            Ok(size_read) => {
                proof {
                    assert(offset + size_read <= blen);
                    assert(buf@.subrange(0, offset as int) == head_view);
                    assert(head_view == before.subrange(0, offset as int));
                    assert(start.skip(offset as int).take(size_read as int)
                        == start.subrange(offset as int, offset + size_read));
                    assert(buf@.subrange(0, (offset + size_read) as int) == head_view
                        + rest_after.subrange(0, size_read as int));
                    assert(start.take((offset + size_read) as int) == start.take(offset as int)
                        + start.subrange(offset as int, offset + size_read));
                    assert(start.skip(offset as int).skip(size_read as int) == start.skip(
                        (offset + size_read) as int,
                    ));
                    assert(rest_before == before.skip(offset as int));
                    assert(buf@.skip((offset + size_read) as int) =~= rest_after.skip(size_read as int));
                    assert(old(buf)@.skip((offset + size_read) as int) =~= rest_before.skip(size_read as int));
                }
                offset = offset + size_read;
                if size_read == 0 || offset == blen {
                    proof {
                        if size_read == 0 && offset < buf@.len() {
                            assert(start.skip(offset as int).len() == 0);
                        }
                    }
                    break;
                }
            },
            Err(e) => {
                proof {
                    assert(buf@.subrange(0, offset as int) == head_view);
                    assert(head_view == before.subrange(0, offset as int));
                }
                return Err((e, offset));
            },
        }
    }
    Ok(offset)
}

/// What a copy is told as it goes: how many bytes have moved and how many may still move.
pub trait Progress {
    /// Every report so far, oldest first.
    spec fn reported(&self) -> Seq<(u64, u64)>;

    /// Whether a report can be taken.
    spec fn ready(&self) -> bool;

    /// Takes the report that `copied` bytes have moved and `left` may still move.
    fn report(&mut self, copied: u64, left: u64)
        requires
            old(self).ready(),
        ensures
            final(self).ready(),
            final(self).reported() == old(self).reported().push((copied, left)),
    ;
}

/// A progress report handed on to the function `f`, each report kept in a log.
pub struct ProgressFn<F> {
    f: F,
    log: Ghost<Seq<(u64, u64)>>,
}

impl<F: Fn(u64, u64)> ProgressFn<F> {
    /// The function the reports are handed to.
    pub closed spec fn function(&self) -> F {
        self.f
    }

    /// Reports handed to `f`, none yet.
    pub fn new(f: F) -> (r: Self)
        ensures
            r.function() == f,
            r.reported() == Seq::<(u64, u64)>::empty(),
            (forall|c: u64, l: u64| f.requires((c, l))) ==> r.ready(),
    {
        ProgressFn { f, log: Ghost(Seq::empty()) }
    }
}

impl<F: Fn(u64, u64)> Progress for ProgressFn<F> {
    closed spec fn reported(&self) -> Seq<(u64, u64)> {
        self.log@
    }

    open spec fn ready(&self) -> bool {
        forall|c: u64, l: u64| self.function().requires((c, l))
    }

    fn report(&mut self, copied: u64, left: u64) {
        assert(self.function().requires((copied, left)));
        (self.f)(copied, left);
        proof {
            self.log@ = self.log@.push((copied, left));
        }
    }
}

/// Whether `calls` are the reports of a copy of at most `len` bytes: the first says nothing
/// has moved, each adds up to `len`, and the bytes moved never go down.
pub open spec fn progress_reports(calls: Seq<(u64, u64)>, len: u64) -> bool {
    &&& calls.len() > 0
    &&& calls[0] == (0u64, len)
    &&& forall|i: int| 0 <= i < calls.len() ==> #[trigger] calls[i].0 + calls[i].1 == len
    &&& forall|i: int, j: int| 0 <= i <= j < calls.len() ==> #[trigger] calls[i].0 <= #[trigger] calls[j].0
}

/// What a copy that failed after moving the first `moved` bytes of `pending` left behind.
/// When the source failed, with its own error, the sink holds those bytes after `written`
/// and the source no longer has them. When the sink failed, with its own error, it was
/// taking the next bytes, which the source no longer has.
pub open spec fn copy_failed<R: Read, W: Write>(
    e: CopyError<R::Error, W::Error>,
    pending: Seq<u8>,
    read_after: R,
    written: Seq<u8>,
    write_after: W,
    read_never_fails: bool,
    write_never_fails: bool,
    moved: int,
) -> bool {
    match e {
        CopyError::Read(err) => {
            &&& !read_never_fails
            &&& read_after.last_error() == Some(err)
            &&& 0 <= moved <= pending.len()
            &&& write_after.written() == written + pending.take(moved)
            &&& read_after.pending() == pending.skip(moved)
        },
        CopyError::Write(err) => {
            &&& !write_never_fails
            &&& write_after.last_error() == Some(err)
            &&& 0 <= moved < pending.len()
            &&& exists|next: int, sent: int|
                #![trigger pending.skip(next), pending.take(sent)]
                moved < next <= pending.len() && moved <= sent <= next && read_after.pending()
                    == pending.skip(next) && write_after.written() == written + pending.take(sent)
        },
    }
}

/// Copies everything the source has into the sink and says how many bytes moved.
pub fn copy<R: Read, W: Write>(read: &mut R, write: &mut W, buf: &mut [u8]) -> (r: Result<
    u64,
    CopyError<R::Error, W::Error>,
>)
    requires
        old(read).pending().len() <= u64::MAX,
    ensures
        r matches Ok(c) ==> {
            &&& c == copy_count(old(read).pending(), u64::MAX, old(buf)@.len())
            &&& final(write).written() == old(write).written() + old(read).pending().take(c as int)
            &&& final(read).pending() == old(read).pending().skip(c as int)
        },
        r matches Err(e) ==> exists|moved: int|
            #[trigger] copy_failed(
                e,
                old(read).pending(),
                *final(read),
                old(write).written(),
                *final(write),
                old(read).never_fails(),
                old(write).never_fails(),
                moved,
            ),
{
    copy_len(read, write, buf, u64::MAX)
}

/// Copies at most `len` bytes from the source into the sink and says how many bytes moved.
pub fn copy_len<R: Read, W: Write>(read: &mut R, write: &mut W, buf: &mut [u8], len: u64) -> (r:
    Result<u64, CopyError<R::Error, W::Error>>)
    ensures
        r matches Ok(c) ==> {
            &&& c == copy_count(old(read).pending(), len, old(buf)@.len())
            &&& final(write).written() == old(write).written() + old(read).pending().take(c as int)
            &&& final(read).pending() == old(read).pending().skip(c as int)
        },
        r matches Err(e) ==> exists|moved: int|
            #[trigger] copy_failed(
                e,
                old(read).pending(),
                *final(read),
                old(write).written(),
                *final(write),
                old(read).never_fails(),
                old(write).never_fails(),
                moved,
            ),
{
    let silent = |copied: u64, left: u64| {};
    assert forall|c: u64, l: u64| silent.requires((c, l)) by {}
    let mut progress = ProgressFn::new(silent);
    let r = copy_len_with_progress(read, write, buf, len, &mut progress);
    proof {
        if r is Err {
            let e = r->Err_0;
            let calls = progress.reported().skip(0);
            assert(copy_failed(
                e,
                old(read).pending(),
                *final(read),
                old(write).written(),
                *final(write),
                old(read).never_fails(),
                old(write).never_fails(),
                calls.last().0 as int,
            ));
        }
    }
    r
}

/// Copies at most `len` bytes from the source into the sink and says how many bytes moved,
/// reporting to `progress` before each read, and once at the end, how many bytes have moved
/// and how many may still move. No read asks for more bytes than may still move.
pub fn copy_len_with_progress<R: Read, W: Write, P: Progress>(
    read: &mut R,
    write: &mut W,
    buf: &mut [u8],
    len: u64,
    progress: &mut P,
) -> (r: Result<u64, CopyError<R::Error, W::Error>>)
    requires
        old(progress).ready(),
    ensures
        final(progress).ready(),
        final(progress).reported().take(old(progress).reported().len() as int) == old(progress).reported(),
        ({
            let calls = final(progress).reported().skip(old(progress).reported().len() as int);
            let reads = final(read).reads() - old(read).reads();
            &&& progress_reports(calls, len)
            &&& calls.len() == if r is Ok { reads + 1 } else { reads }
            &&& r matches Ok(c) ==> {
                &&& calls.last() == (c, (len - c) as u64)
                &&& c == copy_count(old(read).pending(), len, old(buf)@.len())
                &&& final(write).written() == old(write).written() + old(read).pending().take(c as int)
                &&& final(read).pending() == old(read).pending().skip(c as int)
            }
            &&& r matches Err(e) ==> copy_failed(
                e,
                old(read).pending(),
                *final(read),
                old(write).written(),
                *final(write),
                old(read).never_fails(),
                old(write).never_fails(),
                calls.last().0 as int,
            )
        }),
{
    let ghost start = read.pending();
    let ghost out0 = write.written();
    let ghost rep0 = progress.reported();
    let mut copied: u64 = 0;
    let mut left: u64 = len;
    while left > 0
        invariant_except_break
            copied + left == len,
            copied <= start.len(),
            read.pending() == start.skip(copied as int),
            write.written() == out0 + start.take(copied as int),
            buf@.len() == old(buf)@.len(),
            buf@.len() == 0 ==> copied == 0,
            read.never_fails() == old(read).never_fails(),
            write.never_fails() == old(write).never_fails(),
            start == old(read).pending(),
            out0 == old(write).written(),
            rep0 == old(progress).reported(),
            progress.ready(),
            progress.reported().take(rep0.len() as int) == rep0,
            progress.reported().len() >= rep0.len(),
            progress.reported().len() == rep0.len() ==> copied == 0,
            read.reads() >= old(read).reads(),
            progress.reported().len() - rep0.len() == read.reads() - old(read).reads(),
            progress.reported().len() > rep0.len() ==> progress_reports(progress.reported().skip(rep0.len() as int), len),
            forall|i: int| rep0.len() <= i < progress.reported().len() ==> #[trigger] progress.reported()[i].0 <= copied,
        ensures
            copied <= start.len(),
            copied + left == len,
            read.pending() == start.skip(copied as int),
            write.written() == out0 + start.take(copied as int),
            copied == copy_count(start, len, buf@.len()),
            buf@.len() == old(buf)@.len(),
            read.never_fails() == old(read).never_fails(),
            write.never_fails() == old(write).never_fails(),
            start == old(read).pending(),
            out0 == old(write).written(),
            rep0 == old(progress).reported(),
            progress.ready(),
            progress.reported().take(rep0.len() as int) == rep0,
            progress.reported().len() >= rep0.len(),
            progress.reported().len() == rep0.len() ==> copied == 0,
            read.reads() >= old(read).reads(),
            progress.reported().len() - rep0.len() == read.reads() - old(read).reads(),
            progress.reported().len() > rep0.len() ==> progress_reports(progress.reported().skip(rep0.len() as int), len),
            forall|i: int| rep0.len() <= i < progress.reported().len() ==> #[trigger] progress.reported()[i].0 <= copied,
        decreases left,
    {
        let ghost calls_before = progress.reported();
        progress.report(copied, left);
        proof {
            let calls = progress.reported().skip(rep0.len() as int);
            assert(progress.reported().take(rep0.len() as int) =~= rep0);
            assert(calls =~= calls_before.skip(rep0.len() as int).push((copied, left)));
            assert forall|i: int, j: int| 0 <= i <= j < calls.len() implies #[trigger] calls[i].0
                <= #[trigger] calls[j].0 by {
                assert(calls[i] == progress.reported()[i + rep0.len()]);
                assert(calls[j] == progress.reported()[j + rep0.len()]);
            }
            assert forall|i: int| 0 <= i < calls.len() implies #[trigger] calls[i].0 + calls[i].1
                == len by {
                if i + 1 < calls.len() {
                    assert(calls[i] == calls_before.skip(rep0.len() as int)[i]);
                }
            }
        }
        let blen = buf.len();
        let window: usize = if left < blen as u64 {
            left as usize
        } else {
            blen
        };
        let ghost before = buf@;
        let (head, tail) = buf.split_at_mut(window);
        let ghost tail_view = tail@;
        let res = read.read(head);
        let ghost head_after = head@;
        proof {
            assert(buf@ == head_after + tail_view);
        }
        match res {
            Ok(size_read) => {
                if size_read == 0 {
                    proof {
                        if buf@.len() > 0 {
                            assert(start.skip(copied as int).len() == 0);
                        }
                    }
                    break;
                }
                proof {
                    assert(buf@.subrange(0, size_read as int) == head_after.subrange(0, size_read as int));
                }
                let chunk = &buf[0..size_read];
                match write.write_all(chunk) {
                    Ok(()) => {},
                    Err(e) => {
                        proof {
                            assert(start.skip(copied as int).skip(size_read as int) =~= start.skip(
                                (copied + size_read) as int,
                            ));
                            assert(read.pending() == start.skip((copied + size_read) as int));
                            assert(start.skip(copied as int).take(size_read as int) =~= start.subrange(
                                copied as int,
                                copied + size_read,
                            ));
                            assert(chunk@ == start.subrange(copied as int, copied + size_read));
                            let k = choose|k: int|
                                0 <= k <= chunk@.len() && write.written() == out0 + start.take(copied as int)
                                    + chunk@.take(k);
                            assert(start.take(copied + k) =~= start.take(copied as int) + chunk@.take(k));
                            assert(start.skip((copied + size_read) as int) == start.skip(
                                (copied + size_read) as int,
                            ));
                            assert(start.take(copied + k) == start.take(copied + k));
                            assert(write.written() == out0 + start.take(copied + k));
                            assert(copied < start.len());
                            assert(copy_failed::<R, W>(
                                CopyError::Write(e),
                                start,
                                *read,
                                out0,
                                *write,
                                old(read).never_fails(),
                                old(write).never_fails(),
                                copied as int,
                            ));
                        }
                        return Err(CopyError::Write(e));
                    },
                }
                proof {
                    assert(start.skip(copied as int).take(size_read as int) == start.subrange(
                        copied as int,
                        copied + size_read,
                    ));
                    assert(start.take((copied + size_read) as int) == start.take(copied as int)
                        + start.subrange(copied as int, copied + size_read));
                    assert(start.skip(copied as int).skip(size_read as int) == start.skip(
                        (copied + size_read) as int,
                    ));
                }
                copied = copied + size_read as u64;
                left = left - size_read as u64;
            },
            Err(e) => {
                return Err(CopyError::Read(e));
            },
        }
    }
    let ghost calls_before = progress.reported();
    progress.report(copied, left);
    proof {
        let calls = progress.reported().skip(rep0.len() as int);
        assert(progress.reported().take(rep0.len() as int) =~= rep0);
        assert(calls =~= calls_before.skip(rep0.len() as int).push((copied, left)));
        assert forall|i: int, j: int| 0 <= i <= j < calls.len() implies #[trigger] calls[i].0
            <= #[trigger] calls[j].0 by {
            assert(calls[i] == progress.reported()[i + rep0.len()]);
            assert(calls[j] == progress.reported()[j + rep0.len()]);
        }
        assert forall|i: int| 0 <= i < calls.len() implies #[trigger] calls[i].0 + calls[i].1
            == len by {
            if i + 1 < calls.len() {
                assert(calls[i] == calls_before.skip(rep0.len() as int)[i]);
            }
        }
    }
    Ok(copied)
}

/// A source reading from bytes held in memory.
pub struct BytesReader {
    data: Vec<u8>,
    pos: usize,
    reads: Ghost<nat>,
}

impl BytesReader {
    /// A source that gives `data`.
    pub fn new(data: Vec<u8>) -> (r: Self)
        ensures
            r.pending() == data@,
    {
        proof {
            assert(data@.skip(0) == data@);
        }
        BytesReader { data, pos: 0, reads: Ghost(0) }
    }
}

impl Read for BytesReader {
    type Error = ();

    closed spec fn pending(&self) -> Seq<u8> {
        if self.pos <= self.data@.len() {
            self.data@.skip(self.pos as int)
        } else {
            Seq::empty()
        }
    }

    open spec fn never_fails(&self) -> bool {
        true
    }

    open spec fn last_error(&self) -> Option<()> {
        None
    }

    closed spec fn reads(&self) -> nat {
        self.reads@
    }

    fn read(&mut self, buf: &mut [u8]) -> (r: Result<usize, ()>) {
        let dlen = self.data.len();
        let avail: usize = if self.pos <= dlen {
            dlen - self.pos
        } else {
            0
        };
        let n: usize = if buf.len() < avail {
            buf.len()
        } else {
            avail
        };
        let mut i: usize = 0;
        while i < n
            invariant
                n <= buf@.len(),
                buf@.len() == old(buf)@.len(),
                *self == *old(self),
                n <= avail,
                avail == self.pending().len(),
                n == 0 || self.pos + n <= dlen,
                dlen == self.data@.len(),
                i <= n,
                buf@.subrange(0, i as int) == self.pending().take(i as int),
                buf@.skip(i as int) == old(buf)@.skip(i as int),
            decreases n - i,
        {
            let ghost prev = buf@;
            buf[i] = self.data[self.pos + i];
            proof {
                assert(prev.skip((i + 1) as int) =~= prev.skip(i as int).skip(1));
                assert(buf@.skip((i + 1) as int) =~= prev.skip((i + 1) as int));
                assert(old(buf)@.skip((i + 1) as int) =~= old(buf)@.skip(i as int).skip(1));
            }
            proof {
                assert(buf@.subrange(0, (i + 1) as int) == self.pending().take((i + 1) as int));
                assert(buf@.skip((i + 1) as int) =~= old(buf)@.skip((i + 1) as int));
            }
            i = i + 1;
        }
        if n > 0 {
            proof {
                assert(self.pending().skip(n as int) =~= self.data@.skip((self.pos + n) as int));
            }
            self.pos = self.pos + n;
        } else {
            proof {
                assert(self.pending().skip(0) =~= self.pending());
            }
        }
        proof {
            self.reads@ = self.reads@ + 1;
        }
        Ok(n)
    }
}

/// A sink collecting the bytes written in memory.
pub struct VecWriter {
    out: Vec<u8>,
}

impl VecWriter {
    /// An empty sink.
    pub fn new() -> (r: Self)
        ensures
            r.written() == Seq::<u8>::empty(),
    {
        VecWriter { out: Vec::new() }
    }

    /// The bytes written so far.
    pub fn bytes(&self) -> (r: &Vec<u8>)
        ensures
            r@ == self.written(),
    {
        &self.out
    }
}

impl Write for VecWriter {
    type Error = ();

    closed spec fn written(&self) -> Seq<u8> {
        self.out@
    }

    open spec fn never_fails(&self) -> bool {
        true
    }

    open spec fn last_error(&self) -> Option<()> {
        None
    }

    fn write_all(&mut self, data: &[u8]) -> (r: Result<(), ()>) {
        let mut i: usize = 0;
        while i < data.len()
            invariant
                i <= data@.len(),
                self.out@ == old(self).out@ + data@.subrange(0, i as int),
            decreases data@.len() - i,
        {
            self.out.push(data[i]);
            proof {
                assert(data@.subrange(0, (i + 1) as int) == data@.subrange(0, i as int).push(
                    data@[i as int],
                ));
            }
            i = i + 1;
        }
        proof {
            assert(data@.subrange(0, data@.len() as int) == data@);
        }
        Ok(())
    }
}

} // verus!
