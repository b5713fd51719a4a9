//! Terminal output buffers, terminal ids and exit codes.

use vstd::prelude::*;

use crate::text::basic::texts;
use crate::text::number::{decimal, decimal_text};
use crate::text::shape::{join, joined};

verus! {

/// Maximum size in bytes for each I/O buffer (1 MB).
pub const MAX_BUF_SIZE: usize = 1048576;

/// The last bytes that a buffer holds.
pub open spec fn kept(s: Seq<u8>) -> Seq<u8> {
    if s.len() > MAX_BUF_SIZE {
        s.skip(s.len() - MAX_BUF_SIZE)
    } else {
        s
    }
}

/// The output of a process, capped at 1 MB: the oldest bytes are discarded when
/// the cap is reached.
#[derive(Debug)]
pub struct OutputBuffer {
    pub bytes: Vec<u8>,
}

impl View for OutputBuffer {
    type V = Seq<u8>;

    open spec fn view(&self) -> Seq<u8> {
        self.bytes@
    }
}

/// A buffer that is filled in pieces holds what it would hold of the whole: its
/// last bytes.
pub proof fn law_pieces_are_kept_as_the_whole(a: Seq<u8>, b: Seq<u8>)
    ensures
        kept(kept(a) + b) == kept(a + b),
        kept(a).len() <= MAX_BUF_SIZE,
{
    assert(kept(kept(a) + b) =~= kept(a + b));
}

impl OutputBuffer {
    /// An empty buffer.
    pub fn new() -> (r: Self)
        ensures
            r@ == Seq::<u8>::empty(),
    {
        OutputBuffer { bytes: Vec::new() }
    }

    /// Adds bytes; the oldest go where there are too many.
    pub fn push_bytes(&mut self, chunk: &Vec<u8>)
        requires
            old(self)@.len() <= MAX_BUF_SIZE,
        ensures
            final(self)@ == kept(old(self)@ + chunk@),
            final(self)@.len() <= MAX_BUF_SIZE,
    {
        let ghost all = self@ + chunk@;
        let n: usize = self.bytes.len();
        let m: usize = chunk.len();
        let mut next: Vec<u8> = Vec::new();
        let skip_old: usize = if m >= MAX_BUF_SIZE {
            n
        } else if n + m > MAX_BUF_SIZE {
            n + m - MAX_BUF_SIZE
        } else {
            0
        };
        let skip_new: usize = if m > MAX_BUF_SIZE {
            m - MAX_BUF_SIZE
        } else {
            0
        };
        let ghost start = skip_old + skip_new;
        let mut i: usize = skip_old;
        assert(next@ =~= all.subrange(skip_old as int, i as int));
        while i < n
            invariant
                skip_old <= i <= n,
                n == self.bytes@.len(),
                all == self.bytes@ + chunk@,
                next@ == all.subrange(skip_old as int, i as int),
            decreases n - i,
        {
            next.push(self.bytes[i]);
            assert(all.subrange(skip_old as int, i + 1) =~= all.subrange(
                skip_old as int,
                i as int,
            ).push(all[i as int]));
            i = i + 1;
        }
        let mut j: usize = skip_new;
        assert(skip_new > 0 ==> skip_old == n);
        assert(next@ =~= all.subrange(start, n + j));
        while j < m
            invariant
                skip_new <= j <= m,
                m == chunk@.len(),
                n == self.bytes@.len(),
                all == self.bytes@ + chunk@,
                start <= n + skip_new,
                0 <= start,
                next@ == all.subrange(start, n + j),
            decreases m - j,
        {
            next.push(chunk[j]);
            assert(all.subrange(start, n + j + 1) =~= all.subrange(start, n + j).push(
                all[n + j],
            ));
            j = j + 1;
        }
        assert(next@ =~= kept(all));
        self.bytes = next;
    }

    /// Takes all bytes out.
    pub fn take_bytes(&mut self) -> (r: Vec<u8>)
        ensures
            r@ == old(self)@,
            final(self)@ == Seq::<u8>::empty(),
    {
        let mut r: Vec<u8> = Vec::new();
        std::mem::swap(&mut r, &mut self.bytes);
        r
    }
}

/// The bytes as text, with a replacement character for what is no UTF-8.
pub uninterp spec fn utf8_lossy(b: Seq<u8>) -> Seq<char>;

/// `String::from_utf8_lossy` reads bytes as UTF-8 and puts a replacement
/// character in the place of what is none; valid UTF-8 is what it encodes. It
/// depends on the bytes alone.
#[verifier::external_body]
fn text_of_bytes(b: &Vec<u8>) -> (r: String)
    ensures
        r@ == utf8_lossy(b@),
        vstd::utf8::valid_utf8(b@) ==> r@ == vstd::utf8::decode_utf8(b@),
{
    String::from_utf8_lossy(b).into_owned()
}

/// The output of a terminal: standard output, then standard error.
pub fn join_output(stdout: &str, stderr: &str) -> (r: String)
    ensures
        r@ == stdout@ + stderr@,
{
    let mut r = stdout.to_owned();
    r.append(stderr);
    r
}

/// Drains all buffered output (stdout then stderr) and returns it as text.
/// Buffers are cleared after reading.
pub fn read_terminal_output(stdout: &mut OutputBuffer, stderr: &mut OutputBuffer) -> (r: String)
    ensures
        r@ == utf8_lossy(old(stdout)@) + utf8_lossy(old(stderr)@),
        final(stdout)@ == Seq::<u8>::empty(),
        final(stderr)@ == Seq::<u8>::empty(),
{
    let out = text_of_bytes(&stdout.take_bytes());
    let err = text_of_bytes(&stderr.take_bytes());
    join_output(out.as_str(), err.as_str())
}

/// The id of the `n`-th terminal.
pub fn terminal_id(n: u64) -> (r: String)
    ensures
        r@ == "terminal-"@ + decimal(n as nat),
{
    let mut r = "terminal-".to_owned();
    r.append(decimal_text(n).as_str());
    r
}

/// The shell command for a command and its arguments.
pub fn command_line(command: &str, args: &Vec<String>) -> (r: String)
    ensures
        r@ == (if args@.len() == 0 {
            command@
        } else {
            command@ + " "@ + join(texts(args@), " "@)
        }),
{
    let mut r = command.to_owned();
    if args.len() > 0 {
        r.append(" ");
        r.append(joined(args, " ").as_str());
    }
    r
}

/// The exit code of a process: -1 where it has none, as when a signal killed
/// it.
pub fn wait_for_exit(code: Option<i32>) -> (r: i32)
    ensures
        r == (match code {
            Some(c) => c,
            None => -1i32,
        }),
{
    match code {
        Some(c) => c,
        None => -1,
    }
}

/// The exit code that is reported: none for a negative one.
pub fn reported_exit(code: i32) -> (r: Option<u32>)
    ensures
        code >= 0 ==> r == Some(code as u32),
        code < 0 ==> r is None,
{
    if code >= 0 {
        Some(code as u32)
    } else {
        None
    }
}

/// The message on a terminal that does not exist.
pub fn terminal_not_found(id: &str) -> (r: String)
    ensures
        r@ == "terminal not found: "@ + id@,
{
    let mut r = "terminal not found: ".to_owned();
    r.append(id);
    r
}

} // verus!
