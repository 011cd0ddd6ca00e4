//! The output sink: what the scheduler needs of the stream it draws on, and
//! a sink in memory.

use vstd::prelude::*;

verus! {

/// A stream that frames are written to.
///
/// The scheduler hands it whole frames and asks it, before each frame,
/// whether it is a terminal and how wide. What a sink does with a frame, and
/// what it answers, is its own affair: nothing is promised of it here, and
/// the manager's contracts speak of what was handed over.
pub trait Out {
    /// Writes all of `buf` and says whether that worked.
    fn write_all(&mut self, buf: &[u8]) -> bool;

    /// Whether the sink is an interactive terminal.
    fn is_terminal(&self) -> bool;

    /// The sink's width in columns; zero when it cannot tell.
    fn columns(&self) -> u16;
}

/// A sink in memory. It takes every write, and answers the two questions
/// with what it was made with.
#[derive(Debug)]
pub struct Buffer {
    /// The bytes written so far.
    pub bytes: Vec<u8>,
    /// Whether the buffer says it is a terminal.
    pub terminal: bool,
    /// The width in columns that the buffer gives.
    pub width: u16,
}

impl Buffer {
    /// An empty buffer.
    pub fn new(terminal: bool, width: u16) -> (b: Buffer)
        ensures
            b.bytes@ == Seq::<u8>::empty(),
            b.terminal == terminal,
            b.width == width,
    {
        Buffer { bytes: Vec::new(), terminal, width }
    }
}

impl Out for Buffer {
    fn write_all(&mut self, buf: &[u8]) -> (ok: bool)
        ensures
            ok,
            final(self).bytes@ == old(self).bytes@ + buf@,
            final(self).terminal == old(self).terminal,
            final(self).width == old(self).width,
    {
        let mut i: usize = 0;
        assert(buf@.subrange(0, 0) =~= Seq::<u8>::empty());
        while i < buf.len()
            invariant
                i <= buf.len(),
                self.bytes@ == old(self).bytes@ + buf@.subrange(0, i as int),
                self.terminal == old(self).terminal,
                self.width == old(self).width,
            decreases buf.len() - i,
        {
            self.bytes.push(buf[i]);
            i += 1;
            assert(self.bytes@ =~= old(self).bytes@ + buf@.subrange(0, i as int));
        }
        assert(buf@.subrange(0, buf.len() as int) =~= buf@);
        true
    }

    fn is_terminal(&self) -> (t: bool)
        ensures
            t == self.terminal,
    {
        self.terminal
    }

    fn columns(&self) -> (w: u16)
        ensures
            w == self.width,
    {
        self.width
    }
}

} // verus!
