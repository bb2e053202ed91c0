//! The sink protocol: a minimal capability that accepts one character at a
//! time and reports failure, together with a growable in-memory sink.

use vstd::prelude::*;

verus! {

/// A character sink. `sunk` is the sequence of characters the sink has
/// accepted so far; a failed write leaves it unchanged, and the opaque
/// `usize` error carries whatever the implementation wants to report.
pub trait Writeable: Sized {
    /// The characters accepted so far.
    spec fn sunk(&self) -> Seq<char>;

    /// Whether this sink can never refuse a character. A sink for which
    /// this holds accepts every write, and keeps holding it; on such a
    /// sink every rendering operation of the library is owed success.
    spec fn never_fails(&self) -> bool;

    /// Accept one character, or report an opaque failure.
    fn write(&mut self, data: char) -> (r: Result<(), usize>)
        ensures
            r is Ok ==> final(self).sunk() == old(self).sunk().push(data),
            r is Err ==> final(self).sunk() == old(self).sunk(),
            old(self).never_fails() ==> r is Ok && final(self).never_fails(),
    ;
}

/// An in-memory sink that records every character and never fails.
pub struct CharBuffer {
    chars: Vec<char>,
}

impl CharBuffer {
    /// An empty buffer.
    pub fn new() -> (r: CharBuffer)
        ensures
            r.sunk() == Seq::<char>::empty(),
    {
        CharBuffer { chars: Vec::new() }
    }

    /// The characters written so far, in order.
    pub fn get(&self) -> (r: &Vec<char>)
        ensures
            r@ == self.sunk(),
    {
        &self.chars
    }

    /// Forget everything written so far.
    pub fn clear(&mut self)
        ensures
            final(self).sunk() == Seq::<char>::empty(),
    {
        self.chars = Vec::new();
    }
}

impl Writeable for CharBuffer {
    closed spec fn sunk(&self) -> Seq<char> {
        self.chars@
    }

    open spec fn never_fails(&self) -> bool {
        true
    }

    fn write(&mut self, data: char) -> (r: Result<(), usize>)
        ensures
            r is Ok,
    {
        self.chars.push(data);
        Ok(())
    }
}

/// Writes a character sequence to a sink one character at a time, counting
/// each success; the first failing write aborts and is propagated, leaving
/// whatever prefix was already accepted in the sink. On a sink that never
/// fails the call is owed success.
pub fn write_chars<W: Writeable>(writer: &mut W, chars: &Vec<char>) -> (r: Result<usize, usize>)
    ensures
        r is Ok ==> final(writer).sunk() == old(writer).sunk() + chars@ && r->Ok_0 == chars@.len(),
        r is Err ==> exists|i: int|
            0 <= i < chars@.len() && final(writer).sunk() == old(writer).sunk() + chars@.take(i),
        old(writer).never_fails() ==> r is Ok && final(writer).never_fails(),
{
    let n = chars.len();
    let mut i: usize = 0;
    assert(writer.sunk() + chars@.take(0) =~= writer.sunk());
    while i < n
        invariant
            i <= n,
            n == chars@.len(),
            writer.sunk() == old(writer).sunk() + chars@.take(i as int),
            old(writer).never_fails() ==> writer.never_fails(),
        decreases n - i,
    {
        let ghost pre = writer.sunk();
        match writer.write(chars[i]) {
            Ok(_) => {
                proof {
                    assert(chars@.take(i as int).push(chars@[i as int]) =~= chars@.take(i + 1));
                    assert(pre.push(chars@[i as int]) =~= old(writer).sunk() + chars@.take(i + 1));
                }
            },
            Err(e) => {
                return Err(e);
            },
        }
        i = i + 1;
    }
    assert(chars@.take(n as int) =~= chars@);
    Ok(n)
}

} // verus!
