use vstd::prelude::*;

verus! {

/// The game's memory: a permanent block that holds the game state across
/// frames, and a transient block, laid out one after the other.
pub struct GameMemory {
    pub is_initialized: bool,
    pub permanent: Vec<u8>,
    pub transient: Vec<u8>,
}

/// A read found fewer bytes than the memory holds.
#[derive(Debug, Clone, Copy, PartialEq, Eq, Structural)]
pub enum MemoryError {
    UnexpectedEof,
}

/// The bytes of the memory as saved: the permanent block, then the
/// transient block.
pub open spec fn memory_bytes(m: GameMemory) -> Seq<u8> {
    m.permanent@ + m.transient@
}

/// Appends `bytes` to `w`.
fn write_all(w: &mut Vec<u8>, bytes: &Vec<u8>)
    ensures
        final(w)@ == old(w)@ + bytes@,
{
    let mut i: usize = 0;
    while i < bytes.len()
        invariant
            i <= bytes@.len(),
            w@ == old(w)@ + bytes@.take(i as int),
        decreases bytes.len() - i,
    {
        w.push(bytes[i]);
        i = i + 1;
        assert(bytes@.take(i as int) =~= bytes@.take(i - 1) + seq![bytes@[i - 1]]);
    }
    assert(bytes@.take(i as int) =~= bytes@);
}

/// Overwrites `block` with `source[start..start + block.len()]`.
fn read_exact(block: &mut Vec<u8>, source: &[u8], start: usize)
    requires
        start + old(block)@.len() <= source@.len(),
    ensures
        final(block)@ == source@.subrange(start as int, start + old(block)@.len()),
{
    let n: usize = block.len();
    let len: usize = source.len();
    let mut i: usize = 0;
    while i < n
        invariant
            len == source@.len(),
            n == old(block)@.len(),
            start + n <= source@.len(),
            i <= n,
            block@.len() == n,
            forall|j: int| 0 <= j < i ==> #[trigger] block@[j] == source@[start + j],
        decreases n - i,
    {
        block[i] = source[start + i];
        i = i + 1;
    }
    assert(block@ =~= source@.subrange(start as int, start + n));
}

impl GameMemory {
    /// Saves the memory: appends the permanent block, then the transient
    /// block, to `w`.
    pub fn write_to(&self, w: &mut Vec<u8>)
        ensures
            final(w)@ == old(w)@ + memory_bytes(*self),
    {
        write_all(w, &self.permanent);
        write_all(w, &self.transient);
        assert(old(w)@ + self.permanent@ + self.transient@ =~= old(w)@ + memory_bytes(*self));
    }

    /// Loads the memory from the start of `r`: the permanent block's size
    /// of bytes into it, then the transient block's size into that. Returns
    /// how many bytes it took, or an error, leaving the memory unchanged,
    /// when `r` is shorter than both blocks together.
    pub fn read_from(&mut self, r: &[u8]) -> (res: Result<usize, MemoryError>)
        ensures
            final(self).is_initialized == old(self).is_initialized,
            old(self).permanent@.len() + old(self).transient@.len() <= r@.len() ==> {
                &&& res == Ok::<usize, MemoryError>(
                    (old(self).permanent@.len() + old(self).transient@.len()) as usize,
                )
                &&& final(self).permanent@ == r@.take(old(self).permanent@.len() as int)
                &&& final(self).transient@ == r@.subrange(
                    old(self).permanent@.len() as int,
                    (old(self).permanent@.len() + old(self).transient@.len()) as int,
                )
            },
            r@.len() < old(self).permanent@.len() + old(self).transient@.len() ==> {
                &&& res == Err::<usize, MemoryError>(MemoryError::UnexpectedEof)
                &&& final(self).permanent@ == old(self).permanent@
                &&& final(self).transient@ == old(self).transient@
            },
    {
        let p: usize = self.permanent.len();
        let t: usize = self.transient.len();
        if r.len() < p || r.len() - p < t {
            return Err(MemoryError::UnexpectedEof);
        }
        read_exact(&mut self.permanent, r, 0);
        read_exact(&mut self.transient, r, p);
        assert(r@.subrange(0, p as int) =~= r@.take(p as int));
        Ok(p + t)
    }
}

/// What a read takes back is what a write saved: reading the bytes a
/// memory wrote, into a memory with blocks of the same sizes, gives back
/// both blocks, whatever follows the saved bytes.
pub proof fn lemma_read_gives_back_write(m: GameMemory, target: GameMemory, rest: Seq<u8>)
    requires
        target.permanent@.len() == m.permanent@.len(),
        target.transient@.len() == m.transient@.len(),
    ensures
        ({
            let r = memory_bytes(m) + rest;
            &&& target.permanent@.len() + target.transient@.len() <= r.len()
            &&& r.take(target.permanent@.len() as int) == m.permanent@
            &&& r.subrange(
                target.permanent@.len() as int,
                (target.permanent@.len() + target.transient@.len()) as int,
            ) == m.transient@
        }),
{
    let r = memory_bytes(m) + rest;
    assert(r.take(target.permanent@.len() as int) =~= m.permanent@);
    assert(r.subrange(
        target.permanent@.len() as int,
        (target.permanent@.len() + target.transient@.len()) as int,
    ) =~= m.transient@);
}

} // verus!
