use vstd::prelude::*;

verus! {

/// One step of the forward handler's response relay loop.
#[derive(Clone, Copy, Debug, PartialEq, Eq, Structural)]
pub enum RelayStep {
    /// End of stream: the relay is complete.
    Finish,
    /// A full buffer was read: write it on and read again at once.
    WriteAndContinue,
    /// A partial buffer was read: write it on, then probe once with a
    /// short timeout and finish if nothing more arrives in time.
    WriteAndProbe,
}

/// Decide the relay loop's next step from how many bytes the last
/// upstream read returned, against the read buffer's capacity. A
/// zero-byte read is the end of the stream; a partial read triggers
/// the best-effort completion probe; a full read continues at once.
pub fn relay_step(n: usize, capacity: usize) -> (s: RelayStep)
    requires
        n <= capacity,
    ensures
        n == 0 ==> s is Finish,
        0 < n && n < capacity ==> s is WriteAndProbe,
        0 < n && n == capacity ==> s is WriteAndContinue,
{
    if n == 0 {
        RelayStep::Finish
    } else if n < capacity {
        RelayStep::WriteAndProbe
    } else {
        RelayStep::WriteAndContinue
    }
}

/// The exact bytes to relay onward from a read that returned `n`
/// bytes into `buf`: the first `n` of them, unchanged.
pub fn relay_chunk(buf: &[u8], n: usize) -> (r: Vec<u8>)
    requires
        n <= buf@.len(),
    ensures
        r@ == buf@.take(n as int),
{
    let mut r: Vec<u8> = Vec::new();
    let mut i: usize = 0;
    while i < n
        invariant
            i <= n <= buf@.len(),
            r@ == buf@.subrange(0, i as int),
        decreases n - i,
    {
        r.push(buf[i]);
        proof {
            assert(r@ =~= buf@.subrange(0, i as int + 1));
        }
        i = i + 1;
    }
    proof {
        assert(r@ =~= buf@.take(n as int));
    }
    r
}

} // verus!
