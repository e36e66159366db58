//! `MockBackend` for tests: replays scripted byte chunks and records what
//! it was asked to write and how it was resized.

use std::collections::VecDeque;

use vstd::prelude::*;

use super::TerminalBackend;

verus! {

/// Backend that produces a scripted byte stream and captures whatever is
/// written to it. Resize calls are recorded but otherwise ignored.
pub struct MockBackend {
    pub script: VecDeque<Vec<u8>>,
    pub written: Vec<u8>,
    pub resizes: Vec<(u16, u16)>,
}

/// The contents of the scripted chunks.
pub open spec fn chunks(q: Seq<Vec<u8>>) -> Seq<Seq<u8>> {
    q.map_values(|v: Vec<u8>| v@)
}

/// How many bytes of a chunk of length `len` a read with room for
/// `capacity` bytes takes.
pub open spec fn taken(len: nat, capacity: nat) -> nat {
    if len < capacity { len } else { capacity }
}

fn copy_range(v: &Vec<u8>, from: usize, to: usize) -> (res: Vec<u8>)
    requires
        from <= to <= v.len(),
    ensures
        res@ == v@.subrange(from as int, to as int),
{
    let mut out: Vec<u8> = Vec::new();
    let mut i = from;
    while i < to
        invariant
            from <= i <= to <= v.len(),
            out@ == v@.subrange(from as int, i as int),
        decreases to - i,
    {
        out.push(v[i]);
        i = i + 1;
    }
    out
}

impl MockBackend {
    /// A backend that will hand out `script`'s chunks in order.
    pub fn new(script: Vec<Vec<u8>>) -> (m: Self)
        ensures
            chunks(m.script@) == chunks(script@),
            m.written@.len() == 0,
            m.resizes@.len() == 0,
    {
        let ghost orig = chunks(script@);
        let mut rest = script;
        let mut q: VecDeque<Vec<u8>> = VecDeque::new();
        assert(chunks(q@) =~= orig.subrange(rest.len() as int, orig.len() as int));
        assert(chunks(rest@) =~= orig.subrange(0, rest.len() as int));
        while rest.len() > 0
            invariant
                chunks(rest@) == orig.subrange(0, rest.len() as int),
                chunks(q@) == orig.subrange(rest.len() as int, orig.len() as int),
                rest.len() <= orig.len(),
            decreases rest.len(),
        {
            let ghost prev_rest = rest@;
            let ghost prev_q = q@;
            let chunk = rest.pop().unwrap();
            assert(chunk@ == orig[rest.len() as int]) by {
                assert(chunks(prev_rest)[rest.len() as int] == prev_rest[rest.len() as int]@);
            }
            q.push_front(chunk);
            assert(q@.len() == prev_q.len() + 1);
            assert(prev_rest.len() == rest@.len() + 1);
            assert(chunks(prev_q).len() == prev_q.len());
            assert(chunks(rest@) =~= orig.subrange(0, rest.len() as int)) by {
                assert forall|k: int| 0 <= k < rest@.len() implies chunks(rest@)[k] == orig[k] by {
                    assert(rest@[k] == prev_rest[k]);
                    assert(chunks(prev_rest)[k] == prev_rest[k]@);
                }
            }
            assert(chunks(q@) =~= orig.subrange(rest.len() as int, orig.len() as int)) by {
                assert forall|k: int| 0 <= k < q@.len() implies chunks(q@)[k] == orig[rest.len() + k] by {
                    assert(chunks(q@)[k] == q@[k]@);
                    if k > 0 {
                        assert(q@[k] == prev_q[k - 1]);
                        assert(chunks(prev_q)[k - 1] == orig.subrange(prev_rest.len() as int, orig.len() as int)[k - 1]);
                        assert(chunks(prev_q)[k - 1] == prev_q[k - 1]@);
                    }
                }
            }
        }
        MockBackend { script: q, written: Vec::new(), resizes: Vec::new() }
    }

    /// Hands out up to `capacity` bytes of the next scripted chunk; a chunk
    /// that does not fit is put back minus what was handed out. With no
    /// chunk left, nothing is handed out (end of stream).
    pub fn read_chunk(&mut self, capacity: usize) -> (out: Vec<u8>)
        ensures
            final(self).written@ == old(self).written@,
            final(self).resizes@ == old(self).resizes@,
            old(self).script@.len() == 0 ==> out@.len() == 0 && chunks(final(self).script@)
                == chunks(old(self).script@),
            old(self).script@.len() > 0 ==> ({
                let chunk = chunks(old(self).script@)[0];
                let n = taken(chunk.len(), capacity as nat) as int;
                &&& out@ == chunk.subrange(0, n)
                &&& chunks(final(self).script@) == if n < chunk.len() {
                    chunks(old(self).script@).update(0, chunk.subrange(n, chunk.len() as int))
                } else {
                    chunks(old(self).script@).drop_first()
                }
            }),
    {
        let ghost before = chunks(self.script@);
        match self.script.pop_front() {
            None => Vec::new(),
            Some(chunk) => {
                assert(chunk@ == before[0]);
                let n = if chunk.len() < capacity { chunk.len() } else { capacity };
                let out = copy_range(&chunk, 0, n);
                if n < chunk.len() {
                    let rest = copy_range(&chunk, n, chunk.len());
                    self.script.push_front(rest);
                    assert(chunks(self.script@) =~= before.update(
                        0,
                        before[0].subrange(n as int, before[0].len() as int),
                    ));
                } else {
                    assert(chunks(self.script@) =~= before.drop_first());
                }
                out
            },
        }
    }

    /// Records written bytes; every byte is accepted.
    pub fn write_bytes(&mut self, buf: &[u8]) -> (n: usize)
        ensures
            n == buf@.len(),
            final(self).written@ == old(self).written@ + buf@,
            chunks(final(self).script@) == chunks(old(self).script@),
            final(self).resizes@ == old(self).resizes@,
    {
        let mut i: usize = 0;
        while i < buf.len()
            invariant
                i <= buf.len(),
                self.written@ == old(self).written@ + buf@.subrange(0, i as int),
                chunks(self.script@) == chunks(old(self).script@),
                self.resizes@ == old(self).resizes@,
            decreases buf.len() - i,
        {
            self.written.push(buf[i]);
            i = i + 1;
            assert(self.written@ =~= old(self).written@ + buf@.subrange(0, i as int));
        }
        assert(buf@.subrange(0, buf.len() as int) =~= buf@);
        buf.len()
    }
}

impl TerminalBackend for MockBackend {
    fn resize(&mut self, cols: u16, rows: u16) -> (r: std::io::Result<()>)
        ensures
            r is Ok,
            final(self).resizes@ == old(self).resizes@.push((cols, rows)),
            final(self).written@ == old(self).written@,
            chunks(final(self).script@) == chunks(old(self).script@),
    {
        self.resizes.push((cols, rows));
        Ok(())
    }
}

} // verus!
