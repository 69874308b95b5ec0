//! A scripted in-memory transport.  Reads hand out a fixed byte script —
//! all bytes that are still pending at once, the way a greedy serial read
//! can — and writes are recorded.  It drives the protocol engine in tests
//! without a serial port.

use vstd::prelude::*;

use crate::transport::{Error, Transport, TransportError};

verus! {

/// An in-memory transport with a fixed reply script and a write log.
#[derive(Debug)]
pub struct MockTransport {
    script: Vec<u8>,
    cursor: usize,
    log: Vec<u8>,
    timeout: u64,
}

impl MockTransport {
    /// A fresh transport that will deliver `script` on reads.
    pub fn new(script: Vec<u8>) -> (t: MockTransport)
        ensures
            t.inv(),
            t.tx() == Seq::<u8>::empty(),
            t.rx() == Seq::<u8>::empty(),
            t.pending() == script@,
    {
        let t = MockTransport { script, cursor: 0, log: Vec::new(), timeout: 1000 };
        proof {
            assert(t.rx() =~= Seq::<u8>::empty());
        }
        t
    }

    /// The scripted bytes not yet delivered.
    pub closed spec fn pending(&self) -> Seq<u8> {
        self.script@.skip(self.cursor as int)
    }

    /// Every byte written through this transport, in order.
    pub fn written(&self) -> (r: &Vec<u8>)
        ensures
            r@ == self.tx(),
    {
        &self.log
    }

    /// How many scripted bytes are still undelivered.
    pub fn remaining(&self) -> (r: usize)
        requires
            self.inv(),
        ensures
            r == self.pending().len(),
    {
        self.script.len() - self.cursor
    }
}

impl Transport for MockTransport {
    closed spec fn inv(&self) -> bool {
        self.cursor <= self.script@.len()
    }

    closed spec fn tx(&self) -> Seq<u8> {
        self.log@
    }

    closed spec fn rx(&self) -> Seq<u8> {
        self.script@.take(self.cursor as int)
    }

    fn write_bytes(&mut self, data: &[u8]) -> (r: Result<(), Error>)
        ensures
            r is Ok,
            final(self).pending() == old(self).pending(),
    {
        let mut k: usize = 0;
        while k < data.len()
            invariant
                k <= data@.len(),
                self.log@ == old(self).log@ + data@.take(k as int),
                self.script == old(self).script,
                self.cursor == old(self).cursor,
                self.timeout == old(self).timeout,
            decreases data@.len() - k,
        {
            self.log.push(data[k]);
            k = k + 1;
            proof {
                assert(old(self).log@ + data@.take(k - 1 as int) + seq![data@[k - 1]]
                    =~= old(self).log@ + data@.take(k as int));
            }
        }
        proof {
            assert(self.log@ =~= old(self).log@ + data@);
        }
        Ok(())
    }

    fn read_at_least(&mut self, count: usize) -> (r: Result<Vec<u8>, Error>)
        ensures
            old(self).pending().len() >= count ==> (r matches Ok(data) && data@ == old(
                self,
            ).pending() && final(self).pending().len() == 0),
            old(self).pending().len() < count ==> (r matches Err(Error::Transport(
                TransportError::Timeout,
            )) && final(self).pending() == old(self).pending()),
    {
        if self.script.len() - self.cursor < count {
            return Err(Error::Transport(TransportError::Timeout));
        }
        let ghost start = self.cursor as int;
        let mut out: Vec<u8> = Vec::new();
        while self.cursor < self.script.len()
            invariant
                0 <= start <= self.cursor <= self.script@.len(),
                out@ == self.script@.subrange(start, self.cursor as int),
                self.script == old(self).script,
                self.log == old(self).log,
                self.timeout == old(self).timeout,
            decreases self.script@.len() - self.cursor,
        {
            let ghost prev = self.cursor as int;
            let b = self.script[self.cursor];
            out.push(b);
            self.cursor = self.cursor + 1;
            proof {
                assert(self.cursor as int == prev + 1);
                assert(out@.len() == self.cursor - start);
                assert(b == self.script@[prev]);
                assert forall|i: int| 0 <= i < out@.len() implies out@[i] == self.script@[start
                    + i] by {
                    if i < out@.len() - 1 {
                        assert(out@[i] == self.script@.subrange(start, prev)[i]);
                    }
                }
                assert(out@ =~= self.script@.subrange(start, self.cursor as int));
            }
        }
        proof {
            assert(self.rx() =~= old(self).rx() + out@);
            assert(out@ =~= old(self).pending());
            assert(self.pending() =~= Seq::<u8>::empty());
        }
        Ok(out)
    }

    fn set_timeout(&mut self, timeout: u64) -> (r: Result<(), Error>)
        ensures
            r is Ok,
            final(self).pending() == old(self).pending(),
    {
        self.timeout = timeout;
        Ok(())
    }
}

} // verus!
