use vstd::prelude::*;

verus! {

/// Holds the destination that the accounts table is written to.
pub struct Writer<W> {
    inner: W,
}

impl<W> Writer<W> {
    pub closed spec fn destination(&self) -> W {
        self.inner
    }

    pub fn from_writer(writer: W) -> (r: Writer<W>)
        ensures
            r.destination() == writer,
    {
        Writer { inner: writer }
    }

    /// Gives the destination back.
    pub fn into_inner(self) -> (r: W)
        ensures
            r == self.destination(),
    {
        self.inner
    }
}

} // verus!
