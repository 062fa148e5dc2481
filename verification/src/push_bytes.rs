use vstd::prelude::*;

verus! {

/// The bytes of a data push.
#[derive(Debug, PartialEq, Eq, Hash, PartialOrd, Ord, Clone)]
pub struct PushBytes {
    bytes: Vec<u8>,
}

impl View for PushBytes {
    type V = Seq<u8>;

    closed spec fn view(&self) -> Seq<u8> {
        self.bytes@
    }
}

/// A slice too long to push.
#[derive(Debug)]
pub struct PushBytesError {
    /// How long the input was.
    pub len: usize,
}

impl PushBytes {
    /// Returns the number of bytes in buffer.
    pub fn len(&self) -> (r: usize)
        ensures
            r == self@.len(),
    {
        self.bytes.len()
    }

    /// Returns true if the buffer contains zero bytes.
    pub fn is_empty(&self) -> (r: bool)
        ensures
            r == (self@.len() == 0),
    {
        self.bytes.len() == 0
    }

    /// Creates an empty `PushBytes`.
    pub fn empty() -> (r: PushBytes)
        ensures
            r@ == Seq::<u8>::empty(),
    {
        PushBytes { bytes: Vec::new() }
    }

    /// Returns the underlying bytes.
    pub fn as_bytes(&self) -> (r: &[u8])
        ensures
            r@ == self@,
    {
        self.bytes.as_slice()
    }

    /// Returns the underlying mutable bytes.
    pub fn as_mut_bytes(&mut self) -> (r: &mut [u8])
        ensures
            r@ == old(self)@,
            final(r)@ == final(self)@,
    {
        self.bytes.as_mut_slice()
    }

    /// Copies a slice into a push. A push must be shorter than `2^32`
    /// bytes; a longer slice gives an error that reports its length.
    pub fn from_slice(bytes: &[u8]) -> (r: Result<PushBytes, PushBytesError>)
        ensures
            r is Ok <==> bytes@.len() < 0x1_0000_0000,
            r matches Ok(p) ==> p@ == bytes@,
            r matches Err(e) ==> e.len == bytes@.len(),
    {
        if bytes.len() as u64 >= 0x1_0000_0000u64 {
            return Err(PushBytesError { len: bytes.len() });
        }
        let mut v: Vec<u8> = Vec::new();
        let mut i: usize = 0;
        while i < bytes.len()
            invariant
                i <= bytes.len(),
                v@ == bytes@.take(i as int),
            decreases bytes.len() - i,
        {
            v.push(bytes[i]);
            i = i + 1;
            assert(v@ =~= bytes@.take(i as int));
        }
        assert(bytes@.take(bytes.len() as int) =~= bytes@);
        Ok(PushBytes { bytes: v })
    }
}

} // verus!
