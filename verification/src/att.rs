//! Values of GATT characteristics and descriptors.
use vstd::prelude::*;

verus! {

/// The longest value a characteristic or descriptor can hold.
pub const MAX_CHAR_LEN: usize = 512;

/// The largest MTU that an application uses.
pub const MAX_APP_MTU: usize = 511;

/// `v` resized to `n` bytes: cut at `n`, or filled up to `n` with `value`.
pub open spec fn resized(v: Seq<u8>, n: nat, value: u8) -> Seq<u8> {
    if v.len() < n {
        v + Seq::new((n - v.len()) as nat, |i: int| value)
    } else {
        v.take(n as int)
    }
}

/// The value of a characteristic or descriptor: at most `MAX_CHAR_LEN` bytes.
#[derive(Debug)]
pub struct AttValue {
    buf: Vec<u8>,
}

impl View for AttValue {
    type V = Seq<u8>;

    closed spec fn view(&self) -> Seq<u8> {
        self.buf@
    }
}

impl AttValue {
    #[verifier::type_invariant]
    spec fn inv(self) -> bool {
        self.buf.len() <= MAX_CHAR_LEN
    }

    /// The number of bytes held (at most `MAX_CHAR_LEN`).
    pub fn len(&self) -> (r: usize)
        ensures
            r == self@.len(),
            r <= MAX_CHAR_LEN,
    {
        proof {
            use_type_invariant(self);
        }
        self.buf.len()
    }

    /// Takes the bytes out, leaving the value empty.
    fn take_bytes(&mut self) -> (r: Vec<u8>)
        ensures
            r@ == old(self)@,
            r@.len() <= MAX_CHAR_LEN,
            final(self)@ == Seq::<u8>::empty(),
    {
        proof {
            use_type_invariant(&*self);
        }
        let mut v = Vec::new();
        std::mem::swap(&mut v, &mut self.buf);
        v
    }

    /// A value of `len` zero bytes.
    pub fn new(len: usize) -> (r: AttValue)
        requires
            len <= MAX_CHAR_LEN,
        ensures
            r@ == Seq::new(len as nat, |i: int| 0u8),
    {
        let mut ret = AttValue::default();
        ret.resize(len, 0);
        assert(ret@ =~= Seq::new(len as nat, |i: int| 0u8));
        ret
    }

    /// Resizes the value to `new_len` bytes; new bytes are `value`.
    pub fn resize(&mut self, new_len: usize, value: u8)
        requires
            new_len <= MAX_CHAR_LEN,
        ensures
            final(self)@ == resized(old(self)@, new_len as nat, value),
    {
        let mut v = self.take_bytes();
        let ghost v0 = v@;
        if v.len() < new_len {
            while v.len() < new_len
                invariant
                    v0.len() <= v@.len() <= new_len,
                    v@ == v0 + Seq::new((v@.len() - v0.len()) as nat, |i: int| value),
                decreases new_len - v@.len(),
            {
                v.push(value);
                assert(v@ =~= v0 + Seq::new((v@.len() - v0.len()) as nat, |i: int| value));
            }
        } else {
            v.truncate(new_len);
        }
        assert(v@ =~= resized(v0, new_len as nat, value));
        self.buf = v;
    }

    /// Resizes the value to `new_len` bytes; each new byte is what a call of `f` returns, in
    /// order.
    pub fn resize_with<F: FnMut() -> u8>(&mut self, new_len: usize, f: F)
        requires
            new_len <= MAX_CHAR_LEN,
            f.requires(()),
        ensures
            final(self)@.len() == new_len,
            new_len <= old(self)@.len() ==> final(self)@ == old(self)@.take(new_len as int),
            new_len > old(self)@.len() ==> final(self)@.take(old(self)@.len() as int) == old(self)@,
            forall|i: int|
                old(self)@.len() <= i < new_len ==> f.ensures((), #[trigger] final(self)@[i]),
    {
        let ghost f0 = f;
        let mut f = f;
        let mut v = self.take_bytes();
        let ghost v0 = v@;
        if v.len() < new_len {
            while v.len() < new_len
                invariant
                    v0.len() <= v@.len() <= new_len,
                    v@.take(v0.len() as int) == v0,
                    f == f0,
                    f0.requires(()),
                    forall|i: int| v0.len() <= i < v@.len() ==> f0.ensures((), #[trigger] v@[i]),
                decreases new_len - v@.len(),
            {
                let b = f();
                v.push(b);
                assert(v@.take(v0.len() as int) =~= v0);
            }
        } else {
            v.truncate(new_len);
        }
        self.buf = v;
    }

    /// The bytes of the value.
    pub fn as_slice(&self) -> (r: &[u8])
        ensures
            r@ == self@,
    {
        self.buf.as_slice()
    }

    /// Writes `slice` at `offset`; the value then ends where the written bytes end.
    pub fn update(&mut self, slice: &[u8], offset: usize)
        requires
            offset <= old(self)@.len(),
            offset + slice@.len() <= MAX_CHAR_LEN,
        ensures
            final(self)@ == old(self)@.take(offset as int) + slice@,
    {
        let mut v = self.take_bytes();
        let ghost v0 = v@;
        v.truncate(offset);
        let mut i: usize = 0;
        while i < slice.len()
            invariant
                offset + slice@.len() <= MAX_CHAR_LEN,
                i <= slice@.len(),
                v@ == v0.take(offset as int) + slice@.take(i as int),
            decreases slice@.len() - i,
        {
            v.push(slice[i]);
            i = i + 1;
            assert(v@ =~= v0.take(offset as int) + slice@.take(i as int));
        }
        assert(slice@.take(i as int) =~= slice@);
        self.buf = v;
    }

    /// Appends the bytes of `slice`.
    pub fn extend_from_slice(&mut self, slice: &[u8])
        requires
            old(self)@.len() + slice@.len() <= MAX_CHAR_LEN,
        ensures
            final(self)@ == old(self)@ + slice@,
    {
        let n = self.len();
        self.update(slice, n);
        assert(old(self)@.take(n as int) =~= old(self)@);
    }

    /// A value holding the bytes of `slice`.
    pub fn from_slice(slice: &[u8]) -> (r: AttValue)
        requires
            slice@.len() <= MAX_CHAR_LEN,
        ensures
            r@ == slice@,
    {
        let mut ret = AttValue::default();
        ret.extend_from_slice(slice);
        assert(Seq::<u8>::empty() + slice@ =~= slice@);
        ret
    }
}

impl Default for AttValue {
    fn default() -> (r: AttValue)
        ensures
            r@ == Seq::<u8>::empty(),
    {
        AttValue { buf: Vec::new() }
    }
}

impl Clone for AttValue {
    fn clone(&self) -> (r: AttValue)
        ensures
            r@ == self@,
    {
        proof {
            use_type_invariant(self);
        }
        AttValue::from_slice(self.as_slice())
    }
}

impl std::borrow::Borrow<[u8]> for AttValue {
    /// The bytes of the value.
    fn borrow(&self) -> (r: &[u8])
        ensures
            <[u8] as View>::view(r) == self@,
    {
        self.as_slice()
    }
}

/// The value of a local characteristic or descriptor: a value, or a function that gives
/// one each time it is called.
pub enum ValOrFn<F> {
    Value(AttValue),
    Function(F),
}

impl<F> Default for ValOrFn<F> {
    fn default() -> (r: ValOrFn<F>)
        ensures
            r matches ValOrFn::Value(v) && v@ == Seq::<u8>::empty(),
    {
        ValOrFn::Value(AttValue::default())
    }
}

/// The function of `v`, if it holds one, may be called.
pub open spec fn value_ready<F: FnMut() -> AttValue>(v: ValOrFn<F>) -> bool {
    v matches ValOrFn::Function(f) ==> f.requires(())
}

/// `r` is a value that `v` can give: a copy of the value held, or what the function may
/// return.
pub open spec fn value_gives<F: FnMut() -> AttValue>(v: ValOrFn<F>, r: AttValue) -> bool {
    match v {
        ValOrFn::Value(x) => r@ == x@,
        ValOrFn::Function(f) => f.ensures((), r),
    }
}

impl<F: FnMut() -> AttValue> ValOrFn<F> {
    /// The current value: a copy of the value held, or what the function returns.
    pub fn to_value(&mut self) -> (r: AttValue)
        requires
            value_ready(*old(self)),
        ensures
            value_gives(*old(self), r),
            *final(self) == *old(self),
    {
        match self {
            ValOrFn::Value(cv) => cv.clone(),
            ValOrFn::Function(f) => f(),
        }
    }

    /// A value holding the bytes of `slice`.
    pub fn from_slice(slice: &[u8]) -> (r: ValOrFn<F>)
        requires
            slice@.len() <= MAX_CHAR_LEN,
        ensures
            r matches ValOrFn::Value(v) && v@ == slice@,
    {
        ValOrFn::Value(AttValue::from_slice(slice))
    }
}

} // verus!
