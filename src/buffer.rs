//! A storage buffer's bytes as the CPU stages them, and the decision of how
//! to bring them to the GPU.

use vstd::prelude::*;

verus! {

/// A value that a shader reads from a buffer.
pub trait ShaderData: Sized {
    /// The bytes of the value as the shader reads them.
    spec fn raw_view(&self) -> Seq<u8>;

    /// The bytes of the value as the shader reads them.
    fn as_raw(&self) -> (r: Vec<u8>)
        ensures
            r@ == self.raw_view(),
    ;
}

/// The bytes of the values, one after the other.
pub open spec fn raws<T: ShaderData>(data: Seq<T>) -> Seq<u8>
    decreases data.len(),
{
    if data.len() == 0 {
        Seq::empty()
    } else {
        raws(data.drop_last()) + data.last().raw_view()
    }
}

/// An unsigned 32-bit integer, in the little-endian byte order of GPU
/// buffers.
impl ShaderData for u32 {
    open spec fn raw_view(&self) -> Seq<u8> {
        seq![
            (*self & 0xff) as u8,
            ((*self >> 8u32) & 0xff) as u8,
            ((*self >> 16u32) & 0xff) as u8,
            ((*self >> 24u32) & 0xff) as u8,
        ]
    }

    fn as_raw(&self) -> (r: Vec<u8>) {
        let x = *self;
        let mut r: Vec<u8> = Vec::new();
        r.push((x & 0xff) as u8);
        r.push(((x >> 8u32) & 0xff) as u8);
        r.push(((x >> 16u32) & 0xff) as u8);
        r.push(((x >> 24u32) & 0xff) as u8);
        assert(r@ =~= self.raw_view());
        r
    }
}

/// How to bring the staged bytes to the GPU.
#[derive(Clone, Copy, PartialEq, Eq, Structural, Debug)]
pub enum BufferWrite {
    /// Make a new buffer holding the staged bytes.
    Create,
    /// Write the staged bytes at the start of the existing buffer.
    Overwrite,
    /// There is no buffer and nothing asks for one.
    Skip,
}

/// A storage buffer of values of type `T`: the bytes staged on the CPU, and
/// whether they changed since the GPU buffer was made. Values of a type
/// with a `ShaderData` impl are staged with `set` and `push`; the bytes of
/// any other value with `push_bytes`.
pub struct StorageBuffer<T> {
    raw: Vec<u8>,
    changed: bool,
    marker: core::marker::PhantomData<T>,
}

/// The contents of a `StorageBuffer`.
pub struct StorageBufferView {
    pub raw: Seq<u8>,
    pub changed: bool,
}

impl<T> View for StorageBuffer<T> {
    type V = StorageBufferView;

    closed spec fn view(&self) -> StorageBufferView {
        StorageBufferView { raw: self.raw@, changed: self.changed }
    }
}

/// What `StorageBuffer::write` decides for a buffer whose staged bytes are
/// `raw`, given the size of the GPU buffer, if there is one.
pub open spec fn write_decision(changed: bool, raw: Seq<u8>, capacity: Option<u64>) -> BufferWrite {
    let cap: int = match capacity {
        Some(c) => c as int,
        None => 0,
    };
    if changed || cap < raw.len() {
        BufferWrite::Create
    } else if capacity is Some {
        BufferWrite::Overwrite
    } else {
        BufferWrite::Skip
    }
}

impl<T> StorageBuffer<T> {
    /// An empty buffer, with nothing on the GPU.
    pub fn new() -> (r: StorageBuffer<T>)
        ensures
            r@.raw == Seq::<u8>::empty(),
            !r@.changed,
    {
        StorageBuffer { raw: Vec::new(), changed: false, marker: core::marker::PhantomData }
    }

    /// The staged bytes.
    pub fn raw(&self) -> (r: &Vec<u8>)
        ensures
            r@ == self@.raw,
    {
        &self.raw
    }

    /// Appends `bytes`, leaving it empty.
    pub fn push_bytes(&mut self, bytes: &mut Vec<u8>)
        ensures
            final(self)@.raw == old(self)@.raw + old(bytes)@,
            final(bytes)@ == Seq::<u8>::empty(),
            final(self)@.changed,
    {
        self.raw.append(bytes);
        self.changed = true;
    }

    /// Empties the staged bytes; the GPU buffer stays as it is.
    pub fn clear(&mut self)
        ensures
            final(self)@.raw == Seq::<u8>::empty(),
            final(self)@.changed == old(self)@.changed,
    {
        self.raw.clear();
    }

    /// Decides how to bring the staged bytes to the GPU, given the size of
    /// the GPU buffer if there is one: a new buffer where the bytes changed
    /// or outgrew it, else an overwrite of the existing one. A new buffer
    /// holds the bytes as they are, so they count as unchanged after it.
    pub fn write(&mut self, capacity: Option<u64>) -> (r: BufferWrite)
        ensures
            r == write_decision(old(self)@.changed, old(self)@.raw, capacity),
            final(self)@.raw == old(self)@.raw,
            final(self)@.changed == (old(self)@.changed && r != BufferWrite::Create),
    {
        let cap: u64 = match capacity {
            Some(c) => c,
            None => 0,
        };
        if self.changed || (cap as u128) < (self.raw.len() as u128) {
            self.changed = false;
            BufferWrite::Create
        } else if capacity.is_some() {
            BufferWrite::Overwrite
        } else {
            BufferWrite::Skip
        }
    }
}

impl<T: ShaderData> StorageBuffer<T> {
    /// Replaces the staged bytes by those of the values of `data`, one
    /// after the other.
    pub fn set(&mut self, data: &[T])
        ensures
            final(self)@.raw == raws(data@),
            final(self)@.changed,
    {
        let mut raw: Vec<u8> = Vec::new();
        let mut i: usize = 0;
        while i < data.len()
            invariant
                i <= data@.len(),
                raw@ == raws(data@.subrange(0, i as int)),
            decreases data@.len() - i,
        {
            proof {
                assert(data@.subrange(0, i + 1).drop_last() =~= data@.subrange(0, i as int));
            }
            let mut bytes = data[i].as_raw();
            raw.append(&mut bytes);
            i = i + 1;
        }
        proof {
            assert(data@.subrange(0, data@.len() as int) =~= data@);
        }
        self.raw = raw;
        self.changed = true;
    }

    /// Appends the bytes of `data`.
    pub fn push(&mut self, data: &T)
        ensures
            final(self)@.raw == old(self)@.raw + data.raw_view(),
            final(self)@.changed,
    {
        let mut bytes = data.as_raw();
        self.push_bytes(&mut bytes);
    }
}

impl<T> Default for StorageBuffer<T> {
    fn default() -> (r: StorageBuffer<T>)
        ensures
            r@.raw == Seq::<u8>::empty(),
            !r@.changed,
    {
        StorageBuffer::new()
    }
}

} // verus!
