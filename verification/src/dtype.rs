use vstd::prelude::*;

verus! {

/// Element types a tensor can hold. `WQ8` is the packed 8-bit quantized
/// layout: a run of packed weights (four per `u32`) followed by one `f32`
/// absolute-maximum per group, so its buffer splits into two segments.
#[derive(Debug, Copy, Clone, PartialEq, Eq, Hash, Structural)]
pub enum DType {
    Q8,
    F16,
    BF16,
    F32,
    I32,
    U32,
    WQ8,
}

impl Default for DType {
    fn default() -> (r: Self)
        ensures
            r == DType::F32,
    {
        DType::F32
    }
}

impl DType {
    /// Returns the size of the type in bytes.
    pub fn size_of(self) -> (r: usize)
        ensures
            r == self.size_of_spec(),
    {
        match self {
            DType::Q8 => 1,
            DType::F16 => 2,
            DType::BF16 => 2,
            DType::F32 => 4,
            DType::I32 => 4,
            DType::U32 => 4,
            DType::WQ8 => 4,
        }
    }

    pub open spec fn size_of_spec(self) -> usize {
        match self {
            DType::Q8 => 1usize,
            DType::F16 => 2usize,
            DType::BF16 => 2usize,
            DType::F32 => 4usize,
            DType::I32 => 4usize,
            DType::U32 => 4usize,
            DType::WQ8 => 4usize,
        }
    }

    /// Numeric tag used by quantized kernels to discriminate the source type.
    /// Only the types that such kernels accept have a tag.
    pub fn to_u32(self) -> (r: u32)
        requires
            self == DType::F32 || self == DType::F16,
        ensures
            self == DType::F32 ==> r == 0,
            self == DType::F16 ==> r == 1,
    {
        match self {
            DType::F32 => 0,
            _ => 1,
        }
    }

    pub fn is_quantized(self) -> (r: bool)
        ensures
            r == (self == DType::WQ8 || self == DType::Q8),
    {
        matches!(self, DType::WQ8 | DType::Q8)
    }

    pub fn is_float(self) -> (r: bool)
        ensures
            r == (self == DType::F16 || self == DType::BF16 || self == DType::F32),
    {
        matches!(self, DType::F16 | DType::BF16 | DType::F32)
    }

    /// Name used inside kernel cache keys.
    pub fn as_str(self) -> (r: &'static str)
        ensures
            r@ == self.as_str_spec(),
    {
        match self {
            DType::Q8 => "Q8",
            DType::F16 => "F16",
            DType::BF16 => "BF16",
            DType::F32 => "F32",
            DType::I32 => "I32",
            DType::U32 => "U32",
            DType::WQ8 => "WQ8",
        }
    }

    pub open spec fn as_str_spec(self) -> Seq<char> {
        match self {
            DType::Q8 => "Q8"@,
            DType::F16 => "F16"@,
            DType::BF16 => "BF16"@,
            DType::F32 => "F32"@,
            DType::I32 => "I32"@,
            DType::U32 => "U32"@,
            DType::WQ8 => "WQ8"@,
        }
    }

    /// How a buffer of `total_bytes` bytes of this type splits into bindable
    /// segments. `WQ8` packs weights (four fifths of the bytes) ahead of the
    /// per-group absolute maxima (the remaining fifth); every other type is a
    /// single segment.
    pub fn segments(&self, total_bytes: usize) -> (r: Vec<BufferSegment>)
        requires
            *self == DType::WQ8 ==> total_bytes >= 5,
            total_bytes > 0,
        ensures
            *self == DType::WQ8 ==> r@.len() == 2 && r@[0].offset == 0 && r@[0].size == (
            total_bytes / 5 * 4) as u64 && r@[1].offset == (total_bytes / 5 * 4) as u64
                && r@[1].size == (total_bytes - total_bytes / 5 * 4) as u64,
            *self != DType::WQ8 ==> r@.len() == 1 && r@[0].offset == 0 && r@[0].size
                == total_bytes as u64,
            forall|i: int| 0 <= i < r@.len() ==> (#[trigger] r@[i]).wf(),
    {
        match self {
            DType::WQ8 => {
                let weights_size: usize = total_bytes / 5 * 4;
                assert(weights_size >= 4 && weights_size < total_bytes);
                let weights = BufferSegment { offset: 0, size: weights_size as u64 };
                let absmax = BufferSegment {
                    offset: weights_size as u64,
                    size: (total_bytes - weights_size) as u64,
                };
                let mut r: Vec<BufferSegment> = Vec::new();
                r.push(weights);
                r.push(absmax);
                r
            },
            _ => {
                let mut r: Vec<BufferSegment> = Vec::new();
                r.push(BufferSegment { offset: 0, size: total_bytes as u64 });
                r
            },
        }
    }
}

/// One bindable range of a physical buffer; `size` is never zero.
#[derive(Debug, Copy, Clone, PartialEq, Eq, Hash, Structural)]
pub struct BufferSegment {
    pub offset: u64,
    pub size: u64,
}

impl BufferSegment {
    pub open spec fn wf(self) -> bool {
        self.size > 0
    }

    pub fn new(offset: u64, size: u64) -> (r: Self)
        requires
            size > 0,
        ensures
            r.offset == offset && r.size == size && r.wf(),
    {
        BufferSegment { offset, size }
    }
}

/// Host types that can stand for a tensor element type.
pub trait TensorDType: Sized {
    fn dt() -> DType;

    fn one() -> Self;
}

impl TensorDType for i32 {
    fn dt() -> (r: DType)
        ensures
            r == DType::I32,
    {
        DType::I32
    }

    fn one() -> (r: Self)
        ensures
            r == 1i32,
    {
        1
    }
}

impl TensorDType for u32 {
    fn dt() -> (r: DType)
        ensures
            r == DType::U32,
    {
        DType::U32
    }

    fn one() -> (r: Self)
        ensures
            r == 1u32,
    {
        1
    }
}

/// Distance from `n` up to the next multiple of the device's 256-byte
/// buffer-offset granule.
pub open spec fn pad_to_256(n: int) -> int {
    if n % 256 == 0 {
        0
    } else {
        256 - n % 256
    }
}

/// Alignment of byte counts to the device's 256-byte offset granule.
pub trait Align {
    /// When rounding up cannot overflow the machine word.
    spec fn align_req(&self) -> bool;

    fn calculate_alignment(&self) -> usize;

    fn align(&self) -> usize
        requires
            self.align_req(),
    ;
}

impl Align for usize {
    open spec fn align_req(&self) -> bool {
        *self + 255 <= usize::MAX
    }

    fn calculate_alignment(&self) -> (r: usize)
        ensures
            r == pad_to_256(*self as int),
            r < 256,
    {
        let remainder: usize = self % 256;
        if remainder == 0 {
            0
        } else {
            256 - remainder
        }
    }

    fn align(&self) -> (r: usize)
        ensures
            r == *self + pad_to_256(*self as int),
            r % 256 == 0,
            *self <= r < *self + 256,
    {
        self + self.calculate_alignment()
    }
}

/// Padding a byte (or element) vector out to the 256 granule with default
/// elements, as uniform buffers require before upload.
pub trait Padding {
    /// When padding cannot overflow the container's length.
    spec fn pad_req(&self) -> bool;

    fn align_standard(&mut self) -> usize
        requires
            old(self).pad_req(),
    ;
}

impl<T: Clone + Default> Padding for Vec<T> {
    open spec fn pad_req(&self) -> bool {
        self@.len() + 255 <= usize::MAX
    }

    fn align_standard(&mut self) -> (r: usize)
        ensures
            r == pad_to_256(old(self)@.len() as int),
            final(self)@.len() == old(self)@.len() + r,
            final(self)@.len() % 256 == 0,
            final(self)@.subrange(0, old(self)@.len() as int) == old(self)@,
    {
        let length: usize = self.len();
        let alignment: usize = length.calculate_alignment();
        let mut added: usize = 0;
        while added < alignment
            invariant
                added <= alignment,
                self@.len() == length + added,
                self@.subrange(0, length as int) == old(self)@,
                length == old(self)@.len(),
            decreases alignment - added,
        {
            self.push(T::default());
            added = added + 1;
            assert(self@.subrange(0, length as int) == old(self)@);
        }
        assert(length + alignment == length as int + pad_to_256(length as int));
        alignment
    }
}

} // verus!
