use vstd::prelude::*;
use vstd::string::StringExecFns;

use crate::kernel_builder::WgslFragment;

verus! {

/// Byte granule of dynamic uniform-buffer offsets: every per-op metadata
/// record starts on a multiple of this.
pub const UNIFORM_ALIGN: usize = 256;

/// A four-component vector of 32-bit words, as kernels receive strides and
/// shapes.
#[derive(Debug, Copy, Clone, PartialEq, Eq, Hash, Structural)]
pub struct UVec4 {
    pub x: u32,
    pub y: u32,
    pub z: u32,
    pub w: u32,
}

impl UVec4 {
    pub fn new(x: u32, y: u32, z: u32, w: u32) -> (r: Self)
        ensures
            r == (UVec4 { x, y, z, w }),
    {
        UVec4 { x, y, z, w }
    }

    pub fn splat(v: u32) -> (r: Self)
        ensures
            r == (UVec4 { x: v, y: v, z: v, w: v }),
    {
        UVec4 { x: v, y: v, z: v, w: v }
    }
}

/// The little-endian 32-bit word starting at byte `p`.
pub open spec fn le32_at(bytes: Seq<u8>, p: int) -> int {
    bytes[p] + 0x100 * bytes[p + 1] + 0x10000 * bytes[p + 2] + 0x1000000 * bytes[p + 3]
}

/// Appends the little-endian bytes of one 32-bit word.
pub fn push_u32_le(buf: &mut Vec<u8>, v: u32)
    ensures
        final(buf)@.len() == old(buf)@.len() + 4,
        final(buf)@.subrange(0, old(buf)@.len() as int) == old(buf)@,
        le32_at(final(buf)@, old(buf)@.len() as int) == v,
{
    let b0: u8 = (v % 256) as u8;
    let b1: u8 = ((v / 256) % 256) as u8;
    let b2: u8 = ((v / 65536) % 256) as u8;
    let b3: u8 = (v / 16777216) as u8;
    proof {
        let x = v as int;
        assert(x == 256 * (x / 256) + x % 256);
        assert(x / 256 == 256 * (x / 256 / 256) + (x / 256) % 256);
        assert(x / 256 / 256 == 256 * (x / 256 / 256 / 256) + (x / 256 / 256) % 256);
        assert(x / 256 / 256 == x / 65536) by (nonlinear_arith)
            requires
                x >= 0,
        ;
        assert(x / 65536 / 256 == x / 16777216) by (nonlinear_arith)
            requires
                x >= 0,
        ;
        assert(x / 16777216 < 256);
        assert(b0 + 0x100 * b1 + 0x10000 * b2 + 0x1000000 * b3 == x);
    }
    self_push(buf, b0);
    self_push(buf, b1);
    self_push(buf, b2);
    self_push(buf, b3);
    proof {
        assert(final(buf)@.subrange(0, old(buf)@.len() as int) =~= old(buf)@);
    }
}

fn self_push(buf: &mut Vec<u8>, b: u8)
    ensures
        final(buf)@ == old(buf)@.push(b),
{
    buf.push(b);
}

/// One metadata field of an operation whose field list depends on its
/// input count.
#[derive(Debug, Copy, Clone, PartialEq, Eq, Structural)]
pub enum DynMetaField {
    Vec4U32(UVec4),
    U32(u32),
}

impl DynMetaField {
    /// The field's WGSL type text.
    pub open spec fn render_spec(self) -> Seq<char> {
        match self {
            DynMetaField::Vec4U32(_) => "vec4<u32>"@,
            DynMetaField::U32(_) => "u32"@,
        }
    }

    pub fn render(&self) -> (r: &'static str)
        ensures
            r@ == self.render_spec(),
    {
        match self {
            DynMetaField::Vec4U32(_) => "vec4<u32>",
            DynMetaField::U32(_) => "u32",
        }
    }

    /// Alignment the field's type demands within the uniform record.
    pub open spec fn align_of(self) -> int {
        match self {
            DynMetaField::Vec4U32(_) => 16,
            DynMetaField::U32(_) => 4,
        }
    }

    /// Bytes the field occupies.
    pub open spec fn size_of(self) -> int {
        match self {
            DynMetaField::Vec4U32(_) => 16,
            DynMetaField::U32(_) => 4,
        }
    }
}

impl DeepView for DynMetaField {
    type V = DynMetaField;

    open spec fn deep_view(&self) -> DynMetaField {
        *self
    }
}

/// Rounds `o` up to a multiple of `a`.
pub open spec fn align_up(o: int, a: int) -> int {
    if o % a == 0 {
        o
    } else {
        o + a - o % a
    }
}

/// Byte offset of field `i` within the rendered metadata struct, per the
/// device's uniform layout rules.
#[verifier::opaque]
pub open spec fn field_offset(fields: Seq<DynMetaField>, i: int) -> int
    decreases i,
{
    if i <= 0 {
        0
    } else {
        align_up(field_offset(fields, i - 1) + fields[i - 1].size_of(), fields[i].align_of())
    }
}

/// Bytes the whole field list occupies.
pub open spec fn fields_size(fields: Seq<DynMetaField>) -> int {
    if fields.len() == 0 {
        0
    } else {
        field_offset(fields, fields.len() - 1) + fields[fields.len() - 1].size_of()
    }
}

/// Whether `bytes` holds `f` at byte offset `p`, read back per the layout.
#[verifier::opaque]
pub open spec fn field_decodes(bytes: Seq<u8>, p: int, f: DynMetaField) -> bool {
    match f {
        DynMetaField::U32(v) => le32_at(bytes, p) == v,
        DynMetaField::Vec4U32(v) => le32_at(bytes, p) == v.x && le32_at(bytes, p + 4) == v.y
            && le32_at(bytes, p + 8) == v.z && le32_at(bytes, p + 12) == v.w,
    }
}

/// The host-side mirror of the shared metadata uniform buffer.
#[derive(Debug)]
pub struct CpuUniform {
    pub buf: Vec<u8>,
}

impl View for CpuUniform {
    type V = Seq<u8>;

    open spec fn view(&self) -> Seq<u8> {
        self.buf@
    }
}

impl CpuUniform {
    pub fn new() -> (r: Self)
        ensures
            r@ == Seq::<u8>::empty(),
    {
        CpuUniform { buf: Vec::new() }
    }

    pub fn len(&self) -> (r: usize)
        ensures
            r == self@.len(),
    {
        self.buf.len()
    }

    pub fn into_inner(self) -> (r: Vec<u8>)
        ensures
            r@ == self@,
    {
        self.buf
    }

    /// Pads with zero bytes until the next record can start on the dynamic
    /// offset granule. Returns that record's offset.
    pub fn align_to_record(&mut self) -> (r: usize)
        requires
            old(self)@.len() + 256 <= usize::MAX,
        ensures
            r == align_up(old(self)@.len() as int, 256),
            final(self)@.len() == r,
            final(self)@.subrange(0, old(self)@.len() as int) == old(self)@,
            r % 256 == 0,
    {
        let mut target: usize = self.buf.len();
        let rem: usize = target % 256;
        if rem != 0 {
            target = target + (256 - rem);
        }
        while self.buf.len() < target
            invariant
                self@.len() <= target,
                target <= usize::MAX,
                self@.subrange(0, old(self)@.len() as int) == old(self)@,
                old(self)@.len() <= self@.len(),
            decreases target - self@.len(),
        {
            self.buf.push(0u8);
            proof {
                assert(self@.subrange(0, old(self)@.len() as int) =~= old(self)@);
            }
        }
        target
    }

    /// Pads with zero bytes until the field at relative offset `rel` of the
    /// record starting at `base` can be written.
    fn pad_to(&mut self, base: usize, rel: usize)
        requires
            base + rel <= usize::MAX,
            old(self)@.len() <= base + rel,
        ensures
            final(self)@.len() == base + rel,
            final(self)@.subrange(0, old(self)@.len() as int) == old(self)@,
    {
        let target: usize = base + rel;
        while self.buf.len() < target
            invariant
                self@.len() <= target,
                self@.subrange(0, old(self)@.len() as int) == old(self)@,
                old(self)@.len() <= self@.len(),
            decreases target - self@.len(),
        {
            self.buf.push(0u8);
            proof {
                assert(self@.subrange(0, old(self)@.len() as int) =~= old(self)@);
            }
        }
    }
}

/// Name and value of every metadata field of one op, in declaration order.
/// The rendered device-side struct and the bytes written to the uniform
/// buffer both follow this one list, so they cannot drift apart.
#[derive(Debug)]
pub struct DynKernelMetadata {
    pub fields: Vec<(String, DynMetaField)>,
}

impl DynKernelMetadata {
    /// The field values in declaration order.
    pub open spec fn values(&self) -> Seq<DynMetaField> {
        self.fields.deep_view().map_values(|p: (Seq<char>, DynMetaField)| p.1)
    }

    /// The field names in declaration order.
    pub open spec fn names(&self) -> Seq<Seq<char>> {
        self.fields.deep_view().map_values(|p: (Seq<char>, DynMetaField)| p.0)
    }

    pub fn new() -> (r: Self)
        ensures
            r.fields.deep_view() =~= Seq::<(Seq<char>, DynMetaField)>::empty(),
    {
        DynKernelMetadata { fields: Vec::new() }
    }

    /// Declares the next field; fields lay out in declaration order.
    pub fn add_field(&mut self, name: &str, value: DynMetaField)
        ensures
            final(self).fields.deep_view() =~= old(self).fields.deep_view().push((name@, value)),
    {
        self.fields.push((String::from_str(name), value));
    }

    pub fn num_fields(&self) -> (r: usize)
        ensures
            r == self.fields@.len(),
    {
        self.fields.len()
    }

    /// The device-side struct declaration generated from the field list.
    pub fn render(&self) -> (r: WgslFragment)
        ensures
            r@ == meta_struct_text(self.names(), self.values()),
    {
        let mut s = String::new();
        s.append("struct Meta {\n");
        let n: usize = self.fields.len();
        let mut i: usize = 0;
        while i < n
            invariant
                i <= n,
                n == self.fields@.len(),
                n == self.names().len() && n == self.values().len(),
                s@ == meta_fields_text(self.names(), self.values(), i as int),
            decreases n - i,
        {
            s.append("    ");
            s.append(self.fields[i].0.as_str());
            s.append(": ");
            s.append(self.fields[i].1.render());
            s.append(",\n");
            proof {
                assert(self.names()[i as int] == self.fields.deep_view()[i as int].0);
                assert(self.values()[i as int] == self.fields.deep_view()[i as int].1);
                assert(s@ =~= meta_fields_text(self.names(), self.values(), i + 1));
            }
            i = i + 1;
        }
        s.append("}\n");
        proof {
            assert(s@ =~= meta_struct_text(self.names(), self.values()));
        }
        WgslFragment(s)
    }

    /// Packs the fields into the uniform buffer at the next record offset,
    /// each at the byte offset the rendered struct gives it, and returns
    /// that record offset. Reading the bytes back per the layout reproduces
    /// every field value.
    #[verifier::rlimit(100)]
    pub fn write(&self, uniform: &mut CpuUniform) -> (r: u64)
        requires
            old(uniform)@.len() + 256 + 32 * self.values().len() <= usize::MAX,
        ensures
            r == align_up(old(uniform)@.len() as int, 256),
            r % 256 == 0,
            final(uniform)@.len() == r + fields_size(self.values()),
            final(uniform)@.subrange(0, old(uniform)@.len() as int) == old(uniform)@,
            forall|i: int|
                0 <= i < self.values().len() ==> field_decodes(
                    final(uniform)@,
                    r + field_offset(self.values(), i),
                    self.values()[i],
                ),
    {
        let ghost vals = self.values();
        proof {
            lemma_field_offset_bound(vals, vals.len() as int);
        }
        let base: usize = uniform.align_to_record();
        let n: usize = self.fields.len();
        let mut i: usize = 0;
        while i < n
            invariant
                i <= n,
                n == self.fields@.len(),
                vals == self.values(),
                n == vals.len(),
                base + 32 * n <= usize::MAX,
                base == align_up(old(uniform)@.len() as int, 256),
                base % 256 == 0,
                uniform@.len() == base + written_end(vals, i as int),
                uniform@.subrange(0, old(uniform)@.len() as int) == old(uniform)@,
                forall|k: int|
                    0 <= k < i ==> field_decodes(
                        uniform@,
                        base + field_offset(vals, k),
                        vals[k],
                    ),
            decreases n - i,
        {
            let ghost pre = uniform@;
            let value: DynMetaField = self.fields[i].1;
            proof {
                lemma_field_offset_bound(vals, i as int);
                assert(vals[i as int] == self.fields.deep_view()[i as int].1);
            }
            append_field(uniform, base, value, Ghost(vals), i);
            proof {
                lemma_prefix_trans(old(uniform)@, pre, uniform@);
                assert forall|k: int| 0 <= k < i implies field_decodes(
                    uniform@,
                    base + field_offset(vals, k),
                    vals[k],
                ) by {
                    lemma_field_offset_bound(vals, k);
                    lemma_field_offset_mono(vals, k, i as int);
                    lemma_prefix_decode_stable(
                        pre,
                        uniform@,
                        base + field_offset(vals, k),
                        vals[k],
                    );
                }
                assert(uniform@.subrange(0, old(uniform)@.len() as int) =~= old(uniform)@);
            }
            i = i + 1;
        }
        proof {
            if n == 0 {
                assert(fields_size(vals) == 0);
            } else {
                assert(written_end(vals, n as int) == fields_size(vals));
            }
        }
        (base as u64)
    }

    /// Zero padding between the previous field's end and this field's
    /// aligned offset.
    fn pad_field(&self, uniform: &mut CpuUniform, base: usize, rel: usize)
        requires
            base + rel <= usize::MAX,
            old(uniform)@.len() <= base + rel,
        ensures
            final(uniform)@.len() == base + rel,
            final(uniform)@.subrange(0, old(uniform)@.len() as int) == old(uniform)@,
    {
        uniform.pad_to(base, rel);
    }
}

/// Pads to field `i`'s aligned offset within the record starting at
/// `base`, then writes `value`'s bytes there.
fn append_field(
    uniform: &mut CpuUniform,
    base: usize,
    value: DynMetaField,
    Ghost(vals): Ghost<Seq<DynMetaField>>,
    i: usize,
)
    requires
        (i as int) < vals.len(),
        vals[i as int] == value,
        base + 32 * ((i as int) + 1) <= usize::MAX,
        old(uniform)@.len() == base + written_end(vals, i as int),
    ensures
        final(uniform)@.len() == base + written_end(vals, i as int + 1),
        old(uniform)@.len() <= final(uniform)@.len(),
        final(uniform)@.subrange(0, old(uniform)@.len() as int) == old(uniform)@,
        field_decodes(final(uniform)@, base + field_offset(vals, i as int), value),
{
    proof {
        lemma_field_offset_bound(vals, i as int);
        lemma_field_offset_step(vals, i as int);
    }
    let cur: usize = uniform.len() - base;
    let al: usize = match value {
        DynMetaField::Vec4U32(_) => 16,
        DynMetaField::U32(_) => 4,
    };
    let rem: usize = cur % al;
    let rel: usize = if rem == 0 {
        cur
    } else {
        cur + (al - rem)
    };
    proof {
        assert(cur == written_end(vals, i as int));
        assert(rel == align_up(written_end(vals, i as int), vals[i as int].align_of()));
        assert(rel == field_offset(vals, i as int));
    }
    uniform.pad_to(base, rel);
    let ghost mid = uniform@;
    push_field(uniform, value);
    proof {
        lemma_prefix_trans(old(uniform)@, mid, uniform@);
        assert(uniform@.subrange(0, old(uniform)@.len() as int) =~= old(uniform)@);
    }
}

/// Appends the little-endian bytes of one field value.
fn push_field(uniform: &mut CpuUniform, value: DynMetaField)
    requires
        old(uniform)@.len() + 16 <= usize::MAX,
    ensures
        final(uniform)@.len() == old(uniform)@.len() + value.size_of(),
        final(uniform)@.subrange(0, old(uniform)@.len() as int) == old(uniform)@,
        field_decodes(final(uniform)@, old(uniform)@.len() as int, value),
{
    proof {
        reveal(field_decodes);
    }
    let ghost start = old(uniform)@.len() as int;
    match value {
        DynMetaField::U32(v) => {
            push_u32_le(&mut uniform.buf, v);
        },
        DynMetaField::Vec4U32(u) => {
            push_u32_le(&mut uniform.buf, u.x);
            let ghost p1 = uniform@;
            push_u32_le(&mut uniform.buf, u.y);
            let ghost p2 = uniform@;
            proof {
                lemma_le32_stable(p1, p2, start);
            }
            push_u32_le(&mut uniform.buf, u.z);
            let ghost p3 = uniform@;
            proof {
                lemma_le32_stable(p2, p3, start);
                lemma_le32_stable(p2, p3, start + 4);
            }
            push_u32_le(&mut uniform.buf, u.w);
            proof {
                lemma_le32_stable(p3, uniform@, start);
                lemma_le32_stable(p3, uniform@, start + 4);
                lemma_le32_stable(p3, uniform@, start + 8);
                assert(final(uniform)@.subrange(0, start) =~= old(uniform)@);
            }
        },
    }
}

/// Bytes of the record occupied after the first `i` fields are written.
pub open spec fn written_end(fields: Seq<DynMetaField>, i: int) -> int {
    if i <= 0 {
        0
    } else {
        field_offset(fields, i - 1) + fields[i - 1].size_of()
    }
}

/// The field lines of the rendered struct, first `k` of them.
pub open spec fn meta_fields_text(names: Seq<Seq<char>>, values: Seq<DynMetaField>, k: int) -> Seq<
    char,
>
    decreases k,
{
    if k <= 0 {
        "struct Meta {\n"@
    } else {
        meta_fields_text(names, values, k - 1) + "    "@ + names[k - 1] + ": "@ + values[k
            - 1].render_spec() + ",\n"@
    }
}

/// The complete rendered metadata struct.
pub open spec fn meta_struct_text(names: Seq<Seq<char>>, values: Seq<DynMetaField>) -> Seq<char> {
    meta_fields_text(names, values, names.len() as int) + "}\n"@
}

/// Field offsets stay within 32 bytes per field.
pub proof fn lemma_field_offset_bound(fields: Seq<DynMetaField>, i: int)
    requires
        0 <= i,
    ensures
        0 <= written_end(fields, i) <= 32 * i,
        i < fields.len() ==> 0 <= field_offset(fields, i) && field_offset(fields, i)
            + fields[i].size_of() <= 32 * (i + 1),
    decreases i,
{
    reveal(field_offset);
    if i > 0 {
        lemma_field_offset_bound(fields, i - 1);
    }
}

/// A field begins where the previous ones ended, rounded to its alignment.
pub proof fn lemma_field_offset_step(fields: Seq<DynMetaField>, i: int)
    requires
        0 <= i,
    ensures
        field_offset(fields, i) == align_up(written_end(fields, i), fields[i].align_of()),
{
    reveal(field_offset);
    if i == 0 {
        assert(align_up(0, fields[0].align_of()) == 0);
    }
}

/// Offsets grow with the field index.
pub proof fn lemma_field_offset_mono(fields: Seq<DynMetaField>, k: int, i: int)
    requires
        0 <= k < i,
    ensures
        field_offset(fields, k) + fields[k].size_of() <= written_end(fields, i),
    decreases i - k,
{
    reveal(field_offset);
    if k + 1 < i {
        lemma_field_offset_mono(fields, k + 1, i);
        assert(field_offset(fields, k + 1) >= written_end(fields, k + 1));
    }
}

/// A preserved prefix of a preserved prefix is itself preserved.
pub proof fn lemma_prefix_trans(a: Seq<u8>, b: Seq<u8>, c: Seq<u8>)
    requires
        a.len() <= b.len(),
        b.len() <= c.len(),
        b.subrange(0, a.len() as int) == a,
        c.subrange(0, b.len() as int) == b,
    ensures
        c.subrange(0, a.len() as int) == a,
{
    assert forall|i: int| 0 <= i < a.len() implies c.subrange(0, a.len() as int)[i] == a[i] by {
        assert(c.subrange(0, b.len() as int)[i] == c[i]);
        assert(b.subrange(0, a.len() as int)[i] == b[i]);
    }
    assert(c.subrange(0, a.len() as int) =~= a);
}

/// A 32-bit read below the old length is unchanged by appending.
pub proof fn lemma_le32_stable(pre: Seq<u8>, post: Seq<u8>, p: int)
    requires
        pre.len() <= post.len(),
        post.subrange(0, pre.len() as int) == pre,
        0 <= p,
        p + 4 <= post.len(),
    ensures
        p + 4 <= pre.len() ==> le32_at(post, p) == le32_at(pre, p),
{
    if p + 4 <= pre.len() {
        assert(post[p] == pre[p]) by {
            assert(post.subrange(0, pre.len() as int)[p] == post[p]);
        }
        assert(post[p + 1] == pre[p + 1]) by {
            assert(post.subrange(0, pre.len() as int)[p + 1] == post[p + 1]);
        }
        assert(post[p + 2] == pre[p + 2]) by {
            assert(post.subrange(0, pre.len() as int)[p + 2] == post[p + 2]);
        }
        assert(post[p + 3] == pre[p + 3]) by {
            assert(post.subrange(0, pre.len() as int)[p + 3] == post[p + 3]);
        }
    }
}

/// A decoded field below the old length is unchanged by appending.
pub proof fn lemma_prefix_decode_stable(pre: Seq<u8>, post: Seq<u8>, p: int, f: DynMetaField)
    requires
        pre.len() <= post.len(),
        post.subrange(0, pre.len() as int) == pre,
        0 <= p,
        p + f.size_of() <= pre.len(),
        field_decodes(pre, p, f),
    ensures
        field_decodes(post, p, f),
{
    reveal(field_decodes);
    lemma_le32_stable(pre, post, p);
    match f {
        DynMetaField::U32(_) => {
        },
        DynMetaField::Vec4U32(_) => {
            lemma_le32_stable(pre, post, p + 4);
            lemma_le32_stable(pre, post, p + 8);
            lemma_le32_stable(pre, post, p + 12);
        },
    }
}

} // verus!
