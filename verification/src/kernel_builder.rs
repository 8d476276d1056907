use vstd::prelude::*;
use vstd::string::StringExecFns;

use crate::strutil::{dec_str, push_dec};
use crate::workload::WorkgroupSize;

verus! {

/// A growing piece of WGSL text.
#[derive(Debug)]
pub struct WgslFragment(pub String);

impl View for WgslFragment {
    type V = Seq<char>;

    open spec fn view(&self) -> Seq<char> {
        self.0@
    }
}

impl WgslFragment {
    /// `capacity` is a size hint only; the fragment starts empty.
    pub fn new(capacity: usize) -> (r: Self)
        ensures
            r@ == Seq::<char>::empty(),
    {
        let _hint: usize = capacity;
        WgslFragment(String::new())
    }

    pub fn write(&mut self, s: &str)
        ensures
            final(self)@ == old(self)@ + s@,
    {
        self.0.append(s);
    }

    pub fn write_fragment(&mut self, fragment: WgslFragment)
        ensures
            final(self)@ == old(self)@ + fragment@,
    {
        self.0.append(fragment.0.as_str());
    }
}

/// Types whose WGSL rendering is a fragment.
pub trait RenderFragment {
    fn render(&self) -> WgslFragment;
}

/// A WGSL identifier.
#[derive(Debug)]
pub struct Ident(pub String);

impl View for Ident {
    type V = Seq<char>;

    open spec fn view(&self) -> Seq<char> {
        self.0@
    }
}

impl Ident {
    pub fn new(s: &str) -> (r: Ident)
        ensures
            r@ == s@,
    {
        Ident(String::from_str(s))
    }
}

#[derive(Debug, Copy, Clone, PartialEq, Eq, Structural)]
pub enum BindingType {
    Storage,
    Uniform,
}

#[derive(Debug, Copy, Clone, PartialEq, Eq, Structural)]
pub enum BindingMode {
    ReadOnly,
    ReadWrite,
}

/// One resource binding of a kernel: where it is bound and how it is
/// declared.
#[derive(Debug)]
pub struct KernelBinding {
    pub name: Ident,
    pub group: u32,
    pub binding: u32,
    pub ty: BindingType,
    pub mode: BindingMode,
    pub accessor: String,
}

/// Mathematical image of a `KernelBinding`.
pub struct KernelBindingV {
    pub name: Seq<char>,
    pub group: u32,
    pub binding: u32,
    pub ty: BindingType,
    pub mode: BindingMode,
    pub accessor: Seq<char>,
}

impl View for KernelBinding {
    type V = KernelBindingV;

    open spec fn view(&self) -> KernelBindingV {
        KernelBindingV {
            name: self.name@,
            group: self.group,
            binding: self.binding,
            ty: self.ty,
            mode: self.mode,
            accessor: self.accessor@,
        }
    }
}

/// The address-space part of a binding declaration.
pub open spec fn binding_space_text(ty: BindingType, mode: BindingMode) -> Seq<char> {
    match ty {
        BindingType::Storage => match mode {
            BindingMode::ReadOnly => "<storage, read>"@,
            BindingMode::ReadWrite => "<storage, read_write>"@,
        },
        BindingType::Uniform => "<uniform>"@,
    }
}

/// The full declaration text of one binding.
pub open spec fn binding_text(b: KernelBindingV) -> Seq<char> {
    "@group("@ + dec_str(b.group as int) + ") @binding("@ + dec_str(b.binding as int) + ") var"@
        + binding_space_text(b.ty, b.mode) + " "@ + b.name + ": "@ + b.accessor + ";\n"@
}

impl RenderFragment for KernelBinding {
    fn render(&self) -> (r: WgslFragment)
        ensures
            r@ == binding_text(self@),
    {
        let mut s = String::new();
        s.append("@group(");
        push_dec(&mut s, self.group);
        s.append(") @binding(");
        push_dec(&mut s, self.binding);
        s.append(") var");
        match self.ty {
            BindingType::Storage => match self.mode {
                BindingMode::ReadOnly => s.append("<storage, read>"),
                BindingMode::ReadWrite => s.append("<storage, read_write>"),
            },
            BindingType::Uniform => s.append("<uniform>"),
        }
        s.append(" ");
        s.append(self.name.0.as_str());
        s.append(": ");
        s.append(self.accessor.as_str());
        s.append(";\n");
        proof {
            assert(s@ =~= binding_text(self@));
        }
        WgslFragment(s)
    }
}

/// WGSL built-in variables a kernel's entry point can receive.
#[derive(Debug, Copy, Clone, PartialEq, Eq, Structural)]
pub enum BuiltIn {
    LocalInvocationId,
    GlobalInvocationId,
    LocalInvocationIndex,
    WorkgroupId,
    NumWorkgroups,
    SubgroupId,
    SubgroupSize,
}

/// The WGSL variable name of a built-in.
pub open spec fn builtin_var_text(b: BuiltIn) -> Seq<char> {
    match b {
        BuiltIn::LocalInvocationId => "local_invocation_id"@,
        BuiltIn::GlobalInvocationId => "global_invocation_id"@,
        BuiltIn::LocalInvocationIndex => "local_invocation_index"@,
        BuiltIn::WorkgroupId => "workgroup_id"@,
        BuiltIn::NumWorkgroups => "num_workgroups"@,
        BuiltIn::SubgroupId => "subgroup_id"@,
        BuiltIn::SubgroupSize => "subgroup_size"@,
    }
}

/// The WGSL type of a built-in.
pub open spec fn builtin_type_text(b: BuiltIn) -> Seq<char> {
    match b {
        BuiltIn::LocalInvocationId | BuiltIn::GlobalInvocationId | BuiltIn::WorkgroupId
            | BuiltIn::NumWorkgroups => "vec3<u32>"@,
        BuiltIn::LocalInvocationIndex | BuiltIn::SubgroupId | BuiltIn::SubgroupSize => "u32"@,
    }
}

/// Parameter text of a built-in in the entry point's signature.
pub open spec fn builtin_text(b: BuiltIn) -> Seq<char> {
    "@builtin("@ + builtin_var_text(b) + ") "@ + builtin_var_text(b) + ": "@ + builtin_type_text(
        b,
    )
}

impl BuiltIn {
    /// Returns the variable name for the built-in.
    pub fn render_var(&self) -> (r: &'static str)
        ensures
            r@ == builtin_var_text(*self),
    {
        match self {
            BuiltIn::LocalInvocationId => "local_invocation_id",
            BuiltIn::GlobalInvocationId => "global_invocation_id",
            BuiltIn::LocalInvocationIndex => "local_invocation_index",
            BuiltIn::WorkgroupId => "workgroup_id",
            BuiltIn::NumWorkgroups => "num_workgroups",
            BuiltIn::SubgroupId => "subgroup_id",
            BuiltIn::SubgroupSize => "subgroup_size",
        }
    }
}

impl RenderFragment for BuiltIn {
    /// Renders the built-in variable.
    fn render(&self) -> (r: WgslFragment)
        ensures
            r@ == builtin_text(*self),
    {
        let mut s = String::new();
        s.append("@builtin(");
        s.append(self.render_var());
        s.append(") ");
        s.append(self.render_var());
        s.append(": ");
        match self {
            BuiltIn::LocalInvocationId | BuiltIn::GlobalInvocationId | BuiltIn::WorkgroupId
                | BuiltIn::NumWorkgroups => s.append("vec3<u32>"),
            BuiltIn::LocalInvocationIndex | BuiltIn::SubgroupId | BuiltIn::SubgroupSize => s.append(
                "u32",
            ),
        }
        proof {
            assert(s@ =~= builtin_text(*self));
        }
        WgslFragment(s)
    }
}

/// Device capabilities consulted during code generation.
#[derive(Debug, Copy, Clone, PartialEq, Eq, Structural)]
pub struct DeviceFeatures {
    pub shader_f16: bool,
}

/// The `@compute @workgroup_size(..)` attribute line.
pub open spec fn wgs_attr_text(w: WorkgroupSize) -> Seq<char> {
    "@compute @workgroup_size("@ + dec_str(w.x as int) + ", "@ + dec_str(w.y as int) + ", "@
        + dec_str(w.z as int) + ")\n"@
}

/// The built-in parameters of the entry point, comma separated, first `k`.
pub open spec fn builtins_prefix_text(bs: Seq<BuiltIn>, k: int) -> Seq<char>
    decreases k,
{
    if k <= 0 {
        Seq::<char>::empty()
    } else {
        builtins_prefix_text(bs, k - 1) + builtin_text(bs[k - 1]) + (if k < bs.len() {
            ",\n"@
        } else {
            Seq::<char>::empty()
        })
    }
}

/// Everything of the entry point up to and including the opening brace.
pub open spec fn main_header_text(w: WorkgroupSize, bs: Seq<BuiltIn>) -> Seq<char> {
    wgs_attr_text(w) + "fn main(\n"@ + builtins_prefix_text(bs, bs.len() as int) + ") {\n"@
}

/// The declarations a fresh builder starts from.
pub open spec fn initial_globals_text(features: DeviceFeatures) -> Seq<char> {
    if features.shader_f16 {
        "enable f16;\n"@
    } else {
        Seq::<char>::empty()
    }
}

/// Assembles a compute kernel: global declarations, resource bindings and
/// the entry point body, rendered in that order.
#[derive(Debug)]
pub struct WgslKernelBuilder {
    pub bindings: Vec<KernelBinding>,
    pub workgroup_size: WorkgroupSize,
    pub builtins: Vec<BuiltIn>,
    pub globals: WgslFragment,
    pub main: WgslFragment,
    pub features: DeviceFeatures,
}

/// The binding declarations, first `k` of them.
pub open spec fn bindings_prefix_text(bs: Seq<KernelBindingV>, k: int) -> Seq<char>
    decreases k,
{
    if k <= 0 {
        Seq::<char>::empty()
    } else {
        bindings_prefix_text(bs, k - 1) + binding_text(bs[k - 1])
    }
}

/// The complete kernel text a builder stands for: globals, bindings, then
/// the entry point closed by its final brace.
pub open spec fn source_text(b: &WgslKernelBuilder) -> Seq<char> {
    b.globals@ + bindings_prefix_text(b.bindings.deep_view(), b.bindings@.len() as int) + b.main@
        + "}\n"@
}

impl DeepView for KernelBinding {
    type V = KernelBindingV;

    open spec fn deep_view(&self) -> KernelBindingV {
        self@
    }
}

impl WgslKernelBuilder {
    pub fn new(workgroup_size: WorkgroupSize, builtins: Vec<BuiltIn>, features: DeviceFeatures) -> (r:
        WgslKernelBuilder)
        ensures
            r.bindings@.len() == 0,
            r.workgroup_size == workgroup_size,
            r.builtins@ == builtins@,
            r.features == features,
            r.globals@ == initial_globals_text(features),
            r.main@ == main_header_text(workgroup_size, builtins@),
    {
        let mut globals = WgslFragment::new(2048);
        if features.shader_f16 {
            globals.write("enable f16;\n");
        }
        let mut builder = WgslKernelBuilder {
            bindings: Vec::new(),
            workgroup_size,
            builtins,
            globals,
            main: WgslFragment::new(2048),
            features,
        };
        builder.init_main();
        builder
    }

    fn init_main(&mut self)
        requires
            old(self).main@ == Seq::<char>::empty(),
        ensures
            final(self).main@ == main_header_text(old(self).workgroup_size, old(self).builtins@),
            final(self).bindings == old(self).bindings,
            final(self).globals == old(self).globals,
            final(self).workgroup_size == old(self).workgroup_size,
            final(self).builtins == old(self).builtins,
            final(self).features == old(self).features,
    {
        self.main.write("@compute @workgroup_size(");
        let mut num = String::new();
        push_dec(&mut num, self.workgroup_size.x);
        num.append(", ");
        push_dec(&mut num, self.workgroup_size.y);
        num.append(", ");
        push_dec(&mut num, self.workgroup_size.z);
        num.append(")\n");
        self.main.write(num.as_str());
        self.main.write("fn main(\n");
        let n: usize = self.builtins.len();
        let mut i: usize = 0;
        while i < n
            invariant
                i <= n,
                n == self.builtins@.len(),
                self.main@ == wgs_attr_text(self.workgroup_size) + "fn main(\n"@
                    + builtins_prefix_text(self.builtins@, i as int),
                self.bindings == old(self).bindings,
                self.globals == old(self).globals,
                self.workgroup_size == old(self).workgroup_size,
                self.builtins == old(self).builtins,
                self.features == old(self).features,
            decreases n - i,
        {
            let fragment = self.builtins[i].render();
            self.main.write_fragment(fragment);
            if i < n - 1 {
                self.main.write(",\n");
            }
            proof {
                assert(self.main@ =~= wgs_attr_text(self.workgroup_size) + "fn main(\n"@
                    + builtins_prefix_text(self.builtins@, i + 1));
            }
            i = i + 1;
        }
        self.main.write(") {\n");
        proof {
            assert(self.main@ =~= main_header_text(old(self).workgroup_size, old(self).builtins@));
        }
    }

    pub fn write_main(&mut self, s: &str)
        ensures
            final(self).main@ == old(self).main@ + s@,
            final(self).bindings == old(self).bindings,
            final(self).globals == old(self).globals,
            final(self).workgroup_size == old(self).workgroup_size,
            final(self).builtins == old(self).builtins,
            final(self).features == old(self).features,
    {
        self.main.write(s);
    }

    pub fn write_global(&mut self, s: &str)
        ensures
            final(self).globals@ == old(self).globals@ + s@,
            final(self).bindings == old(self).bindings,
            final(self).main == old(self).main,
            final(self).workgroup_size == old(self).workgroup_size,
            final(self).builtins == old(self).builtins,
            final(self).features == old(self).features,
    {
        self.globals.write(s);
    }

    /// Writes the rendered device-side metadata struct among the globals.
    pub fn write_metadata(&mut self, meta: WgslFragment)
        ensures
            final(self).globals@ == old(self).globals@ + meta@,
            final(self).bindings == old(self).bindings,
            final(self).main == old(self).main,
            final(self).workgroup_size == old(self).workgroup_size,
            final(self).builtins == old(self).builtins,
            final(self).features == old(self).features,
    {
        self.globals.write_fragment(meta);
    }

    fn register_binding(&mut self, ty: BindingType, mode: BindingMode, name: &str, accessor: &str)
        requires
            old(self).bindings@.len() < u32::MAX,
        ensures
            final(self).bindings.deep_view() =~= old(self).bindings.deep_view().push(
                KernelBindingV {
                    name: name@,
                    group: if ty is Storage {
                        0u32
                    } else {
                        1u32
                    },
                    binding: old(self).bindings@.len() as u32,
                    ty: ty,
                    mode: mode,
                    accessor: accessor@,
                },
            ),
            final(self).main == old(self).main,
            final(self).globals == old(self).globals,
            final(self).workgroup_size == old(self).workgroup_size,
            final(self).builtins == old(self).builtins,
            final(self).features == old(self).features,
    {
        let group: u32 = if matches!(ty, BindingType::Storage) {
            0
        } else {
            1
        };
        let binding = KernelBinding {
            name: Ident::new(name),
            group,
            binding: self.bindings.len() as u32,
            ty,
            mode,
            accessor: String::from_str(accessor),
        };
        self.bindings.push(binding);
    }

    /// Declares one storage buffer binding in group 0.
    pub fn register_storage(&mut self, name: &str, mode: BindingMode, accessor: &str)
        requires
            old(self).bindings@.len() < u32::MAX,
        ensures
            final(self).bindings.deep_view() =~= old(self).bindings.deep_view().push(
                KernelBindingV {
                    name: name@,
                    group: 0u32,
                    binding: old(self).bindings@.len() as u32,
                    ty: BindingType::Storage,
                    mode: mode,
                    accessor: accessor@,
                },
            ),
            final(self).main == old(self).main,
            final(self).globals == old(self).globals,
            final(self).workgroup_size == old(self).workgroup_size,
            final(self).builtins == old(self).builtins,
            final(self).features == old(self).features,
    {
        self.register_binding(BindingType::Storage, mode, name, accessor);
    }

    /// Declares the shared metadata uniform binding in group 1.
    pub fn register_uniform(&mut self)
        requires
            old(self).bindings@.len() < u32::MAX,
        ensures
            final(self).bindings.deep_view() =~= old(self).bindings.deep_view().push(
                KernelBindingV {
                    name: "metadata"@,
                    group: 1u32,
                    binding: old(self).bindings@.len() as u32,
                    ty: BindingType::Uniform,
                    mode: BindingMode::ReadOnly,
                    accessor: "Meta"@,
                },
            ),
            final(self).main == old(self).main,
            final(self).globals == old(self).globals,
            final(self).workgroup_size == old(self).workgroup_size,
            final(self).builtins == old(self).builtins,
            final(self).features == old(self).features,
    {
        self.register_binding(BindingType::Uniform, BindingMode::ReadOnly, "metadata", "Meta");
    }

    /// The assembled kernel text.
    pub fn render_source(&self) -> (r: String)
        ensures
            r@ == source_text(self),
    {
        let mut s = String::new();
        s.append(self.globals.0.as_str());
        let n: usize = self.bindings.len();
        let mut i: usize = 0;
        while i < n
            invariant
                i <= n,
                n == self.bindings@.len(),
                s@ == self.globals@ + bindings_prefix_text(self.bindings.deep_view(), i as int),
            decreases n - i,
        {
            let fragment = self.bindings[i].render();
            s.append(fragment.0.as_str());
            proof {
                assert(self.bindings.deep_view()[i as int] == self.bindings@[i as int]@);
                assert(s@ =~= self.globals@ + bindings_prefix_text(
                    self.bindings.deep_view(),
                    i + 1,
                ));
            }
            i = i + 1;
        }
        s.append(self.main.0.as_str());
        s.append("}\n");
        proof {
            assert(s@ =~= source_text(self));
        }
        s
    }

    /// Parses the assembled kernel, yielding the device module on success.
    pub fn build(self) -> (r: Result<naga::Module, KernelBuildError>)
        ensures
            r is Ok <==> wgsl_parse_ok(source_text(&self)),
    {
        let source = self.render_source();
        match parse_wgsl(source.as_str()) {
            Ok(module) => Ok(module),
            Err(e) => Err(KernelBuildError::BuildError(e)),
        }
    }
}

#[verifier::external_type_specification]
#[verifier::external_body]
pub struct ExNagaModule(naga::Module);

#[verifier::external_type_specification]
#[verifier::external_body]
pub struct ExWgslParseError(naga::front::wgsl::ParseError);

/// Whether a piece of WGSL text parses and lowers to a device module.
pub uninterp spec fn wgsl_parse_ok(source: Seq<char>) -> bool;

/// Relies on naga::front::wgsl::parse_str: parsing WGSL is a function of
/// the text alone; it returns the module on success and a parse error
/// otherwise.
#[verifier::external_body]
pub(crate) fn parse_wgsl(source: &str) -> (r: Result<
    naga::Module,
    naga::front::wgsl::ParseError,
>)
    ensures
        r is Ok <==> wgsl_parse_ok(source@),
{
    naga::front::wgsl::parse_str(source)
}

/// Failure to turn generated kernel text into a device module.
#[derive(Debug)]
pub enum KernelBuildError {
    BuildError(naga::front::wgsl::ParseError),
}


/// Text of the helper converting a linear offset into a rank-four index.
pub open spec fn offset_to_index_text() -> Seq<char> {
    "fn offsetToNdIndex(offset: u32, stride: vec4<u32>) -> vec4<u32> {\n    var index = vec4<u32>(0u);\n    var remaining = offset;\n    index.x = remaining / stride.x;\n    remaining = remaining % stride.x;\n    index.y = remaining / stride.y;\n    remaining = remaining % stride.y;\n    index.z = remaining / stride.z;\n    remaining = remaining % stride.z;\n    index.w = remaining;\n    return index;\n}\n"@
}

/// Text of the helper converting a rank-four index into a linear offset.
pub open spec fn index_to_offset_text() -> Seq<char> {
    "fn ndIndexToOffset(index: vec4<u32>, stride: vec4<u32>) -> u32 {\n    return dot(index * stride, vec4<u32>(1u, 1u, 1u, 1u));\n}\n"@
}

impl WgslKernelBuilder {
    /// Declares the offset-to-index helper among the globals.
    pub fn write_offset_to_index(&mut self)
        ensures
            final(self).globals@ == old(self).globals@ + offset_to_index_text(),
            final(self).bindings == old(self).bindings,
            final(self).main == old(self).main,
            final(self).workgroup_size == old(self).workgroup_size,
            final(self).builtins == old(self).builtins,
            final(self).features == old(self).features,
    {
        self.write_global(
            "fn offsetToNdIndex(offset: u32, stride: vec4<u32>) -> vec4<u32> {\n    var index = vec4<u32>(0u);\n    var remaining = offset;\n    index.x = remaining / stride.x;\n    remaining = remaining % stride.x;\n    index.y = remaining / stride.y;\n    remaining = remaining % stride.y;\n    index.z = remaining / stride.z;\n    remaining = remaining % stride.z;\n    index.w = remaining;\n    return index;\n}\n",
        );
    }

    /// Declares the index-to-offset helper among the globals.
    pub fn write_index_to_offset(&mut self)
        ensures
            final(self).globals@ == old(self).globals@ + index_to_offset_text(),
            final(self).bindings == old(self).bindings,
            final(self).main == old(self).main,
            final(self).workgroup_size == old(self).workgroup_size,
            final(self).builtins == old(self).builtins,
            final(self).features == old(self).features,
    {
        self.write_global(
            "fn ndIndexToOffset(index: vec4<u32>, stride: vec4<u32>) -> u32 {\n    return dot(index * stride, vec4<u32>(1u, 1u, 1u, 1u));\n}\n",
        );
    }
}

} // verus!
