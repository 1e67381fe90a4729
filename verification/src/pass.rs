//! Shader passes: resolved parameter slots and the argument cache.
//!
//! A compiled program reports its uniforms as a reflected name-to-location
//! table ([`Program`]).  A [`ShaderPass`] resolves, once, the fixed
//! ordered list of declared parameters against that table — samplers get
//! the texture unit equal to their declaration index, every parameter
//! gets its uniform location — and afterwards dispatches arguments by
//! index alone.  Scalar and vector arguments are compared against the
//! last applied value and re-uploaded only on change; sampler bindings
//! are always issued.  Dispatch is expressed as a stream of [`Command`]s
//! for the device, so what a call uploads is part of its contract.

use vstd::prelude::*;

verus! {

/// The parameter types a shader may declare.
#[derive(Clone, Copy, PartialEq, Eq, Structural, Debug)]
pub enum UniformType {
    Sampler2D,
    Float,
    Vec2,
    Vec3,
    Vec4,
}

/// One declared shader parameter: its name and type, in declaration
/// order.
#[derive(Clone, PartialEq, Eq, Debug)]
pub struct Uniform {
    pub name: Vec<u8>,
    pub u_type: UniformType,
}

/// Scanning a shader's declared parameter list failed.
#[derive(Clone, Copy, PartialEq, Eq, Structural, Debug)]
pub enum ParseError {
    /// A declared type name is none of the supported parameter types.
    UnknownType,
    /// A `uniform` keyword without a following type token.
    MissingType,
    /// A `uniform` declaration without a name token.
    MissingName,
}

/// A declared parameter was absent on the compiled program: the
/// generated wrapper and the shader disagree, which is unrecoverable.
#[derive(Clone, Copy, PartialEq, Eq, Structural, Debug)]
pub enum PassError {
    ContractViolation,
}

/// The bytes of `"sampler2D"`.
pub open spec fn name_sampler2d() -> Seq<u8> {
    seq![115u8, 97u8, 109u8, 112u8, 108u8, 101u8, 114u8, 50u8, 68u8]
}

/// The bytes of `"float"`.
pub open spec fn name_float() -> Seq<u8> {
    seq![102u8, 108u8, 111u8, 97u8, 116u8]
}

/// The bytes of `"vec2"`.
pub open spec fn name_vec2() -> Seq<u8> {
    seq![118u8, 101u8, 99u8, 50u8]
}

/// The bytes of `"vec3"`.
pub open spec fn name_vec3() -> Seq<u8> {
    seq![118u8, 101u8, 99u8, 51u8]
}

/// The bytes of `"vec4"`.
pub open spec fn name_vec4() -> Seq<u8> {
    seq![118u8, 101u8, 99u8, 52u8]
}

/// The parameter type a declared type name denotes, if any.
pub open spec fn uniform_type_of(name: Seq<u8>) -> Option<UniformType> {
    if name == name_sampler2d() {
        Some(UniformType::Sampler2D)
    } else if name == name_float() {
        Some(UniformType::Float)
    } else if name == name_vec2() {
        Some(UniformType::Vec2)
    } else if name == name_vec3() {
        Some(UniformType::Vec3)
    } else if name == name_vec4() {
        Some(UniformType::Vec4)
    } else {
        None
    }
}

/// Whether two byte strings hold the same bytes.
pub fn bytes_eq(a: &[u8], b: &[u8]) -> (r: bool)
    ensures
        r == (a@ == b@),
{
    if a.len() != b.len() {
        return false;
    }
    let n = a.len();
    let mut i: usize = 0;
    while i < n
        invariant
            n == a@.len() == b@.len(),
            i <= n,
            forall|j: int| 0 <= j < i ==> a@[j] == b@[j],
        decreases n - i,
    {
        if *vstd::slice::slice_index_get(a, i) != *vstd::slice::slice_index_get(b, i) {
            return false;
        }
        i = i + 1;
    }
    proof {
        assert(a@ =~= b@);
    }
    true
}

/// The bytes of `"sampler2D"`, as a vector.
fn sampler2d_bytes() -> (v: Vec<u8>)
    ensures
        v@ == name_sampler2d(),
{
    let mut v: Vec<u8> = Vec::new();
    v.push(115);
    v.push(97);
    v.push(109);
    v.push(112);
    v.push(108);
    v.push(101);
    v.push(114);
    v.push(50);
    v.push(68);
    proof {
        assert(v@ =~= name_sampler2d());
    }
    v
}

/// The bytes of `"float"`, as a vector.
fn float_bytes() -> (v: Vec<u8>)
    ensures
        v@ == name_float(),
{
    let mut v: Vec<u8> = Vec::new();
    v.push(102);
    v.push(108);
    v.push(111);
    v.push(97);
    v.push(116);
    proof {
        assert(v@ =~= name_float());
    }
    v
}

/// The bytes of one of `"vec2"`, `"vec3"` and `"vec4"`, as a vector.
fn vecn_bytes(digit: u8) -> (v: Vec<u8>)
    requires
        50 <= digit <= 52,
    ensures
        v@ == seq![118u8, 101u8, 99u8, digit],
{
    let mut v: Vec<u8> = Vec::new();
    v.push(118);
    v.push(101);
    v.push(99);
    v.push(digit);
    proof {
        assert(v@ =~= seq![118u8, 101u8, 99u8, digit]);
    }
    v
}

/// Map a declared type name to the parameter type it denotes; unknown
/// names are a scan error.
pub fn get_uniform_type(declared_type: &[u8]) -> (r: Result<UniformType, ParseError>)
    ensures
        r matches Ok(t) ==> uniform_type_of(declared_type@) == Some(t),
        r is Err ==> uniform_type_of(declared_type@) is None && r == Err::<UniformType, ParseError>(
            ParseError::UnknownType,
        ),
{
    let s = sampler2d_bytes();
    if bytes_eq(declared_type, s.as_slice()) {
        return Ok(UniformType::Sampler2D);
    }
    let f = float_bytes();
    if bytes_eq(declared_type, f.as_slice()) {
        return Ok(UniformType::Float);
    }
    let v2 = vecn_bytes(50);
    if bytes_eq(declared_type, v2.as_slice()) {
        return Ok(UniformType::Vec2);
    }
    let v3 = vecn_bytes(51);
    if bytes_eq(declared_type, v3.as_slice()) {
        return Ok(UniformType::Vec3);
    }
    let v4 = vecn_bytes(52);
    if bytes_eq(declared_type, v4.as_slice()) {
        return Ok(UniformType::Vec4);
    }
    Err(ParseError::UnknownType)
}

/// Whether a byte separates tokens of a shader source: space, carriage
/// return, newline or tab.
pub open spec fn is_separator(b: u8) -> bool {
    b == 32 || b == 13 || b == 10 || b == 9
}

/// The bytes of the `"uniform"` keyword.
pub open spec fn kw_uniform() -> Seq<u8> {
    seq![117u8, 110u8, 105u8, 102u8, 111u8, 114u8, 109u8]
}

/// End of the token starting at `i`: the first separator at or after
/// `i`, or the end of the source.  Tokens between adjacent separators
/// are empty, exactly as splitting on single separators yields them.
pub open spec fn token_end(s: Seq<u8>, i: int) -> int
    recommends
        0 <= i <= s.len(),
    decreases s.len() - i,
{
    if i >= s.len() || is_separator(s[i]) {
        i
    } else {
        token_end(s, i + 1)
    }
}

/// A token never ends before it starts, nor past the source.
pub proof fn lemma_token_end_bounds(s: Seq<u8>, i: int)
    requires
        i <= s.len(),
    ensures
        i <= token_end(s, i) <= s.len(),
    decreases s.len() - i,
{
    if i < s.len() && !is_separator(s[i]) {
        lemma_token_end_bounds(s, i + 1);
    }
}

/// A declared name with one trailing semicolon removed.
pub open spec fn strip_semi(tok: Seq<u8>) -> Seq<u8> {
    if tok.len() > 0 && tok.last() == 59u8 {
        tok.drop_last()
    } else {
        tok
    }
}

/// The declared parameter list of a shader source, scanned from the
/// token starting at `i`: every `uniform` token is followed by a type
/// token and a name token, the name's trailing semicolon dropped.
pub open spec fn scan_uniforms(s: Seq<u8>, i: int) -> Result<Seq<(Seq<u8>, UniformType)>, ParseError>
    recommends
        0 <= i,
    decreases s.len() + 2 - i,
    via scan_uniforms_decreases
{
    if i > s.len() {
        Ok(Seq::empty())
    } else {
        let j = token_end(s, i);
        if s.subrange(i, j) != kw_uniform() {
            scan_uniforms(s, j + 1)
        } else if j >= s.len() {
            Err(ParseError::MissingType)
        } else {
            let tj = token_end(s, j + 1);
            match uniform_type_of(s.subrange(j + 1, tj)) {
                None => Err(ParseError::UnknownType),
                Some(ty) => {
                    if tj >= s.len() {
                        Err(ParseError::MissingName)
                    } else {
                        let nj = token_end(s, tj + 1);
                        let name = strip_semi(s.subrange(tj + 1, nj));
                        match scan_uniforms(s, nj + 1) {
                            Ok(rest) => Ok(seq![(name, ty)] + rest),
                            Err(e) => Err(e),
                        }
                    }
                },
            }
        }
    }
}

#[via_fn]
proof fn scan_uniforms_decreases(s: Seq<u8>, i: int) {
    if i <= s.len() {
        lemma_token_end_bounds(s, i);
        let j = token_end(s, i);
        if j + 1 <= s.len() {
            lemma_token_end_bounds(s, j + 1);
            let tj = token_end(s, j + 1);
            if tj + 1 <= s.len() {
                lemma_token_end_bounds(s, tj + 1);
            }
        }
    }
}

/// The name-and-type pairs a declared parameter list denotes.
pub open spec fn declared_pairs(v: Seq<Uniform>) -> Seq<(Seq<u8>, UniformType)> {
    v.map_values(|u: Uniform| (u.name@, u.u_type))
}

/// Find the end of the token starting at `i`.
fn find_token_end(source: &[u8], i: usize) -> (j: usize)
    requires
        i <= source@.len(),
    ensures
        j == token_end(source@, i as int),
        i <= j <= source@.len(),
    decreases source@.len() - i,
{
    let mut j = i;
    while j < source.len() && !is_separator_byte(*vstd::slice::slice_index_get(source, j))
        invariant
            i <= j <= source@.len(),
            token_end(source@, i as int) == token_end(source@, j as int),
        decreases source@.len() - j,
    {
        j = j + 1;
    }
    j
}

/// Whether a byte separates tokens.
fn is_separator_byte(b: u8) -> (r: bool)
    ensures
        r == is_separator(b),
{
    b == 32 || b == 13 || b == 10 || b == 9
}

/// The bytes of the `"uniform"` keyword, as a vector.
fn uniform_kw_bytes() -> (v: Vec<u8>)
    ensures
        v@ == kw_uniform(),
{
    let mut v: Vec<u8> = Vec::new();
    v.push(117);
    v.push(110);
    v.push(105);
    v.push(102);
    v.push(111);
    v.push(114);
    v.push(109);
    proof {
        assert(v@ =~= kw_uniform());
    }
    v
}

/// Scan a shader source for its declared parameter list: each
/// `uniform <declared type> <name>;` declaration, in declaration order.
/// Fails when a declared type is missing or unsupported, or a
/// declaration has no name token.
pub fn parse_shader_source(source: &[u8]) -> (r: Result<Vec<Uniform>, ParseError>)
    requires
        source@.len() < usize::MAX,
    ensures
        r matches Ok(v) ==> scan_uniforms(source@, 0) == Ok::<_, ParseError>(declared_pairs(v@)),
        r matches Err(e) ==> scan_uniforms(source@, 0) == Err::<Seq<(Seq<u8>, UniformType)>, _>(e),
{
    let kw = uniform_kw_bytes();
    let mut out: Vec<Uniform> = Vec::new();
    let mut i: usize = 0;
    loop
        invariant
            source@.len() < usize::MAX,
            i <= source@.len() + 1,
            scan_uniforms(source@, 0) == (match scan_uniforms(source@, i as int) {
                Ok(rest) => Ok::<_, ParseError>(declared_pairs(out@) + rest),
                Err(e) => Err::<Seq<(Seq<u8>, UniformType)>, _>(e),
            }),
            kw@ == kw_uniform(),
        decreases source@.len() + 2 - i,
    {
        if i > source.len() {
            proof {
                assert(declared_pairs(out@) + Seq::<(Seq<u8>, UniformType)>::empty() =~= declared_pairs(
                    out@,
                ));
            }
            return Ok(out);
        }
        let j = find_token_end(source, i);
        let tok = vstd::slice::slice_subrange(source, i, j);
        if !bytes_eq(tok, kw.as_slice()) {
            i = j + 1;
            continue;
        }
        if j >= source.len() {
            return Err(ParseError::MissingType);
        }
        let tj = find_token_end(source, j + 1);
        let ty = match get_uniform_type(vstd::slice::slice_subrange(source, j + 1, tj)) {
            Ok(ty) => ty,
            Err(e) => {
                proof {
                    assert(uniform_type_of(source@.subrange(j + 1, tj as int)) is None);
                }
                return Err(ParseError::UnknownType);
            },
        };
        proof {
            assert(uniform_type_of(source@.subrange(j + 1, tj as int)) == Some(ty));
        }
        if tj >= source.len() {
            return Err(ParseError::MissingName);
        }
        let nj = find_token_end(source, tj + 1);
        let name_start = tj + 1;
        let name_end = if nj > name_start && *vstd::slice::slice_index_get(source, nj - 1) == 59 {
            nj - 1
        } else {
            nj
        };
        let name = vstd::slice::slice_to_vec(
            vstd::slice::slice_subrange(source, name_start, name_end),
        );
        proof {
            assert(name@ =~= strip_semi(source@.subrange(tj + 1, nj as int)));
        }
        let ghost old_out = out@;
        out.push(Uniform { name, u_type: ty });
        proof {
            assert(declared_pairs(out@) =~= declared_pairs(old_out) + seq![
                (strip_semi(source@.subrange(tj + 1, nj as int)), ty),
            ]);
            if scan_uniforms(source@, nj as int + 1) is Ok {
                let rest = scan_uniforms(source@, nj as int + 1)->Ok_0;
                assert(declared_pairs(old_out) + (seq![
                    (strip_semi(source@.subrange(tj + 1, nj as int)), ty),
                ] + rest) =~= declared_pairs(out@) + rest);
            }
        }
        i = nj + 1;
    }
}

/// A compiled, linked shader program: its device handle and the
/// reflected table of active uniforms, as the device reports them.
pub struct Program {
    pub id: u32,
    pub uniforms: Vec<(Vec<u8>, u32)>,
}

/// The location of a uniform name in a reflected table: the first entry
/// whose name matches.
pub open spec fn lookup_loc(table: Seq<(Vec<u8>, u32)>, name: Seq<u8>) -> Option<u32>
    decreases table.len(),
{
    if table.len() == 0 {
        None
    } else if table[0].0@ == name {
        Some(table[0].1)
    } else {
        lookup_loc(table.drop_first(), name)
    }
}

impl Program {
    /// Wrap a linked program handle together with its reflected
    /// uniform table.
    pub fn create(id: u32, uniforms: Vec<(Vec<u8>, u32)>) -> (r: Program)
        ensures
            r.id == id,
            r.uniforms == uniforms,
    {
        Program { id, uniforms }
    }

    /// The reflected uniform table.
    pub fn uniforms(&self) -> (r: &Vec<(Vec<u8>, u32)>)
        ensures
            r == &self.uniforms,
    {
        &self.uniforms
    }

    /// The device handle of the linked program.
    pub fn program(&self) -> (r: u32)
        ensures
            r == self.id,
    {
        self.id
    }
}

/// Find a uniform's location in a reflected table, scanning from `i`.
fn find_loc_from(table: &Vec<(Vec<u8>, u32)>, name: &Vec<u8>, i: usize) -> (r: Option<u32>)
    requires
        i <= table@.len(),
    ensures
        r == lookup_loc(table@.skip(i as int), name@),
    decreases table@.len() - i,
{
    if i == table.len() {
        return None;
    }
    proof {
        assert(table@.skip(i as int)[0] == table@[i as int]);
    }
    if bytes_eq(table[i].0.as_slice(), name.as_slice()) {
        Some(table[i].1)
    } else {
        let r = find_loc_from(table, name, i + 1);
        proof {
            assert(table@.skip(i as int).drop_first() =~= table@.skip(i as int + 1));
        }
        r
    }
}

/// One resolved parameter slot: name, type and uniform location.  A
/// sampler's texture unit is its index in the slot table.
pub struct Slot {
    pub name: Vec<u8>,
    pub kind: UniformType,
    pub loc: u32,
}

/// A concrete scalar or vector argument value, in fixed point.
#[derive(Clone, Copy, PartialEq, Eq, Structural, Debug)]
pub enum UniformValue {
    F(i32),
    V2(i32, i32),
    V3(i32, i32, i32),
    V4(i32, i32, i32, i32),
}

/// One concrete argument: a texture handle for a sampler slot, or a
/// scalar/vector value.
#[derive(Clone, Copy, PartialEq, Eq, Structural, Debug)]
pub enum ArgValue {
    Tex(u32),
    F(i32),
    V2(i32, i32),
    V3(i32, i32, i32),
    V4(i32, i32, i32, i32),
}

/// One device command issued by pass setup or argument dispatch.
#[derive(Clone, Copy, PartialEq, Eq, Structural, Debug)]
pub enum Command {
    /// Make the program the active program.
    UseProgram(u32),
    /// Bind a texture at a unit, always issued for sampler arguments.
    BindTexture { unit: u32, texture: u32 },
    /// Tell a sampler uniform its fixed texture unit, at setup.
    SetSamplerUnit { loc: u32, unit: u32 },
    /// Upload a scalar or vector uniform value.
    SetScalar { loc: u32, value: UniformValue },
}

/// Whether an argument fits a slot's declared type.
pub open spec fn arg_fits(kind: UniformType, arg: ArgValue) -> bool {
    match kind {
        UniformType::Sampler2D => arg is Tex,
        UniformType::Float => arg is F,
        UniformType::Vec2 => arg is V2,
        UniformType::Vec3 => arg is V3,
        UniformType::Vec4 => arg is V4,
    }
}

/// Whether an argument list fits a slot table, position by position.
pub open spec fn args_match(slots: Seq<Slot>, args: Seq<ArgValue>) -> bool {
    &&& slots.len() == args.len()
    &&& forall|i: int| 0 <= i < slots.len() ==> arg_fits(slots[i].kind, #[trigger] args[i])
}

/// The uniform value a scalar or vector argument carries.
pub open spec fn value_of(arg: ArgValue) -> UniformValue
    recommends
        !(arg is Tex),
{
    match arg {
        ArgValue::Tex(_) => UniformValue::F(0),
        ArgValue::F(x) => UniformValue::F(x),
        ArgValue::V2(x, y) => UniformValue::V2(x, y),
        ArgValue::V3(x, y, z) => UniformValue::V3(x, y, z),
        ArgValue::V4(x, y, z, u) => UniformValue::V4(x, y, z, u),
    }
}

/// The cache after dispatching an argument list: sampler slots keep
/// their entry, every other slot remembers the value just applied.
pub open spec fn cache_after(
    cache: Seq<Option<UniformValue>>,
    args: Seq<ArgValue>,
) -> Seq<Option<UniformValue>> {
    Seq::new(
        cache.len(),
        |i: int|
            if args[i] is Tex {
                cache[i]
            } else {
                Some(value_of(args[i]))
            },
    )
}

/// The commands dispatching the first `i` arguments issues: a bind for
/// every sampler, an upload for every scalar or vector argument that
/// differs from the cached last-applied value.
pub open spec fn dispatch_cmds_upto(
    slots: Seq<Slot>,
    cache: Seq<Option<UniformValue>>,
    args: Seq<ArgValue>,
    i: int,
) -> Seq<Command>
    decreases i,
{
    if i <= 0 {
        Seq::empty()
    } else {
        let j = i - 1;
        let here: Seq<Command> = match args[j] {
            ArgValue::Tex(t) => seq![Command::BindTexture { unit: j as u32, texture: t }],
            _ => {
                if cache[j] == Some(value_of(args[j])) {
                    Seq::empty()
                } else {
                    seq![Command::SetScalar { loc: slots[j].loc, value: value_of(args[j]) }]
                }
            },
        };
        dispatch_cmds_upto(slots, cache, args, j) + here
    }
}

/// The setup commands for the first `i` slots: each sampler uniform is
/// told its fixed texture unit.
pub open spec fn setup_cmds_upto(slots: Seq<Slot>, i: int) -> Seq<Command>
    decreases i,
{
    if i <= 0 {
        Seq::empty()
    } else {
        let j = i - 1;
        let here: Seq<Command> = if slots[j].kind == UniformType::Sampler2D {
            seq![Command::SetSamplerUnit { loc: slots[j].loc, unit: j as u32 }]
        } else {
            Seq::empty()
        };
        setup_cmds_upto(slots, j) + here
    }
}

/// A compiled program with its resolved, fixed-order parameter slots
/// and the last-applied-value cache.
pub struct ShaderPass {
    pub program_id: u32,
    pub slots: Vec<Slot>,
    /// Lazily populated: `None` until a slot's first upload.
    pub cache: Vec<Option<UniformValue>>,
}

impl ShaderPass {
    /// One cache entry per slot.
    pub open spec fn wf(self) -> bool {
        self.cache@.len() == self.slots@.len()
    }

    /// Resolve the declared parameters against the program's reflected
    /// uniform table, assigning texture units in declaration order.  A
    /// declared name absent from the table is a contract violation:
    /// the build-time wrapper and the shader disagree.
    pub fn create(program: &Program, declared: &Vec<Uniform>) -> (r: Result<
        (ShaderPass, Vec<Command>),
        PassError,
    >)
        ensures
            r matches Ok(pc) ==> {
                &&& pc.0.wf()
                &&& pc.0.program_id == program.id
                &&& pc.0.slots@.len() == declared@.len()
                &&& forall|i: int|
                    0 <= i < declared@.len() ==> (#[trigger] pc.0.slots@[i]).name@
                        == declared@[i].name@ && pc.0.slots@[i].kind == declared@[i].u_type
                        && Some(pc.0.slots@[i].loc) == lookup_loc(
                        program.uniforms@,
                        declared@[i].name@,
                    )
                &&& forall|i: int| 0 <= i < declared@.len() ==> (#[trigger] pc.0.cache@[i]) is None
                &&& pc.1@ == seq![Command::UseProgram(program.id)] + setup_cmds_upto(
                    pc.0.slots@,
                    declared@.len() as int,
                )
            },
            r is Err <==> exists|i: int|
                0 <= i < declared@.len() && lookup_loc(
                    program.uniforms@,
                    (#[trigger] declared@[i]).name@,
                ) is None,
            r matches Err(e) ==> e == PassError::ContractViolation,
    {
        let n = declared.len();
        let mut slots: Vec<Slot> = Vec::new();
        let mut cache: Vec<Option<UniformValue>> = Vec::new();
        let mut cmds: Vec<Command> = Vec::new();
        cmds.push(Command::UseProgram(program.program()));
        let mut i: usize = 0;
        while i < n
            invariant
                n == declared@.len(),
                i <= n,
                slots@.len() == i,
                cache@.len() == i,
                forall|j: int|
                    0 <= j < i ==> (#[trigger] slots@[j]).name@ == declared@[j].name@
                        && slots@[j].kind == declared@[j].u_type && Some(slots@[j].loc)
                        == lookup_loc(program.uniforms@, declared@[j].name@),
                forall|j: int| 0 <= j < i ==> (#[trigger] cache@[j]) is None,
                forall|j: int|
                    0 <= j < i ==> lookup_loc(
                        program.uniforms@,
                        (#[trigger] declared@[j]).name@,
                    ) is Some,
                cmds@ == seq![Command::UseProgram(program.id)] + setup_cmds_upto(
                    slots@,
                    i as int,
                ),
            decreases n - i,
        {
            let loc_opt = find_loc_from(program.uniforms(), &declared[i].name, 0);
            proof {
                assert(program.uniforms@.skip(0) =~= program.uniforms@);
            }
            let loc = match loc_opt {
                Some(loc) => loc,
                None => {
                    return Err(PassError::ContractViolation);
                },
            };
            let kind = declared[i].u_type;
            let name = copy_bytes(&declared[i].name);
            let ghost old_slots = slots@;
            slots.push(Slot { name, kind, loc });
            cache.push(None);
            if kind == UniformType::Sampler2D {
                cmds.push(Command::SetSamplerUnit { loc, unit: i as u32 });
            }
            proof {
                lemma_setup_cmds_same(old_slots, slots@, i as int);
                assert(slots@[i as int].kind == kind && slots@[i as int].loc == loc);
            }
            i = i + 1;
        }
        Ok((ShaderPass { program_id: program.program(), slots, cache }, cmds))
    }

    /// Dispatch one ordered argument list: activate the program, bind
    /// every sampler argument at its fixed unit, and upload each scalar
    /// or vector argument unless it equals the cached last-applied
    /// value.  Afterwards every declared parameter reflects the values
    /// just supplied.
    pub fn set_arguments(&mut self, args: &Vec<ArgValue>) -> (cmds: Vec<Command>)
        requires
            old(self).wf(),
            args_match(old(self).slots@, args@),
        ensures
            final(self).wf(),
            final(self).program_id == old(self).program_id,
            final(self).slots == old(self).slots,
            final(self).cache@ == cache_after(old(self).cache@, args@),
            cmds@ == seq![Command::UseProgram(old(self).program_id)] + dispatch_cmds_upto(
                old(self).slots@,
                old(self).cache@,
                args@,
                args@.len() as int,
            ),
    {
        let n = args.len();
        let mut cmds: Vec<Command> = Vec::new();
        cmds.push(Command::UseProgram(self.program_id));
        let ghost cache0 = self.cache@;
        let mut i: usize = 0;
        while i < n
            invariant
                self.wf(),
                args_match(self.slots@, args@),
                n == args@.len(),
                i <= n,
                self.program_id == old(self).program_id,
                self.slots == old(self).slots,
                cache0 == old(self).cache@,
                self.cache@.len() == cache0.len(),
                forall|j: int|
                    i <= j < n ==> (#[trigger] self.cache@[j]) == cache0[j],
                forall|j: int|
                    0 <= j < i ==> (#[trigger] self.cache@[j]) == cache_after(cache0, args@)[j],
                cmds@ == seq![Command::UseProgram(old(self).program_id)] + dispatch_cmds_upto(
                    self.slots@,
                    cache0,
                    args@,
                    i as int,
                ),
            decreases n - i,
        {
            match args[i] {
                ArgValue::Tex(t) => {
                    cmds.push(Command::BindTexture { unit: i as u32, texture: t });
                },
                ArgValue::F(x) => {
                    self.apply_scalar(i, UniformValue::F(x), &mut cmds);
                },
                ArgValue::V2(x, y) => {
                    self.apply_scalar(i, UniformValue::V2(x, y), &mut cmds);
                },
                ArgValue::V3(x, y, z) => {
                    self.apply_scalar(i, UniformValue::V3(x, y, z), &mut cmds);
                },
                ArgValue::V4(x, y, z, u) => {
                    self.apply_scalar(i, UniformValue::V4(x, y, z, u), &mut cmds);
                },
            }
            proof {
                assert(value_of(args@[i as int]) == match args@[i as int] {
                    ArgValue::Tex(_) => UniformValue::F(0),
                    ArgValue::F(x) => UniformValue::F(x),
                    ArgValue::V2(x, y) => UniformValue::V2(x, y),
                    ArgValue::V3(x, y, z) => UniformValue::V3(x, y, z),
                    ArgValue::V4(x, y, z, u) => UniformValue::V4(x, y, z, u),
                });
            }
            i = i + 1;
        }
        proof {
            assert(final(self).cache@ =~= cache_after(cache0, args@));
        }
        cmds
    }

    /// Apply one scalar or vector value at slot `i`: upload and record
    /// it unless it is the cached last-applied value.
    fn apply_scalar(&mut self, i: usize, v: UniformValue, cmds: &mut Vec<Command>)
        requires
            old(self).wf(),
            i < old(self).slots@.len(),
        ensures
            final(self).wf(),
            final(self).program_id == old(self).program_id,
            final(self).slots == old(self).slots,
            final(self).cache@ == old(self).cache@.update(i as int, Some(v)),
            old(self).cache@[i as int] == Some(v) ==> final(cmds)@ == old(cmds)@,
            old(self).cache@[i as int] != Some(v) ==> final(cmds)@ == old(cmds)@.push(
                Command::SetScalar { loc: old(self).slots@[i as int].loc, value: v },
            ),
    {
        let hit = match &self.cache[i] {
            Some(prev) => *prev == v,
            None => false,
        };
        if !hit {
            cmds.push(Command::SetScalar { loc: self.slots[i].loc, value: v });
            self.cache[i] = Some(v);
        } else {
            proof {
                assert(old(self).cache@.update(i as int, Some(v)) =~= old(self).cache@);
            }
        }
    }
}

/// Copy a byte string.
fn copy_bytes(v: &Vec<u8>) -> (r: Vec<u8>)
    ensures
        r@ == v@,
{
    let r = v.clone();
    proof {
        assert(r@ =~= v@);
    }
    r
}

/// The setup command stream reads only the first `i` slots.
proof fn lemma_setup_cmds_same(a: Seq<Slot>, b: Seq<Slot>, i: int)
    requires
        i <= a.len(),
        i <= b.len(),
        forall|j: int| 0 <= j < i ==> a[j] == b[j],
    ensures
        setup_cmds_upto(a, i) == setup_cmds_upto(b, i),
    decreases i,
{
    if i > 0 {
        lemma_setup_cmds_same(a, b, i - 1);
    }
}

/// Dispatching the same arguments again is all cache hits: the command
/// stream of the repeated call activates the program and re-binds the
/// sampler arguments, and uploads nothing.
pub proof fn lemma_repeat_dispatch_is_cache_hit(
    slots: Seq<Slot>,
    cache: Seq<Option<UniformValue>>,
    args: Seq<ArgValue>,
    i: int,
)
    requires
        cache.len() == slots.len(),
        args_match(slots, args),
        i <= args.len(),
    ensures
        forall|j: int|
            0 <= j < dispatch_cmds_upto(slots, cache_after(cache, args), args, i).len() ==> (
            #[trigger] dispatch_cmds_upto(slots, cache_after(cache, args), args, i)[j]) is BindTexture,
    decreases i,
{
    if i > 0 {
        lemma_repeat_dispatch_is_cache_hit(slots, cache, args, i - 1);
    }
}

/// The number of uniform uploads in a command stream.
pub open spec fn upload_count(cmds: Seq<Command>) -> int
    decreases cmds.len(),
{
    if cmds.len() == 0 {
        0
    } else {
        upload_count(cmds.drop_last()) + if cmds.last() is SetScalar {
            1int
        } else {
            0int
        }
    }
}

/// Dispatching against an empty cache uploads every scalar and vector
/// argument exactly once: the upload count of the command stream is the
/// number of non-sampler parameters.
pub proof fn lemma_fresh_dispatch_uploads_all(
    slots: Seq<Slot>,
    cache: Seq<Option<UniformValue>>,
    args: Seq<ArgValue>,
    i: int,
)
    requires
        cache.len() == slots.len(),
        args_match(slots, args),
        i <= args.len(),
        forall|j: int| 0 <= j < cache.len() ==> (#[trigger] cache[j]) is None,
    ensures
        upload_count(dispatch_cmds_upto(slots, cache, args, i)) == non_sampler_count(args, i),
    decreases i,
{
    if i > 0 {
        lemma_fresh_dispatch_uploads_all(slots, cache, args, i - 1);
        let prev = dispatch_cmds_upto(slots, cache, args, i - 1);
        let whole = dispatch_cmds_upto(slots, cache, args, i);
        match args[i - 1] {
            ArgValue::Tex(_) => {
                assert(whole =~= prev.push(
                    Command::BindTexture {
                        unit: (i - 1) as u32,
                        texture: args[i - 1]->Tex_0,
                    },
                ));
                assert(whole.drop_last() =~= prev);
            },
            _ => {
                assert(whole =~= prev.push(
                    Command::SetScalar { loc: slots[i - 1].loc, value: value_of(args[i - 1]) },
                ));
                assert(whole.drop_last() =~= prev);
            },
        }
    }
}

/// The number of scalar and vector arguments among the first `i`.
pub open spec fn non_sampler_count(args: Seq<ArgValue>, i: int) -> int
    decreases i,
{
    if i <= 0 {
        0
    } else {
        non_sampler_count(args, i - 1) + if args[i - 1] is Tex {
            0int
        } else {
            1int
        }
    }
}

} // verus!
