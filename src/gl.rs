//! The plain values that the rendering side hands to OpenGL: primitive
//! modes, shader kinds, validation steps, and index arrays.
use vstd::prelude::*;
use vstd::string::StringSliceAdditionalSpecFns;

verus! {

pub const GL_POINTS: u32 = 0x0000;
pub const GL_LINES: u32 = 0x0001;
pub const GL_LINE_LOOP: u32 = 0x0002;
pub const GL_LINE_STRIP: u32 = 0x0003;
pub const GL_TRIANGLES: u32 = 0x0004;
pub const GL_TRIANGLE_STRIP: u32 = 0x0005;
pub const GL_TRIANGLE_FAN: u32 = 0x0006;
pub const GL_LINES_ADJACENCY: u32 = 0x000A;
pub const GL_LINE_STRIP_ADJACENCY: u32 = 0x000B;
pub const GL_TRIANGLES_ADJACENCY: u32 = 0x000C;
pub const GL_TRIANGLE_STRIP_ADJACENCY: u32 = 0x000D;
pub const GL_UNSIGNED_BYTE: u32 = 0x1401;
pub const GL_UNSIGNED_SHORT: u32 = 0x1403;
pub const GL_UNSIGNED_INT: u32 = 0x1405;
pub const GL_FRAGMENT_SHADER: u32 = 0x8B30;
pub const GL_VERTEX_SHADER: u32 = 0x8B31;
pub const GL_COMPILE_STATUS: u32 = 0x8B81;
pub const GL_LINK_STATUS: u32 = 0x8B82;

/// How a sequence of vertices is assembled into primitives.
#[derive(Clone, Copy, Debug, PartialEq, Eq, Structural)]
pub enum ElementsMode {
    Points,
    LineStrip,
    LineLoop,
    Lines,
    LineStripAdjacency,
    LinesAdjacency,
    TriangleStrip,
    TriangleFan,
    Triangles,
    TriangleStripAdjacency,
    TrianglesAdjacency,
}

impl ElementsMode {
    /// The OpenGL enumerant of each mode.
    pub open spec fn code(self) -> u32 {
        match self {
            ElementsMode::Points => GL_POINTS,
            ElementsMode::LineStrip => GL_LINE_STRIP,
            ElementsMode::LineLoop => GL_LINE_LOOP,
            ElementsMode::Lines => GL_LINES,
            ElementsMode::LineStripAdjacency => GL_LINE_STRIP_ADJACENCY,
            ElementsMode::LinesAdjacency => GL_LINES_ADJACENCY,
            ElementsMode::TriangleStrip => GL_TRIANGLE_STRIP,
            ElementsMode::TriangleFan => GL_TRIANGLE_FAN,
            ElementsMode::Triangles => GL_TRIANGLES,
            ElementsMode::TriangleStripAdjacency => GL_TRIANGLE_STRIP_ADJACENCY,
            ElementsMode::TrianglesAdjacency => GL_TRIANGLES_ADJACENCY,
        }
    }

    pub fn into_opengl_mode(self) -> (r: u32)
        ensures
            r == self.code(),
    {
        match self {
            ElementsMode::Points => GL_POINTS,
            ElementsMode::LineStrip => GL_LINE_STRIP,
            ElementsMode::LineLoop => GL_LINE_LOOP,
            ElementsMode::Lines => GL_LINES,
            ElementsMode::LineStripAdjacency => GL_LINE_STRIP_ADJACENCY,
            ElementsMode::LinesAdjacency => GL_LINES_ADJACENCY,
            ElementsMode::TriangleStrip => GL_TRIANGLE_STRIP,
            ElementsMode::TriangleFan => GL_TRIANGLE_FAN,
            ElementsMode::Triangles => GL_TRIANGLES,
            ElementsMode::TriangleStripAdjacency => GL_TRIANGLE_STRIP_ADJACENCY,
            ElementsMode::TrianglesAdjacency => GL_TRIANGLES_ADJACENCY,
        }
    }
}

/// The stage a shader is compiled for.
#[derive(Clone, Copy, Debug, PartialEq, Eq, Structural)]
pub enum ShaderKind {
    Vertex,
    Fragment,
}

impl ShaderKind {
    /// The OpenGL shader type of the stage.
    pub fn kind(self) -> (r: u32)
        ensures
            r == (match self {
                ShaderKind::Vertex => GL_VERTEX_SHADER,
                ShaderKind::Fragment => GL_FRAGMENT_SHADER,
            }),
    {
        match self {
            ShaderKind::Vertex => GL_VERTEX_SHADER,
            ShaderKind::Fragment => GL_FRAGMENT_SHADER,
        }
    }

    /// The validation step that checks a shader of this stage.
    pub fn validation(self) -> (r: ProgramValidation)
        ensures
            r == (match self {
                ShaderKind::Vertex => ProgramValidation::Vertex,
                ShaderKind::Fragment => ProgramValidation::Fragment,
            }),
    {
        match self {
            ShaderKind::Vertex => ProgramValidation::Vertex,
            ShaderKind::Fragment => ProgramValidation::Fragment,
        }
    }
}

/// A step whose success is checked: compiling a stage, or linking a program.
#[derive(Clone, Copy, Debug, PartialEq, Eq, Structural)]
pub enum ProgramValidation {
    Vertex,
    Fragment,
    Linking,
}

/// Why a shader step failed.
#[derive(Clone, Copy, Debug, PartialEq, Eq, Structural)]
pub enum ShaderError {
    /// The source holds a character outside ASCII.
    NotAscii,
    /// The source holds a NUL byte before its end.
    InteriorNul,
    /// Compiling or linking left an information log.
    StepFailed { step: ProgramValidation },
    /// The shader given as the vertex stage is not one.
    NotVertex,
    /// The shader given as the fragment stage is not one.
    NotFragment,
    /// The two shaders belong to different rendering contexts.
    MixedContexts,
}

/// The checks made before a vertex and a fragment shader are bundled for
/// linking: each is of its stage, and both belong to one context.
pub fn check_bundle(vertex: ShaderKind, fragment: ShaderKind, same_context: bool) -> (r: Result<
    (),
    ShaderError,
>)
    ensures
        r == (if !(vertex is Vertex) {
            Err(ShaderError::NotVertex)
        } else if !(fragment is Fragment) {
            Err(ShaderError::NotFragment)
        } else if !same_context {
            Err(ShaderError::MixedContexts)
        } else {
            Ok(())
        }),
{
    if !matches!(vertex, ShaderKind::Vertex) {
        return Err(ShaderError::NotVertex);
    }
    if !matches!(fragment, ShaderKind::Fragment) {
        return Err(ShaderError::NotFragment);
    }
    if !same_context {
        return Err(ShaderError::MixedContexts);
    }
    Ok(())
}

impl ProgramValidation {
    /// Words naming the step, for diagnostics.
    pub fn label(self) -> (r: &'static str)
        ensures
            r@ == (match self {
                ProgramValidation::Vertex => "compiling vertex"@,
                ProgramValidation::Fragment => "compiling fragment"@,
                ProgramValidation::Linking => "linking shaders"@,
            }),
    {
        match self {
            ProgramValidation::Vertex => "compiling vertex",
            ProgramValidation::Fragment => "compiling fragment",
            ProgramValidation::Linking => "linking shaders",
        }
    }

    /// Whether the step is checked on a program rather than on a shader.
    pub fn is_program(self) -> (r: bool)
        ensures
            r == (self is Linking),
    {
        match self {
            ProgramValidation::Vertex => false,
            ProgramValidation::Fragment => false,
            ProgramValidation::Linking => true,
        }
    }

    /// The parameter that holds the step's status.
    pub fn pname(self) -> (r: u32)
        ensures
            r == (if self is Linking { GL_LINK_STATUS } else { GL_COMPILE_STATUS }),
    {
        if self.is_program() {
            GL_LINK_STATUS
        } else {
            GL_COMPILE_STATUS
        }
    }

    /// The verdict on the step once its information log has `log_length`
    /// bytes: any log at all means the step failed.
    pub fn verdict(self, log_length: i32) -> (r: Result<(), ShaderError>)
        ensures
            r == (if log_length > 0 {
                Err(ShaderError::StepFailed { step: self })
            } else {
                Ok(())
            }),
    {
        if log_length > 0 {
            Err(ShaderError::StepFailed { step: self })
        } else {
            Ok(())
        }
    }
}

/// `bytes` ending in exactly one terminating NUL: one is added unless the
/// last byte is one already.
pub open spec fn nul_terminated(bytes: Seq<u8>) -> Seq<u8> {
    if bytes.len() > 0 && bytes.last() == 0 {
        bytes
    } else {
        bytes.push(0)
    }
}

/// A NUL byte stands before the last byte.
pub open spec fn has_interior_nul(bytes: Seq<u8>) -> bool {
    exists|i: int| 0 <= i < bytes.len() - 1 && bytes[i] == 0
}

/// The bytes of a shader source as OpenGL reads it: ASCII only, and one C
/// string, NUL-terminated, with no NUL before its end.
pub fn shader_source_bytes(source: &str) -> (r: Result<Vec<u8>, ShaderError>)
    ensures
        !vstd::string::is_ascii(source) ==> r == Err::<Vec<u8>, ShaderError>(ShaderError::NotAscii),
        vstd::string::is_ascii(source) ==> {
            let t = nul_terminated(source.spec_bytes());
            &&& has_interior_nul(t) ==> r == Err::<Vec<u8>, ShaderError>(ShaderError::InteriorNul)
            &&& !has_interior_nul(t) ==> (r matches Ok(v) && v@ == t)
        },
{
    if !source.is_ascii() {
        return Err(ShaderError::NotAscii);
    }
    let bytes = source.as_bytes();
    let n = bytes.len();
    let mut out: Vec<u8> = Vec::new();
    let mut i: usize = 0;
    while i < n
        invariant
            n == bytes@.len(),
            i <= n,
            out@ == bytes@.subrange(0, i as int),
        decreases n - i,
    {
        out.push(bytes[i]);
        i = i + 1;
    }
    assert(out@ == bytes@);
    if n == 0 || bytes[n - 1] != 0 {
        out.push(0);
    }
    let ghost t = nul_terminated(source.spec_bytes());
    assert(out@ == t);
    let m = out.len();
    let mut j: usize = 0;
    while j + 1 < m
        invariant
            vstd::string::is_ascii(source),
            t == nul_terminated(source.spec_bytes()),
            out@ == t,
            m == t.len(),
            m >= 1,
            j < m,
            forall|k: int| 0 <= k < j ==> t[k] != 0,
        decreases m - j,
    {
        if out[j] == 0 {
            assert(has_interior_nul(t)) by {
                assert(0 <= j < t.len() - 1 && t[j as int] == 0);
            }
            return Err(ShaderError::InteriorNul);
        }
        j = j + 1;
    }
    assert(!has_interior_nul(t));
    Ok(out)
}

/// An integer type that can index vertices.
pub trait IndicesBackend: Sized {
    /// The OpenGL type code of the integer type.
    spec fn type_code() -> u32;

    fn get_opengl_type() -> (r: u32)
        ensures
            r == Self::type_code(),
    ;
}

impl IndicesBackend for u8 {
    open spec fn type_code() -> u32 {
        GL_UNSIGNED_BYTE
    }

    fn get_opengl_type() -> (r: u32) {
        GL_UNSIGNED_BYTE
    }
}

impl IndicesBackend for u16 {
    open spec fn type_code() -> u32 {
        GL_UNSIGNED_SHORT
    }

    fn get_opengl_type() -> (r: u32) {
        GL_UNSIGNED_SHORT
    }
}

impl IndicesBackend for u32 {
    open spec fn type_code() -> u32 {
        GL_UNSIGNED_INT
    }

    fn get_opengl_type() -> (r: u32) {
        GL_UNSIGNED_INT
    }
}

/// A borrowed array of vertex indices.
pub struct Indices<'a, B: IndicesBackend> {
    indices: &'a [B],
}

impl<'a, B: IndicesBackend> Indices<'a, B> {
    pub closed spec fn view(&self) -> Seq<B> {
        self.indices@
    }

    pub fn new(indices: &'a [B]) -> (r: Indices<'a, B>)
        ensures
            r.view() == indices@,
    {
        Indices { indices }
    }

    pub fn len(&self) -> (r: usize)
        ensures
            r == self.view().len(),
    {
        self.indices.len()
    }

    /// The indices themselves.
    pub fn as_slice(&self) -> (r: &'a [B])
        ensures
            r@ == self.view(),
    {
        self.indices
    }
}

} // verus!
