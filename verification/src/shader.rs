//! Which shader sources are compiled to SPIR-V, as what kind of shader,
//! and where the compiled code is written.

use vstd::prelude::*;
use vstd::string::StringExecFns;
use vstd::string::StrSliceExecFns;

verus! {

/// The kinds of shader that are compiled: vertex and fragment shaders.
#[derive(Clone, Copy, Debug, PartialEq, Eq)]
pub enum ShaderType {
    Vertex,
    Fragment,
}

/// The two strings hold the same characters.
pub fn str_equals(a: &str, b: &str) -> (same: bool)
    ensures
        same == (a@ == b@),
{
    let n = a.unicode_len();
    let m = b.unicode_len();
    if n != m {
        return false;
    }
    let mut i: usize = 0;
    while i < n
        invariant
            n == a@.len(),
            m == b@.len(),
            n == m,
            i <= n,
            forall|j: int| 0 <= j < i ==> a@[j] == b@[j],
        decreases n - i,
    {
        if a.get_char(i) != b.get_char(i) {
            return false;
        }
        i = i + 1;
    }
    assert(a@ =~= b@);
    true
}

/// The kind of shader held by a source file with extension `ext`:
/// `vert` for vertex shaders, `frag` for fragment shaders, none otherwise.
pub open spec fn spec_shader_type_for_extension(ext: Seq<char>) -> Option<ShaderType> {
    if ext == "vert"@ {
        Some(ShaderType::Vertex)
    } else if ext == "frag"@ {
        Some(ShaderType::Fragment)
    } else {
        None
    }
}

pub fn shader_type_for_extension(ext: &str) -> (kind: Option<ShaderType>)
    ensures
        kind == spec_shader_type_for_extension(ext@),
{
    if str_equals(ext, "vert") {
        Some(ShaderType::Vertex)
    } else if str_equals(ext, "frag") {
        Some(ShaderType::Fragment)
    } else {
        None
    }
}

/// Where the SPIR-V compiled from the shader source `file_name` is written:
/// `res/shaders/gen/<file_name>.spv`.
pub fn compiled_shader_path(file_name: &str) -> (path: String)
    ensures
        path@ == "res/shaders/gen/"@ + file_name@ + ".spv"@,
{
    let mut path = String::from_str("res/shaders/gen/");
    path.append(file_name);
    path.append(".spv");
    path
}

} // verus!
