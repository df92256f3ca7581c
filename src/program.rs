use vstd::prelude::*;

verus! {

/// The two shading languages a fragment program can be written in.
#[derive(Debug, Clone, Copy, PartialEq, Eq, Structural)]
pub enum ShaderDialect {
    /// WGSL text, handed to the driver as it is.
    Wgsl,
    /// GLSL text of a fragment stage.
    Glsl,
}

/// The built-in full-screen-triangle vertex programs, one for each dialect's
/// coordinate and entry-point conventions.
#[derive(Debug, Clone, Copy, PartialEq, Eq, Structural)]
pub enum VertexStage {
    /// Pairs with a WGSL fragment program.
    ForWgsl,
    /// Pairs with a GLSL fragment program.
    ForGlsl,
}

/// Why a shader file cannot be used.
#[derive(Debug, Clone, Copy, PartialEq, Eq, Structural)]
pub enum ShaderFileError {
    /// The file name has no extension.
    NoExtension,
    /// The extension is neither `wgsl` nor `frag`.
    UnsupportedExtension,
}

/// The dialect that a shader file's extension names: `wgsl` for WGSL, `frag`
/// for a GLSL fragment stage.
pub open spec fn dialect_of_extension(ext: Option<Seq<char>>) -> Result<ShaderDialect, ShaderFileError> {
    match ext {
        None => Err(ShaderFileError::NoExtension),
        Some(e) => if e == "wgsl"@ {
            Ok(ShaderDialect::Wgsl)
        } else if e == "frag"@ {
            Ok(ShaderDialect::Glsl)
        } else {
            Err(ShaderFileError::UnsupportedExtension)
        },
    }
}

/// The characters of an optional extension.
pub open spec fn opt_view(ext: Option<&str>) -> Option<Seq<char>> {
    match ext {
        None => None,
        Some(e) => Some(e@),
    }
}

/// Picks the dialect of a shader file from its extension (`None` where the file
/// name has none).
pub fn dialect_for_extension(ext: Option<&str>) -> (r: Result<ShaderDialect, ShaderFileError>)
    ensures
        r == dialect_of_extension(opt_view(ext)),
{
    match ext {
        None => Err(ShaderFileError::NoExtension),
        Some(e) => {
            let given = e.to_owned();
            let wgsl = "wgsl".to_owned();
            let frag = "frag".to_owned();
            proof {
                reveal_strlit("wgsl");
                reveal_strlit("frag");
            }
            if given == wgsl {
                Ok(ShaderDialect::Wgsl)
            } else if given == frag {
                Ok(ShaderDialect::Glsl)
            } else {
                Err(ShaderFileError::UnsupportedExtension)
            }
        },
    }
}

/// A user's fragment program, tagged with its dialect.
#[derive(Debug)]
pub enum ShaderProgram {
    Wgsl(String),
    Glsl(String),
}

impl ShaderProgram {
    /// Tags `source` with `dialect`.
    pub fn new(dialect: ShaderDialect, source: String) -> (r: ShaderProgram)
        ensures
            r.dialect_spec() == dialect,
            r.source_spec() == source@,
    {
        match dialect {
            ShaderDialect::Wgsl => ShaderProgram::Wgsl(source),
            ShaderDialect::Glsl => ShaderProgram::Glsl(source),
        }
    }

    pub open spec fn dialect_spec(&self) -> ShaderDialect {
        match self {
            ShaderProgram::Wgsl(_) => ShaderDialect::Wgsl,
            ShaderProgram::Glsl(_) => ShaderDialect::Glsl,
        }
    }

    pub open spec fn source_spec(&self) -> Seq<char> {
        match self {
            ShaderProgram::Wgsl(s) => s@,
            ShaderProgram::Glsl(s) => s@,
        }
    }

    /// The dialect the program is written in.
    pub fn dialect(&self) -> (r: ShaderDialect)
        ensures
            r == self.dialect_spec(),
    {
        match self {
            ShaderProgram::Wgsl(_) => ShaderDialect::Wgsl,
            ShaderProgram::Glsl(_) => ShaderDialect::Glsl,
        }
    }

    /// The program text.
    pub fn source(&self) -> (r: &str)
        ensures
            r@ == self.source_spec(),
    {
        match self {
            ShaderProgram::Wgsl(s) => s.as_str(),
            ShaderProgram::Glsl(s) => s.as_str(),
        }
    }

    /// The vertex program that goes with this fragment program.
    pub fn vertex_stage(&self) -> (r: VertexStage)
        ensures
            self.dialect_spec() == ShaderDialect::Wgsl ==> r == VertexStage::ForWgsl,
            self.dialect_spec() == ShaderDialect::Glsl ==> r == VertexStage::ForGlsl,
    {
        match self {
            ShaderProgram::Wgsl(_) => VertexStage::ForWgsl,
            ShaderProgram::Glsl(_) => VertexStage::ForGlsl,
        }
    }
}

} // verus!
