use vstd::prelude::*;

verus! {

/// One preprocessor import found in a source file: the textual path with its
/// delimiters stripped, and whether angle brackets (a system import) or
/// quotes (a local import) enclosed it.
#[derive(Clone, Debug)]
pub struct Import {
    pub path: String,
    pub is_system: bool,
}

/// Mathematical image of an `Import`.
pub struct ImportV {
    pub path: Seq<char>,
    pub is_system: bool,
}

impl View for Import {
    type V = ImportV;

    open spec fn view(&self) -> ImportV {
        ImportV { path: self.path@, is_system: self.is_system }
    }
}

impl DeepView for Import {
    type V = ImportV;

    open spec fn deep_view(&self) -> ImportV {
        self@
    }
}

/// A function prototype or definition: its name, its raw return type text,
/// and its parameters as (type text, name text) pairs in source order.
#[derive(Clone, Debug)]
pub struct Function {
    pub name: String,
    pub return_type: String,
    pub parameters: Vec<(String, String)>,
}

/// Mathematical image of a `Function`.
pub struct FunctionV {
    pub name: Seq<char>,
    pub return_type: Seq<char>,
    pub parameters: Seq<(Seq<char>, Seq<char>)>,
}

impl View for Function {
    type V = FunctionV;

    open spec fn view(&self) -> FunctionV {
        FunctionV {
            name: self.name@,
            return_type: self.return_type@,
            parameters: self.parameters.deep_view(),
        }
    }
}

impl DeepView for Function {
    type V = FunctionV;

    open spec fn deep_view(&self) -> FunctionV {
        self@
    }
}

/// A type definition: the declared or tag name, and the raw text of what it
/// names.
#[derive(Clone, Debug)]
pub struct TypeDef {
    pub name: String,
    pub definition: String,
}

/// Mathematical image of a `TypeDef`.
pub struct TypeDefV {
    pub name: Seq<char>,
    pub definition: Seq<char>,
}

impl View for TypeDef {
    type V = TypeDefV;

    open spec fn view(&self) -> TypeDefV {
        TypeDefV { name: self.name@, definition: self.definition@ }
    }
}

impl DeepView for TypeDef {
    type V = TypeDefV;

    open spec fn deep_view(&self) -> TypeDefV {
        self@
    }
}

/// A macro definition: its name, its verbatim unexpanded body, and, for a
/// function-like macro only, the raw text of its parameter list.
#[derive(Clone, Debug)]
pub struct Macro {
    pub name: String,
    pub definition: String,
    pub parameters: Option<String>,
}

/// Mathematical image of a `Macro`.
pub struct MacroV {
    pub name: Seq<char>,
    pub definition: Seq<char>,
    pub parameters: Option<Seq<char>>,
}

impl View for Macro {
    type V = MacroV;

    open spec fn view(&self) -> MacroV {
        MacroV {
            name: self.name@,
            definition: self.definition@,
            parameters: self.parameters.deep_view(),
        }
    }
}

impl DeepView for Macro {
    type V = MacroV;

    open spec fn deep_view(&self) -> MacroV {
        self@
    }
}

/// Everything extracted from one file, keyed in the analyzer's memo by the
/// file's path.
#[derive(Clone, Debug)]
pub struct ParsedFile {
    pub path: String,
    pub imports: Vec<Import>,
    pub functions: Vec<Function>,
    pub types: Vec<TypeDef>,
    pub macros: Vec<Macro>,
}

/// Mathematical image of a `ParsedFile`.
pub struct ParsedFileV {
    pub path: Seq<char>,
    pub imports: Seq<ImportV>,
    pub functions: Seq<FunctionV>,
    pub types: Seq<TypeDefV>,
    pub macros: Seq<MacroV>,
}

impl View for ParsedFile {
    type V = ParsedFileV;

    open spec fn view(&self) -> ParsedFileV {
        ParsedFileV {
            path: self.path@,
            imports: self.imports.deep_view(),
            functions: self.functions.deep_view(),
            types: self.types.deep_view(),
            macros: self.macros.deep_view(),
        }
    }
}

impl DeepView for ParsedFile {
    type V = ParsedFileV;

    open spec fn deep_view(&self) -> ParsedFileV {
        self@
    }
}

/// The externally facing summary of one analyzed file.
#[derive(Clone, Debug)]
pub struct HeaderSummary {
    pub path: String,
    pub description: String,
    pub functions: Vec<Function>,
    pub types: Vec<TypeDef>,
    pub macros: Vec<Macro>,
}

/// Mathematical image of a `HeaderSummary`.
pub struct SummaryV {
    pub path: Seq<char>,
    pub description: Seq<char>,
    pub functions: Seq<FunctionV>,
    pub types: Seq<TypeDefV>,
    pub macros: Seq<MacroV>,
}

impl View for HeaderSummary {
    type V = SummaryV;

    open spec fn view(&self) -> SummaryV {
        SummaryV {
            path: self.path@,
            description: self.description@,
            functions: self.functions.deep_view(),
            types: self.types.deep_view(),
            macros: self.macros.deep_view(),
        }
    }
}

impl DeepView for HeaderSummary {
    type V = SummaryV;

    open spec fn deep_view(&self) -> SummaryV {
        self@
    }
}

/// Why an analysis run failed. An unreadable or missing file and a rejected
/// parse each abort the whole run; `AnalysisError` is reserved for
/// higher-level failures and is never produced by the walk itself.
#[derive(Clone, Debug)]
pub enum AnalyzerError {
    IoError(String),
    ParseError(String),
    AnalysisError(String),
}

/// Mathematical image of an `AnalyzerError`.
pub enum ErrorV {
    IoError(Seq<char>),
    ParseError(Seq<char>),
    AnalysisError(Seq<char>),
}

impl View for AnalyzerError {
    type V = ErrorV;

    open spec fn view(&self) -> ErrorV {
        match self {
            AnalyzerError::IoError(s) => ErrorV::IoError(s@),
            AnalyzerError::ParseError(s) => ErrorV::ParseError(s@),
            AnalyzerError::AnalysisError(s) => ErrorV::AnalysisError(s@),
        }
    }
}

impl DeepView for AnalyzerError {
    type V = ErrorV;

    open spec fn deep_view(&self) -> ErrorV {
        self@
    }
}

} // verus!
