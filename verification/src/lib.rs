use vstd::prelude::*;

mod analyzer;
mod extract;
mod fs;
mod laws;
mod model;
mod syntax;
mod text;

pub use analyzer::AnalysisOutcome;
pub use analyzer::CFileAnalyzer;
pub use analyzer::Resolution;
pub use analyzer::WalkStatus;
pub use extract::extract_functions_of;
pub use extract::extract_imports_of;
pub use extract::extract_macros_of;
pub use extract::extract_types_of;
pub use fs::FileMap;
pub use fs::FileState;
pub use model::AnalyzerError;
pub use model::Function;
pub use model::HeaderSummary;
pub use model::Import;
pub use model::Macro;
pub use model::ParsedFile;
pub use model::TypeDef;
pub use syntax::SyntaxNode;

use analyzer::spec_analysis;
use text::parent_dir;
use text::spec_parent_dir;

verus! {

/// Analyzes the file at `file_path` and everything it locally depends on,
/// searching the given directories in order, with the file's own parent
/// directory appended last. `fs` holds what is known of the disk; when the
/// outcome names a file still to be looked at, the caller records that
/// path's state in `fs` and calls again, until the outcome is a summary
/// list or an error. The outcome is a function of the three arguments
/// alone, so an unchanged root, search list and disk give identical
/// results.
pub fn extract_import_summaries(
    file_path: &str,
    search_paths: &Vec<String>,
    fs: &FileMap,
) -> (r: AnalysisOutcome)
    ensures
        r@ == spec_analysis(
            fs@,
            search_paths.deep_view().push(spec_parent_dir(file_path@)),
            file_path@,
        ),
{
    let mut analyzer = CFileAnalyzer::new();
    let len = search_paths.len();
    let mut i: usize = 0;
    proof {
        assert(analyzer.include_paths.deep_view() =~= search_paths.deep_view().take(0));
    }
    while i < len
        invariant
            len == search_paths@.len(),
            0 <= i <= len,
            analyzer.include_paths.deep_view() == search_paths.deep_view().take(i as int),
        decreases len - i,
    {
        analyzer.add_include_path(search_paths[i].clone());
        proof {
            assert(search_paths@[i as int].deep_view() == search_paths.deep_view()[i as int]);
            assert(analyzer.include_paths.deep_view() =~= search_paths.deep_view().take(i + 1));
        }
        i = i + 1;
    }
    proof {
        assert(search_paths.deep_view().take(len as int) =~= search_paths.deep_view());
    }
    analyzer.add_include_path(parent_dir(file_path));
    proof {
        assert(analyzer.include_paths.deep_view() =~= search_paths.deep_view().push(
            spec_parent_dir(file_path@),
        ));
    }
    analyzer.analyze_c_file(file_path, fs)
}

} // verus!
