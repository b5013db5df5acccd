use vstd::prelude::*;

use crate::model::Function;
use crate::model::FunctionV;
use crate::model::Import;
use crate::model::ImportV;
use crate::model::Macro;
use crate::model::MacroV;
use crate::model::TypeDef;
use crate::model::TypeDefV;
use crate::syntax::SyntaxNode;
use crate::text::spec_strip_markers;
use crate::text::str_eq;
use crate::text::strip_import_markers;

verus! {

/// The first child of `ns` standing in field `f`, if any.
pub open spec fn field_child_in(ns: Seq<SyntaxNode>, f: Seq<char>) -> Option<SyntaxNode>
    decreases ns.len(),
{
    if ns.len() == 0 {
        Option::None
    } else if ns[0].field matches Some(g) && g@ == f {
        Option::Some(ns[0])
    } else {
        field_child_in(ns.drop_first(), f)
    }
}

/// The first child of `n` standing in field `f`, if any.
pub open spec fn field_child(n: SyntaxNode, f: Seq<char>) -> Option<SyntaxNode> {
    field_child_in(n.children@, f)
}

/// Finds the first child of `n` whose field name is `f`.
pub fn find_field_child<'a>(n: &'a SyntaxNode, f: &str) -> (r: Option<&'a SyntaxNode>)
    ensures
        match r {
            Option::Some(c) => field_child(*n, f@) == Option::Some(*c),
            Option::None => field_child(*n, f@) is None,
        },
{
    let len = n.children.len();
    let mut i: usize = 0;
    proof {
        assert(n.children@.skip(0) =~= n.children@);
    }
    while i < len
        invariant
            len == n.children@.len(),
            0 <= i <= len,
            field_child(*n, f@) == field_child_in(n.children@.skip(i as int), f@),
        decreases len - i,
    {
        proof {
            assert(n.children@.skip(i as int)[0] == n.children@[i as int]);
            assert(n.children@.skip(i as int).drop_first() =~= n.children@.skip(i + 1));
        }
        match &n.children[i].field {
            Option::Some(g) => {
                if str_eq(g.as_str(), f) {
                    return Option::Some(&n.children[i]);
                }
            },
            Option::None => {},
        }
        i = i + 1;
    }
    Option::None
}

/// The imports declared by `n` itself: a `preproc_include` with a path child
/// yields one record, with the delimiters stripped from the path text and
/// `is_system` telling an angle-bracket include from a quoted one.
pub open spec fn own_imports(n: SyntaxNode) -> Seq<ImportV> {
    if n.kind@ == "preproc_include"@ {
        match field_child(n, "path"@) {
            Option::Some(p) => seq![
                ImportV {
                    path: spec_strip_markers(p.text@),
                    is_system: p.kind@ == "system_lib_string"@,
                },
            ],
            Option::None => Seq::empty(),
        }
    } else {
        Seq::empty()
    }
}

/// Every import in the tree rooted at `n`, in source order.
pub open spec fn import_records(n: SyntaxNode) -> Seq<ImportV>
    decreases n, 1int,
{
    own_imports(n) + forest_import_records(n.children@)
}

/// Every import under the nodes of `ns`, in order.
pub open spec fn forest_import_records(ns: Seq<SyntaxNode>) -> Seq<ImportV>
    decreases ns, 0int,
{
    if ns.len() == 0 {
        Seq::empty()
    } else {
        forest_import_records(ns.drop_last()) + import_records(ns.last())
    }
}

/// Appends every import in the tree rooted at `n` to `out`, in source order.
fn collect_imports(n: &SyntaxNode, out: &mut Vec<Import>)
    ensures
        final(out).deep_view() == old(out).deep_view() + import_records(*n),
    decreases *n,
{
    if str_eq(n.kind.as_str(), "preproc_include") {
        match find_field_child(n, "path") {
            Option::Some(p) => {
                let path_text = strip_import_markers(p.text.as_str());
                let is_system = str_eq(p.kind.as_str(), "system_lib_string");
                out.push(Import { path: path_text, is_system });
            },
            Option::None => {},
        }
    }
    proof {
        assert(out.deep_view() =~= old(out).deep_view() + own_imports(*n));
    }
    let ghost base = out.deep_view();
    let len = n.children.len();
    let mut i: usize = 0;
    proof {
        assert(n.children@.take(0) =~= Seq::<SyntaxNode>::empty());
    }
    while i < len
        invariant
            len == n.children@.len(),
            0 <= i <= len,
            out.deep_view() == base + forest_import_records(n.children@.take(i as int)),
            base == old(out).deep_view() + own_imports(*n),
        decreases len - i,
    {
        proof {
            assert(decreases_to!(*n => n.children@[i as int]));
        }
        collect_imports(&n.children[i], out);
        proof {
            assert(n.children@.take(i + 1).drop_last() =~= n.children@.take(i as int));
            assert(n.children@.take(i + 1).last() == n.children@[i as int]);
        }
        i = i + 1;
    }
    proof {
        assert(n.children@.take(len as int) =~= n.children@);
    }
}

/// The text of the child of `n` in field `f`, or empty text without one.
pub open spec fn text_of_field(n: SyntaxNode, f: Seq<char>) -> Seq<char> {
    match field_child(n, f) {
        Option::Some(c) => c.text@,
        Option::None => Seq::empty(),
    }
}

/// The text of the child of `n` in field `f`, if any.
pub open spec fn opt_text_of_field(n: SyntaxNode, f: Seq<char>) -> Option<Seq<char>> {
    match field_child(n, f) {
        Option::Some(c) => Option::Some(c.text@),
        Option::None => Option::None,
    }
}

/// Copies the text of the child of `n` in field `f`, or empty text.
fn field_text(n: &SyntaxNode, f: &str) -> (r: String)
    ensures
        r@ == text_of_field(*n, f@),
{
    match find_field_child(n, f) {
        Option::Some(c) => c.text.clone(),
        Option::None => String::new(),
    }
}

/// Copies the text of the child of `n` in field `f`, if there is one.
fn opt_field_text(n: &SyntaxNode, f: &str) -> (r: Option<String>)
    ensures
        r.deep_view() == opt_text_of_field(*n, f@),
{
    match find_field_child(n, f) {
        Option::Some(c) => Option::Some(c.text.clone()),
        Option::None => Option::None,
    }
}

/// The (type text, name text) pairs of the `parameter_declaration` entries
/// among `ns`, in order. A missing piece is recorded as empty text, so a
/// lone `void` yields one `("void", "")` pair; nothing collapses it away.
pub open spec fn param_records(ns: Seq<SyntaxNode>) -> Seq<(Seq<char>, Seq<char>)>
    decreases ns.len(),
{
    if ns.len() == 0 {
        Seq::empty()
    } else {
        param_records(ns.drop_last()) + (if ns.last().kind@ == "parameter_declaration"@ {
            seq![(text_of_field(ns.last(), "type"@), text_of_field(ns.last(), "declarator"@))]
        } else {
            Seq::empty()
        })
    }
}

/// The parameters of a declarator: the records of its parameter list, and
/// none without such a list.
pub open spec fn spec_params_of(d: SyntaxNode) -> Seq<(Seq<char>, Seq<char>)> {
    match field_child(d, "parameters"@) {
        Option::Some(pl) => param_records(pl.children@),
        Option::None => Seq::empty(),
    }
}

/// Collects the parameters of the parameter list `pl`.
fn collect_params(pl: &SyntaxNode) -> (r: Vec<(String, String)>)
    ensures
        r.deep_view() == param_records(pl.children@),
{
    let mut out: Vec<(String, String)> = Vec::new();
    let len = pl.children.len();
    let mut i: usize = 0;
    proof {
        assert(out.deep_view() =~= param_records(pl.children@.take(0)));
    }
    while i < len
        invariant
            len == pl.children@.len(),
            0 <= i <= len,
            out.deep_view() == param_records(pl.children@.take(i as int)),
        decreases len - i,
    {
        proof {
            assert(pl.children@.take(i + 1).drop_last() =~= pl.children@.take(i as int));
            assert(pl.children@.take(i + 1).last() == pl.children@[i as int]);
        }
        let c = &pl.children[i];
        if str_eq(c.kind.as_str(), "parameter_declaration") {
            let ptype = field_text(c, "type");
            let pname = field_text(c, "declarator");
            out.push((ptype, pname));
            proof {
                assert(out.deep_view() =~= param_records(pl.children@.take(i + 1)));
            }
        } else {
            proof {
                assert(out.deep_view() =~= param_records(pl.children@.take(i + 1)));
            }
        }
        i = i + 1;
    }
    proof {
        assert(pl.children@.take(len as int) =~= pl.children@);
    }
    out
}

/// The parameters of the declarator `d`.
fn params_of(d: &SyntaxNode) -> (r: Vec<(String, String)>)
    ensures
        r.deep_view() == spec_params_of(*d),
{
    match find_field_child(d, "parameters") {
        Option::Some(pl) => collect_params(pl),
        Option::None => Vec::new(),
    }
}

/// The function record declared by `n` itself: a definition or declaration
/// whose declarator has an inner declarator yields one record named by that
/// inner declarator's text; one whose name cannot be found yields nothing.
pub open spec fn own_functions(n: SyntaxNode) -> Seq<FunctionV> {
    if n.kind@ == "function_definition"@ || n.kind@ == "declaration"@ {
        match field_child(n, "declarator"@) {
            Option::Some(d) => match field_child(d, "declarator"@) {
                Option::Some(nm) => seq![
                    FunctionV {
                        name: nm.text@,
                        return_type: text_of_field(n, "type"@),
                        parameters: spec_params_of(d),
                    },
                ],
                Option::None => Seq::empty(),
            },
            Option::None => Seq::empty(),
        }
    } else {
        Seq::empty()
    }
}

/// Every function record in the tree rooted at `n`, in source order. A
/// prototype and a later definition of the same name stay two records.
pub open spec fn function_records(n: SyntaxNode) -> Seq<FunctionV>
    decreases n, 1int,
{
    own_functions(n) + forest_function_records(n.children@)
}

/// Every function record under the nodes of `ns`, in order.
pub open spec fn forest_function_records(ns: Seq<SyntaxNode>) -> Seq<FunctionV>
    decreases ns, 0int,
{
    if ns.len() == 0 {
        Seq::empty()
    } else {
        forest_function_records(ns.drop_last()) + function_records(ns.last())
    }
}

/// Appends every function record of the tree rooted at `n` to `out`.
fn collect_functions(n: &SyntaxNode, out: &mut Vec<Function>)
    ensures
        final(out).deep_view() == old(out).deep_view() + function_records(*n),
    decreases *n,
{
    if str_eq(n.kind.as_str(), "function_definition") || str_eq(n.kind.as_str(), "declaration") {
        match find_field_child(n, "declarator") {
            Option::Some(d) => {
                match find_field_child(d, "declarator") {
                    Option::Some(nm) => {
                        let name = nm.text.clone();
                        let return_type = field_text(n, "type");
                        let parameters = params_of(d);
                        out.push(Function { name, return_type, parameters });
                    },
                    Option::None => {},
                }
            },
            Option::None => {},
        }
    }
    proof {
        assert(out.deep_view() =~= old(out).deep_view() + own_functions(*n));
    }
    let ghost base = out.deep_view();
    let len = n.children.len();
    let mut i: usize = 0;
    proof {
        assert(n.children@.take(0) =~= Seq::<SyntaxNode>::empty());
    }
    while i < len
        invariant
            len == n.children@.len(),
            0 <= i <= len,
            out.deep_view() == base + forest_function_records(n.children@.take(i as int)),
            base == old(out).deep_view() + own_functions(*n),
        decreases len - i,
    {
        proof {
            assert(decreases_to!(*n => n.children@[i as int]));
        }
        collect_functions(&n.children[i], out);
        proof {
            assert(n.children@.take(i + 1).drop_last() =~= n.children@.take(i as int));
            assert(n.children@.take(i + 1).last() == n.children@[i as int]);
        }
        i = i + 1;
    }
    proof {
        assert(n.children@.take(len as int) =~= n.children@);
    }
}

/// Extracts every function record of the tree rooted at `n`.
pub fn extract_functions_of(n: &SyntaxNode) -> (r: Vec<Function>)
    ensures
        r.deep_view() == function_records(*n),
{
    let mut out: Vec<Function> = Vec::new();
    proof {
        assert(out.deep_view() =~= Seq::<FunctionV>::empty());
    }
    collect_functions(n, &mut out);
    out
}

/// The type record declared by `n` itself. A `type_definition` is named by
/// its declarator; a named `struct_specifier` or `enum_specifier` by its
/// tag. Either way the definition is the construct's own full raw text
/// span, verbatim. An anonymous construct yields nothing.
pub open spec fn own_types(n: SyntaxNode) -> Seq<TypeDefV> {
    if n.kind@ == "type_definition"@ {
        match field_child(n, "declarator"@) {
            Option::Some(d) => seq![TypeDefV { name: d.text@, definition: n.text@ }],
            Option::None => Seq::empty(),
        }
    } else if n.kind@ == "struct_specifier"@ || n.kind@ == "enum_specifier"@ {
        match field_child(n, "name"@) {
            Option::Some(nm) => seq![TypeDefV { name: nm.text@, definition: n.text@ }],
            Option::None => Seq::empty(),
        }
    } else {
        Seq::empty()
    }
}

/// Every type record in the tree rooted at `n`, in source order. A
/// `type_definition` is recorded once, as an alias; the traversal does not
/// descend into it, so the specifier it wraps is not recorded again.
pub open spec fn type_records(n: SyntaxNode) -> Seq<TypeDefV>
    decreases n, 1int,
{
    own_types(n) + if n.kind@ == "type_definition"@ {
        Seq::empty()
    } else {
        forest_type_records(n.children@)
    }
}

/// Every type record under the nodes of `ns`, in order.
pub open spec fn forest_type_records(ns: Seq<SyntaxNode>) -> Seq<TypeDefV>
    decreases ns, 0int,
{
    if ns.len() == 0 {
        Seq::empty()
    } else {
        forest_type_records(ns.drop_last()) + type_records(ns.last())
    }
}

/// Appends every type record of the tree rooted at `n` to `out`.
fn collect_types(n: &SyntaxNode, out: &mut Vec<TypeDef>)
    ensures
        final(out).deep_view() == old(out).deep_view() + type_records(*n),
    decreases *n,
{
    if str_eq(n.kind.as_str(), "type_definition") {
        match find_field_child(n, "declarator") {
            Option::Some(d) => {
                let name = d.text.clone();
                let definition = n.text.clone();
                out.push(TypeDef { name, definition });
            },
            Option::None => {},
        }
        proof {
            assert(out.deep_view() =~= old(out).deep_view() + type_records(*n));
        }
        return;
    }
    if str_eq(n.kind.as_str(), "struct_specifier") || str_eq(n.kind.as_str(), "enum_specifier") {
        match find_field_child(n, "name") {
            Option::Some(nm) => {
                let name = nm.text.clone();
                let definition = n.text.clone();
                out.push(TypeDef { name, definition });
            },
            Option::None => {},
        }
    }
    proof {
        assert(out.deep_view() =~= old(out).deep_view() + own_types(*n));
    }
    let ghost base = out.deep_view();
    let len = n.children.len();
    let mut i: usize = 0;
    proof {
        assert(n.children@.take(0) =~= Seq::<SyntaxNode>::empty());
    }
    while i < len
        invariant
            len == n.children@.len(),
            0 <= i <= len,
            out.deep_view() == base + forest_type_records(n.children@.take(i as int)),
            base == old(out).deep_view() + own_types(*n),
            n.kind@ != "type_definition"@,
        decreases len - i,
    {
        proof {
            assert(decreases_to!(*n => n.children@[i as int]));
        }
        collect_types(&n.children[i], out);
        proof {
            assert(n.children@.take(i + 1).drop_last() =~= n.children@.take(i as int));
            assert(n.children@.take(i + 1).last() == n.children@[i as int]);
        }
        i = i + 1;
    }
    proof {
        assert(n.children@.take(len as int) =~= n.children@);
    }
}

/// Extracts every type record of the tree rooted at `n`.
pub fn extract_types_of(n: &SyntaxNode) -> (r: Vec<TypeDef>)
    ensures
        r.deep_view() == type_records(*n),
{
    let mut out: Vec<TypeDef> = Vec::new();
    proof {
        assert(out.deep_view() =~= Seq::<TypeDefV>::empty());
    }
    collect_types(n, &mut out);
    out
}

/// The macro record declared by `n` itself: an object-like or function-like
/// definition with a name yields one record; the body and the parameter
/// list, when one exists, are kept verbatim, with nothing expanded.
pub open spec fn own_macros(n: SyntaxNode) -> Seq<MacroV> {
    if n.kind@ == "preproc_def"@ || n.kind@ == "preproc_function_def"@ {
        match field_child(n, "name"@) {
            Option::Some(nm) => seq![
                MacroV {
                    name: nm.text@,
                    definition: text_of_field(n, "value"@),
                    parameters: opt_text_of_field(n, "parameters"@),
                },
            ],
            Option::None => Seq::empty(),
        }
    } else {
        Seq::empty()
    }
}

/// Every macro record in the tree rooted at `n`, in source order.
pub open spec fn macro_records(n: SyntaxNode) -> Seq<MacroV>
    decreases n, 1int,
{
    own_macros(n) + forest_macro_records(n.children@)
}

/// Every macro record under the nodes of `ns`, in order.
pub open spec fn forest_macro_records(ns: Seq<SyntaxNode>) -> Seq<MacroV>
    decreases ns, 0int,
{
    if ns.len() == 0 {
        Seq::empty()
    } else {
        forest_macro_records(ns.drop_last()) + macro_records(ns.last())
    }
}

/// Appends every macro record of the tree rooted at `n` to `out`.
fn collect_macros(n: &SyntaxNode, out: &mut Vec<Macro>)
    ensures
        final(out).deep_view() == old(out).deep_view() + macro_records(*n),
    decreases *n,
{
    if str_eq(n.kind.as_str(), "preproc_def") || str_eq(n.kind.as_str(), "preproc_function_def") {
        match find_field_child(n, "name") {
            Option::Some(nm) => {
                let name = nm.text.clone();
                let definition = field_text(n, "value");
                let parameters = opt_field_text(n, "parameters");
                out.push(Macro { name, definition, parameters });
            },
            Option::None => {},
        }
    }
    proof {
        assert(out.deep_view() =~= old(out).deep_view() + own_macros(*n));
    }
    let ghost base = out.deep_view();
    let len = n.children.len();
    let mut i: usize = 0;
    proof {
        assert(n.children@.take(0) =~= Seq::<SyntaxNode>::empty());
    }
    while i < len
        invariant
            len == n.children@.len(),
            0 <= i <= len,
            out.deep_view() == base + forest_macro_records(n.children@.take(i as int)),
            base == old(out).deep_view() + own_macros(*n),
        decreases len - i,
    {
        proof {
            assert(decreases_to!(*n => n.children@[i as int]));
        }
        collect_macros(&n.children[i], out);
        proof {
            assert(n.children@.take(i + 1).drop_last() =~= n.children@.take(i as int));
            assert(n.children@.take(i + 1).last() == n.children@[i as int]);
        }
        i = i + 1;
    }
    proof {
        assert(n.children@.take(len as int) =~= n.children@);
    }
}

/// Extracts every macro record of the tree rooted at `n`.
pub fn extract_macros_of(n: &SyntaxNode) -> (r: Vec<Macro>)
    ensures
        r.deep_view() == macro_records(*n),
{
    let mut out: Vec<Macro> = Vec::new();
    proof {
        assert(out.deep_view() =~= Seq::<MacroV>::empty());
    }
    collect_macros(n, &mut out);
    out
}

/// Extracts every import of the tree rooted at `n`, in source order.
pub fn extract_imports_of(n: &SyntaxNode) -> (r: Vec<Import>)
    ensures
        r.deep_view() == import_records(*n),
{
    let mut out: Vec<Import> = Vec::new();
    proof {
        assert(out.deep_view() =~= Seq::<ImportV>::empty());
    }
    collect_imports(n, &mut out);
    out
}

} // verus!
