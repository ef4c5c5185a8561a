//! Core value types: CSS declarations, diagnostics, bundling requests and the option enums.
use vstd::prelude::*;

verus! {

/// A single CSS declaration, such as `padding: 1rem`.
#[derive(Debug, Clone, PartialEq, Eq, Hash)]
pub struct Declaration {
    /// The CSS property name, such as `padding`.
    pub property: String,
    /// The CSS value, such as `1rem`.
    pub value: String,
}

/// The text of a declaration: its property and its value.
pub type DeclView = (Seq<char>, Seq<char>);

impl View for Declaration {
    type V = DeclView;

    open spec fn view(&self) -> DeclView {
        (self.property@, self.value@)
    }
}

/// The texts of a sequence of declarations.
pub open spec fn decls_view(s: Seq<Declaration>) -> Seq<DeclView> {
    s.map_values(|d: Declaration| d@)
}

impl Declaration {
    /// A declaration of `property` with `value`.
    pub fn new(property: &str, value: &str) -> (d: Declaration)
        ensures
            d@ == (property@, value@),
    {
        Declaration { property: String::from_str(property), value: String::from_str(value) }
    }

    /// A declaration that takes ownership of its two strings.
    pub fn from_parts(property: String, value: String) -> (d: Declaration)
        ensures
            d@ == (property@, value@),
    {
        Declaration { property, value }
    }

    /// A copy of this declaration with the same text.
    pub fn duplicate(&self) -> (d: Declaration)
        ensures
            d@ == self@,
    {
        Declaration { property: self.property.clone(), value: self.value.clone() }
    }
}

/// A copy of every declaration of `v`, in order.
pub fn duplicate_decls(v: &Vec<Declaration>) -> (r: Vec<Declaration>)
    ensures
        decls_view(r@) == decls_view(v@),
{
    let mut r: Vec<Declaration> = Vec::new();
    let mut i: usize = 0;
    while i < v.len()
        invariant
            i <= v@.len(),
            r@.len() == i,
            forall|j: int| 0 <= j < i ==> #[trigger] r@[j]@ == v@[j]@,
        decreases v@.len() - i,
    {
        r.push(v[i].duplicate());
        i = i + 1;
    }
    assert(decls_view(r@) =~= decls_view(v@));
    r
}

/// Appends copies of the declarations of `src` to `dst`.
pub fn extend_decls(dst: &mut Vec<Declaration>, src: &[Declaration])
    ensures
        decls_view(final(dst)@) == decls_view(old(dst)@) + decls_view(src@),
{
    let ghost n0 = old(dst)@.len();
    let mut i: usize = 0;
    while i < src.len()
        invariant
            i <= src@.len(),
            n0 == old(dst)@.len(),
            dst@.len() == n0 + i,
            forall|j: int| 0 <= j < n0 ==> #[trigger] dst@[j]@ == old(dst)@[j]@,
            forall|j: int| 0 <= j < i ==> #[trigger] dst@[n0 + j]@ == src@[j]@,
        decreases src@.len() - i,
    {
        dst.push(src[i].duplicate());
        proof {
            assert(dst@[n0 + i]@ == src@[i as int]@);
        }
        i = i + 1;
    }
    assert(decls_view(dst@) =~= decls_view(old(dst)@) + decls_view(src@)) by {
        assert forall|j: int| 0 <= j < dst@.len() implies #[trigger] decls_view(dst@)[j] == (decls_view(old(dst)@) + decls_view(src@))[j] by {
            if j >= n0 {
                assert(dst@[n0 + (j - n0)]@ == src@[j - n0]@);
            }
        }
    }
}

/// How severe a diagnostic is.
#[derive(Debug, Clone, Copy, PartialEq, Eq, Structural)]
pub enum DiagnosticLevel {
    Warning,
    Error,
}

/// A message about one input of a bundling request.
#[derive(Debug, Clone)]
pub struct Diagnostic {
    pub level: DiagnosticLevel,
    pub message: String,
}

impl Diagnostic {
    /// A warning with the given message.
    pub fn warning(message: &str) -> (d: Diagnostic)
        ensures
            d.level == DiagnosticLevel::Warning,
            d.message@ == message@,
    {
        Diagnostic { level: DiagnosticLevel::Warning, message: String::from_str(message) }
    }

    /// An error with the given message.
    pub fn error(message: &str) -> (d: Diagnostic)
        ensures
            d.level == DiagnosticLevel::Error,
            d.message@ == message@,
    {
        Diagnostic { level: DiagnosticLevel::Error, message: String::from_str(message) }
    }
}

/// How generated class names are formed.
#[derive(Debug, Clone, Copy, PartialEq, Eq, Structural)]
pub enum NamingMode {
    /// A name from a content hash: `c_a1b2c3d4e5f6`.
    Hash,
    /// A readable name from the class prefixes: `p4_m2`.
    Readable,
    /// A camel-case name, suited to CSS Modules: `p4M2`.
    CamelCase,
    /// A name chosen by a model; not available.
    Semantic,
}

/// Whether theme values are written as CSS variables or inline.
#[derive(Debug, Clone, Copy, PartialEq, Eq, Structural, Default)]
pub enum CssVariableMode {
    /// Theme values as references: `font-size: var(--text-3xl)`.
    #[default]
    Var,
    /// Theme values written out: `font-size: 1.875rem`.
    Inline,
}

/// How color values are written.
#[derive(Debug, Clone, Copy, PartialEq, Eq, Structural, Default)]
pub enum ColorMode {
    /// Hex colors: `#3b82f6`.
    #[default]
    Hex,
    /// OKLCH colors: `oklch(0.623 0.214 259.815)`.
    Oklch,
    /// HSL colors: `hsl(217, 91%, 60%)`.
    Hsl,
    /// Custom properties: `var(--color-blue-500)`.
    Var,
}

/// What happens to class names that are not recognized.
#[derive(Debug, Clone, Copy, PartialEq, Eq, Structural, Default)]
pub enum UnknownClassMode {
    /// Unrecognized class names are dropped.
    #[default]
    Remove,
    /// Unrecognized class names are kept as they are.
    Preserve,
}

/// A list of utility classes to bundle into one class.
#[derive(Debug, Clone)]
pub struct BundleRequest {
    pub classes: Vec<String>,
    pub naming_mode: NamingMode,
}

/// The class name and declarations that a bundling request produced.
#[derive(Debug, Clone)]
pub struct BundleResult {
    /// The generated class name.
    pub new_class: String,
    /// The merged CSS declarations.
    pub css_declarations: Vec<Declaration>,
    /// The classes that were not found.
    pub removed: Vec<String>,
    /// One warning per removed class.
    pub diagnostics: Vec<Diagnostic>,
}

} // verus!
