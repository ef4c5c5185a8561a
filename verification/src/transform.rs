//! Transforming source files: class attributes become generated class names,
//! with the CSS that those names stand for.
use vstd::prelude::*;
use indexmap::IndexMap;
use crate::collector::{is_combined_css, ClassCollector};
use crate::converter::Converter;
use crate::element_tree::{build_html_element_tree, forest_size, format_element_tree, html_tree, outline};
use crate::html::{class_values, css_all, html_pieces, name_all, name_all_ok, render, try_transform_html_source};
use crate::merge::ordered_entries;
use crate::shorthand::{trim, trim_str};
use crate::text::{chars_of, index_of_from, index_of_from_vec, join, lemma_index_of_from_spec, push_chars, push_str, str_eq, string_of_chars, strings_view};
use crate::types::{ColorMode, CssVariableMode, NamingMode, UnknownClassMode};
use crate::text::{cat2, ends_with, is_suffix};
use swc_core::common::comments::SingleThreadedComments;
use swc_core::common::sync::Lrc;
use swc_core::common::{FileName, SourceMap};
use swc_core::ecma::ast::{EsVersion, Module};
use swc_core::ecma::parser::{parse_file_as_module, EsSyntax, Syntax, TsSyntax};

verus! {

/// How a CSS Modules binding is accessed.
#[derive(Debug, Clone, Copy, PartialEq, Eq, Structural)]
pub enum CssModulesAccess {
    /// `styles.textCenterP4`: the class name must be an identifier.
    Dot,
    /// `styles["text-center-p4"]`: any class name.
    Bracket,
}

impl Default for CssModulesAccess {
    fn default() -> (r: Self)
        ensures
            r == CssModulesAccess::Dot,
    {
        CssModulesAccess::Dot
    }
}

/// How class attributes are rewritten.
#[derive(Debug, Clone)]
pub enum OutputMode {
    /// The attribute gets the class name; with a path, the stylesheet is
    /// imported for its side effect.
    Global {
        import_path: Option<String>,
    },
    /// The attribute refers to the class through a CSS Modules binding, and
    /// the module is imported under that binding.
    CssModules {
        /// The name of the binding, `styles` by default.
        binding_name: String,
        /// The module's path; without one, `./{stem}.module.css` of the file.
        import_path: Option<String>,
        /// How the binding is accessed.
        access: CssModulesAccess,
    },
}

impl Default for OutputMode {
    fn default() -> (r: Self)
        ensures
            r matches OutputMode::Global { import_path: None },
    {
        OutputMode::Global { import_path: None }
    }
}

impl OutputMode {
    /// CSS Modules under `styles`, with dot access and the derived path.
    pub fn css_modules() -> (r: Self)
        ensures
            r matches OutputMode::CssModules { binding_name, import_path: None, access: CssModulesAccess::Dot }
                && binding_name@ == "styles"@,
    {
        OutputMode::CssModules {
            binding_name: String::from_str("styles"),
            import_path: None,
            access: CssModulesAccess::Dot,
        }
    }

    /// CSS Modules under `styles`, with bracket access and the derived path.
    pub fn css_modules_bracket() -> (r: Self)
        ensures
            r matches OutputMode::CssModules { binding_name, import_path: None, access: CssModulesAccess::Bracket }
                && binding_name@ == "styles"@,
    {
        OutputMode::CssModules {
            binding_name: String::from_str("styles"),
            import_path: None,
            access: CssModulesAccess::Bracket,
        }
    }

    /// CSS Modules under `styles`, with dot access and the given path.
    pub fn css_modules_with_path(path: &str) -> (r: Self)
        ensures
            r matches OutputMode::CssModules { binding_name, import_path: Some(p), access: CssModulesAccess::Dot }
                && binding_name@ == "styles"@ && p@ == path@,
    {
        OutputMode::CssModules {
            binding_name: String::from_str("styles"),
            import_path: Some(String::from_str(path)),
            access: CssModulesAccess::Dot,
        }
    }
}

/// What a transformation does.
pub struct TransformOptions {
    /// How class names are generated.
    pub naming_mode: NamingMode,
    /// How class attributes are rewritten.
    pub output_mode: OutputMode,
    /// Whether theme values are variables or inline.
    pub css_variables: CssVariableMode,
    /// What happens to classes that are not recognized.
    pub unknown_classes: UnknownClassMode,
    /// How colors are written.
    pub color_mode: ColorMode,
    /// Whether an alpha is applied to colors with `color-mix()`.
    pub color_mix: bool,
    /// Whether the outline of the elements is produced too.
    pub element_tree: bool,
}

impl Default for TransformOptions {
    fn default() -> (r: Self)
        ensures
            r.naming_mode == NamingMode::Hash,
            r.output_mode matches OutputMode::Global { import_path: None },
            r.css_variables == CssVariableMode::Var,
            r.unknown_classes == UnknownClassMode::Remove,
            r.color_mode == ColorMode::Hex,
            !r.color_mix,
            !r.element_tree,
    {
        TransformOptions {
            naming_mode: NamingMode::Hash,
            output_mode: OutputMode::default(),
            css_variables: CssVariableMode::Var,
            unknown_classes: UnknownClassMode::Remove,
            color_mode: ColorMode::Hex,
            color_mix: false,
            element_tree: false,
        }
    }
}

/// What a transformation produces.
#[derive(Debug)]
pub struct TransformResult {
    /// The rewritten source.
    pub code: String,
    /// The CSS of the generated classes.
    pub css: String,
    /// Each class list and the class name it became, in first-seen order.
    pub class_map: IndexMap<String, String>,
    /// The outline of the elements, when it was asked for and there are any.
    pub element_tree: Option<String>,
}

/// The converter that the options select.
pub open spec fn options_converter(o: TransformOptions) -> Converter {
    Converter {
        use_variables: o.css_variables == CssVariableMode::Var,
        color_mode: o.color_mode,
        use_color_mix: o.color_mix,
    }
}

/// Whether the class lists of an HTML source can all be named under the options.
pub open spec fn html_nameable(source: Seq<char>, o: TransformOptions) -> bool {
    &&& o.naming_mode != NamingMode::Semantic
    &&& name_all_ok(
        options_converter(o),
        o.naming_mode,
        o.unknown_classes == UnknownClassMode::Preserve,
        seq![],
        class_values(html_pieces(source, 0)),
    )
}

/// Whether `res` is what transforming the HTML source gives under the options.
pub open spec fn html_transformed(source: Seq<char>, o: TransformOptions, res: TransformResult) -> bool {
    let cv = options_converter(o);
    let preserve = o.unknown_classes == UnknownClassMode::Preserve;
    let vs = class_values(html_pieces(source, 0));
    let (names, entries) = name_all(cv, o.naming_mode, preserve, seq![], vs);
    let tree = html_tree(source);
    &&& res.code@ == render(html_pieces(source, 0), names)
    &&& ordered_entries(res.class_map) == entries
    &&& exists|css: Seq<Seq<char>>|
        #![trigger css_all(cv, o.naming_mode, preserve, "  "@, seq![], vs, seq![], css)]
        css_all(cv, o.naming_mode, preserve, "  "@, seq![], vs, seq![], css)
            && is_combined_css(o.css_variables == CssVariableMode::Var, css, res.css@)
    &&& if o.element_tree && tree.len() > 0 {
        res.element_tree matches Some(t) && t@ == outline(tree)
    } else {
        res.element_tree is None
    }
}

/// Rewrites the class attributes of HTML source into generated class names,
/// and gives the CSS of those classes, the map from each class list to its
/// name, and, when asked for, the outline of the elements.
pub fn transform_html(source: &str, options: TransformOptions) -> (r: Result<TransformResult, String>)
    requires
        html_nameable(source@, options),
        options.element_tree ==> forest_size(html_tree(source@)) < usize::MAX,
    ensures
        r matches Ok(res) && html_transformed(source@, options, res),
{
    match try_transform_html(source, options) {
        Some(res) => Ok(res),
        None => Err(String::new()),
    }
}

/// What `transform_html` gives, or `None` when the options cannot name every
/// class list of the source (semantic naming, or a naming that would cut a
/// piece inside a character).
pub fn try_transform_html(source: &str, options: TransformOptions) -> (r: Option<TransformResult>)
    requires
        options.element_tree ==> forest_size(html_tree(source@)) < usize::MAX,
    ensures
        r is Some <==> html_nameable(source@, options),
        r matches Some(res) ==> html_transformed(source@, options, res),
{
    if options.naming_mode == NamingMode::Semantic {
        return None;
    }
    let tree_text = if options.element_tree {
        let nodes = build_html_element_tree(source);
        if nodes.len() == 0 {
            None
        } else {
            Some(format_element_tree(nodes.as_slice()))
        }
    } else {
        None
    };
    let mut collector = ClassCollector::new(
        options.naming_mode,
        options.css_variables,
        options.unknown_classes,
        options.color_mode,
        options.color_mix,
    );
    proof {
        assert(collector.converter() == options_converter(options));
    }
    let ghost c0 = collector;
    let code = match try_transform_html_source(source, &mut collector) {
        Some(code) => code,
        None => {
            return None;
        },
    };
    let css = collector.combined_css();
    let ghost entries = collector.css();
    let class_map = collector.into_class_map();
    let res = TransformResult { code, css, class_map, element_tree: tree_text };
    assert(css_all(
        options_converter(options),
        options.naming_mode,
        options.unknown_classes == UnknownClassMode::Preserve,
        "  "@,
        seq![],
        class_values(html_pieces(source@, 0)),
        seq![],
        entries,
    ));
    Some(res)
}

// ── Paths and lines ─────────────────────────────────────────────────────────

/// The last position of `c` in `s`, or `-1`.
pub open spec fn last_index(s: Seq<char>, c: char) -> int
    decreases s.len(),
{
    if s.len() == 0 {
        -1
    } else if s.last() == c {
        s.len() - 1
    } else {
        last_index(s.drop_last(), c)
    }
}

/// The stylesheet module of a source file: `./{stem}.module.css`, where the
/// stem is the file's name after the last `/`, up to its last `.`.
pub open spec fn css_module_path(filename: Seq<char>) -> Seq<char> {
    let k = last_index(filename, '/');
    let base = filename.subrange(k + 1, filename.len() as int);
    let d = last_index(base, '.');
    let stem = if d >= 0 { base.subrange(0, d) } else { base };
    "./"@ + stem + ".module.css"@
}

fn last_index_of(v: &Vec<char>, from: usize, c: char) -> (r: Option<usize>)
    requires
        from <= v@.len(),
    ensures
        r matches Some(k) ==> from <= k < v@.len() && k as int == from + last_index(v@.subrange(from as int, v@.len() as int), c),
        r is None ==> last_index(v@.subrange(from as int, v@.len() as int), c) == -1,
{
    let ghost s = v@.subrange(from as int, v@.len() as int);
    let mut i = v.len();
    assert(s.subrange(0, (i - from) as int) =~= s);
    while i > from
        invariant
            from <= i <= v@.len(),
            s == v@.subrange(from as int, v@.len() as int),
            last_index(s, c) == last_index(s.subrange(0, (i - from) as int), c),
        decreases i,
    {
        let ghost t = s.subrange(0, (i - from) as int);
        if v[i - 1] == c {
            assert(t.last() == c);
            return Some(i - 1);
        }
        assert(t.drop_last() =~= s.subrange(0, (i - 1 - from) as int));
        i = i - 1;
    }
    None
}

/// The stylesheet module path of a source file: `App.tsx` gives `./App.module.css`.
pub fn derive_css_module_path(filename: &str) -> (r: String)
    ensures
        r@ == css_module_path(filename@),
{
    let v = chars_of(filename);
    let n = v.len();
    let start = match last_index_of(&v, 0, '/') {
        Some(k) => k + 1,
        None => 0,
    };
    assert(v@.subrange(0, v@.len() as int) =~= v@);
    let ghost base = v@.subrange(start as int, v@.len() as int);
    let stop = match last_index_of(&v, start, '.') {
        Some(d) => d,
        None => v.len(),
    };
    let mut out = String::from_str("./");
    push_chars(&mut out, &v, start, stop);
    push_str(&mut out, ".module.css");
    proof {
        reveal_strlit("./");
        let d = last_index(base, '.');
        if d >= 0 {
            assert(base.subrange(0, d) =~= v@.subrange(start as int, stop as int));
        } else {
            assert(base =~= v@.subrange(start as int, stop as int));
        }
    }
    assert(out@ =~= css_module_path(filename@));
    out
}

/// `t` without one `\r` at its end.
pub open spec fn strip_cr(t: Seq<char>) -> Seq<char> {
    if t.len() > 0 && t.last() == '\r' {
        t.drop_last()
    } else {
        t
    }
}

/// The lines of `s` from `i`, as `str::lines` gives them: split at `\n`, with
/// a `\r` before it dropped, and no line after a final `\n`.
pub open spec fn lines_from(s: Seq<char>, i: int) -> Seq<Seq<char>>
    decreases s.len() - i,
{
    if i < 0 || i >= s.len() {
        seq![]
    } else {
        let e = index_of_from(s, '\n', i);
        proof {
            lemma_index_of_from_spec(s, '\n', i);
        }
        if e < s.len() {
            seq![strip_cr(s.subrange(i, e))] + lines_from(s, e + 1)
        } else {
            seq![s.subrange(i, s.len() as int)]
        }
    }
}

/// The lines of `s`.
pub open spec fn lines(s: Seq<char>) -> Seq<Seq<char>> {
    lines_from(s, 0)
}

/// The lines of `s`.
pub fn split_lines(s: &str) -> (r: Vec<String>)
    ensures
        strings_view(r@) == lines(s@),
{
    let v = chars_of(s);
    let n = v.len();
    let mut out: Vec<String> = Vec::new();
    let mut i: usize = 0;
    assert(strings_view(out@) + lines_from(v@, 0) =~= lines(s@));
    while i < n
        invariant
            i <= n == v@.len(),
            v@ == s@,
            strings_view(out@) + lines_from(v@, i as int) == lines(s@),
        decreases n - i,
    {
        let e = index_of_from_vec(&v, '\n', i);
        proof {
            lemma_index_of_from_spec(v@, '\n', i as int);
        }
        let ghost prev = strings_view(out@);
        if e < n {
            let stop = if e > i && v[e - 1] == '\r' { e - 1 } else { e };
            let line = string_of_chars(&v, i, stop);
            proof {
                let t = v@.subrange(i as int, e as int);
                if e > i && v@[e - 1] == '\r' {
                    assert(t.drop_last() =~= v@.subrange(i as int, stop as int));
                } else {
                    assert(t =~= v@.subrange(i as int, stop as int));
                }
                assert(line@ == strip_cr(t));
            }
            out.push(line);
            assert(strings_view(out@) =~= prev.push(line@));
            assert(prev + lines_from(v@, i as int) =~= strings_view(out@) + lines_from(v@, e + 1));
            i = e + 1;
        } else {
            let line = string_of_chars(&v, i, n);
            out.push(line);
            assert(strings_view(out@) =~= prev.push(line@));
            assert(lines_from(v@, n as int) =~= Seq::<Seq<char>>::empty());
            assert(prev + lines_from(v@, i as int) =~= strings_view(out@) + lines_from(v@, n as int));
            i = n;
        }
    }
    assert(lines_from(v@, i as int) =~= Seq::<Seq<char>>::empty());
    assert(strings_view(out@) + lines_from(v@, i as int) =~= strings_view(out@));
    out
}

/// The comment that stands for an empty line while source goes through a
/// parser that drops empty lines.
pub open spec fn empty_line_marker() -> Seq<char> {
    "// __HEADWIND_EMPTY_LINE__"@
}

fn marker() -> (r: &'static str)
    ensures
        r@ == empty_line_marker(),
{
    "// __HEADWIND_EMPTY_LINE__"
}

/// Whether a line is empty or whitespace.
pub open spec fn is_blank(t: Seq<char>) -> bool {
    trim(t).len() == 0
}

/// The position of the last line that is not blank, or `-1`.
pub open spec fn last_non_blank(ls: Seq<Seq<char>>) -> int
    decreases ls.len(),
{
    if ls.len() == 0 {
        -1
    } else if !is_blank(ls.last()) {
        ls.len() - 1
    } else {
        last_non_blank(ls.drop_last())
    }
}

/// The source with each blank line before the last line that is not blank
/// replaced by the marker comment; lines joined by `\n`.
pub open spec fn with_markers(s: Seq<char>) -> Seq<char> {
    let ls = lines(s);
    let last = last_non_blank(ls);
    join(Seq::new(ls.len(), |i: int| if is_blank(ls[i]) && i < last { empty_line_marker() } else { ls[i] }), "\n"@)
}

/// The code with each line that is the marker comment (once trimmed) made
/// empty; lines joined by `\n`.
pub open spec fn without_markers(s: Seq<char>) -> Seq<char> {
    let ls = lines(s);
    join(Seq::new(ls.len(), |i: int| if trim(ls[i]) == empty_line_marker() { seq![] } else { ls[i] }), "\n"@)
}

proof fn join_prefix_step(parts: Seq<Seq<char>>, i: int, sep: Seq<char>)
    requires
        0 <= i < parts.len(),
    ensures
        join(parts.subrange(0, i + 1), sep) == if i == 0 {
            parts[0]
        } else {
            join(parts.subrange(0, i), sep) + sep + parts[i]
        },
{
    let p = parts.subrange(0, i + 1);
    assert(p.drop_last() =~= parts.subrange(0, i));
}

/// Marks the blank lines of source that come before its last line that is
/// not blank, so that a parser that drops empty lines keeps their places.
pub fn preserve_empty_lines(source: &str) -> (r: String)
    ensures
        r@ == with_markers(source@),
{
    let ls = split_lines(source);
    let ghost lv = lines(source@);
    let n = ls.len();
    let mut last: Option<usize> = None;
    let mut j: usize = 0;
    while j < n
        invariant
            j <= n == ls@.len(),
            strings_view(ls@) == lv,
            last_non_blank(lv.subrange(0, j as int)) == match last {
                Some(k) => k as int,
                None => -1,
            },
        decreases n - j,
    {
        let t = trim_str(ls[j].as_str());
        let ghost pre = lv.subrange(0, j + 1);
        assert(pre.drop_last() =~= lv.subrange(0, j as int));
        assert(pre.last() == ls@[j as int]@);
        if t.unicode_len() > 0 {
            last = Some(j);
        }
        j = j + 1;
    }
    assert(lv.subrange(0, n as int) =~= lv);
    let ghost last_i = last_non_blank(lv);
    let ghost parts = Seq::new(lv.len(), |i: int| if is_blank(lv[i]) && i < last_i { empty_line_marker() } else { lv[i] });
    let mut out = String::new();
    let mut i: usize = 0;
    while i < n
        invariant
            i <= n == ls@.len(),
            strings_view(ls@) == lv,
            last_i == last_non_blank(lv),
            last_i == match last {
                Some(k) => k as int,
                None => -1,
            },
            parts.len() == lv.len(),
            forall|q: int| 0 <= q < lv.len() ==> #[trigger] parts[q] == (if is_blank(lv[q]) && q < last_i { empty_line_marker() } else { lv[q] }),
            out@ == join(parts.subrange(0, i as int), "\n"@),
        decreases n - i,
    {
        proof {
            join_prefix_step(parts, i as int, "\n"@);
        }
        if i > 0 {
            push_str(&mut out, "\n");
        }
        let t = trim_str(ls[i].as_str());
        let before_last = match last {
            Some(k) => i < k,
            None => false,
        };
        assert(lv[i as int] == ls@[i as int]@);
        if t.unicode_len() == 0 && before_last {
            push_str(&mut out, marker());
        } else {
            push_str(&mut out, ls[i].as_str());
        }
        proof {
            if i == 0 {
                assert(out@ =~= parts[0]);
            }
        }
        i = i + 1;
    }
    assert(parts.subrange(0, n as int) =~= parts);
    out
}

/// Empties the lines that are the marker comment.
pub fn restore_empty_lines(code: &str) -> (r: String)
    ensures
        r@ == without_markers(code@),
{
    let ls = split_lines(code);
    let ghost lv = lines(code@);
    let ghost parts = Seq::new(lv.len(), |i: int| if trim(lv[i]) == empty_line_marker() { Seq::<char>::empty() } else { lv[i] });
    let n = ls.len();
    let mut out = String::new();
    let mut i: usize = 0;
    while i < n
        invariant
            i <= n == ls@.len(),
            strings_view(ls@) == lv,
            parts.len() == lv.len(),
            forall|q: int| 0 <= q < lv.len() ==> #[trigger] parts[q] == (if trim(lv[q]) == empty_line_marker() { Seq::<char>::empty() } else { lv[q] }),
            out@ == join(parts.subrange(0, i as int), "\n"@),
        decreases n - i,
    {
        proof {
            join_prefix_step(parts, i as int, "\n"@);
        }
        if i > 0 {
            push_str(&mut out, "\n");
        }
        let t = trim_str(ls[i].as_str());
        assert(lv[i as int] == ls@[i as int]@);
        if !str_eq(t.as_str(), marker()) {
            push_str(&mut out, ls[i].as_str());
        }
        proof {
            if i == 0 {
                assert(out@ =~= parts[0]);
            }
        }
        i = i + 1;
    }
    assert(parts.subrange(0, n as int) =~= parts);
    out
}


// ── Parsing JavaScript and TypeScript ───────────────────────────────────────

#[verifier::external_type_specification]
#[verifier::external_body]
pub struct ExJsModule(Module);

#[verifier::external_type_specification]
#[verifier::external_body]
pub struct ExJsComments(SingleThreadedComments);

#[verifier::external_type_specification]
#[verifier::external_body]
pub struct ExSourceMap(SourceMap);

/// A parsed JavaScript or TypeScript module, with the comments and the source
/// map that printing it back needs.
pub struct ParsedJs {
    pub module: Module,
    pub comments: SingleThreadedComments,
    pub source_map: Lrc<SourceMap>,
}

/// Why swc did not give a module: a fatal error, or errors it recovered from;
/// each with the `Debug` text of what swc reported.
pub enum JsParseError {
    Fatal(String),
    Recovered(String),
}

/// What swc's `parse_file_as_module` reports for a source, a file name and a
/// syntax (TypeScript or not, TSX or not): `None` when it gives a module with
/// no errors, else whether the error was fatal and the `Debug` text of what it
/// reported.
pub uninterp spec fn js_parse_outcome(source: Seq<char>, filename: Seq<char>, typescript: bool, tsx: bool) -> Option<(bool, Seq<char>)>;

/// Parses a module with swc's `parse_file_as_module`, in a new source map with
/// the file named `filename`: as TypeScript (TSX when `tsx`) when `typescript`,
/// else as JavaScript with JSX, comments kept. Its result is what
/// `js_parse_outcome` names for these arguments: a module when swc gives one
/// without errors, else a fatal error or the errors swc recovered from, each
/// as swc's `Debug` text. Nothing is stated of the module itself.
#[verifier::external_body]
fn parse_module(source: &str, filename: &str, typescript: bool, tsx: bool) -> (r: Result<ParsedJs, JsParseError>)
    ensures
        match r {
            Ok(_) => js_parse_outcome(source@, filename@, typescript, tsx) is None,
            Err(JsParseError::Fatal(t)) => js_parse_outcome(source@, filename@, typescript, tsx) == Some((true, t@)),
            Err(JsParseError::Recovered(t)) => js_parse_outcome(source@, filename@, typescript, tsx) == Some((false, t@)),
        },
{
    let cm = Lrc::<SourceMap>::default();
    let fm = cm.new_source_file(FileName::Custom(filename.to_string()).into(), source.to_string());
    let comments = SingleThreadedComments::default();
    let ts = Syntax::Typescript(TsSyntax { tsx, ..Default::default() });
    let syntax = if typescript { ts } else { Syntax::Es(EsSyntax { jsx: true, ..Default::default() }) };
    let mut errors = vec![];
    match parse_file_as_module(&fm, syntax, EsVersion::latest(), Some(&comments), &mut errors) {
        Err(e) => Err(JsParseError::Fatal(format!("{e:?}"))),
        Ok(module) => match errors.is_empty() {
            true => Ok(ParsedJs { module, comments, source_map: cm }),
            false => Err(JsParseError::Recovered(format!("{errors:?}"))),
        },
    }
}

/// The syntax of a file by its name, as `(typescript, tsx)`: TSX for `.tsx`,
/// TypeScript for `.ts`, else JavaScript with JSX.
pub fn jsx_syntax(filename: &str) -> (r: (bool, bool))
    ensures
        r.1 == is_suffix(".tsx"@, filename@),
        r.0 == (is_suffix(".tsx"@, filename@) || is_suffix(".ts"@, filename@)),
{
    if ends_with(filename, ".tsx") {
        (true, true)
    } else if ends_with(filename, ".ts") {
        (true, false)
    } else {
        (false, false)
    }
}

/// The message for a source that does not parse: a fatal error, or errors
/// that the parser recovered from, followed by what the parser reported.
pub open spec fn js_parse_message(fatal: bool, detail: Seq<char>) -> Seq<char> {
    if fatal {
        "解析错误: "@ + detail
    } else {
        "解析警告: "@ + detail
    }
}

/// The message for a source that does not parse.
pub fn js_parse_error_text(error: JsParseError) -> (r: String)
    ensures
        r@ == match error {
            JsParseError::Fatal(t) => js_parse_message(true, t@),
            JsParseError::Recovered(t) => js_parse_message(false, t@),
        },
{
    match error {
        JsParseError::Fatal(t) => cat2("解析错误: ", t.as_str()),
        JsParseError::Recovered(t) => cat2("解析警告: ", t.as_str()),
    }
}

/// Parses JSX or TSX source for the transform: the syntax comes from the file
/// name, and the source is parsed with its empty lines marked. It gives the
/// module when the parser reports nothing, else the message for what it reported.
pub fn parse_jsx_source(source: &str, filename: &str) -> (r: Result<ParsedJs, String>)
    ensures
        ({
            let tsx = is_suffix(".tsx"@, filename@);
            let ts = tsx || is_suffix(".ts"@, filename@);
            match js_parse_outcome(with_markers(source@), filename@, ts, tsx) {
                None => r is Ok,
                Some((fatal, detail)) => (r matches Err(m) && m@ == js_parse_message(fatal, detail)),
            }
        }),
{
    let (typescript, tsx) = jsx_syntax(filename);
    let preserved = preserve_empty_lines(source);
    match parse_module(preserved.as_str(), filename, typescript, tsx) {
        Ok(parsed) => Ok(parsed),
        Err(e) => Err(js_parse_error_text(e)),
    }
}

} // verus!
