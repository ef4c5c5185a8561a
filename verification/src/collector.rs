//! Collecting the class lists of a source file: each list becomes one
//! generated class with its CSS, and the same list is named once.
use vstd::prelude::*;
use indexmap::IndexMap;
use crate::bundler::{parse_failure, prefix_collected, root_block, var_refs_from, Bundler};
use crate::context::{context_css, prefix_order};
use crate::converter::{class_decls, Converter};
use crate::bundler::decls_under;
use crate::merge::{
    entries_after_insert, key_position, ordered_entries, ordered_map_get, ordered_map_insert,
    ordered_map_new,
};
use crate::naming::{can_name, create_naming_strategy, name_for, naming_ok, NamingStrategy, SelectedNaming};
use crate::normalize::{split_ws, strictly_sorted, ws_tokens};
use crate::parser::{parse_all, parse_model};
use crate::shorthand::{trim, trim_str};
use crate::text::{cat3, join, join_strings, owned, strings_view};
use crate::types::{ColorMode, CssVariableMode, DeclView, NamingMode, UnknownClassMode};

verus! {

/// Whether a single class parses and converts.
pub open spec fn recognized(cv: Converter, class: Seq<char>) -> bool {
    match parse_model(class) {
        Ok(c) => class_decls(cv, c) is Some,
        Err(_) => false,
    }
}

/// The classes of `ts` that are recognized (`keep`) or not (`!keep`), in order.
pub open spec fn sorted_out(cv: Converter, ts: Seq<Seq<char>>, keep: bool) -> Seq<Seq<char>>
    decreases ts.len(),
{
    if ts.len() == 0 {
        seq![]
    } else {
        let rest = sorted_out(cv, ts.drop_last(), keep);
        if recognized(cv, ts.last()) == keep {
            rest.push(ts.last())
        } else {
            rest
        }
    }
}

/// Whether `css` is the CSS that the class list `text` bundles into for the
/// class `name`.
pub open spec fn is_bundle_css(cv: Converter, name: Seq<char>, text: Seq<char>, indent: Seq<char>, css: Seq<char>) -> bool {
    match parse_all(ws_tokens(text)) {
        Ok(cs) => exists|entries: Seq<(Seq<char>, Seq<DeclView>)>, order: Seq<Seq<char>>|
            #![trigger context_css(name, entries, order, indent)]
            (forall|raw: Seq<char>| #[trigger] decls_under(entries, raw) == prefix_collected(cv, cs, raw))
                && prefix_order(entries, order)
                && css == context_css(name, entries, order, indent),
        Err(_) => false,
    }
}

/// What bundling `text` for `name` adds to the CSS entries: its CSS when it
/// parses and the CSS is not empty, else nothing.
pub open spec fn css_added(cv: Converter, name: Seq<char>, text: Seq<char>, indent: Seq<char>, before: Seq<Seq<char>>, after: Seq<Seq<char>>) -> bool {
    match parse_all(ws_tokens(text)) {
        Err(_) => after == before,
        Ok(_) => {
            ||| (after == before && is_bundle_css(cv, name, text, indent, Seq::<char>::empty()))
            ||| exists|x: Seq<char>| #![trigger is_bundle_css(cv, name, text, indent, x)]
                x.len() > 0 && is_bundle_css(cv, name, text, indent, x) && after == before.push(x)
        },
    }
}

/// The classes that name a class list: all of its classes, or with unknown
/// classes kept, the recognized ones.
pub open spec fn named_classes(cv: Converter, preserve: bool, trimmed: Seq<char>) -> Seq<Seq<char>> {
    if preserve {
        sorted_out(cv, ws_tokens(trimmed), true)
    } else {
        ws_tokens(trimmed)
    }
}

/// The class list that is bundled: the list itself, or with unknown classes
/// kept, its recognized classes joined by spaces.
pub open spec fn bundle_text(cv: Converter, preserve: bool, trimmed: Seq<char>) -> Seq<char> {
    if preserve {
        join(named_classes(cv, true, trimmed), " "@)
    } else {
        trimmed
    }
}

/// The name that a new class list gets: the generated name; with unknown
/// classes kept, the list itself when nothing is recognized, else the
/// generated name followed by the unrecognized classes.
pub open spec fn list_name(cv: Converter, mode: NamingMode, preserve: bool, trimmed: Seq<char>) -> Seq<char> {
    let known = named_classes(cv, preserve, trimmed);
    let unknown = sorted_out(cv, ws_tokens(trimmed), false);
    if preserve && known.len() == 0 {
        trimmed
    } else if preserve && unknown.len() > 0 {
        name_for(mode, known) + " "@ + join(unknown, " "@)
    } else {
        name_for(mode, known)
    }
}

/// Whether `r` is the CSS of the entries `css` joined by newlines; with theme
/// variables, the `:root` block of the theme variables they refer to, in
/// sorted order, comes first.
pub open spec fn is_combined_css(vars: bool, css: Seq<Seq<char>>, r: Seq<char>) -> bool {
    let all = join(css, "\n"@);
    if vars && all.len() > 0 {
        exists|order: Seq<Seq<char>>|
            #![trigger root_block(order)]
            strictly_sorted(order) && order.to_set() == var_refs_from(all, 0).to_set() && r == (if root_block(order).len() == 0 {
                all
            } else {
                root_block(order) + "\n"@ + all
            })
    } else {
        r == all
    }
}

/// Whether a collector can take the class list: it is blank or seen before,
/// or (with unknown classes kept) none of its classes is recognized, or its
/// naming cuts each piece it cuts between two characters.
pub open spec fn can_process(c: ClassCollector, classes: Seq<char>) -> bool {
    let t = trim(classes);
    ||| t.len() == 0
    ||| key_position(c.names(), t) >= 0
    ||| (c.preserves() && named_classes(c.converter(), true, t).len() == 0)
    ||| naming_ok(c.naming_mode(), named_classes(c.converter(), c.preserves(), t))
}

/// Whether `new_c` and the name `r` are what taking the class list gives
/// `old_c`: nothing for a blank list, the name it got before for a list seen
/// before, else a new name entered last, with the CSS of its bundle added.
pub open spec fn processed(old_c: ClassCollector, new_c: ClassCollector, classes: Seq<char>, r: Seq<char>) -> bool {
    let t = trim(classes);
    let cv = old_c.converter();
    &&& new_c.converter() == cv
    &&& new_c.naming_mode() == old_c.naming_mode()
    &&& new_c.indent_text() == old_c.indent_text()
    &&& new_c.preserves() == old_c.preserves()
    &&& new_c.uses_variables() == old_c.uses_variables()
    &&& t.len() == 0 ==> r == Seq::<char>::empty() && new_c == old_c
    &&& t.len() > 0 && key_position(old_c.names(), t) >= 0 ==> r == old_c.names()[key_position(old_c.names(), t)].1
        && new_c == old_c
    &&& t.len() > 0 && key_position(old_c.names(), t) < 0 ==> {
        &&& r == list_name(cv, old_c.naming_mode(), old_c.preserves(), t)
        &&& new_c.names() == entries_after_insert(old_c.names(), t, r)
        &&& if old_c.preserves() && named_classes(cv, true, t).len() == 0 {
            new_c.css() == old_c.css()
        } else {
            css_added(
                cv,
                name_for(old_c.naming_mode(), named_classes(cv, old_c.preserves(), t)),
                bundle_text(cv, old_c.preserves(), t),
                old_c.indent_text(),
                old_c.css(),
                new_c.css(),
            )
        }
    }
}

/// Collects class lists, names each once, and gathers their CSS.
pub struct ClassCollector {
    bundler: Bundler,
    naming: SelectedNaming,
    class_map: IndexMap<String, String>,
    css_entries: Vec<String>,
    indent: String,
    css_variables: CssVariableMode,
    unknown_class_mode: UnknownClassMode,
}

impl ClassCollector {
    /// The class lists seen and the names they got, in first-seen order.
    pub closed spec fn names(&self) -> Seq<(Seq<char>, Seq<char>)> {
        ordered_entries(self.class_map)
    }

    /// The CSS of each class list, in order.
    pub closed spec fn css(&self) -> Seq<Seq<char>> {
        strings_view(self.css_entries@)
    }

    /// The converter that classes are converted with.
    pub closed spec fn converter(&self) -> Converter {
        self.bundler.config()
    }

    /// The naming mode.
    pub closed spec fn naming_mode(&self) -> NamingMode {
        self.naming.mode()
    }

    /// The indentation of the CSS.
    pub closed spec fn indent_text(&self) -> Seq<char> {
        self.indent@
    }

    /// Whether unknown classes are kept.
    pub closed spec fn preserves(&self) -> bool {
        self.unknown_class_mode == UnknownClassMode::Preserve
    }

    /// Whether theme values are variables.
    pub closed spec fn uses_variables(&self) -> bool {
        self.css_variables == CssVariableMode::Var
    }

    /// A collector with nothing collected.
    pub fn new(
        naming_mode: NamingMode,
        css_variables: CssVariableMode,
        unknown_class_mode: UnknownClassMode,
        color_mode: ColorMode,
        color_mix: bool,
    ) -> (r: Self)
        requires
            naming_mode != NamingMode::Semantic,
        ensures
            r.names() == Seq::<(Seq<char>, Seq<char>)>::empty(),
            r.css() == Seq::<Seq<char>>::empty(),
            r.naming_mode() == naming_mode,
            r.converter().use_variables == (css_variables == CssVariableMode::Var),
            r.converter().color_mode == color_mode,
            r.converter().use_color_mix == color_mix,
            r.indent_text() == "  "@,
            r.preserves() == (unknown_class_mode == UnknownClassMode::Preserve),
            r.uses_variables() == (css_variables == CssVariableMode::Var),
    {
        let naming = create_naming_strategy(naming_mode);
        let bundler = match css_variables {
            CssVariableMode::Var => Bundler::new(),
            CssVariableMode::Inline => Bundler::with_inline(),
        };
        let bundler = bundler.with_color_mode(color_mode).with_color_mix(color_mix);
        let r = ClassCollector {
            bundler,
            naming,
            class_map: ordered_map_new(),
            css_entries: Vec::new(),
            indent: owned("  "),
            css_variables,
            unknown_class_mode,
        };
        assert(r.css() =~= Seq::<Seq<char>>::empty());
        r
    }

    /// The name of a class list: nothing for a blank list, the name it got
    /// before for a list seen before, else a new name (with its CSS gathered).
    pub fn process_classes(&mut self, classes: &str) -> (r: String)
        requires
            can_process(*old(self), classes@),
        ensures
            processed(*old(self), *final(self), classes@, r@),
    {
        match self.try_process_classes(classes) {
            Some(name) => name,
            None => String::new(),
        }
    }

    /// The name of a class list as `process_classes` gives it, or `None`, with
    /// nothing changed, when its naming would cut a piece inside a character.
    pub fn try_process_classes(&mut self, classes: &str) -> (r: Option<String>)
        ensures
            match r {
                Some(name) => can_process(*old(self), classes@) && processed(*old(self), *final(self), classes@, name@),
                None => !can_process(*old(self), classes@) && *final(self) == *old(self),
            },
    {
        let trimmed = trim_str(classes);
        if trimmed.unicode_len() == 0 {
            return Some(String::new());
        }
        if let Some(name) = ordered_map_get(&self.class_map, trimmed.as_str()) {
            return Some(name.clone());
        }
        let tokens = split_ws(trimmed.as_str());
        let ghost ts = strings_view(tokens@);
        let ghost cv = self.bundler.config();
        if self.unknown_class_mode == UnknownClassMode::Preserve {
            let mut known: Vec<String> = Vec::new();
            let mut unknown: Vec<String> = Vec::new();
            let mut i: usize = 0;
            while i < tokens.len()
                invariant
                    i <= tokens@.len(),
                    ts == strings_view(tokens@),
                    cv == self.bundler.config(),
                    strings_view(known@) == sorted_out(cv, ts.subrange(0, i as int), true),
                    strings_view(unknown@) == sorted_out(cv, ts.subrange(0, i as int), false),
                decreases tokens@.len() - i,
            {
                proof {
                    assert(ts.subrange(0, i + 1).drop_last() =~= ts.subrange(0, i as int));
                }
                let t = tokens[i].clone();
                if self.bundler.is_recognized(t.as_str()) {
                    known.push(t);
                    assert(strings_view(known@) =~= sorted_out(cv, ts.subrange(0, i as int), true).push(tokens@[i as int]@));
                    assert(strings_view(unknown@) =~= sorted_out(cv, ts.subrange(0, i + 1), false));
                } else {
                    unknown.push(t);
                    assert(strings_view(unknown@) =~= sorted_out(cv, ts.subrange(0, i as int), false).push(tokens@[i as int]@));
                    assert(strings_view(known@) =~= sorted_out(cv, ts.subrange(0, i + 1), true));
                }
                i = i + 1;
            }
            assert(ts.subrange(0, tokens@.len() as int) =~= ts);
            if known.len() == 0 {
                let key = trimmed.clone();
                ordered_map_insert(&mut self.class_map, key, trimmed.clone());
                return Some(trimmed);
            }
            if !can_name(self.naming.mode, known.as_slice()) {
                return None;
            }
            let known_text = join_strings(known.as_slice(), " ");
            let new_name = self.naming.generate_name(known.as_slice());
            let ghost before = self.css();
            match self.bundler.bundle_to_css(new_name.as_str(), known_text.as_str(), self.indent.as_str()) {
                Ok(css) => {
                    proof {
                        assert(is_bundle_css(cv, new_name@, known_text@, self.indent@, css@));
                    }
                    if css.unicode_len() > 0 {
                        self.css_entries.push(css);
                        assert(self.css() =~= before.push(css@));
                    } else {
                        assert(css@ =~= Seq::<char>::empty());
                    }
                },
                Err(_) => {},
            }
            let result = if unknown.len() == 0 {
                new_name
            } else {
                let rest = join_strings(unknown.as_slice(), " ");
                cat3(new_name.as_str(), " ", rest.as_str())
            };
            ordered_map_insert(&mut self.class_map, trimmed, result.clone());
            Some(result)
        } else {
            if !can_name(self.naming.mode, tokens.as_slice()) {
                return None;
            }
            let new_name = self.naming.generate_name(tokens.as_slice());
            let ghost before = self.css();
            match self.bundler.bundle_to_css(new_name.as_str(), trimmed.as_str(), self.indent.as_str()) {
                Ok(css) => {
                    proof {
                        assert(is_bundle_css(cv, new_name@, trimmed@, self.indent@, css@));
                    }
                    if css.unicode_len() > 0 {
                        self.css_entries.push(css);
                        assert(self.css() =~= before.push(css@));
                    } else {
                        assert(css@ =~= Seq::<char>::empty());
                    }
                },
                Err(_) => {},
            }
            ordered_map_insert(&mut self.class_map, trimmed, new_name.clone());
            Some(new_name)
        }
    }

    /// The CSS of every class list, joined by newlines; with theme variables,
    /// the `:root` block of the theme variables it refers to comes first.
    pub fn combined_css(&self) -> (r: String)
        ensures
            is_combined_css(self.uses_variables(), self.css(), r@),
    {
        let css = join_strings(self.css_entries.as_slice(), "\n");
        if self.css_variables == CssVariableMode::Var && css.unicode_len() > 0 {
            let root = self.bundler.generate_root_css(css.as_str());
            if root.unicode_len() == 0 {
                css
            } else {
                cat3(root.as_str(), "\n", css.as_str())
            }
        } else {
            css
        }
    }

    /// The CSS of each new class list, in order.
    pub fn css_entries(&self) -> (r: &Vec<String>)
        ensures
            strings_view(r@) == self.css(),
    {
        &self.css_entries
    }

    /// The class lists seen and their names.
    pub fn class_map(&self) -> (r: &IndexMap<String, String>)
        ensures
            ordered_entries(*r) == self.names(),
    {
        &self.class_map
    }

    /// The class lists seen and their names, taken out of the collector.
    pub fn into_class_map(self) -> (r: IndexMap<String, String>)
        ensures
            ordered_entries(r) == self.names(),
    {
        self.class_map
    }
}

} // verus!
