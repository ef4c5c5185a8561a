//! The selector of a converted class: the escaped-free class name with its
//! modifiers applied in order.
use vstd::prelude::*;
use crate::parse::{
    modifiers_of_raw, modifiers_view, value_text, ClassModel, Modifier, ModifierKind, ParsedClass,
};
use crate::text::{after_prefix, cat2, cat3, is_prefix, owned, push_str, str_eq, strip_prefix};

verus! {

/// The class name without modifiers: `-` when negative, the plugin, `-` and
/// the value, `/` and the alpha.
pub open spec fn base_class(c: ClassModel) -> Seq<char> {
    (if c.negative { "-"@ } else { Seq::<char>::empty() }) + c.plugin + (match c.value {
        Some(v) => "-"@ + value_text(v),
        None => Seq::<char>::empty(),
    }) + (match c.alpha {
        Some(a) => "/"@ + a,
        None => Seq::<char>::empty(),
    })
}

/// The minimum width of a breakpoint; `0px` for other names.
pub open spec fn breakpoint_min_width(size: Seq<char>) -> Seq<char> {
    if size == "sm"@ {
        "640px"@
    } else if size == "md"@ {
        "768px"@
    } else if size == "lg"@ {
        "1024px"@
    } else if size == "xl"@ {
        "1280px"@
    } else if size == "2xl"@ {
        "1536px"@
    } else {
        "0px"@
    }
}

fn breakpoint_min_width_of(size: &str) -> (r: &'static str)
    ensures
        r@ == breakpoint_min_width(size@),
{
    if str_eq(size, "sm") {
        "640px"
    } else if str_eq(size, "md") {
        "768px"
    } else if str_eq(size, "lg") {
        "1024px"
    } else if str_eq(size, "xl") {
        "1280px"
    } else if str_eq(size, "2xl") {
        "1536px"
    } else {
        "0px"
    }
}

/// A selector with one modifier applied: a pseudo-class or custom modifier
/// after `:`, a pseudo-element after `::`, `dark`, `group-*` and `peer-*`
/// states as ancestors or siblings, and a breakpoint as a media query around it.
pub open spec fn modified_selector(sel: Seq<char>, m: (ModifierKind, Seq<char>)) -> Seq<char> {
    let name = m.1;
    match m.0 {
        ModifierKind::PseudoClass => sel + ":"@ + name,
        ModifierKind::PseudoElement => sel + "::"@ + name,
        ModifierKind::State => if name == "dark"@ {
            ".dark "@ + sel
        } else if is_prefix("group-"@, name) {
            ".group:"@ + after_prefix("group-"@, name) + " "@ + sel
        } else if is_prefix("peer-"@, name) {
            ".peer:"@ + after_prefix("peer-"@, name) + " ~ "@ + sel
        } else {
            sel
        },
        ModifierKind::Responsive => "@media (min-width: "@ + breakpoint_min_width(name) + ") { "@ + sel + " }"@,
        ModifierKind::Custom => sel + ":"@ + name,
    }
}

/// A selector with the modifiers applied in order.
pub open spec fn apply_modifiers(sel: Seq<char>, ms: Seq<(ModifierKind, Seq<char>)>) -> Seq<char>
    decreases ms.len(),
{
    if ms.len() == 0 {
        sel
    } else {
        modified_selector(apply_modifiers(sel, ms.drop_last()), ms.last())
    }
}

/// The selector of a class: `.` and its base name, with the modifiers of its
/// prefix applied in order.
pub open spec fn selector_text(c: ClassModel) -> Seq<char> {
    apply_modifiers("."@ + base_class(c), modifiers_of_raw(c.raw_modifiers))
}

fn build_base_class(parsed: &ParsedClass) -> (r: String)
    ensures
        r@ == base_class(parsed@),
{
    let mut class = String::new();
    if parsed.negative {
        class.push('-');
    }
    push_str(&mut class, parsed.plugin.as_str());
    if let Some(value) = &parsed.value {
        class.push('-');
        let t = value.to_string();
        push_str(&mut class, t.as_str());
    }
    if let Some(alpha) = &parsed.alpha {
        class.push('/');
        push_str(&mut class, alpha.as_str());
    }
    proof {
        reveal_strlit("-");
        reveal_strlit("/");
        assert(class@ =~= base_class(parsed@));
    }
    class
}

/// A selector with one modifier applied.
pub fn apply_modifier(selector: &str, modifier: &Modifier) -> (r: String)
    ensures
        r@ == modified_selector(selector@, modifier@),
{
    match modifier {
        Modifier::PseudoClass(name) => cat3(selector, ":", name.as_str()),
        Modifier::PseudoElement(name) => cat3(selector, "::", name.as_str()),
        Modifier::State(name) => {
            if str_eq(name.as_str(), "dark") {
                cat2(".dark ", selector)
            } else if let Some(g) = strip_prefix(name.as_str(), "group-") {
                let head = cat3(".group:", g, " ");
                cat2(head.as_str(), selector)
            } else if let Some(p) = strip_prefix(name.as_str(), "peer-") {
                let head = cat3(".peer:", p, " ~ ");
                cat2(head.as_str(), selector)
            } else {
                owned(selector)
            }
        },
        Modifier::Responsive(size) => {
            let head = cat3("@media (min-width: ", breakpoint_min_width_of(size.as_str()), ") { ");
            cat3(head.as_str(), selector, " }")
        },
        Modifier::Custom(name) => cat3(selector, ":", name.as_str()),
    }
}

/// The selector of a class, such as `.p-4:hover` for `hover:p-4`.
pub fn build_selector(parsed: &ParsedClass) -> (r: String)
    ensures
        r@ == selector_text(parsed@),
{
    let class_name = build_base_class(parsed);
    let mut selector = cat2(".", class_name.as_str());
    let modifiers = parsed.modifiers();
    let ghost ms = modifiers_view(modifiers@);
    let mut i: usize = 0;
    while i < modifiers.len()
        invariant
            i <= modifiers@.len(),
            ms == modifiers_view(modifiers@),
            ms == modifiers_of_raw(parsed.raw_modifiers@),
            selector@ == apply_modifiers("."@ + base_class(parsed@), ms.subrange(0, i as int)),
        decreases modifiers@.len() - i,
    {
        selector = apply_modifier(selector.as_str(), &modifiers[i]);
        assert(ms.subrange(0, i + 1).drop_last() =~= ms.subrange(0, i as int));
        i = i + 1;
    }
    assert(ms.subrange(0, modifiers@.len() as int) =~= ms);
    selector
}

} // verus!
