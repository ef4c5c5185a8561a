//! Plugins and the CSS properties that their values set.
use vstd::prelude::*;
use crate::text::opt_str_view;
use crate::text::str_eq;

verus! {

pub open spec fn opt_pair_view(r: Option<(&str, &str)>) -> Option<(Seq<char>, Seq<char>)> {
    match r {
        Some((a, b)) => Some((a@, b@)),
        None => None,
    }
}

/// The plugins that set a single CSS property, each with that property, such
/// as `w` with `width`.
pub open spec fn plugin_property_table() -> Seq<(Seq<char>, Seq<char>)> {
    seq![
        ("p"@, "padding"@),
        ("pt"@, "padding-top"@),
        ("pr"@, "padding-right"@),
        ("pb"@, "padding-bottom"@),
        ("pl"@, "padding-left"@),
        ("m"@, "margin"@),
        ("mt"@, "margin-top"@),
        ("mr"@, "margin-right"@),
        ("mb"@, "margin-bottom"@),
        ("ml"@, "margin-left"@),
        ("scroll-m"@, "scroll-margin"@),
        ("scroll-mt"@, "scroll-margin-top"@),
        ("scroll-mr"@, "scroll-margin-right"@),
        ("scroll-mb"@, "scroll-margin-bottom"@),
        ("scroll-ml"@, "scroll-margin-left"@),
        ("scroll-p"@, "scroll-padding"@),
        ("scroll-pt"@, "scroll-padding-top"@),
        ("scroll-pr"@, "scroll-padding-right"@),
        ("scroll-pb"@, "scroll-padding-bottom"@),
        ("scroll-pl"@, "scroll-padding-left"@),
        ("w"@, "width"@),
        ("h"@, "height"@),
        ("min-w"@, "min-width"@),
        ("min-h"@, "min-height"@),
        ("max-w"@, "max-width"@),
        ("max-h"@, "max-height"@),
        ("top"@, "top"@),
        ("right"@, "right"@),
        ("bottom"@, "bottom"@),
        ("left"@, "left"@),
        ("inset"@, "inset"@),
        ("font-size"@, "font-size"@),
        ("leading"@, "line-height"@),
        ("tracking"@, "letter-spacing"@),
        ("bg"@, "background"@),
        ("bg-color"@, "background-color"@),
        ("from"@, "--tw-gradient-from"@),
        ("via"@, "--tw-gradient-via"@),
        ("to"@, "--tw-gradient-to"@),
        ("border"@, "border-width"@),
        ("border-t"@, "border-top-width"@),
        ("border-r"@, "border-right-width"@),
        ("border-b"@, "border-bottom-width"@),
        ("border-l"@, "border-left-width"@),
        ("rounded"@, "border-radius"@),
        ("gap"@, "gap"@),
        ("gap-x"@, "column-gap"@),
        ("gap-y"@, "row-gap"@),
        ("grid-cols"@, "grid-template-columns"@),
        ("grid-rows"@, "grid-template-rows"@),
        ("col-span"@, "grid-column"@),
        ("row-span"@, "grid-row"@),
        ("justify"@, "justify-content"@),
        ("justify-items"@, "justify-items"@),
        ("justify-self"@, "justify-self"@),
        ("place-content"@, "place-content"@),
        ("place-items"@, "place-items"@),
        ("place-self"@, "place-self"@),
        ("align-content"@, "align-content"@),
        ("align-self"@, "align-self"@),
        ("overflow-x"@, "overflow-x"@),
        ("overflow-y"@, "overflow-y"@),
        ("object"@, "object-fit"@),
        ("opacity"@, "opacity"@),
        ("shadow"@, "box-shadow"@),
        ("translate"@, "translate"@),
        ("translate-x"@, "translate"@),
        ("translate-y"@, "translate"@),
        ("translate-z"@, "translate"@),
        ("rotate"@, "rotate"@),
        ("scale"@, "scale"@),
        ("scale-x"@, "scale"@),
        ("scale-y"@, "scale"@),
        ("blur"@, "filter"@),
        ("brightness"@, "filter"@),
        ("contrast"@, "filter"@),
        ("grayscale"@, "filter"@),
        ("duration"@, "transition-duration"@),
        ("delay"@, "transition-delay"@),
        ("align"@, "vertical-align"@),
        ("indent"@, "text-indent"@),
        ("whitespace"@, "white-space"@),
        ("hyphens"@, "hyphens"@),
        ("float"@, "float"@),
        ("clear"@, "clear"@),
        ("columns"@, "columns"@),
        ("basis"@, "flex-basis"@),
        ("accent"@, "accent-color"@),
        ("caret"@, "caret-color"@),
        ("fill"@, "fill"@),
        ("stroke"@, "stroke"@),
        ("appearance"@, "appearance"@),
        ("touch"@, "touch-action"@),
        ("backface"@, "backface-visibility"@),
        ("scroll"@, "scroll-behavior"@),
        ("overscroll"@, "overscroll-behavior"@),
        ("overscroll-x"@, "overscroll-behavior-x"@),
        ("overscroll-y"@, "overscroll-behavior-y"@),
        ("scheme"@, "color-scheme"@),
        ("auto-cols"@, "grid-auto-columns"@),
        ("auto-rows"@, "grid-auto-rows"@),
        ("grid-flow"@, "grid-auto-flow"@),
        ("col"@, "grid-column"@),
        ("col-start"@, "grid-column-start"@),
        ("col-end"@, "grid-column-end"@),
        ("row"@, "grid-row"@),
        ("row-start"@, "grid-row-start"@),
        ("row-end"@, "grid-row-end"@),
        ("origin"@, "transform-origin"@),
        ("perspective"@, "perspective"@),
        ("box-decoration"@, "box-decoration-break"@),
        ("break-before"@, "break-before"@),
        ("break-after"@, "break-after"@),
        ("break-inside"@, "break-inside"@),
        ("table"@, "table-layout"@),
        ("caption"@, "caption-side"@),
        ("ease"@, "transition-timing-function"@),
        ("will"@, "will-change"@),
        ("transition"@, "transition-behavior"@),
        ("z"@, "z-index"@),
        ("content"@, "content"@),
        ("aspect"@, "aspect-ratio"@),
        ("flex"@, "flex"@),
        ("grow"@, "flex-grow"@),
        ("shrink"@, "flex-shrink"@),
        ("transform"@, "transform"@),
        ("ring"@, "box-shadow"@),
        ("ring-offset"@, "box-shadow"@),
        ("order"@, "order"@),
        ("cursor"@, "cursor"@),
        ("pointer-events"@, "pointer-events"@),
        ("resize"@, "resize"@),
        ("select"@, "user-select"@),
        ("items"@, "align-items"@),
        ("self"@, "align-self"@),
        ("wrap"@, "overflow-wrap"@),
        ("field"@, "field-sizing"@),
        ("space-x"@, "column-gap"@),
        ("space-y"@, "row-gap"@),
        ("forced"@, "forced-color-adjust"@),
    ]
}

/// The value of the first entry of `t` under the key `k`.
pub open spec fn table_lookup(t: Seq<(Seq<char>, Seq<char>)>, k: Seq<char>) -> Option<Seq<char>>
    decreases t.len(),
{
    if t.len() == 0 {
        None
    } else if t[0].0 == k {
        Some(t[0].1)
    } else {
        table_lookup(t.drop_first(), k)
    }
}

/// The single CSS property that a plugin sets, such as `w` → `width`.
pub open spec fn plugin_property_spec(plugin: Seq<char>) -> Option<Seq<char>> {
    table_lookup(plugin_property_table(), plugin)
}

/// The plugins that set a single CSS property, each with that property.
pub fn get_plugin_property_map() -> (r: Vec<(&'static str, &'static str)>)
    ensures
        r@.map_values(|e: (&str, &str)| (e.0@, e.1@)) == plugin_property_table(),
{
    let table: Vec<(&'static str, &'static str)> = vec![
        ("p", "padding"),
        ("pt", "padding-top"),
        ("pr", "padding-right"),
        ("pb", "padding-bottom"),
        ("pl", "padding-left"),
        ("m", "margin"),
        ("mt", "margin-top"),
        ("mr", "margin-right"),
        ("mb", "margin-bottom"),
        ("ml", "margin-left"),
        ("scroll-m", "scroll-margin"),
        ("scroll-mt", "scroll-margin-top"),
        ("scroll-mr", "scroll-margin-right"),
        ("scroll-mb", "scroll-margin-bottom"),
        ("scroll-ml", "scroll-margin-left"),
        ("scroll-p", "scroll-padding"),
        ("scroll-pt", "scroll-padding-top"),
        ("scroll-pr", "scroll-padding-right"),
        ("scroll-pb", "scroll-padding-bottom"),
        ("scroll-pl", "scroll-padding-left"),
        ("w", "width"),
        ("h", "height"),
        ("min-w", "min-width"),
        ("min-h", "min-height"),
        ("max-w", "max-width"),
        ("max-h", "max-height"),
        ("top", "top"),
        ("right", "right"),
        ("bottom", "bottom"),
        ("left", "left"),
        ("inset", "inset"),
        ("font-size", "font-size"),
        ("leading", "line-height"),
        ("tracking", "letter-spacing"),
        ("bg", "background"),
        ("bg-color", "background-color"),
        ("from", "--tw-gradient-from"),
        ("via", "--tw-gradient-via"),
        ("to", "--tw-gradient-to"),
        ("border", "border-width"),
        ("border-t", "border-top-width"),
        ("border-r", "border-right-width"),
        ("border-b", "border-bottom-width"),
        ("border-l", "border-left-width"),
        ("rounded", "border-radius"),
        ("gap", "gap"),
        ("gap-x", "column-gap"),
        ("gap-y", "row-gap"),
        ("grid-cols", "grid-template-columns"),
        ("grid-rows", "grid-template-rows"),
        ("col-span", "grid-column"),
        ("row-span", "grid-row"),
        ("justify", "justify-content"),
        ("justify-items", "justify-items"),
        ("justify-self", "justify-self"),
        ("place-content", "place-content"),
        ("place-items", "place-items"),
        ("place-self", "place-self"),
        ("align-content", "align-content"),
        ("align-self", "align-self"),
        ("overflow-x", "overflow-x"),
        ("overflow-y", "overflow-y"),
        ("object", "object-fit"),
        ("opacity", "opacity"),
        ("shadow", "box-shadow"),
        ("translate", "translate"),
        ("translate-x", "translate"),
        ("translate-y", "translate"),
        ("translate-z", "translate"),
        ("rotate", "rotate"),
        ("scale", "scale"),
        ("scale-x", "scale"),
        ("scale-y", "scale"),
        ("blur", "filter"),
        ("brightness", "filter"),
        ("contrast", "filter"),
        ("grayscale", "filter"),
        ("duration", "transition-duration"),
        ("delay", "transition-delay"),
        ("align", "vertical-align"),
        ("indent", "text-indent"),
        ("whitespace", "white-space"),
        ("hyphens", "hyphens"),
        ("float", "float"),
        ("clear", "clear"),
        ("columns", "columns"),
        ("basis", "flex-basis"),
        ("accent", "accent-color"),
        ("caret", "caret-color"),
        ("fill", "fill"),
        ("stroke", "stroke"),
        ("appearance", "appearance"),
        ("touch", "touch-action"),
        ("backface", "backface-visibility"),
        ("scroll", "scroll-behavior"),
        ("overscroll", "overscroll-behavior"),
        ("overscroll-x", "overscroll-behavior-x"),
        ("overscroll-y", "overscroll-behavior-y"),
        ("scheme", "color-scheme"),
        ("auto-cols", "grid-auto-columns"),
        ("auto-rows", "grid-auto-rows"),
        ("grid-flow", "grid-auto-flow"),
        ("col", "grid-column"),
        ("col-start", "grid-column-start"),
        ("col-end", "grid-column-end"),
        ("row", "grid-row"),
        ("row-start", "grid-row-start"),
        ("row-end", "grid-row-end"),
        ("origin", "transform-origin"),
        ("perspective", "perspective"),
        ("box-decoration", "box-decoration-break"),
        ("break-before", "break-before"),
        ("break-after", "break-after"),
        ("break-inside", "break-inside"),
        ("table", "table-layout"),
        ("caption", "caption-side"),
        ("ease", "transition-timing-function"),
        ("will", "will-change"),
        ("transition", "transition-behavior"),
        ("z", "z-index"),
        ("content", "content"),
        ("aspect", "aspect-ratio"),
        ("flex", "flex"),
        ("grow", "flex-grow"),
        ("shrink", "flex-shrink"),
        ("transform", "transform"),
        ("ring", "box-shadow"),
        ("ring-offset", "box-shadow"),
        ("order", "order"),
        ("cursor", "cursor"),
        ("pointer-events", "pointer-events"),
        ("resize", "resize"),
        ("select", "user-select"),
        ("items", "align-items"),
        ("self", "align-self"),
        ("wrap", "overflow-wrap"),
        ("field", "field-sizing"),
        ("space-x", "column-gap"),
        ("space-y", "row-gap"),
        ("forced", "forced-color-adjust"),
    ];
    assert(table@.map_values(|e: (&str, &str)| (e.0@, e.1@)) =~= plugin_property_table());
    table
}

/// The single CSS property that a plugin sets.
pub fn plugin_property(plugin: &str) -> (r: Option<&'static str>)
    ensures
        opt_str_view(r) == plugin_property_spec(plugin@),
{
    let table = get_plugin_property_map();
    let ghost t = plugin_property_table();
    let mut i: usize = 0;
    assert(t.subrange(0, t.len() as int) =~= t);
    while i < table.len()
        invariant
            i <= table@.len(),
            t == table@.map_values(|e: (&str, &str)| (e.0@, e.1@)),
            t == plugin_property_table(),
            table_lookup(t, plugin@) == table_lookup(t.subrange(i as int, t.len() as int), plugin@),
        decreases table@.len() - i,
    {
        let (k, v) = table[i];
        let ghost rest = t.subrange(i as int, t.len() as int);
        assert(rest[0] == (k@, v@));
        assert(rest.drop_first() =~= t.subrange(i + 1, t.len() as int));
        if str_eq(k, plugin) {
            assert(table_lookup(rest, plugin@) == Some(v@));
            return Some(v);
        }
        i = i + 1;
    }
    assert(t.subrange(i as int, t.len() as int).len() == 0);
    None
}

/// The two CSS properties that a two-property plugin sets, such as `px` → `padding-left`, `padding-right`.
pub open spec fn plugin_pair_spec(plugin: Seq<char>) -> Option<(Seq<char>, Seq<char>)> {
    if plugin == "px"@ {
        Some(("padding-left"@, "padding-right"@))
    } else if plugin == "py"@ {
        Some(("padding-top"@, "padding-bottom"@))
    } else if plugin == "mx"@ {
        Some(("margin-left"@, "margin-right"@))
    } else if plugin == "my"@ {
        Some(("margin-top"@, "margin-bottom"@))
    } else if plugin == "inset-x"@ {
        Some(("left"@, "right"@))
    } else if plugin == "inset-y"@ {
        Some(("top"@, "bottom"@))
    } else if plugin == "rounded-t"@ {
        Some(("border-top-left-radius"@, "border-top-right-radius"@))
    } else if plugin == "rounded-r"@ {
        Some(("border-top-right-radius"@, "border-bottom-right-radius"@))
    } else if plugin == "rounded-b"@ {
        Some(("border-bottom-right-radius"@, "border-bottom-left-radius"@))
    } else if plugin == "rounded-l"@ {
        Some(("border-top-left-radius"@, "border-bottom-left-radius"@))
    } else if plugin == "scroll-mx"@ {
        Some(("scroll-margin-left"@, "scroll-margin-right"@))
    } else if plugin == "scroll-my"@ {
        Some(("scroll-margin-top"@, "scroll-margin-bottom"@))
    } else if plugin == "scroll-px"@ {
        Some(("scroll-padding-left"@, "scroll-padding-right"@))
    } else if plugin == "scroll-py"@ {
        Some(("scroll-padding-top"@, "scroll-padding-bottom"@))
    } else if plugin == "size"@ {
        Some(("width"@, "height"@))
    } else {
        None
    }
}

/// The two CSS properties that a two-property plugin sets.
pub fn plugin_pair(plugin: &str) -> (r: Option<(&'static str, &'static str)>)
    ensures
        opt_pair_view(r) == plugin_pair_spec(plugin@),
{
    if str_eq(plugin, "px") {
        Some(("padding-left", "padding-right"))
    } else if str_eq(plugin, "py") {
        Some(("padding-top", "padding-bottom"))
    } else if str_eq(plugin, "mx") {
        Some(("margin-left", "margin-right"))
    } else if str_eq(plugin, "my") {
        Some(("margin-top", "margin-bottom"))
    } else if str_eq(plugin, "inset-x") {
        Some(("left", "right"))
    } else if str_eq(plugin, "inset-y") {
        Some(("top", "bottom"))
    } else if str_eq(plugin, "rounded-t") {
        Some(("border-top-left-radius", "border-top-right-radius"))
    } else if str_eq(plugin, "rounded-r") {
        Some(("border-top-right-radius", "border-bottom-right-radius"))
    } else if str_eq(plugin, "rounded-b") {
        Some(("border-bottom-right-radius", "border-bottom-left-radius"))
    } else if str_eq(plugin, "rounded-l") {
        Some(("border-top-left-radius", "border-bottom-left-radius"))
    } else if str_eq(plugin, "scroll-mx") {
        Some(("scroll-margin-left", "scroll-margin-right"))
    } else if str_eq(plugin, "scroll-my") {
        Some(("scroll-margin-top", "scroll-margin-bottom"))
    } else if str_eq(plugin, "scroll-px") {
        Some(("scroll-padding-left", "scroll-padding-right"))
    } else if str_eq(plugin, "scroll-py") {
        Some(("scroll-padding-top", "scroll-padding-bottom"))
    } else if str_eq(plugin, "size") {
        Some(("width", "height"))
    } else {
        None
    }
}

/// The CSS properties of a plugin: two for a two-property plugin, else one.
pub open spec fn plugin_properties_spec(plugin: Seq<char>) -> Option<Seq<Seq<char>>> {
    match plugin_pair_spec(plugin) {
        Some((a, b)) => Some(seq![a, b]),
        None => match plugin_property_spec(plugin) {
            Some(p) => Some(seq![p]),
            None => None,
        },
    }
}

/// A known plugin sets two CSS properties when it is a two-property plugin, and
/// one otherwise; a plugin is known exactly when it sets some property.
pub proof fn law_plugin_properties_count(plugin: Seq<char>)
    ensures
        (plugin_properties_spec(plugin) is Some) == (plugin_pair_spec(plugin) is Some || plugin_property_spec(plugin) is Some),
        plugin_properties_spec(plugin) matches Some(ps) ==> ps.len() == (if plugin_pair_spec(plugin) is Some { 2int } else { 1int }),
{
}

/// Whether a plugin sets two CSS properties (such as `px`, `my` or `size`).
pub fn is_multi_declaration_plugin(plugin: &str) -> (r: bool)
    ensures
        r == (plugin_pair_spec(plugin@) is Some),
{
    plugin_pair(plugin).is_some()
}

/// The CSS properties of a plugin: both for `px`/`py`/`mx`/..., else the one it sets.
pub fn get_plugin_properties(plugin: &str) -> (r: Option<Vec<&'static str>>)
    ensures
        match r {
            Some(v) => plugin_properties_spec(plugin@) == Some(v@.map_values(|s: &str| s@)),
            None => plugin_properties_spec(plugin@) is None,
        },
{
    if let Some((a, b)) = plugin_pair(plugin) {
        let v: Vec<&'static str> = vec![a, b];
        assert(v@.map_values(|s: &str| s@) =~= seq![a@, b@]);
        Some(v)
    } else {
        match plugin_property(plugin) {
            Some(p) => {
                let v: Vec<&'static str> = vec![p];
                assert(v@.map_values(|s: &str| s@) =~= seq![p@]);
                Some(v)
            },
            None => None,
        }
    }
}

/// Whether a plugin sets one or two known CSS properties.
pub fn is_known_plugin(plugin: &str) -> (r: bool)
    ensures
        r == (plugin_properties_spec(plugin@) is Some),
{
    plugin_property(plugin).is_some() || plugin_pair(plugin).is_some()
}


// ── What the spacing plugins set ────────────────────────────────────────────

/// The value of the first entry under `k` is the one at `i` when no earlier
/// entry has the key `k`.
proof fn lemma_lookup_at(t: Seq<(Seq<char>, Seq<char>)>, k: Seq<char>, i: int)
    requires
        0 <= i < t.len(),
        t[i].0 == k,
        forall|j: int| 0 <= j < i ==> t[j].0 != k,
    ensures
        table_lookup(t, k) == Some(t[i].1),
    decreases i,
{
    if i > 0 {
        assert(t[0].0 != k);
        let u = t.drop_first();
        assert forall|j: int| 0 <= j < i - 1 implies u[j].0 != k by {
            assert(u[j] == t[j + 1]);
        }
        lemma_lookup_at(u, k, i - 1);
    }
}

/// The CSS property of a spacing plugin: `p` padding, `m` margin, `scroll-p`
/// scroll padding, `scroll-m` scroll margin.
pub open spec fn spacing_property(base: Seq<char>) -> Option<Seq<char>> {
    if base == "p"@ {
        Some("padding"@)
    } else if base == "m"@ {
        Some("margin"@)
    } else if base == "scroll-p"@ {
        Some("scroll-padding"@)
    } else if base == "scroll-m"@ {
        Some("scroll-margin"@)
    } else {
        None
    }
}

/// The side that a plugin's last letter names: `t` top, `r` right, `b`
/// bottom, `l` left.
pub open spec fn side_name(c: char) -> Option<Seq<char>> {
    if c == 't' {
        Some("top"@)
    } else if c == 'r' {
        Some("right"@)
    } else if c == 'b' {
        Some("bottom"@)
    } else if c == 'l' {
        Some("left"@)
    } else {
        None
    }
}

/// A spacing plugin sets its property, and the plugin with a side letter
/// after it sets that property on that side alone: `mr` sets `margin-right`,
/// `pt` sets `padding-top`, `scroll-ml` sets `scroll-margin-left`.
pub proof fn law_spacing_side_plugins(base: Seq<char>, c: char)
    requires
        spacing_property(base) is Some,
    ensures
        plugin_property_spec(base) == spacing_property(base),
        side_name(c) is Some ==> plugin_property_spec(base.push(c)) == Some(
            spacing_property(base)->0 + "-"@ + side_name(c)->0,
        ),
{
    let t = plugin_property_table();
    reveal_strlit("p");
    reveal_strlit("m");
    reveal_strlit("scroll-p");
    reveal_strlit("scroll-m");
    assert("m"@[0] != "p"@[0]);
    assert("scroll-m"@.len() != "p"@.len() && "scroll-m"@.len() != "m"@.len());
    assert("scroll-p"@.len() != "p"@.len() && "scroll-p"@.len() != "m"@.len() && "scroll-p"@[7] != "scroll-m"@[7]);
    if base == "p"@ {
        assert(table_lookup(t, "p"@) == Some("padding"@)) by {
            reveal_strlit("p");
            assert(t[0].0 == "p"@);
            assert(t[0].1 == "padding"@);
            assert forall|j: int| 0 <= j < 0 implies t[j].0 != "p"@ by {
            }
            lemma_lookup_at(t, "p"@, 0);
        }
        if c == 't' {
            assert(base.push(c) =~= "pt"@) by {
                reveal_strlit("p");
                reveal_strlit("pt");
            }
            assert(table_lookup(t, "pt"@) == Some("padding-top"@)) by {
                reveal_strlit("p");
                reveal_strlit("pt");
                assert(t[0].0 == "p"@);
                assert(t[1].0 == "pt"@);
                assert(t[1].1 == "padding-top"@);
                assert forall|j: int| 0 <= j < 1 implies t[j].0 != "pt"@ by {
                    if j == 0 {
                        assert("p"@.len() != "pt"@.len());
                    }
                }
                lemma_lookup_at(t, "pt"@, 1);
            }
            assert("padding-top"@ =~= "padding"@ + "-"@ + "top"@) by {
                reveal_strlit("padding-top");
                reveal_strlit("padding");
                reveal_strlit("-");
                reveal_strlit("top");
            }
        }
        if c == 'r' {
            assert(base.push(c) =~= "pr"@) by {
                reveal_strlit("p");
                reveal_strlit("pr");
            }
            assert(table_lookup(t, "pr"@) == Some("padding-right"@)) by {
                reveal_strlit("p");
                reveal_strlit("pt");
                reveal_strlit("pr");
                assert(t[0].0 == "p"@);
                assert(t[1].0 == "pt"@);
                assert(t[2].0 == "pr"@);
                assert(t[2].1 == "padding-right"@);
                assert forall|j: int| 0 <= j < 2 implies t[j].0 != "pr"@ by {
                    if j == 0 {
                        assert("p"@.len() != "pr"@.len());
                    } else if j == 1 {
                        assert("pt"@[1] != "pr"@[1]);
                    }
                }
                lemma_lookup_at(t, "pr"@, 2);
            }
            assert("padding-right"@ =~= "padding"@ + "-"@ + "right"@) by {
                reveal_strlit("padding-right");
                reveal_strlit("padding");
                reveal_strlit("-");
                reveal_strlit("right");
            }
        }
        if c == 'b' {
            assert(base.push(c) =~= "pb"@) by {
                reveal_strlit("p");
                reveal_strlit("pb");
            }
            assert(table_lookup(t, "pb"@) == Some("padding-bottom"@)) by {
                reveal_strlit("p");
                reveal_strlit("pt");
                reveal_strlit("pr");
                reveal_strlit("pb");
                assert(t[0].0 == "p"@);
                assert(t[1].0 == "pt"@);
                assert(t[2].0 == "pr"@);
                assert(t[3].0 == "pb"@);
                assert(t[3].1 == "padding-bottom"@);
                assert forall|j: int| 0 <= j < 3 implies t[j].0 != "pb"@ by {
                    if j == 0 {
                        assert("p"@.len() != "pb"@.len());
                    } else if j == 1 {
                        assert("pt"@[1] != "pb"@[1]);
                    } else if j == 2 {
                        assert("pr"@[1] != "pb"@[1]);
                    }
                }
                lemma_lookup_at(t, "pb"@, 3);
            }
            assert("padding-bottom"@ =~= "padding"@ + "-"@ + "bottom"@) by {
                reveal_strlit("padding-bottom");
                reveal_strlit("padding");
                reveal_strlit("-");
                reveal_strlit("bottom");
            }
        }
        if c == 'l' {
            assert(base.push(c) =~= "pl"@) by {
                reveal_strlit("p");
                reveal_strlit("pl");
            }
            assert(table_lookup(t, "pl"@) == Some("padding-left"@)) by {
                reveal_strlit("p");
                reveal_strlit("pt");
                reveal_strlit("pr");
                reveal_strlit("pb");
                reveal_strlit("pl");
                assert(t[0].0 == "p"@);
                assert(t[1].0 == "pt"@);
                assert(t[2].0 == "pr"@);
                assert(t[3].0 == "pb"@);
                assert(t[4].0 == "pl"@);
                assert(t[4].1 == "padding-left"@);
                assert forall|j: int| 0 <= j < 4 implies t[j].0 != "pl"@ by {
                    if j == 0 {
                        assert("p"@.len() != "pl"@.len());
                    } else if j == 1 {
                        assert("pt"@[1] != "pl"@[1]);
                    } else if j == 2 {
                        assert("pr"@[1] != "pl"@[1]);
                    } else if j == 3 {
                        assert("pb"@[1] != "pl"@[1]);
                    }
                }
                lemma_lookup_at(t, "pl"@, 4);
            }
            assert("padding-left"@ =~= "padding"@ + "-"@ + "left"@) by {
                reveal_strlit("padding-left");
                reveal_strlit("padding");
                reveal_strlit("-");
                reveal_strlit("left");
            }
        }
    } else if base == "m"@ {
        assert(table_lookup(t, "m"@) == Some("margin"@)) by {
            reveal_strlit("p");
            reveal_strlit("pt");
            reveal_strlit("pr");
            reveal_strlit("pb");
            reveal_strlit("pl");
            reveal_strlit("m");
            assert(t[0].0 == "p"@);
            assert(t[1].0 == "pt"@);
            assert(t[2].0 == "pr"@);
            assert(t[3].0 == "pb"@);
            assert(t[4].0 == "pl"@);
            assert(t[5].0 == "m"@);
            assert(t[5].1 == "margin"@);
            assert forall|j: int| 0 <= j < 5 implies t[j].0 != "m"@ by {
                if j == 0 {
                    assert("p"@[0] != "m"@[0]);
                } else if j == 1 {
                    assert("pt"@.len() != "m"@.len());
                } else if j == 2 {
                    assert("pr"@.len() != "m"@.len());
                } else if j == 3 {
                    assert("pb"@.len() != "m"@.len());
                } else if j == 4 {
                    assert("pl"@.len() != "m"@.len());
                }
            }
            lemma_lookup_at(t, "m"@, 5);
        }
        if c == 't' {
            assert(base.push(c) =~= "mt"@) by {
                reveal_strlit("m");
                reveal_strlit("mt");
            }
            assert(table_lookup(t, "mt"@) == Some("margin-top"@)) by {
                reveal_strlit("p");
                reveal_strlit("pt");
                reveal_strlit("pr");
                reveal_strlit("pb");
                reveal_strlit("pl");
                reveal_strlit("m");
                reveal_strlit("mt");
                assert(t[0].0 == "p"@);
                assert(t[1].0 == "pt"@);
                assert(t[2].0 == "pr"@);
                assert(t[3].0 == "pb"@);
                assert(t[4].0 == "pl"@);
                assert(t[5].0 == "m"@);
                assert(t[6].0 == "mt"@);
                assert(t[6].1 == "margin-top"@);
                assert forall|j: int| 0 <= j < 6 implies t[j].0 != "mt"@ by {
                    if j == 0 {
                        assert("p"@.len() != "mt"@.len());
                    } else if j == 1 {
                        assert("pt"@[0] != "mt"@[0]);
                    } else if j == 2 {
                        assert("pr"@[0] != "mt"@[0]);
                    } else if j == 3 {
                        assert("pb"@[0] != "mt"@[0]);
                    } else if j == 4 {
                        assert("pl"@[0] != "mt"@[0]);
                    } else if j == 5 {
                        assert("m"@.len() != "mt"@.len());
                    }
                }
                lemma_lookup_at(t, "mt"@, 6);
            }
            assert("margin-top"@ =~= "margin"@ + "-"@ + "top"@) by {
                reveal_strlit("margin-top");
                reveal_strlit("margin");
                reveal_strlit("-");
                reveal_strlit("top");
            }
        }
        if c == 'r' {
            assert(base.push(c) =~= "mr"@) by {
                reveal_strlit("m");
                reveal_strlit("mr");
            }
            assert(table_lookup(t, "mr"@) == Some("margin-right"@)) by {
                reveal_strlit("p");
                reveal_strlit("pt");
                reveal_strlit("pr");
                reveal_strlit("pb");
                reveal_strlit("pl");
                reveal_strlit("m");
                reveal_strlit("mt");
                reveal_strlit("mr");
                assert(t[0].0 == "p"@);
                assert(t[1].0 == "pt"@);
                assert(t[2].0 == "pr"@);
                assert(t[3].0 == "pb"@);
                assert(t[4].0 == "pl"@);
                assert(t[5].0 == "m"@);
                assert(t[6].0 == "mt"@);
                assert(t[7].0 == "mr"@);
                assert(t[7].1 == "margin-right"@);
                assert forall|j: int| 0 <= j < 7 implies t[j].0 != "mr"@ by {
                    if j == 0 {
                        assert("p"@.len() != "mr"@.len());
                    } else if j == 1 {
                        assert("pt"@[0] != "mr"@[0]);
                    } else if j == 2 {
                        assert("pr"@[0] != "mr"@[0]);
                    } else if j == 3 {
                        assert("pb"@[0] != "mr"@[0]);
                    } else if j == 4 {
                        assert("pl"@[0] != "mr"@[0]);
                    } else if j == 5 {
                        assert("m"@.len() != "mr"@.len());
                    } else if j == 6 {
                        assert("mt"@[1] != "mr"@[1]);
                    }
                }
                lemma_lookup_at(t, "mr"@, 7);
            }
            assert("margin-right"@ =~= "margin"@ + "-"@ + "right"@) by {
                reveal_strlit("margin-right");
                reveal_strlit("margin");
                reveal_strlit("-");
                reveal_strlit("right");
            }
        }
        if c == 'b' {
            assert(base.push(c) =~= "mb"@) by {
                reveal_strlit("m");
                reveal_strlit("mb");
            }
            assert(table_lookup(t, "mb"@) == Some("margin-bottom"@)) by {
                reveal_strlit("p");
                reveal_strlit("pt");
                reveal_strlit("pr");
                reveal_strlit("pb");
                reveal_strlit("pl");
                reveal_strlit("m");
                reveal_strlit("mt");
                reveal_strlit("mr");
                reveal_strlit("mb");
                assert(t[0].0 == "p"@);
                assert(t[1].0 == "pt"@);
                assert(t[2].0 == "pr"@);
                assert(t[3].0 == "pb"@);
                assert(t[4].0 == "pl"@);
                assert(t[5].0 == "m"@);
                assert(t[6].0 == "mt"@);
                assert(t[7].0 == "mr"@);
                assert(t[8].0 == "mb"@);
                assert(t[8].1 == "margin-bottom"@);
                assert forall|j: int| 0 <= j < 8 implies t[j].0 != "mb"@ by {
                    if j == 0 {
                        assert("p"@.len() != "mb"@.len());
                    } else if j == 1 {
                        assert("pt"@[0] != "mb"@[0]);
                    } else if j == 2 {
                        assert("pr"@[0] != "mb"@[0]);
                    } else if j == 3 {
                        assert("pb"@[0] != "mb"@[0]);
                    } else if j == 4 {
                        assert("pl"@[0] != "mb"@[0]);
                    } else if j == 5 {
                        assert("m"@.len() != "mb"@.len());
                    } else if j == 6 {
                        assert("mt"@[1] != "mb"@[1]);
                    } else if j == 7 {
                        assert("mr"@[1] != "mb"@[1]);
                    }
                }
                lemma_lookup_at(t, "mb"@, 8);
            }
            assert("margin-bottom"@ =~= "margin"@ + "-"@ + "bottom"@) by {
                reveal_strlit("margin-bottom");
                reveal_strlit("margin");
                reveal_strlit("-");
                reveal_strlit("bottom");
            }
        }
        if c == 'l' {
            assert(base.push(c) =~= "ml"@) by {
                reveal_strlit("m");
                reveal_strlit("ml");
            }
            assert(table_lookup(t, "ml"@) == Some("margin-left"@)) by {
                reveal_strlit("p");
                reveal_strlit("pt");
                reveal_strlit("pr");
                reveal_strlit("pb");
                reveal_strlit("pl");
                reveal_strlit("m");
                reveal_strlit("mt");
                reveal_strlit("mr");
                reveal_strlit("mb");
                reveal_strlit("ml");
                assert(t[0].0 == "p"@);
                assert(t[1].0 == "pt"@);
                assert(t[2].0 == "pr"@);
                assert(t[3].0 == "pb"@);
                assert(t[4].0 == "pl"@);
                assert(t[5].0 == "m"@);
                assert(t[6].0 == "mt"@);
                assert(t[7].0 == "mr"@);
                assert(t[8].0 == "mb"@);
                assert(t[9].0 == "ml"@);
                assert(t[9].1 == "margin-left"@);
                assert forall|j: int| 0 <= j < 9 implies t[j].0 != "ml"@ by {
                    if j == 0 {
                        assert("p"@.len() != "ml"@.len());
                    } else if j == 1 {
                        assert("pt"@[0] != "ml"@[0]);
                    } else if j == 2 {
                        assert("pr"@[0] != "ml"@[0]);
                    } else if j == 3 {
                        assert("pb"@[0] != "ml"@[0]);
                    } else if j == 4 {
                        assert("pl"@[0] != "ml"@[0]);
                    } else if j == 5 {
                        assert("m"@.len() != "ml"@.len());
                    } else if j == 6 {
                        assert("mt"@[1] != "ml"@[1]);
                    } else if j == 7 {
                        assert("mr"@[1] != "ml"@[1]);
                    } else if j == 8 {
                        assert("mb"@[1] != "ml"@[1]);
                    }
                }
                lemma_lookup_at(t, "ml"@, 9);
            }
            assert("margin-left"@ =~= "margin"@ + "-"@ + "left"@) by {
                reveal_strlit("margin-left");
                reveal_strlit("margin");
                reveal_strlit("-");
                reveal_strlit("left");
            }
        }
    } else if base == "scroll-m"@ {
        assert(table_lookup(t, "scroll-m"@) == Some("scroll-margin"@)) by {
            reveal_strlit("p");
            reveal_strlit("pt");
            reveal_strlit("pr");
            reveal_strlit("pb");
            reveal_strlit("pl");
            reveal_strlit("m");
            reveal_strlit("mt");
            reveal_strlit("mr");
            reveal_strlit("mb");
            reveal_strlit("ml");
            reveal_strlit("scroll-m");
            assert(t[0].0 == "p"@);
            assert(t[1].0 == "pt"@);
            assert(t[2].0 == "pr"@);
            assert(t[3].0 == "pb"@);
            assert(t[4].0 == "pl"@);
            assert(t[5].0 == "m"@);
            assert(t[6].0 == "mt"@);
            assert(t[7].0 == "mr"@);
            assert(t[8].0 == "mb"@);
            assert(t[9].0 == "ml"@);
            assert(t[10].0 == "scroll-m"@);
            assert(t[10].1 == "scroll-margin"@);
            assert forall|j: int| 0 <= j < 10 implies t[j].0 != "scroll-m"@ by {
                if j == 0 {
                    assert("p"@.len() != "scroll-m"@.len());
                } else if j == 1 {
                    assert("pt"@.len() != "scroll-m"@.len());
                } else if j == 2 {
                    assert("pr"@.len() != "scroll-m"@.len());
                } else if j == 3 {
                    assert("pb"@.len() != "scroll-m"@.len());
                } else if j == 4 {
                    assert("pl"@.len() != "scroll-m"@.len());
                } else if j == 5 {
                    assert("m"@.len() != "scroll-m"@.len());
                } else if j == 6 {
                    assert("mt"@.len() != "scroll-m"@.len());
                } else if j == 7 {
                    assert("mr"@.len() != "scroll-m"@.len());
                } else if j == 8 {
                    assert("mb"@.len() != "scroll-m"@.len());
                } else if j == 9 {
                    assert("ml"@.len() != "scroll-m"@.len());
                }
            }
            lemma_lookup_at(t, "scroll-m"@, 10);
        }
        if c == 't' {
            assert(base.push(c) =~= "scroll-mt"@) by {
                reveal_strlit("scroll-m");
                reveal_strlit("scroll-mt");
            }
            assert(table_lookup(t, "scroll-mt"@) == Some("scroll-margin-top"@)) by {
                reveal_strlit("p");
                reveal_strlit("pt");
                reveal_strlit("pr");
                reveal_strlit("pb");
                reveal_strlit("pl");
                reveal_strlit("m");
                reveal_strlit("mt");
                reveal_strlit("mr");
                reveal_strlit("mb");
                reveal_strlit("ml");
                reveal_strlit("scroll-m");
                reveal_strlit("scroll-mt");
                assert(t[0].0 == "p"@);
                assert(t[1].0 == "pt"@);
                assert(t[2].0 == "pr"@);
                assert(t[3].0 == "pb"@);
                assert(t[4].0 == "pl"@);
                assert(t[5].0 == "m"@);
                assert(t[6].0 == "mt"@);
                assert(t[7].0 == "mr"@);
                assert(t[8].0 == "mb"@);
                assert(t[9].0 == "ml"@);
                assert(t[10].0 == "scroll-m"@);
                assert(t[11].0 == "scroll-mt"@);
                assert(t[11].1 == "scroll-margin-top"@);
                assert forall|j: int| 0 <= j < 11 implies t[j].0 != "scroll-mt"@ by {
                    if j == 0 {
                        assert("p"@.len() != "scroll-mt"@.len());
                    } else if j == 1 {
                        assert("pt"@.len() != "scroll-mt"@.len());
                    } else if j == 2 {
                        assert("pr"@.len() != "scroll-mt"@.len());
                    } else if j == 3 {
                        assert("pb"@.len() != "scroll-mt"@.len());
                    } else if j == 4 {
                        assert("pl"@.len() != "scroll-mt"@.len());
                    } else if j == 5 {
                        assert("m"@.len() != "scroll-mt"@.len());
                    } else if j == 6 {
                        assert("mt"@.len() != "scroll-mt"@.len());
                    } else if j == 7 {
                        assert("mr"@.len() != "scroll-mt"@.len());
                    } else if j == 8 {
                        assert("mb"@.len() != "scroll-mt"@.len());
                    } else if j == 9 {
                        assert("ml"@.len() != "scroll-mt"@.len());
                    } else if j == 10 {
                        assert("scroll-m"@.len() != "scroll-mt"@.len());
                    }
                }
                lemma_lookup_at(t, "scroll-mt"@, 11);
            }
            assert("scroll-margin-top"@ =~= "scroll-margin"@ + "-"@ + "top"@) by {
                reveal_strlit("scroll-margin-top");
                reveal_strlit("scroll-margin");
                reveal_strlit("-");
                reveal_strlit("top");
            }
        }
        if c == 'r' {
            assert(base.push(c) =~= "scroll-mr"@) by {
                reveal_strlit("scroll-m");
                reveal_strlit("scroll-mr");
            }
            assert(table_lookup(t, "scroll-mr"@) == Some("scroll-margin-right"@)) by {
                reveal_strlit("p");
                reveal_strlit("pt");
                reveal_strlit("pr");
                reveal_strlit("pb");
                reveal_strlit("pl");
                reveal_strlit("m");
                reveal_strlit("mt");
                reveal_strlit("mr");
                reveal_strlit("mb");
                reveal_strlit("ml");
                reveal_strlit("scroll-m");
                reveal_strlit("scroll-mt");
                reveal_strlit("scroll-mr");
                assert(t[0].0 == "p"@);
                assert(t[1].0 == "pt"@);
                assert(t[2].0 == "pr"@);
                assert(t[3].0 == "pb"@);
                assert(t[4].0 == "pl"@);
                assert(t[5].0 == "m"@);
                assert(t[6].0 == "mt"@);
                assert(t[7].0 == "mr"@);
                assert(t[8].0 == "mb"@);
                assert(t[9].0 == "ml"@);
                assert(t[10].0 == "scroll-m"@);
                assert(t[11].0 == "scroll-mt"@);
                assert(t[12].0 == "scroll-mr"@);
                assert(t[12].1 == "scroll-margin-right"@);
                assert forall|j: int| 0 <= j < 12 implies t[j].0 != "scroll-mr"@ by {
                    if j == 0 {
                        assert("p"@.len() != "scroll-mr"@.len());
                    } else if j == 1 {
                        assert("pt"@.len() != "scroll-mr"@.len());
                    } else if j == 2 {
                        assert("pr"@.len() != "scroll-mr"@.len());
                    } else if j == 3 {
                        assert("pb"@.len() != "scroll-mr"@.len());
                    } else if j == 4 {
                        assert("pl"@.len() != "scroll-mr"@.len());
                    } else if j == 5 {
                        assert("m"@.len() != "scroll-mr"@.len());
                    } else if j == 6 {
                        assert("mt"@.len() != "scroll-mr"@.len());
                    } else if j == 7 {
                        assert("mr"@.len() != "scroll-mr"@.len());
                    } else if j == 8 {
                        assert("mb"@.len() != "scroll-mr"@.len());
                    } else if j == 9 {
                        assert("ml"@.len() != "scroll-mr"@.len());
                    } else if j == 10 {
                        assert("scroll-m"@.len() != "scroll-mr"@.len());
                    } else if j == 11 {
                        assert("scroll-mt"@[8] != "scroll-mr"@[8]);
                    }
                }
                lemma_lookup_at(t, "scroll-mr"@, 12);
            }
            assert("scroll-margin-right"@ =~= "scroll-margin"@ + "-"@ + "right"@) by {
                reveal_strlit("scroll-margin-right");
                reveal_strlit("scroll-margin");
                reveal_strlit("-");
                reveal_strlit("right");
            }
        }
        if c == 'b' {
            assert(base.push(c) =~= "scroll-mb"@) by {
                reveal_strlit("scroll-m");
                reveal_strlit("scroll-mb");
            }
            assert(table_lookup(t, "scroll-mb"@) == Some("scroll-margin-bottom"@)) by {
                reveal_strlit("p");
                reveal_strlit("pt");
                reveal_strlit("pr");
                reveal_strlit("pb");
                reveal_strlit("pl");
                reveal_strlit("m");
                reveal_strlit("mt");
                reveal_strlit("mr");
                reveal_strlit("mb");
                reveal_strlit("ml");
                reveal_strlit("scroll-m");
                reveal_strlit("scroll-mt");
                reveal_strlit("scroll-mr");
                reveal_strlit("scroll-mb");
                assert(t[0].0 == "p"@);
                assert(t[1].0 == "pt"@);
                assert(t[2].0 == "pr"@);
                assert(t[3].0 == "pb"@);
                assert(t[4].0 == "pl"@);
                assert(t[5].0 == "m"@);
                assert(t[6].0 == "mt"@);
                assert(t[7].0 == "mr"@);
                assert(t[8].0 == "mb"@);
                assert(t[9].0 == "ml"@);
                assert(t[10].0 == "scroll-m"@);
                assert(t[11].0 == "scroll-mt"@);
                assert(t[12].0 == "scroll-mr"@);
                assert(t[13].0 == "scroll-mb"@);
                assert(t[13].1 == "scroll-margin-bottom"@);
                assert forall|j: int| 0 <= j < 13 implies t[j].0 != "scroll-mb"@ by {
                    if j == 0 {
                        assert("p"@.len() != "scroll-mb"@.len());
                    } else if j == 1 {
                        assert("pt"@.len() != "scroll-mb"@.len());
                    } else if j == 2 {
                        assert("pr"@.len() != "scroll-mb"@.len());
                    } else if j == 3 {
                        assert("pb"@.len() != "scroll-mb"@.len());
                    } else if j == 4 {
                        assert("pl"@.len() != "scroll-mb"@.len());
                    } else if j == 5 {
                        assert("m"@.len() != "scroll-mb"@.len());
                    } else if j == 6 {
                        assert("mt"@.len() != "scroll-mb"@.len());
                    } else if j == 7 {
                        assert("mr"@.len() != "scroll-mb"@.len());
                    } else if j == 8 {
                        assert("mb"@.len() != "scroll-mb"@.len());
                    } else if j == 9 {
                        assert("ml"@.len() != "scroll-mb"@.len());
                    } else if j == 10 {
                        assert("scroll-m"@.len() != "scroll-mb"@.len());
                    } else if j == 11 {
                        assert("scroll-mt"@[8] != "scroll-mb"@[8]);
                    } else if j == 12 {
                        assert("scroll-mr"@[8] != "scroll-mb"@[8]);
                    }
                }
                lemma_lookup_at(t, "scroll-mb"@, 13);
            }
            assert("scroll-margin-bottom"@ =~= "scroll-margin"@ + "-"@ + "bottom"@) by {
                reveal_strlit("scroll-margin-bottom");
                reveal_strlit("scroll-margin");
                reveal_strlit("-");
                reveal_strlit("bottom");
            }
        }
        if c == 'l' {
            assert(base.push(c) =~= "scroll-ml"@) by {
                reveal_strlit("scroll-m");
                reveal_strlit("scroll-ml");
            }
            assert(table_lookup(t, "scroll-ml"@) == Some("scroll-margin-left"@)) by {
                reveal_strlit("p");
                reveal_strlit("pt");
                reveal_strlit("pr");
                reveal_strlit("pb");
                reveal_strlit("pl");
                reveal_strlit("m");
                reveal_strlit("mt");
                reveal_strlit("mr");
                reveal_strlit("mb");
                reveal_strlit("ml");
                reveal_strlit("scroll-m");
                reveal_strlit("scroll-mt");
                reveal_strlit("scroll-mr");
                reveal_strlit("scroll-mb");
                reveal_strlit("scroll-ml");
                assert(t[0].0 == "p"@);
                assert(t[1].0 == "pt"@);
                assert(t[2].0 == "pr"@);
                assert(t[3].0 == "pb"@);
                assert(t[4].0 == "pl"@);
                assert(t[5].0 == "m"@);
                assert(t[6].0 == "mt"@);
                assert(t[7].0 == "mr"@);
                assert(t[8].0 == "mb"@);
                assert(t[9].0 == "ml"@);
                assert(t[10].0 == "scroll-m"@);
                assert(t[11].0 == "scroll-mt"@);
                assert(t[12].0 == "scroll-mr"@);
                assert(t[13].0 == "scroll-mb"@);
                assert(t[14].0 == "scroll-ml"@);
                assert(t[14].1 == "scroll-margin-left"@);
                assert forall|j: int| 0 <= j < 14 implies t[j].0 != "scroll-ml"@ by {
                    if j == 0 {
                        assert("p"@.len() != "scroll-ml"@.len());
                    } else if j == 1 {
                        assert("pt"@.len() != "scroll-ml"@.len());
                    } else if j == 2 {
                        assert("pr"@.len() != "scroll-ml"@.len());
                    } else if j == 3 {
                        assert("pb"@.len() != "scroll-ml"@.len());
                    } else if j == 4 {
                        assert("pl"@.len() != "scroll-ml"@.len());
                    } else if j == 5 {
                        assert("m"@.len() != "scroll-ml"@.len());
                    } else if j == 6 {
                        assert("mt"@.len() != "scroll-ml"@.len());
                    } else if j == 7 {
                        assert("mr"@.len() != "scroll-ml"@.len());
                    } else if j == 8 {
                        assert("mb"@.len() != "scroll-ml"@.len());
                    } else if j == 9 {
                        assert("ml"@.len() != "scroll-ml"@.len());
                    } else if j == 10 {
                        assert("scroll-m"@.len() != "scroll-ml"@.len());
                    } else if j == 11 {
                        assert("scroll-mt"@[8] != "scroll-ml"@[8]);
                    } else if j == 12 {
                        assert("scroll-mr"@[8] != "scroll-ml"@[8]);
                    } else if j == 13 {
                        assert("scroll-mb"@[8] != "scroll-ml"@[8]);
                    }
                }
                lemma_lookup_at(t, "scroll-ml"@, 14);
            }
            assert("scroll-margin-left"@ =~= "scroll-margin"@ + "-"@ + "left"@) by {
                reveal_strlit("scroll-margin-left");
                reveal_strlit("scroll-margin");
                reveal_strlit("-");
                reveal_strlit("left");
            }
        }
    } else if base == "scroll-p"@ {
        assert(table_lookup(t, "scroll-p"@) == Some("scroll-padding"@)) by {
            reveal_strlit("p");
            reveal_strlit("pt");
            reveal_strlit("pr");
            reveal_strlit("pb");
            reveal_strlit("pl");
            reveal_strlit("m");
            reveal_strlit("mt");
            reveal_strlit("mr");
            reveal_strlit("mb");
            reveal_strlit("ml");
            reveal_strlit("scroll-m");
            reveal_strlit("scroll-mt");
            reveal_strlit("scroll-mr");
            reveal_strlit("scroll-mb");
            reveal_strlit("scroll-ml");
            reveal_strlit("scroll-p");
            assert(t[0].0 == "p"@);
            assert(t[1].0 == "pt"@);
            assert(t[2].0 == "pr"@);
            assert(t[3].0 == "pb"@);
            assert(t[4].0 == "pl"@);
            assert(t[5].0 == "m"@);
            assert(t[6].0 == "mt"@);
            assert(t[7].0 == "mr"@);
            assert(t[8].0 == "mb"@);
            assert(t[9].0 == "ml"@);
            assert(t[10].0 == "scroll-m"@);
            assert(t[11].0 == "scroll-mt"@);
            assert(t[12].0 == "scroll-mr"@);
            assert(t[13].0 == "scroll-mb"@);
            assert(t[14].0 == "scroll-ml"@);
            assert(t[15].0 == "scroll-p"@);
            assert(t[15].1 == "scroll-padding"@);
            assert forall|j: int| 0 <= j < 15 implies t[j].0 != "scroll-p"@ by {
                if j == 0 {
                    assert("p"@.len() != "scroll-p"@.len());
                } else if j == 1 {
                    assert("pt"@.len() != "scroll-p"@.len());
                } else if j == 2 {
                    assert("pr"@.len() != "scroll-p"@.len());
                } else if j == 3 {
                    assert("pb"@.len() != "scroll-p"@.len());
                } else if j == 4 {
                    assert("pl"@.len() != "scroll-p"@.len());
                } else if j == 5 {
                    assert("m"@.len() != "scroll-p"@.len());
                } else if j == 6 {
                    assert("mt"@.len() != "scroll-p"@.len());
                } else if j == 7 {
                    assert("mr"@.len() != "scroll-p"@.len());
                } else if j == 8 {
                    assert("mb"@.len() != "scroll-p"@.len());
                } else if j == 9 {
                    assert("ml"@.len() != "scroll-p"@.len());
                } else if j == 10 {
                    assert("scroll-m"@[7] != "scroll-p"@[7]);
                } else if j == 11 {
                    assert("scroll-mt"@.len() != "scroll-p"@.len());
                } else if j == 12 {
                    assert("scroll-mr"@.len() != "scroll-p"@.len());
                } else if j == 13 {
                    assert("scroll-mb"@.len() != "scroll-p"@.len());
                } else if j == 14 {
                    assert("scroll-ml"@.len() != "scroll-p"@.len());
                }
            }
            lemma_lookup_at(t, "scroll-p"@, 15);
        }
        if c == 't' {
            assert(base.push(c) =~= "scroll-pt"@) by {
                reveal_strlit("scroll-p");
                reveal_strlit("scroll-pt");
            }
            assert(table_lookup(t, "scroll-pt"@) == Some("scroll-padding-top"@)) by {
                reveal_strlit("p");
                reveal_strlit("pt");
                reveal_strlit("pr");
                reveal_strlit("pb");
                reveal_strlit("pl");
                reveal_strlit("m");
                reveal_strlit("mt");
                reveal_strlit("mr");
                reveal_strlit("mb");
                reveal_strlit("ml");
                reveal_strlit("scroll-m");
                reveal_strlit("scroll-mt");
                reveal_strlit("scroll-mr");
                reveal_strlit("scroll-mb");
                reveal_strlit("scroll-ml");
                reveal_strlit("scroll-p");
                reveal_strlit("scroll-pt");
                assert(t[0].0 == "p"@);
                assert(t[1].0 == "pt"@);
                assert(t[2].0 == "pr"@);
                assert(t[3].0 == "pb"@);
                assert(t[4].0 == "pl"@);
                assert(t[5].0 == "m"@);
                assert(t[6].0 == "mt"@);
                assert(t[7].0 == "mr"@);
                assert(t[8].0 == "mb"@);
                assert(t[9].0 == "ml"@);
                assert(t[10].0 == "scroll-m"@);
                assert(t[11].0 == "scroll-mt"@);
                assert(t[12].0 == "scroll-mr"@);
                assert(t[13].0 == "scroll-mb"@);
                assert(t[14].0 == "scroll-ml"@);
                assert(t[15].0 == "scroll-p"@);
                assert(t[16].0 == "scroll-pt"@);
                assert(t[16].1 == "scroll-padding-top"@);
                assert forall|j: int| 0 <= j < 16 implies t[j].0 != "scroll-pt"@ by {
                    if j == 0 {
                        assert("p"@.len() != "scroll-pt"@.len());
                    } else if j == 1 {
                        assert("pt"@.len() != "scroll-pt"@.len());
                    } else if j == 2 {
                        assert("pr"@.len() != "scroll-pt"@.len());
                    } else if j == 3 {
                        assert("pb"@.len() != "scroll-pt"@.len());
                    } else if j == 4 {
                        assert("pl"@.len() != "scroll-pt"@.len());
                    } else if j == 5 {
                        assert("m"@.len() != "scroll-pt"@.len());
                    } else if j == 6 {
                        assert("mt"@.len() != "scroll-pt"@.len());
                    } else if j == 7 {
                        assert("mr"@.len() != "scroll-pt"@.len());
                    } else if j == 8 {
                        assert("mb"@.len() != "scroll-pt"@.len());
                    } else if j == 9 {
                        assert("ml"@.len() != "scroll-pt"@.len());
                    } else if j == 10 {
                        assert("scroll-m"@.len() != "scroll-pt"@.len());
                    } else if j == 11 {
                        assert("scroll-mt"@[7] != "scroll-pt"@[7]);
                    } else if j == 12 {
                        assert("scroll-mr"@[7] != "scroll-pt"@[7]);
                    } else if j == 13 {
                        assert("scroll-mb"@[7] != "scroll-pt"@[7]);
                    } else if j == 14 {
                        assert("scroll-ml"@[7] != "scroll-pt"@[7]);
                    } else if j == 15 {
                        assert("scroll-p"@.len() != "scroll-pt"@.len());
                    }
                }
                lemma_lookup_at(t, "scroll-pt"@, 16);
            }
            assert("scroll-padding-top"@ =~= "scroll-padding"@ + "-"@ + "top"@) by {
                reveal_strlit("scroll-padding-top");
                reveal_strlit("scroll-padding");
                reveal_strlit("-");
                reveal_strlit("top");
            }
        }
        if c == 'r' {
            assert(base.push(c) =~= "scroll-pr"@) by {
                reveal_strlit("scroll-p");
                reveal_strlit("scroll-pr");
            }
            assert(table_lookup(t, "scroll-pr"@) == Some("scroll-padding-right"@)) by {
                reveal_strlit("p");
                reveal_strlit("pt");
                reveal_strlit("pr");
                reveal_strlit("pb");
                reveal_strlit("pl");
                reveal_strlit("m");
                reveal_strlit("mt");
                reveal_strlit("mr");
                reveal_strlit("mb");
                reveal_strlit("ml");
                reveal_strlit("scroll-m");
                reveal_strlit("scroll-mt");
                reveal_strlit("scroll-mr");
                reveal_strlit("scroll-mb");
                reveal_strlit("scroll-ml");
                reveal_strlit("scroll-p");
                reveal_strlit("scroll-pt");
                reveal_strlit("scroll-pr");
                assert(t[0].0 == "p"@);
                assert(t[1].0 == "pt"@);
                assert(t[2].0 == "pr"@);
                assert(t[3].0 == "pb"@);
                assert(t[4].0 == "pl"@);
                assert(t[5].0 == "m"@);
                assert(t[6].0 == "mt"@);
                assert(t[7].0 == "mr"@);
                assert(t[8].0 == "mb"@);
                assert(t[9].0 == "ml"@);
                assert(t[10].0 == "scroll-m"@);
                assert(t[11].0 == "scroll-mt"@);
                assert(t[12].0 == "scroll-mr"@);
                assert(t[13].0 == "scroll-mb"@);
                assert(t[14].0 == "scroll-ml"@);
                assert(t[15].0 == "scroll-p"@);
                assert(t[16].0 == "scroll-pt"@);
                assert(t[17].0 == "scroll-pr"@);
                assert(t[17].1 == "scroll-padding-right"@);
                assert forall|j: int| 0 <= j < 17 implies t[j].0 != "scroll-pr"@ by {
                    if j == 0 {
                        assert("p"@.len() != "scroll-pr"@.len());
                    } else if j == 1 {
                        assert("pt"@.len() != "scroll-pr"@.len());
                    } else if j == 2 {
                        assert("pr"@.len() != "scroll-pr"@.len());
                    } else if j == 3 {
                        assert("pb"@.len() != "scroll-pr"@.len());
                    } else if j == 4 {
                        assert("pl"@.len() != "scroll-pr"@.len());
                    } else if j == 5 {
                        assert("m"@.len() != "scroll-pr"@.len());
                    } else if j == 6 {
                        assert("mt"@.len() != "scroll-pr"@.len());
                    } else if j == 7 {
                        assert("mr"@.len() != "scroll-pr"@.len());
                    } else if j == 8 {
                        assert("mb"@.len() != "scroll-pr"@.len());
                    } else if j == 9 {
                        assert("ml"@.len() != "scroll-pr"@.len());
                    } else if j == 10 {
                        assert("scroll-m"@.len() != "scroll-pr"@.len());
                    } else if j == 11 {
                        assert("scroll-mt"@[7] != "scroll-pr"@[7]);
                    } else if j == 12 {
                        assert("scroll-mr"@[7] != "scroll-pr"@[7]);
                    } else if j == 13 {
                        assert("scroll-mb"@[7] != "scroll-pr"@[7]);
                    } else if j == 14 {
                        assert("scroll-ml"@[7] != "scroll-pr"@[7]);
                    } else if j == 15 {
                        assert("scroll-p"@.len() != "scroll-pr"@.len());
                    } else if j == 16 {
                        assert("scroll-pt"@[8] != "scroll-pr"@[8]);
                    }
                }
                lemma_lookup_at(t, "scroll-pr"@, 17);
            }
            assert("scroll-padding-right"@ =~= "scroll-padding"@ + "-"@ + "right"@) by {
                reveal_strlit("scroll-padding-right");
                reveal_strlit("scroll-padding");
                reveal_strlit("-");
                reveal_strlit("right");
            }
        }
        if c == 'b' {
            assert(base.push(c) =~= "scroll-pb"@) by {
                reveal_strlit("scroll-p");
                reveal_strlit("scroll-pb");
            }
            assert(table_lookup(t, "scroll-pb"@) == Some("scroll-padding-bottom"@)) by {
                reveal_strlit("p");
                reveal_strlit("pt");
                reveal_strlit("pr");
                reveal_strlit("pb");
                reveal_strlit("pl");
                reveal_strlit("m");
                reveal_strlit("mt");
                reveal_strlit("mr");
                reveal_strlit("mb");
                reveal_strlit("ml");
                reveal_strlit("scroll-m");
                reveal_strlit("scroll-mt");
                reveal_strlit("scroll-mr");
                reveal_strlit("scroll-mb");
                reveal_strlit("scroll-ml");
                reveal_strlit("scroll-p");
                reveal_strlit("scroll-pt");
                reveal_strlit("scroll-pr");
                reveal_strlit("scroll-pb");
                assert(t[0].0 == "p"@);
                assert(t[1].0 == "pt"@);
                assert(t[2].0 == "pr"@);
                assert(t[3].0 == "pb"@);
                assert(t[4].0 == "pl"@);
                assert(t[5].0 == "m"@);
                assert(t[6].0 == "mt"@);
                assert(t[7].0 == "mr"@);
                assert(t[8].0 == "mb"@);
                assert(t[9].0 == "ml"@);
                assert(t[10].0 == "scroll-m"@);
                assert(t[11].0 == "scroll-mt"@);
                assert(t[12].0 == "scroll-mr"@);
                assert(t[13].0 == "scroll-mb"@);
                assert(t[14].0 == "scroll-ml"@);
                assert(t[15].0 == "scroll-p"@);
                assert(t[16].0 == "scroll-pt"@);
                assert(t[17].0 == "scroll-pr"@);
                assert(t[18].0 == "scroll-pb"@);
                assert(t[18].1 == "scroll-padding-bottom"@);
                assert forall|j: int| 0 <= j < 18 implies t[j].0 != "scroll-pb"@ by {
                    if j == 0 {
                        assert("p"@.len() != "scroll-pb"@.len());
                    } else if j == 1 {
                        assert("pt"@.len() != "scroll-pb"@.len());
                    } else if j == 2 {
                        assert("pr"@.len() != "scroll-pb"@.len());
                    } else if j == 3 {
                        assert("pb"@.len() != "scroll-pb"@.len());
                    } else if j == 4 {
                        assert("pl"@.len() != "scroll-pb"@.len());
                    } else if j == 5 {
                        assert("m"@.len() != "scroll-pb"@.len());
                    } else if j == 6 {
                        assert("mt"@.len() != "scroll-pb"@.len());
                    } else if j == 7 {
                        assert("mr"@.len() != "scroll-pb"@.len());
                    } else if j == 8 {
                        assert("mb"@.len() != "scroll-pb"@.len());
                    } else if j == 9 {
                        assert("ml"@.len() != "scroll-pb"@.len());
                    } else if j == 10 {
                        assert("scroll-m"@.len() != "scroll-pb"@.len());
                    } else if j == 11 {
                        assert("scroll-mt"@[7] != "scroll-pb"@[7]);
                    } else if j == 12 {
                        assert("scroll-mr"@[7] != "scroll-pb"@[7]);
                    } else if j == 13 {
                        assert("scroll-mb"@[7] != "scroll-pb"@[7]);
                    } else if j == 14 {
                        assert("scroll-ml"@[7] != "scroll-pb"@[7]);
                    } else if j == 15 {
                        assert("scroll-p"@.len() != "scroll-pb"@.len());
                    } else if j == 16 {
                        assert("scroll-pt"@[8] != "scroll-pb"@[8]);
                    } else if j == 17 {
                        assert("scroll-pr"@[8] != "scroll-pb"@[8]);
                    }
                }
                lemma_lookup_at(t, "scroll-pb"@, 18);
            }
            assert("scroll-padding-bottom"@ =~= "scroll-padding"@ + "-"@ + "bottom"@) by {
                reveal_strlit("scroll-padding-bottom");
                reveal_strlit("scroll-padding");
                reveal_strlit("-");
                reveal_strlit("bottom");
            }
        }
        if c == 'l' {
            assert(base.push(c) =~= "scroll-pl"@) by {
                reveal_strlit("scroll-p");
                reveal_strlit("scroll-pl");
            }
            assert(table_lookup(t, "scroll-pl"@) == Some("scroll-padding-left"@)) by {
                reveal_strlit("p");
                reveal_strlit("pt");
                reveal_strlit("pr");
                reveal_strlit("pb");
                reveal_strlit("pl");
                reveal_strlit("m");
                reveal_strlit("mt");
                reveal_strlit("mr");
                reveal_strlit("mb");
                reveal_strlit("ml");
                reveal_strlit("scroll-m");
                reveal_strlit("scroll-mt");
                reveal_strlit("scroll-mr");
                reveal_strlit("scroll-mb");
                reveal_strlit("scroll-ml");
                reveal_strlit("scroll-p");
                reveal_strlit("scroll-pt");
                reveal_strlit("scroll-pr");
                reveal_strlit("scroll-pb");
                reveal_strlit("scroll-pl");
                assert(t[0].0 == "p"@);
                assert(t[1].0 == "pt"@);
                assert(t[2].0 == "pr"@);
                assert(t[3].0 == "pb"@);
                assert(t[4].0 == "pl"@);
                assert(t[5].0 == "m"@);
                assert(t[6].0 == "mt"@);
                assert(t[7].0 == "mr"@);
                assert(t[8].0 == "mb"@);
                assert(t[9].0 == "ml"@);
                assert(t[10].0 == "scroll-m"@);
                assert(t[11].0 == "scroll-mt"@);
                assert(t[12].0 == "scroll-mr"@);
                assert(t[13].0 == "scroll-mb"@);
                assert(t[14].0 == "scroll-ml"@);
                assert(t[15].0 == "scroll-p"@);
                assert(t[16].0 == "scroll-pt"@);
                assert(t[17].0 == "scroll-pr"@);
                assert(t[18].0 == "scroll-pb"@);
                assert(t[19].0 == "scroll-pl"@);
                assert(t[19].1 == "scroll-padding-left"@);
                assert forall|j: int| 0 <= j < 19 implies t[j].0 != "scroll-pl"@ by {
                    if j == 0 {
                        assert("p"@.len() != "scroll-pl"@.len());
                    } else if j == 1 {
                        assert("pt"@.len() != "scroll-pl"@.len());
                    } else if j == 2 {
                        assert("pr"@.len() != "scroll-pl"@.len());
                    } else if j == 3 {
                        assert("pb"@.len() != "scroll-pl"@.len());
                    } else if j == 4 {
                        assert("pl"@.len() != "scroll-pl"@.len());
                    } else if j == 5 {
                        assert("m"@.len() != "scroll-pl"@.len());
                    } else if j == 6 {
                        assert("mt"@.len() != "scroll-pl"@.len());
                    } else if j == 7 {
                        assert("mr"@.len() != "scroll-pl"@.len());
                    } else if j == 8 {
                        assert("mb"@.len() != "scroll-pl"@.len());
                    } else if j == 9 {
                        assert("ml"@.len() != "scroll-pl"@.len());
                    } else if j == 10 {
                        assert("scroll-m"@.len() != "scroll-pl"@.len());
                    } else if j == 11 {
                        assert("scroll-mt"@[7] != "scroll-pl"@[7]);
                    } else if j == 12 {
                        assert("scroll-mr"@[7] != "scroll-pl"@[7]);
                    } else if j == 13 {
                        assert("scroll-mb"@[7] != "scroll-pl"@[7]);
                    } else if j == 14 {
                        assert("scroll-ml"@[7] != "scroll-pl"@[7]);
                    } else if j == 15 {
                        assert("scroll-p"@.len() != "scroll-pl"@.len());
                    } else if j == 16 {
                        assert("scroll-pt"@[8] != "scroll-pl"@[8]);
                    } else if j == 17 {
                        assert("scroll-pr"@[8] != "scroll-pl"@[8]);
                    } else if j == 18 {
                        assert("scroll-pb"@[8] != "scroll-pl"@[8]);
                    }
                }
                lemma_lookup_at(t, "scroll-pl"@, 19);
            }
            assert("scroll-padding-left"@ =~= "scroll-padding"@ + "-"@ + "left"@) by {
                reveal_strlit("scroll-padding-left");
                reveal_strlit("scroll-padding");
                reveal_strlit("-");
                reveal_strlit("left");
            }
        }
    }
}


/// The side names of an axis letter: `x` left and right, `y` top and bottom.
pub open spec fn axis_sides(c: char) -> Option<(Seq<char>, Seq<char>)> {
    if c == 'x' {
        Some(("left"@, "right"@))
    } else if c == 'y' {
        Some(("top"@, "bottom"@))
    } else {
        None
    }
}

/// A spacing plugin with an axis letter after it sets its property on both
/// sides of that axis: `px` sets `padding-left` and `padding-right`, `my` sets
/// `margin-top` and `margin-bottom`.
pub proof fn law_spacing_axis_plugins(base: Seq<char>, c: char)
    requires
        spacing_property(base) is Some,
        axis_sides(c) is Some,
    ensures
        plugin_pair_spec(base.push(c)) == Some(
            (
                spacing_property(base)->0 + "-"@ + (axis_sides(c)->0).0,
                spacing_property(base)->0 + "-"@ + (axis_sides(c)->0).1,
            ),
        ),
{
    reveal_strlit("p");
    reveal_strlit("m");
    reveal_strlit("scroll-p");
    reveal_strlit("scroll-m");
    assert("m"@[0] != "p"@[0]);
    assert("scroll-m"@.len() != "p"@.len() && "scroll-m"@.len() != "m"@.len());
    assert("scroll-p"@.len() != "p"@.len() && "scroll-p"@.len() != "m"@.len() && "scroll-p"@[7] != "scroll-m"@[7]);
    if base == "p"@ {
        if c == 'x' {
            assert(base.push(c) =~= "px"@) by {
                reveal_strlit("p");
                reveal_strlit("px");
            }
            assert(plugin_pair_spec("px"@) == Some(("padding-left"@, "padding-right"@))) by {
                reveal_strlit("px");
            }
            assert("padding-left"@ =~= "padding"@ + "-"@ + "left"@ && "padding-right"@ =~= "padding"@ + "-"@ + "right"@) by {
                reveal_strlit("padding-left");
                reveal_strlit("padding");
                reveal_strlit("left");
                reveal_strlit("padding-right");
                reveal_strlit("right");
                reveal_strlit("-");
            }
        }
        if c == 'y' {
            assert(base.push(c) =~= "py"@) by {
                reveal_strlit("p");
                reveal_strlit("py");
            }
            assert(plugin_pair_spec("py"@) == Some(("padding-top"@, "padding-bottom"@))) by {
                reveal_strlit("px");
                reveal_strlit("py");
                assert("px"@[1] != "py"@[1]);
            }
            assert("padding-top"@ =~= "padding"@ + "-"@ + "top"@ && "padding-bottom"@ =~= "padding"@ + "-"@ + "bottom"@) by {
                reveal_strlit("padding-top");
                reveal_strlit("padding");
                reveal_strlit("top");
                reveal_strlit("padding-bottom");
                reveal_strlit("bottom");
                reveal_strlit("-");
            }
        }
    } else if base == "m"@ {
        if c == 'x' {
            assert(base.push(c) =~= "mx"@) by {
                reveal_strlit("m");
                reveal_strlit("mx");
            }
            assert(plugin_pair_spec("mx"@) == Some(("margin-left"@, "margin-right"@))) by {
                reveal_strlit("px");
                reveal_strlit("py");
                reveal_strlit("mx");
                assert("px"@[0] != "mx"@[0]);
                assert("py"@[0] != "mx"@[0]);
            }
            assert("margin-left"@ =~= "margin"@ + "-"@ + "left"@ && "margin-right"@ =~= "margin"@ + "-"@ + "right"@) by {
                reveal_strlit("margin-left");
                reveal_strlit("margin");
                reveal_strlit("left");
                reveal_strlit("margin-right");
                reveal_strlit("right");
                reveal_strlit("-");
            }
        }
        if c == 'y' {
            assert(base.push(c) =~= "my"@) by {
                reveal_strlit("m");
                reveal_strlit("my");
            }
            assert(plugin_pair_spec("my"@) == Some(("margin-top"@, "margin-bottom"@))) by {
                reveal_strlit("px");
                reveal_strlit("py");
                reveal_strlit("mx");
                reveal_strlit("my");
                assert("px"@[0] != "my"@[0]);
                assert("py"@[0] != "my"@[0]);
                assert("mx"@[1] != "my"@[1]);
            }
            assert("margin-top"@ =~= "margin"@ + "-"@ + "top"@ && "margin-bottom"@ =~= "margin"@ + "-"@ + "bottom"@) by {
                reveal_strlit("margin-top");
                reveal_strlit("margin");
                reveal_strlit("top");
                reveal_strlit("margin-bottom");
                reveal_strlit("bottom");
                reveal_strlit("-");
            }
        }
    } else if base == "scroll-m"@ {
        if c == 'x' {
            assert(base.push(c) =~= "scroll-mx"@) by {
                reveal_strlit("scroll-m");
                reveal_strlit("scroll-mx");
            }
            assert(plugin_pair_spec("scroll-mx"@) == Some(("scroll-margin-left"@, "scroll-margin-right"@))) by {
                reveal_strlit("px");
                reveal_strlit("py");
                reveal_strlit("mx");
                reveal_strlit("my");
                reveal_strlit("inset-x");
                reveal_strlit("inset-y");
                reveal_strlit("rounded-t");
                reveal_strlit("rounded-r");
                reveal_strlit("rounded-b");
                reveal_strlit("rounded-l");
                reveal_strlit("scroll-mx");
                assert("px"@.len() != "scroll-mx"@.len());
                assert("py"@.len() != "scroll-mx"@.len());
                assert("mx"@.len() != "scroll-mx"@.len());
                assert("my"@.len() != "scroll-mx"@.len());
                assert("inset-x"@.len() != "scroll-mx"@.len());
                assert("inset-y"@.len() != "scroll-mx"@.len());
                assert("rounded-t"@[0] != "scroll-mx"@[0]);
                assert("rounded-r"@[0] != "scroll-mx"@[0]);
                assert("rounded-b"@[0] != "scroll-mx"@[0]);
                assert("rounded-l"@[0] != "scroll-mx"@[0]);
            }
            assert("scroll-margin-left"@ =~= "scroll-margin"@ + "-"@ + "left"@ && "scroll-margin-right"@ =~= "scroll-margin"@ + "-"@ + "right"@) by {
                reveal_strlit("scroll-margin-left");
                reveal_strlit("scroll-margin");
                reveal_strlit("left");
                reveal_strlit("scroll-margin-right");
                reveal_strlit("right");
                reveal_strlit("-");
            }
        }
        if c == 'y' {
            assert(base.push(c) =~= "scroll-my"@) by {
                reveal_strlit("scroll-m");
                reveal_strlit("scroll-my");
            }
            assert(plugin_pair_spec("scroll-my"@) == Some(("scroll-margin-top"@, "scroll-margin-bottom"@))) by {
                reveal_strlit("px");
                reveal_strlit("py");
                reveal_strlit("mx");
                reveal_strlit("my");
                reveal_strlit("inset-x");
                reveal_strlit("inset-y");
                reveal_strlit("rounded-t");
                reveal_strlit("rounded-r");
                reveal_strlit("rounded-b");
                reveal_strlit("rounded-l");
                reveal_strlit("scroll-mx");
                reveal_strlit("scroll-my");
                assert("px"@.len() != "scroll-my"@.len());
                assert("py"@.len() != "scroll-my"@.len());
                assert("mx"@.len() != "scroll-my"@.len());
                assert("my"@.len() != "scroll-my"@.len());
                assert("inset-x"@.len() != "scroll-my"@.len());
                assert("inset-y"@.len() != "scroll-my"@.len());
                assert("rounded-t"@[0] != "scroll-my"@[0]);
                assert("rounded-r"@[0] != "scroll-my"@[0]);
                assert("rounded-b"@[0] != "scroll-my"@[0]);
                assert("rounded-l"@[0] != "scroll-my"@[0]);
                assert("scroll-mx"@[8] != "scroll-my"@[8]);
            }
            assert("scroll-margin-top"@ =~= "scroll-margin"@ + "-"@ + "top"@ && "scroll-margin-bottom"@ =~= "scroll-margin"@ + "-"@ + "bottom"@) by {
                reveal_strlit("scroll-margin-top");
                reveal_strlit("scroll-margin");
                reveal_strlit("top");
                reveal_strlit("scroll-margin-bottom");
                reveal_strlit("bottom");
                reveal_strlit("-");
            }
        }
    } else if base == "scroll-p"@ {
        if c == 'x' {
            assert(base.push(c) =~= "scroll-px"@) by {
                reveal_strlit("scroll-p");
                reveal_strlit("scroll-px");
            }
            assert(plugin_pair_spec("scroll-px"@) == Some(("scroll-padding-left"@, "scroll-padding-right"@))) by {
                reveal_strlit("px");
                reveal_strlit("py");
                reveal_strlit("mx");
                reveal_strlit("my");
                reveal_strlit("inset-x");
                reveal_strlit("inset-y");
                reveal_strlit("rounded-t");
                reveal_strlit("rounded-r");
                reveal_strlit("rounded-b");
                reveal_strlit("rounded-l");
                reveal_strlit("scroll-mx");
                reveal_strlit("scroll-my");
                reveal_strlit("scroll-px");
                assert("px"@.len() != "scroll-px"@.len());
                assert("py"@.len() != "scroll-px"@.len());
                assert("mx"@.len() != "scroll-px"@.len());
                assert("my"@.len() != "scroll-px"@.len());
                assert("inset-x"@.len() != "scroll-px"@.len());
                assert("inset-y"@.len() != "scroll-px"@.len());
                assert("rounded-t"@[0] != "scroll-px"@[0]);
                assert("rounded-r"@[0] != "scroll-px"@[0]);
                assert("rounded-b"@[0] != "scroll-px"@[0]);
                assert("rounded-l"@[0] != "scroll-px"@[0]);
                assert("scroll-mx"@[7] != "scroll-px"@[7]);
                assert("scroll-my"@[7] != "scroll-px"@[7]);
            }
            assert("scroll-padding-left"@ =~= "scroll-padding"@ + "-"@ + "left"@ && "scroll-padding-right"@ =~= "scroll-padding"@ + "-"@ + "right"@) by {
                reveal_strlit("scroll-padding-left");
                reveal_strlit("scroll-padding");
                reveal_strlit("left");
                reveal_strlit("scroll-padding-right");
                reveal_strlit("right");
                reveal_strlit("-");
            }
        }
        if c == 'y' {
            assert(base.push(c) =~= "scroll-py"@) by {
                reveal_strlit("scroll-p");
                reveal_strlit("scroll-py");
            }
            assert(plugin_pair_spec("scroll-py"@) == Some(("scroll-padding-top"@, "scroll-padding-bottom"@))) by {
                reveal_strlit("px");
                reveal_strlit("py");
                reveal_strlit("mx");
                reveal_strlit("my");
                reveal_strlit("inset-x");
                reveal_strlit("inset-y");
                reveal_strlit("rounded-t");
                reveal_strlit("rounded-r");
                reveal_strlit("rounded-b");
                reveal_strlit("rounded-l");
                reveal_strlit("scroll-mx");
                reveal_strlit("scroll-my");
                reveal_strlit("scroll-px");
                reveal_strlit("scroll-py");
                assert("px"@.len() != "scroll-py"@.len());
                assert("py"@.len() != "scroll-py"@.len());
                assert("mx"@.len() != "scroll-py"@.len());
                assert("my"@.len() != "scroll-py"@.len());
                assert("inset-x"@.len() != "scroll-py"@.len());
                assert("inset-y"@.len() != "scroll-py"@.len());
                assert("rounded-t"@[0] != "scroll-py"@[0]);
                assert("rounded-r"@[0] != "scroll-py"@[0]);
                assert("rounded-b"@[0] != "scroll-py"@[0]);
                assert("rounded-l"@[0] != "scroll-py"@[0]);
                assert("scroll-mx"@[7] != "scroll-py"@[7]);
                assert("scroll-my"@[7] != "scroll-py"@[7]);
                assert("scroll-px"@[8] != "scroll-py"@[8]);
            }
            assert("scroll-padding-top"@ =~= "scroll-padding"@ + "-"@ + "top"@ && "scroll-padding-bottom"@ =~= "scroll-padding"@ + "-"@ + "bottom"@) by {
                reveal_strlit("scroll-padding-top");
                reveal_strlit("scroll-padding");
                reveal_strlit("top");
                reveal_strlit("scroll-padding-bottom");
                reveal_strlit("bottom");
                reveal_strlit("-");
            }
        }
    }
}


/// The border-radius property of the corner between a vertical side (`top`
/// or `bottom`) and a horizontal one (`left` or `right`).
pub open spec fn corner_property(vertical: Seq<char>, horizontal: Seq<char>) -> Seq<char> {
    "border-"@ + vertical + "-"@ + horizontal + "-radius"@
}

/// The two corners on a side, as CSS's corner order lists them: the top side
/// has the top-left and top-right corners, the right side the top-right and
/// bottom-right ones, and so on.
pub open spec fn side_corners(c: char) -> Option<(Seq<char>, Seq<char>)> {
    if c == 't' {
        Some((corner_property("top"@, "left"@), corner_property("top"@, "right"@)))
    } else if c == 'r' {
        Some((corner_property("top"@, "right"@), corner_property("bottom"@, "right"@)))
    } else if c == 'b' {
        Some((corner_property("bottom"@, "right"@), corner_property("bottom"@, "left"@)))
    } else if c == 'l' {
        Some((corner_property("top"@, "left"@), corner_property("bottom"@, "left"@)))
    } else {
        None
    }
}

/// `rounded-` with a side letter rounds the two corners on that side:
/// `rounded-t` sets the top-left and top-right radii.
pub proof fn law_rounded_side_plugins(c: char)
    requires
        side_corners(c) is Some,
    ensures
        plugin_pair_spec("rounded-"@.push(c)) == side_corners(c),
{
    if c == 't' {
        assert("rounded-"@.push(c) =~= "rounded-t"@) by {
            reveal_strlit("rounded-");
            reveal_strlit("rounded-t");
        }
        assert(plugin_pair_spec("rounded-t"@) == plugin_pair_spec("rounded-"@.push(c)));
        assert(plugin_pair_spec("rounded-t"@) == Some(("border-top-left-radius"@, "border-top-right-radius"@))) by {
            reveal_strlit("px");
            reveal_strlit("py");
            reveal_strlit("mx");
            reveal_strlit("my");
            reveal_strlit("inset-x");
            reveal_strlit("inset-y");
            reveal_strlit("rounded-t");
            assert("px"@.len() != "rounded-t"@.len());
            assert("py"@.len() != "rounded-t"@.len());
            assert("mx"@.len() != "rounded-t"@.len());
            assert("my"@.len() != "rounded-t"@.len());
            assert("inset-x"@.len() != "rounded-t"@.len());
            assert("inset-y"@.len() != "rounded-t"@.len());
        }
        assert("border-top-left-radius"@ =~= corner_property("top"@, "left"@)) by {
            reveal_strlit("border-top-left-radius");
            reveal_strlit("border-");
            reveal_strlit("-");
            reveal_strlit("-radius");
            reveal_strlit("top");
            reveal_strlit("left");
        }
        assert("border-top-right-radius"@ =~= corner_property("top"@, "right"@)) by {
            reveal_strlit("border-top-right-radius");
            reveal_strlit("border-");
            reveal_strlit("-");
            reveal_strlit("-radius");
            reveal_strlit("top");
            reveal_strlit("right");
        }
    } else if c == 'r' {
        assert("rounded-"@.push(c) =~= "rounded-r"@) by {
            reveal_strlit("rounded-");
            reveal_strlit("rounded-r");
        }
        assert(plugin_pair_spec("rounded-r"@) == plugin_pair_spec("rounded-"@.push(c)));
        assert(plugin_pair_spec("rounded-r"@) == Some(("border-top-right-radius"@, "border-bottom-right-radius"@))) by {
            reveal_strlit("px");
            reveal_strlit("py");
            reveal_strlit("mx");
            reveal_strlit("my");
            reveal_strlit("inset-x");
            reveal_strlit("inset-y");
            reveal_strlit("rounded-t");
            reveal_strlit("rounded-r");
            assert("px"@.len() != "rounded-r"@.len());
            assert("py"@.len() != "rounded-r"@.len());
            assert("mx"@.len() != "rounded-r"@.len());
            assert("my"@.len() != "rounded-r"@.len());
            assert("inset-x"@.len() != "rounded-r"@.len());
            assert("inset-y"@.len() != "rounded-r"@.len());
            assert("rounded-t"@[8] != "rounded-r"@[8]);
        }
        assert("border-top-right-radius"@ =~= corner_property("top"@, "right"@)) by {
            reveal_strlit("border-top-right-radius");
            reveal_strlit("border-");
            reveal_strlit("-");
            reveal_strlit("-radius");
            reveal_strlit("top");
            reveal_strlit("right");
        }
        assert("border-bottom-right-radius"@ =~= corner_property("bottom"@, "right"@)) by {
            reveal_strlit("border-bottom-right-radius");
            reveal_strlit("border-");
            reveal_strlit("-");
            reveal_strlit("-radius");
            reveal_strlit("bottom");
            reveal_strlit("right");
        }
    } else if c == 'b' {
        assert("rounded-"@.push(c) =~= "rounded-b"@) by {
            reveal_strlit("rounded-");
            reveal_strlit("rounded-b");
        }
        assert(plugin_pair_spec("rounded-b"@) == plugin_pair_spec("rounded-"@.push(c)));
        assert(plugin_pair_spec("rounded-b"@) == Some(("border-bottom-right-radius"@, "border-bottom-left-radius"@))) by {
            reveal_strlit("px");
            reveal_strlit("py");
            reveal_strlit("mx");
            reveal_strlit("my");
            reveal_strlit("inset-x");
            reveal_strlit("inset-y");
            reveal_strlit("rounded-t");
            reveal_strlit("rounded-r");
            reveal_strlit("rounded-b");
            assert("px"@.len() != "rounded-b"@.len());
            assert("py"@.len() != "rounded-b"@.len());
            assert("mx"@.len() != "rounded-b"@.len());
            assert("my"@.len() != "rounded-b"@.len());
            assert("inset-x"@.len() != "rounded-b"@.len());
            assert("inset-y"@.len() != "rounded-b"@.len());
            assert("rounded-t"@[8] != "rounded-b"@[8]);
            assert("rounded-r"@[8] != "rounded-b"@[8]);
        }
        assert("border-bottom-right-radius"@ =~= corner_property("bottom"@, "right"@)) by {
            reveal_strlit("border-bottom-right-radius");
            reveal_strlit("border-");
            reveal_strlit("-");
            reveal_strlit("-radius");
            reveal_strlit("bottom");
            reveal_strlit("right");
        }
        assert("border-bottom-left-radius"@ =~= corner_property("bottom"@, "left"@)) by {
            reveal_strlit("border-bottom-left-radius");
            reveal_strlit("border-");
            reveal_strlit("-");
            reveal_strlit("-radius");
            reveal_strlit("bottom");
            reveal_strlit("left");
        }
    } else if c == 'l' {
        assert("rounded-"@.push(c) =~= "rounded-l"@) by {
            reveal_strlit("rounded-");
            reveal_strlit("rounded-l");
        }
        assert(plugin_pair_spec("rounded-l"@) == plugin_pair_spec("rounded-"@.push(c)));
        assert(plugin_pair_spec("rounded-l"@) == Some(("border-top-left-radius"@, "border-bottom-left-radius"@))) by {
            reveal_strlit("px");
            reveal_strlit("py");
            reveal_strlit("mx");
            reveal_strlit("my");
            reveal_strlit("inset-x");
            reveal_strlit("inset-y");
            reveal_strlit("rounded-t");
            reveal_strlit("rounded-r");
            reveal_strlit("rounded-b");
            reveal_strlit("rounded-l");
            assert("px"@.len() != "rounded-l"@.len());
            assert("py"@.len() != "rounded-l"@.len());
            assert("mx"@.len() != "rounded-l"@.len());
            assert("my"@.len() != "rounded-l"@.len());
            assert("inset-x"@.len() != "rounded-l"@.len());
            assert("inset-y"@.len() != "rounded-l"@.len());
            assert("rounded-t"@[8] != "rounded-l"@[8]);
            assert("rounded-r"@[8] != "rounded-l"@[8]);
            assert("rounded-b"@[8] != "rounded-l"@[8]);
        }
        assert("border-top-left-radius"@ =~= corner_property("top"@, "left"@)) by {
            reveal_strlit("border-top-left-radius");
            reveal_strlit("border-");
            reveal_strlit("-");
            reveal_strlit("-radius");
            reveal_strlit("top");
            reveal_strlit("left");
        }
        assert("border-bottom-left-radius"@ =~= corner_property("bottom"@, "left"@)) by {
            reveal_strlit("border-bottom-left-radius");
            reveal_strlit("border-");
            reveal_strlit("-");
            reveal_strlit("-radius");
            reveal_strlit("bottom");
            reveal_strlit("left");
        }
    }
}

} // verus!
