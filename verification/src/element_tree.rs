//! The element tree of HTML source: each element's tag, classes and direct
//! text, as an indented outline with a reference per element.
use vstd::prelude::*;
use crate::context::repeat_text;
use crate::shorthand::{trim, trim_str};
use crate::text::{
    cat2, chars_of, decimal, index_of_from, index_of_from_vec, is_ascii_ws, lemma_index_of_from_spec,
    owned, push_chars, push_str, str_eq, string_of_chars,
};

verus! {

/// An element: its tag, its class attribute, its direct text and its children.
#[derive(Debug)]
pub struct ElementNode {
    /// The tag, such as `div`.
    pub tag: String,
    /// The class attribute as written.
    pub classes: String,
    /// The element's own text.
    pub text: String,
    /// The child elements.
    pub children: Vec<ElementNode>,
}

/// The text of an element and of its children.
pub struct NodeModel {
    pub tag: Seq<char>,
    pub classes: Seq<char>,
    pub text: Seq<char>,
    pub children: Seq<NodeModel>,
}

/// The models of the first `k` nodes of `cs`.
pub open spec fn models_upto(cs: Seq<ElementNode>, k: int) -> Seq<NodeModel>
    decreases cs, k,
{
    if k <= 0 || k > cs.len() {
        seq![]
    } else {
        proof {
            assert(decreases_to!(cs => cs[k - 1]));
        }
        models_upto(cs, k - 1).push(node_model(cs[k - 1]))
    }
}

/// The model of an element.
pub open spec fn node_model(n: ElementNode) -> NodeModel
    decreases n, 0int,
{
    proof {
        assert(decreases_to!(n => n.children));
        assert(decreases_to!(n.children => n.children@));
    }
    NodeModel {
        tag: n.tag@,
        classes: n.classes@,
        text: n.text@,
        children: models_upto(n.children@, n.children@.len() as int),
    }
}

/// The models of a sequence of elements.
pub open spec fn models(cs: Seq<ElementNode>) -> Seq<NodeModel> {
    models_upto(cs, cs.len() as int)
}

proof fn lemma_models_upto_len(cs: Seq<ElementNode>, k: int)
    requires
        0 <= k <= cs.len(),
    ensures
        models_upto(cs, k).len() == k,
        forall|i: int| 0 <= i < k ==> #[trigger] models_upto(cs, k)[i] == node_model(cs[i]),
    decreases k,
{
    if k > 0 {
        lemma_models_upto_len(cs, k - 1);
    }
}

/// The models of a sequence are the models of its elements.
pub proof fn lemma_models(cs: Seq<ElementNode>)
    ensures
        models(cs).len() == cs.len(),
        forall|i: int| 0 <= i < cs.len() ==> #[trigger] models(cs)[i] == node_model(cs[i]),
{
    lemma_models_upto_len(cs, cs.len() as int);
}

proof fn lemma_models_push(cs: Seq<ElementNode>, x: ElementNode)
    ensures
        models(cs.push(x)) == models(cs).push(node_model(x)),
{
    lemma_models(cs);
    lemma_models(cs.push(x));
    assert(models(cs.push(x)) =~= models(cs).push(node_model(x)));
}

proof fn lemma_models_drop_last(cs: Seq<ElementNode>)
    requires
        cs.len() > 0,
    ensures
        models(cs.drop_last()) == models(cs).drop_last(),
        models(cs).last() == node_model(cs.last()),
{
    lemma_models(cs);
    lemma_models(cs.drop_last());
    assert(models(cs.drop_last()) =~= models(cs).drop_last());
}

// ── Text ────────────────────────────────────────────────────────────────────

/// At most the first `max` characters of `s`.
pub open spec fn truncated(s: Seq<char>, max: nat) -> Seq<char> {
    if s.len() <= max {
        s
    } else {
        s.subrange(0, max as int)
    }
}

/// At most the first `max_chars` characters of `s`.
pub fn truncate_text(s: &str, max_chars: usize) -> (r: String)
    ensures
        r@ == truncated(s@, max_chars as nat),
{
    let v = chars_of(s);
    let end = if v.len() <= max_chars { v.len() } else { max_chars };
    let r = string_of_chars(&v, 0, end);
    assert(v@.subrange(0, v@.len() as int) =~= v@);
    r
}

/// The longest text of an element that the outline shows.
pub const MAX_TEXT_CHARS: usize = 10;

// ── The outline ─────────────────────────────────────────────────────────────

/// The number of elements of a forest.
pub open spec fn forest_size(ns: Seq<NodeModel>) -> nat
    decreases ns,
{
    if ns.len() == 0 {
        0
    } else {
        proof {
            assert(decreases_to!(ns => ns[0]));
            assert(decreases_to!(ns[0] => ns[0].children));
        }
        1 + forest_size(ns[0].children) + forest_size(ns.subrange(1, ns.len() as int))
    }
}

/// The outline line of an element at `depth` with the reference `id`:
/// `- tag classes`, its trimmed text (at most ten characters, after `:` or in
/// quotes), and `[ref=e{id}]`.
pub open spec fn node_line(n: NodeModel, depth: nat, id: nat) -> Seq<char> {
    let t = trim(n.text);
    repeat_text("  "@, depth) + "- "@ + n.tag + (if n.classes.len() > 0 { " "@ + n.classes } else { seq![] }) + (if t.len()
        > 0 {
        if n.classes.len() == 0 {
            ": "@ + truncated(t, 10)
        } else {
            " \""@ + truncated(t, 10) + "\""@
        }
    } else {
        seq![]
    }) + " [ref=e"@ + decimal(id) + "]\n"@
}

/// The outline of a forest at `depth`, numbering elements in pre-order after `counter`.
pub open spec fn forest_text(ns: Seq<NodeModel>, depth: nat, counter: nat) -> Seq<char>
    decreases ns,
{
    if ns.len() == 0 {
        seq![]
    } else {
        proof {
            assert(decreases_to!(ns => ns[0]));
            assert(decreases_to!(ns[0] => ns[0].children));
        }
        node_line(ns[0], depth, counter + 1) + forest_text(ns[0].children, depth + 1, counter + 1) + forest_text(
            ns.subrange(1, ns.len() as int),
            depth,
            counter + 1 + forest_size(ns[0].children),
        )
    }
}

/// The references that the outline gives a forest's elements, in pre-order,
/// numbered after `counter`.
pub open spec fn forest_refs(ns: Seq<NodeModel>, counter: nat) -> Seq<nat>
    decreases ns,
{
    if ns.len() == 0 {
        seq![]
    } else {
        proof {
            assert(decreases_to!(ns => ns[0]));
            assert(decreases_to!(ns[0] => ns[0].children));
        }
        seq![counter + 1] + forest_refs(ns[0].children, counter + 1) + forest_refs(
            ns.subrange(1, ns.len() as int),
            counter + 1 + forest_size(ns[0].children),
        )
    }
}

/// The outline numbers the elements one after another in pre-order, from
/// `counter + 1`; so no two elements share a reference.
pub proof fn law_refs_consecutive(ns: Seq<NodeModel>, counter: nat)
    ensures
        forest_refs(ns, counter) == Seq::new(forest_size(ns), |i: int| (counter + 1 + i) as nat),
        forest_refs(ns, counter).no_duplicates(),
    decreases ns,
{
    if ns.len() > 0 {
        assert(decreases_to!(ns => ns[0]));
        assert(decreases_to!(ns[0] => ns[0].children));
        let ch = ns[0].children;
        let rest = ns.subrange(1, ns.len() as int);
        law_refs_consecutive(ch, counter + 1);
        law_refs_consecutive(rest, counter + 1 + forest_size(ch));
    }
    let r = forest_refs(ns, counter);
    assert(r =~= Seq::new(forest_size(ns), |i: int| (counter + 1 + i) as nat));
    assert forall|i: int, j: int| 0 <= i < r.len() && 0 <= j < r.len() && i != j implies r[i] != r[j] by {
        assert(r[i] == counter + 1 + i);
        assert(r[j] == counter + 1 + j);
    }
}

/// The outline of a forest without its last line break.
pub open spec fn outline(ns: Seq<NodeModel>) -> Seq<char> {
    let t = forest_text(ns, 0, 0);
    if t.len() > 0 && t.last() == '\n' {
        t.drop_last()
    } else {
        t
    }
}

fn push_node_line(output: &mut String, node: &ElementNode, depth: usize, id: usize)
    ensures
        final(output)@ == old(output)@ + node_line(node_model(*node), depth as nat, id as nat),
{
    let indent = crate::context::repeat_str("  ", depth);
    push_str(output, indent.as_str());
    push_str(output, "- ");
    push_str(output, node.tag.as_str());
    let ghost mid = output@;
    if node.classes.unicode_len() > 0 {
        push_str(output, " ");
        push_str(output, node.classes.as_str());
    }
    let text = trim_str(node.text.as_str());
    if text.unicode_len() > 0 {
        let display = truncate_text(text.as_str(), MAX_TEXT_CHARS);
        if node.classes.unicode_len() == 0 {
            push_str(output, ": ");
            push_str(output, display.as_str());
        } else {
            push_str(output, " \"");
            push_str(output, display.as_str());
            push_str(output, "\"");
        }
    }
    push_str(output, " [ref=e");
    let d = crate::text::decimal_string(id);
    push_str(output, d.as_str());
    push_str(output, "]\n");
    proof {
        reveal_strlit("  ");
        let m = node_model(*node);
        assert(m.tag == node.tag@ && m.classes == node.classes@ && m.text == node.text@);
        if node.classes@.len() == 0 {
            assert(node.classes@ =~= Seq::<char>::empty());
        }
    }
    assert(output@ =~= old(output)@ + node_line(node_model(*node), depth as nat, id as nat));
}

/// A forest's outline is that of its first `i` elements followed by that of the rest.
pub proof fn lemma_forest_concat(ns: Seq<NodeModel>, i: int, depth: nat, counter: nat)
    requires
        0 <= i <= ns.len(),
    ensures
        forest_text(ns, depth, counter) == forest_text(ns.subrange(0, i), depth, counter) + forest_text(
            ns.subrange(i, ns.len() as int),
            depth,
            counter + forest_size(ns.subrange(0, i)),
        ),
        forest_size(ns) == forest_size(ns.subrange(0, i)) + forest_size(ns.subrange(i, ns.len() as int)),
    decreases ns.len(),
{
    if i == 0 {
        assert(ns.subrange(0, 0) =~= Seq::<NodeModel>::empty());
        assert(ns.subrange(0, ns.len() as int) =~= ns);
        assert(forest_text(ns.subrange(0, 0), depth, counter) =~= Seq::<char>::empty());
        assert(forest_text(ns, depth, counter) =~= Seq::<char>::empty() + forest_text(ns, depth, counter));
    } else {
        let rest = ns.subrange(1, ns.len() as int);
        let c1 = counter + 1 + forest_size(ns[0].children);
        lemma_forest_concat(rest, i - 1, depth, c1);
        let pre = ns.subrange(0, i);
        assert(pre[0] == ns[0]);
        assert(pre.subrange(1, pre.len() as int) =~= rest.subrange(0, i - 1));
        assert(rest.subrange(i - 1, rest.len() as int) =~= ns.subrange(i, ns.len() as int));
    }
}

fn format_node(node: &ElementNode, depth: usize, output: &mut String, counter: &mut usize)
    requires
        *old(counter) + forest_size(seq![node_model(*node)]) <= usize::MAX,
        depth + forest_size(seq![node_model(*node)]) <= usize::MAX,
    ensures
        final(output)@ == old(output)@ + forest_text(seq![node_model(*node)], depth as nat, *old(counter) as nat),
        *final(counter) == *old(counter) + forest_size(seq![node_model(*node)]),
    decreases node,
{
    let ghost m = node_model(*node);
    let ghost c0 = *counter;
    let ghost kids = m.children;
    proof {
        lemma_models(node.children@);
        assert(seq![m][0] == m);
        assert(seq![m].subrange(1, 1) =~= Seq::<NodeModel>::empty());
        assert(forest_size(Seq::<NodeModel>::empty()) == 0);
        assert(forest_size(seq![m]) == 1 + forest_size(kids));
    }
    *counter = *counter + 1;
    let ref_id = *counter;
    push_node_line(output, node, depth, ref_id);
    let ghost after_line = output@;
    let mut i: usize = 0;
    assert(kids.subrange(0, 0) =~= Seq::<NodeModel>::empty());
    assert(output@ =~= after_line + forest_text(kids.subrange(0, 0), depth as nat + 1, c0 as nat + 1));
    while i < node.children.len()
        invariant
            i <= node.children@.len(),
            kids == models(node.children@),
            kids.len() == node.children@.len(),
            forall|j: int| 0 <= j < kids.len() ==> #[trigger] kids[j] == node_model(node.children@[j]),
            depth + 1 + forest_size(kids) <= usize::MAX,
            c0 + 1 + forest_size(kids) <= usize::MAX,
            *counter == c0 + 1 + forest_size(kids.subrange(0, i as int)),
            output@ == after_line + forest_text(kids.subrange(0, i as int), depth as nat + 1, c0 as nat + 1),
        decreases node.children@.len() - i,
    {
        let child = &node.children[i];
        let ghost pre = kids.subrange(0, i + 1);
        proof {
            assert(decreases_to!(node => node.children));
            lemma_forest_concat(pre, i as int, depth as nat + 1, c0 as nat + 1);
            assert(pre.subrange(0, i as int) =~= kids.subrange(0, i as int));
            assert(pre.subrange(i as int, i + 1) =~= seq![kids[i as int]]);
            lemma_forest_concat(kids, i + 1, depth as nat + 1, c0 as nat + 1);
            assert(kids[i as int] == node_model(*child));
        }
        format_node(child, depth + 1, output, counter);
        i = i + 1;
    }
    proof {
        assert(kids.subrange(0, kids.len() as int) =~= kids);
        assert(forest_text(seq![m], depth as nat, c0 as nat) == node_line(m, depth as nat, c0 as nat + 1) + forest_text(
            kids,
            depth as nat + 1,
            c0 as nat + 1,
        ) + forest_text(Seq::<NodeModel>::empty(), depth as nat, c0 as nat + 1 + forest_size(kids)));
        assert(forest_text(Seq::<NodeModel>::empty(), depth as nat, c0 as nat + 1 + forest_size(kids)) =~= Seq::<char>::empty());
    }
    assert(output@ =~= old(output)@ + forest_text(seq![m], depth as nat, c0 as nat));
}

fn format_forest(nodes: &[ElementNode], output: &mut String, counter: &mut usize)
    requires
        *old(counter) + forest_size(models(nodes@)) < usize::MAX,
    ensures
        final(output)@ == old(output)@ + forest_text(models(nodes@), 0, *old(counter) as nat),
        *final(counter) == *old(counter) + forest_size(models(nodes@)),
{
    let ghost ms = models(nodes@);
    let ghost c0 = *counter;
    let ghost o0 = output@;
    proof {
        lemma_models(nodes@);
        lemma_forest_concat(ms, 0, 0, c0 as nat);
    }
    let mut i: usize = 0;
    assert(ms.subrange(0, 0) =~= Seq::<NodeModel>::empty());
    assert(output@ =~= o0 + forest_text(ms.subrange(0, 0), 0, c0 as nat));
    while i < nodes.len()
        invariant
            i <= nodes@.len(),
            ms == models(nodes@),
            ms.len() == nodes@.len(),
            forall|j: int| 0 <= j < ms.len() ==> #[trigger] ms[j] == node_model(nodes@[j]),
            c0 + forest_size(ms) < usize::MAX,
            *counter == c0 + forest_size(ms.subrange(0, i as int)),
            output@ == o0 + forest_text(ms.subrange(0, i as int), 0, c0 as nat),
        decreases nodes@.len() - i,
    {
        let ghost pre = ms.subrange(0, i + 1);
        proof {
            lemma_forest_concat(pre, i as int, 0, c0 as nat);
            assert(pre.subrange(0, i as int) =~= ms.subrange(0, i as int));
            assert(pre.subrange(i as int, i + 1) =~= seq![ms[i as int]]);
            lemma_forest_concat(ms, i + 1, 0, c0 as nat);
        }
        format_node(&nodes[i], 0, output, counter);
        assert(output@ =~= o0 + forest_text(ms.subrange(0, i + 1), 0, c0 as nat));
        i = i + 1;
    }
    assert(ms.subrange(0, nodes@.len() as int) =~= ms);
}

/// `t` without its last character when that is a line break.
pub open spec fn without_final_newline(t: Seq<char>) -> Seq<char> {
    if t.len() > 0 && t.last() == '\n' {
        t.drop_last()
    } else {
        t
    }
}

fn drop_final_newline(output: String) -> (r: String)
    ensures
        r@ == without_final_newline(output@),
{
    let v = chars_of(output.as_str());
    if v.len() > 0 && v[v.len() - 1] == '\n' {
        let r = string_of_chars(&v, 0, v.len() - 1);
        assert(r@ =~= output@.drop_last());
        r
    } else {
        output
    }
}

/// The outline of an element tree, one line per element with its reference
/// `[ref=eN]` numbered in pre-order.
pub fn format_element_tree(nodes: &[ElementNode]) -> (r: String)
    requires
        forest_size(models(nodes@)) < usize::MAX,
    ensures
        r@ == outline(models(nodes@)),
{
    let mut output = String::new();
    let mut counter: usize = 0;
    format_forest(nodes, &mut output, &mut counter);
    assert(output@ =~= forest_text(models(nodes@), 0, 0));
    drop_final_newline(output)
}

/// The elements of one component of a JSX file.
#[derive(Debug)]
pub struct ComponentTree {
    /// The component's name, such as `Header`; empty for elements outside one.
    pub name: String,
    /// The component's top-level elements.
    pub roots: Vec<ElementNode>,
}

/// Each component's name and the models of its top-level elements.
pub open spec fn component_models(cs: Seq<ComponentTree>) -> Seq<(Seq<char>, Seq<NodeModel>)> {
    cs.map_values(|c: ComponentTree| (c.name@, models(c.roots@)))
}

/// The number of elements of all the components.
pub open spec fn components_size(cs: Seq<(Seq<char>, Seq<NodeModel>)>) -> nat
    decreases cs.len(),
{
    if cs.len() == 0 {
        0
    } else {
        components_size(cs.drop_last()) + forest_size(cs.last().1)
    }
}

/// The outline text of the components: for each, after a blank line from the
/// one before, a `## name` heading when it has a name, and the outline of its
/// elements, numbered on from the components before.
pub open spec fn components_text(cs: Seq<(Seq<char>, Seq<NodeModel>)>) -> Seq<char>
    decreases cs.len(),
{
    if cs.len() == 0 {
        seq![]
    } else {
        let prev = cs.drop_last();
        let c = cs.last();
        components_text(prev) + (if prev.len() > 0 { "\n"@ } else { seq![] }) + (if c.0.len() > 0 {
            "## "@ + c.0 + "\n"@
        } else {
            seq![]
        }) + forest_text(c.1, 0, components_size(prev))
    }
}

/// The first position of a component named `name`, or `-1`.
pub open spec fn component_position(cs: Seq<(Seq<char>, Seq<NodeModel>)>, name: Seq<char>) -> int
    decreases cs.len(),
{
    if cs.len() == 0 {
        -1
    } else if component_position(cs.drop_last(), name) >= 0 {
        component_position(cs.drop_last(), name)
    } else if cs.last().0 == name {
        cs.len() - 1
    } else {
        -1
    }
}

proof fn lemma_component_position(cs: Seq<(Seq<char>, Seq<NodeModel>)>, name: Seq<char>)
    ensures
        -1 <= component_position(cs, name) < cs.len(),
        component_position(cs, name) >= 0 ==> cs[component_position(cs, name)].0 == name,
        forall|j: int| 0 <= j < cs.len() && (component_position(cs, name) < 0 || j < component_position(cs, name))
            ==> #[trigger] cs[j].0 != name,
    decreases cs.len(),
{
    if cs.len() > 0 {
        lemma_component_position(cs.drop_last(), name);
        assert forall|j: int| 0 <= j < cs.len() && (component_position(cs, name) < 0 || j < component_position(cs, name))
            implies #[trigger] cs[j].0 != name by {
            if j < cs.len() - 1 {
                assert(cs[j] == cs.drop_last()[j]);
            }
        }
    }
}

/// Adds a top-level element to the component named `name`: to the first
/// component of that name, or to a new component at the end.
pub fn add_component_root(components: &mut Vec<ComponentTree>, name: String, node: ElementNode)
    ensures
        ({
            let cms = component_models(old(components)@);
            let k = component_position(cms, name@);
            component_models(final(components)@) == if k >= 0 {
                cms.update(k, (name@, cms[k].1.push(node_model(node))))
            } else {
                cms.push((name@, seq![node_model(node)]))
            }
        }),
{
    let ghost cms = component_models(components@);
    proof {
        lemma_component_position(cms, name@);
    }
    let mut k: usize = 0;
    while k < components.len()
        invariant
            k <= components@.len(),
            components@ == old(components)@,
            cms == component_models(components@),
            forall|j: int| 0 <= j < k ==> #[trigger] cms[j].0 != name@,
        decreases components@.len() - k,
    {
        if str_eq(components[k].name.as_str(), name.as_str()) {
            assert(cms[k as int].0 == name@);
            proof {
                lemma_component_position(cms, name@);
                let p = component_position(cms, name@);
                if p < 0 || p > k {
                    assert(cms[k as int].0 != name@);
                }
                if p >= 0 && p < k {
                    assert(cms[p].0 != name@);
                }
            }
            let mut c = components.remove(k);
            proof {
                lemma_models_push(c.roots@, node);
            }
            c.roots.push(node);
            components.insert(k, c);
            assert(component_models(components@) =~= cms.update(k as int, (name@, cms[k as int].1.push(node_model(node)))));
            return;
        }
        k = k + 1;
    }
    let roots = vec![node];
    proof {
        lemma_models(roots@);
        assert(models(roots@) =~= seq![node_model(node)]);
    }
    components.push(ComponentTree { name, roots });
    assert(component_models(components@) =~= cms.push((name@, seq![node_model(node)])));
}

/// The outline of element trees grouped by component, numbered across them.
pub fn format_component_trees(components: &[ComponentTree]) -> (r: String)
    requires
        components_size(component_models(components@)) < usize::MAX,
    ensures
        r@ == without_final_newline(components_text(component_models(components@))),
{
    let ghost cms = component_models(components@);
    let mut output = String::new();
    let mut counter: usize = 0;
    let mut i: usize = 0;
    assert(cms.subrange(0, 0) =~= Seq::<(Seq<char>, Seq<NodeModel>)>::empty());
    while i < components.len()
        invariant
            i <= components@.len(),
            cms == component_models(components@),
            cms.len() == components@.len(),
            components_size(cms) < usize::MAX,
            counter == components_size(cms.subrange(0, i as int)),
            output@ == components_text(cms.subrange(0, i as int)),
        decreases components@.len() - i,
    {
        let comp = &components[i];
        let ghost pre = cms.subrange(0, i + 1);
        proof {
            assert(pre.drop_last() =~= cms.subrange(0, i as int));
            assert(pre.last() == cms[i as int]);
            assert(cms[i as int] == (comp.name@, models(comp.roots@)));
            lemma_components_size_prefix(cms, i + 1);
        }
        if i > 0 {
            push_str(&mut output, "\n");
        }
        if comp.name.unicode_len() > 0 {
            push_str(&mut output, "## ");
            push_str(&mut output, comp.name.as_str());
            push_str(&mut output, "\n");
        }
        format_forest(comp.roots.as_slice(), &mut output, &mut counter);
        proof {
            if i == 0 {
                assert(cms.subrange(0, 0) =~= Seq::<(Seq<char>, Seq<NodeModel>)>::empty());
            }
            if comp.name@.len() == 0 {
                assert(comp.name@ =~= Seq::<char>::empty());
            }
        }
        assert(output@ =~= components_text(pre));
        i = i + 1;
    }
    assert(cms.subrange(0, components@.len() as int) =~= cms);
    drop_final_newline(output)
}

proof fn lemma_components_size_prefix(cs: Seq<(Seq<char>, Seq<NodeModel>)>, k: int)
    requires
        0 <= k <= cs.len(),
    ensures
        components_size(cs.subrange(0, k)) <= components_size(cs),
    decreases cs.len() - k,
{
    if k < cs.len() {
        lemma_components_size_prefix(cs, k + 1);
        assert(cs.subrange(0, k + 1).drop_last() =~= cs.subrange(0, k));
    } else {
        assert(cs.subrange(0, k) =~= cs);
    }
}


// ── Parsing HTML into a tree ────────────────────────────────────────────────

/// The parser's state: the position, the finished top-level elements, and the
/// open elements, innermost last.
pub struct TreeState {
    pub pos: int,
    pub roots: Seq<NodeModel>,
    pub stack: Seq<NodeModel>,
}

/// An element without children or text.
pub open spec fn leaf(tag: Seq<char>, classes: Seq<char>) -> NodeModel {
    NodeModel { tag, classes, text: seq![], children: seq![] }
}

/// `p` with one more child.
pub open spec fn with_child(p: NodeModel, c: NodeModel) -> NodeModel {
    NodeModel { tag: p.tag, classes: p.classes, text: p.text, children: p.children.push(c) }
}

/// `p` with more text, after a space when it has some already.
pub open spec fn with_text(p: NodeModel, t: Seq<char>) -> NodeModel {
    NodeModel {
        tag: p.tag,
        classes: p.classes,
        text: if p.text.len() == 0 { t } else { p.text + " "@ + t },
        children: p.children,
    }
}

/// A finished element goes into the innermost open element, or to the top level.
pub open spec fn attach(roots: Seq<NodeModel>, stack: Seq<NodeModel>, n: NodeModel) -> (Seq<NodeModel>, Seq<NodeModel>) {
    if stack.len() > 0 {
        (roots, stack.update(stack.len() - 1, with_child(stack.last(), n)))
    } else {
        (roots.push(n), stack)
    }
}

/// `c` in lower case when it is an ASCII capital.
pub open spec fn lower_char(c: char) -> char {
    if 'A' <= c && c <= 'Z' {
        ((c as u32) + 32) as char
    } else {
        c
    }
}

/// `t` with its ASCII capitals in lower case.
pub open spec fn lower_ascii(t: Seq<char>) -> Seq<char> {
    t.map_values(|c: char| lower_char(c))
}

/// Whether a tag is a void element, which has no closing tag.
pub open spec fn is_void_tag(t: Seq<char>) -> bool {
    ||| t == "area"@ || t == "base"@ || t == "br"@ || t == "col"@ || t == "embed"@
    ||| t == "hr"@ || t == "img"@ || t == "input"@ || t == "link"@ || t == "meta"@
    ||| t == "param"@ || t == "source"@ || t == "track"@ || t == "wbr"@
}

/// The first position at or after `i` whose character satisfies the stop
/// rule `kind` (0: whitespace, `>` or `/`; 1: whitespace, `=`, `>` or `/`;
/// 2: whitespace or `>`), or the length.
pub open spec fn scan_to(s: Seq<char>, i: int, kind: int) -> int
    decreases s.len() - i,
{
    if i < 0 || i >= s.len() {
        s.len() as int
    } else if stops(s[i], kind) {
        i
    } else {
        scan_to(s, i + 1, kind)
    }
}

/// Whether `c` stops a scan of the given kind.
pub open spec fn stops(c: char, kind: int) -> bool {
    if kind == 0 {
        is_ascii_ws(c) || c == '>' || c == '/'
    } else if kind == 1 {
        is_ascii_ws(c) || c == '=' || c == '>' || c == '/'
    } else {
        is_ascii_ws(c) || c == '>'
    }
}

pub proof fn lemma_scan_to(s: Seq<char>, i: int, kind: int)
    requires
        0 <= i <= s.len(),
    ensures
        i <= scan_to(s, i, kind) <= s.len(),
        scan_to(s, i, kind) < s.len() ==> stops(s[scan_to(s, i, kind)], kind),
        forall|j: int| i <= j < scan_to(s, i, kind) ==> !stops(#[trigger] s[j], kind),
    decreases s.len() - i,
{
    if i < s.len() && !stops(s[i], kind) {
        lemma_scan_to(s, i + 1, kind);
    }
}

/// The attributes of an opening tag from `i`: where they end (at `>` or the
/// end), the value of the last `class` attribute, and whether a `/` was seen.
pub open spec fn attrs(s: Seq<char>, i: int, classes: Seq<char>, closed: bool) -> (int, Seq<char>, bool)
    decreases s.len() - i,
{
    if i < 0 || i >= s.len() || s[i] == '>' {
        (i, classes, closed)
    } else if s[i] == '/' {
        attrs(s, i + 1, classes, true)
    } else if is_ascii_ws(s[i]) {
        attrs(s, i + 1, classes, closed)
    } else {
        let ne = scan_to(s, i, 1);
        let name = s.subrange(i, ne);
        let j = crate::html::skip_ws(s, ne);
        proof {
            lemma_scan_to(s, i, 1);
            crate::html::lemma_skip_ws(s, ne);
        }
        if j < s.len() && s[j] == '=' {
            let k = crate::html::skip_ws(s, j + 1);
            proof {
                crate::html::lemma_skip_ws(s, j + 1);
            }
            if k < s.len() && (s[k] == '"' || s[k] == '\'') {
                let ve = index_of_from(s, s[k], k + 1);
                proof {
                    lemma_index_of_from_spec(s, s[k], k + 1);
                }
                let next = if ve < s.len() { ve + 1 } else { ve };
                attrs(s, next, if name == "class"@ { s.subrange(k + 1, ve) } else { classes }, closed)
            } else {
                let ve = scan_to(s, k, 2);
                proof {
                    lemma_scan_to(s, k, 2);
                }
                attrs(s, ve, if name == "class"@ { s.subrange(k, ve) } else { classes }, closed)
            }
        } else {
            proof {
                if ne == i {
                    assert(stops(s[i], 1));
                    assert(s[i] == '=');
                    assert(j == i);
                }
            }
            attrs(s, j, classes, closed)
        }
    }
}

/// The state after an opening tag at `st.pos`: a void or self-closed element
/// is finished at once, any other is opened; an empty tag name is skipped.
pub open spec fn opening(s: Seq<char>, st: TreeState) -> TreeState {
    let q = st.pos + 1;
    let te = scan_to(s, q, 0);
    let tag = lower_ascii(s.subrange(q, te));
    if tag.len() == 0 {
        TreeState { pos: te, roots: st.roots, stack: st.stack }
    } else {
        let (i, classes, closed) = attrs(s, te, seq![], false);
        let end = if 0 <= i < s.len() && s[i] == '>' { i + 1 } else { i };
        let n = leaf(tag, classes);
        if closed || is_void_tag(tag) {
            let (r, k) = attach(st.roots, st.stack, n);
            TreeState { pos: end, roots: r, stack: k }
        } else {
            TreeState { pos: end, roots: st.roots, stack: st.stack.push(n) }
        }
    }
}

/// The last position in `stack` of an element with the tag `tag`, or `-1`.
pub open spec fn last_tag_index(stack: Seq<NodeModel>, tag: Seq<char>) -> int
    decreases stack.len(),
{
    if stack.len() == 0 {
        -1
    } else if stack.last().tag == tag {
        stack.len() - 1
    } else {
        last_tag_index(stack.drop_last(), tag)
    }
}

/// What a closing tag does to the open elements: the innermost one is
/// finished when its tag matches; else the nearest open element with the tag
/// takes the ones opened after it as children and is finished; with none,
/// all open elements become top-level elements.
pub open spec fn close_tag(roots: Seq<NodeModel>, stack: Seq<NodeModel>, tag: Seq<char>) -> (Seq<NodeModel>, Seq<NodeModel>) {
    if stack.len() == 0 {
        (roots, stack)
    } else {
        let n = stack.last();
        let rest = stack.drop_last();
        if n.tag == tag {
            attach(roots, rest, n)
        } else {
            let j = last_tag_index(rest, tag);
            if j >= 0 {
                let m = rest[j];
                let matched = NodeModel {
                    tag: m.tag,
                    classes: m.classes,
                    text: m.text,
                    children: m.children + rest.subrange(j + 1, rest.len() as int) + seq![n],
                };
                attach(roots, rest.subrange(0, j), matched)
            } else {
                (roots + rest + seq![n], seq![])
            }
        }
    }
}

/// The state after a closing tag at `st.pos`.
pub open spec fn closing(s: Seq<char>, st: TreeState) -> TreeState {
    let i = st.pos + 2;
    let te = scan_to(s, i, 2);
    let tag = lower_ascii(s.subrange(i, te));
    let g = index_of_from(s, '>', te);
    let end = if g < s.len() { g + 1 } else { g };
    let (r, k) = close_tag(st.roots, st.stack, tag);
    TreeState { pos: end, roots: r, stack: k }
}

/// Whether `-->` starts at `i`.
pub open spec fn comment_close_at(s: Seq<char>, i: int) -> bool {
    0 <= i && i + 3 <= s.len() && s[i] == '-' && s[i + 1] == '-' && s[i + 2] == '>'
}

/// The first position at or after `i` where `-->` starts, or `-1`.
pub open spec fn comment_close(s: Seq<char>, i: int) -> int
    decreases s.len() - i,
{
    if i < 0 || i + 3 > s.len() {
        -1
    } else if comment_close_at(s, i) {
        i
    } else {
        comment_close(s, i + 1)
    }
}

pub proof fn lemma_comment_close(s: Seq<char>, i: int)
    requires
        0 <= i,
    ensures
        comment_close(s, i) == -1 || (i <= comment_close(s, i) && comment_close_at(s, comment_close(s, i))),
        forall|j: int| i <= j && (comment_close(s, i) == -1 || j < comment_close(s, i)) ==> !comment_close_at(s, j),
    decreases s.len() - i,
{
    if i + 3 <= s.len() && !comment_close_at(s, i) {
        lemma_comment_close(s, i + 1);
    }
}

/// One step of the parser at `st.pos`: a comment, a declaration such as
/// `<!DOCTYPE html>`, a closing tag, an opening tag, or text (trimmed and
/// added to the innermost open element's text).
pub open spec fn tree_step(s: Seq<char>, st: TreeState) -> TreeState {
    let p = st.pos;
    if s[p] == '<' {
        if p + 4 < s.len() && s[p + 1] == '!' && s[p + 2] == '-' && s[p + 3] == '-' && comment_close(s, p) >= 0 {
            TreeState { pos: comment_close(s, p) + 3, roots: st.roots, stack: st.stack }
        } else if p + 2 < s.len() && s[p + 1] == '!' && index_of_from(s, '>', p) < s.len() {
            TreeState { pos: index_of_from(s, '>', p) + 1, roots: st.roots, stack: st.stack }
        } else if p + 2 < s.len() && s[p + 1] == '/' {
            closing(s, st)
        } else {
            opening(s, st)
        }
    } else {
        let e = index_of_from(s, '<', p);
        let t = trim(s.subrange(p, e));
        TreeState {
            pos: e,
            roots: st.roots,
            stack: if t.len() > 0 && st.stack.len() > 0 {
                st.stack.update(st.stack.len() - 1, with_text(st.stack.last(), t))
            } else {
                st.stack
            },
        }
    }
}


pub proof fn lemma_attrs_end(s: Seq<char>, i: int, classes: Seq<char>, closed: bool)
    requires
        0 <= i <= s.len(),
    ensures
        i <= attrs(s, i, classes, closed).0 <= s.len(),
    decreases s.len() - i,
{
    if i < s.len() && s[i] != '>' {
        if s[i] == '/' || is_ascii_ws(s[i]) {
            lemma_attrs_end(s, i + 1, classes, if s[i] == '/' { true } else { closed });
        } else {
            let ne = scan_to(s, i, 1);
            let name = s.subrange(i, ne);
            lemma_scan_to(s, i, 1);
            crate::html::lemma_skip_ws(s, ne);
            let j = crate::html::skip_ws(s, ne);
            if j < s.len() && s[j] == '=' {
                crate::html::lemma_skip_ws(s, j + 1);
                let k = crate::html::skip_ws(s, j + 1);
                if k < s.len() && (s[k] == '"' || s[k] == '\'') {
                    lemma_index_of_from_spec(s, s[k], k + 1);
                    let ve = index_of_from(s, s[k], k + 1);
                    let next = if ve < s.len() { ve + 1 } else { ve };
                    lemma_attrs_end(s, next, if name == "class"@ { s.subrange(k + 1, ve) } else { classes }, closed);
                } else {
                    lemma_scan_to(s, k, 2);
                    let ve = scan_to(s, k, 2);
                    lemma_attrs_end(s, ve, if name == "class"@ { s.subrange(k, ve) } else { classes }, closed);
                }
            } else {
                if ne == i {
                    assert(stops(s[i], 1));
                }
                lemma_attrs_end(s, j, classes, closed);
            }
        }
    }
}

pub proof fn lemma_step_advances(s: Seq<char>, st: TreeState)
    requires
        0 <= st.pos < s.len(),
    ensures
        st.pos < tree_step(s, st).pos <= s.len(),
{
    let p = st.pos;
    lemma_comment_close(s, p);
    lemma_index_of_from_spec(s, '>', p);
    lemma_index_of_from_spec(s, '<', p);
    if s[p] == '<' {
        if p + 4 < s.len() && s[p + 1] == '!' && s[p + 2] == '-' && s[p + 3] == '-' && comment_close(s, p) >= 0 {
        } else if p + 2 < s.len() && s[p + 1] == '!' && index_of_from(s, '>', p) < s.len() {
        } else if p + 2 < s.len() && s[p + 1] == '/' {
            lemma_scan_to(s, p + 2, 2);
            lemma_index_of_from_spec(s, '>', scan_to(s, p + 2, 2));
        } else {
            lemma_scan_to(s, p + 1, 0);
            lemma_attrs_end(s, scan_to(s, p + 1, 0), seq![], false);
        }
    }
}

/// The parser's state once the input is read.
pub open spec fn tree_run(s: Seq<char>, st: TreeState) -> TreeState
    decreases s.len() - st.pos,
{
    if st.pos < 0 || st.pos >= s.len() {
        st
    } else {
        proof {
            lemma_step_advances(s, st);
        }
        tree_run(s, tree_step(s, st))
    }
}

/// The top-level elements once the elements still open are finished, innermost first.
pub open spec fn flush(roots: Seq<NodeModel>, stack: Seq<NodeModel>) -> Seq<NodeModel>
    decreases stack.len(),
{
    if stack.len() == 0 {
        roots
    } else {
        let (r, k) = attach(roots, stack.drop_last(), stack.last());
        flush(r, k)
    }
}

/// The element tree of HTML source.
pub open spec fn html_tree(s: Seq<char>) -> Seq<NodeModel> {
    let st = tree_run(s, TreeState { pos: 0, roots: seq![], stack: seq![] });
    flush(st.roots, st.stack)
}

// ── The parser ──────────────────────────────────────────────────────────────

fn new_leaf(tag: String, classes: String) -> (r: ElementNode)
    ensures
        node_model(r) == leaf(tag@, classes@),
{
    let r = ElementNode { tag, classes, text: String::new(), children: Vec::new() };
    proof {
        lemma_models(r.children@);
        assert(models(r.children@) =~= Seq::<NodeModel>::empty());
        assert(r.text@ =~= Seq::<char>::empty());
    }
    r
}

fn attach_node(roots: &mut Vec<ElementNode>, stack: &mut Vec<ElementNode>, node: ElementNode)
    ensures
        (models(final(roots)@), models(final(stack)@)) == attach(models(old(roots)@), models(old(stack)@), node_model(node)),
{
    let ghost nm = node_model(node);
    if stack.len() > 0 {
        proof {
            lemma_models_drop_last(stack@);
        }
        let mut p = stack.pop().unwrap();
        let ghost pm = node_model(p);
        let ghost kids = p.children@;
        p.children.push(node);
        proof {
            lemma_models_push(kids, node);
            assert(node_model(p) == with_child(pm, nm));
            lemma_models_push(stack@, p);
            assert(models(old(stack)@).update(models(old(stack)@).len() - 1, with_child(models(old(stack)@).last(), nm))
                =~= models(stack@).push(node_model(p)));
        }
        stack.push(p);
    } else {
        proof {
            lemma_models_push(roots@, node);
        }
        roots.push(node);
    }
}

fn lower_char_of(c: char) -> (r: char)
    ensures
        r == lower_char(c),
{
    if c >= 'A' && c <= 'Z' {
        let u: u32 = (c as u32) + 32;
        assert(u == (c as u32) + 32);
        let r = (((c as u8) + 32) as char);
        assert(r == lower_char(c)) by {
            assert((c as u8) as u32 == c as u32);
        }
        r
    } else {
        c
    }
}

fn lower_ascii_of(v: &Vec<char>, from: usize, to: usize) -> (r: String)
    requires
        from <= to <= v@.len(),
    ensures
        r@ == lower_ascii(v@.subrange(from as int, to as int)),
{
    let mut out = String::new();
    let mut i = from;
    while i < to
        invariant
            from <= i <= to <= v@.len(),
            out@ == lower_ascii(v@.subrange(from as int, i as int)),
        decreases to - i,
    {
        out.push(lower_char_of(v[i]));
        assert(out@ =~= lower_ascii(v@.subrange(from as int, i + 1)));
        i = i + 1;
    }
    out
}

fn is_void_element(tag: &str) -> (r: bool)
    ensures
        r == is_void_tag(tag@),
{
    str_eq(tag, "area") || str_eq(tag, "base") || str_eq(tag, "br") || str_eq(tag, "col") || str_eq(tag, "embed")
        || str_eq(tag, "hr") || str_eq(tag, "img") || str_eq(tag, "input") || str_eq(tag, "link")
        || str_eq(tag, "meta") || str_eq(tag, "param") || str_eq(tag, "source") || str_eq(tag, "track")
        || str_eq(tag, "wbr")
}

fn stops_at(c: char, kind: usize) -> (r: bool)
    ensures
        r == stops(c, kind as int),
{
    let ws = crate::text::char_is_ascii_ws(c);
    if kind == 0 {
        ws || c == '>' || c == '/'
    } else if kind == 1 {
        ws || c == '=' || c == '>' || c == '/'
    } else {
        ws || c == '>'
    }
}

fn scan_to_vec(v: &Vec<char>, i: usize, kind: usize) -> (r: usize)
    requires
        i <= v@.len(),
    ensures
        r == scan_to(v@, i as int, kind as int),
        i <= r <= v@.len(),
{
    let mut p = i;
    while p < v.len() && !stops_at(v[p], kind)
        invariant
            i <= p <= v@.len(),
            scan_to(v@, i as int, kind as int) == scan_to(v@, p as int, kind as int),
        decreases v@.len() - p,
    {
        p = p + 1;
    }
    p
}

fn skip_ws_at(v: &Vec<char>, i: usize) -> (r: usize)
    requires
        i <= v@.len(),
    ensures
        r == crate::html::skip_ws(v@, i as int),
        i <= r <= v@.len(),
{
    let mut p = i;
    while p < v.len() && crate::text::char_is_ascii_ws(v[p])
        invariant
            i <= p <= v@.len(),
            crate::html::skip_ws(v@, i as int) == crate::html::skip_ws(v@, p as int),
        decreases v@.len() - p,
    {
        p = p + 1;
    }
    p
}

fn is_class_name(v: &Vec<char>, from: usize, to: usize) -> (r: bool)
    requires
        from <= to <= v@.len(),
    ensures
        r == (v@.subrange(from as int, to as int) == "class"@),
{
    proof {
        reveal_strlit("class");
    }
    let r = to - from == 5 && v[from] == 'c' && v[from + 1] == 'l' && v[from + 2] == 'a' && v[from + 3] == 's'
        && v[from + 4] == 's';
    if r {
        assert(v@.subrange(from as int, to as int) =~= "class"@);
    } else if to - from == 5 {
        proof {
            let t = v@.subrange(from as int, to as int);
            if t == "class"@ {
                assert(t[0] == 'c' && t[1] == 'l' && t[2] == 'a' && t[3] == 's' && t[4] == 's');
            }
        }
    } else {
        assert(v@.subrange(from as int, to as int).len() != "class"@.len());
    }
    r
}

fn parse_attrs(v: &Vec<char>, start: usize) -> (r: (usize, String, bool))
    requires
        start <= v@.len(),
    ensures
        (r.0 as int, r.1@, r.2) == attrs(v@, start as int, seq![], false),
{
    let n = v.len();
    let mut i = start;
    let mut classes = String::new();
    let mut closed = false;
    let ghost s = v@;
    proof {
        assert(classes@ =~= Seq::<char>::empty());
    }
    while i < n && v[i] != '>'
        invariant
            start <= i <= n == v@.len(),
            s == v@,
            attrs(s, i as int, classes@, closed) == attrs(s, start as int, seq![], false),
        decreases n - i,
    {
        if v[i] == '/' {
            closed = true;
            i = i + 1;
        } else if crate::text::char_is_ascii_ws(v[i]) {
            i = i + 1;
        } else {
            let ne = scan_to_vec(v, i, 1);
            let j = skip_ws_at(v, ne);
            proof {
                lemma_scan_to(s, i as int, 1);
            }
            if j < n && v[j] == '=' {
                let k = skip_ws_at(v, j + 1);
                if k < n && (v[k] == '"' || v[k] == '\'') {
                    let q = v[k];
                    let ve = index_of_from_vec(v, q, k + 1);
                    let is_class = is_class_name(v, i, ne);
                    if is_class {
                        classes = string_of_chars(v, k + 1, ve);
                    }
                    i = if ve < n { ve + 1 } else { ve };
                } else {
                    let ve = scan_to_vec(v, k, 2);
                    let is_class = is_class_name(v, i, ne);
                    if is_class {
                        classes = string_of_chars(v, k, ve);
                    }
                    i = ve;
                }
            } else {
                proof {
                    if ne == i {
                        assert(stops(s[i as int], 1));
                    }
                }
                i = j;
            }
        }
    }
    (i, classes, closed)
}


proof fn lemma_models_remove(cs: Seq<ElementNode>, i: int)
    requires
        0 <= i < cs.len(),
    ensures
        models(cs.remove(i)) == models(cs).remove(i),
{
    lemma_models(cs);
    lemma_models(cs.remove(i));
    assert(models(cs.remove(i)) =~= models(cs).remove(i));
}

fn parse_opening_tag(v: &Vec<char>, pos: usize, roots: &mut Vec<ElementNode>, stack: &mut Vec<ElementNode>) -> (r: usize)
    requires
        pos < v@.len(),
    ensures
        ({
            let st = opening(v@, TreeState { pos: pos as int, roots: models(old(roots)@), stack: models(old(stack)@) });
            &&& r as int == st.pos
            &&& models(final(roots)@) == st.roots
            &&& models(final(stack)@) == st.stack
        }),
{
    let n = v.len();
    assert(pos < n);
    let q = pos + 1;
    let te = scan_to_vec(v, q, 0);
    let tag = lower_ascii_of(v, q, te);
    if tag.unicode_len() == 0 {
        return te;
    }
    let (i, classes, closed) = parse_attrs(v, te);
    proof {
        lemma_attrs_end(v@, te as int, seq![], false);
    }
    let end = if i < v.len() && v[i] == '>' { i + 1 } else { i };
    let is_void = is_void_element(tag.as_str());
    let node = new_leaf(tag, classes);
    if closed || is_void {
        attach_node(roots, stack, node);
    } else {
        proof {
            lemma_models_push(stack@, node);
        }
        stack.push(node);
    }
    end
}

fn last_tag_index_of(stack: &Vec<ElementNode>, tag: &str) -> (r: usize)
    ensures
        r <= stack@.len(),
        r == stack@.len() <==> last_tag_index(models(stack@), tag@) < 0,
        r < stack@.len() ==> r as int == last_tag_index(models(stack@), tag@),
{
    let ghost ms = models(stack@);
    proof {
        lemma_models(stack@);
    }
    let mut k = stack.len();
    assert(ms.subrange(0, k as int) =~= ms);
    while k > 0
        invariant
            k <= stack@.len(),
            ms == models(stack@),
            ms.len() == stack@.len(),
            forall|j: int| 0 <= j < ms.len() ==> #[trigger] ms[j] == node_model(stack@[j]),
            last_tag_index(ms, tag@) == last_tag_index(ms.subrange(0, k as int), tag@),
        decreases k,
    {
        let ghost sub = ms.subrange(0, k as int);
        if str_eq(stack[k - 1].tag.as_str(), tag) {
            assert(sub.last() == node_model(stack@[k - 1]));
            return k - 1;
        }
        assert(sub.drop_last() =~= ms.subrange(0, k - 1));
        k = k - 1;
    }
    assert(ms.subrange(0, 0) =~= Seq::<NodeModel>::empty());
    stack.len()
}

fn close_tag_of(roots: &mut Vec<ElementNode>, stack: &mut Vec<ElementNode>, tag: &str)
    ensures
        (models(final(roots)@), models(final(stack)@)) == close_tag(models(old(roots)@), models(old(stack)@), tag@),
{
    if stack.len() == 0 {
        return;
    }
    proof {
        lemma_models_drop_last(stack@);
    }
    let node = stack.pop().unwrap();
    let ghost nm = node_model(node);
    let ghost rest = models(stack@);
    if str_eq(node.tag.as_str(), tag) {
        attach_node(roots, stack, node);
        return;
    }
    let j = last_tag_index_of(stack, tag);
    if j < stack.len() {
        proof {
            lemma_models(stack@);
        }
        let mut moved: Vec<ElementNode> = Vec::new();
        assert(models(moved@) =~= rest.subrange(j + 1, j + 1));
        assert(models(stack@) =~= rest.subrange(0, j + 1) + rest.subrange(j + 1, rest.len() as int));
        while stack.len() > j + 1
            invariant
                j < rest.len(),
                j + 1 <= stack@.len(),
                stack@.len() + moved@.len() == rest.len(),
                models(stack@) == rest.subrange(0, j + 1) + rest.subrange(j + 1 + moved@.len(), rest.len() as int),
                models(moved@) == rest.subrange(j + 1, j + 1 + moved@.len()),
            decreases stack@.len(),
        {
            let ghost k = moved@.len();
            proof {
                lemma_models_remove(stack@, j + 1);
                lemma_models(stack@);
            }
            let x = stack.remove(j + 1);
            proof {
                let before = rest.subrange(0, j + 1) + rest.subrange(j + 1 + k, rest.len() as int);
                assert(node_model(x) == before[j + 1]);
                assert(before[j + 1] == rest[j + 1 + k]);
                lemma_models_push(moved@, x);
                assert(before.remove(j + 1) =~= rest.subrange(0, j + 1) + rest.subrange(j + 2 + k, rest.len() as int));
                assert(rest.subrange(j + 1, j + 1 + k).push(rest[j + 1 + k]) =~= rest.subrange(j + 1, j + 2 + k));
            }
            moved.push(x);
        }
        assert(rest.subrange(j + 1 + moved@.len(), rest.len() as int) =~= Seq::<NodeModel>::empty());
        assert(models(stack@) =~= rest.subrange(0, j + 1));
        proof {
            lemma_models_drop_last(stack@);
        }
        let mut m = stack.pop().unwrap();
        let ghost m0 = node_model(m);
        assert(m0 == rest[j as int]);
        assert(models(stack@) =~= rest.subrange(0, j as int));
        let ghost moved_all = models(moved@);
        let mut t: usize = 0;
        let ghost mv = moved@;
        let ghost kids0 = m0.children;
        proof {
            lemma_models(mv);
        }
        assert(models(m.children@) =~= kids0 + moved_all.subrange(0, 0));
        while moved.len() > 0
            invariant
                t + moved@.len() == mv.len(),
                mv.len() <= usize::MAX,
                moved@ == mv.subrange(t as int, mv.len() as int),
                moved_all == models(mv),
                moved_all.len() == mv.len(),
                forall|q: int| 0 <= q < mv.len() ==> #[trigger] moved_all[q] == node_model(mv[q]),
                models(m.children@) == kids0 + moved_all.subrange(0, t as int),
                m.tag@ == m0.tag,
                m.classes@ == m0.classes,
                m.text@ == m0.text,
            decreases moved@.len(),
        {
            let x = moved.remove(0);
            assert(x == mv[t as int]);
            proof {
                lemma_models_push(m.children@, x);
            }
            m.children.push(x);
            assert(moved@ =~= mv.subrange(t + 1, mv.len() as int));
            assert(kids0 + moved_all.subrange(0, t as int) + seq![moved_all[t as int]] =~= kids0 + moved_all.subrange(0, t + 1));
            t = t + 1;
        }
        proof {
            lemma_models_push(m.children@, node);
        }
        m.children.push(node);
        proof {
            assert(moved_all.subrange(0, t as int) =~= rest.subrange(j + 1, rest.len() as int));
            assert(node_model(m).children =~= kids0 + rest.subrange(j + 1, rest.len() as int) + seq![nm]);
        }
        attach_node(roots, stack, m);
    } else {
        let ghost r0 = models(roots@);
        let mut k: usize = 0;
        proof {
            lemma_models(stack@);
        }
        let ghost st0 = stack@;
        assert(models(roots@) =~= r0 + rest.subrange(0, 0));
        while stack.len() > 0
            invariant
                k + stack@.len() == rest.len(),
                st0.len() == rest.len(),
                st0.len() <= usize::MAX,
                stack@ == st0.subrange(k as int, st0.len() as int),
                forall|q: int| 0 <= q < st0.len() ==> #[trigger] rest[q] == node_model(st0[q]),
                models(roots@) == r0 + rest.subrange(0, k as int),
            decreases stack@.len(),
        {
            let x = stack.remove(0);
            assert(x == st0[k as int]);
            proof {
                lemma_models_push(roots@, x);
            }
            roots.push(x);
            assert(stack@ =~= st0.subrange(k + 1, st0.len() as int));
            assert(r0 + rest.subrange(0, k as int) + seq![rest[k as int]] =~= r0 + rest.subrange(0, k + 1));
            k = k + 1;
        }
        proof {
            lemma_models_push(roots@, node);
            assert(rest.subrange(0, k as int) =~= rest);
            assert(models(stack@) =~= Seq::<NodeModel>::empty());
        }
        roots.push(node);
    }
}

fn parse_closing_tag(v: &Vec<char>, pos: usize, roots: &mut Vec<ElementNode>, stack: &mut Vec<ElementNode>) -> (r: usize)
    requires
        pos + 2 < v@.len(),
    ensures
        ({
            let st = closing(v@, TreeState { pos: pos as int, roots: models(old(roots)@), stack: models(old(stack)@) });
            &&& r as int == st.pos
            &&& models(final(roots)@) == st.roots
            &&& models(final(stack)@) == st.stack
        }),
{
    let n = v.len();
    assert(pos + 2 < n);
    let i = pos + 2;
    let te = scan_to_vec(v, i, 2);
    let tag = lower_ascii_of(v, i, te);
    let g = index_of_from_vec(v, '>', te);
    let end = if g < v.len() { g + 1 } else { g };
    close_tag_of(roots, stack, tag.as_str());
    end
}

fn comment_close_of(v: &Vec<char>, from: usize) -> (r: usize)
    requires
        from <= v@.len(),
    ensures
        r <= v@.len(),
        r == v@.len() ==> comment_close(v@, from as int) == -1,
        r < v@.len() ==> r as int == comment_close(v@, from as int) && r + 3 <= v@.len(),
{
    let n = v.len();
    let mut p = from;
    while p < n && n - p >= 3
        invariant
            from <= p <= n == v@.len(),
            forall|j: int| from <= j < p ==> !comment_close_at(v@, j),
        decreases n - p,
    {
        if v[p] == '-' && v[p + 1] == '-' && v[p + 2] == '>' {
            proof {
                lemma_comment_close(v@, from as int);
                assert(comment_close_at(v@, p as int));
                let q = comment_close(v@, from as int);
                if q >= 0 && q < p {
                    assert(!comment_close_at(v@, q));
                }
            }
            return p;
        }
        p = p + 1;
    }
    proof {
        lemma_comment_close(v@, from as int);
        let q = comment_close(v@, from as int);
        if q >= 0 {
            assert(!comment_close_at(v@, q));
        }
    }
    n
}

fn tree_step_of(v: &Vec<char>, pos: usize, roots: &mut Vec<ElementNode>, stack: &mut Vec<ElementNode>) -> (r: usize)
    requires
        pos < v@.len(),
    ensures
        ({
            let st = tree_step(v@, TreeState { pos: pos as int, roots: models(old(roots)@), stack: models(old(stack)@) });
            &&& r as int == st.pos
            &&& models(final(roots)@) == st.roots
            &&& models(final(stack)@) == st.stack
        }),
{
    let n = v.len();
    if v[pos] == '<' {
        if n - pos > 4 && v[pos + 1] == '!' && v[pos + 2] == '-' && v[pos + 3] == '-' {
            let c = comment_close_of(v, pos);
            if c < n {
                return c + 3;
            }
        }
        if n - pos > 2 && v[pos + 1] == '!' {
            let g = index_of_from_vec(v, '>', pos);
            if g < n {
                return g + 1;
            }
        }
        if n - pos > 2 && v[pos + 1] == '/' {
            return parse_closing_tag(v, pos, roots, stack);
        }
        parse_opening_tag(v, pos, roots, stack)
    } else {
        let e = index_of_from_vec(v, '<', pos);
        let raw = string_of_chars(v, pos, e);
        let t = trim_str(raw.as_str());
        if t.unicode_len() > 0 && stack.len() > 0 {
            proof {
                lemma_models_drop_last(stack@);
            }
            let mut p = stack.pop().unwrap();
            let ghost pm = node_model(p);
            if p.text.unicode_len() > 0 {
                p.text.push(' ');
            }
            push_str(&mut p.text, t.as_str());
            proof {
                reveal_strlit(" ");
                if pm.text.len() == 0 {
                    assert(pm.text =~= Seq::<char>::empty());
                } else {
                    assert(pm.text.push(' ') + t@ =~= pm.text + " "@ + t@);
                }
                assert(node_model(p) =~= with_text(pm, t@));
                lemma_models_push(stack@, p);
                assert(models(old(stack)@).update(models(old(stack)@).len() - 1, with_text(models(old(stack)@).last(), t@))
                    =~= models(stack@).push(node_model(p)));
            }
            stack.push(p);
        }
        e
    }
}

/// The element tree of HTML source: elements with their tags in lower case,
/// their last `class` attribute and their trimmed direct text; comments and
/// declarations are skipped, void and self-closed elements have no children,
/// and unclosed elements are closed at the end.
pub fn build_html_element_tree(source: &str) -> (r: Vec<ElementNode>)
    ensures
        models(r@) == html_tree(source@),
{
    let v = chars_of(source);
    let n = v.len();
    let mut roots: Vec<ElementNode> = Vec::new();
    let mut stack: Vec<ElementNode> = Vec::new();
    let mut pos: usize = 0;
    let ghost init = TreeState { pos: 0, roots: seq![], stack: seq![] };
    proof {
        lemma_models(roots@);
        lemma_models(stack@);
        assert(models(roots@) =~= Seq::<NodeModel>::empty());
        assert(models(stack@) =~= Seq::<NodeModel>::empty());
    }
    while pos < n
        invariant
            pos <= n == v@.len(),
            v@ == source@,
            tree_run(v@, TreeState { pos: pos as int, roots: models(roots@), stack: models(stack@) }) == tree_run(v@, init),
        decreases n - pos,
    {
        let ghost st = TreeState { pos: pos as int, roots: models(roots@), stack: models(stack@) };
        proof {
            lemma_step_advances(v@, st);
        }
        pos = tree_step_of(&v, pos, &mut roots, &mut stack);
    }
    let ghost fin = tree_run(v@, init);
    assert(fin == TreeState { pos: pos as int, roots: models(roots@), stack: models(stack@) });
    while stack.len() > 0
        invariant
            flush(models(roots@), models(stack@)) == flush(fin.roots, fin.stack),
        decreases stack@.len(),
    {
        proof {
            lemma_models_drop_last(stack@);
            lemma_models(stack@);
        }
        let ghost before = stack@.len();
        let node = stack.pop().unwrap();
        attach_node(&mut roots, &mut stack, node);
        proof {
            lemma_models(stack@);
        }
        assert(stack@.len() < before);
    }
    proof {
        lemma_models(stack@);
        assert(models(stack@) =~= Seq::<NodeModel>::empty());
    }
    roots
}


// ── Void elements have no children ──────────────────────────────────────────

/// The void elements of HTML, which never have content.
pub open spec fn html_void_element(t: Seq<char>) -> bool {
    t == "area"@ || t == "base"@ || t == "br"@ || t == "col"@ || t == "embed"@ || t == "hr"@ || t == "img"@ || t == "input"@ || t == "link"@ || t == "meta"@ || t == "param"@ || t == "source"@ || t == "track"@ || t == "wbr"@
}

/// Whether, among the first `k` trees of `ns`, no void element has children.
pub open spec fn void_free_upto(ns: Seq<NodeModel>, k: int) -> bool
    decreases ns, k,
{
    if k <= 0 || k > ns.len() {
        true
    } else {
        proof {
            assert(decreases_to!(ns => ns[k - 1]));
        }
        void_free_upto(ns, k - 1) && void_childless(ns[k - 1])
    }
}

/// Whether no void element in the tree `n` has children.
pub open spec fn void_childless(n: NodeModel) -> bool
    decreases n, 0int,
{
    proof {
        assert(decreases_to!(n => n.children));
    }
    (html_void_element(n.tag) ==> n.children.len() == 0) && void_free_upto(n.children, n.children.len() as int)
}

/// Whether no void element in the trees `ns` has children.
pub open spec fn void_free(ns: Seq<NodeModel>) -> bool {
    forall|i: int| 0 <= i < ns.len() ==> void_childless(#[trigger] ns[i])
}

proof fn lemma_void_free_upto(ns: Seq<NodeModel>, k: int)
    requires
        0 <= k <= ns.len(),
    ensures
        void_free_upto(ns, k) <==> (forall|i: int| 0 <= i < k ==> void_childless(#[trigger] ns[i])),
    decreases k,
{
    if k > 0 {
        lemma_void_free_upto(ns, k - 1);
    }
}

proof fn lemma_void_childless(n: NodeModel)
    ensures
        void_childless(n) <==> ((html_void_element(n.tag) ==> n.children.len() == 0) && void_free(n.children)),
{
    lemma_void_free_upto(n.children, n.children.len() as int);
}

proof fn lemma_leaf_childless(tag: Seq<char>, classes: Seq<char>)
    ensures
        void_childless(leaf(tag, classes)),
{
    lemma_void_childless(leaf(tag, classes));
}

proof fn lemma_with_child_childless(p: NodeModel, c: NodeModel)
    requires
        void_childless(p),
        void_childless(c),
        !html_void_element(p.tag),
    ensures
        void_childless(with_child(p, c)),
        with_child(p, c).tag == p.tag,
{
    lemma_void_childless(p);
    lemma_void_childless(with_child(p, c));
    let ch = p.children.push(c);
    assert forall|i: int| 0 <= i < ch.len() implies void_childless(#[trigger] ch[i]) by {
        if i < p.children.len() {
            assert(ch[i] == p.children[i]);
        }
    }
}

proof fn lemma_with_text_childless(p: NodeModel, t: Seq<char>)
    requires
        void_childless(p),
    ensures
        void_childless(with_text(p, t)),
        with_text(p, t).tag == p.tag,
{
    lemma_void_childless(p);
    lemma_void_childless(with_text(p, t));
}

/// What the builder keeps while it reads: no void element has children, and
/// no open element is void.
pub open spec fn builder_ok(roots: Seq<NodeModel>, stack: Seq<NodeModel>) -> bool {
    &&& void_free(roots)
    &&& void_free(stack)
    &&& forall|i: int| 0 <= i < stack.len() ==> !html_void_element(#[trigger] stack[i].tag)
}

proof fn lemma_attach_ok(roots: Seq<NodeModel>, stack: Seq<NodeModel>, n: NodeModel)
    requires
        builder_ok(roots, stack),
        void_childless(n),
    ensures
        builder_ok(attach(roots, stack, n).0, attach(roots, stack, n).1),
{
    if stack.len() > 0 {
        let last = stack.last();
        assert(void_childless(stack[stack.len() - 1]));
        assert(!html_void_element(stack[stack.len() - 1].tag));
        lemma_with_child_childless(last, n);
        let k = attach(roots, stack, n).1;
        assert forall|i: int| 0 <= i < k.len() implies void_childless(#[trigger] k[i]) && !html_void_element(k[i].tag) by {
            if i < stack.len() - 1 {
                assert(k[i] == stack[i]);
            }
        }
    } else {
        let r = roots.push(n);
        assert forall|i: int| 0 <= i < r.len() implies void_childless(#[trigger] r[i]) by {
            if i < roots.len() {
                assert(r[i] == roots[i]);
            }
        }
    }
}

/// The tags that the builder treats as void are HTML's void elements.
proof fn lemma_void_tags(t: Seq<char>)
    ensures
        html_void_element(t) ==> is_void_tag(t),
{
}

proof fn lemma_last_tag_index(stack: Seq<NodeModel>, tag: Seq<char>)
    ensures
        -1 <= last_tag_index(stack, tag) < stack.len(),
    decreases stack.len(),
{
    if stack.len() > 0 && stack.last().tag != tag {
        lemma_last_tag_index(stack.drop_last(), tag);
    }
}

proof fn lemma_close_tag_ok(roots: Seq<NodeModel>, stack: Seq<NodeModel>, tag: Seq<char>)
    requires
        builder_ok(roots, stack),
    ensures
        builder_ok(close_tag(roots, stack, tag).0, close_tag(roots, stack, tag).1),
{
    if stack.len() > 0 {
        let n = stack.last();
        let rest = stack.drop_last();
        assert(void_childless(stack[stack.len() - 1]));
        assert(builder_ok(roots, rest)) by {
            assert forall|i: int| 0 <= i < rest.len() implies void_childless(#[trigger] rest[i]) && !html_void_element(rest[i].tag) by {
                assert(rest[i] == stack[i]);
            }
        }
        if n.tag == tag {
            lemma_attach_ok(roots, rest, n);
        } else {
            let j = last_tag_index(rest, tag);
            if j >= 0 {
                lemma_last_tag_index(rest, tag);
                let m = rest[j];
                let matched = NodeModel {
                    tag: m.tag,
                    classes: m.classes,
                    text: m.text,
                    children: m.children + rest.subrange(j + 1, rest.len() as int) + seq![n],
                };
                assert(void_childless(rest[j]));
                assert(!html_void_element(rest[j].tag));
                lemma_void_childless(m);
                lemma_void_childless(matched);
                let ch = matched.children;
                assert forall|i: int| 0 <= i < ch.len() implies void_childless(#[trigger] ch[i]) by {
                    if i < m.children.len() {
                        assert(ch[i] == m.children[i]);
                    } else if i < m.children.len() + rest.len() - (j + 1) {
                        assert(ch[i] == rest[i - m.children.len() + j + 1]);
                    } else {
                        assert(ch[i] == n);
                    }
                }
                let pre = rest.subrange(0, j);
                assert(builder_ok(roots, pre)) by {
                    assert forall|i: int| 0 <= i < pre.len() implies void_childless(#[trigger] pre[i]) && !html_void_element(pre[i].tag) by {
                        assert(pre[i] == rest[i]);
                    }
                }
                lemma_attach_ok(roots, pre, matched);
            } else {
                let r = roots + rest + seq![n];
                assert forall|i: int| 0 <= i < r.len() implies void_childless(#[trigger] r[i]) by {
                    if i < roots.len() {
                        assert(r[i] == roots[i]);
                    } else if i < roots.len() + rest.len() {
                        assert(r[i] == rest[i - roots.len()]);
                    } else {
                        assert(r[i] == n);
                    }
                }
            }
        }
    }
}

proof fn lemma_step_ok(s: Seq<char>, st: TreeState)
    requires
        0 <= st.pos < s.len(),
        builder_ok(st.roots, st.stack),
    ensures
        builder_ok(tree_step(s, st).roots, tree_step(s, st).stack),
{
    let p = st.pos;
    if s[p] == '<' {
        if p + 4 < s.len() && s[p + 1] == '!' && s[p + 2] == '-' && s[p + 3] == '-' && comment_close(s, p) >= 0 {
        } else if p + 2 < s.len() && s[p + 1] == '!' && index_of_from(s, '>', p) < s.len() {
        } else if p + 2 < s.len() && s[p + 1] == '/' {
            let i = st.pos + 2;
            let te = scan_to(s, i, 2);
            let tag = lower_ascii(s.subrange(i, te));
            lemma_close_tag_ok(st.roots, st.stack, tag);
        } else {
            let q = st.pos + 1;
            let te = scan_to(s, q, 0);
            let tag = lower_ascii(s.subrange(q, te));
            if tag.len() > 0 {
                let (i, classes, closed) = attrs(s, te, seq![], false);
                let n = leaf(tag, classes);
                lemma_leaf_childless(tag, classes);
                lemma_void_tags(tag);
                if closed || is_void_tag(tag) {
                    lemma_attach_ok(st.roots, st.stack, n);
                } else {
                    let k = st.stack.push(n);
                    assert forall|i: int| 0 <= i < k.len() implies void_childless(#[trigger] k[i]) && !html_void_element(k[i].tag) by {
                        if i < st.stack.len() {
                            assert(k[i] == st.stack[i]);
                        }
                    }
                }
            }
        }
    } else {
        let e = index_of_from(s, '<', p);
        let t = trim(s.subrange(p, e));
        if t.len() > 0 && st.stack.len() > 0 {
            let last = st.stack.last();
            assert(void_childless(st.stack[st.stack.len() - 1]));
            lemma_with_text_childless(last, t);
            let k = st.stack.update(st.stack.len() - 1, with_text(last, t));
            assert forall|i: int| 0 <= i < k.len() implies void_childless(#[trigger] k[i]) && !html_void_element(k[i].tag) by {
                if i < st.stack.len() - 1 {
                    assert(k[i] == st.stack[i]);
                }
            }
        }
    }
}

proof fn lemma_run_ok(s: Seq<char>, st: TreeState)
    requires
        builder_ok(st.roots, st.stack),
    ensures
        builder_ok(tree_run(s, st).roots, tree_run(s, st).stack),
    decreases s.len() - st.pos,
{
    if 0 <= st.pos < s.len() {
        lemma_step_advances(s, st);
        lemma_step_ok(s, st);
        lemma_run_ok(s, tree_step(s, st));
    }
}

proof fn lemma_flush_ok(roots: Seq<NodeModel>, stack: Seq<NodeModel>)
    requires
        builder_ok(roots, stack),
    ensures
        void_free(flush(roots, stack)),
    decreases stack.len(),
{
    if stack.len() > 0 {
        let rest = stack.drop_last();
        assert(void_childless(stack[stack.len() - 1]));
        assert(builder_ok(roots, rest)) by {
            assert forall|i: int| 0 <= i < rest.len() implies void_childless(#[trigger] rest[i]) && !html_void_element(rest[i].tag) by {
                assert(rest[i] == stack[i]);
            }
        }
        lemma_attach_ok(roots, rest, stack.last());
        let (r, k) = attach(roots, rest, stack.last());
        lemma_flush_ok(r, k);
    }
}

/// In the element tree of any HTML source, no void element (such as `input`,
/// `img` or `br`) has children, at any depth: what follows a void element
/// belongs to its parent.
pub proof fn law_void_elements_have_no_children(source: Seq<char>)
    ensures
        void_free(html_tree(source)),
{
    let st0 = TreeState { pos: 0, roots: seq![], stack: seq![] };
    lemma_run_ok(source, st0);
    let st = tree_run(source, st0);
    lemma_flush_ok(st.roots, st.stack);
}

} // verus!
