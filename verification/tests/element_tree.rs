use headwind::element_tree::{
    add_component_root, build_html_element_tree, format_component_trees, format_element_tree, truncate_text, ComponentTree, ElementNode,
};

fn node(tag: &str, classes: &str, text: &str, children: Vec<ElementNode>) -> ElementNode {
    ElementNode { tag: tag.to_string(), classes: classes.to_string(), text: text.to_string(), children }
}

#[test]
fn test_format_simple_tree() {
    let tree = vec![ElementNode {
        tag: "div".to_string(),
        classes: "w-full h-20 border".to_string(),
        text: String::new(),
        children: vec![
            ElementNode {
                tag: "h2".to_string(),
                classes: "text-xl text-red-500".to_string(),
                text: String::new(),
                children: vec![],
            },
            ElementNode {
                tag: "p".to_string(),
                classes: String::new(),
                text: "xxxx".to_string(),
                children: vec![],
            },
            ElementNode {
                tag: "div".to_string(),
                classes: String::new(),
                text: "yyyy".to_string(),
                children: vec![ElementNode {
                    tag: "p".to_string(),
                    classes: "text-lg text-blue-500".to_string(),
                    text: String::new(),
                    children: vec![ElementNode {
                        tag: "span".to_string(),
                        classes: "text-sm".to_string(),
                        text: String::new(),
                        children: vec![],
                    }],
                }],
            },
        ],
    }];

    let result = format_element_tree(&tree);
    println!("{}", result);

    assert!(result.contains("- div w-full h-20 border [ref=e1]"));
    assert!(result.contains("  - h2 text-xl text-red-500 [ref=e2]"));
    assert!(result.contains("  - p: xxxx [ref=e3]"));
    assert!(result.contains("  - div: yyyy [ref=e4]"));
    assert!(result.contains("    - p text-lg text-blue-500 [ref=e5]"));
    assert!(result.contains("      - span text-sm [ref=e6]"));
}

#[test]
fn test_truncate_text_ascii() {
    assert_eq!(truncate_text("hello", 10), "hello");
    assert_eq!(truncate_text("hello world!", 10), "hello worl");
    assert_eq!(truncate_text("abcdefghij", 10), "abcdefghij");
    assert_eq!(truncate_text("abcdefghijk", 10), "abcdefghij");
}

#[test]
fn test_truncate_text_unicode() {
    assert_eq!(truncate_text("你好世界测试文本超过十个字", 10), "你好世界测试文本超过");
    assert_eq!(truncate_text("😀😁😂🤣😃😄😅😆😇😈😉", 10), "😀😁😂🤣😃😄😅😆😇😈");
    assert_eq!(truncate_text("你好", 10), "你好");
}

#[test]
fn test_html_tree_basic() {
    let html = r#"<div class="p-4 m-2"><p>Hello</p><span class="text-red-500">World</span></div>"#;
    let tree = build_html_element_tree(html);

    assert_eq!(tree.len(), 1);
    assert_eq!(tree[0].tag, "div");
    assert_eq!(tree[0].classes, "p-4 m-2");
    assert_eq!(tree[0].children.len(), 2);
    assert_eq!(tree[0].children[0].tag, "p");
    assert_eq!(tree[0].children[0].text, "Hello");
    assert_eq!(tree[0].children[1].tag, "span");
    assert_eq!(tree[0].children[1].classes, "text-red-500");
    assert_eq!(tree[0].children[1].text, "World");
}

#[test]
fn test_html_tree_nested() {
    let html = r#"<div class="flex"><div class="w-full"><p>text</p></div></div>"#;
    let tree = build_html_element_tree(html);

    assert_eq!(tree.len(), 1);
    assert_eq!(tree[0].children.len(), 1);
    assert_eq!(tree[0].children[0].children.len(), 1);

    let result = format_element_tree(&tree);
    println!("{}", result);
    assert!(result.contains("- div flex [ref=e1]"));
    assert!(result.contains("  - div w-full [ref=e2]"));
    assert!(result.contains("    - p: text [ref=e3]"));
}

#[test]
fn test_html_tree_void_elements() {
    let html = r#"<div><img src="a.png"><br><p>text</p></div>"#;
    let tree = build_html_element_tree(html);

    assert_eq!(tree.len(), 1);
    assert_eq!(tree[0].children.len(), 3);
    assert_eq!(tree[0].children[0].tag, "img");
    assert_eq!(tree[0].children[1].tag, "br");
    assert_eq!(tree[0].children[2].tag, "p");
}

#[test]
fn test_html_tree_with_doctype() {
    let html = r#"<!DOCTYPE html><html><body><div class="p-4">hello</div></body></html>"#;
    let tree = build_html_element_tree(html);

    let result = format_element_tree(&tree);
    println!("{}", result);
    assert!(result.contains("div p-4"));
}

#[test]
fn element_tree_exact_outline() {
    let tree = vec![node("div", "flex", "", vec![node("p", "", "  hello there world  ", vec![]), node("b", "x", "hi", vec![])])];
    assert_eq!(
        format_element_tree(&tree),
        "- div flex [ref=e1]\n  - p: hello ther [ref=e2]\n  - b x \"hi\" [ref=e3]"
    );
}

#[test]
fn element_tree_empty_forest() {
    assert_eq!(format_element_tree(&[]), "");
}

#[test]
fn element_tree_unclosed_and_mismatched_tags() {
    let tree = build_html_element_tree("<div><p>a<span>b</div><i>");
    assert_eq!(tree.len(), 2);
    assert_eq!(tree[0].tag, "div");
    assert_eq!(tree[0].children.len(), 2);
    assert_eq!(tree[0].children[0].tag, "p");
    assert_eq!(tree[0].children[0].text, "a");
    assert!(tree[0].children[0].children.is_empty());
    assert_eq!(tree[0].children[1].tag, "span");
    assert_eq!(tree[0].children[1].text, "b");
    assert_eq!(tree[1].tag, "i");
}

#[test]
fn element_tree_comments_and_text_joining() {
    let tree = build_html_element_tree("<DIV class=\"a\">one<!-- <p>no</p> --> two<br/></DIV>");
    assert_eq!(tree.len(), 1);
    assert_eq!(tree[0].tag, "div");
    assert_eq!(tree[0].classes, "a");
    assert_eq!(tree[0].text, "one two");
    assert_eq!(tree[0].children.len(), 1);
    assert_eq!(tree[0].children[0].tag, "br");
}

#[test]
fn element_tree_components_numbered_across() {
    let comps = vec![
        ComponentTree { name: "Header".to_string(), roots: vec![node("header", "w-full", "", vec![])] },
        ComponentTree { name: String::new(), roots: vec![node("div", "", "", vec![node("span", "p-2", "", vec![])])] },
    ];
    assert_eq!(
        format_component_trees(&comps),
        "## Header\n- header w-full [ref=e1]\n\n- div [ref=e2]\n  - span p-2 [ref=e3]"
    );
}

#[test]
fn element_tree_component_roots_grouped_by_name() {
    let mut comps: Vec<ComponentTree> = Vec::new();
    add_component_root(&mut comps, "App".to_string(), node("div", "", "", vec![]));
    add_component_root(&mut comps, "Header".to_string(), node("header", "", "", vec![]));
    add_component_root(&mut comps, "App".to_string(), node("p", "", "", vec![]));
    assert_eq!(comps.len(), 2);
    assert_eq!(comps[0].name, "App");
    assert_eq!(comps[0].roots.len(), 2);
    assert_eq!(comps[0].roots[1].tag, "p");
    assert_eq!(comps[1].name, "Header");
    assert_eq!(comps[1].roots.len(), 1);
}
