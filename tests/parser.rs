use tfdoc::parser::{
    collect_items, get_line_variant, parse_comment, parse_description, parse_interface,
    parse_line, parse_lines, parse_resource, Directive,
};
use tfdoc::types::{BlockType, DocItem};

fn lines_of(text: &[&str]) -> Vec<String> {
    text.iter().map(|l| l.to_string()).collect()
}

fn assert_item(item: &DocItem, category: BlockType, name: &str, description: &[&str]) {
    assert_eq!(item.category, category);
    assert_eq!(item.name, name);
    assert_eq!(item.description, description.iter().map(|d| d.to_string()).collect::<Vec<_>>());
}

#[test]
fn get_line_variant_resource() {
    let line = r#"resource "foo" "bar" {"#;
    match get_line_variant(line) {
        BlockType::Resource => {}
        _ => panic!("Type error! Expected Resource but found something else."),
    }
}

#[test]
fn get_line_variant_output() {
    let line = r#"output "foo" {"#;
    match get_line_variant(line) {
        BlockType::Output => {}
        _ => panic!("Type error! Expected Output but found something else."),
    }
}

#[test]
fn get_line_variant_variable() {
    let line = r#"variable "foo" {"#;
    match get_line_variant(line) {
        BlockType::Variable => {}
        _ => panic!("Type error! Expected Variable but found something else."),
    }
}

#[test]
fn get_line_variant_comment() {
    let line = r#"# foo"#;
    match get_line_variant(line) {
        BlockType::Comment => {}
        _ => panic!("Type error! Expected Comment but found something else."),
    }
}

#[test]
fn get_line_variant_comment2() {
    let line = r#"#foo"#;
    match get_line_variant(line) {
        BlockType::Comment => {}
        _ => panic!("Type error! Expected Comment but found something else."),
    }
}

#[test]
fn get_line_variant_none() {
    let line = r#"  foo"#;
    match get_line_variant(line) {
        BlockType::Plain => {}
        _ => panic!("Type error! Expected None but found someething else."),
    }
}

#[test]
fn test_parse_resource() {
    let line = r#"resource "foo" "bar" {"#;
    assert_eq!(parse_resource(line), "foo.bar".to_string());
}

#[test]
fn test_parse_output() {
    let line = r#"output "foo" {"#;
    assert_eq!(parse_interface(line), "foo");
}

#[test]
fn test_parse_variable() {
    let line = r#"variable "foo" {"#;
    assert_eq!(parse_interface(line), "foo");
}

#[test]
fn test_parse_description() {
    let line = r#"  description = "foo bar""#;
    assert_eq!(parse_description(line), Some("foo bar"));
}

#[test]
fn test_parse_comment() {
    let line = String::from(r#"# foo bar"#);
    let result = DocItem::new();
    assert_eq!(parse_comment(line, result).description[0], "foo bar");
}

#[test]
fn test_parse_comment2() {
    let line = String::from(r#"#foo bar"#);
    let result = DocItem::new();
    assert_eq!(parse_comment(line, result).description[0], "foo bar");
}

#[test]
fn prefix_order_decides_category() {
    assert_eq!(get_line_variant("resource #x"), BlockType::Resource);
    assert_eq!(get_line_variant("#resource \"a\" \"b\" {"), BlockType::Comment);
    assert_eq!(get_line_variant("//variable \"a\" {"), BlockType::Comment);
    assert_eq!(get_line_variant("variable // x"), BlockType::Variable);
    assert_eq!(get_line_variant("output # x"), BlockType::Output);
    assert_eq!(get_line_variant("  resource \"a\" \"b\" {"), BlockType::Plain);
    assert_eq!(get_line_variant("resource\t\"a\" \"b\" {"), BlockType::Plain);
    assert_eq!(get_line_variant("/ not a comment"), BlockType::Plain);
    assert_eq!(get_line_variant(""), BlockType::Plain);
}

#[test]
fn extractors_strip_all_surrounding_quotes() {
    assert_eq!(parse_resource("resource \"\"a\"\" b {"), "a.b");
    assert_eq!(parse_interface("variable\u{3000}x {"), "x");
    assert_eq!(parse_interface("variable   \"spaced\"   {"), "spaced");
    assert_eq!(parse_description("description = foo"), None);
    assert_eq!(parse_description("description = \"\""), Some(""));
    assert_eq!(parse_description("x \"a \"b\" c\""), Some("a \"b\" c"));
}

#[test]
fn comment_markers_are_stripped() {
    assert_eq!(parse_comment("// foo  ".to_string(), DocItem::new()).description, vec!["foo"]);
    assert_eq!(parse_comment("////foo".to_string(), DocItem::new()).description, vec!["foo"]);
    assert_eq!(parse_comment("### foo #".to_string(), DocItem::new()).description, vec!["foo #"]);
    let empty = parse_comment("#   ".to_string(), DocItem::new());
    assert_eq!(empty.category, BlockType::Plain);
    assert!(empty.description.is_empty());
}

#[test]
fn single_line_block_closes_at_once() {
    let (item, d) = parse_line("resource \"x\" \"y\" {}".to_string(), DocItem::new());
    assert_eq!(d, Directive::Stop);
    assert_item(&item, BlockType::Resource, "x.y", &[]);
    let (item, d) = parse_line("output \"o\" {  ".to_string(), DocItem::new());
    assert_eq!(d, Directive::Continue);
    assert_item(&item, BlockType::Output, "o", &[]);
}

#[test]
fn header_without_names_is_passed_over() {
    let (item, d) = parse_line("resource \"only\" ".to_string(), DocItem::new());
    assert_eq!(d, Directive::Continue);
    assert_item(&item, BlockType::Plain, "", &[]);
    let (item, d) = parse_line("variable ".to_string(), DocItem::new());
    assert_eq!(d, Directive::Continue);
    assert_item(&item, BlockType::Plain, "", &[]);
}

#[test]
fn closing_brace_needs_a_category() {
    let (item, d) = parse_line("}".to_string(), DocItem::new());
    assert_eq!(d, Directive::Continue);
    assert_item(&item, BlockType::Plain, "", &[]);
}

#[test]
fn description_only_inside_interfaces() {
    let (res, _) = parse_line("resource \"a\" \"b\" {".to_string(), DocItem::new());
    let (res, _) = parse_line("  description = \"ignored\"".to_string(), res);
    assert_item(&res, BlockType::Resource, "a.b", &[]);
    let (var, _) = parse_line("variable \"v\" {".to_string(), DocItem::new());
    let (var, d) = parse_line("  description = \"kept\"".to_string(), var);
    assert_eq!(d, Directive::Continue);
    assert_item(&var, BlockType::Variable, "v", &["kept"]);
}

fn example_file() -> Vec<String> {
    lines_of(&[
        "# Title: Example",
        "# This is a demo.",
        "",
        "resource \"aws_instance\" \"web\" {",
        "}",
        "variable \"region\" {",
        "  description = \"AWS region\"",
        "}",
        "output \"ip\" {",
        "}",
    ])
}

#[test]
fn example_file_gives_its_items() {
    let items = parse_lines(&example_file());
    assert_eq!(items.len(), 4);
    assert_item(&items[0], BlockType::Comment, "", &["Title: Example", "This is a demo."]);
    assert_item(&items[1], BlockType::Resource, "aws_instance.web", &[]);
    assert_item(&items[2], BlockType::Variable, "region", &["AWS region"]);
    assert_item(&items[3], BlockType::Output, "ip", &[]);
}

#[test]
fn parsing_twice_gives_the_same_items() {
    let lines = example_file();
    let first = parse_lines(&lines);
    let second = parse_lines(&lines);
    assert_eq!(first.len(), second.len());
    for (a, b) in first.iter().zip(second.iter()) {
        assert_eq!(a.category, b.category);
        assert_eq!(a.name, b.name);
        assert_eq!(a.description, b.description);
    }
}

#[test]
fn unfinished_block_is_dropped() {
    let lines = lines_of(&[
        "# Title: T",
        "",
        "variable \"v\" {",
        "  description = \"never closed\"",
    ]);
    let items = collect_items(&lines);
    assert_eq!(items.len(), 1);
    assert_item(&items[0], BlockType::Comment, "", &["Title: T"]);
    assert!(collect_items(&lines_of(&["# a", "# b"])).is_empty());
    assert!(collect_items(&Vec::new()).is_empty());
}

#[test]
fn blank_line_splits_comment_runs() {
    let items = collect_items(&lines_of(&["# one", "", "# two", "   "]));
    assert_eq!(items.len(), 2);
    assert_item(&items[0], BlockType::Comment, "", &["one"]);
    assert_item(&items[1], BlockType::Comment, "", &["two"]);
}

#[test]
fn comment_before_header_joins_the_block() {
    let items = collect_items(&lines_of(&["# about x", "output \"x\" {", "}"]));
    assert_eq!(items.len(), 1);
    assert_item(&items[0], BlockType::Output, "x", &["about x"]);
}

#[test]
fn title_filter_drops_other_comments() {
    let lines = lines_of(&["# just a note", "", "# Title: Kept", "", "resource \"a\" \"b\" {}"]);
    assert_eq!(collect_items(&lines).len(), 3);
    let items = parse_lines(&lines);
    assert_eq!(items.len(), 2);
    assert_item(&items[0], BlockType::Comment, "", &["Title: Kept"]);
    assert_item(&items[1], BlockType::Resource, "a.b", &[]);
}
