use tfdoc::parser::parse_lines;
use tfdoc::printer::{render, render_files};
use tfdoc::types::{BlockType, DocItem};

fn item(category: BlockType, name: &str, description: &[&str]) -> DocItem {
    let mut d = DocItem::new();
    d.category = category;
    d.name = name.to_string();
    d.description = description.iter().map(|s| s.to_string()).collect();
    d
}

fn example_items() -> Vec<DocItem> {
    let lines: Vec<String> = [
        "# Title: Example",
        "# This is a demo.",
        "",
        "resource \"aws_instance\" \"web\" {",
        "}",
        "variable \"region\" {",
        "  description = \"AWS region\"",
        "}",
        "output \"ip\" {",
        "}",
    ]
    .iter()
    .map(|l| l.to_string())
    .collect();
    parse_lines(&lines)
}

#[test]
fn renders_lists() {
    let expected = "# Example\n\nThis is a demo.\n\
        \n## Resources\n\n* `aws_instance.web`: \n\
        \n## Inputs\n\n* `region`: AWS region\n\
        \n## Outputs\n\n* `ip`\n";
    assert_eq!(render(&example_items(), false), expected);
}

#[test]
fn renders_tables() {
    let expected = "# Example\n\nThis is a demo.\n\
        \n## Resources\n\n|Resource|Description|\n|-----|---------|\n|`aws_instance.web`||\n\
        \n## Inputs\n\n|Input|Description|\n|-----|---------|\n|`region`|AWS region|\n\
        \n## Outputs\n\n|Output|Description|\n|-----|---------|\n|`ip`||\n";
    assert_eq!(render(&example_items(), true), expected);
}

#[test]
fn renders_nothing_for_no_items() {
    assert_eq!(render(&[], false), "");
    assert_eq!(render(&[], true), "");
}

#[test]
fn joins_description_lines_with_spaces() {
    let items = vec![
        item(BlockType::Variable, "a", &["one", "two", "three"]),
        item(BlockType::Variable, "b", &[]),
        item(BlockType::Resource, "r", &["x", "y"]),
    ];
    let expected = "\n## Resources\n\n* `r`: x y\n\n## Inputs\n\n* `a`: one two three\n* `b`\n";
    assert_eq!(render(&items, false), expected);
}

#[test]
fn files_section() {
    let names = vec!["main.tf".to_string(), "vars.tf".to_string()];
    assert_eq!(render_files(&names, false), "\n## Files\n\n* `main.tf`\n* `vars.tf`\n");
    assert_eq!(
        render_files(&names, true),
        "\n## Files\n\n|File Name|Description|\n|-----|---------|\n|`main.tf`||\n|`vars.tf`||\n"
    );
    assert_eq!(render_files(&Vec::new(), false), "\n## Files\n\n");
}

#[test]
fn item_as_text() {
    assert_eq!(item(BlockType::Variable, "v", &["a", "b"]).to_string(), "`v`: a b");
    assert_eq!(item(BlockType::Comment, "", &["a", "b"]).to_string(), "a b");
    assert_eq!(item(BlockType::Output, "o", &[]).to_string(), "`o`: ");
}
