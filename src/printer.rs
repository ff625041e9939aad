//! Renders the parsed items as Markdown text, as lists or as tables.
//!
//! Resources are always listed with a colon after the name, also when they
//! have no description; inputs and outputs without a description are listed
//! by name alone.

use vstd::prelude::*;

use crate::text::starts_with;
use crate::types::{
    items_view, join_description, joined, strings_view, BlockType, DocItem, DocItemView,
};

verus! {

/// Each line followed by a line break.
pub open spec fn line_list(d: Seq<Seq<char>>) -> Seq<char>
    decreases d.len(),
{
    if d.len() == 0 {
        Seq::empty()
    } else {
        line_list(d.drop_last()) + d.last() + "\n"@
    }
}

/// The title block of a comment item: its first line, without the `Title: `
/// marker, as a level-one heading, then its other lines.
pub open spec fn title_block(d: Seq<Seq<char>>) -> Seq<char> {
    "# "@ + d[0].skip("Title: "@.len() as int) + "\n\n"@ + line_list(d.skip(1))
}

/// Every comment item's description starts with a `Title: ` line.
pub open spec fn titles_well_formed(items: Seq<DocItemView>) -> bool {
    forall|k: int|
        0 <= k < items.len() && (#[trigger] items[k]).category == BlockType::Comment
            ==> items[k].description.len() > 0 && starts_with(
            items[k].description[0],
            "Title: "@,
        )
}

/// The title blocks of the comment items, in order.
pub open spec fn titles(items: Seq<DocItemView>) -> Seq<char>
    recommends
        titles_well_formed(items),
    decreases items.len(),
{
    if items.len() == 0 {
        Seq::empty()
    } else if items.last().category == BlockType::Comment {
        titles(items.drop_last()) + title_block(items.last().description)
    } else {
        titles(items.drop_last())
    }
}

/// Creates the level-one title blocks.
fn print_title_blocks(result: &[DocItem], out: &mut String)
    requires
        titles_well_formed(items_view(result@)),
    ensures
        final(out)@ == old(out)@ + titles(items_view(result@)),
{
    let ghost all = items_view(result@);
    let ghost start = out@;
    let marker = "Title: ".unicode_len();
    let mut i: usize = 0;
    while i < result.len()
        invariant
            i <= result@.len(),
            all == items_view(result@),
            titles_well_formed(all),
            marker == "Title: "@.len(),
            out@ == start + titles(all.take(i as int)),
        decreases result@.len() - i,
    {
        let ghost t = all.take(i + 1);
        assert(t.drop_last() =~= all.take(i as int));
        assert(t.last() == result@[i as int]@);
        let item = &result[i];
        if item.category == BlockType::Comment {
            let d = &item.description;
            let ghost dv = strings_view(d@);
            assert(all[i as int].category == BlockType::Comment);
            let first = d[0].as_str();
            let n = first.unicode_len();
            let mut block = String::from_str("# ");
            block.append(first.substring_char(marker, n));
            block.append("\n\n");
            let mut j: usize = 1;
            assert(dv.skip(1).take(0) =~= Seq::<Seq<char>>::empty());
            while j < d.len()
                invariant
                    1 <= j <= d@.len(),
                    dv == strings_view(d@),
                    dv.len() > 0,
                    block@ == "# "@ + dv[0].skip(marker as int) + "\n\n"@ + line_list(
                        dv.skip(1).take(j - 1),
                    ),
                decreases d@.len() - j,
            {
                assert(dv.skip(1).take(j as int).drop_last() =~= dv.skip(1).take(j - 1));
                assert(dv.skip(1).take(j as int).last() == d@[j as int]@);
                block.append(d[j].as_str());
                block.append("\n");
                j += 1;
            }
            assert(dv.skip(1).take(d@.len() - 1) =~= dv.skip(1));
            assert(first@.subrange(marker as int, n as int) =~= dv[0].skip(marker as int));
            out.append(block.as_str());
            assert(out@ =~= start + titles(all.take(i + 1)));
        }
        i += 1;
    }
    assert(all.take(result@.len() as int) =~= all);
}


/// Some item of `items` has category `c`.
pub open spec fn has_category(items: Seq<DocItemView>, c: BlockType) -> bool
    decreases items.len(),
{
    items.len() > 0 && (has_category(items.drop_last(), c) || items.last().category == c)
}

/// The heading of the section of category `c`: `Resources`, `Inputs` for
/// variables, `Outputs`; in table form followed by the table's head.
pub open spec fn section_header(c: BlockType, as_table: bool) -> Seq<char> {
    if as_table {
        if c == BlockType::Resource {
            "\n## Resources\n\n|Resource|Description|\n|-----|---------|\n"@
        } else if c == BlockType::Variable {
            "\n## Inputs\n\n|Input|Description|\n|-----|---------|\n"@
        } else {
            "\n## Outputs\n\n|Output|Description|\n|-----|---------|\n"@
        }
    } else {
        if c == BlockType::Resource {
            "\n## Resources\n\n"@
        } else if c == BlockType::Variable {
            "\n## Inputs\n\n"@
        } else {
            "\n## Outputs\n\n"@
        }
    }
}

fn section_header_text(c: BlockType, as_table: bool) -> (r: &'static str)
    ensures
        r@ == section_header(c, as_table),
{
    if as_table {
        if c == BlockType::Resource {
            "\n## Resources\n\n|Resource|Description|\n|-----|---------|\n"
        } else if c == BlockType::Variable {
            "\n## Inputs\n\n|Input|Description|\n|-----|---------|\n"
        } else {
            "\n## Outputs\n\n|Output|Description|\n|-----|---------|\n"
        }
    } else {
        if c == BlockType::Resource {
            "\n## Resources\n\n"
        } else if c == BlockType::Variable {
            "\n## Inputs\n\n"
        } else {
            "\n## Outputs\n\n"
        }
    }
}

/// The line of one item: a table row, or a list entry. A list entry leaves
/// out the colon when a variable or an output has no description.
pub open spec fn entry(item: DocItemView, as_table: bool) -> Seq<char> {
    if as_table {
        "|`"@ + item.name + "`|"@ + joined(item.description) + "|\n"@
    } else if item.category != BlockType::Resource && item.description.len() == 0 {
        "* `"@ + item.name + "`\n"@
    } else {
        "* `"@ + item.name + "`: "@ + joined(item.description) + "\n"@
    }
}

/// The section of category `c`: the heading before the first item of that
/// category, then one line for each such item, in order; nothing when there
/// is none.
pub open spec fn section(items: Seq<DocItemView>, c: BlockType, as_table: bool) -> Seq<char>
    decreases items.len(),
{
    if items.len() == 0 {
        Seq::empty()
    } else if items.last().category == c {
        section(items.drop_last(), c, as_table) + (if has_category(items.drop_last(), c) {
            Seq::empty()
        } else {
            section_header(c, as_table)
        }) + entry(items.last(), as_table)
    } else {
        section(items.drop_last(), c, as_table)
    }
}

fn entry_text(item: &DocItem, as_table: bool) -> (r: String)
    ensures
        r@ == entry(item@, as_table),
{
    let mut r = String::new();
    if as_table {
        r.append("|`");
        r.append(item.name.as_str());
        r.append("`|");
        r.append(join_description(&item.description).as_str());
        r.append("|\n");
    } else if item.category != BlockType::Resource && item.description.len() == 0 {
        r.append("* `");
        r.append(item.name.as_str());
        r.append("`\n");
    } else {
        r.append("* `");
        r.append(item.name.as_str());
        r.append("`: ");
        r.append(join_description(&item.description).as_str());
        r.append("\n");
    }
    r
}

/// Outputs the section of one category, as a list or as a table.
fn print_section(result: &[DocItem], c: BlockType, as_table: bool, out: &mut String)
    ensures
        final(out)@ == old(out)@ + section(items_view(result@), c, as_table),
{
    let ghost all = items_view(result@);
    let ghost start = out@;
    let mut seen = false;
    let mut i: usize = 0;
    while i < result.len()
        invariant
            i <= result@.len(),
            all == items_view(result@),
            seen == has_category(all.take(i as int), c),
            out@ == start + section(all.take(i as int), c, as_table),
        decreases result@.len() - i,
    {
        let ghost t = all.take(i + 1);
        assert(t.drop_last() =~= all.take(i as int));
        assert(t.last() == result@[i as int]@);
        let item = &result[i];
        if item.category == c {
            if !seen {
                out.append(section_header_text(c, as_table));
                seen = true;
            }
            out.append(entry_text(item, as_table).as_str());
            assert(out@ =~= start + section(t, c, as_table));
        }
        i += 1;
    }
    assert(all.take(result@.len() as int) =~= all);
}

/// The whole document: the title blocks, then the sections of resources,
/// inputs and outputs.
pub open spec fn document(items: Seq<DocItemView>, as_table: bool) -> Seq<char> {
    titles(items) + section(items, BlockType::Resource, as_table) + section(
        items,
        BlockType::Variable,
        as_table,
    ) + section(items, BlockType::Output, as_table)
}

/// Renders the items as Markdown: the title blocks, then the resources,
/// inputs and outputs, as lists or, with `as_table`, as tables.
pub fn render(result: &[DocItem], as_table: bool) -> (r: String)
    requires
        titles_well_formed(items_view(result@)),
    ensures
        r@ == document(items_view(result@), as_table),
{
    let mut out = String::new();
    print_title_blocks(result, &mut out);
    print_section(result, BlockType::Resource, as_table, &mut out);
    print_section(result, BlockType::Variable, as_table, &mut out);
    print_section(result, BlockType::Output, as_table, &mut out);
    assert(out@ =~= document(items_view(result@), as_table));
    out
}


/// One line for each file name, in order, as table rows or list entries.
pub open spec fn file_lines(names: Seq<Seq<char>>, as_table: bool) -> Seq<char>
    decreases names.len(),
{
    if names.len() == 0 {
        Seq::empty()
    } else {
        file_lines(names.drop_last(), as_table) + (if as_table {
            "|`"@ + names.last() + "`||\n"@
        } else {
            "* `"@ + names.last() + "`\n"@
        })
    }
}

/// The section that lists the files read.
pub open spec fn files_section(names: Seq<Seq<char>>, as_table: bool) -> Seq<char> {
    "\n## Files\n\n"@ + (if as_table {
        "|File Name|Description|\n|-----|---------|\n"@
    } else {
        Seq::empty()
    }) + file_lines(names, as_table)
}

/// Renders the list of files, as a list or, with `as_table`, as a table.
pub fn render_files(names: &Vec<String>, as_table: bool) -> (r: String)
    ensures
        r@ == files_section(strings_view(names@), as_table),
{
    let ghost all = strings_view(names@);
    let mut out = String::from_str("\n## Files\n\n");
    if as_table {
        out.append("|File Name|Description|\n|-----|---------|\n");
    }
    let ghost start = out@;
    let mut i: usize = 0;
    while i < names.len()
        invariant
            i <= names@.len(),
            all == strings_view(names@),
            out@ == start + file_lines(all.take(i as int), as_table),
        decreases names@.len() - i,
    {
        assert(all.take(i + 1).drop_last() =~= all.take(i as int));
        assert(all.take(i + 1).last() == names@[i as int]@);
        if as_table {
            out.append("|`");
            out.append(names[i].as_str());
            out.append("`||\n");
        } else {
            out.append("* `");
            out.append(names[i].as_str());
            out.append("`\n");
        }
        i += 1;
        assert(out@ =~= start + file_lines(all.take(i as int), as_table));
    }
    assert(all.take(names@.len() as int) =~= all);
    assert(out@ =~= files_section(all, as_table));
    out
}


} // verus!
