//! The line-oriented parser: classifies each line of a configuration file,
//! extracts names and descriptions from it, and accumulates lines into
//! documentation items.

use vstd::prelude::*;

use crate::text::{
    chars_of, has_prefix, skip_set, starts_with, trim, trim_bounds, trim_start, trimmed,
    word_spans, words, TrimSet,
};
use crate::types::{empty_item, items_view, strings_view, BlockType, DocItem, DocItemView};

verus! {

/// The category that the prefix of `line` gives, tested in a fixed order:
/// `resource `, `variable `, `output `, then `#` or `//` for a comment.
/// Anything else is a plain line.
pub open spec fn line_variant(line: Seq<char>) -> BlockType {
    if starts_with(line, "resource "@) {
        BlockType::Resource
    } else if starts_with(line, "variable "@) {
        BlockType::Variable
    } else if starts_with(line, "output "@) {
        BlockType::Output
    } else if starts_with(line, "#"@) || starts_with(line, "//"@) {
        BlockType::Comment
    } else {
        BlockType::Plain
    }
}

/// See if a line starts with any of the known variants and assign the
/// corresponding `BlockType`.
pub fn get_line_variant(line: &str) -> (r: BlockType)
    ensures
        r == line_variant(line@),
{
    let cs = chars_of(line);
    if has_prefix(&cs, "resource ") {
        BlockType::Resource
    } else if has_prefix(&cs, "variable ") {
        BlockType::Variable
    } else if has_prefix(&cs, "output ") {
        BlockType::Output
    } else if has_prefix(&cs, "#") || has_prefix(&cs, "//") {
        BlockType::Comment
    } else {
        BlockType::Plain
    }
}

/// The name of a `resource` header: its second and third words, each without
/// surrounding quotes, joined by a dot.
pub open spec fn resource_name(line: Seq<char>) -> Seq<char> {
    trim(words(line)[1], TrimSet::Quote) + "."@ + trim(words(line)[2], TrimSet::Quote)
}

/// The name of a `variable` or `output` header: its second word, without
/// surrounding quotes.
pub open spec fn interface_name(line: Seq<char>) -> Seq<char> {
    trim(words(line)[1], TrimSet::Quote)
}

/// Parse a `resource` block header.
pub fn parse_resource(line: &str) -> (r: String)
    requires
        words(line@).len() >= 3,
    ensures
        r@ == resource_name(line@),
{
    let cs = chars_of(line);
    let spans = word_spans(&cs);
    let (a, b) = trim_bounds(&cs, spans[1].0, spans[1].1, TrimSet::Quote);
    let (c, d) = trim_bounds(&cs, spans[2].0, spans[2].1, TrimSet::Quote);
    let r = String::from_str(line.substring_char(a, b)).concat(".").concat(
        line.substring_char(c, d),
    );
    r
}

/// Parse `variable` and `output` block headers.
pub fn parse_interface(line: &str) -> (r: String)
    requires
        words(line@).len() >= 2,
    ensures
        r@ == interface_name(line@),
{
    let cs = chars_of(line);
    let spans = word_spans(&cs);
    let (a, b) = trim_bounds(&cs, spans[1].0, spans[1].1, TrimSet::Quote);
    String::from_str(line.substring_char(a, b))
}

/// The rest of `s` from its first double quote on, if it has one.
pub open spec fn from_quote(s: Seq<char>) -> Option<Seq<char>>
    decreases s.len(),
{
    if s.len() == 0 {
        None
    } else if s[0] == '"' {
        Some(s)
    } else {
        from_quote(s.drop_first())
    }
}

/// The value of a `description = "..."` line: what follows its first double
/// quote, without surrounding quotes; nothing if it has no quote.
pub open spec fn description_value(line: Seq<char>) -> Option<Seq<char>> {
    match from_quote(line) {
        Some(t) => Some(trim(t, TrimSet::Quote)),
        None => None,
    }
}

/// Parse `description` items.
pub fn parse_description(line: &str) -> (r: Option<&str>)
    ensures
        match r {
            Some(v) => description_value(line@) == Some(v@),
            None => description_value(line@) is None,
        },
{
    let cs = chars_of(line);
    let n = cs.len();
    let mut i: usize = 0;
    assert(cs@.subrange(0, n as int) =~= cs@);
    while i < n && cs[i] != '"'
        invariant
            i <= n == cs@.len(),
            cs@ == line@,
            from_quote(line@) == from_quote(cs@.subrange(i as int, n as int)),
        decreases n - i,
    {
        assert(cs@.subrange(i as int, n as int).drop_first() =~= cs@.subrange(
            i + 1,
            n as int,
        ));
        i += 1;
    }
    if i == n {
        None
    } else {
        let (a, b) = trim_bounds(&cs, i, n, TrimSet::Quote);
        Some(line.substring_char(a, b))
    }
}

/// `s` without the `//` pairs at its start.
pub open spec fn strip_slashes(s: Seq<char>) -> Seq<char>
    decreases s.len(),
{
    if s.len() >= 2 && s[0] == '/' && s[1] == '/' {
        strip_slashes(s.skip(2))
    } else {
        s
    }
}

/// The text of a comment line: the line without its leading `#` marks (or,
/// when it does not start with `#`, its leading `//` pairs), trimmed.
pub open spec fn comment_text(line: Seq<char>) -> Seq<char> {
    if line.len() > 0 && line[0] == '#' {
        trimmed(trim_start(line, TrimSet::Hash))
    } else {
        trimmed(strip_slashes(line))
    }
}

/// What a comment line does to the item in progress: a non-empty comment
/// text makes it a comment and is appended to its description.
pub open spec fn comment_step(item: DocItemView, line: Seq<char>) -> DocItemView {
    let t = comment_text(line);
    if t.len() > 0 {
        DocItemView { category: BlockType::Comment, description: item.description.push(t), ..item }
    } else {
        item
    }
}

/// Parse comment lines.
pub fn parse_comment(line: String, mut result: DocItem) -> (r: DocItem)
    ensures
        r@ == comment_step(result@, line@),
{
    let s = line.as_str();
    let cs = chars_of(s);
    let n = cs.len();
    assert(cs@.subrange(0, n as int) =~= cs@);
    let start = if n > 0 && cs[0] == '#' {
        skip_set(&cs, 0, n, TrimSet::Hash)
    } else {
        let mut a: usize = 0;
        while n - a >= 2 && cs[a] == '/' && cs[a + 1] == '/'
            invariant
                a <= n == cs@.len(),
                strip_slashes(cs@) == strip_slashes(cs@.subrange(a as int, n as int)),
            decreases n - a,
        {
            assert(cs@.subrange(a as int, n as int).skip(2) =~= cs@.subrange(a + 2, n as int));
            a += 2;
        }
        a
    };
    let (a, b) = trim_bounds(&cs, start, n, TrimSet::Space);
    if a < b {
        let ghost before = result.description@;
        result.category = BlockType::Comment;
        result.description.push(String::from_str(s.substring_char(a, b)));
        assert(strings_view(result.description@) =~= strings_view(
            before,
        ).push(cs@.subrange(a as int, b as int)));
    }
    result
}

/// What a line asks of the item in progress once it has been read.
#[derive(Debug, Clone, Copy, PartialEq, Eq, Structural)]
pub enum Directive {
    /// Keep adding lines to the item.
    Continue,
    /// The item is complete.
    Stop,
}

/// The block categories that a header line opens.
pub open spec fn is_header(c: BlockType) -> bool {
    c == BlockType::Resource || c == BlockType::Variable || c == BlockType::Output
}

/// The number of words that a header of category `c` needs: the keyword
/// and one name, or two for a resource.
pub open spec fn header_words(c: BlockType) -> nat {
    if c == BlockType::Resource {
        3
    } else {
        2
    }
}

/// The name that a header line of category `c` gives.
pub open spec fn header_name(line: Seq<char>, c: BlockType) -> Seq<char> {
    if c == BlockType::Resource {
        resource_name(line)
    } else {
        interface_name(line)
    }
}

/// The line, trimmed, ends with the closing brace.
pub open spec fn closes_block(line: Seq<char>) -> bool {
    trimmed(line).len() > 0 && trimmed(line).last() == '}'
}

/// Parse the header line of a `resource`, `variable` or `output` block: the
/// item takes the category and the name, and the block ends here when the
/// line closes it.
pub fn parse_regular(line: String, mut result: DocItem, category: BlockType) -> (r: (
    DocItem,
    Directive,
))
    requires
        is_header(category),
        words(line@).len() >= header_words(category),
    ensures
        r.0@ == (DocItemView {
            category,
            name: header_name(line@, category),
            ..result@
        }),
        r.1 == (if closes_block(line@) {
            Directive::Stop
        } else {
            Directive::Continue
        }),
{
    result.category = category;
    result.name = if category == BlockType::Resource {
        parse_resource(line.as_str())
    } else {
        parse_interface(line.as_str())
    };
    let cs = chars_of(line.as_str());
    let (a, b) = trim_bounds(&cs, 0, cs.len(), TrimSet::Space);
    assert(cs@.subrange(0, cs@.len() as int) =~= cs@);
    if a < b && cs[b - 1] == '}' {
        (result, Directive::Stop)
    } else {
        (result, Directive::Continue)
    }
}


/// What one line does to the item in progress, and whether the item is then
/// complete.
///
/// A header line with its names sets the category and the name, and ends the
/// block when it closes it on the same line; a header line without its names
/// is passed over. A comment line adds its text. Among the other lines, one
/// starting with `}` ends an item that has a category, a blank line ends a
/// comment, and a `description` line adds its quoted value to a variable or
/// an output.
pub open spec fn line_step(item: DocItemView, line: Seq<char>) -> (DocItemView, Directive) {
    let c = line_variant(line);
    if is_header(c) {
        if words(line).len() >= header_words(c) {
            (
                DocItemView { category: c, name: header_name(line, c), ..item },
                if closes_block(line) {
                    Directive::Stop
                } else {
                    Directive::Continue
                },
            )
        } else {
            (item, Directive::Continue)
        }
    } else if c == BlockType::Comment {
        (comment_step(item, line), Directive::Continue)
    } else if starts_with(line, "}"@) && item.category != BlockType::Plain {
        (item, Directive::Stop)
    } else if trimmed(line).len() == 0 && item.category == BlockType::Comment {
        (item, Directive::Stop)
    } else if (item.category == BlockType::Variable || item.category == BlockType::Output)
        && starts_with(trimmed(line), "description"@) {
        match description_value(line) {
            Some(v) => (
                DocItemView { description: item.description.push(v), ..item },
                Directive::Continue,
            ),
            None => (item, Directive::Continue),
        }
    } else {
        (item, Directive::Continue)
    }
}

/// Parse an individual line and return the updated item and what to do next.
pub fn parse_line(line: String, mut result: DocItem) -> (r: (DocItem, Directive))
    ensures
        (r.0@, r.1) == line_step(result@, line@),
{
    let variant = get_line_variant(line.as_str());
    let cs = chars_of(line.as_str());
    match variant {
        BlockType::Resource | BlockType::Variable | BlockType::Output => {
            let needed: usize = if variant == BlockType::Resource {
                3
            } else {
                2
            };
            if word_spans(&cs).len() >= needed {
                parse_regular(line, result, variant)
            } else {
                (result, Directive::Continue)
            }
        },
        BlockType::Comment => (parse_comment(line, result), Directive::Continue),
        BlockType::Plain => {
            let (a, b) = trim_bounds(&cs, 0, cs.len(), TrimSet::Space);
            assert(cs@.subrange(0, cs@.len() as int) =~= cs@);
            if (has_prefix(&cs, "}") && result.category != BlockType::Plain) || (a == b
                && result.category == BlockType::Comment) {
                return (result, Directive::Stop);
            }
            if result.category == BlockType::Variable || result.category == BlockType::Output {
                let t = chars_of(line.as_str().substring_char(a, b));
                if has_prefix(&t, "description") {
                    if let Some(description) = parse_description(line.as_str()) {
                        let ghost before = result.description@;
                        result.description.push(String::from_str(description));
                        assert(strings_view(result.description@)
                            =~= strings_view(before).push(description@));
                    }
                }
            }
            (result, Directive::Continue)
        },
    }
}


/// The items completed, and the item in progress, once `lines` have been
/// read one by one, starting from a fresh item. An item is completed when a
/// line stops it; a fresh item then takes its place.
pub open spec fn accumulate(lines: Seq<Seq<char>>) -> (Seq<DocItemView>, DocItemView)
    decreases lines.len(),
{
    if lines.len() == 0 {
        (Seq::empty(), empty_item())
    } else {
        let (done, current) = accumulate(lines.drop_last());
        let (next, d) = line_step(current, lines.last());
        if d == Directive::Stop {
            (done.push(next), empty_item())
        } else {
            (done, next)
        }
    }
}

/// The items that `lines` complete, in order. The item still in progress at
/// the end is not among them.
pub open spec fn completed_items(lines: Seq<Seq<char>>) -> Seq<DocItemView> {
    accumulate(lines).0
}

/// Reads the lines one by one and returns every item that a line completes,
/// in order; an item left unfinished at the end is dropped.
pub fn collect_items(lines: &Vec<String>) -> (r: Vec<DocItem>)
    ensures
        items_view(r@) == completed_items(strings_view(lines@)),
{
    let ghost all = strings_view(lines@);
    let mut result: Vec<DocItem> = Vec::new();
    let mut current = DocItem::new();
    let mut i: usize = 0;
    while i < lines.len()
        invariant
            i <= lines@.len(),
            all == strings_view(lines@),
            (items_view(result@), current@) == accumulate(all.take(i as int)),
        decreases lines@.len() - i,
    {
        assert(all.take(i + 1).drop_last() =~= all.take(i as int));
        let ghost before = items_view(result@);
        let (next, d) = parse_line(lines[i].clone(), current);
        if d == Directive::Stop {
            result.push(next);
            assert(items_view(result@) =~= before.push(next@));
            current = DocItem::new();
        } else {
            current = next;
        }
        i += 1;
    }
    assert(all.take(lines@.len() as int) =~= all);
    result
}

/// Whether the title filter keeps `item`: every item that is not a comment,
/// and a comment whose first line starts with `Title: `.
pub open spec fn keeps_item(item: DocItemView) -> bool {
    item.category != BlockType::Comment || item.description.len() == 0 || starts_with(
        item.description[0],
        "Title: "@,
    )
}

/// The items of `items` that the title filter keeps, in order.
pub open spec fn title_filter(items: Seq<DocItemView>) -> Seq<DocItemView>
    decreases items.len(),
{
    if items.len() == 0 {
        Seq::empty()
    } else {
        let kept = title_filter(items.drop_last());
        if keeps_item(items.last()) {
            kept.push(items.last())
        } else {
            kept
        }
    }
}

/// Keeps the items that the title filter keeps: comment blocks other than the
/// `Title: ` block are incidental and dropped.
pub fn keep_titles(items: Vec<DocItem>) -> (r: Vec<DocItem>)
    ensures
        items_view(r@) == title_filter(items_view(items@)),
{
    let ghost all = items_view(items@);
    let ghost n = items@.len();
    let mut rest = items;
    let mut result: Vec<DocItem> = Vec::new();
    while rest.len() > 0
        invariant
            all.len() == n,
            rest@.len() <= n,
            items_view(rest@) == all.skip(n - rest@.len()),
            items_view(result@) == title_filter(all.take(n - rest@.len())),
        decreases rest@.len(),
    {
        let ghost k = n - rest@.len();
        let ghost before = items_view(result@);
        let ghost old_rest = rest@;
        assert(items_view(old_rest)[0] == all.skip(k)[0]);
        let item = rest.remove(0);
        assert(item@ == all[k]);
        assert(all.take(k + 1).drop_last() =~= all.take(k));
        assert forall|j: int| 0 <= j < rest@.len() implies #[trigger] items_view(rest@)[j] == all.skip(
            k + 1,
        )[j] by {
            assert(rest@[j] == old_rest[j + 1]);
            assert(items_view(old_rest)[j + 1] == all.skip(k)[j + 1]);
        }
        assert(items_view(rest@) =~= all.skip(k + 1));
        let first = item.description.len() > 0;
        let keep = if item.category != BlockType::Comment || !first {
            true
        } else {
            let cs = chars_of(item.description[0].as_str());
            has_prefix(&cs, "Title: ")
        };
        if keep {
            result.push(item);
            assert(items_view(result@) =~= before.push(all[k]));
        }
    }
    assert(all.take(n as int) =~= all);
    result
}

/// Parses the lines of one file: the items that the lines complete, after
/// the title filter.
pub fn parse_lines(lines: &Vec<String>) -> (r: Vec<DocItem>)
    ensures
        items_view(r@) == title_filter(completed_items(strings_view(lines@))),
{
    keep_titles(collect_items(lines))
}


} // verus!
