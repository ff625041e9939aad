//! Properties of the parser that relate several lines or several calls.

use vstd::prelude::*;

use crate::parser::{
    accumulate, comment_step, keeps_item, comment_text, completed_items, line_step, line_variant,
    title_filter, Directive,
};
use crate::printer::titles_well_formed;
use crate::text::{is_white_space, starts_with, trim_start, trimmed, TrimSet};
use crate::types::{empty_item, strings_view, BlockType, DocItemView};

verus! {

/// The classifier tests its prefixes in a fixed order: a line that starts
/// with `resource `, `variable ` or `output ` is that kind of header and
/// never a comment, and a line that starts with `#` or `//` is a comment.
pub proof fn lemma_prefix_precedence(line: Seq<char>)
    ensures
        starts_with(line, "resource "@) ==> line_variant(line) == BlockType::Resource,
        starts_with(line, "variable "@) ==> line_variant(line) == BlockType::Variable,
        starts_with(line, "output "@) ==> line_variant(line) == BlockType::Output,
        starts_with(line, "#"@) || starts_with(line, "//"@) ==> line_variant(line)
            == BlockType::Comment,
{
    reveal_strlit("resource ");
    reveal_strlit("variable ");
    reveal_strlit("output ");
    reveal_strlit("#");
    reveal_strlit("//");
    if line.len() > 0 {
        assert(starts_with(line, "resource "@) ==> line[0] == 'r') by {
            if starts_with(line, "resource "@) {
                assert(line.take(9)[0] == line[0]);
            }
        }
        assert(starts_with(line, "variable "@) ==> line[0] == 'v') by {
            if starts_with(line, "variable "@) {
                assert(line.take(9)[0] == line[0]);
            }
        }
        assert(starts_with(line, "output "@) ==> line[0] == 'o') by {
            if starts_with(line, "output "@) {
                assert(line.take(7)[0] == line[0]);
            }
        }
        assert(starts_with(line, "#"@) ==> line[0] == '#') by {
            if starts_with(line, "#"@) {
                assert(line.take(1)[0] == line[0]);
            }
        }
        assert(starts_with(line, "//"@) ==> line[0] == '/') by {
            if starts_with(line, "//"@) {
                assert(line.take(2)[0] == line[0]);
            }
        }
    }
}

/// Parsing is repeatable: two files with the same lines give the same
/// items, as no state survives from one parse to the next.
pub proof fn lemma_parse_repeatable(a: Seq<String>, b: Seq<String>)
    requires
        strings_view(a) == strings_view(b),
    ensures
        title_filter(completed_items(strings_view(a))) == title_filter(
            completed_items(strings_view(b)),
        ),
        completed_items(strings_view(a)) == completed_items(strings_view(b)),
{
}

/// A block that the input leaves unfinished is dropped whole: when no line of
/// `tail` stops the item in progress, `lines + tail` completes exactly the
/// items that `lines` completes.
pub proof fn lemma_unfinished_block_dropped(lines: Seq<Seq<char>>, tail: Seq<Seq<char>>)
    requires
        forall|k: int|
            0 <= k < tail.len() ==> (#[trigger] line_step(
                accumulate(lines + tail.take(k)).1,
                tail[k],
            )).1 == Directive::Continue,
    ensures
        completed_items(lines + tail) == completed_items(lines),
    decreases tail.len(),
{
    if tail.len() == 0 {
        assert(lines + tail =~= lines);
    } else {
        let t = tail.drop_last();
        assert forall|k: int| 0 <= k < t.len() implies (#[trigger] line_step(
            accumulate(lines + t.take(k)).1,
            t[k],
        )).1 == Directive::Continue by {
            assert(t.take(k) =~= tail.take(k));
            assert(line_step(accumulate(lines + tail.take(k)).1, tail[k]).1
                == Directive::Continue);
        }
        lemma_unfinished_block_dropped(lines, t);
        assert((lines + tail).drop_last() =~= lines + t);
        assert(tail.take(t.len() as int) =~= t);
        assert(line_step(accumulate(lines + tail.take(t.len() as int)).1, tail[t.len() as int]).1
            == Directive::Continue);
    }
}

/// The line holds whitespace only (or nothing).
pub open spec fn is_blank(line: Seq<char>) -> bool {
    forall|i: int| 0 <= i < line.len() ==> is_white_space(#[trigger] line[i])
}

/// The item that one comment line makes from a fresh item.
pub open spec fn comment_item(line: Seq<char>) -> DocItemView {
    DocItemView { category: BlockType::Comment, name: Seq::empty(), description: seq![comment_text(line)] }
}

proof fn lemma_blank_trims_to_nothing(line: Seq<char>)
    requires
        is_blank(line),
    ensures
        trim_start(line, TrimSet::Space).len() == 0,
    decreases line.len(),
{
    if line.len() > 0 {
        assert(is_white_space(line[0]));
        let rest = line.drop_first();
        assert forall|i: int| 0 <= i < rest.len() implies is_white_space(#[trigger] rest[i]) by {
            assert(rest[i] == line[i + 1]);
        }
        lemma_blank_trims_to_nothing(rest);
    }
}

/// A blank line is a plain line that does not start with `}` and trims to
/// nothing.
proof fn lemma_blank_line(line: Seq<char>)
    requires
        is_blank(line),
    ensures
        line_variant(line) == BlockType::Plain,
        !starts_with(line, "}"@),
        trimmed(line).len() == 0,
{
    lemma_blank_trims_to_nothing(line);
    reveal_strlit("resource ");
    reveal_strlit("variable ");
    reveal_strlit("output ");
    reveal_strlit("#");
    reveal_strlit("//");
    reveal_strlit("}");
    if line.len() > 0 {
        assert(is_white_space(line[0]));
        assert(line.take(1)[0] == line[0]);
        assert(line.len() >= 2 ==> line.take(2)[0] == line[0]);
        assert(line.len() >= 7 ==> line.take(7)[0] == line[0]);
        assert(line.len() >= 9 ==> line.take(9)[0] == line[0]);
    }
}

/// A blank line ends a run of comment lines: from a fresh item, a comment
/// line, a blank line, another comment line and another blank line give two
/// separate comment items, each holding its own line's text.
pub proof fn lemma_blank_line_splits_comments(
    lines: Seq<Seq<char>>,
    first: Seq<char>,
    blank1: Seq<char>,
    second: Seq<char>,
    blank2: Seq<char>,
)
    requires
        accumulate(lines).1 == empty_item(),
        line_variant(first) == BlockType::Comment,
        comment_text(first).len() > 0,
        line_variant(second) == BlockType::Comment,
        comment_text(second).len() > 0,
        is_blank(blank1),
        is_blank(blank2),
    ensures
        completed_items(lines + seq![first, blank1, second, blank2]) == completed_items(lines)
            + seq![comment_item(first), comment_item(second)],
{
    lemma_blank_line(blank1);
    lemma_blank_line(blank2);
    let all = lines + seq![first, blank1, second, blank2];
    let l3 = lines + seq![first, blank1, second];
    let l2 = lines + seq![first, blank1];
    let l1 = lines + seq![first];
    assert(all.drop_last() =~= l3);
    assert(l3.drop_last() =~= l2);
    assert(l2.drop_last() =~= l1);
    assert(l1.drop_last() =~= lines);
    assert(comment_step(empty_item(), first) =~= comment_item(first));
    assert(comment_step(empty_item(), second) =~= comment_item(second));
    let done = accumulate(lines).0;
    assert(accumulate(l1) == (done, comment_item(first)));
    assert(accumulate(l2) == (done.push(comment_item(first)), empty_item()));
    assert(accumulate(l3) == (done.push(comment_item(first)), comment_item(second)));
    assert(done.push(comment_item(first)).push(comment_item(second)) =~= done + seq![
        comment_item(first),
        comment_item(second),
    ]);
}

/// Every comment item of `items` has a description.
pub open spec fn comments_described(items: Seq<DocItemView>) -> bool {
    forall|k: int|
        0 <= k < items.len() && (#[trigger] items[k]).category == BlockType::Comment
            ==> items[k].description.len() > 0
}

/// A comment item always holds a line: the only line that makes an item a
/// comment also adds its text.
proof fn lemma_comments_described(lines: Seq<Seq<char>>)
    ensures
        comments_described(accumulate(lines).0),
        accumulate(lines).1.category == BlockType::Comment ==> accumulate(
            lines,
        ).1.description.len() > 0,
    decreases lines.len(),
{
    if lines.len() > 0 {
        lemma_comments_described(lines.drop_last());
        let (done, current) = accumulate(lines.drop_last());
        let (next, d) = line_step(current, lines.last());
        if d == Directive::Stop {
            assert forall|k: int|
                0 <= k < done.push(next).len() && (#[trigger] done.push(
                    next,
                )[k]).category == BlockType::Comment implies done.push(
                next,
            )[k].description.len() > 0 by {
                if k < done.len() {
                    assert(done.push(next)[k] == done[k]);
                }
            }
        }
    }
}

proof fn lemma_filter_titles_well_formed(items: Seq<DocItemView>)
    requires
        comments_described(items),
    ensures
        titles_well_formed(title_filter(items)),
    decreases items.len(),
{
    if items.len() > 0 {
        let rest = items.drop_last();
        assert forall|k: int|
            0 <= k < rest.len() && (#[trigger] rest[k]).category
                == BlockType::Comment implies rest[k].description.len() > 0 by {
            assert(rest[k] == items[k]);
        }
        lemma_filter_titles_well_formed(rest);
        let kept = title_filter(rest);
        if keeps_item(items.last()) {
            assert(items[items.len() - 1] == items.last());
            assert forall|k: int|
                0 <= k < kept.push(items.last()).len() && (#[trigger] kept.push(
                    items.last(),
                )[k]).category == BlockType::Comment implies kept.push(
                items.last(),
            )[k].description.len() > 0 && starts_with(
                kept.push(items.last())[k].description[0],
                "Title: "@,
            ) by {
                if k < kept.len() {
                    assert(kept.push(items.last())[k] == kept[k]);
                }
            }
        }
    }
}

/// What the parser returns can always be rendered: after the title filter,
/// every comment item starts with a `Title: ` line.
pub proof fn lemma_parsed_titles_well_formed(lines: Seq<Seq<char>>)
    ensures
        titles_well_formed(title_filter(completed_items(lines))),
{
    lemma_comments_described(lines);
    lemma_filter_titles_well_formed(completed_items(lines));
}

} // verus!
