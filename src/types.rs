//! The documentation items that the parser collects, and their mathematical model.

use vstd::prelude::*;

verus! {

/// Enumerates the kinds of blocks recognized.
#[derive(Debug, Clone, Copy, PartialEq, Eq, Structural)]
pub enum BlockType {
    Comment,
    Resource,
    Output,
    Variable,
    /// No block: a plain line, or an item that no line has classified yet.
    Plain,
}

/// The model of a `DocItem`: its category, its name as characters and its
/// description lines as character sequences.
pub struct DocItemView {
    pub category: BlockType,
    pub name: Seq<char>,
    pub description: Seq<Seq<char>>,
}

/// The model of a fresh item: no category, no name, no description.
pub open spec fn empty_item() -> DocItemView {
    DocItemView { category: BlockType::Plain, name: Seq::empty(), description: Seq::empty() }
}

/// The character sequences of a list of strings.
pub open spec fn strings_view(v: Seq<String>) -> Seq<Seq<char>> {
    v.map_values(|s: String| s@)
}

/// Holds the various entities to be exported to the documentation.
#[derive(Debug)]
pub struct DocItem {
    /// The type of entity, ie. `comment`, `resource`, `output`, `variable`.
    pub category: BlockType,
    /// The name of the entity.
    pub name: String,
    /// The `#` comments and/or `description` fields associated with the entity.
    pub description: Vec<String>,
}

impl View for DocItem {
    type V = DocItemView;

    open spec fn view(&self) -> DocItemView {
        DocItemView {
            category: self.category,
            name: self.name@,
            description: strings_view(self.description@),
        }
    }
}

/// The models of a sequence of items.
pub open spec fn items_view(v: Seq<DocItem>) -> Seq<DocItemView> {
    v.map_values(|d: DocItem| d@)
}

impl DocItem {
    /// Creates a new empty `DocItem` entity.
    #[must_use]
    pub fn new() -> (r: Self)
        ensures
            r@ == empty_item(),
    {
        let r = DocItem { category: BlockType::Plain, name: String::new(), description: Vec::new() };
        assert(strings_view(r.description@) =~= Seq::<Seq<char>>::empty());
        r
    }
}

impl Default for DocItem {
    /// Creates a default `DocItem`, the same as `DocItem::new`.
    fn default() -> (r: Self)
        ensures
            r@ == empty_item(),
    {
        DocItem::new()
    }
}

/// The description lines joined by single spaces.
pub open spec fn joined(d: Seq<Seq<char>>) -> Seq<char>
    decreases d.len(),
{
    if d.len() == 0 {
        Seq::empty()
    } else if d.len() == 1 {
        d[0]
    } else {
        joined(d.drop_last()) + " "@ + d.last()
    }
}

/// The description lines joined by single spaces.
pub fn join_description(d: &Vec<String>) -> (r: String)
    ensures
        r@ == joined(strings_view(d@)),
{
    let ghost all = strings_view(d@);
    let mut r = String::new();
    let mut i: usize = 0;
    while i < d.len()
        invariant
            i <= d@.len(),
            all == strings_view(d@),
            r@ == joined(all.take(i as int)),
        decreases d@.len() - i,
    {
        assert(all.take(i + 1).drop_last() =~= all.take(i as int));
        if i > 0 {
            r.append(" ");
        }
        r.append(d[i].as_str());
        i += 1;
        assert(all.take(i as int).last() == d@[i - 1]@);
        assert(i == 1 ==> r@ =~= all.take(i as int)[0]);
    }
    assert(all.take(d@.len() as int) =~= all);
    r
}

/// How an item reads as text: its name in backticks and a colon before the
/// joined description, or the description alone when it has no name.
pub open spec fn item_text(item: DocItemView) -> Seq<char> {
    if item.name.len() > 0 {
        "`"@ + item.name + "`: "@ + joined(item.description)
    } else {
        joined(item.description)
    }
}

impl DocItem {
    /// Formats the item as text.
    pub fn to_string(&self) -> (r: String)
        ensures
            r@ == item_text(self@),
    {
        if !self.name.as_str().is_empty() {
            let mut r = String::from_str("`");
            r.append(self.name.as_str());
            r.append("`: ");
            r.append(join_description(&self.description).as_str());
            r
        } else {
            join_description(&self.description)
        }
    }
}

} // verus!
