//! The outline of a document: its headings as a tree.
//!
//! The headings of a document come in document order, each with its level.
//! A heading that is bookmarked goes into the tree; one that is not is
//! skipped, but still limits how deep the next heading may go. A bookmarked
//! heading is attached below the last heading of every level that is smaller
//! than its own, and smaller than the level of the topmost heading skipped
//! since the last bookmarked one.

use crate::debug_loc::DocumentPosition;
use crate::text::{ascii_chars, unsigned_string, unsigned_text};
use vstd::prelude::*;

verus! {

/// The number of the span that belongs to no source file.
pub const DETACHED_SPAN: u64 = 1;

/// A heading in the outline.
#[derive(Debug)]
pub struct HeadingNode {
    /// The body of the heading as plain text.
    pub body: String,
    /// The number of the span of the body.
    pub body_span: u64,
    /// The number of the span of the heading itself.
    pub span: u64,
    /// Where the heading stands in the document.
    pub position: DocumentPosition,
    /// The nesting depth of the heading, starting at 1.
    pub level: usize,
    /// Whether the heading goes into the outline.
    pub bookmarked: bool,
    /// The headings below this one.
    pub children: Vec<HeadingNode>,
}

/// The mathematical content of a [`HeadingNode`].
pub ghost struct HeadingTree {
    pub body: Seq<char>,
    pub body_span: u64,
    pub span: u64,
    pub position: DocumentPosition,
    pub level: usize,
    pub bookmarked: bool,
    pub children: Seq<HeadingTree>,
}

/// The mathematical content of the heading `node`.
pub open spec fn tree_of(node: HeadingNode) -> HeadingTree
    decreases node,
{
    HeadingTree {
        body: node.body@,
        body_span: node.body_span,
        span: node.span,
        position: node.position,
        level: node.level,
        bookmarked: node.bookmarked,
        children: Seq::new(
            node.children@.len(),
            |i: int|
                if 0 <= i < node.children@.len() {
                    tree_of(node.children@[i])
                } else {
                    arbitrary()
                },
        ),
    }
}

impl View for HeadingNode {
    type V = HeadingTree;

    open spec fn view(&self) -> HeadingTree {
        tree_of(*self)
    }
}

/// The mathematical content of a list of headings.
pub open spec fn forest(nodes: Seq<HeadingNode>) -> Seq<HeadingTree> {
    Seq::new(nodes.len(), |i: int| nodes[i]@)
}

/// May a heading of level `level` go below a heading of level `above`,
/// where `skipped` is the level of the topmost heading skipped since the last
/// bookmarked one?
pub open spec fn goes_below(above: usize, level: usize, skipped: Option<usize>) -> bool {
    above < level && match skipped {
        Some(limit) => above < limit,
        None => true,
    }
}

/// The tree `tree` with the heading `leaf` attached.
///
/// The heading goes below the last heading of the tree as long as it may, and
/// becomes the last heading where it may go no deeper.
pub open spec fn attach(tree: Seq<HeadingTree>, leaf: HeadingTree, skipped: Option<usize>) -> Seq<
    HeadingTree,
>
    decreases tree,
{
    if tree.len() > 0 && goes_below(tree.last().level, leaf.level, skipped) {
        let last = tree.last();
        tree.drop_last().push(
            HeadingTree { children: attach(last.children, leaf, skipped), ..last },
        )
    } else {
        tree.push(leaf)
    }
}

/// What the builder of an outline holds between two headings: the tree so far,
/// and the level of the topmost heading skipped since the last bookmarked one.
pub ghost struct OutlineState {
    pub tree: Seq<HeadingTree>,
    pub skipped: Option<usize>,
}

/// The state of the builder after one more heading.
pub open spec fn outline_step(state: OutlineState, heading: HeadingTree) -> OutlineState {
    if heading.bookmarked {
        OutlineState { tree: attach(state.tree, heading, state.skipped), skipped: None }
    } else if state.skipped is None || heading.level < state.skipped->0 {
        OutlineState { tree: state.tree, skipped: Some(heading.level) }
    } else {
        state
    }
}

/// The state of the builder after the headings `headings`.
pub open spec fn outline_state(headings: Seq<HeadingTree>) -> OutlineState
    decreases headings.len(),
{
    if headings.len() == 0 {
        OutlineState { tree: Seq::empty(), skipped: None }
    } else {
        outline_step(outline_state(headings.drop_last()), headings.last())
    }
}

/// The outline of the headings `headings`: `None` where no heading is
/// bookmarked.
pub open spec fn outline_tree(headings: Seq<HeadingTree>) -> Option<Seq<HeadingTree>> {
    let tree = outline_state(headings).tree;
    if tree.len() == 0 {
        None
    } else {
        Some(tree)
    }
}

/// The headings of a tree in document order: every heading before the
/// headings below it, and those before the headings behind it.
pub open spec fn in_document_order(tree: Seq<HeadingTree>) -> Seq<HeadingTree>
    decreases tree,
{
    if tree.len() == 0 {
        Seq::empty()
    } else {
        let last = tree.last();
        in_document_order(tree.drop_last()).push(
            HeadingTree { children: Seq::empty(), ..last },
        ) + in_document_order(last.children)
    }
}

/// The bookmarked headings among `headings`, without what stands below them.
pub open spec fn bookmarked_leaves(headings: Seq<HeadingTree>) -> Seq<HeadingTree>
    decreases headings.len(),
{
    if headings.len() == 0 {
        Seq::empty()
    } else if headings.last().bookmarked {
        bookmarked_leaves(headings.drop_last()).push(
            HeadingTree { children: Seq::empty(), ..headings.last() },
        )
    } else {
        bookmarked_leaves(headings.drop_last())
    }
}

/// Every heading of the tree stands below headings of smaller levels only.
pub open spec fn levels_increase(tree: Seq<HeadingTree>, above: int) -> bool
    decreases tree,
{
    forall|i: int|
        0 <= i < tree.len() ==> above < (#[trigger] tree[i]).level && levels_increase(
            tree[i].children,
            tree[i].level as int,
        )
}

impl HeadingNode {
    /// A heading with nothing below it. Whether it is bookmarked may be left
    /// open (`None`): it then is where it is outlined.
    pub fn leaf(
        body: String,
        body_span: u64,
        span: u64,
        position: DocumentPosition,
        level: usize,
        bookmarked: Option<bool>,
        outlined: bool,
    ) -> (res: Self)
        ensures
            res.body == body,
            res.body_span == body_span,
            res.span == span,
            res.position == position,
            res.level == level,
            res.bookmarked == match bookmarked {
                Some(b) => b,
                None => outlined,
            },
            res.children@.len() == 0,
    {
        HeadingNode {
            body,
            body_span,
            span,
            position,
            level,
            bookmarked: match bookmarked {
                Some(b) => b,
                None => outlined,
            },
            children: Vec::new(),
        }
    }
}

proof fn lemma_forest_push(nodes: Seq<HeadingNode>, node: HeadingNode)
    ensures
        forest(nodes.push(node)) == forest(nodes).push(node@),
{
    assert(forest(nodes.push(node)) =~= forest(nodes).push(node@));
}

proof fn lemma_forest_drop_last(nodes: Seq<HeadingNode>)
    requires
        nodes.len() > 0,
    ensures
        forest(nodes.drop_last()) == forest(nodes).drop_last(),
        forest(nodes).last() == nodes.last()@,
{
    assert(forest(nodes.drop_last()) =~= forest(nodes).drop_last());
}

proof fn lemma_children_are_forest(node: HeadingNode)
    ensures
        node@.children == forest(node.children@),
{
    let below = node@.children;
    assert(below.len() == node.children@.len());
    assert forall|i: int| 0 <= i < below.len() implies below[i] == forest(node.children@)[i] by {
        assert(below[i] == node.children@[i]@);
    }
    assert(below =~= forest(node.children@));
}

/// Attaches the heading `leaf` to the tree.
fn attach_heading(tree: &mut Vec<HeadingNode>, leaf: HeadingNode, skipped: Option<usize>)
    ensures
        forest(final(tree)@) == attach(forest(old(tree)@), leaf@, skipped),
    decreases old(tree)@,
{
    let ghost before = tree@;
    let descend = match tree.last() {
        Some(last) => last.level < leaf.level && match skipped {
            Some(limit) => last.level < limit,
            None => true,
        },
        None => false,
    };
    proof {
        if before.len() > 0 {
            lemma_forest_drop_last(before);
        }
    }
    if descend {
        let mut last = tree.pop().unwrap();
        let ghost last_before = last;
        let ghost leaf_view = leaf@;
        proof {
            lemma_children_are_forest(last);
        }
        attach_heading(&mut last.children, leaf, skipped);
        proof {
            lemma_children_are_forest(last);
            assert(last@ == (HeadingTree {
                children: attach(last_before@.children, leaf_view, skipped),
                ..last_before@
            }));
            lemma_forest_push(before.drop_last(), last);
        }
        tree.push(last);
    } else {
        proof {
            lemma_forest_push(before, leaf);
        }
        tree.push(leaf);
    }
}

/// Builds the outline of the headings of a document, which are given in
/// document order and with nothing below them. `None` where no heading is
/// bookmarked.
pub fn get_outline(headings: Vec<HeadingNode>) -> (res: Option<Vec<HeadingNode>>)
    ensures
        match res {
            Some(tree) => outline_tree(forest(headings@)) == Some(forest(tree@)),
            None => outline_tree(forest(headings@)) is None,
        },
{
    let ghost all = headings@;
    let mut tree: Vec<HeadingNode> = Vec::new();
    let mut last_skipped_level: Option<usize> = None;
    proof {
        assert(forest(all.take(0)) =~= Seq::<HeadingTree>::empty());
        assert(forest(tree@) =~= Seq::<HeadingTree>::empty());
    }
    for leaf in it: headings
        invariant
            it.seq() == all,
            outline_state(forest(all.take(it.index() as int))) == (OutlineState {
                tree: forest(tree@),
                skipped: last_skipped_level,
            }),
    {
        proof {
            let longer = all.take(it.index() + 1);
            assert(longer.drop_last() =~= all.take(it.index() as int));
            assert(longer.last() == leaf);
            lemma_forest_drop_last(longer);
        }
        if leaf.bookmarked {
            attach_heading(&mut tree, leaf, last_skipped_level);
            last_skipped_level = None;
        } else {
            let topmost = match last_skipped_level {
                Some(limit) => leaf.level < limit,
                None => true,
            };
            if topmost {
                last_skipped_level = Some(leaf.level);
            }
        }
    }
    proof {
        assert(all.take(all.len() as int) =~= all);
    }
    if tree.len() == 0 {
        None
    } else {
        Some(tree)
    }
}

/// The number of a span as the editor gets it: in hexadecimal, with the
/// digits `a` to `f` in lower case and with no leading zero.
pub open spec fn span_text(span: u64) -> Seq<char> {
    ascii_chars(unsigned_text(span as nat, 16))
}

/// Writes the number of a span as the editor gets it.
pub fn span_to_hex(span: u64) -> (res: String)
    ensures
        res@ == span_text(span),
{
    unsigned_string(span, 16)
}

/// An entry of the outline as the editor gets it.
#[derive(Debug)]
pub struct OutlineItem {
    /// Plain text title.
    pub title: String,
    /// The number of the span in hexadecimal.
    pub span: Option<String>,
    /// Where the heading stands in the document.
    pub position: Option<DocumentPosition>,
    /// The entries below this one.
    pub children: Vec<OutlineItem>,
}

/// The outline of a document as the editor gets it.
#[derive(Debug)]
pub struct Outline {
    pub items: Vec<OutlineItem>,
}

/// The mathematical content of an [`OutlineItem`].
pub ghost struct OutlineEntry {
    pub title: Seq<char>,
    pub span: Option<Seq<char>>,
    pub position: Option<DocumentPosition>,
    pub children: Seq<OutlineEntry>,
}

/// The mathematical content of the entry `item`.
pub open spec fn entry_of(item: OutlineItem) -> OutlineEntry
    decreases item,
{
    OutlineEntry {
        title: item.title@,
        span: match item.span {
            Some(text) => Some(text@),
            None => None,
        },
        position: item.position,
        children: Seq::new(
            item.children@.len(),
            |i: int|
                if 0 <= i < item.children@.len() {
                    entry_of(item.children@[i])
                } else {
                    arbitrary()
                },
        ),
    }
}

impl View for OutlineItem {
    type V = OutlineEntry;

    open spec fn view(&self) -> OutlineEntry {
        entry_of(*self)
    }
}

/// The mathematical content of a list of entries.
pub open spec fn entries(items: Seq<OutlineItem>) -> Seq<OutlineEntry> {
    Seq::new(items.len(), |i: int| items[i]@)
}

impl View for Outline {
    type V = Seq<OutlineEntry>;

    open spec fn view(&self) -> Seq<OutlineEntry> {
        entries(self.items@)
    }
}

/// `text` without the white space at its start and at its end, as the
/// standard library removes it.
pub uninterp spec fn trimmed(text: Seq<char>) -> Seq<char>;

/// `str::trim`. What it gives is a function of the text alone; that function
/// is [`trimmed`].
#[verifier::external_body]
fn trim(text: &str) -> (res: &str)
    ensures
        res@ == trimmed(text@),
{
    text.trim()
}

/// The span that an entry of the outline names: that of the body of the
/// heading, or that of the heading itself where the body has none.
pub open spec fn entry_span(heading: HeadingTree) -> u64 {
    if heading.body_span == DETACHED_SPAN {
        heading.span
    } else {
        heading.body_span
    }
}

/// The entry for the heading `heading` and all that stands below it.
pub open spec fn entry_for(heading: HeadingTree) -> OutlineEntry
    decreases heading,
{
    OutlineEntry {
        title: trimmed(heading.body),
        span: Some(span_text(entry_span(heading))),
        position: Some(heading.position),
        children: Seq::new(
            heading.children.len(),
            |i: int|
                if 0 <= i < heading.children.len() {
                    entry_for(heading.children[i])
                } else {
                    arbitrary()
                },
        ),
    }
}

/// The entries for the headings `tree`.
pub open spec fn entries_for(tree: Seq<HeadingTree>) -> Seq<OutlineEntry> {
    Seq::new(tree.len(), |i: int| entry_for(tree[i]))
}

/// Appends to `res` the entry for the heading `src`.
fn outline_item(src: &HeadingNode, res: &mut Vec<OutlineItem>)
    ensures
        entries(final(res)@) == entries(old(res)@).push(entry_for(src@)),
    decreases src,
{
    let title = trim(src.body.as_str()).to_owned();
    let mut children: Vec<OutlineItem> = Vec::new();
    let mut i: usize = 0;
    proof {
        lemma_children_are_forest(*src);
    }
    while i < src.children.len()
        invariant
            i <= src.children@.len(),
            src@.children == forest(src.children@),
            entries(children@) == entries_for(src@.children.take(i as int)),
        decreases src.children@.len() - i,
    {
        let ghost before = children@;
        outline_item(&src.children[i], &mut children);
        proof {
            assert(entries(children@) =~= entries_for(src@.children.take(i + 1)));
        }
        i += 1;
    }
    let span = if src.body_span == DETACHED_SPAN {
        src.span
    } else {
        src.body_span
    };
    let item = OutlineItem {
        title,
        span: Some(span_to_hex(span)),
        position: Some(src.position),
        children,
    };
    proof {
        assert(src@.children.take(src.children@.len() as int) =~= src@.children);
        assert(item@.children =~= entries(item.children@));
        assert(entry_for(src@).children =~= entries_for(src@.children));
        assert(item@ == entry_for(src@));
        assert(entries(res@.push(item)) =~= entries(res@).push(item@));
    }
    res.push(item);
}

/// The outline of a document as the editor gets it, from the headings of the
/// document in document order.
pub fn outline(headings: Vec<HeadingNode>) -> (res: Outline)
    ensures
        res@ == match outline_tree(forest(headings@)) {
            Some(tree) => entries_for(tree),
            None => Seq::empty(),
        },
{
    let mut items: Vec<OutlineItem> = Vec::new();
    match get_outline(headings) {
        Some(tree) => {
            let mut i: usize = 0;
            while i < tree.len()
                invariant
                    i <= tree@.len(),
                    entries(items@) == entries_for(forest(tree@).take(i as int)),
                decreases tree@.len() - i,
            {
                outline_item(&tree[i], &mut items);
                proof {
                    assert(entries(items@) =~= entries_for(forest(tree@).take(i + 1)));
                }
                i += 1;
            }
            proof {
                assert(forest(tree@).take(tree@.len() as int) =~= forest(tree@));
            }
        },
        None => {
            proof {
                assert(entries(items@) =~= Seq::<OutlineEntry>::empty());
            }
        },
    }
    Outline { items }
}

/// The heading `heading` without what stands below it.
pub open spec fn alone(heading: HeadingTree) -> HeadingTree {
    HeadingTree { children: Seq::empty(), ..heading }
}

/// Attaching a heading puts it, and what stands below it, behind all that the
/// tree held.
pub proof fn law_attach_appends(tree: Seq<HeadingTree>, leaf: HeadingTree, skipped: Option<usize>)
    ensures
        in_document_order(attach(tree, leaf, skipped)) == in_document_order(tree).push(
            alone(leaf),
        ) + in_document_order(leaf.children),
    decreases tree,
{
    let grown = attach(tree, leaf, skipped);
    if tree.len() > 0 && goes_below(tree.last().level, leaf.level, skipped) {
        let last = tree.last();
        let below = attach(last.children, leaf, skipped);
        law_attach_appends(last.children, leaf, skipped);
        let deeper = HeadingTree { children: below, ..last };
        assert(grown.drop_last() =~= tree.drop_last());
        assert(grown.last() == deeper);
        assert(alone(deeper) == alone(last));
        assert(in_document_order(grown) =~= in_document_order(tree).push(alone(leaf))
            + in_document_order(leaf.children));
    } else {
        assert(grown.drop_last() =~= tree);
        assert(grown.last() == leaf);
    }
}

/// The outline holds the bookmarked headings and no others, in document
/// order.
pub proof fn law_outline_holds_bookmarked_headings(headings: Seq<HeadingTree>)
    requires
        forall|i: int| 0 <= i < headings.len() ==> (#[trigger] headings[i]).children.len() == 0,
    ensures
        in_document_order(outline_state(headings).tree) == bookmarked_leaves(headings),
    decreases headings.len(),
{
    if headings.len() > 0 {
        let front = headings.drop_last();
        let heading = headings.last();
        law_outline_holds_bookmarked_headings(front);
        if heading.bookmarked {
            let state = outline_state(front);
            law_attach_appends(state.tree, heading, state.skipped);
            assert(heading.children =~= Seq::<HeadingTree>::empty());
            assert(in_document_order(heading.children) =~= Seq::<HeadingTree>::empty());
            assert(in_document_order(outline_state(headings).tree) =~= bookmarked_leaves(
                headings,
            ));
        }
    }
}

/// Attaching a heading keeps the levels increasing from every heading to
/// those below it.
pub proof fn law_attach_keeps_levels(
    tree: Seq<HeadingTree>,
    leaf: HeadingTree,
    skipped: Option<usize>,
    above: int,
)
    requires
        levels_increase(tree, above),
        above < leaf.level,
        levels_increase(leaf.children, leaf.level as int),
    ensures
        levels_increase(attach(tree, leaf, skipped), above),
    decreases tree,
{
    let grown = attach(tree, leaf, skipped);
    if tree.len() > 0 && goes_below(tree.last().level, leaf.level, skipped) {
        let last = tree.last();
        assert(levels_increase(last.children, last.level as int));
        law_attach_keeps_levels(last.children, leaf, skipped, last.level as int);
        assert forall|i: int| 0 <= i < grown.len() implies above < (#[trigger] grown[i]).level
            && levels_increase(grown[i].children, grown[i].level as int) by {
            if i < grown.len() - 1 {
                assert(grown[i] == tree[i]);
            }
        }
    } else {
        assert forall|i: int| 0 <= i < grown.len() implies above < (#[trigger] grown[i]).level
            && levels_increase(grown[i].children, grown[i].level as int) by {
            if i < grown.len() - 1 {
                assert(grown[i] == tree[i]);
            }
        }
    }
}

/// In the outline, every heading stands below headings of smaller levels
/// only.
pub proof fn law_outline_levels_increase(headings: Seq<HeadingTree>)
    requires
        forall|i: int| 0 <= i < headings.len() ==> (#[trigger] headings[i]).children.len() == 0,
    ensures
        levels_increase(outline_state(headings).tree, -1),
    decreases headings.len(),
{
    if headings.len() > 0 {
        let front = headings.drop_last();
        let heading = headings.last();
        law_outline_levels_increase(front);
        if heading.bookmarked {
            let state = outline_state(front);
            law_attach_keeps_levels(state.tree, heading, state.skipped, -1);
        }
    }
}

/// The levels of the headings below which `leaf` is attached, from the top
/// of the tree downwards.
pub open spec fn levels_above(tree: Seq<HeadingTree>, leaf: HeadingTree, skipped: Option<usize>) -> Seq<
    usize,
>
    decreases tree,
{
    if tree.len() > 0 && goes_below(tree.last().level, leaf.level, skipped) {
        seq![tree.last().level] + levels_above(tree.last().children, leaf, skipped)
    } else {
        Seq::empty()
    }
}

/// The headings among which `leaf` is attached: those below the last of the
/// headings that it goes below, or the top of the tree.
pub open spec fn siblings_of(tree: Seq<HeadingTree>, leaf: HeadingTree, skipped: Option<usize>) -> Seq<
    HeadingTree,
>
    decreases tree,
{
    if tree.len() > 0 && goes_below(tree.last().level, leaf.level, skipped) {
        siblings_of(tree.last().children, leaf, skipped)
    } else {
        tree
    }
}

/// A heading is attached as deep as it may go and no deeper: every heading
/// above it has a smaller level than it and than the topmost heading skipped
/// before it, and the last heading beside it is not one that it could have
/// gone below.
pub proof fn law_attached_no_deeper_than_skipped(
    tree: Seq<HeadingTree>,
    leaf: HeadingTree,
    skipped: Option<usize>,
)
    ensures
        forall|i: int|
            0 <= i < levels_above(tree, leaf, skipped).len() ==> (#[trigger] levels_above(
                tree,
                leaf,
                skipped,
            )[i]) < leaf.level,
        forall|i: int|
            0 <= i < levels_above(tree, leaf, skipped).len() && skipped is Some ==> (
            #[trigger] levels_above(tree, leaf, skipped)[i]) < skipped->0,
        siblings_of(tree, leaf, skipped).len() > 0 ==> !goes_below(
            siblings_of(tree, leaf, skipped).last().level,
            leaf.level,
            skipped,
        ),
    decreases tree,
{
    if tree.len() > 0 && goes_below(tree.last().level, leaf.level, skipped) {
        law_attached_no_deeper_than_skipped(tree.last().children, leaf, skipped);
        let below = levels_above(tree.last().children, leaf, skipped);
        let all = levels_above(tree, leaf, skipped);
        assert forall|i: int| 0 <= i < all.len() implies (#[trigger] all[i]) < leaf.level && (
        skipped is Some ==> all[i] < skipped->0) by {
            if i > 0 {
                assert(all[i] == below[i - 1]);
            }
        }
    }
}

/// A heading is attached below the last top heading only where that one has a
/// smaller level than the heading and than every heading skipped since;
/// else it becomes the last top heading itself.
pub proof fn law_attach_respects_skipped(
    tree: Seq<HeadingTree>,
    leaf: HeadingTree,
    skipped: Option<usize>,
)
    requires
        tree.len() > 0,
    ensures
        attach(tree, leaf, skipped).len() == if goes_below(tree.last().level, leaf.level, skipped) {
            tree.len()
        } else {
            tree.len() + 1
        },
        skipped matches Some(limit) && limit <= tree.last().level ==> attach(tree, leaf, skipped)
            == tree.push(leaf),
{
}

} // verus!
