//! Syntax trees, built by the `rowan` crate.

use rowan::{GreenNode, GreenNodeBuilder, SyntaxKind as RawKind};
use vstd::prelude::*;
use vstd::utf8::encode_utf8;

verus! {

/// A tree as contracts speak of it: kinds are numbers, tokens have their text.
pub ghost enum Tree {
    Token(u16, Seq<char>),
    Node(u16, Seq<Tree>),
}

impl Tree {
    /// The text of all tokens of the tree, in order.
    pub open spec fn text(self) -> Seq<char>
        decreases self,
    {
        match self {
            Tree::Token(_, text) => text,
            Tree::Node(_, children) => tree_text(children, children.len()),
        }
    }

    /// The number of bytes of that text.
    pub open spec fn size(self) -> nat
        decreases self,
    {
        match self {
            Tree::Token(_, text) => encode_utf8(text).len(),
            Tree::Node(_, children) => tree_size(children, children.len()),
        }
    }
}

/// The text of the first `n` trees.
pub open spec fn tree_text(trees: Seq<Tree>, n: nat) -> Seq<char>
    decreases trees, n,
{
    if n == 0 || n > trees.len() {
        Seq::empty()
    } else {
        tree_text(trees, (n - 1) as nat) + trees[n - 1].text()
    }
}

/// The number of bytes of the text of the first `n` trees.
pub open spec fn tree_size(trees: Seq<Tree>, n: nat) -> nat
    decreases trees, n,
{
    if n == 0 || n > trees.len() {
        0
    } else {
        tree_size(trees, (n - 1) as nat) + trees[n - 1].size()
    }
}

/// The finished trees of a builder, and the kinds of the nodes that are open with
/// the number of trees in front of them.
pub ghost struct BuilderView {
    pub children: Seq<Tree>,
    pub parents: Seq<(u16, nat)>,
}

impl BuilderView {
    /// Can the innermost open node be finished? Its text has to fit the numbers
    /// that trees use for sizes.
    pub open spec fn can_finish_node(self) -> bool {
        &&& self.parents.len() > 0
        &&& self.parents.last().1 <= self.children.len()
        &&& tree_size(self.children, self.children.len()) <= u32::MAX
    }

    /// The builder behind the end of the innermost open node.
    pub open spec fn finish_node(self) -> BuilderView {
        let (kind, first) = self.parents.last();
        BuilderView {
            children: self.children.take(first as int).push(
                Tree::Node(kind, self.children.skip(first as int)),
            ),
            parents: self.parents.drop_last(),
        }
    }

    /// The builder with one more token.
    pub open spec fn token(self, kind: u16, text: Seq<char>) -> BuilderView {
        BuilderView { children: self.children.push(Tree::Token(kind, text)), ..self }
    }

    /// The builder with one more open node.
    pub open spec fn start_node(self, kind: u16) -> BuilderView {
        BuilderView { parents: self.parents.push((kind, self.children.len())), ..self }
    }
}

/// The builder of the `rowan` crate. Nothing is known of its inside.
#[verifier::external_type_specification]
#[verifier::external_body]
pub struct ExGreenNodeBuilder<'cache>(GreenNodeBuilder<'cache>);

/// The tree of the `rowan` crate. Nothing is known of its inside.
#[verifier::external_type_specification]
#[verifier::external_body]
pub struct ExGreenNode(GreenNode);

/// What a builder holds.
pub uninterp spec fn builder_view(builder: GreenNodeBuilder<'static>) -> BuilderView;

/// What a tree holds.
pub uninterp spec fn green_tree(node: GreenNode) -> Tree;

/// Calls `GreenNodeBuilder::new`, which makes a builder without trees and open
/// nodes.
#[verifier::external_body]
pub(crate) fn new_builder() -> (r: GreenNodeBuilder<'static>)
    ensures
        builder_view(r) == (BuilderView { children: Seq::empty(), parents: Seq::empty() }),
{
    GreenNodeBuilder::new()
}

/// Calls `GreenNodeBuilder::token`, which adds a token behind all trees.
#[verifier::external_body]
pub(crate) fn token(builder: &mut GreenNodeBuilder<'static>, kind: u16, text: &str)
    ensures
        builder_view(*final(builder)) == builder_view(*old(builder)).token(kind, text@),
{
    builder.token(RawKind(kind), text)
}

/// Calls `GreenNodeBuilder::start_node`, which opens a node behind all trees.
#[verifier::external_body]
pub(crate) fn start_node(builder: &mut GreenNodeBuilder<'static>, kind: u16)
    ensures
        builder_view(*final(builder)) == builder_view(*old(builder)).start_node(kind),
{
    builder.start_node(RawKind(kind))
}

/// Calls `GreenNodeBuilder::finish_node`, which makes one tree of all trees that
/// were added since the innermost open node was opened. It panics where no node
/// is open, and where the text of the node has more bytes than a `u32` can count.
#[verifier::external_body]
pub(crate) fn finish_node(builder: &mut GreenNodeBuilder<'static>)
    requires
        builder_view(*old(builder)).can_finish_node(),
    ensures
        builder_view(*final(builder)) == builder_view(*old(builder)).finish_node(),
{
    builder.finish_node()
}

/// Calls `GreenNodeBuilder::finish`, which hands out the only tree. It panics
/// where there is not just one, or where it is a token.
#[verifier::external_body]
pub(crate) fn finish(builder: GreenNodeBuilder<'static>) -> (r: GreenNode)
    requires
        builder_view(builder).children.len() == 1,
        builder_view(builder).children[0] is Node,
    ensures
        green_tree(r) == builder_view(builder).children[0],
{
    builder.finish()
}

/// The text of trees with one more.
pub proof fn lemma_tree_push(trees: Seq<Tree>, tree: Tree)
    ensures
        tree_text(trees.push(tree), trees.push(tree).len()) == tree_text(trees, trees.len())
            + tree.text(),
        tree_size(trees.push(tree), trees.push(tree).len()) == tree_size(trees, trees.len())
            + tree.size(),
{
    lemma_tree_take(trees.push(tree), trees.len());
    assert(trees.push(tree).take(trees.len() as int) =~= trees);
}

/// The text of the first trees is that of the row that ends there.
proof fn lemma_tree_take(trees: Seq<Tree>, n: nat)
    requires
        n <= trees.len(),
    ensures
        tree_text(trees, n) == tree_text(trees.take(n as int), n),
        tree_size(trees, n) == tree_size(trees.take(n as int), n),
    decreases n,
{
    if n > 0 {
        let m = (n - 1) as nat;
        lemma_tree_take(trees, m);
        lemma_tree_take(trees.take(n as int), m);
        assert(trees.take(n as int).take(m as int) =~= trees.take(m as int));
    }
}

/// The text of trees is that of the first ones and that of the others.
proof fn lemma_tree_split(trees: Seq<Tree>, first: nat, n: nat)
    requires
        first + n <= trees.len(),
    ensures
        tree_text(trees, first + n) == tree_text(trees, first) + tree_text(
            trees.skip(first as int),
            n,
        ),
        tree_size(trees, first + n) == tree_size(trees, first) + tree_size(
            trees.skip(first as int),
            n,
        ),
    decreases n,
{
    let rest = trees.skip(first as int);
    if n == 0 {
        assert(tree_text(trees, first) + tree_text(rest, 0) =~= tree_text(trees, first));
    } else {
        lemma_tree_split(trees, first, (n - 1) as nat);
        assert(rest[n - 1] == trees[first + n - 1]);
        assert((tree_text(trees, first) + tree_text(rest, (n - 1) as nat)) + rest[n - 1].text()
            =~= tree_text(trees, first) + (tree_text(rest, (n - 1) as nat) + rest[n - 1].text()));
    }
}

/// The end of a node leaves the text as it is.
pub proof fn lemma_finish_node(b: BuilderView)
    requires
        b.parents.len() > 0,
        b.parents.last().1 <= b.children.len(),
    ensures
        tree_text(b.finish_node().children, b.finish_node().children.len()) == tree_text(
            b.children,
            b.children.len(),
        ),
        tree_size(b.finish_node().children, b.finish_node().children.len()) == tree_size(
            b.children,
            b.children.len(),
        ),
{
    let (kind, first) = b.parents.last();
    let front = b.children.take(first as int);
    let back = b.children.skip(first as int);
    lemma_tree_push(front, Tree::Node(kind, back));
    lemma_tree_take(b.children, first);
    lemma_tree_split(b.children, first, back.len());
}

} // verus!
