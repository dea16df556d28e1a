//! Tags and the tag stack: the flat record of matched nodes.

use vstd::prelude::*;

verus! {

/// What kind of node a tag records.
#[derive(Clone, Copy, Debug, PartialEq, Eq, Structural)]
pub enum TagKind {
    /// A rule matched; the payload is the rule's identity.
    Rule(usize),
    /// A regular-expression leaf matched.
    Leaf,
    /// A sequence matched; the payload counts its matched optional and
    /// repeated children. It is a count, never a rule identity.
    Group(usize),
}

/// One matched node: its kind and the input span `begin..end` it covers.
#[derive(Clone, Copy, Debug, PartialEq, Eq, Structural)]
pub struct Tag {
    pub kind: TagKind,
    pub begin: usize,
    pub end: usize,
}

/// A stack length recorded by [`TagStack::checkpoint`].
pub type Mark = usize;

/// The record of matched nodes, in the order in which they were completed:
/// a node's tag follows the tags of all of its matched children.
///
/// The stack only grows by [`TagStack::push`] and only shrinks by
/// [`TagStack::truncate`] to an earlier checkpoint.
#[derive(Debug)]
pub struct TagStack {
    tags: Vec<Tag>,
}

impl View for TagStack {
    type V = Seq<Tag>;

    closed spec fn view(&self) -> Seq<Tag> {
        self.tags@
    }
}

impl TagStack {
    /// An empty stack.
    pub fn new() -> (stack: TagStack)
        ensures
            stack@ == Seq::<Tag>::empty(),
    {
        TagStack { tags: Vec::new() }
    }

    /// The number of tags on the stack.
    pub fn len(&self) -> (n: usize)
        ensures
            n == self@.len(),
    {
        self.tags.len()
    }

    /// Whether the stack holds no tag.
    pub fn is_empty(&self) -> (b: bool)
        ensures
            b == (self@.len() == 0),
    {
        self.tags.len() == 0
    }

    /// Appends `tag`.
    pub fn push(&mut self, tag: Tag)
        ensures
            final(self)@ == old(self)@.push(tag),
    {
        self.tags.push(tag);
    }

    /// Records the current length, to which [`TagStack::truncate`] can
    /// return later.
    pub fn checkpoint(&self) -> (mark: Mark)
        ensures
            mark == self@.len(),
    {
        self.tags.len()
    }

    /// Drops every tag pushed since `mark` was recorded. The storage is kept;
    /// only the length is reset.
    pub fn truncate(&mut self, mark: Mark)
        requires
            mark <= old(self)@.len(),
        ensures
            final(self)@ == old(self)@.subrange(0, mark as int),
    {
        self.tags.truncate(mark);
    }

    /// The tag at `index`, counted from the bottom of the stack.
    pub fn get(&self, index: usize) -> (tag: Option<Tag>)
        ensures
            tag == (if index < self@.len() { Some(self@[index as int]) } else { None }),
    {
        if index < self.tags.len() {
            Some(self.tags[index])
        } else {
            None
        }
    }

    /// The tag pushed last, if any.
    pub fn last(&self) -> (tag: Option<Tag>)
        ensures
            tag == (if self@.len() > 0 { Some(self@.last()) } else { None }),
    {
        let n: usize = self.tags.len();
        if n > 0 {
            Some(self.tags[n - 1])
        } else {
            None
        }
    }

    /// The tags from the bottom of the stack to its top.
    pub fn into_vec(self) -> (tags: Vec<Tag>)
        ensures
            tags@ == self@,
    {
        self.tags
    }
}

} // verus!
