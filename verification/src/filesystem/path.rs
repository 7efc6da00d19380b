//! Absolute paths as the list of their components below the root.

use vstd::prelude::*;

verus! {

/// An absolute path: the names that lead from the root to the node, the
/// root itself being the empty list.
#[derive(Clone, Debug, PartialEq, Eq)]
pub struct MmmPath {
    pub components: Vec<String>,
}

/// The text of the components, each behind a `/`.
pub open spec fn joined(components: Seq<Seq<char>>) -> Seq<char>
    decreases components.len(),
{
    if components.len() == 0 {
        Seq::empty()
    } else {
        joined(components.drop_last()) + seq!['/'] + components.last()
    }
}

/// The path as text: `/` for the root, else `/` before each component.
pub open spec fn path_text(components: Seq<Seq<char>>) -> Seq<char> {
    if components.len() == 0 {
        seq!['/']
    } else {
        joined(components)
    }
}

impl View for MmmPath {
    type V = Seq<Seq<char>>;

    open spec fn view(&self) -> Seq<Seq<char>> {
        Seq::new(self.components@.len(), |i: int| self.components@[i]@)
    }
}

impl MmmPath {
    /// The root directory.
    pub fn root() -> (path: MmmPath)
        ensures
            path@ == Seq::<Seq<char>>::empty(),
    {
        let path = MmmPath { components: Vec::new() };
        assert(path@ =~= Seq::<Seq<char>>::empty());
        path
    }

    /// The path with the given components.
    pub fn new(components: Vec<String>) -> (path: MmmPath)
        ensures
            path.components == components,
    {
        MmmPath { components }
    }

    /// A copy of the path.
    pub fn duplicate(&self) -> (copy: MmmPath)
        ensures
            copy@ == self@,
    {
        let mut components: Vec<String> = Vec::new();
        let mut i: usize = 0;
        while i < self.components.len()
            invariant
                i <= self.components.len(),
                components.len() == i,
                forall|k: int| 0 <= k < i ==> components@[k]@ == self.components@[k]@,
            decreases self.components.len() - i,
        {
            components.push(self.components[i].clone());
            i += 1;
        }
        let copy = MmmPath { components };
        assert(copy@ =~= self@);
        copy
    }

    /// The directory that holds this node; the root has none.
    pub fn parent(&self) -> (parent: Option<MmmPath>)
        ensures
            parent is Some <==> self@.len() > 0,
            parent matches Some(p) ==> p@ == self@.drop_last(),
    {
        if self.components.len() == 0 {
            return None;
        }
        let mut components: Vec<String> = Vec::new();
        let mut i: usize = 0;
        while i < self.components.len() - 1
            invariant
                self.components.len() > 0,
                i <= self.components.len() - 1,
                components.len() == i,
                forall|k: int| 0 <= k < i ==> components@[k]@ == self.components@[k]@,
            decreases self.components.len() - i,
        {
            components.push(self.components[i].clone());
            i += 1;
        }
        let parent = MmmPath { components };
        assert(parent@ =~= self@.drop_last());
        Some(parent)
    }

    /// The node's own name: the last component. The root has none.
    pub fn file_name(&self) -> (name: Option<&str>)
        ensures
            name is Some <==> self@.len() > 0,
            name matches Some(n) ==> n@ == self@.last(),
    {
        if self.components.len() == 0 {
            None
        } else {
            Some(self.components[self.components.len() - 1].as_str())
        }
    }

    /// The path of the node called `name` in this directory.
    pub fn join(&self, name: &str) -> (child: MmmPath)
        ensures
            child@ == self@.push(name@),
    {
        let mut child = self.duplicate();
        child.components.push(name.to_owned());
        assert(child@ =~= self@.push(name@));
        child
    }

    /// Whether the two paths name the same node.
    pub fn same_as(&self, other: &MmmPath) -> (same: bool)
        ensures
            same == (self@ == other@),
    {
        if self.components.len() != other.components.len() {
            assert(self@.len() != other@.len());
            return false;
        }
        let mut i: usize = 0;
        while i < self.components.len()
            invariant
                i <= self.components.len(),
                self.components.len() == other.components.len(),
                forall|k: int| 0 <= k < i ==> self@[k] == other@[k],
            decreases self.components.len() - i,
        {
            if self.components[i] != other.components[i] {
                assert(self@[i as int] != other@[i as int]);
                return false;
            }
            i += 1;
        }
        assert(self@ =~= other@);
        true
    }

    /// The path as the user reads it.
    pub fn to_string(&self) -> (text: String)
        ensures
            text@ == path_text(self@),
    {
        if self.components.len() == 0 {
            proof {
                reveal_strlit("/");
            }
            let text = "/".to_owned();
            assert(text@ =~= seq!['/']);
            return text;
        }
        let mut text = String::new();
        let mut i: usize = 0;
        while i < self.components.len()
            invariant
                i <= self.components.len(),
                text@ == joined(self@.take(i as int)),
            decreases self.components.len() - i,
        {
            text.push('/');
            text.push_str(self.components[i].as_str());
            proof {
                let next = self@.take(i + 1);
                assert(next.drop_last() =~= self@.take(i as int));
                assert(next.last() == self@[i as int]);
            }
            i += 1;
        }
        assert(self@.take(self.components.len() as int) =~= self@);
        text
    }
}

/// The parent of `path`, if it has one.
pub fn parent_path_from(path: &MmmPath) -> (parent: Option<MmmPath>)
    ensures
        parent is Some <==> path@.len() > 0,
        parent matches Some(p) ==> p@ == path@.drop_last(),
{
    path.parent()
}

} // verus!
