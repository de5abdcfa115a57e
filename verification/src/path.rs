//! The chain of declarations through which the traversal reached the place
//! where it stands, used to say where a violation was found.

use vstd::prelude::*;
use crate::graph::{Span, SpanView, span_ref_view, span_view};
use crate::text::{join, separator};

verus! {

/// The kind of declaration that a path component names.
#[derive(Clone, Copy, Debug, PartialEq, Eq, Structural)]
pub enum ComponentType {
    AssocConst,
    AssocType,
    Constant,
    Crate,
    Enum,
    EnumVariant,
    Function,
    Method,
    Module,
    ReExport,
    Static,
    Struct,
    StructField,
    Trait,
    TypeDef,
    Union,
}

/// One step of a path: a declaration's kind, its name, and where it stands in
/// the source, if that is known.
#[derive(Debug, PartialEq, Eq)]
pub struct Component {
    pub typ: ComponentType,
    pub name: String,
    pub span: Option<Span>,
}

/// What a [`Component`] denotes.
pub struct ComponentView {
    pub typ: ComponentType,
    pub name: Seq<char>,
    pub span: Option<SpanView>,
}

impl View for Component {
    type V = ComponentView;

    open spec fn view(&self) -> ComponentView {
        ComponentView { typ: self.typ, name: self.name@, span: span_view(self.span) }
    }
}

impl Clone for Component {
    fn clone(&self) -> (r: Self)
        ensures
            r == *self,
    {
        let span = match &self.span {
            Some(s) => Some(s.clone()),
            None => None,
        };
        Component { typ: self.typ, name: self.name.clone(), span }
    }
}

/// What a [`Path`] denotes: its components, from the library down.
pub type PathView = Seq<ComponentView>;

/// The names of the components of a path, in order.
pub open spec fn names(path: PathView) -> Seq<Seq<char>> {
    Seq::new(path.len(), |i: int| path[i].name)
}

/// A path as text: the names of its components with `::` between them.
pub open spec fn render(path: PathView) -> Seq<char> {
    join(names(path), separator())
}

/// The kind of the last component of a path.
pub open spec fn last_type_of(path: PathView) -> Option<ComponentType> {
    if path.len() == 0 {
        None
    } else {
        Some(path.last().typ)
    }
}

/// The source location of the last component of a path.
pub open spec fn last_span_of(path: PathView) -> Option<SpanView> {
    if path.len() == 0 {
        None
    } else {
        path.last().span
    }
}

/// A path from the root of a library down to a declaration. A path is a
/// value: extending it gives a new path and leaves the old one as it was.
#[derive(Debug, PartialEq, Eq)]
pub struct Path {
    stack: Vec<Component>,
}

impl View for Path {
    type V = PathView;

    closed spec fn view(&self) -> PathView {
        Seq::new(self.stack@.len(), |i: int| self.stack@[i]@)
    }
}

impl Path {
    /// The path that holds only the library itself.
    pub fn new(crate_name: &str) -> (p: Self)
        ensures
            p@ == seq![
                ComponentView { typ: ComponentType::Crate, name: crate_name@, span: None },
            ],
    {
        let mut stack: Vec<Component> = Vec::new();
        stack.push(
            Component { typ: ComponentType::Crate, name: String::from_str(crate_name), span: None },
        );
        let p = Path { stack };
        assert(p@ =~= seq![
            ComponentView { typ: ComponentType::Crate, name: crate_name@, span: None },
        ]);
        p
    }

    /// Appends a component.
    pub fn push_raw(&mut self, typ: ComponentType, name: &str, span: Option<&Span>)
        ensures
            final(self)@ == old(self)@.push(
                ComponentView { typ, name: name@, span: span_ref_view(span) },
            ),
    {
        let span = match span {
            Some(s) => Some(s.clone()),
            None => None,
        };
        self.stack.push(Component { typ, name: String::from_str(name), span });
        assert(self@ =~= old(self)@.push(
            ComponentView { typ, name: name@, span: span_view(span) },
        ));
    }

    /// The number of components.
    pub fn len(&self) -> (n: usize)
        ensures
            n == self@.len(),
    {
        self.stack.len()
    }

    /// The kind of the last component.
    pub fn last_type(&self) -> (t: Option<ComponentType>)
        ensures
            t == last_type_of(self@),
    {
        if self.stack.len() == 0 {
            None
        } else {
            Some(self.stack[self.stack.len() - 1].typ)
        }
    }

    /// The source location of the last component.
    pub fn last_span(&self) -> (s: Option<&Span>)
        ensures
            span_ref_view(s) == last_span_of(self@),
    {
        if self.stack.len() == 0 {
            None
        } else {
            self.stack[self.stack.len() - 1].span.as_ref()
        }
    }

    /// The path as text.
    pub fn to_string(&self) -> (s: String)
        ensures
            s@ == render(self@),
    {
        let mut out = String::new();
        let mut i: usize = 0;
        while i < self.stack.len()
            invariant
                i <= self.stack.len(),
                out@ == join(names(self@).take(i as int), separator()),
            decreases self.stack.len() - i,
        {
            proof {
                reveal_strlit("::");
                let before = names(self@).take(i as int);
                let after = names(self@).take(i + 1);
                assert(after.drop_last() =~= before);
                assert(after.last() == self.stack@[i as int].name@);
                assert("::"@ =~= separator());
                if i == 0 {
                    assert(out@ + self.stack@[i as int].name@ =~= self.stack@[i as int].name@);
                }
            }
            if i > 0 {
                out.append("::");
            }
            out.append(self.stack[i].name.as_str());
            i = i + 1;
        }
        proof {
            assert(names(self@).take(self.stack.len() as int) =~= names(self@));
        }
        out
    }
}

impl Clone for Path {
    fn clone(&self) -> (r: Self)
        ensures
            r@ == self@,
    {
        let mut stack: Vec<Component> = Vec::new();
        let mut i: usize = 0;
        while i < self.stack.len()
            invariant
                i <= self.stack.len(),
                stack@ == self.stack@.take(i as int),
            decreases self.stack.len() - i,
        {
            stack.push(self.stack[i].clone());
            proof {
                assert(self.stack@.take(i + 1) =~= self.stack@.take(i as int).push(
                    self.stack@[i as int],
                ));
            }
            i = i + 1;
        }
        proof {
            assert(self.stack@.take(self.stack.len() as int) =~= self.stack@);
        }
        let r = Path { stack };
        assert(r@ =~= self@);
        r
    }
}

} // verus!
