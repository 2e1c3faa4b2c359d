//! The part of a module's syntax that extraction reads.
//!
//! A source file is a sequence of items. Of an item that is a free function
//! the model keeps its visibility, its `async` marker, its name, its
//! arguments, the shape of its return type and its attributes. Every other
//! item is `ItemDecl::Other`. Types are kept as text, token by token with one
//! space between tokens.

use vstd::prelude::*;

verus! {

/// What a generic argument is.
pub enum TypeArgKind {
    /// A type written as a path, such as `Error<E>`: the identifier of the
    /// path's last segment and, where that segment is written with angle
    /// brackets, the text of each argument between them.
    Path { ident: String, args: Option<Vec<String>> },
    /// A type that is not a path, such as `()` or `&T`.
    Type,
    /// Not a type: a lifetime, a constant, a binding or a constraint.
    Other,
}

/// One generic argument: its text and what it is.
pub struct TypeArg {
    pub text: String,
    pub kind: TypeArgKind,
}

/// The last segment of a path type, such as `Result<T, E>` in
/// `std::result::Result<T, E>`.
pub struct TypeTail {
    /// The segment's identifier.
    pub ident: String,
    /// The arguments between the segment's angle brackets; `None` where it
    /// has no angle brackets.
    pub args: Option<Vec<TypeArg>>,
}

/// One argument of a function.
pub enum ArgDecl {
    /// An argument of the form `name: type`.
    Named { name: String, ty: String },
    /// A receiver, or an argument bound by another pattern.
    Other,
}

/// One attribute of a function.
pub struct AttrDecl {
    /// The attribute's path, where that is a single identifier.
    pub name: Option<String>,
    /// The string, where the attribute has the form `path = "string"`.
    pub value: Option<String>,
}

/// A free function.
pub struct FnDecl {
    /// Whether it is declared `pub`, without restriction.
    pub is_public: bool,
    pub is_async: bool,
    pub name: String,
    pub inputs: Vec<ArgDecl>,
    /// The last path segment of the return type; `None` where the function
    /// declares no return type, or one that is not a path.
    pub output: Option<TypeTail>,
    pub attrs: Vec<AttrDecl>,
}

/// A top-level item of a source file.
pub enum ItemDecl {
    Function(FnDecl),
    Other,
}

/// What a `TypeArgKind` holds, its texts as sequences of characters.
pub enum TypeArgKindView {
    Path { ident: Seq<char>, args: Option<Seq<Seq<char>>> },
    Type,
    Other,
}

/// What a `TypeArg` holds, its texts as sequences of characters.
pub struct TypeArgView {
    pub text: Seq<char>,
    pub kind: TypeArgKindView,
}

/// What a `TypeTail` holds, its texts as sequences of characters.
pub struct TypeTailView {
    pub ident: Seq<char>,
    pub args: Option<Seq<TypeArgView>>,
}

/// What an `ArgDecl` holds, its texts as sequences of characters.
pub enum ArgDeclView {
    Named { name: Seq<char>, ty: Seq<char> },
    Other,
}

/// What an `AttrDecl` holds, its texts as sequences of characters.
pub struct AttrDeclView {
    pub name: Option<Seq<char>>,
    pub value: Option<Seq<char>>,
}

/// What a `FnDecl` holds, its texts as sequences of characters.
pub struct FnDeclView {
    pub is_public: bool,
    pub is_async: bool,
    pub name: Seq<char>,
    pub inputs: Seq<ArgDeclView>,
    pub output: Option<TypeTailView>,
    pub attrs: Seq<AttrDeclView>,
}

/// What an `ItemDecl` holds, its texts as sequences of characters.
pub enum ItemDeclView {
    Function(FnDeclView),
    Other,
}

impl DeepView for TypeArgKind {
    type V = TypeArgKindView;

    open spec fn deep_view(&self) -> TypeArgKindView {
        match *self {
            TypeArgKind::Path { ident, args } => TypeArgKindView::Path {
                ident: ident@,
                args: args.deep_view(),
            },
            TypeArgKind::Type => TypeArgKindView::Type,
            TypeArgKind::Other => TypeArgKindView::Other,
        }
    }
}

impl View for TypeArgKind {
    type V = TypeArgKindView;

    open spec fn view(&self) -> TypeArgKindView {
        self.deep_view()
    }
}

impl DeepView for TypeArg {
    type V = TypeArgView;

    open spec fn deep_view(&self) -> TypeArgView {
        TypeArgView { text: self.text@, kind: self.kind.deep_view() }
    }
}

impl View for TypeArg {
    type V = TypeArgView;

    open spec fn view(&self) -> TypeArgView {
        self.deep_view()
    }
}

impl DeepView for TypeTail {
    type V = TypeTailView;

    open spec fn deep_view(&self) -> TypeTailView {
        TypeTailView { ident: self.ident@, args: self.args.deep_view() }
    }
}

impl View for TypeTail {
    type V = TypeTailView;

    open spec fn view(&self) -> TypeTailView {
        self.deep_view()
    }
}

impl DeepView for ArgDecl {
    type V = ArgDeclView;

    open spec fn deep_view(&self) -> ArgDeclView {
        match *self {
            ArgDecl::Named { name, ty } => ArgDeclView::Named { name: name@, ty: ty@ },
            ArgDecl::Other => ArgDeclView::Other,
        }
    }
}

impl View for ArgDecl {
    type V = ArgDeclView;

    open spec fn view(&self) -> ArgDeclView {
        self.deep_view()
    }
}

impl DeepView for AttrDecl {
    type V = AttrDeclView;

    open spec fn deep_view(&self) -> AttrDeclView {
        AttrDeclView { name: self.name.deep_view(), value: self.value.deep_view() }
    }
}

impl View for AttrDecl {
    type V = AttrDeclView;

    open spec fn view(&self) -> AttrDeclView {
        self.deep_view()
    }
}

impl DeepView for FnDecl {
    type V = FnDeclView;

    open spec fn deep_view(&self) -> FnDeclView {
        FnDeclView {
            is_public: self.is_public,
            is_async: self.is_async,
            name: self.name@,
            inputs: self.inputs.deep_view(),
            output: self.output.deep_view(),
            attrs: self.attrs.deep_view(),
        }
    }
}

impl View for FnDecl {
    type V = FnDeclView;

    open spec fn view(&self) -> FnDeclView {
        self.deep_view()
    }
}

impl DeepView for ItemDecl {
    type V = ItemDeclView;

    open spec fn deep_view(&self) -> ItemDeclView {
        match *self {
            ItemDecl::Function(f) => ItemDeclView::Function(f.deep_view()),
            ItemDecl::Other => ItemDeclView::Other,
        }
    }
}

impl View for ItemDecl {
    type V = ItemDeclView;

    open spec fn view(&self) -> ItemDeclView {
        self.deep_view()
    }
}

} // verus!
