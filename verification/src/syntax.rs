//! A plain model of the declarations of one source file: what the extraction
//! rules read of a function, a struct, an enum and their attributes.
//!
//! Names, patterns and types are held as text. Each type has a view (`@`)
//! that holds the same data over `Seq<char>`; the rules are stated over views.

use vstd::prelude::*;

verus! {

/// One entry of an attribute's argument list.
#[derive(Debug, PartialEq)]
pub enum AttrArg {
    /// A bare string literal, by its value: the `"/"` of `get("/")`.
    Str(String),
    /// `name = literal` under a one-word name, the literal by its text: the
    /// value of a string literal, the digits of an integer literal.
    NameValue { name: String, value: String },
    /// A path, by the identifiers of its segments: the `Responder` of
    /// `derive(Responder)`.
    Path(Vec<String>),
    /// Any other entry.
    Other,
}

/// The view of an [`AttrArg`].
pub enum AttrArgView {
    Str(Seq<char>),
    NameValue { name: Seq<char>, value: Seq<char> },
    Path(Seq<Seq<char>>),
    Other,
}

impl View for AttrArg {
    type V = AttrArgView;

    open spec fn view(&self) -> AttrArgView {
        match self {
            AttrArg::Str(s) => AttrArgView::Str(s@),
            AttrArg::NameValue { name, value } => AttrArgView::NameValue {
                name: name@,
                value: value@,
            },
            AttrArg::Path(segments) => AttrArgView::Path(segments.deep_view()),
            AttrArg::Other => AttrArgView::Other,
        }
    }
}

impl DeepView for AttrArg {
    type V = AttrArgView;

    open spec fn deep_view(&self) -> AttrArgView {
        self@
    }
}

/// An attribute as written on a declaration.
#[derive(Debug, PartialEq)]
pub enum RawAttribute {
    /// `#[path(args, ..)]` under a one-word path.
    List { path: String, args: Vec<AttrArg> },
    /// Any other attribute: a bare path, `path = literal`, a list under a
    /// longer path, or tokens that form no meta item.
    Other,
}

/// The view of a [`RawAttribute`].
pub enum RawAttributeView {
    List { path: Seq<char>, args: Seq<AttrArgView> },
    Other,
}

impl View for RawAttribute {
    type V = RawAttributeView;

    open spec fn view(&self) -> RawAttributeView {
        match self {
            RawAttribute::List { path, args } => RawAttributeView::List {
                path: path@,
                args: args.deep_view(),
            },
            RawAttribute::Other => RawAttributeView::Other,
        }
    }
}

impl DeepView for RawAttribute {
    type V = RawAttributeView;

    open spec fn deep_view(&self) -> RawAttributeView {
        self@
    }
}

/// The fields of a struct or of an enum variant, in declaration order.
#[derive(Debug, PartialEq)]
pub enum FieldList {
    /// `{ name: Type, .. }`: each field's name and type.
    Named(Vec<(String, String)>),
    /// `(Type, ..)`: each field's type.
    Unnamed(Vec<String>),
    /// No fields.
    Unit,
}

/// The view of [`FieldList`].
pub enum FieldListView {
    Named(Seq<(Seq<char>, Seq<char>)>),
    Unnamed(Seq<Seq<char>>),
    Unit,
}

impl View for FieldList {
    type V = FieldListView;

    open spec fn view(&self) -> FieldListView {
        match self {
            FieldList::Named(fields) => FieldListView::Named(fields.deep_view()),
            FieldList::Unnamed(types) => FieldListView::Unnamed(types.deep_view()),
            FieldList::Unit => FieldListView::Unit,
        }
    }
}

impl DeepView for FieldList {
    type V = FieldListView;

    open spec fn deep_view(&self) -> FieldListView {
        self@
    }
}

/// One parameter of a function.
#[derive(Debug, PartialEq)]
pub enum Param {
    /// `self` in any of its forms.
    Receiver,
    /// `pattern: Type`.
    Bound { pat: String, ty: String },
}

/// The view of a [`Param`].
pub enum ParamView {
    Receiver,
    Bound { pat: Seq<char>, ty: Seq<char> },
}

impl View for Param {
    type V = ParamView;

    open spec fn view(&self) -> ParamView {
        match self {
            Param::Receiver => ParamView::Receiver,
            Param::Bound { pat, ty } => ParamView::Bound { pat: pat@, ty: ty@ },
        }
    }
}

impl DeepView for Param {
    type V = ParamView;

    open spec fn deep_view(&self) -> ParamView {
        self@
    }
}

/// What a function is declared to return.
#[derive(Debug, PartialEq)]
pub enum Output {
    /// Nothing is written after the parameters.
    Default,
    /// `-> Type`.
    Type(String),
}

/// The view of an [`Output`].
pub enum OutputView {
    Default,
    Type(Seq<char>),
}

impl View for Output {
    type V = OutputView;

    open spec fn view(&self) -> OutputView {
        match self {
            Output::Default => OutputView::Default,
            Output::Type(ty) => OutputView::Type(ty@),
        }
    }
}

/// A function: its name, attributes and signature.
#[derive(Debug, PartialEq)]
pub struct FnDecl {
    pub ident: String,
    pub attrs: Vec<RawAttribute>,
    pub params: Vec<Param>,
    pub output: Output,
}

/// The view of a [`FnDecl`].
pub struct FnDeclView {
    pub ident: Seq<char>,
    pub attrs: Seq<RawAttributeView>,
    pub params: Seq<ParamView>,
    pub output: OutputView,
}

impl View for FnDecl {
    type V = FnDeclView;

    open spec fn view(&self) -> FnDeclView {
        FnDeclView {
            ident: self.ident@,
            attrs: self.attrs.deep_view(),
            params: self.params.deep_view(),
            output: self.output@,
        }
    }
}

/// A struct: its name, attributes and fields.
#[derive(Debug, PartialEq)]
pub struct StructDecl {
    pub ident: String,
    pub attrs: Vec<RawAttribute>,
    pub fields: FieldList,
}

/// The view of a [`StructDecl`].
pub struct StructDeclView {
    pub ident: Seq<char>,
    pub attrs: Seq<RawAttributeView>,
    pub fields: FieldListView,
}

impl View for StructDecl {
    type V = StructDeclView;

    open spec fn view(&self) -> StructDeclView {
        StructDeclView {
            ident: self.ident@,
            attrs: self.attrs.deep_view(),
            fields: self.fields@,
        }
    }
}

/// One variant of an enum: its name, attributes and fields.
#[derive(Debug, PartialEq)]
pub struct VariantDecl {
    pub ident: String,
    pub attrs: Vec<RawAttribute>,
    pub fields: FieldList,
}

/// The view of a [`VariantDecl`].
pub struct VariantDeclView {
    pub ident: Seq<char>,
    pub attrs: Seq<RawAttributeView>,
    pub fields: FieldListView,
}

impl View for VariantDecl {
    type V = VariantDeclView;

    open spec fn view(&self) -> VariantDeclView {
        VariantDeclView {
            ident: self.ident@,
            attrs: self.attrs.deep_view(),
            fields: self.fields@,
        }
    }
}

impl DeepView for VariantDecl {
    type V = VariantDeclView;

    open spec fn deep_view(&self) -> VariantDeclView {
        self@
    }
}

/// An enum: its name, attributes and variants in declaration order.
#[derive(Debug, PartialEq)]
pub struct EnumDecl {
    pub ident: String,
    pub attrs: Vec<RawAttribute>,
    pub variants: Vec<VariantDecl>,
}

/// The view of an [`EnumDecl`].
pub struct EnumDeclView {
    pub ident: Seq<char>,
    pub attrs: Seq<RawAttributeView>,
    pub variants: Seq<VariantDeclView>,
}

impl View for EnumDecl {
    type V = EnumDeclView;

    open spec fn view(&self) -> EnumDeclView {
        EnumDeclView {
            ident: self.ident@,
            attrs: self.attrs.deep_view(),
            variants: self.variants.deep_view(),
        }
    }
}

/// A declaration of a file, of an inline module or of a function's body.
#[derive(Debug, PartialEq)]
pub enum Item {
    /// A function, with the statements of its body.
    Fn { decl: FnDecl, body: Vec<Stmt> },
    /// A module: its declarations when it has an inline body, none when it
    /// only refers to another file.
    Mod { content: Option<Vec<Item>> },
    /// A struct.
    Struct(StructDecl),
    /// An enum.
    Enum(EnumDecl),
    /// Any other declaration.
    Other,
}

/// A statement of a function's body.
#[derive(Debug, PartialEq)]
pub enum Stmt {
    /// A declaration written directly in the body.
    Item(Item),
    /// Any other statement. What it holds is not looked at, a declaration
    /// inside it neither.
    Other,
}

/// The view of an [`Item`].
pub enum ItemView {
    Fn { decl: FnDeclView, body: Seq<StmtView> },
    Mod { content: Option<Seq<ItemView>> },
    Struct(StructDeclView),
    Enum(EnumDeclView),
    Other,
}

/// The view of a [`Stmt`].
pub enum StmtView {
    Item(ItemView),
    Other,
}

/// The view of `item`.
pub open spec fn item_view(item: Item) -> ItemView
    decreases item,
{
    match item {
        Item::Fn { decl, body } => ItemView::Fn { decl: decl@, body: stmts_view(body@) },
        Item::Mod { content: Some(items) } => ItemView::Mod { content: Some(items_view(items@)) },
        Item::Mod { content: None } => ItemView::Mod { content: None },
        Item::Struct(decl) => ItemView::Struct(decl@),
        Item::Enum(decl) => ItemView::Enum(decl@),
        Item::Other => ItemView::Other,
    }
}

/// The views of `items`, in order.
pub open spec fn items_view(items: Seq<Item>) -> Seq<ItemView>
    decreases items,
{
    Seq::new(
        items.len(),
        |i: int|
            if 0 <= i < items.len() {
                item_view(items[i])
            } else {
                ItemView::Other
            },
    )
}

/// The view of `stmt`.
pub open spec fn stmt_view(stmt: Stmt) -> StmtView
    decreases stmt,
{
    match stmt {
        Stmt::Item(item) => StmtView::Item(item_view(item)),
        Stmt::Other => StmtView::Other,
    }
}

/// The views of `stmts`, in order.
pub open spec fn stmts_view(stmts: Seq<Stmt>) -> Seq<StmtView>
    decreases stmts,
{
    Seq::new(
        stmts.len(),
        |i: int|
            if 0 <= i < stmts.len() {
                stmt_view(stmts[i])
            } else {
                StmtView::Other
            },
    )
}

impl View for Item {
    type V = ItemView;

    open spec fn view(&self) -> ItemView {
        item_view(*self)
    }
}

impl DeepView for Item {
    type V = ItemView;

    open spec fn deep_view(&self) -> ItemView {
        self@
    }
}

impl View for Stmt {
    type V = StmtView;

    open spec fn view(&self) -> StmtView {
        stmt_view(*self)
    }
}

impl DeepView for Stmt {
    type V = StmtView;

    open spec fn deep_view(&self) -> StmtView {
        self@
    }
}

/// The declarations of one source file, in their order.
#[derive(Debug, PartialEq)]
pub struct File {
    pub items: Vec<Item>,
}

impl View for File {
    type V = Seq<ItemView>;

    open spec fn view(&self) -> Seq<ItemView> {
        items_view(self.items@)
    }
}

/// The deep view of a list of items is the list of their views.
pub proof fn lemma_items_deep_view(items: Vec<Item>)
    ensures
        items.deep_view() == items_view(items@),
{
    assert(items.deep_view() =~= items_view(items@));
}

/// The deep view of a list of statements is the list of their views.
pub proof fn lemma_stmts_deep_view(stmts: Vec<Stmt>)
    ensures
        stmts.deep_view() == stmts_view(stmts@),
{
    assert(stmts.deep_view() =~= stmts_view(stmts@));
}

} // verus!
