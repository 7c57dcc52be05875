//! The walk over a file's declarations that collects every record.

use crate::rocket_attribute::{Malformed, MalformedView};
use crate::rocket_enum::{enum_record, RocketEnum, RocketEnumView};
use crate::rocket_route::{route_record, RocketRoute, RocketRouteView};
use crate::rocket_struct::{struct_record, RocketStruct, RocketStructView};
use crate::syntax::{
    lemma_items_deep_view, lemma_stmts_deep_view, EnumDeclView, File, FnDeclView, Item, ItemView,
    Stmt, StmtView, StructDeclView,
};
use vstd::prelude::*;

verus! {

/// What the walk emits for one declaration.
#[derive(Debug, PartialEq)]
pub enum Record {
    Route(RocketRoute),
    Struct(RocketStruct),
    Enum(RocketEnum),
    /// A declaration that was passed over because an attribute on it is
    /// malformed.
    Malformed(Malformed),
}

/// The view of a [`Record`].
pub enum RecordView {
    Route(RocketRouteView),
    Struct(RocketStructView),
    Enum(RocketEnumView),
    Malformed(MalformedView),
}

impl View for Record {
    type V = RecordView;

    open spec fn view(&self) -> RecordView {
        match self {
            Record::Route(record) => RecordView::Route(record@),
            Record::Struct(record) => RecordView::Struct(record@),
            Record::Enum(record) => RecordView::Enum(record@),
            Record::Malformed(malformed) => RecordView::Malformed(malformed@),
        }
    }
}

impl DeepView for Record {
    type V = RecordView;

    open spec fn deep_view(&self) -> RecordView {
        self@
    }
}

/// What a function emits by itself: its route, if it declares one.
pub open spec fn fn_records(decl: FnDeclView) -> Seq<RecordView> {
    match route_record(decl) {
        Ok(Some(record)) => seq![RecordView::Route(record)],
        Ok(None) => Seq::empty(),
        Err(malformed) => seq![RecordView::Malformed(malformed)],
    }
}

/// What a struct emits: always one record.
pub open spec fn struct_records(decl: StructDeclView) -> Seq<RecordView> {
    match struct_record(decl) {
        Ok(record) => seq![RecordView::Struct(record)],
        Err(malformed) => seq![RecordView::Malformed(malformed)],
    }
}

/// What an enum emits: its record, if it derives `Responder`.
pub open spec fn enum_records(decl: EnumDeclView) -> Seq<RecordView> {
    match enum_record(decl) {
        Ok(Some(record)) => seq![RecordView::Enum(record)],
        Ok(None) => Seq::empty(),
        Err(malformed) => seq![RecordView::Malformed(malformed)],
    }
}

/// The records of `item` and of everything declared inside it, depth first:
/// a declaration comes before the declarations nested in it. Of a function's
/// body the declarations count; its other statements are skipped.
pub open spec fn item_records(item: ItemView) -> Seq<RecordView>
    decreases item,
{
    match item {
        ItemView::Fn { decl, body } => fn_records(decl) + stmts_records(body),
        ItemView::Mod { content: Some(items) } => items_records(items),
        ItemView::Mod { content: None } => Seq::empty(),
        ItemView::Struct(decl) => struct_records(decl),
        ItemView::Enum(decl) => enum_records(decl),
        ItemView::Other => Seq::empty(),
    }
}

/// The records of `items`, one item after the other.
pub open spec fn items_records(items: Seq<ItemView>) -> Seq<RecordView>
    decreases items,
{
    if items.len() == 0 {
        Seq::empty()
    } else {
        items_records(items.drop_last()) + item_records(items.last())
    }
}

/// The records of the declarations among `stmts`, one after the other.
pub open spec fn stmts_records(stmts: Seq<StmtView>) -> Seq<RecordView>
    decreases stmts,
{
    if stmts.len() == 0 {
        Seq::empty()
    } else {
        stmts_records(stmts.drop_last()) + match stmts.last() {
            StmtView::Item(item) => item_records(item),
            StmtView::Other => Seq::empty(),
        }
    }
}

/// Extraction is a function of the tree: walks over declarations with the
/// same views, and so a second walk over an unchanged tree, collect the same
/// records in the same order.
pub proof fn lemma_traverse_deterministic(
    items: Vec<Item>,
    again: Vec<Item>,
    first: Vec<Record>,
    second: Vec<Record>,
)
    requires
        items.deep_view() == again.deep_view(),
        first.deep_view() == items_records(items.deep_view()),
        second.deep_view() == items_records(again.deep_view()),
    ensures
        first.deep_view() == second.deep_view(),
{
}

/// A function emits at most one record of its own, and a struct exactly one.
pub proof fn lemma_records_per_declaration(function: FnDeclView, strct: StructDeclView)
    ensures
        fn_records(function).len() <= 1,
        struct_records(strct).len() == 1,
{
}

/// The records of one list of declarations followed by another are the
/// records of the first followed by those of the second.
pub proof fn lemma_items_records_concat(first: Seq<ItemView>, second: Seq<ItemView>)
    ensures
        items_records(first + second) == items_records(first) + items_records(second),
    decreases second.len(),
{
    if second.len() == 0 {
        assert(first + second == first);
    } else {
        assert((first + second).drop_last() == first + second.drop_last());
        assert((first + second).last() == second.last());
        lemma_items_records_concat(first, second.drop_last());
    }
}

fn walk_item(item: &Item, out: &mut Vec<Record>)
    ensures
        final(out).deep_view() == old(out).deep_view() + item_records(item@),
    decreases item,
{
    let ghost before = out.deep_view();
    match item {
        Item::Fn { decl, body } => {
            match RocketRoute::parse_fn(decl) {
                Ok(Some(record)) => {
                    out.push(Record::Route(record));
                    assert(out.deep_view() == before + fn_records(decl@));
                },
                Ok(None) => {
                    assert(out.deep_view() == before + fn_records(decl@));
                },
                Err(malformed) => {
                    out.push(Record::Malformed(malformed));
                    assert(out.deep_view() == before + fn_records(decl@));
                },
            }
            walk_stmts(body, out);
            proof {
                lemma_stmts_deep_view(*body);
            }
            assert(out.deep_view() == before + item_records(item@));
        },
        Item::Mod { content: Some(items) } => {
            walk_items(items, out);
            proof {
                lemma_items_deep_view(*items);
            }
        },
        Item::Mod { content: None } => {
            assert(out.deep_view() == before + item_records(item@));
        },
        Item::Struct(decl) => {
            match RocketStruct::parse_struct(decl) {
                Ok(record) => out.push(Record::Struct(record)),
                Err(malformed) => out.push(Record::Malformed(malformed)),
            }
            assert(out.deep_view() == before + item_records(item@));
        },
        Item::Enum(decl) => {
            match RocketEnum::parse_enum(decl) {
                Ok(Some(record)) => out.push(Record::Enum(record)),
                Ok(None) => {},
                Err(malformed) => out.push(Record::Malformed(malformed)),
            }
            assert(out.deep_view() == before + item_records(item@));
        },
        Item::Other => {
            assert(out.deep_view() == before + item_records(item@));
        },
    }
}

fn walk_items(items: &Vec<Item>, out: &mut Vec<Record>)
    ensures
        final(out).deep_view() == old(out).deep_view() + items_records(items.deep_view()),
    decreases items,
{
    let ghost before = out.deep_view();
    let mut i: usize = 0;
    assert(items.deep_view().take(0).len() == 0);
    assert(out.deep_view() == before + items_records(items.deep_view().take(0)));
    while i < items.len()
        invariant
            i <= items.len(),
            out.deep_view() == before + items_records(items.deep_view().take(i as int)),
        decreases items.len() - i,
    {
        let ghost prefix = items.deep_view().take(i + 1);
        let ghost so_far = out.deep_view();
        assert(prefix.last() == items[i as int]@);
        assert(prefix.drop_last() == items.deep_view().take(i as int));
        walk_item(&items[i], out);
        assert(out.deep_view() == before + items_records(prefix));
        i += 1;
    }
    assert(items.deep_view().take(i as int) == items.deep_view());
}

fn walk_stmts(stmts: &Vec<Stmt>, out: &mut Vec<Record>)
    ensures
        final(out).deep_view() == old(out).deep_view() + stmts_records(stmts.deep_view()),
    decreases stmts,
{
    let ghost before = out.deep_view();
    let mut i: usize = 0;
    assert(stmts.deep_view().take(0).len() == 0);
    assert(out.deep_view() == before + stmts_records(stmts.deep_view().take(0)));
    while i < stmts.len()
        invariant
            i <= stmts.len(),
            out.deep_view() == before + stmts_records(stmts.deep_view().take(i as int)),
        decreases stmts.len() - i,
    {
        let ghost prefix = stmts.deep_view().take(i + 1);
        assert(prefix.last() == stmts[i as int]@);
        assert(prefix.drop_last() == stmts.deep_view().take(i as int));
        match &stmts[i] {
            Stmt::Item(item) => {
                walk_item(item, out);
            },
            Stmt::Other => {},
        }
        assert(out.deep_view() == before + stmts_records(prefix));
        i += 1;
    }
    assert(stmts.deep_view().take(i as int) == stmts.deep_view());
}

/// Collects the records of one declaration and of those nested in it.
pub fn traverse_item(item: &Item) -> (r: Vec<Record>)
    ensures
        r.deep_view() == item_records(item@),
{
    let mut out: Vec<Record> = Vec::new();
    walk_item(item, &mut out);
    assert(out.deep_view() == Seq::<RecordView>::empty() + item_records(item@));
    out
}

/// Collects the records of a list of declarations, in their order.
pub fn traverse_items(items: &Vec<Item>) -> (r: Vec<Record>)
    ensures
        r.deep_view() == items_records(items.deep_view()),
{
    let mut out: Vec<Record> = Vec::new();
    walk_items(items, &mut out);
    assert(out.deep_view() == Seq::<RecordView>::empty() + items_records(items.deep_view()));
    out
}

/// Collects the records of a file: those of its declarations in their order,
/// each followed by those of the declarations nested in it. A function's own
/// record comes before those of its body; a module without an inline body
/// contributes nothing.
pub fn traverse_file(ast: &File) -> (r: Vec<Record>)
    ensures
        r.deep_view() == items_records(ast@),
{
    proof {
        lemma_items_deep_view(ast.items);
    }
    traverse_items(&ast.items)
}

} // verus!
