//! Laws on how the generators treat the items of a module: every top-level
//! function declaration is compiled, in order, and calls of it are compiled
//! by what its declaration says it returns.
use vstd::prelude::*;
use crate::ast::{FnDecl, ModuleItem, Stmt};
use crate::basic::{bx_function, bx_items};
use crate::codegen_spec::{fn_returns_of, module_functions, returns_void};
use crate::ir::SModuleOp;
use crate::scope::lookup;

verus! {

/// Whether an item declares a function.
pub open spec fn is_fn_item(it: ModuleItem) -> bool {
    it matches ModuleItem::Stmt(Stmt::FnDecl(_))
}

/// The function that an item declares.
pub open spec fn item_fn(it: ModuleItem) -> FnDecl {
    it->Stmt_0->FnDecl_0
}

/// The items of a module that declare functions, in order.
pub open spec fn fn_items(items: Seq<ModuleItem>) -> Seq<ModuleItem> {
    items.filter(|it: ModuleItem| is_fn_item(it))
}

/// Splitting off the first item splits off its part of the declarations.
proof fn lemma_fn_items_front(items: Seq<ModuleItem>)
    requires
        items.len() > 0,
    ensures
        fn_items(items) == if is_fn_item(items[0]) {
            seq![items[0]] + fn_items(items.skip(1))
        } else {
            fn_items(items.skip(1))
        },
{
    let pred = |it: ModuleItem| is_fn_item(it);
    assert(items =~= seq![items[0]] + items.skip(1));
    Seq::<ModuleItem>::filter_distributes_over_add(seq![items[0]], items.skip(1), pred);
    assert(seq![items[0]].drop_last() =~= Seq::<ModuleItem>::empty());
    assert(Seq::<ModuleItem>::empty().filter(pred) =~= Seq::<ModuleItem>::empty()) by {
        reveal_with_fuel(Seq::filter, 1);
    }
    assert(seq![items[0]].filter(pred) == Seq::<ModuleItem>::empty().filter(pred) + if pred(items[0]) {
        seq![items[0]]
    } else {
        Seq::<ModuleItem>::empty()
    }) by {
        reveal_with_fuel(Seq::filter, 2);
        assert(seq![items[0]].last() == items[0]);
    }
}

/// Law: the functions that the generator compiles are exactly the
/// function declarations of the module, one for each, in the order they
/// stand in.
pub proof fn law_module_functions(items: Seq<ModuleItem>)
    ensures
        module_functions(items).len() == fn_items(items).len(),
        forall|k: int| 0 <= k < fn_items(items).len() ==> #[trigger] module_functions(items)[k] == item_fn(fn_items(items)[k]),
    decreases items.len(),
{
    if items.len() > 0 {
        lemma_fn_items_front(items);
        law_module_functions(items.skip(1));
        let rest = fn_items(items.skip(1));
        if is_fn_item(items[0]) {
            assert forall|k: int| 0 <= k < fn_items(items).len() implies #[trigger] module_functions(items)[k] == item_fn(fn_items(items)[k]) by {
                if k > 0 {
                    assert(fn_items(items)[k] == rest[k - 1]);
                    assert(module_functions(items)[k] == module_functions(items.skip(1))[k - 1]);
                }
            }
        }
    } else {
        assert(fn_items(items) =~= Seq::<ModuleItem>::empty()) by {
            reveal_with_fuel(Seq::filter, 1);
        }
    }
}

/// One more item: a function declaration adds its entry last; other items
/// add none.
proof fn lemma_fn_returns_last(items: Seq<ModuleItem>, name: Seq<char>)
    requires
        items.len() > 0,
    ensures
        lookup(fn_returns_of(items), name) == if is_fn_item(items.last()) && item_fn(items.last()).name@ == name {
            Some(returns_void(item_fn(items.last()).return_type))
        } else {
            lookup(fn_returns_of(items.drop_last()), name)
        },
{
    let rest = fn_returns_of(items.drop_last());
    match items.last() {
        ModuleItem::Stmt(Stmt::FnDecl(g)) => {
            let full = rest.push((g.name@, returns_void(g.return_type)));
            assert(fn_returns_of(items) == full);
            assert(full.drop_last() =~= rest);
        },
        _ => {
            assert(fn_returns_of(items) == rest);
        },
    }
}

/// Law: for each function that the module declares, and no later
/// declaration of its name hides, what the generator reads of its name is
/// whether the declaration returns nothing; a name that no function of the
/// module declares has no entry.
pub proof fn law_fn_returns(items: Seq<ModuleItem>, i: int)
    requires
        0 <= i < items.len(),
        is_fn_item(items[i]),
        forall|j: int| i < j < items.len() && #[trigger] is_fn_item(items[j]) ==> item_fn(items[j]).name@ != item_fn(items[i]).name@,
    ensures
        lookup(fn_returns_of(items), item_fn(items[i]).name@) == Some(returns_void(item_fn(items[i]).return_type)),
    decreases items.len(),
{
    let n = items.len() - 1;
    lemma_fn_returns_last(items, item_fn(items[i]).name@);
    if i < n {
        assert(is_fn_item(items[n]) ==> item_fn(items[n]).name@ != item_fn(items[i]).name@);
        let d = items.drop_last();
        assert(d[i] == items[i]);
        assert forall|j: int| i < j < d.len() && #[trigger] is_fn_item(d[j]) implies item_fn(d[j]).name@ != item_fn(d[i]).name@ by {
            assert(d[j] == items[j]);
            assert(is_fn_item(items[j]));
        }
        law_fn_returns(d, i);
    }
}

/// Law: a name that no function of the module declares has no entry in
/// what the generator reads of calls.
pub proof fn law_fn_returns_undeclared(items: Seq<ModuleItem>, name: Seq<char>)
    requires
        forall|j: int| 0 <= j < items.len() && #[trigger] is_fn_item(items[j]) ==> item_fn(items[j]).name@ != name,
    ensures
        lookup(fn_returns_of(items), name) is None,
    decreases items.len(),
{
    if items.len() > 0 {
        let n = items.len() - 1;
        lemma_fn_returns_last(items, name);
        assert(is_fn_item(items[n]) ==> item_fn(items[n]).name@ != name);
        let d = items.drop_last();
        assert forall|j: int| 0 <= j < d.len() && #[trigger] is_fn_item(d[j]) implies item_fn(d[j]).name@ != name by {
            assert(d[j] == items[j]);
            assert(is_fn_item(items[j]));
        }
        law_fn_returns_undeclared(d, name);
    }
}

/// Law: where the first generator compiles a module, it emits one
/// `func.func` for each function declaration, in order, named as the
/// declaration.
pub proof fn law_basic_one_func_per_decl(next: int, items: Seq<ModuleItem>)
    ensures
        bx_items(next, items) matches Ok(m) ==> {
            &&& m.len() == fn_items(items).len()
            &&& forall|k: int| 0 <= k < m.len() ==> (#[trigger] m[k] matches SModuleOp::Func(f) && f.name == item_fn(fn_items(items)[k]).name@)
        },
    decreases items.len(),
{
    if items.len() > 0 {
        lemma_fn_items_front(items);
        let rest_items = fn_items(items.skip(1));
        match items[0] {
            ModuleItem::Stmt(Stmt::FnDecl(f)) => {
                match bx_function(next, f) {
                    Ok((n1, func)) => {
                        law_basic_one_func_per_decl(n1, items.skip(1));
                        match bx_items(n1, items.skip(1)) {
                            Ok(rest) => {
                                let m = seq![SModuleOp::Func(func)] + rest;
                                assert forall|k: int| 0 <= k < m.len() implies (#[trigger] m[k] matches SModuleOp::Func(g) && g.name == item_fn(fn_items(items)[k]).name@) by {
                                    if k > 0 {
                                        assert(m[k] == rest[k - 1]);
                                        assert(fn_items(items)[k] == rest_items[k - 1]);
                                    } else {
                                        assert(fn_items(items)[0] == items[0]);
                                    }
                                }
                            },
                            Err(_) => {},
                        }
                    },
                    Err(_) => {},
                }
            },
            _ => {
                law_basic_one_func_per_decl(next, items.skip(1));
            },
        }
    } else {
        assert(fn_items(items) =~= Seq::<ModuleItem>::empty()) by {
            reveal_with_fuel(Seq::filter, 1);
        }
    }
}

} // verus!
