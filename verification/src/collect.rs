//! From the sources of the modules to the sorted list of records.
//!
//! Modules are taken in the order given, and the functions of a module in
//! the order of its source. A name that was already taken by an earlier
//! function, of this module or of another, gets a number: the second function
//! named `get` becomes `get_2`, the third `get_3`.

use crate::error::{BuildError, BuildErrorView};
use crate::extract::{function_info_of, parse_function, ApiFunctionInfo, ApiFunctionView};
use crate::order::{lemma_sorted, precedes, sort_order, sorted, sorted_positions};
use crate::source::{parse_declarations, parsed_source};
use crate::syntax::{ItemDecl, ItemDeclView};
use crate::text::{decimal, decimal_text, is_digit, lemma_decimal, text_eq};
use vstd::prelude::*;
use vstd::string::*;

verus! {

/// How often `name` occurs in `log`.
pub open spec fn occurrences(log: Seq<Seq<char>>, name: Seq<char>) -> nat {
    log.filter(|n: Seq<char>| n == name).len()
}

/// The name of the method for the `k`-th function declared as `base`: the
/// first keeps the name, a later one has `_k` added. Only the method is
/// renamed: it still calls the function under its declared name.
pub open spec fn method_name(base: Seq<char>, k: nat) -> Seq<char> {
    if k <= 1 {
        base
    } else {
        base + "_"@ + decimal(k)
    }
}

/// The names of the functions recorded so far in a run, in the order of
/// their recording, each as it was declared.
///
/// How often a name was declared is counted in this list when it is asked
/// for. A count therefore never exceeds the length of a list, and no count
/// is kept that could overflow.
pub struct SeenFunctions {
    names: Vec<String>,
}

impl View for SeenFunctions {
    type V = Seq<Seq<char>>;

    closed spec fn view(&self) -> Seq<Seq<char>> {
        self.names.deep_view()
    }
}

impl SeenFunctions {
    /// The state at the start of a run: nothing recorded.
    pub fn new() -> (r: SeenFunctions)
        ensures
            r@ == Seq::<Seq<char>>::empty(),
    {
        let r = SeenFunctions { names: Vec::new() };
        assert(r@ =~= Seq::<Seq<char>>::empty());
        r
    }

    /// Records one more function declared as `name`, and tells how many
    /// functions of that name are recorded now.
    pub fn record(&mut self, name: &str) -> (k: usize)
        ensures
            final(self)@ == old(self)@.push(name@),
            k == occurrences(final(self)@, name@),
            k >= 1,
    {
        self.names.push(String::from_str(name));
        let ghost log = self.names.deep_view();
        assert(log =~= old(self)@.push(name@));
        let ghost same = |n: Seq<char>| n == name@;
        let mut k: usize = 0;
        proof {
            reveal(Seq::filter);
            assert(log.take(0).filter(same) =~= Seq::empty());
        }
        for i in 0..self.names.len()
            invariant
                log == self.names.deep_view(),
                same == |n: Seq<char>| n == name@,
                k == log.take(i as int).filter(same).len(),
                k <= i,
        {
            proof {
                reveal(Seq::filter);
                assert(log.take(i + 1).drop_last() =~= log.take(i as int));
                assert(log.take(i + 1).last() == self.names[i as int]@);
            }
            if text_eq(self.names[i].as_str(), name) {
                k += 1;
            }
        }
        proof {
            reveal(Seq::filter);
            assert(log.take(self.names.len() as int) =~= log);
            assert(log.drop_last() =~= old(self)@);
            assert(log.last() == name@);
        }
        k
    }
}

/// The records of the functions among `items`, taken as the items of
/// `module`, after the functions recorded in `seen`; and what is recorded
/// after them.
pub open spec fn module_functions(
    items: Seq<ItemDeclView>,
    module: Seq<char>,
    seen: Seq<Seq<char>>,
) -> (Seq<ApiFunctionView>, Seq<Seq<char>>)
    decreases items.len(),
{
    if items.len() == 0 {
        (Seq::empty(), seen)
    } else {
        let (done, log) = module_functions(items.drop_last(), module, seen);
        match items.last() {
            ItemDeclView::Function(func) => match function_info_of(func, module) {
                Some(info) => {
                    let base = info.declared_name;
                    let log = log.push(base);
                    let name = method_name(base, occurrences(log, base));
                    (done.push(ApiFunctionView { function_name: name, ..info }), log)
                },
                None => (done, log),
            },
            ItemDeclView::Other => (done, log),
        }
    }
}

/// Makes the records of the API functions among the items of a module,
/// numbering each name that `seen` holds already.
pub fn extract_module_functions(
    items: Vec<ItemDecl>,
    module_name: &str,
    seen: &mut SeenFunctions,
) -> (r: Vec<ApiFunctionInfo>)
    ensures
        r.deep_view() == module_functions(items.deep_view(), module_name@, old(seen)@).0,
        final(seen)@ == module_functions(items.deep_view(), module_name@, old(seen)@).1,
{
    let ghost all = items.deep_view();
    let ghost given = items@;
    let ghost start = seen@;
    let mut r: Vec<ApiFunctionInfo> = Vec::new();
    assert(all.take(0) =~= Seq::empty());
    assert(r.deep_view() =~= Seq::empty());
    for item in it: items
        invariant
            it.seq() == given,
            all.len() == given.len(),
            forall|i: int| 0 <= i < given.len() ==> all[i] == #[trigger] given[i].deep_view(),
            r.deep_view() == module_functions(all.take(it.index() as int), module_name@, start).0,
            seen@ == module_functions(all.take(it.index() as int), module_name@, start).1,
    {
        let ghost i = it.index() as int;
        let ghost before = r.deep_view();
        proof {
            assert(all.take(i + 1).drop_last() =~= all.take(i));
            assert(all.take(i + 1).last() == item.deep_view());
        }
        if let ItemDecl::Function(func) = item {
            if let Some(info) = parse_function(func, module_name) {
                let k = seen.record(info.declared_name.as_str());
                let mut function_name = info.declared_name.clone();
                if k > 1 {
                    function_name.append("_");
                    function_name.append(decimal_text(k).as_str());
                }
                let renamed = ApiFunctionInfo {
                    module_name: info.module_name,
                    function_name,
                    declared_name: info.declared_name,
                    result_types: info.result_types,
                    parameters: info.parameters,
                    documentation: info.documentation,
                };
                r.push(renamed);
                assert(r.deep_view() =~= before.push(renamed.deep_view()));
            }
        }
    }
    assert(all.take(given.len() as int) =~= all);
    r
}

/// The source of a module, with the module's name.
pub struct ModuleSource {
    pub name: String,
    pub code: String,
}

/// What a `ModuleSource` holds, its texts as sequences of characters.
pub struct ModuleSourceView {
    pub name: Seq<char>,
    pub code: Seq<char>,
}

impl DeepView for ModuleSource {
    type V = ModuleSourceView;

    open spec fn deep_view(&self) -> ModuleSourceView {
        ModuleSourceView { name: self.name@, code: self.code@ }
    }
}

impl View for ModuleSource {
    type V = ModuleSourceView;

    open spec fn view(&self) -> ModuleSourceView {
        self.deep_view()
    }
}

/// Parses the source of a module and makes the records of its API
/// functions, numbering each name that `seen` holds already.
///
/// A source that is not valid Rust gives `BuildError::Parse` with the
/// module's name and the parser's message, and leaves `seen` as it was.
pub fn parse_module_api_functions(code: &str, module_name: &str, seen: &mut SeenFunctions) -> (r:
    Result<Vec<ApiFunctionInfo>, BuildError>)
    ensures
        match r {
            Ok(functions) => {
                &&& parsed_source(code@) matches Ok(items)
                &&& functions.deep_view() == module_functions(items, module_name@, old(seen)@).0
                &&& final(seen)@ == module_functions(items, module_name@, old(seen)@).1
            },
            Err(error) => {
                &&& parsed_source(code@) matches Err(message)
                &&& error@ == (BuildErrorView::Parse { module: module_name@, message })
                &&& final(seen)@ == old(seen)@
            },
        },
{
    match parse_declarations(code) {
        Ok(items) => Ok(extract_module_functions(items, module_name, seen)),
        Err(message) => Err(
            BuildError::Parse { module: String::from_str(module_name), message },
        ),
    }
}

/// The records of the API functions of `modules`, in the order of the
/// modules and of their sources, with what is recorded after them; or the
/// error of the first module whose source is not valid Rust.
pub open spec fn collected(modules: Seq<ModuleSourceView>) -> Result<
    (Seq<ApiFunctionView>, Seq<Seq<char>>),
    BuildErrorView,
>
    decreases modules.len(),
{
    if modules.len() == 0 {
        Ok((Seq::empty(), Seq::empty()))
    } else {
        match collected(modules.drop_last()) {
            Ok((done, seen)) => match parsed_source(modules.last().code) {
                Ok(items) => {
                    let (found, seen) = module_functions(items, modules.last().name, seen);
                    Ok((done + found, seen))
                },
                Err(message) => Err(
                    BuildErrorView::Parse { module: modules.last().name, message },
                ),
            },
            Err(error) => Err(error),
        }
    }
}

/// What `parse_api_functions` gives for `modules`: the records of all their
/// API functions, sorted by module and name.
pub open spec fn api_functions(modules: Seq<ModuleSourceView>) -> Result<
    Seq<ApiFunctionView>,
    BuildErrorView,
> {
    match collected(modules) {
        Ok((found, _)) => Ok(sorted(found, true)),
        Err(error) => Err(error),
    }
}

/// Puts records into the order of their modules' names and, within a
/// module, of their own names.
pub fn sort_functions(functions: &Vec<ApiFunctionInfo>) -> (r: Vec<ApiFunctionInfo>)
    ensures
        r.deep_view() == sorted(functions.deep_view(), true),
{
    let order = sorted_positions(functions, true);
    let ghost s = functions.deep_view();
    let ghost o = sort_order(s, s.len(), true);
    let mut r: Vec<ApiFunctionInfo> = Vec::new();
    for k in 0..order.len()
        invariant
            s == functions.deep_view(),
            o == sort_order(s, s.len(), true),
            order@.map_values(|i: usize| i as int) == o,
            forall|k: int| 0 <= k < order.len() ==> #[trigger] order[k] < functions.len(),
            r.len() == k,
            forall|j: int| 0 <= j < k ==> (#[trigger] r[j])@ == s[o[j]],
    {
        assert(o[k as int] == order[k as int] as int);
        r.push(functions[order[k]].clone());
    }
    assert(o.len() == order.len());
    assert(r.deep_view() =~= sorted(s, true));
    r
}

/// Makes the sorted list of the records of all API functions of `modules`.
///
/// The modules are parsed in the order given. The first one whose source is
/// not valid Rust ends the run with `BuildError::Parse`.
pub fn parse_api_functions(modules: &Vec<ModuleSource>) -> (r: Result<
    Vec<ApiFunctionInfo>,
    BuildError,
>)
    ensures
        match r {
            Ok(functions) => api_functions(modules.deep_view()) == Ok::<
                Seq<ApiFunctionView>,
                BuildErrorView,
            >(functions.deep_view()),
            Err(error) => api_functions(modules.deep_view()) == Err::<
                Seq<ApiFunctionView>,
                BuildErrorView,
            >(error@),
        },
{
    let ghost all = modules.deep_view();
    let mut seen = SeenFunctions::new();
    let mut functions: Vec<ApiFunctionInfo> = Vec::new();
    assert(all.take(0) =~= Seq::empty());
    assert(functions.deep_view() =~= Seq::empty());
    for i in 0..modules.len()
        invariant
            all == modules.deep_view(),
            collected(all.take(i as int)) == Ok::<
                (Seq<ApiFunctionView>, Seq<Seq<char>>),
                BuildErrorView,
            >((functions.deep_view(), seen@)),
    {
        let ghost before = functions.deep_view();
        proof {
            assert(all.take(i + 1).drop_last() =~= all.take(i as int));
            assert(all.take(i + 1).last() == modules[i as int]@);
        }
        let module = &modules[i];
        match parse_module_api_functions(module.code.as_str(), module.name.as_str(), &mut seen) {
            Ok(mut found) => {
                let ghost added = found.deep_view();
                functions.append(&mut found);
                assert(functions.deep_view() =~= before + added);
            },
            Err(error) => {
                proof {
                    lemma_collected_error(all, i + 1);
                }
                return Err(error);
            },
        }
    }
    assert(all.take(modules.len() as int) =~= all);
    Ok(sort_functions(&functions))
}

/// An error in the first modules is the error of the whole list.
proof fn lemma_collected_error(modules: Seq<ModuleSourceView>, n: int)
    requires
        0 <= n <= modules.len(),
        collected(modules.take(n)) is Err,
    ensures
        collected(modules) == collected(modules.take(n)),
    decreases modules.len(),
{
    if n < modules.len() {
        assert(modules.drop_last().take(n) =~= modules.take(n));
        lemma_collected_error(modules.drop_last(), n);
    } else {
        assert(modules.take(n) =~= modules);
    }
}


/// The first function of a name keeps it, and the second has `_2` added.
pub proof fn lemma_method_name_first_and_second(base: Seq<char>)
    ensures
        method_name(base, 1) == base,
        method_name(base, 2) == base + seq!['_', '2'],
{
    reveal_strlit("_");
    assert("_"@ =~= seq!['_']);
    assert(decimal(2) =~= seq!['2']);
    assert(base + "_"@ + decimal(2) =~= base + seq!['_', '2']);
}

/// How the functions of a module are numbered. Each record adds the name
/// under which its function was declared to what is recorded, and its own
/// name is that name with the number of its occurrences so far, the function
/// itself included.
pub proof fn lemma_module_numbering(
    items: Seq<ItemDeclView>,
    module: Seq<char>,
    seen: Seq<Seq<char>>,
)
    ensures
        ({
            let (found, log) = module_functions(items, module, seen);
            &&& log.len() == seen.len() + found.len()
            &&& log.take(seen.len() as int) == seen
            &&& forall|j: int|
                0 <= j < found.len() ==> (#[trigger] found[j]).function_name == method_name(
                    log[seen.len() + j],
                    occurrences(log.take(seen.len() + j + 1), log[seen.len() + j]),
                )
            &&& forall|j: int| 0 <= j < found.len() ==> (#[trigger] found[j]).module_name == module
            &&& forall|j: int|
                0 <= j < found.len() ==> (#[trigger] found[j]).declared_name == log[seen.len() + j]
        }),
    decreases items.len(),
{
    let (found, log) = module_functions(items, module, seen);
    if items.len() == 0 {
        assert(log.take(seen.len() as int) =~= seen);
    } else {
        let (done, before) = module_functions(items.drop_last(), module, seen);
        lemma_module_numbering(items.drop_last(), module, seen);
        assert(log.take(seen.len() as int) =~= before.take(seen.len() as int));
        assert forall|j: int| 0 <= j < found.len() implies (#[trigger] found[j]).function_name
            == method_name(
            log[seen.len() + j],
            occurrences(log.take(seen.len() + j + 1), log[seen.len() + j]),
        ) by {
            if j < done.len() {
                assert(found[j] == done[j]);
                assert(log.take(seen.len() + j + 1) =~= before.take(seen.len() + j + 1));
            } else {
                assert(log.take(seen.len() + j + 1) =~= log);
            }
        }
        assert forall|j: int| 0 <= j < found.len() implies (#[trigger] found[j]).declared_name
            == log[seen.len() + j] by {
            if j < done.len() {
                assert(found[j] == done[j]);
                assert(log[seen.len() + j] == before[seen.len() + j]);
            }
        }
    }
}

/// How the functions of a run are numbered: the record at position `j`, in
/// the order of processing, keeps the name under which its function was
/// declared, and its method has that name with the number of the functions
/// declared under it up to and including itself.
pub proof fn lemma_numbering(modules: Seq<ModuleSourceView>)
    ensures
        collected(modules) matches Ok((found, log)) ==> {
            &&& log.len() == found.len()
            &&& forall|j: int| 0 <= j < found.len() ==> (#[trigger] found[j]).declared_name == log[j]
            &&& forall|j: int|
                0 <= j < found.len() ==> (#[trigger] found[j]).function_name == method_name(
                    log[j],
                    occurrences(log.take(j + 1), log[j]),
                )
        },
    decreases modules.len(),
{
    if modules.len() > 0 {
        lemma_numbering(modules.drop_last());
        if let Ok((done, seen)) = collected(modules.drop_last()) {
            if let Ok(items) = parsed_source(modules.last().code) {
                let (added, log) = module_functions(items, modules.last().name, seen);
                let found = done + added;
                lemma_module_numbering(items, modules.last().name, seen);
                assert forall|j: int| 0 <= j < found.len() implies (#[trigger] found[j]).function_name
                    == method_name(log[j], occurrences(log.take(j + 1), log[j])) by {
                    if j < done.len() {
                        assert(found[j] == done[j]);
                        assert(log[j] == log.take(seen.len() as int)[j]);
                        assert(log.take(j + 1) =~= seen.take(j + 1));
                    } else {
                        assert(found[j] == added[j - done.len()]);
                    }
                }
                assert forall|j: int| 0 <= j < found.len() implies (#[trigger] found[j]).declared_name
                    == log[j] by {
                    if j < done.len() {
                        assert(found[j] == done[j]);
                        assert(log[j] == log.take(seen.len() as int)[j]);
                    } else {
                        assert(found[j] == added[j - done.len()]);
                    }
                }
            }
        }
    }
}

/// Two numbered names are equal only where the names and the numbers are.
pub proof fn lemma_method_name_injective(a: Seq<char>, j: nat, b: Seq<char>, k: nat)
    requires
        j >= 2,
        k >= 2,
        method_name(a, j) == method_name(b, k),
    ensures
        a == b,
        j == k,
{
    reveal_strlit("_");
    lemma_decimal(j);
    lemma_decimal(k);
    let s = method_name(a, j);
    let c = decimal(j);
    let d = decimal(k);
    assert(s =~= a + seq!['_'] + c);
    assert(s =~= b + seq!['_'] + d);
    assert(s.len() == a.len() + 1 + c.len());
    assert(s.len() == b.len() + 1 + d.len());
    if c.len() < d.len() {
        let p = a.len() as int;
        assert((a + seq!['_'] + c)[p] == '_');
        assert((b + seq!['_'] + d)[p] == d[p - b.len() - 1]);
        assert(is_digit(d[p - b.len() - 1]));
        assert(false);
    }
    if d.len() < c.len() {
        let p = b.len() as int;
        assert((b + seq!['_'] + d)[p] == '_');
        assert((a + seq!['_'] + c)[p] == c[p - a.len() - 1]);
        assert(is_digit(c[p - a.len() - 1]));
        assert(false);
    }
    assert(a =~= s.subrange(0, a.len() as int));
    assert(b =~= s.subrange(0, b.len() as int));
    assert(c =~= s.subrange(a.len() as int + 1, s.len() as int));
    assert(d =~= s.subrange(b.len() as int + 1, s.len() as int));
}

/// A name occurs more often in a longer part of the log than in a shorter
/// part that ends before one of its occurrences.
pub proof fn lemma_occurrences_grow(log: Seq<Seq<char>>, name: Seq<char>, i: int, j: int)
    requires
        0 <= i <= j <= log.len(),
    ensures
        occurrences(log.take(i), name) <= occurrences(log.take(j), name),
        i < j && log[j - 1] == name ==> occurrences(log.take(i), name) < occurrences(
            log.take(j),
            name,
        ),
    decreases j - i,
{
    reveal(Seq::filter);
    if i < j {
        lemma_occurrences_grow(log, name, i, j - 1);
        assert(log.take(j).drop_last() =~= log.take(j - 1));
        assert(log.take(j).last() == log[j - 1]);
    }
}

/// Whether `name` is a numbered form of a name of `log`: that name with
/// `_k` added, for a number `k` of at least 2.
pub open spec fn is_numbered_form(name: Seq<char>, log: Seq<Seq<char>>) -> bool {
    exists|i: int, k: nat|
        0 <= i < log.len() && k >= 2 && name == #[trigger] method_name(log[i], k)
}

/// No two methods of a run have the same name, as long as no function is
/// declared under a name that is the numbered form of a declared name: with
/// `get` declared twice and `get_2` once, two methods are named `get_2`.
pub proof fn lemma_names_are_unique(modules: Seq<ModuleSourceView>)
    requires
        collected(modules) matches Ok((_, log)) && forall|i: int|
            0 <= i < log.len() ==> !is_numbered_form(#[trigger] log[i], log),
    ensures
        collected(modules) matches Ok((found, _)) && forall|i: int, j: int|
            0 <= i < j < found.len() ==> (#[trigger] found[i]).function_name != (
            #[trigger] found[j]).function_name,
{
    lemma_numbering(modules);
    let (found, log) = collected(modules)->Ok_0;
    assert forall|i: int, j: int| 0 <= i < j < found.len() implies (#[trigger] found[i]).function_name
        != (#[trigger] found[j]).function_name by {
        let m = occurrences(log.take(i + 1), log[i]);
        let n = occurrences(log.take(j + 1), log[j]);
        assert(found[i].function_name == method_name(log[i], m));
        assert(found[j].function_name == method_name(log[j], n));
        lemma_occurrences_grow(log, log[i], 0, i + 1);
        lemma_occurrences_grow(log, log[j], 0, j + 1);
        if found[i].function_name == found[j].function_name {
            if m <= 1 && n <= 1 {
                lemma_occurrences_grow(log, log[j], i + 1, j + 1);
            } else if m <= 1 {
                assert(is_numbered_form(log[i], log));
            } else if n <= 1 {
                assert(is_numbered_form(log[j], log));
            } else {
                lemma_method_name_injective(log[i], m, log[j], n);
                lemma_occurrences_grow(log, log[j], i + 1, j + 1);
            }
        }
    }
}

/// A module whose source is not valid Rust fails the whole run, whatever
/// the other modules hold.
pub proof fn lemma_invalid_module_fails(modules: Seq<ModuleSourceView>, k: int)
    requires
        0 <= k < modules.len(),
        parsed_source(modules[k].code) is Err,
    ensures
        collected(modules) is Err,
        api_functions(modules) is Err,
    decreases modules.len(),
{
    if k < modules.len() - 1 {
        assert(modules.drop_last()[k] == modules[k]);
        lemma_invalid_module_fails(modules.drop_last(), k);
    }
}

/// The run fails with the error of the first module whose source is not
/// valid Rust.
pub proof fn lemma_first_invalid_module(modules: Seq<ModuleSourceView>, k: int)
    requires
        0 <= k < modules.len(),
        parsed_source(modules[k].code) is Err,
        forall|j: int| 0 <= j < k ==> parsed_source(#[trigger] modules[j].code) is Ok,
    ensures
        api_functions(modules) == Err::<Seq<ApiFunctionView>, BuildErrorView>(
            BuildErrorView::Parse {
                module: modules[k].name,
                message: parsed_source(modules[k].code)->Err_0,
            },
        ),
{
    lemma_all_valid_modules(modules.take(k));
    assert(modules.take(k + 1).drop_last() =~= modules.take(k));
    assert(modules.take(k + 1).last() == modules[k]);
    lemma_collected_error(modules, k + 1);
}

/// Modules whose sources are all valid Rust are all read.
pub proof fn lemma_all_valid_modules(modules: Seq<ModuleSourceView>)
    requires
        forall|j: int| 0 <= j < modules.len() ==> parsed_source(#[trigger] modules[j].code) is Ok,
    ensures
        collected(modules) is Ok,
        api_functions(modules) is Ok,
    decreases modules.len(),
{
    if modules.len() > 0 {
        assert forall|j: int| 0 <= j < modules.drop_last().len() implies parsed_source(
            #[trigger] modules.drop_last()[j].code,
        ) is Ok by {
            assert(modules.drop_last()[j] == modules[j]);
        }
        lemma_all_valid_modules(modules.drop_last());
        assert(parsed_source(modules[modules.len() - 1].code) is Ok);
    }
}

/// The list that a run gives holds the records in the order of their
/// modules' names and, within a module, of their own names; and it holds the
/// records that were made, each as often.
pub proof fn lemma_api_functions_sorted(modules: Seq<ModuleSourceView>)
    ensures
        api_functions(modules) matches Ok(functions) ==> {
            &&& collected(modules) matches Ok((found, _))
            &&& functions.to_multiset() == found.to_multiset()
            &&& forall|j: int, k: int|
                0 <= j < k < functions.len() ==> !precedes(
                    #[trigger] functions[k],
                    #[trigger] functions[j],
                    true,
                )
        },
{
    if let Ok((found, _)) = collected(modules) {
        lemma_sorted(found, true);
    }
}

} // verus!
