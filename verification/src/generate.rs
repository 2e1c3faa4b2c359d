//! From the records to the text of the client's methods.
//!
//! A record is first prepared: its names and types are put into the form
//! that `crate::tokens` gives them, and a record with a name that is no
//! identifier, or a type that is no type, ends the run. The prepared records
//! are then written as source text, and that text is handed to the tokenizer,
//! whose rendering is the result.
//!
//! Records are grouped by module, the modules in the order of their names and
//! the records of a module in the order given. Each group starts with a
//! banner: a comment with the module's name, without a final `_api`, in upper
//! case.

use crate::error::{BuildError, BuildErrorView};
use crate::extract::{ApiFunctionInfo, ApiFunctionView, ParamInfo, ParamInfoView};
use crate::order::{lemma_sort_order, precedes, sort_order, sorted_positions};
use crate::text::{chars_of, lemma_text_lt_order, text_eq};
use crate::tokens::{
    ident_text, ident_tokens, render_tokens, string_literal, string_literal_text, token_text,
    type_text, type_tokens, uppercase, uppercase_text,
};
use vstd::prelude::*;
use vstd::string::*;

verus! {

/// A record as it is written: every name an identifier, every type the
/// text of a type, the documentation a string literal.
pub struct MethodParts {
    /// The module's name as the record has it: records are grouped by it.
    pub module_name: String,
    /// The module's name as an identifier.
    pub module: String,
    /// The name on the module's banner.
    pub banner: String,
    /// The method's name.
    pub name: String,
    /// The name under which the module declares the function that the
    /// method calls.
    pub declared: String,
    /// The documentation, as a string literal with its quotes.
    pub documentation: String,
    pub value: String,
    pub error: String,
    pub params: Vec<ParamInfo>,
}

/// What a `MethodParts` holds, its texts as sequences of characters.
pub struct MethodPartsView {
    pub module_name: Seq<char>,
    pub module: Seq<char>,
    pub banner: Seq<char>,
    pub name: Seq<char>,
    pub declared: Seq<char>,
    pub documentation: Seq<char>,
    pub value: Seq<char>,
    pub error: Seq<char>,
    pub params: Seq<ParamInfoView>,
}

impl DeepView for MethodParts {
    type V = MethodPartsView;

    open spec fn deep_view(&self) -> MethodPartsView {
        MethodPartsView {
            module_name: self.module_name@,
            module: self.module@,
            banner: self.banner@,
            name: self.name@,
            declared: self.declared@,
            documentation: self.documentation@,
            value: self.value@,
            error: self.error@,
            params: self.params.deep_view(),
        }
    }
}

impl View for MethodParts {
    type V = MethodPartsView;

    open spec fn view(&self) -> MethodPartsView {
        self.deep_view()
    }
}

/// `s` without `_api` at its end.
pub open spec fn without_api_suffix(s: Seq<char>) -> Seq<char> {
    if s.len() >= 4 && s.subrange(s.len() - 4, s.len() as int) == seq!['_', 'a', 'p', 'i'] {
        s.subrange(0, s.len() - 4)
    } else {
        s
    }
}

/// Takes `_api` off the end of a module's name.
pub fn module_stem(module: &str) -> (r: String)
    ensures
        r@ == without_api_suffix(module@),
{
    let chars = chars_of(module);
    let n = chars.len();
    if n >= 4 && chars[n - 4] == '_' && chars[n - 3] == 'a' && chars[n - 2] == 'p' && chars[n - 1]
        == 'i' {
        assert(module@.subrange(n - 4, n as int) =~= seq!['_', 'a', 'p', 'i']);
        String::from_str(module.substring_char(0, n - 4))
    } else {
        proof {
            if n >= 4 {
                let tail = module@.subrange(n - 4, n as int);
                assert(tail[0] == chars[n - 4] && tail[1] == chars[n - 3] && tail[2] == chars[n
                    - 2] && tail[3] == chars[n - 1]);
            }
        }
        String::from_str(module)
    }
}

/// The banner with `name` on it, as source text: a documentation comment of
/// two lines, the first with the name.
pub open spec fn banner_text(name: Seq<char>) -> Seq<char> {
    "/// "@ + name + " API\n///\n"@
}

/// Writes the banner with `name` on it.
pub fn write_banner(name: &str) -> (r: String)
    ensures
        r@ == banner_text(name@),
{
    let mut r = String::from_str("/// ");
    r.append(name);
    r.append(" API\n///\n");
    r
}

/// The name on the banner of a module: the module's name without a final
/// `_api`, in upper case.
pub open spec fn banner_name(module: Seq<char>) -> Seq<char> {
    uppercase_text(without_api_suffix(module))
}

/// Writes the banner of a module.
pub fn generate_module_comment(module: &str) -> (r: String)
    ensures
        r@ == banner_text(banner_name(module@)),
{
    write_banner(uppercase(module_stem(module).as_str()).as_str())
}

/// The arguments of a method behind `&self`, as source text: for each
/// argument a comma, its name, a colon and its type.
pub open spec fn params_text(params: Seq<ParamInfoView>) -> Seq<char>
    decreases params.len(),
{
    if params.len() == 0 {
        Seq::empty()
    } else {
        params_text(params.drop_last()) + " , "@ + params.last().name + " : "@ + params.last().ty
    }
}

/// Writes the arguments of a method behind `&self`.
pub fn write_param_list(params: &Vec<ParamInfo>) -> (r: String)
    ensures
        r@ == params_text(params.deep_view()),
{
    let ghost all = params.deep_view();
    let mut r = String::new();
    assert(all.take(0) =~= Seq::empty());
    for i in 0..params.len()
        invariant
            all == params.deep_view(),
            r@ == params_text(all.take(i as int)),
    {
        proof {
            assert(all.take(i + 1).drop_last() =~= all.take(i as int));
            assert(all.take(i + 1).last() == params[i as int]@);
        }
        r.append(" , ");
        r.append(params[i].name.as_str());
        r.append(" : ");
        r.append(params[i].ty.as_str());
    }
    assert(all.take(params.len() as int) =~= all);
    r
}

/// The arguments of the call that a method makes, behind the
/// configuration, as source text: for each argument a comma and its name.
pub open spec fn args_text(params: Seq<ParamInfoView>) -> Seq<char>
    decreases params.len(),
{
    if params.len() == 0 {
        Seq::empty()
    } else {
        args_text(params.drop_last()) + " , "@ + params.last().name
    }
}

/// Writes the arguments of the call that a method makes, behind the
/// configuration.
pub fn write_arg_list(params: &Vec<ParamInfo>) -> (r: String)
    ensures
        r@ == args_text(params.deep_view()),
{
    let ghost all = params.deep_view();
    let mut r = String::new();
    assert(all.take(0) =~= Seq::empty());
    for i in 0..params.len()
        invariant
            all == params.deep_view(),
            r@ == args_text(all.take(i as int)),
    {
        proof {
            assert(all.take(i + 1).drop_last() =~= all.take(i as int));
            assert(all.take(i + 1).last() == params[i as int]@);
        }
        r.append(" , ");
        r.append(params[i].name.as_str());
    }
    assert(all.take(params.len() as int) =~= all);
    r
}

/// A method, as source text. It carries the documentation, takes `&self`
/// and the arguments, returns `Result<T, apis::Error<apis::module::E>>`, and
/// hands `&self.config` and the arguments on to the function of the module,
/// whose result it awaits and returns. The function is called by the name
/// under which the module declares it, also where the method has another.
pub open spec fn method_text(parts: MethodPartsView) -> Seq<char> {
    "#[doc = "@ + parts.documentation + "]\npub async fn "@ + parts.name + " ( &self"@
        + params_text(parts.params) + " ) -> Result < "@ + parts.value
        + " , apis::Error < apis :: "@ + parts.module + " :: "@ + parts.error
        + " >> {\napis :: "@ + parts.module + " :: "@ + parts.declared + " ( &self.config"@ + args_text(
        parts.params,
    ) + " ) . await\n}\n"@
}

/// Writes a method.
pub fn write_method(parts: &MethodParts) -> (r: String)
    ensures
        r@ == method_text(parts@),
{
    let mut r = String::from_str("#[doc = ");
    r.append(parts.documentation.as_str());
    r.append("]\npub async fn ");
    r.append(parts.name.as_str());
    r.append(" ( &self");
    r.append(write_param_list(&parts.params).as_str());
    r.append(" ) -> Result < ");
    r.append(parts.value.as_str());
    r.append(" , apis::Error < apis :: ");
    r.append(parts.module.as_str());
    r.append(" :: ");
    r.append(parts.error.as_str());
    r.append(" >> {\napis :: ");
    r.append(parts.module.as_str());
    r.append(" :: ");
    r.append(parts.declared.as_str());
    r.append(" ( &self.config");
    r.append(write_arg_list(&parts.params).as_str());
    r.append(" ) . await\n}\n");
    r
}

/// Whether a banner stands before the method at `position`: before the
/// first method, and before each method of another module than the one
/// before it.
pub open spec fn starts_group(parts: Seq<MethodPartsView>, position: int) -> bool {
    position == 0 || parts[position - 1].module_name != parts[position].module_name
}

/// The banners and methods for `parts`, in the order given, as source text.
pub open spec fn methods_text(parts: Seq<MethodPartsView>) -> Seq<char>
    decreases parts.len(),
{
    if parts.len() == 0 {
        Seq::empty()
    } else if starts_group(parts, parts.len() - 1) {
        methods_text(parts.drop_last()) + banner_text(parts.last().banner) + method_text(
            parts.last(),
        )
    } else {
        methods_text(parts.drop_last()) + method_text(parts.last())
    }
}

/// Writes the banners and methods for `parts`, in the order given.
pub fn write_methods(parts: &Vec<MethodParts>) -> (r: String)
    ensures
        r@ == methods_text(parts.deep_view()),
{
    let ghost all = parts.deep_view();
    let mut r = String::new();
    assert(all.take(0) =~= Seq::empty());
    for n in 0..parts.len()
        invariant
            all == parts.deep_view(),
            r@ == methods_text(all.take(n as int)),
    {
        proof {
            let now = all.take(n + 1);
            assert(now.drop_last() =~= all.take(n as int));
            assert(now.last() == parts[n as int]@);
            if n > 0 {
                assert(now[n - 1] == parts[n - 1]@);
            }
        }
        let banner = if n == 0 {
            true
        } else {
            !text_eq(parts[n - 1].module_name.as_str(), parts[n].module_name.as_str())
        };
        if banner {
            r.append(write_banner(parts[n].banner.as_str()).as_str());
        }
        r.append(write_method(&parts[n]).as_str());
    }
    assert(all.take(parts.len() as int) =~= all);
    r
}

/// The block `impl Client` with the constructor and the banners and methods
/// for `parts`, as source text.
pub open spec fn client_text(parts: Seq<MethodPartsView>) -> Seq<char> {
    "impl Client {\n/// Creates a new client with the given configuration\npub fn new(config: Config) -> Self {\nClient { config }\n}\n"@
        + methods_text(parts) + "}\n"@
}

/// Writes the block `impl Client` with the constructor and the banners and
/// methods for `parts`.
pub fn write_client(parts: &Vec<MethodParts>) -> (r: String)
    ensures
        r@ == client_text(parts.deep_view()),
{
    let mut r = String::from_str(
        "impl Client {\n/// Creates a new client with the given configuration\npub fn new(config: Config) -> Self {\nClient { config }\n}\n",
    );
    r.append(write_methods(parts).as_str());
    r.append("}\n");
    r
}

/// The arguments of a record as they are written: each name as an
/// identifier and each type as the text of a type. `None` where a name is
/// no identifier or a type is no type.
pub open spec fn params_parts(params: Seq<ParamInfoView>) -> Option<Seq<ParamInfoView>>
    decreases params.len(),
{
    if params.len() == 0 {
        Some(Seq::empty())
    } else {
        match (
            params_parts(params.drop_last()),
            ident_text(params.last().name),
            type_text(params.last().ty),
        ) {
            (Some(rest), Some(name), Some(ty)) => Some(rest.push(ParamInfoView { name, ty })),
            _ => None,
        }
    }
}

/// Puts the arguments of a record into the form in which they are written.
pub fn prepare_params(params: &Vec<ParamInfo>) -> (r: Option<Vec<ParamInfo>>)
    ensures
        r.deep_view() == params_parts(params.deep_view()),
{
    let ghost all = params.deep_view();
    let mut r: Vec<ParamInfo> = Vec::new();
    assert(all.take(0) =~= Seq::empty());
    assert(r.deep_view() =~= Seq::empty());
    for i in 0..params.len()
        invariant
            all == params.deep_view(),
            params_parts(all.take(i as int)) == Some(r.deep_view()),
    {
        let ghost before = r.deep_view();
        proof {
            assert(all.take(i + 1).drop_last() =~= all.take(i as int));
            assert(all.take(i + 1).last() == params[i as int]@);
        }
        let name = ident_tokens(params[i].name.as_str());
        let ty = type_tokens(params[i].ty.as_str());
        match (name, ty) {
            (Some(name), Some(ty)) => {
                let ghost added = ParamInfoView { name: name@, ty: ty@ };
                r.push(ParamInfo { name, ty });
                assert(r.deep_view() =~= before.push(added));
            },
            _ => {
                proof {
                    lemma_params_parts_none(all, i + 1);
                }
                return None;
            },
        }
    }
    assert(all.take(params.len() as int) =~= all);
    Some(r)
}

proof fn lemma_params_parts_none(params: Seq<ParamInfoView>, n: int)
    requires
        0 <= n <= params.len(),
        params_parts(params.take(n)) is None,
    ensures
        params_parts(params) is None,
    decreases params.len(),
{
    if n < params.len() {
        assert(params.drop_last().take(n) =~= params.take(n));
        lemma_params_parts_none(params.drop_last(), n);
    } else {
        assert(params.take(n) =~= params);
    }
}

/// A record as it is written. `None` where a name of the record is no
/// identifier or a type of it is no type.
pub open spec fn method_parts(func: ApiFunctionView) -> Option<MethodPartsView> {
    match (
        ident_text(func.function_name),
        ident_text(func.declared_name),
        ident_text(func.module_name),
        type_text(func.result_types.value),
        type_text(func.result_types.error),
        params_parts(func.parameters),
    ) {
        (Some(name), Some(declared), Some(module), Some(value), Some(error), Some(params)) => Some(
            MethodPartsView {
                module_name: func.module_name,
                module,
                banner: banner_name(module),
                name,
                declared,
                documentation: string_literal_text(func.documentation),
                value,
                error,
                params,
            },
        ),
        _ => None,
    }
}

/// The error for a record that cannot be written as a method.
pub open spec fn synthesis_error(func: ApiFunctionView) -> BuildErrorView {
    BuildErrorView::Synthesis { module: func.module_name, function: func.function_name }
}

/// Puts a record into the form in which it is written.
///
/// Fails with `BuildError::Synthesis` where a name of the record is no
/// identifier or a type of it is no type.
pub fn prepare_method(func: &ApiFunctionInfo) -> (r: Result<MethodParts, BuildError>)
    ensures
        match r {
            Ok(parts) => method_parts(func@) == Some(parts@),
            Err(error) => method_parts(func@) is None && error@ == synthesis_error(func@),
        },
{
    let name = ident_tokens(func.function_name.as_str());
    let declared = ident_tokens(func.declared_name.as_str());
    let module = ident_tokens(func.module_name.as_str());
    let value = type_tokens(func.result_types.value.as_str());
    let error = type_tokens(func.result_types.error.as_str());
    let params = prepare_params(&func.parameters);
    match (name, declared, module, value, error, params) {
        (Some(name), Some(declared), Some(module), Some(value), Some(error), Some(params)) => Ok(
            MethodParts {
                module_name: func.module_name.clone(),
                banner: uppercase(module_stem(module.as_str()).as_str()),
                module,
                name,
                declared,
                documentation: string_literal(func.documentation.as_str()),
                value,
                error,
                params,
            },
        ),
        _ => Err(
            BuildError::Synthesis {
                module: func.module_name.clone(),
                function: func.function_name.clone(),
            },
        ),
    }
}

/// The arguments of a method behind `&self`, as source text; `None` where a
/// name is no identifier or a type is no type.
pub open spec fn params_source(params: Seq<ParamInfoView>) -> Option<Seq<char>> {
    match params_parts(params) {
        Some(parts) => Some(params_text(parts)),
        None => None,
    }
}

/// Writes the arguments of a method behind `&self`.
pub fn generate_param_list(params: &Vec<ParamInfo>) -> (r: Option<String>)
    ensures
        r.deep_view() == params_source(params.deep_view()),
{
    match prepare_params(params) {
        Some(parts) => Some(write_param_list(&parts)),
        None => None,
    }
}

/// The arguments of the call that a method makes, behind the
/// configuration, as source text: for each recorded argument a comma and its
/// name as an identifier. `None` where a name is no identifier.
pub open spec fn args_source(params: Seq<ParamInfoView>) -> Option<Seq<char>>
    decreases params.len(),
{
    if params.len() == 0 {
        Some(Seq::empty())
    } else {
        match (args_source(params.drop_last()), ident_text(params.last().name)) {
            (Some(rest), Some(name)) => Some(rest + " , "@ + name),
            _ => None,
        }
    }
}

/// Writes the arguments of the call that a method makes, behind the
/// configuration.
pub fn generate_arg_list(params: &Vec<ParamInfo>) -> (r: Option<String>)
    ensures
        r.deep_view() == args_source(params.deep_view()),
{
    let ghost all = params.deep_view();
    let mut r = String::new();
    assert(all.take(0) =~= Seq::empty());
    for i in 0..params.len()
        invariant
            all == params.deep_view(),
            args_source(all.take(i as int)) == Some(r@),
    {
        proof {
            assert(all.take(i + 1).drop_last() =~= all.take(i as int));
            assert(all.take(i + 1).last() == params[i as int]@);
        }
        match ident_tokens(params[i].name.as_str()) {
            Some(name) => {
                r.append(" , ");
                r.append(name.as_str());
            },
            None => {
                proof {
                    lemma_args_source_none(all, i + 1);
                }
                return None;
            },
        }
    }
    assert(all.take(params.len() as int) =~= all);
    Some(r)
}

proof fn lemma_args_source_none(params: Seq<ParamInfoView>, n: int)
    requires
        0 <= n <= params.len(),
        args_source(params.take(n)) is None,
    ensures
        args_source(params) is None,
    decreases params.len(),
{
    if n < params.len() {
        assert(params.drop_last().take(n) =~= params.take(n));
        lemma_args_source_none(params.drop_last(), n);
    } else {
        assert(params.take(n) =~= params);
    }
}

/// The arguments of a call are the names of the arguments of the method:
/// where the arguments of a record can be written, the call made with them
/// names each of them, in their order.
pub proof fn lemma_args_of_parts(params: Seq<ParamInfoView>)
    ensures
        params_parts(params) matches Some(parts) ==> args_source(params) == Some(args_text(parts)),
    decreases params.len(),
{
    if params.len() > 0 {
        lemma_args_of_parts(params.drop_last());
        if let Some(parts) = params_parts(params) {
            assert(parts.drop_last() =~= params_parts(params.drop_last())->0);
        }
    }
}

/// Writes the method for a record, as source text.
///
/// Fails with `BuildError::Synthesis` where a name of the record is no
/// identifier or a type of it is no type.
pub fn generate_method(func: &ApiFunctionInfo) -> (r: Result<String, BuildError>)
    ensures
        match r {
            Ok(text) => method_parts(func@) matches Some(parts) && text@ == method_text(parts),
            Err(error) => method_parts(func@) is None && error@ == synthesis_error(func@),
        },
{
    match prepare_method(func) {
        Ok(parts) => Ok(write_method(&parts)),
        Err(error) => Err(error),
    }
}

/// The first `n` of the records `s`, taken in the order `order`, as they
/// are written; or the error of the first of them that cannot be written.
pub open spec fn prepared(s: Seq<ApiFunctionView>, order: Seq<int>, n: nat) -> Result<
    Seq<MethodPartsView>,
    BuildErrorView,
>
    decreases n,
{
    if n == 0 {
        Ok(Seq::empty())
    } else {
        match prepared(s, order, (n - 1) as nat) {
            Ok(done) => match method_parts(s[order[n - 1]]) {
                Some(parts) => Ok(done.push(parts)),
                None => Err(synthesis_error(s[order[n - 1]])),
            },
            Err(error) => Err(error),
        }
    }
}

/// The records `s` as they are written, grouped by module: the modules in
/// the order of their names, the records of a module in the order given.
pub open spec fn grouped(s: Seq<ApiFunctionView>) -> Result<Seq<MethodPartsView>, BuildErrorView> {
    prepared(s, sort_order(s, s.len(), false), s.len())
}

/// Groups the records by module and puts them into the form in which they
/// are written.
///
/// Fails with `BuildError::Synthesis` for the first record, in the order of
/// the groups, of which a name is no identifier or a type is no type.
pub fn prepare_methods(functions: &Vec<ApiFunctionInfo>) -> (r: Result<Vec<MethodParts>, BuildError>)
    ensures
        match r {
            Ok(parts) => grouped(functions.deep_view()) == Ok::<
                Seq<MethodPartsView>,
                BuildErrorView,
            >(parts.deep_view()),
            Err(error) => grouped(functions.deep_view()) == Err::<
                Seq<MethodPartsView>,
                BuildErrorView,
            >(error@),
        },
{
    let ghost s = functions.deep_view();
    let order = sorted_positions(functions, false);
    let ghost o = sort_order(s, s.len(), false);
    let mut r: Vec<MethodParts> = Vec::new();
    assert(r.deep_view() =~= Seq::empty());
    for n in 0..order.len()
        invariant
            s == functions.deep_view(),
            o == sort_order(s, s.len(), false),
            order@.map_values(|i: usize| i as int) == o,
            order.len() == functions.len(),
            forall|k: int| 0 <= k < order.len() ==> #[trigger] order[k] < functions.len(),
            prepared(s, o, n as nat) == Ok::<Seq<MethodPartsView>, BuildErrorView>(r.deep_view()),
    {
        assert(o[n as int] == order[n as int] as int);
        let func = &functions[order[n]];
        assert(func@ == s[o[n as int]]);
        let ghost before = r.deep_view();
        match prepare_method(func) {
            Ok(parts) => {
                r.push(parts);
                assert(r.deep_view() =~= before.push(parts@));
            },
            Err(error) => {
                proof {
                    lemma_prepared_error(s, o, n as nat + 1, s.len());
                }
                return Err(error);
            },
        }
    }
    Ok(r)
}

/// The prepared records are the given ones, in the order asked for.
pub proof fn lemma_prepared(s: Seq<ApiFunctionView>, order: Seq<int>, n: nat)
    ensures
        prepared(s, order, n) matches Ok(parts) ==> {
            &&& parts.len() == n
            &&& forall|k: int|
                0 <= k < n ==> method_parts(s[order[k]]) == Some(#[trigger] parts[k])
        },
    decreases n,
{
    if n > 0 {
        lemma_prepared(s, order, (n - 1) as nat);
    }
}

/// Each module has one banner: in the grouped records, a banner stands
/// before a record exactly when no record before it is of the same module.
pub proof fn lemma_one_banner_for_a_module(s: Seq<ApiFunctionView>, position: int)
    requires
        grouped(s) is Ok,
        0 <= position < s.len(),
    ensures
        grouped(s) matches Ok(parts) && parts.len() == s.len() && (starts_group(parts, position)
            <==> forall|j: int| 0 <= j < position ==> (#[trigger] parts[j]).module_name
            != parts[position].module_name),
{
    let order = sort_order(s, s.len(), false);
    let parts = grouped(s)->Ok_0;
    lemma_prepared(s, order, s.len());
    lemma_sort_order(s, s.len(), false);
    assert forall|k: int| 0 <= k < s.len() implies (#[trigger] parts[k]).module_name
        == s[order[k]].module_name by {
        assert(method_parts(s[order[k]]) == Some(parts[k]));
    }
    if starts_group(parts, position) {
        assert forall|j: int| 0 <= j < position implies (#[trigger] parts[j]).module_name
            != parts[position].module_name by {
            if parts[j].module_name == parts[position].module_name {
                let a = parts[position - 1].module_name;
                let b = parts[position].module_name;
                lemma_text_lt_order(a, b, a);
                if j < position - 1 {
                    assert(!precedes(s[order[position - 1]], s[order[j]], false));
                }
                assert(!precedes(s[order[position]], s[order[position - 1]], false));
            }
        }
    } else {
        assert(parts[position - 1].module_name == parts[position].module_name);
    }
}

proof fn lemma_prepared_error(s: Seq<ApiFunctionView>, order: Seq<int>, n: nat, m: nat)
    requires
        n <= m,
        prepared(s, order, n) is Err,
    ensures
        prepared(s, order, m) == prepared(s, order, n),
    decreases m,
{
    if n < m {
        lemma_prepared_error(s, order, n, (m - 1) as nat);
    }
}

/// The rendering of a source text: its tokens, written out.
pub open spec fn rendered(source: Result<Seq<char>, BuildErrorView>) -> Result<
    Seq<char>,
    BuildErrorView,
> {
    match source {
        Ok(text) => match token_text(text) {
            Some(tokens) => Ok(tokens),
            None => Err(BuildErrorView::Render),
        },
        Err(error) => Err(error),
    }
}

/// Whether `r` is the outcome `expected`.
pub open spec fn is_outcome(
    r: Result<String, BuildError>,
    expected: Result<Seq<char>, BuildErrorView>,
) -> bool {
    match r {
        Ok(text) => expected == Ok::<Seq<char>, BuildErrorView>(text@),
        Err(error) => expected == Err::<Seq<char>, BuildErrorView>(error@),
    }
}

/// Renders a source text: splits it into tokens and writes them out.
///
/// Fails with `BuildError::Render` where the text cannot be split into
/// tokens.
pub fn render(source: &str) -> (r: Result<String, BuildError>)
    ensures
        is_outcome(r, rendered(Ok(source@))),
{
    match render_tokens(source) {
        Some(tokens) => Ok(tokens),
        None => Err(BuildError::Render),
    }
}

/// The banners and methods for the records `s`, as source text.
pub open spec fn methods_source(s: Seq<ApiFunctionView>) -> Result<Seq<char>, BuildErrorView> {
    match grouped(s) {
        Ok(parts) => Ok(methods_text(parts)),
        Err(error) => Err(error),
    }
}

/// Writes the banners and methods for `functions`.
///
/// Fails with `BuildError::Synthesis` for the first record, in the order of
/// the output, of which a name is no identifier or a type is no type.
pub fn generate_api_methods(functions: &Vec<ApiFunctionInfo>) -> (r: Result<String, BuildError>)
    ensures
        is_outcome(r, rendered(methods_source(functions.deep_view()))),
{
    match prepare_methods(functions) {
        Ok(parts) => render(write_methods(&parts).as_str()),
        Err(error) => Err(error),
    }
}

/// The block `impl Client` with the constructor and the methods for the
/// records `s`, as source text.
pub open spec fn client_source(s: Seq<ApiFunctionView>) -> Result<Seq<char>, BuildErrorView> {
    match grouped(s) {
        Ok(parts) => Ok(client_text(parts)),
        Err(error) => Err(error),
    }
}

/// Writes the block `impl Client` with the constructor and one method for
/// each of `functions`.
///
/// Fails with `BuildError::Synthesis` for the first record, in the order of
/// the output, of which a name is no identifier or a type is no type.
pub fn generate_client_impl(functions: &Vec<ApiFunctionInfo>) -> (r: Result<String, BuildError>)
    ensures
        is_outcome(r, rendered(client_source(functions.deep_view()))),
{
    match prepare_methods(functions) {
        Ok(parts) => render(write_client(&parts).as_str()),
        Err(error) => Err(error),
    }
}

} // verus!
