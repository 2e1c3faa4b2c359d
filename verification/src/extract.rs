//! From a function declaration to the record that a client method is written
//! from.
//!
//! A declaration is an API function when it is public, `async` and takes an
//! argument named `configuration`. Its record keeps the other arguments, the
//! two types of its `Result<T, Error<E>>` return type and its documentation.

use crate::syntax::{
    ArgDecl, ArgDeclView, AttrDecl, AttrDeclView, FnDecl, FnDeclView, TypeArgKind,
    TypeArgKindView, TypeArgView, TypeTail, TypeTailView,
};
use crate::text::{text_eq, trim, trimmed};
use vstd::prelude::*;
use vstd::string::*;

verus! {

/// An argument of an API function: its name and the text of its type.
#[derive(Debug)]
pub struct ParamInfo {
    pub name: String,
    pub ty: String,
}

/// The types `T` and `E` of a return type `Result<T, Error<E>>`, as text.
#[derive(Debug)]
pub struct ResultTypesInfo {
    pub value: String,
    pub error: String,
}

/// All that a client method is written from.
#[derive(Debug)]
pub struct ApiFunctionInfo {
    /// The module that declares the function.
    pub module_name: String,
    /// The name of the client method: the declared name, with a number
    /// where an earlier function of the run was declared under it.
    pub function_name: String,
    /// The name under which the module declares the function: the one that
    /// the method calls.
    pub declared_name: String,
    pub result_types: ResultTypesInfo,
    /// The arguments but `configuration`, in the order of the declaration.
    pub parameters: Vec<ParamInfo>,
    pub documentation: String,
}

/// What a `ParamInfo` holds, its texts as sequences of characters.
pub struct ParamInfoView {
    pub name: Seq<char>,
    pub ty: Seq<char>,
}

/// What a `ResultTypesInfo` holds, its texts as sequences of characters.
pub struct ResultTypesView {
    pub value: Seq<char>,
    pub error: Seq<char>,
}

/// What an `ApiFunctionInfo` holds, its texts as sequences of characters.
pub struct ApiFunctionView {
    pub module_name: Seq<char>,
    pub function_name: Seq<char>,
    pub declared_name: Seq<char>,
    pub result_types: ResultTypesView,
    pub parameters: Seq<ParamInfoView>,
    pub documentation: Seq<char>,
}

impl DeepView for ParamInfo {
    type V = ParamInfoView;

    open spec fn deep_view(&self) -> ParamInfoView {
        ParamInfoView { name: self.name@, ty: self.ty@ }
    }
}

impl View for ParamInfo {
    type V = ParamInfoView;

    open spec fn view(&self) -> ParamInfoView {
        self.deep_view()
    }
}

impl DeepView for ResultTypesInfo {
    type V = ResultTypesView;

    open spec fn deep_view(&self) -> ResultTypesView {
        ResultTypesView { value: self.value@, error: self.error@ }
    }
}

impl View for ResultTypesInfo {
    type V = ResultTypesView;

    open spec fn view(&self) -> ResultTypesView {
        self.deep_view()
    }
}

impl DeepView for ApiFunctionInfo {
    type V = ApiFunctionView;

    open spec fn deep_view(&self) -> ApiFunctionView {
        ApiFunctionView {
            module_name: self.module_name@,
            function_name: self.function_name@,
            declared_name: self.declared_name@,
            result_types: self.result_types@,
            parameters: self.parameters.deep_view(),
            documentation: self.documentation@,
        }
    }
}

impl View for ApiFunctionInfo {
    type V = ApiFunctionView;

    open spec fn view(&self) -> ApiFunctionView {
        self.deep_view()
    }
}

impl Clone for ParamInfo {
    fn clone(&self) -> (r: ParamInfo)
        ensures
            r@ == self@,
    {
        ParamInfo { name: self.name.clone(), ty: self.ty.clone() }
    }
}

impl Clone for ApiFunctionInfo {
    fn clone(&self) -> (r: ApiFunctionInfo)
        ensures
            r@ == self@,
    {
        let mut parameters: Vec<ParamInfo> = Vec::new();
        assert(parameters.deep_view() =~= self.parameters.deep_view().take(0));
        for i in 0..self.parameters.len()
            invariant
                parameters.deep_view() == self.parameters.deep_view().take(i as int),
        {
            let ghost before = parameters.deep_view();
            let p = self.parameters[i].clone();
            parameters.push(p);
            assert(parameters.deep_view() =~= before.push(p@));
            assert(self.parameters.deep_view().take(i + 1) =~= self.parameters.deep_view().take(
                i as int,
            ).push(self.parameters[i as int]@));
        }
        assert(self.parameters.deep_view().take(self.parameters.len() as int)
            =~= self.parameters.deep_view());
        ApiFunctionInfo {
            module_name: self.module_name.clone(),
            function_name: self.function_name.clone(),
            declared_name: self.declared_name.clone(),
            result_types: ResultTypesInfo {
                value: self.result_types.value.clone(),
                error: self.result_types.error.clone(),
            },
            parameters,
            documentation: self.documentation.clone(),
        }
    }
}

/// The two types of a return type of the form `Result<T, Error<E>>`.
///
/// The last path segment is `Result` with exactly two arguments between
/// angle brackets. The first is a type, `T`. The second is a path type whose
/// last segment is `Error` with exactly one argument between angle brackets,
/// `E`.
pub open spec fn result_types_of(output: Option<TypeTailView>) -> Option<ResultTypesView> {
    match output {
        Some(TypeTailView { ident, args: Some(args) }) => {
            if ident == "Result"@ && args.len() == 2 && !(args[0].kind is Other) {
                match args[1].kind {
                    TypeArgKindView::Path { ident: wrapper, args: Some(inner) } => {
                        if wrapper == "Error"@ && inner.len() == 1 {
                            Some(ResultTypesView { value: args[0].text, error: inner[0] })
                        } else {
                            None
                        }
                    },
                    _ => None,
                }
            } else {
                None
            }
        },
        _ => None,
    }
}

/// Reads the success and the error type off a return type of the form
/// `Result<T, Error<E>>`; any other return type gives `None`.
pub fn extract_result_types(output: &Option<TypeTail>) -> (r: Option<ResultTypesInfo>)
    ensures
        r.deep_view() == result_types_of(output.deep_view()),
{
    let tail = match output {
        Some(tail) => tail,
        None => {
            return None;
        },
    };
    if !text_eq(tail.ident.as_str(), "Result") {
        return None;
    }
    let args = match &tail.args {
        Some(args) => args,
        None => {
            return None;
        },
    };
    assert(tail.args.deep_view() == Some(args.deep_view()));
    if args.len() != 2 {
        return None;
    }
    assert(args.deep_view()[0] == args[0].deep_view());
    assert(args.deep_view()[1] == args[1].deep_view());
    if let TypeArgKind::Other = args[0].kind {
        return None;
    }
    match &args[1].kind {
        TypeArgKind::Path { ident, args: Some(inner) } => {
            if !text_eq(ident.as_str(), "Error") {
                return None;
            }
            if inner.len() != 1 {
                return None;
            }
            assert(inner.deep_view()[0] == inner[0]@);
            Some(ResultTypesInfo { value: args[0].text.clone(), error: inner[0].clone() })
        },
        _ => None,
    }
}

/// What an argument contributes to the record: nothing where it is
/// `configuration` or is not of the form `name: type`.
pub open spec fn parameter_of(arg: ArgDeclView) -> Option<ParamInfoView> {
    match arg {
        ArgDeclView::Named { name, ty } => if name == "configuration"@ {
            None
        } else {
            Some(ParamInfoView { name, ty })
        },
        ArgDeclView::Other => None,
    }
}

/// The recorded arguments of a function, in the order of the declaration.
pub open spec fn parameters_of(inputs: Seq<ArgDeclView>) -> Seq<ParamInfoView> {
    inputs.filter_map(|arg: ArgDeclView| parameter_of(arg))
}

/// Collects the arguments of the form `name: type`, leaving out
/// `configuration`, which the client supplies.
pub fn extract_parameters(inputs: &Vec<ArgDecl>) -> (r: Vec<ParamInfo>)
    ensures
        r.deep_view() == parameters_of(inputs.deep_view()),
{
    let mut r: Vec<ParamInfo> = Vec::new();
    let ghost all = inputs.deep_view();
    assert(all.take(0) =~= Seq::empty());
    assert(r.deep_view() =~= Seq::empty());
    for i in 0..inputs.len()
        invariant
            all == inputs.deep_view(),
            r.deep_view() == parameters_of(all.take(i as int)),
    {
        let ghost before = r.deep_view();
        proof {
            assert(all.take(i + 1).drop_last() =~= all.take(i as int));
            assert(all.take(i + 1).last() == inputs[i as int].deep_view());
        }
        match &inputs[i] {
            ArgDecl::Named { name, ty } => {
                if !text_eq(name.as_str(), "configuration") {
                    r.push(ParamInfo { name: name.clone(), ty: ty.clone() });
                    assert(r.deep_view() =~= before + seq![
                        ParamInfoView { name: name@, ty: ty@ },
                    ]);
                }
            },
            ArgDecl::Other => {},
        }
    }
    assert(all.take(inputs.len() as int) =~= all);
    r
}

/// Whether an attribute is a documentation attribute: one whose path is
/// `doc`.
pub open spec fn is_doc(attr: AttrDeclView) -> bool {
    attr.name == Some("doc"@)
}

/// The string of an attribute of the form `doc = "string"`; `None` for any
/// other attribute, a `doc` attribute of another form included.
pub open spec fn doc_string(attr: AttrDeclView) -> Option<Seq<char>> {
    if is_doc(attr) {
        attr.value
    } else {
        None
    }
}

/// The documentation that the attributes of a function carry: the string of
/// the first attribute of the form `doc = "string"`, without the white space
/// around it. Attributes before it are passed over, `doc` attributes of
/// another form among them. It is empty where no attribute has that form.
pub open spec fn documentation_of(attrs: Seq<AttrDeclView>) -> Seq<char>
    decreases attrs.len(),
{
    if attrs.len() == 0 {
        Seq::empty()
    } else {
        match doc_string(attrs.first()) {
            Some(text) => trimmed(text),
            None => documentation_of(attrs.drop_first()),
        }
    }
}

/// Reads the documentation off the attributes of a function.
pub fn parse_enum_doc_comment(attrs: &Vec<AttrDecl>) -> (r: String)
    ensures
        r@ == documentation_of(attrs.deep_view()),
{
    let ghost all = attrs.deep_view();
    assert(all.skip(0) =~= all);
    for i in 0..attrs.len()
        invariant
            all == attrs.deep_view(),
            documentation_of(all) == documentation_of(all.skip(i as int)),
    {
        proof {
            assert(all.skip(i as int).first() == attrs[i as int].deep_view());
            assert(all.skip(i as int).drop_first() =~= all.skip(i + 1));
        }
        let is_doc = match &attrs[i].name {
            Some(name) => text_eq(name.as_str(), "doc"),
            None => false,
        };
        if is_doc {
            if let Some(text) = &attrs[i].value {
                return trim(text.as_str());
            }
        }
    }
    String::new()
}

/// Whether an argument is the one named `configuration`.
pub open spec fn is_configuration(arg: ArgDeclView) -> bool {
    arg matches ArgDeclView::Named { name, .. } && name == "configuration"@
}

/// Whether a declaration is an API function: public, `async`, and with an
/// argument named `configuration`.
pub open spec fn is_api_function(func: FnDeclView) -> bool {
    &&& func.is_public
    &&& func.is_async
    &&& exists|i: int| 0 <= i < func.inputs.len() && is_configuration(#[trigger] func.inputs[i])
}

/// Tells whether a declaration is an API function.
pub fn is_valid_api_function(func: &FnDecl) -> (r: bool)
    ensures
        r == is_api_function(func.deep_view()),
{
    let ghost inputs = func.inputs.deep_view();
    let mut has_config_param = false;
    for i in 0..func.inputs.len()
        invariant
            inputs == func.inputs.deep_view(),
            has_config_param == exists|j: int| 0 <= j < i && is_configuration(#[trigger] inputs[j]),
    {
        assert(inputs[i as int] == func.inputs[i as int].deep_view());
        if let ArgDecl::Named { name, .. } = &func.inputs[i] {
            if text_eq(name.as_str(), "configuration") {
                has_config_param = true;
            }
        }
    }
    assert(inputs.len() == func.inputs.len());
    assert(func.deep_view().inputs == inputs);
    func.is_public && func.is_async && has_config_param
}

/// The record of a declaration in `module`: `None` where the declaration is
/// no API function or its return type is not of the form
/// `Result<T, Error<E>>`. The method has the declared name, as long as
/// nothing renames it.
pub open spec fn function_info_of(func: FnDeclView, module: Seq<char>) -> Option<ApiFunctionView> {
    if is_api_function(func) {
        match result_types_of(func.output) {
            Some(result_types) => Some(
                ApiFunctionView {
                    module_name: module,
                    function_name: func.name,
                    declared_name: func.name,
                    result_types,
                    parameters: parameters_of(func.inputs),
                    documentation: documentation_of(func.attrs),
                },
            ),
            None => None,
        }
    } else {
        None
    }
}

/// Makes the record of a declaration, where it is an API function with a
/// return type of the form `Result<T, Error<E>>`.
pub fn parse_function(func: FnDecl, module_name: &str) -> (r: Option<ApiFunctionInfo>)
    ensures
        r.deep_view() == function_info_of(func.deep_view(), module_name@),
{
    if !is_valid_api_function(&func) {
        return None;
    }
    let parameters = extract_parameters(&func.inputs);
    let result_types = match extract_result_types(&func.output) {
        Some(result_types) => result_types,
        None => {
            return None;
        },
    };
    let documentation = parse_enum_doc_comment(&func.attrs);
    Some(
        ApiFunctionInfo {
            module_name: String::from_str(module_name),
            function_name: func.name.clone(),
            declared_name: func.name,
            result_types,
            parameters,
            documentation,
        },
    )
}


/// A return type `Result<T, Error<E>>` gives `T` and `E`, each as the text
/// that it has in the declaration.
pub proof fn lemma_result_types_of_result(value: TypeArgView, error: TypeArgView)
    requires
        !(value.kind is Other),
        error.kind matches TypeArgKindView::Path { ident, args: Some(inner) } && ident == "Error"@
            && inner.len() == 1,
    ensures
        result_types_of(
            Some(TypeTailView { ident: "Result"@, args: Some(seq![value, error]) }),
        ) == Some(ResultTypesView { value: value.text, error: error.kind->Path_args->0[0] }),
{
}

/// A return type that is missing, is no path, is not named `Result`, has
/// no angle brackets, or has not exactly two arguments between them, gives
/// nothing.
pub proof fn lemma_result_types_of_other(output: Option<TypeTailView>)
    requires
        output matches Some(tail) ==> tail.ident != "Result"@ || (tail.args matches Some(args)
            ==> args.len() != 2),
    ensures
        result_types_of(output) is None,
{
}

/// An error slot that is no path type, or whose last segment is not named
/// `Error`, or has no angle brackets, or has not exactly one argument between
/// them, gives nothing: `Result<T, Error<A, B>>` is no return type of an API
/// function.
pub proof fn lemma_result_types_of_other_error(value: TypeArgView, error: TypeArgView)
    requires
        error.kind matches TypeArgKindView::Path { ident, args: Some(inner) } ==> ident != "Error"@
            || inner.len() != 1,
    ensures
        result_types_of(
            Some(TypeTailView { ident: "Result"@, args: Some(seq![value, error]) }),
        ) is None,
{
}

/// No record is made of a declaration that is not public, or is not
/// `async`, or has no argument named `configuration`, or whose return type
/// is not of the form `Result<T, Error<E>>`.
pub proof fn lemma_no_record(func: FnDeclView, module: Seq<char>)
    requires
        ({
            ||| !func.is_public
            ||| !func.is_async
            ||| forall|i: int|
                0 <= i < func.inputs.len() ==> !is_configuration(#[trigger] func.inputs[i])
            ||| result_types_of(func.output) is None
        }),
    ensures
        function_info_of(func, module) is None,
{
}

/// A single attribute `doc = "text"` gives `text` without the white space
/// around it.
pub proof fn lemma_documentation_of_one(text: Seq<char>)
    ensures
        documentation_of(seq![AttrDeclView { name: Some("doc"@), value: Some(text) }]) == trimmed(
            text,
        ),
{
}

/// The documentation is the string of the first attribute of the form
/// `doc = "string"`, whatever stands before it: `#[doc(hidden)]` before
/// `#[doc = "x"]` gives `x`.
pub proof fn lemma_documentation_of_first(attrs: Seq<AttrDeclView>, position: int)
    requires
        0 <= position < attrs.len(),
        doc_string(attrs[position]) is Some,
        forall|i: int| 0 <= i < position ==> doc_string(#[trigger] attrs[i]) is None,
    ensures
        documentation_of(attrs) == trimmed(doc_string(attrs[position])->0),
    decreases attrs.len(),
{
    if position > 0 {
        assert(doc_string(attrs[0]) is None);
        assert(attrs.drop_first()[position - 1] == attrs[position]);
        assert forall|i: int| 0 <= i < position - 1 implies doc_string(
            #[trigger] attrs.drop_first()[i],
        ) is None by {
            assert(attrs.drop_first()[i] == attrs[i + 1]);
        }
        lemma_documentation_of_first(attrs.drop_first(), position - 1);
    }
}

/// Attributes of which none has the form `doc = "string"` give no
/// documentation; so does a function without attributes.
pub proof fn lemma_documentation_of_none(attrs: Seq<AttrDeclView>)
    requires
        forall|i: int| 0 <= i < attrs.len() ==> doc_string(#[trigger] attrs[i]) is None,
    ensures
        documentation_of(attrs) == Seq::<char>::empty(),
    decreases attrs.len(),
{
    if attrs.len() > 0 {
        assert(doc_string(attrs[0]) is None);
        assert forall|i: int| 0 <= i < attrs.drop_first().len() implies doc_string(
            #[trigger] attrs.drop_first()[i],
        ) is None by {
            assert(attrs.drop_first()[i] == attrs[i + 1]);
        }
        lemma_documentation_of_none(attrs.drop_first());
    }
}

} // verus!
