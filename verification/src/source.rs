//! Parsing of a module's source.
//!
//! The parser is `syn`. A parsed file is kept as `syn` holds it, and read
//! through the functions below, each of which hands out one plain value. What
//! the file holds is named by `file_items`; what parsing a text gives is named
//! by `parsed_source`. `parse_declarations` puts the two together: it turns a
//! source text into the declarations of `crate::syntax`.

use crate::syntax::{
    ArgDecl, AttrDecl, FnDecl, FnDeclView, ItemDecl, ItemDeclView, TypeArg, TypeArgKind,
    TypeArgKindView, TypeArgView, TypeTail, TypeTailView,
};
use quote::ToTokens;
use vstd::prelude::*;

verus! {

/// A parsed source file: `syn::File`.
#[verifier::external_type_specification]
#[verifier::external_body]
pub struct ExFile(syn::File);

/// The top-level items that a parsed file holds, in the order of the source.
pub uninterp spec fn file_items(file: syn::File) -> Seq<ItemDeclView>;

/// What `syn::parse_file` makes of a source text: the items of the file, or
/// the message of the syntax error.
pub uninterp spec fn parsed_source(code: Seq<char>) -> Result<Seq<ItemDeclView>, Seq<char>>;

/// The function that item `i` of `file` is.
pub open spec fn function_at(file: syn::File, i: int) -> FnDeclView
    recommends
        is_function_at(file, i),
{
    file_items(file)[i]->Function_0
}

/// Whether item `i` of `file` is a free function.
pub open spec fn is_function_at(file: syn::File, i: int) -> bool {
    0 <= i < file_items(file).len() && file_items(file)[i] is Function
}

/// The last path segment of the return type of function `i` of `file`.
pub open spec fn output_at(file: syn::File, i: int) -> TypeTailView
    recommends
        has_output_at(file, i),
{
    function_at(file, i).output->0
}

/// Whether function `i` of `file` has a return type that is a path.
pub open spec fn has_output_at(file: syn::File, i: int) -> bool {
    is_function_at(file, i) && function_at(file, i).output is Some
}

/// Argument `k` between the angle brackets of the return type of function
/// `i` of `file`.
pub open spec fn output_arg_at(file: syn::File, i: int, k: int) -> TypeArgView
    recommends
        has_output_arg_at(file, i, k),
{
    output_at(file, i).args->0[k]
}

/// Whether the return type of function `i` of `file` has an argument `k`
/// between angle brackets.
pub open spec fn has_output_arg_at(file: syn::File, i: int, k: int) -> bool {
    &&& has_output_at(file, i)
    &&& output_at(file, i).args matches Some(args)
    &&& 0 <= k < args.len()
}

/// Calls `syn::parse_file` on `code`. Gives the parsed file, or the text of
/// the syntax error as its `Display` writes it.
#[verifier::external_body]
fn parse_source(code: &str) -> (r: Result<syn::File, String>)
    ensures
        match r {
            Ok(file) => parsed_source(code@) == Ok::<Seq<ItemDeclView>, Seq<char>>(
                file_items(file),
            ),
            Err(message) => parsed_source(code@) == Err::<Seq<ItemDeclView>, Seq<char>>(message@),
        },
{
    match syn::parse_file(code) {
        Ok(file) => Ok(file),
        Err(error) => Err(error.to_string()),
    }
}

/// The length of `file.items`.
#[verifier::external_body]
fn item_count(file: &syn::File) -> (n: usize)
    ensures
        n == file_items(*file).len(),
{
    file.items.len()
}

/// Of item `i`, where it is `syn::Item::Fn`: whether its visibility is
/// `Visibility::Public`, whether its signature has `async`, and its
/// identifier. `None` for any other item.
#[verifier::external_body]
fn fn_header(file: &syn::File, i: usize) -> (r: Option<(bool, bool, String)>)
    requires
        i < file_items(*file).len(),
    ensures
        match r {
            Some((is_public, is_async, name)) => {
                &&& is_function_at(*file, i as int)
                &&& function_at(*file, i as int).is_public == is_public
                &&& function_at(*file, i as int).is_async == is_async
                &&& function_at(*file, i as int).name == name@
            },
            None => file_items(*file)[i as int] is Other,
        },
{
    let syn::Item::Fn(f) = &file.items[i] else { return None };
    let is_public = matches!(f.vis, syn::Visibility::Public(_));
    Some((is_public, f.sig.asyncness.is_some(), f.sig.ident.to_string()))
}

/// The number of arguments in the signature of function `i`.
#[verifier::external_body]
fn fn_input_count(file: &syn::File, i: usize) -> (n: usize)
    requires
        is_function_at(*file, i as int),
    ensures
        n == function_at(*file, i as int).inputs.len(),
{
    let syn::Item::Fn(f) = &file.items[i] else { return 0 };
    f.sig.inputs.len()
}

/// Argument `j` of function `i`. Where it is `FnArg::Typed` with a pattern
/// `Pat::Ident`, its identifier and the tokens of its type as text; `Other`
/// for a receiver and for any other pattern.
#[verifier::external_body]
fn fn_input(file: &syn::File, i: usize, j: usize) -> (r: ArgDecl)
    requires
        is_function_at(*file, i as int),
        j < function_at(*file, i as int).inputs.len(),
    ensures
        r.deep_view() == function_at(*file, i as int).inputs[j as int],
{
    let syn::Item::Fn(f) = &file.items[i] else { return ArgDecl::Other };
    let syn::FnArg::Typed(arg) = &f.sig.inputs[j] else { return ArgDecl::Other };
    let syn::Pat::Ident(pat) = &*arg.pat else { return ArgDecl::Other };
    ArgDecl::Named { name: pat.ident.to_string(), ty: arg.ty.to_token_stream().to_string() }
}

/// The number of attributes of function `i`.
#[verifier::external_body]
fn fn_attr_count(file: &syn::File, i: usize) -> (n: usize)
    requires
        is_function_at(*file, i as int),
    ensures
        n == function_at(*file, i as int).attrs.len(),
{
    let syn::Item::Fn(f) = &file.items[i] else { return 0 };
    f.attrs.len()
}

/// Attribute `j` of function `i`: its path where that is a single
/// identifier (`Path::get_ident`), and its string where its meta is
/// `Meta::NameValue` with a string literal as value (`LitStr::value`).
#[verifier::external_body]
fn fn_attr(file: &syn::File, i: usize, j: usize) -> (r: AttrDecl)
    requires
        is_function_at(*file, i as int),
        j < function_at(*file, i as int).attrs.len(),
    ensures
        r.deep_view() == function_at(*file, i as int).attrs[j as int],
{
    let syn::Item::Fn(f) = &file.items[i] else { return AttrDecl { name: None, value: None } };
    let value = match &f.attrs[j].meta {
        syn::Meta::NameValue(syn::MetaNameValue {
            value: syn::Expr::Lit(syn::ExprLit { lit: syn::Lit::Str(s), .. }),
            ..
        }) => Some(s.value()),
        _ => None,
    };
    let name = match f.attrs[j].path().get_ident() {
        Some(ident) => Some(ident.to_string()),
        None => None,
    };
    AttrDecl { name, value }
}

/// The identifier of the last path segment of the return type of function
/// `i`: `None` where the signature has `ReturnType::Default`, or a type that
/// is not `Type::Path`, or a path without segments.
#[verifier::external_body]
fn fn_output_ident(file: &syn::File, i: usize) -> (r: Option<String>)
    requires
        is_function_at(*file, i as int),
    ensures
        match r {
            Some(ident) => has_output_at(*file, i as int) && output_at(*file, i as int).ident
                == ident@,
            None => function_at(*file, i as int).output is None,
        },
{
    let syn::Item::Fn(f) = &file.items[i] else { return None };
    let syn::ReturnType::Type(_, ty) = &f.sig.output else { return None };
    let syn::Type::Path(p) = &**ty else { return None };
    Some(p.path.segments.last()?.ident.to_string())
}

/// The number of arguments of the last path segment of the return type of
/// function `i`, where they are `PathArguments::AngleBracketed`; `None` for
/// any other `PathArguments`.
#[verifier::external_body]
fn fn_output_arg_count(file: &syn::File, i: usize) -> (r: Option<usize>)
    requires
        has_output_at(*file, i as int),
    ensures
        match r {
            Some(n) => output_at(*file, i as int).args matches Some(args) && args.len() == n,
            None => output_at(*file, i as int).args is None,
        },
{
    let syn::Item::Fn(f) = &file.items[i] else { return None };
    let syn::ReturnType::Type(_, ty) = &f.sig.output else { return None };
    let syn::Type::Path(p) = &**ty else { return None };
    let syn::PathArguments::AngleBracketed(a) = &p.path.segments.last()?.arguments else { return None };
    Some(a.args.len())
}

/// The tokens of argument `k` of the return type of function `i`, as text.
#[verifier::external_body]
fn fn_output_arg_text(file: &syn::File, i: usize, k: usize) -> (r: Option<String>)
    requires
        has_output_arg_at(*file, i as int, k as int),
    ensures
        match r {
            Some(text) => text@ == output_arg_at(*file, i as int, k as int).text,
            None => false,
        },
{
    let syn::Item::Fn(f) = &file.items[i] else { return None };
    let syn::ReturnType::Type(_, ty) = &f.sig.output else { return None };
    let syn::Type::Path(p) = &**ty else { return None };
    let syn::PathArguments::AngleBracketed(a) = &p.path.segments.last()?.arguments else { return None };
    Some(a.args[k].to_token_stream().to_string())
}

/// What argument `k` of the return type of function `i` is. `None`: not
/// `GenericArgument::Type`. `Some(None)`: a type that is not `Type::Path`, or
/// a path without segments. `Some(Some(ident))`: a path type, with the
/// identifier of its last segment.
#[verifier::external_body]
fn fn_output_arg_ident(file: &syn::File, i: usize, k: usize) -> (r: Option<Option<String>>)
    requires
        has_output_arg_at(*file, i as int, k as int),
    ensures
        match r {
            None => output_arg_at(*file, i as int, k as int).kind is Other,
            Some(None) => output_arg_at(*file, i as int, k as int).kind is Type,
            Some(Some(ident)) => output_arg_at(*file, i as int, k as int).kind matches TypeArgKindView::Path {
                ident: id,
                ..
            } && id == ident@,
        },
{
    let syn::Item::Fn(f) = &file.items[i] else { return None };
    let syn::ReturnType::Type(_, ty) = &f.sig.output else { return None };
    let syn::Type::Path(p) = &**ty else { return None };
    let syn::PathArguments::AngleBracketed(a) = &p.path.segments.last()?.arguments else { return None };
    let syn::GenericArgument::Type(t) = &a.args[k] else { return None };
    let syn::Type::Path(q) = t else { return Some(None) };
    let Some(segment) = q.path.segments.last() else { return Some(None) };
    Some(Some(segment.ident.to_string()))
}

/// The number of arguments of the last segment of argument `k`, a path
/// type, of the return type of function `i`, where they are
/// `PathArguments::AngleBracketed`; `None` for any other `PathArguments`.
#[verifier::external_body]
fn fn_output_inner_count(file: &syn::File, i: usize, k: usize) -> (r: Option<usize>)
    requires
        has_output_arg_at(*file, i as int, k as int),
        output_arg_at(*file, i as int, k as int).kind is Path,
    ensures
        match r {
            Some(n) => output_arg_at(*file, i as int, k as int).kind->Path_args matches Some(
                inner,
            ) && inner.len() == n,
            None => output_arg_at(*file, i as int, k as int).kind->Path_args is None,
        },
{
    let syn::Item::Fn(f) = &file.items[i] else { return None };
    let syn::ReturnType::Type(_, ty) = &f.sig.output else { return None };
    let syn::Type::Path(p) = &**ty else { return None };
    let syn::PathArguments::AngleBracketed(a) = &p.path.segments.last()?.arguments else { return None };
    let syn::GenericArgument::Type(syn::Type::Path(q)) = &a.args[k] else { return None };
    let syn::PathArguments::AngleBracketed(b) = &q.path.segments.last()?.arguments else { return None };
    Some(b.args.len())
}

/// The tokens, as text, of argument `m` of the last segment of argument `k`,
/// a path type, of the return type of function `i`.
#[verifier::external_body]
fn fn_output_inner_text(file: &syn::File, i: usize, k: usize, m: usize) -> (r: Option<String>)
    requires
        has_output_arg_at(*file, i as int, k as int),
        output_arg_at(*file, i as int, k as int).kind matches TypeArgKindView::Path {
            args: Some(inner),
            ..
        } && m < inner.len(),
    ensures
        match r {
            Some(text) => text@ == output_arg_at(
                *file,
                i as int,
                k as int,
            ).kind->Path_args->0[m as int],
            None => false,
        },
{
    let syn::Item::Fn(f) = &file.items[i] else { return None };
    let syn::ReturnType::Type(_, ty) = &f.sig.output else { return None };
    let syn::Type::Path(p) = &**ty else { return None };
    let syn::PathArguments::AngleBracketed(a) = &p.path.segments.last()?.arguments else { return None };
    let syn::GenericArgument::Type(syn::Type::Path(q)) = &a.args[k] else { return None };
    let syn::PathArguments::AngleBracketed(b) = &q.path.segments.last()?.arguments else { return None };
    Some(b.args[m].to_token_stream().to_string())
}

/// Reads argument `k` of the return type of function `i`.
fn lower_output_arg(file: &syn::File, i: usize, k: usize) -> (r: TypeArg)
    requires
        has_output_arg_at(*file, i as int, k as int),
    ensures
        r.deep_view() == output_arg_at(*file, i as int, k as int),
{
    let text = fn_output_arg_text(file, i, k).unwrap();
    let ghost arg = output_arg_at(*file, i as int, k as int);
    let kind = match fn_output_arg_ident(file, i, k) {
        None => TypeArgKind::Other,
        Some(None) => TypeArgKind::Type,
        Some(Some(ident)) => {
            let args = match fn_output_inner_count(file, i, k) {
                None => None,
                Some(n) => {
                    let ghost inner = arg.kind->Path_args->0;
                    let mut texts: Vec<String> = Vec::new();
                    for m in 0..n
                        invariant
                            has_output_arg_at(*file, i as int, k as int),
                            arg == output_arg_at(*file, i as int, k as int),
                            arg.kind matches TypeArgKindView::Path { args: Some(a), .. } && a
                                == inner,
                            n == inner.len(),
                            texts.deep_view() == inner.take(m as int),
                    {
                        let t = fn_output_inner_text(file, i, k, m).unwrap();
                        let ghost before = texts.deep_view();
                        texts.push(t);
                        assert(texts.deep_view() =~= before.push(t@));
                        assert(inner.take(m + 1) =~= inner.take(m as int).push(inner[m as int]));
                    }
                    assert(inner.take(n as int) =~= inner);
                    Some(texts)
                },
            };
            TypeArgKind::Path { ident, args }
        },
    };
    TypeArg { text, kind }
}

/// Reads the last path segment of the return type of function `i`.
fn lower_output(file: &syn::File, i: usize) -> (r: Option<TypeTail>)
    requires
        is_function_at(*file, i as int),
    ensures
        r.deep_view() == function_at(*file, i as int).output,
{
    let ident = match fn_output_ident(file, i) {
        Some(ident) => ident,
        None => {
            return None;
        },
    };
    let ghost tail = output_at(*file, i as int);
    let args = match fn_output_arg_count(file, i) {
        None => None,
        Some(n) => {
            let ghost all = tail.args->0;
            let mut args: Vec<TypeArg> = Vec::new();
            for k in 0..n
                invariant
                    has_output_at(*file, i as int),
                    tail == output_at(*file, i as int),
                    tail.args == Some(all),
                    n == all.len(),
                    args.deep_view() == all.take(k as int),
            {
                let arg = lower_output_arg(file, i, k);
                let ghost before = args.deep_view();
                args.push(arg);
                assert(args.deep_view() =~= before.push(arg.deep_view()));
                assert(all.take(k + 1) =~= all.take(k as int).push(all[k as int]));
            }
            assert(all.take(n as int) =~= all);
            Some(args)
        },
    };
    Some(TypeTail { ident, args })
}

/// Reads function `i` of `file`, given its header.
fn lower_function(file: &syn::File, i: usize, is_public: bool, is_async: bool, name: String) -> (r:
    FnDecl)
    requires
        is_function_at(*file, i as int),
        function_at(*file, i as int).is_public == is_public,
        function_at(*file, i as int).is_async == is_async,
        function_at(*file, i as int).name == name@,
    ensures
        r.deep_view() == function_at(*file, i as int),
{
    let ghost func = function_at(*file, i as int);
    let mut inputs: Vec<ArgDecl> = Vec::new();
    let n = fn_input_count(file, i);
    for j in 0..n
        invariant
            is_function_at(*file, i as int),
            func == function_at(*file, i as int),
            n == func.inputs.len(),
            inputs.deep_view() == func.inputs.take(j as int),
    {
        let arg = fn_input(file, i, j);
        let ghost before = inputs.deep_view();
        inputs.push(arg);
        assert(inputs.deep_view() =~= before.push(arg.deep_view()));
        assert(func.inputs.take(j + 1) =~= func.inputs.take(j as int).push(func.inputs[j as int]));
    }
    assert(func.inputs.take(n as int) =~= func.inputs);
    let mut attrs: Vec<AttrDecl> = Vec::new();
    let n = fn_attr_count(file, i);
    for j in 0..n
        invariant
            is_function_at(*file, i as int),
            func == function_at(*file, i as int),
            n == func.attrs.len(),
            attrs.deep_view() == func.attrs.take(j as int),
    {
        let attr = fn_attr(file, i, j);
        let ghost before = attrs.deep_view();
        attrs.push(attr);
        assert(attrs.deep_view() =~= before.push(attr.deep_view()));
        assert(func.attrs.take(j + 1) =~= func.attrs.take(j as int).push(func.attrs[j as int]));
    }
    assert(func.attrs.take(n as int) =~= func.attrs);
    let output = lower_output(file, i);
    FnDecl { is_public, is_async, name, inputs, output, attrs }
}

/// Parses the source of a module into its top-level items.
///
/// The result is what `syn::parse_file` makes of `code`: on a syntax error
/// its message, else one declaration for each item, in the order of the
/// source.
pub fn parse_declarations(code: &str) -> (r: Result<Vec<ItemDecl>, String>)
    ensures
        match r {
            Ok(items) => parsed_source(code@) == Ok::<Seq<ItemDeclView>, Seq<char>>(
                items.deep_view(),
            ),
            Err(message) => parsed_source(code@) == Err::<Seq<ItemDeclView>, Seq<char>>(message@),
        },
{
    let file = match parse_source(code) {
        Ok(file) => file,
        Err(message) => {
            return Err(message);
        },
    };
    let ghost all = file_items(file);
    let mut items: Vec<ItemDecl> = Vec::new();
    let n = item_count(&file);
    for i in 0..n
        invariant
            all == file_items(file),
            n == all.len(),
            items.deep_view() == all.take(i as int),
    {
        let item = match fn_header(&file, i) {
            Some((is_public, is_async, name)) => ItemDecl::Function(
                lower_function(&file, i, is_public, is_async, name),
            ),
            None => ItemDecl::Other,
        };
        let ghost before = items.deep_view();
        items.push(item);
        assert(items.deep_view() =~= before.push(item.deep_view()));
        assert(all.take(i + 1) =~= all.take(i as int).push(all[i as int]));
    }
    assert(all.take(n as int) =~= all);
    Ok(items)
}

} // verus!
