//! Which files of a directory are API modules.
//!
//! A file is a module when its name ends in the extension `rs`, behind a
//! name that is not empty. Two such files are no API modules and are left
//! out: `mod.rs`, which lists the modules, and `configuration.rs`, which
//! holds what they share.

use crate::text::{chars_of, text_eq};
use vstd::prelude::*;
use vstd::seq_lib::to_multiset_build;
use vstd::string::*;

verus! {

/// The extension of a source file, with its dot.
pub open spec fn source_extension() -> Seq<char> {
    seq!['.', 'r', 's']
}

/// Whether a file name has the extension `rs`: it ends in `.rs`, and the
/// dot is not its first character.
pub open spec fn is_source_file(name: Seq<char>) -> bool {
    name.len() > 3 && name.subrange(name.len() - 3, name.len() as int) == source_extension()
}

/// The name of a source file without its extension.
pub open spec fn file_stem(name: Seq<char>) -> Seq<char>
    recommends
        is_source_file(name),
{
    name.subrange(0, name.len() - 3)
}

/// Whether a module name is one of the two that are never API modules.
pub open spec fn is_reserved(stem: Seq<char>) -> bool {
    stem == "mod"@ || stem == "configuration"@
}

/// The module that a file is, if it is one.
pub open spec fn module_of(name: Seq<char>) -> Option<Seq<char>> {
    if is_source_file(name) && !is_reserved(file_stem(name)) {
        Some(file_stem(name))
    } else {
        None
    }
}

/// The modules among the files of a directory, in the order of the files.
pub open spec fn module_names(file_names: Seq<Seq<char>>) -> Seq<Seq<char>> {
    file_names.filter_map(|name: Seq<char>| module_of(name))
}

/// Tells the name of the module that a file is, if it is one.
pub fn module_name(file_name: &str) -> (r: Option<String>)
    ensures
        r.deep_view() == module_of(file_name@),
{
    let chars = chars_of(file_name);
    let n = chars.len();
    if n > 3 && chars[n - 3] == '.' && chars[n - 2] == 'r' && chars[n - 1] == 's' {
        assert(file_name@.subrange(n - 3, n as int) =~= source_extension());
        let stem = file_name.substring_char(0, n - 3);
        if text_eq(stem, "mod") || text_eq(stem, "configuration") {
            None
        } else {
            Some(String::from_str(stem))
        }
    } else {
        proof {
            if n > 3 {
                let tail = file_name@.subrange(n - 3, n as int);
                assert(tail[0] == chars[n - 3] && tail[1] == chars[n - 2] && tail[2] == chars[n
                    - 1]);
            }
        }
        None
    }
}

/// Picks the API modules among the files of a directory, given by their
/// names: one module name for each file that is a module, in the order of
/// the files.
pub fn discover_api_module_names(file_names: &Vec<String>) -> (r: Vec<String>)
    ensures
        r.deep_view() == module_names(file_names.deep_view()),
{
    let ghost all = file_names.deep_view();
    let mut r: Vec<String> = Vec::new();
    assert(all.take(0) =~= Seq::empty());
    assert(r.deep_view() =~= Seq::empty());
    for i in 0..file_names.len()
        invariant
            all == file_names.deep_view(),
            r.deep_view() == module_names(all.take(i as int)),
    {
        let ghost before = r.deep_view();
        proof {
            assert(all.take(i + 1).drop_last() =~= all.take(i as int));
            assert(all.take(i + 1).last() == file_names[i as int]@);
        }
        match module_name(file_names[i].as_str()) {
            Some(name) => {
                r.push(name);
                assert(r.deep_view() =~= before + seq![name@]);
            },
            None => {},
        }
    }
    assert(all.take(file_names.len() as int) =~= all);
    r
}


/// A file is the module `stem` exactly when its name is `stem` with the
/// extension, and `stem` is neither empty nor reserved.
pub proof fn lemma_module_of(name: Seq<char>, stem: Seq<char>)
    ensures
        module_of(name) == Some(stem) <==> name == stem + source_extension() && stem.len() > 0
            && !is_reserved(stem),
{
    if module_of(name) == Some(stem) {
        assert(name =~= stem + source_extension());
    }
    if name == stem + source_extension() && stem.len() > 0 {
        assert(name.subrange(name.len() - 3, name.len() as int) =~= source_extension());
        assert(file_stem(name) =~= stem);
    }
}

/// Of the files with the extension, all but the reserved ones are modules:
/// with `n` such files, `m` of them reserved, there are `n - m` modules.
pub proof fn lemma_module_count(file_names: Seq<Seq<char>>)
    ensures
        module_names(file_names).len() == file_names.filter(
            |name: Seq<char>| is_source_file(name),
        ).len() - file_names.filter(
            |name: Seq<char>| is_source_file(name) && is_reserved(file_stem(name)),
        ).len(),
    decreases file_names.len(),
{
    reveal(Seq::filter);
    if file_names.len() > 0 {
        lemma_module_count(file_names.drop_last());
    }
}

/// How often a module is found is how often its file is listed.
pub proof fn lemma_module_occurrences(file_names: Seq<Seq<char>>, stem: Seq<char>)
    ensures
        module_names(file_names).to_multiset().count(stem) == if stem.len() > 0 && !is_reserved(
            stem,
        ) {
            file_names.to_multiset().count(stem + source_extension())
        } else {
            0
        },
    decreases file_names.len(),
{
    if file_names.len() == 0 {
        assert(module_names(file_names) =~= Seq::empty());
        assert(module_names(file_names).to_multiset().count(stem) == 0) by {
            module_names(file_names).to_multiset_ensures();
        }
        assert(file_names.to_multiset().count(stem + source_extension()) == 0) by {
            file_names.to_multiset_ensures();
        }
    } else {
        let rest = file_names.drop_last();
        let last = file_names.last();
        lemma_module_occurrences(rest, stem);
        lemma_module_of(last, stem);
        assert(file_names =~= rest.push(last));
        to_multiset_build(rest, last);
        match module_of(last) {
            Some(found) => {
                assert(module_names(file_names) =~= module_names(rest).push(found));
                to_multiset_build(module_names(rest), found);
            },
            None => {},
        }
    }
}

/// The modules found do not depend on the order in which the files are
/// listed: two listings of the same files give the same modules, each as
/// often.
pub proof fn lemma_module_names_any_order(first: Seq<Seq<char>>, second: Seq<Seq<char>>)
    requires
        first.to_multiset() == second.to_multiset(),
    ensures
        module_names(first).to_multiset() == module_names(second).to_multiset(),
        module_names(first).len() == module_names(second).len(),
{
    assert forall|stem: Seq<char>|
        module_names(first).to_multiset().count(stem) == module_names(second).to_multiset().count(
            stem,
        ) by {
        lemma_module_occurrences(first, stem);
        lemma_module_occurrences(second, stem);
    }
    assert(module_names(first).to_multiset() =~= module_names(second).to_multiset());
    module_names(first).to_multiset_ensures();
    module_names(second).to_multiset_ensures();
}

} // verus!
