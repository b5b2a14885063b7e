//! Importing easyjs source: custom libraries first, then the standard library.
use vstd::prelude::*;
use crate::stdlib::{load_std, spec_load_std};
use crate::text::str_eq;

verus! {

/// The text of the first custom library with the given name.
pub open spec fn lib_lookup(libs: Seq<(Seq<char>, Seq<char>)>, path: Seq<char>) -> Option<Seq<char>>
    decreases libs.len(),
{
    if libs.len() == 0 {
        None
    } else if libs[0].0 == path {
        Some(libs[0].1)
    } else {
        lib_lookup(libs.skip(1), path)
    }
}

/// The names and texts of custom libraries.
pub open spec fn libs_view(v: Seq<(String, String)>) -> Seq<(Seq<char>, Seq<char>)> {
    v.map_values(|p: (String, String)| (p.0@, p.1@))
}

/// No name occurs twice among the custom libraries.
pub open spec fn distinct_names(libs: Seq<(Seq<char>, Seq<char>)>) -> bool {
    forall|i: int, j: int| 0 <= i < j < libs.len() ==> libs[i].0 != libs[j].0
}

/// The text that importing `path` gives without reading a file: that of the custom library
/// of that name, else that of the library of the standard library of that name.
pub open spec fn spec_import(libs: Seq<(Seq<char>, Seq<char>)>, path: Seq<char>) -> Option<Seq<char>> {
    match lib_lookup(libs, path) {
        Some(c) => Some(c),
        None => if spec_load_std(path) != ""@ {
            Some(spec_load_std(path))
        } else {
            None
        },
    }
}

/// Import a `easyjs` file. The custom libraries are given as pairs of a name and a text,
/// no name twice, as in a map from names to texts; `None` means that the file at
/// `file_path` is to be read.
pub fn import_file(file_path: &str, custom_libs: &Vec<(String, String)>) -> (r: Option<String>)
    requires
        distinct_names(libs_view(custom_libs@)),
    ensures
        match spec_import(libs_view(custom_libs@), file_path@) {
            Some(t) => r matches Some(x) && x@ == t,
            None => r is None,
        },
{
    let ghost libs = libs_view(custom_libs@);
    // Check if this is a custom lib
    let mut i: usize = 0;
    assert(libs.skip(0) =~= libs);
    while i < custom_libs.len()
        invariant
            i <= custom_libs@.len(),
            libs == libs_view(custom_libs@),
            lib_lookup(libs.skip(i as int), file_path@) == lib_lookup(libs, file_path@),
        decreases custom_libs@.len() - i,
    {
        let ghost rest = libs.skip(i as int);
        assert(rest[0] == (custom_libs@[i as int].0@, custom_libs@[i as int].1@));
        if str_eq(custom_libs[i].0.as_str(), file_path) {
            return Some(custom_libs[i].1.as_str().to_owned());
        }
        assert(rest.skip(1) =~= libs.skip(i + 1));
        i = i + 1;
    }
    assert(libs.len() == custom_libs@.len());
    assert(libs.skip(i as int).len() == 0);
    assert(lib_lookup(libs, file_path@) is None);
    // check if this is a STD
    let std = load_std(file_path);
    proof {
        reveal_strlit("");
    }
    if std.as_str().unicode_len() != 0 {
        Some(std)
    } else {
        assert(std@ =~= ""@);
        None
    }
}

proof fn lemma_lookup_finds(libs: Seq<(Seq<char>, Seq<char>)>, path: Seq<char>)
    ensures
        lib_lookup(libs, path) is None <==> (forall|i: int| 0 <= i < libs.len() ==> libs[i].0 != path),
        forall|i: int| 0 <= i < libs.len() && distinct_names(libs) && libs[i].0 == path
            ==> lib_lookup(libs, path) == Some(libs[i].1),
    decreases libs.len(),
{
    if libs.len() > 0 {
        let rest = libs.skip(1);
        lemma_lookup_finds(rest, path);
        assert forall|i: int| 0 <= i < rest.len() implies rest[i] == libs[i + 1] by {}
        if libs[0].0 != path {
            assert forall|i: int| 0 <= i < libs.len() && distinct_names(libs) && libs[i].0 == path
                implies lib_lookup(libs, path) == Some(libs[i].1) by {
                assert(i > 0);
                assert(rest[i - 1] == libs[i]);
                assert(distinct_names(rest));
            }
            if lib_lookup(libs, path) is None {
                assert forall|i: int| 0 <= i < libs.len() implies libs[i].0 != path by {
                    if i > 0 {
                        assert(rest[i - 1] == libs[i]);
                    }
                }
            }
        }
    }
}

/// Custom libraries come first: importing a name that a custom library has gives that
/// library's text, even where the standard library has one of that name; a name that no
/// custom library has gives the standard library's text of that name where there is one,
/// and otherwise asks for the file to be read.
pub proof fn lemma_custom_libraries_first(libs: Seq<(Seq<char>, Seq<char>)>, path: Seq<char>, i: int)
    requires
        distinct_names(libs),
    ensures
        0 <= i < libs.len() && libs[i].0 == path ==> spec_import(libs, path) == Some(libs[i].1),
        (forall|j: int| 0 <= j < libs.len() ==> libs[j].0 != path) ==> spec_import(libs, path) == (
            if spec_load_std(path) != ""@ {
                Some(spec_load_std(path))
            } else {
                None
            }),
{
    lemma_lookup_finds(libs, path);
}

} // verus!
