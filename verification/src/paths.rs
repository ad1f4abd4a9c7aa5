//! Path handling on plain strings, for paths that carry no trailing
//! separator: the final component, its stem and extension, and the
//! derivation of an application's name, bundle file name and destination.

use vstd::prelude::*;

use crate::text::{lemma_rfind_char, rfind_char, rfind_char_str, str_eq};

verus! {

/// The final component of `path`: the text after the last `/` (the whole
/// path when there is no `/`), unless that text is empty or one of the
/// relative components `.` and `..`.
pub open spec fn file_name_spec(path: Seq<char>) -> Option<Seq<char>> {
    let i = rfind_char(path, '/');
    let name = if i < 0 {
        path
    } else {
        path.subrange(i + 1, path.len() as int)
    };
    if name.len() == 0 || name == "."@ || name == ".."@ {
        None
    } else {
        Some(name)
    }
}

/// Everything up to and including the last `/`; empty for a bare name.
pub open spec fn dir_prefix_spec(path: Seq<char>) -> Seq<char> {
    let i = rfind_char(path, '/');
    if i < 0 {
        Seq::empty()
    } else {
        path.subrange(0, i + 1)
    }
}

/// Splits a file name into stem and extension at its last `.`; a name
/// without a dot, or with its only dot in front, has no extension.
pub open spec fn split_ext_spec(name: Seq<char>) -> (Seq<char>, Option<Seq<char>>) {
    let i = rfind_char(name, '.');
    if i <= 0 {
        (name, None)
    } else {
        (name.subrange(0, i), Some(name.subrange(i + 1, name.len() as int)))
    }
}

/// `path` with its final component replaced by `name`.
pub open spec fn set_file_name_spec(path: Seq<char>, name: Seq<char>) -> Seq<char> {
    dir_prefix_spec(path) + name
}

/// `path` with its final component's extension replaced by `ext` (appended
/// after a `.` when the component has none); a path without a usable final
/// component stays as it is.
pub open spec fn with_extension_spec(path: Seq<char>, ext: Seq<char>) -> Seq<char> {
    match file_name_spec(path) {
        Some(name) => dir_prefix_spec(path) + split_ext_spec(name).0 + seq!['.'] + ext,
        None => path,
    }
}

pub fn file_name_of(path: &str) -> (r: Option<String>)
    ensures
        match r {
            Some(n) => file_name_spec(path@) == Some(n@),
            None => file_name_spec(path@) is None,
        },
{
    proof {
        lemma_rfind_char(path@, '/');
    }
    let n = path.unicode_len();
    let name: String = match rfind_char_str(path, '/') {
        Option::Some(i) => path.substring_char(i + 1, n).to_owned(),
        Option::None => path.to_owned(),
    };
    if name.as_str().unicode_len() == 0 || str_eq(name.as_str(), ".") || str_eq(
        name.as_str(),
        "..",
    ) {
        None
    } else {
        Some(name)
    }
}

/// The name under which the generated application appears, the bundle file
/// name it gets on disk, and where the bundle finally lands, all from one
/// requested output path: a path whose extension is literally `app` names
/// the application by its stem; any other final component is the name
/// itself, and `.app` is appended for the bundle.
pub open spec fn app_name_spec(path: Seq<char>) -> Seq<char>
    recommends
        file_name_spec(path) is Some,
{
    let name = file_name_spec(path)->Some_0;
    if split_ext_spec(name).1 == Some("app"@) {
        split_ext_spec(name).0
    } else {
        name
    }
}

pub fn get_names(app_path: &str) -> (r: Result<(String, String, String), String>)
    ensures
        match r {
            Ok(names) => {
                &&& file_name_spec(app_path@) is Some
                &&& names.0@ == app_name_spec(app_path@)
                &&& names.1@ == app_name_spec(app_path@) + ".app"@
                &&& names.2@ == set_file_name_spec(app_path@, app_name_spec(app_path@) + ".app"@)
            },
            Err(m) => {
                &&& file_name_spec(app_path@) is None
                &&& m@ == "Couldn't get file name from "@ + app_path@
            },
        },
{
    proof {
        lemma_rfind_char(app_path@, '/');
    }
    let name = match file_name_of(app_path) {
        Option::Some(n) => n,
        Option::None => {
            let mut m = String::from_str("Couldn't get file name from ");
            m.append(app_path);
            return Err(m);
        },
    };
    proof {
        lemma_rfind_char(name@, '.');
    }
    let nlen = name.as_str().unicode_len();
    let app_name: String = match rfind_char_str(name.as_str(), '.') {
        Option::Some(i) => {
            if i > 0 && str_eq(name.as_str().substring_char(i + 1, nlen), "app") {
                name.as_str().substring_char(0, i).to_owned()
            } else {
                name
            }
        },
        Option::None => name,
    };
    let mut bundle_name = app_name.clone();
    bundle_name.append(".app");
    let n = app_path.unicode_len();
    let mut final_path: String = match rfind_char_str(app_path, '/') {
        Option::Some(i) => app_path.substring_char(0, i + 1).to_owned(),
        Option::None => String::new(),
    };
    final_path.append(bundle_name.as_str());
    proof {
        assert(final_path@ =~= set_file_name_spec(app_path@, app_name_spec(app_path@) + ".app"@));
    }
    Ok((app_name, bundle_name, final_path))
}

/// The extension of `path`'s final component, if both exist.
pub open spec fn path_ext_spec(path: Seq<char>) -> Option<Seq<char>> {
    match file_name_spec(path) {
        Some(name) => split_ext_spec(name).1,
        None => None,
    }
}

pub fn path_extension_of(path: &str) -> (r: Option<String>)
    ensures
        match r {
            Some(e) => path_ext_spec(path@) == Some(e@),
            None => path_ext_spec(path@) is None,
        },
{
    let name = match file_name_of(path) {
        Option::Some(n) => n,
        Option::None => {
            return None;
        },
    };
    proof {
        lemma_rfind_char(name@, '.');
    }
    let nlen = name.as_str().unicode_len();
    match rfind_char_str(name.as_str(), '.') {
        Option::Some(i) => {
            if i > 0 {
                Some(name.as_str().substring_char(i + 1, nlen).to_owned())
            } else {
                None
            }
        },
        Option::None => None,
    }
}

/// `path` with its extension replaced by (or set to) `ext`, as
/// `with_extension_spec` describes.
pub fn with_extension(path: &str, ext: &str) -> (r: String)
    ensures
        r@ == with_extension_spec(path@, ext@),
{
    proof {
        lemma_rfind_char(path@, '/');
    }
    let name = match file_name_of(path) {
        Option::Some(n) => n,
        Option::None => {
            return path.to_owned();
        },
    };
    proof {
        lemma_rfind_char(name@, '.');
    }
    let nlen = name.as_str().unicode_len();
    let stem: String = match rfind_char_str(name.as_str(), '.') {
        Option::Some(i) => {
            if i > 0 {
                name.as_str().substring_char(0, i).to_owned()
            } else {
                name
            }
        },
        Option::None => name,
    };
    let n = path.unicode_len();
    let mut out: String = match rfind_char_str(path, '/') {
        Option::Some(i) => path.substring_char(0, i + 1).to_owned(),
        Option::None => String::new(),
    };
    out.append(stem.as_str());
    crate::text::push_char(&mut out, '.');
    out.append(ext);
    proof {
        assert(out@ =~= with_extension_spec(path@, ext@));
    }
    out
}

} // verus!
