//! Locating the running bundle's resources directory from the executable's
//! own path: two levels up (the binary, then `MacOS/`), then `Resources`.

use vstd::prelude::*;

use crate::compose::{parent_dir, parent_of};

verus! {

/// `a` and `b` joined with exactly one separator between them.
pub open spec fn join_path_spec(a: Seq<char>, b: Seq<char>) -> Seq<char> {
    if a.len() == 0 {
        b
    } else if a[a.len() - 1] == '/' {
        a + b
    } else {
        a + "/"@ + b
    }
}

pub fn join_path(a: &str, b: &str) -> (r: String)
    ensures
        r@ == join_path_spec(a@, b@),
{
    let n = a.unicode_len();
    let mut out = a.to_owned();
    if n > 0 && a.get_char(n - 1) != '/' {
        crate::text::push_char(&mut out, '/');
    }
    out.append(b);
    proof {
        reveal_strlit("/");
        assert(out@ =~= join_path_spec(a@, b@));
    }
    out
}

/// The `Contents/Resources` directory of the bundle an executable runs in,
/// from the executable's path: drop the binary's name, drop the `MacOS`
/// directory, append `Resources`. Each failing step reports the path it
/// could not shorten.
pub fn app_resources_from_exe(exe: &str) -> (r: Result<String, String>)
    ensures
        match r {
            Ok(p) => {
                &&& parent_dir(exe@) is Some
                &&& parent_dir(parent_dir(exe@)->Some_0) is Some
                &&& p@ == join_path_spec(
                    parent_dir(parent_dir(exe@)->Some_0)->Some_0,
                    "Resources"@,
                )
            },
            Err(m) => {
                ||| (parent_dir(exe@) is None && m@ == "Couldn't pop binary filename from path '"@
                    + exe@ + "' !?"@)
                ||| (parent_dir(exe@) is Some && parent_dir(parent_dir(exe@)->Some_0) is None && m@
                    == "Couldn' MacOS/ from path '"@ + parent_dir(exe@)->Some_0
                    + "', is this being run in an app bundle?"@)
            },
        },
{
    let d1 = match parent_of(exe) {
        Option::Some(d) => d,
        Option::None => {
            let mut m = String::from_str("Couldn't pop binary filename from path '");
            m.append(exe);
            m.append("' !?");
            return Err(m);
        },
    };
    let d2 = match parent_of(d1.as_str()) {
        Option::Some(d) => d,
        Option::None => {
            let mut m = String::from_str("Couldn' MacOS/ from path '");
            m.append(d1.as_str());
            m.append("', is this being run in an app bundle?");
            return Err(m);
        },
    };
    Ok(join_path(d2.as_str(), "Resources"))
}

} // verus!
