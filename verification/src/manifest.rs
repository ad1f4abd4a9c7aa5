//! The document-type specification and the bundle manifest rendered from
//! it: which files the generated bundle claims to open, and the manifest
//! text embedding exactly the processed type list, the application name and
//! the bundle identifier.

use vstd::prelude::*;

use crate::text::{split_commas, split_commas_str, strip_dots, strip_leading_dots, trim, trim_spec};

verus! {

/// Which documents the generated bundle claims to open. `UTIs` and `Exts`
/// carry comma-delimited lists of type identifiers and file extensions.
#[derive(Debug)]
pub enum DocTypes {
    TextFiles,
    AllDocs,
    UTIs(String),
    Exts(String),
}

impl Default for DocTypes {
    fn default() -> (r: Self)
        ensures
            r == DocTypes::TextFiles,
    {
        DocTypes::TextFiles
    }
}

impl Clone for DocTypes {
    fn clone(&self) -> (r: Self)
        ensures
            r == self,
    {
        match self {
            DocTypes::TextFiles => DocTypes::TextFiles,
            DocTypes::AllDocs => DocTypes::AllDocs,
            DocTypes::UTIs(s) => DocTypes::UTIs(s.clone()),
            DocTypes::Exts(s) => DocTypes::Exts(s.clone()),
        }
    }
}

/// Each entry trimmed, empty results removed, original order kept.
pub open spec fn clean_entries_uti(vs: Seq<Seq<char>>) -> Seq<Seq<char>>
    decreases vs.len(),
{
    if vs.len() == 0 {
        Seq::empty()
    } else {
        let rest = clean_entries_uti(vs.drop_last());
        let e = trim_spec(vs.last());
        if e.len() != 0 {
            rest.push(e)
        } else {
            rest
        }
    }
}

/// Each entry trimmed and stripped of leading dots, empty results removed,
/// original order kept.
pub open spec fn clean_entries_ext(vs: Seq<Seq<char>>) -> Seq<Seq<char>>
    decreases vs.len(),
{
    if vs.len() == 0 {
        Seq::empty()
    } else {
        let rest = clean_entries_ext(vs.drop_last());
        let e = strip_leading_dots(trim_spec(vs.last()));
        if e.len() != 0 {
            rest.push(e)
        } else {
            rest
        }
    }
}

/// A comma-delimited identifier list, each entry trimmed, empty entries
/// removed, original order kept.
pub open spec fn process_utis(s: Seq<char>) -> Seq<Seq<char>> {
    clean_entries_uti(split_commas(s))
}

/// A comma-delimited extension list: trimmed, leading dots stripped, empty
/// entries removed, original order kept.
pub open spec fn process_exts(s: Seq<char>) -> Seq<Seq<char>> {
    clean_entries_ext(split_commas(s))
}

/// Whether the manifest's type section lists content-type identifiers
/// (every variant but `Exts`) or file extensions.
pub open spec fn kv_key_is_utis(dt: DocTypes) -> bool {
    !(dt is Exts)
}

/// The type list the manifest carries for a specification: fixed pairs for
/// the two broad variants, the processed input list otherwise.
pub open spec fn kv_values(dt: DocTypes) -> Seq<Seq<char>> {
    match dt {
        DocTypes::TextFiles => seq!["public.text"@, "public.data"@],
        DocTypes::AllDocs => seq!["public.content"@, "public.data"@],
        DocTypes::UTIs(s) => process_utis(s@),
        DocTypes::Exts(s) => process_exts(s@),
    }
}

impl DocTypes {
    /// The name under which a variant appears in a chooser.
    pub fn display_name(&self) -> (r: &'static str)
        ensures
            match self {
                DocTypes::TextFiles => r@ == "Text Files"@,
                DocTypes::AllDocs => r@ == "All Documents"@,
                DocTypes::UTIs(_) => r@ == "Specific UTIs:"@,
                DocTypes::Exts(_) => r@ == "Specific Extensions:"@,
            },
    {
        match self {
            DocTypes::TextFiles => "Text Files",
            DocTypes::AllDocs => "All Documents",
            DocTypes::UTIs(_) => "Specific UTIs:",
            DocTypes::Exts(_) => "Specific Extensions:",
        }
    }

    /// The manifest key and type list of this specification: the key names
    /// either the content-type list or the extension list (never both), and
    /// the values are the input entries trimmed, leading dots stripped for
    /// extensions, empty entries removed, in their original order.
    pub fn to_info_kv(&self) -> (r: (String, Vec<String>))
        ensures
            r.0@ == if kv_key_is_utis(*self) {
                "utis"@
            } else {
                "exts"@
            },
            r.1@.map_values(|x: String| x@) == kv_values(*self),
    {
        match self {
            DocTypes::TextFiles => {
                let mut v: Vec<String> = Vec::new();
                v.push(String::from_str("public.text"));
                v.push(String::from_str("public.data"));
                proof {
                    assert(v@.map_values(|x: String| x@) =~= kv_values(*self));
                }
                (String::from_str("utis"), v)
            },
            DocTypes::AllDocs => {
                let mut v: Vec<String> = Vec::new();
                v.push(String::from_str("public.content"));
                v.push(String::from_str("public.data"));
                proof {
                    assert(v@.map_values(|x: String| x@) =~= kv_values(*self));
                }
                (String::from_str("utis"), v)
            },
            DocTypes::UTIs(s) => {
                let v = process_utis_exec(s.as_str());
                proof {
                    assert(v@.map_values(|x: String| x@) =~= kv_values(*self));
                }
                (String::from_str("utis"), v)
            },
            DocTypes::Exts(s) => {
                let v = parse_exts(s.as_str());
                proof {
                    assert(v@.map_values(|x: String| x@) =~= kv_values(*self));
                }
                (String::from_str("exts"), v)
            },
        }
    }
}

/// Splits, trims and filters a comma-delimited identifier list, as
/// `process_utis` describes.
pub fn process_utis_exec(s: &str) -> (r: Vec<String>)
    ensures
        r@.map_values(|x: String| x@) == process_utis(s@),
{
    let parts = split_commas_str(s);
    let ghost pieces = split_commas(s@);
    let mut out: Vec<String> = Vec::new();
    let mut i: usize = 0;
    proof {
        assert(pieces.subrange(0, 0) =~= Seq::<Seq<char>>::empty());
        assert(out@.map_values(|x: String| x@) =~= clean_entries_uti(pieces.subrange(0, 0)));
    }
    while i < parts.len()
        invariant
            0 <= i <= parts@.len(),
            parts@.map_values(|x: String| x@) == pieces,
            out@.map_values(|x: String| x@) == clean_entries_uti(pieces.subrange(0, i as int)),
        decreases parts@.len() - i,
    {
        let t = trim(parts[i].as_str()).to_owned();
        let keep = t.as_str().unicode_len() != 0;
        let ghost out_before = out@;
        if keep {
            out.push(t);
        }
        proof {
            let cur = pieces.subrange(0, i + 1);
            assert(parts@.map_values(|x: String| x@)[i as int] == parts@[i as int]@);
            assert(t@ == trim_spec(pieces[i as int]));
            assert(cur.drop_last() =~= pieces.subrange(0, i as int));
            assert(cur.last() == pieces[i as int]);
            if keep {
                assert(out@.map_values(|x: String| x@) =~= out_before.map_values(
                    |x: String| x@,
                ).push(t@));
            }
            assert(out@.map_values(|x: String| x@) =~= clean_entries_uti(cur));
        }
        i += 1;
    }
    proof {
        assert(pieces.subrange(0, pieces.len() as int) =~= pieces);
    }
    out
}

/// Splits, trims, dot-strips and filters a comma-delimited extension list,
/// as `process_exts` describes.
pub fn parse_exts(exts: &str) -> (r: Vec<String>)
    ensures
        r@.map_values(|x: String| x@) == process_exts(exts@),
{
    let parts = split_commas_str(exts);
    let ghost pieces = split_commas(exts@);
    let mut out: Vec<String> = Vec::new();
    let mut i: usize = 0;
    proof {
        assert(pieces.subrange(0, 0) =~= Seq::<Seq<char>>::empty());
        assert(out@.map_values(|x: String| x@) =~= clean_entries_ext(pieces.subrange(0, 0)));
    }
    while i < parts.len()
        invariant
            0 <= i <= parts@.len(),
            parts@.map_values(|x: String| x@) == pieces,
            out@.map_values(|x: String| x@) == clean_entries_ext(pieces.subrange(0, i as int)),
        decreases parts@.len() - i,
    {
        let t = strip_dots(trim(parts[i].as_str())).to_owned();
        let keep = t.as_str().unicode_len() != 0;
        let ghost out_before = out@;
        if keep {
            out.push(t);
        }
        proof {
            let cur = pieces.subrange(0, i + 1);
            assert(parts@.map_values(|x: String| x@)[i as int] == parts@[i as int]@);
            assert(t@ == strip_leading_dots(trim_spec(pieces[i as int])));
            assert(cur.drop_last() =~= pieces.subrange(0, i as int));
            assert(cur.last() == pieces[i as int]);
            if keep {
                assert(out@.map_values(|x: String| x@) =~= out_before.map_values(
                    |x: String| x@,
                ).push(t@));
            }
            assert(out@.map_values(|x: String| x@) =~= clean_entries_ext(cur));
        }
        i += 1;
    }
    proof {
        assert(pieces.subrange(0, pieces.len() as int) =~= pieces);
    }
    out
}

/// The manifest text up to the document-type section.
pub const PLIST_HEAD: &'static str = r#"<?xml version="1.0" encoding="UTF-8"?>
<!DOCTYPE plist PUBLIC "-//Apple//DTD PLIST 1.0//EN" "http://www.apple.com/DTDs/PropertyList-1.0.dtd">
<plist version="1.0">
<dict>
    <key>CFBundleDevelopmentRegion</key>
    <string>en</string>

    <key>CFBundleDocumentTypes</key>
    <array>
        <dict>
"#;

pub const KEY_UTIS_LINE: &'static str = "            <key>LSItemContentTypes</key>\n";

pub const KEY_EXTS_LINE: &'static str = "            <key>CFBundleTypeExtensions</key>\n";

pub const TYPES_ARRAY_OPEN: &'static str = "            <array>\n";

pub const TYPE_ENTRY_PRE: &'static str = "                <string>";

pub const TYPE_ENTRY_POST: &'static str = "</string>\n";

pub const TYPES_ARRAY_CLOSE: &'static str = "            </array>\n";

/// From the end of the type section to the executable's name.
pub const PLIST_MID_ROLE: &'static str = r#"
            <key>CFBundleTypeRole</key>
            <string>Editor</string>

        </dict>
    </array>


    <key>CFBundleExecutable</key>
    <string>"#;

/// From the executable's name to the bundle identifier.
pub const PLIST_MID_ICON: &'static str = r#"</string>

    <key>CFBundleIconFile</key>
    <string>AppIcon.icns</string>

    <key>CFBundleIdentifier</key>
    <string>"#;

/// From the bundle identifier to the bundle's display name.
pub const PLIST_MID_NAME: &'static str = r#"</string>

    <key>CFBundleInfoDictionaryVersion</key>
    <string>6.0</string>

    <key>CFBundleName</key>
    <string>"#;

/// Everything after the bundle's display name.
pub const PLIST_TAIL: &'static str = r#"</string>

    <key>CFBundlePackageType</key>
    <string>APPL</string>

    <key>CFBundleShortVersionString</key>
    <string>0.1.0</string>
</dict>
</plist>
"#;

/// One `<string>` line per type-list value, in order.
pub open spec fn type_entries(values: Seq<Seq<char>>) -> Seq<char>
    decreases values.len(),
{
    if values.len() == 0 {
        Seq::empty()
    } else {
        type_entries(values.drop_last()) + TYPE_ENTRY_PRE@ + values.last() + TYPE_ENTRY_POST@
    }
}

/// The whole manifest text for a name, document-type specification and
/// bundle identifier: exactly one of the two type-list sections — chosen by
/// the specification's variant — embedding the processed values verbatim,
/// then the identity fields. An empty list renders an empty-but-present
/// section.
pub open spec fn render_spec(app_name: Seq<char>, dt: DocTypes, bundle_id: Seq<char>) -> Seq<
    char,
> {
    PLIST_HEAD@ + (if kv_key_is_utis(dt) {
        KEY_UTIS_LINE@
    } else {
        KEY_EXTS_LINE@
    }) + TYPES_ARRAY_OPEN@ + type_entries(kv_values(dt)) + TYPES_ARRAY_CLOSE@ + PLIST_MID_ROLE@
        + app_name + PLIST_MID_ICON@ + bundle_id + PLIST_MID_NAME@ + app_name + PLIST_TAIL@
}

/// Renders the bundle manifest. Pure text construction: it cannot fail, and
/// the result is pinned to the character by `render_spec`.
pub fn render_info_plist(app_name: &str, doc_type: &DocTypes, bundle_id: &str) -> (r: String)
    ensures
        r@ == render_spec(app_name@, *doc_type, bundle_id@),
{
    let (key, values) = doc_type.to_info_kv();
    let mut out = String::from_str(PLIST_HEAD);
    if crate::text::str_eq(key.as_str(), "utis") {
        out.append(KEY_UTIS_LINE);
    } else {
        out.append(KEY_EXTS_LINE);
    }
    proof {
        reveal_strlit("utis");
        reveal_strlit("exts");
        assert("utis"@[0] != "exts"@[0]);
        assert("utis"@ != "exts"@);
    }
    out.append(TYPES_ARRAY_OPEN);
    let ghost vviews = values@.map_values(|x: String| x@);
    let ghost before_entries = out@;
    let mut i: usize = 0;
    proof {
        assert(vviews.subrange(0, 0) =~= Seq::<Seq<char>>::empty());
        assert(out@ =~= before_entries + type_entries(vviews.subrange(0, 0)));
    }
    while i < values.len()
        invariant
            0 <= i <= values@.len(),
            vviews == values@.map_values(|x: String| x@),
            out@ == before_entries + type_entries(vviews.subrange(0, i as int)),
        decreases values@.len() - i,
    {
        out.append(TYPE_ENTRY_PRE);
        out.append(values[i].as_str());
        out.append(TYPE_ENTRY_POST);
        proof {
            let cur = vviews.subrange(0, i + 1);
            assert(values@.map_values(|x: String| x@)[i as int] == values@[i as int]@);
            assert(cur.drop_last() =~= vviews.subrange(0, i as int));
            assert(cur.last() == vviews[i as int]);
            assert(out@ =~= before_entries + type_entries(cur));
        }
        i += 1;
    }
    proof {
        assert(vviews.subrange(0, vviews.len() as int) =~= vviews);
    }
    out.append(TYPES_ARRAY_CLOSE);
    out.append(PLIST_MID_ROLE);
    out.append(app_name);
    out.append(PLIST_MID_ICON);
    out.append(bundle_id);
    out.append(PLIST_MID_NAME);
    out.append(app_name);
    out.append(PLIST_TAIL);
    proof {
        assert(out@ =~= render_spec(app_name@, *doc_type, bundle_id@));
    }
    out
}

} // verus!
