//! Reading the type list back out of a rendered manifest. The manifest is
//! line-oriented, and a type entry is exactly a line of the form
//! `                <string>VALUE</string>`: sixteen spaces of indentation,
//! which nothing else in the document uses. The law at the bottom: the type
//! section that the rendered manifest embeds reads back, line by line, to
//! exactly the processed input list.

use vstd::prelude::*;

use crate::manifest::{
    kv_key_is_utis, kv_values, render_spec, type_entries, DocTypes, KEY_EXTS_LINE, KEY_UTIS_LINE,
    PLIST_HEAD, PLIST_MID_ICON, PLIST_MID_NAME, PLIST_MID_ROLE, PLIST_TAIL, TYPES_ARRAY_CLOSE,
    TYPES_ARRAY_OPEN, TYPE_ENTRY_POST, TYPE_ENTRY_PRE,
};

verus! {

/// The value a single manifest line carries: the text between the entry
/// markers, when the line has exactly their shape; nothing otherwise.
pub open spec fn entry_of_line(line: Seq<char>) -> Seq<Seq<char>> {
    if line.len() >= TYPE_ENTRY_PRE@.len() + "</string>"@.len() && line.subrange(
        0,
        TYPE_ENTRY_PRE@.len() as int,
    ) == TYPE_ENTRY_PRE@ && line.subrange(line.len() - "</string>"@.len(), line.len() as int)
        == "</string>"@ {
        seq![line.subrange(TYPE_ENTRY_PRE@.len() as int, line.len() - "</string>"@.len())]
    } else {
        Seq::empty()
    }
}

/// The entries on the complete lines of `m`, reading character by character
/// with `cur` as the line under construction.
pub open spec fn emitted(m: Seq<char>, cur: Seq<char>) -> Seq<Seq<char>>
    decreases m.len(),
{
    if m.len() == 0 {
        Seq::empty()
    } else if m[0] == '\n' {
        entry_of_line(cur) + emitted(m.drop_first(), Seq::empty())
    } else {
        emitted(m.drop_first(), cur.push(m[0]))
    }
}

/// The unfinished last line after reading `m` from line state `cur`.
pub open spec fn carry(m: Seq<char>, cur: Seq<char>) -> Seq<char>
    decreases m.len(),
{
    if m.len() == 0 {
        cur
    } else if m[0] == '\n' {
        carry(m.drop_first(), Seq::empty())
    } else {
        carry(m.drop_first(), cur.push(m[0]))
    }
}

/// The type list of a manifest text: the entries of its lines, the
/// unterminated last line included.
pub open spec fn manifest_type_list(m: Seq<char>) -> Seq<Seq<char>> {
    emitted(m, Seq::empty()) + entry_of_line(carry(m, Seq::empty()))
}

/// Reading a concatenation is reading the first part, then the second from
/// the line state the first part left behind.
proof fn lemma_read_concat(a: Seq<char>, b: Seq<char>, cur: Seq<char>)
    ensures
        emitted(a + b, cur) == emitted(a, cur) + emitted(b, carry(a, cur)),
        carry(a + b, cur) == carry(b, carry(a, cur)),
    decreases a.len(),
{
    if a.len() == 0 {
        assert(a + b =~= b);
        assert(emitted(a, cur) =~= Seq::<Seq<char>>::empty());
        assert(emitted(a, cur) + emitted(b, cur) =~= emitted(b, cur));
    } else {
        assert((a + b).drop_first() =~= a.drop_first() + b);
        assert((a + b)[0] == a[0]);
        if a[0] == '\n' {
            lemma_read_concat(a.drop_first(), b, Seq::empty());
            assert(emitted(a + b, cur) =~= emitted(a, cur) + emitted(b, carry(a, cur)));
        } else {
            lemma_read_concat(a.drop_first(), b, cur.push(a[0]));
        }
    }
}

/// Text without a newline only lengthens the line under construction.
proof fn lemma_read_no_newline(s: Seq<char>, cur: Seq<char>)
    requires
        forall|i: int| 0 <= i < s.len() ==> s[i] != '\n',
    ensures
        emitted(s, cur) == Seq::<Seq<char>>::empty(),
        carry(s, cur) == cur + s,
    decreases s.len(),
{
    if s.len() == 0 {
        assert(carry(s, cur) =~= cur + s);
    } else {
        assert(forall|i: int| 0 <= i < s.drop_first().len() ==> s.drop_first()[i] != '\n');
        lemma_read_no_newline(s.drop_first(), cur.push(s[0]));
        assert(cur.push(s[0]) + s.drop_first() =~= cur + s);
    }
}

/// A lone newline finishes the line under construction.
proof fn lemma_read_newline(cur: Seq<char>)
    ensures
        emitted(seq!['\n'], cur) == entry_of_line(cur),
        carry(seq!['\n'], cur) == Seq::<char>::empty(),
{
    let nl = seq!['\n'];
    assert(nl.drop_first() =~= Seq::<char>::empty());
    assert(emitted(nl.drop_first(), Seq::empty()) =~= Seq::<Seq<char>>::empty());
    assert(emitted(nl, cur) =~= entry_of_line(cur));
    assert(carry(nl.drop_first(), Seq::empty()) =~= Seq::<char>::empty());
    assert(carry(nl, cur) =~= Seq::<char>::empty());
}

/// One rendered entry line reads back to exactly its value.
proof fn lemma_read_one_entry(e: Seq<char>)
    requires
        forall|i: int| 0 <= i < e.len() ==> e[i] != '\n',
    ensures
        emitted(TYPE_ENTRY_PRE@ + e + TYPE_ENTRY_POST@, Seq::empty()) == seq![e],
        carry(TYPE_ENTRY_PRE@ + e + TYPE_ENTRY_POST@, Seq::empty()) == Seq::<char>::empty(),
{
    reveal_strlit("                <string>");
    reveal_strlit("</string>\n");
    reveal_strlit("</string>");
    let line = TYPE_ENTRY_PRE@ + e + "</string>"@;
    assert(TYPE_ENTRY_PRE@ + e + TYPE_ENTRY_POST@ =~= line + seq!['\n']);
    assert(forall|i: int| 0 <= i < TYPE_ENTRY_PRE@.len() ==> TYPE_ENTRY_PRE@[i] != '\n');
    assert(forall|i: int| 0 <= i < "</string>"@.len() ==> "</string>"@[i] != '\n');
    assert(forall|i: int| 0 <= i < line.len() ==> line[i] != '\n');
    lemma_read_no_newline(line, Seq::empty());
    assert(Seq::<char>::empty() + line =~= line);
    lemma_read_concat(line, seq!['\n'], Seq::empty());
    lemma_read_newline(line);
    assert(entry_of_line(line) =~= seq![e]) by {
        assert(line.subrange(0, TYPE_ENTRY_PRE@.len() as int) =~= TYPE_ENTRY_PRE@);
        assert(line.subrange(line.len() - "</string>"@.len(), line.len() as int) =~= "</string>"@);
        assert(line.subrange(TYPE_ENTRY_PRE@.len() as int, line.len() - "</string>"@.len()) =~= e);
    }
    assert(seq![e] + Seq::<Seq<char>>::empty() =~= seq![e]);
}

pub open spec fn no_newlines(vs: Seq<Seq<char>>) -> bool {
    forall|j: int, i: int| 0 <= j < vs.len() && 0 <= i < vs[j].len() ==> vs[j][i] != '\n'
}

/// The rendered entries block reads back to exactly its value list.
proof fn lemma_read_entries(values: Seq<Seq<char>>)
    requires
        no_newlines(values),
    ensures
        emitted(type_entries(values), Seq::empty()) == values,
        carry(type_entries(values), Seq::empty()) == Seq::<char>::empty(),
    decreases values.len(),
{
    if values.len() == 0 {
        assert(emitted(type_entries(values), Seq::empty()) =~= values);
    } else {
        let front = values.drop_last();
        let e = values.last();
        assert(no_newlines(front));
        lemma_read_entries(front);
        let piece = TYPE_ENTRY_PRE@ + e + TYPE_ENTRY_POST@;
        assert(type_entries(values) =~= type_entries(front) + piece);
        lemma_read_concat(type_entries(front), piece, Seq::empty());
        lemma_read_one_entry(e);
        assert(emitted(type_entries(values), Seq::empty()) =~= front + seq![e]);
        assert(front + seq![e] =~= values);
    }
}

/// A line that is too short to be an entry, or differs from the entry
/// indentation at one witness position, carries no entry.
proof fn lemma_line_no_entry(line: Seq<char>, w: int)
    requires
        line.len() < 33 || (0 <= w < TYPE_ENTRY_PRE@.len() && w < line.len() && line[w]
            != TYPE_ENTRY_PRE@[w]),
    ensures
        entry_of_line(line) == Seq::<Seq<char>>::empty(),
{
    reveal_strlit("                <string>");
    reveal_strlit("</string>");
    if line.len() >= TYPE_ENTRY_PRE@.len() + "</string>"@.len() && line.subrange(
        0,
        TYPE_ENTRY_PRE@.len() as int,
    ) == TYPE_ENTRY_PRE@ {
        assert(line.subrange(0, TYPE_ENTRY_PRE@.len() as int)[w] == line[w]);
        assert(false);
    }
}

/// Reading one fixed template line and its newline yields no entry and
/// leaves a fresh line state; the rest reads as if on its own.
proof fn lemma_read_fixed_piece(line: Seq<char>, rest: Seq<char>, w: int)
    requires
        forall|i: int| 0 <= i < line.len() ==> line[i] != '\n',
        line.len() < 33 || (0 <= w < TYPE_ENTRY_PRE@.len() && w < line.len() && line[w]
            != TYPE_ENTRY_PRE@[w]),
    ensures
        emitted(line + seq!['\n'] + rest, Seq::empty()) == emitted(rest, Seq::empty()),
        carry(line + seq!['\n'] + rest, Seq::empty()) == carry(rest, Seq::empty()),
{
    lemma_read_no_newline(line, Seq::empty());
    assert(Seq::<char>::empty() + line =~= line);
    assert(line + seq!['\n'] + rest =~= (line + seq!['\n']) + rest);
    lemma_read_concat(line + seq!['\n'], rest, Seq::empty());
    lemma_read_concat(line, seq!['\n'], Seq::empty());
    lemma_read_newline(line);
    lemma_line_no_entry(line, w);
    assert(emitted(line + seq!['\n'] + rest, Seq::empty()) =~= emitted(rest, Seq::empty()));
}

/// Reading the fixed single-line pieces of the type section.
proof fn lemma_read_fixed_line(piece: Seq<char>)
    requires
        piece.len() > 0,
        piece[piece.len() - 1] == '\n',
        forall|i: int| 0 <= i < piece.len() - 1 ==> piece[i] != '\n',
        piece.len() < 34 || (piece.len() > 13 && piece[12] == '<'),
    ensures
        emitted(piece, Seq::empty()) == Seq::<Seq<char>>::empty(),
        carry(piece, Seq::empty()) == Seq::<char>::empty(),
{
    let line = piece.drop_last();
    assert(piece =~= line + seq!['\n']);
    lemma_read_no_newline(line, Seq::empty());
    assert(Seq::<char>::empty() + line =~= line);
    lemma_read_concat(line, seq!['\n'], Seq::empty());
    lemma_read_newline(line);
    reveal_strlit("                <string>");
    if piece.len() > 13 && piece[12] == '<' {
        assert(line[12] == '<');
        assert(TYPE_ENTRY_PRE@[12] == ' ');
        lemma_line_no_entry(line, 12);
    } else {
        lemma_line_no_entry(line, 0);
    }
    assert(emitted(piece, Seq::empty()) =~= Seq::<Seq<char>>::empty());
}

/// A line already holding a non-space within the entry indentation is
/// closed by `</string>` and a newline without yielding an entry.
proof fn lemma_read_string_close(cur: Seq<char>, rest: Seq<char>)
    requires
        cur.len() > 4,
        cur[4] == '<',
    ensures
        emitted("</string>"@ + seq!['\n'] + rest, cur) == emitted(rest, Seq::empty()),
        carry("</string>"@ + seq!['\n'] + rest, cur) == carry(rest, Seq::empty()),
{
    reveal_strlit("</string>");
    reveal_strlit("                <string>");
    assert(forall|i: int| 0 <= i < "</string>"@.len() ==> "</string>"@[i] != '\n');
    lemma_read_no_newline("</string>"@, cur);
    assert("</string>"@ + seq!['\n'] + rest =~= ("</string>"@ + seq!['\n']) + rest);
    lemma_read_concat("</string>"@ + seq!['\n'], rest, cur);
    lemma_read_concat("</string>"@, seq!['\n'], cur);
    lemma_read_newline(cur + "</string>"@);
    assert((cur + "</string>"@)[4] == '<');
    assert(TYPE_ENTRY_PRE@[4] == ' ');
    lemma_line_no_entry(cur + "</string>"@, 4);
    assert(emitted("</string>"@ + seq!['\n'] + rest, cur) =~= emitted(rest, Seq::empty()));
}

/// The type section as `render_spec` lays it out: the key line naming
/// either list, the array brackets, and the entry lines between them.
pub open spec fn type_section(dt: DocTypes) -> Seq<char> {
    (if kv_key_is_utis(dt) {
        KEY_UTIS_LINE@
    } else {
        KEY_EXTS_LINE@
    }) + TYPES_ARRAY_OPEN@ + type_entries(kv_values(dt)) + TYPES_ARRAY_CLOSE@
}

proof fn lemma_read_plist_head()
    ensures
        emitted(PLIST_HEAD@, Seq::empty()) == Seq::<Seq<char>>::empty(),
        carry(PLIST_HEAD@, Seq::empty()) == Seq::<char>::empty(),
{
    reveal_strlit("<?xml version=\"1.0\" encoding=\"UTF-8\"?>\n<!DOCTYPE plist PUBLIC \"-//Apple//DTD PLIST 1.0//EN\" \"http://www.apple.com/DTDs/PropertyList-1.0.dtd\">\n<plist version=\"1.0\">\n<dict>\n    <key>CFBundleDevelopmentRegion</key>\n    <string>en</string>\n\n    <key>CFBundleDocumentTypes</key>\n    <array>\n        <dict>\n");
    reveal_strlit("                <string>");
    let r0 = PLIST_HEAD@;
    let l0 = r0.subrange(0, 38);
    let r1 = r0.subrange(39, r0.len() as int);
    assert(r0 =~= l0 + seq!['\n'] + r1);
    assert(forall|i: int| 0 <= i < l0.len() ==> l0[i] != '\n');
    assert(l0[0] != TYPE_ENTRY_PRE@[0]);
    lemma_read_fixed_piece(l0, r1, 0);
    let l1 = r1.subrange(0, 102);
    let r2 = r1.subrange(103, r1.len() as int);
    assert(r1 =~= l1 + seq!['\n'] + r2);
    assert(forall|i: int| 0 <= i < l1.len() ==> l1[i] != '\n');
    assert(l1[0] != TYPE_ENTRY_PRE@[0]);
    lemma_read_fixed_piece(l1, r2, 0);
    let l2 = r2.subrange(0, 21);
    let r3 = r2.subrange(22, r2.len() as int);
    assert(r2 =~= l2 + seq!['\n'] + r3);
    assert(forall|i: int| 0 <= i < l2.len() ==> l2[i] != '\n');
    lemma_read_fixed_piece(l2, r3, 0);
    let l3 = r3.subrange(0, 6);
    let r4 = r3.subrange(7, r3.len() as int);
    assert(r3 =~= l3 + seq!['\n'] + r4);
    assert(forall|i: int| 0 <= i < l3.len() ==> l3[i] != '\n');
    lemma_read_fixed_piece(l3, r4, 0);
    let l4 = r4.subrange(0, 40);
    let r5 = r4.subrange(41, r4.len() as int);
    assert(r4 =~= l4 + seq!['\n'] + r5);
    assert(forall|i: int| 0 <= i < l4.len() ==> l4[i] != '\n');
    assert(l4[4] != TYPE_ENTRY_PRE@[4]);
    lemma_read_fixed_piece(l4, r5, 4);
    let l5 = r5.subrange(0, 23);
    let r6 = r5.subrange(24, r5.len() as int);
    assert(r5 =~= l5 + seq!['\n'] + r6);
    assert(forall|i: int| 0 <= i < l5.len() ==> l5[i] != '\n');
    lemma_read_fixed_piece(l5, r6, 0);
    let l6 = r6.subrange(0, 0);
    let r7 = r6.subrange(1, r6.len() as int);
    assert(r6 =~= l6 + seq!['\n'] + r7);
    assert(forall|i: int| 0 <= i < l6.len() ==> l6[i] != '\n');
    lemma_read_fixed_piece(l6, r7, 0);
    let l7 = r7.subrange(0, 36);
    let r8 = r7.subrange(37, r7.len() as int);
    assert(r7 =~= l7 + seq!['\n'] + r8);
    assert(forall|i: int| 0 <= i < l7.len() ==> l7[i] != '\n');
    assert(l7[4] != TYPE_ENTRY_PRE@[4]);
    lemma_read_fixed_piece(l7, r8, 4);
    let l8 = r8.subrange(0, 11);
    let r9 = r8.subrange(12, r8.len() as int);
    assert(r8 =~= l8 + seq!['\n'] + r9);
    assert(forall|i: int| 0 <= i < l8.len() ==> l8[i] != '\n');
    lemma_read_fixed_piece(l8, r9, 0);
    let l9 = r9.subrange(0, 14);
    let r10 = r9.subrange(15, r9.len() as int);
    assert(r9 =~= l9 + seq!['\n'] + r10);
    assert(forall|i: int| 0 <= i < l9.len() ==> l9[i] != '\n');
    lemma_read_fixed_piece(l9, r10, 0);
    assert(r10 =~= Seq::<char>::empty());
    assert(emitted(r10, Seq::empty()) =~= Seq::<Seq<char>>::empty());
    assert(carry(r10, Seq::empty()) =~= Seq::<char>::empty());
}

proof fn lemma_read_mid_role()
    ensures
        emitted(PLIST_MID_ROLE@, Seq::empty()) == Seq::<Seq<char>>::empty(),
        carry(PLIST_MID_ROLE@, Seq::empty()) == "    <string>"@,
{
    reveal_strlit("\n            <key>CFBundleTypeRole</key>\n            <string>Editor</string>\n\n        </dict>\n    </array>\n\n\n    <key>CFBundleExecutable</key>\n    <string>");
    reveal_strlit("                <string>");
    reveal_strlit("    <string>");
    let r0 = PLIST_MID_ROLE@;
    let l0 = r0.subrange(0, 0);
    let r1 = r0.subrange(1, r0.len() as int);
    assert(r0 =~= l0 + seq!['\n'] + r1);
    assert(forall|i: int| 0 <= i < l0.len() ==> l0[i] != '\n');
    lemma_read_fixed_piece(l0, r1, 0);
    let l1 = r1.subrange(0, 39);
    let r2 = r1.subrange(40, r1.len() as int);
    assert(r1 =~= l1 + seq!['\n'] + r2);
    assert(forall|i: int| 0 <= i < l1.len() ==> l1[i] != '\n');
    assert(l1[12] != TYPE_ENTRY_PRE@[12]);
    lemma_read_fixed_piece(l1, r2, 12);
    let l2 = r2.subrange(0, 35);
    let r3 = r2.subrange(36, r2.len() as int);
    assert(r2 =~= l2 + seq!['\n'] + r3);
    assert(forall|i: int| 0 <= i < l2.len() ==> l2[i] != '\n');
    assert(l2[12] != TYPE_ENTRY_PRE@[12]);
    lemma_read_fixed_piece(l2, r3, 12);
    let l3 = r3.subrange(0, 0);
    let r4 = r3.subrange(1, r3.len() as int);
    assert(r3 =~= l3 + seq!['\n'] + r4);
    assert(forall|i: int| 0 <= i < l3.len() ==> l3[i] != '\n');
    lemma_read_fixed_piece(l3, r4, 0);
    let l4 = r4.subrange(0, 15);
    let r5 = r4.subrange(16, r4.len() as int);
    assert(r4 =~= l4 + seq!['\n'] + r5);
    assert(forall|i: int| 0 <= i < l4.len() ==> l4[i] != '\n');
    lemma_read_fixed_piece(l4, r5, 0);
    let l5 = r5.subrange(0, 12);
    let r6 = r5.subrange(13, r5.len() as int);
    assert(r5 =~= l5 + seq!['\n'] + r6);
    assert(forall|i: int| 0 <= i < l5.len() ==> l5[i] != '\n');
    lemma_read_fixed_piece(l5, r6, 0);
    let l6 = r6.subrange(0, 0);
    let r7 = r6.subrange(1, r6.len() as int);
    assert(r6 =~= l6 + seq!['\n'] + r7);
    assert(forall|i: int| 0 <= i < l6.len() ==> l6[i] != '\n');
    lemma_read_fixed_piece(l6, r7, 0);
    let l7 = r7.subrange(0, 0);
    let r8 = r7.subrange(1, r7.len() as int);
    assert(r7 =~= l7 + seq!['\n'] + r8);
    assert(forall|i: int| 0 <= i < l7.len() ==> l7[i] != '\n');
    lemma_read_fixed_piece(l7, r8, 0);
    let l8 = r8.subrange(0, 33);
    let r9 = r8.subrange(34, r8.len() as int);
    assert(r8 =~= l8 + seq!['\n'] + r9);
    assert(forall|i: int| 0 <= i < l8.len() ==> l8[i] != '\n');
    assert(l8[4] != TYPE_ENTRY_PRE@[4]);
    lemma_read_fixed_piece(l8, r9, 4);
    assert(forall|i: int| 0 <= i < r9.len() ==> r9[i] != '\n');
    lemma_read_no_newline(r9, Seq::empty());
    assert(Seq::<char>::empty() + r9 =~= r9);
    assert(r9 =~= "    <string>"@);
}

proof fn lemma_read_mid_icon_rest()
    ensures
        emitted(PLIST_MID_ICON@.subrange(10, 124), Seq::empty()) == Seq::<Seq<char>>::empty(),
        carry(PLIST_MID_ICON@.subrange(10, 124), Seq::empty()) == "    <string>"@,
{
    reveal_strlit("</string>\n\n    <key>CFBundleIconFile</key>\n    <string>AppIcon.icns</string>\n\n    <key>CFBundleIdentifier</key>\n    <string>");
    reveal_strlit("                <string>");
    reveal_strlit("    <string>");
    let r0 = PLIST_MID_ICON@.subrange(10, 124);
    let l0 = r0.subrange(0, 0);
    let r1 = r0.subrange(1, r0.len() as int);
    assert(r0 =~= l0 + seq!['\n'] + r1);
    assert(forall|i: int| 0 <= i < l0.len() ==> l0[i] != '\n');
    lemma_read_fixed_piece(l0, r1, 0);
    let l1 = r1.subrange(0, 31);
    let r2 = r1.subrange(32, r1.len() as int);
    assert(r1 =~= l1 + seq!['\n'] + r2);
    assert(forall|i: int| 0 <= i < l1.len() ==> l1[i] != '\n');
    lemma_read_fixed_piece(l1, r2, 0);
    let l2 = r2.subrange(0, 33);
    let r3 = r2.subrange(34, r2.len() as int);
    assert(r2 =~= l2 + seq!['\n'] + r3);
    assert(forall|i: int| 0 <= i < l2.len() ==> l2[i] != '\n');
    assert(l2[4] != TYPE_ENTRY_PRE@[4]);
    lemma_read_fixed_piece(l2, r3, 4);
    let l3 = r3.subrange(0, 0);
    let r4 = r3.subrange(1, r3.len() as int);
    assert(r3 =~= l3 + seq!['\n'] + r4);
    assert(forall|i: int| 0 <= i < l3.len() ==> l3[i] != '\n');
    lemma_read_fixed_piece(l3, r4, 0);
    let l4 = r4.subrange(0, 33);
    let r5 = r4.subrange(34, r4.len() as int);
    assert(r4 =~= l4 + seq!['\n'] + r5);
    assert(forall|i: int| 0 <= i < l4.len() ==> l4[i] != '\n');
    assert(l4[4] != TYPE_ENTRY_PRE@[4]);
    lemma_read_fixed_piece(l4, r5, 4);
    assert(forall|i: int| 0 <= i < r5.len() ==> r5[i] != '\n');
    lemma_read_no_newline(r5, Seq::empty());
    assert(Seq::<char>::empty() + r5 =~= r5);
    assert(r5 =~= "    <string>"@);
}

proof fn lemma_read_mid_name_rest()
    ensures
        emitted(PLIST_MID_NAME@.subrange(10, 122), Seq::empty()) == Seq::<Seq<char>>::empty(),
        carry(PLIST_MID_NAME@.subrange(10, 122), Seq::empty()) == "    <string>"@,
{
    reveal_strlit("</string>\n\n    <key>CFBundleInfoDictionaryVersion</key>\n    <string>6.0</string>\n\n    <key>CFBundleName</key>\n    <string>");
    reveal_strlit("                <string>");
    reveal_strlit("    <string>");
    let r0 = PLIST_MID_NAME@.subrange(10, 122);
    let l0 = r0.subrange(0, 0);
    let r1 = r0.subrange(1, r0.len() as int);
    assert(r0 =~= l0 + seq!['\n'] + r1);
    assert(forall|i: int| 0 <= i < l0.len() ==> l0[i] != '\n');
    lemma_read_fixed_piece(l0, r1, 0);
    let l1 = r1.subrange(0, 44);
    let r2 = r1.subrange(45, r1.len() as int);
    assert(r1 =~= l1 + seq!['\n'] + r2);
    assert(forall|i: int| 0 <= i < l1.len() ==> l1[i] != '\n');
    assert(l1[4] != TYPE_ENTRY_PRE@[4]);
    lemma_read_fixed_piece(l1, r2, 4);
    let l2 = r2.subrange(0, 24);
    let r3 = r2.subrange(25, r2.len() as int);
    assert(r2 =~= l2 + seq!['\n'] + r3);
    assert(forall|i: int| 0 <= i < l2.len() ==> l2[i] != '\n');
    lemma_read_fixed_piece(l2, r3, 0);
    let l3 = r3.subrange(0, 0);
    let r4 = r3.subrange(1, r3.len() as int);
    assert(r3 =~= l3 + seq!['\n'] + r4);
    assert(forall|i: int| 0 <= i < l3.len() ==> l3[i] != '\n');
    lemma_read_fixed_piece(l3, r4, 0);
    let l4 = r4.subrange(0, 27);
    let r5 = r4.subrange(28, r4.len() as int);
    assert(r4 =~= l4 + seq!['\n'] + r5);
    assert(forall|i: int| 0 <= i < l4.len() ==> l4[i] != '\n');
    lemma_read_fixed_piece(l4, r5, 0);
    assert(forall|i: int| 0 <= i < r5.len() ==> r5[i] != '\n');
    lemma_read_no_newline(r5, Seq::empty());
    assert(Seq::<char>::empty() + r5 =~= r5);
    assert(r5 =~= "    <string>"@);
}

proof fn lemma_read_tail_rest()
    ensures
        emitted(PLIST_TAIL@.subrange(10, 159), Seq::empty()) == Seq::<Seq<char>>::empty(),
        carry(PLIST_TAIL@.subrange(10, 159), Seq::empty()) == Seq::<char>::empty(),
{
    reveal_strlit("</string>\n\n    <key>CFBundlePackageType</key>\n    <string>APPL</string>\n\n    <key>CFBundleShortVersionString</key>\n    <string>0.1.0</string>\n</dict>\n</plist>\n");
    reveal_strlit("                <string>");
    let r0 = PLIST_TAIL@.subrange(10, 159);
    let l0 = r0.subrange(0, 0);
    let r1 = r0.subrange(1, r0.len() as int);
    assert(r0 =~= l0 + seq!['\n'] + r1);
    assert(forall|i: int| 0 <= i < l0.len() ==> l0[i] != '\n');
    lemma_read_fixed_piece(l0, r1, 0);
    let l1 = r1.subrange(0, 34);
    let r2 = r1.subrange(35, r1.len() as int);
    assert(r1 =~= l1 + seq!['\n'] + r2);
    assert(forall|i: int| 0 <= i < l1.len() ==> l1[i] != '\n');
    assert(l1[4] != TYPE_ENTRY_PRE@[4]);
    lemma_read_fixed_piece(l1, r2, 4);
    let l2 = r2.subrange(0, 25);
    let r3 = r2.subrange(26, r2.len() as int);
    assert(r2 =~= l2 + seq!['\n'] + r3);
    assert(forall|i: int| 0 <= i < l2.len() ==> l2[i] != '\n');
    lemma_read_fixed_piece(l2, r3, 0);
    let l3 = r3.subrange(0, 0);
    let r4 = r3.subrange(1, r3.len() as int);
    assert(r3 =~= l3 + seq!['\n'] + r4);
    assert(forall|i: int| 0 <= i < l3.len() ==> l3[i] != '\n');
    lemma_read_fixed_piece(l3, r4, 0);
    let l4 = r4.subrange(0, 41);
    let r5 = r4.subrange(42, r4.len() as int);
    assert(r4 =~= l4 + seq!['\n'] + r5);
    assert(forall|i: int| 0 <= i < l4.len() ==> l4[i] != '\n');
    assert(l4[4] != TYPE_ENTRY_PRE@[4]);
    lemma_read_fixed_piece(l4, r5, 4);
    let l5 = r5.subrange(0, 26);
    let r6 = r5.subrange(27, r5.len() as int);
    assert(r5 =~= l5 + seq!['\n'] + r6);
    assert(forall|i: int| 0 <= i < l5.len() ==> l5[i] != '\n');
    lemma_read_fixed_piece(l5, r6, 0);
    let l6 = r6.subrange(0, 7);
    let r7 = r6.subrange(8, r6.len() as int);
    assert(r6 =~= l6 + seq!['\n'] + r7);
    assert(forall|i: int| 0 <= i < l6.len() ==> l6[i] != '\n');
    lemma_read_fixed_piece(l6, r7, 0);
    let l7 = r7.subrange(0, 8);
    let r8 = r7.subrange(9, r7.len() as int);
    assert(r7 =~= l7 + seq!['\n'] + r8);
    assert(forall|i: int| 0 <= i < l7.len() ==> l7[i] != '\n');
    lemma_read_fixed_piece(l7, r8, 0);
    assert(r8 =~= Seq::<char>::empty());
    assert(emitted(r8, Seq::empty()) =~= Seq::<Seq<char>>::empty());
    assert(carry(r8, Seq::empty()) =~= Seq::<char>::empty());
}
/// Reading the whole type section: its entries, and a fresh line state.
proof fn lemma_read_section(dt: DocTypes)
    requires
        no_newlines(kv_values(dt)),
    ensures
        emitted(type_section(dt), Seq::empty()) == kv_values(dt),
        carry(type_section(dt), Seq::empty()) == Seq::<char>::empty(),
{
    reveal_strlit("            <key>LSItemContentTypes</key>\n");
    reveal_strlit("            <key>CFBundleTypeExtensions</key>\n");
    reveal_strlit("            <array>\n");
    reveal_strlit("            </array>\n");

    let key = if kv_key_is_utis(dt) {
        KEY_UTIS_LINE@
    } else {
        KEY_EXTS_LINE@
    };
    let values = kv_values(dt);

    lemma_read_fixed_line(key);
    lemma_read_fixed_line(TYPES_ARRAY_OPEN@);
    lemma_read_fixed_line(TYPES_ARRAY_CLOSE@);
    lemma_read_entries(values);

    let ko = key + TYPES_ARRAY_OPEN@;
    lemma_read_concat(key, TYPES_ARRAY_OPEN@, Seq::empty());
    let koe = ko + type_entries(values);
    lemma_read_concat(ko, type_entries(values), Seq::empty());
    let all = koe + TYPES_ARRAY_CLOSE@;
    lemma_read_concat(koe, TYPES_ARRAY_CLOSE@, Seq::empty());
    assert(type_section(dt) =~= all);
    assert(emitted(all, Seq::empty()) =~= values);
    assert(carry(all, Seq::empty()) =~= Seq::<char>::empty());
}

/// Round trip of the manifest's type list, over the whole document: reading
/// every line of the rendered manifest yields exactly the processed input
/// list — nothing in the fixed head, the trailer, or the embedded name and
/// identifier contributes an entry. Holds whenever the processed entries,
/// the application name and the bundle identifier carry no newline.
pub proof fn lemma_manifest_round_trip(app_name: Seq<char>, dt: DocTypes, bundle_id: Seq<char>)
    requires
        no_newlines(kv_values(dt)),
        forall|i: int| 0 <= i < app_name.len() ==> app_name[i] != '\n',
        forall|i: int| 0 <= i < bundle_id.len() ==> bundle_id[i] != '\n',
    ensures
        manifest_type_list(render_spec(app_name, dt, bundle_id)) == kv_values(dt),
{
    reveal_strlit("    <string>");
    reveal_strlit("</string>");
    reveal_strlit(
        "</string>\n\n    <key>CFBundleIconFile</key>\n    <string>AppIcon.icns</string>\n\n    <key>CFBundleIdentifier</key>\n    <string>",
    );
    reveal_strlit(
        "</string>\n\n    <key>CFBundleInfoDictionaryVersion</key>\n    <string>6.0</string>\n\n    <key>CFBundleName</key>\n    <string>",
    );
    reveal_strlit(
        "</string>\n\n    <key>CFBundlePackageType</key>\n    <string>APPL</string>\n\n    <key>CFBundleShortVersionString</key>\n    <string>0.1.0</string>\n</dict>\n</plist>\n",
    );
    let doc = render_spec(app_name, dt, bundle_id);
    let values = kv_values(dt);
    let frag = "    <string>"@;
    let nil = Seq::<char>::empty();

    let a1 = PLIST_HEAD@;
    lemma_read_plist_head();

    let a2 = a1 + type_section(dt);
    lemma_read_concat(a1, type_section(dt), nil);
    lemma_read_section(dt);
    assert(emitted(a2, nil) =~= values);
    assert(carry(a2, nil) =~= nil);

    let a3 = a2 + PLIST_MID_ROLE@;
    lemma_read_concat(a2, PLIST_MID_ROLE@, nil);
    lemma_read_mid_role();
    assert(emitted(a3, nil) =~= values);
    assert(carry(a3, nil) =~= frag);

    let a4 = a3 + app_name;
    lemma_read_concat(a3, app_name, nil);
    lemma_read_no_newline(app_name, frag);
    assert(emitted(a4, nil) =~= values);
    assert(carry(a4, nil) =~= frag + app_name);

    let icon_rest = PLIST_MID_ICON@.subrange(10, PLIST_MID_ICON@.len() as int);
    assert(PLIST_MID_ICON@ =~= "</string>"@ + seq!['\n'] + icon_rest);
    let a5 = a4 + PLIST_MID_ICON@;
    lemma_read_concat(a4, PLIST_MID_ICON@, nil);
    assert((frag + app_name)[4] == '<');
    lemma_read_string_close(frag + app_name, icon_rest);
    lemma_read_mid_icon_rest();
    assert(emitted(a5, nil) =~= values);
    assert(carry(a5, nil) =~= frag);

    let a6 = a5 + bundle_id;
    lemma_read_concat(a5, bundle_id, nil);
    lemma_read_no_newline(bundle_id, frag);
    assert(emitted(a6, nil) =~= values);
    assert(carry(a6, nil) =~= frag + bundle_id);

    let name_rest = PLIST_MID_NAME@.subrange(10, PLIST_MID_NAME@.len() as int);
    assert(PLIST_MID_NAME@ =~= "</string>"@ + seq!['\n'] + name_rest);
    let a7 = a6 + PLIST_MID_NAME@;
    lemma_read_concat(a6, PLIST_MID_NAME@, nil);
    assert((frag + bundle_id)[4] == '<');
    lemma_read_string_close(frag + bundle_id, name_rest);
    lemma_read_mid_name_rest();
    assert(emitted(a7, nil) =~= values);
    assert(carry(a7, nil) =~= frag);

    let a8 = a7 + app_name;
    lemma_read_concat(a7, app_name, nil);
    assert(emitted(a8, nil) =~= values);
    assert(carry(a8, nil) =~= frag + app_name);

    let tail_rest = PLIST_TAIL@.subrange(10, PLIST_TAIL@.len() as int);
    assert(PLIST_TAIL@ =~= "</string>"@ + seq!['\n'] + tail_rest);
    let a9 = a8 + PLIST_TAIL@;
    lemma_read_concat(a8, PLIST_TAIL@, nil);
    lemma_read_string_close(frag + app_name, tail_rest);
    lemma_read_tail_rest();
    assert(emitted(a9, nil) =~= values);
    assert(carry(a9, nil) =~= nil);

    assert(doc =~= a9);
    assert(entry_of_line(nil) =~= Seq::<Seq<char>>::empty()) by {
        reveal_strlit("                <string>");
    }
    assert(manifest_type_list(doc) =~= values);
}

} // verus!
