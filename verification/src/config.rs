//! Runtime configuration of a generated bundle: the command to run, how a
//! batch of opened files is grouped, and which terminal emulator runs it.

use vstd::prelude::*;

verus! {

/// Whether one batch of opened files is handled by a single invocation
/// (`All`) or by one invocation per file (`None`).
#[derive(Clone, Copy, Debug, PartialEq, Eq, Structural)]
pub enum GroupBy {
    PerFile,
    All,
}

impl Default for GroupBy {
    fn default() -> (r: Self)
        ensures
            r == GroupBy::All,
    {
        GroupBy::All
    }
}

impl GroupBy {
    /// The lower-case name used on command lines and in the serialized
    /// configuration.
    pub open spec fn spec_name(self) -> Seq<char> {
        match self {
            GroupBy::PerFile => "none"@,
            GroupBy::All => "all"@,
        }
    }

    pub fn to_string(&self) -> (r: String)
        ensures
            r@ == self.spec_name(),
    {
        match self {
            GroupBy::PerFile => "none".to_owned(),
            GroupBy::All => "all".to_owned(),
        }
    }
}

/// The terminal emulator a bundle dispatches to: either one of the supported,
/// registered drivers, or an arbitrary application driven by keystroke
/// simulation.
#[derive(Debug)]
pub enum TerminalApp {
    Supported(String),
    Generic(String),
}

impl TerminalApp {
    /// The application name carried by either variant.
    pub open spec fn spec_name(self) -> Seq<char> {
        match self {
            TerminalApp::Supported(name) => name@,
            TerminalApp::Generic(name) => name@,
        }
    }

    pub fn name(&self) -> (r: &str)
        ensures
            r@ == self.spec_name(),
    {
        match self {
            TerminalApp::Supported(name) => name.as_str(),
            TerminalApp::Generic(name) => name.as_str(),
        }
    }
}

impl Clone for TerminalApp {
    fn clone(&self) -> (r: Self)
        ensures
            r == self,
    {
        match self {
            TerminalApp::Supported(name) => TerminalApp::Supported(name.clone()),
            TerminalApp::Generic(name) => TerminalApp::Generic(name.clone()),
        }
    }
}

/// What a generated bundle needs to know at runtime. Serialized into the
/// bundle's resources at generation time and read back by the shim.
#[derive(Debug)]
pub struct Config {
    pub command: String,
    pub group_open_by: GroupBy,
    pub terminal: TerminalApp,
}

impl Config {
    /// The one invariant of a configuration: the command is never empty.
    pub open spec fn wf(self) -> bool {
        self.command@.len() > 0
    }

    pub fn new(command: String, group_open_by: GroupBy, terminal: TerminalApp) -> (r: Config)
        requires
            command@.len() > 0,
        ensures
            r.command == command,
            r.group_open_by == group_open_by,
            r.terminal == terminal,
            r.wf(),
    {
        Config { command, group_open_by, terminal }
    }
}

impl Clone for Config {
    fn clone(&self) -> (r: Self)
        ensures
            r == self,
    {
        Config {
            command: self.command.clone(),
            group_open_by: self.group_open_by,
            terminal: self.terminal.clone(),
        }
    }
}

pub open spec fn hex_digit(d: nat) -> char
    recommends
        d < 16,
{
    if d == 0 {
        '0'
    } else if d == 1 {
        '1'
    } else if d == 2 {
        '2'
    } else if d == 3 {
        '3'
    } else if d == 4 {
        '4'
    } else if d == 5 {
        '5'
    } else if d == 6 {
        '6'
    } else if d == 7 {
        '7'
    } else if d == 8 {
        '8'
    } else if d == 9 {
        '9'
    } else if d == 10 {
        'a'
    } else if d == 11 {
        'b'
    } else if d == 12 {
        'c'
    } else if d == 13 {
        'd'
    } else if d == 14 {
        'e'
    } else {
        'f'
    }
}

/// How one character appears inside a JSON string literal: quote and
/// backslash escaped, the common control characters by letter, any other
/// control character in the `\u00..` form.
pub open spec fn json_escape_char(c: char) -> Seq<char> {
    if c == '"' {
        seq!['\\', '"']
    } else if c == '\\' {
        seq!['\\', '\\']
    } else if c == '\n' {
        seq!['\\', 'n']
    } else if c == '\r' {
        seq!['\\', 'r']
    } else if c == '\t' {
        seq!['\\', 't']
    } else if (c as nat) < 32 {
        seq!['\\', 'u', '0', '0', hex_digit((c as nat) / 16), hex_digit((c as nat) % 16)]
    } else {
        seq![c]
    }
}

pub open spec fn json_escape(s: Seq<char>) -> Seq<char>
    decreases s.len(),
{
    if s.len() == 0 {
        Seq::empty()
    } else {
        json_escape_char(s[0]) + json_escape(s.drop_first())
    }
}

/// A JSON string literal holding exactly `s`.
pub open spec fn json_string(s: Seq<char>) -> Seq<char> {
    seq!['"'] + json_escape(s) + seq!['"']
}

proof fn lemma_json_escape_snoc(s: Seq<char>, c: char)
    ensures
        json_escape(s.push(c)) == json_escape(s) + json_escape_char(c),
    decreases s.len(),
{
    if s.len() == 0 {
        let t = s.push(c);
        assert(t.len() == 1 && t[0] == c);
        assert(t.drop_first() =~= Seq::<char>::empty());
        assert(json_escape(t.drop_first()) =~= Seq::<char>::empty());
        assert(json_escape(t) =~= json_escape_char(c));
        assert(json_escape(s) =~= Seq::<char>::empty());
        assert(json_escape(s.push(c)) =~= json_escape(s) + json_escape_char(c));
    } else {
        assert(s.push(c).drop_first() =~= s.drop_first().push(c));
        lemma_json_escape_snoc(s.drop_first(), c);
        assert(json_escape(s.push(c)) =~= json_escape(s) + json_escape_char(c));
    }
}

fn hex_digit_exec(d: u32) -> (r: char)
    requires
        d < 16,
    ensures
        r == hex_digit(d as nat),
{
    if d == 0 {
        '0'
    } else if d == 1 {
        '1'
    } else if d == 2 {
        '2'
    } else if d == 3 {
        '3'
    } else if d == 4 {
        '4'
    } else if d == 5 {
        '5'
    } else if d == 6 {
        '6'
    } else if d == 7 {
        '7'
    } else if d == 8 {
        '8'
    } else if d == 9 {
        '9'
    } else if d == 10 {
        'a'
    } else if d == 11 {
        'b'
    } else if d == 12 {
        'c'
    } else if d == 13 {
        'd'
    } else if d == 14 {
        'e'
    } else {
        'f'
    }
}

/// Appends `s` as a JSON string literal, escaped as `json_string` says.
fn append_json_string(out: &mut String, s: &str)
    ensures
        final(out)@ == old(out)@ + json_string(s@),
{
    let n = s.unicode_len();
    crate::text::push_char(out, '"');
    let ghost base = out@;
    let mut i: usize = 0;
    proof {
        assert(s@.subrange(0, 0) =~= Seq::<char>::empty());
        assert(out@ =~= base + json_escape(s@.subrange(0, 0)));
    }
    while i < n
        invariant
            n == s@.len(),
            0 <= i <= n,
            out@ == base + json_escape(s@.subrange(0, i as int)),
        decreases n - i,
    {
        let c = s.get_char(i);
        if c == '"' {
            crate::text::push_char(out, '\\');
            crate::text::push_char(out, '"');
        } else if c == '\\' {
            crate::text::push_char(out, '\\');
            crate::text::push_char(out, '\\');
        } else if c == '\n' {
            crate::text::push_char(out, '\\');
            crate::text::push_char(out, 'n');
        } else if c == '\r' {
            crate::text::push_char(out, '\\');
            crate::text::push_char(out, 'r');
        } else if c == '\t' {
            crate::text::push_char(out, '\\');
            crate::text::push_char(out, 't');
        } else if (c as u32) < 32 {
            crate::text::push_char(out, '\\');
            crate::text::push_char(out, 'u');
            crate::text::push_char(out, '0');
            crate::text::push_char(out, '0');
            crate::text::push_char(out, hex_digit_exec((c as u32) / 16));
            crate::text::push_char(out, hex_digit_exec((c as u32) % 16));
        } else {
            crate::text::push_char(out, c);
        }
        proof {
            lemma_json_escape_snoc(s@.subrange(0, i as int), s@[i as int]);
            assert(s@.subrange(0, i + 1) =~= s@.subrange(0, i as int).push(s@[i as int]));
            assert(out@ =~= base + json_escape(s@.subrange(0, i + 1)));
        }
        i += 1;
    }
    crate::text::push_char(out, '"');
    proof {
        assert(s@.subrange(0, n as int) =~= s@);
        assert(out@ =~= old(out)@ + json_string(s@));
    }
}

/// The tag under which a terminal selection is serialized.
pub open spec fn terminal_tag(t: TerminalApp) -> Seq<char> {
    match t {
        TerminalApp::Supported(_) => "Supported"@,
        TerminalApp::Generic(_) => "Generic"@,
    }
}

/// The serialized form of a configuration, exactly: an object with the
/// command, the grouping policy under its lower-case name, and the terminal
/// selection as a one-key object tagged by its variant.
pub open spec fn config_json_spec(c: Config) -> Seq<char> {
    "{\"command\":"@ + json_string(c.command@) + ",\"group_open_by\":"@ + json_string(
        c.group_open_by.spec_name(),
    ) + ",\"terminal\":{"@ + json_string(terminal_tag(c.terminal)) + ":"@ + json_string(
        c.terminal.spec_name(),
    ) + "}}"@
}

/// Consumes `lit` at `pos`, giving the position after it; nothing when the
/// text there is not `lit`.
fn expect_lit(s: &str, pos: usize, lit: &str) -> (r: Option<usize>)
    requires
        pos <= s@.len(),
    ensures
        match r {
            Some(p) => p == pos + lit@.len() && p <= s@.len() && s@.subrange(pos as int, p as int)
                == lit@,
            None => !(pos + lit@.len() <= s@.len() && s@.subrange(
                pos as int,
                pos + lit@.len() as int,
            ) == lit@),
        },
{
    let n = s.unicode_len();
    let m = lit.unicode_len();
    if m > n - pos {
        return None;
    }
    let mut k: usize = 0;
    while k < m
        invariant
            n == s@.len(),
            m == lit@.len(),
            pos + m <= n,
            0 <= k <= m,
            forall|t: int| 0 <= t < k ==> s@[pos + t] == lit@[t],
        decreases m - k,
    {
        if s.get_char(pos + k) != lit.get_char(k) {
            proof {
                if s@.subrange(pos as int, pos + lit@.len() as int) == lit@ {
                    assert(s@.subrange(pos as int, pos + lit@.len() as int)[k as int] == s@[pos
                        + k]);
                }
            }
            return None;
        }
        k += 1;
    }
    proof {
        assert(s@.subrange(pos as int, pos + m as int) =~= lit@);
    }
    Some(pos + m)
}

/// A canonical string literal sitting at `pos` fixes what any reader of
/// the text after its opening quote must produce.
proof fn lemma_canonical_string_at(s: Seq<char>, pos: int, t: Seq<char>)
    requires
        plain_text(t),
        0 <= pos,
        pos + json_string(t).len() <= s.len(),
        s.subrange(pos, pos + json_string(t).len()) == json_string(t),
    ensures
        pos < s.len() && s[pos] == '"',
        json_unescape(s.subrange(pos + 1, s.len() as int)) == Some(
            (t, json_escape(t).len() + 1 as int),
        ),
{
    let region = s.subrange(pos, pos + json_string(t).len());
    assert(region[0] == s[pos] && region[0] == '"');
    let rest2 = s.subrange(pos + json_string(t).len(), s.len() as int);
    assert(forall|j: int| 0 <= j < json_string(t).len() ==> region[j] == s[pos + j]);
    assert(forall|j: int|
        0 <= j < json_escape(t).len() ==> json_string(t)[j + 1] == json_escape(t)[j]);
    assert(json_string(t)[json_escape(t).len() as int + 1] == '"');
    assert(s.subrange(pos + 1, s.len() as int) =~= json_escape(t) + seq!['"'] + rest2);
    lemma_json_unescape_escape(t, rest2);
}

/// Reads one JSON string literal starting at `pos`, undoing the escapes
/// `json_escape_char` produces by letter (the `\u00..` form is not read:
/// such a literal is rejected). What was consumed is exactly the canonical
/// serialization of what is returned, and a canonical literal of plain text
/// is always read back whole.
fn parse_json_string_at(s: &str, pos: usize) -> (r: Option<(String, usize)>)
    requires
        pos <= s@.len(),
    ensures
        match r {
            Some(p) => pos < p.1 <= s@.len() && s@.subrange(pos as int, p.1 as int) == json_string(
                p.0@,
            ),
            None => true,
        },
        forall|t: Seq<char>|
            #![trigger json_string(t)]
            (plain_text(t) && pos + json_string(t).len() <= s@.len() && s@.subrange(
                pos as int,
                pos + json_string(t).len() as int,
            ) == json_string(t)) ==> (match r {
                Some(p) => p.0@ == t && p.1 == pos + json_string(t).len(),
                None => false,
            }),
{
    let n = s.unicode_len();
    if pos >= n || s.get_char(pos) != '"' {
        proof {
            assert forall|t: Seq<char>|
                plain_text(t) && pos + json_string(t).len() <= s@.len() && s@.subrange(
                    pos as int,
                    pos + json_string(t).len() as int,
                ) == json_string(t) implies false by {
                lemma_canonical_string_at(s@, pos as int, t);
            }
        }
        return None;
    }
    let mut acc = String::new();
    let mut i: usize = pos + 1;
    proof {
        assert(s@.subrange(pos + 1, i as int) =~= json_escape(acc@));
        match json_unescape(s@.subrange(pos + 1, s@.len() as int)) {
            Option::Some(t) => {
                assert(acc@ + t.0 =~= t.0);
            },
            Option::None => {},
        }
    }
    while i < n
        invariant
            n == s@.len(),
            pos < i <= n,
            s@[pos as int] == '"',
            s@.subrange(pos + 1, i as int) == json_escape(acc@),
            match json_unescape(s@.subrange(i as int, n as int)) {
                Some(t) => json_unescape(s@.subrange(pos + 1, n as int)) == Some(
                    (acc@ + t.0, i - pos - 1 + t.1),
                ),
                None => json_unescape(s@.subrange(pos + 1, n as int)) is None,
            },
        decreases n - i,
    {
        let ghost w = s@.subrange(i as int, n as int);
        let c = s.get_char(i);
        proof {
            assert(w[0] == c);
        }
        if c == '"' {
            proof {
                assert(s@.subrange(pos as int, i + 1) =~= seq!['"'] + json_escape(acc@)
                    + seq!['"']);
                assert(s@.subrange(pos as int, i + 1) =~= json_string(acc@));
                assert(json_unescape(w) == Some((Seq::<char>::empty(), 1 as int)));
                assert(acc@ + Seq::<char>::empty() =~= acc@);
                assert(json_unescape(s@.subrange(pos + 1, n as int)) == Some(
                    (acc@, i - pos as int),
                ));
                assert forall|t: Seq<char>|
                    plain_text(t) && pos + json_string(t).len() <= s@.len() && s@.subrange(
                        pos as int,
                        pos + json_string(t).len() as int,
                    ) == json_string(t) implies acc@ == t && i + 1 == pos + json_string(
                    t,
                ).len() by {
                    lemma_canonical_string_at(s@, pos as int, t);
                }
            }
            return Some((acc, i + 1));
        } else if c == '\\' {
            if i + 1 >= n {
                proof {
                    assert(json_unescape(w) is None);
                    assert forall|t: Seq<char>|
                        plain_text(t) && pos + json_string(t).len() <= s@.len() && s@.subrange(
                            pos as int,
                            pos + json_string(t).len() as int,
                        ) == json_string(t) implies false by {
                        lemma_canonical_string_at(s@, pos as int, t);
                    }
                }
                return None;
            }
            let e = s.get_char(i + 1);
            proof {
                assert(w.len() >= 2 && w[1] == e);
            }
            if !(e == '"' || e == '\\' || e == 'n' || e == 'r' || e == 't') {
                proof {
                    assert(json_unescape(w) is None);
                    assert forall|t: Seq<char>|
                        plain_text(t) && pos + json_string(t).len() <= s@.len() && s@.subrange(
                            pos as int,
                            pos + json_string(t).len() as int,
                        ) == json_string(t) implies false by {
                        lemma_canonical_string_at(s@, pos as int, t);
                    }
                }
                return None;
            }
            let decoded: char = if e == '"' {
                '"'
            } else if e == '\\' {
                '\\'
            } else if e == 'n' {
                '\n'
            } else if e == 'r' {
                '\r'
            } else {
                '\t'
            };
            let ghost acc_before = acc@;
            crate::text::push_char(&mut acc, decoded);
            proof {
                lemma_json_escape_snoc(acc_before, decoded);
                assert(acc@ =~= acc_before.push(decoded));
                assert(json_escape_char(decoded) =~= seq!['\\', e]);
                assert(s@.subrange(pos + 1, i + 2) =~= json_escape(acc@));
                let w2 = s@.subrange(i + 2, n as int);
                assert(w.subrange(2, w.len() as int) =~= w2);
                assert(json_unescape(w) == (match json_unescape(w2) {
                    Some(t) => Some((seq![decoded] + t.0, t.1 + 2 as int)),
                    None => None,
                }));
                match json_unescape(w2) {
                    Option::Some(t) => {
                        assert(acc_before + (seq![decoded] + t.0) =~= acc@ + t.0);
                    },
                    Option::None => {},
                }
            }
            i += 2;
        } else if (c as u32) < 32 {
            proof {
                assert(json_unescape(w) is None);
                assert forall|t: Seq<char>|
                    plain_text(t) && pos + json_string(t).len() <= s@.len() && s@.subrange(
                        pos as int,
                        pos + json_string(t).len() as int,
                    ) == json_string(t) implies false by {
                    lemma_canonical_string_at(s@, pos as int, t);
                }
            }
            return None;
        } else {
            let ghost acc_before = acc@;
            crate::text::push_char(&mut acc, c);
            proof {
                lemma_json_escape_snoc(acc_before, c);
                assert(acc@ =~= acc_before.push(c));
                assert(json_escape_char(c) =~= seq![c]);
                assert(s@.subrange(pos + 1, i + 1) =~= json_escape(acc@));
                let w2 = s@.subrange(i + 1, n as int);
                assert(w.drop_first() =~= w2);
                assert(json_unescape(w) == (match json_unescape(w2) {
                    Some(t) => Some((seq![c] + t.0, t.1 + 1 as int)),
                    None => None,
                }));
                match json_unescape(w2) {
                    Option::Some(t) => {
                        assert(acc_before + (seq![c] + t.0) =~= acc@ + t.0);
                    },
                    Option::None => {},
                }
            }
            i += 1;
        }
    }
    proof {
        assert(s@.subrange(i as int, n as int) =~= Seq::<char>::empty());
        assert(json_unescape(s@.subrange(i as int, n as int)) is None);
        assert forall|t: Seq<char>|
            plain_text(t) && pos + json_string(t).len() <= s@.len() && s@.subrange(
                pos as int,
                pos + json_string(t).len() as int,
            ) == json_string(t) implies false by {
            lemma_canonical_string_at(s@, pos as int, t);
        }
    }
    None
}

/// The input is the canonical serialization of some well-formed
/// configuration whose texts use only the letter escapes.
pub open spec fn canonical_config_text(s: Seq<char>, c: Config) -> bool {
    &&& c.wf()
    &&& plain_text(c.command@)
    &&& plain_text(c.terminal.spec_name())
    &&& s == config_json_spec(c)
}

/// Where each piece of a canonical serialization sits: the five literals
/// and four string literals, at positions determined by the field lengths.
proof fn lemma_canonical_config_layout(s: Seq<char>, c: Config)
    requires
        canonical_config_text(s, c),
    ensures
        ({
            let l1 = "{\"command\":"@;
            let l2 = ",\"group_open_by\":"@;
            let l3 = ",\"terminal\":{"@;
            let l4 = ":"@;
            let l5 = "}}"@;
            let q1 = l1.len() as int;
            let q2 = q1 + json_string(c.command@).len();
            let q3 = q2 + l2.len();
            let q4 = q3 + json_string(c.group_open_by.spec_name()).len();
            let q5 = q4 + l3.len();
            let q6 = q5 + json_string(terminal_tag(c.terminal)).len();
            let q7 = q6 + l4.len();
            let q8 = q7 + json_string(c.terminal.spec_name()).len();
            let q9 = q8 + l5.len();
            &&& s.len() == q9
            &&& s.subrange(0, q1) == l1
            &&& s.subrange(q1, q2) == json_string(c.command@)
            &&& s.subrange(q2, q3) == l2
            &&& s.subrange(q3, q4) == json_string(c.group_open_by.spec_name())
            &&& s.subrange(q4, q5) == l3
            &&& s.subrange(q5, q6) == json_string(terminal_tag(c.terminal))
            &&& s.subrange(q6, q7) == l4
            &&& s.subrange(q7, q8) == json_string(c.terminal.spec_name())
            &&& s.subrange(q8, q9) == l5
            &&& plain_text(c.group_open_by.spec_name())
            &&& plain_text(terminal_tag(c.terminal))
        }),
{
    let l1 = "{\"command\":"@;
    let l2 = ",\"group_open_by\":"@;
    let l3 = ",\"terminal\":{"@;
    let l4 = ":"@;
    let l5 = "}}"@;
    let q1 = l1.len() as int;
    let q2 = q1 + json_string(c.command@).len();
    let q3 = q2 + l2.len();
    let q4 = q3 + json_string(c.group_open_by.spec_name()).len();
    let q5 = q4 + l3.len();
    let q6 = q5 + json_string(terminal_tag(c.terminal)).len();
    let q7 = q6 + l4.len();
    let q8 = q7 + json_string(c.terminal.spec_name()).len();
    let q9 = q8 + l5.len();
    let t8 = json_string(c.terminal.spec_name()) + l5;
    let t7 = l4 + t8;
    let t6 = json_string(terminal_tag(c.terminal)) + t7;
    let t5 = l3 + t6;
    let t4 = json_string(c.group_open_by.spec_name()) + t5;
    let t3 = l2 + t4;
    let t2 = json_string(c.command@) + t3;
    assert(s =~= l1 + t2);
    assert(s.subrange(0, q1) =~= l1);
    assert(s.subrange(q1, s.len() as int) =~= t2);
    assert(s.subrange(q1, q2) =~= json_string(c.command@));
    assert(s.subrange(q2, s.len() as int) =~= t3);
    assert(s.subrange(q2, q3) =~= l2);
    assert(s.subrange(q3, s.len() as int) =~= t4);
    assert(s.subrange(q3, q4) =~= json_string(c.group_open_by.spec_name()));
    assert(s.subrange(q4, s.len() as int) =~= t5);
    assert(s.subrange(q4, q5) =~= l3);
    assert(s.subrange(q5, s.len() as int) =~= t6);
    assert(s.subrange(q5, q6) =~= json_string(terminal_tag(c.terminal)));
    assert(s.subrange(q6, s.len() as int) =~= t7);
    assert(s.subrange(q6, q7) =~= l4);
    assert(s.subrange(q7, s.len() as int) =~= t8);
    assert(s.subrange(q7, q8) =~= json_string(c.terminal.spec_name()));
    assert(s.subrange(q8, s.len() as int) =~= l5);
    assert(s.subrange(q8, q9) =~= l5);
    assert(plain_text(c.group_open_by.spec_name())) by {
        reveal_strlit("all");
        reveal_strlit("none");
    }
    assert(plain_text(terminal_tag(c.terminal))) by {
        reveal_strlit("Supported");
        reveal_strlit("Generic");
    }
}

/// The boundaries of a canonical serialization, by field lengths.
pub open spec fn pos_cmd() -> int {
    "{\"command\":"@.len() as int
}

pub open spec fn pos_l2(c: Config) -> int {
    pos_cmd() + json_string(c.command@).len()
}

pub open spec fn pos_group(c: Config) -> int {
    pos_l2(c) + ",\"group_open_by\":"@.len()
}

pub open spec fn pos_l3(c: Config) -> int {
    pos_group(c) + json_string(c.group_open_by.spec_name()).len()
}

pub open spec fn pos_tag(c: Config) -> int {
    pos_l3(c) + ",\"terminal\":{"@.len()
}

pub open spec fn pos_colon(c: Config) -> int {
    pos_tag(c) + json_string(terminal_tag(c.terminal)).len()
}

pub open spec fn pos_name(c: Config) -> int {
    pos_colon(c) + ":"@.len()
}

pub open spec fn pos_l5(c: Config) -> int {
    pos_name(c) + json_string(c.terminal.spec_name()).len()
}

pub open spec fn config_json_len(c: Config) -> int {
    pos_l5(c) + "}}"@.len()
}

proof fn lemma_layout_l1(s: Seq<char>, c: Config)
    requires
        canonical_config_text(s, c),
    ensures
        pos_cmd() <= s.len(),
        s.subrange(0, pos_cmd()) == "{\"command\":"@,
{
    lemma_canonical_config_layout(s, c);
}

proof fn lemma_layout_cmd(s: Seq<char>, c: Config)
    requires
        canonical_config_text(s, c),
    ensures
        pos_cmd() + json_string(c.command@).len() <= s.len(),
        s.subrange(pos_cmd(), pos_l2(c)) == json_string(c.command@),
{
    lemma_canonical_config_layout(s, c);
}

proof fn lemma_layout_l2(s: Seq<char>, c: Config)
    requires
        canonical_config_text(s, c),
    ensures
        pos_group(c) <= s.len(),
        s.subrange(pos_l2(c), pos_group(c)) == ",\"group_open_by\":"@,
{
    lemma_canonical_config_layout(s, c);
}

proof fn lemma_layout_group(s: Seq<char>, c: Config)
    requires
        canonical_config_text(s, c),
    ensures
        pos_l3(c) <= s.len(),
        s.subrange(pos_group(c), pos_l3(c)) == json_string(c.group_open_by.spec_name()),
        plain_text(c.group_open_by.spec_name()),
{
    lemma_canonical_config_layout(s, c);
}

proof fn lemma_layout_l3(s: Seq<char>, c: Config)
    requires
        canonical_config_text(s, c),
    ensures
        pos_tag(c) <= s.len(),
        s.subrange(pos_l3(c), pos_tag(c)) == ",\"terminal\":{"@,
{
    lemma_canonical_config_layout(s, c);
}

proof fn lemma_layout_tag(s: Seq<char>, c: Config)
    requires
        canonical_config_text(s, c),
    ensures
        pos_colon(c) <= s.len(),
        s.subrange(pos_tag(c), pos_colon(c)) == json_string(terminal_tag(c.terminal)),
        plain_text(terminal_tag(c.terminal)),
{
    lemma_canonical_config_layout(s, c);
}

proof fn lemma_layout_colon(s: Seq<char>, c: Config)
    requires
        canonical_config_text(s, c),
    ensures
        pos_name(c) <= s.len(),
        s.subrange(pos_colon(c), pos_name(c)) == ":"@,
{
    lemma_canonical_config_layout(s, c);
}

proof fn lemma_layout_name(s: Seq<char>, c: Config)
    requires
        canonical_config_text(s, c),
    ensures
        pos_l5(c) <= s.len(),
        s.subrange(pos_name(c), pos_l5(c)) == json_string(c.terminal.spec_name()),
        plain_text(c.terminal.spec_name()),
{
    lemma_canonical_config_layout(s, c);
}

proof fn lemma_layout_l5(s: Seq<char>, c: Config)
    requires
        canonical_config_text(s, c),
    ensures
        s.len() == config_json_len(c),
        s.subrange(pos_l5(c), config_json_len(c)) == "}}"@,
{
    lemma_canonical_config_layout(s, c);
}

/// Consumed regions that tile the whole input assemble back into the
/// canonical serialization of the parsed configuration.
proof fn lemma_assemble_config_json(
    s: Seq<char>,
    c: Config,
    p1: int,
    p2: int,
    p3: int,
    p4: int,
    p5: int,
    p6: int,
    p7: int,
    p8: int,
)
    requires
        0 <= p1 <= p2 <= p3 <= p4 <= p5 <= p6 <= p7 <= p8 <= s.len(),
        s.subrange(0, p1) == "{\"command\":"@,
        s.subrange(p1, p2) == json_string(c.command@),
        s.subrange(p2, p3) == ",\"group_open_by\":"@,
        s.subrange(p3, p4) == json_string(c.group_open_by.spec_name()),
        s.subrange(p4, p5) == ",\"terminal\":{"@,
        s.subrange(p5, p6) == json_string(terminal_tag(c.terminal)),
        s.subrange(p6, p7) == ":"@,
        s.subrange(p7, p8) == json_string(c.terminal.spec_name()),
        s.subrange(p8, s.len() as int) == "}}"@,
    ensures
        s == config_json_spec(c),
{
    assert(s =~= s.subrange(0, p1) + s.subrange(p1, p2) + s.subrange(p2, p3) + s.subrange(p3, p4)
        + s.subrange(p4, p5) + s.subrange(p5, p6) + s.subrange(p6, p7) + s.subrange(p7, p8)
        + s.subrange(p8, s.len() as int));
    assert(s =~= config_json_spec(c));
}

impl Config {
    /// Reads a configuration back from its serialized form. What is
    /// accepted is exactly the canonical serialization: a success means the
    /// whole input is `config_json_spec` of the returned configuration, so
    /// nothing can be read back changed, and every canonical serialization
    /// of a well-formed, plain-text configuration is accepted. The one
    /// semantic check of loading — the command must not be empty — is made
    /// too.
    #[verifier::rlimit(100)]
    pub fn from_json(s: &str) -> (r: Result<Config, String>)
        ensures
            r matches Ok(c) ==> c.wf() && s@ == config_json_spec(c),
            forall|c: Config| canonical_config_text(s@, c) ==> r is Ok,
    {
        let n = s.unicode_len();
        let p1 = match expect_lit(s, 0, "{\"command\":") {
            Option::Some(p) => p,
            Option::None => {
                proof {
                    assert forall|c: Config| canonical_config_text(s@, c) implies false by {
                        lemma_layout_l1(s@, c);
                    }
                }
                return Err(String::from_str("invalid config JSON"));
            },
        };
        let (command, p2) = match parse_json_string_at(s, p1) {
            Option::Some(p) => p,
            Option::None => {
                proof {
                    assert forall|c: Config| canonical_config_text(s@, c) implies false by {
                        lemma_layout_cmd(s@, c);
                    }
                }
                return Err(String::from_str("invalid config JSON"));
            },
        };
        let p3 = match expect_lit(s, p2, ",\"group_open_by\":") {
            Option::Some(p) => p,
            Option::None => {
                proof {
                    assert forall|c: Config| canonical_config_text(s@, c) implies false by {
                        lemma_layout_cmd(s@, c);
                        assert(p2 == pos_l2(c));
                        lemma_layout_l2(s@, c);
                    }
                }
                return Err(String::from_str("invalid config JSON"));
            },
        };
        let (group, p4) = match parse_json_string_at(s, p3) {
            Option::Some(p) => p,
            Option::None => {
                proof {
                    assert forall|c: Config| canonical_config_text(s@, c) implies false by {
                        lemma_layout_cmd(s@, c);
                        assert(p3 == pos_group(c));
                        lemma_layout_group(s@, c);
                    }
                }
                return Err(String::from_str("invalid config JSON"));
            },
        };
        let group_open_by = if crate::text::str_eq(group.as_str(), "all") {
            GroupBy::All
        } else if crate::text::str_eq(group.as_str(), "none") {
            GroupBy::PerFile
        } else {
            proof {
                assert forall|c: Config| canonical_config_text(s@, c) implies false by {
                    lemma_layout_cmd(s@, c);
                    assert(p3 == pos_group(c));
                    lemma_layout_group(s@, c);
                    assert(group@ == c.group_open_by.spec_name());
                }
            }
            return Err(String::from_str("invalid config JSON"));
        };
        let p5 = match expect_lit(s, p4, ",\"terminal\":{") {
            Option::Some(p) => p,
            Option::None => {
                proof {
                    assert forall|c: Config| canonical_config_text(s@, c) implies false by {
                        lemma_layout_cmd(s@, c);
                        assert(p3 == pos_group(c));
                        lemma_layout_group(s@, c);
                        assert(p4 == pos_l3(c));
                        lemma_layout_l3(s@, c);
                    }
                }
                return Err(String::from_str("invalid config JSON"));
            },
        };
        let (tag, p6) = match parse_json_string_at(s, p5) {
            Option::Some(p) => p,
            Option::None => {
                proof {
                    assert forall|c: Config| canonical_config_text(s@, c) implies false by {
                        lemma_layout_cmd(s@, c);
                        assert(p3 == pos_group(c));
                        lemma_layout_group(s@, c);
                        assert(p5 == pos_tag(c));
                        lemma_layout_tag(s@, c);
                    }
                }
                return Err(String::from_str("invalid config JSON"));
            },
        };
        let p7 = match expect_lit(s, p6, ":") {
            Option::Some(p) => p,
            Option::None => {
                proof {
                    assert forall|c: Config| canonical_config_text(s@, c) implies false by {
                        lemma_layout_cmd(s@, c);
                        assert(p3 == pos_group(c));
                        lemma_layout_group(s@, c);
                        assert(p5 == pos_tag(c));
                        lemma_layout_tag(s@, c);
                        assert(p6 == pos_colon(c));
                        lemma_layout_colon(s@, c);
                    }
                }
                return Err(String::from_str("invalid config JSON"));
            },
        };
        let (name, p8) = match parse_json_string_at(s, p7) {
            Option::Some(p) => p,
            Option::None => {
                proof {
                    assert forall|c: Config| canonical_config_text(s@, c) implies false by {
                        lemma_layout_cmd(s@, c);
                        assert(p3 == pos_group(c));
                        lemma_layout_group(s@, c);
                        assert(p5 == pos_tag(c));
                        lemma_layout_tag(s@, c);
                        assert(p7 == pos_name(c));
                        lemma_layout_name(s@, c);
                    }
                }
                return Err(String::from_str("invalid config JSON"));
            },
        };
        let p9 = match expect_lit(s, p8, "}}") {
            Option::Some(p) => p,
            Option::None => {
                proof {
                    assert forall|c: Config| canonical_config_text(s@, c) implies false by {
                        lemma_layout_cmd(s@, c);
                        assert(p3 == pos_group(c));
                        lemma_layout_group(s@, c);
                        assert(p5 == pos_tag(c));
                        lemma_layout_tag(s@, c);
                        assert(p7 == pos_name(c));
                        lemma_layout_name(s@, c);
                        assert(p8 == pos_l5(c));
                        lemma_layout_l5(s@, c);
                    }
                }
                return Err(String::from_str("invalid config JSON"));
            },
        };
        if p9 != n {
            proof {
                assert forall|c: Config| canonical_config_text(s@, c) implies false by {
                    lemma_layout_cmd(s@, c);
                    assert(p3 == pos_group(c));
                    lemma_layout_group(s@, c);
                    assert(p5 == pos_tag(c));
                    lemma_layout_tag(s@, c);
                    assert(p7 == pos_name(c));
                    lemma_layout_name(s@, c);
                    assert(p8 == pos_l5(c));
                    lemma_layout_l5(s@, c);
                    assert(p9 == config_json_len(c));
                }
            }
            return Err(String::from_str("invalid config JSON"));
        }
        let is_supported_tag = crate::text::str_eq(tag.as_str(), "Supported");
        if !is_supported_tag && !crate::text::str_eq(tag.as_str(), "Generic") {
            proof {
                assert forall|c: Config| canonical_config_text(s@, c) implies false by {
                    lemma_layout_cmd(s@, c);
                    assert(p3 == pos_group(c));
                    lemma_layout_group(s@, c);
                    assert(p5 == pos_tag(c));
                    lemma_layout_tag(s@, c);
                    assert(tag@ == terminal_tag(c.terminal));
                }
            }
            return Err(String::from_str("invalid config JSON"));
        }
        if command.as_str().unicode_len() == 0 {
            proof {
                assert forall|c: Config| canonical_config_text(s@, c) implies false by {
                    lemma_layout_cmd(s@, c);
                    assert(command@ == c.command@);
                }
            }
            return Err(String::from_str("Config's 'command' field may not be empty"));
        }
        let ghost group_view = group@;
        let ghost tag_view = tag@;
        let terminal = if is_supported_tag {
            TerminalApp::Supported(name)
        } else {
            TerminalApp::Generic(name)
        };
        proof {
            assert(group_view == (match group_open_by {
                GroupBy::All => "all"@,
                GroupBy::PerFile => "none"@,
            }));
            assert(tag_view == (match terminal {
                TerminalApp::Supported(_) => "Supported"@,
                TerminalApp::Generic(_) => "Generic"@,
            }));
        }
        let c = Config { command, group_open_by, terminal };
        proof {
            lemma_assemble_config_json(
                s@,
                c,
                p1 as int,
                p2 as int,
                p3 as int,
                p4 as int,
                p5 as int,
                p6 as int,
                p7 as int,
                p8 as int,
            );
        }
        Ok(c)
    }

    /// Serializes the configuration for the bundle's resources, exactly as
    /// `config_json_spec` says.
    pub fn to_json(&self) -> (r: String)
        ensures
            r@ == config_json_spec(*self),
    {
        let mut out = String::from_str("{\"command\":");
        append_json_string(&mut out, self.command.as_str());
        out.append(",\"group_open_by\":");
        let g = self.group_open_by.to_string();
        append_json_string(&mut out, g.as_str());
        out.append(",\"terminal\":{");
        match &self.terminal {
            TerminalApp::Supported(_) => append_json_string(&mut out, "Supported"),
            TerminalApp::Generic(_) => append_json_string(&mut out, "Generic"),
        }
        out.append(":");
        append_json_string(&mut out, self.terminal.name());
        out.append("}}");
        out
    }
}

/// Text whose escaped form uses only the letter escapes: every character is
/// printable or one of the three common control characters.
pub open spec fn plain_text(s: Seq<char>) -> bool {
    forall|i: int|
        0 <= i < s.len() ==> ((s[i] as nat) >= 32 || s[i] == '\n' || s[i] == '\r' || s[i] == '\t')
}

/// How a reader undoes `json_escape` up to a closing quote: the decoded
/// text, and the position right after that quote.
pub open spec fn json_unescape(w: Seq<char>) -> Option<(Seq<char>, int)>
    decreases w.len(),
{
    if w.len() == 0 {
        None
    } else if w[0] == '"' {
        Some((Seq::empty(), 1))
    } else if w[0] == '\\' {
        if w.len() >= 2 && (w[1] == '"' || w[1] == '\\' || w[1] == 'n' || w[1] == 'r' || w[1]
            == 't') {
            let d = if w[1] == '"' {
                '"'
            } else if w[1] == '\\' {
                '\\'
            } else if w[1] == 'n' {
                '\n'
            } else if w[1] == 'r' {
                '\r'
            } else {
                '\t'
            };
            match json_unescape(w.subrange(2, w.len() as int)) {
                Some(t) => Some((seq![d] + t.0, t.1 + 2)),
                None => None,
            }
        } else {
            None
        }
    } else if (w[0] as nat) < 32 {
        None
    } else {
        match json_unescape(w.drop_first()) {
            Some(t) => Some((seq![w[0]] + t.0, t.1 + 1)),
            None => None,
        }
    }
}

/// Escaping round trip: reading the escaped form of plain text, up to its
/// closing quote, gives back exactly that text.
proof fn lemma_json_unescape_escape(s: Seq<char>, rest: Seq<char>)
    requires
        plain_text(s),
    ensures
        json_unescape(json_escape(s) + seq!['"'] + rest) == Some(
            (s, json_escape(s).len() + 1 as int),
        ),
    decreases s.len(),
{
    let w = json_escape(s) + seq!['"'] + rest;
    if s.len() == 0 {
        assert(json_escape(s) =~= Seq::<char>::empty());
        assert(w[0] == '"');
        assert(json_unescape(w) == Some((Seq::<char>::empty(), 1 as int)));
        assert(s =~= Seq::<char>::empty());
    } else {
        let c = s[0];
        let s2 = s.drop_first();
        assert(plain_text(s2));
        lemma_json_unescape_escape(s2, rest);
        let w2 = json_escape(s2) + seq!['"'] + rest;
        if c == '"' || c == '\\' || c == '\n' || c == '\r' || c == '\t' {
            let e = if c == '"' {
                '"'
            } else if c == '\\' {
                '\\'
            } else if c == '\n' {
                'n'
            } else if c == '\r' {
                'r'
            } else {
                't'
            };
            assert(json_escape_char(c) =~= seq!['\\', e]);
            assert(w =~= seq!['\\', e] + w2);
            assert(w[0] == '\\' && w[1] == e);
            assert(w.subrange(2, w.len() as int) =~= w2);
            assert(seq![c] + s2 =~= s);
        } else {
            assert((c as nat) >= 32);
            assert(json_escape_char(c) =~= seq![c]);
            assert(w =~= seq![c] + w2);
            assert(w[0] == c);
            assert(w.drop_first() =~= w2);
            assert(seq![c] + s2 =~= s);
        }
    }
}

/// A serialized string determines its content: whatever follows the two
/// literals, equal texts mean equal contents and equal tails.
proof fn lemma_json_string_prefix_injective(
    a: Seq<char>,
    b: Seq<char>,
    x: Seq<char>,
    y: Seq<char>,
)
    requires
        plain_text(a),
        plain_text(b),
        json_string(a) + x == json_string(b) + y,
    ensures
        a == b,
        x == y,
{
    let wa = json_string(a) + x;
    let wb = json_string(b) + y;
    assert(wa.subrange(1, wa.len() as int) =~= json_escape(a) + seq!['"'] + x);
    assert(wb.subrange(1, wb.len() as int) =~= json_escape(b) + seq!['"'] + y);
    lemma_json_unescape_escape(a, x);
    lemma_json_unescape_escape(b, y);
    assert(a == b && json_escape(a).len() == json_escape(b).len());
    assert(x =~= wa.subrange(json_escape(a).len() as int + 2, wa.len() as int));
    assert(y =~= wb.subrange(json_escape(b).len() as int + 2, wb.len() as int));
    assert(x =~= y);
}

/// Equal texts with one equal front part have equal remainders.
proof fn lemma_strip_prefix(p: Seq<char>, x: Seq<char>, y: Seq<char>)
    requires
        p + x == p + y,
    ensures
        x == y,
{
    assert(x =~= (p + x).subrange(p.len() as int, (p + x).len() as int));
    assert(y =~= (p + y).subrange(p.len() as int, (p + y).len() as int));
}

/// A configuration is read back unmodified: its serialized form determines
/// every field, so what `from_json` accepts — by its contract, exactly the
/// input's own serialization — can only be the configuration that was
/// written. Holds for plain-text commands and terminal names (anything
/// whose escaped form uses the letter escapes).
#[verifier::rlimit(100)]
pub proof fn lemma_config_json_injective(a: Config, b: Config)
    requires
        plain_text(a.command@),
        plain_text(a.terminal.spec_name()),
        plain_text(b.command@),
        plain_text(b.terminal.spec_name()),
        config_json_spec(a) == config_json_spec(b),
    ensures
        a.command@ == b.command@,
        a.group_open_by == b.group_open_by,
        a.terminal is Supported <==> b.terminal is Supported,
        a.terminal.spec_name() == b.terminal.spec_name(),
{
    reveal_strlit("all");
    reveal_strlit("none");
    reveal_strlit("Supported");
    reveal_strlit("Generic");
    let l1 = "{\"command\":"@;
    let l2 = ",\"group_open_by\":"@;
    let l3 = ",\"terminal\":{"@;
    let l4 = ":"@;
    let l5 = "}}"@;
    let tag_a = match a.terminal {
        TerminalApp::Supported(_) => "Supported"@,
        TerminalApp::Generic(_) => "Generic"@,
    };
    let tag_b = match b.terminal {
        TerminalApp::Supported(_) => "Supported"@,
        TerminalApp::Generic(_) => "Generic"@,
    };
    let na4 = json_string(a.terminal.spec_name()) + l5;
    let na3 = l4 + na4;
    let ta4 = json_string(tag_a) + na3;
    let ta3 = l3 + ta4;
    let ga4 = json_string(a.group_open_by.spec_name()) + ta3;
    let ga3 = l2 + ga4;
    let ca = json_string(a.command@) + ga3;
    assert(config_json_spec(a) =~= l1 + ca);
    let nb4 = json_string(b.terminal.spec_name()) + l5;
    let nb3 = l4 + nb4;
    let tb4 = json_string(tag_b) + nb3;
    let tb3 = l3 + tb4;
    let gb4 = json_string(b.group_open_by.spec_name()) + tb3;
    let gb3 = l2 + gb4;
    let cb = json_string(b.command@) + gb3;
    assert(config_json_spec(b) =~= l1 + cb);
    lemma_strip_prefix(l1, ca, cb);
    lemma_json_string_prefix_injective(a.command@, b.command@, ga3, gb3);
    lemma_strip_prefix(l2, ga4, gb4);
    assert(plain_text(a.group_open_by.spec_name()));
    assert(plain_text(b.group_open_by.spec_name()));
    lemma_json_string_prefix_injective(
        a.group_open_by.spec_name(),
        b.group_open_by.spec_name(),
        ta3,
        tb3,
    );
    assert(a.group_open_by == b.group_open_by) by {
        if a.group_open_by != b.group_open_by {
            assert("all"@.len() != "none"@.len());
        }
    }
    lemma_strip_prefix(l3, ta4, tb4);
    assert(plain_text(tag_a));
    assert(plain_text(tag_b));
    lemma_json_string_prefix_injective(tag_a, tag_b, na3, nb3);
    assert((a.terminal is Supported) <==> (b.terminal is Supported)) by {
        if (a.terminal is Supported) != (b.terminal is Supported) {
            assert("Supported"@.len() != "Generic"@.len());
        }
    }
    lemma_strip_prefix(l4, na4, nb4);
    lemma_json_string_prefix_injective(
        a.terminal.spec_name(),
        b.terminal.spec_name(),
        l5,
        l5,
    );
}

} // verus!
