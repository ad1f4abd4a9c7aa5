//! Shell quoting for paths embedded in composed scripts, with the statement
//! and proof of why it is safe: a POSIX shell reading the quoted form gets
//! back exactly the original characters, as a single word.

use vstd::prelude::*;

verus! {

/// The quoted form of one character: everything sits inside single quotes,
/// and a single quote itself is written `'\''` (close, escape, reopen).
pub open spec fn quote_char(c: char) -> Seq<char> {
    if c == '\'' {
        seq!['\'', '\\', '\'', '\'']
    } else {
        seq![c]
    }
}

pub open spec fn quoted_body(s: Seq<char>) -> Seq<char>
    decreases s.len(),
{
    if s.len() == 0 {
        Seq::empty()
    } else {
        quote_char(s[0]) + quoted_body(s.drop_first())
    }
}

/// The full quoted word: `'` + body + `'`.
pub open spec fn bash_quote_spec(s: Seq<char>) -> Seq<char> {
    seq!['\''] + quoted_body(s) + seq!['\'']
}

proof fn lemma_quoted_body_snoc(s: Seq<char>, c: char)
    ensures
        quoted_body(s.push(c)) == quoted_body(s) + quote_char(c),
    decreases s.len(),
{
    if s.len() == 0 {
        let t = s.push(c);
        assert(t.len() == 1 && t[0] == c);
        assert(t.drop_first() =~= Seq::<char>::empty());
        assert(quoted_body(t.drop_first()) =~= Seq::<char>::empty());
        assert(quoted_body(t) =~= quote_char(c));
        assert(quoted_body(s) =~= Seq::<char>::empty());
        assert(quoted_body(s.push(c)) =~= quoted_body(s) + quote_char(c));
    } else {
        assert(s.push(c).drop_first() =~= s.drop_first().push(c));
        lemma_quoted_body_snoc(s.drop_first(), c);
        assert(quoted_body(s.push(c)) =~= quoted_body(s) + quote_char(c));
    }
}

/// Quotes an arbitrary string for a POSIX shell, single-quote style.
pub fn bash_quote(s: &str) -> (r: String)
    ensures
        r@ == bash_quote_spec(s@),
{
    let n = s.unicode_len();
    let mut out = String::new();
    crate::text::push_char(&mut out, '\'');
    proof {
        assert(out@ =~= seq!['\''] + quoted_body(s@.subrange(0, 0)));
    }
    let mut i: usize = 0;
    while i < n
        invariant
            n == s@.len(),
            0 <= i <= n,
            out@ == seq!['\''] + quoted_body(s@.subrange(0, i as int)),
        decreases n - i,
    {
        let c = s.get_char(i);
        if c == '\'' {
            crate::text::push_char(&mut out, '\'');
            crate::text::push_char(&mut out, '\\');
            crate::text::push_char(&mut out, '\'');
            crate::text::push_char(&mut out, '\'');
        } else {
            crate::text::push_char(&mut out, c);
        }
        proof {
            lemma_quoted_body_snoc(s@.subrange(0, i as int), s@[i as int]);
            assert(s@.subrange(0, i + 1) =~= s@.subrange(0, i as int).push(s@[i as int]));
            assert(out@ =~= seq!['\''] + quoted_body(s@.subrange(0, i + 1)));
        }
        i += 1;
    }
    crate::text::push_char(&mut out, '\'');
    proof {
        assert(s@.subrange(0, n as int) =~= s@);
        assert(out@ =~= bash_quote_spec(s@));
    }
    out
}

/// Characters that end a word for a shell reading unquoted text.
pub open spec fn sh_word_break(c: char) -> bool {
    c == ' ' || c == '\t' || c == '\n' || c == ';'
}

pub open spec fn opt_prepend(p: Seq<char>, o: Option<Seq<char>>) -> Option<Seq<char>> {
    match o {
        Some(x) => Some(p + x),
        None => None,
    }
}

/// How a POSIX shell reads one complete word: single quotes toggle literal
/// mode, a backslash outside quotes escapes the next character, and an
/// unquoted word-break character means the text is not a single word.
/// `None` stands for "not one well-formed word".
pub open spec fn unquote_word(w: Seq<char>, in_sq: bool) -> Option<Seq<char>>
    decreases w.len(),
{
    if w.len() == 0 {
        if in_sq {
            None
        } else {
            Some(Seq::empty())
        }
    } else if in_sq {
        if w[0] == '\'' {
            unquote_word(w.drop_first(), false)
        } else {
            opt_prepend(seq![w[0]], unquote_word(w.drop_first(), true))
        }
    } else {
        if w[0] == '\'' {
            unquote_word(w.drop_first(), true)
        } else if w[0] == '\\' {
            if w.len() >= 2 {
                opt_prepend(seq![w[1]], unquote_word(w.subrange(2, w.len() as int), false))
            } else {
                None
            }
        } else if sh_word_break(w[0]) {
            None
        } else {
            opt_prepend(seq![w[0]], unquote_word(w.drop_first(), false))
        }
    }
}

proof fn lemma_body_unquote(s: Seq<char>, suffix: Seq<char>)
    ensures
        unquote_word(quoted_body(s) + suffix, true) == opt_prepend(s, unquote_word(suffix, true)),
    decreases s.len(),
{
    if s.len() == 0 {
        assert(quoted_body(s) + suffix =~= suffix);
        assert(opt_prepend(s, unquote_word(suffix, true)) == unquote_word(suffix, true)) by {
            match unquote_word(suffix, true) {
                Some(x) => {
                    assert(s + x =~= x);
                },
                None => {},
            }
        }
    } else {
        let c = s[0];
        let rest = s.drop_first();
        lemma_body_unquote(rest, suffix);
        let w = quoted_body(s) + suffix;
        if c == '\'' {
            // body(s) = ' \ ' ' + body(rest); the shell leaves quotes, takes
            // the escaped quote, and re-enters single-quote mode.
            assert(w[0] == '\'');
            let w1 = w.drop_first();
            assert(w1 =~= seq!['\\', '\'', '\''] + quoted_body(rest) + suffix);
            assert(w1[0] == '\\' && w1.len() >= 2 && w1[1] == '\'');
            let w2 = w1.subrange(2, w1.len() as int);
            assert(w2 =~= seq!['\''] + quoted_body(rest) + suffix);
            assert(w2[0] == '\'');
            let w3 = w2.drop_first();
            assert(w3 =~= quoted_body(rest) + suffix);
            assert(unquote_word(w, true) == unquote_word(w1, false));
            assert(unquote_word(w1, false) == opt_prepend(
                seq![w1[1]],
                unquote_word(w1.subrange(2, w1.len() as int), false),
            ));
            assert(unquote_word(w2, false) == unquote_word(w3, true));
            assert(unquote_word(w1, false) == opt_prepend(seq!['\''], unquote_word(w3, true)));
            match unquote_word(suffix, true) {
                Some(x) => {
                    assert(seq!['\''] + (rest + x) =~= s + x);
                },
                None => {},
            }
        } else {
            assert(w[0] == c);
            assert(w.drop_first() =~= quoted_body(rest) + suffix);
            match unquote_word(suffix, true) {
                Some(x) => {
                    assert(seq![c] + (rest + x) =~= s + x);
                },
                None => {},
            }
        }
    }
}

/// Quoting round trip: a POSIX shell reading the quoted form of any string
/// gets back exactly that string, as one single word.
pub proof fn lemma_quote_round_trip(s: Seq<char>)
    ensures
        unquote_word(bash_quote_spec(s), false) == Some(s),
{
    let w = bash_quote_spec(s);
    assert(w[0] == '\'');
    assert(w.drop_first() =~= quoted_body(s) + seq!['\'']);
    lemma_body_unquote(s, seq!['\'']);
    let tail = seq!['\''];
    assert(tail[0] == '\'');
    assert(tail.drop_first() =~= Seq::<char>::empty());
    assert(unquote_word(tail, true) == unquote_word(tail.drop_first(), false));
    assert(unquote_word(Seq::<char>::empty(), false) == Some(Seq::<char>::empty()));
    assert(unquote_word(tail, true) == Some(Seq::<char>::empty()));
    assert(s + Seq::<char>::empty() =~= s);
}

} // verus!
