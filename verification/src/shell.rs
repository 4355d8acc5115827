//! Quoting of arguments for a POSIX shell command line.

use vstd::prelude::*;
use crate::text::{chars_of, is_ascii_alnum, push_all, string_of};

verus! {

/// Characters that a POSIX shell reads literally outside quotes.
pub open spec fn is_portable_char(c: char) -> bool {
    is_ascii_alnum(c) || c == '_' || c == '@' || c == '%' || c == '+' || c == '=' || c == ':'
        || c == ',' || c == '.' || c == '/' || c == '-'
}

/// A non-empty argument made of portable characters only.
pub open spec fn is_portable(s: Seq<char>) -> bool {
    s.len() > 0 && forall|i: int| 0 <= i < s.len() ==> is_portable_char(#[trigger] s[i])
}

/// The text that stands for one single quote inside a single-quoted word:
/// close the quotes, a double-quoted single quote, reopen the quotes.
pub open spec fn escaped_quote() -> Seq<char> {
    seq!['\'', '"', '\'', '"', '\'']
}

/// `s` with every single quote replaced by `escaped_quote()`.
pub open spec fn escape_quotes(s: Seq<char>) -> Seq<char>
    decreases s.len(),
{
    if s.len() == 0 {
        Seq::empty()
    } else {
        escape_quotes(s.drop_last()) + (if s.last() == '\'' {
            escaped_quote()
        } else {
            seq![s.last()]
        })
    }
}

/// The quoted form of an argument.
pub open spec fn quote_spec(s: Seq<char>) -> Seq<char> {
    if is_portable(s) {
        s
    } else {
        seq!['\''] + escape_quotes(s) + seq!['\'']
    }
}

fn is_portable_char_exec(c: char) -> (r: bool)
    ensures
        r == is_portable_char(c),
{
    ('a' <= c && c <= 'z') || ('A' <= c && c <= 'Z') || ('0' <= c && c <= '9') || c == '_' || c
        == '@' || c == '%' || c == '+' || c == '=' || c == ':' || c == ',' || c == '.' || c == '/'
        || c == '-'
}

/// Quotes one argument for a POSIX-compatible shell command.  A non-empty
/// argument of portable characters is returned unchanged; any other is
/// single-quoted, each embedded single quote written as `'"'"'`.
pub fn quote_shell_argument(argument: &str) -> (r: String)
    ensures
        r@ == quote_spec(argument@),
{
    let v = chars_of(argument);
    let mut portable = v.len() > 0;
    let mut i: usize = 0;
    while i < v.len()
        invariant
            i <= v.len(),
            v@ == argument@,
            portable == (v.len() > 0 && forall|k: int| 0 <= k < i ==> is_portable_char(
                #[trigger] v@[k],
            )),
        decreases v.len() - i,
    {
        if !is_portable_char_exec(v[i]) {
            portable = false;
        }
        i = i + 1;
    }
    if portable {
        return string_of(v.as_slice());
    }
    let mut out: Vec<char> = Vec::new();
    out.push('\'');
    let mut j: usize = 0;
    while j < v.len()
        invariant
            j <= v.len(),
            v@ == argument@,
            out@ == seq!['\''] + escape_quotes(v@.subrange(0, j as int)),
        decreases v.len() - j,
    {
        let ghost pre = v@.subrange(0, j as int);
        assert(v@.subrange(0, j + 1).drop_last() == pre);
        if v[j] == '\'' {
            let q = ['\'', '"', '\'', '"', '\''];
            assert(q@ == escaped_quote());
            push_all(&mut out, &q);
        } else {
            out.push(v[j]);
        }
        assert(out@ == seq!['\''] + escape_quotes(v@.subrange(0, j + 1)));
        j = j + 1;
    }
    out.push('\'');
    assert(v@.subrange(0, v.len() as int) == v@);
    string_of(out.as_slice())
}

/// Where a POSIX shell is while it reads a word: outside quotes, inside
/// single quotes, or inside double quotes.
#[derive(Debug, Clone, Copy, PartialEq, Eq, Structural)]
pub enum QuoteState {
    Plain,
    Single,
    Double,
}

/// `c` put in front of a word read so far, if it could be read.
pub open spec fn read_prepend(c: char, o: Option<Seq<char>>) -> Option<Seq<char>> {
    match o {
        Some(v) => Some(seq![c] + v),
        None => None,
    }
}

/// `s` put in front of a word read so far, if it could be read.
pub open spec fn read_prepend_all(s: Seq<char>, o: Option<Seq<char>>) -> Option<Seq<char>> {
    match o {
        Some(v) => Some(s + v),
        None => None,
    }
}

/// The argument a POSIX shell reads from a word with no expansions in it,
/// starting in the given quoting state: outside quotes portable characters
/// stand for themselves and quotes open a quoted run; inside single quotes
/// everything but the closing quote is literal; inside double quotes
/// everything but the closing quote is literal, except `$`, a backquote and
/// a backslash, which would expand and are not read here (`None`, as is an
/// unterminated quote or any other character outside quotes).
pub open spec fn shell_read(w: Seq<char>, st: QuoteState) -> Option<Seq<char>>
    decreases w.len(),
{
    if w.len() == 0 {
        if st == QuoteState::Plain {
            Some(Seq::empty())
        } else {
            None
        }
    } else {
        let c = w[0];
        let rest = w.subrange(1, w.len() as int);
        match st {
            QuoteState::Plain => if c == '\'' {
                shell_read(rest, QuoteState::Single)
            } else if c == '"' {
                shell_read(rest, QuoteState::Double)
            } else if is_portable_char(c) {
                read_prepend(c, shell_read(rest, QuoteState::Plain))
            } else {
                None
            },
            QuoteState::Single => if c == '\'' {
                shell_read(rest, QuoteState::Plain)
            } else {
                read_prepend(c, shell_read(rest, QuoteState::Single))
            },
            QuoteState::Double => if c == '"' {
                shell_read(rest, QuoteState::Plain)
            } else if c == '$' || c == '`' || c == '\\' {
                None
            } else {
                read_prepend(c, shell_read(rest, QuoteState::Double))
            },
        }
    }
}

proof fn lemma_read_portable(s: Seq<char>, t: Seq<char>)
    requires
        forall|i: int| 0 <= i < s.len() ==> is_portable_char(#[trigger] s[i]),
    ensures
        shell_read(s + t, QuoteState::Plain) == read_prepend_all(s, shell_read(t, QuoteState::Plain)),
    decreases s.len(),
{
    if s.len() == 0 {
        assert(s + t =~= t);
        match shell_read(t, QuoteState::Plain) {
            Some(v) => assert(s + v =~= v),
            None => {},
        }
    } else {
        let s2 = s.subrange(1, s.len() as int);
        assert(is_portable_char(s[0]));
        assert forall|i: int| 0 <= i < s2.len() implies is_portable_char(#[trigger] s2[i]) by {
            assert(s2[i] == s[i + 1]);
        }
        lemma_read_portable(s2, t);
        assert((s + t).subrange(1, (s + t).len() as int) =~= s2 + t);
        assert((s + t)[0] == s[0]);
        match shell_read(t, QuoteState::Plain) {
            Some(v) => assert(seq![s[0]] + (s2 + v) =~= s + v),
            None => {},
        }
    }
}

proof fn lemma_escape_concat(a: Seq<char>, b: Seq<char>)
    ensures
        escape_quotes(a + b) == escape_quotes(a) + escape_quotes(b),
    decreases b.len(),
{
    if b.len() == 0 {
        assert(a + b =~= a);
        assert(escape_quotes(b) =~= Seq::empty());
        assert(escape_quotes(a) + escape_quotes(b) =~= escape_quotes(a));
    } else {
        lemma_escape_concat(a, b.drop_last());
        assert((a + b).drop_last() =~= a + b.drop_last());
        assert((a + b).last() == b.last());
        let tail = if b.last() == '\'' {
            escaped_quote()
        } else {
            seq![b.last()]
        };
        assert(escape_quotes(a) + escape_quotes(b.drop_last()) + tail =~= escape_quotes(a) + (
        escape_quotes(b.drop_last()) + tail));
    }
}

proof fn lemma_read_single(s: Seq<char>, t: Seq<char>)
    ensures
        shell_read(escape_quotes(s) + t, QuoteState::Single) == read_prepend_all(
            s,
            shell_read(t, QuoteState::Single),
        ),
    decreases s.len(),
{
    if s.len() == 0 {
        assert(escape_quotes(s) + t =~= t);
        match shell_read(t, QuoteState::Single) {
            Some(v) => assert(s + v =~= v),
            None => {},
        }
    } else {
        let c = s[0];
        let s2 = s.subrange(1, s.len() as int);
        assert(s =~= seq![c] + s2);
        lemma_escape_concat(seq![c], s2);
        assert(seq![c].drop_last() =~= Seq::<char>::empty());
        assert(escape_quotes(Seq::<char>::empty()) =~= Seq::<char>::empty());
        let head = if c == '\'' {
            escaped_quote()
        } else {
            seq![c]
        };
        assert(escape_quotes(seq![c]) =~= head);
        assert(escape_quotes(s) == head + escape_quotes(s2));
        lemma_read_single(s2, t);
        let x = escape_quotes(s2) + t;
        if c == '\'' {
            let w = escaped_quote() + x;
            assert(escape_quotes(s) + t =~= w);
            let w1 = w.subrange(1, w.len() as int);
            let w2 = w1.subrange(1, w1.len() as int);
            let w3 = w2.subrange(1, w2.len() as int);
            let w4 = w3.subrange(1, w3.len() as int);
            let w5 = w4.subrange(1, w4.len() as int);
            assert(w[0] == '\'' && w1[0] == '"' && w2[0] == '\'' && w3[0] == '"' && w4[0] == '\'');
            assert(w5 =~= x);
            assert(shell_read(w4, QuoteState::Plain) == shell_read(x, QuoteState::Single));
            assert(shell_read(w3, QuoteState::Double) == shell_read(x, QuoteState::Single));
            assert(shell_read(w2, QuoteState::Double) == read_prepend('\'', shell_read(x, QuoteState::Single)));
            assert(shell_read(w1, QuoteState::Plain) == read_prepend('\'', shell_read(x, QuoteState::Single)));
            assert(shell_read(w, QuoteState::Single) == read_prepend('\'', shell_read(x, QuoteState::Single)));
        } else {
            let w = seq![c] + x;
            assert(escape_quotes(s) + t =~= w);
            assert(w.subrange(1, w.len() as int) =~= x);
            assert(w[0] == c);
        }
        match shell_read(t, QuoteState::Single) {
            Some(v) => assert(seq![c] + (s2 + v) =~= s + v),
            None => {},
        }
    }
}

/// What a POSIX shell reads from a quoted argument is the argument itself,
/// whatever characters it holds.
pub proof fn lemma_quoted_argument_round_trips(s: Seq<char>)
    ensures
        shell_read(quote_spec(s), QuoteState::Plain) == Some(s),
{
    if is_portable(s) {
        lemma_read_portable(s, Seq::empty());
        assert(s + Seq::<char>::empty() =~= s);
        assert(shell_read(Seq::<char>::empty(), QuoteState::Plain) == Some(Seq::<char>::empty()));
    } else {
        let w = seq!['\''] + escape_quotes(s) + seq!['\''];
        assert(w.subrange(1, w.len() as int) =~= escape_quotes(s) + seq!['\'']);
        lemma_read_single(s, seq!['\'']);
        let q = seq!['\''];
        assert(q.subrange(1, 1) =~= Seq::<char>::empty());
        assert(shell_read(q, QuoteState::Single) == Some(Seq::<char>::empty()));
        assert(s + Seq::<char>::empty() =~= s);
    }
}

} // verus!
