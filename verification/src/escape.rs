//! The argument string codec: a text value travels on the wire with its
//! separator characters replaced by two-character escape pairs, and an
//! empty value as the single pair `\@`.  Encoding then decoding any
//! value is proved to be the identity.

use vstd::prelude::*;

use crate::msg::{is_arg_special, is_escape_code, valid_arg_seq, valid_argument};
use crate::strutil::push_char;

verus! {

/// A character that must travel as an escape pair.
pub open spec fn needs_escape(c: char) -> bool {
    c == '\\' || c == ' ' || c == '\u{0}' || c == '\n' || c == '\r' || c == '\u{1b}' || c == '\t'
}

/// The second character of the escape pair that stands for `c`.
pub open spec fn escape_code(c: char) -> char {
    if c == '\\' {
        '\\'
    } else if c == ' ' {
        '_'
    } else if c == '\u{0}' {
        '0'
    } else if c == '\n' {
        'n'
    } else if c == '\r' {
        'r'
    } else if c == '\u{1b}' {
        'e'
    } else {
        't'
    }
}

/// The character an escape code stands for.
pub open spec fn unescape_code(e: char) -> char {
    if e == '\\' {
        '\\'
    } else if e == '_' {
        ' '
    } else if e == '0' {
        '\u{0}'
    } else if e == 'n' {
        '\n'
    } else if e == 'r' {
        '\r'
    } else if e == 'e' {
        '\u{1b}'
    } else {
        '\t'
    }
}

/// The wire spelling of one character.
pub open spec fn esc_char(c: char) -> Seq<char> {
    if needs_escape(c) {
        seq!['\\', escape_code(c)]
    } else {
        seq![c]
    }
}

/// The wire spelling of a text value, character by character.
pub open spec fn escaped_of(s: Seq<char>) -> Seq<char>
    decreases s.len(),
{
    if s.len() == 0 {
        Seq::empty()
    } else {
        esc_char(s[0]) + escaped_of(s.skip(1))
    }
}

/// The decoding of a wire token: `None` where the token is not the
/// escaped form of any value.  The pair `\@` is not accepted inside a
/// token; it stands alone for the empty value (see [`parsed_str_arg`]).
pub open spec fn unescaped_of(s: Seq<char>) -> Option<Seq<char>>
    decreases s.len(),
{
    if s.len() == 0 {
        Some(Seq::empty())
    } else if s[0] == '\\' {
        if s.len() >= 2 && is_escape_code(s[1]) && s[1] != '@' {
            match unescaped_of(s.skip(2)) {
                Some(t) => Some(seq![unescape_code(s[1])] + t),
                None => None,
            }
        } else {
            None
        }
    } else if is_arg_special(s[0]) {
        None
    } else {
        match unescaped_of(s.skip(1)) {
            Some(t) => Some(seq![s[0]] + t),
            None => None,
        }
    }
}

/// The wire argument that carries a text value: `\@` for the empty
/// value, its escaped form otherwise.
pub open spec fn str_arg_of(t: Seq<char>) -> Seq<char> {
    if t.len() == 0 {
        seq!['\\', '@']
    } else {
        escaped_of(t)
    }
}

/// The text value a wire argument carries, if any.
pub open spec fn parsed_str_arg(s: Seq<char>) -> Option<Seq<char>> {
    if s == seq!['\\', '@'] {
        Some(Seq::empty())
    } else {
        unescaped_of(s)
    }
}

/// The escaped form of any value is a well-formed argument sequence.
pub proof fn lemma_escaped_wf(t: Seq<char>)
    ensures
        valid_arg_seq(escaped_of(t)),
        escaped_of(t).len() >= t.len(),
    decreases t.len(),
{
    if t.len() == 0 {
    } else {
        lemma_escaped_wf(t.skip(1));
        let rest = escaped_of(t.skip(1));
        if needs_escape(t[0]) {
            let s = escaped_of(t);
            assert(s[0] == '\\');
            assert(s[1] == escape_code(t[0]));
            assert(s.skip(2) =~= rest);
        } else {
            let s = escaped_of(t);
            assert(s[0] == t[0]);
            assert(s.skip(1) =~= rest);
        }
    }
}

/// The wire argument of any value is a well-formed, nonempty token.
pub proof fn lemma_str_arg_valid(t: Seq<char>)
    ensures
        valid_argument(str_arg_of(t)),
{
    if t.len() == 0 {
        let s = str_arg_of(t);
        assert(s.skip(2) =~= Seq::<char>::empty());
        assert(valid_arg_seq(s.skip(2)));
        assert(s[0] == '\\' && s[1] == '@');
        assert(valid_arg_seq(s));
    } else {
        lemma_escaped_wf(t);
        assert(escaped_of(t).len() > 0);
    }
}

/// Decoding inverts encoding: the wire spelling of any value carries
/// exactly that value back.
pub proof fn lemma_unescape_escape(t: Seq<char>)
    ensures
        unescaped_of(escaped_of(t)) == Some(t),
    decreases t.len(),
{
    if t.len() == 0 {
    } else {
        lemma_unescape_escape(t.skip(1));
        let s = escaped_of(t);
        let rest = escaped_of(t.skip(1));
        if needs_escape(t[0]) {
            assert(s[0] == '\\');
            assert(s[1] == escape_code(t[0]));
            assert(is_escape_code(escape_code(t[0])));
            assert(escape_code(t[0]) != '@');
            assert(unescape_code(escape_code(t[0])) == t[0]);
            assert(s.skip(2) =~= rest);
            assert(seq![t[0]] + t.skip(1) =~= t);
        } else {
            assert(s[0] == t[0]);
            assert(s[0] != '\\' && !is_arg_special(s[0]));
            assert(s.skip(1) =~= rest);
            assert(seq![t[0]] + t.skip(1) =~= t);
        }
    }
}

/// Parsing a wire argument yields exactly the value it was made from.
pub proof fn lemma_str_arg_round_trip(t: Seq<char>)
    ensures
        parsed_str_arg(str_arg_of(t)) == Some(t),
{
    if t.len() == 0 {
    } else {
        let s = escaped_of(t);
        lemma_unescape_escape(t);
        lemma_escaped_wf(t);
        if s == seq!['\\', '@'] {
            // A nonempty value never encodes to the bare empty marker:
            // its first pair's code is never `@`.
            assert(s[1] == '@');
            if needs_escape(t[0]) {
                assert(s[1] == escape_code(t[0]));
                assert(false);
            } else {
                assert(s[0] == t[0]);
                assert(s[0] == '\\');
                assert(false);
            }
        }
    }
}

/// Encodes a text value into its wire argument.
pub fn escape_argument(t: &str) -> (r: String)
    ensures
        r@ == str_arg_of(t@),
{
    let len = t.unicode_len();
    let mut out = String::new();
    if len == 0 {
        push_char(&mut out, '\\');
        push_char(&mut out, '@');
        proof {
            assert(out@ =~= seq!['\\', '@']);
        }
        return out;
    }
    let mut i: usize = 0;
    proof {
        assert(t@.skip(0) =~= t@);
        assert(out@ + escaped_of(t@) =~= escaped_of(t@));
    }
    while i < len
        invariant
            len == t@.len(),
            0 <= i <= len,
            out@ + escaped_of(t@.skip(i as int)) =~= escaped_of(t@),
        decreases len - i,
    {
        proof {
            assert(t@.skip(i as int)[0] == t@[i as int]);
            assert(t@.skip(i as int).skip(1) =~= t@.skip(i as int + 1));
        }
        let c = t.get_char(i);
        if c == '\\' {
            push_char(&mut out, '\\');
            push_char(&mut out, '\\');
        } else if c == ' ' {
            push_char(&mut out, '\\');
            push_char(&mut out, '_');
        } else if c == '\u{0}' {
            push_char(&mut out, '\\');
            push_char(&mut out, '0');
        } else if c == '\n' {
            push_char(&mut out, '\\');
            push_char(&mut out, 'n');
        } else if c == '\r' {
            push_char(&mut out, '\\');
            push_char(&mut out, 'r');
        } else if c == '\u{1b}' {
            push_char(&mut out, '\\');
            push_char(&mut out, 'e');
        } else if c == '\t' {
            push_char(&mut out, '\\');
            push_char(&mut out, 't');
        } else {
            push_char(&mut out, c);
        }
        proof {
            assert(out@ + escaped_of(t@.skip(i as int + 1)) =~= escaped_of(t@));
        }
        i += 1;
    }
    proof {
        assert(t@.skip(len as int) =~= Seq::<char>::empty());
        assert(out@ =~= escaped_of(t@));
    }
    out
}

/// Decodes a wire argument back into the text value it carries.
pub fn unescape_argument(s: &str) -> (r: Option<String>)
    ensures
        match parsed_str_arg(s@) {
            Some(t) => r matches Some(u) && u@ == t,
            None => r is None,
        },
{
    let len = s.unicode_len();
    if len == 2 {
        if s.get_char(0) == '\\' && s.get_char(1) == '@' {
            proof {
                assert(s@ =~= seq!['\\', '@']);
            }
            return Some(String::new());
        }
    }
    proof {
        assert(s@ != seq!['\\', '@']);
    }
    let mut out = String::new();
    let mut i: usize = 0;
    proof {
        assert(s@.skip(0) =~= s@);
    }
    while i < len
        invariant
            len == s@.len(),
            0 <= i <= len,
            s@ != seq!['\\', '@'],
            unescaped_of(s@) == (match unescaped_of(s@.skip(i as int)) {
                Some(rest) => Some(out@ + rest),
                None => None::<Seq<char>>,
            }),
        decreases len - i,
    {
        proof {
            assert(s@.skip(i as int)[0] == s@[i as int]);
        }
        let c = s.get_char(i);
        if c == '\\' {
            if i + 1 >= len {
                return None;
            }
            proof {
                assert(s@.skip(i as int)[1] == s@[i as int + 1]);
                assert(s@.skip(i as int).skip(2) =~= s@.skip(i as int + 2));
            }
            let e = s.get_char(i + 1);
            let decoded: char = if e == '\\' {
                '\\'
            } else if e == '_' {
                ' '
            } else if e == '0' {
                '\u{0}'
            } else if e == 'n' {
                '\n'
            } else if e == 'r' {
                '\r'
            } else if e == 'e' {
                '\u{1b}'
            } else if e == 't' {
                '\t'
            } else {
                return None;
            };
            let ghost out_before = out@;
            push_char(&mut out, decoded);
            proof {
                if unescaped_of(s@.skip(i as int + 2)) is Some {
                    let rest = unescaped_of(s@.skip(i as int + 2)).unwrap();
                    assert(out@ + rest =~= out_before + (seq![decoded] + rest));
                }
            }
            i += 2;
        } else {
            if c == ' ' || c == '\u{0}' || c == '\n' || c == '\r' || c == '\t' {
                return None;
            }
            proof {
                assert(s@.skip(i as int).skip(1) =~= s@.skip(i as int + 1));
            }
            let ghost out_before = out@;
            push_char(&mut out, c);
            proof {
                if unescaped_of(s@.skip(i as int + 1)) is Some {
                    let rest = unescaped_of(s@.skip(i as int + 1)).unwrap();
                    assert(out@ + rest =~= out_before + (seq![c] + rest));
                }
            }
            i += 1;
        }
    }
    proof {
        assert(s@.skip(len as int) =~= Seq::<char>::empty());
    }
    Some(out)
}

} // verus!
