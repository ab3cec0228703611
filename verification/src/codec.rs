//! Transport form of path text.
//!
//! Serialized paths travel with every separator replaced by the ASCII
//! file-separator control character, so the same stored text can be
//! read back on any platform.  Decoding restores the separators and
//! then normalizes drive-letter shapes: a bare letter gains `:` and a
//! separator, a bare `letter:` gains a separator, and a letter followed
//! directly by a separator gains the missing `:`.  A drive letter is a
//! single one-byte character, so the fix-ups apply only when the text
//! starts with an ASCII character; judged that way they agree with the
//! UTF-8 byte view of the text, where a multi-byte first character can
//! never put `:` or a separator at byte position one.

use vstd::prelude::*;
use crate::paths::PATH_SEPARATOR;
use crate::text::push_char;

verus! {

/// The character that stands in for the separator in transport.
pub const TRANSPORT_SEPARATOR: char = '\u{1c}';

/// Path text with every separator replaced by the transport mark.
pub open spec fn spec_encode_path(p: Seq<char>) -> Seq<char> {
    p.map_values(
        |c: char|
            if c == PATH_SEPARATOR {
                TRANSPORT_SEPARATOR
            } else {
                c
            },
    )
}

/// Transport text with every mark turned back into a separator.
pub open spec fn spec_unmark_path(p: Seq<char>) -> Seq<char> {
    p.map_values(
        |c: char|
            if c == TRANSPORT_SEPARATOR {
                PATH_SEPARATOR
            } else {
                c
            },
    )
}

/// The decoded form of transport text: separators restored, then the
/// drive-letter normalizations applied.
pub open spec fn spec_decode_path(p: Seq<char>) -> Seq<char> {
    let m = spec_unmark_path(p);
    if m.len() == 0 {
        m
    } else if (m[0] as int) >= 128 {
        m
    } else if m.len() == 1 {
        m + seq![':', PATH_SEPARATOR]
    } else if m.len() == 2 && m[1] == ':' {
        m.push(PATH_SEPARATOR)
    } else if m[1] == PATH_SEPARATOR {
        m.take(1) + seq![':'] + m.skip(1)
    } else {
        m
    }
}

fn map_chars(s: &str, from: char, to: char) -> (r: String)
    ensures
        r@ == s@.map_values(
            |c: char|
                if c == from {
                    to
                } else {
                    c
                },
        ),
{
    let n = s.unicode_len();
    let mut r = String::new();
    let mut i: usize = 0;
    while i < n
        invariant
            i <= n,
            n == s@.len(),
            r@.len() == i,
            forall|j: int|
                0 <= j < i ==> r@[j] == (if s@[j] == from {
                    to
                } else {
                    s@[j]
                }),
        decreases n - i,
    {
        let c = s.get_char(i);
        if c == from {
            push_char(&mut r, to);
        } else {
            push_char(&mut r, c);
        }
        i = i + 1;
    }
    proof {
        assert(r@ =~= s@.map_values(
            |c: char|
                if c == from {
                    to
                } else {
                    c
                },
        ));
    }
    r
}

/// Turns path text into its transport form.
pub fn encode_path(path: &str) -> (r: String)
    ensures
        r@ == spec_encode_path(path@),
{
    map_chars(path, PATH_SEPARATOR, TRANSPORT_SEPARATOR)
}

/// Turns transport text back into path text, normalizing drive-letter
/// shapes.
pub fn decode_path(transported: &str) -> (r: String)
    ensures
        r@ == spec_decode_path(transported@),
{
    let m = map_chars(transported, TRANSPORT_SEPARATOR, PATH_SEPARATOR);
    let n = m.as_str().unicode_len();
    if n == 0 {
        m
    } else if (m.as_str().get_char(0) as u32) >= 128 {
        m
    } else if n == 1 {
        let mut r = m;
        push_char(&mut r, ':');
        push_char(&mut r, PATH_SEPARATOR);
        proof {
            assert(r@ =~= spec_decode_path(transported@));
        }
        r
    } else if n == 2 && m.as_str().get_char(1) == ':' {
        let mut r = m;
        push_char(&mut r, PATH_SEPARATOR);
        proof {
            assert(r@ =~= spec_decode_path(transported@));
        }
        r
    } else if m.as_str().get_char(1) == PATH_SEPARATOR {
        let head = m.as_str().get_char(0);
        let mut r = String::new();
        push_char(&mut r, head);
        push_char(&mut r, ':');
        let mut i: usize = 1;
        while i < n
            invariant
                1 <= i <= n,
                n == m@.len(),
                n >= 2,
                r@ == seq![m@[0], ':'] + m@.subrange(1, i as int),
            decreases n - i,
        {
            let c = m.as_str().get_char(i);
            push_char(&mut r, c);
            proof {
                assert(r@ =~= seq![m@[0], ':'] + m@.subrange(1, i as int + 1));
            }
            i = i + 1;
        }
        proof {
            assert(m@.subrange(1, n as int) =~= m@.skip(1));
            assert(r@ =~= spec_decode_path(transported@));
        }
        r
    } else {
        m
    }
}

} // verus!
