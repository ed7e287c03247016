use vstd::prelude::*;
use vstd::std_specs::iter::IteratorSpec;
use crate::numfmt::spec_digit;

verus! {

broadcast use vstd::string::next_postcondition, vstd::string::axiom_spec_iter;

/// The hexadecimal digit character for `d`.
pub open spec fn spec_hex_digit(d: int) -> char
    recommends
        0 <= d < 16,
{
    if d < 10 {
        spec_digit(d)
    } else if d == 10 {
        'a'
    } else if d == 11 {
        'b'
    } else if d == 12 {
        'c'
    } else if d == 13 {
        'd'
    } else if d == 14 {
        'e'
    } else {
        'f'
    }
}

/// How one character is written inside a JSON string literal: quotes,
/// backslashes and control characters are escaped, all else stands as it is.
pub open spec fn spec_escape_char(c: char) -> Seq<char> {
    if c == '"' {
        seq!['\\', '"']
    } else if c == '\\' {
        seq!['\\', '\\']
    } else if c == '\n' {
        seq!['\\', 'n']
    } else if c == '\r' {
        seq!['\\', 'r']
    } else if c == '\t' {
        seq!['\\', 't']
    } else if (c as u32) < 32 {
        seq!['\\', 'u', '0', '0', spec_hex_digit(c as u32 as int / 16), spec_hex_digit(
            c as u32 as int % 16,
        )]
    } else {
        seq![c]
    }
}

/// The body of a JSON string literal for the text `s`.
pub open spec fn spec_escape(s: Seq<char>) -> Seq<char>
    decreases s.len(),
{
    if s.len() == 0 {
        Seq::empty()
    } else {
        spec_escape_char(s[0]) + spec_escape(s.drop_first())
    }
}

/// A whole JSON string literal for the text `s`, quotes included.
pub open spec fn spec_json_string(s: Seq<char>) -> Seq<char> {
    seq!['"'] + spec_escape(s) + seq!['"']
}

pub proof fn lemma_escape_concat(a: Seq<char>, b: Seq<char>)
    ensures
        spec_escape(a + b) == spec_escape(a) + spec_escape(b),
    decreases a.len(),
{
    if a.len() == 0 {
        assert(a + b =~= b);
        assert(spec_escape(a) + spec_escape(b) =~= spec_escape(b));
    } else {
        lemma_escape_concat(a.drop_first(), b);
        assert((a + b).drop_first() =~= a.drop_first() + b);
        assert(spec_escape_char((a + b)[0]) + (spec_escape(a.drop_first()) + spec_escape(b))
            =~= (spec_escape_char(a[0]) + spec_escape(a.drop_first())) + spec_escape(b));
    }
}

fn hex_digit(d: u32) -> (c: char)
    requires
        d < 16,
    ensures
        c == spec_hex_digit(d as int),
{
    match d {
        0 => '0',
        1 => '1',
        2 => '2',
        3 => '3',
        4 => '4',
        5 => '5',
        6 => '6',
        7 => '7',
        8 => '8',
        9 => '9',
        10 => 'a',
        11 => 'b',
        12 => 'c',
        13 => 'd',
        14 => 'e',
        _ => 'f',
    }
}

/// Appends one escaped character to `out`.
fn append_escaped_char(out: &mut String, c: char)
    ensures
        final(out)@ == old(out)@ + spec_escape_char(c),
{
    if c == '"' {
        out.append("\\\"");
        proof {
            reveal_strlit("\\\"");
            assert(old(out)@ + "\\\""@ =~= old(out)@ + spec_escape_char(c));
        }
    } else if c == '\\' {
        out.append("\\\\");
        proof {
            reveal_strlit("\\\\");
            assert(old(out)@ + "\\\\"@ =~= old(out)@ + spec_escape_char(c));
        }
    } else if c == '\n' {
        out.append("\\n");
        proof {
            reveal_strlit("\\n");
            assert(old(out)@ + "\\n"@ =~= old(out)@ + spec_escape_char(c));
        }
    } else if c == '\r' {
        out.append("\\r");
        proof {
            reveal_strlit("\\r");
            assert(old(out)@ + "\\r"@ =~= old(out)@ + spec_escape_char(c));
        }
    } else if c == '\t' {
        out.append("\\t");
        proof {
            reveal_strlit("\\t");
            assert(old(out)@ + "\\t"@ =~= old(out)@ + spec_escape_char(c));
        }
    } else if (c as u32) < 32 {
        out.append("\\u00");
        out.push(hex_digit((c as u32) / 16));
        out.push(hex_digit((c as u32) % 16));
        proof {
            reveal_strlit("\\u00");
            assert(((old(out)@ + "\\u00"@).push(spec_hex_digit(c as u32 as int / 16))).push(
                spec_hex_digit(c as u32 as int % 16),
            ) =~= old(out)@ + spec_escape_char(c));
        }
    } else {
        out.push(c);
        proof {
            assert(old(out)@.push(c) =~= old(out)@ + spec_escape_char(c));
        }
    }
}

/// Appends the text `s`, escaped for a JSON string literal, to `out`.
pub fn append_escaped(out: &mut String, s: &str)
    ensures
        final(out)@ == old(out)@ + spec_escape(s@),
{
    let ghost all = s@;
    let ghost mut done: int = 0;
    let mut it = s.chars();
    proof {
        assert(it.remaining() =~= all.skip(0));
        assert(all.take(0) =~= Seq::<char>::empty());
        assert(out@ + spec_escape(all.take(0)) =~= out@);
    }
    loop
        invariant
            0 <= done <= all.len(),
            it.remaining() == all.skip(done),
            it.obeys_prophetic_iter_laws(),
            out@ == old(out)@ + spec_escape(all.take(done)),
        ensures
            out@ == old(out)@ + spec_escape(all),
        decreases all.len() - done,
    {
        match it.next() {
            Some(c) => {
                proof {
                    assert(all.skip(done)[0] == all[done]);
                }
                append_escaped_char(out, c);
                proof {
                    let pre = all.take(done);
                    assert(seq![c].drop_first() =~= Seq::<char>::empty());
                    assert(spec_escape(Seq::<char>::empty()) =~= Seq::<char>::empty());
                    assert(spec_escape(seq![c]) =~= spec_escape_char(c));
                    lemma_escape_concat(pre, seq![c]);
                    assert(pre + seq![c] =~= all.take(done + 1));
                    assert((old(out)@ + spec_escape(pre)) + spec_escape_char(c) =~= old(out)@
                        + spec_escape(all.take(done + 1)));
                    assert(all.skip(done).drop_first() =~= all.skip(done + 1));
                    done = done + 1;
                }
            },
            None => {
                proof {
                    assert(all.skip(done).len() == 0);
                    assert(done == all.len());
                    assert(all.take(done) =~= all);
                }
                break ;
            },
        }
    }
}

/// Appends a whole JSON string literal for `s` to `out`.
pub fn append_json_string(out: &mut String, s: &str)
    ensures
        final(out)@ == old(out)@ + spec_json_string(s@),
{
    out.push('"');
    append_escaped(out, s);
    out.push('"');
    proof {
        assert(((old(out)@.push('"') + spec_escape(s@)).push('"')) =~= old(out)@
            + spec_json_string(s@));
    }
}

} // verus!
