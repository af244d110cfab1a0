//! The input parser: a raw string of commands, split on a delimiter.

use vstd::prelude::*;
use crate::text::{trim, trim_text};

verus! {

/// The character that separates commands in the raw input.
pub const COMMAND_DELIMITER: char = ',';

/// The pieces of `s` between occurrences of `d`: one more piece than there
/// are delimiters, empty pieces included.
pub open spec fn split_on(s: Seq<char>, d: char) -> Seq<Seq<char>>
    decreases s.len(),
{
    if s.len() == 0 {
        seq![Seq::<char>::empty()]
    } else {
        let head = split_on(s.drop_last(), d);
        if s.last() == d {
            head.push(Seq::<char>::empty())
        } else {
            head.update(head.len() - 1, head.last().push(s.last()))
        }
    }
}

/// A piece that still holds something once trimmed.
pub open spec fn is_nonblank(seg: Seq<char>) -> bool {
    seg.len() > 0
}

/// The commands of a raw input: the comma-separated pieces, trimmed, with
/// the empty ones left out, in input order.
pub open spec fn commands_of(raw: Seq<char>) -> Seq<Seq<char>> {
    kept(split_on(raw, COMMAND_DELIMITER))
}

/// The pieces, trimmed, with the empty ones left out.
pub open spec fn kept(segs: Seq<Seq<char>>) -> Seq<Seq<char>> {
    segs.map_values(|seg: Seq<char>| trim(seg)).filter(|seg: Seq<char>| is_nonblank(seg))
}

/// The views of a vector of strings.
pub open spec fn views_of(v: Seq<String>) -> Seq<Seq<char>> {
    v.map_values(|x: String| x@)
}

/// The input holds no command.
#[derive(Clone, Copy, Debug, PartialEq, Eq, Structural)]
pub enum InputError {
    NoCommands,
}

impl InputError {
    /// The message reported for this error.
    pub fn message(&self) -> (r: String)
        ensures
            r@ == "Error: No commands provided."@,
    {
        String::from_str("Error: No commands provided.")
    }
}

proof fn lemma_split_step(s: Seq<char>, d: char, i: int)
    requires
        0 <= i < s.len(),
    ensures
        s.take(i + 1).drop_last() == s.take(i),
        s.take(i + 1).last() == s[i],
        split_on(s.take(i + 1), d) == (if s[i] == d {
            split_on(s.take(i), d).push(Seq::<char>::empty())
        } else {
            let head = split_on(s.take(i), d);
            head.update(head.len() - 1, head.last().push(s[i]))
        }),
{
    assert(s.take(i + 1).drop_last() =~= s.take(i));
}

proof fn lemma_split_nonempty(s: Seq<char>, d: char)
    ensures
        split_on(s, d).len() >= 1,
    decreases s.len(),
{
    if s.len() > 0 {
        lemma_split_nonempty(s.drop_last(), d);
    }
}

proof fn lemma_keep_push(fin: Seq<Seq<char>>, cur: Seq<char>)
    ensures
        kept(fin.push(cur)) == (if trim(cur).len() > 0 {
            kept(fin).push(trim(cur))
        } else {
            kept(fin)
        }),
{
    let m = fin.push(cur).map_values(|seg: Seq<char>| trim(seg));
    assert(m.drop_last() =~= fin.map_values(|seg: Seq<char>| trim(seg)));
    reveal(Seq::filter);
}

/// Splits `raw` on commas, trims each piece and keeps the non-empty ones, in
/// order; an input with none of them is refused.
pub fn parse_commands(raw: &str) -> (r: Result<Vec<String>, InputError>)
    ensures
        match r {
            Ok(cmds) => views_of(cmds@) == commands_of(raw@) && cmds@.len() > 0,
            Err(e) => e == InputError::NoCommands && commands_of(raw@).len() == 0,
        },
{
    let n = raw.unicode_len();
    let ghost s = raw@;
    let mut out: Vec<String> = Vec::new();
    let mut start: usize = 0;
    let mut i: usize = 0;
    let ghost mut fin: Seq<Seq<char>> = Seq::empty();
    proof {
        assert(s.take(0) =~= Seq::<char>::empty());
        assert(s.subrange(0, 0) =~= Seq::<char>::empty());
        assert(fin.push(s.subrange(0, 0)) =~= seq![Seq::<char>::empty()]);
        assert(views_of(out@) =~= kept(fin)) by {
            reveal(Seq::filter);
        }
    }
    while i < n
        invariant
            n == s.len(),
            s == raw@,
            start <= i <= n,
            split_on(s.take(i as int), COMMAND_DELIMITER) == fin.push(
                s.subrange(start as int, i as int),
            ),
            views_of(out@) == kept(fin),
        decreases n - i,
    {
        let c = raw.get_char(i);
        proof {
            lemma_split_step(s, COMMAND_DELIMITER, i as int);
        }
        if c == COMMAND_DELIMITER {
            let piece = trim_text(raw.substring_char(start, i));
            proof {
                lemma_keep_push(fin, s.subrange(start as int, i as int));
            }
            if piece.unicode_len() > 0 {
                out.push(piece);
                proof {
                    assert(views_of(out@) =~= views_of(out@.drop_last()).push(piece@));
                }
            }
            proof {
                fin = fin.push(s.subrange(start as int, i as int));
                assert(s.subrange(i + 1, i + 1) =~= Seq::<char>::empty());
            }
            start = i + 1;
        } else {
            proof {
                assert(s.subrange(start as int, i + 1) =~= s.subrange(start as int, i as int).push(
                    c,
                ));
                assert(fin.push(s.subrange(start as int, i as int)).update(
                    fin.len() as int,
                    s.subrange(start as int, i + 1),
                ) =~= fin.push(s.subrange(start as int, i + 1)));
            }
        }
        i = i + 1;
    }
    let piece = trim_text(raw.substring_char(start, n));
    proof {
        assert(s.take(n as int) =~= s);
        lemma_keep_push(fin, s.subrange(start as int, n as int));
    }
    if piece.unicode_len() > 0 {
        out.push(piece);
        proof {
            assert(views_of(out@) =~= views_of(out@.drop_last()).push(piece@));
        }
    }
    if out.len() == 0 {
        Err(InputError::NoCommands)
    } else {
        Ok(out)
    }
}

} // verus!
