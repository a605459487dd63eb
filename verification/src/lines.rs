//! Transcript lines: trimming the engine's line terminator and joining the
//! accumulated lines into the single reply text.

use vstd::prelude::*;
use vstd::string::*;

verus! {

/// An engine reply line with a single trailing line terminator removed, if
/// one is present.
pub open spec fn trimmed(line: Seq<char>) -> Seq<char> {
    if line.len() > 0 && line[line.len() - 1] == '\n' {
        line.subrange(0, line.len() - 1)
    } else {
        line
    }
}

/// Transcript lines joined by the line separator, in order, with no
/// terminator after the last line.
pub open spec fn joined(lines: Seq<Seq<char>>) -> Seq<char>
    decreases lines.len(),
{
    if lines.len() == 0 {
        Seq::empty()
    } else if lines.len() == 1 {
        lines[0]
    } else {
        lines[0] + seq!['\n'] + joined(lines.subrange(1, lines.len() as int))
    }
}

/// Joining grows at the back: appending one more line appends a separator
/// (when anything came before) and then that line.
pub proof fn lemma_joined_push(lines: Seq<Seq<char>>, last: Seq<char>)
    ensures
        joined(lines.push(last)) == if lines.len() == 0 {
            last
        } else {
            joined(lines) + seq!['\n'] + last
        },
    decreases lines.len(),
{
    let all = lines.push(last);
    if lines.len() == 0 {
        assert(all.len() == 1);
        assert(joined(all) == last);
    } else {
        let rest = all.subrange(1, all.len() as int);
        assert(rest =~= lines.subrange(1, lines.len() as int).push(last));
        lemma_joined_push(lines.subrange(1, lines.len() as int), last);
        if lines.len() == 1 {
            assert(joined(rest) == last);
            assert(joined(all) == lines[0] + seq!['\n'] + last);
        } else {
            assert(joined(all) =~= joined(lines) + seq!['\n'] + last);
        }
    }
}

/// Removes one trailing line terminator from an engine reply line, if
/// present; other characters, including earlier terminators, are kept.
pub fn trim_line(line: &str) -> (r: String)
    ensures
        r@ == trimmed(line@),
{
    let n = line.unicode_len();
    if n > 0 && line.get_char(n - 1) == '\n' {
        String::from_str(line.substring_char(0, n - 1))
    } else {
        String::from_str(line)
    }
}

/// Joins the transcript lines with the line separator, in order.
pub fn join_lines(lines: &Vec<String>) -> (r: String)
    ensures
        r@ == joined(lines.deep_view()),
{
    let mut r = String::new();
    let mut i: usize = 0;
    while i < lines.len()
        invariant
            i <= lines.len(),
            r@ == joined(lines.deep_view().take(i as int)),
        decreases lines.len() - i,
    {
        proof {
            assert(lines.deep_view().take(i + 1) =~= lines.deep_view().take(
                i as int,
            ).push(lines[i as int]@));
            lemma_joined_push(lines.deep_view().take(i as int), lines[i as int]@);
        }
        if i > 0 {
            r.append("\n");
            proof {
                reveal_strlit("\n");
                assert(r@ =~= joined(lines.deep_view().take(i as int)) + seq!['\n']);
            }
        }
        r.append(lines[i].as_str());
        i = i + 1;
    }
    proof {
        assert(lines.deep_view().take(lines.len() as int) =~= lines.deep_view());
    }
    r
}

} // verus!
