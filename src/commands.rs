use vstd::prelude::*;

verus! {

/// A line without the carriage return of a `\r\n` ending.
pub open spec fn strip_cr(line: Seq<char>) -> Seq<char> {
    if line.len() > 0 && line.last() == '\r' {
        line.drop_last()
    } else {
        line
    }
}

/// `lines` with `line` added, unless `line` is empty.
pub open spec fn keep_line(lines: Seq<Seq<char>>, line: Seq<char>) -> Seq<Seq<char>> {
    if line.len() > 0 {
        lines.push(line)
    } else {
        lines
    }
}

/// Reading `text` left to right: the non-empty lines ended so far, and the
/// line still open.
pub open spec fn scan_lines(text: Seq<char>) -> (Seq<Seq<char>>, Seq<char>)
    decreases text.len(),
{
    if text.len() == 0 {
        (Seq::empty(), Seq::empty())
    } else {
        let prev = scan_lines(text.drop_last());
        if text.last() == '\n' {
            (keep_line(prev.0, strip_cr(prev.1)), Seq::empty())
        } else {
            (prev.0, prev.1.push(text.last()))
        }
    }
}

/// The commands of a command list: one per line, lines ended by `\n` or
/// `\r\n`, the last line's ending optional, empty lines left out.
pub open spec fn command_list(text: Seq<char>) -> Seq<Seq<char>> {
    keep_line(scan_lines(text).0, scan_lines(text).1)
}

pub open spec fn string_views(v: Seq<String>) -> Seq<Seq<char>> {
    v.map_values(|s: String| s@)
}

/// Relies on `str::chars`, collected into a `Vec`: the characters of `s`, in order.
#[verifier::external_body]
fn chars_of(s: &str) -> (r: Vec<char>)
    ensures
        r@ == s@,
{
    s.chars().collect()
}

/// Relies on `String: FromIterator<&char>`: the string of the characters of `v`, in order.
#[verifier::external_body]
fn string_of(v: &Vec<char>) -> (r: String)
    ensures
        r@ == v@,
{
    v.iter().collect()
}

/// Splits a command list into its commands, in file order.
pub fn parse_commands(text: &str) -> (cmds: Vec<String>)
    ensures
        string_views(cmds@) == command_list(text@),
{
    let chars = chars_of(text);
    let mut cmds: Vec<String> = Vec::new();
    let mut cur: Vec<char> = Vec::new();
    let mut i: usize = 0;
    while i < chars.len()
        invariant
            i <= chars@.len(),
            chars@ == text@,
            string_views(cmds@) == scan_lines(chars@.take(i as int)).0,
            cur@ == scan_lines(chars@.take(i as int)).1,
        decreases chars@.len() - i,
    {
        let c = chars[i];
        proof {
            assert(chars@.take(i + 1).drop_last() =~= chars@.take(i as int));
            assert(chars@.take(i + 1).last() == c);
        }
        if c == '\n' {
            if cur.len() > 0 && cur[cur.len() - 1] == '\r' {
                cur.pop();
            }
            if cur.len() > 0 {
                let line = string_of(&cur);
                let ghost before = cmds@;
                cmds.push(line);
                proof {
                    assert(string_views(cmds@) =~= string_views(before).push(line@));
                }
            }
            cur = Vec::new();
        } else {
            cur.push(c);
        }
        i = i + 1;
    }
    proof {
        assert(chars@.take(i as int) =~= chars@);
    }
    if cur.len() > 0 {
        let line = string_of(&cur);
        let ghost before = cmds@;
        cmds.push(line);
        proof {
            assert(string_views(cmds@) =~= string_views(before).push(line@));
        }
    }
    cmds
}

} // verus!
