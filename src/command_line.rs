//! The command line: splitting it into words and reading the command.

use vstd::prelude::*;
use crate::text::{chars_of, is_space, is_space_char, string_from_chars};

verus! {

broadcast use vstd::seq_lib::group_seq_properties;

/// The words of `s`: its maximal runs of characters that are not white
/// space, in order.
pub open spec fn words(s: Seq<char>) -> Seq<Seq<char>>
    decreases s.len(),
{
    if s.len() == 0 {
        Seq::empty()
    } else {
        let p = s.drop_last();
        let c = s.last();
        let w = words(p);
        if is_space(c) {
            w
        } else if p.len() > 0 && !is_space(p.last()) {
            w.drop_last().push(w.last().push(c))
        } else {
            w.push(seq![c])
        }
    }
}

/// The words of `line`, split at white space.
pub fn split_words(line: &str) -> (r: Vec<String>)
    ensures
        r.deep_view() == words(line@),
{
    let chars = chars_of(line);
    let mut done: Vec<String> = Vec::new();
    let mut current: Vec<char> = Vec::new();
    let mut i: usize = 0;
    while i < chars.len()
        invariant
            chars@ == line@,
            i <= chars@.len(),
            current@.len() > 0 <==> (i > 0 && !is_space(chars@[i - 1])),
            done@.len() == done.deep_view().len(),
            (if current@.len() > 0 {
                done.deep_view().push(current@)
            } else {
                done.deep_view()
            }) == words(chars@.subrange(0, i as int)),
        decreases chars.len() - i,
    {
        let c = chars[i];
        let ghost prefix = chars@.subrange(0, i as int);
        let ghost next = chars@.subrange(0, i + 1);
        assert(next.drop_last() =~= prefix);
        assert(next.last() == c);
        if is_space_char(c) {
            if current.len() > 0 {
                let word = string_from_chars(&current);
                let ghost before = done.deep_view();
                done.push(word);
                assert(done.deep_view() =~= before.push(current@));
                current = Vec::new();
            }
        } else {
            let ghost old_current = current@;
            current.push(c);
            proof {
                if old_current.len() > 0 {
                    let w = words(prefix);
                    assert(w == done.deep_view().push(old_current));
                    assert(w.drop_last() =~= done.deep_view());
                    assert(words(next) =~= done.deep_view().push(current@));
                } else {
                    assert(words(next) =~= done.deep_view().push(current@));
                }
            }
        }
        i += 1;
    }
    assert(chars@.subrange(0, chars@.len() as int) =~= chars@);
    if current.len() > 0 {
        let word = string_from_chars(&current);
        let ghost before = done.deep_view();
        done.push(word);
        assert(done.deep_view() =~= before.push(current@));
    }
    done
}

/// A command typed on the command line.
#[derive(Clone, Debug)]
pub enum LineCommand {
    /// Nothing but white space.
    Blank,
    /// `q`: leave.
    Quit,
    /// `e [table]`: open a table, creating it if needed.
    Edit(Option<String>),
    /// `ls`: list the tables.
    ListTables,
    /// `lsdb`: list the databases.
    ListDatabases,
    /// `drop [table]`: remove a table.
    Drop(Option<String>),
    /// `cd [dir] [database]`: with one word it names the database, with two
    /// the directory and then the database.
    Cd(Option<String>, Option<String>),
    /// `pwd`: show where the data lives.
    Pwd,
    /// Any other first word.
    Unknown(String),
}

/// `a` holds word `i` of `w`, or nothing when there is no such word.
pub open spec fn arg_is(a: Option<String>, w: Seq<Seq<char>>, i: int) -> bool {
    if i < w.len() {
        a is Some && a->0@ == w[i]
    } else {
        a is None
    }
}

fn arg(w: &Vec<String>, i: usize) -> (a: Option<String>)
    ensures
        arg_is(a, w.deep_view(), i as int),
{
    if i < w.len() {
        Some(w[i].clone())
    } else {
        None
    }
}

/// Reads the command in `line`: its first word names it, the words after
/// it are its arguments.
pub fn parse_command_line(line: &str) -> (r: LineCommand)
    ensures
        ({
            let w = words(line@);
            if w.len() == 0 {
                r is Blank
            } else if w[0] == "q"@ {
                r is Quit
            } else if w[0] == "e"@ {
                r matches LineCommand::Edit(a) && arg_is(a, w, 1)
            } else if w[0] == "ls"@ {
                r is ListTables
            } else if w[0] == "lsdb"@ {
                r is ListDatabases
            } else if w[0] == "drop"@ {
                r matches LineCommand::Drop(a) && arg_is(a, w, 1)
            } else if w[0] == "cd"@ {
                r matches LineCommand::Cd(a, b) && arg_is(a, w, 1) && arg_is(b, w, 2)
            } else if w[0] == "pwd"@ {
                r is Pwd
            } else {
                r matches LineCommand::Unknown(n) && n@ == w[0]
            }
        }),
{
    let w = split_words(line);
    if w.len() == 0 {
        return LineCommand::Blank;
    }
    let first = w[0].clone();
    if first == "q".to_owned() {
        LineCommand::Quit
    } else if first == "e".to_owned() {
        LineCommand::Edit(arg(&w, 1))
    } else if first == "ls".to_owned() {
        LineCommand::ListTables
    } else if first == "lsdb".to_owned() {
        LineCommand::ListDatabases
    } else if first == "drop".to_owned() {
        LineCommand::Drop(arg(&w, 1))
    } else if first == "cd".to_owned() {
        LineCommand::Cd(arg(&w, 1), arg(&w, 2))
    } else if first == "pwd".to_owned() {
        LineCommand::Pwd
    } else {
        LineCommand::Unknown(first)
    }
}

} // verus!
