//! Reading command lines: the command's name, its words, and what a line
//! is dispatched to.

use vstd::prelude::*;
use vstd::string::StrSliceExecFns;
use vstd::string::StringExecFns;
use crate::text::string_push;
use crate::vm::utils::str_eq;
use crate::debugger::debugger::MainDebugger;
use crate::debugger::registry::{alias_list, command_list, spec_aliases, spec_commands};

verus! {

/// Whether a character is white space: the characters of Unicode's
/// `White_Space` property.
pub open spec fn spec_is_whitespace(c: char) -> bool {
    ||| '\u{9}' <= c <= '\u{d}'
    ||| c == ' '
    ||| c == '\u{85}'
    ||| c == '\u{a0}'
    ||| c == '\u{1680}'
    ||| '\u{2000}' <= c <= '\u{200a}'
    ||| c == '\u{2028}'
    ||| c == '\u{2029}'
    ||| c == '\u{202f}'
    ||| c == '\u{205f}'
    ||| c == '\u{3000}'
}

pub fn is_whitespace(c: char) -> (r: bool)
    ensures
        r == spec_is_whitespace(c),
{
    ('\u{9}' <= c && c <= '\u{d}') || c == ' ' || c == '\u{85}' || c == '\u{a0}' || c == '\u{1680}'
        || ('\u{2000}' <= c && c <= '\u{200a}') || c == '\u{2028}' || c == '\u{2029}' || c == '\u{202f}'
        || c == '\u{205f}' || c == '\u{3000}'
}

/// `s` without its leading white space.
pub open spec fn trim_start(s: Seq<char>) -> Seq<char>
    decreases s.len(),
{
    if s.len() > 0 && spec_is_whitespace(s[0]) { trim_start(s.drop_first()) } else { s }
}

/// `s` without its trailing white space.
pub open spec fn trim_end(s: Seq<char>) -> Seq<char>
    decreases s.len(),
{
    if s.len() > 0 && spec_is_whitespace(s.last()) { trim_end(s.drop_last()) } else { s }
}

/// `s` without its leading and trailing white space.
pub open spec fn trim(s: Seq<char>) -> Seq<char> {
    trim_end(trim_start(s))
}

/// The index of the first white space character of `s`.
pub open spec fn first_space(s: Seq<char>) -> Option<int>
    decreases s.len(),
{
    if s.len() == 0 {
        None
    } else if spec_is_whitespace(s[0]) {
        Some(0)
    } else {
        match first_space(s.drop_first()) {
            Some(i) => Some(i + 1),
            None => None,
        }
    }
}

/// The name of the command of a line: its first word.
pub open spec fn spec_command_name(line: Seq<char>) -> Seq<char> {
    let t = trim(line);
    match first_space(t) {
        Some(p) => t.subrange(0, p),
        None => t,
    }
}

/// The line without its leading and trailing white space.
pub fn trim_str(s: &str) -> (r: &str)
    ensures
        r@ == trim(s@),
{
    let n = s.unicode_len();
    let mut a: usize = 0;
    proof { assert(s@.subrange(0, n as int) =~= s@); }
    while a < n && is_whitespace(s.get_char(a))
        invariant
            n == s@.len(),
            a <= n,
            trim_start(s@) == trim_start(s@.subrange(a as int, n as int)),
        decreases n - a,
    {
        proof {
            let t = s@.subrange(a as int, n as int);
            assert(t[0] == s@[a as int]);
            assert(t.drop_first() =~= s@.subrange(a + 1, n as int));
        }
        a = a + 1;
    }
    proof {
        let t = s@.subrange(a as int, n as int);
        if t.len() > 0 {
            assert(t[0] == s@[a as int]);
        }
        assert(trim_start(t) == t);
    }
    let mut b: usize = n;
    proof { assert(s@.subrange(a as int, n as int).subrange(0, (n - a) as int) =~= s@.subrange(a as int, n as int)); }
    while b > a && is_whitespace(s.get_char(b - 1))
        invariant
            n == s@.len(),
            a <= b <= n,
            trim(s@) == trim_end(s@.subrange(a as int, b as int)),
        decreases b - a,
    {
        proof {
            let t = s@.subrange(a as int, b as int);
            assert(t.last() == s@[b - 1]);
            assert(t.drop_last() =~= s@.subrange(a as int, b - 1));
        }
        b = b - 1;
    }
    proof {
        let t = s@.subrange(a as int, b as int);
        if t.len() > 0 {
            assert(t.last() == s@[b - 1]);
        }
        assert(trim_end(t) == t);
    }
    s.substring_char(a, b)
}

/// The name of the command of a line: its first word, after the line's
/// leading white space.
pub fn extract_command_name(line: &str) -> (r: &str)
    ensures
        r@ == spec_command_name(line@),
{
    let t = trim_str(line);
    let n = t.unicode_len();
    let mut p: usize = 0;
    proof { assert(t@.subrange(0, n as int) =~= t@); }
    while p < n && !is_whitespace(t.get_char(p))
        invariant
            n == t@.len(),
            p <= n,
            first_space(t@) == match first_space(t@.subrange(p as int, n as int)) {
                Some(i) => Some(i + p),
                None => None,
            },
        decreases n - p,
    {
        proof {
            let u = t@.subrange(p as int, n as int);
            assert(u[0] == t@[p as int]);
            assert(u.drop_first() =~= t@.subrange(p + 1, n as int));
        }
        p = p + 1;
    }
    proof {
        let u = t@.subrange(p as int, n as int);
        if p < n {
            assert(u[0] == t@[p as int]);
            assert(first_space(u) == Some(0int));
        } else {
            assert(u.len() == 0);
        }
    }
    if p < n {
        t.substring_char(0, p)
    } else {
        proof { assert(t@.subrange(0, n as int) =~= t@); }
        t
    }
}

/// The words of `s` after `words` and a word `cur` begun: each maximal run
/// of characters that are not white space, in order.
pub open spec fn words_from(s: Seq<char>, words: Seq<Seq<char>>, cur: Option<Seq<char>>) -> Seq<Seq<char>>
    decreases s.len(),
{
    let done = match cur {
        Some(w) => words.push(w),
        None => words,
    };
    if s.len() == 0 {
        done
    } else if spec_is_whitespace(s[0]) {
        words_from(s.drop_first(), done, None)
    } else {
        words_from(s.drop_first(), words, Some(match cur {
            Some(w) => w.push(s[0]),
            None => seq![s[0]],
        }))
    }
}

/// The words of a line.
pub open spec fn words(s: Seq<char>) -> Seq<Seq<char>> {
    words_from(s, Seq::empty(), None)
}

pub open spec fn texts(v: Seq<String>) -> Seq<Seq<char>> {
    v.map_values(|x: String| x@)
}

/// Splits a line into its words.
pub fn split_whitespace(line: &str) -> (r: Vec<String>)
    ensures
        texts(r@) == words(line@),
{
    let n = line.unicode_len();
    let mut out: Vec<String> = Vec::new();
    let mut cur: Option<String> = None;
    let mut i: usize = 0;
    proof {
        assert(line@.subrange(0, n as int) =~= line@);
        assert(texts(out@) =~= Seq::<Seq<char>>::empty());
    }
    while i < n
        invariant
            n == line@.len(),
            i <= n,
            words(line@) == words_from(line@.subrange(i as int, n as int), texts(out@),
                match cur { Some(w) => Some(w@), None => None }),
        decreases n - i,
    {
        let c = line.get_char(i);
        proof {
            let t = line@.subrange(i as int, n as int);
            assert(t[0] == c);
            assert(t.drop_first() =~= line@.subrange(i + 1, n as int));
        }
        if is_whitespace(c) {
            match cur {
                Some(w) => {
                    let ghost before = texts(out@);
                    out.push(w);
                    proof { assert(texts(out@) =~= before.push(w@)); }
                },
                None => {},
            }
            cur = None;
        } else {
            let w = match cur {
                Some(w) => {
                    let mut w = w;
                    string_push(&mut w, c);
                    w
                },
                None => {
                    let mut w = String::new();
                    string_push(&mut w, c);
                    proof { assert(w@ =~= seq![c]); }
                    w
                },
            };
            cur = Some(w);
        }
        i = i + 1;
    }
    match cur {
        Some(w) => {
            let ghost before = texts(out@);
            out.push(w);
            proof { assert(texts(out@) =~= before.push(w@)); }
        },
        None => {},
    }
    out
}

/// What a line is dispatched to.
#[derive(Clone, Copy, Debug, PartialEq, Eq, Structural)]
pub enum Dispatch {
    /// The command at this index.
    Command(usize),
    /// The alias at this index, whose line is then dispatched.
    Alias(usize),
    /// The list of commands.
    Help,
    /// Leaving the command loop to serve a remote client.
    StartServer,
    /// No command has the name.
    Invalid,
}

/// The index of the last name equal to `name`: where names repeat, the
/// last one registered is the one found.
pub open spec fn last_named(names: Seq<Seq<char>>, name: Seq<char>) -> Option<int>
    decreases names.len(),
{
    if names.len() == 0 {
        None
    } else if names.last() == name {
        Some(names.len() - 1)
    } else {
        last_named(names.drop_last(), name)
    }
}

/// What the command named `name` is dispatched to: a command of that name,
/// else an alias of that name, else the help, else (with the remote API)
/// the server.
pub open spec fn spec_dispatch(name: Seq<char>, commands: Seq<Seq<char>>, aliases: Seq<Seq<char>>, remote_api: bool) -> Dispatch {
    match last_named(commands, name) {
        Some(i) => Dispatch::Command(i as usize),
        None => match last_named(aliases, name) {
            Some(j) => Dispatch::Alias(j as usize),
            None => if name == "help"@ {
                Dispatch::Help
            } else if remote_api && name == "start-server"@ {
                Dispatch::StartServer
            } else {
                Dispatch::Invalid
            },
        },
    }
}

fn find_last(names: &Vec<&str>, name: &str) -> (r: Option<usize>)
    ensures
        match last_named(names@.map_values(|x: &str| x@), name@) {
            Some(i) => r matches Some(k) && k as int == i,
            None => r is None,
        },
{
    let ghost ns = names@.map_values(|x: &str| x@);
    let mut k: usize = names.len();
    proof { assert(ns.subrange(0, k as int) =~= ns); }
    while k > 0
        invariant
            k <= names@.len(),
            ns == names@.map_values(|x: &str| x@),
            last_named(ns, name@) == last_named(ns.subrange(0, k as int), name@),
        decreases k,
    {
        let ghost t = ns.subrange(0, k as int);
        proof {
            assert(t.last() == names@[k - 1]@);
            assert(t.drop_last() =~= ns.subrange(0, k - 1));
        }
        if str_eq(names[k - 1], name) {
            return Some(k - 1);
        }
        k = k - 1;
    }
    None
}

/// Decides what a command name is dispatched to.
pub fn dispatch_target(name: &str, commands: &Vec<&str>, aliases: &Vec<&str>, remote_api: bool) -> (r: Dispatch)
    ensures
        r == spec_dispatch(name@, commands@.map_values(|x: &str| x@), aliases@.map_values(|x: &str| x@), remote_api),
{
    match find_last(commands, name) {
        Some(i) => return Dispatch::Command(i),
        None => {},
    }
    match find_last(aliases, name) {
        Some(j) => return Dispatch::Alias(j),
        None => {},
    }
    proof {
        reveal_strlit("help");
        reveal_strlit("start-server");
    }
    if str_eq(name, "help") {
        Dispatch::Help
    } else if remote_api && str_eq(name, "start-server") {
        Dispatch::StartServer
    } else {
        Dispatch::Invalid
    }
}

/// The line a step of the command loop runs: the line read, when it is not
/// blank, else the last line run; and the line to remember as last.
pub fn line_to_run(line: &str, last_line: Option<String>) -> (r: (Option<String>, Option<String>))
    ensures
        if trim(line@).len() > 0 {
            (r.0 matches Some(x) && x@ == line@) && (r.1 matches Some(y) && y@ == line@)
        } else {
            match last_line {
                Some(l) => (r.0 matches Some(x) && x@ == l@) && (r.1 matches Some(y) && y@ == l@),
                None => r.0 is None && r.1 is None,
            }
        },
{
    let t = trim_str(line);
    if t.unicode_len() > 0 {
        (Some(line.to_owned()), Some(line.to_owned()))
    } else {
        match last_line {
            Some(l) => (Some(l.clone()), Some(l)),
            None => (None, None),
        }
    }
}

/// A debugger with the commands and aliases it dispatches to: each
/// command's name and description, and each alias's name.
pub struct Process {
    pub debugger: MainDebugger,
    pub commands: Vec<(&'static str, &'static str)>,
    pub aliases: Vec<&'static str>,
}

impl Process {
    /// The debugger with every command and alias registered.
    pub fn new(debugger: MainDebugger) -> (r: Self)
        ensures
            r.debugger == debugger,
            r.commands@.map_values(|p: (&'static str, &'static str)| (p.0@, p.1@)) == spec_commands(),
            r.aliases@.map_values(|s: &'static str| s@) == spec_aliases(),
    {
        Process { debugger, commands: command_list(), aliases: alias_list() }
    }
}

} // verus!
