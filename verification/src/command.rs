//! What the command line asks for: the namespaces to copy, and which of
//! the program's commands runs.
use vstd::prelude::*;
use crate::text::{chars_of, string_of, trim, trim_chars, trim_idempotent, trim_keeps_chars};

verus! {

/// The pieces of `s` between single spaces, as `str::split(" ")` cuts
/// it: one more piece than there are spaces, empty pieces included.
pub open spec fn split_spaces(s: Seq<char>) -> Seq<Seq<char>>
    decreases s.len(),
{
    if s.len() == 0 {
        seq![Seq::empty()]
    } else {
        let p = split_spaces(s.drop_last());
        if s.last() == ' ' {
            p.push(Seq::empty())
        } else {
            p.update(p.len() - 1, p.last().push(s.last()))
        }
    }
}

/// The pieces, trimmed of white space, that are not empty once trimmed.
pub open spec fn keep_names(pieces: Seq<Seq<char>>) -> Seq<Seq<char>>
    decreases pieces.len(),
{
    if pieces.len() == 0 {
        Seq::empty()
    } else {
        let rest = keep_names(pieces.drop_last());
        let t = trim(pieces.last());
        if t.len() > 0 {
            rest.push(t)
        } else {
            rest
        }
    }
}

/// The namespaces that a space-separated list names: each piece trimmed
/// of white space, empty pieces skipped.
pub open spec fn namespace_list(s: Seq<char>) -> Seq<Seq<char>> {
    keep_names(split_spaces(s))
}

/// There is always at least one piece.
pub proof fn split_spaces_nonempty(s: Seq<char>)
    ensures
        split_spaces(s).len() >= 1,
    decreases s.len(),
{
    if s.len() > 0 {
        split_spaces_nonempty(s.drop_last());
    }
}

/// No piece holds a space.
proof fn split_spaces_pieces(s: Seq<char>)
    ensures
        split_spaces(s).len() >= 1,
        forall|k: int| 0 <= k < split_spaces(s).len() ==> !(#[trigger] split_spaces(s)[k]).contains(' '),
    decreases s.len(),
{
    if s.len() > 0 {
        split_spaces_pieces(s.drop_last());
        let p = split_spaces(s.drop_last());
        if s.last() != ' ' {
            let l = p.last().push(s.last());
            assert(!l.contains(' ')) by {
                if l.contains(' ') {
                    let j = choose|j: int| 0 <= j < l.len() && l[j] == ' ';
                    if j < p.last().len() {
                        assert(p[p.len() - 1][j] == ' ');
                        assert(p[p.len() - 1].contains(' '));
                    }
                }
            }
        } else {
            assert(!Seq::<char>::empty().contains(' '));
        }
    }
}

/// Appending characters other than spaces extends the last piece.
proof fn split_spaces_append(x: Seq<char>, b: Seq<char>)
    requires
        !b.contains(' '),
    ensures
        split_spaces(x + b) == split_spaces(x).update(
            split_spaces(x).len() - 1,
            split_spaces(x).last() + b,
        ),
    decreases b.len(),
{
    split_spaces_nonempty(x);
    let p = split_spaces(x);
    if b.len() == 0 {
        assert(x + b == x);
        assert(p.last() + b == p.last());
        assert(p.update(p.len() - 1, p.last()) == p);
    } else {
        let b0 = b.drop_last();
        assert(!b0.contains(' ')) by {
            if b0.contains(' ') {
                let j = choose|j: int| 0 <= j < b0.len() && b0[j] == ' ';
                assert(b[j] == ' ');
            }
        }
        split_spaces_append(x, b0);
        assert((x + b).drop_last() == x + b0);
        assert((x + b).last() == b.last());
        assert(b.last() != ' ') by {
            assert(b[b.len() - 1] == b.last());
        }
        assert((p.last() + b0).push(b.last()) == p.last() + b);
        let q = p.update(p.len() - 1, p.last() + b0);
        assert(q.update(q.len() - 1, q.last().push(b.last())) == p.update(p.len() - 1, p.last() + b));
    }
}

/// The names of a list, one space between each two.
pub open spec fn join_spaces(names: Seq<Seq<char>>) -> Seq<char>
    decreases names.len(),
{
    if names.len() == 0 {
        Seq::empty()
    } else if names.len() == 1 {
        names[0]
    } else {
        join_spaces(names.drop_last()) + seq![' '] + names.last()
    }
}

/// Splitting names joined by spaces gives the names back, when none holds
/// a space.
proof fn split_join(names: Seq<Seq<char>>)
    requires
        names.len() >= 1,
        forall|k: int| 0 <= k < names.len() ==> !(#[trigger] names[k]).contains(' '),
    ensures
        split_spaces(join_spaces(names)) == names,
    decreases names.len(),
{
    let e = Seq::<char>::empty();
    if names.len() == 1 {
        split_spaces_append(e, names[0]);
        assert(e + names[0] == names[0]);
        assert(split_spaces(e) == seq![e]);
        assert(seq![e].update(0, e + names[0]) == names);
    } else {
        let front = names.drop_last();
        split_join(front);
        let j = join_spaces(front);
        let js = j + seq![' '];
        assert(js.drop_last() == j);
        assert(split_spaces(js) == front.push(e));
        split_spaces_append(js, names.last());
        assert(e + names.last() == names.last());
        assert(front.push(e).update(front.len() as int, names.last()) == names);
    }
}

/// Keeping the names of a list that is already clean keeps them all.
proof fn keep_clean_names(names: Seq<Seq<char>>)
    requires
        forall|k: int| 0 <= k < names.len() ==> (#[trigger] names[k]).len() > 0 && trim(names[k]) == names[k],
    ensures
        keep_names(names) == names,
    decreases names.len(),
{
    if names.len() > 0 {
        keep_clean_names(names.drop_last());
        assert(names.last() == names[names.len() - 1]);
        assert(names.drop_last().push(names.last()) == names);
    }
}

/// Every name kept is trimmed, not empty, and comes from a piece.
proof fn kept_names_clean(pieces: Seq<Seq<char>>)
    requires
        forall|k: int| 0 <= k < pieces.len() ==> !(#[trigger] pieces[k]).contains(' '),
    ensures
        forall|k: int| 0 <= k < keep_names(pieces).len() ==> {
            &&& (#[trigger] keep_names(pieces)[k]).len() > 0
            &&& trim(keep_names(pieces)[k]) == keep_names(pieces)[k]
            &&& !keep_names(pieces)[k].contains(' ')
        },
    decreases pieces.len(),
{
    if pieces.len() > 0 {
        let front = pieces.drop_last();
        assert forall|k: int| 0 <= k < front.len() implies !(#[trigger] front[k]).contains(' ') by {
            assert(front[k] == pieces[k]);
        }
        kept_names_clean(front);
        let t = trim(pieces.last());
        trim_idempotent(pieces.last());
        assert(!t.contains(' ')) by {
            if t.contains(' ') {
                trim_keeps_chars(pieces.last(), ' ');
                assert(pieces[pieces.len() - 1] == pieces.last());
            }
        }
        let rest = keep_names(front);
        let kept = keep_names(pieces);
        assert forall|k: int| 0 <= k < kept.len() implies {
            &&& (#[trigger] kept[k]).len() > 0
            &&& trim(kept[k]) == kept[k]
            &&& !kept[k].contains(' ')
        } by {
            if k < rest.len() {
                assert(kept[k] == rest[k]);
            } else {
                assert(kept[k] == t);
            }
        }
    }
}

/// Every namespace that a list names is not empty, has no white space
/// at either end, and holds no space.
pub proof fn namespace_list_clean(s: Seq<char>)
    ensures
        forall|k: int| 0 <= k < namespace_list(s).len() ==> {
            &&& (#[trigger] namespace_list(s)[k]).len() > 0
            &&& trim(namespace_list(s)[k]) == namespace_list(s)[k]
            &&& !namespace_list(s)[k].contains(' ')
        },
{
    split_spaces_pieces(s);
    kept_names_clean(split_spaces(s));
}

/// Namespaces that are not empty, have no white space at either end and
/// hold no space come back unchanged from being joined by spaces and
/// split again.
pub proof fn namespace_list_of_joined(names: Seq<Seq<char>>)
    requires
        forall|k: int| 0 <= k < names.len() ==> {
            &&& (#[trigger] names[k]).len() > 0
            &&& trim(names[k]) == names[k]
            &&& !names[k].contains(' ')
        },
    ensures
        namespace_list(join_spaces(names)) == names,
{
    if names.len() == 0 {
        let e = Seq::<char>::empty();
        assert(split_spaces(e) == seq![e]);
        assert(trim(e).len() == 0);
        assert(seq![e].drop_last() =~= Seq::<Seq<char>>::empty());
        assert(seq![e].last() == e);
        assert(keep_names(seq![e]) == keep_names(Seq::<Seq<char>>::empty()));
    } else {
        split_join(names);
        keep_clean_names(names);
    }
}

/// Splitting a list, joining the names with spaces and splitting again
/// gives the same names.
pub proof fn namespace_list_stable(s: Seq<char>)
    ensures
        namespace_list(join_spaces(namespace_list(s))) == namespace_list(s),
{
    namespace_list_clean(s);
    namespace_list_of_joined(namespace_list(s));
}

pub open spec fn strings_view(v: Seq<String>) -> Seq<Seq<char>> {
    v.map_values(|s: String| s@)
}

/// Splits a space-separated list of namespaces: each piece between
/// single spaces is trimmed of white space, and empty pieces are skipped.
pub fn parse_namespace_list(s: &str) -> (r: Vec<String>)
    ensures
        strings_view(r@) == namespace_list(s@),
{
    let cs = chars_of(s);
    let mut done: Vec<String> = Vec::new();
    let mut cur: Vec<char> = Vec::new();
    let mut i: usize = 0;
    proof {
        split_spaces_nonempty(cs@.take(0));
        assert(cs@.take(0) =~= Seq::<char>::empty());
        assert(split_spaces(cs@.take(0)).drop_last() =~= Seq::<Seq<char>>::empty());
        assert(strings_view(done@) =~= Seq::<Seq<char>>::empty());
    }
    while i < cs.len()
        invariant
            i <= cs.len(),
            cs@ == s@,
            split_spaces(cs@.take(i as int)).len() >= 1,
            cur@ == split_spaces(cs@.take(i as int)).last(),
            strings_view(done@) == keep_names(split_spaces(cs@.take(i as int)).drop_last()),
        decreases cs.len() - i,
    {
        let ghost p = split_spaces(cs@.take(i as int));
        assert(cs@.take(i + 1).drop_last() == cs@.take(i as int));
        assert(cs@.take(i + 1).last() == cs@[i as int]);
        let c = cs[i];
        if c == ' ' {
            let t = trim_chars(&cur);
            assert(p.push(Seq::empty()).drop_last() == p);
            assert(p == p.drop_last().push(p.last()));
            if t.len() > 0 {
                let ghost prev = done@;
                done.push(string_of(t.as_slice()));
                assert(strings_view(done@) =~= strings_view(prev).push(trim(p.last())));
            }
            cur = Vec::new();
        } else {
            cur.push(c);
            assert(p.update(p.len() - 1, p.last().push(c)).drop_last() =~= p.drop_last());
        }
        i = i + 1;
    }
    assert(cs@.take(cs.len() as int) == cs@);
    let ghost p = split_spaces(cs@);
    assert(p == p.drop_last().push(p.last()));
    let t = trim_chars(&cur);
    if t.len() > 0 {
        let ghost prev = done@;
        done.push(string_of(t.as_slice()));
        assert(strings_view(done@) =~= strings_view(prev).push(trim(p.last())));
    }
    done
}

/// The data directory read when none is given.
pub open spec fn default_db_path() -> Seq<char> {
    "/data/db"@
}

/// The data directory to read: the one given, or `/data/db`.
pub fn db_path(given: Option<String>) -> (r: String)
    ensures
        r@ == match given {
            Some(p) => p@,
            None => default_db_path(),
        },
{
    match given {
        Some(p) => p,
        None => string_of(chars_of("/data/db").as_slice()),
    }
}

/// What the program does, once its options are read.
#[derive(Clone, Debug, PartialEq, Eq)]
pub enum Command {
    /// Print the usage and stop.
    Usage,
    /// List every namespace with its tables and indexes.
    List,
    /// Stop: there is nowhere to copy to.
    MissingOutpath,
    /// List the namespaces briefly and ask for some with `-n`.
    ChooseNamespace,
    /// Copy these namespaces, in order, into the data directory `out_path`.
    Copy { out_path: String, namespaces: Vec<String> },
}

pub enum CommandView {
    Usage,
    List,
    MissingOutpath,
    ChooseNamespace,
    Copy { out_path: Seq<char>, namespaces: Seq<Seq<char>> },
}

impl View for Command {
    type V = CommandView;

    open spec fn view(&self) -> CommandView {
        match self {
            Command::Usage => CommandView::Usage,
            Command::List => CommandView::List,
            Command::MissingOutpath => CommandView::MissingOutpath,
            Command::ChooseNamespace => CommandView::ChooseNamespace,
            Command::Copy { out_path, namespaces } => CommandView::Copy {
                out_path: out_path@,
                namespaces: strings_view(namespaces@),
            },
        }
    }
}

/// The command for the flags `-h` and `-l` and the values of `-o` and
/// `-n`: help first, then listing; copying needs an output directory and
/// then a list of namespaces.
pub open spec fn command_for(
    help: bool,
    list: bool,
    out_path: Option<Seq<char>>,
    namespaces: Option<Seq<char>>,
) -> CommandView {
    if help {
        CommandView::Usage
    } else if list {
        CommandView::List
    } else {
        match out_path {
            None => CommandView::MissingOutpath,
            Some(o) => match namespaces {
                None => CommandView::ChooseNamespace,
                Some(n) => CommandView::Copy { out_path: o, namespaces: namespace_list(n) },
            },
        }
    }
}

pub open spec fn opt_view(o: Option<String>) -> Option<Seq<char>> {
    match o {
        Some(s) => Some(s@),
        None => None,
    }
}

/// The help flag wins over every other option: with it the program only
/// prints its usage.  Without it, listing wins over copying; copying
/// needs an output directory first, then namespaces, and copies the
/// namespaces that `-n` lists.
pub proof fn command_priorities(
    list: bool,
    out_path: Option<Seq<char>>,
    namespaces: Option<Seq<char>>,
    o: Seq<char>,
    n: Seq<char>,
)
    ensures
        command_for(true, list, out_path, namespaces) == CommandView::Usage,
        command_for(false, true, out_path, namespaces) == CommandView::List,
        command_for(false, false, None, namespaces) == CommandView::MissingOutpath,
        command_for(false, false, Some(o), None) == CommandView::ChooseNamespace,
        command_for(false, false, Some(o), Some(n)) == (CommandView::Copy {
            out_path: o,
            namespaces: namespace_list(n),
        }),
{
}

/// Decides what the program does from its options.
pub fn choose_command(help: bool, list: bool, out_path: Option<String>, namespaces: Option<String>) -> (r: Command)
    ensures
        r@ == command_for(help, list, opt_view(out_path), opt_view(namespaces)),
        help ==> r@ == CommandView::Usage,
        !help && list ==> r@ == CommandView::List,
        !help && !list && out_path is None ==> r@ == CommandView::MissingOutpath,
        !help && !list && out_path is Some && namespaces is None ==> r@ == CommandView::ChooseNamespace,
        !help && !list && out_path is Some && namespaces is Some ==> r@ == (CommandView::Copy {
            out_path: out_path->Some_0@,
            namespaces: namespace_list(namespaces->Some_0@),
        }),
{
    if help {
        Command::Usage
    } else if list {
        Command::List
    } else {
        match out_path {
            None => Command::MissingOutpath,
            Some(o) => match namespaces {
                None => Command::ChooseNamespace,
                Some(n) => Command::Copy { out_path: o, namespaces: parse_namespace_list(n.as_str()) },
            },
        }
    }
}

} // verus!
