//! Arguments of commands that take player names.
//!
//! A name that is a mention of a user is handed on as written; resolving it
//! to the user's linked account is a lookup of the caller's.
use vstd::prelude::*;

use crate::args::Args;
use crate::records::opt_view;
use crate::rank::{get_mention_user, mention_id, parse_u32, parses_u32, u32_value};
use crate::resource::GameMode;

verus! {

/// One optional player name.
pub struct NameArgs {
    pub name: Option<String>,
}

impl NameArgs {
    /// The first argument, if any.
    pub fn new(args: Args) -> (r: NameArgs)
        requires
            args.wf(),
        ensures
            opt_view(r.name) == if args.rest().len() > 0 {
                Some(args.rest()[0])
            } else {
                None
            },
    {
        let mut args = args;
        NameArgs { name: args.next() }
    }
}

/// Up to a given number of distinct player names.
pub struct MultNameArgs {
    pub names: Vec<String>,
}

/// `s` without repeats, each kept where it first occurs.
pub open spec fn unique(s: Seq<Seq<char>>) -> Seq<Seq<char>>
    decreases s.len(),
{
    if s.len() == 0 {
        s
    } else {
        let d = unique(s.drop_last());
        if d.contains(s.last()) {
            d
        } else {
            d.push(s.last())
        }
    }
}

pub open spec fn texts(v: Seq<String>) -> Seq<Seq<char>> {
    v.map_values(|s: String| s@)
}

fn contains_text(v: &Vec<String>, x: &String) -> (r: bool)
    ensures
        r == texts(v@).contains(x@),
{
    let mut i: usize = 0;
    while i < v.len()
        invariant
            i <= v@.len(),
            forall|j: int| 0 <= j < i ==> v@[j]@ != x@,
        decreases v@.len() - i,
    {
        if v[i] == *x {
            assert(texts(v@)[i as int] == x@);
            return true;
        }
        i = i + 1;
    }
    assert(!texts(v@).contains(x@)) by {
        if texts(v@).contains(x@) {
            let j = choose|j: int| 0 <= j < texts(v@).len() && texts(v@)[j] == x@;
            assert(v@[j]@ == x@);
        }
    }
    false
}

impl MultNameArgs {
    /// The distinct names among the first `n` arguments, in order.
    pub fn new(args: Args, n: usize) -> (r: MultNameArgs)
        requires
            args.wf(),
        ensures
            texts(r.names@) == unique(args.rest().take(
                if n <= args.rest().len() {
                    n as int
                } else {
                    args.rest().len() as int
                },
            )),
    {
        let mut rest = args;
        let ghost ws = rest.rest();
        let ghost m: int = if n <= ws.len() {
            n as int
        } else {
            ws.len() as int
        };
        let mut names: Vec<String> = Vec::new();
        let mut taken: usize = 0;
        while taken < n
            invariant
                rest.wf(),
                ws == args.rest(),
                taken <= n,
                taken <= m,
                rest.rest() == ws.subrange(taken as int, ws.len() as int),
                texts(names@) == unique(ws.take(taken as int)),
                m == if n <= ws.len() {
                    n as int
                } else {
                    ws.len() as int
                },
            decreases n - taken,
        {
            match rest.next() {
                Some(w) => {
                    assert(ws.take(taken + 1).drop_last() =~= ws.take(taken as int));
                    assert(ws.take(taken + 1).last() == w@);
                    if !contains_text(&names, &w) {
                        let ghost prev = names@;
                        names.push(w);
                        assert(texts(names@) =~= texts(prev).push(w@));
                    }
                    taken = taken + 1;
                    assert(rest.rest() =~= ws.subrange(taken as int, ws.len() as int));
                },
                None => {
                    assert(ws.subrange(taken as int, ws.len() as int).len() == 0);
                    assert(taken as int == ws.len());
                    assert(ws.take(taken as int) =~= ws.take(m));
                    return MultNameArgs { names };
                },
            }
        }
        MultNameArgs { names }
    }
}

/// A player name and a number, in any order.
pub struct NameIntArgs {
    pub name: Option<String>,
    pub number: Option<u32>,
}

/// The last argument that is a number, and the last that is not.
pub open spec fn name_and_number(ws: Seq<Seq<char>>) -> (Option<Seq<char>>, Option<u32>)
    decreases ws.len(),
{
    if ws.len() == 0 {
        (None, None)
    } else {
        let (name, number) = name_and_number(ws.drop_last());
        if parses_u32(ws.last()) {
            (name, Some(u32_value(ws.last()) as u32))
        } else {
            (Some(ws.last()), number)
        }
    }
}

impl NameIntArgs {
    pub fn new(args: Args) -> (r: NameIntArgs)
        requires
            args.wf(),
        ensures
            (opt_view(r.name), r.number) == name_and_number(args.rest()),
    {
        let mut rest = args;
        let ghost ws = rest.rest();
        let mut name: Option<String> = None;
        let mut number: Option<u32> = None;
        let ghost mut k: int = 0;
        loop
            invariant
                rest.wf(),
                ws == args.rest(),
                0 <= k <= ws.len(),
                rest.rest() == ws.subrange(k, ws.len() as int),
                (opt_view(name), number) == name_and_number(ws.take(k)),
            ensures
                (opt_view(name), number) == name_and_number(ws),
            decreases ws.len() - k,
        {
            match rest.next() {
                Some(w) => {
                    assert(ws.take(k + 1).drop_last() =~= ws.take(k));
                    assert(ws.take(k + 1).last() == w@);
                    match parse_u32(w.as_str()) {
                        Some(v) => {
                            number = Some(v);
                        },
                        None => {
                            name = Some(w);
                        },
                    }
                    proof { k = k + 1; }
                    assert(rest.rest() =~= ws.subrange(k, ws.len() as int));
                },
                None => {
                    assert(ws.subrange(k, ws.len() as int).len() == 0);
                    assert(k == ws.len());
                    assert(ws.take(k) =~= ws);
                    break;
                },
            }
        }
        NameIntArgs { name, number }
    }
}

/// The two players to compare, each by name or by a mention of their user.
pub struct CompareProfile {
    pub mode: Option<GameMode>,
    pub name1: Option<String>,
    pub name2: Option<String>,
    pub discord1: Option<u64>,
    pub discord2: Option<u64>,
}

/// The names and users read so far.
pub struct CompareView {
    pub name1: Option<Seq<char>>,
    pub name2: Option<Seq<char>>,
    pub discord1: Option<u64>,
    pub discord2: Option<u64>,
}

/// Reading one more argument: a mention fills the first free user (or
/// replaces the second), anything else the first free name (or replaces the
/// second).
pub open spec fn compare_step(v: CompareView, w: Seq<char>) -> CompareView {
    match mention_id(w) {
        Some(id) => if v.discord1 is None {
            CompareView { discord1: Some(id), ..v }
        } else {
            CompareView { discord2: Some(id), ..v }
        },
        None => if v.name1 is None {
            CompareView { name1: Some(w), ..v }
        } else {
            CompareView { name2: Some(w), ..v }
        },
    }
}

/// What the first two of the arguments `ws` give.
pub open spec fn compare_args(ws: Seq<Seq<char>>) -> CompareView {
    let empty = CompareView { name1: None, name2: None, discord1: None, discord2: None };
    if ws.len() == 0 {
        empty
    } else if ws.len() == 1 {
        compare_step(empty, ws[0])
    } else {
        compare_step(compare_step(empty, ws[0]), ws[1])
    }
}

impl CompareProfile {
    pub open spec fn view_of(&self) -> CompareView {
        CompareView {
            name1: opt_view(self.name1),
            name2: opt_view(self.name2),
            discord1: self.discord1,
            discord2: self.discord2,
        }
    }

    fn step(&mut self, w: String)
        ensures
            final(self).view_of() == compare_step(old(self).view_of(), w@),
            final(self).mode == old(self).mode,
    {
        match get_mention_user(w.as_str()) {
            Some(id) => if self.discord1.is_none() {
                self.discord1 = Some(id);
            } else {
                self.discord2 = Some(id);
            },
            None => if self.name1.is_none() {
                self.name1 = Some(w);
            } else {
                self.name2 = Some(w);
            },
        }
    }

    /// Reads the two players from the first two arguments.
    pub fn args(mode: Option<GameMode>, args: Args) -> (r: CompareProfile)
        requires
            args.wf(),
        ensures
            r.mode == mode,
            r.view_of() == compare_args(args.rest()),
    {
        let mut rest = args;
        let mut r = CompareProfile { mode, name1: None, name2: None, discord1: None, discord2: None };
        match rest.next() {
            Some(first) => {
                r.step(first);
                match rest.next() {
                    Some(second) => r.step(second),
                    None => {},
                }
            },
            None => {},
        }
        r
    }
}

} // verus!
