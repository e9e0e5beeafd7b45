//! Splitting a command's text into arguments, and the number parsers that
//! the argument rules use.
use vstd::prelude::*;

verus! {

pub open spec fn is_space(c: char) -> bool {
    c == ' ' || c == '\t' || c == '\n' || c == '\r'
}

pub open spec fn is_digit(c: char) -> bool {
    '0' <= c <= '9'
}

pub open spec fn is_alpha(c: char) -> bool {
    ('a' <= c <= 'z') || ('A' <= c <= 'Z')
}

/// The first index from `i` on that holds no space, or the length.
pub open spec fn skip_spaces(s: Seq<char>, i: int) -> int
    decreases s.len() - i,
{
    if i >= s.len() {
        s.len() as int
    } else if is_space(s[i]) {
        skip_spaces(s, i + 1)
    } else {
        i
    }
}

/// The first index from `i` on that holds a space, or the length.
pub open spec fn word_end(s: Seq<char>, i: int) -> int
    decreases s.len() - i,
{
    if i >= s.len() {
        s.len() as int
    } else if is_space(s[i]) {
        i
    } else {
        word_end(s, i + 1)
    }
}

proof fn lemma_skip_bounds(s: Seq<char>, i: int)
    requires
        0 <= i <= s.len(),
    ensures
        i <= skip_spaces(s, i) <= s.len(),
        skip_spaces(s, i) < s.len() ==> !is_space(s[skip_spaces(s, i)]),
    decreases s.len() - i,
{
    if i < s.len() && is_space(s[i]) {
        lemma_skip_bounds(s, i + 1);
    }
}

proof fn lemma_end_bounds(s: Seq<char>, i: int)
    requires
        0 <= i <= s.len(),
    ensures
        i <= word_end(s, i) <= s.len(),
    decreases s.len() - i,
{
    if i < s.len() && !is_space(s[i]) {
        lemma_end_bounds(s, i + 1);
    }
}

/// The words of `s` from index `i` on: the maximal runs without spaces.
pub open spec fn words_from(s: Seq<char>, i: int) -> Seq<Seq<char>>
    decreases s.len() - i,
{
    let start = skip_spaces(s, i);
    if i < 0 || i >= s.len() || start >= s.len() {
        Seq::empty()
    } else {
        let end = word_end(s, start);
        if end <= i || end > s.len() {
            Seq::empty()
        } else {
            seq![s.subrange(start, end)] + words_from(s, end)
        }
    }
}

/// The words of `s`.
pub open spec fn words(s: Seq<char>) -> Seq<Seq<char>> {
    words_from(s, 0)
}

fn skip_spaces_exec(s: &str, n: usize, i: usize) -> (r: usize)
    requires
        n == s@.len(),
        i <= n,
    ensures
        r == skip_spaces(s@, i as int),
{
    let mut j = i;
    while j < n && is_space_exec(s.get_char(j))
        invariant
            n == s@.len(),
            i <= j <= n,
            skip_spaces(s@, j as int) == skip_spaces(s@, i as int),
        decreases n - j,
    {
        j = j + 1;
    }
    j
}

fn word_end_exec(s: &str, n: usize, i: usize) -> (r: usize)
    requires
        n == s@.len(),
        i <= n,
    ensures
        r == word_end(s@, i as int),
{
    let mut j = i;
    while j < n && !is_space_exec(s.get_char(j))
        invariant
            n == s@.len(),
            i <= j <= n,
            word_end(s@, j as int) == word_end(s@, i as int),
        decreases n - j,
    {
        j = j + 1;
    }
    j
}

pub fn is_space_exec(c: char) -> (r: bool)
    ensures
        r == is_space(c),
{
    c == ' ' || c == '\t' || c == '\n' || c == '\r'
}

pub fn is_digit_exec(c: char) -> (r: bool)
    ensures
        r == is_digit(c),
{
    '0' <= c && c <= '9'
}

pub fn is_alpha_exec(c: char) -> (r: bool)
    ensures
        r == is_alpha(c),
{
    ('a' <= c && c <= 'z') || ('A' <= c && c <= 'Z')
}

/// The number that a prefix command's name carried, if any (as `5` in
/// `top5`).
#[derive(Clone, Copy, Debug, PartialEq, Eq, Structural)]
pub enum ArgsNum {
    NoNumber,
    Value(u32),
}

/// The arguments of a prefix command, in order.
pub struct Args {
    words: Vec<String>,
    next: usize,
    num: ArgsNum,
}

impl Args {
    /// The words not yet taken.
    pub closed spec fn rest(&self) -> Seq<Seq<char>> {
        self.words@.map_values(|w: String| w@).subrange(self.next as int, self.words@.len() as int)
    }

    pub closed spec fn num_view(&self) -> ArgsNum {
        self.num
    }

    /// The number that the command's name carried.
    pub fn num(&self) -> (r: ArgsNum)
        ensures
            r == self.num_view(),
    {
        self.num
    }

    pub closed spec fn wf(&self) -> bool {
        self.next <= self.words@.len()
    }

    /// Splits `text` into words at spaces, tabs and line breaks.
    pub fn new(text: &str, num: ArgsNum) -> (r: Args)
        ensures
            r.wf(),
            r.rest() == words(text@),
            r.num_view() == num,
    {
        let n = text.unicode_len();
        let mut out: Vec<String> = Vec::new();
        let mut i: usize = 0;
        while i < n
            invariant
                n == text@.len(),
                i <= n,
                out@.map_values(|w: String| w@) + words_from(text@, i as int) == words(text@),
            decreases n - i,
        {
            let start = skip_spaces_exec(text, n, i);
            proof { lemma_skip_bounds(text@, i as int); }
            if start >= n {
                assert(words_from(text@, i as int) =~= Seq::<Seq<char>>::empty());
                i = n;
            } else {
                let end = word_end_exec(text, n, start);
                proof {
                    lemma_end_bounds(text@, start + 1);
                    assert(word_end(text@, start as int) == word_end(text@, start + 1));
                }
                let ghost prev = out@;
                out.push(String::from_str(text.substring_char(start, end)));
                assert(out@.map_values(|w: String| w@) =~= prev.map_values(|w: String| w@).push(
                    text@.subrange(start as int, end as int),
                ));
                assert(words_from(text@, i as int) == seq![text@.subrange(start as int, end as int)]
                    + words_from(text@, end as int));
                i = end;
            }
        }
        assert(words_from(text@, n as int) =~= Seq::<Seq<char>>::empty());
        assert(out@.map_values(|w: String| w@) =~= words(text@));
        assert(out@.map_values(|w: String| w@).subrange(0, out@.len() as int) =~= out@.map_values(
            |w: String| w@,
        ));
        Args { words: out, next: 0, num }
    }

    /// Takes the next word.
    pub fn next(&mut self) -> (r: Option<String>)
        requires
            old(self).wf(),
        ensures
            final(self).wf(),
            old(self).rest().len() == 0 ==> r is None && final(self).rest() == old(self).rest(),
            old(self).rest().len() > 0 ==> (r matches Some(w) && w@ == old(self).rest()[0]
                && final(self).rest() == old(self).rest().drop_first()),
    {
        if self.next < self.words.len() {
            let w = self.words[self.next].clone();
            let ghost before = self.rest();
            self.next = self.next + 1;
            assert(self.rest() =~= before.drop_first());
            Some(w)
        } else {
            None
        }
    }
}

} // verus!
