//! A view over a text that hands out, one at a time, the pieces between
//! occurrences of a delimiter.
use vstd::prelude::*;

verus! {

/// `d` occurs in `s` starting at character position `i`.
pub open spec fn occurs_at(s: Seq<char>, d: Seq<char>, i: int) -> bool {
    0 <= i && i + d.len() <= s.len() && s.subrange(i, i + d.len()) == d
}

/// The first position at or after `start` where `d` occurs in `s`, if any.
pub open spec fn first_occurrence_from(s: Seq<char>, d: Seq<char>, start: int) -> Option<int>
    decreases s.len() + 1 - start,
{
    if start < 0 || start + d.len() > s.len() {
        None
    } else if occurs_at(s, d, start) {
        Some(start)
    } else {
        first_occurrence_from(s, d, start + 1)
    }
}

/// The first position where `d` occurs in `s`, if any.
pub open spec fn first_occurrence(s: Seq<char>, d: Seq<char>) -> Option<int> {
    first_occurrence_from(s, d, 0)
}

/// The piece of `s` before the first occurrence of `d`, or all of `s` when `d`
/// does not occur.
pub open spec fn head_piece(s: Seq<char>, d: Seq<char>) -> Seq<char> {
    match first_occurrence(s, d) {
        Some(i) => s.subrange(0, i),
        None => s,
    }
}

/// What is left of `s` after its first piece and the delimiter that ends it;
/// nothing when `d` does not occur.
pub open spec fn rest_after_head(s: Seq<char>, d: Seq<char>) -> Option<Seq<char>> {
    match first_occurrence(s, d) {
        Some(i) => Some(s.subrange(i + d.len(), s.len() as int)),
        None => None,
    }
}

/// What `first_occurrence_from` returns is an occurrence, and no position
/// between `start` and it holds one.
pub proof fn lemma_first_occurrence_from(s: Seq<char>, d: Seq<char>, start: int)
    requires
        0 <= start,
    ensures
        match first_occurrence_from(s, d, start) {
            Some(i) => start <= i && occurs_at(s, d, i) && forall|j: int|
                start <= j < i ==> !#[trigger] occurs_at(s, d, j),
            None => forall|j: int| start <= j ==> !#[trigger] occurs_at(s, d, j),
        },
    decreases s.len() + 1 - start,
{
    if start + d.len() <= s.len() && !occurs_at(s, d, start) {
        lemma_first_occurrence_from(s, d, start + 1);
    }
}

/// Finds the first character position where `d` occurs in `s`.
fn find_first(s: &str, d: &str) -> (r: Option<usize>)
    ensures
        match first_occurrence(s@, d@) {
            Some(i) => r == Some(i as usize),
            None => r is None,
        },
{
    let n = s.unicode_len();
    let m = d.unicode_len();
    if m > n {
        return None;
    }
    let mut i: usize = 0;
    while i <= n - m
        invariant
            n == s@.len(),
            m == d@.len(),
            m <= n,
            i <= n - m + 1,
            first_occurrence(s@, d@) == first_occurrence_from(s@, d@, i as int),
        decreases n - m + 1 - i,
    {
        let mut k: usize = 0;
        let mut same = true;
        while k < m && same
            invariant
                n == s@.len(),
                m == d@.len(),
                i + m <= n,
                k <= m,
                forall|j: int| 0 <= j < k ==> s@[i + j] == d@[j],
                !same ==> k < m && s@[i + k as int] != d@[k as int],
            decreases m - k + (if same { 1int } else { 0int }),
        {
            if s.get_char(i + k) != d.get_char(k) {
                same = false;
            } else {
                k = k + 1;
            }
        }
        if same {
            assert(s@.subrange(i as int, i + m) =~= d@);
            return Some(i);
        }
        assert(!occurs_at(s@, d@, i as int)) by {
            if s@.subrange(i as int, i + m) == d@ {
                assert(s@[i + k as int] == s@.subrange(i as int, i + m)[k as int]);
            }
        }
        i = i + 1;
    }
    None
}

/// All pieces of `s` between occurrences of `d`, in order; the last piece is
/// what follows the last occurrence, empty when `s` ends with `d`.
pub open spec fn pieces(s: Seq<char>, d: Seq<char>) -> Seq<Seq<char>>
    decreases s.len(),
    when d.len() > 0
    via pieces_decreases
{
    match first_occurrence(s, d) {
        Some(i) => seq![s.subrange(0, i)] + pieces(s.subrange(i + d.len(), s.len() as int), d),
        None => seq![s],
    }
}

#[via_fn]
proof fn pieces_decreases(s: Seq<char>, d: Seq<char>) {
    lemma_first_occurrence_from(s, d, 0);
}

/// The pieces still to come from a remainder: none once the text is used up.
pub open spec fn pieces_left(remainder: Option<Seq<char>>, d: Seq<char>) -> Seq<Seq<char>> {
    match remainder {
        Some(s) => pieces(s, d),
        None => Seq::empty(),
    }
}

/// Cuts a borrowed text at each occurrence of a borrowed delimiter. The pieces
/// borrow from the text only, so they may outlive the delimiter.
pub struct StrSplit<'a, 'b> {
    remainder: Option<&'a str>,
    delimiter: &'b str,
}

impl<'a, 'b> StrSplit<'a, 'b> {
    /// The text not yet handed out; nothing once the last piece has gone.
    pub closed spec fn remainder_view(&self) -> Option<Seq<char>> {
        match self.remainder {
            Some(r) => Some(r@),
            None => None,
        }
    }

    /// The delimiter.
    pub closed spec fn delimiter_view(&self) -> Seq<char> {
        self.delimiter@
    }

    /// Starts splitting `haystack` at each occurrence of `delimiter`.
    pub fn new(haystack: &'a str, delimiter: &'b str) -> (r: Self)
        ensures
            r.remainder_view() == Some(haystack@),
            r.delimiter_view() == delimiter@,
    {
        StrSplit { remainder: Some(haystack), delimiter }
    }

    /// Hands out the next piece: the remainder up to the first occurrence of the
    /// delimiter, which is then skipped; or, where the delimiter does not occur,
    /// the whole remainder, after which nothing is left.
    pub fn next(&mut self) -> (r: Option<&'a str>)
        ensures
            final(self).delimiter_view() == old(self).delimiter_view(),
            match old(self).remainder_view() {
                None => r is None && final(self).remainder_view() is None,
                Some(s) => r is Some && r->0@ == head_piece(s, old(self).delimiter_view())
                    && final(self).remainder_view() == rest_after_head(
                    s,
                    old(self).delimiter_view(),
                ),
            },
    {
        match self.remainder {
            None => None,
            Some(rem) => {
                proof {
                    lemma_first_occurrence_from(rem@, self.delimiter@, 0);
                }
                match find_first(rem, self.delimiter) {
                    Some(i) => {
                        let n = rem.unicode_len();
                        let m = self.delimiter.unicode_len();
                        let piece = rem.substring_char(0, i);
                        self.remainder = Some(rem.substring_char(i + m, n));
                        Some(piece)
                    },
                    None => {
                        self.remainder = None;
                        Some(rem)
                    },
                }
            },
        }
    }

    /// Hands out every piece still to come, in order. The delimiter must not be
    /// empty: an empty one occurs everywhere, and the pieces would never end.
    pub fn collect_all(self) -> (r: Vec<&'a str>)
        requires
            self.delimiter_view().len() > 0,
        ensures
            r@.len() == pieces_left(self.remainder_view(), self.delimiter_view()).len(),
            forall|i: int|
                0 <= i < r@.len() ==> #[trigger] r@[i]@ == pieces_left(
                    self.remainder_view(),
                    self.delimiter_view(),
                )[i],
    {
        let ghost d = self.delimiter_view();
        let ghost all = pieces_left(self.remainder_view(), d);
        let mut rest = self;
        let mut out: Vec<&'a str> = Vec::new();
        loop
            invariant
                d.len() > 0,
                rest.delimiter_view() == d,
                out@.len() <= all.len(),
                pieces_left(rest.remainder_view(), d) == all.subrange(
                    out@.len() as int,
                    all.len() as int,
                ),
                forall|i: int| 0 <= i < out@.len() ==> #[trigger] out@[i]@ == all[i],
        ensures
            out@.len() == all.len(),
            forall|i: int| 0 <= i < out@.len() ==> #[trigger] out@[i]@ == all[i],
        decreases
                match rest.remainder_view() {
                    Some(s) => s.len() + 1,
                    None => 0,
                },
        {
            let ghost before = rest.remainder_view();
            proof {
                if let Some(s) = before {
                    lemma_first_occurrence_from(s, d, 0);
                    assert(pieces(s, d) == seq![head_piece(s, d)] + pieces_left(
                        rest_after_head(s, d),
                        d,
                    ));
                }
            }
            match rest.next() {
                Some(p) => {
                    let ghost k = out@.len() as int;
                    assert(pieces_left(before, d)[0] == all[k]);
                    assert(pieces_left(rest.remainder_view(), d) =~= pieces_left(
                        before,
                        d,
                    ).subrange(1, pieces_left(before, d).len() as int));
                    out.push(p);
                    assert(pieces_left(rest.remainder_view(), d) =~= all.subrange(
                        out@.len() as int,
                        all.len() as int,
                    ));
                },
                None => {
                    assert(all.subrange(out@.len() as int, all.len() as int).len() == 0);
                    break;
                },
            }
        }
        out
    }
}

/// The text of `s` before the first occurrence of `c`, or all of `s` where `c`
/// does not occur.
pub fn until_char(s: &str, c: char) -> (r: &str)
    ensures
        r@ == head_piece(s@, seq![c]),
{
    let delimiter = char_to_string(c);
    let mut split = StrSplit::new(s, delimiter.as_str());
    match split.next() {
        Some(piece) => piece,
        None => s,
    }
}

/// Relies on `ToString::to_string` for `char`: a string of that one character.
#[verifier::external_body]
fn char_to_string(c: char) -> (r: String)
    ensures
        r@ == seq![c],
{
    c.to_string()
}

} // verus!
