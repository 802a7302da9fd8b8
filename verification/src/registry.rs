//! The executable registry: a text that names, line by line, a formula and
//! the executables that it provides.

use vstd::prelude::*;
use crate::aggregate::{lemma_take_step, sets_wf};
use crate::brew::Brew;
use crate::names::NameSet;
use crate::store::Store;
use crate::text::{
    chars_of, find_in, is_whitespace, lemma_find_none, spec_find, spec_is_whitespace, string_of,
};

verus! {

/// The lines of a text: what stands between its newlines. A text that ends
/// in a newline has no empty line after it.
pub open spec fn spec_lines(text: Seq<char>) -> Seq<Seq<char>>
    decreases text.len(),
{
    match spec_find(text, '\n') {
        None => if text.len() == 0 {
            Seq::empty()
        } else {
            seq![text]
        },
        Some(i) => if 0 <= i < text.len() {
            seq![text.take(i)] + spec_lines(text.skip(i + 1))
        } else {
            Seq::empty()
        },
    }
}

/// From `i` up to `j` stands a word of `s`: no whitespace in it, and
/// whitespace or an end of `s` on both sides.
pub open spec fn is_word_at(s: Seq<char>, i: int, j: int) -> bool {
    &&& 0 <= i < j <= s.len()
    &&& forall|k: int| i <= k < j ==> !spec_is_whitespace(#[trigger] s[k])
    &&& (i == 0 || spec_is_whitespace(s[i - 1]))
    &&& (j == s.len() || spec_is_whitespace(s[j]))
}

/// `w` is a word of `s` that ends at `limit` or before.
pub open spec fn is_word_before(s: Seq<char>, w: Seq<char>, limit: int) -> bool {
    exists|i: int, j: int| #[trigger] is_word_at(s, i, j) && j <= limit && s.subrange(i, j) == w
}

/// The words of `s`: what whitespace separates in it, each taken once.
pub open spec fn spec_words(s: Seq<char>) -> Set<Seq<char>> {
    Set::new(|w: Seq<char>| is_word_before(s, w, s.len() as int))
}

/// What a line says: the identifier, which is what stands before the first
/// opening parenthesis of what stands before the first colon, and the words
/// after that colon. A line without a colon, or without a parenthesis before
/// it, says nothing.
pub open spec fn spec_parse_line(line: Seq<char>) -> Option<(Seq<char>, Set<Seq<char>>)> {
    match spec_find(line, ':') {
        None => None,
        Some(colon) => match spec_find(line.take(colon), '(') {
            None => None,
            Some(paren) => Some((line.take(paren), spec_words(line.skip(colon + 1)))),
        },
    }
}

/// The registry that a sequence of lines gives: each line that says
/// something puts its set under its identifier, a later line over an
/// earlier one.
pub open spec fn spec_fold_lines(lines: Seq<Seq<char>>) -> Map<Seq<char>, Set<Seq<char>>>
    decreases lines.len(),
{
    if lines.len() == 0 {
        Map::empty()
    } else {
        let rest = spec_fold_lines(lines.drop_last());
        match spec_parse_line(lines.last()) {
            Some((name, words)) => rest.insert(name, words),
            None => rest,
        }
    }
}

/// The registry that a text gives.
pub open spec fn spec_registry(text: Seq<char>) -> Map<Seq<char>, Set<Seq<char>>> {
    spec_fold_lines(spec_lines(text))
}

/// The sets of a store of name sets.
pub open spec fn set_views(store: Store<NameSet>) -> Map<Seq<char>, Set<Seq<char>>> {
    Map::new(|k: Seq<char>| store@.contains_key(k), |k: Seq<char>| store@[k]@)
}

/// The parts of `text` that the pairs of places cut out of it.
pub open spec fn spec_cuts(text: Seq<char>, bounds: Seq<(usize, usize)>) -> Seq<Seq<char>> {
    bounds.map_values(|b: (usize, usize)| text.subrange(b.0 as int, b.1 as int))
}

/// Where the lines of `text` begin and end.
pub fn lines(text: &Vec<char>) -> (r: Vec<(usize, usize)>)
    ensures
        forall|k: int| 0 <= k < r@.len() ==> (#[trigger] r@[k]).0 <= r@[k].1 <= text@.len(),
        spec_cuts(text@, r@) == spec_lines(text@),
{
    let n = text.len();
    let mut out: Vec<(usize, usize)> = Vec::new();
    let mut start: usize = 0;
    let mut done = false;
    assert(spec_cuts(text@, out@) =~= Seq::<Seq<char>>::empty());
    assert(text@.skip(0) =~= text@);
    while !done
        invariant
            n == text@.len(),
            start <= n,
            forall|k: int| 0 <= k < out@.len() ==> (#[trigger] out@[k]).0 <= out@[k].1 <= n,
            !done ==> spec_lines(text@) == spec_cuts(text@, out@) + spec_lines(
                text@.skip(start as int),
            ),
            done ==> spec_lines(text@) == spec_cuts(text@, out@),
        decreases (if done { 0int } else { 1int }), n - start,
    {
        let ghost rest = text@.skip(start as int);
        let ghost before = out@;
        assert(rest =~= text@.subrange(start as int, n as int));
        match find_in(text, start, n, '\n') {
            Some(end) => {
                out.push((start, end));
                proof {
                    assert(rest.take(end - start) =~= text@.subrange(start as int, end as int));
                    assert(rest.skip(end - start + 1) =~= text@.skip(end as int + 1));
                    assert(spec_cuts(text@, out@) =~= spec_cuts(text@, before).push(
                        text@.subrange(start as int, end as int),
                    ));
                    assert(spec_cuts(text@, before) + (seq![rest.take(end - start)] + spec_lines(
                        rest.skip(end - start + 1),
                    )) =~= spec_cuts(text@, out@) + spec_lines(text@.skip(end as int + 1)));
                }
                start = end + 1;
            },
            None => {
                if start < n {
                    out.push((start, n));
                    proof {
                        assert(spec_cuts(text@, out@) =~= spec_cuts(text@, before).push(rest));
                        assert(spec_cuts(text@, before) + seq![rest] =~= spec_cuts(text@, out@));
                    }
                } else {
                    assert(spec_cuts(text@, before) + Seq::<Seq<char>>::empty() =~= spec_cuts(
                        text@,
                        out@,
                    ));
                }
                done = true;
            },
        }
    }
    out
}

/// The words that stand in `text` from `from` up to `to`.
pub fn words(text: &Vec<char>, from: usize, to: usize) -> (r: NameSet)
    requires
        from <= to <= text@.len(),
    ensures
        r.wf(),
        r@ == spec_words(text@.subrange(from as int, to as int)),
{
    let ghost s = text@.subrange(from as int, to as int);
    let mut out = NameSet::new();
    let mut i: usize = from;
    while i < to
        invariant
            from <= i <= to <= text@.len(),
            s == text@.subrange(from as int, to as int),
            out.wf(),
            i == from || i == to || spec_is_whitespace(s[i - from - 1]),
            forall|w: Seq<char>| #[trigger] out@.contains(w) <==> is_word_before(s, w, i - from),
        decreases to - i,
    {
        let ghost a = i - from;
        let ghost before = out@;
        assert(s[a] == text@[i as int]);
        if is_whitespace(text[i]) {
            i += 1;
            proof {
                assert forall|w: Seq<char>| is_word_before(s, w, a + 1) implies is_word_before(
                    s,
                    w,
                    a,
                ) by {
                    let (x, y) = choose|x: int, y: int| #[trigger]
                        is_word_at(s, x, y) && y <= a + 1 && s.subrange(x, y) == w;
                    if y == a + 1 {
                        assert(!spec_is_whitespace(s[a]));
                    }
                    assert(is_word_at(s, x, y) && y <= a && s.subrange(x, y) == w);
                }
            }
        } else {
            let mut j: usize = i + 1;
            while j < to && !is_whitespace(text[j])
                invariant
                    from <= i < j <= to <= text@.len(),
                    s == text@.subrange(from as int, to as int),
                    forall|k: int| i - from <= k < j - from ==> !spec_is_whitespace(#[trigger] s[k]),
                decreases to - j,
            {
                assert(s[j - from] == text@[j as int]);
                j += 1;
            }
            let ghost b = j - from;
            proof {
                if j < to {
                    assert(s[b] == text@[j as int]);
                }
                assert(is_word_at(s, a, b));
            }
            let word = string_of(text, i, j);
            proof {
                assert(word@ =~= s.subrange(a, b));
            }
            out.insert(word);
            i = if j < to {
                j + 1
            } else {
                j
            };
            proof {
                let limit = i - from;
                assert forall|w: Seq<char>| #[trigger] out@.contains(w) <==> is_word_before(
                    s,
                    w,
                    limit,
                ) by {
                    if is_word_before(s, w, limit) {
                        let (x, y) = choose|x: int, y: int| #[trigger]
                            is_word_at(s, x, y) && y <= limit && s.subrange(x, y) == w;
                        if y <= a {
                            assert(is_word_before(s, w, a));
                        } else {
                            if y == b + 1 {
                                assert(!spec_is_whitespace(s[b]));
                            }
                            if y < b {
                                assert(!spec_is_whitespace(s[y]));
                            }
                            assert(y == b);
                            if x > a {
                                assert(!spec_is_whitespace(s[x - 1]));
                            }
                            if x < a {
                                assert(!spec_is_whitespace(s[a - 1]));
                            }
                            assert(x == a);
                        }
                    }
                    if before.contains(w) {
                        let (x, y) = choose|x: int, y: int| #[trigger]
                            is_word_at(s, x, y) && y <= a && s.subrange(x, y) == w;
                        assert(is_word_at(s, x, y) && y <= limit && s.subrange(x, y) == w);
                    }
                    if w == s.subrange(a, b) {
                        assert(is_word_at(s, a, b) && b <= limit && s.subrange(a, b) == w);
                    }
                }
            }
        }
    }
    assert(out@ =~= spec_words(s));
    out
}

/// What the line from `from` up to `to` says, if it says anything.
pub fn parse_line(text: &Vec<char>, from: usize, to: usize) -> (r: Option<(String, NameSet)>)
    requires
        from <= to <= text@.len(),
    ensures
        match r {
            Some((name, set)) => set.wf() && spec_parse_line(
                text@.subrange(from as int, to as int),
            ) == Some((name@, set@)),
            None => spec_parse_line(text@.subrange(from as int, to as int)) is None,
        },
{
    let ghost line = text@.subrange(from as int, to as int);
    match find_in(text, from, to, ':') {
        None => None,
        Some(colon) => {
            assert(line.take(colon - from) =~= text@.subrange(from as int, colon as int));
            match find_in(text, from, colon, '(') {
                None => None,
                Some(paren) => {
                    let name = string_of(text, from, paren);
                    let set = words(text, colon + 1, to);
                    proof {
                        assert(line.take(paren - from) =~= text@.subrange(from as int, paren as int));
                        assert(line.skip(colon - from + 1) =~= text@.subrange(
                            colon as int + 1,
                            to as int,
                        ));
                    }
                    Some((name, set))
                },
            }
        },
    }
}

impl Brew {
    /// Reads the executable registry. A line that does not have the
    /// registry's shape is passed over.
    pub fn executables(&self, body: &str) -> (r: Store<NameSet>)
        ensures
            r.wf(),
            sets_wf(r),
            set_views(r) == spec_registry(body@),
    {
        let text = chars_of(body);
        let bounds = lines(&text);
        let mut store: Store<NameSet> = Store::new();
        let ghost all = spec_cuts(text@, bounds@);
        let mut i: usize = 0;
        assert(set_views(store) =~= spec_fold_lines(all.take(0)));
        while i < bounds.len()
            invariant
                i <= bounds@.len(),
                all == spec_cuts(text@, bounds@),
                forall|k: int|
                    0 <= k < bounds@.len() ==> (#[trigger] bounds@[k]).0 <= bounds@[k].1
                        <= text@.len(),
                store.wf(),
                forall|k: Seq<char>| store@.contains_key(k) ==> (#[trigger] store@[k]).wf(),
                set_views(store) == spec_fold_lines(all.take(i as int)),
            decreases bounds@.len() - i,
        {
            let ghost before = store;
            let (from, to) = bounds[i];
            proof {
                lemma_take_step(all, i as int);
                assert(all[i as int] == text@.subrange(from as int, to as int));
            }
            match parse_line(&text, from, to) {
                Some((name, set)) => {
                    store.insert(name, set);
                    assert(set_views(store) =~= set_views(before).insert(name@, set@));
                },
                None => {},
            }
            i += 1;
        }
        assert(all.take(i as int) =~= all);
        store
    }
}

/// A line without a colon says nothing, and leaves the registry as the
/// lines before it made it.
pub proof fn lemma_line_without_colon(lines: Seq<Seq<char>>, line: Seq<char>)
    requires
        forall|i: int| 0 <= i < line.len() ==> line[i] != ':',
    ensures
        spec_parse_line(line) is None,
        spec_fold_lines(lines.push(line)) == spec_fold_lines(lines),
{
    lemma_find_none(line, ':');
    assert(lines.push(line).drop_last() =~= lines);
}

/// A line that says something puts its set under its identifier, whatever
/// the lines before it said of that identifier.
pub proof fn lemma_line_overrides(lines: Seq<Seq<char>>, line: Seq<char>)
    ensures
        spec_parse_line(line) matches Some(entry) ==> spec_fold_lines(
            lines.push(line),
        ).contains_key(entry.0) && spec_fold_lines(lines.push(line))[entry.0] == entry.1,
{
    assert(lines.push(line).drop_last() =~= lines);
}

} // verus!
