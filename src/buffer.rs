//! The content buffer: the lines of a loaded text, in order.

use vstd::prelude::*;
use vstd::string::StrSliceExecFns;
use vstd::string::StringExecFns;

verus! {

broadcast use vstd::string::group_string_axioms;

/// The text split at each `'\n'`: one piece more than there are line breaks.
pub open spec fn pieces(s: Seq<char>) -> Seq<Seq<char>>
    decreases s.len(),
{
    if s.len() == 0 {
        seq![Seq::<char>::empty()]
    } else {
        let p = pieces(s.drop_last());
        if s.last() == '\n' {
            p.push(Seq::<char>::empty())
        } else {
            p.update(p.len() - 1, p.last().push(s.last()))
        }
    }
}

/// A line that was ended by `"\r\n"` loses its `'\r'`.
pub open spec fn strip_cr(l: Seq<char>) -> Seq<char> {
    if l.len() > 0 && l.last() == '\r' {
        l.drop_last()
    } else {
        l
    }
}

/// The lines of a text: every piece ended by a line break, without its line
/// ending, and then the unterminated rest of the text when it is not empty.
/// A text that ends in a line break has no empty line added after it.
pub open spec fn lines_of(s: Seq<char>) -> Seq<Seq<char>> {
    let p = pieces(s);
    p.drop_last().map_values(|l: Seq<char>| strip_cr(l)) + if p.last().len() == 0 {
        Seq::<Seq<char>>::empty()
    } else {
        seq![p.last()]
    }
}

/// The model of a sequence of strings.
pub open spec fn text_lines(v: Seq<String>) -> Seq<Seq<char>> {
    v.map_values(|l: String| l@)
}

/// A text has at least one piece.
pub proof fn lemma_pieces_nonempty(s: Seq<char>)
    ensures
        pieces(s).len() >= 1,
    decreases s.len(),
{
    if s.len() > 0 {
        lemma_pieces_nonempty(s.drop_last());
    }
}

/// Lines joined with a `'\n'` between each two.
pub open spec fn join_lines(ls: Seq<Seq<char>>) -> Seq<char>
    decreases ls.len(),
{
    if ls.len() == 0 {
        Seq::<char>::empty()
    } else if ls.len() == 1 {
        ls[0]
    } else {
        join_lines(ls.drop_last()) + seq!['\n'] + ls.last()
    }
}

/// A line as it stands in a file: no line break in it, and no `'\r'` at its
/// end that would read as part of a line ending.
pub open spec fn is_plain_line(l: Seq<char>) -> bool {
    &&& forall|i: int| 0 <= i < l.len() ==> l[i] != '\n'
    &&& (l.len() > 0 ==> l.last() != '\r')
}

proof fn lemma_pieces_append_plain(a: Seq<char>, b: Seq<char>)
    requires
        forall|i: int| 0 <= i < b.len() ==> b[i] != '\n',
    ensures
        pieces(a + b) == pieces(a).update(pieces(a).len() - 1, pieces(a).last() + b),
    decreases b.len(),
{
    lemma_pieces_nonempty(a);
    if b.len() == 0 {
        assert(a + b =~= a);
        assert(pieces(a).last() + b =~= pieces(a).last());
        assert(pieces(a).update(pieces(a).len() - 1, pieces(a).last()) =~= pieces(a));
    } else {
        let b0 = b.drop_last();
        lemma_pieces_append_plain(a, b0);
        assert((a + b).drop_last() =~= a + b0);
        assert(pieces(a).last() + b0 + seq![b.last()] =~= pieces(a).last() + b);
        assert((a + b).last() == b.last());
        assert(b.last() != '\n');
        let p = pieces(a + b0);
        assert(p.len() == pieces(a).len());
        assert(p.last() == pieces(a).last() + b0);
        assert(pieces(a + b) == p.update(p.len() - 1, p.last().push(b.last())));
        assert(p.last().push(b.last()) =~= pieces(a).last() + b);
        assert(pieces(a + b) =~= pieces(a).update(pieces(a).len() - 1, pieces(a).last() + b));
    }
}

proof fn lemma_pieces_of_join(ls: Seq<Seq<char>>)
    requires
        ls.len() >= 1,
        forall|k: int| 0 <= k < ls.len() ==> is_plain_line(#[trigger] ls[k]),
    ensures
        pieces(join_lines(ls)) == ls,
    decreases ls.len(),
{
    if ls.len() == 1 {
        lemma_pieces_append_plain(Seq::<char>::empty(), ls[0]);
        assert(Seq::<char>::empty() + ls[0] =~= ls[0]);
        assert(pieces(ls[0]) =~= ls);
    } else {
        let init = ls.drop_last();
        assert forall|k: int| 0 <= k < init.len() implies is_plain_line(#[trigger] init[k]) by {
            assert(init[k] == ls[k]);
        };
        lemma_pieces_of_join(init);
        let a = join_lines(init) + seq!['\n'];
        assert(a.drop_last() =~= join_lines(init));
        assert(is_plain_line(ls[ls.len() - 1]));
        lemma_pieces_append_plain(a, ls.last());
        assert(pieces(a) =~= init.push(Seq::<char>::empty()));
        assert(Seq::<char>::empty() + ls.last() =~= ls.last());
        assert(pieces(join_lines(ls)) =~= ls);
    }
}

/// Loading the text of a file of `ls.len()` lines, each free of line endings,
/// gives exactly those lines in their order, whether or not the file ends in a
/// line break. A file without a final line break whose last line is empty is
/// the same file as one line fewer with that break, so it is left out here.
pub proof fn lemma_load_gives_file_lines(ls: Seq<Seq<char>>, final_break: bool)
    requires
        forall|k: int| 0 <= k < ls.len() ==> is_plain_line(#[trigger] ls[k]),
        final_break ==> ls.len() >= 1,
        !final_break && ls.len() >= 1 ==> ls.last().len() > 0,
    ensures
        lines_of(
            join_lines(ls) + if final_break {
                seq!['\n']
            } else {
                Seq::<char>::empty()
            },
        ) == ls,
{
    let t = join_lines(ls) + if final_break {
        seq!['\n']
    } else {
        Seq::<char>::empty()
    };
    if ls.len() == 0 {
        assert(t =~= Seq::<char>::empty());
        assert(lines_of(t) =~= ls);
    } else {
        lemma_pieces_of_join(ls);
        let strip = |l: Seq<char>| strip_cr(l);
        if final_break {
            assert(t.drop_last() =~= join_lines(ls));
            assert(pieces(t) =~= ls.push(Seq::<char>::empty()));
            assert(pieces(t).drop_last() =~= ls);
            assert(ls.map_values(strip) =~= ls);
            assert(lines_of(t) =~= ls);
        } else {
            assert(t =~= join_lines(ls));
            assert(ls.drop_last().map_values(strip) =~= ls.drop_last()) by {
                assert forall|k: int| 0 <= k < ls.len() - 1 implies #[trigger] ls.drop_last()[k]
                    == strip_cr(ls.drop_last()[k]) by {
                    assert(is_plain_line(ls[k]));
                };
            };
            assert(lines_of(t) =~= ls);
        }
    }
}

/// The loaded lines of a text; empty when no file is loaded.
pub struct Buffer {
    pub lines: Vec<String>,
}

impl Buffer {
    /// A buffer with no lines.
    pub fn new() -> (r: Buffer)
        ensures
            r.lines@.len() == 0,
    {
        Buffer { lines: Vec::new() }
    }

    /// A buffer holding the lines of `contents`, the full text of a file.
    pub fn load(contents: &str) -> (r: Buffer)
        ensures
            text_lines(r.lines@) == lines_of(contents@),
    {
        let ghost s = contents@;
        // The char count fits in a usize, so the position below cannot overflow.
        let n: usize = contents.unicode_len();
        let mut lines: Vec<String> = Vec::new();
        let mut start: usize = 0;
        let mut idx: usize = 0;
        let mut prev_cr: bool = false;
        for c in it: contents.chars()
            invariant
                it.seq() == s,
                s == contents@,
                n == s.len(),
                idx == it.index(),
                idx <= s.len(),
                start <= idx,
                prev_cr == (start < idx && s[idx - 1] == '\r'),
                pieces(s.take(idx as int)).len() >= 1,
                pieces(s.take(idx as int)).last() == s.subrange(start as int, idx as int),
                text_lines(lines@) == pieces(s.take(idx as int)).drop_last().map_values(
                    |l: Seq<char>| strip_cr(l),
                ),
        {
            assert(idx < s.len());
            assert(c == s[idx as int]);
            let ghost pre = s.take(idx as int);
            assert(s.take(idx + 1).drop_last() =~= pre);
            proof {
                lemma_pieces_nonempty(pre);
            }
            if c == '\n' {
                let end: usize = if prev_cr { idx - 1 } else { idx };
                let piece = contents.substring_char(start, end);
                let line = String::from_str(piece);
                assert(line@ == strip_cr(s.subrange(start as int, idx as int))) by {
                    if prev_cr {
                        assert(s.subrange(start as int, idx as int).drop_last() =~= s.subrange(
                            start as int,
                            idx - 1,
                        ));
                    }
                };
                let ghost old_lines = lines@;
                lines.push(line);
                assert(text_lines(lines@) =~= text_lines(old_lines).push(line@));
                assert(pieces(s.take(idx + 1)).drop_last() =~= pieces(pre));
                assert(pieces(s.take(idx + 1)).drop_last().map_values(|l: Seq<char>| strip_cr(l))
                    =~= pieces(pre).drop_last().map_values(|l: Seq<char>| strip_cr(l)).push(
                    strip_cr(pieces(pre).last()),
                ));
                start = idx + 1;
                prev_cr = false;
                assert(s.subrange(start as int, idx + 1) =~= Seq::<char>::empty());
            } else {
                assert(pieces(s.take(idx + 1)).drop_last() =~= pieces(pre).drop_last());
                assert(s.subrange(start as int, idx + 1) =~= s.subrange(start as int, idx as int).push(c));
                prev_cr = c == '\r';
            }
            idx = idx + 1;
        }
        assert(s.take(idx as int) =~= s);
        let ghost p = pieces(s);
        if start < idx {
            let piece = contents.substring_char(start, idx);
            let ghost old_lines = lines@;
            lines.push(String::from_str(piece));
            assert(text_lines(lines@) =~= text_lines(old_lines).push(p.last()));
        } else {
            assert(p.last() =~= Seq::<char>::empty());
        }
        assert(text_lines(lines@) =~= lines_of(s));
        Buffer { lines }
    }

    /// True when no lines are loaded.
    pub fn is_empty(&self) -> (r: bool)
        ensures
            r == (self.lines@.len() == 0),
    {
        self.lines.len() == 0
    }
}

} // verus!
