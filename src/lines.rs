//! Splitting text into lines.

use vstd::prelude::*;

verus! {

/// The index of the first newline of `s`, or its length when it has none.
pub open spec fn first_newline(s: Seq<char>) -> nat
    decreases s.len(),
{
    if s.len() == 0 {
        0
    } else if s[0] == '\n' {
        0
    } else {
        1 + first_newline(s.drop_first())
    }
}

/// The pieces of `s` between its newlines (one more than it has newlines).
pub open spec fn split_newlines(s: Seq<char>) -> Seq<Seq<char>>
    decreases s.len(),
{
    let i = first_newline(s);
    if i >= s.len() {
        seq![s]
    } else {
        seq![s.subrange(0, i as int)] + split_newlines(s.subrange(i + 1 as int, s.len() as int))
    }
}

/// A piece that ended at a newline, without the carriage return before it.
pub open spec fn strip_cr(p: Seq<char>) -> Seq<char> {
    if p.len() > 0 && p.last() == '\r' {
        p.drop_last()
    } else {
        p
    }
}

/// The lines of `s`: the text between line endings (`\n` or `\r\n`), where a
/// final line ending is optional and adds no empty line.
pub open spec fn text_lines(s: Seq<char>) -> Seq<Seq<char>> {
    let pieces = split_newlines(s);
    let ended = pieces.drop_last().map_values(|p: Seq<char>| strip_cr(p));
    if pieces.last().len() == 0 {
        ended
    } else {
        ended.push(pieces.last())
    }
}

proof fn lemma_first_newline(t: Seq<char>, k: int)
    requires
        0 <= k <= t.len(),
        forall|j: int| 0 <= j < k ==> t[j] != '\n',
        k == t.len() || t[k] == '\n',
    ensures
        first_newline(t) == k,
    decreases t.len(),
{
    if t.len() > 0 && k > 0 {
        let u = t.drop_first();
        assert forall|j: int| 0 <= j < k - 1 implies u[j] != '\n' by {
            assert(u[j] == t[j + 1]);
        }
        if k - 1 < u.len() {
            assert(u[k - 1] == t[k]);
        }
        lemma_first_newline(u, k - 1);
    }
}

/// The lines of `s`, as `str::lines` gives them.
pub fn lines_of(s: &str) -> (r: Vec<String>)
    ensures
        r@.map_values(|l: String| l@) == text_lines(s@),
{
    let n = s.unicode_len();
    let mut done: Vec<String> = Vec::new();
    let mut start: usize = 0;
    let mut i: usize = 0;
    proof {
        assert(s@.subrange(0, n as int) =~= s@);
        let rest = split_newlines(s@).drop_last().map_values(|p: Seq<char>| strip_cr(p));
        assert(done@.map_values(|l: String| l@) + rest =~= rest);
    }
    while i < n
        invariant
            n == s@.len(),
            start <= i <= n,
            forall|j: int| start <= j < i ==> s@[j] != '\n',
            done@.map_values(|l: String| l@) + split_newlines(s@.subrange(start as int, n as int)).drop_last().map_values(
                |p: Seq<char>| strip_cr(p),
            ) == split_newlines(s@).drop_last().map_values(|p: Seq<char>| strip_cr(p)),
            split_newlines(s@.subrange(start as int, n as int)).last() == split_newlines(s@).last(),
        decreases n - i,
    {
        if s.get_char(i) == '\n' {
            let ghost t = s@.subrange(start as int, n as int);
            proof {
                assert forall|j: int| 0 <= j < i - start implies t[j] != '\n' by {
                    assert(t[j] == s@[start + j]);
                }
                assert(t[i - start] == '\n');
                lemma_first_newline(t, i - start);
                assert(t.subrange(i - start + 1, t.len() as int) =~= s@.subrange(i + 1, n as int));
                assert(t.subrange(0, i - start) =~= s@.subrange(start as int, i as int));
            }
            let piece = s.substring_char(start, i);
            let line = if i > start && s.get_char(i - 1) == '\r' {
                String::from_str(s.substring_char(start, i - 1))
            } else {
                String::from_str(piece)
            };
            proof {
                let p = s@.subrange(start as int, i as int);
                if i > start && s@[i - 1] == '\r' {
                    assert(p.last() == s@[i - 1]);
                    assert(s@.subrange(start as int, i - 1) =~= p.drop_last());
                }
                assert(line@ == strip_cr(p));
                let rest = split_newlines(s@.subrange(i + 1, n as int));
                assert(split_newlines(t) == seq![p] + rest);
                assert((seq![p] + rest).drop_last() =~= seq![p] + rest.drop_last());
                assert((seq![p] + rest.drop_last()).map_values(|q: Seq<char>| strip_cr(q))
                    =~= seq![strip_cr(p)] + rest.drop_last().map_values(|q: Seq<char>| strip_cr(q)));
            }
            let ghost before = done@;
            done.push(line);
            proof {
                assert(done@.map_values(|l: String| l@) =~= before.map_values(|l: String| l@).push(
                    line@,
                ));
            }
            start = i + 1;
        }
        i = i + 1;
    }
    let ghost t = s@.subrange(start as int, n as int);
    proof {
        assert forall|j: int| 0 <= j < t.len() implies t[j] != '\n' by {
            assert(t[j] == s@[start + j]);
        }
        lemma_first_newline(t, t.len() as int);
        assert(split_newlines(t) == seq![t]);
        assert(seq![t].drop_last() =~= Seq::<Seq<char>>::empty());
        assert(Seq::<Seq<char>>::empty().map_values(|p: Seq<char>| strip_cr(p)) =~= Seq::<
            Seq<char>,
        >::empty());
        assert(done@.map_values(|l: String| l@) + Seq::<Seq<char>>::empty() =~= done@.map_values(
            |l: String| l@,
        ));
    }
    if start < n {
        let ghost before = done@;
        let last = String::from_str(s.substring_char(start, n));
        done.push(last);
        proof {
            assert(done@.map_values(|l: String| l@) =~= before.map_values(|l: String| l@).push(
                t,
            ));
        }
    }
    done
}

} // verus!
