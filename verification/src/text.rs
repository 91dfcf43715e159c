//! The persisted file format: plain text, one buffer line per output line,
//! each terminated by a newline. Reading splits on newlines and strips each
//! line's trailing whitespace (carriage returns included); writing performs
//! no trimming beyond what editing naturally produced. The round-trip laws
//! over these two functions live in `laws`.

use vstd::prelude::*;
use crate::buffer::LineBuffer;
use crate::chars::{is_whitespace_spec, is_whitespace_char};
use crate::model::lines_ok;

verus! {

/// Splits a text at every newline character. The result always has one more
/// segment than the text has newlines; in particular it is never empty, and
/// a text ending in a newline yields a final empty segment.
pub open spec fn split_all(t: Seq<char>) -> Seq<Seq<char>>
    decreases t.len(),
{
    if t.len() == 0 {
        seq![Seq::<char>::empty()]
    } else if t[0] == '\n' {
        seq![Seq::<char>::empty()] + split_all(t.skip(1))
    } else {
        let rest = split_all(t.skip(1));
        seq![seq![t[0]] + rest[0]] + rest.skip(1)
    }
}

/// The lines of a text, as reading splits them: the segments between
/// newlines, except that a final empty segment (the text was empty or ended
/// with a newline) yields no line of its own.
pub open spec fn lines_of(t: Seq<char>) -> Seq<Seq<char>> {
    let raw = split_all(t);
    if raw.last().len() == 0 {
        raw.drop_last()
    } else {
        raw
    }
}

/// A line with its trailing whitespace removed.
pub open spec fn trim_end_spec(l: Seq<char>) -> Seq<char>
    decreases l.len(),
{
    if l.len() == 0 {
        l
    } else if is_whitespace_spec(l.last()) {
        trim_end_spec(l.drop_last())
    } else {
        l
    }
}

/// What loading a text produces: its lines, each trimmed of trailing
/// whitespace; a text without lines becomes the empty document's single
/// empty line.
pub open spec fn parse_spec(t: Seq<char>) -> Seq<Seq<char>> {
    let trimmed = lines_of(t).map_values(|l: Seq<char>| trim_end_spec(l));
    if trimmed.len() == 0 {
        seq![Seq::<char>::empty()]
    } else {
        trimmed
    }
}

/// What saving a document writes: every line in order, each followed by a
/// single newline.
pub open spec fn serialize_spec(ls: Seq<Seq<char>>) -> Seq<char>
    decreases ls.len(),
{
    if ls.len() == 0 {
        Seq::<char>::empty()
    } else {
        ls[0] + seq!['\n'] + serialize_spec(ls.skip(1))
    }
}

/// `split_all` never yields an empty sequence of segments.
pub proof fn lemma_split_all_nonempty(t: Seq<char>)
    ensures
        split_all(t).len() >= 1,
    decreases t.len(),
{
    if t.len() != 0 {
        lemma_split_all_nonempty(t.skip(1));
    }
}

/// No segment of `split_all` contains a newline.
pub proof fn lemma_split_all_line_ok(t: Seq<char>)
    ensures
        forall|i: int|
            0 <= i < split_all(t).len() ==> crate::model::line_ok(#[trigger] split_all(t)[i]),
    decreases t.len(),
{
    if t.len() == 0 {
    } else if t[0] == '\n' {
        lemma_split_all_line_ok(t.skip(1));
        assert forall|i: int|
            0 <= i < split_all(t).len() implies crate::model::line_ok(
            #[trigger] split_all(t)[i],
        ) by {
            if i > 0 {
                assert(split_all(t)[i] == split_all(t.skip(1))[i - 1]);
            }
        }
    } else {
        lemma_split_all_line_ok(t.skip(1));
        lemma_split_all_nonempty(t.skip(1));
        let rest = split_all(t.skip(1));
        assert forall|i: int|
            0 <= i < split_all(t).len() implies crate::model::line_ok(
            #[trigger] split_all(t)[i],
        ) by {
            if i == 0 {
                assert(split_all(t)[0] == seq![t[0]] + rest[0]);
                assert(crate::model::line_ok(rest[0]));
                assert(forall|j: int|
                    1 <= j < (seq![t[0]] + rest[0]).len()
                        ==> (seq![t[0]] + rest[0])[j] == rest[0][j - 1]);
            } else {
                assert(split_all(t)[i] == rest[i]);
            }
        }
    }
}

/// Trimming only ever removes characters from the end: the result is a
/// prefix of the input.
pub proof fn lemma_trim_end_prefix(l: Seq<char>)
    ensures
        trim_end_spec(l).len() <= l.len(),
        trim_end_spec(l) == l.subrange(0, trim_end_spec(l).len() as int),
    decreases l.len(),
{
    if l.len() == 0 {
    } else if is_whitespace_spec(l.last()) {
        lemma_trim_end_prefix(l.drop_last());
        assert(l.drop_last().subrange(0, trim_end_spec(l.drop_last()).len() as int) =~= l
            .subrange(0, trim_end_spec(l.drop_last()).len() as int));
    } else {
        assert(l =~= l.subrange(0, l.len() as int));
    }
}

/// A trimmed line is empty or does not end in whitespace; trimming it again
/// changes nothing.
pub proof fn lemma_trim_end_idempotent(l: Seq<char>)
    ensures
        trim_end_spec(l).len() == 0 || !is_whitespace_spec(trim_end_spec(l).last()),
        trim_end_spec(trim_end_spec(l)) == trim_end_spec(l),
    decreases l.len(),
{
    if l.len() == 0 {
    } else if is_whitespace_spec(l.last()) {
        lemma_trim_end_idempotent(l.drop_last());
    }
}

/// What loading produces is a well-formed document: at least one line, none
/// containing a newline.
pub proof fn lemma_parse_wf(t: Seq<char>)
    ensures
        lines_ok(parse_spec(t)),
{
    lemma_split_all_nonempty(t);
    lemma_split_all_line_ok(t);
    let raw = split_all(t);
    let trimmed = lines_of(t).map_values(|l: Seq<char>| trim_end_spec(l));
    assert forall|i: int| 0 <= i < trimmed.len() implies crate::model::line_ok(
        #[trigger] trimmed[i],
    ) by {
        assert(lines_of(t)[i] == raw[i]);
        lemma_trim_end_prefix(raw[i]);
        assert(crate::model::line_ok(raw[i]));
        assert(forall|j: int|
            0 <= j < trimmed[i].len() ==> trimmed[i][j] == raw[i][j]);
    }
}

/// Removes trailing whitespace from a line in place.
pub fn trim_end_vec(v: &mut Vec<char>)
    ensures
        final(v)@ == trim_end_spec(old(v)@),
{
    while v.len() > 0 && is_whitespace_char(v[v.len() - 1])
        invariant
            trim_end_spec(v@) == trim_end_spec(old(v)@),
        decreases v@.len(),
    {
        proof {
            assert(v@.drop_last() =~= v@.subrange(0, v@.len() - 1));
        }
        v.pop();
    }
}

/// Splits a text into lines (trailing whitespace trimmed, a final newline
/// yielding no extra line) and wraps them as a document; a text without
/// lines becomes the empty document.
pub fn parse_text(t: &Vec<char>) -> (b: LineBuffer)
    ensures
        b.wf(),
        b@ == parse_spec(t@),
{
    let mut done: Vec<Vec<char>> = Vec::new();
    let ghost mut raw_done: Seq<Seq<char>> = Seq::empty();
    let mut cur: Vec<char> = Vec::new();
    let mut k: usize = 0;
    proof {
        lemma_split_all_nonempty(t@.skip(0));
        assert(t@.skip(0) =~= t@);
        assert(raw_done + prepend_first(cur@, split_all(t@.skip(0))) =~~= split_all(t@));
    }
    while k < t.len()
        invariant
            k <= t@.len(),
            done.deep_view() == raw_done.map_values(|l: Seq<char>| trim_end_spec(l)),
            split_all(t@) == raw_done + prepend_first(cur@, split_all(t@.skip(k as int))),
        decreases t@.len() - k,
    {
        let c = t[k];
        let ghost remaining = split_all(t@.skip(k as int));
        let ghost remaining_next = split_all(t@.skip(k + 1));
        proof {
            lemma_split_all_nonempty(t@.skip(k as int));
            lemma_split_all_nonempty(t@.skip(k + 1));
            assert(t@.skip(k as int).len() > 0);
            assert(t@.skip(k as int)[0] == t@[k as int]);
            assert(t@.skip(k as int).skip(1) =~= t@.skip(k + 1));
        }
        if c == '\n' {
            proof {
                assert(remaining =~~= seq![Seq::<char>::empty()] + remaining_next);
            }
            let ghost seg = cur@;
            let mut finished = cur;
            cur = Vec::new();
            trim_end_vec(&mut finished);
            let ghost dv_before = done.deep_view();
            done.push(finished);
            proof {
                assert(done.deep_view() =~~= dv_before.push(finished@));
                assert(done.deep_view() =~~= (raw_done + seq![seg]).map_values(
                    |l: Seq<char>| trim_end_spec(l),
                ));
                raw_done = raw_done + seq![seg];
                assert(prepend_first(seg, remaining) =~~= seq![seg] + remaining_next);
                assert(prepend_first(cur@, remaining_next) =~~= remaining_next);
                assert(raw_done + prepend_first(cur@, remaining_next) =~~= split_all(t@));
            }
            k = k + 1;
        } else {
            let ghost prev_cur = cur@;
            cur.push(c);
            proof {
                assert(remaining =~~= seq![seq![c] + remaining_next[0]] + remaining_next.skip(
                    1,
                ));
                assert(prepend_first(prev_cur, remaining) =~~= prepend_first(
                    cur@,
                    remaining_next,
                ));
                assert(raw_done + prepend_first(cur@, remaining_next) =~~= split_all(t@));
            }
            k = k + 1;
        }
    }
    proof {
        assert(t@.skip(t@.len() as int) =~= Seq::<char>::empty());
        assert(split_all(t@.skip(t@.len() as int)) =~~= seq![Seq::<char>::empty()]);
        assert(prepend_first(cur@, seq![Seq::<char>::empty()]) =~~= seq![cur@]);
        assert(split_all(t@) =~~= raw_done + seq![cur@]);
        assert(split_all(t@).last() == cur@);
        assert(split_all(t@).drop_last() =~= raw_done);
        lemma_parse_wf(t@);
    }
    if cur.len() == 0 {
        if done.len() == 0 {
            proof {
                assert(lines_of(t@) =~~= raw_done);
                assert(lines_of(t@).map_values(|l: Seq<char>| trim_end_spec(l)).len() == 0);
                assert(parse_spec(t@) =~~= seq![Seq::<char>::empty()]);
            }
            LineBuffer::new_empty()
        } else {
            proof {
                assert(lines_of(t@) =~~= raw_done);
                assert(done.deep_view() =~~= parse_spec(t@));
            }
            LineBuffer::from_lines(done)
        }
    } else {
        let ghost seg = cur@;
        trim_end_vec(&mut cur);
        let ghost dv_before = done.deep_view();
        let ghost trimmed = cur@;
        done.push(cur);
        proof {
            assert(lines_of(t@) =~~= raw_done + seq![seg]);
            assert(done.deep_view() =~~= dv_before.push(trimmed));
            assert(done.deep_view() =~~= (raw_done + seq![seg]).map_values(
                |l: Seq<char>| trim_end_spec(l),
            ));
            assert(done.deep_view() =~~= parse_spec(t@));
        }
        LineBuffer::from_lines(done)
    }
}

/// Helper naming the decomposition of a partially-scanned text: the already
/// finished segments, then the pending segment extended by whatever the
/// remaining text contributes to it, then the remaining text's later
/// segments.
spec fn prepend_first(prefix: Seq<char>, segs: Seq<Seq<char>>) -> Seq<Seq<char>> {
    seq![prefix + segs[0]] + segs.skip(1)
}

/// Serializes a document: every line in order, each followed by a newline.
pub fn serialize_lines(b: &LineBuffer) -> (out: Vec<char>)
    ensures
        out@ == serialize_spec(b@),
{
    let mut out: Vec<char> = Vec::new();
    let n = b.line_count();
    let mut i: usize = 0;
    proof {
        assert(b@.skip(0) =~~= b@);
    }
    while i < n
        invariant
            i <= n,
            n == b@.len(),
            out@ + serialize_spec(b@.skip(i as int)) == serialize_spec(b@),
        decreases n - i,
    {
        let line = b.line(i);
        let m = line.len();
        let ghost out_start = out@;
        let mut j: usize = 0;
        while j < m
            invariant
                j <= m,
                m == line@.len(),
                line@ == b@[i as int],
                out@ == out_start + line@.subrange(0, j as int),
            decreases m - j,
        {
            out.push(line[j]);
            proof {
                assert(out_start + line@.subrange(0, j as int) + seq![line@[j as int]]
                    =~= out_start + line@.subrange(0, j + 1));
            }
            j = j + 1;
        }
        out.push('\n');
        proof {
            assert(line@.subrange(0, m as int) =~= line@);
            assert(b@.skip(i as int).skip(1) =~~= b@.skip(i + 1));
            assert(b@.skip(i as int)[0] == b@[i as int]);
            assert(serialize_spec(b@.skip(i as int)) == b@[i as int] + seq!['\n']
                + serialize_spec(b@.skip(i + 1)));
            assert(out@ + serialize_spec(b@.skip(i + 1)) =~= out_start + (b@[i as int]
                + seq!['\n'] + serialize_spec(b@.skip(i + 1))));
        }
        i = i + 1;
    }
    proof {
        assert(serialize_spec(b@.skip(n as int)) == Seq::<char>::empty());
        assert(out@ + Seq::<char>::empty() =~= out@);
    }
    out
}

} // verus!
