//! The library's algebraic laws, proved once and for all over the abstract
//! model: edit cancellation (insert then backspace, newline then backspace)
//! and the save/load round trip with its trailing-whitespace normalization.

use vstd::prelude::*;
use crate::chars::is_control_spec;
use crate::model::{EditorState, state_wf, insert_spec, delete_spec, line_ok};
use crate::text::{
    split_all, lines_of, trim_end_spec, parse_spec, serialize_spec, lemma_split_all_nonempty,
    lemma_parse_wf, lemma_trim_end_idempotent,
};

verus! {

/// Inserting a printable character and immediately deleting it restores the
/// exact prior state: buffer content, cursor and scroll offset.
pub proof fn lemma_insert_then_delete_cancels(s: EditorState, c: char)
    requires
        state_wf(s),
        c != '\n',
        !is_control_spec(c),
    ensures
        delete_spec(insert_spec(s, c)) == s,
{
    let l = s.lines[s.row];
    assert(l.insert(s.col, c).remove(s.col) =~= l);
    assert(s.lines.update(s.row, l.insert(s.col, c)).update(s.row, l) =~~= s.lines);
    assert(delete_spec(insert_spec(s, c)) =~~= s);
}

/// Inserting a newline and immediately deleting at the resulting cursor
/// position joins the two halves back together: the exact prior state is
/// restored.
pub proof fn lemma_newline_then_delete_cancels(s: EditorState)
    requires
        state_wf(s),
    ensures
        delete_spec(insert_spec(s, '\n')) == s,
{
    let l = s.lines[s.row];
    let pre = l.subrange(0, s.col);
    let suf = l.subrange(s.col, l.len() as int);
    let split = crate::model::split_lines_spec(s.lines, s.row, s.col);
    assert(split[s.row] == pre);
    assert(split[s.row + 1] == suf);
    assert(pre + suf =~= l);
    let joined = crate::model::join_lines_spec(split, s.row + 1);
    assert(joined =~~= s.lines);
    assert(delete_spec(insert_spec(s, '\n')) =~~= s);
}

/// Splitting a newline-free segment followed by a newline and more text:
/// the segment becomes the first line, the rest splits on its own.
proof fn lemma_split_all_seg(seg: Seq<char>, rest: Seq<char>)
    requires
        line_ok(seg),
    ensures
        split_all(seg + seq!['\n'] + rest) == seq![seg] + split_all(rest),
    decreases seg.len(),
{
    let t = seg + seq!['\n'] + rest;
    if seg.len() == 0 {
        assert(t[0] == '\n');
        assert(t.skip(1) =~= rest);
        assert(seq![Seq::<char>::empty()] + split_all(rest) =~~= seq![seg] + split_all(rest));
    } else {
        assert(t[0] == seg[0]);
        assert(t.skip(1) =~= seg.skip(1) + seq!['\n'] + rest);
        assert(line_ok(seg.skip(1))) by {
            assert(forall|j: int|
                0 <= j < seg.skip(1).len() ==> seg.skip(1)[j] == seg[j + 1]);
        }
        lemma_split_all_seg(seg.skip(1), rest);
        lemma_split_all_nonempty(rest);
        let r = split_all(t.skip(1));
        assert(r == seq![seg.skip(1)] + split_all(rest));
        assert(r[0] == seg.skip(1));
        assert(seq![seg[0]] + seg.skip(1) =~= seg);
        assert(r.skip(1) =~= split_all(rest));
        assert(split_all(t) =~~= seq![seg] + split_all(rest));
    }
}

/// Splitting a serialized document recovers its lines, plus the final empty
/// segment that the terminating newline produces.
proof fn lemma_split_serialize(ls: Seq<Seq<char>>)
    requires
        forall|i: int| 0 <= i < ls.len() ==> line_ok(#[trigger] ls[i]),
    ensures
        split_all(serialize_spec(ls)) == ls + seq![Seq::<char>::empty()],
    decreases ls.len(),
{
    if ls.len() == 0 {
        assert(serialize_spec(ls).len() == 0);
        assert(split_all(serialize_spec(ls)) =~~= ls + seq![Seq::<char>::empty()]);
    } else {
        assert(forall|i: int|
            0 <= i < ls.skip(1).len() ==> line_ok(#[trigger] ls.skip(1)[i]));
        lemma_split_serialize(ls.skip(1));
        lemma_split_all_seg(ls[0], serialize_spec(ls.skip(1)));
        assert(split_all(serialize_spec(ls)) == seq![ls[0]] + (ls.skip(1) + seq![
            Seq::<char>::empty(),
        ]));
        assert(seq![ls[0]] + (ls.skip(1) + seq![Seq::<char>::empty()]) =~~= ls + seq![
            Seq::<char>::empty(),
        ]);
    }
}

/// Loading what was saved yields the document back, each line trimmed of its
/// trailing whitespace; a document whose lines carry no trailing whitespace
/// round-trips exactly. (Saving always writes a terminating newline, so this
/// speaks of documents with at least one line — which the editor invariant
/// guarantees.)
pub proof fn lemma_load_after_save(ls: Seq<Seq<char>>)
    requires
        ls.len() >= 1,
        forall|i: int| 0 <= i < ls.len() ==> line_ok(#[trigger] ls[i]),
    ensures
        parse_spec(serialize_spec(ls)) == ls.map_values(|l: Seq<char>| trim_end_spec(l)),
        (forall|i: int| 0 <= i < ls.len() ==> trim_end_spec(#[trigger] ls[i]) == ls[i])
            ==> parse_spec(serialize_spec(ls)) == ls,
{
    lemma_split_serialize(ls);
    let s = serialize_spec(ls);
    let raw = split_all(s);
    assert(raw.last() == Seq::<char>::empty());
    assert(raw.drop_last() =~~= ls);
    assert(lines_of(s) == ls);
    let trimmed = ls.map_values(|l: Seq<char>| trim_end_spec(l));
    assert(trimmed.len() == ls.len());
    assert(parse_spec(s) == trimmed);
    if forall|i: int| 0 <= i < ls.len() ==> trim_end_spec(#[trigger] ls[i]) == ls[i] {
        assert(trimmed =~~= ls);
    }
}

/// One save/load cycle reaches a fixed point: loading, saving and loading
/// again yields exactly what the first load produced. Together with
/// `lemma_load_after_save` this pins the round trip down: the only change a
/// cycle can make is the documented trailing-whitespace normalization.
pub proof fn lemma_save_load_fixed_point(t: Seq<char>)
    ensures
        parse_spec(serialize_spec(parse_spec(t))) == parse_spec(t),
{
    lemma_parse_wf(t);
    let p = parse_spec(t);
    lemma_load_after_save(p);
    let trimmed = p.map_values(|l: Seq<char>| trim_end_spec(l));
    assert forall|i: int| 0 <= i < p.len() implies trimmed[i] == p[i] by {
        let raw = lines_of(t);
        if lines_of(t).map_values(|l: Seq<char>| trim_end_spec(l)).len() == 0 {
            assert(p[i] == Seq::<char>::empty());
            lemma_trim_end_idempotent(Seq::<char>::empty());
        } else {
            assert(p[i] == trim_end_spec(raw[i]));
            lemma_trim_end_idempotent(raw[i]);
        }
    }
    assert(trimmed =~~= p);
}

/// Saving what was loaded reproduces the loaded file exactly, provided the
/// file was already in the normal form that a save writes: it ends with a
/// newline and no line carries trailing whitespace. (A file outside that
/// form differs after one cycle precisely by that normalization, as
/// `lemma_load_after_save` and `lemma_save_load_fixed_point` state.)
pub proof fn lemma_save_after_load(t: Seq<char>)
    requires
        t.len() > 0,
        t.last() == '\n',
        forall|i: int|
            0 <= i < lines_of(t).len() ==> trim_end_spec(#[trigger] lines_of(t)[i])
                == lines_of(t)[i],
    ensures
        serialize_spec(parse_spec(t)) == t,
{
    lemma_serialize_lines_of(t);
    let raw = split_all(t);
    let lo = lines_of(t);
    assert(lo == raw.drop_last());
    let trimmed = lo.map_values(|l: Seq<char>| trim_end_spec(l));
    assert(trimmed =~~= lo);
    assert(lo.len() >= 1);
    assert(parse_spec(t) == trimmed);
    assert(serialize_spec(parse_spec(t)) == t);
}

/// A text that ends in a newline splits into at least two segments, the last
/// of them empty, and serializing all but that last segment reproduces the
/// text.
proof fn lemma_serialize_lines_of(t: Seq<char>)
    requires
        t.len() > 0,
        t.last() == '\n',
    ensures
        split_all(t).len() >= 2,
        split_all(t).last().len() == 0,
        serialize_spec(split_all(t).drop_last()) == t,
    decreases t.len(),
{
    let rest = t.skip(1);
    if t[0] == '\n' {
        if rest.len() == 0 {
            assert(split_all(rest) =~~= seq![Seq::<char>::empty()]);
            assert(split_all(t) =~~= seq![Seq::<char>::empty(), Seq::<char>::empty()]);
            assert(split_all(t).drop_last() =~~= seq![Seq::<char>::empty()]);
            assert(seq![Seq::<char>::empty()].skip(1).len() == 0);
            assert(serialize_spec(seq![Seq::<char>::empty()].skip(1)) == Seq::<char>::empty());
            assert(serialize_spec(seq![Seq::<char>::empty()]) =~= seq!['\n']);
            assert(t =~= seq!['\n']);
        } else {
            assert(rest.last() == t.last());
            lemma_serialize_lines_of(rest);
            let r = split_all(rest);
            assert(split_all(t) == seq![Seq::<char>::empty()] + r);
            assert(split_all(t).last() == r.last());
            assert(split_all(t).drop_last() =~~= seq![Seq::<char>::empty()] + r.drop_last());
            assert((seq![Seq::<char>::empty()] + r.drop_last()).skip(1) =~~= r.drop_last());
            assert(serialize_spec(seq![Seq::<char>::empty()] + r.drop_last())
                == Seq::<char>::empty() + seq!['\n'] + serialize_spec(r.drop_last()));
            assert(Seq::<char>::empty() + seq!['\n'] + rest =~= t);
        }
    } else {
        assert(t.len() >= 2);
        assert(rest.len() >= 1);
        assert(rest.last() == t.last());
        lemma_serialize_lines_of(rest);
        let r = split_all(rest);
        assert(split_all(t) == seq![seq![t[0]] + r[0]] + r.skip(1));
        assert(r.skip(1).len() >= 1);
        assert(split_all(t).last() == r.skip(1).last());
        assert(r.skip(1).last() == r.last());
        assert(split_all(t).len() == r.len() >= 2);
        let x = seq![t[0]] + r[0];
        assert(split_all(t).drop_last() =~~= seq![x] + r.skip(1).drop_last());
        assert(r.skip(1).drop_last() =~~= r.drop_last().skip(1));
        assert(r.drop_last().len() >= 1);
        assert(serialize_spec(r.drop_last()) == r.drop_last()[0] + seq!['\n']
            + serialize_spec(r.drop_last().skip(1)));
        assert(r.drop_last()[0] == r[0]);
        assert((seq![x] + r.drop_last().skip(1)).skip(1) =~~= r.drop_last().skip(1));
        assert(serialize_spec(seq![x] + r.drop_last().skip(1)) == x + seq!['\n']
            + serialize_spec(r.drop_last().skip(1)));
        assert(x + seq!['\n'] + serialize_spec(r.drop_last().skip(1)) =~= seq![t[0]] + (r[0]
            + seq!['\n'] + serialize_spec(r.drop_last().skip(1))));
        assert(seq![t[0]] + rest =~= t);
    }
}

} // verus!
