//! Text taken line by line, as `str::lines` splits it.
use vstd::prelude::*;

verus! {

/// `s` holds no line break.
pub open spec fn single_line(s: Seq<char>) -> bool {
    forall|i: int| 0 <= i < s.len() ==> s[i] != '\n'
}

/// `s` is empty or ends with a line break: what follows it starts a line.
pub open spec fn ends_lines(s: Seq<char>) -> bool {
    s.len() == 0 || s.last() == '\n'
}

/// `s` begins with `p`.
pub open spec fn begins_with(s: Seq<char>, p: Seq<char>) -> bool {
    p.len() <= s.len() && s.subrange(0, p.len() as int) == p
}

/// The position of the first line break in `s`, if it has one.
pub open spec fn first_break(s: Seq<char>) -> Option<int>
    decreases s.len(),
{
    if s.len() == 0 {
        None
    } else if s[0] == '\n' {
        Some(0)
    } else {
        match first_break(s.drop_first()) {
            Some(k) => Some(k + 1),
            None => None,
        }
    }
}

/// How many lines of `s` begin with `p`.
pub open spec fn line_hits(s: Seq<char>, p: Seq<char>) -> nat
    decreases s.len(),
{
    let here: nat = if begins_with(s, p) {
        1
    } else {
        0
    };
    match first_break(s) {
        Some(k) => if 0 <= k < s.len() {
            here + line_hits(s.subrange(k + 1, s.len() as int), p)
        } else {
            here
        },
        None => here,
    }
}

/// A line break found is a line break, and none comes before it.
proof fn lemma_first_break(s: Seq<char>)
    ensures
        match first_break(s) {
            Some(k) => 0 <= k < s.len() && s[k] == '\n' && single_line(s.subrange(0, k)),
            None => single_line(s),
        },
    decreases s.len(),
{
    if s.len() > 0 && s[0] != '\n' {
        lemma_first_break(s.drop_first());
        match first_break(s.drop_first()) {
            Some(k) => {
                assert forall|i: int| 0 <= i < k + 1 implies #[trigger] s.subrange(0, k + 1)[i] != '\n' by {
                    if i > 0 {
                        assert(s.subrange(0, k + 1)[i] == s.drop_first().subrange(0, k)[i - 1]);
                    }
                }
            },
            None => {
                assert forall|i: int| 0 <= i < s.len() implies #[trigger] s[i] != '\n' by {
                    if i > 0 {
                        assert(s[i] == s.drop_first()[i - 1]);
                    }
                }
            },
        }
    }
}

/// The first line break of `a` is the first of anything `a` begins.
proof fn lemma_first_break_prefix(a: Seq<char>, b: Seq<char>)
    requires
        first_break(a) is Some,
    ensures
        first_break(a + b) == first_break(a),
    decreases a.len(),
{
    if a[0] != '\n' {
        assert((a + b).drop_first() =~= a.drop_first() + b);
        lemma_first_break_prefix(a.drop_first(), b);
    }
}

/// A text with no line break has none first.
proof fn lemma_no_first_break(s: Seq<char>)
    requires
        single_line(s),
    ensures
        first_break(s) is None,
    decreases s.len(),
{
    if s.len() > 0 {
        lemma_no_first_break(s.drop_first());
    }
}

/// A text that ends in a line break has a first one.
proof fn lemma_some_first_break(s: Seq<char>)
    requires
        s.len() > 0,
        s.last() == '\n',
    ensures
        first_break(s) is Some,
{
    lemma_first_break(s);
    if first_break(s) is None {
        assert(s[s.len() - 1] == '\n');
    }
}

/// A single line closed by a line break has that break first.
proof fn lemma_line_break(s: Seq<char>)
    requires
        single_line(s),
    ensures
        first_break(s.push('\n')) == Some(s.len() as int),
    decreases s.len(),
{
    if s.len() > 0 {
        assert(s.push('\n').drop_first() =~= s.drop_first().push('\n'));
        lemma_line_break(s.drop_first());
    }
}

/// A single line, closed by a line break, begins with `p` exactly when the
/// line itself does; no other line begins there.
pub proof fn lemma_line_hits(s: Seq<char>, p: Seq<char>)
    requires
        single_line(s),
        single_line(p),
        p.len() > 0,
    ensures
        line_hits(s.push('\n'), p) == if begins_with(s, p) {
            1nat
        } else {
            0nat
        },
{
    lemma_line_break(s);
    let t = s.push('\n');
    assert(t.subrange(s.len() + 1int, t.len() as int) =~= Seq::<char>::empty());
    lemma_no_hits_in_nothing(p);
    if begins_with(t, p) {
        if p.len() == t.len() {
            assert(p[s.len() as int] == t[s.len() as int]);
        }
        assert(s.subrange(0, p.len() as int) =~= t.subrange(0, p.len() as int));
    }
    if begins_with(s, p) {
        assert(s.subrange(0, p.len() as int) =~= t.subrange(0, p.len() as int));
    }
}

/// No line of the empty text begins with anything.
pub proof fn lemma_no_hits_in_nothing(p: Seq<char>)
    requires
        p.len() > 0,
    ensures
        line_hits(Seq::empty(), p) == 0,
{
    lemma_no_first_break(Seq::<char>::empty());
}

/// The lines of text made of whole lines followed by more are the lines of
/// each part.
pub proof fn lemma_hits_concat(a: Seq<char>, b: Seq<char>, p: Seq<char>)
    requires
        ends_lines(a),
        single_line(p),
        p.len() > 0,
    ensures
        line_hits(a + b, p) == line_hits(a, p) + line_hits(b, p),
    decreases a.len(),
{
    if a.len() == 0 {
        assert(a + b =~= b);
        lemma_no_hits_in_nothing(p);
    } else {
        lemma_some_first_break(a);
        lemma_first_break(a);
        lemma_first_break_prefix(a, b);
        let k = first_break(a)->0;
        let ab = a + b;
        if begins_with(ab, p) {
            if p.len() > k {
                assert(p[k] == ab.subrange(0, p.len() as int)[k]);
            }
            assert(a.subrange(0, p.len() as int) =~= ab.subrange(0, p.len() as int));
        }
        if begins_with(a, p) {
            assert(a.subrange(0, p.len() as int) =~= ab.subrange(0, p.len() as int));
        }
        let rest = a.subrange(k + 1, a.len() as int);
        assert(ab.subrange(k + 1, ab.len() as int) =~= rest + b);
        if rest.len() > 0 {
            assert(rest.last() == a.last());
        }
        lemma_hits_concat(rest, b, p);
    }
}

/// Whole lines followed by whole lines are whole lines.
pub proof fn lemma_ends_lines_concat(a: Seq<char>, b: Seq<char>)
    requires
        ends_lines(a),
        ends_lines(b),
    ensures
        ends_lines(a + b),
{
    if b.len() == 0 {
        assert(a + b =~= a);
    } else {
        assert((a + b).last() == b.last());
    }
}

/// Text made of whole lines and then more: its lines are those of each part,
/// and it ends in whole lines when the second part does.
pub proof fn lemma_hits_then(a: Seq<char>, b: Seq<char>, p: Seq<char>)
    requires
        ends_lines(a),
        single_line(p),
        p.len() > 0,
    ensures
        line_hits(a + b, p) == line_hits(a, p) + line_hits(b, p),
        ends_lines(b) ==> ends_lines(a + b),
{
    lemma_hits_concat(a, b, p);
    if ends_lines(b) {
        lemma_ends_lines_concat(a, b);
    }
}

} // verus!
