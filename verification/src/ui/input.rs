//! Untrusted text on its way to the screen.
use crate::text;
use crate::text::is_control;
use vstd::prelude::*;

verus! {

/// The escape character.
pub open spec fn is_escape(c: char) -> bool {
    c == '\x1b'
}

/// The characters that the screen shows: everything but control characters,
/// and of those the line feed and the tab.
pub open spec fn is_shown(c: char) -> bool {
    !is_control(c) || c == '\n' || c == '\t'
}

/// Length of what is left of a control sequence: up to and with its final
/// character.
pub open spec fn csi_len(s: Seq<char>) -> nat
    decreases s.len(),
{
    if s.len() == 0 {
        0
    } else if '\x40' <= s[0] <= '\x7e' {
        1
    } else {
        1 + csi_len(s.skip(1))
    }
}

/// Length of what is left of an operating system command: up to and with its
/// terminator, which is one character or an escape and the one behind it.
pub open spec fn osc_len(s: Seq<char>) -> nat
    decreases s.len(),
{
    if s.len() == 0 {
        0
    } else if s[0] == '\x07' || s[0] == '\u{9c}' {
        1
    } else if is_escape(s[0]) {
        if s.len() > 1 {
            2
        } else {
            1
        }
    } else {
        1 + osc_len(s.skip(1))
    }
}

/// Length of the escape sequence at the front of `s`.
pub open spec fn escape_len(s: Seq<char>) -> nat {
    if s.len() < 2 {
        1
    } else if s[1] == '[' {
        2 + csi_len(s.skip(2))
    } else if s[1] == ']' {
        2 + osc_len(s.skip(2))
    } else {
        2
    }
}

/// `s` without escape sequences and without control characters but line feeds
/// and tabs.
pub open spec fn display_text(s: Seq<char>) -> Seq<char>
    decreases s.len(),
{
    if s.len() == 0 {
        seq![]
    } else if is_escape(s[0]) {
        proof {
            lemma_csi_len(s.skip(2));
            lemma_osc_len(s.skip(2));
        }
        display_text(s.skip(escape_len(s) as int))
    } else if !is_shown(s[0]) {
        display_text(s.skip(1))
    } else {
        seq![s[0]] + display_text(s.skip(1))
    }
}

/// A control sequence ends within the text.
pub proof fn lemma_csi_len(s: Seq<char>)
    ensures
        csi_len(s) <= s.len(),
    decreases s.len(),
{
    if s.len() > 0 {
        lemma_csi_len(s.skip(1));
    }
}

/// An operating system command ends within the text.
pub proof fn lemma_osc_len(s: Seq<char>)
    ensures
        osc_len(s) <= s.len(),
    decreases s.len(),
{
    if s.len() > 0 {
        lemma_osc_len(s.skip(1));
    }
}

/// Where the control sequence whose parameters start at `from` ends.
fn csi_end(v: &Vec<char>, from: usize) -> (r: usize)
    requires
        from <= v@.len(),
    ensures
        r == from + csi_len(v@.skip(from as int)),
        r <= v@.len(),
{
    let mut i: usize = from;
    while i < v.len()
        invariant
            from <= i <= v@.len(),
            from + csi_len(v@.skip(from as int)) == i + csi_len(v@.skip(i as int)),
        decreases v@.len() - i,
    {
        let c: char = v[i];
        assert(v@.skip(i as int)[0] == c);
        assert(v@.skip(i as int).skip(1) =~= v@.skip(i + 1));
        i = i + 1;
        if '\x40' <= c && c <= '\x7e' {
            return i;
        }
    }
    i
}

/// Where the operating system command whose text starts at `from` ends.
fn osc_end(v: &Vec<char>, from: usize) -> (r: usize)
    requires
        from <= v@.len(),
    ensures
        r == from + osc_len(v@.skip(from as int)),
        r <= v@.len(),
{
    let mut i: usize = from;
    while i < v.len()
        invariant
            from <= i <= v@.len(),
            from + osc_len(v@.skip(from as int)) == i + osc_len(v@.skip(i as int)),
        decreases v@.len() - i,
    {
        let c: char = v[i];
        assert(v@.skip(i as int)[0] == c);
        assert(v@.skip(i as int).skip(1) =~= v@.skip(i + 1));
        i = i + 1;
        if c == '\x07' || c == '\u{9c}' {
            return i;
        }
        if c == '\x1b' {
            return if i < v.len() {
                i + 1
            } else {
                i
            };
        }
    }
    i
}

/// Where the escape sequence at `from` ends.
fn escape_end(v: &Vec<char>, from: usize) -> (r: usize)
    requires
        from < v@.len(),
    ensures
        r == from + escape_len(v@.skip(from as int)),
        from < r <= v@.len(),
{
    let ghost s = v@.skip(from as int);
    assert(v@.len() == v.len());
    if from + 1 == v.len() {
        return from + 1;
    }
    let c: char = v[from + 1];
    assert(s[1] == c);
    assert(s.skip(2) =~= v@.skip(from + 2));
    if c == '[' {
        csi_end(v, from + 2)
    } else if c == ']' {
        osc_end(v, from + 2)
    } else {
        from + 2
    }
}

/// Strips escape sequences and control characters from untrusted text before
/// it is shown, so that it cannot steer the terminal.
pub fn sanitize_for_display(input: &str) -> (r: String)
    ensures
        r@ == display_text(input@),
{
    let v = text::chars_of(input);
    let mut out = String::new();
    let mut i: usize = 0;
    assert(v@.skip(0) =~= v@);
    assert(out@ + display_text(v@) =~= display_text(v@));
    while i < v.len()
        invariant
            i <= v@.len(),
            v@ == input@,
            out@ + display_text(v@.skip(i as int)) == display_text(input@),
        decreases v@.len() - i,
    {
        let c: char = v[i];
        let ghost s = v@.skip(i as int);
        assert(s[0] == c);
        assert(s.skip(1) =~= v@.skip(i + 1));
        if c == '\x1b' {
            let end: usize = escape_end(&v, i);
            assert(s.skip(end - i) =~= v@.skip(end as int));
            i = end;
        } else if text::is_control_char(c) && c != '\n' && c != '\t' {
            i = i + 1;
        } else {
            let ghost before = out@;
            out.push(c);
            assert(out@ + display_text(s.skip(1)) =~= before + (seq![c] + display_text(
                s.skip(1),
            )));
            i = i + 1;
        }
    }
    assert(out@ + display_text(v@.skip(i as int)) =~= out@);
    out
}

/// Nothing that steers a terminal is left: every character of the result is
/// shown, none is an escape.
pub proof fn display_text_is_harmless(s: Seq<char>)
    ensures
        forall|i: int|
            0 <= i < display_text(s).len() ==> is_shown(#[trigger] display_text(s)[i])
                && !is_escape(display_text(s)[i]),
    decreases s.len(),
{
    if s.len() > 0 {
        if is_escape(s[0]) {
            lemma_csi_len(s.skip(2));
            lemma_osc_len(s.skip(2));
            display_text_is_harmless(s.skip(escape_len(s) as int));
            assert(display_text(s) == display_text(s.skip(escape_len(s) as int)));
        } else {
            let rest = s.skip(1);
            display_text_is_harmless(rest);
            if !is_shown(s[0]) {
                assert(display_text(s) == display_text(rest));
            } else {
                assert(display_text(s) == seq![s[0]] + display_text(rest));
                assert forall|i: int| 0 <= i < display_text(s).len() implies is_shown(
                    #[trigger] display_text(s)[i],
                ) && !is_escape(display_text(s)[i]) by {
                    if i > 0 {
                        assert(display_text(s)[i] == display_text(rest)[i - 1]);
                    }
                }
            }
        }
    }
}

/// Text without control characters but line feeds and tabs stays as it is.
pub proof fn harmless_text_is_kept(s: Seq<char>)
    requires
        forall|i: int| 0 <= i < s.len() ==> is_shown(#[trigger] s[i]),
    ensures
        display_text(s) == s,
    decreases s.len(),
{
    if s.len() > 0 {
        let rest = s.skip(1);
        assert forall|i: int| 0 <= i < rest.len() implies is_shown(#[trigger] rest[i]) by {
            assert(rest[i] == s[i + 1]);
        }
        harmless_text_is_kept(rest);
        assert(is_shown(s[0]));
        assert(display_text(s) =~= s);
    } else {
        assert(display_text(s) =~= s);
    }
}

/// Sanitizing twice is sanitizing once.
pub proof fn display_text_is_idempotent(s: Seq<char>)
    ensures
        display_text(display_text(s)) == display_text(s),
{
    display_text_is_harmless(s);
    harmless_text_is_kept(display_text(s));
}

/// `s` without its control characters but line feeds.
pub open spec fn plain_text(s: Seq<char>) -> Seq<char>
    decreases s.len(),
{
    if s.len() == 0 {
        seq![]
    } else if !is_control(s.last()) || s.last() == '\n' {
        plain_text(s.drop_last()).push(s.last())
    } else {
        plain_text(s.drop_last())
    }
}

/// Drops the control characters of a text but its line feeds.
pub fn sanitize(s: &str) -> (r: String)
    ensures
        r@ == plain_text(s@),
{
    let v = text::chars_of(s);
    let mut out = String::new();
    let mut i: usize = 0;
    while i < v.len()
        invariant
            i <= v@.len(),
            out@ == plain_text(v@.take(i as int)),
        decreases v@.len() - i,
    {
        let c: char = v[i];
        assert(v@.take(i + 1).drop_last() =~= v@.take(i as int));
        assert(v@.take(i + 1).last() == c);
        if !text::is_control_char(c) || c == '\n' {
            out.push(c);
        }
        i = i + 1;
    }
    assert(v@.take(i as int) =~= s@);
    out
}

/// Text without control characters but line feeds stays as it is.
pub proof fn plain_text_is_kept(s: Seq<char>)
    requires
        forall|i: int| 0 <= i < s.len() ==> (!is_control(#[trigger] s[i]) || s[i] == '\n'),
    ensures
        plain_text(s) == s,
    decreases s.len(),
{
    if s.len() > 0 {
        let t = s.drop_last();
        assert forall|i: int| 0 <= i < t.len() implies (!is_control(#[trigger] t[i]) || t[i]
            == '\n') by {
            assert(t[i] == s[i]);
        }
        plain_text_is_kept(t);
        assert(!is_control(s[s.len() - 1]) || s[s.len() - 1] == '\n');
        assert(t.push(s.last()) =~= s);
    } else {
        assert(plain_text(s) =~= s);
    }
}

/// Dropping control characters works piece by piece: what stands round one has
/// no part in whether it goes.
pub proof fn plain_text_goes_by_pieces(s: Seq<char>, t: Seq<char>, c: char)
    ensures
        plain_text(s + t) == plain_text(s) + plain_text(t),
        is_control(c) && c != '\n' ==> plain_text(seq![c]).len() == 0,
    decreases t.len(),
{
    if t.len() == 0 {
        assert(s + t =~= s);
        assert(plain_text(s) + plain_text(t) =~= plain_text(s));
    } else {
        plain_text_goes_by_pieces(s, t.drop_last(), c);
        assert((s + t).drop_last() =~= s + t.drop_last());
        assert(plain_text(s + t) =~= plain_text(s) + plain_text(t));
    }
    let one = seq![c];
    assert(one.drop_last() =~= seq![]);
    assert(plain_text(one.drop_last()) =~= seq![]);
    assert(one.last() == c);
}

/// Text that the screen shows is kept in front of whatever follows.
pub proof fn shown_text_is_kept_in_front(front: Seq<char>, rest: Seq<char>)
    requires
        forall|i: int| 0 <= i < front.len() ==> is_shown(#[trigger] front[i]),
    ensures
        display_text(front + rest) == front + display_text(rest),
    decreases front.len(),
{
    if front.len() == 0 {
        assert(front + rest =~= rest);
        assert(front + display_text(rest) =~= display_text(rest));
    } else {
        let tail = front.skip(1);
        assert forall|i: int| 0 <= i < tail.len() implies is_shown(#[trigger] tail[i]) by {
            assert(tail[i] == front[i + 1]);
        }
        shown_text_is_kept_in_front(tail, rest);
        let s = front + rest;
        assert(s[0] == front[0]);
        assert(is_shown(front[0]));
        assert(s.skip(1) =~= tail + rest);
        assert(seq![s[0]] + (tail + display_text(rest)) =~= front + display_text(rest));
    }
}

/// What is not shown goes, and nothing behind it does: a control character by
/// itself, a control sequence up to its final character, and an operating system
/// command up to its bell.
pub proof fn only_what_steers_goes(c: char, inner: Seq<char>, last: char, rest: Seq<char>)
    ensures
        !is_shown(c) && !is_escape(c) ==> display_text(seq![c] + rest) == display_text(rest),
        (forall|i: int| 0 <= i < inner.len() ==> !('\x40' <= #[trigger] inner[i] <= '\x7e'))
            && '\x40' <= last <= '\x7e' ==> display_text(
            seq!['\x1b', '['] + inner + seq![last] + rest,
        ) == display_text(rest),
        (forall|i: int|
            0 <= i < inner.len() ==> #[trigger] inner[i] != '\x07' && inner[i] != '\u{9c}'
                && inner[i] != '\x1b') ==> display_text(
            seq!['\x1b', ']'] + inner + seq!['\x07'] + rest,
        ) == display_text(rest),
        display_text(seq![]).len() == 0,
{
    let one = seq![c] + rest;
    assert(one.skip(1) =~= rest);
    if (forall|i: int| 0 <= i < inner.len() ==> !('\x40' <= #[trigger] inner[i] <= '\x7e'))
        && '\x40' <= last <= '\x7e' {
        let s = seq!['\x1b', '['] + inner + seq![last] + rest;
        assert(s.skip(2) =~= inner + seq![last] + rest);
        lemma_csi_ends(inner, last, rest);
        assert(s.skip(escape_len(s) as int) =~= rest);
        assert(is_escape(s[0]));
    }
    if forall|i: int|
        0 <= i < inner.len() ==> #[trigger] inner[i] != '\x07' && inner[i] != '\u{9c}' && inner[i]
            != '\x1b' {
        let s = seq!['\x1b', ']'] + inner + seq!['\x07'] + rest;
        assert(s.skip(2) =~= inner + seq!['\x07'] + rest);
        lemma_osc_ends(inner, rest);
        assert(s.skip(escape_len(s) as int) =~= rest);
        assert(is_escape(s[0]));
    }
}

proof fn lemma_csi_ends(inner: Seq<char>, last: char, rest: Seq<char>)
    requires
        forall|i: int| 0 <= i < inner.len() ==> !('\x40' <= #[trigger] inner[i] <= '\x7e'),
        '\x40' <= last <= '\x7e',
    ensures
        csi_len(inner + seq![last] + rest) == inner.len() + 1,
    decreases inner.len(),
{
    let s = inner + seq![last] + rest;
    if inner.len() > 0 {
        let tail = inner.skip(1);
        assert forall|i: int| 0 <= i < tail.len() implies !('\x40' <= #[trigger] tail[i]
            <= '\x7e') by {
            assert(tail[i] == inner[i + 1]);
        }
        lemma_csi_ends(tail, last, rest);
        assert(s[0] == inner[0]);
        assert(s.skip(1) =~= tail + seq![last] + rest);
    }
}

proof fn lemma_osc_ends(inner: Seq<char>, rest: Seq<char>)
    requires
        forall|i: int|
            0 <= i < inner.len() ==> #[trigger] inner[i] != '\x07' && inner[i] != '\u{9c}'
                && inner[i] != '\x1b',
    ensures
        osc_len(inner + seq!['\x07'] + rest) == inner.len() + 1,
    decreases inner.len(),
{
    let s = inner + seq!['\x07'] + rest;
    if inner.len() > 0 {
        let tail = inner.skip(1);
        assert forall|i: int| 0 <= i < tail.len() implies #[trigger] tail[i] != '\x07' && tail[i]
            != '\u{9c}' && tail[i] != '\x1b' by {
            assert(tail[i] == inner[i + 1]);
        }
        lemma_osc_ends(tail, rest);
        assert(s[0] == inner[0]);
        assert(s.skip(1) =~= tail + seq!['\x07'] + rest);
    }
}

/// What is left is plain: no control character but line feeds.
pub proof fn plain_text_is_plain(s: Seq<char>)
    ensures
        forall|i: int|
            0 <= i < plain_text(s).len() ==> !is_control(#[trigger] plain_text(s)[i])
                || plain_text(s)[i] == '\n',
    decreases s.len(),
{
    if s.len() > 0 {
        plain_text_is_plain(s.drop_last());
        assert forall|i: int| 0 <= i < plain_text(s).len() implies !is_control(
            #[trigger] plain_text(s)[i],
        ) || plain_text(s)[i] == '\n' by {
            if i < plain_text(s.drop_last()).len() {
                assert(plain_text(s)[i] == plain_text(s.drop_last())[i]);
            }
        }
    }
}

} // verus!
