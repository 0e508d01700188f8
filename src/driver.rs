//! The parser driver: feeds bytes one at a time to termwiz's escape-sequence
//! parser and records the window of bytes that produced each group of actions.

use vstd::prelude::*;
use termwiz::escape::parser::Parser;
use termwiz::escape::Action;

verus! {

#[verifier::external_type_specification]
#[verifier::external_body]
pub struct ExParser(Parser);

#[verifier::external_type_specification]
#[verifier::external_body]
pub struct ExAction(Action);

/// Relies on `termwiz::escape::parser::Parser::new`: a parser in its ground state.
pub assume_specification[ Parser::new ]() -> Parser;

/// Relies on `termwiz::escape::parser::Parser::parse_as_vec`: the actions
/// that the bytes complete, zero or more; nothing is promised of them.
pub assume_specification[ Parser::parse_as_vec ](p: &mut Parser, bytes: &[u8]) -> Vec<Action>;

/// The actions completed by one byte, with the bytes read since the
/// previous group (that byte included).
pub struct ActionGroup {
    pub actions: Vec<Action>,
    pub raw_bytes: Vec<u8>,
}

/// The raw bytes of the groups, one after the other.
pub open spec fn concat_windows(groups: Seq<ActionGroup>) -> Seq<u8>
    decreases groups.len(),
{
    if groups.len() == 0 {
        Seq::empty()
    } else {
        concat_windows(groups.drop_last()) + groups.last().raw_bytes@
    }
}

/// The windows of two runs of groups, one after the other.
pub proof fn lemma_concat_windows_append(a: Seq<ActionGroup>, b: Seq<ActionGroup>)
    ensures
        concat_windows(a + b) == concat_windows(a) + concat_windows(b),
    decreases b.len(),
{
    if b.len() == 0 {
        assert(a + b =~= a);
        assert(concat_windows(a) + Seq::<u8>::empty() =~= concat_windows(a));
    } else {
        lemma_concat_windows_append(a, b.drop_last());
        assert((a + b).drop_last() =~= a + b.drop_last());
        assert((a + b).last() == b.last());
        assert(concat_windows(a + b.drop_last()) + b.last().raw_bytes@ =~= concat_windows(a) + (concat_windows(
            b.drop_last(),
        ) + b.last().raw_bytes@));
    }
}

/// True when every group holds at least one action and one byte.
pub open spec fn groups_nonempty(groups: Seq<ActionGroup>) -> bool {
    forall|i: int|
        0 <= i < groups.len() ==> (#[trigger] groups[i]).actions@.len() > 0 && groups[i].raw_bytes@.len() > 0
}

/// An action group as values: the actions and the bytes that produced them.
pub open spec fn group_view(g: ActionGroup) -> (Seq<Action>, Seq<u8>) {
    (g.actions@, g.raw_bytes@)
}

/// The values of a sequence of groups.
pub open spec fn group_views(groups: Seq<ActionGroup>) -> Seq<(Seq<Action>, Seq<u8>)> {
    groups.map_values(|g: ActionGroup| group_view(g))
}

/// The groups emitted and the bytes left pending when, starting with
/// `pending` bytes, each byte of `bytes` is read in order and the parser
/// returns `results[i]` for byte `i`: a byte for which the parser returns no
/// action only grows the window; a byte for which it returns actions emits
/// them with the window up to and including that byte, and the window starts
/// afresh.
pub open spec fn drive(pending: Seq<u8>, bytes: Seq<u8>, results: Seq<Seq<Action>>) -> (
    Seq<(Seq<Action>, Seq<u8>)>,
    Seq<u8>,
)
    decreases bytes.len(),
{
    if bytes.len() == 0 {
        (Seq::empty(), pending)
    } else {
        let (groups, window) = drive(pending, bytes.drop_last(), results.drop_last());
        let grown = window.push(bytes.last());
        let actions = results[bytes.len() - 1];
        if actions.len() == 0 {
            (groups, grown)
        } else {
            (groups.push((actions, grown)), Seq::empty())
        }
    }
}

/// Bytes for which the parser returns no action emit no group: they all stay
/// pending, after what was pending before (a lone ESC waits for more bytes).
pub proof fn lemma_drive_incomplete(pending: Seq<u8>, bytes: Seq<u8>, results: Seq<Seq<Action>>)
    requires
        results.len() == bytes.len(),
        forall|i: int| 0 <= i < results.len() ==> (#[trigger] results[i]).len() == 0,
    ensures
        drive(pending, bytes, results) == (Seq::<(Seq<Action>, Seq<u8>)>::empty(), pending + bytes),
    decreases bytes.len(),
{
    if bytes.len() > 0 {
        let prev = results.drop_last();
        assert forall|i: int| 0 <= i < prev.len() implies (#[trigger] prev[i]).len() == 0 by {
            assert(prev[i] == results[i]);
        }
        lemma_drive_incomplete(pending, bytes.drop_last(), prev);
        assert(results[bytes.len() - 1].len() == 0);
        assert((pending + bytes.drop_last()).push(bytes.last()) =~= pending + bytes);
    } else {
        assert(pending + bytes =~= pending);
    }
}

/// A parser with the bytes read since its last completed action.
pub struct ParserDriver {
    parser: Parser,
    window: Vec<u8>,
}

impl ParserDriver {
    /// The bytes read since the last group was emitted.
    pub closed spec fn pending(&self) -> Seq<u8> {
        self.window@
    }

    /// A driver that has read nothing.
    pub fn new() -> (r: ParserDriver)
        ensures
            r.pending() == Seq::<u8>::empty(),
    {
        ParserDriver { parser: Parser::new(), window: Vec::new() }
    }

    /// The bytes read since the last group was emitted.
    pub fn pending_bytes(&self) -> (r: &Vec<u8>)
        ensures
            r@ == self.pending(),
    {
        &self.window
    }

    /// Records byte `b`, for which the parser returned `actions`. With no
    /// action the byte only joins the window; otherwise the actions are
    /// emitted with the window up to and including `b`, which then starts
    /// afresh.
    pub fn record_byte(&mut self, b: u8, actions: Vec<Action>) -> (r: Option<ActionGroup>)
        ensures
            actions@.len() == 0 ==> r is None && final(self).pending() == old(self).pending().push(b),
            actions@.len() > 0 ==> r is Some && r->0.actions@ == actions@ && r->0.raw_bytes@ == old(
                self,
            ).pending().push(b) && final(self).pending() == Seq::<u8>::empty(),
    {
        self.window.push(b);
        if actions.len() > 0 {
            let mut raw_bytes: Vec<u8> = Vec::new();
            std::mem::swap(&mut raw_bytes, &mut self.window);
            Some(ActionGroup { actions, raw_bytes })
        } else {
            None
        }
    }

    /// Feeds `bytes` to the parser one at a time, in order, and records each
    /// byte with what the parser returned for it ([`ParserDriver::record_byte`]).
    /// Whatever the parser returns, the groups and the new pending bytes are
    /// those of [`drive`] over its results; so the windows of the groups,
    /// followed by what is still pending, are the pending bytes before the
    /// call followed by `bytes`.
    pub fn feed(&mut self, bytes: &[u8]) -> (r: Vec<ActionGroup>)
        ensures
            exists|results: Seq<Seq<Action>>|
                results.len() == bytes@.len() && #[trigger] drive(old(self).pending(), bytes@, results) == (
                group_views(r@),
                final(self).pending(),
            ),
            concat_windows(r@) + final(self).pending() == old(self).pending() + bytes@,
            groups_nonempty(r@),
    {
        let mut out: Vec<ActionGroup> = Vec::new();
        let ghost results: Seq<Seq<Action>> = Seq::empty();
        let mut i: usize = 0;
        while i < bytes.len()
            invariant
                i <= bytes@.len(),
                results.len() == i,
                drive(old(self).window@, bytes@.subrange(0, i as int), results) == (group_views(out@), self.window@),
                concat_windows(out@) + self.window@ == old(self).window@ + bytes@.subrange(0, i as int),
                groups_nonempty(out@),
            decreases bytes@.len() - i,
        {
            let b = bytes[i];
            let ghost prev_out = concat_windows(out@);
            let ghost cur = self.window@;
            let one: Vec<u8> = vec![b];
            let actions = self.parser.parse_as_vec(one.as_slice());
            let ghost got = actions@;
            let group = self.record_byte(b, actions);
            proof {
                let next = bytes@.subrange(0, i + 1);
                assert(next.drop_last() =~= bytes@.subrange(0, i as int));
                assert(results.push(got).drop_last() =~= results);
                results = results.push(got);
            }
            match group {
                Some(g) => {
                    let ghost before = out@;
                    out.push(g);
                    assert(out@.drop_last() =~= before);
                    assert(concat_windows(out@) == prev_out + cur.push(b));
                    assert(group_views(out@) =~= group_views(before).push(group_view(g)));
                },
                None => {},
            }
            assert(bytes@.subrange(0, i + 1) =~= bytes@.subrange(0, i as int).push(b));
            assert(concat_windows(out@) + self.window@ =~= (prev_out + cur).push(b));
            i = i + 1;
        }
        assert(bytes@.subrange(0, bytes@.len() as int) =~= bytes@);
        assert(drive(old(self).pending(), bytes@, results) == (group_views(out@), self.pending()));
        out
    }
}

/// Two successive feeds from a driver with nothing pending cover the bytes
/// of both: the windows of all the groups, followed by what is still pending,
/// are exactly the bytes fed, in order.
pub proof fn lemma_feeds_cover_stream(
    b1: Seq<u8>,
    g1: Seq<ActionGroup>,
    w1: Seq<u8>,
    b2: Seq<u8>,
    g2: Seq<ActionGroup>,
    w2: Seq<u8>,
)
    requires
        concat_windows(g1) + w1 == Seq::<u8>::empty() + b1,
        concat_windows(g2) + w2 == w1 + b2,
    ensures
        concat_windows(g1 + g2) + w2 == b1 + b2,
{
    lemma_concat_windows_append(g1, g2);
    assert(Seq::<u8>::empty() + b1 =~= b1);
    assert(concat_windows(g1) + concat_windows(g2) + w2 =~= concat_windows(g1) + (concat_windows(g2) + w2));
    assert(concat_windows(g1) + (w1 + b2) =~= (concat_windows(g1) + w1) + b2);
}

} // verus!
