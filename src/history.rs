//! The classifier: turns parsed actions into a coalesced history of display
//! events, tracking the colours set by SGR sequences.

use vstd::prelude::*;
use crate::action::{CsiAction, ParsedAction, SgrAction};
use crate::color::{color_hex, hex_color, ColorSpec};
use crate::event::{control_hex, describe, EventV, VteEventDto};
use crate::text::sanitized;
use crate::text::push_char;

verus! {

/// The colours in effect after `a`, given those before it.
pub open spec fn colors_after(a: ParsedAction, fg: ColorSpec, bg: ColorSpec) -> (ColorSpec, ColorSpec) {
    match a {
        ParsedAction::Csi(CsiAction::Sgr(SgrAction::Foreground { color, .. })) => (color, bg),
        ParsedAction::Csi(CsiAction::Sgr(SgrAction::Background { color, .. })) => (fg, color),
        ParsedAction::Csi(CsiAction::Sgr(SgrAction::Reset)) => (ColorSpec::Default, ColorSpec::Default),
        _ => (fg, bg),
    }
}

/// `e` with the given colours attached if it is printed text.
pub open spec fn with_colors(e: EventV, fg: ColorSpec, bg: ColorSpec) -> EventV {
    match e {
        EventV::Print { string, .. } => EventV::Print { string, color: color_hex(fg), bg_color: color_hex(bg) },
        _ => e,
    }
}

/// Updates the colours in effect after an action.
pub fn update_global_colors(action: &ParsedAction, fg_color: &mut ColorSpec, bg_color: &mut ColorSpec)
    ensures
        (*final(fg_color), *final(bg_color)) == colors_after(*action, *old(fg_color), *old(bg_color)),
{
    if let ParsedAction::Csi(CsiAction::Sgr(sgr)) = action {
        match sgr {
            SgrAction::Foreground { color, .. } => {
                *fg_color = *color;
            },
            SgrAction::Background { color, .. } => {
                *bg_color = *color;
            },
            SgrAction::Reset => {
                *fg_color = ColorSpec::Default;
                *bg_color = ColorSpec::Default;
            },
            _ => {},
        }
    }
}

/// Attaches the colours in effect to printed text; other events stay as they are.
pub fn update_print_colors(dto: &mut VteEventDto, fg_color: ColorSpec, bg_color: ColorSpec)
    ensures
        final(dto)@ == with_colors(old(dto)@, fg_color, bg_color),
{
    if let VteEventDto::Print { color, bg_color: dto_bg_color, .. } = dto {
        *color = hex_color(&fg_color);
        *dto_bg_color = hex_color(&bg_color);
    }
}

/// True for the actions that print text.
pub open spec fn is_print_action(a: ParsedAction) -> bool {
    a is Print || a is PrintString
}

/// The text that a printing action prints.
pub open spec fn print_text(a: ParsedAction) -> Seq<char> {
    match a {
        ParsedAction::Print(c) => seq![c],
        ParsedAction::PrintString(s) => s@,
        _ => Seq::empty(),
    }
}

/// The value of an [`EventLog`].
pub struct LogV {
    pub history: Seq<EventV>,
    pub sequence_count: nat,
    pub fg_color: ColorSpec,
    pub bg_color: ColorSpec,
    pub last_was_line_break: bool,
}

/// The log before anything was classified.
pub open spec fn initial_log() -> LogV {
    LogV {
        history: Seq::empty(),
        sequence_count: 0,
        fg_color: ColorSpec::Default,
        bg_color: ColorSpec::Default,
        last_was_line_break: false,
    }
}

/// True when `a` is folded into the last history entry instead of adding one.
pub open spec fn merges(s: LogV, a: ParsedAction) -> bool {
    s.history.len() > 0 && s.history.last() is Print && is_print_action(a)
}

/// The event that a non-merging action adds, with the colours in effect.
pub open spec fn colored_event(s: LogV, a: ParsedAction, raw: Seq<u8>) -> EventV {
    let (fg, bg) = colors_after(a, s.fg_color, s.bg_color);
    with_colors(describe(a, raw), fg, bg)
}

/// The events published for `a`: for a merge, the new text alone; otherwise
/// the event, preceded by an invisible line break where it starts or ends a
/// run of line breaks.
pub open spec fn published(s: LogV, a: ParsedAction, raw: Seq<u8>) -> Seq<EventV> {
    if merges(s, a) {
        seq![describe(a, raw)]
    } else {
        let e = colored_event(s, a, raw);
        if (e is LineBreak) != s.last_was_line_break {
            seq![EventV::InvisibleLineBreak, e]
        } else {
            seq![e]
        }
    }
}

/// `e` with `more` appended to its text, if it is printed text.
pub open spec fn extend_print(e: EventV, more: Seq<char>) -> EventV {
    match e {
        EventV::Print { string, color, bg_color } => EventV::Print { string: string + more, color, bg_color },
        _ => e,
    }
}

/// The log after classifying `a`, produced by the bytes `raw`.
pub open spec fn step(s: LogV, a: ParsedAction, raw: Seq<u8>) -> LogV {
    if merges(s, a) {
        LogV {
            history: s.history.update(s.history.len() - 1, extend_print(s.history.last(), print_text(a))),
            ..s
        }
    } else {
        let (fg, bg) = colors_after(a, s.fg_color, s.bg_color);
        LogV {
            history: s.history + published(s, a, raw),
            sequence_count: s.sequence_count + 1,
            fg_color: fg,
            bg_color: bg,
            last_was_line_break: colored_event(s, a, raw) is LineBreak,
        }
    }
}

/// The log after classifying each input in order, starting from `s`.
pub open spec fn run(s: LogV, inputs: Seq<(ParsedAction, Seq<u8>)>) -> LogV
    decreases inputs.len(),
{
    if inputs.len() == 0 {
        s
    } else {
        let last = inputs.last();
        step(run(s, inputs.drop_last()), last.0, last.1)
    }
}

/// The values of a sequence of events.
pub open spec fn event_views(s: Seq<VteEventDto>) -> Seq<EventV> {
    s.map_values(|e: VteEventDto| e@)
}

/// The number of entries that are not invisible line breaks.
pub open spec fn count_visible(h: Seq<EventV>) -> nat
    decreases h.len(),
{
    if h.len() == 0 {
        0
    } else {
        count_visible(h.drop_last()) + if h.last() is InvisibleLineBreak { 0nat } else { 1nat }
    }
}

/// No two adjacent entries are both printed text.
pub open spec fn no_adjacent_prints(h: Seq<EventV>) -> bool {
    forall|i: int| 0 <= i < h.len() - 1 ==> !(#[trigger] h[i] is Print && h[i + 1] is Print)
}

/// Invisible line breaks stand exactly where a run of line breaks meets a
/// run of other events: two adjacent visible entries are both line breaks or
/// both not; an invisible line break is never first unless a line break
/// follows it, never last, never next to another, and separates a line break
/// from a non-line-break; and the history never starts with a line break, so
/// it starts with an invisible line break exactly when its first visible
/// entry is a line break.
pub open spec fn line_breaks_bracketed(h: Seq<EventV>) -> bool {
    &&& h.len() > 0 ==> h[0] !is LineBreak
    &&& forall|i: int|
        0 <= i < h.len() - 1 && h[i] !is InvisibleLineBreak && #[trigger] h[i + 1] !is InvisibleLineBreak
            ==> (h[i] is LineBreak) == (h[i + 1] is LineBreak)
    &&& forall|i: int|
        0 <= i < h.len() && #[trigger] h[i] is InvisibleLineBreak ==> {
            &&& i + 1 < h.len()
            &&& h[i + 1] !is InvisibleLineBreak
            &&& i == 0 ==> h[i + 1] is LineBreak
            &&& i > 0 ==> h[i - 1] !is InvisibleLineBreak && (h[i - 1] is LineBreak) != (h[i + 1] is LineBreak)
        }
}

/// What holds of every log that classification reaches.
pub open spec fn log_wf(s: LogV) -> bool {
    &&& no_adjacent_prints(s.history)
    &&& line_breaks_bracketed(s.history)
    &&& s.sequence_count == count_visible(s.history)
    &&& s.last_was_line_break == (s.history.len() > 0 && s.history.last() is LineBreak)
}


/// A described event is never an invisible line break, and it is printed
/// text exactly for the printing actions.
proof fn lemma_describe_kind(a: ParsedAction, raw: Seq<u8>, fg: ColorSpec, bg: ColorSpec)
    ensures
        with_colors(describe(a, raw), fg, bg) !is InvisibleLineBreak,
        (with_colors(describe(a, raw), fg, bg) is Print) == is_print_action(a),
{
}

/// The history after appending the event `e` that a non-merging action
/// produced, given the flag of whether the last visible entry was a line break.
pub open spec fn bracketed(last_was_line_break: bool, e: EventV) -> Seq<EventV> {
    if (e is LineBreak) != last_was_line_break {
        seq![EventV::InvisibleLineBreak, e]
    } else {
        seq![e]
    }
}

proof fn lemma_replace_last_wf(s: LogV, x: EventV)
    requires
        log_wf(s),
        s.history.len() > 0,
        s.history.last() is Print,
        x is Print,
    ensures
        log_wf(LogV { history: s.history.update(s.history.len() - 1, x), ..s }),
{
    let h = s.history;
    let h2 = h.update(h.len() - 1, x);
    assert(h2.drop_last() =~= h.drop_last());
    assert(h2[0] is LineBreak == h[0] is LineBreak);
    assert forall|i: int| 0 <= i < h.len() implies (#[trigger] h2[i] is Print) == (h[i] is Print) && (
    h2[i] is LineBreak) == (h[i] is LineBreak) && (h2[i] is InvisibleLineBreak) == (h[i] is InvisibleLineBreak) by {}
    assert(no_adjacent_prints(h2)) by {
        assert forall|i: int| 0 <= i < h2.len() - 1 implies !(#[trigger] h2[i] is Print && h2[i + 1] is Print) by {
            assert(h2[i] is Print == h[i] is Print);
            assert(h2[i + 1] is Print == h[i + 1] is Print);
        }
    }
    assert(line_breaks_bracketed(h2)) by {
        assert forall|i: int|
            0 <= i < h2.len() - 1 && h2[i] !is InvisibleLineBreak && #[trigger] h2[i + 1] !is InvisibleLineBreak implies (
            h2[i] is LineBreak) == (h2[i + 1] is LineBreak) by {
            assert(h2[i] is LineBreak == h[i] is LineBreak);
            assert(h2[i] is InvisibleLineBreak == h[i] is InvisibleLineBreak);
            assert(h2[i + 1] is LineBreak == h[i + 1] is LineBreak);
            assert(h2[i + 1] is InvisibleLineBreak == h[i + 1] is InvisibleLineBreak);
        }
        assert forall|i: int| 0 <= i < h2.len() && #[trigger] h2[i] is InvisibleLineBreak implies {
            &&& i + 1 < h2.len()
            &&& h2[i + 1] !is InvisibleLineBreak
            &&& i == 0 ==> h2[i + 1] is LineBreak
            &&& i > 0 ==> h2[i - 1] !is InvisibleLineBreak && (h2[i - 1] is LineBreak) != (h2[i + 1] is LineBreak)
        } by {
            assert(h2[i] is InvisibleLineBreak == h[i] is InvisibleLineBreak);
            assert(h[i] is InvisibleLineBreak);
            assert(h2[i + 1] is LineBreak == h[i + 1] is LineBreak);
            assert(h2[i + 1] is InvisibleLineBreak == h[i + 1] is InvisibleLineBreak);
            if i > 0 {
                assert(h2[i - 1] is LineBreak == h[i - 1] is LineBreak);
                assert(h2[i - 1] is InvisibleLineBreak == h[i - 1] is InvisibleLineBreak);
            }
        }
    }
}

proof fn lemma_append_prints(h: Seq<EventV>, p: Seq<EventV>)
    requires
        no_adjacent_prints(h),
        no_adjacent_prints(p),
        h.len() > 0 && p.len() > 0 ==> !(h.last() is Print && p[0] is Print),
    ensures
        no_adjacent_prints(h + p),
{
    let h2 = h + p;
    assert forall|i: int| 0 <= i < h2.len() - 1 implies !(#[trigger] h2[i] is Print && h2[i + 1] is Print) by {
        if i < h.len() - 1 {
            assert(h2[i] == h[i] && h2[i + 1] == h[i + 1]);
        } else if i == h.len() - 1 {
            assert(h2[i] == h.last() && h2[i + 1] == p[0]);
        } else {
            assert(h2[i] == p[i - h.len()] && h2[i + 1] == p[i + 1 - h.len()]);
        }
    }
}

proof fn lemma_append_brackets(h: Seq<EventV>, last_was_line_break: bool, e: EventV)
    requires
        line_breaks_bracketed(h),
        last_was_line_break == (h.len() > 0 && h.last() is LineBreak),
        e !is InvisibleLineBreak,
    ensures
        line_breaks_bracketed(h + bracketed(last_was_line_break, e)),
{
    let p = bracketed(last_was_line_break, e);
    let h2 = h + p;
    if h.len() > 0 {
        assert(h2[0] == h[0]);
    } else {
        assert(h2[0] == p[0]);
    }
    if h.len() > 0 {
        assert(h.last() !is InvisibleLineBreak) by {
            if h.last() is InvisibleLineBreak {
                assert(h[h.len() - 1] is InvisibleLineBreak);
            }
        }
    }
    assert forall|i: int|
        0 <= i < h2.len() - 1 && h2[i] !is InvisibleLineBreak && #[trigger] h2[i + 1] !is InvisibleLineBreak implies (
        h2[i] is LineBreak) == (h2[i + 1] is LineBreak) by {
        if i < h.len() - 1 {
            assert(h2[i] == h[i] && h2[i + 1] == h[i + 1]);
        }
    }
    assert forall|i: int| 0 <= i < h2.len() && #[trigger] h2[i] is InvisibleLineBreak implies {
        &&& i + 1 < h2.len()
        &&& h2[i + 1] !is InvisibleLineBreak
        &&& i == 0 ==> h2[i + 1] is LineBreak
        &&& i > 0 ==> h2[i - 1] !is InvisibleLineBreak && (h2[i - 1] is LineBreak) != (h2[i + 1] is LineBreak)
    } by {
        if i < h.len() {
            assert(h2[i] == h[i]);
            assert(h[i] is InvisibleLineBreak);
            if i + 1 < h.len() {
                assert(h2[i + 1] == h[i + 1]);
            }
            if i > 0 {
                assert(h2[i - 1] == h[i - 1]);
            }
        } else if i > 0 {
            assert(h2[i - 1] == h[i - 1]);
        }
    }
}

proof fn lemma_append_count(h: Seq<EventV>, last_was_line_break: bool, e: EventV)
    requires
        e !is InvisibleLineBreak,
    ensures
        count_visible(h + bracketed(last_was_line_break, e)) == count_visible(h) + 1,
{
    let h2 = h + bracketed(last_was_line_break, e);
    if (e is LineBreak) != last_was_line_break {
        let h1 = h + seq![EventV::InvisibleLineBreak];
        assert(h2.drop_last() =~= h1);
        assert(h1.drop_last() =~= h);
        assert(h1.last() is InvisibleLineBreak);
        assert(count_visible(h1) == count_visible(h));
        assert(h2.last() == e);
    } else {
        assert(h2.drop_last() =~= h);
        assert(h2.last() == e);
    }
}

proof fn lemma_append_wf(s: LogV, e: EventV, fg: ColorSpec, bg: ColorSpec)
    requires
        log_wf(s),
        e !is InvisibleLineBreak,
        e is Print ==> !(s.history.len() > 0 && s.history.last() is Print),
    ensures
        log_wf(
            LogV {
                history: s.history + bracketed(s.last_was_line_break, e),
                sequence_count: s.sequence_count + 1,
                fg_color: fg,
                bg_color: bg,
                last_was_line_break: e is LineBreak,
            },
        ),
{
    let p = bracketed(s.last_was_line_break, e);
    lemma_append_prints(s.history, p);
    lemma_append_brackets(s.history, s.last_was_line_break, e);
    lemma_append_count(s.history, s.last_was_line_break, e);
    assert((s.history + p).last() == e);
}

/// Classifying one more action keeps every property of [`log_wf`].
pub proof fn lemma_step_wf(s: LogV, a: ParsedAction, raw: Seq<u8>)
    requires
        log_wf(s),
    ensures
        log_wf(step(s, a, raw)),
{
    if merges(s, a) {
        lemma_replace_last_wf(s, extend_print(s.history.last(), print_text(a)));
    } else {
        let (fg, bg) = colors_after(a, s.fg_color, s.bg_color);
        lemma_describe_kind(a, raw, fg, bg);
        let e = colored_event(s, a, raw);
        assert(published(s, a, raw) == bracketed(s.last_was_line_break, e));
        lemma_append_wf(s, e, fg, bg);
    }
}

/// Whatever sequence of actions is classified from the start, no two
/// adjacent history entries are printed text, invisible line breaks stand
/// exactly where a run of line breaks meets other events, and the sequence
/// count equals the number of history entries that are not invisible line
/// breaks (printed text that was folded into earlier text adds no entry).
pub proof fn lemma_run_wf(inputs: Seq<(ParsedAction, Seq<u8>)>)
    ensures
        log_wf(run(initial_log(), inputs)),
        no_adjacent_prints(run(initial_log(), inputs).history),
        line_breaks_bracketed(run(initial_log(), inputs).history),
        run(initial_log(), inputs).sequence_count == count_visible(run(initial_log(), inputs).history),
    decreases inputs.len(),
{
    if inputs.len() > 0 {
        lemma_run_wf(inputs.drop_last());
        let last = inputs.last();
        lemma_step_wf(run(initial_log(), inputs.drop_last()), last.0, last.1);
    }
}

/// True when `a` sets the foreground or background colour.
pub open spec fn sets_color(a: ParsedAction) -> bool {
    ||| a matches ParsedAction::Csi(CsiAction::Sgr(SgrAction::Foreground { .. }))
    ||| a matches ParsedAction::Csi(CsiAction::Sgr(SgrAction::Background { .. }))
}

/// True when `a` is an SGR reset.
pub open spec fn is_sgr_reset(a: ParsedAction) -> bool {
    a matches ParsedAction::Csi(CsiAction::Sgr(SgrAction::Reset))
}

/// True unless `e` is printed text with a colour.
pub open spec fn uncolored(e: EventV) -> bool {
    e matches EventV::Print { color, bg_color, .. } ==> color is None && bg_color is None
}

/// Every entry from index `start` on is [`uncolored`].
pub open spec fn uncolored_from(h: Seq<EventV>, start: int) -> bool {
    forall|i: int| start <= i < h.len() ==> uncolored(#[trigger] h[i])
}

proof fn lemma_after_reset(s: LogV, reset: (ParsedAction, Seq<u8>), inputs: Seq<(ParsedAction, Seq<u8>)>)
    requires
        is_sgr_reset(reset.0),
        forall|i: int| 0 <= i < inputs.len() ==> !sets_color(#[trigger] inputs[i].0),
    ensures
        run(step(s, reset.0, reset.1), inputs).fg_color == ColorSpec::Default,
        run(step(s, reset.0, reset.1), inputs).bg_color == ColorSpec::Default,
        run(step(s, reset.0, reset.1), inputs).history.len() > s.history.len(),
        uncolored_from(run(step(s, reset.0, reset.1), inputs).history, s.history.len() as int),
    decreases inputs.len(),
{
    let s1 = step(s, reset.0, reset.1);
    let start = s.history.len() as int;
    if inputs.len() == 0 {
        assert(!merges(s, reset.0));
        let e = colored_event(s, reset.0, reset.1);
        assert(e is GenericEscape);
        assert forall|i: int| start <= i < s1.history.len() implies uncolored(#[trigger] s1.history[i]) by {
            assert(s1.history[i] == published(s, reset.0, reset.1)[i - start]);
        }
    } else {
        let prev = inputs.drop_last();
        assert forall|i: int| 0 <= i < prev.len() implies !sets_color(#[trigger] prev[i].0) by {
            assert(prev[i] == inputs[i]);
        }
        lemma_after_reset(s, reset, prev);
        let t = run(s1, prev);
        let a = inputs.last().0;
        let raw = inputs.last().1;
        assert(!sets_color(inputs[inputs.len() - 1].0));
        let u = step(t, a, raw);
        assert(u == run(s1, inputs));
        if merges(t, a) {
            assert forall|i: int| start <= i < u.history.len() implies uncolored(#[trigger] u.history[i]) by {
                if i < t.history.len() - 1 {
                    assert(u.history[i] == t.history[i]);
                } else {
                    assert(uncolored(t.history[t.history.len() - 1]));
                }
            }
        } else {
            let (fg, bg) = colors_after(a, t.fg_color, t.bg_color);
            assert(fg == ColorSpec::Default && bg == ColorSpec::Default);
            let e = colored_event(t, a, raw);
            assert(uncolored(e));
            assert forall|i: int| start <= i < u.history.len() implies uncolored(#[trigger] u.history[i]) by {
                if i < t.history.len() {
                    assert(u.history[i] == t.history[i]);
                } else {
                    assert(u.history[i] == published(t, a, raw)[i - t.history.len()]);
                }
            }
        }
    }
}

/// After an SGR reset, printed text classified before the next foreground or
/// background change carries no colour: every history entry from the reset
/// on that is printed text has neither colour nor background colour.
pub proof fn lemma_reset_clears_colors(
    s: LogV,
    reset: (ParsedAction, Seq<u8>),
    inputs: Seq<(ParsedAction, Seq<u8>)>,
)
    requires
        is_sgr_reset(reset.0),
        forall|i: int| 0 <= i < inputs.len() ==> !sets_color(#[trigger] inputs[i].0),
    ensures
        uncolored_from(run(step(s, reset.0, reset.1), inputs).history, s.history.len() as int),
{
    lemma_after_reset(s, reset, inputs);
}

/// Every entry that is printed text has at least one character.
pub open spec fn prints_nonempty(h: Seq<EventV>) -> bool {
    forall|i: int| 0 <= i < h.len() ==> (#[trigger] h[i] matches EventV::Print { string, .. } ==> string.len() > 0)
}

/// A printing action prints at least one character.
pub open spec fn carries_text(a: ParsedAction) -> bool {
    is_print_action(a) ==> print_text(a).len() > 0
}

/// Classifying an action that carries text keeps every printed entry non-empty.
pub proof fn lemma_step_prints_nonempty(s: LogV, a: ParsedAction, raw: Seq<u8>)
    requires
        prints_nonempty(s.history),
        carries_text(a),
    ensures
        prints_nonempty(step(s, a, raw).history),
{
    let h = s.history;
    let h2 = step(s, a, raw).history;
    if merges(s, a) {
        assert forall|i: int| 0 <= i < h2.len() implies (#[trigger] h2[i] matches EventV::Print { string, .. }
            ==> string.len() > 0) by {
            if i < h.len() - 1 {
                assert(h2[i] == h[i]);
            } else {
                assert(h[h.len() - 1] matches EventV::Print { string, .. } ==> string.len() > 0);
            }
        }
    } else {
        let e = colored_event(s, a, raw);
        assert(e matches EventV::Print { string, .. } ==> string == print_text(a));
        assert forall|i: int| 0 <= i < h2.len() implies (#[trigger] h2[i] matches EventV::Print { string, .. }
            ==> string.len() > 0) by {
            if i < h.len() {
                assert(h2[i] == h[i]);
            } else {
                assert(h2[i] == published(s, a, raw)[i - h.len()]);
            }
        }
    }
}

/// When every printing action carries text, every printed entry of the
/// history has at least one character.
pub proof fn lemma_run_prints_nonempty(inputs: Seq<(ParsedAction, Seq<u8>)>)
    requires
        forall|i: int| 0 <= i < inputs.len() ==> carries_text(#[trigger] inputs[i].0),
    ensures
        prints_nonempty(run(initial_log(), inputs).history),
    decreases inputs.len(),
{
    if inputs.len() > 0 {
        let prev = inputs.drop_last();
        assert forall|i: int| 0 <= i < prev.len() implies carries_text(#[trigger] prev[i].0) by {
            assert(prev[i] == inputs[i]);
        }
        lemma_run_prints_nonempty(prev);
        assert(carries_text(inputs[inputs.len() - 1].0));
        lemma_step_prints_nonempty(run(initial_log(), prev), inputs.last().0, inputs.last().1);
    }
}

/// The text printed by the printing actions among the inputs, in order.
pub open spec fn printed_text(inputs: Seq<(ParsedAction, Seq<u8>)>) -> Seq<char>
    decreases inputs.len(),
{
    if inputs.len() == 0 {
        Seq::empty()
    } else {
        printed_text(inputs.drop_last()) + print_text(inputs.last().0)
    }
}

/// A burst of printing actions classified from the start leaves one history
/// entry: printed text holding all their characters in order, without
/// colours; the sequence count is one.
pub proof fn lemma_print_burst(inputs: Seq<(ParsedAction, Seq<u8>)>)
    requires
        inputs.len() > 0,
        forall|i: int| 0 <= i < inputs.len() ==> is_print_action(#[trigger] inputs[i].0),
    ensures
        run(initial_log(), inputs).history == seq![
            EventV::Print { string: printed_text(inputs), color: None, bg_color: None },
        ],
        run(initial_log(), inputs).sequence_count == 1,
    decreases inputs.len(),
{
    let a = inputs.last().0;
    let raw = inputs.last().1;
    assert(is_print_action(inputs[inputs.len() - 1].0));
    let prev = inputs.drop_last();
    if prev.len() == 0 {
        assert(run(initial_log(), prev) == initial_log());
        assert(printed_text(prev) == Seq::<char>::empty());
        assert(printed_text(inputs) == printed_text(prev) + print_text(a));
        assert(printed_text(inputs) =~= print_text(a));
        let e = colored_event(initial_log(), a, raw);
        assert(e == EventV::Print { string: print_text(a), color: None, bg_color: None });
        assert(run(initial_log(), inputs).history =~= seq![e]);
    } else {
        assert forall|i: int| 0 <= i < prev.len() implies is_print_action(#[trigger] prev[i].0) by {
            assert(prev[i] == inputs[i]);
        }
        lemma_print_burst(prev);
        let t = run(initial_log(), prev);
        assert(merges(t, a));
        assert(run(initial_log(), inputs).history =~= seq![
            EventV::Print { string: printed_text(inputs), color: None, bg_color: None },
        ]);
    }
}

/// What one action, or one part of a history entry, stands for: a printed
/// character, a line break with its title, or an escape with its rendered
/// bytes.
pub struct Part {
    /// 0 for a printed character, 1 for a line break, 2 for an escape.
    pub kind: u8,
    /// The character, the line break's title, or the rendered bytes.
    pub text: Seq<char>,
}

/// A printed character.
pub open spec fn printed(c: char) -> Part {
    Part { kind: 0, text: seq![c] }
}

/// A line break with its title.
pub open spec fn line_break(title: Seq<char>) -> Part {
    Part { kind: 1, text: title }
}

/// An escape with its rendered bytes.
pub open spec fn escape(raw: Seq<char>) -> Part {
    Part { kind: 2, text: raw }
}

/// Printed characters as units.
pub open spec fn char_units(s: Seq<char>) -> Seq<Part>
    decreases s.len(),
{
    if s.len() == 0 {
        Seq::empty()
    } else {
        char_units(s.drop_last()).push(printed(s.last()))
    }
}

/// The units of one history entry: its characters for printed text, nothing
/// for an invisible line break, otherwise one unit.
pub open spec fn entry_units(e: EventV) -> Seq<Part> {
    match e {
        EventV::Print { string, .. } => char_units(string),
        EventV::InvisibleLineBreak => Seq::empty(),
        EventV::LineBreak { title } => seq![line_break(title)],
        EventV::GenericEscape { raw_bytes, .. } => seq![escape(raw_bytes)],
        EventV::ColorEscape { raw_bytes, .. } => seq![escape(raw_bytes)],
    }
}

/// The units of a history, entry after entry.
pub open spec fn history_units(h: Seq<EventV>) -> Seq<Part>
    decreases h.len(),
{
    if h.len() == 0 {
        Seq::empty()
    } else {
        history_units(h.drop_last()) + entry_units(h.last())
    }
}

/// The units of one action produced by the bytes `raw`: its characters for
/// printing actions; "LF" or "CR" for a line feed or carriage return; `0xNN`
/// for another control code; otherwise its rendered bytes.
pub open spec fn action_units(a: ParsedAction, raw: Seq<u8>) -> Seq<Part> {
    match a {
        ParsedAction::Print(c) => seq![printed(c)],
        ParsedAction::PrintString(s) => char_units(s@),
        ParsedAction::Control { code, .. } => if code == 0x0a {
            seq![line_break("LF"@)]
        } else if code == 0x0d {
            seq![line_break("CR"@)]
        } else {
            seq![escape(control_hex(code))]
        },
        _ => seq![escape(sanitized(raw))],
    }
}

/// The units of the inputs, one action after the other.
pub open spec fn input_units(inputs: Seq<(ParsedAction, Seq<u8>)>) -> Seq<Part>
    decreases inputs.len(),
{
    if inputs.len() == 0 {
        Seq::empty()
    } else {
        input_units(inputs.drop_last()) + action_units(inputs.last().0, inputs.last().1)
    }
}

proof fn lemma_event_units(a: ParsedAction, raw: Seq<u8>, fg: ColorSpec, bg: ColorSpec)
    ensures
        entry_units(with_colors(describe(a, raw), fg, bg)) == action_units(a, raw),
{
    match a {
        ParsedAction::Print(c) => {
            reveal_with_fuel(char_units, 2);
            assert(seq![c].drop_last() =~= Seq::<char>::empty());
            reveal_with_fuel(char_units, 2);
            assert(seq![c].drop_last() =~= Seq::<char>::empty());
            assert(char_units(seq![c]) =~= seq![printed(c)]);
        },
        ParsedAction::Csi(c) => {
            match c {
                CsiAction::Sgr(g) => {
                    match g {
                        SgrAction::Reset => {},
                        SgrAction::Foreground { .. } => {},
                        SgrAction::Background { .. } => {},
                        SgrAction::Other { .. } => {},
                    }
                },
                _ => {},
            }
        },
        _ => {},
    }
}

spec fn print_text_of(e: EventV) -> Seq<char> {
    match e {
        EventV::Print { string, .. } => string,
        _ => Seq::empty(),
    }
}

proof fn lemma_char_units_concat(x: Seq<char>, y: Seq<char>)
    ensures
        char_units(x + y) == char_units(x) + char_units(y),
    decreases y.len(),
{
    if y.len() == 0 {
        assert(x + y =~= x);
        assert(char_units(x) + char_units(y) =~= char_units(x));
    } else {
        reveal_with_fuel(char_units, 2);
        let u = printed(y.last());
        let xy = x + y;
        let front = y.drop_last();
        assert(xy.len() > 0);
        assert(xy.drop_last() =~= x + front);
        assert(xy.last() == y.last());
        assert(char_units(xy) == char_units(xy.drop_last()).push(printed(xy.last())));
        assert(char_units(y) == char_units(front).push(u));
        lemma_char_units_concat(x, front);
        assert((char_units(x) + char_units(front)).push(u) =~= char_units(x) + char_units(front).push(u));
    }
}

proof fn lemma_print_units(a: ParsedAction, raw: Seq<u8>)
    requires
        is_print_action(a),
    ensures
        action_units(a, raw) == char_units(print_text(a)),
{
    match a {
        ParsedAction::Print(c) => {
            reveal_with_fuel(char_units, 2);
            assert(seq![c].drop_last() =~= Seq::<char>::empty());
            assert(char_units(seq![c]) =~= seq![printed(c)]);
        },
        _ => {},
    }
}

/// Classifying one action adds exactly its units to those of the history.
pub proof fn lemma_step_units(s: LogV, a: ParsedAction, raw: Seq<u8>)
    ensures
        history_units(step(s, a, raw).history) == history_units(s.history) + action_units(a, raw),
{
    let h = s.history;
    let h2 = step(s, a, raw).history;
    if merges(s, a) {
        let last = h.last();
        let more = print_text(a);
        assert(h2.drop_last() =~= h.drop_last());
        assert(h2.last() == extend_print(last, more));
        let string = print_text_of(last);
        lemma_char_units_concat(string, more);
        assert(entry_units(h2.last()) == entry_units(last) + char_units(more));
        lemma_print_units(a, raw);
        assert(history_units(h2) =~= history_units(h.drop_last()) + entry_units(last) + char_units(more));
    } else {
        let (fg, bg) = colors_after(a, s.fg_color, s.bg_color);
        lemma_event_units(a, raw, fg, bg);
        let e = colored_event(s, a, raw);
        if (e is LineBreak) != s.last_was_line_break {
            let h1 = h.push(EventV::InvisibleLineBreak);
            assert(h2 =~= h1.push(e));
            assert(h1.drop_last() =~= h);
            assert(history_units(h1) =~= history_units(h));
            assert(h1.push(e).drop_last() =~= h1);
        } else {
            assert(h2 =~= h.push(e));
            assert(h.push(e).drop_last() =~= h);
        }
    }
}

/// Whatever actions are classified from the start, the history, read with
/// invisible line breaks dropped and printed text split into characters,
/// stands one-to-one and in order for the actions: each printed character,
/// each line feed ("LF") and carriage return ("CR"), and every other action
/// as one escape carrying the rendering of the bytes that produced it
/// (`0xNN` for other control codes).
pub proof fn lemma_run_units(inputs: Seq<(ParsedAction, Seq<u8>)>)
    ensures
        history_units(run(initial_log(), inputs).history) == input_units(inputs),
    decreases inputs.len(),
{
    if inputs.len() > 0 {
        lemma_run_units(inputs.drop_last());
        lemma_step_units(run(initial_log(), inputs.drop_last()), inputs.last().0, inputs.last().1);
    }
}

proof fn lemma_count_visible_le(h: Seq<EventV>)
    ensures
        count_visible(h) <= h.len(),
    decreases h.len(),
{
    if h.len() > 0 {
        lemma_count_visible_le(h.drop_last());
    }
}

proof fn lemma_views_push(s: Seq<VteEventDto>, e: VteEventDto)
    ensures
        event_views(s.push(e)) == event_views(s).push(e@),
{
    assert(event_views(s.push(e)) =~= event_views(s).push(e@));
}

/// Appends a copy of each event of `more`.
fn append_copies(history: &mut Vec<VteEventDto>, more: &Vec<VteEventDto>)
    ensures
        event_views(final(history)@) == event_views(old(history)@) + event_views(more@),
{
    let mut i: usize = 0;
    while i < more.len()
        invariant
            i <= more@.len(),
            event_views(history@) == event_views(old(history)@) + event_views(more@).subrange(0, i as int),
        decreases more@.len() - i,
    {
        let e = more[i].duplicate();
        proof {
            lemma_views_push(history@, e);
            assert(event_views(old(history)@) + event_views(more@).subrange(0, i + 1) =~= (event_views(
                old(history)@,
            ) + event_views(more@).subrange(0, i as int)).push(e@));
        }
        history.push(e);
        i = i + 1;
    }
    assert(event_views(more@).subrange(0, more@.len() as int) =~= event_views(more@));
}

/// The classifier's state: the history of display events, the number of
/// events that were not folded into earlier text, the colours in effect and
/// whether the last visible entry was a line break.
pub struct EventLog {
    history: Vec<VteEventDto>,
    sequence_count: usize,
    fg_color: ColorSpec,
    bg_color: ColorSpec,
    last_was_line_break: bool,
}

impl View for EventLog {
    type V = LogV;

    closed spec fn view(&self) -> LogV {
        LogV {
            history: event_views(self.history@),
            sequence_count: self.sequence_count as nat,
            fg_color: self.fg_color,
            bg_color: self.bg_color,
            last_was_line_break: self.last_was_line_break,
        }
    }
}

impl EventLog {
    /// An empty history with default colours.
    pub fn new() -> (r: EventLog)
        ensures
            r@ == initial_log(),
            log_wf(r@),
    {
        let r = EventLog {
            history: Vec::new(),
            sequence_count: 0,
            fg_color: ColorSpec::Default,
            bg_color: ColorSpec::Default,
            last_was_line_break: false,
        };
        assert(r@.history =~= Seq::<EventV>::empty());
        r
    }

    /// The events classified so far.
    pub fn history(&self) -> (r: &Vec<VteEventDto>)
        ensures
            event_views(r@) == self@.history,
    {
        &self.history
    }

    /// The number of events that were not folded into earlier printed text.
    pub fn sequence_count(&self) -> (r: usize)
        ensures
            r == self@.sequence_count,
    {
        self.sequence_count
    }

    /// Folds printed text into the last history entry, which is printed text.
    fn extend_last_print(&mut self, action: &ParsedAction)
        requires
            merges(old(self)@, *action),
        ensures
            final(self)@ == step(old(self)@, *action, Seq::empty()),
    {
        let ghost old_h = self.history@;
        let ghost target = extend_print(old(self)@.history.last(), print_text(*action));
        let last = self.history.pop().unwrap();
        proof {
            assert(self.history@ =~= old_h.drop_last());
            assert(last@ == old(self)@.history.last());
        }
        match last {
            VteEventDto::Print { string, color, bg_color } => {
                let ghost before = string@;
                let mut string = string;
                match action {
                    ParsedAction::Print(c) => {
                        push_char(&mut string, *c);
                        assert(string@ == before + print_text(*action));
                    },
                    ParsedAction::PrintString(more) => {
                        string.append(more.as_str());
                        assert(string@ == before + print_text(*action));
                    },
                    _ => {},
                }
                let e = VteEventDto::Print { string, color, bg_color };
                proof {
                    assert(e@ == target);
                    lemma_views_push(self.history@, e);
                }
                self.history.push(e);
            },
            _ => {
                assert(false);
            },
        }
        assert(self@.history =~= old(self)@.history.update(old(self)@.history.len() - 1, target));
    }

    /// Describes a non-merging action, appends what it publishes to the
    /// history and returns that.
    fn append_described(&mut self, action: &ParsedAction, raw_bytes: &[u8]) -> (r: Vec<VteEventDto>)
        requires
            log_wf(old(self)@),
            !merges(old(self)@, *action),
        ensures
            final(self)@ == step(old(self)@, *action, raw_bytes@),
            event_views(r@) == published(old(self)@, *action, raw_bytes@),
    {
        proof {
            lemma_step_wf(self@, *action, raw_bytes@);
        }
        update_global_colors(action, &mut self.fg_color, &mut self.bg_color);
        let mut dto = VteEventDto::from_action(action, raw_bytes);
        update_print_colors(&mut dto, self.fg_color, self.bg_color);
        let is_line_break = matches!(dto, VteEventDto::LineBreak { .. });
        let mut out: Vec<VteEventDto> = Vec::new();
        if is_line_break != self.last_was_line_break {
            out.push(VteEventDto::InvisibleLineBreak);
        }
        out.push(dto);
        self.last_was_line_break = is_line_break;
        assert(event_views(out@) =~= published(old(self)@, *action, raw_bytes@));
        append_copies(&mut self.history, &out);
        proof {
            lemma_count_visible_le(self@.history);
        }
        assert(self.sequence_count + 1 <= self.history.len());
        self.sequence_count = self.sequence_count + 1;
        out
    }

    /// Classifies one action, produced by the bytes `raw_bytes`, and returns
    /// the events to publish to live subscribers.
    ///
    /// Printed text that follows printed text is folded into the last history
    /// entry and published alone, without colours, and the sequence count
    /// stays. Otherwise the colours are updated, the event is described with
    /// them, preceded by an invisible line break where it starts or ends a
    /// run of line breaks, appended to the history and published, and the
    /// sequence count grows by one.
    pub fn process(&mut self, action: &ParsedAction, raw_bytes: &[u8]) -> (r: Vec<VteEventDto>)
        requires
            log_wf(old(self)@),
        ensures
            final(self)@ == step(old(self)@, *action, raw_bytes@),
            event_views(r@) == published(old(self)@, *action, raw_bytes@),
            log_wf(final(self)@),
            prints_nonempty(old(self)@.history) && carries_text(*action) ==> prints_nonempty(
                final(self)@.history,
            ),
    {
        proof {
            lemma_step_wf(self@, *action, raw_bytes@);
            if prints_nonempty(self@.history) && carries_text(*action) {
                lemma_step_prints_nonempty(self@, *action, raw_bytes@);
            }
        }
        let n = self.history.len();
        let is_print = matches!(action, ParsedAction::Print(_) | ParsedAction::PrintString(_));
        if n > 0 && is_print && matches!(self.history[n - 1], VteEventDto::Print { .. }) {
            assert(self@.history.last() == self.history@[n - 1]@);
            self.extend_last_print(action);
            let delta = VteEventDto::from_action(action, raw_bytes);
            let r = vec![delta];
            assert(event_views(r@) =~= published(old(self)@, *action, raw_bytes@));
            return r;
        }
        self.append_described(action, raw_bytes)
    }
}

} // verus!
