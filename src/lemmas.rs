use vstd::prelude::*;
use crate::buffer::{push_all_spec, lemma_eviction};
use crate::console::{
    ConsoleModel, AnsiState, model_wf, put_spaces_spec, sgr_spec,
    step_spec, feed_spec, reset_spec,
};
use crate::framebuffer::scrolled;

verus! {

/// The parts of a console that interpreting bytes never changes: default
/// colors and geometry.
pub open spec fn same_frame(a: ConsoleModel, b: ConsoleModel) -> bool {
    &&& a.default_fg == b.default_fg
    &&& a.default_bg == b.default_bg
    &&& a.width == b.width
    &&& a.height == b.height
    &&& a.cell == b.cell
    &&& a.cols == b.cols
    &&& a.rows == b.rows
}

proof fn lemma_put_spaces_frame(m: ConsoleModel, n: nat)
    ensures
        same_frame(m, put_spaces_spec(m, n)),
    decreases n,
{
    if n > 0 {
        lemma_put_spaces_frame(m, (n - 1) as nat);
    }
}

proof fn lemma_step_frame(m: ConsoleModel, b: u8)
    ensures
        same_frame(m, step_spec(m, b)),
{
    if m.ansi == AnsiState::Normal && b == 0x09 {
        lemma_put_spaces_frame(m, (4 - m.cursor_x % 4) as nat);
    }
}

/// Interpreting bytes keeps the default colors and the geometry.
pub proof fn lemma_feed_frame(m: ConsoleModel, bytes: Seq<u8>)
    ensures
        same_frame(m, feed_spec(m, bytes)),
    decreases bytes.len(),
{
    if bytes.len() > 0 {
        lemma_feed_frame(m, bytes.drop_last());
        lemma_step_frame(feed_spec(m, bytes.drop_last()), bytes.last());
    }
}

/// Replay equivalence: write any bytes, no more than the log buffer holds, to
/// a console that starts in its reset state with an empty history; the history
/// then holds exactly those bytes, and replaying it gives the same cursor,
/// colors, parser state and pixels as the live writing did.
pub proof fn lemma_replay_equivalence(m: ConsoleModel, cap: nat, bytes: Seq<u8>)
    requires
        m == reset_spec(m),
        bytes.len() <= cap,
    ensures
        push_all_spec(Seq::empty(), cap, bytes) == bytes,
        feed_spec(reset_spec(feed_spec(m, bytes)), push_all_spec(Seq::empty(), cap, bytes))
            == feed_spec(m, bytes),
{
    lemma_eviction(cap, bytes);
    lemma_feed_frame(m, bytes);
    assert(reset_spec(feed_spec(m, bytes)) == reset_spec(m));
}

/// Idempotent replay: replaying a history a second time, with nothing written
/// in between, gives the same console as the first replay.
pub proof fn lemma_replay_idempotent(m: ConsoleModel, history: Seq<u8>)
    ensures
        feed_spec(reset_spec(feed_spec(reset_spec(m), history)), history) == feed_spec(reset_spec(m), history),
{
    lemma_feed_frame(reset_spec(m), history);
    assert(reset_spec(feed_spec(reset_spec(m), history)) == reset_spec(m));
}

/// SGR round trip: code 31 followed by code 39 gives back the default
/// foreground and leaves everything else as it was; code 0 restores both
/// default colors whatever they were before.
pub proof fn lemma_sgr_round_trip(m: ConsoleModel)
    ensures
        sgr_spec(sgr_spec(m, 31), 39) == (ConsoleModel { fg: m.default_fg, ..m }),
        sgr_spec(m, 0) == (ConsoleModel { fg: m.default_fg, bg: m.default_bg, ..m }),
{
}

/// The same round trip through the escape sequences themselves: with the
/// parser in its normal state, writing `ESC[31m` then `ESC[39m` leaves the
/// console as it was but for the default foreground color.
pub proof fn lemma_sgr_sequence_round_trip(m: ConsoleModel)
    requires
        m.ansi == AnsiState::Normal,
    ensures
        feed_spec(m, seq![0x1Bu8, 0x5B, 0x33, 0x31, 0x6D, 0x1B, 0x5B, 0x33, 0x39, 0x6D])
            == (ConsoleModel { fg: m.default_fg, param: 0, ..m }),
{
    let s0 = Seq::<u8>::empty();
    let s1 = s0.push(0x1B);
    let s2 = s1.push(0x5B);
    let s3 = s2.push(0x33);
    let s4 = s3.push(0x31);
    let s5 = s4.push(0x6D);
    let s6 = s5.push(0x1B);
    let s7 = s6.push(0x5B);
    let s8 = s7.push(0x33);
    let s9 = s8.push(0x39);
    let s10 = s9.push(0x6D);
    lemma_feed_push(m, s0, 0x1B);
    lemma_feed_push(m, s1, 0x5B);
    lemma_feed_push(m, s2, 0x33);
    lemma_feed_push(m, s3, 0x31);
    lemma_feed_push(m, s4, 0x6D);
    lemma_feed_push(m, s5, 0x1B);
    lemma_feed_push(m, s6, 0x5B);
    lemma_feed_push(m, s7, 0x33);
    lemma_feed_push(m, s8, 0x39);
    lemma_feed_push(m, s9, 0x6D);
    assert(feed_spec(m, s4).param == 31);
    assert(feed_spec(m, s9).param == 39);
    assert(s10 =~= seq![0x1Bu8, 0x5B, 0x33, 0x31, 0x6D, 0x1B, 0x5B, 0x33, 0x39, 0x6D]);
}

/// Interpreting one more byte is one more step.
pub proof fn lemma_feed_push(m: ConsoleModel, bytes: Seq<u8>, b: u8)
    ensures
        feed_spec(m, bytes.push(b)) == step_spec(feed_spec(m, bytes), b),
{
    assert(bytes.push(b).drop_last() =~= bytes);
}

/// Putting spaces that all fit on the current line moves the cursor right by
/// their number and keeps it on its row.
proof fn lemma_put_spaces_no_wrap(m: ConsoleModel, n: nat)
    requires
        m.cursor_x + n <= m.cols,
    ensures
        put_spaces_spec(m, n).cursor_x == m.cursor_x + n,
        put_spaces_spec(m, n).cursor_y == m.cursor_y,
        put_spaces_spec(m, n).cols == m.cols,
    decreases n,
{
    if n > 0 {
        lemma_put_spaces_no_wrap(m, (n - 1) as nat);
    }
}

/// Tab alignment: on a line with room for it, a tab moves the cursor to the
/// next multiple of 4 columns: 4 columns from a multiple of 4, 3 from column 5.
pub proof fn lemma_tab_alignment(m: ConsoleModel)
    requires
        m.ansi == AnsiState::Normal,
        m.cursor_x + (4 - m.cursor_x % 4) <= m.cols,
    ensures
        step_spec(m, 0x09).cursor_x == m.cursor_x + (4 - m.cursor_x % 4),
        step_spec(m, 0x09).cursor_x % 4 == 0,
        step_spec(m, 0x09).cursor_y == m.cursor_y,
        m.cursor_x % 4 == 0 ==> step_spec(m, 0x09).cursor_x == m.cursor_x + 4,
        m.cursor_x == 5 ==> step_spec(m, 0x09).cursor_x == 8,
{
    lemma_put_spaces_no_wrap(m, (4 - m.cursor_x % 4) as nat);
}

/// Scroll boundary: a newline on the last text row keeps the cursor on that
/// row, moves every pixel row up by one text row and fills the text row freed
/// at the bottom with the background color.
pub proof fn lemma_scroll_boundary(m: ConsoleModel)
    requires
        model_wf(m),
        m.ansi == AnsiState::Normal,
        m.cursor_y == m.rows - 1,
    ensures
        step_spec(m, 0x0A).cursor_y == m.rows - 1,
        step_spec(m, 0x0A).cursor_x == 0,
        step_spec(m, 0x0A).screen.len() == m.height,
        forall|py: int| 0 <= py < m.height - m.cell ==> #[trigger] step_spec(m, 0x0A).screen[py] == m.screen[py + m.cell],
        forall|py: int, px: int| m.height - m.cell <= py < m.height && 0 <= px < m.width
            ==> #[trigger] step_spec(m, 0x0A).screen[py][px] == m.bg,
{
    assert(m.cell <= m.height) by {
        vstd::arithmetic::div_mod::lemma_fundamental_div_mod(m.height as int, m.cell as int);
        assert(m.cell * m.rows >= m.cell) by (nonlinear_arith)
            requires
                m.rows >= 1,
        ;
    }
    let r = step_spec(m, 0x0A);
    assert(r.screen == scrolled(m.screen, m.width, m.cell, m.bg));
}

} // verus!
