use vstd::arithmetic::div_mod::*;
use vstd::prelude::*;

use crate::keys::Command;
use crate::selector::{
    exit_code_of, initial, max_top, selected_contents, selection_of, LineModel, OutcomeModel,
    SelectorModel,
};

verus! {

/// `n` copies of one command.
pub open spec fn repeat(cmd: Command, n: nat) -> Seq<Command> {
    Seq::new(n, |i: int| cmd)
}

/// One command keeps the state well formed, and keeps the number of lines
/// and the window's height.
pub proof fn lemma_step_keeps_wf(m: SelectorModel, cmd: Command)
    requires
        m.wf(),
    ensures
        m.step(cmd).wf(),
        m.step(cmd).lines.len() == m.lines.len(),
        m.step(cmd).height == m.height,
{
}

/// Any run of commands keeps the state well formed, and keeps the number of
/// lines and the window's height.
pub proof fn lemma_run_keeps_wf(m: SelectorModel, cmds: Seq<Command>)
    requires
        m.wf(),
    ensures
        m.run(cmds).wf(),
        m.run(cmds).lines.len() == m.lines.len(),
        m.run(cmds).height == m.height,
    decreases cmds.len(),
{
    if cmds.len() > 0 {
        lemma_step_keeps_wf(m, cmds[0]);
        lemma_run_keeps_wf(m.step(cmds[0]), cmds.drop_first());
    }
}

/// From the start of a session over a non-empty list, after every command of
/// any sequence, the cursor is on a line and inside the window, and the
/// window does not scroll past the end of the list.
pub proof fn law_cursor_stays_in_view(texts: Seq<Seq<char>>, height: int, cmds: Seq<Command>)
    requires
        texts.len() > 0,
        height >= 1,
    ensures
        forall|k: int|
            0 <= k <= cmds.len() ==> {
                let s = #[trigger] initial(texts, height).run(cmds.take(k));
                &&& 0 <= s.cursor < texts.len()
                &&& s.top <= s.cursor < s.top + height
                &&& s.top <= max_top(texts.len() as int, height)
            },
{
    let m0 = initial(texts, height);
    assert forall|k: int| 0 <= k <= cmds.len() implies {
        let s = #[trigger] m0.run(cmds.take(k));
        &&& 0 <= s.cursor < texts.len()
        &&& s.top <= s.cursor < s.top + height
        &&& s.top <= max_top(texts.len() as int, height)
    } by {
        lemma_run_keeps_wf(m0, cmds.take(k));
    }
}

/// After `n` moves down the cursor has advanced by `n`, wrapping round.
pub proof fn lemma_moves_down(m: SelectorModel, n: nat)
    requires
        m.wf(),
        m.lines.len() > 0,
    ensures
        m.run(repeat(Command::MoveDown, n)).cursor == (m.cursor + n) % (m.lines.len() as int),
    decreases n,
{
    let len = m.lines.len() as int;
    if n == 0 {
        lemma_small_mod(m.cursor as nat, len as nat);
    } else {
        let m1 = m.step(Command::MoveDown);
        assert(repeat(Command::MoveDown, n).drop_first() =~= repeat(
            Command::MoveDown,
            (n - 1) as nat,
        ));
        lemma_step_keeps_wf(m, Command::MoveDown);
        lemma_moves_down(m1, (n - 1) as nat);
        if m.cursor + 1 == len {
            lemma_mod_self_0(len);
        } else {
            lemma_small_mod((m.cursor + 1) as nat, len as nat);
        }
        assert(m1.cursor == (m.cursor + 1) % len);
        lemma_add_mod_noop_right(n - 1, m.cursor + 1, len);
        assert(m1.cursor + (n - 1) == (n - 1) + m1.cursor);
        assert((n - 1) + (m.cursor + 1) == m.cursor + n);
    }
}

/// After `n` moves up the cursor has gone back by `n`, wrapping round.
pub proof fn lemma_moves_up(m: SelectorModel, n: nat)
    requires
        m.wf(),
        m.lines.len() > 0,
    ensures
        m.run(repeat(Command::MoveUp, n)).cursor == (m.cursor - n) % (m.lines.len() as int),
    decreases n,
{
    let len = m.lines.len() as int;
    if n == 0 {
        lemma_small_mod(m.cursor as nat, len as nat);
    } else {
        let m1 = m.step(Command::MoveUp);
        assert(repeat(Command::MoveUp, n).drop_first() =~= repeat(
            Command::MoveUp,
            (n - 1) as nat,
        ));
        lemma_step_keeps_wf(m, Command::MoveUp);
        lemma_moves_up(m1, (n - 1) as nat);
        if m.cursor == 0 {
            lemma_mod_sub_multiples_vanish(len - 1, len);
            lemma_small_mod((len - 1) as nat, len as nat);
            assert(-len + (len - 1) == m.cursor - 1);
        } else {
            lemma_small_mod((m.cursor - 1) as nat, len as nat);
        }
        assert(m1.cursor == (m.cursor - 1) % len);
        lemma_add_mod_noop_right(-(n - 1), m.cursor - 1, len);
        assert(m1.cursor - (n - 1) == -(n - 1) + m1.cursor);
        assert(-(n - 1) + (m.cursor - 1) == m.cursor - n);
    }
}

/// As many moves down as there are lines bring the cursor back to where it
/// was; so do as many moves up.
pub proof fn law_full_turn_returns(m: SelectorModel)
    requires
        m.wf(),
        m.lines.len() > 0,
    ensures
        m.run(repeat(Command::MoveDown, m.lines.len())).cursor == m.cursor,
        m.run(repeat(Command::MoveUp, m.lines.len())).cursor == m.cursor,
{
    let len = m.lines.len() as int;
    lemma_moves_down(m, m.lines.len());
    lemma_moves_up(m, m.lines.len());
    lemma_mod_add_multiples_vanish(m.cursor, len);
    lemma_mod_sub_multiples_vanish(m.cursor, len);
    lemma_small_mod(m.cursor as nat, len as nat);
    assert(m.cursor + len == len + m.cursor);
    assert(m.cursor - len == -len + m.cursor);
}

/// Flipping the mark of the same line twice gives back the state as it was,
/// for any line and for the line under the cursor.
pub proof fn law_toggle_twice_restores(m: SelectorModel, i: int)
    ensures
        m.toggle_at(i).toggle_at(i) == m,
        m.step(Command::ToggleSelect).step(Command::ToggleSelect) == m,
{
    assert(m.toggle_at(i).toggle_at(i).lines =~= m.lines);
    assert(m.toggle().toggle().lines =~= m.lines);
}

/// Marks flipped in either order lead to the same state, so confirming
/// yields the same texts whatever the order of marking; those are the texts
/// of the marked lines, in the order of the list.
pub proof fn law_confirm_ignores_marking_order(m: SelectorModel, i: int, j: int)
    ensures
        m.toggle_at(i).toggle_at(j) == m.toggle_at(j).toggle_at(i),
        m.toggle_at(i).toggle_at(j).outcome(Command::Confirm) == m.toggle_at(j).toggle_at(
            i,
        ).outcome(Command::Confirm),
        m.outcome(Command::Confirm) == OutcomeModel::Finished(
            m.lines.filter(|l: LineModel| l.is_selected).map_values(|l: LineModel| l.content),
        ),
{
    assert(m.toggle_at(i).toggle_at(j).lines =~= m.toggle_at(j).toggle_at(i).lines);
}

/// Cancelling and force-quitting both leave the state as it was and choose
/// nothing, yet they are told apart, by the outcome and by the exit status.
pub proof fn law_cancel_and_force_quit_differ(m: SelectorModel)
    ensures
        m.step(Command::Cancel) == m,
        m.step(Command::ForceQuit) == m,
        selection_of(m.outcome(Command::Cancel)) == Seq::<Seq<char>>::empty(),
        selection_of(m.outcome(Command::ForceQuit)) == Seq::<Seq<char>>::empty(),
        m.outcome(Command::Cancel) != m.outcome(Command::ForceQuit),
        exit_code_of(m.outcome(Command::Cancel)) == 0,
        exit_code_of(m.outcome(Command::ForceQuit)) == 130,
{
}

/// The marks of `idx` flipped one after the other, first to last.
pub open spec fn toggle_all(m: SelectorModel, idx: Seq<int>) -> SelectorModel
    decreases idx.len(),
{
    if idx.len() == 0 {
        m
    } else {
        toggle_all(m.toggle_at(idx[0]), idx.drop_first())
    }
}

/// How many times `k` occurs in `idx`.
pub open spec fn occurrences(idx: Seq<int>, k: int) -> nat
    decreases idx.len(),
{
    if idx.len() == 0 {
        0
    } else {
        occurrences(idx.drop_first(), k) + if idx[0] == k {
            1nat
        } else {
            0nat
        }
    }
}

/// The lines whose marks a run of commands flips, in the order it flips them.
pub open spec fn toggled_lines(m: SelectorModel, cmds: Seq<Command>) -> Seq<int>
    decreases cmds.len(),
{
    if cmds.len() == 0 {
        Seq::empty()
    } else if cmds[0] == Command::ToggleSelect {
        seq![m.cursor] + toggled_lines(m.step(cmds[0]), cmds.drop_first())
    } else {
        toggled_lines(m.step(cmds[0]), cmds.drop_first())
    }
}

/// Flipping marks changes only the marks, and only through the lines.
pub proof fn lemma_toggle_all_lines(m1: SelectorModel, m2: SelectorModel, idx: Seq<int>)
    requires
        m1.lines == m2.lines,
    ensures
        toggle_all(m1, idx).lines == toggle_all(m2, idx).lines,
        toggle_all(m1, idx).lines.len() == m1.lines.len(),
        toggle_all(m1, idx).cursor == m1.cursor,
        toggle_all(m1, idx).top == m1.top,
        toggle_all(m1, idx).height == m1.height,
    decreases idx.len(),
{
    if idx.len() > 0 {
        lemma_toggle_all_lines(m1.toggle_at(idx[0]), m2.toggle_at(idx[0]), idx.drop_first());
    }
}

/// After flipping the marks of `idx`, a line is marked exactly when it was
/// marked before and occurs an even number of times, or was not and occurs
/// an odd number of times; texts stay.
pub proof fn lemma_toggle_all_parity(m: SelectorModel, idx: Seq<int>, k: int)
    requires
        0 <= k < m.lines.len(),
    ensures
        toggle_all(m, idx).lines.len() == m.lines.len(),
        toggle_all(m, idx).lines[k] == (LineModel {
            content: m.lines[k].content,
            is_selected: m.lines[k].is_selected != (occurrences(idx, k) % 2 == 1),
        }),
    decreases idx.len(),
{
    if idx.len() > 0 {
        lemma_toggle_all_parity(m.toggle_at(idx[0]), idx.drop_first(), k);
    }
}

/// A run of commands marks the lines exactly as flipping the lines it
/// toggles, in order, does.
pub proof fn lemma_run_marks(m: SelectorModel, cmds: Seq<Command>)
    ensures
        m.run(cmds).lines == toggle_all(m, toggled_lines(m, cmds)).lines,
    decreases cmds.len(),
{
    if cmds.len() > 0 {
        let m1 = m.step(cmds[0]);
        let rest = toggled_lines(m1, cmds.drop_first());
        lemma_run_marks(m1, cmds.drop_first());
        if cmds[0] == Command::ToggleSelect {
            assert((seq![m.cursor] + rest).drop_first() =~= rest);
        } else {
            assert(m1.lines == m.lines);
            lemma_toggle_all_lines(m1, m, rest);
        }
    }
}

/// Two runs of commands from the same state that toggle each line an odd
/// number of times in both or in neither confirm the same texts, whatever
/// the order of toggling and of moving.
pub proof fn law_confirm_depends_on_toggle_parity(
    m: SelectorModel,
    cmds1: Seq<Command>,
    cmds2: Seq<Command>,
)
    requires
        forall|k: int|
            0 <= k < m.lines.len() ==> #[trigger] occurrences(toggled_lines(m, cmds1), k) % 2
                == occurrences(toggled_lines(m, cmds2), k) % 2,
    ensures
        m.run(cmds1).lines == m.run(cmds2).lines,
        m.run(cmds1).outcome(Command::Confirm) == m.run(cmds2).outcome(Command::Confirm),
{
    let t1 = toggled_lines(m, cmds1);
    let t2 = toggled_lines(m, cmds2);
    lemma_run_marks(m, cmds1);
    lemma_run_marks(m, cmds2);
    assert forall|k: int| 0 <= k < m.lines.len() implies toggle_all(m, t1).lines[k] == toggle_all(
        m,
        t2,
    ).lines[k] by {
        lemma_toggle_all_parity(m, t1, k);
        lemma_toggle_all_parity(m, t2, k);
        assert(occurrences(t1, k) % 2 == occurrences(t2, k) % 2);
    }
    lemma_toggle_all_lines(m, m, t1);
    lemma_toggle_all_lines(m, m, t2);
    assert(toggle_all(m, t1).lines =~= toggle_all(m, t2).lines);
}

} // verus!
