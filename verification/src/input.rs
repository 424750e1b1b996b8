//! The keyboard-to-direction resolver.
//!
//! The resolver tracks the currently seen directions as a sequence ordered
//! most-recently-pressed first, in which each direction appears at most once,
//! together with a signed net balance per axis. The effective direction is
//! the most recent entry whose axis balance is nonzero, so a fresh press wins
//! over older ones while opposing keys held together cancel their axis.

use vstd::prelude::*;

use crate::direction::Direction;

verus! {

/// Mathematical view of an [`InputHandler`]: the recency sequence and the
/// two axis balances, as unbounded integers.
#[verifier::ext_equal]
pub ghost struct InputView {
    pub stack: Seq<Direction>,
    pub horizontal: int,
    pub vertical: int,
}

impl InputView {
    /// A well-formed resolver never holds the same direction twice.
    pub open spec fn wf(self) -> bool {
        forall|i: int, j: int|
            0 <= i < j < self.stack.len() ==> self.stack[i] != self.stack[j]
    }
}

/// How one press of `d` moves the horizontal balance.
pub open spec fn h_delta(d: Direction) -> int {
    match d {
        Direction::Left => -1,
        Direction::Right => 1,
        _ => 0,
    }
}

/// How one press of `d` moves the vertical balance.
pub open spec fn v_delta(d: Direction) -> int {
    match d {
        Direction::Up => -1,
        Direction::Down => 1,
        _ => 0,
    }
}

/// The sequence `s` with every occurrence of `d` removed, order kept.
pub open spec fn remove_dir(s: Seq<Direction>, d: Direction) -> Seq<Direction>
    decreases s.len(),
{
    if s.len() == 0 {
        Seq::empty()
    } else if s.last() == d {
        remove_dir(s.drop_last(), d)
    } else {
        remove_dir(s.drop_last(), d).push(s.last())
    }
}

/// The resolver state after pressing `d`: `d` moves to the front of the
/// sequence and its axis balance moves by one.
pub open spec fn press_spec(v: InputView, d: Direction) -> InputView {
    InputView {
        stack: seq![d] + remove_dir(v.stack, d),
        horizontal: v.horizontal + h_delta(d),
        vertical: v.vertical + v_delta(d),
    }
}

/// The resolver state after releasing `d`: `d` leaves the sequence and its
/// axis balance moves back by one, whether or not a press preceded it.
pub open spec fn release_spec(v: InputView, d: Direction) -> InputView {
    InputView {
        stack: remove_dir(v.stack, d),
        horizontal: v.horizontal - h_delta(d),
        vertical: v.vertical - v_delta(d),
    }
}

/// Whether `d`'s axis currently has a nonzero balance.
pub open spec fn active_spec(v: InputView, d: Direction) -> bool {
    if d.spec_is_horizontal() {
        v.horizontal != 0
    } else {
        v.vertical != 0
    }
}

/// The first entry at or after index `i` whose axis balance is nonzero.
pub open spec fn effective_from(v: InputView, i: int) -> Option<Direction>
    decreases v.stack.len() - i,
{
    if i < 0 || i >= v.stack.len() {
        None
    } else if active_spec(v, v.stack[i]) {
        Some(v.stack[i])
    } else {
        effective_from(v, i + 1)
    }
}

/// The authoritative movement direction: the most recent entry whose axis
/// balance is nonzero, or none.
pub open spec fn effective_spec(v: InputView) -> Option<Direction> {
    effective_from(v, 0)
}

/// Tracks which direction keys are in effect. The front of
/// `direction_stack` is the most recently pressed direction.
#[derive(Debug)]
pub struct InputHandler {
    pub direction_stack: Vec<Direction>,
    pub horizontal_balance: i32,
    pub vertical_balance: i32,
}

impl View for InputHandler {
    type V = InputView;

    open spec fn view(&self) -> InputView {
        InputView {
            stack: self.direction_stack@,
            horizontal: self.horizontal_balance as int,
            vertical: self.vertical_balance as int,
        }
    }
}

impl InputHandler {
    /// A resolver with no keys seen and both balances at zero.
    pub fn new() -> (r: Self)
        ensures
            r@.stack == Seq::<Direction>::empty(),
            r@.horizontal == 0,
            r@.vertical == 0,
            r@.wf(),
    {
        let r = InputHandler {
            direction_stack: Vec::new(),
            horizontal_balance: 0,
            vertical_balance: 0,
        };
        proof {
            assert(r@.stack =~= Seq::<Direction>::empty());
        }
        r
    }

    /// Drops every entry equal to `d` from the recency sequence.
    fn retain_not(&mut self, d: Direction)
        ensures
            final(self)@.stack == remove_dir(old(self)@.stack, d),
            final(self)@.horizontal == old(self)@.horizontal,
            final(self)@.vertical == old(self)@.vertical,
    {
        let ghost s0 = self.direction_stack@;
        let mut kept: Vec<Direction> = Vec::new();
        let mut i: usize = 0;
        while i < self.direction_stack.len()
            invariant
                i <= self.direction_stack@.len(),
                self.direction_stack@ == s0,
                kept@ == remove_dir(s0.take(i as int), d),
            decreases self.direction_stack@.len() - i,
        {
            proof {
                assert(s0.take(i + 1).drop_last() =~= s0.take(i as int));
                assert(s0.take(i + 1).last() == s0[i as int]);
            }
            if self.direction_stack[i] != d {
                kept.push(self.direction_stack[i]);
            }
            i = i + 1;
        }
        proof {
            assert(s0.take(s0.len() as int) =~= s0);
        }
        self.direction_stack = kept;
    }

    /// Records a key press: `d` becomes the most recent direction and its
    /// axis balance moves by one.
    pub fn press_key(&mut self, d: Direction)
        requires
            i32::MIN <= old(self)@.horizontal + h_delta(d) <= i32::MAX,
            i32::MIN <= old(self)@.vertical + v_delta(d) <= i32::MAX,
        ensures
            final(self)@ == press_spec(old(self)@, d),
            old(self)@.wf() ==> final(self)@.wf(),
    {
        let ghost v0 = self@;
        self.retain_not(d);
        self.direction_stack.insert(0, d);
        self.update_balance(d, 1);
        proof {
            assert(self@.stack =~= seq![d] + remove_dir(v0.stack, d));
            assert(self@ =~= press_spec(v0, d));
            if v0.wf() {
                lemma_remove_dir_keeps(v0.stack, d);
                lemma_remove_dir_no_dup(v0.stack, d);
                assert(self@.wf());
            }
        }
    }

    /// Records a key release: `d` leaves the sequence and its axis balance
    /// moves back by one.
    pub fn release_key(&mut self, d: Direction)
        requires
            i32::MIN <= old(self)@.horizontal - h_delta(d) <= i32::MAX,
            i32::MIN <= old(self)@.vertical - v_delta(d) <= i32::MAX,
        ensures
            final(self)@ == release_spec(old(self)@, d),
            old(self)@.wf() ==> final(self)@.wf(),
    {
        let ghost v0 = self@;
        self.retain_not(d);
        self.update_balance(d, -1);
        proof {
            assert(self@ =~= release_spec(v0, d));
            if v0.wf() {
                lemma_remove_dir_keeps(v0.stack, d);
                lemma_remove_dir_no_dup(v0.stack, d);
                assert(self@.wf());
            }
        }
    }

    /// Moves the axis balance of `d` by `delta`.
    fn update_balance(&mut self, d: Direction, delta: i32)
        requires
            i32::MIN <= old(self)@.horizontal + h_delta(d) * delta <= i32::MAX,
            i32::MIN <= old(self)@.vertical + v_delta(d) * delta <= i32::MAX,
        ensures
            final(self)@.stack == old(self)@.stack,
            final(self)@.horizontal == old(self)@.horizontal + h_delta(d) * delta,
            final(self)@.vertical == old(self)@.vertical + v_delta(d) * delta,
    {
        match d {
            Direction::Left => {
                self.horizontal_balance = self.horizontal_balance - delta;
            },
            Direction::Right => {
                self.horizontal_balance = self.horizontal_balance + delta;
            },
            Direction::Up => {
                self.vertical_balance = self.vertical_balance - delta;
            },
            Direction::Down => {
                self.vertical_balance = self.vertical_balance + delta;
            },
        }
    }

    /// Whether `d`'s axis currently has a nonzero balance.
    pub fn is_direction_active(&self, d: Direction) -> (r: bool)
        ensures
            r == active_spec(self@, d),
    {
        if d.is_horizontal() {
            self.horizontal_balance != 0
        } else {
            self.vertical_balance != 0
        }
    }

    /// Scans from the most recent press to the oldest and returns the first
    /// direction whose axis balance is nonzero, or none.
    pub fn get_effective_direction(&self) -> (r: Option<Direction>)
        ensures
            r == effective_spec(self@),
    {
        let mut i: usize = 0;
        while i < self.direction_stack.len()
            invariant
                i <= self.direction_stack@.len(),
                effective_spec(self@) == effective_from(self@, i as int),
            decreases self.direction_stack@.len() - i,
        {
            let d = self.direction_stack[i];
            if self.is_direction_active(d) {
                return Some(d);
            }
            i = i + 1;
        }
        None
    }
}

/// Removing a direction never introduces one: what the result holds, the
/// input held.
proof fn lemma_remove_dir_keeps(s: Seq<Direction>, d: Direction)
    ensures
        forall|x: Direction| #[trigger] remove_dir(s, d).contains(x) ==> s.contains(x),
        !remove_dir(s, d).contains(d),
    decreases s.len(),
{
    if s.len() > 0 {
        lemma_remove_dir_keeps(s.drop_last(), d);
        assert forall|x: Direction| #[trigger] remove_dir(s, d).contains(x) implies s.contains(
            x,
        ) by {
            if s.last() != d && x == s.last() {
                assert(s.contains(s.last()));
            } else {
                if remove_dir(s.drop_last(), d).contains(x) {
                    let i = choose|i: int|
                        0 <= i < s.drop_last().len() && s.drop_last()[i] == x;
                    assert(s[i] == x);
                }
            }
        }
    }
}

/// Removing a direction keeps the remaining entries pairwise distinct.
proof fn lemma_remove_dir_no_dup(s: Seq<Direction>, d: Direction)
    requires
        forall|i: int, j: int| 0 <= i < j < s.len() ==> s[i] != s[j],
    ensures
        forall|i: int, j: int|
            0 <= i < j < remove_dir(s, d).len() ==> remove_dir(s, d)[i] != remove_dir(s, d)[j],
    decreases s.len(),
{
    if s.len() > 0 {
        assert(forall|i: int, j: int|
            0 <= i < j < s.drop_last().len() ==> s.drop_last()[i] != s.drop_last()[j]);
        lemma_remove_dir_no_dup(s.drop_last(), d);
        if s.last() != d {
            lemma_remove_dir_keeps(s.drop_last(), d);
            let r = remove_dir(s.drop_last(), d);
            assert(remove_dir(s, d) == r.push(s.last()));
            assert forall|i: int, j: int|
                0 <= i < j < r.push(s.last()).len() implies r.push(s.last())[i] != r.push(
                s.last(),
            )[j] by {
                if j == r.len() {
                    assert(r.contains(r[i]));
                    assert(s.drop_last().contains(r[i]));
                    let k = choose|k: int|
                        0 <= k < s.drop_last().len() && s.drop_last()[k] == r[i];
                    assert(s[k] == r[i]);
                    assert(s.last() == s[s.len() - 1]);
                    assert(s[k] != s[s.len() - 1]);
                } else {
                    assert(remove_dir(s.drop_last(), d)[i] != remove_dir(s.drop_last(), d)[j]);
                }
            }
        } else {
            assert(remove_dir(s, d) == remove_dir(s.drop_last(), d));
        }
    }
}

/// Removing a direction that does not occur changes nothing.
proof fn lemma_remove_dir_absent(s: Seq<Direction>, d: Direction)
    requires
        !s.contains(d),
    ensures
        remove_dir(s, d) == s,
    decreases s.len(),
{
    if s.len() > 0 {
        assert(forall|i: int| 0 <= i < s.drop_last().len() ==> s.drop_last()[i] == s[i]);
        assert(!s.drop_last().contains(d)) by {
            if s.drop_last().contains(d) {
                let i = choose|i: int| 0 <= i < s.drop_last().len() && s.drop_last()[i] == d;
                assert(s[i] == d);
            }
        }
        lemma_remove_dir_absent(s.drop_last(), d);
        assert(s.last() != d) by {
            assert(s[s.len() - 1] == s.last());
        }
        assert(remove_dir(s, d) =~= s);
    }
}

/// Removing `d` from a sequence that starts with `d` removes that first
/// entry along with any later ones.
proof fn lemma_remove_dir_prepend(s: Seq<Direction>, d: Direction)
    ensures
        remove_dir(seq![d] + s, d) == remove_dir(s, d),
    decreases s.len(),
{
    let t = seq![d] + s;
    if s.len() == 0 {
        assert(t.len() == 1);
        assert(t.last() == d);
        assert(t.drop_last() =~= Seq::<Direction>::empty());
        assert(remove_dir(Seq::<Direction>::empty(), d) == Seq::<Direction>::empty());
        assert(remove_dir(t, d) == remove_dir(t.drop_last(), d));
        assert(remove_dir(s, d) == Seq::<Direction>::empty());
    } else {
        lemma_remove_dir_prepend(s.drop_last(), d);
        assert(t.last() == s.last());
        assert(t.drop_last() =~= seq![d] + s.drop_last());
        if s.last() == d {
            assert(remove_dir(t, d) == remove_dir(t.drop_last(), d));
            assert(remove_dir(t.drop_last(), d) == remove_dir(seq![d] + s.drop_last(), d));
            assert(remove_dir(s, d) == remove_dir(s.drop_last(), d));
        } else {
            assert(remove_dir(t, d) == remove_dir(t.drop_last(), d).push(s.last()));
            assert(remove_dir(s, d) == remove_dir(s.drop_last(), d).push(s.last()));
        }
    }
}

/// Press/release symmetry: pressing a direction that is not currently in the
/// sequence and then releasing it restores the resolver state exactly, and
/// with it the effective direction.
pub proof fn lemma_press_release_symmetry(v: InputView, d: Direction)
    requires
        !v.stack.contains(d),
    ensures
        release_spec(press_spec(v, d), d) == v,
        effective_spec(release_spec(press_spec(v, d), d)) == effective_spec(v),
{
    lemma_remove_dir_absent(v.stack, d);
    lemma_remove_dir_prepend(v.stack, d);
    assert(release_spec(press_spec(v, d), d) =~= v);
}

/// Opposing presses cancel on their axis: pressing the two horizontal
/// directions in either order returns the horizontal balance to where it
/// began, and likewise for the vertical pair; and while an axis balance is
/// zero the scan skips every entry of that axis, falling through to an
/// active entry of the other axis or to none.
pub proof fn lemma_opposing_cancel(v: InputView)
    ensures
        press_spec(press_spec(v, Direction::Left), Direction::Right).horizontal == v.horizontal,
        press_spec(press_spec(v, Direction::Right), Direction::Left).horizontal == v.horizontal,
        press_spec(press_spec(v, Direction::Up), Direction::Down).vertical == v.vertical,
        press_spec(press_spec(v, Direction::Down), Direction::Up).vertical == v.vertical,
        v.horizontal == 0 ==> match effective_spec(v) {
            Some(d) => d.spec_is_vertical() && v.vertical != 0,
            None => true,
        },
        v.vertical == 0 ==> match effective_spec(v) {
            Some(d) => d.spec_is_horizontal() && v.horizontal != 0,
            None => true,
        },
{
    lemma_effective_from_active(v, 0);
}

/// Whatever the scan returns was an active entry of the sequence.
proof fn lemma_effective_from_active(v: InputView, i: int)
    ensures
        match effective_from(v, i) {
            Some(d) => v.stack.contains(d) && active_spec(v, d),
            None => true,
        },
    decreases v.stack.len() - i,
{
    if 0 <= i < v.stack.len() {
        if active_spec(v, v.stack[i]) {
            assert(v.stack.contains(v.stack[i]));
        } else {
            lemma_effective_from_active(v, i + 1);
        }
    }
}

/// Recency wins: right after a press, the pressed direction stands at the
/// front of the sequence, so it is the effective direction whenever its
/// axis balance is nonzero. (Opposing presses can cancel the balance to
/// zero, in which case the scan skips the axis entirely.)
pub proof fn lemma_recency_wins(v: InputView, d: Direction)
    requires
        active_spec(press_spec(v, d), d),
    ensures
        effective_spec(press_spec(v, d)) == Some(d),
{
    let p = press_spec(v, d);
    assert(p.stack[0] == d);
}

/// A double press is no press twice over: the second press of the same
/// direction leaves the sequence as it was after the first, while each press
/// still moves the axis balance by one.
pub proof fn lemma_double_press(v: InputView, d: Direction)
    ensures
        press_spec(press_spec(v, d), d).stack == press_spec(v, d).stack,
        press_spec(press_spec(v, d), d).horizontal == press_spec(v, d).horizontal + h_delta(d),
        press_spec(press_spec(v, d), d).vertical == press_spec(v, d).vertical + v_delta(d),
{
    lemma_remove_dir_prepend(remove_dir(v.stack, d), d);
    lemma_remove_dir_keeps(v.stack, d);
    lemma_remove_dir_absent(remove_dir(v.stack, d), d);
}

} // verus!
