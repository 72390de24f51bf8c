//! Following the alternate screen in a stream of terminal output.

use vstd::prelude::*;

verus! {

/// Length of either toggle.
pub const TOGGLE_LEN: usize = 8;

/// `CSI ? 1049 h`: enter the alternate screen.
pub open spec fn enter_toggle() -> Seq<u8> {
    seq![0x1b, 0x5b, 0x3f, 0x31, 0x30, 0x34, 0x39, 0x68]
}

/// `CSI ? 1049 l`: leave the alternate screen.
pub open spec fn exit_toggle() -> Seq<u8> {
    seq![0x1b, 0x5b, 0x3f, 0x31, 0x30, 0x34, 0x39, 0x6c]
}

pub open spec fn toggle_at(s: Seq<u8>, i: int, toggle: Seq<u8>) -> bool {
    0 <= i && i + TOGGLE_LEN <= s.len() && s.subrange(i, i + TOGGLE_LEN) == toggle
}

/// Reading `s` from its beginning, starting with the alternate screen on or off: whether it is on
/// in the end, and the bytes at the end that may still begin a toggle.
pub open spec fn scan(on: bool, s: Seq<u8>) -> (bool, Seq<u8>)
    decreases s.len(),
{
    if s.len() < TOGGLE_LEN {
        (on, s)
    } else if toggle_at(s, 0, enter_toggle()) {
        scan(true, s.skip(TOGGLE_LEN as int))
    } else if toggle_at(s, 0, exit_toggle()) {
        scan(false, s.skip(TOGGLE_LEN as int))
    } else {
        scan(on, s.skip(1))
    }
}

/// Follows whether the terminal is on the alternate screen. A toggle may be split over two reads.
pub struct AltScreenTracker {
    pub in_alt_screen: bool,
    /// Bytes kept from earlier reads that may begin a toggle.
    pub tail: Vec<u8>,
}

/// The last eight bytes decide: `last` is 0x68 for the one toggle and 0x6c for the other.
fn toggle_here(v: &Vec<u8>, i: usize, last: u8) -> (r: bool)
    requires
        i + TOGGLE_LEN <= v@.len(),
        last == 0x68 || last == 0x6c,
    ensures
        last == 0x68 ==> r == toggle_at(v@, i as int, enter_toggle()),
        last == 0x6c ==> r == toggle_at(v@, i as int, exit_toggle()),
{
    let n: usize = v.len();
    assert(i + TOGGLE_LEN <= n);
    let r = v[i] == 0x1b && v[i + 1] == 0x5b && v[i + 2] == 0x3f && v[i + 3] == 0x31 && v[i + 4]
        == 0x30 && v[i + 5] == 0x34 && v[i + 6] == 0x39 && v[i + 7] == last;
    proof {
        let w = v@.subrange(i as int, i + TOGGLE_LEN);
        let t = if last == 0x68 {
            enter_toggle()
        } else {
            exit_toggle()
        };
        assert(w[0] == v@[i as int] && w[1] == v@[i + 1] && w[2] == v@[i + 2] && w[3] == v@[i + 3]
            && w[4] == v@[i + 4] && w[5] == v@[i + 5] && w[6] == v@[i + 6] && w[7] == v@[i + 7]);
        if r {
            assert(w =~= t);
        } else if w == t {
            assert(t[0] == 0x1b && t[1] == 0x5b && t[2] == 0x3f && t[3] == 0x31 && t[4] == 0x30
                && t[5] == 0x34 && t[6] == 0x39 && t[7] == last);
        }
    }
    r
}

impl Default for AltScreenTracker {
    fn default() -> (r: Self)
        ensures
            r.wf(),
            !r.in_alt_screen,
            r.tail@.len() == 0,
    {
        AltScreenTracker::new()
    }
}

impl AltScreenTracker {
    pub open spec fn wf(self) -> bool {
        self.tail@.len() < TOGGLE_LEN
    }

    /// Off, with nothing read.
    pub fn new() -> (r: Self)
        ensures
            r.wf(),
            !r.in_alt_screen,
            r.tail@.len() == 0,
    {
        AltScreenTracker { in_alt_screen: false, tail: Vec::new() }
    }

    pub fn observe(&mut self, bytes: &[u8])
        ensures
            final(self).wf(),
            (final(self).in_alt_screen, final(self).tail@) == scan(
                old(self).in_alt_screen,
                old(self).tail@ + bytes@,
            ),
    {
        let ghost on0 = self.in_alt_screen;
        let ghost all = self.tail@ + bytes@;
        let mut combined: Vec<u8> = Vec::new();
        let mut k: usize = 0;
        while k < self.tail.len()
            invariant
                k <= self.tail@.len(),
                combined@ == self.tail@.take(k as int),
                *self == *old(self),
            decreases self.tail@.len() - k,
        {
            combined.push(self.tail[k]);
            k += 1;
        }
        let mut j: usize = 0;
        while j < bytes.len()
            invariant
                j <= bytes@.len(),
                combined@ == self.tail@ + bytes@.take(j as int),
                *self == *old(self),
            decreases bytes@.len() - j,
        {
            combined.push(bytes[j]);
            j += 1;
        }
        assert(combined@ =~= all);
        let n: usize = combined.len();
        let mut i: usize = 0;
        assert(all.skip(0) =~= all);
        let mut on = self.in_alt_screen;
        while n - i >= TOGGLE_LEN
            invariant
                i <= n,
                n == combined@.len(),
                combined@ == all,
                scan(on0, all) == scan(on, all.skip(i as int)),
            decreases n - i,
        {
            let ghost rest = all.skip(i as int);
            proof {
                assert(rest.subrange(0, TOGGLE_LEN as int) =~= all.subrange(
                    i as int,
                    i + TOGGLE_LEN,
                ));
                assert(rest.skip(TOGGLE_LEN as int) =~= all.skip(i + TOGGLE_LEN));
                assert(rest.skip(1) =~= all.skip(i + 1));
            }
            if toggle_here(&combined, i, 0x68) {
                on = true;
                i += TOGGLE_LEN;
            } else if toggle_here(&combined, i, 0x6c) {
                on = false;
                i += TOGGLE_LEN;
            } else {
                i += 1;
            }
        }
        self.in_alt_screen = on;
        self.tail = crate::pty_proxy::detach::sub_bytes(&combined, i, n);
        assert(self.tail@ =~= all.skip(i as int));
    }
}

/// How the output is cut into reads does not matter: two reads leave the tracker as one read of
/// both does.
pub proof fn law_reads_may_be_split(on: bool, s: Seq<u8>, t: Seq<u8>)
    ensures
        scan(on, s + t) == scan(scan(on, s).0, scan(on, s).1 + t),
    decreases s.len(),
{
    if s.len() >= TOGGLE_LEN {
        let whole = s + t;
        assert(whole.subrange(0, TOGGLE_LEN as int) =~= s.subrange(0, TOGGLE_LEN as int));
        if toggle_at(s, 0, enter_toggle()) {
            law_reads_may_be_split(true, s.skip(TOGGLE_LEN as int), t);
            assert(whole.skip(TOGGLE_LEN as int) =~= s.skip(TOGGLE_LEN as int) + t);
        } else if toggle_at(s, 0, exit_toggle()) {
            law_reads_may_be_split(false, s.skip(TOGGLE_LEN as int), t);
            assert(whole.skip(TOGGLE_LEN as int) =~= s.skip(TOGGLE_LEN as int) + t);
        } else {
            law_reads_may_be_split(on, s.skip(1), t);
            assert(whole.skip(1) =~= s.skip(1) + t);
        }
    }
}

/// The last toggle in the output decides: after any output, the alternate screen is on exactly if
/// an enter toggle occurs in it that no exit toggle follows, or if it was on and nothing occurs.
pub proof fn law_last_toggle_decides(on: bool, s: Seq<u8>)
    ensures
        scan(on, s).0 == ((exists|i: int|
            #![trigger toggle_at(s, i, enter_toggle())]
            toggle_at(s, i, enter_toggle()) && forall|j: int|
                #![trigger toggle_at(s, j, exit_toggle())]
                j > i ==> !toggle_at(s, j, exit_toggle())) || (on && forall|j: int|
            #![trigger toggle_at(s, j, exit_toggle())]
            !toggle_at(s, j, exit_toggle()))),
    decreases s.len(),
{
    let e = enter_toggle();
    let x = exit_toggle();
    assert(e[7] != x[7]);
    if s.len() < TOGGLE_LEN {
        assert(forall|i: int| !toggle_at(s, i, e));
        assert(forall|j: int| !toggle_at(s, j, x));
    } else {
        let at_enter = toggle_at(s, 0, e);
        let at_exit = toggle_at(s, 0, x);
        let step: int = if at_enter || at_exit {
            TOGGLE_LEN as int
        } else {
            1
        };
        let on1 = if at_enter {
            true
        } else if at_exit {
            false
        } else {
            on
        };
        let rest = s.skip(step);
        law_last_toggle_decides(on1, rest);
        assert forall|i: int|
            toggle_at(rest, i, e) == (i >= 0 && #[trigger] toggle_at(s, i + step, e)) by {
            if 0 <= i && i + step + TOGGLE_LEN <= s.len() {
                assert(rest.subrange(i, i + TOGGLE_LEN) =~= s.subrange(
                    i + step,
                    i + step + TOGGLE_LEN,
                ));
            }
        }
        assert forall|i: int|
            toggle_at(rest, i, x) == (i >= 0 && #[trigger] toggle_at(s, i + step, x)) by {
            if 0 <= i && i + step + TOGGLE_LEN <= s.len() {
                assert(rest.subrange(i, i + TOGGLE_LEN) =~= s.subrange(
                    i + step,
                    i + step + TOGGLE_LEN,
                ));
            }
        }
        // Only a toggle starts with the escape byte, so that none begins inside another.
        assert forall|j: int| 0 < j < step implies !toggle_at(s, j, e) && !toggle_at(s, j, x) by {
            let w = s.subrange(0, TOGGLE_LEN as int);
            assert(w[j] == s[j]);
            assert(s[j] != 0x1b);
            if j + TOGGLE_LEN <= s.len() {
                assert(s.subrange(j, j + TOGGLE_LEN)[0] == s[j]);
            }
        }
        assert(at_enter ==> !at_exit) by {
            if at_enter && at_exit {
                assert(e[7] == x[7]);
            }
        }
        lemma_toggle_shift(on, on1, s, step);
    }
}

/// What holds of the toggles of a rest holds of those of the whole, given the first step.
proof fn lemma_toggle_shift(on: bool, on1: bool, s: Seq<u8>, step: int)
    requires
        0 < step <= s.len(),
        forall|j: int|
            0 < j < step ==> !toggle_at(s, j, enter_toggle()) && !toggle_at(s, j, exit_toggle()),
        forall|i: int|
            toggle_at(s.skip(step), i, enter_toggle()) == (i >= 0 && #[trigger] toggle_at(
                s,
                i + step,
                enter_toggle(),
            )),
        forall|i: int|
            toggle_at(s.skip(step), i, exit_toggle()) == (i >= 0 && #[trigger] toggle_at(
                s,
                i + step,
                exit_toggle(),
            )),
        on1 == (if toggle_at(s, 0, enter_toggle()) {
            true
        } else if toggle_at(s, 0, exit_toggle()) {
            false
        } else {
            on
        }),
        toggle_at(s, 0, enter_toggle()) ==> !toggle_at(s, 0, exit_toggle()),
    ensures
        enter_is_last(on1, s.skip(step)) == enter_is_last(on, s),
{
    let e = enter_toggle();
    let x = exit_toggle();
    let rest = s.skip(step);
    assert forall|i: int| toggle_at(s, i, e) implies i == 0 || toggle_at(rest, i - step, e) by {
        assert(toggle_at(s, (i - step) + step, e));
    }
    assert forall|i: int| toggle_at(s, i, x) implies i == 0 || toggle_at(rest, i - step, x) by {
        assert(toggle_at(s, (i - step) + step, x));
    }
    assert forall|i: int| toggle_at(rest, i, x) implies toggle_at(s, i + step, x) by {}
    assert forall|i: int| toggle_at(rest, i, e) implies toggle_at(s, i + step, e) by {}
    if enter_is_last(on1, rest) {
        if exists|i: int|
            #![trigger toggle_at(rest, i, e)]
            toggle_at(rest, i, e) && forall|j: int|
                #![trigger toggle_at(rest, j, x)]
                j > i ==> !toggle_at(rest, j, x) {
            let i = choose|i: int|
                #![trigger toggle_at(rest, i, e)]
                toggle_at(rest, i, e) && forall|j: int|
                    #![trigger toggle_at(rest, j, x)]
                    j > i ==> !toggle_at(rest, j, x);
            assert(toggle_at(s, i + step, e));
            assert forall|j: int| #![trigger toggle_at(s, j, x)] j > i + step implies !toggle_at(
                s,
                j,
                x,
            ) by {
                if toggle_at(s, j, x) {
                    assert(toggle_at(rest, j - step, x));
                }
            }
        } else if toggle_at(s, 0, e) {
            assert forall|j: int| #![trigger toggle_at(s, j, x)] j > 0 implies !toggle_at(
                s,
                j,
                x,
            ) by {
                if toggle_at(s, j, x) {
                    assert(toggle_at(rest, j - step, x));
                }
            }
        } else {
            assert forall|j: int| #![trigger toggle_at(s, j, x)] !toggle_at(s, j, x) by {
                if toggle_at(s, j, x) {
                    assert(j != 0);
                    assert(toggle_at(rest, j - step, x));
                }
            }
        }
    }
    if enter_is_last(on, s) {
        if exists|i: int|
            #![trigger toggle_at(s, i, e)]
            toggle_at(s, i, e) && forall|j: int|
                #![trigger toggle_at(s, j, x)]
                j > i ==> !toggle_at(s, j, x) {
            let i = choose|i: int|
                #![trigger toggle_at(s, i, e)]
                toggle_at(s, i, e) && forall|j: int|
                    #![trigger toggle_at(s, j, x)]
                    j > i ==> !toggle_at(s, j, x);
            if i > 0 {
                assert(toggle_at(rest, i - step, e));
                assert forall|j: int| #![trigger toggle_at(rest, j, x)] j > i - step implies !toggle_at(
                    rest,
                    j,
                    x,
                ) by {
                    if toggle_at(rest, j, x) {
                        assert(toggle_at(s, j + step, x));
                    }
                }
            } else {
                assert forall|j: int| #![trigger toggle_at(rest, j, x)] !toggle_at(rest, j, x) by {
                    if toggle_at(rest, j, x) {
                        assert(toggle_at(s, j + step, x));
                    }
                }
            }
        } else {
            assert forall|j: int| #![trigger toggle_at(rest, j, x)] !toggle_at(rest, j, x) by {
                if toggle_at(rest, j, x) {
                    assert(toggle_at(s, j + step, x));
                }
            }
            assert(!toggle_at(s, 0, x));
        }
    }
}

spec fn enter_is_last(on: bool, s: Seq<u8>) -> bool {
    ||| exists|i: int|
        #![trigger toggle_at(s, i, enter_toggle())]
        toggle_at(s, i, enter_toggle()) && forall|j: int|
            #![trigger toggle_at(s, j, exit_toggle())]
            j > i ==> !toggle_at(s, j, exit_toggle())
    ||| on && forall|j: int|
        #![trigger toggle_at(s, j, exit_toggle())]
        !toggle_at(s, j, exit_toggle())
}

} // verus!
