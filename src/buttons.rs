use vstd::prelude::*;

verus! {

/// The identities that the analog button ladder can report.
#[derive(Clone, Copy, Debug, PartialEq, Eq, Structural)]
pub enum Button {
    Released,
    Up,
    Down,
    Left,
    Right,
    Center,
}

/// Number of entries in the reference table of the button ladder.
pub const REFERENCE_COUNT: usize = 6;

/// The level that the ladder reads when no button is held.
pub const IDLE_LEVEL: i16 = 3990;

/// Calibrated analog level of reference entry `i`, in table order.
pub open spec fn reference_level(i: int) -> int {
    if i == 0 {
        90
    } else if i == 1 {
        585
    } else if i == 2 {
        1155
    } else if i == 3 {
        1835
    } else if i == 4 {
        2455
    } else {
        3990
    }
}

/// Button identity of reference entry `i`, in table order.
pub open spec fn reference_button(i: int) -> Button {
    if i == 0 {
        Button::Down
    } else if i == 1 {
        Button::Right
    } else if i == 2 {
        Button::Up
    } else if i == 3 {
        Button::Left
    } else if i == 4 {
        Button::Center
    } else {
        Button::Released
    }
}

/// Absolute difference of two integers.
pub open spec fn gap(a: int, b: int) -> int {
    if a < b {
        b - a
    } else {
        a - b
    }
}

/// Absolute distance between a sample and the level of reference entry `i`.
pub open spec fn distance(sample: int, i: int) -> int {
    gap(reference_level(i), sample)
}

/// Index of the nearest of the first `n` reference entries; on a tie the earlier entry wins.
pub open spec fn nearest_index(sample: int, n: nat) -> nat
    decreases n,
{
    if n <= 1 {
        0
    } else {
        let best = nearest_index(sample, (n - 1) as nat);
        if distance(sample, n - 1) < distance(sample, best as int) {
            (n - 1) as nat
        } else {
            best
        }
    }
}

/// The button that a raw sample stands for: the identity of the nearest reference level.
pub open spec fn classify(sample: int) -> Button {
    reference_button(nearest_index(sample, REFERENCE_COUNT as nat) as int)
}

/// Entry `i` of the reference table: its level and its button.
fn reference_entry(i: usize) -> (r: (i16, Button))
    requires
        i < REFERENCE_COUNT,
    ensures
        r.0 as int == reference_level(i as int),
        r.1 == reference_button(i as int),
{
    match i {
        0 => (90, Button::Down),
        1 => (585, Button::Right),
        2 => (1155, Button::Up),
        3 => (1835, Button::Left),
        4 => (2455, Button::Center),
        _ => (IDLE_LEVEL, Button::Released),
    }
}

/// Absolute difference of two levels, widened so that it cannot overflow.
fn level_distance(level: i16, sample: i16) -> (d: i32)
    ensures
        d as int == gap(level as int, sample as int),
{
    let diff: i32 = level as i32 - sample as i32;
    if diff < 0 {
        -diff
    } else {
        diff
    }
}

/// Maps a raw analog sample to the button whose reference level is nearest to it.
pub fn adc_to_button(adc_value: i16) -> (button: Button)
    ensures
        button == classify(adc_value as int),
{
    let first = reference_entry(0);
    let mut best_button: Button = first.1;
    let mut best_distance: i32 = level_distance(first.0, adc_value);
    let ghost mut best_index: nat = 0;
    let mut i: usize = 1;
    while i < REFERENCE_COUNT
        invariant
            1 <= i <= REFERENCE_COUNT,
            best_index == nearest_index(adc_value as int, i as nat),
            best_button == reference_button(best_index as int),
            best_distance as int == distance(adc_value as int, best_index as int),
        decreases REFERENCE_COUNT - i,
    {
        let entry = reference_entry(i);
        let d: i32 = level_distance(entry.0, adc_value);
        if d < best_distance {
            best_distance = d;
            best_button = entry.1;
            proof {
                best_index = i as nat;
            }
        }
        i = i + 1;
    }
    best_button
}

/// The nearest index over the first `n` entries is in range, no entry is nearer,
/// and every earlier entry is strictly farther.
pub proof fn lemma_nearest_is_first_minimum(sample: int, n: nat)
    requires
        n >= 1,
    ensures
        nearest_index(sample, n) < n,
        forall|j: int|
            0 <= j < n ==> distance(sample, nearest_index(sample, n) as int) <= #[trigger] distance(
                sample,
                j,
            ),
        forall|j: int|
            0 <= j < nearest_index(sample, n) ==> #[trigger] distance(sample, j) > distance(
                sample,
                nearest_index(sample, n) as int,
            ),
    decreases n,
{
    if n > 1 {
        lemma_nearest_is_first_minimum(sample, (n - 1) as nat);
    }
}

/// Classification is total: every sample maps to the identity of one reference entry,
/// and no other entry lies nearer to it.
pub proof fn lemma_classify_total(sample: int)
    ensures
        exists|i: int|
            0 <= i < REFERENCE_COUNT && classify(sample) == reference_button(i) && (forall|j: int|
                0 <= j < REFERENCE_COUNT ==> distance(sample, i) <= #[trigger] distance(sample, j)),
{
    lemma_nearest_is_first_minimum(sample, REFERENCE_COUNT as nat);
    let i = nearest_index(sample, REFERENCE_COUNT as nat) as int;
    assert(0 <= i < REFERENCE_COUNT && classify(sample) == reference_button(i));
}

/// A sample above the midpoint below reference entry `k`, and at most the midpoint above
/// it, is classified as that entry's button; a sample exactly on a midpoint goes to the
/// lower entry, which comes first in the table.
pub proof fn lemma_classify_between_midpoints(sample: int, k: int)
    requires
        0 <= k < REFERENCE_COUNT,
        k == 0 || 2 * sample > reference_level(k - 1) + reference_level(k),
        k == REFERENCE_COUNT - 1 || 2 * sample <= reference_level(k) + reference_level(k + 1),
    ensures
        classify(sample) == reference_button(k),
{
    lemma_nearest_is_first_minimum(sample, REFERENCE_COUNT as nat);
    let i = nearest_index(sample, REFERENCE_COUNT as nat) as int;
    assert(distance(sample, i) <= distance(sample, k));
    if i < k {
        assert(distance(sample, k) < distance(sample, i));
    } else if i > k {
        assert(distance(sample, k) > distance(sample, i));
        assert(distance(sample, k) <= distance(sample, k + 1));
    }
    assert(i == k);
}

/// A sample within the tolerance of a reference level, less than half the smallest gap
/// between two adjacent levels, is classified as that level's button.
pub proof fn lemma_classify_near_reference(sample: int, k: int)
    requires
        0 <= k < REFERENCE_COUNT,
        2 * gap(sample, reference_level(k)) < 495,
    ensures
        classify(sample) == reference_button(k),
{
    lemma_classify_between_midpoints(sample, k);
}

/// The press event, if any, that a poll reports for sample `current` after sample `previous`.
pub open spec fn press_event(previous: int, current: int) -> Option<Button> {
    if classify(current) != Button::Released && classify(previous) == Button::Released {
        Some(classify(current))
    } else {
        None
    }
}

/// The press events reported while polling `levels` in order, starting after `previous`.
pub open spec fn press_events(previous: int, levels: Seq<int>) -> Seq<Button>
    decreases levels.len(),
{
    if levels.len() == 0 {
        Seq::empty()
    } else {
        let first = match press_event(previous, levels[0]) {
            Some(b) => seq![b],
            None => Seq::empty(),
        };
        first + press_events(levels[0], levels.drop_first())
    }
}

/// Turns the ladder's level readings into press events: a press is reported only when a
/// button reading follows a released reading, so a held button is reported once.
pub struct EdgeDetector {
    /// The most recent sample that was polled.
    pub last: i16,
}

impl EdgeDetector {
    /// A detector whose previous sample reads as released.
    pub fn new() -> (d: EdgeDetector)
        ensures
            d.last == IDLE_LEVEL,
            classify(d.last as int) == Button::Released,
    {
        proof {
            lemma_classify_between_midpoints(IDLE_LEVEL as int, 5);
        }
        EdgeDetector { last: IDLE_LEVEL }
    }

    /// Classifies `level` against the previous sample, reports a press on a released-to-held
    /// edge, and then records `level` as the previous sample.
    pub fn poll(&mut self, level: i16) -> (event: Option<Button>)
        ensures
            event == press_event(old(self).last as int, level as int),
            final(self).last == level,
    {
        let previous = adc_to_button(self.last);
        self.last = level;
        let current = adc_to_button(level);
        if current != Button::Released && previous == Button::Released {
            Some(current)
        } else {
            None
        }
    }
}

/// Polling a run of held readings that follows a released one reports exactly one press,
/// for the first of them.
pub proof fn lemma_one_press_per_hold(previous: int, levels: Seq<int>)
    requires
        classify(previous) == Button::Released,
        levels.len() >= 1,
        forall|i: int| 0 <= i < levels.len() ==> classify(#[trigger] levels[i]) != Button::Released,
    ensures
        press_events(previous, levels) == seq![classify(levels[0])],
{
    lemma_no_press_while_held(levels[0], levels.drop_first());
    assert(press_events(levels[0], levels.drop_first()) =~= Seq::<Button>::empty());
    assert(press_events(previous, levels) =~= seq![classify(levels[0])]);
}

/// Polling held readings after a held reading reports nothing.
pub proof fn lemma_no_press_while_held(previous: int, levels: Seq<int>)
    requires
        classify(previous) != Button::Released,
        forall|i: int| 0 <= i < levels.len() ==> classify(#[trigger] levels[i]) != Button::Released,
    ensures
        press_events(previous, levels).len() == 0,
    decreases levels.len(),
{
    if levels.len() > 0 {
        let rest = levels.drop_first();
        assert forall|i: int| 0 <= i < rest.len() implies classify(
            #[trigger] rest[i],
        ) != Button::Released by {
            assert(rest[i] == levels[i + 1]);
        }
        lemma_no_press_while_held(levels[0], rest);
    }
}

/// Polling released readings reports nothing, whatever came before.
pub proof fn lemma_no_press_while_released(previous: int, levels: Seq<int>)
    requires
        forall|i: int| 0 <= i < levels.len() ==> classify(#[trigger] levels[i]) == Button::Released,
    ensures
        press_events(previous, levels).len() == 0,
    decreases levels.len(),
{
    if levels.len() > 0 {
        let rest = levels.drop_first();
        assert forall|i: int| 0 <= i < rest.len() implies classify(#[trigger] rest[i])
            == Button::Released by {
            assert(rest[i] == levels[i + 1]);
        }
        lemma_no_press_while_released(levels[0], rest);
    }
}

/// The events of two runs of polls, one after the other, are those of the first run
/// followed by those of the second, which starts after the last reading of the first.
pub proof fn lemma_press_events_append(previous: int, first: Seq<int>, second: Seq<int>)
    requires
        first.len() >= 1,
    ensures
        press_events(previous, first + second) == press_events(previous, first) + press_events(
            first.last(),
            second,
        ),
    decreases first.len(),
{
    let all = first + second;
    assert(all[0] == first[0]);
    assert(all.drop_first() =~= first.drop_first() + second);
    if first.len() == 1 {
        assert(first.drop_first() =~= Seq::<int>::empty());
        assert(press_events(first[0], Seq::<int>::empty()) =~= Seq::<Button>::empty());
        assert(first.drop_first() + second =~= second);
        assert(press_events(previous, first) =~= (match press_event(previous, first[0]) {
            Some(b) => seq![b],
            None => Seq::<Button>::empty(),
        }));
    } else {
        lemma_press_events_append(first[0], first.drop_first(), second);
        assert(first.drop_first().last() == first.last());
    }
    assert(press_events(previous, all) =~= press_events(previous, first) + press_events(
        first.last(),
        second,
    ));
}

/// A whole episode, a button held over one or more readings and then released, reports
/// exactly one press when it starts after a released reading.
pub proof fn lemma_one_press_per_episode(previous: int, held: Seq<int>, released: Seq<int>)
    requires
        classify(previous) == Button::Released,
        held.len() >= 1,
        forall|i: int| 0 <= i < held.len() ==> classify(#[trigger] held[i]) != Button::Released,
        forall|i: int| 0 <= i < released.len() ==> classify(#[trigger] released[i]) == Button::Released,
    ensures
        press_events(previous, held + released) == seq![classify(held[0])],
{
    lemma_press_events_append(previous, held, released);
    lemma_one_press_per_hold(previous, held);
    lemma_no_press_while_released(held.last(), released);
    assert(press_events(held.last(), released) =~= Seq::<Button>::empty());
    assert(press_events(previous, held + released) =~= seq![classify(held[0])]);
}

} // verus!
