use sequin::easing::{Linear, Out, Powi};
use sequin::fixed::{Fixed, SCALE};
use sequin::sequence::Sequence;
use sequin::tweenable::Vec2;

fn fx(raw: i64) -> Fixed {
    Fixed::from_raw(raw)
}

fn whole(v: i32) -> Fixed {
    Fixed::from_int(v)
}

#[test]
fn one_stage_half_then_finish() {
    let mut s = Sequence::new(Fixed::zero()).tween(whole(1), whole(10), Linear);
    s.update(fx(32768));
    assert_eq!(s.current().raw(), 5 * SCALE);
    assert!(!s.finished());
    s.update(fx(32768));
    assert_eq!(s.current().raw(), 10 * SCALE);
    assert!(s.finished());
}

#[test]
fn one_update_crosses_two_stages() {
    let mut s = Sequence::new(Fixed::zero())
        .tween(whole(1), whole(10), Linear)
        .wait(whole(1))
        .tween(whole(1), Fixed::zero(), Linear);
    // 2.5 seconds in one call: stages 0 and 1 are fully consumed and the
    // playhead lands half way into stage 2.
    s.update(fx(163840));
    assert_eq!(s.current().raw(), 5 * SCALE);
    assert!(!s.finished());
}

#[test]
fn oversized_update_finishes_cleanly() {
    let mut s = Sequence::new(Fixed::zero())
        .tween(fx(32768), whole(10), Linear)
        .tween(fx(32768), whole(3), Linear);
    s.update(whole(100));
    assert!(s.finished());
    assert_eq!(s.current().raw(), 3 * SCALE);
}

#[test]
fn empty_sequence_finishes_immediately() {
    let mut s = Sequence::new(whole(7));
    assert!(!s.finished());
    s.update(Fixed::zero());
    assert!(s.finished());
    assert_eq!(s.current().raw(), 7 * SCALE);

    let mut s = Sequence::new(whole(-4));
    s.update(whole(5));
    assert!(s.finished());
    assert_eq!(s.current().raw(), -4 * SCALE);
}

#[test]
fn wait_stage_holds_the_value() {
    let mut s = Sequence::new(whole(2))
        .tween(whole(1), whole(5), Linear)
        .wait(whole(1));
    s.update(fx(81920)); // 1.25: a quarter into the wait stage
    assert_eq!(s.current().raw(), 5 * SCALE);
    assert!(!s.finished());
    s.update(fx(16384)); // 1.5
    assert_eq!(s.current().raw(), 5 * SCALE);
    s.update(fx(16384)); // 1.75, still waiting
    assert_eq!(s.current().raw(), 5 * SCALE);
    assert!(!s.finished());
    s.update(fx(32768)); // 2.125: past the end
    assert!(s.finished());
    assert_eq!(s.current().raw(), 5 * SCALE);
}

#[test]
fn chunked_updates_match_one_update() {
    let build = || {
        Sequence::new(Fixed::zero())
            .tween(whole(1), whole(10), Powi(2))
            .tween(whole(1), whole(-3), Out(Powi(3)))
    };
    let mut a = build();
    let mut b = build();
    a.update(fx(20000));
    a.update(fx(30000));
    a.update(fx(2768));
    b.update(fx(52768));
    assert_eq!(a.current().raw(), b.current().raw());
    assert_eq!(a.finished(), b.finished());
    // Push both past the end with differently chunked remainders.
    a.update(fx(40000));
    a.update(fx(40000));
    b.update(fx(80000));
    assert!(a.finished() && b.finished());
    assert_eq!(a.current().raw(), -3 * SCALE);
    assert_eq!(b.current().raw(), -3 * SCALE);
}

#[test]
fn zero_duration_stage_is_crossed_in_the_same_update() {
    let mut s = Sequence::new(Fixed::zero())
        .tween(Fixed::zero(), whole(10), Linear)
        .tween(whole(1), whole(20), Linear);
    s.update(fx(32768));
    assert_eq!(s.current().raw(), 15 * SCALE);
    assert!(!s.finished());

    let mut s = Sequence::new(Fixed::zero()).tween(Fixed::zero(), whole(10), Linear);
    s.update(Fixed::zero());
    assert!(s.finished());
    assert_eq!(s.current().raw(), 10 * SCALE);
}

#[test]
fn finished_is_absorbing() {
    let mut s = Sequence::new(Fixed::zero()).tween(whole(1), whole(10), Linear);
    s.update(whole(2));
    assert!(s.finished());
    assert_eq!(s.current().raw(), 10 * SCALE);
    s.update(whole(5));
    assert!(s.finished());
    assert_eq!(s.current().raw(), 10 * SCALE);
}

#[test]
fn value_is_continuous_at_a_stage_boundary() {
    let mut s = Sequence::new(Fixed::zero())
        .tween(whole(1), whole(10), Powi(2))
        .tween(whole(1), Fixed::zero(), Powi(2));
    // Exactly at the boundary the playhead enters stage 1 with no time
    // elapsed in it, and the value equals stage 0's end value.
    s.update(whole(1));
    assert!(!s.finished());
    assert_eq!(s.current().raw(), 10 * SCALE);
}

#[test]
fn reset_restores_the_start() {
    let mut s = Sequence::new(whole(1)).tween(whole(1), whole(9), Linear);
    s.update(whole(3));
    assert!(s.finished());
    s.reset();
    assert!(!s.finished());
    assert_eq!(s.current().raw(), SCALE);
    s.update(fx(32768));
    assert_eq!(s.current().raw(), 5 * SCALE);
}

#[test]
fn single_builds_a_one_stage_sequence() {
    let mut s = Sequence::single(whole(1), whole(2), whole(4), Linear);
    assert_eq!(s.current().raw(), 2 * SCALE);
    s.update(fx(32768));
    assert_eq!(s.current().raw(), 3 * SCALE);
    s.update(fx(32768));
    assert!(s.finished());
    assert_eq!(s.current().raw(), 4 * SCALE);
}

#[test]
fn update_by_zero_keeps_the_value() {
    let mut s = Sequence::new(Fixed::zero()).tween(whole(1), whole(10), Powi(2));
    s.update(fx(32768));
    let before = s.current().raw();
    s.update(Fixed::zero());
    assert_eq!(s.current().raw(), before);
    assert!(!s.finished());
}

#[test]
fn appending_after_finish_keeps_the_sequence_finished() {
    let mut s = Sequence::new(Fixed::zero());
    s.update(Fixed::zero());
    assert!(s.finished());
    let mut s = s.tween(whole(1), whole(5), Linear);
    s.update(whole(1));
    assert!(s.finished());
    assert_eq!(s.current().raw(), 0);
}

#[test]
fn two_dimensional_values_tween_componentwise() {
    let p = |x: i32, y: i32| Vec2 { x: whole(x), y: whole(y) };
    let mut s = Sequence::new(p(200, 200))
        .tween(whole(1), p(600, 400), Powi(2))
        .wait(fx(32768))
        .tween(whole(2), p(200, 400), Out(Powi(2)));
    s.update(fx(32768));
    // Quadratic easing at progress 1/2: a quarter of the way there.
    assert_eq!(s.current().x.raw(), 300 * SCALE);
    assert_eq!(s.current().y.raw(), 250 * SCALE);
    s.update(fx(32768));
    assert_eq!(s.current().x.raw(), 600 * SCALE);
    assert_eq!(s.current().y.raw(), 400 * SCALE);
    s.update(fx(98304)); // 1.5: half way through the final stage
    assert!(!s.finished());
    // Out(Powi(2)) at 1/2 is 1 - (1/2)^2 = 3/4.
    assert_eq!(s.current().x.raw(), 300 * SCALE);
    assert_eq!(s.current().y.raw(), 400 * SCALE);
    s.update(whole(2));
    assert!(s.finished());
    assert_eq!(s.current().x.raw(), 200 * SCALE);
    assert_eq!(s.current().y.raw(), 400 * SCALE);
}
