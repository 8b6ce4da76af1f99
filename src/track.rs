use vstd::prelude::*;

verus! {

/// One sample of a simulated track: the second at which it was taken and the
/// position of the aircraft then.
pub struct FlightRecord<P> {
    pub t_seconds: u32,
    pub position: P,
}

/// The position owed at second `t` of a flight that starts at `start`.
///
/// At second 0, and at every second of a flight that does not move, this is
/// `start` itself, exactly; otherwise it is whatever `displaced(t)` gives, the
/// start point advanced by `t` seconds of motion.
pub open spec fn position_owed<P, F: Fn(u32) -> P>(
    start: P,
    stationary: bool,
    displaced: F,
    t: u32,
    p: P,
) -> bool {
    if t == 0 || stationary {
        p == start
    } else {
        displaced.ensures((t,), p)
    }
}

/// The position at second `t`, derived from `t` alone: each sample is
/// computed afresh from the start point, never from the previous sample.
pub fn position_at<P: Copy, F: Fn(u32) -> P>(
    start: P,
    stationary: bool,
    displaced: &F,
    t: u32,
) -> (p: P)
    requires
        t == 0 || stationary || displaced.requires((t,)),
    ensures
        position_owed(start, stationary, *displaced, t, p),
{
    if t == 0 || stationary {
        start
    } else {
        displaced(t)
    }
}

/// The record taken at second `t`.
pub fn record_at<P: Copy, F: Fn(u32) -> P>(
    start: P,
    stationary: bool,
    displaced: &F,
    t: u32,
) -> (r: FlightRecord<P>)
    requires
        t == 0 || stationary || displaced.requires((t,)),
    ensures
        r.t_seconds == t,
        position_owed(start, stationary, *displaced, t, r.position),
{
    FlightRecord { t_seconds: t, position: position_at(start, stationary, displaced, t) }
}

/// Generates a flight of `duration_s` seconds sampled once a second: one record
/// for each second from 0 to `duration_s` inclusive, in time order.
pub fn generate<P: Copy, F: Fn(u32) -> P>(
    duration_s: u32,
    start: P,
    stationary: bool,
    displaced: &F,
) -> (records: Vec<FlightRecord<P>>)
    requires
        forall|t: u32| 0 < t <= duration_s ==> #[trigger] displaced.requires((t,)),
    ensures
        records@.len() == duration_s + 1,
        forall|i: int| 0 <= i < records@.len() ==> #[trigger] records@[i].t_seconds == i,
        forall|i: int|
            0 <= i < records@.len() ==> position_owed(
                start,
                stationary,
                *displaced,
                i as u32,
                #[trigger] records@[i].position,
            ),
        records@[0].position == start,
        stationary ==> forall|i: int|
            0 <= i < records@.len() ==> #[trigger] records@[i].position == start,
{
    let mut records: Vec<FlightRecord<P>> = Vec::new();
    let mut t: u32 = 0;
    loop
        invariant_except_break
            records@.len() == t,
        invariant
            t <= duration_s,
            forall|t: u32| 0 < t <= duration_s ==> #[trigger] displaced.requires((t,)),
            forall|i: int| 0 <= i < records@.len() ==> #[trigger] records@[i].t_seconds == i,
            forall|i: int|
                0 <= i < records@.len() ==> position_owed(
                    start,
                    stationary,
                    *displaced,
                    i as u32,
                    #[trigger] records@[i].position,
                ),
        ensures
            records@.len() == duration_s + 1,
            forall|i: int| 0 <= i < records@.len() ==> #[trigger] records@[i].t_seconds == i,
            forall|i: int|
                0 <= i < records@.len() ==> position_owed(
                    start,
                    stationary,
                    *displaced,
                    i as u32,
                    #[trigger] records@[i].position,
                ),
        decreases duration_s - t,
    {
        records.push(record_at(start, stationary, displaced, t));
        if t == duration_s {
            break;
        }
        t = t + 1;
    }
    records
}

} // verus!
