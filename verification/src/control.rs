//! The decision logic of the tool: which monitors to act on, which
//! value to write, and what to report for each monitor. The hardware
//! calls themselves happen outside the library; these functions take
//! their results as plain values.

use vstd::prelude::*;

use crate::render::{bar_shape, create_brightness_bar, filled_cells};
use crate::types::{BrightnessError, Reading, ValueChange};

verus! {

/// A value clamped to the percentage scale.
pub open spec fn clamp_spec(v: int) -> int {
    if v < 0 {
        0
    } else if v > 100 {
        100
    } else {
        v
    }
}

/// Adds a signed delta to the current value and clamps the result
/// to the percentage scale.
pub fn apply_delta(current: u16, delta: i16) -> (v: u16)
    ensures
        v == clamp_spec(current + delta),
{
    let sum: i32 = current as i32 + delta as i32;
    if sum < 0 {
        0
    } else if sum > 100 {
        100
    } else {
        sum as u16
    }
}

/// The value to send to one monitor, or the error to report for it.
/// A delta needs the freshly read current value; a failed read skips
/// the monitor. An absolute value outside the percentage scale is
/// rejected before any dispatch.
pub open spec fn plan_set_spec(change: ValueChange, index: usize, current: Option<u16>) -> Result<
    u16,
    BrightnessError,
> {
    match change {
        ValueChange::Absolute(u) => if u <= 100 {
            Ok(u)
        } else {
            Err(BrightnessError::InvalidArgument)
        },
        ValueChange::Delta(d) => match current {
            Some(c) => Ok(clamp_spec(c + d) as u16),
            None => Err(BrightnessError::ReadFailure(index)),
        },
    }
}

/// Decides what to write to the monitor at `index`, given the read
/// result `current` (`None` when the read failed).
pub fn plan_set(change: &ValueChange, index: usize, current: Option<u16>) -> (r: Result<
    u16,
    BrightnessError,
>)
    ensures
        r == plan_set_spec(*change, index, current),
{
    match change {
        ValueChange::Absolute(u) => {
            if *u <= 100 {
                Ok(*u)
            } else {
                Err(BrightnessError::InvalidArgument)
            }
        },
        ValueChange::Delta(d) => {
            match current {
                Some(c) => Ok(apply_delta(c, *d)),
                None => Err(BrightnessError::ReadFailure(index)),
            }
        },
    }
}

/// The indices to act on: all of `0..count` in enumeration order, or
/// the single requested one, or none when the requested one is absent.
pub fn select_monitors(count: usize, target: Option<usize>) -> (r: Vec<usize>)
    ensures
        target is None ==> r@ == Seq::new(count as nat, |i: int| i as usize),
        (target matches Some(t) && t < count) ==> r@ == seq![target->0],
        (target matches Some(t) && t >= count) ==> r@.len() == 0,
{
    match target {
        Some(t) => {
            if t < count {
                let mut one: Vec<usize> = Vec::new();
                one.push(t);
                proof {
                    assert(one@ =~= seq![t]);
                }
                one
            } else {
                Vec::new()
            }
        },
        None => {
            let mut all: Vec<usize> = Vec::new();
            let mut i: usize = 0;
            while i < count
                invariant
                    i <= count,
                    all@.len() == i,
                    forall|j: int| 0 <= j < i ==> all@[j] == j,
                decreases count - i,
            {
                all.push(i);
                i = i + 1;
            }
            proof {
                assert(all@ =~= Seq::new(count as nat, |i: int| i as usize));
            }
            all
        },
    }
}

/// The dispatcher's check before acting on a selection: no monitors
/// at all, or a requested index that is not attached.
pub fn check_selection(count: usize, target: Option<usize>) -> (r: Result<(), BrightnessError>)
    ensures
        count == 0 ==> r == Err::<(), BrightnessError>(BrightnessError::NoMonitorsFound),
        count > 0 && (target is None || target->0 < count) ==> r == Ok::<(), BrightnessError>(()),
        count > 0 && (target matches Some(t) && t >= count) ==> r == Err::<(), BrightnessError>(
            BrightnessError::MonitorNotFound(target->0),
        ),
{
    if count == 0 {
        return Err(BrightnessError::NoMonitorsFound);
    }
    match target {
        Some(t) => {
            if t < count {
                Ok(())
            } else {
                Err(BrightnessError::MonitorNotFound(t))
            }
        },
        None => Ok(()),
    }
}

/// One line of the status report: a reading with its rendered bar,
/// or a per-monitor read failure.
#[derive(Debug, Clone)]
pub enum GetLine {
    Status { index: usize, current: u16, maximum: u16, bar: String },
    Failure { index: usize },
}

/// What the status report says about one monitor's read result.
pub open spec fn get_line_spec(index: usize, reading: Option<Reading>, line: GetLine) -> bool {
    match reading {
        Some(rd) => {
            &&& line matches GetLine::Status { index: li, current, maximum, bar }
            &&& li == index
            &&& current == rd.current
            &&& maximum == rd.maximum
            &&& bar_shape(bar@, filled_cells(rd.current, rd.maximum))
        },
        None => line matches GetLine::Failure { index: li } && li == index,
    }
}

/// Turns the read results of the selected monitors into the status
/// report, one line per monitor, failures included, in order.
pub fn run_get(readings: &Vec<(usize, Option<Reading>)>) -> (r: Vec<GetLine>)
    ensures
        r@.len() == readings@.len(),
        forall|i: int|
            0 <= i < readings@.len() ==> get_line_spec(
                readings@[i].0,
                readings@[i].1,
                #[trigger] r@[i],
            ),
{
    let mut lines: Vec<GetLine> = Vec::new();
    let mut i: usize = 0;
    while i < readings.len()
        invariant
            i <= readings@.len(),
            lines@.len() == i,
            forall|j: int|
                0 <= j < i ==> get_line_spec(readings@[j].0, readings@[j].1, #[trigger] lines@[j]),
        decreases readings@.len() - i,
    {
        let (index, reading) = readings[i];
        match reading {
            Some(rd) => {
                let bar = create_brightness_bar(rd.current, rd.maximum);
                lines.push(
                    GetLine::Status { index, current: rd.current, maximum: rd.maximum, bar },
                );
            },
            None => {
                lines.push(GetLine::Failure { index });
            },
        }
        i = i + 1;
    }
    lines
}

/// Computes the value to write for each selected monitor, given the
/// read result gathered for it (`None` for a failed or skipped read),
/// one entry per monitor, failures included, in order.
pub fn run_set(change: &ValueChange, reads: &Vec<(usize, Option<u16>)>) -> (r: Vec<
    (usize, Result<u16, BrightnessError>),
>)
    ensures
        r@.len() == reads@.len(),
        forall|i: int|
            0 <= i < reads@.len() ==> (#[trigger] r@[i]).0 == reads@[i].0 && r@[i].1
                == plan_set_spec(*change, reads@[i].0, reads@[i].1),
{
    let mut out: Vec<(usize, Result<u16, BrightnessError>)> = Vec::new();
    let mut i: usize = 0;
    while i < reads.len()
        invariant
            i <= reads@.len(),
            out@.len() == i,
            forall|j: int|
                0 <= j < i ==> (#[trigger] out@[j]).0 == reads@[j].0 && out@[j].1 == plan_set_spec(
                    *change,
                    reads@[j].0,
                    reads@[j].1,
                ),
        decreases reads@.len() - i,
    {
        let (index, current) = reads[i];
        let planned = plan_set(change, index, current);
        out.push((index, planned));
        i = i + 1;
    }
    out
}

/// Reports one monitor's write: the value that was set, or a write
/// failure tagged with the monitor's index.
pub fn write_outcome(index: usize, value: u16, ok: bool) -> (r: Result<u16, BrightnessError>)
    ensures
        ok ==> r == Ok::<u16, BrightnessError>(value),
        !ok ==> r == Err::<u16, BrightnessError>(BrightnessError::WriteFailure(index)),
{
    if ok {
        Ok(value)
    } else {
        Err(BrightnessError::WriteFailure(index))
    }
}

} // verus!
