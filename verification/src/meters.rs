//! Streaming meter telemetry: which meters exist, and how a raw batch
//! of meter readings is split per meter.
//!
//! Meter batches bypass the cache entirely; the hub only segments the
//! raw readings and fans them out.  Scaling readings to display levels
//! is the providers' concern.

use vstd::prelude::*;

verus! {

/// One meter subscription on the console: a meter group plus, for the
/// per-strip groups, the strip index within the group.
#[derive(Debug, Clone, Copy, PartialEq, Eq, Structural)]
pub enum MeterKind {
    Channel(u8),
    Aux(u8),
    Bus(u8),
    Main(u8),
    Matrix(u8),
    Dca(u8),
    Fx(u8),
    Source(u8),
    Output(u8),
    Monitor,
    Rta,
    Channel2(u8),
    Aux2(u8),
    Bus2(u8),
    Main2(u8),
    Matrix2(u8),
}

/// How many raw readings one meter of this kind contributes to a batch.
pub open spec fn spec_meter_count(meter: MeterKind) -> nat {
    match meter {
        MeterKind::Channel(_)
        | MeterKind::Aux(_)
        | MeterKind::Bus(_)
        | MeterKind::Main(_)
        | MeterKind::Matrix(_) => 8,
        MeterKind::Dca(_) => 4,
        MeterKind::Fx(_) => 10,
        MeterKind::Source(_) | MeterKind::Output(_) => 1,
        MeterKind::Monitor => 6,
        MeterKind::Rta => 120,
        MeterKind::Channel2(_)
        | MeterKind::Aux2(_)
        | MeterKind::Bus2(_)
        | MeterKind::Main2(_)
        | MeterKind::Matrix2(_) => 11,
    }
}

/// How many raw readings the meters before index `upto` contribute in
/// total.
pub open spec fn spec_meters_offset(meters: Seq<MeterKind>, upto: int) -> nat
    decreases upto,
{
    if upto <= 0 {
        0
    } else {
        spec_meters_offset(meters, upto - 1) + spec_meter_count(meters[upto - 1])
    }
}

/// How many raw readings one meter of this kind contributes to a batch.
pub fn wing_get_meter_count(meter: MeterKind) -> (r: usize)
    ensures
        r == spec_meter_count(meter),
{
    match meter {
        MeterKind::Channel(_)
        | MeterKind::Aux(_)
        | MeterKind::Bus(_)
        | MeterKind::Main(_)
        | MeterKind::Matrix(_) => 8,
        MeterKind::Dca(_) => 4,
        MeterKind::Fx(_) => 10,
        MeterKind::Source(_) | MeterKind::Output(_) => 1,
        MeterKind::Monitor => 6,
        MeterKind::Rta => 120,
        MeterKind::Channel2(_)
        | MeterKind::Aux2(_)
        | MeterKind::Bus2(_)
        | MeterKind::Main2(_)
        | MeterKind::Matrix2(_) => 11,
    }
}

/// A raw meter batch did not carry enough readings for the subscribed
/// meters.
#[derive(Debug, Clone, Copy, PartialEq, Eq, Structural)]
pub enum MeterDataError {
    InsufficientData,
}

/// Split one raw batch of readings among the subscribed meters, in
/// subscription order: meter `i` receives the readings at offsets
/// `spec_meters_offset(meters, i)` up to its own count.  Fails exactly
/// when the batch is shorter than the meters' total demand; readings
/// beyond the total are ignored.
pub fn process_meter_data(meters: &Vec<MeterKind>, data: &Vec<i16>) -> (r: Result<
    Vec<Vec<i16>>,
    MeterDataError,
>)
    ensures
        match r {
            Ok(out) => {
                &&& spec_meters_offset(meters@, meters@.len() as int) <= data@.len()
                &&& out.deep_view().len() == meters@.len()
                &&& forall|i: int|
                    0 <= i < meters@.len() ==> out.deep_view()[i] == data@.subrange(
                        spec_meters_offset(meters@, i) as int,
                        spec_meters_offset(meters@, i) + spec_meter_count(meters@[i]) as int,
                    )
            },
            Err(e) => {
                &&& e == MeterDataError::InsufficientData
                &&& spec_meters_offset(meters@, meters@.len() as int) > data@.len()
            },
        },
{
    let mut out: Vec<Vec<i16>> = Vec::new();
    let mut data_index: usize = 0;
    let mut m: usize = 0;
    while m < meters.len()
        invariant
            m <= meters@.len(),
            data_index == spec_meters_offset(meters@, m as int),
            data_index <= data@.len(),
            out.deep_view().len() == m,
            forall|i: int|
                0 <= i < m ==> out.deep_view()[i] == data@.subrange(
                    spec_meters_offset(meters@, i) as int,
                    spec_meters_offset(meters@, i) + spec_meter_count(meters@[i]) as int,
                ),
        decreases meters@.len() - m,
    {
        let count = wing_get_meter_count(meters[m]);
        if data.len() - data_index < count {
            proof {
                lemma_meters_offset_mono(meters@, m + 1, meters@.len() as int);
            }
            return Err(MeterDataError::InsufficientData);
        }
        let mut values: Vec<i16> = Vec::new();
        let mut j: usize = 0;
        while j < count
            invariant
                j <= count,
                data_index + count <= data@.len(),
                data@.len() <= usize::MAX,
                values@ == data@.subrange(data_index as int, data_index + j),
            decreases count - j,
        {
            values.push(data[data_index + j]);
            assert(values@ =~= data@.subrange(data_index as int, data_index + j + 1));
            j = j + 1;
        }
        let ghost pre = out.deep_view();
        out.push(values);
        proof {
            assert(out.deep_view() =~~= pre.push(
                data@.subrange(data_index as int, data_index + count),
            ));
        }
        data_index = data_index + count;
        m = m + 1;
    }
    Ok(out)
}

/// The total demand of a longer meter prefix is no smaller.
proof fn lemma_meters_offset_mono(meters: Seq<MeterKind>, a: int, b: int)
    requires
        a <= b,
    ensures
        spec_meters_offset(meters, a) <= spec_meters_offset(meters, b),
    decreases b - a,
{
    if a < b {
        lemma_meters_offset_mono(meters, a, b - 1);
    }
}

} // verus!
