//! What a batch starts from and what it ends with: the targets of a command
//! resolved into locations, and the count of failures that becomes the exit
//! status.

use vstd::prelude::*;
use crate::location::{
    location_of, location_views, names_directory, names_location, resolve, Location, LocationView,
};
use crate::text::texts;

verus! {

/// The result of applying an action to every target of a batch.
#[derive(Clone, Copy, Debug, PartialEq, Eq, Structural)]
pub struct BatchOutcome {
    /// The number of targets that failed at some stage.
    pub error_count: usize,
}

/// The targets of a command, resolved.
#[derive(Debug)]
pub struct Resolution {
    /// The locations of the targets that name one, in the order of the targets.
    pub locations: Vec<Location>,
    /// The number of targets that name no location.
    pub rejected: usize,
}

/// The locations of the inputs that name one, in order.
pub open spec fn resolved(inputs: Seq<Seq<char>>) -> Seq<LocationView> {
    inputs.filter(|input: Seq<char>| names_location(input)).map_values(
        |input: Seq<char>| location_of(input),
    )
}

/// The number of inputs that name no location.
pub open spec fn rejected(inputs: Seq<Seq<char>>) -> nat {
    inputs.filter(|input: Seq<char>| !names_location(input)).len()
}

/// What the targets of a command stand for. With `fill_empty`, no target at
/// all stands for the base address itself; otherwise each target is resolved
/// by itself, and one that names nothing is counted and left out.
pub open spec fn renamed(inputs: Seq<Seq<char>>, fill_empty: bool) -> Seq<LocationView> {
    if fill_empty && inputs.len() == 0 {
        seq![location_of(Seq::<char>::empty())]
    } else {
        resolved(inputs)
    }
}

/// Each input gives a location or is rejected: none is lost, and the
/// locations keep the order of the inputs.
pub proof fn lemma_resolved_or_rejected(inputs: Seq<Seq<char>>)
    ensures
        resolved(inputs).len() + rejected(inputs) == inputs.len(),
    decreases inputs.len(),
{
    reveal(Seq::filter);
    if inputs.len() > 0 {
        lemma_resolved_or_rejected(inputs.drop_last());
    }
}

/// Without `fill_empty`, no target gives an empty batch.
pub proof fn lemma_no_target_no_location(fill_empty: bool)
    ensures
        !fill_empty ==> renamed(Seq::<Seq<char>>::empty(), fill_empty).len() == 0,
        fill_empty ==> renamed(Seq::<Seq<char>>::empty(), fill_empty).len() == 1,
{
    reveal(Seq::filter);
}

/// Resolves the targets of a command.
pub fn rename_targets(targets: &Vec<String>, fill_empty: bool) -> (r: Resolution)
    ensures
        location_views(r.locations@) == renamed(texts(targets@), fill_empty),
        forall|i: int|
            0 <= i < r.locations.len() ==> names_directory(
                (#[trigger] location_views(r.locations@)[i]).id,
            ),
        r.rejected == rejected(texts(targets@)),
        r.locations.len() + r.rejected == (if fill_empty && targets.len() == 0 {
            1
        } else {
            targets.len() as int
        }),
{
    let ghost inputs = texts(targets@);
    let mut locations: Vec<Location> = Vec::new();
    let mut rejected_count: usize = 0;
    proof {
        reveal(Seq::filter);
        assert(inputs.subrange(0, 0) =~= Seq::<Seq<char>>::empty());
        assert(location_views(locations@) =~= Seq::<LocationView>::empty());
    }
    if fill_empty && targets.len() == 0 {
        locations.push(Location::base());
        proof {
            assert(inputs =~= Seq::<Seq<char>>::empty());
            assert(location_views(locations@) =~= seq![location_of(Seq::<char>::empty())]);
        }
        return Resolution { locations, rejected: 0 };
    }
    let mut i: usize = 0;
    while i < targets.len()
        invariant
            inputs == texts(targets@),
            0 <= i <= targets.len(),
            location_views(locations@) == resolved(inputs.subrange(0, i as int)),
            forall|k: int|
                0 <= k < locations.len() ==> names_directory(
                    (#[trigger] location_views(locations@)[k]).id,
                ),
            rejected_count == rejected(inputs.subrange(0, i as int)),
            locations.len() + rejected_count == i,
        decreases targets.len() - i,
    {
        let ghost before = locations@;
        let resolution = resolve(targets[i].as_str());
        proof {
            let prefix = inputs.subrange(0, i as int);
            let input = inputs[i as int];
            assert(inputs.subrange(0, i + 1) =~= prefix.push(input));
            prefix.lemma_filter_push(input, |input: Seq<char>| names_location(input));
            prefix.lemma_filter_push(input, |input: Seq<char>| !names_location(input));
            lemma_resolved_or_rejected(prefix);
            lemma_resolved_or_rejected(prefix.push(input));
        }
        match resolution {
            Ok(location) => {
                locations.push(location);
                proof {
                    let prefix = inputs.subrange(0, i as int);
                    let input = inputs[i as int];
                    let kept = prefix.filter(|input: Seq<char>| names_location(input));
                    assert(kept.push(input).map_values(|input: Seq<char>| location_of(input))
                        =~= kept.map_values(|input: Seq<char>| location_of(input)).push(
                        location_of(input),
                    ));
                    assert(location_views(locations@) =~= location_views(before).push(
                        location_of(input),
                    ));
                }
            },
            Err(_) => {
                rejected_count = rejected_count + 1;
            },
        }
        i = i + 1;
    }
    proof {
        assert(inputs.subrange(0, targets.len() as int) =~= inputs);
    }
    Resolution { locations, rejected: rejected_count }
}

/// The number of failures of a whole command: those of resolution and of
/// execution, and one more where the command could not be set up at all.
pub open spec fn total_errors(setup_failed: bool, resolution: BatchOutcome, execution: BatchOutcome) -> int {
    (if setup_failed { 1int } else { 0int }) + resolution.error_count + execution.error_count
}

/// The exit status of a command: the number of its failures, as far as an
/// exit status can count. It is zero exactly when nothing failed.
pub fn exit_status(setup_failed: bool, resolution: BatchOutcome, execution: BatchOutcome) -> (code: i32)
    ensures
        code == if total_errors(setup_failed, resolution, execution) <= i32::MAX {
            total_errors(setup_failed, resolution, execution)
        } else {
            i32::MAX as int
        },
        code == 0 <==> !setup_failed && resolution.error_count == 0 && execution.error_count == 0,
{
    let setup: u128 = if setup_failed { 1 } else { 0 };
    let total: u128 = setup + resolution.error_count as u128 + execution.error_count as u128;
    if total <= i32::MAX as u128 {
        total as i32
    } else {
        i32::MAX
    }
}

} // verus!
