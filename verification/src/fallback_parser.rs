//! Reads a placement from a chat line of the form `<label> <x>,<y>[,<size>]`.
//!
//! The numbers are what follows the last space of the line, with white space at
//! both ends removed; the label is all that stands before that space. Fields
//! behind the third are not looked at.

use vstd::prelude::*;
use crate::placement::{at_most, clamp_to, CanvasLimits, Data, PlacementModel, DEFAULT_SIZE};
use crate::text::{chars_of, first_index_of, last_index_of, parse_number, parse_u32, trimmed};
use crate::text_scan::{find_first, find_last, trim_bounds};

verus! {

/// The text in front of the first comma, or all of it where there is none.
pub open spec fn first_field(text: Seq<char>) -> Seq<char> {
    match first_index_of(text, ',') {
        Some(comma) => text.subrange(0, comma),
        None => text,
    }
}

/// The size that the text behind the second field names: the value of its first
/// field, or the default where there is no such text.
pub open spec fn size_in(rest: Option<Seq<char>>) -> Option<u32> {
    match rest {
        Some(text) => parse_u32(first_field(text)),
        None => Some(DEFAULT_SIZE),
    }
}

/// The placement that the numbers of a line give to a label.
pub open spec fn placement_from(label: Seq<char>, numbers: Seq<char>, limits: CanvasLimits)
    -> Option<PlacementModel> {
    match first_index_of(numbers, ',') {
        None => None,
        Some(comma) => {
            let behind = numbers.subrange(comma + 1, numbers.len() as int);
            let rest = match first_index_of(behind, ',') {
                Some(second) => Some(behind.subrange(second + 1, behind.len() as int)),
                None => None,
            };
            match (
                parse_u32(numbers.subrange(0, comma)),
                parse_u32(first_field(behind)),
                size_in(rest),
            ) {
                (Some(x), Some(y), Some(size)) => Some(
                    PlacementModel {
                        text: label,
                        x: at_most(x, limits.width),
                        y: at_most(y, limits.height),
                        size: at_most(size, limits.max_size),
                    },
                ),
                _ => None,
            }
        },
    }
}

/// The placement that a line stands for.
pub open spec fn placement_in(line: Seq<char>, limits: CanvasLimits) -> Option<PlacementModel> {
    match last_index_of(line, ' ') {
        None => None,
        Some(space) => placement_from(
            line.subrange(0, space),
            trimmed(line.subrange(space, line.len() as int)),
            limits,
        ),
    }
}

/// Reads `<label> <x>,<y>[,<size>]`. The numbers are cut down to the limits; a
/// line without a space, with fewer than two fields, or with a field that is not a
/// number gives nothing.
pub fn parse_string(input: &str, limits: &CanvasLimits) -> (parsed: Option<Data>)
    ensures
        parsed is Some <==> placement_in(input@, *limits) is Some,
        parsed is Some ==> parsed->Some_0@ == placement_in(input@, *limits)->Some_0,
{
    let line = chars_of(input);
    let space = match find_last(&line, ' ') {
        Some(space) => space,
        None => {
            return None;
        },
    };
    let (from, to) = trim_bounds(&line, space, line.len());
    let ghost numbers = line@.subrange(from as int, to as int);
    let comma = match find_first(&line, from, to, ',') {
        Some(comma) => comma,
        None => {
            return None;
        },
    };
    let ghost behind = numbers.subrange(comma - from + 1, numbers.len() as int);
    proof {
        assert(numbers.subrange(0, comma - from) =~= line@.subrange(from as int, comma as int));
        assert(behind =~= line@.subrange(comma + 1, to as int));
    }
    let x = parse_number(&line, from, comma);
    let second = find_first(&line, comma + 1, to, ',');
    let y_end: usize = match second {
        Some(second) => second,
        None => to,
    };
    proof {
        assert(first_field(behind) =~= line@.subrange(comma + 1, y_end as int));
    }
    let y = parse_number(&line, comma + 1, y_end);
    let size = match second {
        Some(second) => {
            let third = find_first(&line, second + 1, to, ',');
            let size_end: usize = match third {
                Some(third) => third,
                None => to,
            };
            proof {
                let rest = behind.subrange(second - comma, behind.len() as int);
                assert(rest =~= line@.subrange(second + 1, to as int));
                assert(first_field(rest) =~= line@.subrange(second + 1, size_end as int));
            }
            parse_number(&line, second + 1, size_end)
        },
        None => Some(DEFAULT_SIZE),
    };
    match (x, y, size) {
        (Some(x), Some(y), Some(size)) => {
            let text = input.substring_char(0, space).to_owned();
            Some(
                Data {
                    text,
                    x: clamp_to(x, limits.width),
                    y: clamp_to(y, limits.height),
                    size: clamp_to(size, limits.max_size),
                },
            )
        },
        _ => None,
    }
}

} // verus!
