//! The fixed catalog of rocket parts and the per-stage eligibility filters.

use vstd::prelude::*;

verus! {

/// What role a part plays in a rocket.
#[derive(PartialEq, Eq, Structural, Debug, Clone, Copy)]
pub enum PartType {
    TIP,
    BODY,
    ENGINE,
    EXHAUST,
}

/// One ASCII-art fragment of a rocket.
///
/// `top_width` is the connector width the part needs from the part above it,
/// `bottom_width` the one it offers to the part below it.
#[derive(Debug, Clone, Copy)]
pub struct Part {
    pub height: usize,
    pub top_width: usize,
    pub bottom_width: usize,
    pub shape: &'static str,
    pub type_: PartType,
    pub selection_weight: usize,
}

/// Number of parts in the catalog; part identifiers are `0..PART_COUNT`.
pub const PART_COUNT: usize = 23;

/// The catalog entry with identifier `id` (the last entry for any larger `id`).
pub open spec fn spec_part(id: int) -> Part {
    if id == 0 {
        Part { top_width: 0, bottom_width: 0, height: 1, shape: "│", type_: PartType::TIP, selection_weight: 1 }
    } else if id == 1 {
        Part { top_width: 0, bottom_width: 0, height: 2, shape: "│\n║", type_: PartType::TIP, selection_weight: 1 }
    } else if id == 2 {
        Part { top_width: 0, bottom_width: 1, height: 1, shape: "/'\\", type_: PartType::BODY, selection_weight: 2 }
    } else if id == 3 {
        Part { top_width: 0, bottom_width: 1, height: 1, shape: "┌┴┐", type_: PartType::BODY, selection_weight: 2 }
    } else if id == 4 {
        Part { top_width: 0, bottom_width: 1, height: 1, shape: "┌╩┐", type_: PartType::BODY, selection_weight: 1 }
    } else if id == 5 {
        Part { top_width: 1, bottom_width: 3, height: 1, shape: "/   \\", type_: PartType::BODY, selection_weight: 2 }
    } else if id == 6 {
        Part { top_width: 0, bottom_width: 3, height: 2, shape: "/'\\\n/   \\", type_: PartType::BODY, selection_weight: 1 }
    } else if id == 7 {
        Part { top_width: 1, bottom_width: 3, height: 1, shape: "┌┘ └┐", type_: PartType::BODY, selection_weight: 1 }
    } else if id == 8 {
        Part { top_width: 3, bottom_width: 1, height: 1, shape: "\\   /", type_: PartType::BODY, selection_weight: 1 }
    } else if id == 9 {
        Part { top_width: 3, bottom_width: 1, height: 1, shape: "└┐ ┌┘", type_: PartType::BODY, selection_weight: 1 }
    } else if id == 10 {
        Part { top_width: 1, bottom_width: 1, height: 1, shape: "│ │", type_: PartType::BODY, selection_weight: 10 }
    } else if id == 11 {
        Part { top_width: 1, bottom_width: 1, height: 1, shape: "│°│", type_: PartType::BODY, selection_weight: 5 }
    } else if id == 12 {
        Part { top_width: 1, bottom_width: 1, height: 1, shape: "/│ │\\", type_: PartType::BODY, selection_weight: 1 }
    } else if id == 13 {
        Part { top_width: 3, bottom_width: 3, height: 1, shape: "│   │", type_: PartType::BODY, selection_weight: 10 }
    } else if id == 14 {
        Part { top_width: 3, bottom_width: 3, height: 1, shape: "│° °│", type_: PartType::BODY, selection_weight: 5 }
    } else if id == 15 {
        Part { top_width: 3, bottom_width: 3, height: 1, shape: "│ O │", type_: PartType::BODY, selection_weight: 5 }
    } else if id == 16 {
        Part { top_width: 3, bottom_width: 3, height: 2, shape: "/│ ^ │\\\n/_│ | │_\\", type_: PartType::BODY, selection_weight: 1 }
    } else if id == 17 {
        Part { top_width: 1, bottom_width: 0, height: 1, shape: "'─'", type_: PartType::ENGINE, selection_weight: 1 }
    } else if id == 18 {
        Part { top_width: 3, bottom_width: 1, height: 1, shape: "\\_/", type_: PartType::ENGINE, selection_weight: 1 }
    } else if id == 19 {
        Part { top_width: 1, bottom_width: 0, height: 1, shape: "( )", type_: PartType::EXHAUST, selection_weight: 1 }
    } else if id == 20 {
        Part { top_width: 0, bottom_width: 0, height: 1, shape: "·", type_: PartType::EXHAUST, selection_weight: 1 }
    } else if id == 21 {
        Part { top_width: 0, bottom_width: 0, height: 1, shape: ".", type_: PartType::EXHAUST, selection_weight: 1 }
    } else {
        Part { top_width: 0, bottom_width: 0, height: 1, shape: "'", type_: PartType::EXHAUST, selection_weight: 1 }
    }
}

/// Returns the catalog entry with identifier `id`.
pub fn part(id: usize) -> (p: Part)
    requires
        id < PART_COUNT,
    ensures
        p == spec_part(id as int),
{
    if id == 0 {
        Part { top_width: 0, bottom_width: 0, height: 1, shape: "│", type_: PartType::TIP, selection_weight: 1 }
    } else if id == 1 {
        Part { top_width: 0, bottom_width: 0, height: 2, shape: "│\n║", type_: PartType::TIP, selection_weight: 1 }
    } else if id == 2 {
        Part { top_width: 0, bottom_width: 1, height: 1, shape: "/'\\", type_: PartType::BODY, selection_weight: 2 }
    } else if id == 3 {
        Part { top_width: 0, bottom_width: 1, height: 1, shape: "┌┴┐", type_: PartType::BODY, selection_weight: 2 }
    } else if id == 4 {
        Part { top_width: 0, bottom_width: 1, height: 1, shape: "┌╩┐", type_: PartType::BODY, selection_weight: 1 }
    } else if id == 5 {
        Part { top_width: 1, bottom_width: 3, height: 1, shape: "/   \\", type_: PartType::BODY, selection_weight: 2 }
    } else if id == 6 {
        Part { top_width: 0, bottom_width: 3, height: 2, shape: "/'\\\n/   \\", type_: PartType::BODY, selection_weight: 1 }
    } else if id == 7 {
        Part { top_width: 1, bottom_width: 3, height: 1, shape: "┌┘ └┐", type_: PartType::BODY, selection_weight: 1 }
    } else if id == 8 {
        Part { top_width: 3, bottom_width: 1, height: 1, shape: "\\   /", type_: PartType::BODY, selection_weight: 1 }
    } else if id == 9 {
        Part { top_width: 3, bottom_width: 1, height: 1, shape: "└┐ ┌┘", type_: PartType::BODY, selection_weight: 1 }
    } else if id == 10 {
        Part { top_width: 1, bottom_width: 1, height: 1, shape: "│ │", type_: PartType::BODY, selection_weight: 10 }
    } else if id == 11 {
        Part { top_width: 1, bottom_width: 1, height: 1, shape: "│°│", type_: PartType::BODY, selection_weight: 5 }
    } else if id == 12 {
        Part { top_width: 1, bottom_width: 1, height: 1, shape: "/│ │\\", type_: PartType::BODY, selection_weight: 1 }
    } else if id == 13 {
        Part { top_width: 3, bottom_width: 3, height: 1, shape: "│   │", type_: PartType::BODY, selection_weight: 10 }
    } else if id == 14 {
        Part { top_width: 3, bottom_width: 3, height: 1, shape: "│° °│", type_: PartType::BODY, selection_weight: 5 }
    } else if id == 15 {
        Part { top_width: 3, bottom_width: 3, height: 1, shape: "│ O │", type_: PartType::BODY, selection_weight: 5 }
    } else if id == 16 {
        Part { top_width: 3, bottom_width: 3, height: 2, shape: "/│ ^ │\\\n/_│ | │_\\", type_: PartType::BODY, selection_weight: 1 }
    } else if id == 17 {
        Part { top_width: 1, bottom_width: 0, height: 1, shape: "'─'", type_: PartType::ENGINE, selection_weight: 1 }
    } else if id == 18 {
        Part { top_width: 3, bottom_width: 1, height: 1, shape: "\\_/", type_: PartType::ENGINE, selection_weight: 1 }
    } else if id == 19 {
        Part { top_width: 1, bottom_width: 0, height: 1, shape: "( )", type_: PartType::EXHAUST, selection_weight: 1 }
    } else if id == 20 {
        Part { top_width: 0, bottom_width: 0, height: 1, shape: "·", type_: PartType::EXHAUST, selection_weight: 1 }
    } else if id == 21 {
        Part { top_width: 0, bottom_width: 0, height: 1, shape: ".", type_: PartType::EXHAUST, selection_weight: 1 }
    } else {
        Part { top_width: 0, bottom_width: 0, height: 1, shape: "'", type_: PartType::EXHAUST, selection_weight: 1 }
    }
}

/// The assembly stage a part is looked up for.
#[derive(PartialEq, Eq, Structural, Debug, Clone, Copy)]
pub enum Stage {
    /// The topmost structural part, sitting on a zero-width connector.
    Nose,
    /// Body segments and transitions between connector widths.
    Body,
    /// The single engine.
    Engine,
    /// Nose ornaments (tips) and exhaust trails.
    Decoration,
}

/// Whether parts of type `t` may be chosen at `stage`.
pub open spec fn stage_admits(stage: Stage, t: PartType) -> bool {
    match stage {
        Stage::Nose => t == PartType::BODY,
        Stage::Body => t == PartType::BODY,
        Stage::Engine => t == PartType::ENGINE,
        Stage::Decoration => t == PartType::TIP || t == PartType::EXHAUST,
    }
}

/// Whether a part of type `t` needs its top connector to match the bottom
/// connector at `stage`: every part does, but a tip added as a decoration,
/// which goes on top of the rocket.
pub open spec fn needs_match(stage: Stage, t: PartType) -> bool {
    !(stage == Stage::Decoration && t == PartType::TIP)
}

/// Whether catalog part `id` may be chosen at `stage`, below a connector of
/// width `bottom_width`, when at most `room` rows may be used.
pub open spec fn fits(stage: Stage, id: int, bottom_width: int, room: int) -> bool {
    &&& 0 <= id < PART_COUNT
    &&& stage_admits(stage, spec_part(id).type_)
    &&& needs_match(stage, spec_part(id).type_) ==> spec_part(id).top_width == bottom_width
    &&& spec_part(id).height <= room
}

/// Whether `ids` lists exactly the parts that fit, in increasing order.
pub open spec fn lists_fitting(ids: Seq<usize>, stage: Stage, bottom_width: int, room: int) -> bool {
    &&& forall|i: int| 0 <= i < ids.len() ==> fits(stage, ids[i] as int, bottom_width, room)
    &&& forall|id: int| fits(stage, id, bottom_width, room) ==> ids.contains(id as usize)
    &&& forall|i: int, j: int| 0 <= i < j < ids.len() ==> ids[i] < ids[j]
}

/// Whether parts of type `t` may be chosen at `stage`.
pub fn admits(stage: Stage, t: PartType) -> (r: bool)
    ensures
        r == stage_admits(stage, t),
{
    match stage {
        Stage::Nose => t == PartType::BODY,
        Stage::Body => t == PartType::BODY,
        Stage::Engine => t == PartType::ENGINE,
        Stage::Decoration => t == PartType::TIP || t == PartType::EXHAUST,
    }
}

/// Returns, in increasing order, the identifiers of every catalog part that
/// may be chosen at `stage` below a connector of width `bottom_width` within
/// `room` rows.
pub fn query(stage: Stage, bottom_width: usize, room: usize) -> (r: Vec<usize>)
    ensures
        lists_fitting(r@, stage, bottom_width as int, room as int),
        r.len() <= PART_COUNT,
{
    let mut r: Vec<usize> = Vec::new();
    let mut id: usize = 0;
    while id < PART_COUNT
        invariant
            id <= PART_COUNT,
            r.len() <= id,
            forall|i: int| 0 <= i < r.len() ==> fits(stage, r[i] as int, bottom_width as int, room as int),
            forall|i: int| 0 <= i < r.len() ==> r[i] < id,
            forall|k: int| 0 <= k < id && fits(stage, k, bottom_width as int, room as int) ==> r@.contains(k as usize),
            forall|i: int, j: int| 0 <= i < j < r.len() ==> r[i] < r[j],
        decreases PART_COUNT - id,
    {
        let p = part(id);
        let unmatched_tip = stage == Stage::Decoration && p.type_ == PartType::TIP;
        if admits(stage, p.type_) && (unmatched_tip || p.top_width == bottom_width) && p.height <= room {
            let ghost before = r@;
            r.push(id);
            proof {
                assert(r@[r.len() - 1] == id);
                assert forall|k: int| 0 <= k < id && fits(stage, k, bottom_width as int, room as int) implies r@.contains(k as usize) by {
                    assert(before.contains(k as usize));
                    let w = choose|w: int| 0 <= w < before.len() && before[w] == k as usize;
                    assert(r@[w] == k as usize);
                }
            }
        }
        id += 1;
    }
    r
}

} // verus!
