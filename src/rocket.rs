//! The rocket assembler: a five-stage constrained random walk over the catalog.

use vstd::prelude::*;
use crate::catalog::{part, query, spec_part, fits, lists_fitting, PartType, Stage, PART_COUNT};
use crate::chooser::{choose_part, random_in_range, Chooser, ThreadChooser};
use crate::render::{render_parts, spec_render, rocket_rows, max_row_width, padded_row};

verus! {

/// Why a rocket could not be built.
#[derive(PartialEq, Eq, Structural, Debug, Clone, Copy)]
pub enum BuildError {
    /// The requested height is below the minimum of three rows.
    Configuration,
    /// A structural stage found no part that fits the current connector and room.
    NoEligiblePart,
    /// The decoration stage found no part that fits the remaining height.
    UnsatisfiableHeight,
}

/// The smallest height a rocket can be built with.
pub const MIN_HEIGHT: usize = 3;

/// Lower end of the body-to-decoration ratio, in thousandths.
pub const RATIO_LOW: u64 = 200;

/// Upper (excluded) end of the body-to-decoration ratio, in thousandths.
pub const RATIO_HIGH: u64 = 400;

/// Height in rows of catalog part `id`.
pub open spec fn ph(id: usize) -> int {
    spec_part(id as int).height as int
}

/// Total height of a sequence of catalog parts.
pub open spec fn total_height(s: Seq<usize>) -> int
    decreases s.len(),
{
    if s.len() == 0 {
        0
    } else {
        total_height(s.drop_last()) + ph(s.last())
    }
}

/// Every identifier names a catalog part.
pub open spec fn all_in_catalog(s: Seq<usize>) -> bool {
    forall|i: int| 0 <= i < s.len() ==> s[i] < PART_COUNT
}

/// Each part's top connector matches the bottom connector of the part above it.
pub open spec fn connected(s: Seq<usize>) -> bool {
    forall|i: int|
        0 <= i < s.len() - 1 ==> #[trigger] spec_part(s[i + 1] as int).top_width == spec_part(
            s[i] as int,
        ).bottom_width
}

/// Catalog part `id` is a transition: a body part whose two connectors differ.
pub open spec fn is_transition(id: usize) -> bool {
    &&& spec_part(id as int).type_ == PartType::BODY
    &&& spec_part(id as int).top_width != spec_part(id as int).bottom_width
}

/// The part at index `k` is a nose cone (a transition out of width zero) and
/// every part above it is a tip.
pub open spec fn nose_at(s: Seq<usize>, k: int) -> bool {
    &&& 0 <= k < s.len()
    &&& is_transition(s[k])
    &&& spec_part(s[k] as int).top_width == 0
    &&& forall|i: int| 0 <= i < k ==> spec_part(s[i] as int).type_ == PartType::TIP
}

/// The part at index `e` is the one and only engine.
pub open spec fn sole_engine_at(s: Seq<usize>, e: int) -> bool {
    &&& 0 <= e < s.len()
    &&& spec_part(s[e] as int).type_ == PartType::ENGINE
    &&& forall|i: int|
        0 <= i < s.len() && i != e ==> spec_part(s[i] as int).type_ != PartType::ENGINE
}

/// A finished rocket of height `h`: catalog parts, connected top to bottom,
/// exactly `h` rows tall, tips over a nose cone, and exactly one engine.
pub open spec fn valid_rocket(s: Seq<usize>, h: int) -> bool {
    &&& all_in_catalog(s)
    &&& total_height(s) == h
    &&& connected(s)
    &&& exists|k: int| nose_at(s, k)
    &&& exists|e: int| sole_engine_at(s, e)
}

/// Whether the body stage goes on: more than two rows are left, and the rows
/// left, per row used, exceed `ratio_permille` thousandths.
pub open spec fn body_continues(remaining: int, used: int, ratio_permille: int) -> bool {
    remaining > 2 && remaining * 1000 > ratio_permille * used
}

/// Bottom connector width of catalog part `id`.
pub open spec fn pbw(id: usize) -> int {
    spec_part(id as int).bottom_width as int
}

/// Rows used by the nose at index `k` and the `j` body parts below it.
pub open spec fn used_after(s: Seq<usize>, k: int, j: int) -> int {
    total_height(s.subrange(k, k + 1 + j))
}

/// The `j`-th body part below the nose at `k` was chosen while the body stage
/// went on, among the body parts that fit below its predecessor and leave two
/// rows free.
pub open spec fn body_step(s: Seq<usize>, k: int, j: int, h: int, ratio_permille: int) -> bool {
    &&& body_continues(h - used_after(s, k, j), used_after(s, k, j), ratio_permille)
    &&& fits(Stage::Body, s[k + 1 + j] as int, pbw(s[k + j]), h - used_after(s, k, j) - 2)
}

/// `s` was assembled by the stages in order, for height `h`: tips at indices
/// below `k`; a nose at `k` that fits the zero-width top; `nb` body parts,
/// each added while the body stage went on; the body stage stopped after
/// them; an engine that fits below them in the rows left; exhaust below it.
pub open spec fn assembled(s: Seq<usize>, k: int, nb: int, h: int, ratio_permille: int) -> bool {
    &&& 0 <= k
    &&& 0 <= nb
    &&& k + 1 + nb < s.len()
    &&& fits(Stage::Nose, s[k] as int, 0, h)
    &&& forall|j: int| 0 <= j < nb ==> #[trigger] body_step(s, k, j, h, ratio_permille)
    &&& !body_continues(h - used_after(s, k, nb), used_after(s, k, nb), ratio_permille)
    &&& fits(Stage::Engine, s[k + 1 + nb] as int, pbw(s[k + nb]), h - used_after(s, k, nb))
    &&& forall|i: int| 0 <= i < k ==> spec_part(#[trigger] s[i] as int).type_ == PartType::TIP
    &&& forall|i: int|
        k + 1 + nb < i < s.len() ==> spec_part(#[trigger] s[i] as int).type_ == PartType::EXHAUST
}

/// `s` was assembled by the stages in order for height `h`, with tips and
/// body parts in some number.
pub open spec fn built_in_order(s: Seq<usize>, h: int, ratio_permille: int) -> bool {
    exists|k: int, nb: int| #[trigger] assembled(s, k, nb, h, ratio_permille)
}

/// `s` was assembled by the stages in order for height `h`, with a ratio in
/// `RATIO_LOW..RATIO_HIGH` thousandths.
pub open spec fn built_with_drawn_ratio(s: Seq<usize>, h: int) -> bool {
    exists|ratio_permille: int|
        RATIO_LOW <= ratio_permille < RATIO_HIGH && #[trigger] built_in_order(s, h, ratio_permille)
}

/// `id` is the lowest-numbered part that fits.
pub open spec fn first_fit(stage: Stage, id: int, bottom_width: int, room: int) -> bool {
    &&& fits(stage, id, bottom_width, room)
    &&& forall|o: int| 0 <= o < id ==> !fits(stage, o, bottom_width, room)
}

/// The `j`-th body part below the nose at `k` is the lowest-numbered body
/// part that fitted when it was chosen.
pub open spec fn body_first(s: Seq<usize>, k: int, j: int, h: int) -> bool {
    first_fit(Stage::Body, s[k + 1 + j] as int, pbw(s[k + j]), h - used_after(s, k, j) - 2)
}

/// `s` was assembled as by a source that always picks the first candidate:
/// each structural stage took the lowest-numbered part that fitted, and every
/// decoration is the one-row tip (part 0), since it fits whenever a row is left.
pub open spec fn assembled_first(s: Seq<usize>, k: int, nb: int, h: int, ratio_permille: int) -> bool {
    &&& assembled(s, k, nb, h, ratio_permille)
    &&& s.len() == k + 2 + nb
    &&& first_fit(Stage::Nose, s[k] as int, 0, h)
    &&& forall|j: int| 0 <= j < nb ==> #[trigger] body_first(s, k, j, h)
    &&& first_fit(Stage::Engine, s[k + 1 + nb] as int, pbw(s[k + nb]), h - used_after(s, k, nb))
    &&& forall|i: int| 0 <= i < k ==> #[trigger] s[i] == 0
}

/// `s` is what a source that always picks the first candidate builds for
/// height `h` and ratio `ratio_permille`.
pub open spec fn built_first(s: Seq<usize>, h: int, ratio_permille: int) -> bool {
    &&& total_height(s) == h
    &&& exists|k: int, nb: int| #[trigger] assembled_first(s, k, nb, h, ratio_permille)
}

proof fn lemma_first_of_list(ids: Seq<usize>, stage: Stage, bottom_width: int, room: int)
    requires
        lists_fitting(ids, stage, bottom_width, room),
        ids.len() > 0,
    ensures
        first_fit(stage, ids[0] as int, bottom_width, room),
{
    assert(fits(stage, ids[0] as int, bottom_width, room));
    assert forall|o: int| 0 <= o < ids[0] implies !fits(stage, o, bottom_width, room) by {
        if fits(stage, o, bottom_width, room) {
            assert(ids.contains(o as usize));
            let i = choose|i: int| 0 <= i < ids.len() && ids[i] == o as usize;
            if i > 0 {
                assert(ids[0] < ids[i]);
            }
        }
    }
}

proof fn lemma_first_prepend(s: Seq<usize>, k: int, nb: int, h: int, ratio_permille: int)
    requires
        assembled_first(s, k, nb, h, ratio_permille),
        spec_part(0).type_ == PartType::TIP,
    ensures
        assembled_first(seq![0usize] + s, k + 1, nb, h, ratio_permille),
{
    let s2 = seq![0usize] + s;
    lemma_assembled_prepend(s, k, nb, h, ratio_permille, 0);
    assert(s2[k + 1] == s[k]);
    assert(s2[k + 2 + nb] == s[k + 1 + nb]);
    assert(s2[k + 1 + nb] == s[k + nb]);
    assert forall|j: int| 0 <= j <= nb implies used_after(s2, k + 1, j) == used_after(s, k, j) by {
        assert(s2.subrange(k + 1, k + 2 + j) =~= s.subrange(k, k + 1 + j));
    }
    assert forall|j: int| 0 <= j < nb implies #[trigger] body_first(s2, k + 1, j, h) by {
        assert(body_first(s, k, j, h));
        assert(s2[k + 2 + j] == s[k + 1 + j]);
        assert(s2[k + 1 + j] == s[k + j]);
    }
    assert forall|i: int| 0 <= i < k + 1 implies #[trigger] s2[i] == 0 by {
        if i > 0 {
            assert(s2[i] == s[i - 1]);
        }
    }
}

proof fn lemma_body_first_push(s: Seq<usize>, h: int, x: usize)
    requires
        s.len() >= 1,
        forall|j: int| 0 <= j < s.len() - 1 ==> #[trigger] body_first(s, 0, j, h),
        first_fit(Stage::Body, x as int, pbw(s.last()), h - total_height(s) - 2),
    ensures
        forall|j: int| 0 <= j < s.len() ==> #[trigger] body_first(s.push(x), 0, j, h),
{
    let s2 = s.push(x);
    assert forall|j: int| 0 <= j < s.len() implies used_after(s2, 0, j) == used_after(s, 0, j) by {
        assert(s2.subrange(0, 1 + j) =~= s.subrange(0, 1 + j));
    }
    lemma_total_height_whole(s);
    assert forall|j: int| 0 <= j < s.len() implies #[trigger] body_first(s2, 0, j, h) by {
        if j < s.len() - 1 {
            assert(body_first(s, 0, j, h));
        }
    }
}

proof fn lemma_engine_first(s: Seq<usize>, h: int, ratio_permille: int, x: usize)
    requires
        s.len() >= 1,
        assembled(s.push(x), 0, s.len() - 1, h, ratio_permille),
        first_fit(Stage::Nose, s[0] as int, 0, h),
        forall|j: int| 0 <= j < s.len() - 1 ==> #[trigger] body_first(s, 0, j, h),
        first_fit(Stage::Engine, x as int, pbw(s.last()), h - total_height(s)),
    ensures
        assembled_first(s.push(x), 0, s.len() - 1, h, ratio_permille),
{
    let s2 = s.push(x);
    let nb = s.len() - 1;
    assert forall|j: int| 0 <= j <= nb implies used_after(s2, 0, j) == used_after(s, 0, j) by {
        assert(s2.subrange(0, 1 + j) =~= s.subrange(0, 1 + j));
    }
    lemma_total_height_whole(s);
    assert forall|j: int| 0 <= j < nb implies #[trigger] body_first(s2, 0, j, h) by {
        assert(body_first(s, 0, j, h));
    }
}

proof fn lemma_assembled_prepend(s: Seq<usize>, k: int, nb: int, h: int, ratio_permille: int, t: usize)
    requires
        assembled(s, k, nb, h, ratio_permille),
        spec_part(t as int).type_ == PartType::TIP,
    ensures
        assembled(seq![t] + s, k + 1, nb, h, ratio_permille),
{
    let s2 = seq![t] + s;
    assert forall|j: int| 0 <= j <= nb implies used_after(s2, k + 1, j) == used_after(s, k, j) by {
        assert(s2.subrange(k + 1, k + 2 + j) =~= s.subrange(k, k + 1 + j));
    }
    assert forall|j: int| 0 <= j < nb implies #[trigger] body_step(s2, k + 1, j, h, ratio_permille) by {
        assert(body_step(s, k, j, h, ratio_permille));
        assert(s2[k + 2 + j] == s[k + 1 + j]);
        assert(s2[k + 1 + j] == s[k + j]);
    }
    assert forall|i: int| 0 <= i < k + 1 implies spec_part(#[trigger] s2[i] as int).type_ == PartType::TIP by {
        if i > 0 {
            assert(s2[i] == s[i - 1]);
        }
    }
    assert forall|i: int| k + 2 + nb < i < s2.len() implies spec_part(#[trigger] s2[i] as int).type_
        == PartType::EXHAUST by {
        assert(s2[i] == s[i - 1]);
    }
}

proof fn lemma_assembled_append(s: Seq<usize>, k: int, nb: int, h: int, ratio_permille: int, x: usize)
    requires
        assembled(s, k, nb, h, ratio_permille),
        spec_part(x as int).type_ == PartType::EXHAUST,
    ensures
        assembled(s.push(x), k, nb, h, ratio_permille),
{
    let s2 = s.push(x);
    assert forall|j: int| 0 <= j <= nb implies used_after(s2, k, j) == used_after(s, k, j) by {
        assert(s2.subrange(k, k + 1 + j) =~= s.subrange(k, k + 1 + j));
    }
    assert forall|j: int| 0 <= j < nb implies #[trigger] body_step(s2, k, j, h, ratio_permille) by {
        assert(body_step(s, k, j, h, ratio_permille));
    }
    assert forall|i: int| 0 <= i < k implies spec_part(#[trigger] s2[i] as int).type_ == PartType::TIP by {
        assert(s2[i] == s[i]);
    }
    assert forall|i: int| k + 1 + nb < i < s2.len() implies spec_part(#[trigger] s2[i] as int).type_
        == PartType::EXHAUST by {
        if i < s.len() {
            assert(s2[i] == s[i]);
        }
    }
}

proof fn lemma_body_push(s: Seq<usize>, h: int, ratio_permille: int, x: usize)
    requires
        s.len() >= 1,
        forall|j: int| 0 <= j < s.len() - 1 ==> #[trigger] body_step(s, 0, j, h, ratio_permille),
        body_continues(h - total_height(s), total_height(s), ratio_permille),
        fits(Stage::Body, x as int, pbw(s.last()), h - total_height(s) - 2),
    ensures
        forall|j: int| 0 <= j < s.len() ==> #[trigger] body_step(s.push(x), 0, j, h, ratio_permille),
{
    let s2 = s.push(x);
    assert forall|j: int| 0 <= j < s.len() implies used_after(s2, 0, j) == used_after(s, 0, j) by {
        assert(s2.subrange(0, 1 + j) =~= s.subrange(0, 1 + j));
    }
    lemma_total_height_whole(s);
    assert forall|j: int| 0 <= j < s.len() implies #[trigger] body_step(s2, 0, j, h, ratio_permille) by {
        if j < s.len() - 1 {
            assert(body_step(s, 0, j, h, ratio_permille));
        }
    }
}

proof fn lemma_engine_assembled(s: Seq<usize>, h: int, ratio_permille: int, x: usize)
    requires
        s.len() >= 1,
        fits(Stage::Nose, s[0] as int, 0, h),
        forall|j: int| 0 <= j < s.len() - 1 ==> #[trigger] body_step(s, 0, j, h, ratio_permille),
        !body_continues(h - total_height(s), total_height(s), ratio_permille),
        fits(Stage::Engine, x as int, pbw(s.last()), h - total_height(s)),
    ensures
        assembled(s.push(x), 0, s.len() - 1, h, ratio_permille),
{
    let s2 = s.push(x);
    let nb = s.len() - 1;
    assert forall|j: int| 0 <= j <= nb implies used_after(s2, 0, j) == used_after(s, 0, j) by {
        assert(s2.subrange(0, 1 + j) =~= s.subrange(0, 1 + j));
    }
    lemma_total_height_whole(s);
    assert forall|j: int| 0 <= j < nb implies #[trigger] body_step(s2, 0, j, h, ratio_permille) by {
        assert(body_step(s, 0, j, h, ratio_permille));
    }
}

proof fn lemma_total_height_whole(s: Seq<usize>)
    ensures
        total_height(s.subrange(0, s.len() as int)) == total_height(s),
{
    assert(s.subrange(0, s.len() as int) =~= s);
}

/// A generated rocket: an ordered list of catalog part identifiers, top to bottom.
pub struct Rocket {
    max_height: usize,
    sections: Vec<usize>,
    height: usize,
    bottom_width: usize,
}

impl Rocket {
    /// Identifiers of the rocket's parts, top to bottom.
    pub closed spec fn spec_sections(&self) -> Seq<usize> {
        self.sections@
    }

    /// The height the rocket was built to.
    pub closed spec fn spec_max_height(&self) -> usize {
        self.max_height
    }

    /// The height the rocket was built to.
    pub fn max_height(&self) -> (r: usize)
        ensures
            r == self.spec_max_height(),
    {
        self.max_height
    }

    /// The cached height and bottom connector agree with the sections, and the
    /// height stays within the budget.
    pub closed spec fn consistent(&self) -> bool {
        &&& all_in_catalog(self.sections@)
        &&& self.height as int == total_height(self.sections@)
        &&& self.height <= self.max_height
        &&& self.sections@.len() > 0 ==> self.bottom_width == spec_part(
            self.sections@.last() as int,
        ).bottom_width
        &&& connected(self.sections@)
    }

    /// A finished, valid rocket.
    pub open spec fn wf(&self) -> bool {
        &&& self.consistent()
        &&& valid_rocket(self.spec_sections(), self.spec_max_height() as int)
    }

    /// Identifiers of the rocket's parts, top to bottom.
    pub fn sections(&self) -> (r: Vec<usize>)
        ensures
            r@ == self.spec_sections(),
    {
        self.sections.clone()
    }

    /// Rows still available below the budget.
    fn part_height_remaining(&self) -> (r: usize)
        requires
            self.height <= self.max_height,
        ensures
            r == self.max_height - self.height,
    {
        self.max_height - self.height
    }

    /// Adds catalog part `id` at the bottom.
    fn append_section(&mut self, id: usize)
        requires
            old(self).consistent(),
            id < PART_COUNT,
            old(self).height + ph(id) <= old(self).max_height,
            old(self).sections@.len() > 0 ==> spec_part(id as int).top_width == old(self).bottom_width,
        ensures
            final(self).consistent(),
            final(self).sections@ == old(self).sections@.push(id),
            final(self).max_height == old(self).max_height,
            final(self).height == old(self).height + ph(id),
            final(self).bottom_width == spec_part(id as int).bottom_width,
    {
        let p = part(id);
        let ghost before = self.sections@;
        self.sections.push(id);
        assert(self.sections@.drop_last() =~= before);
        self.height = self.height + p.height;
        self.bottom_width = p.bottom_width;
    }

    /// Adds catalog part `id` at the top; its bottom connector must fit the
    /// current top part.
    fn prepend_section(&mut self, id: usize)
        requires
            old(self).consistent(),
            id < PART_COUNT,
            old(self).height + ph(id) <= old(self).max_height,
            old(self).sections@.len() > 0,
            spec_part(id as int).bottom_width == spec_part(old(self).sections@[0] as int).top_width,
        ensures
            final(self).consistent(),
            final(self).sections@ == seq![id] + old(self).sections@,
            final(self).max_height == old(self).max_height,
            final(self).height == old(self).height + ph(id),
            final(self).bottom_width == old(self).bottom_width,
    {
        let p = part(id);
        let ghost before = self.sections@;
        self.sections.insert(0, id);
        assert(self.sections@ =~= seq![id] + before);
        proof {
            lemma_total_height_prepend(id, before);
            assert forall|i: int| 0 <= i < self.sections@.len() - 1 implies #[trigger] spec_part(
                self.sections@[i + 1] as int,
            ).top_width == spec_part(self.sections@[i] as int).bottom_width by {
                if i > 0 {
                    assert(self.sections@[i] == before[i - 1]);
                    assert(self.sections@[i + 1] == before[(i - 1) + 1]);
                }
            }
        }
        self.height = self.height + p.height;
    }
}

proof fn lemma_total_height_prepend(id: usize, s: Seq<usize>)
    ensures
        total_height(seq![id] + s) == ph(id) + total_height(s),
    decreases s.len(),
{
    if s.len() > 0 {
        assert((seq![id] + s).drop_last() =~= seq![id] + s.drop_last());
        assert((seq![id] + s).last() == s.last());
        lemma_total_height_prepend(id, s.drop_last());
    } else {
        assert((seq![id] + s).drop_last() =~= Seq::<usize>::empty());
        assert((seq![id] + s).last() == id);
        assert(total_height(Seq::<usize>::empty()) == 0);
    }
}

/// Facts about the catalog that keep every stage supplied with a candidate.
proof fn lemma_catalog()
    ensures
        forall|id: int|
            0 <= id < PART_COUNT ==> 1 <= #[trigger] spec_part(id).height && spec_part(id).height
                <= 2,
        forall|id: int|
            0 <= id < PART_COUNT && #[trigger] spec_part(id).type_ == PartType::BODY ==> (
            spec_part(id).bottom_width == 1 || spec_part(id).bottom_width == 3),
        forall|id: int|
            0 <= id < PART_COUNT && #[trigger] spec_part(id).type_ == PartType::BODY
                && spec_part(id).top_width == 0 ==> is_transition(id as usize),
        forall|id: int|
            0 <= id < PART_COUNT && #[trigger] spec_part(id).type_ == PartType::ENGINE ==> (
            spec_part(id).bottom_width == 0 || spec_part(id).bottom_width == 1),
        forall|id: int|
            0 <= id < PART_COUNT && #[trigger] spec_part(id).type_ == PartType::EXHAUST
                ==> spec_part(id).bottom_width == 0,
        forall|id: int|
            0 <= id < PART_COUNT && #[trigger] spec_part(id).type_ == PartType::TIP ==> spec_part(
                id,
            ).bottom_width == 0 && spec_part(id).top_width == 0,
{
}

proof fn lemma_chosen_fits(ids: Seq<usize>, stage: Stage, bottom_width: int, room: int, id: usize)
    requires
        lists_fitting(ids, stage, bottom_width, room),
        ids.contains(id),
    ensures
        fits(stage, id as int, bottom_width, room),
{
    let i = choose|i: int| 0 <= i < ids.len() && ids[i] == id;
    assert(fits(stage, ids[i] as int, bottom_width, room));
}

impl Rocket {
    /// Builds a rocket exactly `max_height` rows tall, drawing every choice
    /// from `chooser`. Body parts keep being added while the rows left, per
    /// row already used, exceed `ratio_permille` thousandths.
    pub fn build_with<C: Chooser>(max_height: usize, ratio_permille: u64, chooser: &mut C) -> (r: Result<Rocket, BuildError>)
        ensures
            r is Err <==> max_height < MIN_HEIGHT,
            r matches Err(e) ==> e == BuildError::Configuration,
            r matches Ok(rocket) ==> rocket.wf() && rocket.spec_max_height() == max_height,
            r matches Ok(rocket) ==> built_in_order(rocket.spec_sections(), max_height as int, ratio_permille as int),
            r matches Ok(rocket) ==> (old(chooser).always_first() ==> built_first(
                rocket.spec_sections(),
                max_height as int,
                ratio_permille as int,
            )),
    {
        let ghost first = chooser.always_first();
        if max_height < MIN_HEIGHT {
            return Err(BuildError::Configuration);
        }
        let mut rocket = Rocket { max_height, sections: Vec::new(), height: 0, bottom_width: 0 };
        proof {
            lemma_catalog();
        }

        // Nose cone.
        let room = rocket.part_height_remaining();
        let candidates = query(Stage::Nose, rocket.bottom_width, room);
        // The one-row cone "/'\" fits every budget.
        assert(fits(Stage::Nose, 2, 0, room as int));
        let nose = match choose_part(&candidates, chooser) {
            Ok(id) => id,
            Err(_) => {
                return Err(BuildError::NoEligiblePart);
            },
        };
        proof {
            lemma_chosen_fits(candidates@, Stage::Nose, 0, room as int, nose);
            if first {
                lemma_first_of_list(candidates@, Stage::Nose, 0, room as int);
            }
        }
        rocket.append_section(nose);
        assert(nose_at(rocket.sections@, 0));

        // Body segments and transitions.
        loop
            invariant
                rocket.consistent(),
                rocket.max_height == max_height,
                rocket.sections@.len() >= 1,
                rocket.height < max_height,
                rocket.bottom_width == 1 || rocket.bottom_width == 3,
                nose_at(rocket.sections@, 0),
                forall|i: int|
                    0 <= i < rocket.sections@.len() ==> spec_part(#[trigger] rocket.sections@[i] as int).type_
                        == PartType::BODY,
                fits(Stage::Nose, rocket.sections@[0] as int, 0, max_height as int),
                chooser.always_first() == first,
                first ==> first_fit(Stage::Nose, rocket.sections@[0] as int, 0, max_height as int),
                first ==> forall|j: int|
                    0 <= j < rocket.sections@.len() - 1 ==> #[trigger] body_first(
                        rocket.sections@,
                        0,
                        j,
                        max_height as int,
                    ),
                forall|j: int|
                    0 <= j < rocket.sections@.len() - 1 ==> #[trigger] body_step(
                        rocket.sections@,
                        0,
                        j,
                        max_height as int,
                        ratio_permille as int,
                    ),
            ensures
                !body_continues(
                    max_height - rocket.height,
                    rocket.height as int,
                    ratio_permille as int,
                ),
            decreases max_height - rocket.height,
        {
            let remaining = rocket.part_height_remaining();
            if remaining <= 2 {
                break;
            }
            let used = rocket.height;
            assert((used as u128) <= 0xffff_ffff_ffff_ffffu128);
            assert((ratio_permille as u128) * (used as u128) <= 0xffff_ffff_ffff_ffffu128 * 0xffff_ffff_ffff_ffffu128) by (nonlinear_arith)
                requires
                    (ratio_permille as u128) <= 0xffff_ffff_ffff_ffffu128,
                    (used as u128) <= 0xffff_ffff_ffff_ffffu128,
            ;
            if (remaining as u128) * 1000 <= (ratio_permille as u128) * (used as u128) {
                break;
            }
            let room = remaining - 2;
            let bottom = rocket.bottom_width;
            let candidates = query(Stage::Body, bottom, room);
            // One-row plain segments exist for both body widths.
            if bottom == 1 {
                assert(fits(Stage::Body, 10, 1, room as int));
            } else {
                assert(fits(Stage::Body, 13, 3, room as int));
            }
            let next = match choose_part(&candidates, chooser) {
                Ok(id) => id,
                Err(_) => {
                    return Err(BuildError::NoEligiblePart);
                },
            };
            proof {
                lemma_chosen_fits(candidates@, Stage::Body, bottom as int, room as int, next);
            }
            let ghost before = rocket.sections@;
            proof {
                lemma_body_push(before, max_height as int, ratio_permille as int, next);
                if first {
                    lemma_first_of_list(candidates@, Stage::Body, bottom as int, room as int);
                    lemma_body_first_push(before, max_height as int, next);
                }
            }
            rocket.append_section(next);
            assert(rocket.sections@[0] == before[0]);
        }

        // Engine.
        let room = rocket.part_height_remaining();
        let bottom = rocket.bottom_width;
        let candidates = query(Stage::Engine, bottom, room);
        // A one-row engine exists for both body widths.
        if bottom == 1 {
            assert(fits(Stage::Engine, 17, 1, room as int));
        } else {
            assert(fits(Stage::Engine, 18, 3, room as int));
        }
        let engine = match choose_part(&candidates, chooser) {
            Ok(id) => id,
            Err(_) => {
                return Err(BuildError::NoEligiblePart);
            },
        };
        proof {
            lemma_chosen_fits(candidates@, Stage::Engine, bottom as int, room as int, engine);
            if first {
                lemma_first_of_list(candidates@, Stage::Engine, bottom as int, room as int);
            }
        }
        let ghost before = rocket.sections@;
        rocket.append_section(engine);
        let ghost mut nose_k: int = 0;
        let ghost mut engine_e: int = before.len() as int;
        let ghost nb: int = before.len() - 1;
        assert(rocket.sections@[0] == before[0]);
        assert(sole_engine_at(rocket.sections@, engine_e));
        proof {
            lemma_engine_assembled(before, max_height as int, ratio_permille as int, engine);
            if first {
                lemma_engine_first(before, max_height as int, ratio_permille as int, engine);
            }
        }

        // Decorations: tips above, exhaust below.
        while rocket.part_height_remaining() > 0
            invariant
                rocket.consistent(),
                rocket.max_height == max_height,
                rocket.sections@.len() >= 1,
                rocket.bottom_width == 0 || rocket.bottom_width == 1,
                nose_at(rocket.sections@, nose_k),
                sole_engine_at(rocket.sections@, engine_e),
                assembled(rocket.sections@, nose_k, nb, max_height as int, ratio_permille as int),
                chooser.always_first() == first,
                first ==> assembled_first(rocket.sections@, nose_k, nb, max_height as int, ratio_permille as int),
            decreases max_height - rocket.height,
        {
            let room = rocket.part_height_remaining();
            let bottom = rocket.bottom_width;
            let candidates = query(Stage::Decoration, bottom, room);
            // The one-row tip fits whenever a row is left.
            assert(fits(Stage::Decoration, 0, bottom as int, room as int));
            let deco = match choose_part(&candidates, chooser) {
                Ok(id) => id,
                Err(_) => {
                    return Err(BuildError::UnsatisfiableHeight);
                },
            };
            proof {
                lemma_chosen_fits(candidates@, Stage::Decoration, bottom as int, room as int, deco);
                if first {
                    lemma_first_of_list(candidates@, Stage::Decoration, bottom as int, room as int);
                    assert(fits(Stage::Decoration, 0, bottom as int, room as int));
                    assert(deco == 0);
                }
            }
            let p = part(deco);
            let ghost before = rocket.sections@;
            if p.type_ == PartType::TIP {
                assert(spec_part(before[0] as int).top_width == 0) by {
                    if nose_k > 0 {
                        assert(spec_part(before[0] as int).type_ == PartType::TIP);
                    }
                }
                proof {
                    lemma_assembled_prepend(before, nose_k, nb, max_height as int, ratio_permille as int, deco);
                    if first {
                        lemma_first_prepend(before, nose_k, nb, max_height as int, ratio_permille as int);
                    }
                }
                rocket.prepend_section(deco);
                proof {
                    nose_k = nose_k + 1;
                    engine_e = engine_e + 1;
                    assert forall|i: int| 0 <= i < rocket.sections@.len() && i > 0 implies rocket.sections@[i] == before[i - 1] by {}
                    assert(nose_at(rocket.sections@, nose_k));
                    assert(sole_engine_at(rocket.sections@, engine_e));
                }
            } else {
                proof {
                    lemma_assembled_append(before, nose_k, nb, max_height as int, ratio_permille as int, deco);
                }
                rocket.append_section(deco);
                proof {
                    assert forall|i: int| 0 <= i < before.len() implies rocket.sections@[i] == before[i] by {}
                    assert(nose_at(rocket.sections@, nose_k));
                    assert(sole_engine_at(rocket.sections@, engine_e));
                }
            }
        }
        assert(nose_at(rocket.sections@, nose_k));
        assert(sole_engine_at(rocket.sections@, engine_e));
        assert(assembled(rocket.spec_sections(), nose_k, nb, max_height as int, ratio_permille as int));
        assert(built_in_order(rocket.spec_sections(), max_height as int, ratio_permille as int));
        proof {
            if first {
                assert(assembled_first(rocket.spec_sections(), nose_k, nb, max_height as int, ratio_permille as int));
                assert(built_first(rocket.spec_sections(), max_height as int, ratio_permille as int));
            }
        }
        Ok(rocket)
    }
}

impl Rocket {
    /// Builds a rocket exactly `max_height` rows tall from the thread-local
    /// random generator, with a body-to-decoration ratio drawn uniformly from
    /// `RATIO_LOW..RATIO_HIGH` thousandths.
    pub fn new(max_height: usize) -> (r: Result<Rocket, BuildError>)
        ensures
            r is Err <==> max_height < MIN_HEIGHT,
            r matches Err(e) ==> e == BuildError::Configuration,
            r matches Ok(rocket) ==> rocket.wf() && rocket.spec_max_height() == max_height,
            r matches Ok(rocket) ==> built_with_drawn_ratio(rocket.spec_sections(), max_height as int),
    {
        if max_height < MIN_HEIGHT {
            return Err(BuildError::Configuration);
        }
        let ratio_permille = random_in_range(RATIO_LOW, RATIO_HIGH);
        let mut chooser = ThreadChooser;
        let r = Rocket::build_with(max_height, ratio_permille, &mut chooser);
        proof {
            if r is Ok {
                assert(RATIO_LOW <= ratio_permille < RATIO_HIGH
                    && built_in_order(r->Ok_0.spec_sections(), max_height as int, ratio_permille as int));
            }
        }
        r
    }

    /// The rocket as text: every row of every part, top to bottom, centred
    /// within the widest row and ended by a line break.
    pub fn render(&self) -> (r: String)
        requires
            self.wf(),
        ensures
            r@ == spec_render(self.spec_sections()),
    {
        render_parts(&self.sections)
    }
}

/// Rendering depends on nothing but the parts: two rockets with the same
/// parts, or one rocket rendered twice, give the same text.
pub proof fn render_depends_only_on_parts(a: &Rocket, b: &Rocket)
    requires
        a.spec_sections() == b.spec_sections(),
    ensures
        spec_render(a.spec_sections()) == spec_render(b.spec_sections()),
{
}

/// Every printed row, padding included, is at most as wide as the widest row
/// of the rocket, and exactly as wide when its own slack is at most one
/// column (the padding goes on the left only).
pub proof fn printed_row_width(s: Seq<usize>, i: int)
    requires
        0 <= i < rocket_rows(s).len(),
    ensures
        padded_row(rocket_rows(s)[i], max_row_width(rocket_rows(s))).len() <= max_row_width(
            rocket_rows(s),
        ),
        max_row_width(rocket_rows(s)) - rocket_rows(s)[i].len() <= 1 ==> padded_row(
            rocket_rows(s)[i],
            max_row_width(rocket_rows(s)),
        ).len() == max_row_width(rocket_rows(s)),
{
    crate::render::lemma_widest_bounds(rocket_rows(s), i);
}

/// When no row of a rocket is more than one column narrower than its widest
/// row, every printed row is exactly as wide as the widest row.
pub proof fn printed_rows_full_width(s: Seq<usize>)
    requires
        forall|i: int|
            0 <= i < rocket_rows(s).len() ==> max_row_width(rocket_rows(s)) - #[trigger] rocket_rows(
                s,
            )[i].len() <= 1,
    ensures
        forall|i: int|
            0 <= i < rocket_rows(s).len() ==> #[trigger] padded_row(
                rocket_rows(s)[i],
                max_row_width(rocket_rows(s)),
            ).len() == max_row_width(rocket_rows(s)),
{
    assert forall|i: int| 0 <= i < rocket_rows(s).len() implies #[trigger] padded_row(
        rocket_rows(s)[i],
        max_row_width(rocket_rows(s)),
    ).len() == max_row_width(rocket_rows(s)) by {
        printed_row_width(s, i);
    }
}

proof fn lemma_first_unique(stage: Stage, a: int, b: int, bottom_width: int, room: int)
    requires
        first_fit(stage, a, bottom_width, room),
        first_fit(stage, b, bottom_width, room),
    ensures
        a == b,
{
}

proof fn lemma_total_concat(a: Seq<usize>, b: Seq<usize>)
    ensures
        total_height(a + b) == total_height(a) + total_height(b),
    decreases b.len(),
{
    if b.len() == 0 {
        assert(a + b =~= a);
    } else {
        assert((a + b).drop_last() =~= a + b.drop_last());
        assert((a + b).last() == b.last());
        lemma_total_concat(a, b.drop_last());
    }
}

proof fn lemma_total_one_row_tips(a: Seq<usize>)
    requires
        forall|i: int| 0 <= i < a.len() ==> #[trigger] a[i] == 0,
    ensures
        total_height(a) == a.len(),
    decreases a.len(),
{
    if a.len() > 0 {
        lemma_total_one_row_tips(a.drop_last());
    }
}

proof fn lemma_first_prefix(
    s1: Seq<usize>,
    k1: int,
    nb1: int,
    s2: Seq<usize>,
    k2: int,
    nb2: int,
    h: int,
    ratio_permille: int,
    j: int,
)
    requires
        assembled_first(s1, k1, nb1, h, ratio_permille),
        assembled_first(s2, k2, nb2, h, ratio_permille),
        0 <= j <= nb1,
        j <= nb2,
    ensures
        s1.subrange(k1, k1 + 1 + j) == s2.subrange(k2, k2 + 1 + j),
    decreases j,
{
    if j == 0 {
        lemma_first_unique(Stage::Nose, s1[k1] as int, s2[k2] as int, 0, h);
        assert(s1.subrange(k1, k1 + 1) =~= s2.subrange(k2, k2 + 1));
    } else {
        lemma_first_prefix(s1, k1, nb1, s2, k2, nb2, h, ratio_permille, j - 1);
        assert(body_first(s1, k1, j - 1, h));
        assert(body_first(s2, k2, j - 1, h));
        assert(s1[k1 + j - 1] == s1.subrange(k1, k1 + j)[j - 1]);
        assert(s2[k2 + j - 1] == s2.subrange(k2, k2 + j)[j - 1]);
        lemma_first_unique(
            Stage::Body,
            s1[k1 + j] as int,
            s2[k2 + j] as int,
            pbw(s1[k1 + j - 1]),
            h - used_after(s1, k1, j - 1) - 2,
        );
        assert(s1.subrange(k1, k1 + 1 + j) =~= s1.subrange(k1, k1 + j).push(s1[k1 + j]));
        assert(s2.subrange(k2, k2 + 1 + j) =~= s2.subrange(k2, k2 + j).push(s2[k2 + j]));
    }
}

/// A source that always picks the first candidate builds one rocket only for
/// a given height and ratio: two such builds give the same parts.
pub proof fn first_choice_build_is_unique(s1: Seq<usize>, s2: Seq<usize>, h: int, ratio_permille: int)
    requires
        built_first(s1, h, ratio_permille),
        built_first(s2, h, ratio_permille),
    ensures
        s1 == s2,
{
    let (k1, nb1) = choose|k: int, nb: int| #[trigger] assembled_first(s1, k, nb, h, ratio_permille);
    let (k2, nb2) = choose|k: int, nb: int| #[trigger] assembled_first(s2, k, nb, h, ratio_permille);
    if nb1 < nb2 {
        lemma_first_prefix(s1, k1, nb1, s2, k2, nb2, h, ratio_permille, nb1);
        assert(body_step(s2, k2, nb1, h, ratio_permille));
    }
    if nb2 < nb1 {
        lemma_first_prefix(s1, k1, nb1, s2, k2, nb2, h, ratio_permille, nb2);
        assert(body_step(s1, k1, nb2, h, ratio_permille));
    }
    assert(nb1 == nb2);
    let nb = nb1;
    lemma_first_prefix(s1, k1, nb1, s2, k2, nb2, h, ratio_permille, nb);
    assert(s1[k1 + nb] == s1.subrange(k1, k1 + 1 + nb)[nb]);
    assert(s2[k2 + nb] == s2.subrange(k2, k2 + 1 + nb)[nb]);
    lemma_first_unique(
        Stage::Engine,
        s1[k1 + 1 + nb] as int,
        s2[k2 + 1 + nb] as int,
        pbw(s1[k1 + nb]),
        h - used_after(s1, k1, nb),
    );
    let c1 = s1.subrange(k1, s1.len() as int);
    let c2 = s2.subrange(k2, s2.len() as int);
    assert(c1 =~= s1.subrange(k1, k1 + 1 + nb).push(s1[k1 + 1 + nb]));
    assert(c2 =~= s2.subrange(k2, k2 + 1 + nb).push(s2[k2 + 1 + nb]));
    assert(c1 == c2);
    let t1 = s1.subrange(0, k1);
    let t2 = s2.subrange(0, k2);
    assert(s1 =~= t1 + c1);
    assert(s2 =~= t2 + c2);
    lemma_total_concat(t1, c1);
    lemma_total_concat(t2, c2);
    assert forall|i: int| 0 <= i < t1.len() implies #[trigger] t1[i] == 0 by {
        assert(s1[i] == 0);
    }
    assert forall|i: int| 0 <= i < t2.len() implies #[trigger] t2[i] == 0 by {
        assert(s2[i] == 0);
    }
    lemma_total_one_row_tips(t1);
    lemma_total_one_row_tips(t2);
    assert(t1 =~= t2);
}

} // verus!
