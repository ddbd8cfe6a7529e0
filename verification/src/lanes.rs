//! Lane layouts and the bike-lane retrofit.
//!
//! A road's cross-section is an ordered sequence of lanes, left to right.
//! The retrofit walks that sequence once and replaces every parking lane
//! with a bike lane — preceded or followed by a physical buffer when a
//! buffer style is chosen, placed on the side facing the replaced lane's
//! traffic direction. All other lanes pass through unchanged, in order.

use vstd::prelude::*;

verus! {

/// A lane's direction of travel relative to the road's canonical
/// orientation.
#[derive(Clone, Copy, PartialEq, Eq, Structural, Debug)]
pub enum Direction {
    Fwd,
    Back,
}

/// Physical protection placed between a bike lane and moving traffic.
#[derive(Clone, Copy, PartialEq, Eq, Structural, Debug)]
pub enum BufferType {
    Stripes,
    FlexPosts,
    Planters,
}

/// What a lane is used for.
#[derive(Clone, Copy, PartialEq, Eq, Structural, Debug)]
pub enum LaneType {
    Driving,
    Parking,
    Biking,
    Sidewalk,
    Buffer(BufferType),
}

/// One lane of a road: its use, its direction, and its width in
/// centimeters.
#[derive(Clone, Copy, PartialEq, Eq, Structural, Debug)]
pub struct LaneSpec {
    pub lt: LaneType,
    pub dir: Direction,
    pub width: u64,
}

/// The standard width, in centimeters, given to a lane of the given type
/// when the retrofit creates it.
pub open spec fn standard_width_spec(lt: LaneType) -> u64 {
    match lt {
        LaneType::Driving => 300,
        LaneType::Parking => 240,
        LaneType::Biking => 150,
        LaneType::Sidewalk => 180,
        LaneType::Buffer(style) => match style {
            BufferType::Stripes => 50,
            BufferType::FlexPosts => 50,
            BufferType::Planters => 200,
        },
    }
}

/// Look up the standard width for a lane type.
pub fn standard_width(lt: LaneType) -> (w: u64)
    ensures
        w == standard_width_spec(lt),
{
    match lt {
        LaneType::Driving => 300,
        LaneType::Parking => 240,
        LaneType::Biking => 150,
        LaneType::Sidewalk => 180,
        LaneType::Buffer(style) => match style {
            BufferType::Stripes => 50,
            BufferType::FlexPosts => 50,
            BufferType::Planters => 200,
        },
    }
}

/// The bike lane that replaces a parking lane travelling in `dir`.
pub open spec fn bike_lane(dir: Direction) -> LaneSpec {
    LaneSpec { lt: LaneType::Biking, dir, width: standard_width_spec(LaneType::Biking) }
}

/// The buffer lane of the given style that shields a new bike lane
/// travelling in `dir`.
pub open spec fn buffer_lane(style: BufferType, dir: Direction) -> LaneSpec {
    LaneSpec {
        lt: LaneType::Buffer(style),
        dir,
        width: standard_width_spec(LaneType::Buffer(style)),
    }
}

/// What one lane of the old cross-section becomes: a non-parking lane is
/// kept as it is; a parking lane becomes a bike lane, preceded by a buffer
/// when the lane points Forward and followed by one when it points
/// Backward, so the buffer always sits on the traffic side.
pub open spec fn replacement_spec(lane: LaneSpec, buffer_style: Option<BufferType>) -> Seq<
    LaneSpec,
> {
    if lane.lt != LaneType::Parking {
        seq![lane]
    } else {
        match buffer_style {
            Option::None => seq![bike_lane(lane.dir)],
            Option::Some(style) => if lane.dir == Direction::Fwd {
                seq![buffer_lane(style, lane.dir), bike_lane(lane.dir)]
            } else {
                seq![bike_lane(lane.dir), buffer_lane(style, lane.dir)]
            },
        }
    }
}

/// The retrofitted cross-section: each lane's replacement, concatenated in
/// the original left-to-right order.
pub open spec fn retrofit_spec(lanes: Seq<LaneSpec>, buffer_style: Option<BufferType>) -> Seq<
    LaneSpec,
>
    decreases lanes.len(),
{
    if lanes.len() == 0 {
        Seq::empty()
    } else {
        replacement_spec(lanes[0], buffer_style) + retrofit_spec(lanes.drop_first(), buffer_style)
    }
}

proof fn lemma_retrofit_push(lanes: Seq<LaneSpec>, buffer_style: Option<BufferType>, lane: LaneSpec)
    ensures
        retrofit_spec(lanes.push(lane), buffer_style) == retrofit_spec(lanes, buffer_style)
            + replacement_spec(lane, buffer_style),
    decreases lanes.len(),
{
    if lanes.len() == 0 {
        assert(lanes.push(lane).drop_first() =~= lanes);
        assert(retrofit_spec(lanes.push(lane), buffer_style) =~= retrofit_spec(lanes, buffer_style)
            + replacement_spec(lane, buffer_style));
    } else {
        assert(lanes.push(lane).drop_first() =~= lanes.drop_first().push(lane));
        lemma_retrofit_push(lanes.drop_first(), buffer_style, lane);
        assert(retrofit_spec(lanes.push(lane), buffer_style) =~= retrofit_spec(lanes, buffer_style)
            + replacement_spec(lane, buffer_style));
    }
}

proof fn lemma_retrofit_concat(a: Seq<LaneSpec>, b: Seq<LaneSpec>, buffer_style: Option<BufferType>)
    ensures
        retrofit_spec(a + b, buffer_style) == retrofit_spec(a, buffer_style) + retrofit_spec(
            b,
            buffer_style,
        ),
    decreases a.len(),
{
    if a.len() == 0 {
        assert(a + b =~= b);
        assert(retrofit_spec(a, buffer_style) + retrofit_spec(b, buffer_style) =~= retrofit_spec(
            b,
            buffer_style,
        ));
    } else {
        assert((a + b).drop_first() =~= a.drop_first() + b);
        lemma_retrofit_concat(a.drop_first(), b, buffer_style);
        assert(retrofit_spec(a + b, buffer_style) =~= retrofit_spec(a, buffer_style)
            + retrofit_spec(b, buffer_style));
    }
}

/// A cross-section with no parking lane comes back from the retrofit
/// exactly as it went in, whatever the buffer style.
pub proof fn lemma_retrofit_no_parking(lanes: Seq<LaneSpec>, buffer_style: Option<BufferType>)
    requires
        forall|i: int| 0 <= i < lanes.len() ==> lanes[i].lt != LaneType::Parking,
    ensures
        retrofit_spec(lanes, buffer_style) == lanes,
    decreases lanes.len(),
{
    if lanes.len() == 0 {
        assert(retrofit_spec(lanes, buffer_style) =~= lanes);
    } else {
        assert forall|i: int| 0 <= i < lanes.drop_first().len() implies lanes.drop_first()[i].lt
            != LaneType::Parking by {
            assert(lanes.drop_first()[i] == lanes[i + 1]);
        }
        lemma_retrofit_no_parking(lanes.drop_first(), buffer_style);
        assert(retrofit_spec(lanes, buffer_style) =~= lanes);
    }
}

/// With a buffer style chosen, a cross-section whose only parking lane
/// points Forward has exactly that lane replaced by a buffer lane followed
/// by a bike lane, both Forward and of standard width; every other lane
/// keeps its place and order.
pub proof fn lemma_retrofit_single_parking_fwd(lanes: Seq<LaneSpec>, style: BufferType, i: int)
    requires
        0 <= i < lanes.len(),
        lanes[i].lt == LaneType::Parking,
        lanes[i].dir == Direction::Fwd,
        forall|j: int| 0 <= j < lanes.len() && j != i ==> lanes[j].lt != LaneType::Parking,
    ensures
        retrofit_spec(lanes, Option::Some(style)) == lanes.subrange(0, i) + seq![
            buffer_lane(style, Direction::Fwd),
            bike_lane(Direction::Fwd),
        ] + lanes.subrange(i + 1, lanes.len() as int),
{
    let prefix = lanes.subrange(0, i);
    let mid = seq![lanes[i]];
    let suffix = lanes.subrange(i + 1, lanes.len() as int);
    assert(lanes =~= (prefix + mid) + suffix);
    lemma_retrofit_concat(prefix + mid, suffix, Option::Some(style));
    lemma_retrofit_concat(prefix, mid, Option::Some(style));
    lemma_retrofit_no_parking(prefix, Option::Some(style));
    lemma_retrofit_no_parking(suffix, Option::Some(style));
    assert(mid.drop_first() =~= Seq::<LaneSpec>::empty());
    assert(retrofit_spec(Seq::<LaneSpec>::empty(), Option::Some(style)) =~= Seq::<
        LaneSpec,
    >::empty());
    assert(mid[0] == lanes[i]);
    assert(replacement_spec(lanes[i], Option::Some(style)) =~= seq![
        buffer_lane(style, Direction::Fwd),
        bike_lane(Direction::Fwd),
    ]);
    assert(retrofit_spec(mid, Option::Some(style)) =~= seq![
        buffer_lane(style, Direction::Fwd),
        bike_lane(Direction::Fwd),
    ]);
    assert(retrofit_spec(lanes, Option::Some(style)) =~= prefix + seq![
        buffer_lane(style, Direction::Fwd),
        bike_lane(Direction::Fwd),
    ] + suffix);
}

/// Without a buffer style the retrofit is a one-for-one swap: the
/// cross-section keeps its length, every parking lane becomes a bike lane
/// of the same direction and standard width, and every other lane is
/// untouched. In particular a single Backward parking lane is replaced by
/// exactly one Backward bike lane.
pub proof fn lemma_retrofit_paint_pointwise(lanes: Seq<LaneSpec>)
    ensures
        retrofit_spec(lanes, Option::None).len() == lanes.len(),
        forall|j: int| 0 <= j < lanes.len() ==> retrofit_spec(lanes, Option::None)[j] == (
        if lanes[j].lt == LaneType::Parking {
            bike_lane(lanes[j].dir)
        } else {
            lanes[j]
        }),
    decreases lanes.len(),
{
    if lanes.len() == 0 {
    } else {
        lemma_retrofit_paint_pointwise(lanes.drop_first());
        assert forall|j: int| 0 <= j < lanes.len() implies retrofit_spec(lanes, Option::None)[j]
            == (if lanes[j].lt == LaneType::Parking {
            bike_lane(lanes[j].dir)
        } else {
            lanes[j]
        }) by {
            if j > 0 {
                assert(retrofit_spec(lanes, Option::None)[j] == retrofit_spec(
                    lanes.drop_first(),
                    Option::None,
                )[j - 1]);
                assert(lanes.drop_first()[j - 1] == lanes[j]);
            }
        }
    }
}

/// Compute the retrofitted cross-section for one road, left to right over
/// the existing lanes.
pub fn plan_retrofit(lanes: &Vec<LaneSpec>, buffer_style: Option<BufferType>) -> (r: Vec<LaneSpec>)
    ensures
        r@ == retrofit_spec(lanes@, buffer_style),
{
    let mut out: Vec<LaneSpec> = Vec::new();
    let mut i: usize = 0;
    while i < lanes.len()
        invariant
            i <= lanes.len(),
            out@ == retrofit_spec(lanes@.subrange(0, i as int), buffer_style),
        decreases lanes.len() - i,
    {
        let lane = lanes[i];
        proof {
            assert(lanes@.subrange(0, i + 1) =~= lanes@.subrange(0, i as int).push(lanes@[i as int]));
            lemma_retrofit_push(lanes@.subrange(0, i as int), buffer_style, lanes@[i as int]);
        }
        if lane.lt != LaneType::Parking {
            out.push(lane);
        } else {
            match buffer_style {
                Option::Some(style) => {
                    if lane.dir == Direction::Fwd {
                        out.push(
                            LaneSpec {
                                lt: LaneType::Buffer(style),
                                dir: lane.dir,
                                width: standard_width(LaneType::Buffer(style)),
                            },
                        );
                        out.push(
                            LaneSpec {
                                lt: LaneType::Biking,
                                dir: lane.dir,
                                width: standard_width(LaneType::Biking),
                            },
                        );
                    } else {
                        out.push(
                            LaneSpec {
                                lt: LaneType::Biking,
                                dir: lane.dir,
                                width: standard_width(LaneType::Biking),
                            },
                        );
                        out.push(
                            LaneSpec {
                                lt: LaneType::Buffer(style),
                                dir: lane.dir,
                                width: standard_width(LaneType::Buffer(style)),
                            },
                        );
                    }
                },
                Option::None => {
                    out.push(
                        LaneSpec {
                            lt: LaneType::Biking,
                            dir: lane.dir,
                            width: standard_width(LaneType::Biking),
                        },
                    );
                },
            }
        }
        proof {
            assert(out@ =~= retrofit_spec(lanes@.subrange(0, i + 1), buffer_style));
        }
        i = i + 1;
    }
    proof {
        assert(lanes@.subrange(0, lanes@.len() as int) =~= lanes@);
    }
    out
}

/// How many bike lanes a cross-section holds.
pub open spec fn count_biking_spec(lanes: Seq<LaneSpec>) -> int
    decreases lanes.len(),
{
    if lanes.len() == 0 {
        0
    } else {
        (if lanes[0].lt == LaneType::Biking {
            1int
        } else {
            0int
        }) + count_biking_spec(lanes.drop_first())
    }
}

proof fn lemma_count_biking_push(lanes: Seq<LaneSpec>, lane: LaneSpec)
    ensures
        count_biking_spec(lanes.push(lane)) == count_biking_spec(lanes) + (
        if lane.lt == LaneType::Biking {
            1int
        } else {
            0int
        }),
    decreases lanes.len(),
{
    if lanes.len() == 0 {
        assert(lanes.push(lane).drop_first() =~= lanes);
    } else {
        assert(lanes.push(lane).drop_first() =~= lanes.drop_first().push(lane));
        lemma_count_biking_push(lanes.drop_first(), lane);
    }
}

proof fn lemma_count_biking_bound(lanes: Seq<LaneSpec>)
    ensures
        0 <= count_biking_spec(lanes) <= lanes.len(),
    decreases lanes.len(),
{
    if lanes.len() == 0 {
    } else {
        lemma_count_biking_bound(lanes.drop_first());
    }
}

/// The full lane layout of one road: its lanes in order, left to right
/// across the cross-section. Two layouts are the same edit exactly when
/// their lane sequences are equal.
#[derive(Debug)]
pub struct EditRoad {
    pub lanes_ltr: Vec<LaneSpec>,
}

impl View for EditRoad {
    type V = Seq<LaneSpec>;

    open spec fn view(&self) -> Seq<LaneSpec> {
        self.lanes_ltr@
    }
}

impl EditRoad {
    /// Wrap a lane sequence as a road layout.
    pub fn new(lanes_ltr: Vec<LaneSpec>) -> (r: EditRoad)
        ensures
            r@ == lanes_ltr@,
    {
        EditRoad { lanes_ltr }
    }

    /// A fresh copy of this layout, aliasing nothing.
    pub fn copied(&self) -> (r: EditRoad)
        ensures
            r@ == self@,
    {
        let mut lanes: Vec<LaneSpec> = Vec::new();
        let mut i: usize = 0;
        while i < self.lanes_ltr.len()
            invariant
                i <= self.lanes_ltr.len(),
                lanes@ == self.lanes_ltr@.subrange(0, i as int),
            decreases self.lanes_ltr.len() - i,
        {
            lanes.push(self.lanes_ltr[i]);
            proof {
                assert(lanes@ =~= self.lanes_ltr@.subrange(0, i + 1));
            }
            i = i + 1;
        }
        proof {
            assert(self.lanes_ltr@.subrange(0, self.lanes_ltr@.len() as int) =~= self.lanes_ltr@);
        }
        EditRoad { lanes_ltr: lanes }
    }

    /// The layout after the bike-lane retrofit, leaving this one untouched.
    pub fn retrofitted(&self, buffer_style: Option<BufferType>) -> (r: EditRoad)
        ensures
            r@ == retrofit_spec(self@, buffer_style),
    {
        EditRoad { lanes_ltr: plan_retrofit(&self.lanes_ltr, buffer_style) }
    }

    /// Whether two layouts describe the same cross-section; an edit whose
    /// old and new layouts agree changes nothing.
    pub fn same_layout(&self, other: &EditRoad) -> (r: bool)
        ensures
            r == (self@ == other@),
    {
        if self.lanes_ltr.len() != other.lanes_ltr.len() {
            return false;
        }
        let mut i: usize = 0;
        while i < self.lanes_ltr.len()
            invariant
                i <= self.lanes_ltr.len(),
                self.lanes_ltr@.len() == other.lanes_ltr@.len(),
                forall|j: int| 0 <= j < i ==> self.lanes_ltr@[j] == other.lanes_ltr@[j],
            decreases self.lanes_ltr.len() - i,
        {
            if self.lanes_ltr[i] != other.lanes_ltr[i] {
                return false;
            }
            i = i + 1;
        }
        proof {
            assert(self@ =~= other@);
        }
        true
    }

    /// How many bike lanes this layout holds; the host application weighs
    /// new layouts against old ones with this count when it reports mileage.
    pub fn num_biking_lanes(&self) -> (n: usize)
        ensures
            n == count_biking_spec(self@),
            n <= self@.len(),
    {
        let mut n: usize = 0;
        let mut i: usize = 0;
        proof {
            lemma_count_biking_bound(self.lanes_ltr@);
        }
        while i < self.lanes_ltr.len()
            invariant
                i <= self.lanes_ltr.len(),
                n == count_biking_spec(self.lanes_ltr@.subrange(0, i as int)),
                n <= i,
            decreases self.lanes_ltr.len() - i,
        {
            proof {
                assert(self.lanes_ltr@.subrange(0, i + 1) =~= self.lanes_ltr@.subrange(
                    0,
                    i as int,
                ).push(self.lanes_ltr@[i as int]));
                lemma_count_biking_push(
                    self.lanes_ltr@.subrange(0, i as int),
                    self.lanes_ltr@[i as int],
                );
            }
            if self.lanes_ltr[i].lt == LaneType::Biking {
                n = n + 1;
            }
            i = i + 1;
        }
        proof {
            assert(self.lanes_ltr@.subrange(0, self.lanes_ltr@.len() as int) =~= self.lanes_ltr@);
        }
        n
    }
}

} // verus!
