//! The standard G5 drag function.
use vstd::prelude::*;
use crate::drag_table::{push_point, strictly_increasing, DragTable};

verus! {

/// The points of the table: Mach number and drag coefficient, both in
/// ten-thousandths.
pub open spec fn points() -> Seq<(u32, u16)> {
    seq![
        (0, 1710),
        (500, 1719),
        (1000, 1727),
        (1500, 1732),
        (2000, 1734),
        (2500, 1730),
        (3000, 1718),
        (3500, 1696),
        (4000, 1668),
        (4500, 1637),
        (5000, 1603),
        (5500, 1566),
        (6000, 1529),
        (6500, 1497),
        (7000, 1473),
        (7500, 1463),
        (8000, 1489),
        (8500, 1583),
        (8750, 1672),
        (9000, 1815),
        (9250, 2051),
        (9500, 2413),
        (9750, 2884),
        (10000, 3379),
        (10250, 3785),
        (10500, 4032),
        (10750, 4147),
        (11000, 4201),
        (11500, 4278),
        (12000, 4338),
        (12500, 4373),
        (13000, 4392),
        (13500, 4403),
        (14000, 4406),
        (14500, 4401),
        (15000, 4386),
        (15500, 4362),
        (16000, 4328),
        (16500, 4286),
        (17000, 4237),
        (17500, 4182),
        (18000, 4121),
        (18500, 4057),
        (19000, 3991),
        (19500, 3925),
        (20000, 3861),
        (20500, 3800),
        (21000, 3741),
        (21500, 3684),
        (22000, 3630),
        (22500, 3578),
        (23000, 3529),
        (23500, 3481),
        (24000, 3435),
        (24500, 3391),
        (25000, 3349),
        (26000, 3269),
        (27000, 3194),
        (28000, 3125),
        (29000, 3060),
        (30000, 2999),
        (31000, 2942),
        (32000, 2889),
        (33000, 2838),
        (34000, 2790),
        (35000, 2745),
        (36000, 2703),
        (37000, 2662),
        (38000, 2624),
        (39000, 2588),
        (40000, 2553),
        (42000, 2488),
        (44000, 2429),
        (46000, 2376),
        (48000, 2326),
        (50000, 2280),
    ]
}

/// The G5 reference projectile's drag coefficient against Mach number.
pub fn init() -> (r: DragTable)
    ensures
        r.wf(),
        r@.len() == 76,
        r@ == points(),
{
    let mut v: Vec<(u32, u16)> = Vec::new();
    assert(strictly_increasing(v@));
    push_point(&mut v, 0, 1710);
    push_point(&mut v, 500, 1719);
    push_point(&mut v, 1000, 1727);
    push_point(&mut v, 1500, 1732);
    push_point(&mut v, 2000, 1734);
    push_point(&mut v, 2500, 1730);
    push_point(&mut v, 3000, 1718);
    push_point(&mut v, 3500, 1696);
    push_point(&mut v, 4000, 1668);
    push_point(&mut v, 4500, 1637);
    push_point(&mut v, 5000, 1603);
    push_point(&mut v, 5500, 1566);
    push_point(&mut v, 6000, 1529);
    push_point(&mut v, 6500, 1497);
    push_point(&mut v, 7000, 1473);
    push_point(&mut v, 7500, 1463);
    push_point(&mut v, 8000, 1489);
    push_point(&mut v, 8500, 1583);
    push_point(&mut v, 8750, 1672);
    push_point(&mut v, 9000, 1815);
    push_point(&mut v, 9250, 2051);
    push_point(&mut v, 9500, 2413);
    push_point(&mut v, 9750, 2884);
    push_point(&mut v, 10000, 3379);
    push_point(&mut v, 10250, 3785);
    push_point(&mut v, 10500, 4032);
    push_point(&mut v, 10750, 4147);
    push_point(&mut v, 11000, 4201);
    push_point(&mut v, 11500, 4278);
    push_point(&mut v, 12000, 4338);
    push_point(&mut v, 12500, 4373);
    push_point(&mut v, 13000, 4392);
    push_point(&mut v, 13500, 4403);
    push_point(&mut v, 14000, 4406);
    push_point(&mut v, 14500, 4401);
    push_point(&mut v, 15000, 4386);
    push_point(&mut v, 15500, 4362);
    push_point(&mut v, 16000, 4328);
    push_point(&mut v, 16500, 4286);
    push_point(&mut v, 17000, 4237);
    push_point(&mut v, 17500, 4182);
    push_point(&mut v, 18000, 4121);
    push_point(&mut v, 18500, 4057);
    push_point(&mut v, 19000, 3991);
    push_point(&mut v, 19500, 3925);
    push_point(&mut v, 20000, 3861);
    push_point(&mut v, 20500, 3800);
    push_point(&mut v, 21000, 3741);
    push_point(&mut v, 21500, 3684);
    push_point(&mut v, 22000, 3630);
    push_point(&mut v, 22500, 3578);
    push_point(&mut v, 23000, 3529);
    push_point(&mut v, 23500, 3481);
    push_point(&mut v, 24000, 3435);
    push_point(&mut v, 24500, 3391);
    push_point(&mut v, 25000, 3349);
    push_point(&mut v, 26000, 3269);
    push_point(&mut v, 27000, 3194);
    push_point(&mut v, 28000, 3125);
    push_point(&mut v, 29000, 3060);
    push_point(&mut v, 30000, 2999);
    push_point(&mut v, 31000, 2942);
    push_point(&mut v, 32000, 2889);
    push_point(&mut v, 33000, 2838);
    push_point(&mut v, 34000, 2790);
    push_point(&mut v, 35000, 2745);
    push_point(&mut v, 36000, 2703);
    push_point(&mut v, 37000, 2662);
    push_point(&mut v, 38000, 2624);
    push_point(&mut v, 39000, 2588);
    push_point(&mut v, 40000, 2553);
    push_point(&mut v, 42000, 2488);
    push_point(&mut v, 44000, 2429);
    push_point(&mut v, 46000, 2376);
    push_point(&mut v, 48000, 2326);
    push_point(&mut v, 50000, 2280);
    DragTable::from_valid(v)
}

} // verus!
