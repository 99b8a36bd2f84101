//! The standard G8 drag function.
use vstd::prelude::*;
use crate::drag_table::{push_point, strictly_increasing, DragTable};

verus! {

/// The points of the table: Mach number and drag coefficient, both in
/// ten-thousandths.
pub open spec fn points() -> Seq<(u32, u16)> {
    seq![
        (0, 2105),
        (500, 2105),
        (1000, 2104),
        (1500, 2104),
        (2000, 2103),
        (2500, 2103),
        (3000, 2103),
        (3500, 2103),
        (4000, 2103),
        (4500, 2102),
        (5000, 2102),
        (5500, 2102),
        (6000, 2102),
        (6500, 2102),
        (7000, 2103),
        (7500, 2103),
        (8000, 2104),
        (8250, 2104),
        (8500, 2105),
        (8750, 2106),
        (9000, 2109),
        (9250, 2183),
        (9500, 2571),
        (9750, 3358),
        (10000, 4068),
        (10250, 4378),
        (10500, 4476),
        (10750, 4493),
        (11000, 4477),
        (11250, 4450),
        (11500, 4419),
        (12000, 4353),
        (12500, 4283),
        (13000, 4208),
        (13500, 4133),
        (14000, 4059),
        (14500, 3986),
        (15000, 3915),
        (15500, 3845),
        (16000, 3777),
        (16500, 3710),
        (17000, 3645),
        (17500, 3581),
        (18000, 3519),
        (18500, 3458),
        (19000, 3400),
        (19500, 3343),
        (20000, 3288),
        (20500, 3234),
        (21000, 3182),
        (21500, 3131),
        (22000, 3081),
        (22500, 3032),
        (23000, 2983),
        (23500, 2937),
        (24000, 2891),
        (24500, 2845),
        (25000, 2802),
        (26000, 2720),
        (27000, 2642),
        (28000, 2569),
        (29000, 2499),
        (30000, 2432),
        (31000, 2368),
        (32000, 2308),
        (33000, 2251),
        (34000, 2197),
        (35000, 2147),
        (36000, 2101),
        (37000, 2058),
        (38000, 2019),
        (39000, 1983),
        (40000, 1950),
        (42000, 1890),
        (44000, 1837),
        (46000, 1791),
        (48000, 1750),
        (50000, 1713),
    ]
}

/// The G8 reference projectile's drag coefficient against Mach number.
pub fn init() -> (r: DragTable)
    ensures
        r.wf(),
        r@.len() == 78,
        r@ == points(),
{
    let mut v: Vec<(u32, u16)> = Vec::new();
    assert(strictly_increasing(v@));
    push_point(&mut v, 0, 2105);
    push_point(&mut v, 500, 2105);
    push_point(&mut v, 1000, 2104);
    push_point(&mut v, 1500, 2104);
    push_point(&mut v, 2000, 2103);
    push_point(&mut v, 2500, 2103);
    push_point(&mut v, 3000, 2103);
    push_point(&mut v, 3500, 2103);
    push_point(&mut v, 4000, 2103);
    push_point(&mut v, 4500, 2102);
    push_point(&mut v, 5000, 2102);
    push_point(&mut v, 5500, 2102);
    push_point(&mut v, 6000, 2102);
    push_point(&mut v, 6500, 2102);
    push_point(&mut v, 7000, 2103);
    push_point(&mut v, 7500, 2103);
    push_point(&mut v, 8000, 2104);
    push_point(&mut v, 8250, 2104);
    push_point(&mut v, 8500, 2105);
    push_point(&mut v, 8750, 2106);
    push_point(&mut v, 9000, 2109);
    push_point(&mut v, 9250, 2183);
    push_point(&mut v, 9500, 2571);
    push_point(&mut v, 9750, 3358);
    push_point(&mut v, 10000, 4068);
    push_point(&mut v, 10250, 4378);
    push_point(&mut v, 10500, 4476);
    push_point(&mut v, 10750, 4493);
    push_point(&mut v, 11000, 4477);
    push_point(&mut v, 11250, 4450);
    push_point(&mut v, 11500, 4419);
    push_point(&mut v, 12000, 4353);
    push_point(&mut v, 12500, 4283);
    push_point(&mut v, 13000, 4208);
    push_point(&mut v, 13500, 4133);
    push_point(&mut v, 14000, 4059);
    push_point(&mut v, 14500, 3986);
    push_point(&mut v, 15000, 3915);
    push_point(&mut v, 15500, 3845);
    push_point(&mut v, 16000, 3777);
    push_point(&mut v, 16500, 3710);
    push_point(&mut v, 17000, 3645);
    push_point(&mut v, 17500, 3581);
    push_point(&mut v, 18000, 3519);
    push_point(&mut v, 18500, 3458);
    push_point(&mut v, 19000, 3400);
    push_point(&mut v, 19500, 3343);
    push_point(&mut v, 20000, 3288);
    push_point(&mut v, 20500, 3234);
    push_point(&mut v, 21000, 3182);
    push_point(&mut v, 21500, 3131);
    push_point(&mut v, 22000, 3081);
    push_point(&mut v, 22500, 3032);
    push_point(&mut v, 23000, 2983);
    push_point(&mut v, 23500, 2937);
    push_point(&mut v, 24000, 2891);
    push_point(&mut v, 24500, 2845);
    push_point(&mut v, 25000, 2802);
    push_point(&mut v, 26000, 2720);
    push_point(&mut v, 27000, 2642);
    push_point(&mut v, 28000, 2569);
    push_point(&mut v, 29000, 2499);
    push_point(&mut v, 30000, 2432);
    push_point(&mut v, 31000, 2368);
    push_point(&mut v, 32000, 2308);
    push_point(&mut v, 33000, 2251);
    push_point(&mut v, 34000, 2197);
    push_point(&mut v, 35000, 2147);
    push_point(&mut v, 36000, 2101);
    push_point(&mut v, 37000, 2058);
    push_point(&mut v, 38000, 2019);
    push_point(&mut v, 39000, 1983);
    push_point(&mut v, 40000, 1950);
    push_point(&mut v, 42000, 1890);
    push_point(&mut v, 44000, 1837);
    push_point(&mut v, 46000, 1791);
    push_point(&mut v, 48000, 1750);
    push_point(&mut v, 50000, 1713);
    DragTable::from_valid(v)
}

} // verus!
