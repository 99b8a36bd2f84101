//! The standard G7 drag function.
//!
//! Some published copies of this table carry a stray trailing digit on the
//! sixteen keys from Mach 0.75 to 1.125 (0.754 for 0.75, 0.7754 for 0.775,
//! 1.04 for 1.0, and so on), which also puts 1.04 before 1.025. The keys here
//! are the standard grid values.
use vstd::prelude::*;
use crate::drag_table::{push_point, strictly_increasing, DragTable};

verus! {

/// The points of the table: Mach number and drag coefficient, both in
/// ten-thousandths.
pub open spec fn points() -> Seq<(u32, u16)> {
    seq![
        (0, 1198),
        (500, 1197),
        (1000, 1196),
        (1500, 1194),
        (2000, 1193),
        (2500, 1194),
        (3000, 1194),
        (3500, 1194),
        (4000, 1193),
        (4500, 1193),
        (5000, 1194),
        (5500, 1193),
        (6000, 1194),
        (6500, 1197),
        (7000, 1202),
        (7250, 1207),
        (7500, 1215),
        (7750, 1226),
        (8000, 1242),
        (8250, 1266),
        (8500, 1306),
        (8750, 1368),
        (9000, 1464),
        (9250, 1660),
        (9500, 2054),
        (9750, 2993),
        (10000, 3803),
        (10250, 4015),
        (10500, 4043),
        (10750, 4034),
        (11000, 4014),
        (11250, 3987),
        (11500, 3955),
        (12000, 3884),
        (12500, 3810),
        (13000, 3732),
        (13500, 3657),
        (14000, 3580),
        (15000, 3440),
        (15500, 3376),
        (16000, 3315),
        (16500, 3260),
        (17000, 3209),
        (17500, 3160),
        (18000, 3117),
        (18500, 3078),
        (19000, 3042),
        (19500, 3010),
        (20000, 2980),
        (20500, 2951),
        (21000, 2922),
        (21500, 2892),
        (22000, 2864),
        (22500, 2835),
        (23000, 2807),
        (23500, 2779),
        (24000, 2752),
        (24500, 2725),
        (25000, 2697),
        (25500, 2670),
        (26000, 2643),
        (26500, 2615),
        (27000, 2588),
        (27500, 2561),
        (28000, 2533),
        (28500, 2506),
        (29000, 2479),
        (29500, 2451),
        (30000, 2424),
        (31000, 2368),
        (32000, 2313),
        (33000, 2258),
        (34000, 2205),
        (35000, 2154),
        (36000, 2106),
        (37000, 2060),
        (38000, 2017),
        (39000, 1975),
        (40000, 1935),
        (42000, 1861),
        (44000, 1793),
        (46000, 1730),
        (48000, 1672),
        (50000, 1618),
    ]
}

/// The G7 reference projectile's drag coefficient against Mach number.
pub fn init() -> (r: DragTable)
    ensures
        r.wf(),
        r@.len() == 84,
        r@ == points(),
{
    let mut v: Vec<(u32, u16)> = Vec::new();
    assert(strictly_increasing(v@));
    push_point(&mut v, 0, 1198);
    push_point(&mut v, 500, 1197);
    push_point(&mut v, 1000, 1196);
    push_point(&mut v, 1500, 1194);
    push_point(&mut v, 2000, 1193);
    push_point(&mut v, 2500, 1194);
    push_point(&mut v, 3000, 1194);
    push_point(&mut v, 3500, 1194);
    push_point(&mut v, 4000, 1193);
    push_point(&mut v, 4500, 1193);
    push_point(&mut v, 5000, 1194);
    push_point(&mut v, 5500, 1193);
    push_point(&mut v, 6000, 1194);
    push_point(&mut v, 6500, 1197);
    push_point(&mut v, 7000, 1202);
    push_point(&mut v, 7250, 1207);
    push_point(&mut v, 7500, 1215);
    push_point(&mut v, 7750, 1226);
    push_point(&mut v, 8000, 1242);
    push_point(&mut v, 8250, 1266);
    push_point(&mut v, 8500, 1306);
    push_point(&mut v, 8750, 1368);
    push_point(&mut v, 9000, 1464);
    push_point(&mut v, 9250, 1660);
    push_point(&mut v, 9500, 2054);
    push_point(&mut v, 9750, 2993);
    push_point(&mut v, 10000, 3803);
    push_point(&mut v, 10250, 4015);
    push_point(&mut v, 10500, 4043);
    push_point(&mut v, 10750, 4034);
    push_point(&mut v, 11000, 4014);
    push_point(&mut v, 11250, 3987);
    push_point(&mut v, 11500, 3955);
    push_point(&mut v, 12000, 3884);
    push_point(&mut v, 12500, 3810);
    push_point(&mut v, 13000, 3732);
    push_point(&mut v, 13500, 3657);
    push_point(&mut v, 14000, 3580);
    push_point(&mut v, 15000, 3440);
    push_point(&mut v, 15500, 3376);
    push_point(&mut v, 16000, 3315);
    push_point(&mut v, 16500, 3260);
    push_point(&mut v, 17000, 3209);
    push_point(&mut v, 17500, 3160);
    push_point(&mut v, 18000, 3117);
    push_point(&mut v, 18500, 3078);
    push_point(&mut v, 19000, 3042);
    push_point(&mut v, 19500, 3010);
    push_point(&mut v, 20000, 2980);
    push_point(&mut v, 20500, 2951);
    push_point(&mut v, 21000, 2922);
    push_point(&mut v, 21500, 2892);
    push_point(&mut v, 22000, 2864);
    push_point(&mut v, 22500, 2835);
    push_point(&mut v, 23000, 2807);
    push_point(&mut v, 23500, 2779);
    push_point(&mut v, 24000, 2752);
    push_point(&mut v, 24500, 2725);
    push_point(&mut v, 25000, 2697);
    push_point(&mut v, 25500, 2670);
    push_point(&mut v, 26000, 2643);
    push_point(&mut v, 26500, 2615);
    push_point(&mut v, 27000, 2588);
    push_point(&mut v, 27500, 2561);
    push_point(&mut v, 28000, 2533);
    push_point(&mut v, 28500, 2506);
    push_point(&mut v, 29000, 2479);
    push_point(&mut v, 29500, 2451);
    push_point(&mut v, 30000, 2424);
    push_point(&mut v, 31000, 2368);
    push_point(&mut v, 32000, 2313);
    push_point(&mut v, 33000, 2258);
    push_point(&mut v, 34000, 2205);
    push_point(&mut v, 35000, 2154);
    push_point(&mut v, 36000, 2106);
    push_point(&mut v, 37000, 2060);
    push_point(&mut v, 38000, 2017);
    push_point(&mut v, 39000, 1975);
    push_point(&mut v, 40000, 1935);
    push_point(&mut v, 42000, 1861);
    push_point(&mut v, 44000, 1793);
    push_point(&mut v, 46000, 1730);
    push_point(&mut v, 48000, 1672);
    push_point(&mut v, 50000, 1618);
    DragTable::from_valid(v)
}

} // verus!
