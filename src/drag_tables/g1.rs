//! The standard G1 drag function.
use vstd::prelude::*;
use crate::drag_table::{push_point, strictly_increasing, DragTable};

verus! {

/// The points of the table: Mach number and drag coefficient, both in
/// ten-thousandths.
pub open spec fn points() -> Seq<(u32, u16)> {
    seq![
        (0, 2629),
        (500, 2558),
        (1000, 2487),
        (1500, 2413),
        (2000, 2344),
        (2500, 2278),
        (3000, 2214),
        (3500, 2155),
        (4000, 2104),
        (4500, 2061),
        (5000, 2032),
        (5500, 2020),
        (6000, 2034),
        (7000, 2165),
        (7250, 2230),
        (7500, 2313),
        (7750, 2417),
        (8000, 2546),
        (8250, 2706),
        (8500, 2901),
        (8750, 3136),
        (9000, 3415),
        (9250, 3734),
        (9500, 4084),
        (9750, 4448),
        (10000, 4805),
        (10250, 5136),
        (10500, 5427),
        (10750, 5677),
        (11000, 5883),
        (11250, 6053),
        (11500, 6191),
        (12000, 6393),
        (12500, 6518),
        (13000, 6589),
        (13500, 6621),
        (14000, 6625),
        (14500, 6607),
        (15000, 6573),
        (15500, 6528),
        (16000, 6474),
        (16500, 6413),
        (17000, 6347),
        (17500, 6280),
        (18000, 6210),
        (18500, 6141),
        (19000, 6072),
        (19500, 6003),
        (20000, 5934),
        (20500, 5867),
        (21000, 5804),
        (21500, 5743),
        (22000, 5685),
        (22500, 5630),
        (23000, 5577),
        (23500, 5527),
        (24000, 5481),
        (24500, 5438),
        (25000, 5397),
        (26000, 5325),
        (27000, 5264),
        (28000, 5211),
        (29000, 5168),
        (30000, 5133),
        (31000, 5105),
        (32000, 5084),
        (33000, 5067),
        (34000, 5054),
        (35000, 5040),
        (36000, 5030),
        (37000, 5022),
        (38000, 5016),
        (39000, 5010),
        (40000, 5006),
        (42000, 4998),
        (44000, 4995),
        (46000, 4992),
        (48000, 4990),
        (50000, 4988),
    ]
}

/// The G1 reference projectile's drag coefficient against Mach number.
pub fn init() -> (r: DragTable)
    ensures
        r.wf(),
        r@.len() == 79,
        r@ == points(),
{
    let mut v: Vec<(u32, u16)> = Vec::new();
    assert(strictly_increasing(v@));
    push_point(&mut v, 0, 2629);
    push_point(&mut v, 500, 2558);
    push_point(&mut v, 1000, 2487);
    push_point(&mut v, 1500, 2413);
    push_point(&mut v, 2000, 2344);
    push_point(&mut v, 2500, 2278);
    push_point(&mut v, 3000, 2214);
    push_point(&mut v, 3500, 2155);
    push_point(&mut v, 4000, 2104);
    push_point(&mut v, 4500, 2061);
    push_point(&mut v, 5000, 2032);
    push_point(&mut v, 5500, 2020);
    push_point(&mut v, 6000, 2034);
    push_point(&mut v, 7000, 2165);
    push_point(&mut v, 7250, 2230);
    push_point(&mut v, 7500, 2313);
    push_point(&mut v, 7750, 2417);
    push_point(&mut v, 8000, 2546);
    push_point(&mut v, 8250, 2706);
    push_point(&mut v, 8500, 2901);
    push_point(&mut v, 8750, 3136);
    push_point(&mut v, 9000, 3415);
    push_point(&mut v, 9250, 3734);
    push_point(&mut v, 9500, 4084);
    push_point(&mut v, 9750, 4448);
    push_point(&mut v, 10000, 4805);
    push_point(&mut v, 10250, 5136);
    push_point(&mut v, 10500, 5427);
    push_point(&mut v, 10750, 5677);
    push_point(&mut v, 11000, 5883);
    push_point(&mut v, 11250, 6053);
    push_point(&mut v, 11500, 6191);
    push_point(&mut v, 12000, 6393);
    push_point(&mut v, 12500, 6518);
    push_point(&mut v, 13000, 6589);
    push_point(&mut v, 13500, 6621);
    push_point(&mut v, 14000, 6625);
    push_point(&mut v, 14500, 6607);
    push_point(&mut v, 15000, 6573);
    push_point(&mut v, 15500, 6528);
    push_point(&mut v, 16000, 6474);
    push_point(&mut v, 16500, 6413);
    push_point(&mut v, 17000, 6347);
    push_point(&mut v, 17500, 6280);
    push_point(&mut v, 18000, 6210);
    push_point(&mut v, 18500, 6141);
    push_point(&mut v, 19000, 6072);
    push_point(&mut v, 19500, 6003);
    push_point(&mut v, 20000, 5934);
    push_point(&mut v, 20500, 5867);
    push_point(&mut v, 21000, 5804);
    push_point(&mut v, 21500, 5743);
    push_point(&mut v, 22000, 5685);
    push_point(&mut v, 22500, 5630);
    push_point(&mut v, 23000, 5577);
    push_point(&mut v, 23500, 5527);
    push_point(&mut v, 24000, 5481);
    push_point(&mut v, 24500, 5438);
    push_point(&mut v, 25000, 5397);
    push_point(&mut v, 26000, 5325);
    push_point(&mut v, 27000, 5264);
    push_point(&mut v, 28000, 5211);
    push_point(&mut v, 29000, 5168);
    push_point(&mut v, 30000, 5133);
    push_point(&mut v, 31000, 5105);
    push_point(&mut v, 32000, 5084);
    push_point(&mut v, 33000, 5067);
    push_point(&mut v, 34000, 5054);
    push_point(&mut v, 35000, 5040);
    push_point(&mut v, 36000, 5030);
    push_point(&mut v, 37000, 5022);
    push_point(&mut v, 38000, 5016);
    push_point(&mut v, 39000, 5010);
    push_point(&mut v, 40000, 5006);
    push_point(&mut v, 42000, 4998);
    push_point(&mut v, 44000, 4995);
    push_point(&mut v, 46000, 4992);
    push_point(&mut v, 48000, 4990);
    push_point(&mut v, 50000, 4988);
    DragTable::from_valid(v)
}

} // verus!
