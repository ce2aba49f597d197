use vstd::prelude::*;

verus! {

/// The most energy an entity can hold after eating.
pub const ENERGY_CAP: u32 = 4097;

/// The program of a child: as long as the longer parent program, taking
/// even words from `a` and odd words from `b`, each parent's program read
/// cyclically.
pub open spec fn crossover_spec(a: Seq<u32>, b: Seq<u32>, k: int) -> u32 {
    if k % 2 == 0 {
        a[k % (a.len() as int)]
    } else {
        b[k % (b.len() as int)]
    }
}

/// Interleaves two non-empty parent programs into a child program.
pub fn crossover_code(a: &Vec<u32>, b: &Vec<u32>) -> (r: Vec<u32>)
    requires
        a@.len() > 0,
        b@.len() > 0,
    ensures
        r@.len() == if a@.len() >= b@.len() {
            a@.len()
        } else {
            b@.len()
        },
        forall|k: int| 0 <= k < r@.len() ==> #[trigger] r@[k] == crossover_spec(a@, b@, k),
{
    let len = if a.len() >= b.len() {
        a.len()
    } else {
        b.len()
    };
    let mut code: Vec<u32> = Vec::with_capacity(len);
    let mut i: usize = 0;
    while i < len
        invariant
            a@.len() > 0,
            b@.len() > 0,
            i <= len,
            len == if a@.len() >= b@.len() {
                a@.len()
            } else {
                b@.len()
            },
            code@.len() == i,
            forall|k: int| 0 <= k < i ==> #[trigger] code@[k] == crossover_spec(a@, b@, k),
        decreases len - i,
    {
        if i % 2 == 0 {
            code.push(a[i % a.len()]);
        } else {
            code.push(b[i % b.len()]);
        }
        i += 1;
    }
    code
}

/// The energy after eating prey of energy `prey`: a quarter of it, rounded
/// up, is gained, up to `ENERGY_CAP`.
pub open spec fn meal_spec(energy: u32, prey: u32) -> u32 {
    let gained = energy + (prey as int + 3) / 4;
    if gained > ENERGY_CAP {
        ENERGY_CAP
    } else {
        gained as u32
    }
}

pub fn energy_after_meal(energy: u32, prey: u32) -> (r: u32)
    ensures
        r == meal_spec(energy, prey),
        r <= ENERGY_CAP,
{
    let gained: u64 = energy as u64 + (prey as u64 + 3) / 4;
    if gained > ENERGY_CAP as u64 {
        ENERGY_CAP
    } else {
        gained as u32
    }
}

} // verus!
