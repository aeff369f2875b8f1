//! A task is a small program a machine can run, together with the
//! result its author expects in register two.

use vstd::prelude::*;

verus! {

/// A small program with its identifier and its expected result.
pub struct Task {
    id: u16,
    code: Vec<u16>,
    expected_result: u16,
}

impl Task {
    /// The task's identifier.
    pub closed spec fn spec_id(&self) -> u16 {
        self.id
    }

    /// The task's program, one word per cell.
    pub closed spec fn spec_code(&self) -> Seq<u16> {
        self.code@
    }

    /// The result the program should leave in register two.
    pub closed spec fn spec_expected_result(&self) -> u16 {
        self.expected_result
    }

    /// The task's identifier.
    pub fn get_id(&self) -> (r: u16)
        ensures
            r == self.spec_id(),
    {
        self.id
    }

    /// The task's program.
    pub fn get_code(&self) -> (r: &Vec<u16>)
        ensures
            r@ == self.spec_code(),
    {
        &self.code
    }

    /// The result the program should leave in register two.
    pub fn get_expected_result(&self) -> (r: u16)
        ensures
            r == self.spec_expected_result(),
    {
        self.expected_result
    }
}

/// Relies on rand::random_range: the sample lies within the given
/// half-open range (an empty range panics, so the bounds must be
/// ordered).
#[verifier::external_body]
fn random_in_range(low: u16, high: u16) -> (r: u16)
    requires
        low < high,
    ensures
        low <= r < high,
{
    rand::random_range(low..high)
}

/// Creates and returns a random small task of thirteen words: it adds
/// the first random number to the second one three times, subtracts
/// the third one twice, leaves the result in register two, and
/// returns. The data are drawn so that neither the additions nor the
/// subtractions saturate: the expected result is exactly
/// `3 * d1 + d2 - 2 * d3` over the three data words.
pub fn make_small_task() -> (r: Task)
    ensures
        r.spec_code().len() == 13,
        r.spec_code()[0] == 0x6809u16,
        r.spec_code()[1] == 0x1D01u16,
        r.spec_code()[2] == 0x1D02u16,
        r.spec_code()[3] == 0x1D03u16,
        r.spec_code()[4] == 0x2042u16,
        r.spec_code()[5] == 0x2042u16,
        r.spec_code()[6] == 0x2042u16,
        r.spec_code()[7] == 0x3083u16,
        r.spec_code()[8] == 0x3083u16,
        r.spec_code()[9] == 0x0002u16,
        1 <= r.spec_code()[10] < 1000,
        1000 <= r.spec_code()[11] < 2000,
        1 <= r.spec_code()[12] < 500,
        r.spec_expected_result() == 3 * r.spec_code()[10] + r.spec_code()[11] - 2 * r.spec_code()[
            12
        ],
        1 <= r.spec_id() < 65534,
{
    // Three random numbers in DATA; add the first one to the second
    // one, three times; subtract the third one from the result, twice.
    // The result is in register two. Then return.
    let mut code: Vec<u16> = Vec::new();

    code.push(0x6809u16);  // Set R4 to 9
    code.push(0x1D01u16);  // Copy memory at 9 + PC (R4 holds 9) to R1
    code.push(0x1D02u16);  // Copy memory at 9 + PC to R2
    code.push(0x1D03u16);  // Copy memory at 9 + PC to R3
    code.push(0x2042u16);  // Add R1 to R2
    code.push(0x2042u16);  // Add R1 to R2
    code.push(0x2042u16);  // Add R1 to R2
    code.push(0x3083u16);  // Subtract R2 from R3
    code.push(0x3083u16);  // Subtract R2 from R3
    code.push(0x0002u16);  // Return

    // Three random numbers as data. The second one is at least 1000 to
    // prevent the subtraction from underflowing.
    let d1 = random_in_range(1, 1000);
    let d2 = random_in_range(1000, 2000);
    let d3 = random_in_range(1, 500);

    code.push(d1);
    code.push(d2);
    code.push(d3);

    let expected: u16 = (d1 + d1 + d1 + d2) - (d3 + d3);

    Task { id: random_in_range(1, 65534), code, expected_result: expected }
}

} // verus!
