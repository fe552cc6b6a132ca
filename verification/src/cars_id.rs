//! The identifier mint: unique vehicle identifiers of the form `"DDR-NNNN"`,
//! a three-letter approach/route code and a zero-padded counter.

use vstd::prelude::*;
use vstd::string::StringExecFns;

use crate::intersection::{Direction, Route};

verus! {

/// The decimal digit character of `d`.
pub open spec fn digit_char(d: int) -> char {
    if d == 0 {
        '0'
    } else if d == 1 {
        '1'
    } else if d == 2 {
        '2'
    } else if d == 3 {
        '3'
    } else if d == 4 {
        '4'
    } else if d == 5 {
        '5'
    } else if d == 6 {
        '6'
    } else if d == 7 {
        '7'
    } else if d == 8 {
        '8'
    } else {
        '9'
    }
}

/// `n` as four zero-padded decimal digits.
pub open spec fn pad4_chars(n: int) -> Seq<char> {
    seq![
        digit_char(n / 1000 % 10),
        digit_char(n / 100 % 10),
        digit_char(n / 10 % 10),
        digit_char(n % 10),
    ]
}

/// The three-letter approach/route code.
pub open spec fn prefix_chars(direction: Direction, route: Route) -> Seq<char> {
    match (direction, route) {
        (Direction::South, Route::Right) => seq!['S', 'R', 'T'],
        (Direction::South, Route::Left) => seq!['S', 'L', 'T'],
        (Direction::South, Route::Straight) => seq!['S', 'S', 'T'],
        (Direction::North, Route::Right) => seq!['N', 'R', 'T'],
        (Direction::North, Route::Left) => seq!['N', 'L', 'T'],
        (Direction::North, Route::Straight) => seq!['N', 'S', 'T'],
        (Direction::East, Route::Right) => seq!['E', 'R', 'T'],
        (Direction::East, Route::Left) => seq!['E', 'L', 'T'],
        (Direction::East, Route::Straight) => seq!['E', 'S', 'T'],
        (Direction::West, Route::Right) => seq!['W', 'R', 'T'],
        (Direction::West, Route::Left) => seq!['W', 'L', 'T'],
        (Direction::West, Route::Straight) => seq!['W', 'S', 'T'],
    }
}

/// The full identifier text of the `n`-th vehicle of an approach lane.
pub open spec fn spec_car_id(direction: Direction, route: Route, n: int) -> Seq<char> {
    prefix_chars(direction, route) + seq!['-'] + pad4_chars(n)
}

/// One decimal digit as text.
fn digit_str(d: usize) -> (s: &'static str)
    requires
        d < 10,
    ensures
        s@ == seq![digit_char(d as int)],
{
    let s = match d {
        0 => "0",
        1 => "1",
        2 => "2",
        3 => "3",
        4 => "4",
        5 => "5",
        6 => "6",
        7 => "7",
        8 => "8",
        _ => "9",
    };
    proof {
        reveal_strlit("0");
        reveal_strlit("1");
        reveal_strlit("2");
        reveal_strlit("3");
        reveal_strlit("4");
        reveal_strlit("5");
        reveal_strlit("6");
        reveal_strlit("7");
        reveal_strlit("8");
        reveal_strlit("9");
        assert(s@ =~= seq![digit_char(d as int)]);
    }
    s
}

/// The three-letter code as text.
fn prefix_str(direction: Direction, route: Route) -> (s: &'static str)
    ensures
        s@ == prefix_chars(direction, route),
{
    let s = match (direction, route) {
        (Direction::South, Route::Right) => "SRT",
        (Direction::South, Route::Left) => "SLT",
        (Direction::South, Route::Straight) => "SST",
        (Direction::North, Route::Right) => "NRT",
        (Direction::North, Route::Left) => "NLT",
        (Direction::North, Route::Straight) => "NST",
        (Direction::East, Route::Right) => "ERT",
        (Direction::East, Route::Left) => "ELT",
        (Direction::East, Route::Straight) => "EST",
        (Direction::West, Route::Right) => "WRT",
        (Direction::West, Route::Left) => "WLT",
        (Direction::West, Route::Straight) => "WST",
    };
    proof {
        reveal_strlit("SRT");
        reveal_strlit("SLT");
        reveal_strlit("SST");
        reveal_strlit("NRT");
        reveal_strlit("NLT");
        reveal_strlit("NST");
        reveal_strlit("ERT");
        reveal_strlit("ELT");
        reveal_strlit("EST");
        reveal_strlit("WRT");
        reveal_strlit("WLT");
        reveal_strlit("WST");
        assert(s@ =~= prefix_chars(direction, route));
    }
    s
}

/// Mints vehicle identifiers with a monotonically increasing counter.
pub struct CarIdGenerator {
    pub current: usize,
    pub max: usize,
}

impl CarIdGenerator {
    /// A fresh mint counting from 1 up to 9999.
    pub fn new() -> (r: CarIdGenerator)
        ensures
            r.current == 0,
            r.max == 9999,
    {
        CarIdGenerator { current: 0, max: 9999 }
    }

    /// The next counter value, or `None` once the mint is exhausted.
    pub fn next(&mut self) -> (r: Option<usize>)
        ensures
            old(self).current < old(self).max ==> {
                &&& r == Some((old(self).current + 1) as usize)
                &&& final(self).current == old(self).current + 1
            },
            old(self).current >= old(self).max ==> {
                &&& r is None
                &&& *final(self) == *old(self)
            },
            final(self).max == old(self).max,
    {
        if self.current >= self.max {
            None
        } else {
            self.current = self.current + 1;
            Some(self.current)
        }
    }

    /// The next identifier for a vehicle of the `(direction, route)` lane.
    pub fn get_next(&mut self, direction: Direction, route: Route) -> (id: String)
        requires
            old(self).current < old(self).max,
            old(self).max <= 9999,
        ensures
            final(self).current == old(self).current + 1,
            final(self).max == old(self).max,
            id@ == spec_car_id(direction, route, old(self).current + 1),
    {
        let n = if let Some(v) = self.next() {
            v
        } else {
            0
        };
        let mut id = String::new();
        id.append(prefix_str(direction, route));
        id.append("-");
        proof {
            reveal_strlit("-");
        }
        id.append(digit_str(n / 1000 % 10));
        id.append(digit_str(n / 100 % 10));
        id.append(digit_str(n / 10 % 10));
        id.append(digit_str(n % 10));
        proof {
            assert(id@ =~= spec_car_id(direction, route, n as int));
        }
        id
    }
}

} // verus!
