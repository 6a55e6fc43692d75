use crate::text::{decimal_string, decimal_text};
use std::collections::BTreeMap;
use vstd::prelude::*;
use vstd::string::*;

verus! {

broadcast use vstd::laws_cmp::group_laws_cmp, vstd::std_specs::btree::group_btree_axioms;

/// The readings of one core, in whole degrees Celsius.
#[derive(Debug, Clone, Copy, Default, PartialEq, Eq, Structural)]
pub struct CoreTemperature {
    pub temp: u8,
    pub max: u8,
    pub critical: u8,
}

/// A snapshot of the CPU temperatures: the overall figure and the readings of
/// each core, keyed by core index.
#[derive(Debug, Clone, Default)]
pub struct Temperatures {
    pub avg: u8,
    pub cores: BTreeMap<u8, CoreTemperature>,
}

impl CoreTemperature {
    pub fn new(temp: u8, max: u8, critical: u8) -> (r: Self)
        ensures
            r == (CoreTemperature { temp, max, critical }),
    {
        Self { temp, max, critical }
    }
}

impl Temperatures {
    /// An empty snapshot: no cores, and an average of zero.
    pub fn new() -> (r: Self)
        ensures
            r.avg == 0,
            r.cores@ == Map::<u8, CoreTemperature>::empty(),
    {
        Self { avg: 0, cores: BTreeMap::new() }
    }
}

/// How a core's readings read: `"45°C (max 100, crit 100)"`.
pub open spec fn core_text(c: CoreTemperature) -> Seq<char> {
    decimal_text(c.temp as nat) + "°C (max "@ + decimal_text(c.max as nat) + ", crit "@
        + decimal_text(c.critical as nat) + ")"@
}

/// The line of each core whose index is below `n`, by increasing index.
pub open spec fn core_lines(m: Map<u8, CoreTemperature>, n: nat) -> Seq<Seq<char>>
    decreases n,
{
    if n == 0 {
        seq![]
    } else {
        let id = (n - 1) as u8;
        if m.contains_key(id) {
            core_lines(m, (n - 1) as nat).push(decimal_text(id as nat) + ": "@ + core_text(m[id]))
        } else {
            core_lines(m, (n - 1) as nat)
        }
    }
}

/// Lines joined by `'\n'`, with none after the last.
pub open spec fn join_lines(lines: Seq<Seq<char>>) -> Seq<char>
    decreases lines.len(),
{
    if lines.len() == 0 {
        seq![]
    } else if lines.len() == 1 {
        lines[0]
    } else {
        join_lines(lines.drop_last()) + "\n"@ + lines.last()
    }
}

/// How a snapshot reads: the average on a line of its own, then one line per
/// core by increasing index.
pub open spec fn temperatures_text(avg: u8, m: Map<u8, CoreTemperature>) -> Seq<char> {
    "Average: "@ + decimal_text(avg as nat) + "°C\n"@ + join_lines(core_lines(m, 256))
}

impl CoreTemperature {
    /// How the readings read when shown to a user.
    pub fn render(&self) -> (r: String)
        ensures
            r@ == core_text(*self),
    {
        let r = decimal_string(self.temp as u64).concat("°C (max ").concat(
            decimal_string(self.max as u64).as_str(),
        ).concat(", crit ").concat(decimal_string(self.critical as u64).as_str()).concat(")");
        assert(r@ =~= core_text(*self));
        r
    }
}

impl Temperatures {
    /// How the snapshot reads when shown to a user.
    pub fn render(&self) -> (r: String)
        ensures
            r@ == temperatures_text(self.avg, self.cores@),
    {
        let ghost m = self.cores@;
        let mut out = String::from_str("Average: ").concat(decimal_string(self.avg as u64).as_str()).concat(
            "°C\n",
        );
        let ghost head = out@;
        let mut n: u16 = 0;
        let mut started = false;
        while n < 256
            invariant
                n <= 256,
                started == (core_lines(self.cores@, n as nat).len() > 0),
                m == self.cores@,
                out@ == head + join_lines(core_lines(m, n as nat)),
            decreases 256 - n,
        {
            let id = n as u8;
            let ghost before = core_lines(m, n as nat);
            match self.cores.get(&id) {
                Some(c) => {
                    let line = decimal_string(id as u64).concat(": ").concat(c.render().as_str());
                    let ghost after = before.push(line@);
                    assert(after.drop_last() =~= before);
                    if started {
                        out.append("\n");
                    } else {
                        assert(join_lines(before) =~= Seq::<char>::empty());
                    }
                    out.append(line.as_str());
                    started = true;
                    assert(out@ =~= head + join_lines(after));
                },
                None => {},
            }
            n = n + 1;
        }
        assert(out@ =~= temperatures_text(self.avg, m));
        out
    }
}

} // verus!
