//! The built-in side/sysload definitions: each names a helper script and
//! its arguments, with a sideloader frozen-expiration of thirty seconds.
use vstd::prelude::*;

verus! {

/// One side/sysload definition: command arguments and the sideloader
/// frozen expiration in seconds.
#[derive(Clone, Debug)]
pub struct SideloadSpec {
    pub args: Vec<String>,
    pub frozen_exp: u32,
}

/// The named definitions, in their built-in order, keys unique.
pub struct SideloadDefs {
    pub defs: Vec<(String, SideloadSpec)>,
}

/// The built-in table: each definition's name and arguments.
pub open spec fn side_def_table() -> Seq<(Seq<char>, Seq<Seq<char>>)> {
    seq![
        ("build-linux-half"@, seq!["build-linux.sh"@, "allmodconfig"@, "1"@, "2"@]),
        ("build-linux-1x"@, seq!["build-linux.sh"@, "allmodconfig"@, "1"@]),
        ("build-linux-2x"@, seq!["build-linux.sh"@, "allmodconfig"@, "2"@]),
        ("build-linux-4x"@, seq!["build-linux.sh"@, "allmodconfig"@, "4"@]),
        ("build-linux-8x"@, seq!["build-linux.sh"@, "allmodconfig"@, "8"@]),
        ("build-linux-16x"@, seq!["build-linux.sh"@, "allmodconfig"@, "16"@]),
        ("build-linux-32x"@, seq!["build-linux.sh"@, "allmodconfig"@, "32"@]),
        ("build-linux-unlimited"@, seq!["build-linux.sh"@, "allmodconfig"@]),
        ("build-linux-allnoconfig-1x"@, seq!["build-linux.sh"@, "allnoconfig"@, "1"@]),
        ("build-linux-defconfig-1x"@, seq!["build-linux.sh"@, "defconfig"@, "1"@]),
        ("mem-hog-10pct"@, seq!["mem-hog.sh"@, "10%"@, "0%"@]),
        ("mem-hog-25pct"@, seq!["mem-hog.sh"@, "25%"@, "0%"@]),
        ("mem-hog-50pct"@, seq!["mem-hog.sh"@, "50%"@, "0%"@]),
        ("mem-hog-1x"@, seq!["mem-hog.sh"@, "100%"@, "0%"@]),
        ("mem-hog-2x"@, seq!["mem-hog.sh"@, "200%"@, "0%"@]),
        ("mem-bloat-1x"@, seq!["mem-hog.sh"@, "1000%"@, "100%"@]),
        ("read-bomb"@, seq!["read-bomb.py"@, "1024"@, "16384"@]),
        ("burn-cpus-50pct"@, seq!["burn-cpus.sh"@, "1"@, "2"@]),
        ("burn-cpus-1x"@, seq!["burn-cpus.sh"@, "1"@]),
        ("burn-cpus-2x"@, seq!["burn-cpus.sh"@, "2"@]),
        ("inodesteal-test"@, seq!["inodesteal-test.py"@]),
    ]
}

/// The names of the built-in definitions, in order.
pub open spec fn side_def_names() -> Seq<Seq<char>> {
    seq![
        "build-linux-half"@,
        "build-linux-1x"@,
        "build-linux-2x"@,
        "build-linux-4x"@,
        "build-linux-8x"@,
        "build-linux-16x"@,
        "build-linux-32x"@,
        "build-linux-unlimited"@,
        "build-linux-allnoconfig-1x"@,
        "build-linux-defconfig-1x"@,
        "mem-hog-10pct"@,
        "mem-hog-25pct"@,
        "mem-hog-50pct"@,
        "mem-hog-1x"@,
        "mem-hog-2x"@,
        "mem-bloat-1x"@,
        "read-bomb"@,
        "burn-cpus-50pct"@,
        "burn-cpus-1x"@,
        "burn-cpus-2x"@,
        "inodesteal-test"@,
    ]
}

fn one_arg(a: &str) -> (r: Vec<String>)
    ensures
        r@.len() == 1,
        r@[0]@ == a@,
{
    let mut v: Vec<String> = Vec::new();
    v.push(String::from_str(a));
    v
}

fn two_args(a: &str, b: &str) -> (r: Vec<String>)
    ensures
        r@.len() == 2,
        r@[0]@ == a@,
        r@[1]@ == b@,
{
    let mut v = one_arg(a);
    v.push(String::from_str(b));
    v
}

fn three_args(a: &str, b: &str, c: &str) -> (r: Vec<String>)
    ensures
        r@.len() == 3,
        r@[0]@ == a@,
        r@[1]@ == b@,
        r@[2]@ == c@,
{
    let mut v = two_args(a, b);
    v.push(String::from_str(c));
    v
}

fn four_args(a: &str, b: &str, c: &str, d: &str) -> (r: Vec<String>)
    ensures
        r@.len() == 4,
        r@[0]@ == a@,
        r@[1]@ == b@,
        r@[2]@ == c@,
        r@[3]@ == d@,
{
    let mut v = three_args(a, b, c);
    v.push(String::from_str(d));
    v
}

fn entry(name: &str, args: Vec<String>) -> (r: (String, SideloadSpec))
    requires
        args@.len() >= 1,
    ensures
        r.0@ == name@,
        r.1.frozen_exp == 30,
        r.1.args@ == args@,
{
    (String::from_str(name), SideloadSpec { args, frozen_exp: 30 })
}

impl Default for SideloadDefs {
    /// The built-in table: Linux-build loads at several widths, memory
    /// hogs from a tenth to twice of memory plus a bloater, a read bomb,
    /// CPU burners, and an inode-steal test.
    fn default() -> (r: SideloadDefs)
        ensures
            r.defs@.len() == side_def_table().len(),
            forall|i: int|
                0 <= i < r.defs@.len() ==> (#[trigger] r.defs@[i].0@) == side_def_names()[i]
                    && r.defs@[i].1.frozen_exp == 30 && r.defs@[i].1.args@.len() >= 1,
            forall|i: int|
                0 <= i < r.defs@.len() ==> (#[trigger] r.defs@[i].0@) == side_def_table()[i].0
                    && r.defs@[i].1.args@.len() == side_def_table()[i].1.len(),
            forall|i: int, j: int|
                0 <= i < r.defs@.len() && 0 <= j < side_def_table()[i].1.len()
                    ==> (#[trigger] r.defs@[i].1.args@[j]@) == side_def_table()[i].1[j],
    {
        let mut defs: Vec<(String, SideloadSpec)> = Vec::new();
        defs.push(entry("build-linux-half", four_args("build-linux.sh", "allmodconfig", "1", "2")));
        defs.push(entry("build-linux-1x", three_args("build-linux.sh", "allmodconfig", "1")));
        defs.push(entry("build-linux-2x", three_args("build-linux.sh", "allmodconfig", "2")));
        defs.push(entry("build-linux-4x", three_args("build-linux.sh", "allmodconfig", "4")));
        defs.push(entry("build-linux-8x", three_args("build-linux.sh", "allmodconfig", "8")));
        defs.push(entry("build-linux-16x", three_args("build-linux.sh", "allmodconfig", "16")));
        defs.push(entry("build-linux-32x", three_args("build-linux.sh", "allmodconfig", "32")));
        defs.push(entry("build-linux-unlimited", two_args("build-linux.sh", "allmodconfig")));
        defs.push(
            entry("build-linux-allnoconfig-1x", three_args("build-linux.sh", "allnoconfig", "1")),
        );
        defs.push(
            entry("build-linux-defconfig-1x", three_args("build-linux.sh", "defconfig", "1")),
        );
        defs.push(entry("mem-hog-10pct", three_args("mem-hog.sh", "10%", "0%")));
        defs.push(entry("mem-hog-25pct", three_args("mem-hog.sh", "25%", "0%")));
        defs.push(entry("mem-hog-50pct", three_args("mem-hog.sh", "50%", "0%")));
        defs.push(entry("mem-hog-1x", three_args("mem-hog.sh", "100%", "0%")));
        defs.push(entry("mem-hog-2x", three_args("mem-hog.sh", "200%", "0%")));
        defs.push(entry("mem-bloat-1x", three_args("mem-hog.sh", "1000%", "100%")));
        defs.push(entry("read-bomb", three_args("read-bomb.py", "1024", "16384")));
        defs.push(entry("burn-cpus-50pct", three_args("burn-cpus.sh", "1", "2")));
        defs.push(entry("burn-cpus-1x", two_args("burn-cpus.sh", "1")));
        defs.push(entry("burn-cpus-2x", two_args("burn-cpus.sh", "2")));
        defs.push(entry("inodesteal-test", one_arg("inodesteal-test.py")));
        SideloadDefs { defs }
    }
}

impl SideloadDefs {
    /// The comment block written ahead of the definitions file.
    pub fn preamble() -> (r: String)
        ensures
            r@
                == "//\n// rd-agent side/sysload definitions\n//\n//  DEF_ID.args[]: Command arguments\n//  DEF_ID.frozen_exp: Sideloader frozen expiration duration\n//\n"@,
    {
        String::from_str(
            "//\n// rd-agent side/sysload definitions\n//\n//  DEF_ID.args[]: Command arguments\n//  DEF_ID.frozen_exp: Sideloader frozen expiration duration\n//\n",
        )
    }

    /// Looks a definition up by name: the first entry under that name.
    pub fn get(&self, name: &String) -> (r: Option<&SideloadSpec>)
        ensures
            match r {
                Some(spec_ref) => exists|i: int|
                    0 <= i < self.defs@.len() && (#[trigger] self.defs@[i].0@) == name@ && *spec_ref
                        == self.defs@[i].1,
                None => forall|i: int|
                    0 <= i < self.defs@.len() ==> (#[trigger] self.defs@[i].0@) != name@,
            },
    {
        let mut i: usize = 0;
        while i < self.defs.len()
            invariant
                i <= self.defs@.len(),
                forall|j: int| 0 <= j < i ==> (#[trigger] self.defs@[j].0@) != name@,
            decreases self.defs@.len() - i,
        {
            if self.defs[i].0.eq(name) {
                proof {
                    assert((self.defs@[i as int].0@) == name@);
                }
                return Some(&self.defs[i].1);
            }
            i = i + 1;
        }
        None
    }
}

} // verus!
