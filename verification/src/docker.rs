//! Paths and names the container-backed deployment derives from its
//! instance number: the shared time-offset file, the tap interface and
//! the container's freezer control file. The processes that open them
//! live outside this crate.
use vstd::prelude::*;

use vstd::string::StringExecFns;

verus! {

/// The decimal digit character for a value below ten.
pub open spec fn spec_digit(d: int) -> char {
    if d == 0 {
        '0'
    } else if d == 1 {
        '1'
    } else if d == 2 {
        '2'
    } else if d == 3 {
        '3'
    } else if d == 4 {
        '4'
    } else if d == 5 {
        '5'
    } else if d == 6 {
        '6'
    } else if d == 7 {
        '7'
    } else if d == 8 {
        '8'
    } else {
        '9'
    }
}

/// The decimal digits of a non-negative number, most significant first.
pub open spec fn spec_decimal(n: int) -> Seq<char>
    decreases n,
{
    if n < 10 {
        seq![spec_digit(n)]
    } else {
        spec_decimal(n / 10) + seq![spec_digit(n % 10)]
    }
}

/// One decimal digit as a string.
fn digit_str(d: u32) -> (r: &'static str)
    requires
        d < 10,
    ensures
        r@ == seq![spec_digit(d as int)],
{
    proof {
        reveal_strlit("0");
        reveal_strlit("1");
        reveal_strlit("2");
        reveal_strlit("3");
        reveal_strlit("4");
        reveal_strlit("5");
        reveal_strlit("6");
        reveal_strlit("7");
        reveal_strlit("8");
        reveal_strlit("9");
    }
    if d == 0 {
        "0"
    } else if d == 1 {
        "1"
    } else if d == 2 {
        "2"
    } else if d == 3 {
        "3"
    } else if d == 4 {
        "4"
    } else if d == 5 {
        "5"
    } else if d == 6 {
        "6"
    } else if d == 7 {
        "7"
    } else if d == 8 {
        "8"
    } else {
        "9"
    }
}

/// Formats a number in decimal.
pub fn u32_to_decimal(n: u32) -> (r: String)
    ensures
        r@ == spec_decimal(n as int),
    decreases n,
{
    if n < 10 {
        String::from_str(digit_str(n))
    } else {
        let mut r = u32_to_decimal(n / 10);
        r.append(digit_str(n % 10));
        proof {
            assert(r@ =~= spec_decimal(n as int));
        }
        r
    }
}

/// The shared-memory file this instance publishes its time offset in.
pub fn get_offset_shm_path(seqnum: u32) -> (r: String)
    ensures
        r@ == "/dev/shm/tansiv-time-"@ + spec_decimal(seqnum as int),
{
    let mut path = String::from_str("/dev/shm/tansiv-time");
    path.append("-");
    let digits = u32_to_decimal(seqnum);
    path.append(digits.as_str());
    proof {
        reveal_strlit("/dev/shm/tansiv-time");
        reveal_strlit("-");
        reveal_strlit("/dev/shm/tansiv-time-");
        assert(path@ =~= "/dev/shm/tansiv-time-"@ + spec_decimal(seqnum as int));
    }
    path
}

/// The tap interface name for this instance.
pub fn get_tap_interface_name(seqnum: u32) -> (r: String)
    ensures
        r@ == "tapt"@ + spec_decimal(seqnum as int),
{
    let mut name = String::from_str("tapt");
    let digits = u32_to_decimal(seqnum);
    name.append(digits.as_str());
    name
}

/// The cgroup freezer control file of a container.
pub fn get_cgroup_freeze_path(container_id: &str) -> (r: String)
    ensures
        r@ == "/sys/fs/cgroup/unified/docker/"@ + container_id@ + "/cgroup.freeze"@,
{
    let mut path = String::from_str("/sys/fs/cgroup/unified/docker/");
    path.append(container_id);
    path.append("/cgroup.freeze");
    path
}

} // verus!
